//! Facts about registry states used by the proofs of the calls and laws.

use crate::registry::model::{
    current_reward_per_token, index_of, is_registered, registry_wf, service_wf, settled,
    sum_bonds, with_rewards_updated, RegistryView,
};
use crate::registry::rewards::{lemma_earned_grows, lemma_reward_per_token_monotone};
use crate::registry::types::ServiceView;
use vstd::prelude::*;

verus! {

/// Appending a record adds its bond to the sum.
pub proof fn lemma_sum_push(s: Seq<ServiceView>, x: ServiceView)
    ensures
        sum_bonds(s.push(x)) == sum_bonds(s) + x.bond,
{
    assert(s.push(x).drop_last() =~= s);
}

/// Replacing a record changes the sum by the difference of the bonds.
pub proof fn lemma_sum_update(s: Seq<ServiceView>, i: int, x: ServiceView)
    requires
        0 <= i < s.len(),
    ensures
        sum_bonds(s.update(i, x)) == sum_bonds(s) - s[i].bond + x.bond,
    decreases s.len(),
{
    if i == s.len() - 1 {
        assert(s.update(i, x).drop_last() =~= s.drop_last());
    } else {
        lemma_sum_update(s.drop_last(), i, x);
        assert(s.update(i, x).drop_last() =~= s.drop_last().update(i, x));
    }
}

/// Removing a record takes its bond off the sum.
pub proof fn lemma_sum_remove(s: Seq<ServiceView>, i: int)
    requires
        0 <= i < s.len(),
    ensures
        sum_bonds(s.remove(i)) == sum_bonds(s) - s[i].bond,
    decreases s.len(),
{
    if i == s.len() - 1 {
        assert(s.remove(i) =~= s.drop_last());
    } else {
        lemma_sum_remove(s.drop_last(), i);
        assert(s.remove(i).drop_last() =~= s.drop_last().remove(i));
    }
}

/// With no negative bonds, each bond is at most the sum, and the sum is not
/// negative.
pub proof fn lemma_bond_le_sum(s: Seq<ServiceView>, i: int)
    requires
        0 <= i < s.len(),
        forall|j: int| 0 <= j < s.len() ==> (#[trigger] s[j]).bond >= 0,
    ensures
        s[i].bond <= sum_bonds(s),
        sum_bonds(s) >= 0,
    decreases s.len(),
{
    lemma_sum_nonneg(s.drop_last());
    if i < s.len() - 1 {
        lemma_bond_le_sum(s.drop_last(), i);
    }
}

/// With no negative bonds the sum is not negative.
pub proof fn lemma_sum_nonneg(s: Seq<ServiceView>)
    requires
        forall|j: int| 0 <= j < s.len() ==> (#[trigger] s[j]).bond >= 0,
    ensures
        sum_bonds(s) >= 0,
    decreases s.len(),
{
    if s.len() > 0 {
        lemma_sum_nonneg(s.drop_last());
    }
}

/// In a well-formed registry no bond is negative and each bond is at most
/// the total.
pub proof fn lemma_total_nonneg(v: RegistryView)
    requires
        registry_wf(v),
    ensures
        v.total_bonds >= 0,
        forall|i: int| 0 <= i < v.services.len() ==> 0 <= (#[trigger] v.services[i]).bond <= v.total_bonds,
{
    assert forall|j: int| 0 <= j < v.services.len() implies (#[trigger] v.services[j]).bond >= 0 by {
        assert(service_wf(v.services[j], v.reward_per_token_stored));
    }
    lemma_sum_nonneg(v.services);
    assert forall|i: int| 0 <= i < v.services.len() implies 0 <= (#[trigger] v.services[i]).bond
        <= v.total_bonds by {
        lemma_bond_le_sum(v.services, i);
    }
}

/// In a well-formed registry the record found for a key is the only one
/// with that owner.
pub proof fn lemma_index_of(v: RegistryView, key: Seq<u8>, i: int)
    requires
        registry_wf(v),
        0 <= i < v.services.len(),
        v.services[i].owner == key,
    ensures
        is_registered(v, key),
        index_of(v, key) == i,
{
    assert(is_registered(v, key));
    let j = index_of(v, key);
    assert(0 <= j < v.services.len() && v.services[j].owner == key);
    if j != i {
        assert(v.services[i].owner != v.services[j].owner);
    }
}

/// A registered key's record is at a valid position and has that owner.
pub proof fn lemma_registered_index(v: RegistryView, key: Seq<u8>)
    requires
        is_registered(v, key),
    ensures
        0 <= index_of(v, key) < v.services.len(),
        v.services[index_of(v, key)].owner == key,
{
}

/// Bringing the reward state up to date keeps the registry well formed and
/// never lowers the stored reward per token.
pub proof fn lemma_rewards_updated_wf(v: RegistryView, now: int)
    requires
        registry_wf(v),
    ensures
        registry_wf(with_rewards_updated(v, now)),
        with_rewards_updated(v, now).reward_per_token_stored >= v.reward_per_token_stored,
        with_rewards_updated(v, now).services == v.services,
        with_rewards_updated(v, now).total_bonds == v.total_bonds,
{
    lemma_total_nonneg(v);
    lemma_reward_per_token_monotone(
        v.total_bonds,
        v.reward_per_token_stored,
        v.reward_rate,
        v.last_update_time,
        v.reward_end_time,
        now,
    );
    let u = with_rewards_updated(v, now);
    assert forall|i: int| 0 <= i < u.services.len() implies service_wf(
        #[trigger] u.services[i],
        u.reward_per_token_stored,
    ) by {
        assert(service_wf(v.services[i], v.reward_per_token_stored));
    }
    assert forall|i: int, j: int|
        0 <= i < u.services.len() && 0 <= j < u.services.len() && i != j implies (
    #[trigger] u.services[i]).owner != (#[trigger] u.services[j]).owner by {
        assert(v.services[i].owner != v.services[j].owner);
    }
}

/// Settling a record at the updated reward per token keeps it consistent and
/// never lowers its unclaimed rewards.
pub proof fn lemma_settled_wf(v: RegistryView, i: int, now: int)
    requires
        registry_wf(v),
        0 <= i < v.services.len(),
    ensures
        service_wf(
            settled(v.services[i], current_reward_per_token(v, now)),
            with_rewards_updated(v, now).reward_per_token_stored,
        ),
        settled(v.services[i], current_reward_per_token(v, now)).accrued_rewards
            >= v.services[i].accrued_rewards,
{
    lemma_rewards_updated_wf(v, now);
    let s = v.services[i];
    assert(service_wf(s, v.reward_per_token_stored));
    assert(s.bond >= 0);
    lemma_earned_grows(
        s.bond,
        current_reward_per_token(v, now),
        s.reward_per_token_paid,
        s.accrued_rewards,
    );
}

/// Replacing a record by a consistent one with the same owner, and moving
/// the total by the change of bond, keeps the registry well formed.
pub proof fn lemma_replace_wf(u: RegistryView, i: int, x: ServiceView)
    requires
        registry_wf(u),
        0 <= i < u.services.len(),
        x.owner == u.services[i].owner,
        service_wf(x, u.reward_per_token_stored),
    ensures
        registry_wf(
            RegistryView {
                services: u.services.update(i, x),
                total_bonds: u.total_bonds - u.services[i].bond + x.bond,
                ..u
            },
        ),
{
    lemma_sum_update(u.services, i, x);
    let w = RegistryView {
        services: u.services.update(i, x),
        total_bonds: u.total_bonds - u.services[i].bond + x.bond,
        ..u
    };
    assert forall|a: int, b: int|
        0 <= a < w.services.len() && 0 <= b < w.services.len() && a != b implies (
    #[trigger] w.services[a]).owner != (#[trigger] w.services[b]).owner by {
        assert(u.services[a].owner != u.services[b].owner);
    }
    assert forall|a: int| 0 <= a < w.services.len() implies service_wf(
        #[trigger] w.services[a],
        w.reward_per_token_stored,
    ) by {
        if a != i {
            assert(service_wf(u.services[a], u.reward_per_token_stored));
        }
    }
}

/// Removing a record, and its bond from the total, keeps the registry well
/// formed.
pub proof fn lemma_remove_wf(u: RegistryView, i: int)
    requires
        registry_wf(u),
        0 <= i < u.services.len(),
    ensures
        registry_wf(
            RegistryView {
                services: u.services.remove(i),
                total_bonds: u.total_bonds - u.services[i].bond,
                ..u
            },
        ),
{
    lemma_sum_remove(u.services, i);
    let w = RegistryView {
        services: u.services.remove(i),
        total_bonds: u.total_bonds - u.services[i].bond,
        ..u
    };
    assert forall|a: int, b: int|
        0 <= a < w.services.len() && 0 <= b < w.services.len() && a != b implies (
    #[trigger] w.services[a]).owner != (#[trigger] w.services[b]).owner by {
        let a0 = if a < i { a } else { a + 1 };
        let b0 = if b < i { b } else { b + 1 };
        assert(w.services[a] == u.services[a0]);
        assert(w.services[b] == u.services[b0]);
        assert(u.services[a0].owner != u.services[b0].owner);
    }
    assert forall|a: int| 0 <= a < w.services.len() implies service_wf(
        #[trigger] w.services[a],
        w.reward_per_token_stored,
    ) by {
        let a0 = if a < i { a } else { a + 1 };
        assert(w.services[a] == u.services[a0]);
        assert(service_wf(u.services[a0], u.reward_per_token_stored));
    }
}

/// Appending a consistent record for a new owner, and its bond to the total,
/// keeps the registry well formed.
pub proof fn lemma_push_wf(u: RegistryView, x: ServiceView)
    requires
        registry_wf(u),
        !is_registered(u, x.owner),
        service_wf(x, u.reward_per_token_stored),
    ensures
        registry_wf(
            RegistryView {
                services: u.services.push(x),
                total_bonds: u.total_bonds + x.bond,
                ..u
            },
        ),
{
    lemma_sum_push(u.services, x);
    let w = RegistryView { services: u.services.push(x), total_bonds: u.total_bonds + x.bond, ..u };
    assert forall|a: int, b: int|
        0 <= a < w.services.len() && 0 <= b < w.services.len() && a != b implies (
    #[trigger] w.services[a]).owner != (#[trigger] w.services[b]).owner by {
        if a < u.services.len() && b < u.services.len() {
            assert(u.services[a].owner != u.services[b].owner);
        } else if a < u.services.len() {
            assert(u.services[a].owner != x.owner);
        } else {
            assert(u.services[b].owner != x.owner);
        }
    }
    assert forall|a: int| 0 <= a < w.services.len() implies service_wf(
        #[trigger] w.services[a],
        w.reward_per_token_stored,
    ) by {
        if a < u.services.len() {
            assert(service_wf(u.services[a], u.reward_per_token_stored));
        }
    }
}

} // verus!
