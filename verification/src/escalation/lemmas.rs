//! Facts about the per-service offense counts.

use crate::escalation::contract::{offense_map, offenses_unique, OffenseRecord};
use vstd::prelude::*;

verus! {

/// With one record per service, the count stored for a record's service is
/// that record's count.
pub proof fn lemma_offense_lookup(s: Seq<OffenseRecord>, i: int)
    requires
        offenses_unique(s),
        0 <= i < s.len(),
    ensures
        offense_map(s).contains_key(s[i].service@),
        offense_map(s)[s[i].service@] == s[i].count as int,
{
    let k = s[i].service@;
    assert(exists|j: int| 0 <= j < s.len() && (#[trigger] s[j]).service@ == k);
    let j = choose|j: int| 0 <= j < s.len() && (#[trigger] s[j]).service@ == k;
    if j != i {
        assert(s[i].service@ != s[j].service@);
    }
}

/// A service with no record has no stored count.
pub proof fn lemma_offense_absent(s: Seq<OffenseRecord>, k: Seq<u8>)
    requires
        forall|j: int| 0 <= j < s.len() ==> (#[trigger] s[j]).service@ != k,
    ensures
        !offense_map(s).contains_key(k),
{
}

/// Two record lists that agree on every service but `key`, the second
/// holding `count` for `key`, differ by that one entry.
proof fn lemma_offense_map_insert(s: Seq<OffenseRecord>, t: Seq<OffenseRecord>, key: Seq<u8>, count: int)
    requires
        offense_map(t).contains_key(key),
        offense_map(t)[key] == count,
        forall|k: Seq<u8>|
            k != key ==> (#[trigger] offense_map(t).contains_key(k)) == offense_map(s).contains_key(k),
        forall|k: Seq<u8>|
            k != key && offense_map(t).contains_key(k) ==> #[trigger] offense_map(t)[k] == offense_map(s)[k],
    ensures
        offense_map(t) =~= offense_map(s).insert(key, count),
{
    let m = offense_map(s).insert(key, count);
    assert forall|k: Seq<u8>| #[trigger] offense_map(t).contains_key(k) <==> m.contains_key(k) by {
        if k != key {
            assert(offense_map(t).contains_key(k) == offense_map(s).contains_key(k));
        }
    }
    assert forall|k: Seq<u8>| #[trigger] offense_map(t).contains_key(k) implies offense_map(t)[k] == m[k] by {
        if k != key {
            assert(offense_map(t)[k] == offense_map(s)[k]);
        }
    }
    assert(offense_map(t).dom() =~= m.dom());
}

/// Changing the count of a record changes the stored count of its service.
pub proof fn lemma_offense_update(s: Seq<OffenseRecord>, i: int, r: OffenseRecord)
    requires
        offenses_unique(s),
        0 <= i < s.len(),
        r.service@ == s[i].service@,
    ensures
        offenses_unique(s.update(i, r)),
        offense_map(s.update(i, r)) =~= offense_map(s).insert(r.service@, r.count as int),
{
    let t = s.update(i, r);
    assert forall|a: int, b: int| 0 <= a < t.len() && 0 <= b < t.len() && a != b implies (
    #[trigger] t[a]).service@ != (#[trigger] t[b]).service@ by {
        assert(s[a].service@ != s[b].service@);
    }
    lemma_offense_lookup(t, i);
    assert forall|k: Seq<u8>| k != r.service@ implies (#[trigger] offense_map(t).contains_key(k))
        == offense_map(s).contains_key(k) && (offense_map(t).contains_key(k) ==> offense_map(
        t,
    )[k] == offense_map(s)[k]) by {
        if offense_map(s).contains_key(k) {
            let j = choose|j: int| 0 <= j < s.len() && (#[trigger] s[j]).service@ == k;
            lemma_offense_lookup(s, j);
            lemma_offense_lookup(t, j);
        }
        if offense_map(t).contains_key(k) {
            let j = choose|j: int| 0 <= j < t.len() && (#[trigger] t[j]).service@ == k;
            lemma_offense_lookup(t, j);
            lemma_offense_lookup(s, j);
        }
    }
    lemma_offense_map_insert(s, t, r.service@, r.count as int);
}

/// Adding a record for a new service stores its count.
pub proof fn lemma_offense_push(s: Seq<OffenseRecord>, r: OffenseRecord)
    requires
        offenses_unique(s),
        !offense_map(s).contains_key(r.service@),
    ensures
        offenses_unique(s.push(r)),
        offense_map(s.push(r)) =~= offense_map(s).insert(r.service@, r.count as int),
{
    let t = s.push(r);
    assert forall|j: int| 0 <= j < s.len() implies (#[trigger] s[j]).service@ != r.service@ by {
        if s[j].service@ == r.service@ {
            lemma_offense_lookup(s, j);
        }
    }
    assert forall|a: int, b: int| 0 <= a < t.len() && 0 <= b < t.len() && a != b implies (
    #[trigger] t[a]).service@ != (#[trigger] t[b]).service@ by {
        if a < s.len() && b < s.len() {
            assert(s[a].service@ != s[b].service@);
        }
    }
    lemma_offense_lookup(t, s.len() as int);
    assert forall|k: Seq<u8>| k != r.service@ implies (#[trigger] offense_map(t).contains_key(k))
        == offense_map(s).contains_key(k) && (offense_map(t).contains_key(k) ==> offense_map(
        t,
    )[k] == offense_map(s)[k]) by {
        if offense_map(s).contains_key(k) {
            let j = choose|j: int| 0 <= j < s.len() && (#[trigger] s[j]).service@ == k;
            lemma_offense_lookup(s, j);
            lemma_offense_lookup(t, j);
        }
        if offense_map(t).contains_key(k) {
            let j = choose|j: int| 0 <= j < t.len() && (#[trigger] t[j]).service@ == k;
            lemma_offense_lookup(t, j);
            assert(j < s.len());
            lemma_offense_lookup(s, j);
        }
    }
    lemma_offense_map_insert(s, t, r.service@, r.count as int);
}

} // verus!
