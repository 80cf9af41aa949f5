use crate::account::AccountId;
use vstd::prelude::*;

verus! {

/// A movement of the bond token that a contract call asks for, seen from
/// the contract: tokens paid into the contract by `from`, or paid out of
/// the contract to `to`.
pub enum TokenMove {
    In { from: AccountId, amount: i128 },
    Out { to: AccountId, amount: i128 },
}

/// The spec form of a [`TokenMove`].
pub enum TokenMoveView {
    In { from: Seq<u8>, amount: int },
    Out { to: Seq<u8>, amount: int },
}

impl View for TokenMove {
    type V = TokenMoveView;

    open spec fn view(&self) -> TokenMoveView {
        match self {
            TokenMove::In { from, amount } => TokenMoveView::In { from: from@, amount: *amount as int },
            TokenMove::Out { to, amount } => TokenMoveView::Out { to: to@, amount: *amount as int },
        }
    }
}

/// The views of a list of token movements, in order.
pub open spec fn moves_view(moves: Seq<TokenMove>) -> Seq<TokenMoveView> {
    moves.map_values(|m: TokenMove| m@)
}

/// What an accepted call asks the host to do besides changing the state:
/// token movements, in order, and the event to publish.
pub struct Receipt<E> {
    pub transfers: Vec<TokenMove>,
    pub event: E,
}

/// A payment into the contract.
pub fn pay_in(from: &AccountId, amount: i128) -> (m: TokenMove)
    ensures
        m@ == (TokenMoveView::In { from: from@, amount: amount as int }),
{
    TokenMove::In { from: from.duplicate(), amount }
}

/// A payment out of the contract.
pub fn pay_out(to: &AccountId, amount: i128) -> (m: TokenMove)
    ensures
        m@ == (TokenMoveView::Out { to: to@, amount: amount as int }),
{
    TokenMove::Out { to: to.duplicate(), amount }
}

} // verus!
