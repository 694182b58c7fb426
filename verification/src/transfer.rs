//! Token movements that a contract call asks its host to carry out.

use vstd::prelude::*;
use crate::keys::Address;

verus! {

/// Which way tokens move between an account and the contract.
#[derive(Clone, Copy, Debug, PartialEq, Eq, Structural)]
pub enum Direction {
    /// From the account into the contract's custody.
    IntoContract,
    /// From the contract's custody to the account.
    OutOfContract,
}

/// A movement of `amount` of `token` between `account` and the contract.
#[derive(Debug)]
pub struct Transfer {
    pub token: Address,
    pub account: Address,
    pub direction: Direction,
    pub amount: i128,
}

/// A transfer by value: token, account, direction, amount.
pub type TransferView = (Seq<u8>, Seq<u8>, Direction, i128);

impl View for Transfer {
    type V = TransferView;

    open spec fn view(&self) -> TransferView {
        (self.token@, self.account@, self.direction, self.amount)
    }
}

/// The transfers of a list, by value.
pub open spec fn transfers_view(s: Seq<Transfer>) -> Seq<TransferView> {
    s.map_values(|t: Transfer| t@)
}

/// The amount of `token` that a transfer moves into the contract (0 otherwise).
pub open spec fn amount_in(t: TransferView, token: Seq<u8>) -> int {
    if t.2 == Direction::IntoContract && t.0 == token {
        t.3 as int
    } else {
        0
    }
}

/// The amount of `token` that a transfer moves out of the contract (0 otherwise).
pub open spec fn amount_out(t: TransferView, token: Seq<u8>) -> int {
    if t.2 == Direction::OutOfContract && t.0 == token {
        t.3 as int
    } else {
        0
    }
}

/// The amount that a transfer pays out to `account` (0 otherwise).
pub open spec fn amount_paid_to(t: TransferView, account: Seq<u8>) -> int {
    if t.2 == Direction::OutOfContract && t.1 == account {
        t.3 as int
    } else {
        0
    }
}

/// How much of `token` a list of transfers moves into the contract.
pub open spec fn flow_in(s: Seq<TransferView>, token: Seq<u8>) -> int
    decreases s.len(),
{
    if s.len() == 0 {
        0
    } else {
        flow_in(s.drop_last(), token) + amount_in(s.last(), token)
    }
}

/// How much of `token` a list of transfers moves out of the contract.
pub open spec fn flow_out(s: Seq<TransferView>, token: Seq<u8>) -> int
    decreases s.len(),
{
    if s.len() == 0 {
        0
    } else {
        flow_out(s.drop_last(), token) + amount_out(s.last(), token)
    }
}

/// How much a list of transfers pays out to `account`.
pub open spec fn paid_to(s: Seq<TransferView>, account: Seq<u8>) -> int
    decreases s.len(),
{
    if s.len() == 0 {
        0
    } else {
        paid_to(s.drop_last(), account) + amount_paid_to(s.last(), account)
    }
}

/// The flows of lists of no, one and two transfers.
pub proof fn lemma_flows_small(x: TransferView, y: TransferView, token: Seq<u8>, account: Seq<u8>)
    ensures
        flow_in(Seq::<TransferView>::empty(), token) == 0,
        flow_out(Seq::<TransferView>::empty(), token) == 0,
        paid_to(Seq::<TransferView>::empty(), account) == 0,
        flow_in(seq![x], token) == amount_in(x, token),
        flow_out(seq![x], token) == amount_out(x, token),
        paid_to(seq![x], account) == amount_paid_to(x, account),
        flow_in(seq![x, y], token) == amount_in(x, token) + amount_in(y, token),
        flow_out(seq![x, y], token) == amount_out(x, token) + amount_out(y, token),
        paid_to(seq![x, y], account) == amount_paid_to(x, account) + amount_paid_to(y, account),
{
    assert(seq![x].drop_last() =~= Seq::<TransferView>::empty());
    assert(seq![x].last() == x);
    assert(seq![x, y].drop_last() =~= seq![x]);
    assert(seq![x, y].last() == y);
    assert(flow_in(Seq::<TransferView>::empty(), token) == 0);
    assert(flow_out(Seq::<TransferView>::empty(), token) == 0);
    assert(paid_to(Seq::<TransferView>::empty(), account) == 0);
    assert(flow_in(seq![x], token) == flow_in(seq![x].drop_last(), token) + amount_in(seq![x].last(), token));
    assert(flow_out(seq![x], token) == flow_out(seq![x].drop_last(), token) + amount_out(seq![x].last(), token));
    assert(flow_in(seq![x], token) == amount_in(x, token));
    assert(flow_out(seq![x], token) == amount_out(x, token));
    assert(paid_to(seq![x], account) == amount_paid_to(x, account));
    assert(flow_in(seq![x, y], token) == flow_in(seq![x], token) + amount_in(y, token));
    assert(flow_out(seq![x, y], token) == flow_out(seq![x], token) + amount_out(y, token));
    assert(paid_to(seq![x, y], account) == paid_to(seq![x], account) + amount_paid_to(y, account));
}

} // verus!
