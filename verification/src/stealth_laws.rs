//! What holds of the stealth vault across calls.

use vstd::prelude::*;
use crate::sum::{map_sum, all_nonneg, lemma_map_sum_insert, lemma_map_sum_remove};
use crate::transfer::{TransferView, Direction, flow_in, flow_out, paid_to, lemma_flows_small};
use crate::stealth::{
    StealthModel, StealthError, stealth_fresh, stealth_balance, is_paused_spec, reward_multiplier_spec,
    stealth_initialize_spec, deposit_spec, withdraw_spec, withdrawal_transfers, set_paused_spec,
    set_reward_multiplier_spec, payload_spec,
};

verus! {

/// The sum of the amounts of a list of transfers.
pub open spec fn transfers_total(s: Seq<TransferView>) -> int
    decreases s.len(),
{
    if s.len() == 0 {
        0
    } else {
        transfers_total(s.drop_last()) + s.last().3
    }
}

/// Credited balances are finite in number and never negative.
pub open spec fn stealth_consistent(m: StealthModel) -> bool {
    &&& m.balances.dom().finite()
    &&& all_nonneg(m.balances)
}

/// Nothing stored is a consistent vault.
pub proof fn fresh_vault_is_consistent()
    ensures
        stealth_consistent(stealth_fresh()),
{
}

/// A deposit credits exactly its amount to its stealth key, and nothing
/// else; so repeated deposits to one key add up.
pub proof fn deposit_credits_amount(m: StealthModel, key: Seq<u8>, amount: i128)
    requires
        stealth_consistent(m),
        deposit_spec(m, key, amount) is Ok,
    ensures
        ({
            let m2 = deposit_spec(m, key, amount)->Ok_0;
            &&& stealth_consistent(m2)
            &&& stealth_balance(m2, key) == stealth_balance(m, key) + amount
            &&& forall|k: Seq<u8>| k != key ==> stealth_balance(m2, k) == stealth_balance(m, k)
            &&& map_sum(m2.balances) == map_sum(m.balances) + amount
        }),
{
    lemma_map_sum_insert(m.balances, key, (stealth_balance(m, key) + amount) as i128);
}

/// A withdrawal splits the whole balance into the fee (0.5%, rounded down)
/// and the rest, pays out exactly the balance, empties the key, and mints a
/// reward of the fee times the multiplier only where the fee and the
/// multiplier are positive and a reward token is set.
pub proof fn withdraw_pays_out_balance(
    m: StealthModel,
    key: Seq<u8>,
    token: Seq<u8>,
    destination: Seq<u8>,
    relayer: Seq<u8>,
)
    requires
        stealth_consistent(m),
        withdraw_spec(m, key) is Ok,
    ensures
        ({
            let (m2, w) = withdraw_spec(m, key)->Ok_0;
            &&& stealth_consistent(m2)
            &&& w.fee + w.transfer_amount == stealth_balance(m, key)
            &&& 0 <= w.fee && w.fee * 200 <= stealth_balance(m, key)
            &&& w.fee == (stealth_balance(m, key) * 5) / 1000
            &&& transfers_total(withdrawal_transfers(token, destination, relayer, w.fee, w.transfer_amount))
                == stealth_balance(m, key)
            &&& stealth_balance(m2, key) == 0
            &&& forall|k: Seq<u8>| k != key ==> stealth_balance(m2, k) == stealth_balance(m, k)
            &&& map_sum(m2.balances) == map_sum(m.balances) - stealth_balance(m, key)
            &&& w.reward is Some <==> (m.pcs_token is Some && w.fee > 0 && reward_multiplier_spec(m) > 0)
            &&& w.reward is Some ==> w.reward->Some_0 == (m.pcs_token.unwrap(), (w.fee * reward_multiplier_spec(m)) as i128)
        }),
{
    let (m2, w) = withdraw_spec(m, key)->Ok_0;
    let b = stealth_balance(m, key);
    assert(0 <= (b * 5) / 1000 && ((b * 5) / 1000) * 200 <= b) by (nonlinear_arith)
        requires
            b > 0,
    ;
    lemma_map_sum_remove(m.balances, key);
    let s = withdrawal_transfers(token, destination, relayer, w.fee, w.transfer_amount);
    let to_relayer: Seq<TransferView> = if w.fee > 0 {
        seq![(token, relayer, crate::transfer::Direction::OutOfContract, w.fee)]
    } else {
        seq![]
    };
    assert(w.fee == (b * 5) / 1000);
    assert(w.fee + w.transfer_amount == b);
    assert(stealth_balance(m2, key) == 0);
    assert(stealth_consistent(m2));
    assert(transfers_total(Seq::<TransferView>::empty()) == 0);
    if w.fee > 0 {
        assert(to_relayer.drop_last() =~= Seq::<TransferView>::empty());
        assert(transfers_total(to_relayer) == w.fee);
    } else {
        assert(transfers_total(to_relayer) == 0);
    }
    if w.transfer_amount > 0 {
        assert(s.drop_last() =~= to_relayer);
        assert(transfers_total(s) == transfers_total(to_relayer) + w.transfer_amount);
    } else {
        assert(s =~= to_relayer);
    }
    assert(transfers_total(s) == b);
}

/// Once withdrawn, a stealth key cannot be withdrawn from again.
pub proof fn no_double_withdrawal(m: StealthModel, key: Seq<u8>)
    requires
        withdraw_spec(m, key) is Ok,
    ensures
        withdraw_spec(withdraw_spec(m, key)->Ok_0.0, key) == Err::<
            (StealthModel, crate::stealth::WithdrawalView),
            StealthError,
        >(StealthError::NoFundsAvailable),
{
}

/// While paused, the vault takes no deposit and pays out no withdrawal.
pub proof fn paused_vault_refuses(m: StealthModel, key: Seq<u8>, amount: i128)
    requires
        is_paused_spec(m),
    ensures
        deposit_spec(m, key, amount) == Err::<StealthModel, StealthError>(StealthError::ContractPaused),
        withdraw_spec(m, key) is Err && withdraw_spec(m, key)->Err_0 == StealthError::ContractPaused,
{
}

/// Pausing, unpausing and setting the multiplier read back as written, and
/// leave the credited balances alone; initialising starts unpaused.
pub proof fn admin_settings_read_back(m: StealthModel, paused: bool, multiplier: i128)
    ensures
        set_paused_spec(m, paused) is Ok ==> is_paused_spec(set_paused_spec(m, paused)->Ok_0) == paused
            && set_paused_spec(m, paused)->Ok_0.balances == m.balances,
        set_reward_multiplier_spec(m, multiplier) is Ok ==> reward_multiplier_spec(
            set_reward_multiplier_spec(m, multiplier)->Ok_0,
        ) == multiplier && set_reward_multiplier_spec(m, multiplier)->Ok_0.balances == m.balances,
        forall|admin: Seq<u8>, pcs: Seq<u8>|
            stealth_initialize_spec(m, admin, pcs, multiplier) is Ok ==> {
                let m2 = #[trigger] stealth_initialize_spec(m, admin, pcs, multiplier)->Ok_0;
                &&& !is_paused_spec(m2)
                &&& reward_multiplier_spec(m2) == multiplier
                &&& m2.pcs_token == Some(pcs)
                &&& m2.balances == m.balances
            },
{
}

proof fn lemma_middle_cancels(a: Seq<u8>, x: Seq<u8>, y: Seq<u8>, b: Seq<u8>)
    requires
        a + x + b == a + y + b,
    ensures
        x == y,
{
    assert((a + x + b).len() == (a + y + b).len());
    assert((a + x + b).len() == (a + x).len() + b.len());
    assert((a + y + b).len() == (a + y).len() + b.len());
    assert((a + x).len() == a.len() + x.len());
    assert((a + y).len() == a.len() + y.len());
    assert(x.len() == y.len());
    assert forall|i: int| 0 <= i < x.len() implies x[i] == y[i] by {
        assert((a + x)[a.len() + i] == x[i]);
        assert((a + y)[a.len() + i] == y[i]);
        assert((a + x + b)[a.len() + i] == (a + x)[a.len() + i]);
        assert((a + y + b)[a.len() + i] == (a + y)[a.len() + i]);
    }
    assert(x =~= y);
}

/// The signed payload binds each of its parts: with the others unchanged,
/// a different vault, token, destination or relayer gives a different payload.
pub proof fn payload_binds_each_part(
    contract: Seq<u8>,
    token: Seq<u8>,
    destination: Seq<u8>,
    relayer: Seq<u8>,
    other: Seq<u8>,
)
    ensures
        other != contract ==> payload_spec(other, token, destination, relayer) != payload_spec(
            contract,
            token,
            destination,
            relayer,
        ),
        other != token ==> payload_spec(contract, other, destination, relayer) != payload_spec(
            contract,
            token,
            destination,
            relayer,
        ),
        other != destination ==> payload_spec(contract, token, other, relayer) != payload_spec(
            contract,
            token,
            destination,
            relayer,
        ),
        other != relayer ==> payload_spec(contract, token, destination, other) != payload_spec(
            contract,
            token,
            destination,
            relayer,
        ),
{
    let e = Seq::<u8>::empty();
    if payload_spec(other, token, destination, relayer) == payload_spec(contract, token, destination, relayer) {
        assert(e + other + (token + destination + relayer) =~= payload_spec(other, token, destination, relayer));
        assert(e + contract + (token + destination + relayer) =~= payload_spec(
            contract,
            token,
            destination,
            relayer,
        ));
        lemma_middle_cancels(e, other, contract, token + destination + relayer);
    }
    if payload_spec(contract, other, destination, relayer) == payload_spec(contract, token, destination, relayer) {
        assert(contract + other + (destination + relayer) =~= payload_spec(contract, other, destination, relayer));
        assert(contract + token + (destination + relayer) =~= payload_spec(contract, token, destination, relayer));
        lemma_middle_cancels(contract, other, token, destination + relayer);
    }
    if payload_spec(contract, token, other, relayer) == payload_spec(contract, token, destination, relayer) {
        lemma_middle_cancels(contract + token, other, destination, relayer);
    }
    if payload_spec(contract, token, destination, other) == payload_spec(contract, token, destination, relayer) {
        assert((contract + token + destination) + other + e =~= payload_spec(contract, token, destination, other));
        assert((contract + token + destination) + relayer + e =~= payload_spec(
            contract,
            token,
            destination,
            relayer,
        ));
        lemma_middle_cancels(contract + token + destination, other, relayer, e);
    }
}

/// A state-changing call on the vault, with its arguments by value.
pub enum StealthCall {
    /// Admin, reward token, reward multiplier.
    Initialize(Seq<u8>, Seq<u8>, i128),
    /// Stealth key, amount.
    Deposit(Seq<u8>, i128),
    /// Stealth key.
    Withdraw(Seq<u8>),
    Pause,
    Unpause,
    SetRewardMultiplier(i128),
}

/// The state after one call, or the call's error.
pub open spec fn stealth_step(m: StealthModel, c: StealthCall) -> Result<StealthModel, StealthError> {
    match c {
        StealthCall::Initialize(admin, pcs, multiplier) => stealth_initialize_spec(m, admin, pcs, multiplier),
        StealthCall::Deposit(key, amount) => deposit_spec(m, key, amount),
        StealthCall::Withdraw(key) => match withdraw_spec(m, key) {
            Ok((n, _)) => Ok(n),
            Err(e) => Err(e),
        },
        StealthCall::Pause => set_paused_spec(m, true),
        StealthCall::Unpause => set_paused_spec(m, false),
        StealthCall::SetRewardMultiplier(multiplier) => set_reward_multiplier_spec(m, multiplier),
    }
}

/// The state after a sequence of calls; a refused call changes nothing.
pub open spec fn stealth_run(m: StealthModel, calls: Seq<StealthCall>) -> StealthModel
    decreases calls.len(),
{
    if calls.len() == 0 {
        m
    } else {
        let before = stealth_run(m, calls.drop_last());
        match stealth_step(before, calls.last()) {
            Ok(n) => n,
            Err(_) => before,
        }
    }
}

/// None of the calls deposits to `key`.
pub open spec fn no_deposit_to(calls: Seq<StealthCall>, key: Seq<u8>) -> bool {
    forall|i: int| 0 <= i < calls.len() ==> !(#[trigger] calls[i] matches StealthCall::Deposit(k, _) && k == key)
}

proof fn lemma_empty_key_stays_empty(m: StealthModel, c: StealthCall, key: Seq<u8>)
    requires
        stealth_balance(m, key) == 0,
        !(c matches StealthCall::Deposit(k, _) && k == key),
    ensures
        stealth_step(m, c) is Ok ==> stealth_balance(stealth_step(m, c)->Ok_0, key) == 0,
{
}

/// Once a stealth key has been withdrawn from, it stays empty through any
/// later calls that deposit nothing to it, and every further withdrawal from
/// it is refused: for lack of funds, or because the vault is paused.
pub proof fn withdrawn_key_stays_empty(m: StealthModel, key: Seq<u8>, calls: Seq<StealthCall>)
    requires
        withdraw_spec(m, key) is Ok,
        no_deposit_to(calls, key),
    ensures
        ({
            let later = stealth_run(withdraw_spec(m, key)->Ok_0.0, calls);
            &&& stealth_balance(later, key) == 0
            &&& withdraw_spec(later, key) is Err
            &&& !is_paused_spec(later) ==> withdraw_spec(later, key)->Err_0 == StealthError::NoFundsAvailable
            &&& is_paused_spec(later) ==> withdraw_spec(later, key)->Err_0 == StealthError::ContractPaused
        }),
    decreases calls.len(),
{
    if calls.len() > 0 {
        let rest = calls.drop_last();
        assert forall|i: int| 0 <= i < rest.len() implies !(#[trigger] rest[i] matches StealthCall::Deposit(
            k,
            _,
        ) && k == key) by {
            assert(rest[i] == calls[i]);
        }
        withdrawn_key_stays_empty(m, key, rest);
        assert(calls.last() == calls[calls.len() - 1]);
        lemma_empty_key_stays_empty(stealth_run(withdraw_spec(m, key)->Ok_0.0, rest), calls.last(), key);
    }
}

/// A withdrawal pays the relayer exactly the fee and the destination exactly
/// the rest, all in the requested token and all out of the vault, so that
/// exactly the key's balance leaves the vault.
pub proof fn withdraw_pays_the_payees(
    m: StealthModel,
    key: Seq<u8>,
    token: Seq<u8>,
    destination: Seq<u8>,
    relayer: Seq<u8>,
)
    requires
        stealth_consistent(m),
        withdraw_spec(m, key) is Ok,
        relayer != destination,
    ensures
        ({
            let (m2, w) = withdraw_spec(m, key)->Ok_0;
            let t = withdrawal_transfers(token, destination, relayer, w.fee, w.transfer_amount);
            &&& paid_to(t, relayer) == w.fee
            &&& paid_to(t, destination) == w.transfer_amount
            &&& flow_out(t, token) == stealth_balance(m, key)
            &&& flow_in(t, token) == 0
            &&& forall|i: int| 0 <= i < t.len() ==> (#[trigger] t[i]).0 == token && t[i].2
                == Direction::OutOfContract
        }),
{
    let (m2, w) = withdraw_spec(m, key)->Ok_0;
    withdraw_pays_out_balance(m, key, token, destination, relayer);
    let t = withdrawal_transfers(token, destination, relayer, w.fee, w.transfer_amount);
    let x: TransferView = (token, relayer, Direction::OutOfContract, w.fee);
    let y: TransferView = (token, destination, Direction::OutOfContract, w.transfer_amount);
    lemma_flows_small(x, y, token, relayer);
    lemma_flows_small(x, y, token, destination);
    lemma_flows_small(y, x, token, destination);
    lemma_flows_small(y, x, token, relayer);
    if w.fee > 0 && w.transfer_amount > 0 {
        assert(t =~= seq![x, y]);
    } else if w.fee > 0 {
        assert(t =~= seq![x]);
    } else if w.transfer_amount > 0 {
        assert(t =~= seq![y]);
    } else {
        assert(t =~= Seq::<TransferView>::empty());
    }
}

/// Initialising succeeds exactly on a vault without an admin, and records
/// the admin.
pub proof fn initialize_records_admin(m: StealthModel, admin: Seq<u8>, pcs: Seq<u8>, multiplier: i128)
    ensures
        stealth_initialize_spec(m, admin, pcs, multiplier) is Ok <==> m.admin is None,
        stealth_initialize_spec(m, admin, pcs, multiplier) is Ok ==> stealth_initialize_spec(
            m,
            admin,
            pcs,
            multiplier,
        )->Ok_0.admin == Some(admin),
{
}

} // verus!
