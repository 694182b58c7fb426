//! What holds of the token across calls.

use vstd::prelude::*;
use crate::math::fits_i128;
use crate::sum::{
    value_or_zero,
    map_sum,
    all_nonneg,
    lemma_map_sum_insert,
    lemma_map_sum_bounds_one,
    lemma_map_sum_bounds_two,
};
use crate::token::{
    TokenModel, TokenError, token_fresh, balance_of, allowance_of, is_minter_spec, initialize_spec, add_minter_spec,
    remove_minter_spec, mint_spec, approve_spec, move_balance, transfer_spec, transfer_from_spec,
    burn_spec, burn_from_spec, decimals_spec, name_spec, symbol_spec,
};

verus! {

/// The total supply is the sum of all balances, no balance is negative, and
/// nothing exists before the token is initialised.
pub open spec fn token_consistent(m: TokenModel) -> bool {
    &&& m.balances.dom().finite()
    &&& all_nonneg(m.balances)
    &&& m.total_supply == map_sum(m.balances)
    &&& m.admin is None ==> m.total_supply == 0
}

proof fn lemma_move_balance(balances: Map<Seq<u8>, i128>, from: Seq<u8>, to: Seq<u8>, amount: i128)
    requires
        balances.dom().finite(),
        all_nonneg(balances),
        fits_i128(map_sum(balances)),
        0 < amount <= value_or_zero(balances, from),
    ensures
        move_balance(balances, from, to, amount) is Some,
        ({
            let b = move_balance(balances, from, to, amount)->Some_0;
            &&& b.dom().finite()
            &&& all_nonneg(b)
            &&& map_sum(b) == map_sum(balances)
            &&& from != to ==> value_or_zero(b, from) == value_or_zero(balances, from) - amount
            &&& from != to ==> value_or_zero(b, to) == value_or_zero(balances, to) + amount
            &&& from == to ==> b == balances
            &&& forall|k: Seq<u8>| k != from && k != to ==> value_or_zero(b, k) == value_or_zero(balances, k)
        }),
{
    let debited = balances.insert(from, (value_or_zero(balances, from) - amount) as i128);
    lemma_map_sum_insert(balances, from, (value_or_zero(balances, from) - amount) as i128);
    if from != to {
        lemma_map_sum_bounds_two(balances, from, to);
    }
    let credited = value_or_zero(debited, to) + amount;
    assert(fits_i128(credited));
    lemma_map_sum_insert(debited, to, credited as i128);
    let b = debited.insert(to, credited as i128);
    if from == to {
        assert(b =~= balances);
    }
}

/// Nothing stored is a consistent token.
pub proof fn fresh_token_is_consistent()
    ensures
        token_consistent(token_fresh()),
{
}

/// Initialising keeps the supply consistent.
pub proof fn initialize_keeps_consistency(
    m: TokenModel,
    admin: Seq<u8>,
    decimals: u32,
    name: Seq<u8>,
    symbol: Seq<u8>,
)
    requires
        token_consistent(m),
        initialize_spec(m, admin, decimals, name, symbol) is Ok,
    ensures
        token_consistent(initialize_spec(m, admin, decimals, name, symbol)->Ok_0),
{
}

/// Appointing or dismissing a minter, or approving, touches no balance.
pub proof fn minter_and_approve_keep_consistency(m: TokenModel, a: Seq<u8>, b: Seq<u8>, amount: i128)
    requires
        token_consistent(m),
    ensures
        add_minter_spec(m, a) is Ok ==> token_consistent(add_minter_spec(m, a)->Ok_0),
        remove_minter_spec(m, a) is Ok ==> token_consistent(remove_minter_spec(m, a)->Ok_0),
        token_consistent(approve_spec(m, a, b, amount)),
{
}

/// Minting raises the supply and the receiver's balance by the amount.
pub proof fn mint_keeps_consistency(m: TokenModel, minter: Seq<u8>, to: Seq<u8>, amount: i128)
    requires
        token_consistent(m),
        mint_spec(m, minter, to, amount) is Ok,
    ensures
        token_consistent(mint_spec(m, minter, to, amount)->Ok_0),
        mint_spec(m, minter, to, amount)->Ok_0.total_supply == m.total_supply + amount,
        balance_of(mint_spec(m, minter, to, amount)->Ok_0, to) == balance_of(m, to) + amount,
{
    lemma_map_sum_insert(m.balances, to, (balance_of(m, to) + amount) as i128);
}

/// Transfers keep the supply consistent and unchanged.
pub proof fn transfer_keeps_consistency(m: TokenModel, from: Seq<u8>, to: Seq<u8>, amount: i128)
    requires
        token_consistent(m),
        transfer_spec(m, from, to, amount) is Ok,
    ensures
        token_consistent(transfer_spec(m, from, to, amount)->Ok_0),
        transfer_spec(m, from, to, amount)->Ok_0.total_supply == m.total_supply,
{
    lemma_move_balance(m.balances, from, to, amount);
}

/// Delegated transfers keep the supply consistent and unchanged.
pub proof fn transfer_from_keeps_consistency(
    m: TokenModel,
    spender: Seq<u8>,
    from: Seq<u8>,
    to: Seq<u8>,
    amount: i128,
)
    requires
        token_consistent(m),
        transfer_from_spec(m, spender, from, to, amount) is Ok,
    ensures
        token_consistent(transfer_from_spec(m, spender, from, to, amount)->Ok_0),
        transfer_from_spec(m, spender, from, to, amount)->Ok_0.total_supply == m.total_supply,
{
    lemma_move_balance(m.balances, from, to, amount);
}

/// Burning lowers the supply and the holder's balance by the amount.
pub proof fn burn_keeps_consistency(m: TokenModel, from: Seq<u8>, amount: i128)
    requires
        token_consistent(m),
        burn_spec(m, from, amount) is Ok,
    ensures
        token_consistent(burn_spec(m, from, amount)->Ok_0),
        burn_spec(m, from, amount)->Ok_0.total_supply == m.total_supply - amount,
        balance_of(burn_spec(m, from, amount)->Ok_0, from) == balance_of(m, from) - amount,
{
    lemma_map_sum_insert(m.balances, from, (balance_of(m, from) - amount) as i128);
    lemma_map_sum_bounds_one(m.balances, from);
}

/// Delegated burning lowers the supply and the holder's balance by the amount.
pub proof fn burn_from_keeps_consistency(m: TokenModel, spender: Seq<u8>, from: Seq<u8>, amount: i128)
    requires
        token_consistent(m),
        burn_from_spec(m, spender, from, amount) is Ok,
    ensures
        token_consistent(burn_from_spec(m, spender, from, amount)->Ok_0),
        burn_from_spec(m, spender, from, amount)->Ok_0.total_supply == m.total_supply - amount,
        balance_of(burn_from_spec(m, spender, from, amount)->Ok_0, from) == balance_of(m, from) - amount,
{
    lemma_map_sum_insert(m.balances, from, (balance_of(m, from) - amount) as i128);
    lemma_map_sum_bounds_one(m.balances, from);
}

/// In a consistent token a transfer goes through exactly when the amount is
/// positive and covered by the sender's balance; it then moves exactly that
/// amount and touches no other balance.
pub proof fn transfer_outcome(m: TokenModel, from: Seq<u8>, to: Seq<u8>, amount: i128)
    requires
        token_consistent(m),
    ensures
        transfer_spec(m, from, to, amount) is Ok <==> (amount > 0 && balance_of(m, from) >= amount),
        transfer_spec(m, from, to, amount) is Ok ==> {
            let m2 = transfer_spec(m, from, to, amount)->Ok_0;
            &&& from != to ==> balance_of(m2, from) == balance_of(m, from) - amount
            &&& from != to ==> balance_of(m2, to) == balance_of(m, to) + amount
            &&& from == to ==> m2 == m
            &&& forall|k: Seq<u8>| k != from && k != to ==> balance_of(m2, k) == balance_of(m, k)
        },
{
    if amount > 0 && balance_of(m, from) >= amount {
        lemma_move_balance(m.balances, from, to, amount);
        if from == to {
            assert(transfer_spec(m, from, to, amount)->Ok_0 =~= m);
        }
    }
}

/// In a consistent token a delegated transfer goes through exactly when the
/// amount is positive and covered by both the allowance and the balance; the
/// allowance then drops by the amount.
pub proof fn transfer_from_outcome(
    m: TokenModel,
    spender: Seq<u8>,
    from: Seq<u8>,
    to: Seq<u8>,
    amount: i128,
)
    requires
        token_consistent(m),
    ensures
        transfer_from_spec(m, spender, from, to, amount) is Ok <==> (amount > 0 && allowance_of(
            m,
            from,
            spender,
        ) >= amount && balance_of(m, from) >= amount),
        transfer_from_spec(m, spender, from, to, amount) is Ok ==> allowance_of(
            transfer_from_spec(m, spender, from, to, amount)->Ok_0,
            from,
            spender,
        ) == allowance_of(m, from, spender) - amount,
        transfer_from_spec(m, spender, from, to, amount) is Ok ==> {
            let m2 = transfer_from_spec(m, spender, from, to, amount)->Ok_0;
            &&& from != to ==> balance_of(m2, from) == balance_of(m, from) - amount
            &&& from != to ==> balance_of(m2, to) == balance_of(m, to) + amount
            &&& forall|k: Seq<u8>| k != from && k != to ==> balance_of(m2, k) == balance_of(m, k)
            &&& m2.total_supply == m.total_supply
        },
{
    if amount > 0 && allowance_of(m, from, spender) >= amount && balance_of(m, from) >= amount {
        lemma_move_balance(m.balances, from, to, amount);
    }
}

/// In a consistent token burning goes through exactly when the amount is
/// positive and covered by the holder's balance.
pub proof fn burn_outcome(m: TokenModel, from: Seq<u8>, amount: i128)
    requires
        token_consistent(m),
    ensures
        burn_spec(m, from, amount) is Ok <==> (amount > 0 && balance_of(m, from) >= amount),
{
    lemma_map_sum_bounds_one(m.balances, from);
}

/// An allowance reads back as approved; a minter reads back as appointed,
/// and no longer once dismissed.
pub proof fn reads_after_writes(m: TokenModel, a: Seq<u8>, b: Seq<u8>, amount: i128)
    ensures
        allowance_of(approve_spec(m, a, b, amount), a, b) == amount,
        add_minter_spec(m, a) is Ok ==> is_minter_spec(add_minter_spec(m, a)->Ok_0, a),
        remove_minter_spec(m, a) is Ok ==> !is_minter_spec(remove_minter_spec(m, a)->Ok_0, a),
{
}

/// Only the admin and appointed minters can mint.
pub proof fn only_authorized_mint(m: TokenModel, minter: Seq<u8>, to: Seq<u8>, amount: i128)
    requires
        mint_spec(m, minter, to, amount) is Ok,
    ensures
        m.admin == Some(minter) || is_minter_spec(m, minter),
{
}

/// A state-changing call on the token, with its arguments by value.
pub enum TokenCall {
    /// Admin, decimals, name, symbol.
    Initialize(Seq<u8>, u32, Seq<u8>, Seq<u8>),
    AddMinter(Seq<u8>),
    RemoveMinter(Seq<u8>),
    /// Minter, receiver, amount.
    Mint(Seq<u8>, Seq<u8>, i128),
    /// Owner, spender, amount.
    Approve(Seq<u8>, Seq<u8>, i128),
    /// Sender, receiver, amount.
    Transfer(Seq<u8>, Seq<u8>, i128),
    /// Spender, owner, receiver, amount.
    TransferFrom(Seq<u8>, Seq<u8>, Seq<u8>, i128),
    /// Holder, amount.
    Burn(Seq<u8>, i128),
    /// Spender, holder, amount.
    BurnFrom(Seq<u8>, Seq<u8>, i128),
}

/// The state after one call, or the call's error.
pub open spec fn token_step(m: TokenModel, c: TokenCall) -> Result<TokenModel, TokenError> {
    match c {
        TokenCall::Initialize(admin, decimals, name, symbol) => initialize_spec(m, admin, decimals, name, symbol),
        TokenCall::AddMinter(a) => add_minter_spec(m, a),
        TokenCall::RemoveMinter(a) => remove_minter_spec(m, a),
        TokenCall::Mint(minter, to, amount) => mint_spec(m, minter, to, amount),
        TokenCall::Approve(from, spender, amount) => Ok(approve_spec(m, from, spender, amount)),
        TokenCall::Transfer(from, to, amount) => transfer_spec(m, from, to, amount),
        TokenCall::TransferFrom(spender, from, to, amount) => transfer_from_spec(m, spender, from, to, amount),
        TokenCall::Burn(from, amount) => burn_spec(m, from, amount),
        TokenCall::BurnFrom(spender, from, amount) => burn_from_spec(m, spender, from, amount),
    }
}

/// The state after a sequence of calls; a refused call changes nothing.
pub open spec fn token_run(m: TokenModel, calls: Seq<TokenCall>) -> TokenModel
    decreases calls.len(),
{
    if calls.len() == 0 {
        m
    } else {
        let before = token_run(m, calls.drop_last());
        match token_step(before, calls.last()) {
            Ok(n) => n,
            Err(_) => before,
        }
    }
}

/// Every call keeps the token consistent.
pub proof fn token_step_keeps_consistency(m: TokenModel, c: TokenCall)
    requires
        token_consistent(m),
    ensures
        token_step(m, c) is Ok ==> token_consistent(token_step(m, c)->Ok_0),
{
    if token_step(m, c) is Ok {
        match c {
            TokenCall::Initialize(admin, decimals, name, symbol) => initialize_keeps_consistency(
                m,
                admin,
                decimals,
                name,
                symbol,
            ),
            TokenCall::AddMinter(a) => minter_and_approve_keep_consistency(m, a, a, 0),
            TokenCall::RemoveMinter(a) => minter_and_approve_keep_consistency(m, a, a, 0),
            TokenCall::Mint(minter, to, amount) => mint_keeps_consistency(m, minter, to, amount),
            TokenCall::Approve(from, spender, amount) => minter_and_approve_keep_consistency(
                m,
                from,
                spender,
                amount,
            ),
            TokenCall::Transfer(from, to, amount) => transfer_keeps_consistency(m, from, to, amount),
            TokenCall::TransferFrom(spender, from, to, amount) => transfer_from_keeps_consistency(
                m,
                spender,
                from,
                to,
                amount,
            ),
            TokenCall::Burn(from, amount) => burn_keeps_consistency(m, from, amount),
            TokenCall::BurnFrom(spender, from, amount) => burn_from_keeps_consistency(m, spender, from, amount),
        }
    }
}

/// After any sequence of calls on a new token, the total supply is the sum
/// of all balances and no balance is negative; a mint that then goes through
/// raises both the receiver's balance and the supply by exactly its amount.
pub proof fn supply_is_sum_of_balances_after_any_calls(
    calls: Seq<TokenCall>,
    minter: Seq<u8>,
    to: Seq<u8>,
    amount: i128,
)
    ensures
        token_consistent(token_run(token_fresh(), calls)),
        ({
            let m = token_run(token_fresh(), calls);
            &&& m.total_supply == map_sum(m.balances)
            &&& all_nonneg(m.balances)
            &&& mint_spec(m, minter, to, amount) is Ok ==> {
                let m2 = mint_spec(m, minter, to, amount)->Ok_0;
                &&& m2.total_supply == m.total_supply + amount
                &&& balance_of(m2, to) == balance_of(m, to) + amount
                &&& m2.total_supply == map_sum(m2.balances)
            }
        }),
    decreases calls.len(),
{
    if calls.len() > 0 {
        supply_is_sum_of_balances_after_any_calls(calls.drop_last(), minter, to, amount);
        token_step_keeps_consistency(token_run(token_fresh(), calls.drop_last()), calls.last());
    }
    let m = token_run(token_fresh(), calls);
    if mint_spec(m, minter, to, amount) is Ok {
        mint_keeps_consistency(m, minter, to, amount);
    }
}

/// Initialising succeeds exactly on a token without an admin; afterwards
/// the admin, decimals, name and symbol read back as given, the supply is 0,
/// and no balance, allowance or minter changes.
pub proof fn initialize_reads_back(
    m: TokenModel,
    admin: Seq<u8>,
    decimals: u32,
    name: Seq<u8>,
    symbol: Seq<u8>,
)
    ensures
        initialize_spec(m, admin, decimals, name, symbol) is Ok <==> m.admin is None,
        initialize_spec(m, admin, decimals, name, symbol) is Ok ==> {
            let m2 = initialize_spec(m, admin, decimals, name, symbol)->Ok_0;
            &&& m2.admin == Some(admin)
            &&& decimals_spec(m2) == decimals
            &&& name_spec(m2) == name
            &&& symbol_spec(m2) == symbol
            &&& m2.total_supply == 0
            &&& m2.balances == m.balances
            &&& m2.allowances == m.allowances
            &&& m2.minters == m.minters
        },
{
}

/// In a consistent token a delegated burn goes through exactly when the
/// amount is positive and covered by both the allowance and the holder's
/// balance; the allowance, the balance and the supply then all drop by the
/// amount.
pub proof fn burn_from_outcome(m: TokenModel, spender: Seq<u8>, from: Seq<u8>, amount: i128)
    requires
        token_consistent(m),
    ensures
        burn_from_spec(m, spender, from, amount) is Ok <==> (amount > 0 && allowance_of(m, from, spender)
            >= amount && balance_of(m, from) >= amount),
        burn_from_spec(m, spender, from, amount) is Ok ==> {
            let m2 = burn_from_spec(m, spender, from, amount)->Ok_0;
            &&& allowance_of(m2, from, spender) == allowance_of(m, from, spender) - amount
            &&& balance_of(m2, from) == balance_of(m, from) - amount
            &&& m2.total_supply == m.total_supply - amount
        },
{
    lemma_map_sum_bounds_one(m.balances, from);
}

/// In a consistent token a mint goes through exactly when the amount is
/// positive, the token has an admin, the minter is the admin or an appointed
/// minter, and the supply stays within range; the receiver's balance and the
/// supply then both rise by the amount.
pub proof fn mint_outcome(m: TokenModel, minter: Seq<u8>, to: Seq<u8>, amount: i128)
    requires
        token_consistent(m),
    ensures
        mint_spec(m, minter, to, amount) is Ok <==> (amount > 0 && m.admin is Some && (m.admin == Some(
            minter,
        ) || is_minter_spec(m, minter)) && m.total_supply + amount <= i128::MAX),
        mint_spec(m, minter, to, amount) is Ok ==> {
            let m2 = mint_spec(m, minter, to, amount)->Ok_0;
            &&& balance_of(m2, to) == balance_of(m, to) + amount
            &&& m2.total_supply == m.total_supply + amount
        },
{
    lemma_map_sum_bounds_one(m.balances, to);
}

} // verus!
