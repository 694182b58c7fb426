//! The liquidity pool: a constant-product market maker between two tokens
//! with a 0.3% swap fee, whose liquidity providers hold pool shares.
//!
//! A contract call is a transition on [`PoolState`]; its meaning is the spec
//! function of the same name on [`PoolModel`]. The caller holds the
//! authorisation checks, the persistent storage, the token transfers that a
//! call returns, and the event log.

use vstd::prelude::*;
use crate::keys::{Address, address_opt_view};
use crate::ledger::Ledger;
use crate::math::{fits_i128, isqrt, isqrt_value, min, min_spec, checked_trunc_div, div_i128};
use crate::sum::value_or_zero;
use crate::transfer::{Direction, Transfer, TransferView, transfers_view};

verus! {

/// Why a pool call is refused.
#[derive(Clone, Copy, Debug, PartialEq, Eq, Structural)]
pub enum PoolError {
    AlreadyInitialized,
    NotInitialized,
    InvalidAmount,
    InsufficientLiquidityMinted,
    InsufficientShares,
    InsufficientLiquidityBurned,
    InvalidToken,
    SlippageExceeded,
    InsufficientOutputAmount,
    /// An intermediate amount would leave the range of `i128`, or a division
    /// by zero.
    Arithmetic,
}

/// The pool contract (its calls are the associated functions).
pub struct LiquidityPool;

/// What the pool's storage holds.
#[verifier::ext_equal]
pub struct PoolModel {
    pub initialized: bool,
    pub token_a: Option<Seq<u8>>,
    pub token_b: Option<Seq<u8>>,
    pub reserve_a: i128,
    pub reserve_b: i128,
    pub total_shares: i128,
    pub shares: Map<Seq<u8>, i128>,
}

/// The pool's storage, or the part of it that a call reads and writes.
pub struct PoolState {
    pub initialized: bool,
    pub token_a: Option<Address>,
    pub token_b: Option<Address>,
    pub reserve_a: i128,
    pub reserve_b: i128,
    pub total_shares: i128,
    pub shares: Ledger<Address, i128>,
}

impl View for PoolState {
    type V = PoolModel;

    open spec fn view(&self) -> PoolModel {
        PoolModel {
            initialized: self.initialized,
            token_a: address_opt_view(self.token_a),
            token_b: address_opt_view(self.token_b),
            reserve_a: self.reserve_a,
            reserve_b: self.reserve_b,
            total_shares: self.total_shares,
            shares: self.shares@,
        }
    }
}

/// The pool before anything was stored.
pub open spec fn pool_fresh() -> PoolModel {
    PoolModel {
        initialized: false,
        token_a: None,
        token_b: None,
        reserve_a: 0,
        reserve_b: 0,
        total_shares: 0,
        shares: Map::empty(),
    }
}

/// The pool shares that `addr` holds.
pub open spec fn shares_of(m: PoolModel, addr: Seq<u8>) -> int {
    value_or_zero(m.shares, addr)
}

/// Shares for a deposit of `a` and `b`: the square root of `a * b` into an
/// empty pool, else the smaller of the two proportional amounts.
pub open spec fn mint_shares(reserve_a: int, reserve_b: int, total: int, a: int, b: int) -> Option<int> {
    if total == 0 {
        let p = a * b;
        if !fits_i128(p) || p == i128::MAX {
            None
        } else {
            Some(isqrt_value(p))
        }
    } else {
        let xa = a * total;
        let xb = b * total;
        if !fits_i128(xa) || !fits_i128(xb) {
            None
        } else {
            match (checked_trunc_div(xa, reserve_a), checked_trunc_div(xb, reserve_b)) {
                (Some(qa), Some(qb)) => Some(min_spec(qa, qb)),
                _ => None,
            }
        }
    }
}

/// The share of `reserve` that `share` of `total` shares is worth.
pub open spec fn payout(share: int, reserve: int, total: int) -> Option<int> {
    if !fits_i128(share * reserve) {
        None
    } else {
        checked_trunc_div(share * reserve, total)
    }
}

/// Output of the constant-product formula with the 0.3% fee:
/// `(amount * 997 * reserve_out) / (reserve_in * 1000 + amount * 997)`.
pub open spec fn swap_output(reserve_in: int, reserve_out: int, amount: int) -> Option<int> {
    let with_fee = amount * 997;
    let numerator = with_fee * reserve_out;
    let denominator = reserve_in * 1000 + with_fee;
    if !fits_i128(with_fee) || !fits_i128(numerator) || !fits_i128(reserve_in * 1000) || !fits_i128(
        denominator,
    ) {
        None
    } else {
        checked_trunc_div(numerator, denominator)
    }
}

/// `Some(true)` when `token_in` is token A, `Some(false)` when it is token B.
pub open spec fn swap_direction(m: PoolModel, token_in: Seq<u8>) -> Option<bool> {
    if token_in == m.token_a.unwrap() {
        Some(true)
    } else if token_in == m.token_b.unwrap() {
        Some(false)
    } else {
        None
    }
}

/// Initialisation: records the tokens with empty reserves and no shares outstanding.
pub open spec fn pool_initialize_spec(m: PoolModel, token_a: Seq<u8>, token_b: Seq<u8>) -> Result<
    PoolModel,
    PoolError,
> {
    if m.initialized {
        Err(PoolError::AlreadyInitialized)
    } else {
        Ok(
            PoolModel {
                initialized: true,
                token_a: Some(token_a),
                token_b: Some(token_b),
                reserve_a: 0,
                reserve_b: 0,
                total_shares: 0,
                ..m
            },
        )
    }
}

/// The new state and the shares minted.
pub open spec fn add_liquidity_spec(m: PoolModel, depositor: Seq<u8>, a: i128, b: i128) -> Result<
    (PoolModel, i128),
    PoolError,
> {
    if a <= 0 || b <= 0 {
        Err(PoolError::InvalidAmount)
    } else if m.token_a is None || m.token_b is None {
        Err(PoolError::NotInitialized)
    } else {
        match mint_shares(m.reserve_a as int, m.reserve_b as int, m.total_shares as int, a as int, b as int) {
            None => Err(PoolError::Arithmetic),
            Some(s) => if s <= 0 {
                Err(PoolError::InsufficientLiquidityMinted)
            } else if !fits_i128(m.reserve_a + a) || !fits_i128(m.reserve_b + b) || !fits_i128(
                m.total_shares + s,
            ) || !fits_i128(shares_of(m, depositor) + s) {
                Err(PoolError::Arithmetic)
            } else {
                Ok(
                    (
                        PoolModel {
                            reserve_a: (m.reserve_a + a) as i128,
                            reserve_b: (m.reserve_b + b) as i128,
                            total_shares: (m.total_shares + s) as i128,
                            shares: m.shares.insert(depositor, (shares_of(m, depositor) + s) as i128),
                            ..m
                        },
                        s as i128,
                    ),
                )
            },
        }
    }
}

/// The deposit of both tokens into the pool.
pub open spec fn add_liquidity_transfers(m: PoolModel, depositor: Seq<u8>, a: i128, b: i128) -> Seq<
    TransferView,
> {
    seq![
        (m.token_a.unwrap(), depositor, Direction::IntoContract, a),
        (m.token_b.unwrap(), depositor, Direction::IntoContract, b),
    ]
}

/// The new state and the amounts of token A and token B paid out.
pub open spec fn remove_liquidity_spec(m: PoolModel, provider: Seq<u8>, share: i128) -> Result<
    (PoolModel, i128, i128),
    PoolError,
> {
    if share <= 0 {
        Err(PoolError::InvalidAmount)
    } else if m.token_a is None || m.token_b is None {
        Err(PoolError::NotInitialized)
    } else if shares_of(m, provider) < share {
        Err(PoolError::InsufficientShares)
    } else {
        match (
            payout(share as int, m.reserve_a as int, m.total_shares as int),
            payout(share as int, m.reserve_b as int, m.total_shares as int),
        ) {
            (Some(out_a), Some(out_b)) => if out_a <= 0 || out_b <= 0 {
                Err(PoolError::InsufficientLiquidityBurned)
            } else if !fits_i128(m.reserve_a - out_a) || !fits_i128(m.reserve_b - out_b) || !fits_i128(
                m.total_shares - share,
            ) {
                Err(PoolError::Arithmetic)
            } else {
                Ok(
                    (
                        PoolModel {
                            reserve_a: (m.reserve_a - out_a) as i128,
                            reserve_b: (m.reserve_b - out_b) as i128,
                            total_shares: (m.total_shares - share) as i128,
                            shares: m.shares.insert(provider, (shares_of(m, provider) - share) as i128),
                            ..m
                        },
                        out_a as i128,
                        out_b as i128,
                    ),
                )
            },
            _ => Err(PoolError::Arithmetic),
        }
    }
}

/// The payout of both tokens to the provider.
pub open spec fn remove_liquidity_transfers(
    m: PoolModel,
    provider: Seq<u8>,
    out_a: i128,
    out_b: i128,
) -> Seq<TransferView> {
    seq![
        (m.token_a.unwrap(), provider, Direction::OutOfContract, out_a),
        (m.token_b.unwrap(), provider, Direction::OutOfContract, out_b),
    ]
}

/// The new state and the amount paid out.
pub open spec fn swap_spec(
    m: PoolModel,
    token_in: Seq<u8>,
    amount_in: i128,
    min_amount_out: i128,
) -> Result<(PoolModel, i128), PoolError> {
    if amount_in <= 0 {
        Err(PoolError::InvalidAmount)
    } else if m.token_a is None || m.token_b is None {
        Err(PoolError::NotInitialized)
    } else {
        match swap_direction(m, token_in) {
            None => Err(PoolError::InvalidToken),
            Some(a_to_b) => {
                let reserve_in = if a_to_b {
                    m.reserve_a
                } else {
                    m.reserve_b
                };
                let reserve_out = if a_to_b {
                    m.reserve_b
                } else {
                    m.reserve_a
                };
                match swap_output(reserve_in as int, reserve_out as int, amount_in as int) {
                    None => Err(PoolError::Arithmetic),
                    Some(out) => if out < min_amount_out {
                        Err(PoolError::SlippageExceeded)
                    } else if out <= 0 {
                        Err(PoolError::InsufficientOutputAmount)
                    } else if !fits_i128(reserve_in + amount_in) || !fits_i128(reserve_out - out) {
                        Err(PoolError::Arithmetic)
                    } else if a_to_b {
                        Ok(
                            (
                                PoolModel {
                                    reserve_a: (m.reserve_a + amount_in) as i128,
                                    reserve_b: (m.reserve_b - out) as i128,
                                    ..m
                                },
                                out as i128,
                            ),
                        )
                    } else {
                        Ok(
                            (
                                PoolModel {
                                    reserve_b: (m.reserve_b + amount_in) as i128,
                                    reserve_a: (m.reserve_a - out) as i128,
                                    ..m
                                },
                                out as i128,
                            ),
                        )
                    },
                }
            },
        }
    }
}

/// The token that a swap pays out.
pub open spec fn swap_token_out(m: PoolModel, token_in: Seq<u8>) -> Seq<u8> {
    if token_in == m.token_a.unwrap() {
        m.token_b.unwrap()
    } else {
        m.token_a.unwrap()
    }
}

/// The user's payment into the pool and the pool's payment back.
pub open spec fn swap_transfers(
    m: PoolModel,
    user: Seq<u8>,
    token_in: Seq<u8>,
    amount_in: i128,
    out: i128,
) -> Seq<TransferView> {
    seq![
        (token_in, user, Direction::IntoContract, amount_in),
        (swap_token_out(m, token_in), user, Direction::OutOfContract, out),
    ]
}

/// What a swap of `amount_in` would pay out now.
pub open spec fn quote_spec(m: PoolModel, token_in: Seq<u8>, amount_in: i128) -> Result<i128, PoolError> {
    if m.token_a is None || m.token_b is None {
        Err(PoolError::NotInitialized)
    } else {
        match swap_direction(m, token_in) {
            None => Err(PoolError::InvalidToken),
            Some(a_to_b) => {
                let reserve_in = if a_to_b {
                    m.reserve_a
                } else {
                    m.reserve_b
                };
                let reserve_out = if a_to_b {
                    m.reserve_b
                } else {
                    m.reserve_a
                };
                match swap_output(reserve_in as int, reserve_out as int, amount_in as int) {
                    None => Err(PoolError::Arithmetic),
                    Some(out) => Ok(out as i128),
                }
            },
        }
    }
}


/// `Some(v)` as an `i128` result; `None` stays `None`.
pub open spec fn as_i128_opt(o: Option<int>) -> Option<i128> {
    match o {
        Some(v) => Some(v as i128),
        None => None,
    }
}

/// An `Option<int>` whose value, if any, fits in an `i128`.
pub open spec fn fits_opt(o: Option<int>) -> bool {
    o is Some ==> fits_i128(o->Some_0)
}

fn mint_shares_exec(reserve_a: i128, reserve_b: i128, total: i128, a: i128, b: i128) -> (r: Option<i128>)
    ensures
        fits_opt(mint_shares(reserve_a as int, reserve_b as int, total as int, a as int, b as int)),
        r == as_i128_opt(mint_shares(reserve_a as int, reserve_b as int, total as int, a as int, b as int)),
{
    if total == 0 {
        match a.checked_mul(b) {
            None => None,
            Some(p) => if p == i128::MAX {
                None
            } else {
                Some(isqrt(p))
            },
        }
    } else {
        let xa = match a.checked_mul(total) {
            Some(v) => v,
            None => {
                return None;
            },
        };
        let xb = match b.checked_mul(total) {
            Some(v) => v,
            None => {
                return None;
            },
        };
        match (div_i128(xa, reserve_a), div_i128(xb, reserve_b)) {
            (Some(qa), Some(qb)) => Some(min(qa, qb)),
            _ => None,
        }
    }
}

fn payout_exec(share: i128, reserve: i128, total: i128) -> (r: Option<i128>)
    ensures
        fits_opt(payout(share as int, reserve as int, total as int)),
        r == as_i128_opt(payout(share as int, reserve as int, total as int)),
{
    match share.checked_mul(reserve) {
        None => None,
        Some(x) => div_i128(x, total),
    }
}

fn swap_output_exec(reserve_in: i128, reserve_out: i128, amount: i128) -> (r: Option<i128>)
    ensures
        fits_opt(swap_output(reserve_in as int, reserve_out as int, amount as int)),
        r == as_i128_opt(swap_output(reserve_in as int, reserve_out as int, amount as int)),
{
    let with_fee = match amount.checked_mul(997) {
        Some(v) => v,
        None => {
            return None;
        },
    };
    let numerator = match with_fee.checked_mul(reserve_out) {
        Some(v) => v,
        None => {
            return None;
        },
    };
    let scaled = match reserve_in.checked_mul(1000) {
        Some(v) => v,
        None => {
            return None;
        },
    };
    let denominator = match scaled.checked_add(with_fee) {
        Some(v) => v,
        None => {
            return None;
        },
    };
    div_i128(numerator, denominator)
}

impl PoolState {
    /// A state with nothing stored.
    pub fn new() -> (s: PoolState)
        ensures
            s@ == pool_fresh(),
    {
        PoolState {
            initialized: false,
            token_a: None,
            token_b: None,
            reserve_a: 0,
            reserve_b: 0,
            total_shares: 0,
            shares: Ledger::new(),
        }
    }
}

impl LiquidityPool {
    /// Records the two tokens of the pool; refused once initialised.
    pub fn initialize(state: &mut PoolState, token_a: Address, token_b: Address) -> (r: Result<(), PoolError>)
        ensures
            match pool_initialize_spec(old(state)@, token_a@, token_b@) {
                Ok(m) => r is Ok && final(state)@ == m,
                Err(e) => r == Err::<(), PoolError>(e) && final(state)@ == old(state)@,
            },
    {
        if state.initialized {
            return Err(PoolError::AlreadyInitialized);
        }
        state.token_a = Some(token_a);
        state.token_b = Some(token_b);
        state.reserve_a = 0;
        state.reserve_b = 0;
        state.total_shares = 0;
        state.initialized = true;
        Ok(())
    }

    /// The two tokens, both stored at initialisation.
    fn tokens(state: &PoolState) -> (r: Option<(Address, Address)>)
        ensures
            r is Some <==> (state@.token_a is Some && state@.token_b is Some),
            r is Some ==> r->Some_0.0@ == state@.token_a.unwrap() && r->Some_0.1@ == state@.token_b.unwrap(),
    {
        match (&state.token_a, &state.token_b) {
            (Some(a), Some(b)) => Some((a.duplicate(), b.duplicate())),
            _ => None,
        }
    }

    /// Deposits `amount_a` of token A and `amount_b` of token B for new pool
    /// shares; returns the shares minted and the deposits to carry out (the
    /// caller checks `depositor`'s authorisation).
    pub fn add_liquidity(state: &mut PoolState, depositor: &Address, amount_a: i128, amount_b: i128) -> (r:
        Result<(i128, Vec<Transfer>), PoolError>)
        ensures
            match add_liquidity_spec(old(state)@, depositor@, amount_a, amount_b) {
                Ok((m, s)) => r is Ok && final(state)@ == m && r->Ok_0.0 == s && transfers_view(
                    r->Ok_0.1@,
                ) == add_liquidity_transfers(old(state)@, depositor@, amount_a, amount_b),
                Err(e) => r is Err && r->Err_0 == e && final(state)@ == old(state)@,
            },
    {
        if amount_a <= 0 || amount_b <= 0 {
            return Err(PoolError::InvalidAmount);
        }
        let (token_a, token_b) = match Self::tokens(state) {
            Some(t) => t,
            None => {
                return Err(PoolError::NotInitialized);
            },
        };
        let shares = match mint_shares_exec(
            state.reserve_a,
            state.reserve_b,
            state.total_shares,
            amount_a,
            amount_b,
        ) {
            Some(s) => s,
            None => {
                return Err(PoolError::Arithmetic);
            },
        };
        if shares <= 0 {
            return Err(PoolError::InsufficientLiquidityMinted);
        }
        let current = state.shares.get_or(depositor, 0);
        let (new_a, new_b, new_total, new_holding) = match (
            state.reserve_a.checked_add(amount_a),
            state.reserve_b.checked_add(amount_b),
            state.total_shares.checked_add(shares),
            current.checked_add(shares),
        ) {
            (Some(x), Some(y), Some(z), Some(w)) => (x, y, z, w),
            _ => {
                return Err(PoolError::Arithmetic);
            },
        };
        state.reserve_a = new_a;
        state.reserve_b = new_b;
        state.total_shares = new_total;
        state.shares.set(depositor.duplicate(), new_holding);
        let mut transfers: Vec<Transfer> = Vec::new();
        transfers.push(
            Transfer {
                token: token_a,
                account: depositor.duplicate(),
                direction: Direction::IntoContract,
                amount: amount_a,
            },
        );
        transfers.push(
            Transfer {
                token: token_b,
                account: depositor.duplicate(),
                direction: Direction::IntoContract,
                amount: amount_b,
            },
        );
        assert(transfers_view(transfers@) =~= add_liquidity_transfers(
            old(state)@,
            depositor@,
            amount_a,
            amount_b,
        ));
        Ok((shares, transfers))
    }

    /// Redeems `share_amount` pool shares for the proportional part of both
    /// reserves; returns the amounts of token A and token B and the payouts to
    /// carry out (the caller checks `provider`'s authorisation).
    pub fn remove_liquidity(state: &mut PoolState, provider: &Address, share_amount: i128) -> (r: Result<
        ((i128, i128), Vec<Transfer>),
        PoolError,
    >)
        ensures
            match remove_liquidity_spec(old(state)@, provider@, share_amount) {
                Ok((m, out_a, out_b)) => r is Ok && final(state)@ == m && r->Ok_0.0 == (out_a, out_b)
                    && transfers_view(r->Ok_0.1@) == remove_liquidity_transfers(
                    old(state)@,
                    provider@,
                    out_a,
                    out_b,
                ),
                Err(e) => r is Err && r->Err_0 == e && final(state)@ == old(state)@,
            },
    {
        if share_amount <= 0 {
            return Err(PoolError::InvalidAmount);
        }
        let (token_a, token_b) = match Self::tokens(state) {
            Some(t) => t,
            None => {
                return Err(PoolError::NotInitialized);
            },
        };
        let holding = state.shares.get_or(provider, 0);
        if holding < share_amount {
            return Err(PoolError::InsufficientShares);
        }
        let (out_a, out_b) = match (
            payout_exec(share_amount, state.reserve_a, state.total_shares),
            payout_exec(share_amount, state.reserve_b, state.total_shares),
        ) {
            (Some(x), Some(y)) => (x, y),
            _ => {
                return Err(PoolError::Arithmetic);
            },
        };
        if out_a <= 0 || out_b <= 0 {
            return Err(PoolError::InsufficientLiquidityBurned);
        }
        let (new_a, new_b, new_total) = match (
            state.reserve_a.checked_sub(out_a),
            state.reserve_b.checked_sub(out_b),
            state.total_shares.checked_sub(share_amount),
        ) {
            (Some(x), Some(y), Some(z)) => (x, y, z),
            _ => {
                return Err(PoolError::Arithmetic);
            },
        };
        state.reserve_a = new_a;
        state.reserve_b = new_b;
        state.total_shares = new_total;
        state.shares.set(provider.duplicate(), holding - share_amount);
        let mut transfers: Vec<Transfer> = Vec::new();
        transfers.push(
            Transfer {
                token: token_a,
                account: provider.duplicate(),
                direction: Direction::OutOfContract,
                amount: out_a,
            },
        );
        transfers.push(
            Transfer {
                token: token_b,
                account: provider.duplicate(),
                direction: Direction::OutOfContract,
                amount: out_b,
            },
        );
        assert(transfers_view(transfers@) =~= remove_liquidity_transfers(
            old(state)@,
            provider@,
            out_a,
            out_b,
        ));
        Ok(((out_a, out_b), transfers))
    }

    /// Which way a swap of `token_in` goes: `Some(true)` from A to B.
    fn direction(state: &PoolState, token_in: &Address) -> (r: Option<bool>)
        requires
            state@.token_a is Some && state@.token_b is Some,
        ensures
            r == swap_direction(state@, token_in@),
    {
        match (&state.token_a, &state.token_b) {
            (Some(a), Some(b)) => if token_in.equals(a) {
                Some(true)
            } else if token_in.equals(b) {
                Some(false)
            } else {
                None
            },
            _ => None,
        }
    }

    /// Swaps `amount_in` of `token_in` for the other token at the
    /// constant-product price less the 0.3% fee, refusing a payout below
    /// `min_amount_out`; returns the payout and the transfers to carry out
    /// (the caller checks `user`'s authorisation).
    pub fn swap(
        state: &mut PoolState,
        user: &Address,
        token_in: &Address,
        amount_in: i128,
        min_amount_out: i128,
    ) -> (r: Result<(i128, Vec<Transfer>), PoolError>)
        ensures
            match swap_spec(old(state)@, token_in@, amount_in, min_amount_out) {
                Ok((m, out)) => r is Ok && final(state)@ == m && r->Ok_0.0 == out && transfers_view(
                    r->Ok_0.1@,
                ) == swap_transfers(old(state)@, user@, token_in@, amount_in, out),
                Err(e) => r is Err && r->Err_0 == e && final(state)@ == old(state)@,
            },
    {
        if amount_in <= 0 {
            return Err(PoolError::InvalidAmount);
        }
        let (token_a, token_b) = match Self::tokens(state) {
            Some(t) => t,
            None => {
                return Err(PoolError::NotInitialized);
            },
        };
        let a_to_b = match Self::direction(state, token_in) {
            Some(d) => d,
            None => {
                return Err(PoolError::InvalidToken);
            },
        };
        let (reserve_in, reserve_out, token_out) = if a_to_b {
            (state.reserve_a, state.reserve_b, token_b)
        } else {
            (state.reserve_b, state.reserve_a, token_a)
        };
        let out = match swap_output_exec(reserve_in, reserve_out, amount_in) {
            Some(v) => v,
            None => {
                return Err(PoolError::Arithmetic);
            },
        };
        if out < min_amount_out {
            return Err(PoolError::SlippageExceeded);
        }
        if out <= 0 {
            return Err(PoolError::InsufficientOutputAmount);
        }
        let (new_in, new_out) = match (reserve_in.checked_add(amount_in), reserve_out.checked_sub(out)) {
            (Some(x), Some(y)) => (x, y),
            _ => {
                return Err(PoolError::Arithmetic);
            },
        };
        if a_to_b {
            state.reserve_a = new_in;
            state.reserve_b = new_out;
        } else {
            state.reserve_b = new_in;
            state.reserve_a = new_out;
        }
        let mut transfers: Vec<Transfer> = Vec::new();
        transfers.push(
            Transfer {
                token: token_in.duplicate(),
                account: user.duplicate(),
                direction: Direction::IntoContract,
                amount: amount_in,
            },
        );
        transfers.push(
            Transfer {
                token: token_out,
                account: user.duplicate(),
                direction: Direction::OutOfContract,
                amount: out,
            },
        );
        assert(transfers_view(transfers@) =~= swap_transfers(
            old(state)@,
            user@,
            token_in@,
            amount_in,
            out,
        ));
        Ok((out, transfers))
    }

    /// The reserves of token A and token B.
    pub fn get_reserves(state: &PoolState) -> (r: (i128, i128))
        ensures
            r == (state@.reserve_a, state@.reserve_b),
    {
        (state.reserve_a, state.reserve_b)
    }

    /// The pool shares held by `addr`.
    pub fn get_shares(state: &PoolState, addr: &Address) -> (r: i128)
        ensures
            r == shares_of(state@, addr@),
    {
        state.shares.get_or(addr, 0)
    }

    /// All pool shares outstanding.
    pub fn get_total_shares(state: &PoolState) -> (r: i128)
        ensures
            r == state@.total_shares,
    {
        state.total_shares
    }

    /// What a swap of `amount_in` of `token_in` would pay out now, without
    /// changing anything.
    pub fn quote(state: &PoolState, token_in: &Address, amount_in: i128) -> (r: Result<i128, PoolError>)
        ensures
            r == quote_spec(state@, token_in@, amount_in),
    {
        if Self::tokens(state).is_none() {
            return Err(PoolError::NotInitialized);
        }
        let a_to_b = match Self::direction(state, token_in) {
            Some(d) => d,
            None => {
                return Err(PoolError::InvalidToken);
            },
        };
        let (reserve_in, reserve_out) = if a_to_b {
            (state.reserve_a, state.reserve_b)
        } else {
            (state.reserve_b, state.reserve_a)
        };
        match swap_output_exec(reserve_in, reserve_out, amount_in) {
            Some(v) => Ok(v),
            None => Err(PoolError::Arithmetic),
        }
    }

    /// The two tokens of the pool.
    pub fn get_tokens(state: &PoolState) -> (r: Result<(Address, Address), PoolError>)
        ensures
            r is Ok <==> (state@.token_a is Some && state@.token_b is Some),
            r is Ok ==> r->Ok_0.0@ == state@.token_a.unwrap() && r->Ok_0.1@ == state@.token_b.unwrap(),
    {
        match Self::tokens(state) {
            Some(t) => Ok(t),
            None => Err(PoolError::NotInitialized),
        }
    }
}

} // verus!
