//! What holds of the liquidity pool across calls.

use vstd::prelude::*;
use crate::math::{trunc_div, isqrt_value, min_spec};
use crate::transfer::{Direction, flow_in, flow_out, paid_to, lemma_flows_small};
use crate::sum::{map_sum, all_nonneg, lemma_map_sum_insert, lemma_map_sum_bounds_one};
use crate::pool::{
    PoolModel, PoolError, pool_fresh, shares_of, swap_output, swap_direction,
    pool_initialize_spec, add_liquidity_spec, remove_liquidity_spec, swap_spec, quote_spec,
    add_liquidity_transfers, remove_liquidity_transfers, swap_transfers,
};

verus! {

/// The outstanding shares are the sum of all holdings, no holding is
/// negative, both reserves are empty exactly when no share is outstanding,
/// and nothing is deposited before the pool knows its tokens.
pub open spec fn pool_consistent(m: PoolModel) -> bool {
    &&& m.shares.dom().finite()
    &&& all_nonneg(m.shares)
    &&& m.total_shares == map_sum(m.shares)
    &&& ((m.total_shares == 0 && m.reserve_a == 0 && m.reserve_b == 0) || (m.total_shares > 0
        && m.reserve_a > 0 && m.reserve_b > 0))
    &&& m.initialized == (m.token_a is Some && m.token_b is Some)
    &&& !m.initialized ==> m.total_shares == 0
}

/// Nothing stored is a consistent pool.
pub proof fn fresh_pool_is_consistent()
    ensures
        pool_consistent(pool_fresh()),
{
}

/// Initialising keeps the pool consistent.
pub proof fn pool_initialize_keeps_consistency(m: PoolModel, token_a: Seq<u8>, token_b: Seq<u8>)
    requires
        pool_consistent(m),
        pool_initialize_spec(m, token_a, token_b) is Ok,
    ensures
        pool_consistent(pool_initialize_spec(m, token_a, token_b)->Ok_0),
{
}

proof fn lemma_positive_trunc_div(a: int, b: int)
    requires
        a >= 0,
        b > 0,
    ensures
        trunc_div(a, b) == a / b,
        0 <= a / b,
        (a / b) * b <= a,
        a < (a / b + 1) * b,
{
    assert(0 <= a / b && (a / b) * b <= a && a < (a / b + 1) * b) by (nonlinear_arith)
        requires
            a >= 0,
            b > 0,
    ;
}

/// A deposit into a non-empty pool mints at most the proportional shares of
/// either reserve.
proof fn lemma_proportional_mint(reserve: int, total: int, amount: int, s: int, q: int)
    requires
        reserve > 0,
        total > 0,
        amount > 0,
        q == trunc_div(amount * total, reserve),
        s <= q,
    ensures
        s * reserve <= amount * total,
{
    assert(amount * total > 0) by (nonlinear_arith)
        requires
            amount > 0,
            total > 0,
    ;
    lemma_positive_trunc_div(amount * total, reserve);
    assert(s * reserve <= q * reserve) by (nonlinear_arith)
        requires
            s <= q,
            reserve > 0,
    ;
}

/// Depositing keeps the pool consistent. Into an empty pool it mints the
/// integer square root of the product of the deposits; into a non-empty pool
/// it never lowers what one share is worth in either reserve.
pub proof fn add_liquidity_keeps_consistency(m: PoolModel, depositor: Seq<u8>, a: i128, b: i128)
    requires
        pool_consistent(m),
        add_liquidity_spec(m, depositor, a, b) is Ok,
    ensures
        ({
            let (m2, s) = add_liquidity_spec(m, depositor, a, b)->Ok_0;
            &&& pool_consistent(m2)
            &&& m.total_shares == 0 ==> s == isqrt_value(a * b)
            &&& m.total_shares > 0 ==> m2.reserve_a * m.total_shares >= m.reserve_a * m2.total_shares
            &&& m.total_shares > 0 ==> m2.reserve_b * m.total_shares >= m.reserve_b * m2.total_shares
            &&& shares_of(m2, depositor) == shares_of(m, depositor) + s
        }),
{
    let (m2, s) = add_liquidity_spec(m, depositor, a, b)->Ok_0;
    lemma_map_sum_insert(m.shares, depositor, (shares_of(m, depositor) + s) as i128);
    if m.total_shares > 0 {
        let qa = trunc_div(a * m.total_shares, m.reserve_a as int);
        let qb = trunc_div(b * m.total_shares, m.reserve_b as int);
        assert(s == min_spec(qa, qb));
        lemma_proportional_mint(m.reserve_a as int, m.total_shares as int, a as int, s as int, qa);
        lemma_proportional_mint(m.reserve_b as int, m.total_shares as int, b as int, s as int, qb);
        assert(m2.reserve_a * m.total_shares >= m.reserve_a * m2.total_shares) by (nonlinear_arith)
            requires
                m2.reserve_a == m.reserve_a + a,
                m2.total_shares == m.total_shares + s,
                s * m.reserve_a <= a * m.total_shares,
        ;
        assert(m2.reserve_b * m.total_shares >= m.reserve_b * m2.total_shares) by (nonlinear_arith)
            requires
                m2.reserve_b == m.reserve_b + b,
                m2.total_shares == m.total_shares + s,
                s * m.reserve_b <= b * m.total_shares,
        ;
    }
}

proof fn lemma_payout_below_reserve(share: int, reserve: int, total: int)
    requires
        0 < share <= total,
        reserve > 0,
    ensures
        share * reserve > 0,
        trunc_div(share * reserve, total) == (share * reserve) / total,
        (share * reserve) / total <= reserve,
        share < total ==> (share * reserve) / total < reserve,
        share == total ==> (share * reserve) / total == reserve,
        ((share * reserve) / total) * total <= share * reserve,
{
    assert(share * reserve > 0) by (nonlinear_arith)
        requires
            share > 0,
            reserve > 0,
    ;
    lemma_positive_trunc_div(share * reserve, total);
    assert((share * reserve) / total <= reserve) by (nonlinear_arith)
        requires
            0 < share <= total,
            reserve > 0,
    ;
    if share < total {
        assert((share * reserve) / total < reserve) by (nonlinear_arith)
            requires
                0 < share < total,
                reserve > 0,
        ;
    } else {
        assert((total * reserve) / total == reserve) by (nonlinear_arith)
            requires
                total > 0,
        ;
    }
}

/// Redeeming keeps the pool consistent and never lowers what a remaining
/// share is worth; redeeming every outstanding share pays out both reserves
/// in full and leaves the pool empty.
pub proof fn remove_liquidity_keeps_consistency(m: PoolModel, provider: Seq<u8>, share: i128)
    requires
        pool_consistent(m),
        remove_liquidity_spec(m, provider, share) is Ok,
    ensures
        ({
            let (m2, out_a, out_b) = remove_liquidity_spec(m, provider, share)->Ok_0;
            &&& pool_consistent(m2)
            &&& m2.reserve_a * m.total_shares >= m.reserve_a * m2.total_shares
            &&& m2.reserve_b * m.total_shares >= m.reserve_b * m2.total_shares
            &&& shares_of(m2, provider) == shares_of(m, provider) - share
            &&& share == m.total_shares ==> out_a == m.reserve_a && out_b == m.reserve_b
                && m2.reserve_a == 0 && m2.reserve_b == 0 && m2.total_shares == 0
        }),
{
    let (m2, out_a, out_b) = remove_liquidity_spec(m, provider, share)->Ok_0;
    lemma_map_sum_bounds_one(m.shares, provider);
    lemma_map_sum_insert(m.shares, provider, (shares_of(m, provider) - share) as i128);
    let t = m.total_shares as int;
    assert(t > 0);
    lemma_payout_below_reserve(share as int, m.reserve_a as int, t);
    lemma_payout_below_reserve(share as int, m.reserve_b as int, t);
    assert(m2.reserve_a * t >= m.reserve_a * m2.total_shares) by (nonlinear_arith)
        requires
            m2.reserve_a == m.reserve_a - out_a,
            m2.total_shares == t - share,
            out_a * t <= share * m.reserve_a,
    ;
    assert(m2.reserve_b * t >= m.reserve_b * m2.total_shares) by (nonlinear_arith)
        requires
            m2.reserve_b == m.reserve_b - out_b,
            m2.total_shares == t - share,
            out_b * t <= share * m.reserve_b,
    ;
}

proof fn lemma_swap_output_facts(reserve_in: int, reserve_out: int, amount: int, out: int)
    requires
        reserve_in > 0,
        reserve_out > 0,
        amount > 0,
        swap_output(reserve_in, reserve_out, amount) == Some(out),
    ensures
        0 <= out < reserve_out,
        (reserve_in + amount) * (reserve_out - out) >= reserve_in * reserve_out,
{
    let f = amount * 997;
    let num = f * reserve_out;
    let den = reserve_in * 1000 + f;
    assert(f > 0 && num > 0 && den > f) by (nonlinear_arith)
        requires
            reserve_in > 0,
            reserve_out > 0,
            amount > 0,
            f == amount * 997,
            num == f * reserve_out,
            den == reserve_in * 1000 + f,
    ;
    lemma_positive_trunc_div(num, den);
    assert(out == num / den);
    assert(out * den <= num);
    assert(num < den * reserve_out) by (nonlinear_arith)
        requires
            num == f * reserve_out,
            den > f,
            reserve_out > 0,
    ;
    assert(out < reserve_out) by (nonlinear_arith)
        requires
            out * den <= num,
            num < den * reserve_out,
            den > 0,
            out >= 0,
    ;
    assert((reserve_in + amount) * out * den <= (reserve_in + amount) * num) by (nonlinear_arith)
        requires
            out * den <= num,
            reserve_in + amount > 0,
    ;
    assert((reserve_in + amount) * num <= amount * reserve_out * den) by (nonlinear_arith)
        requires
            num == amount * 997 * reserve_out,
            den == reserve_in * 1000 + amount * 997,
            reserve_in > 0,
            reserve_out > 0,
            amount > 0,
    ;
    assert((reserve_in + amount) * out <= amount * reserve_out) by (nonlinear_arith)
        requires
            (reserve_in + amount) * out * den <= amount * reserve_out * den,
            den > 0,
    ;
    assert((reserve_in + amount) * (reserve_out - out) >= reserve_in * reserve_out) by (nonlinear_arith)
        requires
            (reserve_in + amount) * out <= amount * reserve_out,
    ;
}

/// A swap keeps the pool consistent, leaves the shares alone and never
/// lowers the product of the reserves.
pub proof fn swap_keeps_consistency(m: PoolModel, token_in: Seq<u8>, amount_in: i128, min_amount_out: i128)
    requires
        pool_consistent(m),
        swap_spec(m, token_in, amount_in, min_amount_out) is Ok,
    ensures
        ({
            let (m2, out) = swap_spec(m, token_in, amount_in, min_amount_out)->Ok_0;
            &&& pool_consistent(m2)
            &&& m2.total_shares == m.total_shares
            &&& m2.shares == m.shares
            &&& m2.reserve_a * m2.reserve_b >= m.reserve_a * m.reserve_b
        }),
{
    let (m2, out) = swap_spec(m, token_in, amount_in, min_amount_out)->Ok_0;
    let a_to_b = swap_direction(m, token_in)->Some_0;
    let reserve_in = if a_to_b {
        m.reserve_a
    } else {
        m.reserve_b
    };
    let reserve_out = if a_to_b {
        m.reserve_b
    } else {
        m.reserve_a
    };
    if m.total_shares == 0 {
        assert(reserve_out == 0);
        assert((amount_in * 997) * reserve_out == 0) by (nonlinear_arith)
            requires
                reserve_out == 0,
        ;
        assert(out == 0);
        assert(false);
    }
    lemma_swap_output_facts(reserve_in as int, reserve_out as int, amount_in as int, out as int);
    if !a_to_b {
        assert(m2.reserve_a * m2.reserve_b == m2.reserve_b * m2.reserve_a) by (nonlinear_arith);
        assert(m.reserve_a * m.reserve_b == m.reserve_b * m.reserve_a) by (nonlinear_arith);
    }
}

/// A quote names what the same swap pays out.
pub proof fn quote_matches_swap(m: PoolModel, token_in: Seq<u8>, amount_in: i128, min_amount_out: i128)
    requires
        swap_spec(m, token_in, amount_in, min_amount_out) is Ok,
    ensures
        quote_spec(m, token_in, amount_in) == Ok::<i128, crate::pool::PoolError>(
            swap_spec(m, token_in, amount_in, min_amount_out)->Ok_0.1,
        ),
{
}

/// Depositing and then redeeming exactly the shares minted never pays out
/// more of either token than was deposited; from an empty pool it pays back
/// exactly the deposit and leaves the pool empty again.
pub proof fn add_then_remove_round_trip(m: PoolModel, provider: Seq<u8>, a: i128, b: i128)
    requires
        pool_consistent(m),
        add_liquidity_spec(m, provider, a, b) is Ok,
        remove_liquidity_spec(
            add_liquidity_spec(m, provider, a, b)->Ok_0.0,
            provider,
            add_liquidity_spec(m, provider, a, b)->Ok_0.1,
        ) is Ok,
    ensures
        ({
            let (m2, s) = add_liquidity_spec(m, provider, a, b)->Ok_0;
            let (m3, x, y) = remove_liquidity_spec(m2, provider, s)->Ok_0;
            &&& x <= a
            &&& y <= b
            &&& m.total_shares == 0 ==> x == a && y == b && m3.reserve_a == 0 && m3.reserve_b == 0
                && m3.total_shares == 0
        }),
{
    let (m2, s) = add_liquidity_spec(m, provider, a, b)->Ok_0;
    add_liquidity_keeps_consistency(m, provider, a, b);
    remove_liquidity_keeps_consistency(m2, provider, s);
    let (m3, x, y) = remove_liquidity_spec(m2, provider, s)->Ok_0;
    let t = m.total_shares as int;
    let t2 = m2.total_shares as int;
    assert(t2 == t + s);
    assert(s > 0);
    lemma_map_sum_bounds_one(m2.shares, provider);
    lemma_payout_below_reserve(s as int, m2.reserve_a as int, t2);
    lemma_payout_below_reserve(s as int, m2.reserve_b as int, t2);
    if t == 0 {
        assert(m.reserve_a == 0 && m.reserve_b == 0);
    } else {
        // m2.reserve_a * t >= m.reserve_a * t2, i.e. s * ra <= a * t
        assert(x * t2 <= s * m2.reserve_a);
        assert(x <= a) by (nonlinear_arith)
            requires
                x * t2 <= s * m2.reserve_a,
                m2.reserve_a == m.reserve_a + a,
                t2 == t + s,
                m2.reserve_a * t >= m.reserve_a * t2,
                t > 0,
                s > 0,
        ;
        assert(y * t2 <= s * m2.reserve_b);
        assert(y <= b) by (nonlinear_arith)
            requires
                y * t2 <= s * m2.reserve_b,
                m2.reserve_b == m.reserve_b + b,
                t2 == t + s,
                m2.reserve_b * t >= m.reserve_b * t2,
                t > 0,
                s > 0,
        ;
    }
}

/// A state-changing call on the pool, with its arguments by value.
pub enum PoolCall {
    Initialize(Seq<u8>, Seq<u8>),
    AddLiquidity(Seq<u8>, i128, i128),
    RemoveLiquidity(Seq<u8>, i128),
    /// Token in, amount in, least amount out.
    Swap(Seq<u8>, i128, i128),
}

/// The state after one call, or the call's error.
pub open spec fn pool_step(m: PoolModel, c: PoolCall) -> Result<PoolModel, PoolError> {
    match c {
        PoolCall::Initialize(ta, tb) => pool_initialize_spec(m, ta, tb),
        PoolCall::AddLiquidity(d, a, b) => match add_liquidity_spec(m, d, a, b) {
            Ok((n, _)) => Ok(n),
            Err(e) => Err(e),
        },
        PoolCall::RemoveLiquidity(p, share) => match remove_liquidity_spec(m, p, share) {
            Ok((n, _, _)) => Ok(n),
            Err(e) => Err(e),
        },
        PoolCall::Swap(t, amount, least) => match swap_spec(m, t, amount, least) {
            Ok((n, _)) => Ok(n),
            Err(e) => Err(e),
        },
    }
}

/// The state after a sequence of calls; a refused call changes nothing.
pub open spec fn pool_run(m: PoolModel, calls: Seq<PoolCall>) -> PoolModel
    decreases calls.len(),
{
    if calls.len() == 0 {
        m
    } else {
        let before = pool_run(m, calls.drop_last());
        match pool_step(before, calls.last()) {
            Ok(n) => n,
            Err(_) => before,
        }
    }
}

/// Every call keeps the pool consistent.
pub proof fn pool_step_keeps_consistency(m: PoolModel, c: PoolCall)
    requires
        pool_consistent(m),
    ensures
        pool_step(m, c) is Ok ==> pool_consistent(pool_step(m, c)->Ok_0),
{
    if pool_step(m, c) is Ok {
        match c {
            PoolCall::Initialize(ta, tb) => pool_initialize_keeps_consistency(m, ta, tb),
            PoolCall::AddLiquidity(d, a, b) => add_liquidity_keeps_consistency(m, d, a, b),
            PoolCall::RemoveLiquidity(p, share) => remove_liquidity_keeps_consistency(m, p, share),
            PoolCall::Swap(t, amount, least) => swap_keeps_consistency(m, t, amount, least),
        }
    }
}

/// After any sequence of calls on a new pool, the outstanding shares are the
/// sum of all holdings, no holding is negative, and the reserves are both
/// positive while shares are outstanding and both zero when none are.
pub proof fn pool_consistent_after_any_calls(calls: Seq<PoolCall>)
    ensures
        pool_consistent(pool_run(pool_fresh(), calls)),
        ({
            let m = pool_run(pool_fresh(), calls);
            &&& m.total_shares == map_sum(m.shares)
            &&& m.total_shares > 0 ==> m.reserve_a > 0 && m.reserve_b > 0
            &&& m.total_shares == 0 ==> m.reserve_a == 0 && m.reserve_b == 0
        }),
    decreases calls.len(),
{
    if calls.len() > 0 {
        pool_consistent_after_any_calls(calls.drop_last());
        pool_step_keeps_consistency(pool_run(pool_fresh(), calls.drop_last()), calls.last());
    }
}

/// A deposit moves exactly `a` of token A and `b` of token B from the
/// depositor into the pool and nothing out, and each reserve rises by
/// exactly what came in of its token.
pub proof fn add_liquidity_moves_the_deposit(m: PoolModel, depositor: Seq<u8>, a: i128, b: i128)
    requires
        add_liquidity_spec(m, depositor, a, b) is Ok,
        m.token_a.unwrap() != m.token_b.unwrap(),
    ensures
        ({
            let (m2, s) = add_liquidity_spec(m, depositor, a, b)->Ok_0;
            let t = add_liquidity_transfers(m, depositor, a, b);
            let ta = m.token_a.unwrap();
            let tb = m.token_b.unwrap();
            &&& flow_in(t, ta) == a
            &&& flow_in(t, tb) == b
            &&& flow_out(t, ta) == 0
            &&& flow_out(t, tb) == 0
            &&& forall|i: int| 0 <= i < t.len() ==> (#[trigger] t[i]).1 == depositor
            &&& m2.reserve_a - m.reserve_a == flow_in(t, ta) - flow_out(t, ta)
            &&& m2.reserve_b - m.reserve_b == flow_in(t, tb) - flow_out(t, tb)
        }),
{
    let t = add_liquidity_transfers(m, depositor, a, b);
    lemma_flows_small(t[0], t[1], m.token_a.unwrap(), depositor);
    lemma_flows_small(t[0], t[1], m.token_b.unwrap(), depositor);
    assert(t =~= seq![t[0], t[1]]);
}

/// A redemption pays the provider exactly the returned amount of token A
/// and of token B and takes nothing in, and each reserve drops by exactly
/// what went out of its token.
pub proof fn remove_liquidity_pays_out_each_token(m: PoolModel, provider: Seq<u8>, share: i128)
    requires
        remove_liquidity_spec(m, provider, share) is Ok,
        m.token_a.unwrap() != m.token_b.unwrap(),
    ensures
        ({
            let (m2, out_a, out_b) = remove_liquidity_spec(m, provider, share)->Ok_0;
            let t = remove_liquidity_transfers(m, provider, out_a, out_b);
            let ta = m.token_a.unwrap();
            let tb = m.token_b.unwrap();
            &&& flow_out(t, ta) == out_a
            &&& flow_out(t, tb) == out_b
            &&& flow_in(t, ta) == 0
            &&& flow_in(t, tb) == 0
            &&& paid_to(t, provider) == out_a + out_b
            &&& forall|i: int| 0 <= i < t.len() ==> (#[trigger] t[i]).1 == provider
            &&& m.reserve_a - m2.reserve_a == flow_out(t, ta) - flow_in(t, ta)
            &&& m.reserve_b - m2.reserve_b == flow_out(t, tb) - flow_in(t, tb)
        }),
{
    let (m2, out_a, out_b) = remove_liquidity_spec(m, provider, share)->Ok_0;
    let t = remove_liquidity_transfers(m, provider, out_a, out_b);
    lemma_flows_small(t[0], t[1], m.token_a.unwrap(), provider);
    lemma_flows_small(t[0], t[1], m.token_b.unwrap(), provider);
    assert(t =~= seq![t[0], t[1]]);
}

/// A swap takes exactly `amount_in` of the token paid in from the user and
/// pays the user exactly the output in the other token; each reserve changes
/// by exactly the net amount of its token that moved.
pub proof fn swap_moves_exactly_the_traded_amounts(
    m: PoolModel,
    user: Seq<u8>,
    token_in: Seq<u8>,
    amount_in: i128,
    min_amount_out: i128,
)
    requires
        swap_spec(m, token_in, amount_in, min_amount_out) is Ok,
        m.token_a.unwrap() != m.token_b.unwrap(),
    ensures
        ({
            let (m2, out) = swap_spec(m, token_in, amount_in, min_amount_out)->Ok_0;
            let t = swap_transfers(m, user, token_in, amount_in, out);
            let ta = m.token_a.unwrap();
            let tb = m.token_b.unwrap();
            let other = if token_in == ta {
                tb
            } else {
                ta
            };
            &&& token_in == ta || token_in == tb
            &&& flow_in(t, token_in) == amount_in
            &&& flow_out(t, token_in) == 0
            &&& flow_out(t, other) == out
            &&& flow_in(t, other) == 0
            &&& paid_to(t, user) == out
            &&& forall|i: int| 0 <= i < t.len() ==> (#[trigger] t[i]).1 == user
            &&& m2.reserve_a - m.reserve_a == flow_in(t, ta) - flow_out(t, ta)
            &&& m2.reserve_b - m.reserve_b == flow_in(t, tb) - flow_out(t, tb)
        }),
{
    let (m2, out) = swap_spec(m, token_in, amount_in, min_amount_out)->Ok_0;
    let t = swap_transfers(m, user, token_in, amount_in, out);
    lemma_flows_small(t[0], t[1], m.token_a.unwrap(), user);
    lemma_flows_small(t[0], t[1], m.token_b.unwrap(), user);
    assert(t =~= seq![t[0], t[1]]);
}

/// Initialising records the two tokens, empty reserves and no shares
/// outstanding, and succeeds exactly on a pool not yet initialised.
pub proof fn pool_initialize_records_tokens(m: PoolModel, token_a: Seq<u8>, token_b: Seq<u8>)
    ensures
        pool_initialize_spec(m, token_a, token_b) is Ok <==> !m.initialized,
        pool_initialize_spec(m, token_a, token_b) is Ok ==> {
            let m2 = pool_initialize_spec(m, token_a, token_b)->Ok_0;
            &&& m2.initialized
            &&& m2.token_a == Some(token_a)
            &&& m2.token_b == Some(token_b)
            &&& m2.reserve_a == 0 && m2.reserve_b == 0
            &&& m2.total_shares == 0
        },
{
}

/// A swap from a consistent pool pays out the constant-product price less
/// the 0.3% fee, rounded down: `out` is the largest integer with
/// `out * (reserve_in * 1000 + amount_in * 997) <= amount_in * 997 * reserve_out`.
pub proof fn swap_pays_the_fee_adjusted_price(
    m: PoolModel,
    token_in: Seq<u8>,
    amount_in: i128,
    min_amount_out: i128,
)
    requires
        pool_consistent(m),
        swap_spec(m, token_in, amount_in, min_amount_out) is Ok,
    ensures
        ({
            let (m2, out) = swap_spec(m, token_in, amount_in, min_amount_out)->Ok_0;
            let a_to_b = token_in == m.token_a.unwrap();
            let reserve_in = if a_to_b {
                m.reserve_a as int
            } else {
                m.reserve_b as int
            };
            let reserve_out = if a_to_b {
                m.reserve_b as int
            } else {
                m.reserve_a as int
            };
            let numerator = amount_in * 997 * reserve_out;
            let denominator = reserve_in * 1000 + amount_in * 997;
            &&& out >= min_amount_out
            &&& out * denominator <= numerator
            &&& numerator < (out + 1) * denominator
        }),
{
    let (m2, out) = swap_spec(m, token_in, amount_in, min_amount_out)->Ok_0;
    swap_keeps_consistency(m, token_in, amount_in, min_amount_out);
    let a_to_b = token_in == m.token_a.unwrap();
    let reserve_in = if a_to_b {
        m.reserve_a as int
    } else {
        m.reserve_b as int
    };
    let reserve_out = if a_to_b {
        m.reserve_b as int
    } else {
        m.reserve_a as int
    };
    if m.total_shares == 0 {
        assert((amount_in * 997) * reserve_out == 0) by (nonlinear_arith)
            requires
                reserve_out == 0,
        ;
        assert(false);
    }
    let f = amount_in * 997;
    let num = f * reserve_out;
    let den = reserve_in * 1000 + f;
    assert(num > 0 && den > 0) by (nonlinear_arith)
        requires
            reserve_in > 0,
            reserve_out > 0,
            amount_in > 0,
            f == amount_in * 997,
            num == f * reserve_out,
            den == reserve_in * 1000 + f,
    ;
    lemma_positive_trunc_div(num, den);
    assert(amount_in * 997 * reserve_out == num);
}

/// A redemption from a consistent pool pays out of each reserve the
/// provider's proportion of it, rounded down: `out_a` is the largest integer
/// with `out_a * total_shares <= share * reserve_a`, and likewise for B.
pub proof fn remove_liquidity_pays_the_proportion(m: PoolModel, provider: Seq<u8>, share: i128)
    requires
        pool_consistent(m),
        remove_liquidity_spec(m, provider, share) is Ok,
    ensures
        ({
            let (m2, out_a, out_b) = remove_liquidity_spec(m, provider, share)->Ok_0;
            let t = m.total_shares as int;
            &&& out_a * t <= share * m.reserve_a < (out_a + 1) * t
            &&& out_b * t <= share * m.reserve_b < (out_b + 1) * t
        }),
{
    lemma_map_sum_bounds_one(m.shares, provider);
    let t = m.total_shares as int;
    lemma_payout_below_reserve(share as int, m.reserve_a as int, t);
    lemma_payout_below_reserve(share as int, m.reserve_b as int, t);
    lemma_positive_trunc_div(share * m.reserve_a, t);
    lemma_positive_trunc_div(share * m.reserve_b, t);
}

/// A deposit into a consistent, non-empty pool mints the largest number of
/// shares that is proportional to neither reserve more than the deposit is:
/// `s * reserve_a <= a * total`, `s * reserve_b <= b * total`, and one more
/// share would break one of the two.
pub proof fn add_liquidity_mints_the_proportion(m: PoolModel, depositor: Seq<u8>, a: i128, b: i128)
    requires
        pool_consistent(m),
        m.total_shares > 0,
        add_liquidity_spec(m, depositor, a, b) is Ok,
    ensures
        ({
            let (m2, s) = add_liquidity_spec(m, depositor, a, b)->Ok_0;
            let t = m.total_shares as int;
            &&& s * m.reserve_a <= a * t
            &&& s * m.reserve_b <= b * t
            &&& (s + 1) * m.reserve_a > a * t || (s + 1) * m.reserve_b > b * t
        }),
{
    let (m2, s) = add_liquidity_spec(m, depositor, a, b)->Ok_0;
    let t = m.total_shares as int;
    assert(a * t > 0 && b * t > 0) by (nonlinear_arith)
        requires
            a > 0,
            b > 0,
            t > 0,
    ;
    lemma_positive_trunc_div(a * t, m.reserve_a as int);
    lemma_positive_trunc_div(b * t, m.reserve_b as int);
    let qa = (a * t) / (m.reserve_a as int);
    let qb = (b * t) / (m.reserve_b as int);
    assert(s == min_spec(qa, qb));
    assert(s * m.reserve_a <= qa * m.reserve_a) by (nonlinear_arith)
        requires
            s <= qa,
            m.reserve_a > 0,
    ;
    assert(s * m.reserve_b <= qb * m.reserve_b) by (nonlinear_arith)
        requires
            s <= qb,
            m.reserve_b > 0,
    ;
}

} // verus!
