use stealth_protocol::keys::Address;
use stealth_protocol::pool::{LiquidityPool, PoolError, PoolState};
use stealth_protocol::token::{PCSToken, TokenState};
use stealth_protocol::transfer::{Direction, Transfer};

fn addr(tag: u8) -> Address {
    let mut bytes = vec![0u8, 0, 0, 18, 0, 0, 0, 0];
    bytes.extend_from_slice(&[tag; 32]);
    Address::from_bytes(bytes)
}

/// Two token ledgers and the pool's own address, to carry out the pool's transfers.
struct Market {
    pool: Address,
    token_a: Address,
    token_b: Address,
    ledger_a: TokenState,
    ledger_b: TokenState,
}

impl Market {
    fn new() -> Market {
        let admin = addr(200);
        let mut ledger_a = TokenState::new();
        let mut ledger_b = TokenState::new();
        PCSToken::initialize(&mut ledger_a, admin.duplicate(), 7, b"A".to_vec(), b"A".to_vec()).unwrap();
        PCSToken::initialize(&mut ledger_b, admin.duplicate(), 7, b"B".to_vec(), b"B".to_vec()).unwrap();
        Market { pool: addr(100), token_a: addr(101), token_b: addr(102), ledger_a, ledger_b }
    }

    fn mint_a(&mut self, to: &Address, amount: i128) {
        PCSToken::mint(&mut self.ledger_a, &addr(200), to, amount).unwrap();
    }

    fn mint_b(&mut self, to: &Address, amount: i128) {
        PCSToken::mint(&mut self.ledger_b, &addr(200), to, amount).unwrap();
    }

    fn apply(&mut self, transfers: &Vec<Transfer>) {
        for t in transfers {
            let ledger = if t.token.equals(&self.token_a) { &mut self.ledger_a } else { &mut self.ledger_b };
            match t.direction {
                Direction::IntoContract => PCSToken::transfer(ledger, &t.account, &self.pool, t.amount).unwrap(),
                Direction::OutOfContract => PCSToken::transfer(ledger, &self.pool, &t.account, t.amount).unwrap(),
            }
        }
    }
}

fn setup() -> (Market, PoolState) {
    let market = Market::new();
    let mut pool = PoolState::new();
    LiquidityPool::initialize(&mut pool, market.token_a.duplicate(), market.token_b.duplicate()).unwrap();
    (market, pool)
}

#[test]
fn test_add_liquidity_and_swap() {
    let (mut market, mut pool) = setup();
    let alice = addr(1);
    market.mint_a(&alice, 10000);
    market.mint_b(&alice, 10000);

    let (shares, transfers) = LiquidityPool::add_liquidity(&mut pool, &alice, 1000, 1000).unwrap();
    market.apply(&transfers);
    assert!(shares > 0);

    let (ra, rb) = LiquidityPool::get_reserves(&pool);
    assert_eq!(ra, 1000);
    assert_eq!(rb, 1000);

    let bob = addr(2);
    market.mint_a(&bob, 1000);
    let token_a = market.token_a.duplicate();
    let (out, transfers) = LiquidityPool::swap(&mut pool, &bob, &token_a, 100, 1).unwrap();
    market.apply(&transfers);
    assert!(out > 0);
    assert!(out > 80 && out < 100);

    assert_eq!(PCSToken::balance(&market.ledger_b, &bob), out);
}

#[test]
fn test_remove_liquidity() {
    let (mut market, mut pool) = setup();
    let alice = addr(1);
    market.mint_a(&alice, 10000);
    market.mint_b(&alice, 10000);

    let (shares, transfers) = LiquidityPool::add_liquidity(&mut pool, &alice, 1000, 1000).unwrap();
    market.apply(&transfers);

    let ((amount_a, amount_b), transfers) = LiquidityPool::remove_liquidity(&mut pool, &alice, shares).unwrap();
    market.apply(&transfers);
    assert_eq!(amount_a, 1000);
    assert_eq!(amount_b, 1000);

    let (ra, rb) = LiquidityPool::get_reserves(&pool);
    assert_eq!(ra, 0);
    assert_eq!(rb, 0);
}

#[test]
fn test_quote() {
    let (mut market, mut pool) = setup();
    let alice = addr(1);
    market.mint_a(&alice, 100000);
    market.mint_b(&alice, 100000);
    let (_, transfers) = LiquidityPool::add_liquidity(&mut pool, &alice, 10000, 10000).unwrap();
    market.apply(&transfers);

    let token_a = market.token_a.duplicate();
    let quoted = LiquidityPool::quote(&pool, &token_a, 100).unwrap();
    assert!(quoted > 0);

    let bob = addr(2);
    market.mint_a(&bob, 100);
    let (actual, transfers) = LiquidityPool::swap(&mut pool, &bob, &token_a, 100, 1).unwrap();
    market.apply(&transfers);
    assert_eq!(quoted, actual);
}

#[test]
#[should_panic(expected = "slippage exceeded")]
fn test_slippage_protection() {
    let (mut market, mut pool) = setup();
    let alice = addr(1);
    market.mint_a(&alice, 100000);
    market.mint_b(&alice, 100000);
    let (_, transfers) = LiquidityPool::add_liquidity(&mut pool, &alice, 1000, 1000).unwrap();
    market.apply(&transfers);

    let bob = addr(2);
    market.mint_a(&bob, 100);
    let token_a = market.token_a.duplicate();
    if let Err(PoolError::SlippageExceeded) = LiquidityPool::swap(&mut pool, &bob, &token_a, 100, 99999) {
        panic!("slippage exceeded");
    }
}

#[test]
fn test_multiple_liquidity_providers() {
    let (mut market, mut pool) = setup();
    let alice = addr(1);
    let bob = addr(2);
    market.mint_a(&alice, 100000);
    market.mint_b(&alice, 100000);
    market.mint_a(&bob, 100000);
    market.mint_b(&bob, 100000);

    let (shares_a, transfers) = LiquidityPool::add_liquidity(&mut pool, &alice, 1000, 1000).unwrap();
    market.apply(&transfers);
    assert!(shares_a > 0);

    let (shares_b, transfers) = LiquidityPool::add_liquidity(&mut pool, &bob, 500, 500).unwrap();
    market.apply(&transfers);
    assert!(shares_b > 0);

    let total = LiquidityPool::get_total_shares(&pool);
    assert_eq!(total, shares_a + shares_b);
}

// ── Exact values and refusals ────────────────────────────────────────────────

#[test]
fn first_deposit_mints_square_root_of_product() {
    let (_, mut pool) = setup();
    let alice = addr(1);
    let (shares, transfers) = LiquidityPool::add_liquidity(&mut pool, &alice, 400, 900).unwrap();
    assert_eq!(shares, 600);
    assert_eq!(LiquidityPool::get_shares(&pool, &alice), 600);
    assert_eq!(transfers.len(), 2);
    assert!(transfers[0].token.equals(&addr(101)));
    assert!(transfers[0].account.equals(&alice));
    assert_eq!(transfers[0].direction, Direction::IntoContract);
    assert_eq!(transfers[0].amount, 400);
    assert!(transfers[1].token.equals(&addr(102)));
    assert_eq!(transfers[1].amount, 900);
}

#[test]
fn later_deposit_mints_the_smaller_proportion() {
    let (_, mut pool) = setup();
    LiquidityPool::add_liquidity(&mut pool, &addr(1), 1000, 1000).unwrap();
    // min(300 * 1000 / 1000, 100 * 1000 / 1000)
    let (shares, _) = LiquidityPool::add_liquidity(&mut pool, &addr(2), 300, 100).unwrap();
    assert_eq!(shares, 100);
    assert_eq!(LiquidityPool::get_reserves(&pool), (1300, 1100));
    assert_eq!(LiquidityPool::get_total_shares(&pool), 1100);
}

#[test]
fn swap_output_follows_the_constant_product_formula() {
    let (_, mut pool) = setup();
    LiquidityPool::add_liquidity(&mut pool, &addr(1), 1000, 1000).unwrap();
    // 100 * 997 * 1000 / (1000 * 1000 + 100 * 997) = 99_700_000 / 1_099_700 = 90
    let (out, transfers) = LiquidityPool::swap(&mut pool, &addr(2), &addr(101), 100, 1).unwrap();
    assert_eq!(out, 90);
    assert_eq!(LiquidityPool::get_reserves(&pool), (1100, 910));
    assert!(transfers[1].token.equals(&addr(102)));
    assert_eq!(transfers[1].direction, Direction::OutOfContract);
    assert_eq!(transfers[1].amount, 90);
    // the product of the reserves does not drop
    assert!(1100 * 910 >= 1000 * 1000);
}

#[test]
fn swap_from_b_to_a_moves_the_other_reserves() {
    let (_, mut pool) = setup();
    LiquidityPool::add_liquidity(&mut pool, &addr(1), 2000, 1000).unwrap();
    let (out, transfers) = LiquidityPool::swap(&mut pool, &addr(2), &addr(102), 100, 0).unwrap();
    // 100 * 997 * 2000 / (1000 * 1000 + 99_700) = 199_400_000 / 1_099_700 = 181
    assert_eq!(out, 181);
    assert_eq!(LiquidityPool::get_reserves(&pool), (1819, 1100));
    assert!(transfers[0].token.equals(&addr(102)));
    assert!(transfers[1].token.equals(&addr(101)));
}

#[test]
fn pool_refusals() {
    let mut fresh = PoolState::new();
    assert_eq!(
        LiquidityPool::add_liquidity(&mut fresh, &addr(1), 10, 10).unwrap_err(),
        PoolError::NotInitialized
    );
    assert_eq!(LiquidityPool::quote(&fresh, &addr(101), 10), Err(PoolError::NotInitialized));
    assert!(LiquidityPool::get_tokens(&fresh).is_err());

    let (_, mut pool) = setup();
    assert_eq!(
        LiquidityPool::initialize(&mut pool, addr(5), addr(6)),
        Err(PoolError::AlreadyInitialized)
    );
    assert_eq!(
        LiquidityPool::add_liquidity(&mut pool, &addr(1), 0, 10).unwrap_err(),
        PoolError::InvalidAmount
    );
    assert_eq!(
        LiquidityPool::add_liquidity(&mut pool, &addr(1), 1, 0).unwrap_err(),
        PoolError::InvalidAmount
    );
    assert_eq!(
        LiquidityPool::remove_liquidity(&mut pool, &addr(1), 0).unwrap_err(),
        PoolError::InvalidAmount
    );
    assert_eq!(
        LiquidityPool::remove_liquidity(&mut pool, &addr(1), 5).unwrap_err(),
        PoolError::InsufficientShares
    );
    assert_eq!(
        LiquidityPool::swap(&mut pool, &addr(2), &addr(101), 0, 0).unwrap_err(),
        PoolError::InvalidAmount
    );
    assert_eq!(
        LiquidityPool::swap(&mut pool, &addr(2), &addr(77), 10, 0).unwrap_err(),
        PoolError::InvalidToken
    );
    assert_eq!(LiquidityPool::quote(&pool, &addr(77), 10), Err(PoolError::InvalidToken));
    // an empty pool pays nothing out
    assert_eq!(
        LiquidityPool::swap(&mut pool, &addr(2), &addr(101), 10, 0).unwrap_err(),
        PoolError::InsufficientOutputAmount
    );
    // a deposit of 1 and 1 into a pool of 1000 shares over 1000 and 1000 mints one share
    LiquidityPool::add_liquidity(&mut pool, &addr(1), 1000, 1000).unwrap();
    assert_eq!(LiquidityPool::add_liquidity(&mut pool, &addr(3), 1, 1).unwrap().0, 1);
    // a tiny swap rounds down to nothing
    assert_eq!(
        LiquidityPool::swap(&mut pool, &addr(2), &addr(101), 1, 0).unwrap_err(),
        PoolError::InsufficientOutputAmount
    );
}

#[test]
fn deposit_worth_less_than_a_share_mints_none() {
    let (_, mut pool) = setup();
    LiquidityPool::add_liquidity(&mut pool, &addr(1), 1000, 4000).unwrap();
    // min(1 * 2000 / 1000, 1 * 2000 / 4000) = 0
    assert_eq!(
        LiquidityPool::add_liquidity(&mut pool, &addr(3), 1, 1).unwrap_err(),
        PoolError::InsufficientLiquidityMinted
    );
    assert_eq!(LiquidityPool::get_reserves(&pool), (1000, 4000));
    assert_eq!(LiquidityPool::get_shares(&pool, &addr(3)), 0);
}

#[test]
fn overflow_is_refused() {
    let (_, mut pool) = setup();
    assert_eq!(
        LiquidityPool::add_liquidity(&mut pool, &addr(1), i128::MAX, 2).unwrap_err(),
        PoolError::Arithmetic
    );
    assert_eq!(LiquidityPool::quote(&pool, &addr(101), i128::MAX), Err(PoolError::Arithmetic));
}

#[test]
fn redeeming_part_leaves_the_share_value() {
    let (_, mut pool) = setup();
    LiquidityPool::add_liquidity(&mut pool, &addr(1), 1000, 4000).unwrap();
    assert_eq!(LiquidityPool::get_total_shares(&pool), 2000);
    let ((a, b), transfers) = LiquidityPool::remove_liquidity(&mut pool, &addr(1), 500).unwrap();
    assert_eq!((a, b), (250, 1000));
    assert_eq!(LiquidityPool::get_reserves(&pool), (750, 3000));
    assert_eq!(LiquidityPool::get_shares(&pool, &addr(1)), 1500);
    assert_eq!(transfers[0].direction, Direction::OutOfContract);
    assert_eq!(transfers[0].amount, 250);
    assert_eq!(transfers[1].amount, 1000);
}

#[test]
fn get_tokens_returns_both() {
    let (_, pool) = setup();
    let (a, b) = LiquidityPool::get_tokens(&pool).unwrap();
    assert!(a.equals(&addr(101)));
    assert!(b.equals(&addr(102)));
}

#[test]
fn deposit_then_redeem_pays_out_no_more_than_deposited() {
    let (_, mut pool) = setup();
    LiquidityPool::add_liquidity(&mut pool, &addr(1), 1000, 4000).unwrap();
    // min(300 * 2000 / 1000, 100 * 2000 / 4000) = 50
    let (shares, _) = LiquidityPool::add_liquidity(&mut pool, &addr(2), 300, 100).unwrap();
    assert_eq!(shares, 50);
    // 50 * 1300 / 2050 = 31 and 50 * 4100 / 2050 = 100
    let ((a, b), _) = LiquidityPool::remove_liquidity(&mut pool, &addr(2), shares).unwrap();
    assert_eq!((a, b), (31, 100));
    assert!(a <= 300 && b <= 100);
    assert_eq!(LiquidityPool::get_total_shares(&pool), 2000);
}
