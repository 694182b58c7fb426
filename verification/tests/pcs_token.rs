use stealth_protocol::keys::Address;
use stealth_protocol::token::{PCSToken, TokenError, TokenState};

fn addr(tag: u8) -> Address {
    let mut bytes = vec![0u8, 0, 0, 18, 0, 0, 0, 0, 0, 0, 0, 0];
    bytes.extend_from_slice(&[tag; 32]);
    Address::from_bytes(bytes)
}

fn initialized(admin: &Address) -> TokenState {
    let mut state = TokenState::new();
    PCSToken::initialize(
        &mut state,
        admin.duplicate(),
        7u32,
        b"PrivacyCashStellar".to_vec(),
        b"PCS".to_vec(),
    )
    .unwrap();
    state
}

#[test]
fn test_initialize_and_metadata() {
    let admin = addr(1);
    let state = initialized(&admin);

    assert_eq!(PCSToken::decimals(&state), 7);
    assert_eq!(PCSToken::name(&state), b"PrivacyCashStellar".to_vec());
    assert_eq!(PCSToken::symbol(&state), b"PCS".to_vec());
    assert_eq!(PCSToken::total_supply(&state), 0);
}

#[test]
fn test_admin_mint() {
    let admin = addr(1);
    let user = addr(2);
    let mut state = initialized(&admin);

    PCSToken::mint(&mut state, &admin, &user, 1000).unwrap();
    assert_eq!(PCSToken::balance(&state, &user), 1000);
    assert_eq!(PCSToken::total_supply(&state), 1000);
}

#[test]
fn test_authorized_minter() {
    let admin = addr(1);
    let minter = addr(2);
    let user = addr(3);
    let mut state = initialized(&admin);

    PCSToken::add_minter(&mut state, minter.duplicate()).unwrap();
    assert_eq!(PCSToken::is_minter(&state, &minter), true);

    PCSToken::mint(&mut state, &minter, &user, 500).unwrap();
    assert_eq!(PCSToken::balance(&state, &user), 500);
    assert_eq!(PCSToken::total_supply(&state), 500);
}

#[test]
#[should_panic(expected = "unauthorized minter")]
fn test_unauthorized_mint_fails() {
    let admin = addr(1);
    let random = addr(2);
    let user = addr(3);
    let mut state = initialized(&admin);

    if let Err(TokenError::Unauthorized) = PCSToken::mint(&mut state, &random, &user, 500) {
        panic!("unauthorized minter");
    }
}

#[test]
fn test_transfer() {
    let admin = addr(1);
    let alice = addr(2);
    let bob = addr(3);
    let mut state = initialized(&admin);

    PCSToken::mint(&mut state, &admin, &alice, 1000).unwrap();
    PCSToken::transfer(&mut state, &alice, &bob, 300).unwrap();

    assert_eq!(PCSToken::balance(&state, &alice), 700);
    assert_eq!(PCSToken::balance(&state, &bob), 300);
}

#[test]
fn test_burn() {
    let admin = addr(1);
    let user = addr(2);
    let mut state = initialized(&admin);

    PCSToken::mint(&mut state, &admin, &user, 1000).unwrap();
    PCSToken::burn(&mut state, &user, 400).unwrap();

    assert_eq!(PCSToken::balance(&state, &user), 600);
    assert_eq!(PCSToken::total_supply(&state), 600);
}

#[test]
fn test_approve_and_transfer_from() {
    let admin = addr(1);
    let alice = addr(2);
    let bob = addr(3);
    let spender = addr(4);
    let mut state = initialized(&admin);

    PCSToken::mint(&mut state, &admin, &alice, 1000).unwrap();
    PCSToken::approve(&mut state, &alice, &spender, 500, 0);

    assert_eq!(PCSToken::allowance(&state, &alice, &spender), 500);

    PCSToken::transfer_from(&mut state, &spender, &alice, &bob, 200).unwrap();
    assert_eq!(PCSToken::balance(&state, &alice), 800);
    assert_eq!(PCSToken::balance(&state, &bob), 200);
    assert_eq!(PCSToken::allowance(&state, &alice, &spender), 300);
}

#[test]
fn test_remove_minter() {
    let admin = addr(1);
    let minter = addr(2);
    let mut state = initialized(&admin);

    PCSToken::add_minter(&mut state, minter.duplicate()).unwrap();
    assert_eq!(PCSToken::is_minter(&state, &minter), true);

    PCSToken::remove_minter(&mut state, &minter).unwrap();
    assert_eq!(PCSToken::is_minter(&state, &minter), false);
}

// ── Exact values and refusals ────────────────────────────────────────────────

#[test]
fn metadata_defaults_before_initialisation() {
    let state = TokenState::new();
    assert_eq!(PCSToken::decimals(&state), 7);
    assert_eq!(PCSToken::name(&state), b"PrivacyCashStellar".to_vec());
    assert_eq!(PCSToken::symbol(&state), b"PCS".to_vec());
    assert_eq!(PCSToken::total_supply(&state), 0);
    assert_eq!(PCSToken::balance(&state, &addr(9)), 0);
    assert_eq!(PCSToken::allowance(&state, &addr(9), &addr(8)), 0);
    assert!(!PCSToken::is_minter(&state, &addr(9)));
}

#[test]
fn initialise_twice_is_refused() {
    let admin = addr(1);
    let mut state = initialized(&admin);
    assert_eq!(
        PCSToken::initialize(&mut state, addr(2), 3, b"X".to_vec(), b"X".to_vec()),
        Err(TokenError::AlreadyInitialized)
    );
    assert_eq!(PCSToken::decimals(&state), 7);
}

#[test]
fn token_admin_calls_need_initialisation() {
    let mut state = TokenState::new();
    assert_eq!(PCSToken::add_minter(&mut state, addr(2)), Err(TokenError::NotInitialized));
    assert_eq!(PCSToken::remove_minter(&mut state, &addr(2)), Err(TokenError::NotInitialized));
    assert_eq!(PCSToken::mint(&mut state, &addr(1), &addr(2), 5), Err(TokenError::NotInitialized));
}

#[test]
fn token_refusals_leave_balances() {
    let admin = addr(1);
    let alice = addr(2);
    let bob = addr(3);
    let spender = addr(4);
    let mut state = initialized(&admin);
    PCSToken::mint(&mut state, &admin, &alice, 100).unwrap();

    assert_eq!(PCSToken::mint(&mut state, &admin, &alice, 0), Err(TokenError::InvalidAmount));
    assert_eq!(PCSToken::mint(&mut state, &bob, &alice, 1), Err(TokenError::Unauthorized));
    assert_eq!(PCSToken::transfer(&mut state, &alice, &bob, -5), Err(TokenError::InvalidAmount));
    assert_eq!(PCSToken::transfer(&mut state, &alice, &bob, 101), Err(TokenError::InsufficientBalance));
    assert_eq!(PCSToken::burn(&mut state, &alice, 101), Err(TokenError::InsufficientBalance));
    assert_eq!(PCSToken::burn(&mut state, &alice, 0), Err(TokenError::InvalidAmount));

    PCSToken::approve(&mut state, &alice, &spender, 50, 0);
    assert_eq!(
        PCSToken::transfer_from(&mut state, &spender, &alice, &bob, 51),
        Err(TokenError::InsufficientAllowance)
    );
    assert_eq!(
        PCSToken::burn_from(&mut state, &spender, &alice, 51),
        Err(TokenError::InsufficientAllowance)
    );
    PCSToken::approve(&mut state, &alice, &spender, 500, 0);
    assert_eq!(
        PCSToken::transfer_from(&mut state, &spender, &alice, &bob, 101),
        Err(TokenError::InsufficientBalance)
    );
    assert_eq!(PCSToken::balance(&state, &alice), 100);
    assert_eq!(PCSToken::balance(&state, &bob), 0);
    assert_eq!(PCSToken::total_supply(&state), 100);
    assert_eq!(PCSToken::allowance(&state, &alice, &spender), 500);
}

#[test]
fn burn_from_spends_allowance_and_supply() {
    let admin = addr(1);
    let alice = addr(2);
    let spender = addr(4);
    let mut state = initialized(&admin);
    PCSToken::mint(&mut state, &admin, &alice, 1000).unwrap();
    PCSToken::approve(&mut state, &alice, &spender, 300, 0);
    PCSToken::burn_from(&mut state, &spender, &alice, 120).unwrap();
    assert_eq!(PCSToken::balance(&state, &alice), 880);
    assert_eq!(PCSToken::allowance(&state, &alice, &spender), 180);
    assert_eq!(PCSToken::total_supply(&state), 880);
}

#[test]
fn transfer_to_oneself_changes_nothing() {
    let admin = addr(1);
    let alice = addr(2);
    let mut state = initialized(&admin);
    PCSToken::mint(&mut state, &admin, &alice, 1000).unwrap();
    PCSToken::transfer(&mut state, &alice, &alice, 400).unwrap();
    assert_eq!(PCSToken::balance(&state, &alice), 1000);
    assert_eq!(PCSToken::total_supply(&state), 1000);
}

#[test]
fn supply_is_sum_of_balances() {
    let admin = addr(1);
    let (a, b, c) = (addr(2), addr(3), addr(4));
    let mut state = initialized(&admin);
    PCSToken::mint(&mut state, &admin, &a, 700).unwrap();
    PCSToken::mint(&mut state, &admin, &b, 300).unwrap();
    PCSToken::transfer(&mut state, &a, &c, 250).unwrap();
    PCSToken::burn(&mut state, &b, 100).unwrap();
    let sum = PCSToken::balance(&state, &a) + PCSToken::balance(&state, &b) + PCSToken::balance(&state, &c);
    assert_eq!(sum, 900);
    assert_eq!(PCSToken::total_supply(&state), sum);
}

#[test]
fn mint_beyond_the_range_is_refused() {
    let admin = addr(1);
    let mut state = initialized(&admin);
    PCSToken::mint(&mut state, &admin, &addr(2), i128::MAX).unwrap();
    assert_eq!(PCSToken::mint(&mut state, &admin, &addr(3), 1), Err(TokenError::Overflow));
    assert_eq!(PCSToken::total_supply(&state), i128::MAX);
}

#[test]
fn approve_may_lower_or_clear_an_allowance() {
    let admin = addr(1);
    let mut state = initialized(&admin);
    PCSToken::approve(&mut state, &addr(2), &addr(3), 500, 0);
    PCSToken::approve(&mut state, &addr(2), &addr(3), 0, 0);
    assert_eq!(PCSToken::allowance(&state, &addr(2), &addr(3)), 0);
    assert_eq!(PCSToken::allowance(&state, &addr(3), &addr(2)), 0);
}
