use stealth_protocol::keys::{Address, PublicKey};
use stealth_protocol::stealth::{StealthContract, StealthError, StealthState};
use stealth_protocol::token::{PCSToken, TokenState};
use stealth_protocol::toxdr::TestContract;
use stealth_protocol::transfer::{Direction, Transfer};

fn addr(tag: u8) -> Address {
    let mut bytes = vec![0u8, 0, 0, 18, 0, 0, 0, 0, 0, 0, 0, 0];
    bytes.extend_from_slice(&[tag; 32]);
    Address::from_bytes(bytes)
}

fn key(byte: u8) -> PublicKey {
    PublicKey::from_bytes(vec![byte; 32])
}

/// A token ledger and the vault's own address, to carry out the vault's transfers.
struct Custody {
    vault: Address,
    token: Address,
    ledger: TokenState,
}

impl Custody {
    fn new() -> Custody {
        let mut ledger = TokenState::new();
        PCSToken::initialize(&mut ledger, addr(200), 7, b"XLM".to_vec(), b"XLM".to_vec()).unwrap();
        Custody { vault: addr(100), token: addr(101), ledger }
    }

    fn mint(&mut self, to: &Address, amount: i128) {
        PCSToken::mint(&mut self.ledger, &addr(200), to, amount).unwrap();
    }

    fn balance(&self, id: &Address) -> i128 {
        PCSToken::balance(&self.ledger, id)
    }

    fn apply(&mut self, t: &Transfer) {
        match t.direction {
            Direction::IntoContract => PCSToken::transfer(&mut self.ledger, &t.account, &self.vault, t.amount).unwrap(),
            Direction::OutOfContract => PCSToken::transfer(&mut self.ledger, &self.vault, &t.account, t.amount).unwrap(),
        }
    }
}

// ── Deposit Tests ─────────────────────────────────────────────────────────────

#[test]
fn test_deposit_flow() {
    let mut state = StealthState::new();
    let mut custody = Custody::new();
    let alice = addr(1);
    let stealth_pubkey = key(1);

    custody.mint(&alice, 1000);
    assert_eq!(custody.balance(&alice), 1000);

    let token = custody.token.duplicate();
    let t = StealthContract::deposit(&mut state, &alice, &stealth_pubkey, &token, 100).unwrap();
    custody.apply(&t);

    assert_eq!(custody.balance(&alice), 900);
    let vault = custody.vault.duplicate();
    assert_eq!(custody.balance(&vault), 100);
    assert_eq!(StealthContract::get_balance(&state, &stealth_pubkey), 100);
}

#[test]
fn test_multiple_deposits_same_stealth() {
    let mut state = StealthState::new();
    let mut custody = Custody::new();
    let alice = addr(1);
    let stealth_pubkey = key(1);
    custody.mint(&alice, 5000);
    let token = custody.token.duplicate();

    let t = StealthContract::deposit(&mut state, &alice, &stealth_pubkey, &token, 200).unwrap();
    custody.apply(&t);
    let t = StealthContract::deposit(&mut state, &alice, &stealth_pubkey, &token, 300).unwrap();
    custody.apply(&t);

    assert_eq!(StealthContract::get_balance(&state, &stealth_pubkey), 500);
    let vault = custody.vault.duplicate();
    assert_eq!(custody.balance(&vault), 500);
}

#[test]
#[should_panic(expected = "Amount must be greater than 0")]
fn test_deposit_zero_amount() {
    let mut state = StealthState::new();
    let alice = addr(1);
    if let Err(StealthError::InvalidAmount) = StealthContract::deposit(&mut state, &alice, &key(1), &addr(101), 0) {
        panic!("Amount must be greater than 0");
    }
}

// ── Withdraw Tests ────────────────────────────────────────────────────────────

#[test]
#[should_panic(expected = "No funds available")]
fn test_withdraw_empty() {
    let mut state = StealthState::new();
    let destination = addr(2);
    let relayer = addr(3);
    if let Err(StealthError::NoFundsAvailable) =
        StealthContract::withdraw(&mut state, &key(1), &addr(101), &destination, &relayer)
    {
        panic!("No funds available for this stealth address");
    }
}

// ── Admin Tests ───────────────────────────────────────────────────────────────

#[test]
fn test_initialize() {
    let mut state = StealthState::new();
    let admin = addr(1);
    let pcs_token = addr(2);
    StealthContract::initialize(&mut state, admin, pcs_token.duplicate(), 10).unwrap();

    assert_eq!(StealthContract::get_reward_multiplier(&state), 10);
    assert!(StealthContract::get_pcs_token(&state).unwrap().equals(&pcs_token));
    assert_eq!(StealthContract::is_paused(&state), false);
}

#[test]
fn test_pause_unpause() {
    let mut state = StealthState::new();
    StealthContract::initialize(&mut state, addr(1), addr(2), 10).unwrap();

    assert_eq!(StealthContract::is_paused(&state), false);

    StealthContract::pause(&mut state).unwrap();
    assert_eq!(StealthContract::is_paused(&state), true);

    StealthContract::unpause(&mut state).unwrap();
    assert_eq!(StealthContract::is_paused(&state), false);
}

#[test]
#[should_panic(expected = "contract is paused")]
fn test_deposit_while_paused() {
    let mut state = StealthState::new();
    StealthContract::initialize(&mut state, addr(1), addr(2), 10).unwrap();
    StealthContract::pause(&mut state).unwrap();

    let mut custody = Custody::new();
    let alice = addr(3);
    custody.mint(&alice, 1000);
    let token = custody.token.duplicate();

    if let Err(StealthError::ContractPaused) = StealthContract::deposit(&mut state, &alice, &key(1), &token, 100) {
        panic!("contract is paused");
    }
}

#[test]
fn test_set_reward_multiplier() {
    let mut state = StealthState::new();
    StealthContract::initialize(&mut state, addr(1), addr(2), 10).unwrap();

    assert_eq!(StealthContract::get_reward_multiplier(&state), 10);

    StealthContract::set_reward_multiplier(&mut state, 20).unwrap();
    assert_eq!(StealthContract::get_reward_multiplier(&state), 20);
}

// ── View Function Tests ───────────────────────────────────────────────────────

#[test]
fn test_get_balance_empty() {
    let state = StealthState::new();
    assert_eq!(StealthContract::get_balance(&state, &key(99)), 0);
}

#[test]
#[should_panic(expected = "already initialized")]
fn test_double_initialize() {
    let mut state = StealthState::new();
    StealthContract::initialize(&mut state, addr(1), addr(2), 10).unwrap();
    if let Err(StealthError::AlreadyInitialized) = StealthContract::initialize(&mut state, addr(1), addr(2), 10) {
        panic!("already initialized");
    }
}

#[test]
fn test_withdraw_with_pcs_reward() {
    let mut state = StealthState::new();
    let mut custody = Custody::new();
    let alice = addr(1);
    let stealth_pubkey = key(1);
    let token = custody.token.duplicate();

    custody.mint(&alice, 10000);
    let t = StealthContract::deposit(&mut state, &alice, &stealth_pubkey, &token, 1000).unwrap();
    custody.apply(&t);

    assert_eq!(StealthContract::get_balance(&state, &stealth_pubkey), 1000);
    let vault = custody.vault.duplicate();
    assert_eq!(custody.balance(&vault), 1000);
}

// ── Exact values and refusals ────────────────────────────────────────────────

#[test]
fn withdrawal_splits_fee_and_mints_reward() {
    let mut state = StealthState::new();
    let pcs = addr(50);
    StealthContract::initialize(&mut state, addr(60), pcs.duplicate(), 10).unwrap();
    let mut custody = Custody::new();
    let alice = addr(1);
    let destination = addr(2);
    let relayer = addr(3);
    let token = custody.token.duplicate();
    custody.mint(&alice, 10000);
    let t = StealthContract::deposit(&mut state, &alice, &key(7), &token, 1000).unwrap();
    custody.apply(&t);

    let w = StealthContract::withdraw(&mut state, &key(7), &token, &destination, &relayer).unwrap();
    assert_eq!(w.fee, 5);
    assert_eq!(w.transfer_amount, 995);
    let (reward_token, reward) = w.reward.unwrap();
    assert!(reward_token.equals(&pcs));
    assert_eq!(reward, 50);
    assert_eq!(w.transfers.len(), 2);
    for t in &w.transfers {
        custody.apply(t);
    }
    assert_eq!(custody.balance(&relayer), 5);
    assert_eq!(custody.balance(&destination), 995);
    let vault = custody.vault.duplicate();
    assert_eq!(custody.balance(&vault), 0);
    assert_eq!(StealthContract::get_balance(&state, &key(7)), 0);

    // the key cannot be withdrawn from twice
    assert!(matches!(
        StealthContract::withdraw(&mut state, &key(7), &token, &destination, &relayer),
        Err(StealthError::NoFundsAvailable)
    ));
}

#[test]
fn small_withdrawal_pays_no_fee_and_no_reward() {
    let mut state = StealthState::new();
    StealthContract::initialize(&mut state, addr(60), addr(50), 10).unwrap();
    StealthContract::deposit(&mut state, &addr(1), &key(7), &addr(101), 150).unwrap();
    let w = StealthContract::withdraw(&mut state, &key(7), &addr(101), &addr(2), &addr(3)).unwrap();
    assert_eq!(w.fee, 0);
    assert_eq!(w.transfer_amount, 150);
    assert!(w.reward.is_none());
    assert_eq!(w.transfers.len(), 1);
    assert!(w.transfers[0].account.equals(&addr(2)));
}

#[test]
fn withdrawal_without_reward_token_mints_nothing() {
    let mut state = StealthState::new();
    StealthContract::deposit(&mut state, &addr(1), &key(7), &addr(101), 2000).unwrap();
    let w = StealthContract::withdraw(&mut state, &key(7), &addr(101), &addr(2), &addr(3)).unwrap();
    assert_eq!(w.fee, 10);
    assert_eq!(w.transfer_amount, 1990);
    assert!(w.reward.is_none());
}

#[test]
fn paused_vault_refuses_withdrawal() {
    let mut state = StealthState::new();
    StealthContract::initialize(&mut state, addr(60), addr(50), 10).unwrap();
    StealthContract::deposit(&mut state, &addr(1), &key(7), &addr(101), 500).unwrap();
    StealthContract::pause(&mut state).unwrap();
    assert!(matches!(
        StealthContract::withdraw(&mut state, &key(7), &addr(101), &addr(2), &addr(3)),
        Err(StealthError::ContractPaused)
    ));
    assert_eq!(StealthContract::get_balance(&state, &key(7)), 500);
}

#[test]
fn vault_admin_calls_need_initialisation() {
    let mut state = StealthState::new();
    assert_eq!(StealthContract::pause(&mut state), Err(StealthError::NotInitialized));
    assert_eq!(StealthContract::unpause(&mut state), Err(StealthError::NotInitialized));
    assert_eq!(StealthContract::set_reward_multiplier(&mut state, 3), Err(StealthError::NotInitialized));
    assert!(matches!(StealthContract::get_pcs_token(&state), Err(StealthError::NotInitialized)));
    assert_eq!(StealthContract::get_reward_multiplier(&state), 10);
}

#[test]
fn deposit_overflow_is_refused() {
    let mut state = StealthState::new();
    StealthContract::deposit(&mut state, &addr(1), &key(7), &addr(101), i128::MAX).unwrap();
    assert!(matches!(
        StealthContract::deposit(&mut state, &addr(1), &key(7), &addr(101), 1),
        Err(StealthError::Overflow)
    ));
}

#[test]
fn payload_concatenates_the_encodings() {
    let payload = StealthContract::test_payload(&addr(1), &addr(2), &addr(3), &addr(4));
    let mut expected = Vec::new();
    for tag in 1u8..=4 {
        expected.extend_from_slice(addr(tag).as_bytes());
    }
    assert_eq!(payload, expected);
    assert_eq!(payload.len(), 4 * 44);
}

#[test]
fn address_encoding_is_handed_back() {
    assert_eq!(&TestContract::test(&addr(9)), addr(9).as_bytes());
}

#[test]
fn payload_changes_with_any_part() {
    let base = StealthContract::test_payload(&addr(1), &addr(2), &addr(3), &addr(4));
    assert_ne!(StealthContract::test_payload(&addr(9), &addr(2), &addr(3), &addr(4)), base);
    assert_ne!(StealthContract::test_payload(&addr(1), &addr(9), &addr(3), &addr(4)), base);
    assert_ne!(StealthContract::test_payload(&addr(1), &addr(2), &addr(9), &addr(4)), base);
    assert_ne!(StealthContract::test_payload(&addr(1), &addr(2), &addr(3), &addr(9)), base);
}

#[test]
fn withdrawal_comes_with_the_payload_naming_its_payees() {
    let mut state = StealthState::new();
    StealthContract::deposit(&mut state, &addr(1), &key(7), &addr(101), 1000).unwrap();
    let (payload, w) =
        StealthContract::withdraw_with_payload(&mut state, &addr(100), &key(7), &addr(101), &addr(2), &addr(3))
            .unwrap();
    assert_eq!(payload, StealthContract::test_payload(&addr(100), &addr(101), &addr(2), &addr(3)));
    assert_eq!(w.fee, 5);
    assert_eq!(w.transfer_amount, 995);
    assert!(w.transfers[0].account.equals(&addr(3)));
    assert!(w.transfers[1].account.equals(&addr(2)));
    assert!(matches!(
        StealthContract::withdraw_with_payload(&mut state, &addr(100), &key(7), &addr(101), &addr(2), &addr(3)),
        Err(StealthError::NoFundsAvailable)
    ));
}

#[test]
fn withdrawn_key_stays_empty_through_later_calls() {
    let mut state = StealthState::new();
    StealthContract::initialize(&mut state, addr(60), addr(50), 10).unwrap();
    StealthContract::deposit(&mut state, &addr(1), &key(7), &addr(101), 1000).unwrap();
    StealthContract::withdraw(&mut state, &key(7), &addr(101), &addr(2), &addr(3)).unwrap();

    StealthContract::pause(&mut state).unwrap();
    assert!(matches!(
        StealthContract::withdraw(&mut state, &key(7), &addr(101), &addr(2), &addr(3)),
        Err(StealthError::ContractPaused)
    ));
    StealthContract::unpause(&mut state).unwrap();
    StealthContract::set_reward_multiplier(&mut state, 3).unwrap();
    StealthContract::deposit(&mut state, &addr(1), &key(8), &addr(101), 500).unwrap();
    StealthContract::withdraw(&mut state, &key(8), &addr(101), &addr(2), &addr(3)).unwrap();

    assert_eq!(StealthContract::get_balance(&state, &key(7)), 0);
    assert!(matches!(
        StealthContract::withdraw(&mut state, &key(7), &addr(101), &addr(2), &addr(3)),
        Err(StealthError::NoFundsAvailable)
    ));
}

#[test]
fn name_bytes_are_kept_unchanged() {
    let mut ledger = TokenState::new();
    let name = vec![0xffu8, 0x00, 0x41];
    PCSToken::initialize(&mut ledger, addr(1), 7, name.clone(), vec![0xfeu8]).unwrap();
    assert_eq!(PCSToken::name(&ledger), name);
    assert_eq!(PCSToken::symbol(&ledger), vec![0xfeu8]);
}
