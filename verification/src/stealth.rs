//! The stealth vault: deposits are credited to a one-time stealth public key
//! and withdrawn, against a signature by that key, to a destination of the
//! withdrawer's choice, less a 0.5% fee to the relayer that submits the
//! withdrawal; the fee also earns the destination reward tokens.
//!
//! A contract call is a transition on [`StealthState`]; its meaning is the
//! spec function of the same name on [`StealthModel`]. The caller holds the
//! authorisation checks, the signature check, the persistent storage, the
//! token transfers and reward mint that a call returns, and the event log.

use vstd::prelude::*;
use crate::keys::{Address, PublicKey, LedgerKey, append_bytes, address_opt_view};
use crate::ledger::Ledger;
use crate::math::{fits_i128, trunc_div};
use crate::sum::value_or_zero;
use crate::transfer::{Direction, Transfer, TransferView, transfers_view};

verus! {

/// Why a vault call is refused.
#[derive(Clone, Copy, Debug, PartialEq, Eq, Structural)]
pub enum StealthError {
    NotInitialized,
    AlreadyInitialized,
    InvalidAmount,
    NoFundsAvailable,
    ContractPaused,
    Unauthorized,
    /// An amount would leave the range of `i128`.
    Overflow,
}

/// The vault contract (its calls are the associated functions).
pub struct StealthContract;

/// What the vault's storage holds.
#[verifier::ext_equal]
pub struct StealthModel {
    pub admin: Option<Seq<u8>>,
    pub pcs_token: Option<Seq<u8>>,
    pub reward_multiplier: Option<i128>,
    pub paused: Option<bool>,
    pub balances: Map<Seq<u8>, i128>,
}

/// The vault's storage, or the part of it that a call reads and writes.
pub struct StealthState {
    pub admin: Option<Address>,
    pub pcs_token: Option<Address>,
    pub reward_multiplier: Option<i128>,
    pub paused: Option<bool>,
    pub balances: Ledger<PublicKey, i128>,
}

impl View for StealthState {
    type V = StealthModel;

    open spec fn view(&self) -> StealthModel {
        StealthModel {
            admin: address_opt_view(self.admin),
            pcs_token: address_opt_view(self.pcs_token),
            reward_multiplier: self.reward_multiplier,
            paused: self.paused,
            balances: self.balances@,
        }
    }
}

/// The vault before anything was stored.
pub open spec fn stealth_fresh() -> StealthModel {
    StealthModel {
        admin: None,
        pcs_token: None,
        reward_multiplier: None,
        paused: None,
        balances: Map::empty(),
    }
}

/// The balance credited to a stealth key, 0 where none is.
pub open spec fn stealth_balance(m: StealthModel, key: Seq<u8>) -> int {
    value_or_zero(m.balances, key)
}

/// Whether the vault is paused (not paused where nothing is stored).
pub open spec fn is_paused_spec(m: StealthModel) -> bool {
    match m.paused {
        Some(p) => p,
        None => false,
    }
}

/// The reward multiplier, 10 where none is stored.
pub open spec fn reward_multiplier_spec(m: StealthModel) -> i128 {
    match m.reward_multiplier {
        Some(r) => r,
        None => 10,
    }
}

/// Initialisation: admin, reward token and multiplier, unpaused.
pub open spec fn stealth_initialize_spec(
    m: StealthModel,
    admin: Seq<u8>,
    pcs_token: Seq<u8>,
    reward_multiplier: i128,
) -> Result<StealthModel, StealthError> {
    if m.admin is Some {
        Err(StealthError::AlreadyInitialized)
    } else {
        Ok(
            StealthModel {
                admin: Some(admin),
                pcs_token: Some(pcs_token),
                reward_multiplier: Some(reward_multiplier),
                paused: Some(false),
                ..m
            },
        )
    }
}

/// A deposit of `amount` credited to `key`.
pub open spec fn deposit_spec(m: StealthModel, key: Seq<u8>, amount: i128) -> Result<
    StealthModel,
    StealthError,
> {
    if is_paused_spec(m) {
        Err(StealthError::ContractPaused)
    } else if amount <= 0 {
        Err(StealthError::InvalidAmount)
    } else if !fits_i128(stealth_balance(m, key) + amount) {
        Err(StealthError::Overflow)
    } else {
        Ok(
            StealthModel {
                balances: m.balances.insert(key, (stealth_balance(m, key) + amount) as i128),
                ..m
            },
        )
    }
}

/// The relayer's fee on a withdrawal of `balance`: 0.5%, rounded toward zero.
pub open spec fn withdrawal_fee(balance: int) -> int {
    trunc_div(balance * 5, 1000)
}

/// What a withdrawal pays out: the fee, the rest, and the reward to mint
/// (the reward token and amount) if any.
pub struct WithdrawalView {
    pub fee: i128,
    pub transfer_amount: i128,
    pub reward: Option<(Seq<u8>, i128)>,
}

/// The new state and the payouts.
pub open spec fn withdraw_spec(m: StealthModel, key: Seq<u8>) -> Result<
    (StealthModel, WithdrawalView),
    StealthError,
> {
    let balance = stealth_balance(m, key);
    if is_paused_spec(m) {
        Err(StealthError::ContractPaused)
    } else if balance <= 0 {
        Err(StealthError::NoFundsAvailable)
    } else if !fits_i128(balance * 5) {
        Err(StealthError::Overflow)
    } else {
        let fee = withdrawal_fee(balance);
        let multiplier = reward_multiplier_spec(m);
        let rewarded = m.pcs_token is Some && fee > 0 && multiplier > 0;
        if rewarded && !fits_i128(fee * multiplier) {
            Err(StealthError::Overflow)
        } else {
            Ok(
                (
                    StealthModel { balances: m.balances.remove(key), ..m },
                    WithdrawalView {
                        fee: fee as i128,
                        transfer_amount: (balance - fee) as i128,
                        reward: if rewarded {
                            Some((m.pcs_token.unwrap(), (fee * multiplier) as i128))
                        } else {
                            None
                        },
                    },
                ),
            )
        }
    }
}

/// The payouts of a withdrawal: the fee to the relayer and the rest to the
/// destination, each only where positive.
pub open spec fn withdrawal_transfers(
    token: Seq<u8>,
    destination: Seq<u8>,
    relayer: Seq<u8>,
    fee: i128,
    transfer_amount: i128,
) -> Seq<TransferView> {
    let to_relayer: Seq<TransferView> = if fee > 0 {
        seq![(token, relayer, Direction::OutOfContract, fee)]
    } else {
        seq![]
    };
    let to_destination: Seq<TransferView> = if transfer_amount > 0 {
        seq![(token, destination, Direction::OutOfContract, transfer_amount)]
    } else {
        seq![]
    };
    to_relayer + to_destination
}

/// Pausing (`true`) or unpausing (`false`); needs an admin.
pub open spec fn set_paused_spec(m: StealthModel, paused: bool) -> Result<StealthModel, StealthError> {
    if m.admin is None {
        Err(StealthError::NotInitialized)
    } else {
        Ok(StealthModel { paused: Some(paused), ..m })
    }
}

/// Setting the reward multiplier; needs an admin.
pub open spec fn set_reward_multiplier_spec(m: StealthModel, multiplier: i128) -> Result<
    StealthModel,
    StealthError,
> {
    if m.admin is None {
        Err(StealthError::NotInitialized)
    } else {
        Ok(StealthModel { reward_multiplier: Some(multiplier), ..m })
    }
}

/// The bytes that a withdrawal's signature covers: the encodings of the
/// vault, the token, the destination and the relayer, in that order.
pub open spec fn payload_spec(contract: Seq<u8>, token: Seq<u8>, destination: Seq<u8>, relayer: Seq<u8>) -> Seq<
    u8,
> {
    contract + token + destination + relayer
}


/// What a withdrawal pays out: the fee, the rest, the transfers to carry out,
/// and the reward to mint (reward token and amount) if any.
#[derive(Debug)]
pub struct Withdrawal {
    pub fee: i128,
    pub transfer_amount: i128,
    pub transfers: Vec<Transfer>,
    pub reward: Option<(Address, i128)>,
}

/// A reward to mint, by value.
pub open spec fn reward_view(r: Option<(Address, i128)>) -> Option<(Seq<u8>, i128)> {
    match r {
        Some((a, x)) => Some((a@, x)),
        None => None,
    }
}

impl StealthState {
    /// A state with nothing stored.
    pub fn new() -> (s: StealthState)
        ensures
            s@ == stealth_fresh(),
    {
        StealthState {
            admin: None,
            pcs_token: None,
            reward_multiplier: None,
            paused: None,
            balances: Ledger::new(),
        }
    }
}

impl StealthContract {
    /// Sets the admin, the reward token and the reward multiplier, unpaused;
    /// refused once an admin is stored (the caller checks `admin`'s
    /// authorisation).
    pub fn initialize(state: &mut StealthState, admin: Address, pcs_token: Address, reward_multiplier: i128) -> (r:
        Result<(), StealthError>)
        ensures
            match stealth_initialize_spec(old(state)@, admin@, pcs_token@, reward_multiplier) {
                Ok(m) => r is Ok && final(state)@ == m,
                Err(e) => r == Err::<(), StealthError>(e) && final(state)@ == old(state)@,
            },
    {
        if state.admin.is_some() {
            return Err(StealthError::AlreadyInitialized);
        }
        state.admin = Some(admin);
        state.pcs_token = Some(pcs_token);
        state.reward_multiplier = Some(reward_multiplier);
        state.paused = Some(false);
        Ok(())
    }

    /// Credits `amount` to `stealth_pubkey`; returns the deposit of `amount`
    /// of `token` from `from` to carry out (the caller checks `from`'s
    /// authorisation and announces the ephemeral key and encrypted seed).
    pub fn deposit(
        state: &mut StealthState,
        from: &Address,
        stealth_pubkey: &PublicKey,
        token: &Address,
        amount: i128,
    ) -> (r: Result<Transfer, StealthError>)
        ensures
            match deposit_spec(old(state)@, stealth_pubkey@, amount) {
                Ok(m) => r is Ok && final(state)@ == m && r->Ok_0@ == (
                    token@,
                    from@,
                    Direction::IntoContract,
                    amount,
                ),
                Err(e) => r is Err && r->Err_0 == e && final(state)@ == old(state)@,
            },
    {
        if Self::is_paused(state) {
            return Err(StealthError::ContractPaused);
        }
        if amount <= 0 {
            return Err(StealthError::InvalidAmount);
        }
        let current = state.balances.get_or(stealth_pubkey, 0);
        let credited = match current.checked_add(amount) {
            Some(v) => v,
            None => {
                return Err(StealthError::Overflow);
            },
        };
        state.balances.set(stealth_pubkey.copy_key(), credited);
        Ok(
            Transfer {
                token: token.duplicate(),
                account: from.duplicate(),
                direction: Direction::IntoContract,
                amount,
            },
        )
    }

    /// Empties the balance of `stealth_pubkey` into a 0.5% fee for `relayer`
    /// and the rest for `destination`, with reward tokens for `destination`
    /// worth the fee times the multiplier where a reward token is set (the
    /// caller checks the stealth key's signature over [`Self::test_payload`]).
    pub fn withdraw(
        state: &mut StealthState,
        stealth_pubkey: &PublicKey,
        token: &Address,
        destination: &Address,
        relayer: &Address,
    ) -> (r: Result<Withdrawal, StealthError>)
        ensures
            match withdraw_spec(old(state)@, stealth_pubkey@) {
                Ok((m, w)) => r is Ok && final(state)@ == m && r->Ok_0.fee == w.fee
                    && r->Ok_0.transfer_amount == w.transfer_amount && reward_view(r->Ok_0.reward)
                    == w.reward && transfers_view(r->Ok_0.transfers@) == withdrawal_transfers(
                    token@,
                    destination@,
                    relayer@,
                    w.fee,
                    w.transfer_amount,
                ),
                Err(e) => r is Err && r->Err_0 == e && final(state)@ == old(state)@,
            },
    {
        if Self::is_paused(state) {
            return Err(StealthError::ContractPaused);
        }
        let balance = state.balances.get_or(stealth_pubkey, 0);
        if balance <= 0 {
            return Err(StealthError::NoFundsAvailable);
        }
        let scaled = match balance.checked_mul(5) {
            Some(v) => v,
            None => {
                return Err(StealthError::Overflow);
            },
        };
        let fee: i128 = scaled / 1000;
        assert(fee == withdrawal_fee(balance as int)) by (nonlinear_arith)
            requires
                fee == scaled / 1000,
                scaled == balance * 5,
                balance > 0,
        ;
        let transfer_amount: i128 = balance - fee;
        let multiplier = Self::get_reward_multiplier(state);
        let reward = match &state.pcs_token {
            Some(pcs) => if fee > 0 && multiplier > 0 {
                match fee.checked_mul(multiplier) {
                    Some(v) => Some((pcs.duplicate(), v)),
                    None => {
                        return Err(StealthError::Overflow);
                    },
                }
            } else {
                None
            },
            None => None,
        };
        state.balances.remove(stealth_pubkey);
        let mut transfers: Vec<Transfer> = Vec::new();
        if fee > 0 {
            transfers.push(
                Transfer {
                    token: token.duplicate(),
                    account: relayer.duplicate(),
                    direction: Direction::OutOfContract,
                    amount: fee,
                },
            );
        }
        if transfer_amount > 0 {
            transfers.push(
                Transfer {
                    token: token.duplicate(),
                    account: destination.duplicate(),
                    direction: Direction::OutOfContract,
                    amount: transfer_amount,
                },
            );
        }
        assert(transfers_view(transfers@) =~= withdrawal_transfers(
            token@,
            destination@,
            relayer@,
            fee,
            transfer_amount,
        ));
        Ok(Withdrawal { fee, transfer_amount, transfers, reward })
    }

    /// A withdrawal together with the bytes that its signature must cover,
    /// both computed from the same token, destination and relayer, so that
    /// the signed payload names exactly the payees of the payouts. `contract`
    /// is the vault's own address.
    pub fn withdraw_with_payload(
        state: &mut StealthState,
        contract: &Address,
        stealth_pubkey: &PublicKey,
        token: &Address,
        destination: &Address,
        relayer: &Address,
    ) -> (r: Result<(Vec<u8>, Withdrawal), StealthError>)
        ensures
            match withdraw_spec(old(state)@, stealth_pubkey@) {
                Ok((m, w)) => r is Ok && final(state)@ == m && r->Ok_0.0@ == payload_spec(
                    contract@,
                    token@,
                    destination@,
                    relayer@,
                ) && r->Ok_0.1.fee == w.fee && r->Ok_0.1.transfer_amount == w.transfer_amount
                    && reward_view(r->Ok_0.1.reward) == w.reward && transfers_view(r->Ok_0.1.transfers@)
                    == withdrawal_transfers(token@, destination@, relayer@, w.fee, w.transfer_amount),
                Err(e) => r is Err && r->Err_0 == e && final(state)@ == old(state)@,
            },
    {
        let withdrawal = Self::withdraw(state, stealth_pubkey, token, destination, relayer)?;
        let payload = Self::test_payload(contract, token, destination, relayer);
        Ok((payload, withdrawal))
    }

    /// The bytes that a withdrawal's signature covers: the encodings of the
    /// vault, the token, the destination and the relayer, in that order.
    pub fn test_payload(contract: &Address, token: &Address, destination: &Address, relayer: &Address) -> (r:
        Vec<u8>)
        ensures
            r@ == payload_spec(contract@, token@, destination@, relayer@),
    {
        let mut payload: Vec<u8> = Vec::new();
        append_bytes(&mut payload, contract.as_bytes());
        append_bytes(&mut payload, token.as_bytes());
        append_bytes(&mut payload, destination.as_bytes());
        append_bytes(&mut payload, relayer.as_bytes());
        assert(payload@ =~= payload_spec(contract@, token@, destination@, relayer@));
        payload
    }

    /// The balance credited to `stealth_pubkey`.
    pub fn get_balance(state: &StealthState, stealth_pubkey: &PublicKey) -> (r: i128)
        ensures
            r == stealth_balance(state@, stealth_pubkey@),
    {
        state.balances.get_or(stealth_pubkey, 0)
    }

    /// The reward token.
    pub fn get_pcs_token(state: &StealthState) -> (r: Result<Address, StealthError>)
        ensures
            r is Ok <==> state@.pcs_token is Some,
            r is Ok ==> Some(r->Ok_0@) == state@.pcs_token,
            r is Err ==> r->Err_0 == StealthError::NotInitialized,
    {
        match &state.pcs_token {
            Some(t) => Ok(t.duplicate()),
            None => Err(StealthError::NotInitialized),
        }
    }

    /// Reward tokens minted per unit of fee, 10 where none is stored.
    pub fn get_reward_multiplier(state: &StealthState) -> (r: i128)
        ensures
            r == reward_multiplier_spec(state@),
    {
        match state.reward_multiplier {
            Some(m) => m,
            None => 10,
        }
    }

    /// Whether deposits and withdrawals are suspended.
    pub fn is_paused(state: &StealthState) -> (r: bool)
        ensures
            r == is_paused_spec(state@),
    {
        match state.paused {
            Some(p) => p,
            None => false,
        }
    }

    /// Suspends deposits and withdrawals (the caller checks the admin's authorisation).
    pub fn pause(state: &mut StealthState) -> (r: Result<(), StealthError>)
        ensures
            match set_paused_spec(old(state)@, true) {
                Ok(m) => r is Ok && final(state)@ == m,
                Err(e) => r == Err::<(), StealthError>(e) && final(state)@ == old(state)@,
            },
    {
        if state.admin.is_none() {
            return Err(StealthError::NotInitialized);
        }
        state.paused = Some(true);
        Ok(())
    }

    /// Resumes deposits and withdrawals (the caller checks the admin's authorisation).
    pub fn unpause(state: &mut StealthState) -> (r: Result<(), StealthError>)
        ensures
            match set_paused_spec(old(state)@, false) {
                Ok(m) => r is Ok && final(state)@ == m,
                Err(e) => r == Err::<(), StealthError>(e) && final(state)@ == old(state)@,
            },
    {
        if state.admin.is_none() {
            return Err(StealthError::NotInitialized);
        }
        state.paused = Some(false);
        Ok(())
    }

    /// Sets the reward multiplier (the caller checks the admin's authorisation).
    pub fn set_reward_multiplier(state: &mut StealthState, new_multiplier: i128) -> (r: Result<(), StealthError>)
        ensures
            match set_reward_multiplier_spec(old(state)@, new_multiplier) {
                Ok(m) => r is Ok && final(state)@ == m,
                Err(e) => r == Err::<(), StealthError>(e) && final(state)@ == old(state)@,
            },
    {
        if state.admin.is_none() {
            return Err(StealthError::NotInitialized);
        }
        state.reward_multiplier = Some(new_multiplier);
        Ok(())
    }
}

} // verus!
