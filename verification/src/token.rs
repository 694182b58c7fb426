//! The reward token: a mintable, burnable token with allowances and an
//! admin who appoints minters.
//!
//! A contract call is a transition on [`TokenState`]; its meaning is the spec
//! function of the same name on [`TokenModel`]. The caller holds the
//! authorisation checks, the persistent storage and the event log.

use vstd::prelude::*;
use crate::keys::copy_bytes;
use crate::keys::{Address, AllowanceKey, address_opt_view};
use crate::ledger::Ledger;
use crate::math::fits_i128;
use crate::sum::value_or_zero;

verus! {

/// Why a token call is refused.
#[derive(Clone, Copy, Debug, PartialEq, Eq, Structural)]
pub enum TokenError {
    NotInitialized,
    AlreadyInitialized,
    Unauthorized,
    InsufficientBalance,
    InsufficientAllowance,
    InvalidAmount,
    /// An amount would leave the range of `i128`.
    Overflow,
}

/// The token contract (its calls are the associated functions).
pub struct PCSToken;

/// What the token's storage holds.
#[verifier::ext_equal]
pub struct TokenModel {
    pub admin: Option<Seq<u8>>,
    pub decimals: Option<u32>,
    pub name: Option<Seq<u8>>,
    pub symbol: Option<Seq<u8>>,
    pub total_supply: i128,
    pub minters: Map<Seq<u8>, bool>,
    pub balances: Map<Seq<u8>, i128>,
    pub allowances: Map<(Seq<u8>, Seq<u8>), i128>,
}

/// The token's storage, or the part of it that a call reads and writes.
pub struct TokenState {
    pub admin: Option<Address>,
    pub decimals: Option<u32>,
    pub name: Option<Vec<u8>>,
    pub symbol: Option<Vec<u8>>,
    pub total_supply: i128,
    pub minters: Ledger<Address, bool>,
    pub balances: Ledger<Address, i128>,
    pub allowances: Ledger<AllowanceKey, i128>,
}

/// An optional byte string by value.
pub open spec fn bytes_opt_view(o: Option<Vec<u8>>) -> Option<Seq<u8>> {
    match o {
        Some(s) => Some(s@),
        None => None,
    }
}

impl View for TokenState {
    type V = TokenModel;

    open spec fn view(&self) -> TokenModel {
        TokenModel {
            admin: address_opt_view(self.admin),
            decimals: self.decimals,
            name: bytes_opt_view(self.name),
            symbol: bytes_opt_view(self.symbol),
            total_supply: self.total_supply,
            minters: self.minters@,
            balances: self.balances@,
            allowances: self.allowances@,
        }
    }
}

/// `r` reports what `expected` says: success with the state after the call
/// equal to the expected one, or the expected error with the state unchanged.
pub open spec fn applied<M, E>(r: Result<(), E>, expected: Result<M, E>, before: M, after: M) -> bool {
    match expected {
        Ok(m) => r is Ok && after == m,
        Err(e) => r == Err::<(), E>(e) && after == before,
    }
}

/// The token before anything was stored.
pub open spec fn token_fresh() -> TokenModel {
    TokenModel {
        admin: None,
        decimals: None,
        name: None,
        symbol: None,
        total_supply: 0,
        minters: Map::empty(),
        balances: Map::empty(),
        allowances: Map::empty(),
    }
}

/// The balance of `id`, 0 where none is stored.
pub open spec fn balance_of(m: TokenModel, id: Seq<u8>) -> int {
    value_or_zero(m.balances, id)
}

/// What `spender` may move out of `from`'s balance, 0 where nothing is stored.
pub open spec fn allowance_of(m: TokenModel, from: Seq<u8>, spender: Seq<u8>) -> int {
    value_or_zero(m.allowances, (from, spender))
}

/// Whether `addr` holds a minter's appointment.
pub open spec fn is_minter_spec(m: TokenModel, addr: Seq<u8>) -> bool {
    m.minters.contains_key(addr) && m.minters[addr]
}

/// The decimals, 7 where none are stored.
pub open spec fn decimals_spec(m: TokenModel) -> u32 {
    match m.decimals {
        Some(d) => d,
        None => 7,
    }
}

/// The bytes of "PrivacyCashStellar", the name where none is stored.
pub open spec fn default_name() -> Seq<u8> {
    seq![80u8, 114, 105, 118, 97, 99, 121, 67, 97, 115, 104, 83, 116, 101, 108, 108, 97, 114]
}

/// The bytes of "PCS", the symbol where none is stored.
pub open spec fn default_symbol() -> Seq<u8> {
    seq![80u8, 67, 83]
}

/// The name, "PrivacyCashStellar" where none is stored.
pub open spec fn name_spec(m: TokenModel) -> Seq<u8> {
    match m.name {
        Some(n) => n,
        None => default_name(),
    }
}

/// The symbol, "PCS" where none is stored.
pub open spec fn symbol_spec(m: TokenModel) -> Seq<u8> {
    match m.symbol {
        Some(s) => s,
        None => default_symbol(),
    }
}

/// Initialisation: admin and metadata, with no supply; refused once an admin is stored.
pub open spec fn initialize_spec(
    m: TokenModel,
    admin: Seq<u8>,
    decimals: u32,
    name: Seq<u8>,
    symbol: Seq<u8>,
) -> Result<TokenModel, TokenError> {
    if m.admin is Some {
        Err(TokenError::AlreadyInitialized)
    } else {
        Ok(
            TokenModel {
                admin: Some(admin),
                decimals: Some(decimals),
                name: Some(name),
                symbol: Some(symbol),
                total_supply: 0,
                ..m
            },
        )
    }
}

/// Appointing a minter; needs an admin.
pub open spec fn add_minter_spec(m: TokenModel, minter: Seq<u8>) -> Result<TokenModel, TokenError> {
    if m.admin is None {
        Err(TokenError::NotInitialized)
    } else {
        Ok(TokenModel { minters: m.minters.insert(minter, true), ..m })
    }
}

/// Dismissing a minter; needs an admin.
pub open spec fn remove_minter_spec(m: TokenModel, minter: Seq<u8>) -> Result<TokenModel, TokenError> {
    if m.admin is None {
        Err(TokenError::NotInitialized)
    } else {
        Ok(TokenModel { minters: m.minters.remove(minter), ..m })
    }
}

/// Minting `amount` to `to` on behalf of `minter`.
pub open spec fn mint_spec(m: TokenModel, minter: Seq<u8>, to: Seq<u8>, amount: i128) -> Result<
    TokenModel,
    TokenError,
> {
    if amount <= 0 {
        Err(TokenError::InvalidAmount)
    } else if m.admin is None {
        Err(TokenError::NotInitialized)
    } else if minter != m.admin.unwrap() && !is_minter_spec(m, minter) {
        Err(TokenError::Unauthorized)
    } else if !fits_i128(balance_of(m, to) + amount) || !fits_i128(m.total_supply + amount) {
        Err(TokenError::Overflow)
    } else {
        Ok(
            TokenModel {
                balances: m.balances.insert(to, (balance_of(m, to) + amount) as i128),
                total_supply: (m.total_supply + amount) as i128,
                ..m
            },
        )
    }
}

/// Setting an allowance.
pub open spec fn approve_spec(m: TokenModel, from: Seq<u8>, spender: Seq<u8>, amount: i128) -> TokenModel {
    TokenModel { allowances: m.allowances.insert((from, spender), amount), ..m }
}

/// Moves `amount` from `from` to `to` within the balances, re-reading the
/// receiver after the sender was debited (so a transfer to oneself is a no-op).
pub open spec fn move_balance(
    balances: Map<Seq<u8>, i128>,
    from: Seq<u8>,
    to: Seq<u8>,
    amount: i128,
) -> Option<Map<Seq<u8>, i128>> {
    let debited = balances.insert(from, (value_or_zero(balances, from) - amount) as i128);
    let credited = value_or_zero(debited, to) + amount;
    if fits_i128(credited) {
        Some(debited.insert(to, credited as i128))
    } else {
        None
    }
}

/// A transfer of `amount` from `from` to `to`.
pub open spec fn transfer_spec(m: TokenModel, from: Seq<u8>, to: Seq<u8>, amount: i128) -> Result<
    TokenModel,
    TokenError,
> {
    if amount <= 0 {
        Err(TokenError::InvalidAmount)
    } else if balance_of(m, from) < amount {
        Err(TokenError::InsufficientBalance)
    } else {
        match move_balance(m.balances, from, to, amount) {
            Some(b) => Ok(TokenModel { balances: b, ..m }),
            None => Err(TokenError::Overflow),
        }
    }
}

/// A transfer of `amount` from `from` to `to` out of `spender`'s allowance.
pub open spec fn transfer_from_spec(
    m: TokenModel,
    spender: Seq<u8>,
    from: Seq<u8>,
    to: Seq<u8>,
    amount: i128,
) -> Result<TokenModel, TokenError> {
    if amount <= 0 {
        Err(TokenError::InvalidAmount)
    } else if allowance_of(m, from, spender) < amount {
        Err(TokenError::InsufficientAllowance)
    } else if balance_of(m, from) < amount {
        Err(TokenError::InsufficientBalance)
    } else {
        match move_balance(m.balances, from, to, amount) {
            Some(b) => Ok(
                TokenModel {
                    balances: b,
                    allowances: m.allowances.insert(
                        (from, spender),
                        (allowance_of(m, from, spender) - amount) as i128,
                    ),
                    ..m
                },
            ),
            None => Err(TokenError::Overflow),
        }
    }
}

/// Destroying `amount` of `from`'s tokens.
pub open spec fn burn_spec(m: TokenModel, from: Seq<u8>, amount: i128) -> Result<TokenModel, TokenError> {
    if amount <= 0 {
        Err(TokenError::InvalidAmount)
    } else if balance_of(m, from) < amount {
        Err(TokenError::InsufficientBalance)
    } else if !fits_i128(m.total_supply - amount) {
        Err(TokenError::Overflow)
    } else {
        Ok(
            TokenModel {
                balances: m.balances.insert(from, (balance_of(m, from) - amount) as i128),
                total_supply: (m.total_supply - amount) as i128,
                ..m
            },
        )
    }
}

/// Destroying `amount` of `from`'s tokens out of `spender`'s allowance.
pub open spec fn burn_from_spec(m: TokenModel, spender: Seq<u8>, from: Seq<u8>, amount: i128) -> Result<
    TokenModel,
    TokenError,
> {
    if amount <= 0 {
        Err(TokenError::InvalidAmount)
    } else if allowance_of(m, from, spender) < amount {
        Err(TokenError::InsufficientAllowance)
    } else if balance_of(m, from) < amount {
        Err(TokenError::InsufficientBalance)
    } else if !fits_i128(m.total_supply - amount) {
        Err(TokenError::Overflow)
    } else {
        Ok(
            TokenModel {
                balances: m.balances.insert(from, (balance_of(m, from) - amount) as i128),
                allowances: m.allowances.insert(
                    (from, spender),
                    (allowance_of(m, from, spender) - amount) as i128,
                ),
                total_supply: (m.total_supply - amount) as i128,
                ..m
            },
        )
    }
}

impl TokenState {
    /// A state with nothing stored.
    pub fn new() -> (s: TokenState)
        ensures
            s@ == token_fresh(),
    {
        TokenState {
            admin: None,
            decimals: None,
            name: None,
            symbol: None,
            total_supply: 0,
            minters: Ledger::new(),
            balances: Ledger::new(),
            allowances: Ledger::new(),
        }
    }
}


impl PCSToken {
    /// Sets the admin and the metadata; refused once an admin is stored.
    pub fn initialize(
        state: &mut TokenState,
        admin: Address,
        decimals: u32,
        name: Vec<u8>,
        symbol: Vec<u8>,
    ) -> (r: Result<(), TokenError>)
        ensures
            applied(r, initialize_spec(old(state)@, admin@, decimals, name@, symbol@), old(state)@, final(state)@),
    {
        if state.admin.is_some() {
            return Err(TokenError::AlreadyInitialized);
        }
        state.admin = Some(admin);
        state.decimals = Some(decimals);
        state.name = Some(name);
        state.symbol = Some(symbol);
        state.total_supply = 0;
        Ok(())
    }

    /// Appoints a minter (the caller checks the admin's authorisation).
    pub fn add_minter(state: &mut TokenState, minter: Address) -> (r: Result<(), TokenError>)
        ensures
            applied(r, add_minter_spec(old(state)@, minter@), old(state)@, final(state)@),
    {
        if state.admin.is_none() {
            return Err(TokenError::NotInitialized);
        }
        state.minters.set(minter, true);
        Ok(())
    }

    /// Withdraws a minter's appointment (the caller checks the admin's authorisation).
    pub fn remove_minter(state: &mut TokenState, minter: &Address) -> (r: Result<(), TokenError>)
        ensures
            applied(r, remove_minter_spec(old(state)@, minter@), old(state)@, final(state)@),
    {
        if state.admin.is_none() {
            return Err(TokenError::NotInitialized);
        }
        state.minters.remove(minter);
        Ok(())
    }

    /// Whether `addr` holds a minter's appointment.
    pub fn is_minter(state: &TokenState, addr: &Address) -> (r: bool)
        ensures
            r == is_minter_spec(state@, addr@),
    {
        state.minters.get_or(addr, false)
    }

    /// Creates `amount` new tokens for `to`; `minter` must be the admin or an
    /// appointed minter (the caller checks `minter`'s authorisation).
    pub fn mint(state: &mut TokenState, minter: &Address, to: &Address, amount: i128) -> (r: Result<
        (),
        TokenError,
    >)
        ensures
            applied(r, mint_spec(old(state)@, minter@, to@, amount), old(state)@, final(state)@),
    {
        if amount <= 0 {
            return Err(TokenError::InvalidAmount);
        }
        let allowed = match &state.admin {
            None => {
                return Err(TokenError::NotInitialized);
            },
            Some(admin) => minter.equals(admin) || Self::is_minter(state, minter),
        };
        if !allowed {
            return Err(TokenError::Unauthorized);
        }
        let balance = state.balances.get_or(to, 0);
        let new_balance = match balance.checked_add(amount) {
            Some(v) => v,
            None => {
                return Err(TokenError::Overflow);
            },
        };
        let new_supply = match state.total_supply.checked_add(amount) {
            Some(v) => v,
            None => {
                return Err(TokenError::Overflow);
            },
        };
        state.balances.set(to.duplicate(), new_balance);
        state.total_supply = new_supply;
        Ok(())
    }

    /// What `spender` may still move out of `from`'s balance.
    pub fn allowance(state: &TokenState, from: &Address, spender: &Address) -> (r: i128)
        ensures
            r == allowance_of(state@, from@, spender@),
    {
        let key = AllowanceKey { from: from.duplicate(), spender: spender.duplicate() };
        state.allowances.get_or(&key, 0)
    }

    /// Sets what `spender` may move out of `from`'s balance (the caller checks
    /// `from`'s authorisation; the expiration ledger is not kept).
    pub fn approve(state: &mut TokenState, from: &Address, spender: &Address, amount: i128, _expiration_ledger: u32)
        ensures
            final(state)@ == approve_spec(old(state)@, from@, spender@, amount),
    {
        let key = AllowanceKey { from: from.duplicate(), spender: spender.duplicate() };
        state.allowances.set(key, amount);
    }

    /// The balance of `id`.
    pub fn balance(state: &TokenState, id: &Address) -> (r: i128)
        ensures
            r == balance_of(state@, id@),
    {
        state.balances.get_or(id, 0)
    }

    /// Debits `from` and then credits `to`, both by `amount`.
    fn move_balance(state: &mut TokenState, from: &Address, to: &Address, amount: i128) -> (r: bool)
        requires
            0 < amount <= balance_of(old(state)@, from@),
        ensures
            match move_balance(old(state)@.balances, from@, to@, amount) {
                Some(b) => r && final(state)@ == TokenModel { balances: b, ..old(state)@ },
                None => !r && final(state)@ == old(state)@,
            },
    {
        let from_balance = state.balances.get_or(from, 0);
        let to_balance = if from.equals(to) {
            from_balance - amount
        } else {
            state.balances.get_or(to, 0)
        };
        let credited = match to_balance.checked_add(amount) {
            Some(v) => v,
            None => {
                return false;
            },
        };
        state.balances.set(from.duplicate(), from_balance - amount);
        state.balances.set(to.duplicate(), credited);
        true
    }

    /// Moves `amount` from `from` to `to` (the caller checks `from`'s authorisation).
    pub fn transfer(state: &mut TokenState, from: &Address, to: &Address, amount: i128) -> (r: Result<
        (),
        TokenError,
    >)
        ensures
            applied(r, transfer_spec(old(state)@, from@, to@, amount), old(state)@, final(state)@),
    {
        if amount <= 0 {
            return Err(TokenError::InvalidAmount);
        }
        if Self::balance(state, from) < amount {
            return Err(TokenError::InsufficientBalance);
        }
        if Self::move_balance(state, from, to, amount) {
            Ok(())
        } else {
            Err(TokenError::Overflow)
        }
    }

    /// Moves `amount` from `from` to `to` out of `spender`'s allowance (the
    /// caller checks `spender`'s authorisation).
    pub fn transfer_from(
        state: &mut TokenState,
        spender: &Address,
        from: &Address,
        to: &Address,
        amount: i128,
    ) -> (r: Result<(), TokenError>)
        ensures
            applied(r, transfer_from_spec(old(state)@, spender@, from@, to@, amount), old(state)@, final(state)@),
    {
        if amount <= 0 {
            return Err(TokenError::InvalidAmount);
        }
        let allowance = Self::allowance(state, from, spender);
        if allowance < amount {
            return Err(TokenError::InsufficientAllowance);
        }
        if Self::balance(state, from) < amount {
            return Err(TokenError::InsufficientBalance);
        }
        if !Self::move_balance(state, from, to, amount) {
            return Err(TokenError::Overflow);
        }
        let key = AllowanceKey { from: from.duplicate(), spender: spender.duplicate() };
        state.allowances.set(key, allowance - amount);
        Ok(())
    }

    /// Destroys `amount` of `from`'s tokens (the caller checks `from`'s authorisation).
    pub fn burn(state: &mut TokenState, from: &Address, amount: i128) -> (r: Result<(), TokenError>)
        ensures
            applied(r, burn_spec(old(state)@, from@, amount), old(state)@, final(state)@),
    {
        if amount <= 0 {
            return Err(TokenError::InvalidAmount);
        }
        let balance = Self::balance(state, from);
        if balance < amount {
            return Err(TokenError::InsufficientBalance);
        }
        let new_supply = match state.total_supply.checked_sub(amount) {
            Some(v) => v,
            None => {
                return Err(TokenError::Overflow);
            },
        };
        state.balances.set(from.duplicate(), balance - amount);
        state.total_supply = new_supply;
        Ok(())
    }

    /// Destroys `amount` of `from`'s tokens out of `spender`'s allowance (the
    /// caller checks `spender`'s authorisation).
    pub fn burn_from(state: &mut TokenState, spender: &Address, from: &Address, amount: i128) -> (r: Result<
        (),
        TokenError,
    >)
        ensures
            applied(r, burn_from_spec(old(state)@, spender@, from@, amount), old(state)@, final(state)@),
    {
        if amount <= 0 {
            return Err(TokenError::InvalidAmount);
        }
        let allowance = Self::allowance(state, from, spender);
        if allowance < amount {
            return Err(TokenError::InsufficientAllowance);
        }
        let balance = Self::balance(state, from);
        if balance < amount {
            return Err(TokenError::InsufficientBalance);
        }
        let new_supply = match state.total_supply.checked_sub(amount) {
            Some(v) => v,
            None => {
                return Err(TokenError::Overflow);
            },
        };
        let key = AllowanceKey { from: from.duplicate(), spender: spender.duplicate() };
        state.allowances.set(key, allowance - amount);
        state.balances.set(from.duplicate(), balance - amount);
        state.total_supply = new_supply;
        Ok(())
    }

    /// The number of decimals, 7 where none is stored.
    pub fn decimals(state: &TokenState) -> (r: u32)
        ensures
            r == decimals_spec(state@),
    {
        match state.decimals {
            Some(d) => d,
            None => 7,
        }
    }

    /// The token's name, "PrivacyCashStellar" where none is stored.
    pub fn name(state: &TokenState) -> (r: Vec<u8>)
        ensures
            r@ == name_spec(state@),
    {
        match &state.name {
            Some(n) => copy_bytes(n),
            None => {
                let v: Vec<u8> = vec![80u8, 114, 105, 118, 97, 99, 121, 67, 97, 115, 104, 83, 116, 101, 108, 108, 97, 114];
                assert(v@ =~= default_name());
                v
            },
        }
    }

    /// The token's symbol, "PCS" where none is stored.
    pub fn symbol(state: &TokenState) -> (r: Vec<u8>)
        ensures
            r@ == symbol_spec(state@),
    {
        match &state.symbol {
            Some(s) => copy_bytes(s),
            None => {
                let v: Vec<u8> = vec![80u8, 67, 83];
                assert(v@ =~= default_symbol());
                v
            },
        }
    }

    /// The number of tokens in existence.
    pub fn total_supply(state: &TokenState) -> (r: i128)
        ensures
            r == state@.total_supply,
    {
        state.total_supply
    }
}

} // verus!
