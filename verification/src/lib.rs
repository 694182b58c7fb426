//! Verified core of a stealth-payment protocol: an automated market maker,
//! a mintable reward token and a stealth-deposit vault.

pub mod keys;
pub mod ledger;
pub mod pool;
pub mod pool_laws;
pub mod stealth;
pub mod stealth_laws;
pub mod math;
pub mod sum;
pub mod token;
pub mod toxdr;
pub mod token_laws;
pub mod transfer;
