//! Verified decision logic of the Callora vault: a prepaid USDC balance that its
//! owner (and depositors the owner approves) tops up, that callers deduct from
//! per request, and that admin and owner manage.
//!
//! The library models the contract's instance storage as [`CalloraVault`] and
//! turns every contract call into a checked transition: on success the new
//! storage plus the list of effects (token transfers, stored metadata, events)
//! that the host must perform, on failure a [`VaultError`] and untouched storage.

pub mod address;
pub mod types;
pub mod model;
pub mod vault;
pub mod laws;
