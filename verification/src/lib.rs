//! A trust-minimized escrow for swapping one unit of a non-fungible asset
//! against a fungible payment, with no intermediary holding a key: the
//! custody addresses are derived deterministically from the asset, signing
//! authority over the vault is delegated to the escrow record itself, and
//! the three lifecycle transitions — open, cancel, exchange — enforce
//! uniqueness, authorization, conservation and atomicity, each stated in a
//! contract and proved.

pub mod deriver;
pub mod error;
pub mod identity;
pub mod laws;
pub mod lookup;
pub mod market;
pub mod record;
