//! On-disk formats for the transparent-address indexes of a Zcash node's
//! finalized state: output indexes and locations, addresses, balances and
//! unspent outputs, encoded so that an ordered key/value store keeps them in
//! chain order; and the in-memory transfers of an address in a chain that is
//! not yet final.
pub mod bytes;
pub mod error;
pub mod location;
pub mod address;
pub mod balance;
pub mod output;
pub mod transfers;
