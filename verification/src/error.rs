//! The failures an operation can end in.

use crate::coinflip::CoinflipError;
use vstd::prelude::*;

verus! {

/// Why an operation was rejected. A rejected operation leaves the ledger as
/// it was.
#[derive(Clone, Copy, Debug, PartialEq, Eq)]
pub enum Error {
    /// The wager was rejected.
    Coinflip(CoinflipError),
    /// The content of a comment is longer than the layout allows.
    ContentTooLong,
    /// The supplied address is not the one derived from the operation's
    /// parameters.
    AddressMismatch,
    /// No address can be derived from the seeds.
    NoViableAddress,
    /// A record already occupies the address.
    AlreadyExists,
    /// No record occupies the address.
    NotFound,
    /// The record at the address is of another schema, or its bytes do not
    /// follow its schema.
    LayoutMismatch,
    /// The principal may neither change nor close the record.
    Unauthorized,
    /// The size cannot hold a layout tag, is beyond what a record may hold, or
    /// cannot be priced.
    InvalidSize,
    /// The paying principal holds less than it has to pay.
    InsufficientBalance,
    /// The ledger cannot hold that many lamports.
    SupplyExceeded,
}

} // verus!
