//! Address balances on disk: the amount in its own little-endian byte form,
//! then the address location.
use vstd::prelude::*;

use zebra_chain::amount::{Amount, NonNegative};

use crate::bytes::{
    be_bytes, be_value, lemma_be_bytes_len, lemma_be_bytes_of_value, lemma_be_value_bound,
    lemma_be_value_of_bytes, lemma_pow256_values,
};
use crate::error::DiskError;
use crate::location::{
    lemma_output_location_canonical, lemma_output_location_round_trip, AddressLocation, Height,
    OutputLocation, TransactionLocation, OUTPUT_LOCATION_DISK_BYTES,
};

verus! {

/// Balances are stored as an 8-byte integer on disk.
pub const BALANCE_DISK_BYTES: usize = 8;

/// Address balance records are a balance followed by an address location.
pub const ADDRESS_BALANCE_LOCATION_DISK_BYTES: usize = BALANCE_DISK_BYTES
    + OUTPUT_LOCATION_DISK_BYTES;

/// The largest amount of money, in zatoshis: 21 million coins of 10^8 each.
pub const MAX_MONEY: u64 = 2_100_000_000_000_000;

/// A byte string in reverse order.
pub open spec fn reversed(s: Seq<u8>) -> Seq<u8> {
    Seq::new(s.len(), |i: int| s[s.len() - 1 - i])
}

/// The `n` low-order bytes of `v`, least significant first.
pub open spec fn le_bytes(v: nat, n: nat) -> Seq<u8> {
    reversed(be_bytes(v, n))
}

/// The value of a byte string read as a little-endian unsigned integer.
pub open spec fn le_value(s: Seq<u8>) -> nat {
    be_value(reversed(s))
}

/// The balance that eight on-disk bytes hold, if they hold one: a
/// little-endian integer from zero up to the money supply.
pub open spec fn parse_balance(bytes: Seq<u8>) -> Option<u64> {
    if bytes.len() == BALANCE_DISK_BYTES && le_value(bytes) <= MAX_MONEY {
        Some(le_value(bytes) as u64)
    } else {
        None
    }
}

/// Relies on `zebra_chain::amount::Amount::<NonNegative>::to_bytes`, which
/// writes the amount as a little-endian `i64`.
#[verifier::external_body]
fn amount_to_bytes(value: u64) -> (r: [u8; 8])
    requires
        value <= MAX_MONEY,
    ensures
        r@ == le_bytes(value as nat, 8),
{
    Amount::<NonNegative>::try_from(value).expect("value is within the money range").to_bytes()
}

/// Relies on `zebra_chain::amount::Amount::<NonNegative>::from_bytes`, which
/// reads a little-endian `i64` and accepts it when it lies in `0..=MAX_MONEY`.
#[verifier::external_body]
fn amount_from_bytes(bytes: &[u8]) -> (r: Option<u64>)
    requires
        bytes@.len() == BALANCE_DISK_BYTES,
    ensures
        r == parse_balance(bytes@),
{
    let array: [u8; 8] = bytes.try_into().expect("eight bytes");
    Amount::<NonNegative>::from_bytes(array).ok().map(u64::from)
}

/// Encodes a balance, which must be within the money supply, in its eight-byte form.
pub fn balance_as_bytes(balance: u64) -> (r: Vec<u8>)
    requires
        balance <= MAX_MONEY,
    ensures
        r@ == le_bytes(balance as nat, 8),
        r@.len() == BALANCE_DISK_BYTES,
{
    let array = amount_to_bytes(balance);
    let mut r: Vec<u8> = Vec::new();
    let mut i: usize = 0;
    while i < 8
        invariant
            i <= 8,
            array@.len() == 8,
            r@ == array@.subrange(0, i as int),
        decreases 8 - i,
    {
        r.push(array[i]);
        i = i + 1;
        proof {
            assert(r@ =~= array@.subrange(0, i as int));
        }
    }
    proof {
        assert(array@.subrange(0, 8) =~= array@);
    }
    r
}

/// Decodes a balance from eight bytes; a width other than eight, or an
/// integer that is negative or above the money supply, is a corrupt record.
pub fn balance_from_bytes(disk_bytes: &[u8]) -> (r: Result<u64, DiskError>)
    ensures
        r is Ok <==> parse_balance(disk_bytes@) is Some,
        r matches Ok(b) ==> parse_balance(disk_bytes@) == Some(b),
{
    if disk_bytes.len() != BALANCE_DISK_BYTES {
        return Err(DiskError::CorruptRecord);
    }
    match amount_from_bytes(disk_bytes) {
        Some(balance) => Ok(balance),
        None => Err(DiskError::CorruptRecord),
    }
}

/// Decoding the bytes of a balance gives back the balance.
pub proof fn lemma_balance_round_trip(balance: u64)
    requires
        balance <= MAX_MONEY,
    ensures
        le_bytes(balance as nat, 8).len() == BALANCE_DISK_BYTES,
        parse_balance(le_bytes(balance as nat, 8)) == Some(balance),
{
    lemma_pow256_values();
    lemma_be_bytes_len(balance as nat, 8);
    lemma_be_value_of_bytes(balance as nat, 8);
    assert(reversed(reversed(be_bytes(balance as nat, 8))) =~= be_bytes(balance as nat, 8));
}

/// What the index records for each transparent address: its balance, and
/// the location of the first output ever sent to it.
#[derive(Clone, Copy, Debug, PartialEq, Eq, Structural)]
pub struct AddressBalanceLocation {
    /// The total balance of all outputs sent to the address, in zatoshis.
    pub balance: u64,
    /// The location of the first output sent to the address.
    pub location: AddressLocation,
}

impl AddressBalanceLocation {
    /// Whether the balance is within the money supply and the location
    /// fits its on-disk width.
    pub open spec fn fits_disk(self) -> bool {
        self.balance <= MAX_MONEY && self.location.fits_disk()
    }

    /// Creates the record of an address from the location of the first
    /// output sent to it, with a zero balance.
    pub fn new(first_output: OutputLocation) -> (r: AddressBalanceLocation)
        ensures
            r.balance == 0,
            r.location == first_output,
    {
        AddressBalanceLocation { balance: 0, location: first_output }
    }

    /// Returns the balance of the address.
    pub fn balance(&self) -> (r: u64)
        ensures
            r == self.balance,
    {
        self.balance
    }

    /// Gives access to the balance of the address.
    pub fn balance_mut(&mut self) -> (r: &mut u64)
        ensures
            *r == old(self).balance,
            *final(self) == (AddressBalanceLocation { balance: *final(r), ..*old(self) }),
    {
        &mut self.balance
    }

    /// Returns the location of the first output sent to the address.
    pub fn address_location(&self) -> (r: AddressLocation)
        ensures
            r == self.location,
    {
        self.location
    }

    /// Gives access to the height of the address location.
    pub fn height_mut(&mut self) -> (r: &mut Height)
        ensures
            *r == old(self).location.transaction_location.height,
            *final(self) == (AddressBalanceLocation {
                location: OutputLocation {
                    transaction_location: TransactionLocation {
                        height: *final(r),
                        ..old(self).location.transaction_location
                    },
                    ..old(self).location
                },
                ..*old(self)
            }),
    {
        self.location.height_mut()
    }

    /// The on-disk bytes: the balance, then the address location.
    pub open spec fn disk_bytes(self) -> Seq<u8> {
        le_bytes(self.balance as nat, 8) + self.location.disk_bytes()
    }

    /// The record that a byte string decodes to.
    pub open spec fn parse(bytes: Seq<u8>) -> Result<AddressBalanceLocation, DiskError> {
        if bytes.len() == ADDRESS_BALANCE_LOCATION_DISK_BYTES && parse_balance(
            bytes.subrange(0, 8),
        ) is Some {
            Ok(
                AddressBalanceLocation {
                    balance: parse_balance(bytes.subrange(0, 8))->Some_0,
                    location: OutputLocation::parse(bytes.subrange(8, 16))->Ok_0,
                },
            )
        } else {
            Err(DiskError::CorruptRecord)
        }
    }

    /// Encodes the record. The balance must be within the money supply and
    /// the location must fit its on-disk width.
    pub fn as_bytes(&self) -> (r: Vec<u8>)
        requires
            self.fits_disk(),
        ensures
            r@ == self.disk_bytes(),
            r@.len() == ADDRESS_BALANCE_LOCATION_DISK_BYTES,
    {
        let mut r = balance_as_bytes(self.balance);
        let mut location_bytes = self.location.as_bytes();
        r.append(&mut location_bytes);
        r
    }

    /// Decodes a record from exactly sixteen bytes, split after the balance.
    pub fn from_bytes(disk_bytes: &[u8]) -> (r: Result<AddressBalanceLocation, DiskError>)
        ensures
            r == AddressBalanceLocation::parse(disk_bytes@),
    {
        if disk_bytes.len() != ADDRESS_BALANCE_LOCATION_DISK_BYTES {
            return Err(DiskError::CorruptRecord);
        }
        let balance_bytes = vstd::slice::slice_subrange(disk_bytes, 0, BALANCE_DISK_BYTES);
        let location_bytes = vstd::slice::slice_subrange(
            disk_bytes,
            BALANCE_DISK_BYTES,
            ADDRESS_BALANCE_LOCATION_DISK_BYTES,
        );
        let balance = balance_from_bytes(balance_bytes);
        let location = OutputLocation::from_bytes(location_bytes);
        match (balance, location) {
            (Ok(balance), Ok(location)) => {
                let mut balance_location = AddressBalanceLocation::new(location);
                *balance_location.balance_mut() = balance;
                Ok(balance_location)
            },
            _ => Err(DiskError::CorruptRecord),
        }
    }
}

/// Decoding the bytes of an address balance record gives back the record.
pub proof fn lemma_address_balance_location_round_trip(b: AddressBalanceLocation)
    requires
        b.fits_disk(),
    ensures
        b.disk_bytes().len() == ADDRESS_BALANCE_LOCATION_DISK_BYTES,
        AddressBalanceLocation::parse(b.disk_bytes()) == Ok::<AddressBalanceLocation, DiskError>(
            b,
        ),
{
    lemma_balance_round_trip(b.balance);
    lemma_output_location_round_trip(b.location);
    let x = le_bytes(b.balance as nat, 8);
    let y = b.location.disk_bytes();
    assert((x + y).subrange(0, 8) =~= x);
    assert((x + y).subrange(8, 16) =~= y);
}

/// Every sixteen-byte record that decodes encodes back to the same bytes.
pub proof fn lemma_address_balance_location_canonical(bytes: Seq<u8>)
    requires
        AddressBalanceLocation::parse(bytes) is Ok,
    ensures
        AddressBalanceLocation::parse(bytes)->Ok_0.fits_disk(),
        AddressBalanceLocation::parse(bytes)->Ok_0.disk_bytes() == bytes,
{
    let x = bytes.subrange(0, 8);
    let y = bytes.subrange(8, 16);
    lemma_output_location_canonical(y);
    lemma_pow256_values();
    let r = reversed(x);
    lemma_be_value_bound(r);
    lemma_be_bytes_of_value(r);
    assert(reversed(r) =~= x);
    assert(x + y =~= bytes);
}

} // verus!
