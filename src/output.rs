//! Unspent transparent outputs on disk: the output in the consensus
//! transaction format, then, when the output pays an address, the location
//! that stands for that address.
use vstd::prelude::*;

use zebra_chain::amount::{Amount, NonNegative};
use zebra_chain::serialization::{ZcashDeserialize, ZcashSerialize};
use zebra_chain::transparent;

use crate::balance::MAX_MONEY;
use crate::error::DiskError;
use crate::location::{
    lemma_output_location_round_trip, AddressLocation, Height, OutputLocation,
    TransactionLocation, OUTPUT_LOCATION_DISK_BYTES,
};

verus! {

/// The longest lock script that the consensus format reads back: the
/// protocol's message limit of 2 MiB, less 5 bytes.
pub const MAX_LOCK_SCRIPT_BYTES: usize = 2_097_147;

/// The consensus encoding of an output with this value and lock script.
pub uninterp spec fn output_encoding(value: u64, lock_script: Seq<u8>) -> Seq<u8>;

/// What the consensus decoder reads from the front of a byte string: the
/// value, the lock script, and how many bytes they took.
pub uninterp spec fn output_decoding(bytes: Seq<u8>) -> Option<(u64, Seq<u8>, nat)>;

/// Whether an output with this value and lock script can be encoded and read back.
pub open spec fn valid_output(value: u64, lock_script: Seq<u8>) -> bool {
    value <= MAX_MONEY && lock_script.len() <= MAX_LOCK_SCRIPT_BYTES
}

/// Relies on `ZcashSerialize::zcash_serialize_to_vec` for
/// `zebra_chain::transparent::Output`: the value as eight little-endian
/// bytes, then the script with its CompactSize length. It fails only for a
/// script above the message limit, which `requires` leaves out.
#[verifier::external_body]
fn serialize_output(value: u64, lock_script: &[u8]) -> (r: Vec<u8>)
    requires
        valid_output(value, lock_script@),
    ensures
        r@ == output_encoding(value, lock_script@),
{
    let value = Amount::<NonNegative>::try_from(value).expect("value is within the money range");
    let output = transparent::Output::new(value, transparent::Script::new(lock_script));
    output.zcash_serialize_to_vec().expect("script is within the message limit")
}

/// Relies on `ZcashDeserialize::zcash_deserialize` for
/// `zebra_chain::transparent::Output`, reading from a cursor: it reads the
/// value, refusing one outside `0..=MAX_MONEY`, then a canonical CompactSize
/// length up to `MAX_LOCK_SCRIPT_BYTES`, then that many script bytes, and
/// leaves the rest unread. So it reads back exactly what the serializer wrote.
#[verifier::external_body]
fn deserialize_output(bytes: &[u8]) -> (r: Option<(u64, Vec<u8>, usize)>)
    ensures
        r is None <==> output_decoding(bytes@) is None,
        r is Some ==> output_decoding(bytes@) == Some(
            (r->Some_0.0, r->Some_0.1@, r->Some_0.2 as nat),
        ),
        r is Some ==> r->Some_0.2 <= bytes@.len(),
        r is Some ==> valid_output(r->Some_0.0, r->Some_0.1@),
        forall|value: u64, lock_script: Seq<u8>, rest: Seq<u8>|
            valid_output(value, lock_script) && bytes@ == #[trigger] (output_encoding(
                value,
                lock_script,
            ) + rest) ==> r is Some && r->Some_0.0 == value && r->Some_0.1@ == lock_script
                && r->Some_0.2 == output_encoding(value, lock_script).len(),
{
    let mut reader = std::io::Cursor::new(bytes);
    match transparent::Output::zcash_deserialize(&mut reader) {
        Ok(output) => Some(
            (
                u64::from(output.value),
                output.lock_script.as_raw_bytes().to_vec(),
                reader.position() as usize,
            ),
        ),
        Err(_) => None,
    }
}

/// A transparent output: an amount and the script that locks it.
#[derive(Clone, Debug, PartialEq, Eq)]
pub struct TransparentOutput {
    /// The value of the output, in zatoshis.
    pub value: u64,
    /// The lock script, without its length prefix.
    pub lock_script: Vec<u8>,
}

impl View for TransparentOutput {
    type V = (u64, Seq<u8>);

    open spec fn view(&self) -> (u64, Seq<u8>) {
        (self.value, self.lock_script@)
    }
}

impl TransparentOutput {
    /// Whether the output can be encoded and read back.
    pub open spec fn fits_disk(&self) -> bool {
        valid_output(self.value, self.lock_script@)
    }

    /// The on-disk bytes: the consensus encoding.
    pub open spec fn disk_bytes(&self) -> Seq<u8> {
        output_encoding(self.value, self.lock_script@)
    }

    /// Encodes the output in the consensus transaction format.
    pub fn as_bytes(&self) -> (r: Vec<u8>)
        requires
            self.fits_disk(),
        ensures
            r@ == self.disk_bytes(),
    {
        serialize_output(self.value, self.lock_script.as_slice())
    }

    /// Decodes an output that takes up the whole byte string; what the
    /// consensus decoder refuses, or leaves unread, makes a corrupt record.
    pub fn from_bytes(disk_bytes: &[u8]) -> (r: Result<TransparentOutput, DiskError>)
        ensures
            r is Ok ==> output_decoding(disk_bytes@) == Some(
                (r->Ok_0.value, r->Ok_0.lock_script@, disk_bytes@.len()),
            ),
            r is Err ==> !(output_decoding(disk_bytes@) matches Some((_, _, n)) && n
                == disk_bytes@.len()),
            forall|o: (u64, Seq<u8>)|
                valid_output(o.0, o.1) && disk_bytes@ == #[trigger] output_encoding(o.0, o.1)
                    ==> r is Ok && r->Ok_0@ == o,
    {
        proof {
            assert forall|value: u64, lock_script: Seq<u8>|
                disk_bytes@ == output_encoding(value, lock_script) implies disk_bytes@
                == output_encoding(value, lock_script) + Seq::<u8>::empty() by {
                assert(output_encoding(value, lock_script) + Seq::<u8>::empty()
                    =~= output_encoding(value, lock_script));
            }
        }
        match deserialize_output(disk_bytes) {
            Some((value, lock_script, consumed)) => {
                if consumed == disk_bytes.len() {
                    Ok(TransparentOutput { value, lock_script })
                } else {
                    Err(DiskError::CorruptRecord)
                }
            },
            None => Err(DiskError::CorruptRecord),
        }
    }
}

/// The address location that the bytes after an output decode to: none
/// when there are no bytes, a corrupt record when there are fewer than a
/// location's width, and otherwise the location in the first eight bytes.
pub open spec fn parse_suffix(suffix: Seq<u8>) -> Result<Option<AddressLocation>, DiskError> {
    if suffix.len() == 0 {
        Ok(None)
    } else if suffix.len() < OUTPUT_LOCATION_DISK_BYTES {
        Err(DiskError::CorruptRecord)
    } else {
        Ok(Some(OutputLocation::parse(suffix.subrange(0, 8))->Ok_0))
    }
}

/// The bytes written after an output for its address location.
pub open spec fn suffix_bytes(address_location: Option<AddressLocation>) -> Seq<u8> {
    match address_location {
        Some(location) => location.disk_bytes(),
        None => Seq::empty(),
    }
}

/// The model of an unspent output record: value, lock script, address location.
pub type UnspentModel = (u64, Seq<u8>, Option<AddressLocation>);

/// The on-disk bytes of a record.
pub open spec fn unspent_bytes(m: UnspentModel) -> Seq<u8> {
    output_encoding(m.0, m.1) + suffix_bytes(m.2)
}

/// Whether a record can be encoded and read back.
pub open spec fn unspent_fits_disk(m: UnspentModel) -> bool {
    &&& valid_output(m.0, m.1)
    &&& (m.2 matches Some(location) ==> location.fits_disk())
}

/// The record that a byte string decodes to.
pub open spec fn parse_unspent(bytes: Seq<u8>) -> Result<UnspentModel, DiskError> {
    match output_decoding(bytes) {
        Some((value, lock_script, consumed)) => if consumed <= bytes.len() {
            match parse_suffix(bytes.subrange(consumed as int, bytes.len() as int)) {
                Ok(address_location) => Ok((value, lock_script, address_location)),
                Err(e) => Err(e),
            }
        } else {
            Err(DiskError::CorruptRecord)
        },
        None => Err(DiskError::CorruptRecord),
    }
}

/// What the index records for each unspent transparent output: the output,
/// and, when the output pays an address, the location of the first output
/// sent to that address.
#[derive(Clone, Debug, PartialEq, Eq)]
pub struct UnspentOutputAddressLocation {
    /// The unspent output.
    pub output: TransparentOutput,
    /// The address location of the output's address, if it has one.
    pub address_location: Option<AddressLocation>,
}

impl View for UnspentOutputAddressLocation {
    type V = UnspentModel;

    open spec fn view(&self) -> UnspentModel {
        (self.output.value, self.output.lock_script@, self.address_location)
    }
}

impl UnspentOutputAddressLocation {
    /// Creates a record from its fields.
    pub fn new(output: TransparentOutput, address_location: Option<AddressLocation>) -> (r:
        UnspentOutputAddressLocation)
        ensures
            r@ == (output.value, output.lock_script@, address_location),
    {
        UnspentOutputAddressLocation { output, address_location }
    }

    /// Returns the output.
    pub fn output(&self) -> (r: &TransparentOutput)
        ensures
            r@ == self.output@,
    {
        &self.output
    }

    /// Returns the address location of the output's address, if it has one.
    pub fn address_location(&self) -> (r: Option<AddressLocation>)
        ensures
            r == self.address_location,
    {
        self.address_location
    }

    /// Gives access to the height of the address location, if there is one.
    pub fn height_mut(&mut self) -> (r: Option<&mut Height>)
        ensures
            r is Some <==> old(self).address_location is Some,
            r is Some ==> *r->Some_0 == old(self).address_location->Some_0.transaction_location.height,
            r is Some ==> final(self).address_location == Some(
                OutputLocation {
                    transaction_location: TransactionLocation {
                        height: *final(r->Some_0),
                        ..old(self).address_location->Some_0.transaction_location
                    },
                    ..old(self).address_location->Some_0
                },
            ),
            final(self).output == old(self).output,
            r is None ==> *final(self) == *old(self),
    {
        match &mut self.address_location {
            Some(address_location) => Some(address_location.height_mut()),
            None => None,
        }
    }

    /// Encodes the record: the output in the consensus format, followed by
    /// the address location only when there is one.
    pub fn as_bytes(&self) -> (r: Vec<u8>)
        requires
            unspent_fits_disk(self@),
        ensures
            r@ == unspent_bytes(self@),
    {
        let mut bytes = self.output.as_bytes();
        match self.address_location {
            Some(address_location) => {
                let mut location_bytes = address_location.as_bytes();
                bytes.append(&mut location_bytes);
            },
            None => {
                proof {
                    assert(bytes@ + Seq::<u8>::empty() =~= bytes@);
                }
            },
        }
        bytes
    }

    /// Completes a record from an output the consensus decoder has read and
    /// the bytes that follow it.
    pub fn from_output_and_suffix(output: TransparentOutput, suffix: &[u8]) -> (r: Result<
        UnspentOutputAddressLocation,
        DiskError,
    >)
        ensures
            r is Ok <==> parse_suffix(suffix@) is Ok,
            r is Ok ==> r->Ok_0@ == (
                output.value,
                output.lock_script@,
                parse_suffix(suffix@)->Ok_0,
            ),
    {
        if suffix.len() == 0 {
            Ok(UnspentOutputAddressLocation::new(output, None))
        } else if suffix.len() < OUTPUT_LOCATION_DISK_BYTES {
            Err(DiskError::CorruptRecord)
        } else {
            let location_bytes = vstd::slice::slice_subrange(suffix, 0, OUTPUT_LOCATION_DISK_BYTES);
            match OutputLocation::from_bytes(location_bytes) {
                Ok(address_location) => Ok(
                    UnspentOutputAddressLocation::new(output, Some(address_location)),
                ),
                Err(e) => Err(e),
            }
        }
    }

    /// Decodes a record: the consensus decoder reads the output, then the
    /// bytes left over, if any, hold the address location.
    pub fn from_bytes(disk_bytes: &[u8]) -> (r: Result<UnspentOutputAddressLocation, DiskError>)
        ensures
            r is Ok <==> parse_unspent(disk_bytes@) is Ok,
            r is Ok ==> parse_unspent(disk_bytes@) == Ok::<UnspentModel, DiskError>(r->Ok_0@),
            forall|m: UnspentModel|
                unspent_fits_disk(m) && disk_bytes@ == #[trigger] unspent_bytes(m) ==> r is Ok
                    && r->Ok_0@ == m,
    {
        proof {
            assert forall|m: UnspentModel|
                unspent_fits_disk(m) && disk_bytes@ == #[trigger] unspent_bytes(m) implies
                parse_suffix(suffix_bytes(m.2)) == Ok::<Option<AddressLocation>, DiskError>(m.2) by {
                match m.2 {
                    Some(location) => {
                        lemma_output_location_round_trip(location);
                        assert(location.disk_bytes().subrange(0, 8) =~= location.disk_bytes());
                    },
                    None => {},
                }
            }
        }
        match deserialize_output(disk_bytes) {
            Some((value, lock_script, consumed)) => {
                let suffix = vstd::slice::slice_subrange(disk_bytes, consumed, disk_bytes.len());
                proof {
                    assert forall|m: UnspentModel|
                        unspent_fits_disk(m) && disk_bytes@ == #[trigger] unspent_bytes(m) implies
                        suffix@ == suffix_bytes(m.2) by {
                        assert(disk_bytes@ == output_encoding(m.0, m.1) + suffix_bytes(m.2));
                        assert(suffix@ =~= suffix_bytes(m.2));
                    }
                }
                UnspentOutputAddressLocation::from_output_and_suffix(
                    TransparentOutput { value, lock_script },
                    suffix,
                )
            },
            None => Err(DiskError::CorruptRecord),
        }
    }
}

/// Without an address location a record is exactly the consensus encoding
/// of its output; with one, that encoding followed by the location's bytes.
pub proof fn lemma_unspent_suffix(m: UnspentModel)
    requires
        unspent_fits_disk(m),
    ensures
        m.2 is None ==> unspent_bytes(m) == output_encoding(m.0, m.1),
        m.2 is Some ==> unspent_bytes(m).len() == output_encoding(m.0, m.1).len()
            + OUTPUT_LOCATION_DISK_BYTES,
        m.2 is Some ==> unspent_bytes(m).subrange(0, output_encoding(m.0, m.1).len() as int)
            == output_encoding(m.0, m.1),
{
    let e = output_encoding(m.0, m.1);
    match m.2 {
        Some(location) => {
            lemma_output_location_round_trip(location);
            assert((e + location.disk_bytes()).subrange(0, e.len() as int) =~= e);
        },
        None => {
            assert(e + Seq::<u8>::empty() =~= e);
        },
    }
}

} // verus!
