//! Transaction and output locations: where a transparent output stands in
//! the chain, and the fixed-width big-endian keys that sort in chain order.
use vstd::prelude::*;

use crate::bytes::{
    be_bytes, be_decode, be_encode, be_value, lemma_be_bytes_len, lemma_be_bytes_of_value,
    lemma_be_bytes_pad, lemma_be_value_append, lemma_be_value_bound, lemma_be_value_of_bytes,
    lemma_lex_lt_iff_value_lt, lemma_pow256_values, lemma_value_split, lex_lt, pow256,
    truncate_zero_be_bytes,
};
use crate::error::DiskError;

verus! {

/// Block heights are stored as 3 bytes on disk.
pub const HEIGHT_DISK_BYTES: usize = 3;

/// Transaction indexes within a block are stored as 2 bytes on disk.
pub const TX_INDEX_DISK_BYTES: usize = 2;

/// Transaction locations are a height followed by a transaction index.
pub const TRANSACTION_LOCATION_DISK_BYTES: usize = HEIGHT_DISK_BYTES + TX_INDEX_DISK_BYTES;

/// Output indexes are stored as 3 bytes on disk.
///
/// This reduces database size and increases lookup performance.
pub const OUTPUT_INDEX_DISK_BYTES: usize = 3;

/// Output locations are a transaction location followed by an output index.
pub const OUTPUT_LOCATION_DISK_BYTES: usize = TRANSACTION_LOCATION_DISK_BYTES
    + OUTPUT_INDEX_DISK_BYTES;

/// The largest height that fits in its on-disk width.
pub const MAX_DISK_HEIGHT: u32 = 0xff_ffff;

/// The largest output index that fits in its on-disk width.
pub const MAX_DISK_OUTPUT_INDEX: u32 = 0xff_ffff;

/// A block height.
#[derive(Clone, Copy, Debug, PartialEq, Eq, Structural, PartialOrd, Ord, Hash)]
pub struct Height(pub u32);

/// A transaction's index within its block.
#[derive(Clone, Copy, Debug, PartialEq, Eq, Structural, PartialOrd, Ord, Hash)]
pub struct TransactionIndex(pub u16);

/// A transaction's location in the chain, by block height and transaction index.
#[derive(Clone, Copy, Debug, PartialEq, Eq, Structural, PartialOrd, Ord, Hash)]
pub struct TransactionLocation {
    /// The height of the block that holds the transaction.
    pub height: Height,
    /// The index of the transaction in its block.
    pub index: TransactionIndex,
}

/// A transparent output's index in its transaction.
#[derive(Clone, Copy, Debug, PartialEq, Eq, Structural, PartialOrd, Ord, Hash)]
pub struct OutputIndex(pub u32);

/// A transparent output's location in the chain.
///
/// Output locations sort in chain order: by height, transaction index,
/// and output index.
#[derive(Clone, Copy, Debug, PartialEq, Eq, Structural, PartialOrd, Ord, Hash)]
pub struct OutputLocation {
    /// The location of the output's transaction.
    pub transaction_location: TransactionLocation,
    /// The index of the output in its transaction.
    pub output_index: OutputIndex,
}

/// The location of the first output ever sent to an address.
///
/// It stays the same when that output is spent, and stands for the
/// address in the other indexes, because it is much smaller.
pub type AddressLocation = OutputLocation;

/// A reference to a transparent output: the hash of its transaction and its index there.
#[derive(Clone, Copy, Debug, PartialEq, Eq, Hash)]
pub struct OutPoint {
    /// The hash of the transaction that created the output.
    pub hash: [u8; 32],
    /// The index of the output in that transaction.
    pub index: u32,
}

/// The on-disk bytes of an output index: the low three bytes, big-endian.
pub open spec fn output_index_bytes(index: u32) -> Seq<u8> {
    be_bytes(index as nat, 3)
}

impl OutputIndex {
    /// Whether the index fits in its on-disk width.
    pub open spec fn fits_disk(self) -> bool {
        self.0 <= MAX_DISK_OUTPUT_INDEX
    }

    /// Creates an output index from the consensus integer type.
    pub fn from_index(output_index: u32) -> (r: OutputIndex)
        ensures
            r.0 == output_index,
    {
        OutputIndex(output_index)
    }

    /// Returns the index as the consensus integer type.
    pub fn index(&self) -> (r: u32)
        ensures
            r == self.0,
    {
        self.0
    }

    /// Creates an output index from a `usize`, which must fit in a `u32`.
    pub fn from_usize(output_index: usize) -> (r: OutputIndex)
        requires
            output_index <= u32::MAX,
        ensures
            r.0 == output_index,
    {
        OutputIndex(output_index as u32)
    }

    /// Returns the index as a `usize`.
    pub fn as_usize(&self) -> (r: usize)
        ensures
            r == self.0,
    {
        self.0 as usize
    }

    /// Creates an output index from a `u64`, which must fit in a `u32`.
    pub fn from_u64(output_index: u64) -> (r: OutputIndex)
        requires
            output_index <= u32::MAX,
        ensures
            r.0 == output_index,
    {
        OutputIndex(output_index as u32)
    }

    /// Returns the index as a `u64`.
    pub fn as_u64(&self) -> (r: u64)
        ensures
            r == self.0,
    {
        self.0 as u64
    }

    /// The on-disk bytes of this index.
    pub open spec fn disk_bytes(self) -> Seq<u8> {
        output_index_bytes(self.0)
    }

    /// The index that a byte string decodes to.
    pub open spec fn parse(bytes: Seq<u8>) -> Result<OutputIndex, DiskError> {
        if bytes.len() == OUTPUT_INDEX_DISK_BYTES {
            Ok(OutputIndex(be_value(bytes) as u32))
        } else {
            Err(DiskError::CorruptRecord)
        }
    }

    /// Encodes the index: the four big-endian bytes of the `u32`, with the
    /// leading one dropped. The index must fit in three bytes.
    pub fn as_bytes(&self) -> (r: Vec<u8>)
        requires
            self.fits_disk(),
        ensures
            r@ == self.disk_bytes(),
            r@.len() == OUTPUT_INDEX_DISK_BYTES,
    {
        proof {
            lemma_pow256_values();
            lemma_be_bytes_pad(self.0 as nat, 3, 1);
            lemma_be_bytes_len(self.0 as nat, 3);
            assert(be_bytes(self.0 as nat, 4) =~= be_bytes(self.0 as nat, 3 + 1));
        }
        let mem_bytes = be_encode(self.0 as u64, 4);
        let disk_bytes = truncate_zero_be_bytes(mem_bytes.as_slice(), OUTPUT_INDEX_DISK_BYTES);
        proof {
            assert(disk_bytes@ =~= be_bytes(self.0 as nat, 3));
        }
        disk_bytes
    }

    /// Decodes an index from exactly three bytes.
    pub fn from_bytes(disk_bytes: &[u8]) -> (r: Result<OutputIndex, DiskError>)
        ensures
            r == OutputIndex::parse(disk_bytes@),
    {
        if disk_bytes.len() != OUTPUT_INDEX_DISK_BYTES {
            return Err(DiskError::CorruptRecord);
        }
        let v = be_decode(disk_bytes, 0, OUTPUT_INDEX_DISK_BYTES);
        proof {
            assert(disk_bytes@.subrange(0, 3) =~= disk_bytes@);
        }
        Ok(OutputIndex(v as u32))
    }
}

impl TransactionLocation {
    /// Whether the height fits in its on-disk width.
    pub open spec fn fits_disk(self) -> bool {
        self.height.0 <= MAX_DISK_HEIGHT
    }

    /// Creates a transaction location from a height and a transaction index.
    pub fn from_index(height: Height, index: u16) -> (r: TransactionLocation)
        ensures
            r.height == height,
            r.index.0 == index,
    {
        TransactionLocation { height, index: TransactionIndex(index) }
    }

    /// Creates a transaction location from a height and a `usize` index,
    /// which must fit in a `u16`.
    pub fn from_usize(height: Height, transaction_index: usize) -> (r: TransactionLocation)
        requires
            transaction_index <= u16::MAX,
        ensures
            r.height == height,
            r.index.0 == transaction_index,
    {
        TransactionLocation { height, index: TransactionIndex(transaction_index as u16) }
    }

    /// The on-disk bytes: the height in three bytes, then the index in two,
    /// both big-endian.
    pub open spec fn disk_bytes(self) -> Seq<u8> {
        be_bytes(self.height.0 as nat, 3) + be_bytes(self.index.0 as nat, 2)
    }

    /// The transaction location that a byte string decodes to.
    pub open spec fn parse(bytes: Seq<u8>) -> Result<TransactionLocation, DiskError> {
        if bytes.len() == TRANSACTION_LOCATION_DISK_BYTES {
            Ok(
                TransactionLocation {
                    height: Height(be_value(bytes.subrange(0, 3)) as u32),
                    index: TransactionIndex(be_value(bytes.subrange(3, 5)) as u16),
                },
            )
        } else {
            Err(DiskError::CorruptRecord)
        }
    }

    /// Encodes the location. The height must fit in three bytes.
    pub fn as_bytes(&self) -> (r: Vec<u8>)
        requires
            self.fits_disk(),
        ensures
            r@ == self.disk_bytes(),
            r@.len() == TRANSACTION_LOCATION_DISK_BYTES,
    {
        proof {
            lemma_pow256_values();
        }
        let mut r = be_encode(self.height.0 as u64, HEIGHT_DISK_BYTES);
        let mut index_bytes = be_encode(self.index.0 as u64, TX_INDEX_DISK_BYTES);
        r.append(&mut index_bytes);
        r
    }

    /// Decodes a location from exactly five bytes.
    pub fn from_bytes(disk_bytes: &[u8]) -> (r: Result<TransactionLocation, DiskError>)
        ensures
            r == TransactionLocation::parse(disk_bytes@),
    {
        if disk_bytes.len() != TRANSACTION_LOCATION_DISK_BYTES {
            return Err(DiskError::CorruptRecord);
        }
        let height = be_decode(disk_bytes, 0, HEIGHT_DISK_BYTES);
        let index = be_decode(disk_bytes, HEIGHT_DISK_BYTES, TX_INDEX_DISK_BYTES);
        proof {
            lemma_pow256_values();
            lemma_be_value_bound(disk_bytes@.subrange(0, 3));
            lemma_be_value_bound(disk_bytes@.subrange(3, 5));
        }
        Ok(
            TransactionLocation {
                height: Height(height as u32),
                index: TransactionIndex(index as u16),
            },
        )
    }
}

/// Chain order on transaction locations: by height, then by index.
pub open spec fn transaction_lt(a: TransactionLocation, b: TransactionLocation) -> bool {
    a.height.0 < b.height.0 || (a.height.0 == b.height.0 && a.index.0 < b.index.0)
}

/// Chain order on output locations: by height, transaction index, then output index.
pub open spec fn chain_lt(a: OutputLocation, b: OutputLocation) -> bool {
    ||| transaction_lt(a.transaction_location, b.transaction_location)
    ||| (a.transaction_location == b.transaction_location && a.output_index.0
        < b.output_index.0)
}

impl OutputLocation {
    /// Whether the height and the output index fit in their on-disk widths.
    pub open spec fn fits_disk(self) -> bool {
        self.transaction_location.fits_disk() && self.output_index.fits_disk()
    }

    /// The big-endian number that the on-disk bytes spell.
    pub open spec fn key_value(self) -> nat {
        ((self.transaction_location.height.0 as nat) * pow256(2)
            + self.transaction_location.index.0 as nat) * pow256(3)
            + self.output_index.0 as nat
    }

    /// Creates an output location from a height and `usize` transaction and
    /// output indexes, which must fit in their types.
    pub fn from_usize(height: Height, transaction_index: usize, output_index: usize) -> (r:
        OutputLocation)
        requires
            transaction_index <= u16::MAX,
            output_index <= u32::MAX,
        ensures
            r.transaction_location.height == height,
            r.transaction_location.index.0 == transaction_index,
            r.output_index.0 == output_index,
    {
        OutputLocation {
            transaction_location: TransactionLocation::from_usize(height, transaction_index),
            output_index: OutputIndex::from_usize(output_index),
        }
    }

    /// Creates an output location from an outpoint and the location of its
    /// transaction, which is looked up separately.
    pub fn from_outpoint(transaction_location: TransactionLocation, outpoint: &OutPoint) -> (r:
        OutputLocation)
        ensures
            r.transaction_location == transaction_location,
            r.output_index.0 == outpoint.index,
    {
        OutputLocation::from_output_index(transaction_location, outpoint.index)
    }

    /// Creates an output location from a transaction location and a consensus output index.
    pub fn from_output_index(transaction_location: TransactionLocation, output_index: u32) -> (r:
        OutputLocation)
        ensures
            r.transaction_location == transaction_location,
            r.output_index.0 == output_index,
    {
        OutputLocation { transaction_location, output_index: OutputIndex::from_index(output_index) }
    }

    /// Returns the height of the output's block.
    pub fn height(&self) -> (r: Height)
        ensures
            r == self.transaction_location.height,
    {
        self.transaction_location.height
    }

    /// Returns the index of the output's transaction in its block.
    pub fn transaction_index(&self) -> (r: TransactionIndex)
        ensures
            r == self.transaction_location.index,
    {
        self.transaction_location.index
    }

    /// Returns the index of the output in its transaction.
    pub fn output_index(&self) -> (r: OutputIndex)
        ensures
            r == self.output_index,
    {
        self.output_index
    }

    /// Returns the location of the output's transaction.
    pub fn transaction_location(&self) -> (r: TransactionLocation)
        ensures
            r == self.transaction_location,
    {
        self.transaction_location
    }

    /// Gives access to the height of this location.
    pub fn height_mut(&mut self) -> (r: &mut Height)
        ensures
            *r == old(self).transaction_location.height,
            *final(self) == (OutputLocation {
                transaction_location: TransactionLocation {
                    height: *final(r),
                    ..old(self).transaction_location
                },
                ..*old(self)
            }),
    {
        &mut self.transaction_location.height
    }

    /// The on-disk bytes: the transaction location, then the output index.
    pub open spec fn disk_bytes(self) -> Seq<u8> {
        self.transaction_location.disk_bytes() + self.output_index.disk_bytes()
    }

    /// The output location that a byte string decodes to.
    pub open spec fn parse(bytes: Seq<u8>) -> Result<OutputLocation, DiskError> {
        if bytes.len() == OUTPUT_LOCATION_DISK_BYTES {
            Ok(
                OutputLocation {
                    transaction_location: TransactionLocation::parse(bytes.subrange(0, 5))->Ok_0,
                    output_index: OutputIndex::parse(bytes.subrange(5, 8))->Ok_0,
                },
            )
        } else {
            Err(DiskError::CorruptRecord)
        }
    }

    /// Encodes the location. Its height and output index must fit in three bytes each.
    pub fn as_bytes(&self) -> (r: Vec<u8>)
        requires
            self.fits_disk(),
        ensures
            r@ == self.disk_bytes(),
            r@.len() == OUTPUT_LOCATION_DISK_BYTES,
    {
        let mut r = self.transaction_location.as_bytes();
        let mut output_index_bytes = self.output_index.as_bytes();
        r.append(&mut output_index_bytes);
        r
    }

    /// Decodes a location from exactly eight bytes, split at the end of the
    /// transaction location.
    pub fn from_bytes(disk_bytes: &[u8]) -> (r: Result<OutputLocation, DiskError>)
        ensures
            r == OutputLocation::parse(disk_bytes@),
    {
        if disk_bytes.len() != OUTPUT_LOCATION_DISK_BYTES {
            return Err(DiskError::CorruptRecord);
        }
        let transaction_location_bytes = vstd::slice::slice_subrange(
            disk_bytes,
            0,
            TRANSACTION_LOCATION_DISK_BYTES,
        );
        let output_index_bytes = vstd::slice::slice_subrange(
            disk_bytes,
            TRANSACTION_LOCATION_DISK_BYTES,
            OUTPUT_LOCATION_DISK_BYTES,
        );
        let transaction_location = TransactionLocation::from_bytes(transaction_location_bytes);
        let output_index = OutputIndex::from_bytes(output_index_bytes);
        match (transaction_location, output_index) {
            (Ok(transaction_location), Ok(output_index)) => Ok(
                OutputLocation { transaction_location, output_index },
            ),
            _ => Err(DiskError::CorruptRecord),
        }
    }
}

/// Decoding the bytes of an output index gives back the index.
pub proof fn lemma_output_index_round_trip(i: OutputIndex)
    requires
        i.fits_disk(),
    ensures
        i.disk_bytes().len() == OUTPUT_INDEX_DISK_BYTES,
        OutputIndex::parse(i.disk_bytes()) == Ok::<OutputIndex, DiskError>(i),
{
    lemma_pow256_values();
    lemma_be_bytes_len(i.0 as nat, 3);
    lemma_be_value_of_bytes(i.0 as nat, 3);
}

/// Decoding the bytes of a transaction location gives back the location.
pub proof fn lemma_transaction_location_round_trip(t: TransactionLocation)
    requires
        t.fits_disk(),
    ensures
        t.disk_bytes().len() == TRANSACTION_LOCATION_DISK_BYTES,
        TransactionLocation::parse(t.disk_bytes()) == Ok::<TransactionLocation, DiskError>(t),
{
    lemma_pow256_values();
    let h = be_bytes(t.height.0 as nat, 3);
    let x = be_bytes(t.index.0 as nat, 2);
    lemma_be_bytes_len(t.height.0 as nat, 3);
    lemma_be_bytes_len(t.index.0 as nat, 2);
    lemma_be_value_of_bytes(t.height.0 as nat, 3);
    lemma_be_value_of_bytes(t.index.0 as nat, 2);
    assert((h + x).subrange(0, 3) =~= h);
    assert((h + x).subrange(3, 5) =~= x);
}

/// Decoding the bytes of an output location gives back the location.
pub proof fn lemma_output_location_round_trip(l: OutputLocation)
    requires
        l.fits_disk(),
    ensures
        l.disk_bytes().len() == OUTPUT_LOCATION_DISK_BYTES,
        OutputLocation::parse(l.disk_bytes()) == Ok::<OutputLocation, DiskError>(l),
{
    lemma_transaction_location_round_trip(l.transaction_location);
    lemma_output_index_round_trip(l.output_index);
    let t = l.transaction_location.disk_bytes();
    let o = l.output_index.disk_bytes();
    assert((t + o).subrange(0, 5) =~= t);
    assert((t + o).subrange(5, 8) =~= o);
}

/// Every eight-byte string decodes to a location that encodes back to it:
/// the encoding is onto its width, so no two strings name one location.
pub proof fn lemma_output_location_canonical(bytes: Seq<u8>)
    requires
        bytes.len() == OUTPUT_LOCATION_DISK_BYTES,
    ensures
        OutputLocation::parse(bytes) is Ok,
        OutputLocation::parse(bytes)->Ok_0.fits_disk(),
        OutputLocation::parse(bytes)->Ok_0.disk_bytes() == bytes,
{
    lemma_pow256_values();
    let h = bytes.subrange(0, 3);
    let x = bytes.subrange(3, 5);
    let o = bytes.subrange(5, 8);
    lemma_be_value_bound(h);
    lemma_be_value_bound(x);
    lemma_be_value_bound(o);
    lemma_be_bytes_of_value(h);
    lemma_be_bytes_of_value(x);
    lemma_be_bytes_of_value(o);
    assert(bytes.subrange(0, 5).subrange(0, 3) =~= h);
    assert(bytes.subrange(0, 5).subrange(3, 5) =~= x);
    assert(h + x + o =~= bytes);
}

/// The on-disk bytes of a location spell its key value in big-endian.
pub proof fn lemma_output_location_key_value(l: OutputLocation)
    requires
        l.fits_disk(),
    ensures
        be_value(l.disk_bytes()) == l.key_value(),
        l.disk_bytes().len() == OUTPUT_LOCATION_DISK_BYTES,
{
    lemma_pow256_values();
    let h = be_bytes(l.transaction_location.height.0 as nat, 3);
    let x = be_bytes(l.transaction_location.index.0 as nat, 2);
    let o = be_bytes(l.output_index.0 as nat, 3);
    lemma_be_bytes_len(l.transaction_location.height.0 as nat, 3);
    lemma_be_bytes_len(l.transaction_location.index.0 as nat, 2);
    lemma_be_bytes_len(l.output_index.0 as nat, 3);
    lemma_be_value_of_bytes(l.transaction_location.height.0 as nat, 3);
    lemma_be_value_of_bytes(l.transaction_location.index.0 as nat, 2);
    lemma_be_value_of_bytes(l.output_index.0 as nat, 3);
    lemma_be_value_append(h, x);
    lemma_be_value_append(h + x, o);
}

/// Keys sort as their locations do: for locations that fit their on-disk
/// widths, one comes before another in chain order exactly when its bytes
/// come first in lexicographic byte order.
pub proof fn lemma_output_location_sort_order(a: OutputLocation, b: OutputLocation)
    requires
        a.fits_disk(),
        b.fits_disk(),
    ensures
        chain_lt(a, b) <==> lex_lt(a.disk_bytes(), b.disk_bytes()),
        a == b <==> a.disk_bytes() == b.disk_bytes(),
{
    lemma_pow256_values();
    lemma_output_location_key_value(a);
    lemma_output_location_key_value(b);
    lemma_lex_lt_iff_value_lt(a.disk_bytes(), b.disk_bytes());
    let ah = a.transaction_location.height.0 as nat;
    let ai = a.transaction_location.index.0 as nat;
    let ao = a.output_index.0 as nat;
    let bh = b.transaction_location.height.0 as nat;
    let bi = b.transaction_location.index.0 as nat;
    let bo = b.output_index.0 as nat;
    lemma_value_split(ah, ai, bh, bi, pow256(2));
    lemma_value_split(ah * pow256(2) + ai, ao, bh * pow256(2) + bi, bo, pow256(3));
    lemma_output_location_round_trip(a);
    lemma_output_location_round_trip(b);
}

} // verus!
