//! Transparent addresses on disk: a variant tag byte, then the 20-byte hash.
use vstd::prelude::*;

use crate::error::DiskError;

verus! {

/// Addresses are stored as a tag byte and a 20-byte hash.
pub const ADDRESS_DISK_BYTES: usize = 21;

/// The network an address belongs to.
#[derive(Clone, Copy, Debug, PartialEq, Eq, Structural, Hash)]
pub enum NetworkKind {
    /// The production network.
    Mainnet,
    /// A test network.
    Testnet,
}

/// A transparent address.
#[derive(Clone, Copy, Debug, PartialEq, Eq, Hash)]
pub enum Address {
    /// Pay to script hash.
    PayToScriptHash {
        /// The network of the address.
        network_kind: NetworkKind,
        /// The hash of the script.
        script_hash: [u8; 20],
    },
    /// Pay to public key hash.
    PayToPublicKeyHash {
        /// The network of the address.
        network_kind: NetworkKind,
        /// The hash of the public key.
        pub_key_hash: [u8; 20],
    },
}

impl Address {
    /// The address's network.
    pub open spec fn network_spec(self) -> NetworkKind {
        match self {
            Address::PayToScriptHash { network_kind, .. } => network_kind,
            Address::PayToPublicKeyHash { network_kind, .. } => network_kind,
        }
    }

    /// The address's 20-byte hash, whichever kind of address it is.
    pub open spec fn hash_spec(self) -> Seq<u8> {
        match self {
            Address::PayToScriptHash { script_hash, .. } => script_hash@,
            Address::PayToPublicKeyHash { pub_key_hash, .. } => pub_key_hash@,
        }
    }

    /// The variant tag: 0 and 1 for mainnet, 2 and 3 for testnet; even for
    /// public key hashes, odd for script hashes. Common variants get small tags.
    pub open spec fn tag_spec(self) -> u8 {
        match self {
            Address::PayToPublicKeyHash { network_kind: NetworkKind::Mainnet, .. } => 0,
            Address::PayToScriptHash { network_kind: NetworkKind::Mainnet, .. } => 1,
            Address::PayToPublicKeyHash { network_kind: NetworkKind::Testnet, .. } => 2,
            Address::PayToScriptHash { network_kind: NetworkKind::Testnet, .. } => 3,
        }
    }

    /// The on-disk bytes: the tag, then the hash.
    pub open spec fn disk_bytes(self) -> Seq<u8> {
        seq![self.tag_spec()] + self.hash_spec()
    }

    /// Creates a public key hash address.
    pub fn from_pub_key_hash(network_kind: NetworkKind, pub_key_hash: [u8; 20]) -> (r: Address)
        ensures
            r == (Address::PayToPublicKeyHash { network_kind, pub_key_hash }),
    {
        Address::PayToPublicKeyHash { network_kind, pub_key_hash }
    }

    /// Creates a script hash address.
    pub fn from_script_hash(network_kind: NetworkKind, script_hash: [u8; 20]) -> (r: Address)
        ensures
            r == (Address::PayToScriptHash { network_kind, script_hash }),
    {
        Address::PayToScriptHash { network_kind, script_hash }
    }

    /// Returns the address's network.
    pub fn network_kind(&self) -> (r: NetworkKind)
        ensures
            r == self.network_spec(),
    {
        match self {
            Address::PayToScriptHash { network_kind, .. } => *network_kind,
            Address::PayToPublicKeyHash { network_kind, .. } => *network_kind,
        }
    }

    /// Returns the address's hash, whichever kind of address it is.
    pub fn hash_bytes(&self) -> (r: [u8; 20])
        ensures
            r@ == self.hash_spec(),
    {
        match self {
            Address::PayToScriptHash { script_hash, .. } => *script_hash,
            Address::PayToPublicKeyHash { pub_key_hash, .. } => *pub_key_hash,
        }
    }

    /// Encodes the address as its tag byte followed by its hash.
    pub fn as_bytes(&self) -> (r: Vec<u8>)
        ensures
            r@ == self.disk_bytes(),
            r@.len() == ADDRESS_DISK_BYTES,
    {
        let mut r: Vec<u8> = Vec::new();
        r.push(address_variant(self));
        let hash = self.hash_bytes();
        let mut i: usize = 0;
        while i < 20
            invariant
                i <= 20,
                hash@.len() == 20,
                hash@ == self.hash_spec(),
                r@ == seq![self.tag_spec()] + hash@.subrange(0, i as int),
            decreases 20 - i,
        {
            r.push(hash[i]);
            i = i + 1;
            proof {
                assert(r@ =~= seq![self.tag_spec()] + hash@.subrange(0, i as int));
            }
        }
        proof {
            assert(hash@.subrange(0, 20) =~= hash@);
        }
        r
    }

    /// Decodes an address from its tag byte and hash. The network comes from
    /// the tag's high bit and the kind from its low bit; a tag above 3 or a
    /// width other than 21 bytes is a corrupt record.
    pub fn from_bytes(disk_bytes: &[u8]) -> (r: Result<Address, DiskError>)
        ensures
            r is Ok <==> valid_address_bytes(disk_bytes@),
            r matches Ok(a) ==> a.disk_bytes() == disk_bytes@,
    {
        if disk_bytes.len() != ADDRESS_DISK_BYTES {
            return Err(DiskError::CorruptRecord);
        }
        let address_variant = disk_bytes[0];
        if address_variant >= 4 {
            return Err(DiskError::CorruptRecord);
        }
        let mut hash = [0u8; 20];
        let mut i: usize = 0;
        while i < 20
            invariant
                i <= 20,
                disk_bytes@.len() == 21,
                hash@.len() == 20,
                forall|j: int| 0 <= j < i ==> hash@[j] == disk_bytes@[j + 1],
            decreases 20 - i,
        {
            hash.set(i, disk_bytes[i + 1]);
            i = i + 1;
        }
        let network_kind = if address_variant < 2 {
            NetworkKind::Mainnet
        } else {
            NetworkKind::Testnet
        };
        let address = if address_variant % 2 == 0 {
            Address::from_pub_key_hash(network_kind, hash)
        } else {
            Address::from_script_hash(network_kind, hash)
        };
        proof {
            assert(address.disk_bytes() =~= disk_bytes@);
        }
        Ok(address)
    }
}

/// Whether a byte string is the on-disk form of some address: 21 bytes,
/// with a tag from 0 to 3.
pub open spec fn valid_address_bytes(bytes: Seq<u8>) -> bool {
    bytes.len() == ADDRESS_DISK_BYTES && bytes[0] < 4
}

/// Returns the tag byte of an address's variant.
fn address_variant(address: &Address) -> (r: u8)
    ensures
        r == address.tag_spec(),
{
    match address {
        Address::PayToPublicKeyHash { network_kind: NetworkKind::Mainnet, .. } => 0,
        Address::PayToScriptHash { network_kind: NetworkKind::Mainnet, .. } => 1,
        Address::PayToPublicKeyHash { network_kind: NetworkKind::Testnet, .. } => 2,
        Address::PayToScriptHash { network_kind: NetworkKind::Testnet, .. } => 3,
    }
}

/// Every address round-trips: its bytes are a valid record, and the only
/// address with those bytes is the address itself.
pub proof fn lemma_address_round_trip(a: Address, b: Address)
    ensures
        valid_address_bytes(a.disk_bytes()),
        a.disk_bytes().len() == ADDRESS_DISK_BYTES,
        b.disk_bytes() == a.disk_bytes() ==> b == a,
{
    if b.disk_bytes() == a.disk_bytes() {
        assert(b.tag_spec() == b.disk_bytes()[0]);
        assert(b.hash_spec() =~= b.disk_bytes().subrange(1, 21));
        assert(a.hash_spec() =~= a.disk_bytes().subrange(1, 21));
        match (a, b) {
            (
                Address::PayToScriptHash { script_hash: x, .. },
                Address::PayToScriptHash { script_hash: y, .. },
            ) => {
                assert(x =~= y);
            },
            (
                Address::PayToPublicKeyHash { pub_key_hash: x, .. },
                Address::PayToPublicKeyHash { pub_key_hash: y, .. },
            ) => {
                assert(x =~= y);
            },
            _ => {},
        }
    }
}

/// Every tag byte decodes to an address or to a corrupt record: tags 0 to 3
/// give, in turn, mainnet public key hash, mainnet script hash, testnet
/// public key hash and testnet script hash.
pub proof fn lemma_address_tags(bytes: Seq<u8>, a: Address)
    requires
        a.disk_bytes() == bytes,
    ensures
        valid_address_bytes(bytes),
        bytes[0] == 0 ==> a is PayToPublicKeyHash && a.network_spec() == NetworkKind::Mainnet,
        bytes[0] == 1 ==> a is PayToScriptHash && a.network_spec() == NetworkKind::Mainnet,
        bytes[0] == 2 ==> a is PayToPublicKeyHash && a.network_spec() == NetworkKind::Testnet,
        bytes[0] == 3 ==> a is PayToScriptHash && a.network_spec() == NetworkKind::Testnet,
        bytes.subrange(1, 21) == a.hash_spec(),
{
    lemma_address_round_trip(a, a);
    assert(bytes.subrange(1, 21) =~= a.hash_spec());
}

} // verus!
