use transparent_disk::address::{Address, NetworkKind, ADDRESS_DISK_BYTES};
use transparent_disk::balance::{
    balance_as_bytes, balance_from_bytes, AddressBalanceLocation,
    ADDRESS_BALANCE_LOCATION_DISK_BYTES, BALANCE_DISK_BYTES, MAX_MONEY,
};
use transparent_disk::bytes::{be_decode, be_encode, expand_zero_be_bytes, truncate_zero_be_bytes};
use transparent_disk::error::DiskError;
use transparent_disk::location::{
    Height, OutPoint, OutputIndex, OutputLocation, TransactionIndex, TransactionLocation,
    OUTPUT_INDEX_DISK_BYTES, OUTPUT_LOCATION_DISK_BYTES, TRANSACTION_LOCATION_DISK_BYTES,
};
use transparent_disk::output::{
    TransparentOutput, UnspentOutputAddressLocation, MAX_LOCK_SCRIPT_BYTES,
};

fn location(height: u32, tx: u16, output: u32) -> OutputLocation {
    OutputLocation::from_output_index(TransactionLocation::from_index(Height(height), tx), output)
}

/// A small deterministic generator, so that the fuzz tests repeat exactly.
struct Lcg(u64);

impl Lcg {
    fn next(&mut self) -> u64 {
        self.0 = self.0.wrapping_mul(6364136223846793005).wrapping_add(1442695040888963407);
        self.0 >> 11
    }
}

#[test]
fn output_index_bytes() {
    assert_eq!(OutputIndex::from_index(0).as_bytes(), vec![0x00, 0x00, 0x00]);
    assert_eq!(OutputIndex::from_index(1).as_bytes(), vec![0x00, 0x00, 0x01]);
    assert_eq!(OutputIndex::from_index(0xff_ffff).as_bytes(), vec![0xff, 0xff, 0xff]);
    assert_eq!(OutputIndex::from_index(0x06_0708).as_bytes(), vec![0x06, 0x07, 0x08]);
}

#[test]
fn output_index_decode() {
    assert_eq!(OutputIndex::from_bytes(&[0xff, 0xff, 0xff]), Ok(OutputIndex(0xff_ffff)));
    assert_eq!(OutputIndex::from_bytes(&[0x00, 0x01, 0x00]), Ok(OutputIndex(256)));
    assert_eq!(OutputIndex::from_bytes(&[0x00, 0x01]), Err(DiskError::CorruptRecord));
    assert_eq!(OutputIndex::from_bytes(&[0, 0, 0, 1]), Err(DiskError::CorruptRecord));
}

#[test]
fn output_index_conversions() {
    assert_eq!(OutputIndex::from_usize(7).index(), 7);
    assert_eq!(OutputIndex::from_u64(0xffff_ffff).as_u64(), 0xffff_ffff);
    assert_eq!(OutputIndex::from_index(42).as_usize(), 42);
}

#[test]
fn output_index_truncation_round_trip() {
    for index in [0u32, 1, 255, 256, 65535, 65536, 0xff_fffe, 0xff_ffff] {
        let bytes = OutputIndex::from_index(index).as_bytes();
        assert_eq!(bytes.len(), OUTPUT_INDEX_DISK_BYTES);
        assert_eq!(OutputIndex::from_bytes(&bytes), Ok(OutputIndex(index)));
    }
}

#[test]
fn zero_padding_helpers() {
    let mem = be_encode(0x01_0203, 4);
    assert_eq!(mem, vec![0x00, 0x01, 0x02, 0x03]);
    let disk = truncate_zero_be_bytes(&mem, 3);
    assert_eq!(disk, vec![0x01, 0x02, 0x03]);
    assert_eq!(expand_zero_be_bytes(&disk, 4), mem);
    assert_eq!(expand_zero_be_bytes(&[0xab], 3), vec![0x00, 0x00, 0xab]);
    assert_eq!(be_decode(&[0x09, 0x01, 0x02, 0x03], 1, 3), 0x01_0203);
}

#[test]
fn transaction_location_bytes() {
    let t = TransactionLocation::from_usize(Height(0x01_0203), 0x0405);
    let bytes = t.as_bytes();
    assert_eq!(bytes, vec![0x01, 0x02, 0x03, 0x04, 0x05]);
    assert_eq!(bytes.len(), TRANSACTION_LOCATION_DISK_BYTES);
    assert_eq!(TransactionLocation::from_bytes(&bytes), Ok(t));
    assert_eq!(TransactionLocation::from_bytes(&bytes[..4]), Err(DiskError::CorruptRecord));
}

#[test]
fn output_location_bytes() {
    let l = location(0x01_0203, 0x0405, 0x06_0708);
    let bytes = l.as_bytes();
    assert_eq!(bytes, vec![0x01, 0x02, 0x03, 0x04, 0x05, 0x06, 0x07, 0x08]);
    assert_eq!(bytes.len(), OUTPUT_LOCATION_DISK_BYTES);
    assert_eq!(OutputLocation::from_bytes(&bytes), Ok(l));
}

#[test]
fn output_location_sort_order_example() {
    let a = location(0x01_0203, 0x0405, 0x06_0708);
    let b = location(0x01_0203, 0x0405, 0x06_0709);
    assert!(a < b);
    assert!(a.as_bytes() < b.as_bytes());
}

#[test]
fn output_location_sort_order_fuzz() {
    let mut rng = Lcg(7);
    for _ in 0..10_000 {
        // Small ranges, so that equal heights and indexes come up often.
        let a = location((rng.next() % 4) as u32, (rng.next() % 4) as u16, (rng.next() % 4) as u32);
        let b = location((rng.next() % 4) as u32, (rng.next() % 4) as u16, (rng.next() % 4) as u32);
        assert_eq!(a < b, a.as_bytes() < b.as_bytes());
        assert_eq!(a == b, a.as_bytes() == b.as_bytes());
    }
}

#[test]
fn output_location_decode_errors() {
    assert_eq!(OutputLocation::from_bytes(&[]), Err(DiskError::CorruptRecord));
    assert_eq!(OutputLocation::from_bytes(&[0; 7]), Err(DiskError::CorruptRecord));
    assert_eq!(OutputLocation::from_bytes(&[0; 9]), Err(DiskError::CorruptRecord));
}

#[test]
fn output_location_accessors() {
    let t = TransactionLocation::from_index(Height(9), 3);
    let outpoint = OutPoint { hash: [0x22; 32], index: 5 };
    let mut l = OutputLocation::from_outpoint(t, &outpoint);
    assert_eq!(l.height(), Height(9));
    assert_eq!(l.transaction_index(), TransactionIndex(3));
    assert_eq!(l.output_index(), OutputIndex(5));
    assert_eq!(l.transaction_location(), t);
    *l.height_mut() = Height(10);
    assert_eq!(l.height(), Height(10));
    assert_eq!(l.output_index(), OutputIndex(5));
    let u = OutputLocation::from_usize(Height(1), 2, 3);
    assert_eq!(u, location(1, 2, 3));
}

#[test]
fn mainnet_pkh_address_bytes() {
    let address = Address::from_pub_key_hash(NetworkKind::Mainnet, [0x11; 20]);
    let bytes = address.as_bytes();
    let mut expected = vec![0x00];
    expected.extend_from_slice(&[0x11; 20]);
    assert_eq!(bytes, expected);
    assert_eq!(bytes.len(), ADDRESS_DISK_BYTES);
}

#[test]
fn address_tag_three_is_testnet_script_hash() {
    let mut bytes = vec![3u8];
    bytes.extend_from_slice(&[0x5a; 20]);
    let address = Address::from_bytes(&bytes).unwrap();
    assert_eq!(address, Address::from_script_hash(NetworkKind::Testnet, [0x5a; 20]));
    assert_eq!(address.network_kind(), NetworkKind::Testnet);
    assert_eq!(address.hash_bytes(), [0x5a; 20]);
}

#[test]
fn address_variants_round_trip() {
    let hash: [u8; 20] = core::array::from_fn(|i| i as u8 * 7);
    let variants = [
        Address::from_pub_key_hash(NetworkKind::Mainnet, hash),
        Address::from_script_hash(NetworkKind::Mainnet, hash),
        Address::from_pub_key_hash(NetworkKind::Testnet, hash),
        Address::from_script_hash(NetworkKind::Testnet, hash),
    ];
    for (tag, address) in variants.iter().enumerate() {
        let bytes = address.as_bytes();
        assert_eq!(bytes[0] as usize, tag);
        assert_eq!(&bytes[1..], &hash[..]);
        assert_eq!(Address::from_bytes(&bytes), Ok(*address));
    }
}

#[test]
fn address_every_tag_byte() {
    for tag in 0..=255u8 {
        let mut bytes = vec![tag];
        bytes.extend_from_slice(&[0x33; 20]);
        let decoded = Address::from_bytes(&bytes);
        if tag < 4 {
            assert_eq!(decoded.unwrap().as_bytes(), bytes);
        } else {
            assert_eq!(decoded, Err(DiskError::CorruptRecord));
        }
    }
}

#[test]
fn address_wrong_width() {
    assert_eq!(Address::from_bytes(&[0; 20]), Err(DiskError::CorruptRecord));
    assert_eq!(Address::from_bytes(&[0; 22]), Err(DiskError::CorruptRecord));
}

#[test]
fn balance_bytes_are_little_endian() {
    assert_eq!(balance_as_bytes(0), vec![0; 8]);
    assert_eq!(balance_as_bytes(0x0102), vec![0x02, 0x01, 0, 0, 0, 0, 0, 0]);
    let max = balance_as_bytes(MAX_MONEY);
    assert_eq!(max, MAX_MONEY.to_le_bytes().to_vec());
    assert_eq!(max.len(), BALANCE_DISK_BYTES);
    assert_eq!(balance_from_bytes(&max), Ok(MAX_MONEY));
    assert_eq!(balance_from_bytes(&[0x02, 0x01, 0, 0, 0, 0, 0, 0]), Ok(0x0102));
}

#[test]
fn balance_out_of_range_is_corrupt() {
    assert_eq!(balance_from_bytes(&(MAX_MONEY + 1).to_le_bytes()), Err(DiskError::CorruptRecord));
    assert_eq!(balance_from_bytes(&(-1i64).to_le_bytes()), Err(DiskError::CorruptRecord));
    assert_eq!(balance_from_bytes(&[0; 7]), Err(DiskError::CorruptRecord));
}

#[test]
fn address_balance_location_zero_balance() {
    let l = location(0x01_0203, 0x0405, 0x06_0708);
    let record = AddressBalanceLocation::new(l);
    let bytes = record.as_bytes();
    assert_eq!(bytes.len(), ADDRESS_BALANCE_LOCATION_DISK_BYTES);
    assert_eq!(&bytes[..8], &[0; 8]);
    assert_eq!(&bytes[8..], &[0x01, 0x02, 0x03, 0x04, 0x05, 0x06, 0x07, 0x08]);
    let decoded = AddressBalanceLocation::from_bytes(&bytes).unwrap();
    assert_eq!(decoded.balance(), 0);
    assert_eq!(decoded.address_location(), l);
}

#[test]
fn address_balance_location_round_trip() {
    let mut record = AddressBalanceLocation::new(location(5, 6, 7));
    *record.balance_mut() = 123_456_789;
    *record.height_mut() = Height(8);
    assert_eq!(record.address_location(), location(8, 6, 7));
    let bytes = record.as_bytes();
    assert_eq!(&bytes[..8], &123_456_789u64.to_le_bytes());
    assert_eq!(AddressBalanceLocation::from_bytes(&bytes), Ok(record));
}

#[test]
fn address_balance_location_errors() {
    let mut bytes = AddressBalanceLocation::new(location(1, 1, 1)).as_bytes();
    assert_eq!(AddressBalanceLocation::from_bytes(&bytes[..15]), Err(DiskError::CorruptRecord));
    bytes[7] = 0x80;
    assert_eq!(AddressBalanceLocation::from_bytes(&bytes), Err(DiskError::CorruptRecord));
}

#[test]
fn output_consensus_bytes() {
    let output = TransparentOutput { value: 5, lock_script: vec![0x51, 0x52] };
    let bytes = output.as_bytes();
    assert_eq!(bytes, vec![5, 0, 0, 0, 0, 0, 0, 0, 2, 0x51, 0x52]);
    assert_eq!(TransparentOutput::from_bytes(&bytes), Ok(output));
}

#[test]
fn output_decode_errors() {
    assert_eq!(TransparentOutput::from_bytes(&[5, 0, 0, 0]), Err(DiskError::CorruptRecord));
    // A script shorter than its length prefix says.
    assert_eq!(
        TransparentOutput::from_bytes(&[5, 0, 0, 0, 0, 0, 0, 0, 3, 0x51]),
        Err(DiskError::CorruptRecord)
    );
    // Bytes left over after the output.
    assert_eq!(
        TransparentOutput::from_bytes(&[5, 0, 0, 0, 0, 0, 0, 0, 0, 0x51]),
        Err(DiskError::CorruptRecord)
    );
    // A value above the money supply.
    let mut bytes = (MAX_MONEY + 1).to_le_bytes().to_vec();
    bytes.push(0);
    assert_eq!(TransparentOutput::from_bytes(&bytes), Err(DiskError::CorruptRecord));
}

#[test]
fn unspent_without_address_is_output_bytes() {
    let output = TransparentOutput { value: 1000, lock_script: vec![0x6a, 0x01, 0x02] };
    let record = UnspentOutputAddressLocation::new(output.clone(), None);
    let bytes = record.as_bytes();
    assert_eq!(bytes, output.as_bytes());
    let decoded = UnspentOutputAddressLocation::from_bytes(&bytes).unwrap();
    assert_eq!(decoded.output(), &output);
    assert_eq!(decoded.address_location(), None);
}

#[test]
fn unspent_with_address_appends_location() {
    let output = TransparentOutput { value: 77, lock_script: vec![0x76, 0xa9] };
    let l = location(0x01_0203, 0x0405, 0x06_0708);
    let record = UnspentOutputAddressLocation::new(output.clone(), Some(l));
    let bytes = record.as_bytes();
    let output_bytes = output.as_bytes();
    assert_eq!(bytes.len(), output_bytes.len() + OUTPUT_LOCATION_DISK_BYTES);
    assert_eq!(&bytes[..output_bytes.len()], &output_bytes[..]);
    assert_eq!(&bytes[output_bytes.len()..], &l.as_bytes()[..]);
    assert_eq!(UnspentOutputAddressLocation::from_bytes(&bytes), Ok(record));
}

#[test]
fn unspent_partial_suffix_is_corrupt() {
    let output = TransparentOutput { value: 1, lock_script: vec![0x51] };
    let base = UnspentOutputAddressLocation::new(output, None).as_bytes();
    for n in 1..OUTPUT_LOCATION_DISK_BYTES {
        let mut bytes = base.clone();
        bytes.extend(std::iter::repeat(0xee).take(n));
        assert_eq!(UnspentOutputAddressLocation::from_bytes(&bytes), Err(DiskError::CorruptRecord));
    }
}

#[test]
fn unspent_from_output_and_suffix() {
    let output = TransparentOutput { value: 3, lock_script: vec![] };
    assert_eq!(
        UnspentOutputAddressLocation::from_output_and_suffix(output.clone(), &[]),
        Ok(UnspentOutputAddressLocation::new(output.clone(), None))
    );
    assert_eq!(
        UnspentOutputAddressLocation::from_output_and_suffix(output.clone(), &[1, 2, 3]),
        Err(DiskError::CorruptRecord)
    );
    assert_eq!(
        UnspentOutputAddressLocation::from_output_and_suffix(output.clone(), &[0, 0, 1, 0, 2, 0, 0, 3]),
        Ok(UnspentOutputAddressLocation::new(output, Some(location(1, 2, 3))))
    );
}

#[test]
fn unspent_corrupt_output() {
    assert_eq!(UnspentOutputAddressLocation::from_bytes(&[]), Err(DiskError::CorruptRecord));
    assert_eq!(UnspentOutputAddressLocation::from_bytes(&[1, 2, 3]), Err(DiskError::CorruptRecord));
}

#[test]
fn random_outputs_round_trip() {
    let mut rng = Lcg(2022);
    for _ in 0..10_000 {
        let value = rng.next() % (MAX_MONEY + 1);
        let script_len = (rng.next() % 300) as usize;
        let lock_script: Vec<u8> = (0..script_len).map(|_| rng.next() as u8).collect();
        let address_location = if rng.next() % 2 == 0 {
            None
        } else {
            Some(location(
                (rng.next() % 0x100_0000) as u32,
                rng.next() as u16,
                (rng.next() % 0x100_0000) as u32,
            ))
        };
        let output = TransparentOutput { value, lock_script };
        assert_eq!(TransparentOutput::from_bytes(&output.as_bytes()), Ok(output.clone()));
        let record = UnspentOutputAddressLocation::new(output, address_location);
        assert_eq!(UnspentOutputAddressLocation::from_bytes(&record.as_bytes()), Ok(record));
    }
}

#[test]
fn random_fixed_width_round_trip() {
    let mut rng = Lcg(99);
    for _ in 0..10_000 {
        let l = location(
            (rng.next() % 0x100_0000) as u32,
            rng.next() as u16,
            (rng.next() % 0x100_0000) as u32,
        );
        assert_eq!(OutputLocation::from_bytes(&l.as_bytes()), Ok(l));
        let mut record = AddressBalanceLocation::new(l);
        *record.balance_mut() = rng.next() % (MAX_MONEY + 1);
        let bytes = record.as_bytes();
        assert_eq!(bytes.len(), ADDRESS_BALANCE_LOCATION_DISK_BYTES);
        assert_eq!(AddressBalanceLocation::from_bytes(&bytes), Ok(record));
    }
}

#[test]
fn unspent_ignores_bytes_after_the_location() {
    let output = TransparentOutput { value: 9, lock_script: vec![0x51] };
    let l = location(1, 2, 3);
    let record = UnspentOutputAddressLocation::new(output, Some(l));
    let mut bytes = record.as_bytes();
    bytes.extend_from_slice(&[0xaa, 0xbb]);
    assert_eq!(UnspentOutputAddressLocation::from_bytes(&bytes), Ok(record));
}

#[test]
fn output_long_script_length_prefix() {
    let output = TransparentOutput { value: 1, lock_script: vec![0x42; 253] };
    let bytes = output.as_bytes();
    assert_eq!(bytes.len(), 8 + 3 + 253);
    assert_eq!(&bytes[8..11], &[0xfd, 253, 0]);
    assert_eq!(TransparentOutput::from_bytes(&bytes), Ok(output));
}

#[test]
fn output_longest_script_round_trips() {
    let output = TransparentOutput { value: MAX_MONEY, lock_script: vec![7; MAX_LOCK_SCRIPT_BYTES] };
    let bytes = output.as_bytes();
    assert_eq!(TransparentOutput::from_bytes(&bytes), Ok(output));
    let record = UnspentOutputAddressLocation::new(
        TransparentOutput { value: 0, lock_script: vec![7; MAX_LOCK_SCRIPT_BYTES] },
        Some(location(1, 1, 1)),
    );
    assert_eq!(UnspentOutputAddressLocation::from_bytes(&record.as_bytes()), Ok(record));
}

#[test]
fn output_script_over_the_limit_is_corrupt() {
    let len = MAX_LOCK_SCRIPT_BYTES + 1;
    let mut bytes = vec![1, 0, 0, 0, 0, 0, 0, 0, 0xfe];
    bytes.extend_from_slice(&(len as u32).to_le_bytes());
    bytes.extend(std::iter::repeat(7).take(len));
    assert_eq!(TransparentOutput::from_bytes(&bytes), Err(DiskError::CorruptRecord));
}
