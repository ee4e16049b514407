use fullnode::crypto::{hash, hash_of_hash, signature_verifies};
use fullnode::entry::Entry;
use fullnode::keys;
use fullnode::keys::{bytes_equal, Pubkey, Signature};
use fullnode::packet::{Blob, Packet};
use fullnode::transaction::Transaction;
use fullnode::wire::{get_i64, get_u64, put_bytes, put_i64, put_u64};
use ring::signature::{Ed25519KeyPair, KeyPair};

fn sample_transaction(tokens: i64) -> Transaction {
    Transaction::new(
        Pubkey { bytes: [1u8; 32] },
        Pubkey { bytes: [2u8; 32] },
        tokens,
        keys::Hash { bytes: [3u8; 32] },
        Signature { bytes: [4u8; 64] },
    )
}

fn hex(bytes: &[u8]) -> String {
    bytes.iter().map(|b| format!("{:02x}", b)).collect()
}

#[test]
fn sha256_of_known_inputs() {
    assert_eq!(
        hex(&hash(b"").bytes),
        "e3b0c44298fc1c149afbf4c8996fb92427ae41e4649b934ca495991b7852b855"
    );
    assert_eq!(
        hex(&hash(b"abc").bytes),
        "ba7816bf8f01cfea414140de5dae2223b00361a396177a9cb410ff61f20015ad"
    );
}

#[test]
fn hash_of_hash_hashes_the_32_bytes() {
    let start = hash(b"abc");
    assert_eq!(hash_of_hash(&start), hash(&start.bytes));
    assert_ne!(hash_of_hash(&start), start);
}

#[test]
fn ed25519_accepts_the_signature_and_nothing_else() {
    let pair = Ed25519KeyPair::from_seed_unchecked(&[9u8; 32]).expect("seed");
    let key = Pubkey::new(pair.public_key().as_ref());
    let signature = Signature::new(pair.sign(b"message").as_ref());
    assert!(signature_verifies(&key, b"message", &signature));
    assert!(!signature_verifies(&key, b"massage", &signature));
    let mut forged = signature;
    forged.bytes[0] ^= 1;
    assert!(!signature_verifies(&key, b"message", &forged));
    let other = Ed25519KeyPair::from_seed_unchecked(&[10u8; 32]).expect("seed");
    let other_key = Pubkey::new(other.public_key().as_ref());
    assert!(!signature_verifies(&other_key, b"message", &signature));
}

#[test]
fn bytes_equal_compares_contents() {
    assert!(bytes_equal(&[1, 2, 3], &[1, 2, 3]));
    assert!(!bytes_equal(&[1, 2, 3], &[1, 2, 4]));
    assert!(!bytes_equal(&[1, 2, 3], &[1, 2]));
    assert!(bytes_equal(&[], &[]));
}

#[test]
fn keys_compare_by_their_bytes() {
    let a = Pubkey::new(&[7u8; 32]);
    let mut b = a;
    assert!(a.equals(&b));
    b.bytes[31] = 8;
    assert!(!a.equals(&b));
    let h = keys::Hash::new(&[5u8; 32]);
    assert!(h.equals(&keys::Hash { bytes: [5u8; 32] }));
    assert!(!h.equals(&keys::Hash { bytes: [6u8; 32] }));
    let s = Signature::new(&[5u8; 64]);
    assert!(s.equals(&Signature { bytes: [5u8; 64] }));
    assert!(!s.equals(&Signature { bytes: [0u8; 64] }));
}

#[test]
fn words_are_little_endian() {
    let mut out = vec![0xffu8];
    put_u64(&mut out, 0x0102030405060708);
    assert_eq!(out, vec![0xff, 8, 7, 6, 5, 4, 3, 2, 1]);
    put_i64(&mut out, -2);
    assert_eq!(&out[9..], &[0xfe, 0xff, 0xff, 0xff, 0xff, 0xff, 0xff, 0xff]);
    put_bytes(&mut out, &[1, 2]);
    assert_eq!(out.len(), 19);
    assert_eq!(get_u64(&out, 1), 0x0102030405060708);
    assert_eq!(get_i64(&out, 9), -2);
    let mut extremes = Vec::new();
    put_i64(&mut extremes, i64::MIN);
    put_i64(&mut extremes, i64::MAX);
    assert_eq!(get_i64(&extremes, 0), i64::MIN);
    assert_eq!(get_i64(&extremes, 8), i64::MAX);
}

#[test]
fn transaction_layout() {
    let tx = sample_transaction(20);
    let data = tx.sign_data();
    assert_eq!(data.len(), 104);
    assert_eq!(&data[0..32], &[1u8; 32]);
    assert_eq!(&data[32..64], &[2u8; 32]);
    assert_eq!(&data[64..72], &[20, 0, 0, 0, 0, 0, 0, 0]);
    assert_eq!(&data[72..104], &[3u8; 32]);
    let bytes = tx.to_bytes();
    assert_eq!(bytes.len(), 168);
    assert_eq!(&bytes[0..104], &data[..]);
    assert_eq!(&bytes[104..168], &[4u8; 64]);
}

#[test]
fn transaction_roundtrip() {
    for tokens in [0, 1, -1, 501, i64::MIN, i64::MAX] {
        let tx = sample_transaction(tokens);
        assert_eq!(Transaction::from_bytes(&tx.to_bytes()), Some(tx));
    }
}

#[test]
fn transaction_of_wrong_length_is_refused() {
    let bytes = sample_transaction(1).to_bytes();
    assert_eq!(Transaction::from_bytes(&bytes[..167]), None);
    let mut longer = bytes.clone();
    longer.push(0);
    assert_eq!(Transaction::from_bytes(&longer), None);
    assert_eq!(Transaction::from_bytes(&[]), None);
}

#[test]
fn transaction_signature_covers_the_sign_data() {
    let pair = Ed25519KeyPair::from_seed_unchecked(&[1u8; 32]).expect("seed");
    let from = Pubkey::new(pair.public_key().as_ref());
    let mut tx = Transaction::new(
        from,
        Pubkey { bytes: [2u8; 32] },
        5,
        keys::Hash { bytes: [3u8; 32] },
        Signature { bytes: [0u8; 64] },
    );
    assert!(!tx.verify_signature());
    tx.signature = Signature::new(pair.sign(&tx.sign_data()).as_ref());
    assert!(tx.verify_signature());
    tx.to = Pubkey { bytes: [9u8; 32] };
    assert!(!tx.verify_signature());
}

#[test]
fn packet_layout_and_roundtrip() {
    let tx = sample_transaction(-7);
    let packet = Packet::from_transaction(&tx);
    assert_eq!(packet.data.len(), 176);
    assert_eq!(&packet.data[0..8], &[168, 0, 0, 0, 0, 0, 0, 0]);
    assert_eq!(&packet.data[8..], &tx.to_bytes()[..]);
    assert_eq!(packet.transaction(), Some(tx));
    let mut padded = packet.clone();
    padded.data.extend_from_slice(&[0xaa; 10]);
    assert_eq!(padded.transaction(), Some(tx));
}

#[test]
fn malformed_packets_are_refused() {
    let tx = sample_transaction(1);
    let packet = Packet::from_transaction(&tx);
    let short = Packet { data: packet.data[..175].to_vec() };
    assert_eq!(short.transaction(), None);
    let mut wrong_length = packet.clone();
    wrong_length.data[0] = 167;
    assert_eq!(wrong_length.transaction(), None);
    assert_eq!(Packet { data: vec![] }.transaction(), None);
}

#[test]
fn entry_layout() {
    let entry = Entry::new(&keys::Hash { bytes: [7u8; 32] }, 3, vec![sample_transaction(1)], false);
    let bytes = entry.to_bytes();
    assert_eq!(bytes.len(), 49 + 168);
    assert_eq!(&bytes[0..32], &[7u8; 32]);
    assert_eq!(&bytes[32..40], &[3, 0, 0, 0, 0, 0, 0, 0]);
    assert_eq!(bytes[40], 0);
    assert_eq!(&bytes[41..49], &[1, 0, 0, 0, 0, 0, 0, 0]);
    assert_eq!(&bytes[49..], &sample_transaction(1).to_bytes()[..]);
    let tick = Entry::new(&keys::Hash { bytes: [7u8; 32] }, 0, vec![], true);
    let bytes = tick.to_bytes();
    assert_eq!(bytes.len(), 49);
    assert_eq!(bytes[40], 1);
}

#[test]
fn entry_roundtrip() {
    let entries = vec![
        Entry::new(&keys::Hash { bytes: [7u8; 32] }, 0, vec![], true),
        Entry::new(&keys::Hash { bytes: [8u8; 32] }, u64::MAX, vec![sample_transaction(1)], false),
        Entry::new(
            &hash(b"x"),
            12,
            vec![sample_transaction(1), sample_transaction(-2), sample_transaction(3)],
            false,
        ),
    ];
    for entry in entries {
        assert_eq!(Entry::from_bytes(&entry.to_bytes()), Some(entry));
    }
}

#[test]
fn malformed_entries_are_refused() {
    let entry = Entry::new(&keys::Hash { bytes: [7u8; 32] }, 3, vec![sample_transaction(1)], false);
    let bytes = entry.to_bytes();
    assert_eq!(Entry::from_bytes(&bytes[..48]), None);
    assert_eq!(Entry::from_bytes(&bytes[..bytes.len() - 1]), None);
    let mut bad_flag = bytes.clone();
    bad_flag[40] = 2;
    assert_eq!(Entry::from_bytes(&bad_flag), None);
    let mut bad_count = bytes.clone();
    bad_count[41] = 2;
    assert_eq!(Entry::from_bytes(&bad_count), None);
    let mut trailing = bytes.clone();
    trailing.push(0);
    assert_eq!(Entry::from_bytes(&trailing), None);
}

#[test]
fn entry_id_is_the_hash_of_link_count_and_signatures() {
    let prev = keys::Hash { bytes: [7u8; 32] };
    let a = sample_transaction(1);
    let mut b = sample_transaction(2);
    b.signature = Signature { bytes: [5u8; 64] };
    let entry = Entry::new(&prev, 3, vec![a, b], false);
    let mut input = Vec::new();
    input.extend_from_slice(&[7u8; 32]);
    input.extend_from_slice(&[3, 0, 0, 0, 0, 0, 0, 0]);
    input.extend_from_slice(&[4u8; 64]);
    input.extend_from_slice(&[5u8; 64]);
    assert_eq!(entry.id(), hash(&input));
    let tick = Entry::new(&prev, 3, vec![], true);
    assert_eq!(tick.id(), hash(&input[..40]));
    assert_eq!(Entry::new(&prev, 3, vec![], false).id(), tick.id());
    assert_ne!(Entry::new(&prev, 4, vec![], true).id(), tick.id());
}

#[test]
fn blob_layout_and_roundtrip() {
    let blob = Blob::new(0x0a0b, Pubkey { bytes: [6u8; 32] }, vec![1, 2, 3]);
    let bytes = blob.to_bytes();
    assert_eq!(bytes.len(), 48 + 3);
    assert_eq!(&bytes[0..8], &[0x0b, 0x0a, 0, 0, 0, 0, 0, 0]);
    assert_eq!(&bytes[8..40], &[6u8; 32]);
    assert_eq!(&bytes[40..48], &[3, 0, 0, 0, 0, 0, 0, 0]);
    assert_eq!(&bytes[48..], &[1, 2, 3]);
    assert_eq!(Blob::from_bytes(&bytes), Some(blob.duplicate()));
    let mut with_meta = bytes.clone();
    with_meta.extend_from_slice(&[9, 9, 9, 9]);
    assert_eq!(Blob::from_bytes(&with_meta), Some(blob.duplicate()));
    assert_eq!(blob.duplicate(), blob);
}

#[test]
fn malformed_blobs_are_refused() {
    let bytes = Blob::new(1, Pubkey { bytes: [6u8; 32] }, vec![1, 2, 3]).to_bytes();
    assert_eq!(Blob::from_bytes(&bytes[..47]), None);
    assert_eq!(Blob::from_bytes(&bytes[..50]), None);
    let empty = Blob::new(1, Pubkey { bytes: [6u8; 32] }, vec![]).to_bytes();
    assert_eq!(empty.len(), 48);
    assert_eq!(Blob::from_bytes(&empty).map(|b| b.data), Some(vec![]));
}
