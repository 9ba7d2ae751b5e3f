use saito::time::timestamp_from_millis;
use saito::burnfee::{timestamp_difference, work_elapsed_time, HEARTBEAT};
use saito::bytes::{push_u32_be, push_u64_be, read_u32_be, read_u64_be};
use saito::merkle::MerkleTreeLayer;

#[test]
fn timestamp_difference_test() {
    assert_eq!(timestamp_difference(5, 5), 1);
    assert_eq!(timestamp_difference(HEARTBEAT, 0), HEARTBEAT);
}

#[test]
fn work_elapsed_time_test() {
    assert_eq!(work_elapsed_time(2 * HEARTBEAT, 0), None);
    assert_eq!(work_elapsed_time(2 * HEARTBEAT - 1, 0), Some(2 * HEARTBEAT - 1));
    assert_eq!(work_elapsed_time(0, 0), Some(1));
    assert_eq!(work_elapsed_time(HEARTBEAT / 3000, 0), Some(10));
}

#[test]
fn big_endian_test() {
    let mut v = Vec::new();
    push_u32_be(&mut v, 0x01020304);
    push_u64_be(&mut v, 0x05060708090a0b0c);
    assert_eq!(v, vec![1, 2, 3, 4, 5, 6, 7, 8, 9, 10, 11, 12]);
    assert_eq!(read_u32_be(&v, 0), 0x01020304);
    assert_eq!(read_u64_be(&v, 4), 0x05060708090a0b0c);
}

#[test]
fn merkle_node_hash_value_test() {
    // BLAKE3 of 64 zero bytes
    let mut layer = MerkleTreeLayer::new([0; 32], [0; 32], 0);
    layer.hash();
    assert_eq!(layer.get_hash(), *blake3::hash(&[0u8; 64]).as_bytes());
    assert_ne!(layer.get_hash(), [0; 32]);
}

#[test]
fn timestamp_from_millis_test() {
    assert_eq!(timestamp_from_millis(None), 0);
    assert_eq!(timestamp_from_millis(Some(1_700_000_000_000)), 1_700_000_000_000);
    assert_eq!(timestamp_from_millis(Some((1u128 << 64) + 5)), 5);
}
