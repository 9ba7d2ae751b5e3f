use saito::slip::{Slip, SlipCore, SlipType, SLIP_SIZE};
use saito::transaction::{Transaction, TransactionCore, TransactionType, TRANSACTION_SIZE};

fn sample() -> Transaction {
    let mut a = Slip::default();
    a.set_amount(50);
    a.set_publickey([3; 33]);
    let mut b = Slip::default();
    b.set_amount(20);
    b.set_slip_type(SlipType::RouterOutput);
    Transaction::new(TransactionCore::new(
        77,
        vec![a],
        vec![b, b],
        vec![1, 2, 3],
        TransactionType::GoldenTicket,
        [5; 64],
    ))
}

#[test]
fn transaction_roundtrip_test() {
    let t = sample();
    let bytes = t.serialize_for_net();
    assert_eq!(bytes.len(), TRANSACTION_SIZE + 3 * SLIP_SIZE + 3);
    assert_eq!(&bytes[0..12], &[0, 0, 0, 1, 0, 0, 0, 2, 0, 0, 0, 3]);
    assert_eq!(bytes[84], 2);
    let back = Transaction::deserialize_from_net(bytes);
    assert_eq!(back, t);
    assert!(back.is_golden_ticket());
    assert!(!back.is_fee_transaction());
}

#[test]
fn transaction_parse_rejects_bad_slip_type_test() {
    let t = sample();
    let mut bytes = t.serialize_for_net();
    bytes[TRANSACTION_SIZE + 74] = 99;
    assert!(Transaction::parse_from_net(&bytes).is_none());
    assert!(Transaction::parse_from_net(&bytes[..TRANSACTION_SIZE - 1]).is_none());
}

#[test]
fn transaction_fee_and_cumulative_test() {
    let mut t = sample();
    assert!(t.pre_validation_calculations_parallelizable());
    assert_eq!(t.get_total_fees(), 10);
    assert_eq!(t.pre_validation_calculations_cumulative_fees(5), 15);
    assert_eq!(t.get_cumulative_fees(), 15);
    assert_ne!(t.get_hash_for_signature(), [0; 32]);
}

#[test]
fn transaction_builders_test() {
    let mut t = Transaction::default();
    assert_eq!(t.get_transaction_type(), TransactionType::Normal);
    t.set_transaction_type(TransactionType::Fee);
    assert!(t.is_fee_transaction());
    t.add_input(Slip::default());
    t.add_output(Slip::new(SlipCore::new([1; 33], [2; 32], 3, 4, SlipType::MinerOutput)));
    assert_eq!(t.core.inputs.len(), 1);
    assert_eq!(t.core.outputs[0].get_amount(), 3);
    assert_eq!(t.core.outputs[0].get_slip_ordinal(), 4);
    assert_eq!(t.clone(), t);
}

#[test]
fn slip_roundtrip_test() {
    let s = Slip::new(SlipCore::new([1; 33], [2; 32], 0x0102, 7, SlipType::RouterInput));
    let bytes = s.serialize_for_net();
    assert_eq!(bytes.len(), SLIP_SIZE);
    assert_eq!(&bytes[65..73], &[0, 0, 0, 0, 0, 0, 1, 2]);
    assert_eq!(bytes[73], 7);
    assert_eq!(bytes[74], 3);
    assert_eq!(Slip::deserialize_from_net(bytes), s);
    assert!(Slip::parse_at(&[0u8; 74], 0).is_none());
    let mut bad = [0u8; 75];
    bad[74] = 6;
    assert!(Slip::parse_at(&bad, 0).is_none());
}
