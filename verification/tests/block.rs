use saito::block::{Block, BlockCore, ConsensusValues};
use saito::merkle::MerkleTreeLayer;
use saito::slip::{Slip, SlipCore, SlipType};
use saito::time::create_timestamp;
use saito::transaction::{Transaction, TransactionCore, TransactionType};

#[test]
fn block_core_new_test() {
    let timestamp = create_timestamp();
    let block_core = BlockCore::new(0, timestamp, [0; 32], [0; 33], [0; 32], [0; 64], 0, 0, 0);

    assert_eq!(block_core.id, 0);
    assert_eq!(block_core.timestamp, timestamp);
    assert_eq!(block_core.previous_block_hash, [0; 32]);
    assert_eq!(block_core.creator, [0; 33]);
    assert_eq!(block_core.merkle_root, [0; 32]);
    assert_eq!(block_core.signature, [0; 64]);
    assert_eq!(block_core.treasury, 0);
    assert_eq!(block_core.burnfee, 0);
    assert_eq!(block_core.difficulty, 0);
}

#[test]
fn block_core_default_test() {
    let timestamp = create_timestamp();
    let block_core = BlockCore::default();

    assert_eq!(block_core.id, 0);
    assert_eq!(block_core.timestamp, timestamp);
    assert_eq!(block_core.previous_block_hash, [0; 32]);
    assert_eq!(block_core.creator, [0; 33]);
    assert_eq!(block_core.merkle_root, [0; 32]);
    assert_eq!(block_core.signature, [0; 64]);
    assert_eq!(block_core.treasury, 0);
    assert_eq!(block_core.burnfee, 0);
    assert_eq!(block_core.difficulty, 0);
}

#[test]
fn block_new_test() {
    let timestamp = create_timestamp();
    let core = BlockCore::default();
    let block = Block::new(core);

    assert_eq!(block.core.id, 0);
    assert_eq!(block.core.timestamp, timestamp);
    assert_eq!(block.core.previous_block_hash, [0; 32]);
    assert_eq!(block.core.creator, [0; 33]);
    assert_eq!(block.core.merkle_root, [0; 32]);
    assert_eq!(block.core.signature, [0; 64]);
    assert_eq!(block.core.treasury, 0);
    assert_eq!(block.core.burnfee, 0);
    assert_eq!(block.core.difficulty, 0);
}

#[test]
fn block_default_test() {
    let timestamp = create_timestamp();
    let block = Block::default();

    assert_eq!(block.core.id, 0);
    assert_eq!(block.core.timestamp, timestamp);
    assert_eq!(block.core.previous_block_hash, [0; 32]);
    assert_eq!(block.core.creator, [0; 33]);
    assert_eq!(block.core.merkle_root, [0; 32]);
    assert_eq!(block.core.signature, [0; 64]);
    assert_eq!(block.core.treasury, 0);
    assert_eq!(block.core.burnfee, 0);
    assert_eq!(block.core.difficulty, 0);
}

#[test]
fn block_serialize_for_net_test() {
    let mock_input = Slip::new(SlipCore::default());
    let mock_output = Slip::new(SlipCore::default());
    let mock_tx = Transaction::new(TransactionCore::new(
        create_timestamp(),
        vec![mock_input.clone()],
        vec![mock_output.clone()],
        vec![104, 101, 108, 108, 111],
        TransactionType::Normal,
        [1; 64],
    ));
    let mock_tx2 = Transaction::new(TransactionCore::new(
        create_timestamp(),
        vec![mock_input.clone()],
        vec![mock_output.clone()],
        vec![],
        TransactionType::Normal,
        [2; 64],
    ));
    let timestamp = create_timestamp();
    let mut block = Block::new(BlockCore::new(
        1, timestamp, [1; 32], [2; 33], [3; 32], [4; 64], 1, 2, 3,
    ));
    block.set_transactions(&mut vec![mock_tx, mock_tx2]);
    let serialized_block = block.serialize_for_net();
    let deserialized_block = Block::deserialize_for_net(serialized_block);
    assert_eq!(block, deserialized_block);
    assert_eq!(deserialized_block.get_id(), 1);
    assert_eq!(deserialized_block.get_timestamp(), timestamp);
    assert_eq!(deserialized_block.get_previous_block_hash(), [1; 32]);
    assert_eq!(deserialized_block.get_creator(), [2; 33]);
    assert_eq!(deserialized_block.get_merkle_root(), [3; 32]);
    assert_eq!(deserialized_block.get_signature(), [4; 64]);
    assert_eq!(deserialized_block.get_treasury(), 1);
    assert_eq!(deserialized_block.get_burnfee(), 2);
    assert_eq!(deserialized_block.get_difficulty(), 3);
}

fn slip(amount: u64, slip_type: SlipType) -> Slip {
    let mut s = Slip::default();
    s.set_amount(amount);
    s.set_slip_type(slip_type);
    s
}

fn tx(inputs: Vec<Slip>, outputs: Vec<Slip>, transaction_type: TransactionType) -> Transaction {
    Transaction::new(TransactionCore::new(7, inputs, outputs, vec![], transaction_type, [9; 64]))
}

fn blake3(data: &[u8]) -> [u8; 32] {
    *blake3::hash(data).as_bytes()
}

fn concat(a: &[u8; 32], b: &[u8; 32]) -> Vec<u8> {
    let mut v = a.to_vec();
    v.extend_from_slice(b);
    v
}

#[test]
fn serialized_block_layout_test() {
    let mut block = Block::new(BlockCore::new(
        0x0102030405060708,
        9,
        [1; 32],
        [2; 33],
        [3; 32],
        [4; 64],
        10,
        11,
        12,
    ));
    block.add_transaction(tx(vec![slip(5, SlipType::Normal)], vec![], TransactionType::Normal));
    let bytes = block.serialize_for_net();
    assert_eq!(bytes.len(), 205 + 85 + 75);
    assert_eq!(&bytes[0..4], &[0, 0, 0, 1]);
    assert_eq!(&bytes[4..12], &[1, 2, 3, 4, 5, 6, 7, 8]);
    assert_eq!(&bytes[12..20], &[0, 0, 0, 0, 0, 0, 0, 9]);
    assert_eq!(&bytes[20..52], &[1; 32]);
    assert_eq!(&bytes[52..85], &[2; 33]);
    assert_eq!(&bytes[85..117], &[3; 32]);
    assert_eq!(&bytes[117..181], &[4; 64]);
    assert_eq!(&bytes[181..189], &[0, 0, 0, 0, 0, 0, 0, 10]);
    assert_eq!(&bytes[189..197], &[0, 0, 0, 0, 0, 0, 0, 11]);
    assert_eq!(&bytes[197..205], &[0, 0, 0, 0, 0, 0, 0, 12]);
    // the transaction header: one input, no output, empty message
    assert_eq!(&bytes[205..217], &[0, 0, 0, 1, 0, 0, 0, 0, 0, 0, 0, 0]);
    assert_eq!(block.serialize_for_hash(), bytes[4..205].to_vec());
}

#[test]
fn deserialize_rejects_short_and_malformed_input_test() {
    assert!(Block::parse_from_net(&[0u8; 204]).is_none());
    let empty = Block::parse_from_net(&[0u8; 205]).unwrap();
    assert_eq!(empty.transactions.len(), 0);

    let mut block = Block::default();
    block.add_transaction(tx(vec![slip(5, SlipType::Normal)], vec![], TransactionType::Normal));
    let bytes = block.serialize_for_net();
    // cut off the last byte of the transaction
    assert!(Block::parse_from_net(&bytes[..bytes.len() - 1]).is_none());
    // a transaction type byte that stands for no type
    let mut bad_type = bytes.clone();
    bad_type[205 + 84] = 200;
    assert!(Block::parse_from_net(&bad_type).is_none());
    // slip counts whose sum overflows a u32
    let mut overflow = bytes.clone();
    overflow[205..213].copy_from_slice(&[0xff, 0xff, 0xff, 0xff, 0, 0, 0, 1]);
    assert!(Block::parse_from_net(&overflow).is_none());
    // a block that announces more transactions than it holds
    let mut more = bytes.clone();
    more[3] = 2;
    assert!(Block::parse_from_net(&more).is_none());
    // trailing bytes are left alone
    let mut trailing = bytes.clone();
    trailing.push(42);
    assert_eq!(Block::parse_from_net(&trailing).unwrap(), Block::parse_from_net(&bytes).unwrap());
}

#[test]
fn generate_hash_test() {
    let block = Block::new(BlockCore::new(1, 2, [3; 32], [4; 33], [5; 32], [6; 64], 7, 8, 9));
    let preimage = block.serialize_for_hash();
    assert_eq!(preimage.len(), 201);
    assert_eq!(block.generate_hash(), blake3(&preimage));
    assert_ne!(block.generate_hash().to_vec(), preimage[..32].to_vec());
}

#[test]
fn merkle_layer_hash_test() {
    let mut layer = MerkleTreeLayer::new([1; 32], [2; 32], 0);
    assert_eq!(layer.get_hash(), [0; 32]);
    assert!(layer.hash());
    assert_eq!(layer.get_hash(), blake3(&concat(&[1; 32], &[2; 32])));
}

fn prepared_block(n: usize) -> Block {
    let mut block = Block::default();
    for i in 0..n {
        block.add_transaction(tx(
            vec![slip(100 + i as u64, SlipType::Normal)],
            vec![slip(90, SlipType::Normal)],
            TransactionType::Normal,
        ));
    }
    assert!(block.pre_validation_calculations());
    block
}

#[test]
fn merkle_root_one_transaction_test() {
    let block = prepared_block(1);
    let h0 = block.transactions[0].get_hash_for_signature();
    let a = blake3(&concat(&h0, &[0; 32]));
    let root = blake3(&concat(&a, &[0; 32]));
    assert_eq!(block.generate_merkle_root(), root);
}

#[test]
fn merkle_root_two_transactions_test() {
    let block = prepared_block(2);
    let h0 = block.transactions[0].get_hash_for_signature();
    let h1 = block.transactions[1].get_hash_for_signature();
    let a = blake3(&concat(&h0, &h1));
    let b = blake3(&concat(&h1, &[0; 32]));
    assert_eq!(block.generate_merkle_root(), blake3(&concat(&a, &b)));
}

#[test]
fn merkle_root_three_transactions_test() {
    let block = prepared_block(3);
    let h0 = block.transactions[0].get_hash_for_signature();
    let h1 = block.transactions[1].get_hash_for_signature();
    let h2 = block.transactions[2].get_hash_for_signature();
    let a = blake3(&concat(&h0, &h1));
    let b = blake3(&concat(&h1, &h2));
    let c = blake3(&concat(&h2, &[0; 32]));
    let d = blake3(&concat(&a, &b));
    let e = blake3(&concat(&c, &[0; 32]));
    assert_eq!(block.generate_merkle_root(), blake3(&concat(&d, &e)));
}

#[test]
fn pre_validation_calculations_test() {
    let block = prepared_block(3);
    // fees 10, 11, 12
    assert_eq!(block.transactions[0].get_total_fees(), 10);
    assert_eq!(block.transactions[1].get_total_fees(), 11);
    assert_eq!(block.transactions[2].get_total_fees(), 12);
    assert_eq!(block.transactions[0].get_cumulative_fees(), 10);
    assert_eq!(block.transactions[1].get_cumulative_fees(), 21);
    assert_eq!(block.transactions[2].get_cumulative_fees(), 33);
    assert_eq!(block.total_fees, 33);
    let preimage = block.transactions[1].core.serialize_for_signature();
    assert_eq!(block.transactions[1].get_hash_for_signature(), blake3(&preimage));
}

#[test]
fn pre_validation_no_fee_when_outputs_exceed_inputs_test() {
    let mut block = Block::default();
    block.add_transaction(tx(
        vec![slip(5, SlipType::Normal)],
        vec![slip(9, SlipType::Normal)],
        TransactionType::Normal,
    ));
    assert!(block.pre_validation_calculations());
    assert_eq!(block.transactions[0].get_total_fees(), 0);
    assert_eq!(block.total_fees, 0);
}

#[test]
fn consensus_without_golden_ticket_test() {
    let mut block = prepared_block(2);
    block.add_transaction(tx(vec![], vec![], TransactionType::Fee));
    let cv = block.generate_consensus_data();
    assert_eq!(cv, ConsensusValues::new());
    assert!(cv.fee_transaction.is_none());
    assert_eq!(cv.ft_num, 0);
    assert_eq!(cv.ft_idx, usize::MAX);
}

#[test]
fn consensus_with_golden_ticket_test() {
    let mut block = prepared_block(2);
    block.add_transaction(tx(vec![], vec![], TransactionType::GoldenTicket));
    block.add_transaction(tx(vec![], vec![], TransactionType::Fee));
    // fees 10 + 11 from the normal transactions, 0 from the golden ticket
    let cv = block.generate_consensus_data();
    assert_eq!(cv.gt_num, 1);
    assert_eq!(cv.gt_idx, 2);
    assert_eq!(cv.ft_num, 1);
    assert_eq!(cv.ft_idx, 3);
    let ft = cv.fee_transaction.unwrap();
    assert!(ft.is_fee_transaction());
    assert_eq!(ft.core.inputs.len(), 2);
    assert_eq!(ft.core.outputs.len(), 2);
    assert_eq!(ft.core.inputs[0].get_slip_type(), SlipType::MinerInput);
    assert_eq!(ft.core.inputs[1].get_slip_type(), SlipType::RouterInput);
    assert_eq!(ft.core.outputs[0].get_slip_type(), SlipType::MinerOutput);
    assert_eq!(ft.core.outputs[0].get_amount(), 10);
    assert_eq!(ft.core.outputs[1].get_slip_type(), SlipType::RouterOutput);
    assert_eq!(ft.core.outputs[1].get_amount(), 11);
}

#[test]
fn validate_test() {
    let mut block = prepared_block(3);
    // a zero merkle root never validates
    assert!(!block.validate(None));
    let root = block.generate_merkle_root();
    block.set_merkle_root(root);
    block.set_burnfee(5);
    assert!(block.validate(None));
    assert!(block.validate(Some(5)));
    assert!(!block.validate(Some(6)));
    block.set_merkle_root([1; 32]);
    assert!(!block.validate(None));
}

#[test]
fn setters_and_getters_test() {
    let mut block = Block::default();
    block.set_id(4);
    block.set_lc(true);
    block.set_timestamp(5);
    block.set_previous_block_hash([6; 32]);
    block.set_creator([7; 33]);
    block.set_merkle_root([8; 32]);
    block.set_treasury(9);
    block.set_burnfee(10);
    block.set_difficulty(11);
    block.set_hash([12; 32]);
    let before = block.core;
    block.set_signature();
    assert_eq!(block.core, before);
    assert_eq!(block.get_id(), 4);
    assert!(block.get_lc());
    assert_eq!(block.get_timestamp(), 5);
    assert_eq!(block.get_previous_block_hash(), [6; 32]);
    assert_eq!(block.get_creator(), [7; 33]);
    assert_eq!(block.get_merkle_root(), [8; 32]);
    assert_eq!(block.get_treasury(), 9);
    assert_eq!(block.get_burnfee(), 10);
    assert_eq!(block.get_difficulty(), 11);
    assert_eq!(block.get_hash(), [12; 32]);
    assert_eq!(block.get_transactions().len(), 0);
}

#[test]
fn block_clone_test() {
    let block = prepared_block(2);
    let copy = block.clone();
    assert_eq!(copy, block);
}

#[test]
fn consensus_after_fee_transaction_test() {
    let mut block = prepared_block(2);
    block.add_transaction(tx(vec![], vec![], TransactionType::GoldenTicket));
    let cv = block.generate_consensus_data();
    let mut fee = tx(vec![slip(50, SlipType::Normal)], vec![], TransactionType::Fee);
    assert!(fee.pre_validation_calculations_parallelizable());
    let mut block2 = block.clone();
    block2.add_transaction(fee);
    let cv2 = block2.generate_consensus_data();
    assert_eq!(cv2.ft_num, cv.ft_num + 1);
    assert_eq!(cv2.ft_idx, block.transactions.len());
    assert_eq!(cv2.gt_num, cv.gt_num);
    assert_eq!(cv2.gt_idx, cv.gt_idx);
    let (a, b) = (cv.fee_transaction.unwrap(), cv2.fee_transaction.unwrap());
    assert_eq!(a.core.outputs[0].get_amount(), b.core.outputs[0].get_amount());
    assert_eq!(a.core.outputs[1].get_amount(), b.core.outputs[1].get_amount());
}

#[test]
fn block_merkle_root_test() {
    let mut block = Block::default();

    let mut transactions = (0..5)
        .into_iter()
        .map(|i| {
            let mut transaction = Transaction::default();
            transaction.add_input(slip(10 + i, SlipType::Normal));
            assert!(transaction.pre_validation_calculations_parallelizable());
            transaction
        })
        .collect();

    block.set_transactions(&mut transactions);

    assert!(block.generate_merkle_root().len() == 32);
}
