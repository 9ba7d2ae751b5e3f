//! Blocks: their consensus fields, their wire format, the hash and the
//! merkle root that commit to them, and the checks and sums that validation
//! works out about their transactions.
use crate::bytes::{
    bytes_equal, copy_from, copy_range, lemma_u32_be_roundtrip, lemma_u64_be_roundtrip, push_bytes,
    push_u32_be, push_u64_be, read_u32_be, read_u64_be, u32_be, u32_from_be, u64_be, u64_from_be,
};
use crate::crypto::{blake3_digest, hash, SaitoHash, SaitoPublicKey, SaitoSignature};
use crate::merkle::{
    hash_layer_in_parallel, layer_pairs, leaf_pairs, merkle_root, node_hash, node_pair,
    pair_hashes, pair_up, root_from, MerkleTreeLayer,
};
use crate::time::create_timestamp;
use crate::slip::{Slip, SlipType, SlipView};
use crate::transaction::{
    amount_sum, fresh_transaction, header_inputs, header_outputs,
    lemma_tx_roundtrip, parse_tx, parse_tx_ok, prepare_in_parallel, prepared, tx_bytes,
    tx_core_wf, tx_end, tx_fee, zero_hash, Transaction, TransactionCoreView, TransactionType,
    TransactionView,
};
use vstd::prelude::*;

verus! {

/// The consensus fields of a block.
#[derive(Debug, PartialEq, Eq, Clone, Copy)]
pub struct BlockCore {
    pub id: u64,
    pub timestamp: u64,
    pub previous_block_hash: SaitoHash,
    pub creator: SaitoPublicKey,
    pub merkle_root: SaitoHash,
    pub signature: SaitoSignature,
    pub treasury: u64,
    pub burnfee: u64,
    pub difficulty: u64,
}

/// The consensus fields of a block as a mathematical value.
pub struct BlockCoreView {
    pub id: u64,
    pub timestamp: u64,
    pub previous_block_hash: Seq<u8>,
    pub creator: Seq<u8>,
    pub merkle_root: Seq<u8>,
    pub signature: Seq<u8>,
    pub treasury: u64,
    pub burnfee: u64,
    pub difficulty: u64,
}

impl View for BlockCore {
    type V = BlockCoreView;

    open spec fn view(&self) -> BlockCoreView {
        BlockCoreView {
            id: self.id,
            timestamp: self.timestamp,
            previous_block_hash: self.previous_block_hash@,
            creator: self.creator@,
            merkle_root: self.merkle_root@,
            signature: self.signature@,
            treasury: self.treasury,
            burnfee: self.burnfee,
            difficulty: self.difficulty,
        }
    }
}

/// Whether the keys of a block's consensus fields have their wire sizes.
pub open spec fn block_core_wf(c: BlockCoreView) -> bool {
    &&& c.previous_block_hash.len() == 32
    &&& c.creator.len() == 33
    &&& c.merkle_root.len() == 32
    &&& c.signature.len() == 64
}

/// The bytes that a block's hash covers: its consensus fields in wire
/// order, integers big-endian.
pub open spec fn block_preimage(c: BlockCoreView) -> Seq<u8> {
    u64_be(c.id) + u64_be(c.timestamp) + c.previous_block_hash + c.creator + c.merkle_root
        + c.signature + u64_be(c.treasury) + u64_be(c.burnfee) + u64_be(c.difficulty)
}

/// The consensus fields that the 201 bytes of `b` from offset 4 encode.
pub open spec fn block_core_at(b: Seq<u8>) -> BlockCoreView {
    BlockCoreView {
        id: u64_from_be(b.subrange(4, 12)),
        timestamp: u64_from_be(b.subrange(12, 20)),
        previous_block_hash: b.subrange(20, 52),
        creator: b.subrange(52, 85),
        merkle_root: b.subrange(85, 117),
        signature: b.subrange(117, 181),
        treasury: u64_from_be(b.subrange(181, 189)),
        burnfee: u64_from_be(b.subrange(189, 197)),
        difficulty: u64_from_be(b.subrange(197, 205)),
    }
}

impl BlockCore {
    pub fn new(
        id: u64,
        timestamp: u64,
        previous_block_hash: [u8; 32],
        creator: [u8; 33],
        merkle_root: [u8; 32],
        signature: [u8; 64],
        treasury: u64,
        burnfee: u64,
        difficulty: u64,
    ) -> (c: Self)
        ensures
            c == (BlockCore {
                id,
                timestamp,
                previous_block_hash,
                creator,
                merkle_root,
                signature,
                treasury,
                burnfee,
                difficulty,
            }),
    {
        Self {
            id,
            timestamp,
            previous_block_hash,
            creator,
            merkle_root,
            signature,
            treasury,
            burnfee,
            difficulty,
        }
    }

    /// Appends the bytes that a block's hash covers to `v`.
    fn push_preimage(&self, v: &mut Vec<u8>)
        ensures
            final(v)@ == old(v)@ + block_preimage(self@),
    {
        let ghost start = v@;
        push_u64_be(v, self.id);
        push_u64_be(v, self.timestamp);
        push_bytes(v, self.previous_block_hash.as_slice());
        push_bytes(v, self.creator.as_slice());
        push_bytes(v, self.merkle_root.as_slice());
        push_bytes(v, self.signature.as_slice());
        push_u64_be(v, self.treasury);
        push_u64_be(v, self.burnfee);
        push_u64_be(v, self.difficulty);
        assert(v@ =~= start + block_preimage(self@));
    }
}

impl Default for BlockCore {
    /// The consensus fields of a block at the current time with every
    /// other field 0.
    fn default() -> (c: Self)
        ensures
            c.id == 0,
            c.previous_block_hash@ == zero_hash(),
            c.creator@ == Seq::new(33, |i: int| 0u8),
            c.merkle_root@ == zero_hash(),
            c.signature@ == Seq::new(64, |i: int| 0u8),
            c.treasury == 0,
            c.burnfee == 0,
            c.difficulty == 0,
    {
        let c = Self::new(0, create_timestamp(), [0; 32], [0; 33], [0; 32], [0; 64], 0, 0, 0);
        assert(c.previous_block_hash@ =~= zero_hash());
        assert(c.creator@ =~= Seq::new(33, |i: int| 0u8));
        assert(c.merkle_root@ =~= zero_hash());
        assert(c.signature@ =~= Seq::new(64, |i: int| 0u8));
        c
    }
}

/// A block: its consensus fields, its transactions, and what the node
/// works out about it.
#[derive(Debug, PartialEq, Eq)]
pub struct Block {
    /// Consensus level variables.
    pub core: BlockCore,
    /// Transactions.
    pub transactions: Vec<Transaction>,
    /// Self-calculated / validated.
    pub hash: SaitoHash,
    /// Total fees paid into the block.
    pub total_fees: u64,
    /// Whether the block is on the longest chain.
    pub lc: bool,
}

impl Clone for Block {
    fn clone(&self) -> (b: Block)
        ensures
            b@ == self@,
    {
        let n = self.transactions.len();
        let mut transactions: Vec<Transaction> = Vec::new();
        let mut i: usize = 0;
        while i < n
            invariant
                i <= n,
                n == self.transactions@.len(),
                transactions@.len() == i,
                forall|k: int| 0 <= k < i ==> #[trigger] transactions@[k]@ == self.transactions@[k]@,
            decreases n - i,
        {
            transactions.push(self.transactions[i].clone());
            i = i + 1;
        }
        assert(tx_views(transactions@) =~= tx_views(self.transactions@));
        Block {
            core: self.core,
            transactions,
            hash: self.hash,
            total_fees: self.total_fees,
            lc: self.lc,
        }
    }
}

/// A block as a mathematical value.
pub struct BlockView {
    pub core: BlockCoreView,
    pub transactions: Seq<TransactionView>,
    pub hash: Seq<u8>,
    pub total_fees: u64,
    pub lc: bool,
}

/// The views of a sequence of transactions.
pub open spec fn tx_views(ts: Seq<Transaction>) -> Seq<TransactionView> {
    ts.map_values(|t: Transaction| t@)
}

impl View for Block {
    type V = BlockView;

    open spec fn view(&self) -> BlockView {
        BlockView {
            core: self.core@,
            transactions: tx_views(self.transactions@),
            hash: self.hash@,
            total_fees: self.total_fees,
            lc: self.lc,
        }
    }
}

/// The wire bytes of a sequence of transactions, one after another.
pub open spec fn txs_bytes(ts: Seq<TransactionView>) -> Seq<u8>
    decreases ts.len(),
{
    if ts.len() == 0 {
        Seq::empty()
    } else {
        txs_bytes(ts.drop_last()) + tx_bytes(ts.last().core)
    }
}

/// The wire bytes of a block: the number of its transactions (cut to
/// 32 bits), its consensus fields, then its transactions.
pub open spec fn block_bytes(b: BlockView) -> Seq<u8> {
    u32_be(b.transactions.len() as u32) + block_preimage(b.core) + txs_bytes(b.transactions)
}

/// Where the transaction whose wire bytes start at `p` in `b` ends, by its
/// header; `None` where the header is cut off, its slip counts overflow a
/// `u32`, or the transaction would run past the end of `b`.
pub open spec fn frame_end(b: Seq<u8>, p: int) -> Option<int> {
    if p + 12 > b.len() {
        None
    } else {
        let s = b.subrange(p, b.len() as int);
        if header_inputs(s) + header_outputs(s) > u32::MAX {
            None
        } else if p + tx_end(s) > b.len() {
            None
        } else {
            Some(p + tx_end(s))
        }
    }
}

/// The first `n` transactions whose wire bytes follow one another from `p`
/// in `b`, and where the last of them ends; `None` where one of them is not
/// there.
pub open spec fn parse_txs(b: Seq<u8>, p: int, n: nat) -> Option<(Seq<TransactionView>, int)>
    decreases n,
{
    if n == 0 {
        Some((Seq::empty(), p))
    } else {
        match parse_txs(b, p, (n - 1) as nat) {
            Some((ts, q)) => match frame_end(b, q) {
                Some(e) => if parse_tx_ok(b.subrange(q, e)) {
                    Some((ts.push(fresh_transaction(parse_tx(b.subrange(q, e)))), e))
                } else {
                    None
                },
                None => None,
            },
            None => None,
        }
    }
}

/// The number of transactions that the wire bytes of a block announce.
pub open spec fn announced_txs(b: Seq<u8>) -> nat {
    u32_from_be(b.subrange(0, 4)) as nat
}

/// The block that `b` starts with, before anything has been worked out
/// about it; `None` where `b` holds no whole block.
pub open spec fn parse_block(b: Seq<u8>) -> Option<BlockView> {
    if b.len() < 205 {
        None
    } else {
        match parse_txs(b, 205, announced_txs(b)) {
            Some((ts, _)) => Some(
                BlockView {
                    core: block_core_at(b),
                    transactions: ts,
                    hash: zero_hash(),
                    total_fees: 0,
                    lc: false,
                },
            ),
            None => None,
        }
    }
}

/// The transactions that the wire fields of `ts` stand for, with nothing
/// worked out about them.
pub open spec fn fresh_all(ts: Seq<TransactionView>) -> Seq<TransactionView> {
    ts.map_values(|t: TransactionView| fresh_transaction(t.core))
}

/// The hashes that the signatures of a sequence of transactions cover,
/// as worked out before validation.
pub open spec fn signature_hashes(ts: Seq<TransactionView>) -> Seq<Seq<u8>> {
    ts.map_values(|t: TransactionView| t.hash_for_signature)
}

/// Whether a transaction pays out the fees of a block.
pub open spec fn is_fee(t: TransactionView) -> bool {
    t.core.transaction_type == TransactionType::Fee
}

/// Whether a transaction carries a golden ticket.
pub open spec fn is_golden(t: TransactionView) -> bool {
    t.core.transaction_type == TransactionType::GoldenTicket
}

/// The number of fee transactions in `ts`.
pub open spec fn fee_count(ts: Seq<TransactionView>) -> nat
    decreases ts.len(),
{
    if ts.len() == 0 {
        0
    } else {
        fee_count(ts.drop_last()) + if is_fee(ts.last()) {
            1nat
        } else {
            0nat
        }
    }
}

/// The number of golden ticket transactions in `ts`.
pub open spec fn golden_count(ts: Seq<TransactionView>) -> nat
    decreases ts.len(),
{
    if ts.len() == 0 {
        0
    } else {
        golden_count(ts.drop_last()) + if is_golden(ts.last()) {
            1nat
        } else {
            0nat
        }
    }
}

/// The index of the last fee transaction in `ts`, or `usize::MAX` where
/// there is none.
pub open spec fn last_fee_index(ts: Seq<TransactionView>) -> int
    decreases ts.len(),
{
    if ts.len() == 0 {
        usize::MAX as int
    } else if is_fee(ts.last()) {
        ts.len() - 1
    } else {
        last_fee_index(ts.drop_last())
    }
}

/// The index of the last golden ticket transaction in `ts`, or
/// `usize::MAX` where there is none.
pub open spec fn last_golden_index(ts: Seq<TransactionView>) -> int
    decreases ts.len(),
{
    if ts.len() == 0 {
        usize::MAX as int
    } else if is_golden(ts.last()) {
        ts.len() - 1
    } else {
        last_golden_index(ts.drop_last())
    }
}

/// The fees that the transactions of `ts` other than fee transactions
/// record as theirs.
pub open spec fn fees_paid(ts: Seq<TransactionView>) -> int
    decreases ts.len(),
{
    if ts.len() == 0 {
        0
    } else {
        fees_paid(ts.drop_last()) + if is_fee(ts.last()) {
            0
        } else {
            ts.last().total_fees as int
        }
    }
}

/// The sum of the fees that the wire fields of the transactions of `ts`
/// pay.
pub open spec fn fee_total(ts: Seq<TransactionView>) -> int
    decreases ts.len(),
{
    if ts.len() == 0 {
        0
    } else {
        fee_total(ts.drop_last()) + tx_fee(ts.last().core)
    }
}

/// A slip of the fee transaction: a zero key and uuid, ordinal 0.
pub open spec fn payout_slip(slip_type: SlipType, amount: u64) -> SlipView {
    SlipView {
        publickey: Seq::new(33, |i: int| 0u8),
        uuid: zero_hash(),
        amount,
        slip_ordinal: 0,
        slip_type,
    }
}

/// The transaction that pays out `total` in fees: half (rounded down) to
/// the miner, the rest to the router.
pub open spec fn fee_transaction_for(total: u64) -> TransactionView {
    fresh_transaction(
        TransactionCoreView {
            timestamp: 0,
            inputs: seq![payout_slip(SlipType::MinerInput, 0), payout_slip(SlipType::RouterInput, 0)],
            outputs: seq![
                payout_slip(SlipType::MinerOutput, total / 2),
                payout_slip(SlipType::RouterOutput, (total - total / 2) as u64),
            ],
            message: Seq::empty(),
            transaction_type: TransactionType::Fee,
            signature: Seq::new(64, |i: int| 0u8),
        },
    )
}

/// A transaction once validation has worked out its signature hash, its
/// fee, and the fees of the block up to and including it.
pub open spec fn prepared_in_block(ts: Seq<TransactionView>, k: int) -> TransactionView {
    TransactionView { cumulative_fees: fee_total(ts.take(k + 1)) as u64, ..prepared(ts[k]) }
}

/// Whether a block fits its wire format: its transaction count and each
/// transaction's counts fit their `u32` fields.
pub open spec fn block_wire_ok(b: BlockView) -> bool {
    &&& block_core_wf(b.core)
    &&& b.transactions.len() <= u32::MAX
    &&& forall|k: int| 0 <= k < b.transactions.len() ==> #[trigger] tx_core_wf(b.transactions[k].core)
}

/// What the wire format carries of a block: its consensus fields and the
/// wire fields of its transactions, with nothing worked out.
pub open spec fn wire_image(b: BlockView) -> BlockView {
    BlockView {
        core: b.core,
        transactions: fresh_all(b.transactions),
        hash: zero_hash(),
        total_fees: 0,
        lc: false,
    }
}

/// What the transactions of a block decide about its fee payout.
#[derive(Debug, PartialEq, Eq)]
pub struct ConsensusValues {
    /// The transaction expected to pay out the fees, if any.
    pub fee_transaction: Option<Transaction>,
    /// The number of fee transactions.
    pub ft_num: u8,
    /// The index of the last fee transaction.
    pub ft_idx: usize,
    /// The number of golden ticket transactions.
    pub gt_num: u8,
    /// The index of the last golden ticket transaction.
    pub gt_idx: usize,
}

impl Clone for ConsensusValues {
    fn clone(&self) -> (c: ConsensusValues)
        ensures
            c.fee_transaction matches Some(t) ==> self.fee_transaction matches Some(u) && t@ == u@,
            c.fee_transaction is None <==> self.fee_transaction is None,
            c.ft_num == self.ft_num,
            c.ft_idx == self.ft_idx,
            c.gt_num == self.gt_num,
            c.gt_idx == self.gt_idx,
    {
        let fee_transaction = match &self.fee_transaction {
            Some(t) => Some(t.clone()),
            None => None,
        };
        ConsensusValues {
            fee_transaction,
            ft_num: self.ft_num,
            ft_idx: self.ft_idx,
            gt_num: self.gt_num,
            gt_idx: self.gt_idx,
        }
    }
}

impl ConsensusValues {
    /// No fee transaction, no counts, and `usize::MAX` for the indices.
    pub fn new() -> (cv: ConsensusValues)
        ensures
            cv.fee_transaction is None,
            cv.ft_num == 0,
            cv.ft_idx == usize::MAX,
            cv.gt_num == 0,
            cv.gt_idx == usize::MAX,
    {
        ConsensusValues {
            fee_transaction: None,
            ft_num: 0,
            ft_idx: usize::MAX,
            gt_num: 0,
            gt_idx: usize::MAX,
        }
    }
}

impl Block {
    /// A block with the given consensus fields, no transactions, a zero hash,
    /// no fees, and off the longest chain.
    pub fn new(core: BlockCore) -> (b: Block)
        ensures
            b.core == core,
            b@.transactions.len() == 0,
            b@.hash == zero_hash(),
            b.total_fees == 0,
            !b.lc,
    {
        let b = Block { core, transactions: Vec::new(), hash: [0; 32], total_fees: 0, lc: false };
        assert(b.hash@ =~= zero_hash());
        b
    }

    /// The bytes that the hash of this block covers.
    pub fn serialize_for_hash(&self) -> (v: Vec<u8>)
        ensures
            v@ == block_preimage(self.core@),
    {
        let mut v: Vec<u8> = Vec::new();
        self.core.push_preimage(&mut v);
        assert(v@ =~= block_preimage(self.core@));
        v
    }

    /// The BLAKE3 hash of the consensus fields of this block.
    pub fn generate_hash(&self) -> (h: SaitoHash)
        ensures
            h@ == blake3_digest(block_preimage(self.core@)),
    {
        let vbytes = self.serialize_for_hash();
        hash(vbytes.as_slice())
    }

    /// Serialize a Block for transport or disk.
    /// [len of transactions - 4 bytes - u32]
    /// [id - 8 bytes - u64]
    /// [timestamp - 8 bytes - u64]
    /// [previous_block_hash - 32 bytes - hash]
    /// [creator - 33 bytes - Secp25k1 pubkey compact format]
    /// [merkle_root - 32 bytes - hash]
    /// [signature - 64 bytes - Secp25k1 sig]
    /// [treasury - 8 bytes - u64]
    /// [burnfee - 8 bytes - u64]
    /// [difficulty - 8 bytes - u64]
    /// [transaction][transaction][transaction]...
    pub fn serialize_for_net(&self) -> (v: Vec<u8>)
        ensures
            v@ == block_bytes(self@),
    {
        let ghost bv = self@;
        let mut vbytes: Vec<u8> = Vec::new();
        push_u32_be(&mut vbytes, self.transactions.len() as u32);
        self.core.push_preimage(&mut vbytes);
        let ghost head = vbytes@;
        assert(bv.transactions.take(0) =~= Seq::<TransactionView>::empty());
        assert(vbytes@ =~= head + txs_bytes(bv.transactions.take(0)));
        let n = self.transactions.len();
        let mut i: usize = 0;
        while i < n
            invariant
                i <= n,
                n == self.transactions@.len(),
                bv == self@,
                vbytes@ == head + txs_bytes(bv.transactions.take(i as int)),
            decreases n - i,
        {
            self.transactions[i].core.serialize_into(&mut vbytes);
            proof {
                assert(bv.transactions.take(i + 1).drop_last() =~= bv.transactions.take(i as int));
                assert(bv.transactions[i as int] == self.transactions@[i as int]@);
            }
            i = i + 1;
            assert(vbytes@ =~= head + txs_bytes(bv.transactions.take(i as int)));
        }
        assert(bv.transactions.take(n as int) =~= bv.transactions);
        assert(vbytes@ =~= block_bytes(bv));
        vbytes
    }

    /// The block that `bytes` starts with, before anything has been worked
    /// out about it; `None` where `bytes` holds no whole block: the fixed
    /// part is cut off, or one of the announced transactions is cut off, has
    /// slip counts whose sum overflows a `u32`, or has a type byte that
    /// stands for no type.
    pub fn parse_from_net(bytes: &[u8]) -> (r: Option<Block>)
        ensures
            r is Some <==> parse_block(bytes@) is Some,
            r matches Some(bl) ==> bl@ == parse_block(bytes@).unwrap(),
    {
        let ghost bv = bytes@;
        let len = bytes.len();
        if len < 205 {
            return None;
        }
        let transactions_len = read_u32_be(bytes, 0);
        let id = read_u64_be(bytes, 4);
        let timestamp = read_u64_be(bytes, 12);
        let mut previous_block_hash = [0u8; 32];
        copy_from(&mut previous_block_hash, bytes, 20);
        let mut creator = [0u8; 33];
        copy_from(&mut creator, bytes, 52);
        let mut merkle_root = [0u8; 32];
        copy_from(&mut merkle_root, bytes, 85);
        let mut signature = [0u8; 64];
        copy_from(&mut signature, bytes, 117);
        let treasury = read_u64_be(bytes, 181);
        let burnfee = read_u64_be(bytes, 189);
        let difficulty = read_u64_be(bytes, 197);
        let mut transactions: Vec<Transaction> = Vec::new();
        let mut start: usize = 205;
        let mut n: u32 = 0;
        assert(tx_views(transactions@) =~= Seq::<TransactionView>::empty());
        while n < transactions_len
            invariant
                n <= transactions_len,
                transactions_len == announced_txs(bv),
                bv == bytes@,
                len == bv.len(),
                205 <= start <= len,
                parse_txs(bv, 205, n as nat) == Some((tx_views(transactions@), start as int)),
            decreases transactions_len - n,
        {
            if len - start < 12 {
                proof {
                    lemma_parse_txs_stays_none(bv, 205, (n + 1) as nat, announced_txs(bv));
                }
                return None;
            }
            let ghost s = bv.subrange(start as int, len as int);
            let inputs_len = read_u32_be(bytes, start);
            let outputs_len = read_u32_be(bytes, start + 4);
            let message_len = read_u32_be(bytes, start + 8);
            proof {
                assert(s.subrange(0, 4) =~= bv.subrange(start as int, start + 4));
                assert(s.subrange(4, 8) =~= bv.subrange(start + 4, start + 8));
                assert(s.subrange(8, 12) =~= bv.subrange(start + 8, start + 12));
            }
            let slips = match inputs_len.checked_add(outputs_len) {
                None => {
                    proof {
                        lemma_parse_txs_stays_none(bv, 205, (n + 1) as nat, announced_txs(bv));
                    }
                    return None;
                },
                Some(k) => k,
            };
            let rest: u64 = 85 + 75 * (slips as u64) + message_len as u64;
            if rest > (len - start) as u64 {
                proof {
                    lemma_parse_txs_stays_none(bv, 205, (n + 1) as nat, announced_txs(bv));
                }
                return None;
            }
            let end = start + rest as usize;
            let frame = copy_range(bytes, start, end);
            match Transaction::parse_from_net(frame.as_slice()) {
                None => {
                    proof {
                        lemma_parse_txs_stays_none(bv, 205, (n + 1) as nat, announced_txs(bv));
                    }
                    return None;
                },
                Some(t) => {
                    let ghost before = transactions@;
                    transactions.push(t);
                    assert(tx_views(transactions@) =~= tx_views(before).push(t@));
                },
            }
            start = end;
            n = n + 1;
        }
        let core = BlockCore {
            id,
            timestamp,
            previous_block_hash,
            creator,
            merkle_root,
            signature,
            treasury,
            burnfee,
            difficulty,
        };
        let block = Block { core, transactions, hash: [0; 32], total_fees: 0, lc: false };
        assert(block.hash@ =~= zero_hash());
        assert(block.core@ =~= block_core_at(bv));
        Some(block)
    }

    /// Deserialize from bytes to a Block.
    /// [len of transactions - 4 bytes - u32]
    /// [id - 8 bytes - u64]
    /// [timestamp - 8 bytes - u64]
    /// [previous_block_hash - 32 bytes - hash]
    /// [creator - 33 bytes - Secp25k1 pubkey compact format]
    /// [merkle_root - 32 bytes - hash]
    /// [signature - 64 bytes - Secp25k1 sig]
    /// [treasury - 8 bytes - u64]
    /// [burnfee - 8 bytes - u64]
    /// [difficulty - 8 bytes - u64]
    /// [transaction][transaction][transaction]...
    pub fn deserialize_for_net(bytes: Vec<u8>) -> (b: Block)
        requires
            parse_block(bytes@) is Some,
        ensures
            b@ == parse_block(bytes@).unwrap(),
    {
        match Block::parse_from_net(bytes.as_slice()) {
            Some(b) => b,
            None => {
                assert(false);
                Block::new(BlockCore::new(0, 0, [0; 32], [0; 33], [0; 32], [0; 64], 0, 0, 0))
            },
        }
    }

    /// The merkle root over the hashes that the signatures of this block's
    /// transactions cover.
    pub fn generate_merkle_root(&self) -> (root: SaitoHash)
        requires
            self.transactions@.len() > 0,
        ensures
            root@ == merkle_root(signature_hashes(self@.transactions)),
    {
        let ghost hs = signature_hashes(self@.transactions);
        let n = self.transactions.len();
        let mut tx_sig_hashes: Vec<SaitoHash> = Vec::new();
        let mut i: usize = 0;
        while i < n
            invariant
                i <= n,
                n == self.transactions@.len(),
                hs == signature_hashes(self@.transactions),
                tx_sig_hashes@.len() == i,
                forall|k: int| 0 <= k < i ==> #[trigger] tx_sig_hashes@[k]@ == hs[k],
            decreases n - i,
        {
            tx_sig_hashes.push(self.transactions[i].get_hash_for_signature());
            i = i + 1;
        }
        let mut leaf_depth: u64 = 0;
        let mut mrv: Vec<MerkleTreeLayer> = Vec::new();
        let mut i: usize = 0;
        while i < n
            invariant
                i <= n,
                n == hs.len(),
                leaf_depth == 0,
                tx_sig_hashes@.len() == n,
                forall|k: int| 0 <= k < n ==> #[trigger] tx_sig_hashes@[k]@ == hs[k],
                mrv@.len() == i,
                forall|k: int| 0 <= k < i ==> #[trigger] node_pair(mrv@[k]) == leaf_pairs(hs)[k],
            decreases n - i,
        {
            if i + 1 < n {
                mrv.push(MerkleTreeLayer::new(tx_sig_hashes[i], tx_sig_hashes[i + 1], leaf_depth));
            } else {
                let zero: SaitoHash = [0; 32];
                assert(zero@ =~= Seq::new(32, |j: int| 0u8));
                mrv.push(MerkleTreeLayer::new(tx_sig_hashes[i], zero, leaf_depth));
            }
            i = i + 1;
        }
        assert(layer_pairs(mrv@) =~= leaf_pairs(hs));
        loop
            invariant_except_break
                leaf_depth + mrv@.len() <= n,
                root_from(layer_pairs(mrv@)) == merkle_root(hs),
            invariant
                n == hs.len(),
                mrv@.len() >= 1,
            ensures
                mrv@.len() == 1,
                node_hash(mrv@[0].left@, mrv@[0].right@) == merkle_root(hs),
            decreases mrv@.len(),
        {
            leaf_depth = leaf_depth + 1;
            let ghost before = mrv@;
            let ghost ps = layer_pairs(mrv@);
            hash_layer_in_parallel(&mut mrv);
            let ghost hashes = pair_hashes(ps);
            let m = mrv.len();
            proof {
                assert forall|q: int| 0 <= q < m implies #[trigger] mrv@[q].hash@ == hashes[q] by {
                    assert(ps[q] == node_pair(before[q]));
                    assert(mrv@[q].hash@ == node_hash(before[q].left@, before[q].right@));
                }
            }
            let half = m / 2 + m % 2;
            let mut next: Vec<MerkleTreeLayer> = Vec::new();
            let mut k: usize = 0;
            while k < half
                invariant
                    m == mrv@.len(),
                    m >= 1,
                    half == (m + 1) / 2,
                    k <= half,
                    hashes.len() == m,
                    forall|q: int| 0 <= q < m ==> #[trigger] mrv@[q].hash@ == hashes[q],
                    next@.len() == k,
                    forall|q: int| 0 <= q < k ==> #[trigger] node_pair(next@[q]) == pair_up(hashes)[q],
                decreases half - k,
            {
                let i = 2 * k;
                if i + 1 < m {
                    next.push(MerkleTreeLayer::new(mrv[i].get_hash(), mrv[i + 1].get_hash(), leaf_depth));
                } else {
                    let zero: SaitoHash = [0; 32];
                    assert(zero@ =~= Seq::new(32, |j: int| 0u8));
                    next.push(MerkleTreeLayer::new(mrv[i].get_hash(), zero, leaf_depth));
                }
                k = k + 1;
            }
            assert(layer_pairs(next@) =~= pair_up(hashes));
            mrv = next;
            if mrv.len() <= 1 {
                break;
            }
        }
        let mut top = mrv[0];
        top.hash();
        top.get_hash()
    }

    /// Counts the fee and golden ticket transactions and sums the fees of
    /// the others. Where there is a golden ticket, the result holds the
    /// transaction that pays half the fees to the miner and the rest to the
    /// router, with the counts and the last index of each kind; where there
    /// is none, it holds nothing.
    pub fn generate_consensus_data(&self) -> (cv: ConsensusValues)
        requires
            fee_count(self@.transactions) <= u8::MAX,
            golden_count(self@.transactions) <= u8::MAX,
            fees_paid(self@.transactions) <= u64::MAX,
        ensures
            golden_count(self@.transactions) == 0 ==> {
                &&& cv.fee_transaction is None
                &&& cv.ft_num == 0
                &&& cv.ft_idx == usize::MAX
                &&& cv.gt_num == 0
                &&& cv.gt_idx == usize::MAX
            },
            golden_count(self@.transactions) > 0 ==> {
                &&& cv.fee_transaction matches Some(ft) && ft@ == fee_transaction_for(
                    fees_paid(self@.transactions) as u64,
                )
                &&& cv.ft_num == fee_count(self@.transactions)
                &&& cv.ft_idx == last_fee_index(self@.transactions)
                &&& cv.gt_num == golden_count(self@.transactions)
                &&& cv.gt_idx == last_golden_index(self@.transactions)
            },
    {
        let ghost ts = self@.transactions;
        let mut cv = ConsensusValues::new();
        let mut gt_num: u8 = 0;
        let mut ft_num: u8 = 0;
        let mut gt_idx: usize = usize::MAX;
        let mut ft_idx: usize = usize::MAX;
        let mut total_fees: u64 = 0;
        let miner_publickey: SaitoPublicKey = [0; 33];
        let router_publickey: SaitoPublicKey = [0; 33];
        let n = self.transactions.len();
        let mut idx: usize = 0;
        assert(ts.take(0) =~= Seq::<TransactionView>::empty());
        while idx < n
            invariant
                idx <= n,
                n == ts.len(),
                ts == self@.transactions,
                fee_count(ts) <= u8::MAX,
                golden_count(ts) <= u8::MAX,
                fees_paid(ts) <= u64::MAX,
                ft_num == fee_count(ts.take(idx as int)),
                gt_num == golden_count(ts.take(idx as int)),
                ft_idx == last_fee_index(ts.take(idx as int)),
                gt_idx == last_golden_index(ts.take(idx as int)),
                total_fees == fees_paid(ts.take(idx as int)),
            decreases n - idx,
        {
            let transaction = &self.transactions[idx];
            proof {
                assert(ts.take(idx + 1).drop_last() =~= ts.take(idx as int));
                assert(ts[idx as int] == transaction@);
                lemma_counts_prefix(ts, idx + 1);
            }
            if !transaction.is_fee_transaction() {
                total_fees = total_fees + transaction.get_total_fees();
            } else {
                ft_num = ft_num + 1;
                ft_idx = idx;
            }
            if transaction.is_golden_ticket() {
                gt_num = gt_num + 1;
                gt_idx = idx;
            }
            idx = idx + 1;
        }
        assert(ts.take(n as int) =~= ts);
        if gt_num > 0 {
            let mut fee_transaction = Transaction::default();
            fee_transaction.set_transaction_type(TransactionType::Fee);
            let miner_payment = total_fees / 2;
            let router_payment = total_fees - miner_payment;
            let mut input1 = Slip::default();
            input1.set_publickey(miner_publickey);
            input1.set_amount(0);
            input1.set_slip_type(SlipType::MinerInput);
            let mut output1 = Slip::default();
            output1.set_publickey([0; 33]);
            output1.set_amount(miner_payment);
            output1.set_slip_type(SlipType::MinerOutput);
            let mut input2 = Slip::default();
            input2.set_publickey(router_publickey);
            input2.set_amount(0);
            input2.set_slip_type(SlipType::RouterInput);
            let mut output2 = Slip::default();
            output2.set_publickey(router_publickey);
            output2.set_amount(router_payment);
            output2.set_slip_type(SlipType::RouterOutput);
            fee_transaction.add_input(input1);
            fee_transaction.add_output(output1);
            fee_transaction.add_input(input2);
            fee_transaction.add_output(output2);
            proof {
                let zero33 = Seq::new(33, |i: int| 0u8);
                assert(miner_publickey@ =~= zero33);
                assert(router_publickey@ =~= zero33);
                assert(input1@ == payout_slip(SlipType::MinerInput, 0));
                assert(input2@ == payout_slip(SlipType::RouterInput, 0));
                assert(output1@ == payout_slip(SlipType::MinerOutput, miner_payment));
                assert(output2@ == payout_slip(SlipType::RouterOutput, router_payment));
                let expected = fee_transaction_for(total_fees);
                assert(fee_transaction@.core.inputs =~= expected.core.inputs);
                assert(fee_transaction@.core.outputs =~= expected.core.outputs);
                assert(fee_transaction@.core.message =~= expected.core.message);
            }
            cv.fee_transaction = Some(fee_transaction);
            cv.ft_idx = ft_idx;
            cv.ft_num = ft_num;
            cv.gt_idx = gt_idx;
            cv.gt_num = gt_num;
        }
        cv
    }

    /// Works out, for each transaction, the hash that its signature covers,
    /// its fee, and the fees of the block up to and including it; records
    /// the sum of all fees as the block's.
    pub fn pre_validation_calculations(&mut self) -> (b: bool)
        requires
            forall|k: int|
                0 <= k < old(self)@.transactions.len() ==> amount_sum(
                    #[trigger] old(self)@.transactions[k].core.inputs,
                ) <= u64::MAX && amount_sum(old(self)@.transactions[k].core.outputs) <= u64::MAX,
            fee_total(old(self)@.transactions) <= u64::MAX,
        ensures
            b,
            final(self).core == old(self).core,
            final(self).hash == old(self).hash,
            final(self).lc == old(self).lc,
            final(self)@.transactions.len() == old(self)@.transactions.len(),
            forall|k: int|
                0 <= k < old(self)@.transactions.len() ==> #[trigger] final(self)@.transactions[k]
                    == prepared_in_block(old(self)@.transactions, k),
            final(self).total_fees == fee_total(old(self)@.transactions),
    {
        let ghost ts = self@.transactions;
        proof {
            assert forall|k: int| 0 <= k < self.transactions@.len() implies amount_sum(
                #[trigger] self.transactions@[k]@.core.inputs,
            ) <= u64::MAX && amount_sum(self.transactions@[k]@.core.outputs) <= u64::MAX by {
                assert(ts[k] == self.transactions@[k]@);
            }
        }
        prepare_in_parallel(&mut self.transactions);
        let n = self.transactions.len();
        let mut cumulative_fees: u64 = 0;
        let mut i: usize = 0;
        assert(ts.take(0) =~= Seq::<TransactionView>::empty());
        while i < n
            invariant
                i <= n,
                n == ts.len(),
                n == self.transactions@.len(),
                fee_total(ts) <= u64::MAX,
                self.core == old(self).core,
                self.hash == old(self).hash,
                self.lc == old(self).lc,
                ts == old(self)@.transactions,
                cumulative_fees == fee_total(ts.take(i as int)),
                forall|k: int| 0 <= k < i ==> #[trigger] self@.transactions[k] == prepared_in_block(ts, k),
                forall|k: int| i <= k < n ==> #[trigger] self@.transactions[k] == prepared(ts[k]),
            decreases n - i,
        {
            let ghost before = self.transactions@;
            let ghost before_v = self@.transactions;
            proof {
                assert(self@.transactions[i as int] == prepared(ts[i as int]));
                assert(self@.transactions[i as int] == before[i as int]@);
                assert(ts.take(i + 1).drop_last() =~= ts.take(i as int));
                assert(ts.take(i + 1).last() == ts[i as int]);
                lemma_fee_total_prefix(ts, i + 1);
            }
            cumulative_fees = self.transactions[i].pre_validation_calculations_cumulative_fees(cumulative_fees);
            proof {
                assert(self@.transactions[i as int] == prepared_in_block(ts, i as int));
                assert forall|k: int| 0 <= k < n && k != i implies #[trigger] self@.transactions[k]
                    == before_v[k] by {
                    assert(self.transactions@[k] == before[k]);
                    assert(before_v[k] == before[k]@);
                }
                assert forall|k: int| 0 <= k < i + 1 implies #[trigger] self@.transactions[k]
                    == prepared_in_block(ts, k) by {
                    if k < i {
                        assert(before_v[k] == prepared_in_block(ts, k));
                    }
                }
                assert forall|k: int| i + 1 <= k < n implies #[trigger] self@.transactions[k]
                    == prepared(ts[k]) by {
                    assert(before_v[k] == prepared(ts[k]));
                }
            }
            i = i + 1;
        }
        assert(ts.take(n as int) =~= ts);
        let ghost prepared_txs = self@.transactions;
        self.total_fees = cumulative_fees;
        assert(self@.transactions == prepared_txs);
        true
    }

    /// Whether the block holds up: where the burn fee that the previous
    /// block calls for is given, the block's burn fee is that fee, and the
    /// merkle root is not zero and is the one over the block's transactions.
    pub fn validate(&self, expected_burnfee: Option<u64>) -> (valid: bool)
        requires
            (expected_burnfee is None || expected_burnfee == Some(self.core.burnfee))
                && self.core.merkle_root@ != zero_hash() ==> self.transactions@.len() > 0,
        ensures
            valid == {
                &&& (expected_burnfee is None || expected_burnfee == Some(self.core.burnfee))
                &&& self.core.merkle_root@ != zero_hash()
                &&& self.core.merkle_root@ == merkle_root(signature_hashes(self@.transactions))
            },
    {
        match expected_burnfee {
            Some(new_burnfee) => {
                if new_burnfee != self.core.burnfee {
                    return false;
                }
            },
            None => {},
        }
        let zero: SaitoHash = [0; 32];
        assert(zero@ =~= zero_hash());
        if bytes_equal(&self.core.merkle_root, &zero) {
            return false;
        }
        let root = self.generate_merkle_root();
        if !bytes_equal(&self.core.merkle_root, &root) {
            return false;
        }
        true
    }

    pub fn get_transactions(&self) -> (txs: &Vec<Transaction>)
        ensures
            txs == &self.transactions,
    {
        &self.transactions
    }

    pub fn get_hash(&self) -> (h: SaitoHash)
        ensures
            h == self.hash,
    {
        self.hash
    }

    pub fn get_lc(&self) -> (lc: bool)
        ensures
            lc == self.lc,
    {
        self.lc
    }

    pub fn get_id(&self) -> (id: u64)
        ensures
            id == self.core.id,
    {
        self.core.id
    }

    pub fn get_timestamp(&self) -> (ts: u64)
        ensures
            ts == self.core.timestamp,
    {
        self.core.timestamp
    }

    pub fn get_previous_block_hash(&self) -> (h: SaitoHash)
        ensures
            h == self.core.previous_block_hash,
    {
        self.core.previous_block_hash
    }

    pub fn get_creator(&self) -> (k: SaitoPublicKey)
        ensures
            k == self.core.creator,
    {
        self.core.creator
    }

    pub fn get_merkle_root(&self) -> (h: SaitoHash)
        ensures
            h == self.core.merkle_root,
    {
        self.core.merkle_root
    }

    pub fn get_signature(&self) -> (s: SaitoSignature)
        ensures
            s == self.core.signature,
    {
        self.core.signature
    }

    pub fn get_treasury(&self) -> (t: u64)
        ensures
            t == self.core.treasury,
    {
        self.core.treasury
    }

    pub fn get_burnfee(&self) -> (f: u64)
        ensures
            f == self.core.burnfee,
    {
        self.core.burnfee
    }

    pub fn get_difficulty(&self) -> (d: u64)
        ensures
            d == self.core.difficulty,
    {
        self.core.difficulty
    }

    /// Replaces the transactions of this block with copies of `transactions`,
    /// which it leaves as they were.
    pub fn set_transactions(&mut self, transactions: &mut Vec<Transaction>)
        ensures
            final(self)@ == (BlockView { transactions: tx_views(old(transactions)@), ..old(self)@ }),
            *final(transactions) == *old(transactions),
    {
        let n = transactions.len();
        let mut copies: Vec<Transaction> = Vec::new();
        let mut i: usize = 0;
        while i < n
            invariant
                i <= n,
                n == transactions@.len(),
                *transactions == *old(transactions),
                copies@.len() == i,
                forall|k: int| 0 <= k < i ==> #[trigger] copies@[k]@ == transactions@[k]@,
            decreases n - i,
        {
            copies.push(transactions[i].clone());
            i = i + 1;
        }
        assert(tx_views(copies@) =~= tx_views(transactions@));
        self.transactions = copies;
    }

    pub fn set_id(&mut self, id: u64)
        ensures
            final(self)@ == (BlockView { core: BlockCoreView { id, ..old(self)@.core }, ..old(self)@ }),
    {
        self.core.id = id;
    }

    pub fn set_lc(&mut self, lc: bool)
        ensures
            final(self)@ == (BlockView { lc, ..old(self)@ }),
    {
        self.lc = lc;
    }

    pub fn set_timestamp(&mut self, timestamp: u64)
        ensures
            final(self)@ == (BlockView {
                core: BlockCoreView { timestamp, ..old(self)@.core },
                ..old(self)@
            }),
    {
        self.core.timestamp = timestamp;
    }

    pub fn set_previous_block_hash(&mut self, previous_block_hash: SaitoHash)
        ensures
            final(self)@ == (BlockView {
                core: BlockCoreView { previous_block_hash: previous_block_hash@, ..old(self)@.core },
                ..old(self)@
            }),
    {
        self.core.previous_block_hash = previous_block_hash;
    }

    pub fn set_creator(&mut self, creator: SaitoPublicKey)
        ensures
            final(self)@ == (BlockView {
                core: BlockCoreView { creator: creator@, ..old(self)@.core },
                ..old(self)@
            }),
    {
        self.core.creator = creator;
    }

    pub fn set_merkle_root(&mut self, merkle_root: SaitoHash)
        ensures
            final(self)@ == (BlockView {
                core: BlockCoreView { merkle_root: merkle_root@, ..old(self)@.core },
                ..old(self)@
            }),
    {
        self.core.merkle_root = merkle_root;
    }

    /// Leaves the block as it is: the signature is not generated here.
    pub fn set_signature(&mut self)
        ensures
            *final(self) == *old(self),
    {
    }

    pub fn set_treasury(&mut self, treasury: u64)
        ensures
            final(self)@ == (BlockView {
                core: BlockCoreView { treasury, ..old(self)@.core },
                ..old(self)@
            }),
    {
        self.core.treasury = treasury;
    }

    pub fn set_burnfee(&mut self, burnfee: u64)
        ensures
            final(self)@ == (BlockView {
                core: BlockCoreView { burnfee, ..old(self)@.core },
                ..old(self)@
            }),
    {
        self.core.burnfee = burnfee;
    }

    pub fn set_difficulty(&mut self, difficulty: u64)
        ensures
            final(self)@ == (BlockView {
                core: BlockCoreView { difficulty, ..old(self)@.core },
                ..old(self)@
            }),
    {
        self.core.difficulty = difficulty;
    }

    pub fn set_hash(&mut self, hash: SaitoHash)
        ensures
            final(self)@ == (BlockView { hash: hash@, ..old(self)@ }),
    {
        self.hash = hash;
    }

    /// Appends `tx` to the transactions of this block.
    pub fn add_transaction(&mut self, tx: Transaction)
        ensures
            final(self)@ == (BlockView {
                transactions: old(self)@.transactions.push(tx@),
                ..old(self)@
            }),
    {
        self.transactions.push(tx);
        assert(tx_views(self.transactions@) =~= tx_views(old(self).transactions@).push(tx@));
    }
}

/// The fees paid by a prefix of a block's transactions stay within those
/// paid by all of them.
pub proof fn lemma_fee_total_prefix(ts: Seq<TransactionView>, i: int)
    requires
        0 <= i <= ts.len(),
    ensures
        0 <= fee_total(ts.take(i)) <= fee_total(ts),
    decreases ts.len(),
{
    if i < ts.len() {
        assert(ts.drop_last().take(i) =~= ts.take(i));
        lemma_fee_total_prefix(ts.drop_last(), i);
        assert(tx_fee(ts.last().core) >= 0);
    } else {
        assert(ts.take(i) =~= ts);
        lemma_fee_total_nonneg(ts);
    }
}

/// The fees paid by transactions add up to at least 0.
pub proof fn lemma_fee_total_nonneg(ts: Seq<TransactionView>)
    ensures
        fee_total(ts) >= 0,
    decreases ts.len(),
{
    if ts.len() > 0 {
        lemma_fee_total_nonneg(ts.drop_last());
    }
}

/// The counts and sums over a prefix of a block's transactions stay
/// within those over all of them.
pub proof fn lemma_counts_prefix(ts: Seq<TransactionView>, i: int)
    requires
        0 <= i <= ts.len(),
    ensures
        fee_count(ts.take(i)) <= fee_count(ts),
        golden_count(ts.take(i)) <= golden_count(ts),
        0 <= fees_paid(ts.take(i)) <= fees_paid(ts),
    decreases ts.len(),
{
    if i < ts.len() {
        assert(ts.drop_last().take(i) =~= ts.take(i));
        lemma_counts_prefix(ts.drop_last(), i);
    } else {
        assert(ts.take(i) =~= ts);
        lemma_fees_paid_nonneg(ts);
    }
}

/// The fees recorded by transactions add up to at least 0.
pub proof fn lemma_fees_paid_nonneg(ts: Seq<TransactionView>)
    ensures
        fees_paid(ts) >= 0,
    decreases ts.len(),
{
    if ts.len() > 0 {
        lemma_fees_paid_nonneg(ts.drop_last());
    }
}

/// Once a transaction of a block is missing, every later one is too.
pub proof fn lemma_parse_txs_stays_none(b: Seq<u8>, p: int, n: nat, m: nat)
    requires
        parse_txs(b, p, n) is None,
        n <= m,
    ensures
        parse_txs(b, p, m) is None,
    decreases m,
{
    if m > n {
        lemma_parse_txs_stays_none(b, p, n, (m - 1) as nat);
    }
}

/// A transaction written at `q` is framed by its header and read back.
pub proof fn lemma_frame_at(b: Seq<u8>, q: int, t: TransactionCoreView)
    requires
        0 <= q,
        tx_core_wf(t),
        q + tx_bytes(t).len() <= b.len(),
        b.subrange(q, q + tx_bytes(t).len()) == tx_bytes(t),
    ensures
        frame_end(b, q) == Some(q + tx_bytes(t).len()),
        parse_tx_ok(b.subrange(q, q + tx_bytes(t).len())),
        parse_tx(b.subrange(q, q + tx_bytes(t).len())) == t,
{
    let lb = tx_bytes(t);
    let fr = b.subrange(q, q + lb.len());
    let s = b.subrange(q, b.len() as int);
    assert(s.subrange(0, lb.len() as int) == lb) by {
        assert(s.subrange(0, lb.len() as int) =~= fr);
    }
    lemma_tx_roundtrip(t, s);
    assert(fr.subrange(0, lb.len() as int) =~= fr);
    lemma_tx_roundtrip(t, fr);
}

/// Transactions written one after another are read back one after another,
/// each as the transaction that its wire fields stand for.
pub proof fn lemma_parse_txs_bytes(b: Seq<u8>, p: int, ts: Seq<TransactionView>)
    requires
        0 <= p,
        forall|k: int| 0 <= k < ts.len() ==> #[trigger] tx_core_wf(ts[k].core),
        p + txs_bytes(ts).len() <= b.len(),
        b.subrange(p, p + txs_bytes(ts).len()) == txs_bytes(ts),
    ensures
        parse_txs(b, p, ts.len()) == Some((fresh_all(ts), p + txs_bytes(ts).len())),
    decreases ts.len(),
{
    if ts.len() == 0 {
        assert(fresh_all(ts) =~= Seq::<TransactionView>::empty());
    } else {
        let init = ts.drop_last();
        let last = ts.last();
        let ib = txs_bytes(init);
        let lb = tx_bytes(last.core);
        let q = p + ib.len();
        let whole = b.subrange(p, p + txs_bytes(ts).len());
        assert(whole == ib + lb);
        assert forall|k: int| 0 <= k < init.len() implies #[trigger] tx_core_wf(init[k].core) by {
            assert(tx_core_wf(ts[k].core));
        }
        assert(b.subrange(p, q) == ib) by {
            assert(b.subrange(p, q) =~= whole.subrange(0, ib.len() as int));
            assert(whole.subrange(0, ib.len() as int) =~= ib);
        }
        lemma_parse_txs_bytes(b, p, init);
        assert(tx_core_wf(ts[ts.len() - 1].core));
        let fr = b.subrange(q, q + lb.len());
        assert(fr == lb) by {
            assert(fr =~= whole.subrange(ib.len() as int, (ib.len() + lb.len()) as int));
            assert(whole.subrange(ib.len() as int, (ib.len() + lb.len()) as int) =~= lb);
        }
        lemma_frame_at(b, q, last.core);
        assert(parse_txs(b, p, (ts.len() - 1) as nat) == Some((fresh_all(init), q)));
        assert(fresh_all(ts) =~= fresh_all(init).push(fresh_transaction(last.core)));
    }
}

/// The wire bytes of a block read back as the block: its consensus fields
/// and the wire fields of its transactions come back, with nothing worked
/// out about them.
pub proof fn lemma_block_roundtrip(b: BlockView)
    requires
        block_wire_ok(b),
    ensures
        parse_block(block_bytes(b)) == Some(wire_image(b)),
{
    let n = b.transactions.len();
    let bytes = block_bytes(b);
    let pre = block_preimage(b.core);
    let tb = txs_bytes(b.transactions);
    lemma_u32_be_roundtrip(n as u32);
    lemma_u64_be_roundtrip(b.core.id);
    lemma_u64_be_roundtrip(b.core.timestamp);
    lemma_u64_be_roundtrip(b.core.treasury);
    lemma_u64_be_roundtrip(b.core.burnfee);
    lemma_u64_be_roundtrip(b.core.difficulty);
    assert(pre.len() == 201);
    assert(bytes.len() == 205 + tb.len());
    assert(bytes.subrange(0, 4) =~= u32_be(n as u32));
    assert(announced_txs(bytes) == n);
    assert(bytes.subrange(4, 12) =~= u64_be(b.core.id));
    assert(bytes.subrange(12, 20) =~= u64_be(b.core.timestamp));
    assert(bytes.subrange(181, 189) =~= u64_be(b.core.treasury));
    assert(bytes.subrange(189, 197) =~= u64_be(b.core.burnfee));
    assert(bytes.subrange(197, 205) =~= u64_be(b.core.difficulty));
    assert(bytes.subrange(20, 52) =~= b.core.previous_block_hash);
    assert(bytes.subrange(52, 85) =~= b.core.creator);
    assert(bytes.subrange(85, 117) =~= b.core.merkle_root);
    assert(bytes.subrange(117, 181) =~= b.core.signature);
    assert(block_core_at(bytes) == b.core);
    assert(bytes.subrange(205, (205 + tb.len()) as int) =~= tb);
    lemma_parse_txs_bytes(bytes, 205, b.transactions);
    assert(parse_block(bytes).unwrap() =~= wire_image(b));
}

/// The fee transaction pays out exactly the fees it is made for: its
/// outputs add up to them, half (rounded down) to the miner, and its inputs
/// add up to nothing.
pub proof fn lemma_fee_payout_conserves_fees(total: u64)
    ensures
        amount_sum(fee_transaction_for(total).core.outputs) == total,
        fee_transaction_for(total).core.outputs[0].amount == total / 2,
        amount_sum(fee_transaction_for(total).core.inputs) == 0,
{
    let t = fee_transaction_for(total);
    let outs = t.core.outputs;
    let ins = t.core.inputs;
    assert(outs.drop_last().drop_last() =~= Seq::<SlipView>::empty());
    assert(ins.drop_last().drop_last() =~= Seq::<SlipView>::empty());
    let o1 = outs.drop_last();
    assert(o1.last() == outs[0]);
    assert(amount_sum(o1.drop_last()) == 0);
    assert(amount_sum(o1) == total / 2);
    let i1 = ins.drop_last();
    assert(amount_sum(i1.drop_last()) == 0);
    assert(amount_sum(i1) == 0);
}

/// After validation has worked out the fees, the cumulative fee recorded by
/// the last transaction of a block is the fee of the whole block.
pub proof fn lemma_last_cumulative_fee_is_total(ts: Seq<TransactionView>)
    requires
        ts.len() > 0,
        fee_total(ts) <= u64::MAX,
    ensures
        prepared_in_block(ts, ts.len() - 1).cumulative_fees == fee_total(ts),
{
    assert(ts.take(ts.len() - 1 + 1) =~= ts);
    lemma_fee_total_nonneg(ts);
}

/// Bytes after a transaction's frame do not change where it ends.
pub proof fn lemma_frame_end_extend(b: Seq<u8>, extra: Seq<u8>, q: int)
    requires
        0 <= q,
        frame_end(b, q) is Some,
    ensures
        frame_end(b + extra, q) == frame_end(b, q),
        q + 85 <= frame_end(b, q).unwrap() <= b.len(),
{
    let b2 = b + extra;
    assert(q + 12 <= b.len());
    let s = b.subrange(q, b.len() as int);
    let s2 = b2.subrange(q, b2.len() as int);
    assert(s2.subrange(0, 4) =~= s.subrange(0, 4));
    assert(s2.subrange(4, 8) =~= s.subrange(4, 8));
    assert(s2.subrange(8, 12) =~= s.subrange(8, 12));
}

/// Transactions read from `b` are read the same from `b` with bytes
/// appended.
pub proof fn lemma_parse_txs_extend(b: Seq<u8>, extra: Seq<u8>, p: int, n: nat)
    requires
        0 <= p,
        parse_txs(b, p, n) is Some,
    ensures
        parse_txs(b + extra, p, n) == parse_txs(b, p, n),
        p <= parse_txs(b, p, n).unwrap().1,
    decreases n,
{
    if n > 0 {
        lemma_parse_txs_extend(b, extra, p, (n - 1) as nat);
        let q = parse_txs(b, p, (n - 1) as nat).unwrap().1;
        lemma_frame_end_extend(b, extra, q);
        let e = frame_end(b, q).unwrap();
        assert((b + extra).subrange(q, e) =~= b.subrange(q, e));
    }
}

/// Bytes after the last transaction that a block announces are left alone:
/// appending any bytes to a block's wire bytes reads back the same block.
pub proof fn lemma_parse_block_ignores_trailing_bytes(b: Seq<u8>, extra: Seq<u8>)
    requires
        parse_block(b) is Some,
    ensures
        parse_block(b + extra) == parse_block(b),
{
    let b2 = b + extra;
    assert(b2.subrange(0, 4) =~= b.subrange(0, 4));
    assert(b2.subrange(4, 205) =~= b.subrange(4, 205));
    assert(block_core_at(b2) == block_core_at(b)) by {
        assert(b2.subrange(4, 12) =~= b.subrange(4, 12));
        assert(b2.subrange(12, 20) =~= b.subrange(12, 20));
        assert(b2.subrange(20, 52) =~= b.subrange(20, 52));
        assert(b2.subrange(52, 85) =~= b.subrange(52, 85));
        assert(b2.subrange(85, 117) =~= b.subrange(85, 117));
        assert(b2.subrange(117, 181) =~= b.subrange(117, 181));
        assert(b2.subrange(181, 189) =~= b.subrange(181, 189));
        assert(b2.subrange(189, 197) =~= b.subrange(189, 197));
        assert(b2.subrange(197, 205) =~= b.subrange(197, 205));
    }
    lemma_parse_txs_extend(b, extra, 205, announced_txs(b));
}

/// A block that carries nothing beyond its wire fields reads back from its
/// wire bytes as itself.
pub proof fn lemma_fresh_block_roundtrip(b: BlockView)
    requires
        block_wire_ok(b),
        b == wire_image(b),
    ensures
        parse_block(block_bytes(b)) == Some(b),
{
    lemma_block_roundtrip(b);
}

/// Adding a fee transaction to a block that holds a golden ticket adds one
/// to the fee count and makes it the last fee transaction, and leaves the
/// golden ticket count, its last index and the fee payout as they were:
/// the fees of fee transactions are not paid out.
pub proof fn lemma_consensus_after_fee_transaction(ts: Seq<TransactionView>, f: TransactionView)
    requires
        golden_count(ts) > 0,
        is_fee(f),
        !is_golden(f),
    ensures
        fee_count(ts.push(f)) == fee_count(ts) + 1,
        last_fee_index(ts.push(f)) == ts.len(),
        golden_count(ts.push(f)) == golden_count(ts),
        golden_count(ts.push(f)) > 0,
        last_golden_index(ts.push(f)) == last_golden_index(ts),
        fees_paid(ts.push(f)) == fees_paid(ts),
        fee_transaction_for(fees_paid(ts.push(f)) as u64) == fee_transaction_for(
            fees_paid(ts) as u64,
        ),
{
    assert(ts.push(f).drop_last() =~= ts);
}

/// The merkle root of a block is taken over the signature hashes of all
/// of its transactions, in block order: one hash per transaction, the
/// `k`-th being that of the `k`-th transaction.
pub proof fn lemma_signature_hashes_cover_all(ts: Seq<TransactionView>)
    ensures
        signature_hashes(ts).len() == ts.len(),
        forall|k: int|
            0 <= k < ts.len() ==> #[trigger] signature_hashes(ts)[k] == ts[k].hash_for_signature,
{
}

/// The bottom layer of the merkle tree holds one node per hash: the `k`-th
/// node stands over the `k`-th hash and the one after it, the last over the
/// last hash and 32 zero bytes.
pub proof fn lemma_leaf_pairs_cover_all(hs: Seq<Seq<u8>>)
    ensures
        leaf_pairs(hs).len() == hs.len(),
        forall|k: int| 0 <= k < hs.len() ==> (#[trigger] leaf_pairs(hs)[k]).0 == hs[k],
        forall|k: int| 0 <= k < hs.len() - 1 ==> (#[trigger] leaf_pairs(hs)[k]).1 == hs[k + 1],
        hs.len() > 0 ==> leaf_pairs(hs)[hs.len() - 1].1 == Seq::new(32, |i: int| 0u8),
{
}

/// The fees paid out for a block add up over its transactions, wherever
/// the golden ticket stands: those of two runs of transactions one after
/// the other are the fees of each run added.
pub proof fn lemma_fees_paid_append(a: Seq<TransactionView>, b: Seq<TransactionView>)
    ensures
        fees_paid(a + b) == fees_paid(a) + fees_paid(b),
    decreases b.len(),
{
    if b.len() == 0 {
        assert(a + b =~= a);
    } else {
        lemma_fees_paid_append(a, b.drop_last());
        assert((a + b).drop_last() =~= a + b.drop_last());
        assert((a + b).last() == b.last());
    }
}

/// Putting a transaction in front of others adds its fee to what is paid
/// out, unless it is a fee transaction.
pub proof fn lemma_fees_paid_prepend(t: TransactionView, ts: Seq<TransactionView>)
    ensures
        fees_paid(seq![t] + ts) == fees_paid(ts) + if is_fee(t) {
            0
        } else {
            t.total_fees as int
        },
{
    lemma_fees_paid_append(seq![t], ts);
    let one = seq![t];
    assert(one.drop_last() =~= Seq::<TransactionView>::empty());
    assert(one.last() == t);
    assert(fees_paid(Seq::<TransactionView>::empty()) == 0);
    assert(fees_paid(one) == if is_fee(t) {
        0
    } else {
        t.total_fees as int
    });
}

/// The bytes that a block's hash covers hold every consensus field whole,
/// at fixed places: each integer reads back from its 8 big-endian bytes and
/// each key or hash is there byte for byte. So blocks whose consensus fields
/// differ anywhere have different hash preimages.
pub proof fn lemma_block_preimage_fields(c: BlockCoreView)
    requires
        block_core_wf(c),
    ensures
        block_preimage(c).len() == 201,
        u64_from_be(block_preimage(c).subrange(0, 8)) == c.id,
        u64_from_be(block_preimage(c).subrange(8, 16)) == c.timestamp,
        block_preimage(c).subrange(16, 48) == c.previous_block_hash,
        block_preimage(c).subrange(48, 81) == c.creator,
        block_preimage(c).subrange(81, 113) == c.merkle_root,
        block_preimage(c).subrange(113, 177) == c.signature,
        u64_from_be(block_preimage(c).subrange(177, 185)) == c.treasury,
        u64_from_be(block_preimage(c).subrange(185, 193)) == c.burnfee,
        u64_from_be(block_preimage(c).subrange(193, 201)) == c.difficulty,
{
    let pre = block_preimage(c);
    lemma_u64_be_roundtrip(c.id);
    lemma_u64_be_roundtrip(c.timestamp);
    lemma_u64_be_roundtrip(c.treasury);
    lemma_u64_be_roundtrip(c.burnfee);
    lemma_u64_be_roundtrip(c.difficulty);
    assert(pre.subrange(0, 8) =~= u64_be(c.id));
    assert(pre.subrange(8, 16) =~= u64_be(c.timestamp));
    assert(pre.subrange(16, 48) =~= c.previous_block_hash);
    assert(pre.subrange(48, 81) =~= c.creator);
    assert(pre.subrange(81, 113) =~= c.merkle_root);
    assert(pre.subrange(113, 177) =~= c.signature);
    assert(pre.subrange(177, 185) =~= u64_be(c.treasury));
    assert(pre.subrange(185, 193) =~= u64_be(c.burnfee));
    assert(pre.subrange(193, 201) =~= u64_be(c.difficulty));
}

/// Two blocks whose hash preimages are equal have the same consensus
/// fields.
pub proof fn lemma_block_preimage_injective(c1: BlockCoreView, c2: BlockCoreView)
    requires
        block_core_wf(c1),
        block_core_wf(c2),
        block_preimage(c1) == block_preimage(c2),
    ensures
        c1 == c2,
{
    lemma_block_preimage_fields(c1);
    lemma_block_preimage_fields(c2);
}

/// The wire bytes of a block carry, after the transaction count, exactly
/// the bytes that its hash covers.
pub proof fn lemma_block_bytes_hold_preimage(b: BlockView)
    requires
        block_core_wf(b.core),
    ensures
        block_bytes(b).subrange(4, 205) == block_preimage(b.core),
        u32_from_be(block_bytes(b).subrange(0, 4)) == b.transactions.len() as u32,
{
    let head = u32_be(b.transactions.len() as u32);
    let pre = block_preimage(b.core);
    let rest = txs_bytes(b.transactions);
    lemma_u32_be_roundtrip(b.transactions.len() as u32);
    assert(pre.len() == 201) by {
        lemma_block_preimage_fields(b.core);
    }
    assert(block_bytes(b) == head + pre + rest);
    assert((head + pre + rest).subrange(4, 205) =~= pre);
    assert((head + pre + rest).subrange(0, 4) =~= head);
}

/// The wire bytes of transactions one run after another are those of each
/// run, in order.
pub proof fn lemma_txs_bytes_append(a: Seq<TransactionView>, b: Seq<TransactionView>)
    ensures
        txs_bytes(a + b) == txs_bytes(a) + txs_bytes(b),
    decreases b.len(),
{
    if b.len() == 0 {
        assert(a + b =~= a);
        assert(txs_bytes(a) + txs_bytes(b) =~= txs_bytes(a));
    } else {
        lemma_txs_bytes_append(a, b.drop_last());
        assert((a + b).drop_last() =~= a + b.drop_last());
        assert((a + b).last() == b.last());
        assert(txs_bytes(a + b) =~= txs_bytes(a) + txs_bytes(b));
    }
}

/// In a block's wire bytes the transactions stand in block order: the bytes
/// of the `k`-th transaction come right after those of the ones before it.
pub proof fn lemma_txs_bytes_in_order(ts: Seq<TransactionView>, k: int)
    requires
        0 <= k < ts.len(),
    ensures
        txs_bytes(ts.take(k + 1)) == txs_bytes(ts.take(k)) + tx_bytes(ts[k].core),
        txs_bytes(ts) == txs_bytes(ts.take(k)) + tx_bytes(ts[k].core) + txs_bytes(ts.skip(k + 1)),
{
    assert(ts.take(k + 1) =~= ts.take(k) + seq![ts[k]]);
    lemma_txs_bytes_append(ts.take(k), seq![ts[k]]);
    let one = seq![ts[k]];
    assert(one.drop_last() =~= Seq::<TransactionView>::empty());
    assert(one.last() == ts[k]);
    assert(txs_bytes(Seq::<TransactionView>::empty()) == Seq::<u8>::empty());
    assert(txs_bytes(one) =~= tx_bytes(ts[k].core));
    assert(ts =~= ts.take(k + 1) + ts.skip(k + 1));
    lemma_txs_bytes_append(ts.take(k + 1), ts.skip(k + 1));
}

impl Default for Block {
    /// A block around the default consensus fields.
    fn default() -> (b: Block)
        ensures
            b.core.id == 0,
            b.core.previous_block_hash@ == zero_hash(),
            b.core.creator@ == Seq::new(33, |i: int| 0u8),
            b.core.merkle_root@ == zero_hash(),
            b.core.signature@ == Seq::new(64, |i: int| 0u8),
            b.core.treasury == 0,
            b.core.burnfee == 0,
            b.core.difficulty == 0,
            b@.transactions.len() == 0,
            b@.hash == zero_hash(),
            b.total_fees == 0,
            !b.lc,
    {
        Self::new(BlockCore::default())
    }
}

} // verus!
