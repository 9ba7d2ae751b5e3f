//! Transactions: their wire format, the hash that their signature covers,
//! and the fees that they carry.
use crate::bytes::{
    lemma_u32_be_roundtrip, lemma_u64_be_roundtrip, push_bytes, push_u32_be, push_u64_be,
    read_u32_be, read_u64_be, u32_be, u32_from_be, u64_be, u64_from_be, copy_from, copy_range,
};
use crate::crypto::{blake3_digest, hash, SaitoHash, SaitoSignature};
use crate::slip::{
    lemma_slip_roundtrip, slip_at, slip_at_ok, slip_bytes, slip_view_wf, Slip, SlipView, SLIP_SIZE,
};
use rayon::iter::{IntoParallelRefMutIterator, ParallelIterator};
use vstd::prelude::*;

verus! {

/// The number of bytes of a transaction's fixed header on the wire:
/// input count (4) + output count (4) + message length (4) + signature (64)
/// + timestamp (8) + type (1).
pub const TRANSACTION_SIZE: usize = 85;

/// What a transaction does.
#[derive(Clone, Copy, Debug, PartialEq, Eq, Structural)]
pub enum TransactionType {
    Normal,
    Fee,
    GoldenTicket,
    Other,
}

/// The byte that stands for a transaction type on the wire.
pub open spec fn tx_type_byte(t: TransactionType) -> u8 {
    match t {
        TransactionType::Normal => 0,
        TransactionType::Fee => 1,
        TransactionType::GoldenTicket => 2,
        TransactionType::Other => 3,
    }
}

/// The transaction type that a byte stands for, if any.
pub open spec fn tx_type_from_byte(b: u8) -> Option<TransactionType> {
    if b == 0 {
        Some(TransactionType::Normal)
    } else if b == 1 {
        Some(TransactionType::Fee)
    } else if b == 2 {
        Some(TransactionType::GoldenTicket)
    } else if b == 3 {
        Some(TransactionType::Other)
    } else {
        None
    }
}

impl TransactionType {
    /// The byte that stands for this type on the wire.
    pub fn to_byte(&self) -> (b: u8)
        ensures
            b == tx_type_byte(*self),
    {
        match self {
            TransactionType::Normal => 0,
            TransactionType::Fee => 1,
            TransactionType::GoldenTicket => 2,
            TransactionType::Other => 3,
        }
    }

    /// The type that `b` stands for, or `None` where no type does.
    pub fn from_byte(b: u8) -> (t: Option<TransactionType>)
        ensures
            t == tx_type_from_byte(b),
    {
        if b == 0 {
            Some(TransactionType::Normal)
        } else if b == 1 {
            Some(TransactionType::Fee)
        } else if b == 2 {
            Some(TransactionType::GoldenTicket)
        } else if b == 3 {
            Some(TransactionType::Other)
        } else {
            None
        }
    }
}

/// The fields of a transaction that go on the wire.
#[derive(Debug, PartialEq, Eq)]
pub struct TransactionCore {
    pub timestamp: u64,
    pub inputs: Vec<Slip>,
    pub outputs: Vec<Slip>,
    pub message: Vec<u8>,
    pub transaction_type: TransactionType,
    pub signature: SaitoSignature,
}

/// The wire fields of a transaction as a mathematical value.
pub struct TransactionCoreView {
    pub timestamp: u64,
    pub inputs: Seq<SlipView>,
    pub outputs: Seq<SlipView>,
    pub message: Seq<u8>,
    pub transaction_type: TransactionType,
    pub signature: Seq<u8>,
}

/// The views of a sequence of slips.
pub open spec fn slip_views(ss: Seq<Slip>) -> Seq<SlipView> {
    ss.map_values(|s: Slip| s@)
}

impl View for TransactionCore {
    type V = TransactionCoreView;

    open spec fn view(&self) -> TransactionCoreView {
        TransactionCoreView {
            timestamp: self.timestamp,
            inputs: slip_views(self.inputs@),
            outputs: slip_views(self.outputs@),
            message: self.message@,
            transaction_type: self.transaction_type,
            signature: self.signature@,
        }
    }
}

/// A transaction, with what validation works out about it.
#[derive(Debug, PartialEq, Eq)]
pub struct Transaction {
    pub core: TransactionCore,
    pub hash_for_signature: SaitoHash,
    pub total_fees: u64,
    pub cumulative_fees: u64,
}

/// A transaction as a mathematical value.
pub struct TransactionView {
    pub core: TransactionCoreView,
    pub hash_for_signature: Seq<u8>,
    pub total_fees: u64,
    pub cumulative_fees: u64,
}

impl View for Transaction {
    type V = TransactionView;

    open spec fn view(&self) -> TransactionView {
        TransactionView {
            core: self.core@,
            hash_for_signature: self.hash_for_signature@,
            total_fees: self.total_fees,
            cumulative_fees: self.cumulative_fees,
        }
    }
}

/// 32 zero bytes.
pub open spec fn zero_hash() -> Seq<u8> {
    Seq::new(32, |i: int| 0u8)
}

/// The transaction that a set of wire fields stands for before anything
/// has been worked out about it.
pub open spec fn fresh_transaction(core: TransactionCoreView) -> TransactionView {
    TransactionView { core, hash_for_signature: zero_hash(), total_fees: 0, cumulative_fees: 0 }
}

/// The wire bytes of a sequence of slips, one after another.
pub open spec fn slips_bytes(ss: Seq<SlipView>) -> Seq<u8>
    decreases ss.len(),
{
    if ss.len() == 0 {
        Seq::empty()
    } else {
        slips_bytes(ss.drop_last()) + slip_bytes(ss.last())
    }
}

/// Whether every slip of a sequence has keys of the wire sizes.
pub open spec fn slips_wf(ss: Seq<SlipView>) -> bool {
    forall|k: int| 0 <= k < ss.len() ==> #[trigger] slip_view_wf(ss[k])
}

/// Whether the wire fields of a transaction fit its wire format: the
/// counts and the message length fit the `u32` fields that carry them.
pub open spec fn tx_core_wf(t: TransactionCoreView) -> bool {
    &&& t.inputs.len() + t.outputs.len() <= u32::MAX
    &&& t.message.len() <= u32::MAX
    &&& t.signature.len() == 64
    &&& slips_wf(t.inputs)
    &&& slips_wf(t.outputs)
}

/// The fixed header of a transaction on the wire.
pub open spec fn tx_header_bytes(t: TransactionCoreView) -> Seq<u8> {
    u32_be(t.inputs.len() as u32) + u32_be(t.outputs.len() as u32) + u32_be(
        t.message.len() as u32,
    ) + t.signature + u64_be(t.timestamp) + seq![tx_type_byte(t.transaction_type)]
}

/// The wire bytes of a transaction: header, inputs, outputs, message.
pub open spec fn tx_bytes(t: TransactionCoreView) -> Seq<u8> {
    tx_header_bytes(t) + slips_bytes(t.inputs + t.outputs) + t.message
}

/// The bytes that a transaction's signature covers: timestamp, inputs,
/// outputs, type and message.
pub open spec fn signature_preimage(t: TransactionCoreView) -> Seq<u8> {
    u64_be(t.timestamp) + slips_bytes(t.inputs + t.outputs) + seq![tx_type_byte(t.transaction_type)]
        + t.message
}

/// The number of inputs that the header at the start of `b` announces.
pub open spec fn header_inputs(b: Seq<u8>) -> int {
    u32_from_be(b.subrange(0, 4)) as int
}

/// The number of outputs that the header at the start of `b` announces.
pub open spec fn header_outputs(b: Seq<u8>) -> int {
    u32_from_be(b.subrange(4, 8)) as int
}

/// The message length that the header at the start of `b` announces.
pub open spec fn header_message_len(b: Seq<u8>) -> int {
    u32_from_be(b.subrange(8, 12)) as int
}

/// Where the slips of the transaction at the start of `b` end.
pub open spec fn slips_end(b: Seq<u8>) -> int {
    85 + 75 * (header_inputs(b) + header_outputs(b))
}

/// Where the transaction at the start of `b` ends, by its header.
pub open spec fn tx_end(b: Seq<u8>) -> int {
    slips_end(b) + header_message_len(b)
}

/// Whether the `k`-th slip of the transaction at the start of `b` is a slip.
pub open spec fn tx_slip_ok(b: Seq<u8>, k: int) -> bool {
    slip_at_ok(b, 85 + 75 * k)
}

/// The `k`-th slip of the transaction at the start of `b`.
pub open spec fn tx_slip(b: Seq<u8>, k: int) -> SlipView {
    slip_at(b, 85 + 75 * k)
}

/// Whether `b` starts with the wire bytes of a transaction: its header is
/// whole, the bytes that the header announces are there, and the type and
/// every slip type stand for a type.
#[verifier::opaque]
pub open spec fn parse_tx_ok(b: Seq<u8>) -> bool {
    &&& b.len() >= 85
    &&& b.len() >= tx_end(b)
    &&& tx_type_from_byte(b[84]) is Some
    &&& forall|k: int| 0 <= k < header_inputs(b) + header_outputs(b) ==> #[trigger] tx_slip_ok(b, k)
}

/// The wire fields of the transaction at the start of `b`, where
/// `parse_tx_ok(b)`.
#[verifier::opaque]
pub open spec fn parse_tx(b: Seq<u8>) -> TransactionCoreView {
    TransactionCoreView {
        timestamp: u64_from_be(b.subrange(76, 84)),
        inputs: Seq::new(header_inputs(b) as nat, |k: int| tx_slip(b, k)),
        outputs: Seq::new(header_outputs(b) as nat, |k: int| tx_slip(b, header_inputs(b) + k)),
        message: b.subrange(slips_end(b), tx_end(b)),
        transaction_type: tx_type_from_byte(b[84]).unwrap(),
        signature: b.subrange(12, 76),
    }
}

/// The sum of the amounts of a sequence of slips.
pub open spec fn amount_sum(ss: Seq<SlipView>) -> int
    decreases ss.len(),
{
    if ss.len() == 0 {
        0
    } else {
        amount_sum(ss.drop_last()) + ss.last().amount
    }
}

/// The fee that a transaction pays: what goes in beyond what comes out,
/// or nothing where nothing does.
pub open spec fn tx_fee(t: TransactionCoreView) -> int {
    if amount_sum(t.inputs) > amount_sum(t.outputs) {
        amount_sum(t.inputs) - amount_sum(t.outputs)
    } else {
        0
    }
}

/// The slips of a sequence lie one after another, `SLIP_SIZE` bytes each.
pub proof fn lemma_slips_layout(ss: Seq<SlipView>)
    requires
        slips_wf(ss),
    ensures
        slips_bytes(ss).len() == 75 * ss.len(),
        forall|k: int|
            0 <= k < ss.len() ==> #[trigger] slips_bytes(ss).subrange(75 * k, 75 * k + 75)
                == slip_bytes(ss[k]),
    decreases ss.len(),
{
    if ss.len() > 0 {
        let init = ss.drop_last();
        assert forall|k: int| 0 <= k < init.len() implies #[trigger] slip_view_wf(init[k]) by {
            assert(slip_view_wf(ss[k]));
        }
        lemma_slips_layout(init);
        assert(slip_view_wf(ss[ss.len() - 1]));
        lemma_u64_be_roundtrip(ss.last().amount);
        let all = slips_bytes(ss);
        assert forall|k: int| 0 <= k < ss.len() implies #[trigger] all.subrange(75 * k, 75 * k + 75)
            == slip_bytes(ss[k]) by {
            if k < init.len() {
                assert(all.subrange(75 * k, 75 * k + 75) =~= slips_bytes(init).subrange(
                    75 * k,
                    75 * k + 75,
                ));
            } else {
                assert(all.subrange(75 * k, 75 * k + 75) =~= slip_bytes(ss.last()));
            }
        }
    }
}

/// The amounts of a sequence of slips are at least 0.
pub proof fn lemma_amount_sum_nonneg(ss: Seq<SlipView>)
    ensures
        amount_sum(ss) >= 0,
    decreases ss.len(),
{
    if ss.len() > 0 {
        lemma_amount_sum_nonneg(ss.drop_last());
    }
}

/// The `k`-th slip of a transaction's wire bytes decodes to its `k`-th
/// slip, counting inputs then outputs.
pub proof fn lemma_tx_slip_at(t: TransactionCoreView, b: Seq<u8>, k: int)
    requires
        tx_core_wf(t),
        b.len() >= tx_bytes(t).len(),
        b.subrange(0, tx_bytes(t).len() as int) == tx_bytes(t),
        0 <= k < t.inputs.len() + t.outputs.len(),
    ensures
        tx_slip_ok(b, k),
        tx_slip(b, k) == (t.inputs + t.outputs)[k],
{
    let ni = t.inputs.len() as int;
    let all = t.inputs + t.outputs;
    assert forall|q: int| 0 <= q < all.len() implies #[trigger] slip_view_wf(all[q]) by {
        if q < ni {
            assert(slip_view_wf(t.inputs[q]));
        } else {
            assert(slip_view_wf(t.outputs[q - ni]));
        }
    }
    lemma_slips_layout(all);
    lemma_u64_be_roundtrip(t.timestamp);
    let e = tx_bytes(t);
    assert(tx_header_bytes(t).len() == 85);
    assert(slips_bytes(all).subrange(75 * k, 75 * k + 75) == slip_bytes(all[k]));
    assert(b.subrange(85 + 75 * k, 85 + 75 * k + 75) =~= slips_bytes(all).subrange(
        75 * k,
        75 * k + 75,
    )) by {
        assert(b.subrange(85 + 75 * k, 85 + 75 * k + 75) =~= e.subrange(
            85 + 75 * k,
            85 + 75 * k + 75,
        ));
    }
    assert(slip_view_wf(all[k]));
    lemma_slip_roundtrip(all[k], b, 85 + 75 * k);
}

/// A transaction's wire bytes decode to the same wire fields: the header
/// announces where the transaction ends, and everything read back is what
/// was written.
pub proof fn lemma_tx_roundtrip(t: TransactionCoreView, b: Seq<u8>)
    requires
        tx_core_wf(t),
        b.len() >= tx_bytes(t).len(),
        b.subrange(0, tx_bytes(t).len() as int) == tx_bytes(t),
    ensures
        tx_bytes(t).len() == 85 + 75 * (t.inputs.len() + t.outputs.len()) + t.message.len(),
        parse_tx_ok(b),
        header_inputs(b) == t.inputs.len(),
        header_outputs(b) == t.outputs.len(),
        tx_end(b) == tx_bytes(t).len(),
        parse_tx(b) == t,
{
    reveal(parse_tx_ok);
    reveal(parse_tx);
    let ni = t.inputs.len() as int;
    let no = t.outputs.len() as int;
    let nm = t.message.len() as int;
    let all = t.inputs + t.outputs;
    assert forall|k: int| 0 <= k < all.len() implies #[trigger] slip_view_wf(all[k]) by {
        if k < ni {
            assert(slip_view_wf(t.inputs[k]));
        } else {
            assert(slip_view_wf(t.outputs[k - ni]));
        }
    }
    lemma_slips_layout(all);
    lemma_u32_be_roundtrip(ni as u32);
    lemma_u32_be_roundtrip(no as u32);
    lemma_u32_be_roundtrip(nm as u32);
    lemma_u64_be_roundtrip(t.timestamp);
    let e = tx_bytes(t);
    let h = tx_header_bytes(t);
    assert(h.len() == 85);
    assert(e.len() == 85 + 75 * (ni + no) + nm);
    assert(b.subrange(0, 4) =~= u32_be(ni as u32)) by {
        assert(b.subrange(0, 4) =~= e.subrange(0, 4));
    }
    assert(b.subrange(4, 8) =~= u32_be(no as u32)) by {
        assert(b.subrange(4, 8) =~= e.subrange(4, 8));
    }
    assert(b.subrange(8, 12) =~= u32_be(nm as u32)) by {
        assert(b.subrange(8, 12) =~= e.subrange(8, 12));
    }
    assert(header_inputs(b) == ni);
    assert(header_outputs(b) == no);
    assert(header_message_len(b) == nm);
    assert(b.subrange(12, 76) =~= t.signature) by {
        assert(b.subrange(12, 76) =~= e.subrange(12, 76));
    }
    assert(b.subrange(76, 84) =~= u64_be(t.timestamp)) by {
        assert(b.subrange(76, 84) =~= e.subrange(76, 84));
    }
    assert(b[84] == e[84]);
    assert(tx_type_from_byte(tx_type_byte(t.transaction_type)) == Some(t.transaction_type));
    assert(b.subrange(85 + 75 * (ni + no), 85 + 75 * (ni + no) + nm) =~= t.message) by {
        assert(b.subrange(85 + 75 * (ni + no), 85 + 75 * (ni + no) + nm) =~= e.subrange(
            85 + 75 * (ni + no),
            85 + 75 * (ni + no) + nm,
        ));
    }
    assert forall|k: int| 0 <= k < ni + no implies #[trigger] tx_slip_ok(b, k) by {
        lemma_tx_slip_at(t, b, k);
    }
    let p = parse_tx(b);
    assert(p.inputs =~= t.inputs) by {
        assert forall|k: int| 0 <= k < ni implies p.inputs[k] == t.inputs[k] by {
            lemma_tx_slip_at(t, b, k);
        }
    }
    assert(p.outputs =~= t.outputs) by {
        assert forall|k: int| 0 <= k < no implies p.outputs[k] == t.outputs[k] by {
            lemma_tx_slip_at(t, b, ni + k);
        }
    }
}


/// A prefix of a sequence of slips holds no more than the whole.
pub proof fn lemma_amount_sum_prefix(ss: Seq<SlipView>, i: int)
    requires
        0 <= i <= ss.len(),
    ensures
        0 <= amount_sum(ss.take(i)) <= amount_sum(ss),
    decreases ss.len(),
{
    lemma_amount_sum_nonneg(ss.take(i));
    if i < ss.len() {
        assert(ss.drop_last().take(i) =~= ss.take(i));
        lemma_amount_sum_prefix(ss.drop_last(), i);
    } else {
        assert(ss.take(i) =~= ss);
    }
}

/// Appending a slip to a sequence appends its bytes.
pub proof fn lemma_slips_bytes_push(ss: Seq<SlipView>, i: int)
    requires
        0 <= i < ss.len(),
    ensures
        slips_bytes(ss.take(i + 1)) == slips_bytes(ss.take(i)) + slip_bytes(ss[i]),
{
    assert(ss.take(i + 1).drop_last() =~= ss.take(i));
}

impl TransactionCore {
    pub fn new(
        timestamp: u64,
        inputs: Vec<Slip>,
        outputs: Vec<Slip>,
        message: Vec<u8>,
        transaction_type: TransactionType,
        signature: SaitoSignature,
    ) -> (c: TransactionCore)
        ensures
            c == (TransactionCore {
                timestamp,
                inputs,
                outputs,
                message,
                transaction_type,
                signature,
            }),
    {
        TransactionCore { timestamp, inputs, outputs, message, transaction_type, signature }
    }

    /// Appends the wire bytes of the inputs, then of the outputs, to `v`.
    fn push_slips(&self, v: &mut Vec<u8>)
        ensures
            final(v)@ == old(v)@ + slips_bytes(self@.inputs + self@.outputs),
    {
        let ghost start = v@;
        let ghost t = self@;
        let ghost all = t.inputs + t.outputs;
        assert(all.take(0) =~= Seq::<SlipView>::empty());
        assert(v@ =~= start + slips_bytes(all.take(0)));
        let ni = self.inputs.len();
        let mut i: usize = 0;
        while i < ni
            invariant
                i <= ni,
                ni == self.inputs@.len(),
                t == self@,
                all == t.inputs + t.outputs,
                v@ == start + slips_bytes(all.take(i as int)),
            decreases ni - i,
        {
            self.inputs[i].serialize_into(v);
            proof {
                lemma_slips_bytes_push(all, i as int);
                assert(all[i as int] == self.inputs@[i as int]@);
            }
            i = i + 1;
            assert(v@ =~= start + slips_bytes(all.take(i as int)));
        }
        let no = self.outputs.len();
        let mut j: usize = 0;
        while j < no
            invariant
                j <= no,
                ni == self.inputs@.len(),
                no == self.outputs@.len(),
                t == self@,
                all == t.inputs + t.outputs,
                v@ == start + slips_bytes(all.take(ni + j)),
            decreases no - j,
        {
            self.outputs[j].serialize_into(v);
            proof {
                lemma_slips_bytes_push(all, ni + j);
                assert(all[ni + j] == self.outputs@[j as int]@);
            }
            j = j + 1;
            assert(v@ =~= start + slips_bytes(all.take(ni + j)));
        }
        assert(all.take(ni + no) =~= all);
    }

    /// Appends the wire bytes of this transaction to `v`. A count or a
    /// message length beyond `u32::MAX` is cut to its low 32 bits.
    pub fn serialize_into(&self, v: &mut Vec<u8>)
        ensures
            final(v)@ == old(v)@ + tx_bytes(self@),
    {
        let ghost start = v@;
        push_u32_be(v, self.inputs.len() as u32);
        push_u32_be(v, self.outputs.len() as u32);
        push_u32_be(v, self.message.len() as u32);
        push_bytes(v, self.signature.as_slice());
        push_u64_be(v, self.timestamp);
        v.push(self.transaction_type.to_byte());
        assert(v@ =~= start + tx_header_bytes(self@));
        self.push_slips(v);
        push_bytes(v, self.message.as_slice());
        assert(v@ =~= start + tx_bytes(self@));
    }

    /// The bytes that the signature of this transaction covers.
    pub fn serialize_for_signature(&self) -> (v: Vec<u8>)
        ensures
            v@ == signature_preimage(self@),
    {
        let mut v: Vec<u8> = Vec::new();
        push_u64_be(&mut v, self.timestamp);
        self.push_slips(&mut v);
        v.push(self.transaction_type.to_byte());
        push_bytes(&mut v, self.message.as_slice());
        assert(v@ =~= signature_preimage(self@));
        v
    }
}

impl Clone for TransactionCore {
    fn clone(&self) -> (c: TransactionCore)
        ensures
            c@ == self@,
    {
        let mut inputs: Vec<Slip> = Vec::new();
        let mut i: usize = 0;
        while i < self.inputs.len()
            invariant
                i <= self.inputs@.len(),
                inputs@ == self.inputs@.take(i as int),
            decreases self.inputs@.len() - i,
        {
            inputs.push(self.inputs[i]);
            i = i + 1;
            assert(inputs@ =~= self.inputs@.take(i as int));
        }
        let mut outputs: Vec<Slip> = Vec::new();
        let mut j: usize = 0;
        while j < self.outputs.len()
            invariant
                j <= self.outputs@.len(),
                outputs@ == self.outputs@.take(j as int),
            decreases self.outputs@.len() - j,
        {
            outputs.push(self.outputs[j]);
            j = j + 1;
            assert(outputs@ =~= self.outputs@.take(j as int));
        }
        let mut message: Vec<u8> = Vec::new();
        push_bytes(&mut message, self.message.as_slice());
        assert(inputs@ =~= self.inputs@);
        assert(outputs@ =~= self.outputs@);
        assert(message@ =~= self.message@);
        TransactionCore {
            timestamp: self.timestamp,
            inputs,
            outputs,
            message,
            transaction_type: self.transaction_type,
            signature: self.signature,
        }
    }
}

impl Default for TransactionCore {
    /// A normal transaction at time 0, with no slips, no message and a zero
    /// signature.
    fn default() -> (c: TransactionCore)
        ensures
            c@.timestamp == 0,
            c@.inputs.len() == 0,
            c@.outputs.len() == 0,
            c@.message.len() == 0,
            c@.transaction_type == TransactionType::Normal,
            c@.signature == Seq::new(64, |i: int| 0u8),
    {
        let c = TransactionCore {
            timestamp: 0,
            inputs: Vec::new(),
            outputs: Vec::new(),
            message: Vec::new(),
            transaction_type: TransactionType::Normal,
            signature: [0u8; 64],
        };
        assert(c.signature@ =~= Seq::new(64, |i: int| 0u8));
        c
    }
}

impl Clone for Transaction {
    fn clone(&self) -> (t: Transaction)
        ensures
            t@ == self@,
    {
        Transaction {
            core: self.core.clone(),
            hash_for_signature: self.hash_for_signature,
            total_fees: self.total_fees,
            cumulative_fees: self.cumulative_fees,
        }
    }
}

impl Default for Transaction {
    /// A transaction around the default wire fields, with nothing worked out.
    fn default() -> (t: Transaction)
        ensures
            t@ == fresh_transaction(t.core@),
            t@.core.timestamp == 0,
            t@.core.inputs.len() == 0,
            t@.core.outputs.len() == 0,
            t@.core.message.len() == 0,
            t@.core.transaction_type == TransactionType::Normal,
            t@.core.signature == Seq::new(64, |i: int| 0u8),
    {
        Transaction::new(TransactionCore::default())
    }
}

impl Transaction {
    /// A transaction with the given wire fields, before anything has been
    /// worked out about it.
    pub fn new(core: TransactionCore) -> (t: Transaction)
        ensures
            t.core == core,
            t@ == fresh_transaction(core@),
    {
        let t = Transaction { core, hash_for_signature: [0u8; 32], total_fees: 0, cumulative_fees: 0 };
        assert(t.hash_for_signature@ =~= zero_hash());
        t
    }

    pub fn get_hash_for_signature(&self) -> (h: SaitoHash)
        ensures
            h == self.hash_for_signature,
    {
        self.hash_for_signature
    }

    pub fn get_total_fees(&self) -> (f: u64)
        ensures
            f == self.total_fees,
    {
        self.total_fees
    }

    pub fn get_cumulative_fees(&self) -> (f: u64)
        ensures
            f == self.cumulative_fees,
    {
        self.cumulative_fees
    }

    pub fn get_transaction_type(&self) -> (t: TransactionType)
        ensures
            t == self.core.transaction_type,
    {
        self.core.transaction_type
    }

    pub fn get_timestamp(&self) -> (ts: u64)
        ensures
            ts == self.core.timestamp,
    {
        self.core.timestamp
    }

    /// Whether this transaction pays out the fees of a block.
    pub fn is_fee_transaction(&self) -> (b: bool)
        ensures
            b == (self.core.transaction_type == TransactionType::Fee),
    {
        self.core.transaction_type == TransactionType::Fee
    }

    /// Whether this transaction carries a golden ticket.
    pub fn is_golden_ticket(&self) -> (b: bool)
        ensures
            b == (self.core.transaction_type == TransactionType::GoldenTicket),
    {
        self.core.transaction_type == TransactionType::GoldenTicket
    }

    pub fn set_transaction_type(&mut self, transaction_type: TransactionType)
        ensures
            final(self)@ == (TransactionView {
                core: TransactionCoreView { transaction_type, ..old(self)@.core },
                ..old(self)@
            }),
    {
        self.core.transaction_type = transaction_type;
    }

    /// Appends `input` to the inputs.
    pub fn add_input(&mut self, input: Slip)
        ensures
            final(self)@ == (TransactionView {
                core: TransactionCoreView {
                    inputs: old(self)@.core.inputs.push(input@),
                    ..old(self)@.core
                },
                ..old(self)@
            }),
    {
        self.core.inputs.push(input);
        assert(slip_views(self.core.inputs@) =~= slip_views(old(self).core.inputs@).push(input@));
    }

    /// Appends `output` to the outputs.
    pub fn add_output(&mut self, output: Slip)
        ensures
            final(self)@ == (TransactionView {
                core: TransactionCoreView {
                    outputs: old(self)@.core.outputs.push(output@),
                    ..old(self)@.core
                },
                ..old(self)@
            }),
    {
        self.core.outputs.push(output);
        assert(slip_views(self.core.outputs@) =~= slip_views(old(self).core.outputs@).push(
            output@,
        ));
    }

    /// The wire bytes of this transaction.
    pub fn serialize_for_net(&self) -> (v: Vec<u8>)
        ensures
            v@ == tx_bytes(self.core@),
    {
        let mut v: Vec<u8> = Vec::new();
        self.core.serialize_into(&mut v);
        assert(v@ =~= tx_bytes(self.core@));
        v
    }

    /// The transaction whose wire bytes start `b`, or `None` where `b` is too
    /// short for what its header announces or a type byte stands for no type.
    pub fn parse_from_net(b: &[u8]) -> (r: Option<Transaction>)
        ensures
            r is Some <==> parse_tx_ok(b@),
            r matches Some(t) ==> t@ == fresh_transaction(parse_tx(b@)),
    {
        reveal(parse_tx_ok);
        reveal(parse_tx);
        let len = b.len();
        if len < TRANSACTION_SIZE {
            return None;
        }
        let ni = read_u32_be(b, 0);
        let no = read_u32_be(b, 4);
        let nm = read_u32_be(b, 8);
        proof {
            assert(b@.subrange(0, 4) =~= b@.subrange(0, 4));
        }
        let se: u64 = 85 + 75 * (ni as u64 + no as u64);
        let end: u64 = se + nm as u64;
        assert(se == slips_end(b@));
        assert(end == tx_end(b@));
        if (len as u64) < end {
            return None;
        }
        let transaction_type = match TransactionType::from_byte(b[84]) {
            None => {
                return None;
            },
            Some(t) => t,
        };
        let ghost bv = b@;
        let nin = ni as usize;
        let mut inputs: Vec<Slip> = Vec::new();
        let mut k: usize = 0;
        while k < nin
            invariant
                k <= nin,
                nin == header_inputs(bv),
                bv == b@,
                len == bv.len(),
                85 + 75 * (header_inputs(bv) + header_outputs(bv)) <= len,
                inputs@.len() == k,
                forall|q: int| 0 <= q < k ==> #[trigger] tx_slip_ok(bv, q),
                forall|q: int| 0 <= q < k ==> inputs@[q]@ == #[trigger] tx_slip(bv, q),
            decreases nin - k,
        {
            match Slip::parse_at(b, 85 + 75 * k) {
                None => {
                    assert(!tx_slip_ok(bv, k as int));
                    proof {
                        reveal(parse_tx_ok);
                    }
                    return None;
                },
                Some(s) => {
                    inputs.push(s);
                },
            }
            k = k + 1;
        }
        let nout = no as usize;
        let mut outputs: Vec<Slip> = Vec::new();
        let mut k: usize = 0;
        while k < nout
            invariant
                k <= nout,
                nin == header_inputs(bv),
                nout == header_outputs(bv),
                bv == b@,
                len == bv.len(),
                85 + 75 * (header_inputs(bv) + header_outputs(bv)) <= len,
                outputs@.len() == k,
                forall|q: int| 0 <= q < nin + k ==> #[trigger] tx_slip_ok(bv, q),
                forall|q: int| 0 <= q < k ==> outputs@[q]@ == #[trigger] tx_slip(bv, nin + q),
            decreases nout - k,
        {
            match Slip::parse_at(b, 85 + 75 * (nin + k)) {
                None => {
                    assert(!tx_slip_ok(bv, nin + k));
                    proof {
                        reveal(parse_tx_ok);
                    }
                    return None;
                },
                Some(s) => {
                    outputs.push(s);
                },
            }
            k = k + 1;
        }
        let mut signature = [0u8; 64];
        copy_from(&mut signature, b, 12);
        let timestamp = read_u64_be(b, 76);
        let message = copy_range(b, se as usize, end as usize);
        let core = TransactionCore { timestamp, inputs, outputs, message, transaction_type, signature };
        let t = Transaction::new(core);
        proof {
            let p = parse_tx(bv);
            assert(slip_views(t.core.inputs@) =~= p.inputs);
            assert(slip_views(t.core.outputs@) =~= p.outputs);
            assert(t.core@ =~= p);
        }
        Some(t)
    }

    /// The transaction whose wire bytes start `bytes`.
    pub fn deserialize_from_net(bytes: Vec<u8>) -> (t: Transaction)
        requires
            parse_tx_ok(bytes@),
        ensures
            t@ == fresh_transaction(parse_tx(bytes@)),
    {
        match Transaction::parse_from_net(bytes.as_slice()) {
            Some(t) => t,
            None => {
                assert(false);
                Transaction::default()
            },
        }
    }

    /// Works out the hash that the signature of this transaction covers and
    /// the fee that it pays.
    pub fn pre_validation_calculations_parallelizable(&mut self) -> (b: bool)
        requires
            amount_sum(old(self)@.core.inputs) <= u64::MAX,
            amount_sum(old(self)@.core.outputs) <= u64::MAX,
        ensures
            b,
            final(self)@ == prepared(old(self)@),
    {
        let preimage = self.core.serialize_for_signature();
        self.hash_for_signature = hash(preimage.as_slice());
        let nolan_in = sum_amounts(&self.core.inputs);
        let nolan_out = sum_amounts(&self.core.outputs);
        if nolan_in > nolan_out {
            self.total_fees = nolan_in - nolan_out;
        } else {
            self.total_fees = 0;
        }
        true
    }

    /// Adds the fee of this transaction to the fees of the transactions
    /// before it in a block, records the sum and returns it.
    pub fn pre_validation_calculations_cumulative_fees(&mut self, cumulative_fees: u64) -> (c: u64)
        requires
            cumulative_fees + old(self).total_fees <= u64::MAX,
        ensures
            c == cumulative_fees + old(self).total_fees,
            final(self)@ == (TransactionView { cumulative_fees: c, ..old(self)@ }),
    {
        self.cumulative_fees = cumulative_fees + self.total_fees;
        self.cumulative_fees
    }
}

/// A transaction once the hash that its signature covers and its fee have
/// been worked out.
pub open spec fn prepared(t: TransactionView) -> TransactionView {
    TransactionView {
        hash_for_signature: blake3_digest(signature_preimage(t.core)),
        total_fees: tx_fee(t.core) as u64,
        ..t
    }
}

/// The sum of the amounts of `ss`.
fn sum_amounts(ss: &Vec<Slip>) -> (total: u64)
    requires
        amount_sum(slip_views(ss@)) <= u64::MAX,
    ensures
        total == amount_sum(slip_views(ss@)),
{
    let ghost views = slip_views(ss@);
    let mut total: u64 = 0;
    let mut i: usize = 0;
    assert(views.take(0) =~= Seq::<SlipView>::empty());
    while i < ss.len()
        invariant
            i <= ss@.len(),
            views == slip_views(ss@),
            amount_sum(views) <= u64::MAX,
            total == amount_sum(views.take(i as int)),
        decreases ss@.len() - i,
    {
        proof {
            assert(views.take(i + 1).drop_last() =~= views.take(i as int));
            lemma_amount_sum_prefix(views, i + 1);
        }
        total = total + ss[i].core.amount;
        i = i + 1;
    }
    assert(views.take(i as int) =~= views);
    total
}

/// Calls `par_iter_mut().all(..)` of rayon on `txs` with a closure that
/// works out each transaction's signature hash and fee by
/// `Transaction::pre_validation_calculations_parallelizable`. Trusted: the
/// contract says that every transaction is visited once and left as that
/// method leaves it, which holds because the method always returns `true`,
/// so that `all` stops early at no transaction.
#[verifier::external_body]
pub(crate) fn prepare_in_parallel(txs: &mut Vec<Transaction>)
    requires
        forall|k: int|
            0 <= k < old(txs)@.len() ==> amount_sum(#[trigger] old(txs)@[k]@.core.inputs)
                <= u64::MAX && amount_sum(old(txs)@[k]@.core.outputs) <= u64::MAX,
    ensures
        final(txs)@.len() == old(txs)@.len(),
        forall|k: int|
            #![trigger final(txs)@[k]]
            0 <= k < old(txs)@.len() ==> final(txs)@[k]@ == prepared(old(txs)@[k]@),
{
    txs.par_iter_mut().all(|tx| tx.pre_validation_calculations_parallelizable());
}

} // verus!
