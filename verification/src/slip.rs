//! Slips: the inputs and outputs of a transaction, and their fixed-size
//! wire format.
use crate::bytes::{copy_from, lemma_u64_be_roundtrip, push_bytes, push_u64_be, read_u64_be, u64_be, u64_from_be};
use crate::crypto::SaitoPublicKey;
use vstd::prelude::*;

verus! {

/// The number of bytes of a slip on the wire:
/// publickey (33) + uuid (32) + amount (8) + ordinal (1) + type (1).
pub const SLIP_SIZE: usize = 75;

/// What a slip stands for.
#[derive(Clone, Copy, Debug, PartialEq, Eq, Structural)]
pub enum SlipType {
    Normal,
    MinerInput,
    MinerOutput,
    RouterInput,
    RouterOutput,
    Other,
}

/// The byte that stands for a slip type on the wire.
pub open spec fn slip_type_byte(t: SlipType) -> u8 {
    match t {
        SlipType::Normal => 0,
        SlipType::MinerInput => 1,
        SlipType::MinerOutput => 2,
        SlipType::RouterInput => 3,
        SlipType::RouterOutput => 4,
        SlipType::Other => 5,
    }
}

/// The slip type that a byte stands for, if any.
pub open spec fn slip_type_from_byte(b: u8) -> Option<SlipType> {
    if b == 0 {
        Some(SlipType::Normal)
    } else if b == 1 {
        Some(SlipType::MinerInput)
    } else if b == 2 {
        Some(SlipType::MinerOutput)
    } else if b == 3 {
        Some(SlipType::RouterInput)
    } else if b == 4 {
        Some(SlipType::RouterOutput)
    } else if b == 5 {
        Some(SlipType::Other)
    } else {
        None
    }
}

impl SlipType {
    /// The byte that stands for this type on the wire.
    pub fn to_byte(&self) -> (b: u8)
        ensures
            b == slip_type_byte(*self),
    {
        match self {
            SlipType::Normal => 0,
            SlipType::MinerInput => 1,
            SlipType::MinerOutput => 2,
            SlipType::RouterInput => 3,
            SlipType::RouterOutput => 4,
            SlipType::Other => 5,
        }
    }

    /// The type that `b` stands for, or `None` where no type does.
    pub fn from_byte(b: u8) -> (t: Option<SlipType>)
        ensures
            t == slip_type_from_byte(b),
    {
        if b == 0 {
            Some(SlipType::Normal)
        } else if b == 1 {
            Some(SlipType::MinerInput)
        } else if b == 2 {
            Some(SlipType::MinerOutput)
        } else if b == 3 {
            Some(SlipType::RouterInput)
        } else if b == 4 {
            Some(SlipType::RouterOutput)
        } else if b == 5 {
            Some(SlipType::Other)
        } else {
            None
        }
    }
}

/// The fields of a slip that go on the wire.
#[derive(Clone, Copy, Debug, PartialEq, Eq)]
pub struct SlipCore {
    pub publickey: SaitoPublicKey,
    pub uuid: [u8; 32],
    pub amount: u64,
    pub slip_ordinal: u8,
    pub slip_type: SlipType,
}

impl SlipCore {
    pub fn new(
        publickey: SaitoPublicKey,
        uuid: [u8; 32],
        amount: u64,
        slip_ordinal: u8,
        slip_type: SlipType,
    ) -> (c: SlipCore)
        ensures
            c == (SlipCore { publickey, uuid, amount, slip_ordinal, slip_type }),
    {
        SlipCore { publickey, uuid, amount, slip_ordinal, slip_type }
    }
}

impl Default for SlipCore {
    /// A normal slip of amount 0, with every key byte 0.
    fn default() -> (c: SlipCore)
        ensures
            c.publickey@ == Seq::new(33, |i: int| 0u8),
            c.uuid@ == Seq::new(32, |i: int| 0u8),
            c.amount == 0,
            c.slip_ordinal == 0,
            c.slip_type == SlipType::Normal,
    {
        let c = SlipCore {
            publickey: [0u8; 33],
            uuid: [0u8; 32],
            amount: 0,
            slip_ordinal: 0,
            slip_type: SlipType::Normal,
        };
        assert(c.publickey@ =~= Seq::new(33, |i: int| 0u8));
        assert(c.uuid@ =~= Seq::new(32, |i: int| 0u8));
        c
    }
}

/// A slip: an amount bound to a public key.
#[derive(Clone, Copy, Debug, PartialEq, Eq)]
pub struct Slip {
    pub core: SlipCore,
}

/// A slip as a mathematical value.
pub struct SlipView {
    pub publickey: Seq<u8>,
    pub uuid: Seq<u8>,
    pub amount: u64,
    pub slip_ordinal: u8,
    pub slip_type: SlipType,
}

impl View for Slip {
    type V = SlipView;

    open spec fn view(&self) -> SlipView {
        SlipView {
            publickey: self.core.publickey@,
            uuid: self.core.uuid@,
            amount: self.core.amount,
            slip_ordinal: self.core.slip_ordinal,
            slip_type: self.core.slip_type,
        }
    }
}

/// Whether a slip view has keys of the sizes that the wire format carries.
pub open spec fn slip_view_wf(s: SlipView) -> bool {
    s.publickey.len() == 33 && s.uuid.len() == 32
}

/// The wire bytes of a slip.
pub open spec fn slip_bytes(s: SlipView) -> Seq<u8> {
    s.publickey + s.uuid + u64_be(s.amount) + seq![s.slip_ordinal, slip_type_byte(s.slip_type)]
}

/// Whether the `SLIP_SIZE` bytes of `b` that start at `p` are a slip.
pub open spec fn slip_at_ok(b: Seq<u8>, p: int) -> bool {
    0 <= p && p + 75 <= b.len() && slip_type_from_byte(b[p + 74]) is Some
}

/// The slip that the `SLIP_SIZE` bytes of `b` at `p` encode, where they do.
pub open spec fn slip_at(b: Seq<u8>, p: int) -> SlipView {
    SlipView {
        publickey: b.subrange(p, p + 33),
        uuid: b.subrange(p + 33, p + 65),
        amount: u64_from_be(b.subrange(p + 65, p + 73)),
        slip_ordinal: b[p + 73],
        slip_type: slip_type_from_byte(b[p + 74]).unwrap(),
    }
}

/// A slip encodes to `SLIP_SIZE` bytes, which decode to the same slip.
pub proof fn lemma_slip_roundtrip(s: SlipView, b: Seq<u8>, p: int)
    requires
        slip_view_wf(s),
        0 <= p,
        p + 75 <= b.len(),
        b.subrange(p, p + 75) == slip_bytes(s),
    ensures
        slip_bytes(s).len() == 75,
        slip_at_ok(b, p),
        slip_at(b, p) == s,
{
    lemma_u64_be_roundtrip(s.amount);
    let e = slip_bytes(s);
    assert(b.subrange(p, p + 33) =~= e.subrange(0, 33));
    assert(e.subrange(0, 33) =~= s.publickey);
    assert(b.subrange(p + 33, p + 65) =~= e.subrange(33, 65));
    assert(e.subrange(33, 65) =~= s.uuid);
    assert(b.subrange(p + 65, p + 73) =~= e.subrange(65, 73));
    assert(e.subrange(65, 73) =~= u64_be(s.amount));
    assert(b[p + 73] == e[73]);
    assert(b[p + 74] == e[74]);
    assert(slip_type_from_byte(slip_type_byte(s.slip_type)) == Some(s.slip_type));
}

impl Slip {
    pub fn new(core: SlipCore) -> (s: Slip)
        ensures
            s.core == core,
    {
        Slip { core }
    }

    pub fn get_publickey(&self) -> (k: SaitoPublicKey)
        ensures
            k == self.core.publickey,
    {
        self.core.publickey
    }

    pub fn get_uuid(&self) -> (u: [u8; 32])
        ensures
            u == self.core.uuid,
    {
        self.core.uuid
    }

    pub fn get_amount(&self) -> (a: u64)
        ensures
            a == self.core.amount,
    {
        self.core.amount
    }

    pub fn get_slip_ordinal(&self) -> (o: u8)
        ensures
            o == self.core.slip_ordinal,
    {
        self.core.slip_ordinal
    }

    pub fn get_slip_type(&self) -> (t: SlipType)
        ensures
            t == self.core.slip_type,
    {
        self.core.slip_type
    }

    pub fn set_publickey(&mut self, publickey: SaitoPublicKey)
        ensures
            final(self).core == (SlipCore { publickey, ..old(self).core }),
    {
        self.core.publickey = publickey;
    }

    pub fn set_amount(&mut self, amount: u64)
        ensures
            final(self).core == (SlipCore { amount, ..old(self).core }),
    {
        self.core.amount = amount;
    }

    pub fn set_slip_type(&mut self, slip_type: SlipType)
        ensures
            final(self).core == (SlipCore { slip_type, ..old(self).core }),
    {
        self.core.slip_type = slip_type;
    }

    /// Appends the wire bytes of this slip to `v`.
    pub fn serialize_into(&self, v: &mut Vec<u8>)
        ensures
            final(v)@ == old(v)@ + slip_bytes(self@),
    {
        let ghost start = v@;
        push_bytes(v, self.core.publickey.as_slice());
        push_bytes(v, self.core.uuid.as_slice());
        push_u64_be(v, self.core.amount);
        v.push(self.core.slip_ordinal);
        v.push(self.core.slip_type.to_byte());
        assert(v@ =~= start + slip_bytes(self@));
    }

    /// The wire bytes of this slip.
    pub fn serialize_for_net(&self) -> (v: Vec<u8>)
        ensures
            v@ == slip_bytes(self@),
    {
        let mut v: Vec<u8> = Vec::new();
        self.serialize_into(&mut v);
        assert(v@ =~= slip_bytes(self@));
        v
    }

    /// The slip whose wire bytes start at `p` in `b`, or `None` where the
    /// bytes there are too few or the type byte stands for no type.
    pub fn parse_at(b: &[u8], p: usize) -> (r: Option<Slip>)
        ensures
            r is Some <==> slip_at_ok(b@, p as int),
            r matches Some(s) ==> s@ == slip_at(b@, p as int),
    {
        let len = b.len();
        if p > len || len - p < SLIP_SIZE {
            return None;
        }
        match SlipType::from_byte(b[p + 74]) {
            None => None,
            Some(slip_type) => {
                let mut publickey = [0u8; 33];
                copy_from(&mut publickey, b, p);
                let mut uuid = [0u8; 32];
                copy_from(&mut uuid, b, p + 33);
                let amount = read_u64_be(b, p + 65);
                let slip_ordinal = b[p + 73];
                let s = Slip { core: SlipCore { publickey, uuid, amount, slip_ordinal, slip_type } };
                Some(s)
            },
        }
    }

    /// The slip that the first `SLIP_SIZE` bytes of `bytes` encode.
    pub fn deserialize_from_net(bytes: Vec<u8>) -> (s: Slip)
        requires
            slip_at_ok(bytes@, 0),
        ensures
            s@ == slip_at(bytes@, 0),
    {
        match Slip::parse_at(bytes.as_slice(), 0) {
            Some(s) => s,
            None => {
                assert(false);
                Slip { core: SlipCore::default() }
            },
        }
    }
}

impl Default for Slip {
    /// A slip around the default core.
    fn default() -> (s: Slip)
        ensures
            s.core.publickey@ == Seq::new(33, |i: int| 0u8),
            s.core.uuid@ == Seq::new(32, |i: int| 0u8),
            s.core.amount == 0,
            s.core.slip_ordinal == 0,
            s.core.slip_type == SlipType::Normal,
    {
        Slip { core: SlipCore::default() }
    }
}

} // verus!
