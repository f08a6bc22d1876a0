//! Byte layout of the values carried by LampArray feature reports: fields
//! follow each other with no padding, and multi-byte integers are
//! little-endian, as HID reports are.
use vstd::prelude::*;

verus! {

broadcast use vstd::array::group_array_axioms;

/// A value with a fixed-size byte layout inside a feature report.
pub trait WireFormat: Sized {
    /// The bytes that represent this value.
    spec fn wire(&self) -> Seq<u8>;

    /// How many bytes every value of this type takes.
    spec fn wire_len() -> nat;

    fn encoded_len() -> (n: usize)
        ensures
            n == Self::wire_len(),
            n < usize::MAX,
    ;

    /// Appends the bytes of this value to `out`.
    fn encode(&self, out: &mut Vec<u8>)
        ensures
            final(out)@ == old(out)@ + self.wire(),
    ;

    /// Reads a value from the bytes at `at`.
    fn decode(bytes: &[u8], at: usize) -> (r: Self)
        requires
            at + Self::wire_len() <= bytes@.len(),
        ensures
            r.wire() == bytes@.subrange(at as int, at + Self::wire_len()),
    ;

    /// Every value takes `wire_len` bytes.
    proof fn lemma_wire_len(&self)
        ensures
            self.wire().len() == Self::wire_len(),
    ;

    /// Distinct values have distinct bytes.
    proof fn lemma_wire_injective(&self, other: &Self)
        requires
            self.wire() == other.wire(),
        ensures
            *self == *other,
    ;
}

/// The little-endian bytes of a 16-bit value.
pub open spec fn le16(v: u16) -> Seq<u8> {
    seq![(v % 256) as u8, (v / 256) as u8]
}

/// The little-endian bytes of a 32-bit value.
pub open spec fn le32(v: u32) -> Seq<u8> {
    seq![(v % 256) as u8, (v / 256 % 256) as u8, (v / 65536 % 256) as u8, (v / 16777216) as u8]
}

impl WireFormat for u8 {
    open spec fn wire(&self) -> Seq<u8> {
        seq![*self]
    }

    open spec fn wire_len() -> nat {
        1
    }

    fn encoded_len() -> (n: usize) {
        1
    }

    fn encode(&self, out: &mut Vec<u8>) {
        out.push(*self);
    }

    fn decode(bytes: &[u8], at: usize) -> (r: u8) {
        assert(bytes@.subrange(at as int, at + 1) =~= seq![bytes@[at as int]]);
        bytes[at]
    }

    proof fn lemma_wire_len(&self) {
    }

    proof fn lemma_wire_injective(&self, other: &Self) {
        assert(seq![*self][0] == *self);
        assert(seq![*other][0] == *other);
        assert(self.wire()[0] == other.wire()[0]);
    }
}

proof fn lemma_le32_parts(v: u32)
    ensures
        v == (v % 256) + 256 * (v / 256 % 256) + 65536 * (v / 65536 % 256) + 16777216 * (v
            / 16777216),
        v / 16777216 < 256,
{
}

proof fn lemma_le32_of_bytes(b0: u8, b1: u8, b2: u8, b3: u8)
    ensures
        ({
            let v = b0 as int + 256 * b1 as int + 65536 * b2 as int + 16777216 * b3 as int;
            &&& 0 <= v <= u32::MAX
            &&& v % 256 == b0
            &&& v / 256 % 256 == b1
            &&& v / 65536 % 256 == b2
            &&& v / 16777216 == b3
        }),
{
    let (x0, x1, x2, x3) = (b0 as u32, b1 as u32, b2 as u32, b3 as u32);
    assert({
        let v = x0 + 256 * x1 + 65536 * x2 + 16777216 * x3;
        &&& v <= 0xffff_ffff
        &&& v % 256 == x0
        &&& v / 256 % 256 == x1
        &&& v / 65536 % 256 == x2
        &&& v / 16777216 == x3
    }) by (bit_vector)
        requires
            x0 < 256,
            x1 < 256,
            x2 < 256,
            x3 < 256,
    ;
}

impl WireFormat for u32 {
    open spec fn wire(&self) -> Seq<u8> {
        le32(*self)
    }

    open spec fn wire_len() -> nat {
        4
    }

    fn encoded_len() -> (n: usize) {
        4
    }

    fn encode(&self, out: &mut Vec<u8>) {
        let v = *self;
        out.push((v % 256) as u8);
        out.push((v / 256 % 256) as u8);
        out.push((v / 65536 % 256) as u8);
        out.push((v / 16777216) as u8);
    }

    fn decode(bytes: &[u8], at: usize) -> (r: u32) {
        let b0 = bytes[at];
        let b1 = bytes[at + 1];
        let b2 = bytes[at + 2];
        let b3 = bytes[at + 3];
        proof {
            lemma_le32_of_bytes(b0, b1, b2, b3);
        }
        let r = b0 as u32 + 256 * b1 as u32 + 65536 * b2 as u32 + 16777216 * b3 as u32;
        assert(le32(r) =~= bytes@.subrange(at as int, at + 4));
        r
    }

    proof fn lemma_wire_len(&self) {
    }

    proof fn lemma_wire_injective(&self, other: &Self) {
        lemma_le32_parts(*self);
        lemma_le32_parts(*other);
        assert(self.wire()[0] == other.wire()[0]);
        assert(self.wire()[1] == other.wire()[1]);
        assert(self.wire()[2] == other.wire()[2]);
        assert(self.wire()[3] == other.wire()[3]);
    }
}

/// A 16-bit value stored as two little-endian bytes.
#[derive(Clone, Copy, Debug)]
pub struct LeU16([u8; 2]);

impl View for LeU16 {
    type V = u16;

    closed spec fn view(&self) -> u16 {
        (self.0@[0] as int + 256 * self.0@[1] as int) as u16
    }
}

impl LeU16 {
    /// The two stored bytes are the little-endian bytes of the value.
    proof fn lemma_bytes(self)
        ensures
            self.0@ == le16(self@),
    {
        assert(self.0@ =~= le16(self@));
    }

    fn into_u16(self) -> (v: u16)
        ensures
            v == self@,
    {
        self.0[0] as u16 + 256 * self.0[1] as u16
    }
}

impl Default for LeU16 {
    fn default() -> (r: LeU16)
        ensures
            r@ == 0,
    {
        LeU16([0, 0])
    }
}

impl From<u16> for LeU16 {
    fn from(value: u16) -> (r: LeU16) {
        LeU16([(value % 256) as u8, (value / 256) as u8])
    }
}

impl vstd::std_specs::convert::FromSpecImpl<u16> for LeU16 {
    open spec fn obeys_from_spec() -> bool {
        true
    }

    open spec fn from_spec(v: u16) -> LeU16 {
        LeU16::from_value(v)
    }
}

impl LeU16 {
    /// The value whose bytes are the little-endian bytes of `v`.
    pub closed spec fn from_value(v: u16) -> LeU16 {
        LeU16([(v % 256) as u8, (v / 256) as u8])
    }

    /// The value whose stored bytes are `b`.
    pub closed spec fn from_byte_pair(b: [u8; 2]) -> LeU16 {
        LeU16(b)
    }

    /// `from_value` keeps the value.
    pub broadcast proof fn lemma_from_value(v: u16)
        ensures
            (#[trigger] LeU16::from_value(v))@ == v,
    {
    }

    /// `from_byte_pair` stores the bytes as given.
    pub broadcast proof fn lemma_from_byte_pair(b: [u8; 2])
        ensures
            (#[trigger] LeU16::from_byte_pair(b))@ == b@[0] as int + 256 * b@[1] as int,
    {
    }
}

impl From<[u8; 2]> for LeU16 {
    fn from(value: [u8; 2]) -> (r: LeU16) {
        LeU16(value)
    }
}

impl vstd::std_specs::convert::FromSpecImpl<[u8; 2]> for LeU16 {
    open spec fn obeys_from_spec() -> bool {
        true
    }

    open spec fn from_spec(b: [u8; 2]) -> LeU16 {
        LeU16::from_byte_pair(b)
    }
}

impl From<LeU16> for u16 {
    fn from(value: LeU16) -> (r: u16) {
        value.into_u16()
    }
}

impl vstd::std_specs::convert::FromSpecImpl<LeU16> for u16 {
    open spec fn obeys_from_spec() -> bool {
        true
    }

    open spec fn from_spec(x: LeU16) -> u16 {
        x@
    }
}

impl WireFormat for LeU16 {
    open spec fn wire(&self) -> Seq<u8> {
        le16(self@)
    }

    open spec fn wire_len() -> nat {
        2
    }

    fn encoded_len() -> (n: usize) {
        2
    }

    fn encode(&self, out: &mut Vec<u8>) {
        proof {
            self.lemma_bytes();
        }
        out.push(self.0[0]);
        out.push(self.0[1]);
    }

    fn decode(bytes: &[u8], at: usize) -> (r: LeU16) {
        let r = LeU16([bytes[at], bytes[at + 1]]);
        proof {
            r.lemma_bytes();
        }
        assert(r.0@ =~= bytes@.subrange(at as int, at + 2));
        r
    }

    proof fn lemma_wire_len(&self) {
    }

    proof fn lemma_wire_injective(&self, other: &Self) {
        self.lemma_bytes();
        other.lemma_bytes();
        assert(self.0@ =~= other.0@);
        assert(self.0 == other.0);
    }
}

/// Converting a value to `LeU16` and back gives the value.
pub proof fn lemma_le_u16_round_trip(v: u16)
    ensures
        LeU16::from_value(v)@ == v,
        LeU16::from_value(v).wire() == le16(v),
{
}

/// The bytes of a sequence of values, one after the other.
pub open spec fn seq_wire<T: WireFormat>(s: Seq<T>) -> Seq<u8>
    decreases s.len(),
{
    if s.len() == 0 {
        Seq::<u8>::empty()
    } else {
        seq_wire(s.drop_last()) + s.last().wire()
    }
}

pub proof fn lemma_seq_wire_len<T: WireFormat>(s: Seq<T>)
    ensures
        seq_wire(s).len() == s.len() * T::wire_len(),
    decreases s.len(),
{
    if s.len() > 0 {
        lemma_seq_wire_len(s.drop_last());
        s.last().lemma_wire_len();
        assert((s.len() - 1) * T::wire_len() + T::wire_len() == s.len() * T::wire_len()) by (nonlinear_arith);
    }
}

/// Sequences of equal length with the same bytes are equal.
pub proof fn lemma_seq_wire_injective<T: WireFormat>(s1: Seq<T>, s2: Seq<T>)
    requires
        s1.len() == s2.len(),
        seq_wire(s1) == seq_wire(s2),
    ensures
        s1 == s2,
    decreases s1.len(),
{
    if s1.len() > 0 {
        let p1 = s1.drop_last();
        let p2 = s2.drop_last();
        lemma_seq_wire_len(p1);
        lemma_seq_wire_len(p2);
        s1.last().lemma_wire_len();
        s2.last().lemma_wire_len();
        let n = seq_wire(p1).len() as int;
        assert(seq_wire(p1) =~= seq_wire(s1).subrange(0, n));
        assert(seq_wire(p2) =~= seq_wire(s2).subrange(0, n));
        assert(s1.last().wire() =~= seq_wire(s1).subrange(n, seq_wire(s1).len() as int));
        assert(s2.last().wire() =~= seq_wire(s2).subrange(n, seq_wire(s2).len() as int));
        lemma_seq_wire_injective(p1, p2);
        s1.last().lemma_wire_injective(&s2.last());
        assert forall|i: int| 0 <= i < s1.len() implies s1[i] == s2[i] by {
            if i < s1.len() - 1 {
                assert(s1[i] == p1[i] && s2[i] == p2[i]);
            }
        }
        assert(s1 =~= s2);
    }
}

/// Decoding the bytes that encoding a value wrote gives that value back.
pub proof fn lemma_decode_encoded<T: WireFormat>(x: T, bytes: Seq<u8>, at: int, r: T)
    requires
        0 <= at,
        at + T::wire_len() <= bytes.len(),
        bytes.subrange(at, at + T::wire_len()) == x.wire(),
        r.wire() == bytes.subrange(at, at + T::wire_len()),
    ensures
        r == x,
{
    r.lemma_wire_injective(&x);
}

} // verus!
