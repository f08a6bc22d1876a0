//! The LampArray feature reports of the HID "Lighting And Illumination" usage
//! page, with their byte layouts.
use vstd::prelude::*;

use crate::rgb::Rgb;
use crate::wire::{le16, le32, lemma_seq_wire_injective, lemma_seq_wire_len, seq_wire, LeU16, WireFormat};

verus! {

broadcast use vstd::array::group_array_axioms;

/// `n` zero bytes: the layout of a report whose fields are all zero.
pub open spec fn zeros(n: nat) -> Seq<u8> {
    Seq::new(n, |_i: int| 0u8)
}

/// The HID usage id under which the lighting usage page lists a report.
pub trait UsageId {
    const USAGE_ID: u8;
}

/// A feature report as it crosses the `ioctl` boundary: the report id, then
/// the report's own bytes.
#[derive(Debug)]
pub struct Report<T> {
    pub report_id: u8,
    pub data: T,
}

impl<T: WireFormat> Report<T> {
    /// The bytes handed to the kernel: the report id, then the report.
    pub open spec fn frame(&self) -> Seq<u8> {
        seq![self.report_id] + self.data.wire()
    }

    /// Length of every frame of this report type.
    pub open spec fn spec_frame_len() -> nat {
        1 + T::wire_len()
    }

    pub fn frame_len() -> (n: usize)
        ensures
            n == Self::spec_frame_len(),
    {
        1 + T::encoded_len()
    }

    pub fn to_frame(&self) -> (b: Vec<u8>)
        ensures
            b@ == self.frame(),
            b@.len() == Self::spec_frame_len(),
    {
        let mut out: Vec<u8> = Vec::new();
        out.push(self.report_id);
        self.data.encode(&mut out);
        proof {
            self.data.lemma_wire_len();
        }
        assert(out@ =~= self.frame());
        out
    }

    /// Reads a frame the kernel filled in.
    pub fn from_frame(bytes: &[u8]) -> (r: Report<T>)
        requires
            bytes@.len() == Self::spec_frame_len(),
        ensures
            r.frame() == bytes@,
    {
        let report_id = bytes[0];
        let data = T::decode(bytes, 1);
        let r = Report { report_id, data };
        assert(r.frame() =~= bytes@);
        r
    }
}

/// A frame is read back as the report it was written from.
pub proof fn lemma_frame_round_trip<T: WireFormat>(a: Report<T>, b: Report<T>)
    requires
        a.frame() == b.frame(),
    ensures
        a == b,
{
    a.data.lemma_wire_len();
    b.data.lemma_wire_len();
    assert(a.frame()[0] == a.report_id);
    assert(b.frame()[0] == b.report_id);
    assert(a.data.wire() =~= a.frame().drop_first());
    assert(b.data.wire() =~= b.frame().drop_first());
    a.data.lemma_wire_injective(&b.data);
}

/// The colour of one lamp: red, green, blue and an intensity.
#[derive(Debug, Clone, Copy)]
pub struct Color {
    red: u8,
    green: u8,
    blue: u8,
    pub intensity: u8,
}

impl Color {
    /// The colour that `Color::from` makes of an `Rgb`: its channels at full
    /// intensity.
    pub closed spec fn of_rgb(c: Rgb) -> Color {
        Color { red: c.r, green: c.g, blue: c.b, intensity: 255 }
    }

    pub broadcast proof fn lemma_of_rgb(c: Rgb)
        ensures
            (#[trigger] Color::of_rgb(c)).wire() == seq![c.r, c.g, c.b, 255u8],
    {
    }
}

impl Default for Color {
    fn default() -> (c: Color)
        ensures
            c.wire() == zeros(4),
    {
        let c = Color { red: 0, green: 0, blue: 0, intensity: 0 };
        assert(c.wire() =~= zeros(4));
        c
    }
}

impl From<Rgb> for Color {
    fn from(value: Rgb) -> (c: Color) {
        let Rgb { r: red, g: green, b: blue } = value;
        Color { red, green, blue, intensity: 255 }
    }
}

impl vstd::std_specs::convert::FromSpecImpl<Rgb> for Color {
    open spec fn obeys_from_spec() -> bool {
        true
    }

    open spec fn from_spec(c: Rgb) -> Color {
        Color::of_rgb(c)
    }
}

impl WireFormat for Color {
    closed spec fn wire(&self) -> Seq<u8> {
        seq![self.red, self.green, self.blue, self.intensity]
    }

    open spec fn wire_len() -> nat {
        4
    }

    fn encoded_len() -> (n: usize) {
        4
    }

    fn encode(&self, out: &mut Vec<u8>) {
        out.push(self.red);
        out.push(self.green);
        out.push(self.blue);
        out.push(self.intensity);
        assert(final(out)@ =~= old(out)@ + self.wire());
    }

    fn decode(bytes: &[u8], at: usize) -> (r: Color) {
        let r = Color {
            red: bytes[at],
            green: bytes[at + 1],
            blue: bytes[at + 2],
            intensity: bytes[at + 3],
        };
        assert(r.wire() =~= bytes@.subrange(at as int, at + 4));
        r
    }

    proof fn lemma_wire_len(&self) {
    }

    proof fn lemma_wire_injective(&self, other: &Self) {
        assert(self.wire()[0] == other.wire()[0]);
        assert(self.wire()[1] == other.wire()[1]);
        assert(self.wire()[2] == other.wire()[2]);
        assert(self.wire()[3] == other.wire()[3]);
    }
}

// The LampArray feature reports, in the order of their usage ids.

/// `LampArrayAttributesReport`: how many lamps the array has, its bounding
/// box, kind and minimal update interval.
#[derive(Debug)]
pub struct LampArrayAttributesReport {
    pub lamp_count: LeU16,
    pub bb_w: u32,
    pub bb_h: u32,
    pub bb_d: u32,
    pub la_type: u32,
    pub min_upd_interval: u32,
}

impl UsageId for LampArrayAttributesReport {
    const USAGE_ID: u8 = 0x02;
}

impl Default for LampArrayAttributesReport {
    fn default() -> (r: LampArrayAttributesReport)
        ensures
            r.wire() == zeros(22),
    {
        let r = LampArrayAttributesReport {
            lamp_count: LeU16::default(),
            bb_w: 0,
            bb_h: 0,
            bb_d: 0,
            la_type: 0,
            min_upd_interval: 0,
        };
        assert(r.wire() =~= zeros(22));
        r
    }
}

impl WireFormat for LampArrayAttributesReport {
    open spec fn wire(&self) -> Seq<u8> {
        le16(self.lamp_count@) + le32(self.bb_w) + le32(self.bb_h) + le32(self.bb_d) + le32(
            self.la_type,
        ) + le32(self.min_upd_interval)
    }

    open spec fn wire_len() -> nat {
        22
    }

    fn encoded_len() -> (n: usize) {
        22
    }

    fn encode(&self, out: &mut Vec<u8>) {
        self.lamp_count.encode(out);
        self.bb_w.encode(out);
        self.bb_h.encode(out);
        self.bb_d.encode(out);
        self.la_type.encode(out);
        self.min_upd_interval.encode(out);
        assert(final(out)@ =~= old(out)@ + self.wire());
    }

    fn decode(bytes: &[u8], at: usize) -> (r: LampArrayAttributesReport) {
        assert(bytes@.len() == bytes.len());
        let r = LampArrayAttributesReport {
            lamp_count: LeU16::decode(bytes, at),
            bb_w: u32::decode(bytes, at + 2),
            bb_h: u32::decode(bytes, at + 6),
            bb_d: u32::decode(bytes, at + 10),
            la_type: u32::decode(bytes, at + 14),
            min_upd_interval: u32::decode(bytes, at + 18),
        };
        assert(r.wire() =~= bytes@.subrange(at as int, at + 22));
        r
    }

    proof fn lemma_wire_len(&self) {
    }

    proof fn lemma_wire_injective(&self, other: &Self) {
        let (a, b) = (self.wire(), other.wire());
        assert(self.lamp_count.wire() =~= a.subrange(0, 2));
        assert(other.lamp_count.wire() =~= b.subrange(0, 2));
        self.lamp_count.lemma_wire_injective(&other.lamp_count);
        assert(self.bb_w.wire() =~= a.subrange(2, 6) && other.bb_w.wire() =~= b.subrange(2, 6));
        self.bb_w.lemma_wire_injective(&other.bb_w);
        assert(self.bb_h.wire() =~= a.subrange(6, 10) && other.bb_h.wire() =~= b.subrange(6, 10));
        self.bb_h.lemma_wire_injective(&other.bb_h);
        assert(self.bb_d.wire() =~= a.subrange(10, 14) && other.bb_d.wire() =~= b.subrange(10, 14));
        self.bb_d.lemma_wire_injective(&other.bb_d);
        assert(self.la_type.wire() =~= a.subrange(14, 18) && other.la_type.wire() =~= b.subrange(
            14,
            18,
        ));
        self.la_type.lemma_wire_injective(&other.la_type);
        assert(self.min_upd_interval.wire() =~= a.subrange(18, 22)
            && other.min_upd_interval.wire() =~= b.subrange(18, 22));
        self.min_upd_interval.lemma_wire_injective(&other.min_upd_interval);
    }
}

/// `LampAttributesRequestReport`: selects the lamp whose attributes the next
/// response report describes.
#[derive(Debug)]
pub struct LampAttributeRequestReport {
    lamp_id: LeU16,
}

impl UsageId for LampAttributeRequestReport {
    const USAGE_ID: u8 = 0x20;
}

impl Default for LampAttributeRequestReport {
    fn default() -> (r: LampAttributeRequestReport)
        ensures
            r.wire() == zeros(2),
    {
        let r = LampAttributeRequestReport { lamp_id: LeU16::default() };
        assert(r.wire() =~= zeros(2));
        r
    }
}

impl WireFormat for LampAttributeRequestReport {
    closed spec fn wire(&self) -> Seq<u8> {
        le16(self.lamp_id@)
    }

    open spec fn wire_len() -> nat {
        2
    }

    fn encoded_len() -> (n: usize) {
        2
    }

    fn encode(&self, out: &mut Vec<u8>) {
        self.lamp_id.encode(out);
    }

    fn decode(bytes: &[u8], at: usize) -> (r: LampAttributeRequestReport) {
        LampAttributeRequestReport { lamp_id: LeU16::decode(bytes, at) }
    }

    proof fn lemma_wire_len(&self) {
    }

    proof fn lemma_wire_injective(&self, other: &Self) {
        self.lamp_id.lemma_wire_injective(&other.lamp_id);
    }
}

/// `LampAttributesResponseReport`: the attributes of one lamp.
#[derive(Debug, Clone)]
pub struct LampAttributeResposeReport {
    pub lamp_id: LeU16,
    pos_x: u32,
    pos_y: u32,
    pos_z: u32,
    upd_latency: u32,
    purpose: u32,
    pub color: Color,
    is_programmable: u8,
    input_binding: u8,
}

impl UsageId for LampAttributeResposeReport {
    const USAGE_ID: u8 = 0x22;
}

impl LampAttributeResposeReport {
    /// The id of the lamp that the report describes.
    pub closed spec fn spec_lamp_id(&self) -> u16 {
        self.lamp_id@
    }

    /// The colour of the lamp that the report describes.
    pub closed spec fn spec_color(&self) -> Color {
        self.color
    }

    /// The id is the first field of the report.
    pub broadcast proof fn lemma_lamp_id_bytes(&self)
        ensures
            #[trigger] self.wire().subrange(0, 2) == le16(self.spec_lamp_id()),
    {
        assert(self.wire().subrange(0, 2) =~= le16(self.spec_lamp_id()));
    }

    pub fn lamp_id_value(&self) -> (id: u16)
        ensures
            id == self.spec_lamp_id(),
    {
        u16::from(self.lamp_id)
    }
}

impl Default for LampAttributeResposeReport {
    fn default() -> (r: LampAttributeResposeReport)
        ensures
            r.wire() == zeros(28),
            r.spec_lamp_id() == 0,
    {
        let r = LampAttributeResposeReport {
            lamp_id: LeU16::default(),
            pos_x: 0,
            pos_y: 0,
            pos_z: 0,
            upd_latency: 0,
            purpose: 0,
            color: Color::default(),
            is_programmable: 0,
            input_binding: 0,
        };
        assert(r.wire() =~= zeros(28));
        r
    }
}

impl WireFormat for LampAttributeResposeReport {
    closed spec fn wire(&self) -> Seq<u8> {
        le16(self.lamp_id@) + le32(self.pos_x) + le32(self.pos_y) + le32(self.pos_z) + le32(
            self.upd_latency,
        ) + le32(self.purpose) + self.color.wire() + seq![self.is_programmable, self.input_binding]
    }

    open spec fn wire_len() -> nat {
        28
    }

    fn encoded_len() -> (n: usize) {
        28
    }

    fn encode(&self, out: &mut Vec<u8>) {
        self.lamp_id.encode(out);
        self.pos_x.encode(out);
        self.pos_y.encode(out);
        self.pos_z.encode(out);
        self.upd_latency.encode(out);
        self.purpose.encode(out);
        self.color.encode(out);
        out.push(self.is_programmable);
        out.push(self.input_binding);
        assert(final(out)@ =~= old(out)@ + self.wire());
    }

    fn decode(bytes: &[u8], at: usize) -> (r: LampAttributeResposeReport) {
        assert(bytes@.len() == bytes.len());
        let r = LampAttributeResposeReport {
            lamp_id: LeU16::decode(bytes, at),
            pos_x: u32::decode(bytes, at + 2),
            pos_y: u32::decode(bytes, at + 6),
            pos_z: u32::decode(bytes, at + 10),
            upd_latency: u32::decode(bytes, at + 14),
            purpose: u32::decode(bytes, at + 18),
            color: Color::decode(bytes, at + 22),
            is_programmable: bytes[at + 26],
            input_binding: bytes[at + 27],
        };
        proof {
            r.color.lemma_wire_len();
        }
        assert(r.wire() =~= bytes@.subrange(at as int, at + 28));
        r
    }

    proof fn lemma_wire_len(&self) {
        self.color.lemma_wire_len();
    }

    proof fn lemma_wire_injective(&self, other: &Self) {
        self.color.lemma_wire_len();
        other.color.lemma_wire_len();
        let (a, b) = (self.wire(), other.wire());
        assert(self.lamp_id.wire() =~= a.subrange(0, 2));
        assert(other.lamp_id.wire() =~= b.subrange(0, 2));
        self.lamp_id.lemma_wire_injective(&other.lamp_id);
        assert(self.pos_x.wire() =~= a.subrange(2, 6) && other.pos_x.wire() =~= b.subrange(2, 6));
        self.pos_x.lemma_wire_injective(&other.pos_x);
        assert(self.pos_y.wire() =~= a.subrange(6, 10) && other.pos_y.wire() =~= b.subrange(6, 10));
        self.pos_y.lemma_wire_injective(&other.pos_y);
        assert(self.pos_z.wire() =~= a.subrange(10, 14) && other.pos_z.wire() =~= b.subrange(
            10,
            14,
        ));
        self.pos_z.lemma_wire_injective(&other.pos_z);
        assert(self.upd_latency.wire() =~= a.subrange(14, 18) && other.upd_latency.wire()
            =~= b.subrange(14, 18));
        self.upd_latency.lemma_wire_injective(&other.upd_latency);
        assert(self.purpose.wire() =~= a.subrange(18, 22) && other.purpose.wire() =~= b.subrange(
            18,
            22,
        ));
        self.purpose.lemma_wire_injective(&other.purpose);
        assert(self.color.wire() =~= a.subrange(22, 26) && other.color.wire() =~= b.subrange(
            22,
            26,
        ));
        self.color.lemma_wire_injective(&other.color);
        assert(a[26] == b[26] && a[27] == b[27]);
    }
}

/// `LampMultiUpdateReport`: new colours for up to eight lamps.
#[derive(Debug)]
pub struct LampMultiUpdateReport {
    pub lamp_count: u8,
    pub lamp_update_flags: u8,
    pub lamp_id: [LeU16; 8],
    pub colors: [Color; 8],
}

impl UsageId for LampMultiUpdateReport {
    const USAGE_ID: u8 = 0x50;
}

impl Default for LampMultiUpdateReport {
    fn default() -> (r: LampMultiUpdateReport)
        ensures
            r.wire() == zeros(50),
    {
        let d = LeU16::default();
        let c = Color::default();
        let r = LampMultiUpdateReport {
            lamp_count: 0,
            lamp_update_flags: 0,
            lamp_id: [d, d, d, d, d, d, d, d],
            colors: [c, c, c, c, c, c, c, c],
        };
        assert(d.wire() =~= zeros(2));
        assert forall|i: int| 0 <= i < 8 implies (#[trigger] r.lamp_id@[i]).wire() == zeros(2) by {
            assert(r.lamp_id@[i] == d);
        }
        assert forall|i: int| 0 <= i < 8 implies (#[trigger] r.colors@[i]).wire() == zeros(4) by {
            assert(r.colors@[i] == c);
        }
        proof {
            lemma_zero_run(r.lamp_id@, 2);
            lemma_zero_run(r.colors@, 4);
        }
        assert(r.wire() =~= zeros(50));
        r
    }
}

proof fn lemma_zero_run<T: WireFormat>(s: Seq<T>, w: nat)
    requires
        T::wire_len() == w,
        forall|i: int| 0 <= i < s.len() ==> (#[trigger] s[i]).wire() == zeros(w),
    ensures
        seq_wire(s) == zeros(s.len() * w),
    decreases s.len(),
{
    if s.len() > 0 {
        lemma_zero_run(s.drop_last(), w);
        assert((s.len() - 1) * w + w == s.len() * w) by (nonlinear_arith);
        assert(seq_wire(s) =~= zeros(s.len() * w));
    }
}

impl WireFormat for LampMultiUpdateReport {
    open spec fn wire(&self) -> Seq<u8> {
        seq![self.lamp_count, self.lamp_update_flags] + seq_wire(self.lamp_id@) + seq_wire(
            self.colors@,
        )
    }

    open spec fn wire_len() -> nat {
        50
    }

    fn encoded_len() -> (n: usize) {
        50
    }

    fn encode(&self, out: &mut Vec<u8>) {
        let ghost start = out@;
        out.push(self.lamp_count);
        out.push(self.lamp_update_flags);
        let ghost head = out@;
        let mut k: usize = 0;
        assert(self.lamp_id@.take(0) =~= Seq::<LeU16>::empty());
        while k < 8
            invariant
                k <= 8,
                out@ == head + seq_wire(self.lamp_id@.take(k as int)),
            decreases 8 - k,
        {
            self.lamp_id[k].encode(out);
            assert(self.lamp_id@.take(k + 1).drop_last() =~= self.lamp_id@.take(k as int));
            k = k + 1;
            assert(out@ =~= head + seq_wire(self.lamp_id@.take(k as int)));
        }
        assert(self.lamp_id@.take(8) =~= self.lamp_id@);
        let ghost mid = out@;
        let mut k: usize = 0;
        assert(self.colors@.take(0) =~= Seq::<Color>::empty());
        while k < 8
            invariant
                k <= 8,
                out@ == mid + seq_wire(self.colors@.take(k as int)),
            decreases 8 - k,
        {
            self.colors[k].encode(out);
            assert(self.colors@.take(k + 1).drop_last() =~= self.colors@.take(k as int));
            k = k + 1;
            assert(out@ =~= mid + seq_wire(self.colors@.take(k as int)));
        }
        assert(self.colors@.take(8) =~= self.colors@);
        assert(out@ =~= start + self.wire());
    }

    fn decode(bytes: &[u8], at: usize) -> (r: LampMultiUpdateReport) {
        assert(bytes@.len() == bytes.len());
        let mut ids = [LeU16::default();8];
        let mut k: usize = 0;
        assert(ids@.take(0) =~= Seq::<LeU16>::empty());
        assert(bytes@.subrange(at + 2, at + 2) =~= Seq::<u8>::empty());
        while k < 8
            invariant
                k <= 8,
                at + 50 <= bytes@.len(),
                bytes@.len() == bytes.len(),
                ids@.len() == 8,
                seq_wire(ids@.take(k as int)) == bytes@.subrange(at + 2, at + 2 + 2 * k),
            decreases 8 - k,
        {
            let ghost before = ids@;
            let id = LeU16::decode(bytes, at + 2 + 2 * k);
            ids[k] = id;
            assert(ids@.take(k + 1).drop_last() =~= before.take(k as int));
            k = k + 1;
            assert(seq_wire(ids@.take(k as int)) =~= bytes@.subrange(at + 2, at + 2 + 2 * k));
        }
        assert(ids@.take(8) =~= ids@);
        let mut colors = [Color::default();8];
        let mut k: usize = 0;
        assert(colors@.take(0) =~= Seq::<Color>::empty());
        assert(bytes@.subrange(at + 18, at + 18) =~= Seq::<u8>::empty());
        while k < 8
            invariant
                k <= 8,
                at + 50 <= bytes@.len(),
                bytes@.len() == bytes.len(),
                colors@.len() == 8,
                seq_wire(colors@.take(k as int)) == bytes@.subrange(at + 18, at + 18 + 4 * k),
            decreases 8 - k,
        {
            let ghost before = colors@;
            let c = Color::decode(bytes, at + 18 + 4 * k);
            colors[k] = c;
            assert(colors@.take(k + 1).drop_last() =~= before.take(k as int));
            k = k + 1;
            assert(seq_wire(colors@.take(k as int)) =~= bytes@.subrange(at + 18, at + 18 + 4 * k));
        }
        assert(colors@.take(8) =~= colors@);
        let r = LampMultiUpdateReport {
            lamp_count: bytes[at],
            lamp_update_flags: bytes[at + 1],
            lamp_id: ids,
            colors,
        };
        assert(r.wire() =~= bytes@.subrange(at as int, at + 50));
        r
    }

    proof fn lemma_wire_len(&self) {
        lemma_seq_wire_len(self.lamp_id@);
        lemma_seq_wire_len(self.colors@);
    }

    proof fn lemma_wire_injective(&self, other: &Self) {
        lemma_seq_wire_len(self.lamp_id@);
        lemma_seq_wire_len(self.colors@);
        lemma_seq_wire_len(other.lamp_id@);
        lemma_seq_wire_len(other.colors@);
        let (a, b) = (self.wire(), other.wire());
        assert(a[0] == b[0] && a[1] == b[1]);
        assert(seq_wire(self.lamp_id@) =~= a.subrange(2, 18));
        assert(seq_wire(other.lamp_id@) =~= b.subrange(2, 18));
        assert(seq_wire(self.colors@) =~= a.subrange(18, 50));
        assert(seq_wire(other.colors@) =~= b.subrange(18, 50));
        lemma_seq_wire_injective(self.lamp_id@, other.lamp_id@);
        lemma_seq_wire_injective(self.colors@, other.colors@);
        assert(self.lamp_id =~= other.lamp_id);
        assert(self.colors =~= other.colors);
    }
}

/// `LampRangeUpdateReport`: one colour for a contiguous range of lamp ids.
#[derive(Debug)]
pub struct LampRangeUpdateReport {
    pub lamp_update_flags: u8,
    pub lamp_id_start: LeU16,
    pub lamp_id_end: LeU16,
    pub colors: Color,
}

impl UsageId for LampRangeUpdateReport {
    const USAGE_ID: u8 = 0x60;
}

impl Default for LampRangeUpdateReport {
    fn default() -> (r: LampRangeUpdateReport)
        ensures
            r.wire() == zeros(9),
    {
        let r = LampRangeUpdateReport {
            lamp_update_flags: 0,
            lamp_id_start: LeU16::default(),
            lamp_id_end: LeU16::default(),
            colors: Color::default(),
        };
        assert(r.wire() =~= zeros(9));
        r
    }
}

impl WireFormat for LampRangeUpdateReport {
    open spec fn wire(&self) -> Seq<u8> {
        seq![self.lamp_update_flags] + le16(self.lamp_id_start@) + le16(self.lamp_id_end@)
            + self.colors.wire()
    }

    open spec fn wire_len() -> nat {
        9
    }

    fn encoded_len() -> (n: usize) {
        9
    }

    fn encode(&self, out: &mut Vec<u8>) {
        out.push(self.lamp_update_flags);
        self.lamp_id_start.encode(out);
        self.lamp_id_end.encode(out);
        self.colors.encode(out);
        assert(final(out)@ =~= old(out)@ + self.wire());
    }

    fn decode(bytes: &[u8], at: usize) -> (r: LampRangeUpdateReport) {
        assert(bytes@.len() == bytes.len());
        let r = LampRangeUpdateReport {
            lamp_update_flags: bytes[at],
            lamp_id_start: LeU16::decode(bytes, at + 1),
            lamp_id_end: LeU16::decode(bytes, at + 3),
            colors: Color::decode(bytes, at + 5),
        };
        proof {
            r.colors.lemma_wire_len();
        }
        assert(r.wire() =~= bytes@.subrange(at as int, at + 9));
        r
    }

    proof fn lemma_wire_len(&self) {
        self.colors.lemma_wire_len();
    }

    proof fn lemma_wire_injective(&self, other: &Self) {
        self.colors.lemma_wire_len();
        other.colors.lemma_wire_len();
        let (a, b) = (self.wire(), other.wire());
        assert(a[0] == b[0]);
        assert(self.lamp_id_start.wire() =~= a.subrange(1, 3) && other.lamp_id_start.wire()
            =~= b.subrange(1, 3));
        self.lamp_id_start.lemma_wire_injective(&other.lamp_id_start);
        assert(self.lamp_id_end.wire() =~= a.subrange(3, 5) && other.lamp_id_end.wire()
            =~= b.subrange(3, 5));
        self.lamp_id_end.lemma_wire_injective(&other.lamp_id_end);
        assert(self.colors.wire() =~= a.subrange(5, 9) && other.colors.wire() =~= b.subrange(5, 9));
        self.colors.lemma_wire_injective(&other.colors);
    }
}

/// `LampArrayControlReport`: whether the firmware drives the lamps itself.
#[derive(Debug)]
pub struct LampArrayControlReport {
    pub autonomous_mode: u8,
}

impl UsageId for LampArrayControlReport {
    const USAGE_ID: u8 = 0x70;
}

impl Default for LampArrayControlReport {
    fn default() -> (r: LampArrayControlReport)
        ensures
            r.wire() == zeros(1),
    {
        let r = LampArrayControlReport { autonomous_mode: 0 };
        assert(r.wire() =~= zeros(1));
        r
    }
}

impl WireFormat for LampArrayControlReport {
    open spec fn wire(&self) -> Seq<u8> {
        seq![self.autonomous_mode]
    }

    open spec fn wire_len() -> nat {
        1
    }

    fn encoded_len() -> (n: usize) {
        1
    }

    fn encode(&self, out: &mut Vec<u8>) {
        out.push(self.autonomous_mode);
    }

    fn decode(bytes: &[u8], at: usize) -> (r: LampArrayControlReport) {
        let r = LampArrayControlReport { autonomous_mode: bytes[at] };
        assert(r.wire() =~= bytes@.subrange(at as int, at + 1));
        r
    }

    proof fn lemma_wire_len(&self) {
    }

    proof fn lemma_wire_injective(&self, other: &Self) {
        assert(self.wire()[0] == self.autonomous_mode);
        assert(other.wire()[0] == other.autonomous_mode);
    }
}

/// The unsigned little-endian number in the two bytes `w[i..i + 2]`.
pub open spec fn u16_at(w: Seq<u8>, i: int) -> int {
    w[i] + 256 * w[i + 1]
}

/// The unsigned little-endian number in the four bytes `w[i..i + 4]`.
pub open spec fn u32_at(w: Seq<u8>, i: int) -> int {
    w[i] + 256 * w[i + 1] + 65536 * w[i + 2] + 16777216 * w[i + 3]
}

proof fn lemma_le16_value(v: u16)
    ensures
        le16(v).len() == 2,
        u16_at(le16(v), 0) == v,
{
}

proof fn lemma_le32_value(v: u32)
    ensures
        le32(v).len() == 4,
        u32_at(le32(v), 0) == v,
{
    assert(v == (v % 256) + 256 * ((v / 256) % 256) + 65536 * ((v / 65536) % 256) + 16777216 * (v
        / 16777216)) by (bit_vector);
}

/// The bytes of a `LampArrayAttributesReport`: the lamp count at 0..2, then
/// the bounding box width, height and depth at 2..6, 6..10 and 10..14, the
/// kind of array at 14..18 and the minimal update interval at 18..22, each an
/// unsigned little-endian number.
pub proof fn lemma_attributes_report_layout(r: LampArrayAttributesReport)
    ensures
        r.wire().len() == 22,
        r.lamp_count@ == u16_at(r.wire(), 0),
        r.bb_w == u32_at(r.wire(), 2),
        r.bb_h == u32_at(r.wire(), 6),
        r.bb_d == u32_at(r.wire(), 10),
        r.la_type == u32_at(r.wire(), 14),
        r.min_upd_interval == u32_at(r.wire(), 18),
{
    let w = r.wire();
    lemma_le16_value(r.lamp_count@);
    lemma_le32_value(r.bb_w);
    lemma_le32_value(r.bb_h);
    lemma_le32_value(r.bb_d);
    lemma_le32_value(r.la_type);
    lemma_le32_value(r.min_upd_interval);
    assert(w.subrange(0, 2) =~= le16(r.lamp_count@));
    assert(w.subrange(2, 6) =~= le32(r.bb_w));
    assert(w.subrange(6, 10) =~= le32(r.bb_h));
    assert(w.subrange(10, 14) =~= le32(r.bb_d));
    assert(w.subrange(14, 18) =~= le32(r.la_type));
    assert(w.subrange(18, 22) =~= le32(r.min_upd_interval));
}

/// The bytes of a `LampAttributesResponseReport`: the lamp id, an unsigned
/// little-endian number, at 0..2, and the lamp's colour at 22..26, red, green,
/// blue and intensity.
pub proof fn lemma_response_report_layout(r: LampAttributeResposeReport)
    ensures
        r.wire().len() == 28,
        r.spec_lamp_id() == u16_at(r.wire(), 0),
        r.wire().subrange(22, 26) == r.spec_color().wire(),
{
    let w = r.wire();
    lemma_le16_value(r.lamp_id@);
    assert(w.subrange(0, 2) =~= le16(r.lamp_id@));
    assert(w.subrange(22, 26) =~= r.color.wire());
}

/// The bytes of a `LampRangeUpdateReport`: the update flags, the first and the
/// last lamp id of the range, unsigned little-endian, at 1..3 and 3..5, and
/// the colour at 5..9.
pub proof fn lemma_range_report_layout(r: LampRangeUpdateReport)
    ensures
        r.wire().len() == 9,
        r.wire()[0] == r.lamp_update_flags,
        r.lamp_id_start@ == u16_at(r.wire(), 1),
        r.lamp_id_end@ == u16_at(r.wire(), 3),
        r.wire().subrange(5, 9) == r.colors.wire(),
{
    let w = r.wire();
    r.colors.lemma_wire_len();
    lemma_le16_value(r.lamp_id_start@);
    lemma_le16_value(r.lamp_id_end@);
    assert(w.subrange(1, 3) =~= le16(r.lamp_id_start@));
    assert(w.subrange(3, 5) =~= le16(r.lamp_id_end@));
    assert(w.subrange(5, 9) =~= r.colors.wire());
}

} // verus!
