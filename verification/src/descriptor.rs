//! Recognising a LampArray device: the usage-page signature in its report
//! descriptor, the report ids of its LampArray feature reports, and the name
//! and ids in its `uevent` file.
use vstd::prelude::*;
use vstd::string::StringExecFns;

use hidparser::ReportField;

use crate::hid::{
    LampArrayAttributesReport, LampArrayControlReport, LampAttributeRequestReport,
    LampAttributeResposeReport, LampMultiUpdateReport, LampRangeUpdateReport, UsageId,
};
use crate::text::{
    chars_of, find_line_with_prefix, find_prefixed, hex_digits, is_white_space,
    lemma_hex_digits, lemma_split_on_concat, lemma_split_on_nonempty, lemma_split_on_single,
    lemma_trim_unchanged, lines, parse_hex, parse_unsigned_hex, pow16, split_chars, split_on,
    string_of, strip_cr, trim, trim_bounds,
};

verus! {

/// HID usage page for "Lighting And Illumination" (LampArray): `Usage Page (0x59)`.
pub const USAGE_PAGE_LIGHTING_ID: u8 = 0x59;

/// The descriptor bytes of the item `Usage Page (0x59)`.
pub const USAGE_PAGE_LIGHTING: [u8; 2] = [0x05, USAGE_PAGE_LIGHTING_ID];

/// The descriptor items that select the lighting usage page.
pub open spec fn usage_page_lighting() -> Seq<u8> {
    seq![0x05u8, USAGE_PAGE_LIGHTING_ID]
}

/// `needle` occurs in `haystack` as a contiguous run.
pub open spec fn occurs_in(haystack: Seq<u8>, needle: Seq<u8>) -> bool {
    exists|i: int|
        0 <= i <= haystack.len() - needle.len() && #[trigger] haystack.subrange(
            i,
            i + needle.len(),
        ) == needle
}

/// Whether `needle` occurs in `haystack`.
pub fn contains(haystack: &[u8], needle: &[u8]) -> (b: bool)
    requires
        needle@.len() > 0,
    ensures
        b == occurs_in(haystack@, needle@),
{
    let n = needle.len();
    if haystack.len() < n {
        assert(!occurs_in(haystack@, needle@));
        return false;
    }
    let mut i: usize = 0;
    while i <= haystack.len() - n
        invariant
            n == needle@.len() > 0,
            haystack@.len() == haystack.len(),
            n <= haystack@.len(),
            i <= haystack@.len() - n + 1,
            forall|j: int| 0 <= j < i ==> #[trigger] haystack@.subrange(j, j + n) != needle@,
        decreases haystack.len() - i,
    {
        let mut k: usize = 0;
        while k < n && haystack[i + k] == needle[k]
            invariant
                n == needle@.len(),
                haystack@.len() == haystack.len(),
                i + n <= haystack@.len(),
                k <= n,
                forall|m: int| 0 <= m < k ==> haystack@[i + m] == needle@[m],
            decreases n - k,
        {
            k = k + 1;
        }
        if k == n {
            assert(haystack@.subrange(i as int, i + n) =~= needle@);
            return true;
        }
        assert(haystack@.subrange(i as int, i + n)[k as int] != needle@[k as int]);
        i = i + 1;
    }
    false
}

/// A field of a feature report, as the parsed report descriptor lists it.
#[derive(Debug)]
pub enum HidField {
    /// A variable field: its 32-bit usage (page in the high half, id in the
    /// low half) and the usages of the collections it is a member of, in the
    /// parser's order.
    Variable { usage: u32, collections: Vec<u32> },
    Array,
    Padding,
}

/// A field, as plain values.
pub ghost enum HidFieldView {
    Variable { usage: u32, collections: Seq<u32> },
    Array,
    Padding,
}

impl DeepView for HidField {
    type V = HidFieldView;

    open spec fn deep_view(&self) -> HidFieldView {
        match self {
            HidField::Variable { usage, collections } => HidFieldView::Variable {
                usage: *usage,
                collections: collections@,
            },
            HidField::Array => HidFieldView::Array,
            HidField::Padding => HidFieldView::Padding,
        }
    }
}

/// A feature report, as the parsed report descriptor lists it.
#[derive(Debug)]
pub struct DescriptorFeature {
    pub report_id: Option<u32>,
    pub fields: Vec<HidField>,
}

/// A feature report, as plain values.
pub ghost struct FeatureView {
    pub report_id: Option<u32>,
    pub fields: Seq<HidFieldView>,
}

impl DeepView for DescriptorFeature {
    type V = FeatureView;

    open spec fn deep_view(&self) -> FeatureView {
        FeatureView { report_id: self.report_id, fields: self.fields.deep_view() }
    }
}

/// The usage page of a 32-bit usage (its high half).
pub open spec fn usage_page(usage: u32) -> u16 {
    (usage / 0x10000) as u16
}

/// The usage id of a 32-bit usage (its low half).
pub open spec fn usage_id(usage: u32) -> u16 {
    (usage % 0x10000) as u16
}

/// A feature report that the lighting page claims: its first field is a
/// variable whose usage page, cut to a byte, is the lighting page, and it
/// has a report id.
pub open spec fn is_lighting_feature(f: FeatureView) -> bool {
    &&& f.fields.len() > 0
    &&& f.fields[0] matches HidFieldView::Variable { usage, .. } && usage_page(usage) as u8
        == USAGE_PAGE_LIGHTING_ID
    &&& f.report_id is Some
}

/// The usage of the collection one level in from the outermost, for the
/// first variable field that sits that deep.
pub open spec fn logical_collection_usage(fields: Seq<HidFieldView>) -> Option<u32>
    decreases fields.len(),
{
    if fields.len() == 0 {
        None
    } else {
        match fields[0] {
            HidFieldView::Variable { collections, .. } if collections.len() > 1 => Some(
                collections[1],
            ),
            _ => logical_collection_usage(fields.drop_first()),
        }
    }
}

/// Every lighting feature report names the logical collection it describes.
pub open spec fn features_well_formed(features: Seq<FeatureView>) -> bool {
    forall|i: int|
        0 <= i < features.len() && is_lighting_feature(#[trigger] features[i])
            ==> logical_collection_usage(features[i].fields) is Some
}

/// The report ids of the six LampArray feature reports, where found.
#[derive(Debug, Clone, Copy, PartialEq, Eq, Structural)]
pub struct ReportIds {
    pub attributes: Option<u8>,
    pub attribute_request: Option<u8>,
    pub attribute_response: Option<u8>,
    pub multi_update: Option<u8>,
    pub range_update: Option<u8>,
    pub control: Option<u8>,
}

impl ReportIds {
    pub open spec fn none() -> ReportIds {
        ReportIds {
            attributes: None,
            attribute_request: None,
            attribute_response: None,
            multi_update: None,
            range_update: None,
            control: None,
        }
    }
}

/// `ids` after seeing a lighting feature report with report id `id` that
/// describes the collection with usage id `usage`: the report of that usage
/// gets the id; other usages change nothing.
pub open spec fn record_report(ids: ReportIds, usage: u8, id: u8) -> ReportIds {
    if usage == LampArrayAttributesReport::USAGE_ID {
        ReportIds { attributes: Some(id), ..ids }
    } else if usage == LampAttributeRequestReport::USAGE_ID {
        ReportIds { attribute_request: Some(id), ..ids }
    } else if usage == LampAttributeResposeReport::USAGE_ID {
        ReportIds { attribute_response: Some(id), ..ids }
    } else if usage == LampMultiUpdateReport::USAGE_ID {
        ReportIds { multi_update: Some(id), ..ids }
    } else if usage == LampRangeUpdateReport::USAGE_ID {
        ReportIds { range_update: Some(id), ..ids }
    } else if usage == LampArrayControlReport::USAGE_ID {
        ReportIds { control: Some(id), ..ids }
    } else {
        ids
    }
}

/// The report ids found in `features`, read in order; a later report of the
/// same usage replaces an earlier one.
pub open spec fn scan_report_ids(features: Seq<FeatureView>) -> ReportIds
    decreases features.len(),
{
    if features.len() == 0 {
        ReportIds::none()
    } else {
        let ids = scan_report_ids(features.drop_last());
        let f = features.last();
        if is_lighting_feature(f) {
            record_report(
                ids,
                usage_id(logical_collection_usage(f.fields).unwrap()) as u8,
                f.report_id.unwrap() as u8,
            )
        } else {
            ids
        }
    }
}

fn logical_collection_usage_of(fields: &Vec<HidField>) -> (r: Option<u32>)
    ensures
        r == logical_collection_usage(fields.deep_view()),
{
    let ghost all = fields.deep_view();
    let mut k: usize = 0;
    assert(all.skip(0) =~= all);
    while k < fields.len()
        invariant
            all == fields.deep_view(),
            k <= fields.len(),
            logical_collection_usage(all) == logical_collection_usage(all.skip(k as int)),
        decreases fields.len() - k,
    {
        assert(all.skip(k as int)[0] == all[k as int]);
        assert(all.skip(k as int).drop_first() =~= all.skip(k + 1));
        match &fields[k] {
            HidField::Variable { collections, .. } => {
                if collections.len() > 1 {
                    return Some(collections[1]);
                }
            },
            _ => {},
        }
        k = k + 1;
    }
    None
}

fn is_lighting_feature_exec(f: &DescriptorFeature) -> (b: bool)
    ensures
        b == is_lighting_feature(f.deep_view()),
{
    if f.fields.len() == 0 || f.report_id.is_none() {
        return false;
    }
    match &f.fields[0] {
        HidField::Variable { usage, .. } => ((*usage / 0x10000) as u16) as u8
            == USAGE_PAGE_LIGHTING_ID,
        _ => false,
    }
}

/// Whether every lighting feature report names its logical collection (the
/// precondition of `scan_features`).
pub fn features_are_well_formed(features: &Vec<DescriptorFeature>) -> (b: bool)
    ensures
        b == features_well_formed(features.deep_view()),
{
    let ghost all = features.deep_view();
    let mut k: usize = 0;
    while k < features.len()
        invariant
            all == features.deep_view(),
            k <= features.len(),
            forall|i: int|
                0 <= i < k && is_lighting_feature(#[trigger] all[i])
                    ==> logical_collection_usage(all[i].fields) is Some,
        decreases features.len() - k,
    {
        if is_lighting_feature_exec(&features[k]) {
            if logical_collection_usage_of(&features[k].fields).is_none() {
                assert(features[k as int].deep_view() == all[k as int]);
                assert(is_lighting_feature(all[k as int]));
                return false;
            }
        }
        k = k + 1;
    }
    true
}

fn record_report_exec(ids: &mut ReportIds, usage: u8, id: u8)
    ensures
        *final(ids) == record_report(*old(ids), usage, id),
{
    if usage == LampArrayAttributesReport::USAGE_ID {
        ids.attributes = Some(id);
    } else if usage == LampAttributeRequestReport::USAGE_ID {
        ids.attribute_request = Some(id);
    } else if usage == LampAttributeResposeReport::USAGE_ID {
        ids.attribute_response = Some(id);
    } else if usage == LampMultiUpdateReport::USAGE_ID {
        ids.multi_update = Some(id);
    } else if usage == LampRangeUpdateReport::USAGE_ID {
        ids.range_update = Some(id);
    } else if usage == LampArrayControlReport::USAGE_ID {
        ids.control = Some(id);
    }
}

/// The report ids of the LampArray feature reports among `features`.
pub fn scan_features(features: &Vec<DescriptorFeature>) -> (ids: ReportIds)
    requires
        features_well_formed(features.deep_view()),
    ensures
        ids == scan_report_ids(features.deep_view()),
{
    let ghost all = features.deep_view();
    let mut ids = ReportIds {
        attributes: None,
        attribute_request: None,
        attribute_response: None,
        multi_update: None,
        range_update: None,
        control: None,
    };
    let mut k: usize = 0;
    assert(all.take(0) =~= Seq::<FeatureView>::empty());
    while k < features.len()
        invariant
            all == features.deep_view(),
            features_well_formed(all),
            k <= features.len(),
            ids == scan_report_ids(all.take(k as int)),
        decreases features.len() - k,
    {
        assert(all.take(k + 1).drop_last() =~= all.take(k as int));
        assert(all.take(k + 1).last() == all[k as int]);
        let f = &features[k];
        if is_lighting_feature_exec(f) {
            assert(is_lighting_feature(all[k as int]));
            match (logical_collection_usage_of(&f.fields), f.report_id) {
                (Some(usage), Some(id)) => {
                    record_report_exec(&mut ids, ((usage % 0x10000) as u16) as u8, id as u8);
                },
                _ => {},
            }
        }
        k = k + 1;
    }
    assert(all.take(features.len() as int) =~= all);
    ids
}

/// The `(vendor, product)` pair of a `HID_ID=bus:vendor:product` value: the
/// second and third `:`-separated fields, each trimmed and read as a
/// hexadecimal `u32`, then cut to 16 bits.
pub open spec fn spec_parse_hid_id(s: Seq<char>) -> Option<(u16, u16)> {
    let parts = split_on(trim(s), ':');
    if parts.len() < 3 {
        None
    } else {
        match (
            parse_unsigned_hex(trim(parts[1]), u32::MAX as nat),
            parse_unsigned_hex(trim(parts[2]), u32::MAX as nat),
        ) {
            (Some(vendor), Some(product)) => Some(
                ((vendor % 0x10000) as u16, (product % 0x10000) as u16),
            ),
            _ => None,
        }
    }
}

fn parse_hex_u32_trimmed(s: &Vec<char>) -> (r: Option<u32>)
    ensures
        match parse_unsigned_hex(trim(s@), u32::MAX as nat) {
            Some(v) => r == Some(v as u32),
            None => r is None,
        },
{
    let (lo, hi) = trim_bounds(s.as_slice());
    parse_hex(s.as_slice(), lo, hi, u32::MAX)
}

fn parse_hid_id_chars(s: &[char]) -> (r: Option<(u16, u16)>)
    ensures
        r == spec_parse_hid_id(s@),
{
    let (lo, hi) = trim_bounds(s);
    let body = &s[lo..hi];
    let parts = split_chars(body, ':');
    let ghost pv = parts.deep_view();
    assert(pv == split_on(trim(s@), ':'));
    if parts.len() < 3 {
        return None;
    }
    assert(parts[1]@ == pv[1] && parts[2]@ == pv[2]);
    let vendor = parse_hex_u32_trimmed(&parts[1]);
    let product = parse_hex_u32_trimmed(&parts[2]);
    match (vendor, product) {
        (Some(v), Some(p)) => Some(((v % 0x10000) as u16, (p % 0x10000) as u16)),
        _ => None,
    }
}

/// Parse a `HID_ID=bus:vendor:product` string (e.g. `0018:00000B05:000019B6`).
pub fn parse_hid_id(s: &str) -> (r: Option<(u16, u16)>)
    ensures
        r == spec_parse_hid_id(s@),
{
    let chars = chars_of(s);
    parse_hid_id_chars(chars.as_slice())
}

/// The text that follows `HID_ID=` in a `uevent` file: bus, vendor and
/// product in hexadecimal, as `%04X:%08X:%08X`.
pub open spec fn hid_id_text(bus: u16, vendor: u16, product: u16, upper: bool) -> Seq<char> {
    hex_digits(bus as nat, 4, upper) + seq![':'] + hex_digits(vendor as nat, 8, upper) + seq![':']
        + hex_digits(product as nat, 8, upper)
}

proof fn lemma_parse_hex_digits_u16(v: u16, upper: bool)
    ensures
        parse_unsigned_hex(trim(hex_digits(v as nat, 8, upper)), u32::MAX as nat) == Some(
            v as nat,
        ),
{
    let t = hex_digits(v as nat, 8, upper);
    lemma_hex_digits(v as nat, 8, upper);
    assert(pow16(8) == 4294967296) by {
        reveal_with_fuel(pow16, 9);
    }
    assert(!is_white_space(t[0]) && !is_white_space(t[7]) && t[0] != '+');
    lemma_trim_unchanged(t);
}

/// Every `HID_ID` value in the kernel's format gives back its vendor and
/// product ids.
pub proof fn lemma_parse_hid_id_text(bus: u16, vendor: u16, product: u16, upper: bool)
    ensures
        spec_parse_hid_id(hid_id_text(bus, vendor, product, upper)) == Some((vendor, product)),
{
    let a = hex_digits(bus as nat, 4, upper);
    let b = hex_digits(vendor as nat, 8, upper);
    let c = hex_digits(product as nat, 8, upper);
    let s = hid_id_text(bus, vendor, product, upper);
    lemma_hex_digits(bus as nat, 4, upper);
    lemma_hex_digits(vendor as nat, 8, upper);
    lemma_hex_digits(product as nat, 8, upper);
    assert(s[0] == a[0]);
    assert(s.last() == c[7]);
    lemma_trim_unchanged(s);
    lemma_split_on_single(a, ':');
    lemma_split_on_single(b, ':');
    lemma_split_on_single(c, ':');
    lemma_split_on_concat(a, b, ':');
    lemma_split_on_concat(a + seq![':'] + b, c, ':');
    assert(split_on(s, ':') =~= seq![a, b, c]);
    lemma_parse_hex_digits_u16(vendor, upper);
    lemma_parse_hex_digits_u16(product, upper);
}

/// `HID_NAME=`, the `uevent` key of the device's name.
pub open spec fn hid_name_key() -> Seq<char> {
    seq!['H', 'I', 'D', '_', 'N', 'A', 'M', 'E', '=']
}

/// `HID_ID=`, the `uevent` key of the device's bus, vendor and product.
pub open spec fn hid_id_key() -> Seq<char> {
    seq!['H', 'I', 'D', '_', 'I', 'D', '=']
}

/// The device name in a `uevent` text: the value of the first `HID_NAME=`
/// line, or `LampArray device`.
pub open spec fn spec_uevent_name(uevent: Seq<char>) -> Seq<char> {
    match find_prefixed(lines(uevent), hid_name_key()) {
        Some(name) => name,
        None => "LampArray device"@,
    }
}

/// The vendor and product ids in a `uevent` text: those of the first
/// `HID_ID=` line, or `(0, 0)` where there is none or it does not parse.
pub open spec fn spec_uevent_ids(uevent: Seq<char>) -> (u16, u16) {
    match find_prefixed(lines(uevent), hid_id_key()) {
        Some(value) => match spec_parse_hid_id(value) {
            Some(ids) => ids,
            None => (0, 0),
        },
        None => (0, 0),
    }
}

pub fn uevent_name(uevent: &str) -> (name: String)
    ensures
        name@ == spec_uevent_name(uevent@),
{
    let chars = chars_of(uevent);
    let key = ['H', 'I', 'D', '_', 'N', 'A', 'M', 'E', '='];
    assert(key@ =~= hid_name_key());
    match find_line_with_prefix(chars.as_slice(), key.as_slice()) {
        Some(value) => string_of(value.as_slice()),
        None => String::from_str("LampArray device"),
    }
}

/// The name is all of the first line's text after `HID_NAME=`, whatever
/// characters it holds: for a text `t` without a newline, `HID_NAME=` then `t`
/// names `t`; followed by a newline and further lines, it still names `t`
/// (less one trailing carriage return, which ends the line with the newline).
pub proof fn lemma_uevent_name_is_first_value(t: Seq<char>, rest: Seq<char>)
    requires
        forall|i: int| 0 <= i < t.len() ==> t[i] != '\n',
    ensures
        spec_uevent_name(hid_name_key() + t) == t,
        spec_uevent_name(hid_name_key() + t + seq!['\n'] + rest) == if t.len() > 0 && t.last()
            == '\r' {
            t.drop_last()
        } else {
            t
        },
{
    let line = hid_name_key() + t;
    assert forall|i: int| 0 <= i < line.len() implies line[i] != '\n' by {
        if i >= 9 {
            assert(line[i] == t[i - 9]);
        }
    }
    lemma_split_on_single(line, '\n');
    assert(line.take(9) =~= hid_name_key());
    assert(line.skip(9) =~= t);
    let one = lines(line);
    assert(one.len() == 1);
    assert(one[0] == line);
    assert(find_prefixed(one, hid_name_key()) == Some(t));

    let whole = line + seq!['\n'] + rest;
    lemma_split_on_concat(line, rest, '\n');
    lemma_split_on_nonempty(rest, '\n');
    let pieces = split_on(whole, '\n');
    assert(pieces[0] == line);
    assert(pieces.len() >= 2);
    let all = lines(whole);
    assert(all.len() >= 1);
    let first = strip_cr(line);
    assert(all[0] == first);
    if t.len() > 0 && t.last() == '\r' {
        assert(first =~= hid_name_key() + t.drop_last());
        assert(first.take(9) =~= hid_name_key());
        assert(first.skip(9) =~= t.drop_last());
    } else {
        assert(first == line);
    }
}

pub fn uevent_ids(uevent: &str) -> (ids: (u16, u16))
    ensures
        ids == spec_uevent_ids(uevent@),
{
    let chars = chars_of(uevent);
    let key = ['H', 'I', 'D', '_', 'I', 'D', '='];
    assert(key@ =~= hid_id_key());
    match find_line_with_prefix(chars.as_slice(), key.as_slice()) {
        Some(value) => match parse_hid_id_chars(value.as_slice()) {
            Some(ids) => ids,
            None => (0, 0),
        },
        None => (0, 0),
    }
}

/// The item of a report descriptor whose header byte is `d[pos]`, as
/// `(item type, tag, data start, data end)`, by the HID item encoding: the
/// header's low two bits give the data size (3 standing for 4 bytes), the next
/// two bits the item type, the high four bits the tag.  A header of type 3,
/// tag 15 and size 2 opens a long item, whose data size and tag are the two
/// bytes after it.  `None` where the item runs past the end of `d`.
pub open spec fn item_at(d: Seq<u8>, pos: int) -> Option<(int, int, int, int)> {
    let h = d[pos] as int;
    let size = if h % 4 == 3 {
        4
    } else {
        h % 4
    };
    let kind = (h / 4) % 4;
    let tag = h / 16;
    if size == 2 && tag == 15 && kind == 3 {
        if pos + 2 < d.len() && pos + 3 + d[pos + 1] <= d.len() {
            Some((kind, d[pos + 2] as int, pos + 3, pos + 3 + d[pos + 1]))
        } else {
            None
        }
    } else if pos + 1 + size <= d.len() {
        Some((kind, tag, pos + 1, pos + 1 + size))
    } else {
        None
    }
}

/// The unsigned little-endian number that `bytes` hold.
pub open spec fn le_value(bytes: Seq<u8>) -> nat
    decreases bytes.len(),
{
    if bytes.len() == 0 {
        0
    } else {
        bytes[0] as nat + 256 * le_value(bytes.drop_first())
    }
}

/// The layout of one report so far: the main item tag (8 Input, 9 Output,
/// 11 Feature) and report id it belongs to, the bits laid out, and whether
/// its layout stopped at an item without a report count or size.
#[derive(Clone, Copy)]
pub struct LayoutEntry {
    pub tag: u8,
    pub id: Option<u32>,
    pub bits: u64,
    pub stopped: bool,
}

/// What the parser has read of a descriptor that decides its report
/// layouts: the current report id, count and size, the height of the global
/// item stack, and the layout of each report met so far.
pub ghost struct Layout {
    pub report_id: Option<u32>,
    pub report_count: Option<u32>,
    pub report_size: Option<u32>,
    pub depth: nat,
    pub entries: Seq<LayoutEntry>,
}

/// The state before the first item.
pub open spec fn initial_layout() -> Layout {
    Layout {
        report_id: None,
        report_count: None,
        report_size: None,
        depth: 1,
        entries: Seq::empty(),
    }
}

/// The last entry of `es` for the report of main item `tag` and report `id`.
pub open spec fn find_layout(es: Seq<LayoutEntry>, tag: u8, id: Option<u32>) -> Option<int>
    decreases es.len(),
{
    if es.len() == 0 {
        None
    } else if es.last().tag == tag && es.last().id == id {
        Some(es.len() - 1)
    } else {
        find_layout(es.drop_last(), tag, id)
    }
}

/// The layout `e` after one more main item: its `count * size` bits go after
/// those already laid out, unless the layout has stopped, or stops here for
/// want of a count or size.  `None` where the bits pass `u32::MAX`.
pub open spec fn next_entry(e: LayoutEntry, count: Option<u32>, size: Option<u32>) -> Option<
    LayoutEntry,
> {
    if e.stopped {
        Some(e)
    } else {
        match (count, size) {
            (Some(c), Some(s)) => if e.bits + c * s > u32::MAX {
                None
            } else {
                Some(LayoutEntry { bits: (e.bits + c * s) as u64, ..e })
            },
            _ => Some(LayoutEntry { stopped: true, ..e }),
        }
    }
}

/// The layouts after one more main item of `tag` for report `id`, which
/// starts a new layout where the report has none yet.
pub open spec fn lay_out(
    es: Seq<LayoutEntry>,
    tag: u8,
    id: Option<u32>,
    count: Option<u32>,
    size: Option<u32>,
) -> Option<Seq<LayoutEntry>> {
    match find_layout(es, tag, id) {
        Some(i) => match next_entry(es[i], count, size) {
            Some(e) => Some(es.update(i, e)),
            None => None,
        },
        None => match next_entry(LayoutEntry { tag, id, bits: 0, stopped: false }, count, size) {
            Some(e) => Some(es.push(e)),
            None => None,
        },
    }
}

/// An item that the parser refuses, ending the parse with an error: a
/// reserved (or long) item, an unknown main, global or local tag, a delimiter,
/// a usage page of more than two bytes, or a pop of the last global state.
pub open spec fn item_refused(kind: int, tag: int, len: int, depth: nat) -> bool {
    ||| kind == 3
    ||| kind == 0 && !(8 <= tag <= 12)
    ||| kind == 1 && ((tag == 0 && len > 2) || (tag == 11 && depth < 2) || tag >= 12)
    ||| kind == 2 && (tag == 6 || tag >= 10)
}

/// The state after an item that the parser accepts, whose data reads as
/// `value`; `None` where it takes a report past `u32::MAX` bits.
pub open spec fn after_item(st: Layout, kind: int, tag: int, value: u32) -> Option<Layout> {
    if kind == 1 {
        Some(
            if tag == 7 {
                Layout { report_size: Some(value), ..st }
            } else if tag == 8 {
                Layout { report_id: Some(value), ..st }
            } else if tag == 9 {
                Layout { report_count: Some(value), ..st }
            } else if tag == 10 {
                Layout { depth: st.depth + 1, ..st }
            } else if tag == 11 {
                Layout { depth: (st.depth - 1) as nat, ..st }
            } else {
                st
            },
        )
    } else if kind == 0 && (tag == 8 || tag == 9 || tag == 11) {
        match lay_out(st.entries, tag as u8, st.report_id, st.report_count, st.report_size) {
            Some(es) => Some(Layout { entries: es, ..st }),
            None => None,
        }
    } else {
        Some(st)
    }
}

/// Reading the items of `d` from offset `pos` on, in state `st`, never takes
/// a report past `u32::MAX` bits before the items end, one runs past the end
/// of `d`, or the parser refuses one.
pub open spec fn layout_fits_from(d: Seq<u8>, pos: int, st: Layout) -> bool
    decreases d.len() - pos,
{
    if pos < 0 || pos >= d.len() {
        true
    } else {
        match item_at(d, pos) {
            None => true,
            Some((kind, tag, start, end)) => if item_refused(kind, tag, end - start, st.depth) {
                true
            } else {
                match after_item(st, kind, tag, le_value(d.subrange(start, end)) as u32) {
                    None => false,
                    Some(next) => layout_fits_from(d, end, next),
                }
            },
        }
    }
}

/// Every report that `d` describes, Input, Output or Feature, fits in
/// 32-bit bit offsets: for each report id, the `Report Count * Report Size`
/// bits of its main items add up to at most `u32::MAX`, as far as the parser
/// lays them out.
pub open spec fn report_bits_bounded(d: Seq<u8>) -> bool {
    layout_fits_from(d, 0, initial_layout())
}

/// The number of data bytes of a short item with header `h`.
pub open spec fn short_item_len(h: u8) -> int {
    if h % 4 == 3 {
        4
    } else {
        (h % 4) as int
    }
}

/// The number that a short item's data holds, read unsigned and
/// little-endian: none, one, two or four bytes after the header `d[pos]`.
pub open spec fn short_item_value(d: Seq<u8>, pos: int) -> int {
    let k = d[pos] % 4;
    if k == 0 {
        0
    } else if k == 1 {
        d[pos + 1] as int
    } else if k == 2 {
        d[pos + 1] + 256 * d[pos + 2]
    } else {
        d[pos + 1] + 256 * d[pos + 2] + 65536 * d[pos + 3] + 16777216 * d[pos + 4]
    }
}

/// Report Size (global tag 7), Report ID (tag 8) and Report Count (tag 9)
/// hold unsigned numbers: such an item sets its value to its data read
/// unsigned and little-endian, whatever its top bit, and reading goes on
/// after its data.
pub proof fn lemma_global_items_are_unsigned(d: Seq<u8>, pos: int, st: Layout)
    requires
        0 <= pos < d.len(),
        7 <= d[pos] / 16 <= 9,
        (d[pos] / 4) % 4 == 1,
        pos + 1 + short_item_len(d[pos]) <= d.len(),
    ensures
        ({
            let end = pos + 1 + short_item_len(d[pos]);
            let v = short_item_value(d, pos) as u32;
            &&& 0 <= short_item_value(d, pos) <= u32::MAX
            &&& d[pos] / 16 == 7 ==> layout_fits_from(d, pos, st) == layout_fits_from(
                d,
                end,
                Layout { report_size: Some(v), ..st },
            )
            &&& d[pos] / 16 == 8 ==> layout_fits_from(d, pos, st) == layout_fits_from(
                d,
                end,
                Layout { report_id: Some(v), ..st },
            )
            &&& d[pos] / 16 == 9 ==> layout_fits_from(d, pos, st) == layout_fits_from(
                d,
                end,
                Layout { report_count: Some(v), ..st },
            )
        }),
{
    let k = short_item_len(d[pos]);
    let data = d.subrange(pos + 1, pos + 1 + k);
    assert(item_at(d, pos) == Some((1int, (d[pos] / 16) as int, pos + 1, pos + 1 + k)));
    reveal_with_fuel(le_value, 5);
    if k >= 1 {
        assert(data.drop_first() =~= d.subrange(pos + 2, pos + 1 + k));
    }
    if k >= 2 {
        assert(data.drop_first().drop_first() =~= d.subrange(pos + 3, pos + 1 + k));
    }
    if k >= 3 {
        assert(data.drop_first().drop_first().drop_first() =~= d.subrange(pos + 4, pos + 1 + k));
        assert(data.drop_first().drop_first().drop_first().drop_first() =~= d.subrange(
            pos + 5,
            pos + 1 + k,
        ));
    }
    assert(le_value(data) == short_item_value(d, pos));
}

/// A Feature item adds `Report Count * Report Size` bits to the layout of the
/// report it belongs to: reading fails exactly when the report's bits so far
/// plus that product pass `u32::MAX`; a report whose layout has not started
/// starts with that product.
pub proof fn lemma_feature_item_adds_bits(d: Seq<u8>, pos: int, st: Layout, c: u32, s: u32)
    requires
        0 <= pos,
        pos + 2 <= d.len(),
        d[pos] == 0xB1,
        st.report_count == Some(c),
        st.report_size == Some(s),
    ensures
        ({
            let before: int = match find_layout(st.entries, 11, st.report_id) {
                Some(i) => st.entries[i].bits as int,
                None => 0,
            };
            let stopped = match find_layout(st.entries, 11, st.report_id) {
                Some(i) => st.entries[i].stopped,
                None => false,
            };
            !stopped && before + c * s > u32::MAX ==> !layout_fits_from(d, pos, st)
        }),
        find_layout(st.entries, 11, st.report_id) is None ==> (layout_fits_from(d, pos, st) <==> (
        c * s <= u32::MAX && layout_fits_from(
            d,
            pos + 2,
            Layout {
                entries: st.entries.push(
                    LayoutEntry { tag: 11, id: st.report_id, bits: (c * s) as u64, stopped: false },
                ),
                ..st
            },
        ))),
{
    assert(item_at(d, pos) == Some((0int, 11int, pos + 1, pos + 2)));
    lemma_find_layout(st.entries, 11, st.report_id);
}

/// The little-endian number of `d[start..end]`, at most four bytes.
fn le_value_of(d: &[u8], start: usize, end: usize) -> (v: u64)
    requires
        start <= end <= d.len(),
        end - start <= 4,
    ensures
        v == le_value(d@.subrange(start as int, end as int)),
        v <= u32::MAX,
{
    let mut v: u64 = 0;
    let mut i = end;
    while i > start
        invariant
            start <= i <= end <= d.len(),
            end - start <= 4,
            v == le_value(d@.subrange(i as int, end as int)),
            end - i <= 0 ==> v < 1,
            end - i <= 1 ==> v < 0x100,
            end - i <= 2 ==> v < 0x1_0000,
            end - i <= 3 ==> v < 0x100_0000,
            v < 0x1_0000_0000,
        decreases i,
    {
        i = i - 1;
        assert(d@.subrange(i as int, end as int).drop_first() =~= d@.subrange(
            i + 1,
            end as int,
        ));
        v = d[i] as u64 + 256 * v;
    }
    v
}

/// The layout found for a report is one of that report, Input, Output and
/// Feature, and each report id kept apart; none is found only where no entry
/// is for that report.
pub proof fn lemma_find_layout(es: Seq<LayoutEntry>, tag: u8, id: Option<u32>)
    ensures
        find_layout(es, tag, id) matches Some(i) ==> 0 <= i < es.len() && es[i].tag == tag
            && es[i].id == id,
        find_layout(es, tag, id) is None <==> forall|k: int|
            0 <= k < es.len() ==> !(#[trigger] es[k].tag == tag && es[k].id == id),
    decreases es.len(),
{
    if es.len() > 0 {
        lemma_find_layout(es.drop_last(), tag, id);
        assert forall|k: int| 0 <= k < es.len() - 1 implies es.drop_last()[k] == es[k] by {}
    }
}

fn find_layout_entry(es: &Vec<LayoutEntry>, tag: u8, id: Option<u32>) -> (r: Option<usize>)
    ensures
        r matches Some(i) ==> find_layout(es@, tag, id) == Some(i as int),
        r is None ==> find_layout(es@, tag, id) is None,
{
    let mut i = es.len();
    assert(es@.take(i as int) =~= es@);
    while i > 0
        invariant
            i <= es.len(),
            find_layout(es@, tag, id) == find_layout(es@.take(i as int), tag, id),
        decreases i,
    {
        assert(es@.take(i as int).drop_last() =~= es@.take(i - 1));
        let same_id = match (es[i - 1].id, id) {
            (Some(a), Some(b)) => a == b,
            (None, None) => true,
            _ => false,
        };
        if es[i - 1].tag == tag && same_id {
            return Some(i - 1);
        }
        i = i - 1;
    }
    None
}

fn lay_out_entry(
    es: &mut Vec<LayoutEntry>,
    tag: u8,
    id: Option<u32>,
    count: Option<u32>,
    size: Option<u32>,
) -> (fits: bool)
    requires
        forall|k: int| 0 <= k < old(es)@.len() ==> (#[trigger] old(es)@[k]).bits <= u32::MAX,
    ensures
        match lay_out(old(es)@, tag, id, count, size) {
            Some(n) => fits && final(es)@ == n,
            None => !fits,
        },
        forall|k: int| 0 <= k < final(es)@.len() ==> (#[trigger] final(es)@[k]).bits <= u32::MAX,
{
    let found = find_layout_entry(es, tag, id);
    proof {
        lemma_find_layout(es@, tag, id);
    }
    let e = match found {
        Some(i) => es[i],
        None => LayoutEntry { tag, id, bits: 0, stopped: false },
    };
    let next = if e.stopped {
        e
    } else {
        match (count, size) {
            (Some(c), Some(s)) => {
                proof {
                    lemma_bits_product(e.bits, c, s);
                }
                let bits = e.bits + (c as u64) * (s as u64);
                if bits > u32::MAX as u64 {
                    assert(next_entry(e, count, size) is None);
                    return false;
                }
                LayoutEntry { bits, ..e }
            },
            _ => LayoutEntry { stopped: true, ..e },
        }
    };
    assert(next_entry(e, count, size) == Some(next));
    match found {
        Some(i) => es.set(i, next),
        None => es.push(next),
    }
    true
}

proof fn lemma_bits_product(b: u64, c: u32, s: u32)
    requires
        b <= u32::MAX,
    ensures
        (c as u64) * (s as u64) <= u64::MAX - u32::MAX,
        c as int * s as int == (c as u64) * (s as u64),
{
    assert((c as int) * (s as int) <= (u32::MAX as int) * (u32::MAX as int)) by (nonlinear_arith)
        requires
            0 <= c <= u32::MAX,
            0 <= s <= u32::MAX,
    ;
}

/// Whether `report_bits_bounded` holds of `descriptor`.
pub fn report_bits_are_bounded(descriptor: &[u8]) -> (b: bool)
    ensures
        b == report_bits_bounded(descriptor@),
{
    let d = descriptor;
    let n = d.len();
    let mut pos: usize = 0;
    let mut report_id: Option<u32> = None;
    let mut report_count: Option<u32> = None;
    let mut report_size: Option<u32> = None;
    let mut depth: u128 = 1;
    let mut entries: Vec<LayoutEntry> = Vec::new();
    while pos < n
        invariant
            d@ == descriptor@,
            n == d.len(),
            pos <= n,
            depth <= pos + 1,
            forall|k: int| 0 <= k < entries@.len() ==> (#[trigger] entries@[k]).bits <= u32::MAX,
            layout_fits_from(
                d@,
                pos as int,
                Layout { report_id, report_count, report_size, depth: depth as nat, entries: entries@ },
            ) == report_bits_bounded(d@),
        decreases n - pos,
    {
        let ghost st = Layout {
            report_id,
            report_count,
            report_size,
            depth: depth as nat,
            entries: entries@,
        };
        let h = d[pos];
        let mut size: usize = (h % 4) as usize;
        if size == 3 {
            size = 4;
        }
        let kind: u8 = (h / 4) % 4;
        let mut tag: u8 = h / 16;
        let mut start: usize = pos + 1;
        let mut complete = true;
        if size == 2 && tag == 15 && kind == 3 {
            if n - pos > 2 {
                size = d[pos + 1] as usize;
                tag = d[pos + 2];
                start = pos + 3;
            } else {
                complete = false;
            }
        }
        if !complete || size > n - start {
            assert(item_at(d@, pos as int) is None);
            assert(layout_fits_from(d@, pos as int, st));
            return true;
        }
        let end = start + size;
        assert(item_at(d@, pos as int) == Some((kind as int, tag as int, start as int, end as int)));
        let refused = kind == 3 || (kind == 0 && !(8 <= tag && tag <= 12)) || (kind == 1 && ((tag
            == 0 && size > 2) || (tag == 11 && depth < 2) || tag >= 12)) || (kind == 2 && (tag == 6
            || tag >= 10));
        assert(refused == item_refused(kind as int, tag as int, end - start, depth as nat));
        if refused {
            assert(layout_fits_from(d@, pos as int, st));
            return true;
        }
        let value = le_value_of(d, start, end) as u32;
        if kind == 1 {
            if tag == 7 {
                report_size = Some(value);
            } else if tag == 8 {
                report_id = Some(value);
            } else if tag == 9 {
                report_count = Some(value);
            } else if tag == 10 {
                depth = depth + 1;
            } else if tag == 11 {
                depth = depth - 1;
            }
        } else if kind == 0 && (tag == 8 || tag == 9 || tag == 11) {
            if !lay_out_entry(&mut entries, tag, report_id, report_count, report_size) {
                assert(after_item(st, kind as int, tag as int, value) is None);
                assert(!layout_fits_from(d@, pos as int, st));
                return false;
            }
        }
        assert(after_item(st, kind as int, tag as int, value) == Some(
            Layout { report_id, report_count, report_size, depth: depth as nat, entries: entries@ },
        ));
        pos = end;
    }
    true
}

/// The name of the parsed report descriptor: `Some` with its feature reports
/// where `hidparser::parse_report_descriptor` accepts the bytes, `None` where
/// it reports an error.
pub uninterp spec fn parsed_feature_reports(descriptor: Seq<u8>) -> Option<Seq<FeatureView>>;

/// `hidparser::parse_report_descriptor`, keeping of each feature report what
/// the LampArray scan reads.  Its result depends on the bytes alone; which
/// reports it finds is not stated here.
///
/// The parser lays out each report by adding up `Report Count * Report Size`
/// bits per main item, per report id, in `u32` arithmetic, which panics on
/// overflow where overflow checks are on; `report_bits_bounded` says that no
/// such sum passes `u32::MAX` (an item refused by the parser ends the parse
/// before any layout).  Running out of memory is not modelled, as for any
/// allocation.
#[verifier::external_body]
pub(crate) fn parse_feature_reports(descriptor: &[u8]) -> (r: Option<Vec<DescriptorFeature>>)
    requires
        report_bits_bounded(descriptor@),
    ensures
        match parsed_feature_reports(descriptor@) {
            Some(fs) => r matches Some(v) && v.deep_view() == fs,
            None => r is None,
        },
{
    let parsed = hidparser::parse_report_descriptor(descriptor).ok()?;
    Some(parsed.features.iter().map(|f| DescriptorFeature {
        report_id: f.report_id.map(u32::from),
        fields: f.fields.iter().map(|field| match field {
            ReportField::Variable(v) => HidField::Variable {
                usage: u32::from(v.usage),
                collections: v.member_of.iter().map(|c| u32::from(c.usage)).collect(),
            },
            ReportField::Array(_) => HidField::Array,
            ReportField::Padding(_) => HidField::Padding,
        }).collect(),
    }).collect())
}

} // verus!
