//! A LampArray device: what discovery learns of it, and the state and
//! requests of an open handle.  The `ioctl`s themselves are made by the
//! caller, which hands the replies back.
use vstd::prelude::*;

use crate::descriptor::{
    contains, features_are_well_formed, features_well_formed, occurs_in, parse_feature_reports,
    parsed_feature_reports, report_bits_are_bounded, report_bits_bounded, scan_features,
    scan_report_ids, spec_uevent_ids, spec_uevent_name, uevent_ids, uevent_name,
    usage_page_lighting, DescriptorFeature, ReportIds, USAGE_PAGE_LIGHTING,
};
use crate::hid::{
    Color, LampArrayAttributesReport, LampArrayControlReport, LampAttributeResposeReport,
    LampMultiUpdateReport, LampRangeUpdateReport, zeros,
};
use crate::ioctl::{
    get_feature_request, set_feature_request, spec_hidioc_gfeature, spec_hidioc_sfeature,
    FeatureRequest,
};
use crate::rgb::Rgb;
use crate::text::{chars_of, string_of};
use crate::wire::{le16, seq_wire, LeU16, WireFormat};

verus! {

broadcast use {Color::lemma_of_rgb, LeU16::lemma_from_value};

/// The `LampUpdateFlags` bit that marks an update as complete.
pub const FLAG_UPDATE_COMPLETE: u8 = 0x01;

/// A discovered LampArray device on the system.
#[derive(Debug, Clone)]
pub struct DeviceInfo {
    /// Path to the `/dev/hidrawN` node.
    pub node: String,
    /// Human-readable HID name, if the kernel exposes one.
    pub name: String,
    /// USB/HID vendor id.
    pub vendor_id: u16,
    /// USB/HID product id.
    pub product_id: u16,
    pub lamp_array_attributes_report_id: u8,
    pub lamp_attribute_request_report_id: u8,
    pub lamp_attribute_response_report_id: u8,
    pub lamp_multi_update_report_id: u8,
    pub lamp_range_update_report_id: u8,
    pub lamp_array_control_report_id: u8,
}

/// A `DeviceInfo` as plain values.
pub ghost struct DeviceInfoView {
    pub node: Seq<char>,
    pub name: Seq<char>,
    pub vendor_id: u16,
    pub product_id: u16,
    pub lamp_array_attributes_report_id: u8,
    pub lamp_attribute_request_report_id: u8,
    pub lamp_attribute_response_report_id: u8,
    pub lamp_multi_update_report_id: u8,
    pub lamp_range_update_report_id: u8,
    pub lamp_array_control_report_id: u8,
}

impl View for DeviceInfo {
    type V = DeviceInfoView;

    open spec fn view(&self) -> DeviceInfoView {
        DeviceInfoView {
            node: self.node@,
            name: self.name@,
            vendor_id: self.vendor_id,
            product_id: self.product_id,
            lamp_array_attributes_report_id: self.lamp_array_attributes_report_id,
            lamp_attribute_request_report_id: self.lamp_attribute_request_report_id,
            lamp_attribute_response_report_id: self.lamp_attribute_response_report_id,
            lamp_multi_update_report_id: self.lamp_multi_update_report_id,
            lamp_range_update_report_id: self.lamp_range_update_report_id,
            lamp_array_control_report_id: self.lamp_array_control_report_id,
        }
    }
}

/// A LampArray feature report that a device's descriptor does not declare.
#[derive(Debug, Clone, Copy, PartialEq, Eq, Structural)]
pub enum MissingReport {
    Attributes,
    AttributeRequest,
    AttributeResponse,
    MultiUpdate,
    RangeUpdate,
    Control,
}

impl MissingReport {
    /// The report's name, as error messages give it.
    pub fn name(&self) -> (s: &'static str)
        ensures
            s@ == match self {
                MissingReport::Attributes => "lamp array attributes report"@,
                MissingReport::AttributeRequest => "lamp attribute request report"@,
                MissingReport::AttributeResponse => "lamp attribute response report"@,
                MissingReport::MultiUpdate => "lamp multi update report"@,
                MissingReport::RangeUpdate => "lamp range update report"@,
                MissingReport::Control => "lamp array control report"@,
            },
    {
        match self {
            MissingReport::Attributes => "lamp array attributes report",
            MissingReport::AttributeRequest => "lamp attribute request report",
            MissingReport::AttributeResponse => "lamp attribute response report",
            MissingReport::MultiUpdate => "lamp multi update report",
            MissingReport::RangeUpdate => "lamp range update report",
            MissingReport::Control => "lamp array control report",
        }
    }
}

/// `/dev/` followed by the name of a `hidraw` class entry.
pub open spec fn spec_device_node(entry_name: Seq<char>) -> Seq<char> {
    seq!['/', 'd', 'e', 'v', '/'] + entry_name
}

/// The device node of the `hidraw` class entry `entry_name`.
pub fn device_node(entry_name: &str) -> (node: String)
    ensures
        node@ == spec_device_node(entry_name@),
{
    let mut chars: Vec<char> = Vec::new();
    chars.push('/');
    chars.push('d');
    chars.push('e');
    chars.push('v');
    chars.push('/');
    let mut name = chars_of(entry_name);
    chars.append(&mut name);
    assert(chars@ =~= spec_device_node(entry_name@));
    string_of(chars.as_slice())
}

/// The device described by `node`, a `uevent` text and the report ids found
/// in its descriptor; the first LampArray report without an id (in the order
/// attributes, request, response, multi update, range update, control) makes
/// it an error.
pub open spec fn spec_device_info(node: Seq<char>, uevent: Seq<char>, ids: ReportIds) -> Result<
    DeviceInfoView,
    MissingReport,
> {
    if ids.attributes is None {
        Err(MissingReport::Attributes)
    } else if ids.attribute_request is None {
        Err(MissingReport::AttributeRequest)
    } else if ids.attribute_response is None {
        Err(MissingReport::AttributeResponse)
    } else if ids.multi_update is None {
        Err(MissingReport::MultiUpdate)
    } else if ids.range_update is None {
        Err(MissingReport::RangeUpdate)
    } else if ids.control is None {
        Err(MissingReport::Control)
    } else {
        Ok(
            DeviceInfoView {
                node,
                name: spec_uevent_name(uevent),
                vendor_id: spec_uevent_ids(uevent).0,
                product_id: spec_uevent_ids(uevent).1,
                lamp_array_attributes_report_id: ids.attributes.unwrap(),
                lamp_attribute_request_report_id: ids.attribute_request.unwrap(),
                lamp_attribute_response_report_id: ids.attribute_response.unwrap(),
                lamp_multi_update_report_id: ids.multi_update.unwrap(),
                lamp_range_update_report_id: ids.range_update.unwrap(),
                lamp_array_control_report_id: ids.control.unwrap(),
            },
        )
    }
}

/// The device whose parsed descriptor lists `features`.
pub fn device_info_from_features(node: &str, features: &Vec<DescriptorFeature>, uevent: &str) -> (r:
    Result<DeviceInfo, MissingReport>)
    requires
        features_well_formed(features.deep_view()),
    ensures
        match spec_device_info(node@, uevent@, scan_report_ids(features.deep_view())) {
            Ok(v) => r matches Ok(d) && d@ == v,
            Err(e) => r == Err::<DeviceInfo, MissingReport>(e),
        },
{
    let ids = scan_features(features);
    let name = uevent_name(uevent);
    let (vendor_id, product_id) = uevent_ids(uevent);
    let attributes = match ids.attributes {
        Some(id) => id,
        None => return Err(MissingReport::Attributes),
    };
    let request = match ids.attribute_request {
        Some(id) => id,
        None => return Err(MissingReport::AttributeRequest),
    };
    let response = match ids.attribute_response {
        Some(id) => id,
        None => return Err(MissingReport::AttributeResponse),
    };
    let multi = match ids.multi_update {
        Some(id) => id,
        None => return Err(MissingReport::MultiUpdate),
    };
    let range = match ids.range_update {
        Some(id) => id,
        None => return Err(MissingReport::RangeUpdate),
    };
    let control = match ids.control {
        Some(id) => id,
        None => return Err(MissingReport::Control),
    };
    let node_chars = chars_of(node);
    Ok(
        DeviceInfo {
            node: string_of(node_chars.as_slice()),
            name,
            vendor_id,
            product_id,
            lamp_array_attributes_report_id: attributes,
            lamp_attribute_request_report_id: request,
            lamp_attribute_response_report_id: response,
            lamp_multi_update_report_id: multi,
            lamp_range_update_report_id: range,
            lamp_array_control_report_id: control,
        },
    )
}

/// What probing one `hidraw` device found.
#[derive(Debug)]
pub enum Probe {
    /// The descriptor does not select the lighting usage page, or does not
    /// parse: not a LampArray device.
    NotLampArray,
    /// A lighting feature report does not name its logical collection.
    Malformed,
    /// A report of the descriptor lays out more than `u32::MAX` bits, on which
    /// the descriptor parser's `u32` bit arithmetic overflows.
    Oversized,
    /// A LampArray report is missing.
    Missing(MissingReport),
    /// A LampArray device.
    Found(DeviceInfo),
}

/// Probe the `hidraw` class entry `entry_name` from its report descriptor and
/// `uevent` text.
pub fn probe_device(entry_name: &str, descriptor: &[u8], uevent: &str) -> (p: Probe)
    ensures
        !occurs_in(descriptor@, usage_page_lighting()) ==> p is NotLampArray,
        occurs_in(descriptor@, usage_page_lighting()) && !report_bits_bounded(descriptor@)
            ==> p is Oversized,
        occurs_in(descriptor@, usage_page_lighting()) && report_bits_bounded(descriptor@)
            ==> match parsed_feature_reports(
            descriptor@,
        ) {
            None => p is NotLampArray,
            Some(fs) => if !features_well_formed(fs) {
                p is Malformed
            } else {
                match spec_device_info(
                    spec_device_node(entry_name@),
                    uevent@,
                    scan_report_ids(fs),
                ) {
                    Ok(v) => p matches Probe::Found(d) && d@ == v,
                    Err(e) => p == Probe::Missing(e),
                }
            },
        },
{
    let signature = USAGE_PAGE_LIGHTING;
    assert(signature@ =~= usage_page_lighting());
    if !contains(descriptor, signature.as_slice()) {
        return Probe::NotLampArray;
    }
    if !report_bits_are_bounded(descriptor) {
        return Probe::Oversized;
    }
    let features = match parse_feature_reports(descriptor) {
        Some(f) => f,
        None => return Probe::NotLampArray,
    };
    if !features_are_well_formed(&features) {
        return Probe::Malformed;
    }
    let node = device_node(entry_name);
    match device_info_from_features(node.as_str(), &features, uevent) {
        Ok(info) => Probe::Found(info),
        Err(missing) => Probe::Missing(missing),
    }
}

/// An open LampArray device, apart from its file: its description and the
/// attributes of each lamp, one entry per lamp of the count it reported.
pub struct LampArray {
    info: DeviceInfo,
    lamps: Vec<LampAttributeResposeReport>,
}

/// A `LampArray` as plain values.
pub ghost struct LampArrayView {
    pub info: DeviceInfoView,
    pub lamp_count: u16,
    pub lamps: Seq<LampAttributeResposeReport>,
}

impl View for LampArray {
    type V = LampArrayView;

    closed spec fn view(&self) -> LampArrayView {
        LampArrayView {
            info: self.info@,
            lamp_count: self.lamps@.len() as u16,
            lamps: self.lamps@,
        }
    }
}

/// The buffer of a `LampRangeUpdateReport` frame: report id, the
/// update-complete flag, first and last lamp id, and the colour at full
/// intensity.
pub open spec fn range_frame(id: u8, start: u16, end: u16, c: Rgb) -> Seq<u8> {
    seq![id, FLAG_UPDATE_COMPLETE] + le16(start) + le16(end) + seq![c.r, c.g, c.b, 255u8]
}

impl LampArray {
    /// A lamp count is a `u16`: there are never more entries than one can
    /// count.
    #[verifier::type_invariant]
    closed spec fn entries_fit_count(self) -> bool {
        self.lamps@.len() <= u16::MAX
    }

    /// A handle to `info` that has not queried the device yet.
    pub fn new(info: DeviceInfo) -> (dev: LampArray)
        ensures
            dev@ == (LampArrayView { info: info@, lamp_count: 0, lamps: Seq::empty() }),
    {
        LampArray { info, lamps: Vec::new() }
    }

    pub fn info(&self) -> (info: &DeviceInfo)
        ensures
            info@ == self@.info,
    {
        &self.info
    }

    /// Path of the underlying device node.
    pub fn node(&self) -> (node: &str)
        ensures
            node@ == self@.info.node,
    {
        self.info.node.as_str()
    }

    /// Number of independently addressable lamps (1 == single-zone): the
    /// number of lamp entries.
    pub fn lamp_count(&self) -> (n: u16)
        ensures
            n == self@.lamp_count,
            n == self@.lamps.len(),
    {
        proof {
            use_type_invariant(self);
        }
        self.lamps.len() as u16
    }

    /// The attributes recorded for each lamp, indexed by lamp id: one entry
    /// per lamp.
    pub fn lamps(&self) -> (lamps: &Vec<LampAttributeResposeReport>)
        ensures
            lamps@ == self@.lamps,
            lamps@.len() == self@.lamp_count,
    {
        proof {
            use_type_invariant(self);
        }
        &self.lamps
    }

    /// The request that reads the `LampArrayAttributesReport`.
    pub fn lamp_count_request(&self) -> (r: FeatureRequest)
        ensures
            r.buffer@ == seq![self@.info.lamp_array_attributes_report_id] + zeros(22),
            r.request == spec_hidioc_gfeature(23),
    {
        get_feature_request::<LampArrayAttributesReport>(self.info.lamp_array_attributes_report_id)
    }

    /// Record the lamp count of an attributes report, with one default
    /// attributes entry per lamp; returns the count.
    pub fn apply_lamp_count(&mut self, report: &LampArrayAttributesReport) -> (n: u16)
        ensures
            n == report.lamp_count@,
            final(self)@.info == old(self)@.info,
            final(self)@.lamp_count == n,
            final(self)@.lamps.len() == n,
            forall|i: int| 0 <= i < n ==> (#[trigger] final(self)@.lamps[i]).wire() == zeros(28),
    {
        let count = u16::from(report.lamp_count);
        let n = count as usize;
        let mut lamps: Vec<LampAttributeResposeReport> = Vec::new();
        while lamps.len() < n
            invariant
                n == count,
                lamps@.len() <= n,
                forall|i: int| 0 <= i < lamps@.len() ==> (#[trigger] lamps@[i]).wire() == zeros(28),
            decreases n - lamps@.len(),
        {
            lamps.push(LampAttributeResposeReport::default());
        }
        self.lamps = lamps;
        count
    }

    /// The request that reads one `LampAttributesResponseReport`.
    pub fn lamp_info_request(&self) -> (r: FeatureRequest)
        ensures
            r.buffer@ == seq![self@.info.lamp_attribute_response_report_id] + zeros(28),
            r.request == spec_hidioc_gfeature(29),
    {
        get_feature_request::<LampAttributeResposeReport>(
            self.info.lamp_attribute_response_report_id,
        )
    }

    /// Record the attributes of the lamp that `info` describes.
    pub fn store_lamp_info(&mut self, info: LampAttributeResposeReport)
        requires
            info.spec_lamp_id() < old(self)@.lamps.len(),
        ensures
            final(self)@ == (LampArrayView {
                lamps: old(self)@.lamps.update(info.spec_lamp_id() as int, info),
                ..old(self)@
            }),
    {
        proof {
            use_type_invariant(&*self);
        }
        let idx = info.lamp_id_value() as usize;
        let mut lamps: Vec<LampAttributeResposeReport> = Vec::new();
        std::mem::swap(&mut lamps, &mut self.lamps);
        lamps.set(idx, info);
        std::mem::swap(&mut lamps, &mut self.lamps);
    }

    /// Toggle hardware "autonomous" mode. `false` hands lighting control to the host
    /// (i.e. takes it out of firmware / Windows Dynamic Lighting mode).
    pub fn autonomous_request(&self, on: bool) -> (r: FeatureRequest)
        ensures
            r.buffer@ == seq![self@.info.lamp_array_control_report_id, if on { 1u8 } else { 0u8 }],
            r.request == spec_hidioc_sfeature(2),
    {
        let report = LampArrayControlReport { autonomous_mode: if on { 1 } else { 0 } };
        set_feature_request(self.info.lamp_array_control_report_id, report)
    }

    /// Update eight lamps at once.
    pub fn multi_request(&self, lamp_id: [LeU16; 8], colors: [Color; 8]) -> (r: FeatureRequest)
        ensures
            r.buffer@ == seq![self@.info.lamp_multi_update_report_id, 8u8, FLAG_UPDATE_COMPLETE]
                + seq_wire(lamp_id@) + seq_wire(colors@),
            r.request == spec_hidioc_sfeature(51),
    {
        let report = LampMultiUpdateReport {
            lamp_count: 8,
            lamp_update_flags: FLAG_UPDATE_COMPLETE,
            lamp_id,
            colors,
        };
        let r = set_feature_request(self.info.lamp_multi_update_report_id, report);
        assert(r.buffer@ =~= seq![self@.info.lamp_multi_update_report_id, 8u8, FLAG_UPDATE_COMPLETE]
            + seq_wire(lamp_id@) + seq_wire(colors@));
        r
    }

    /// Set a contiguous range of lamp ids to a single colour.
    pub fn range_request(&self, start: u16, end: u16, c: Rgb) -> (r: FeatureRequest)
        ensures
            r.buffer@ == range_frame(self@.info.lamp_range_update_report_id, start, end, c),
            r.request == spec_hidioc_sfeature(10),
    {
        let report = LampRangeUpdateReport {
            lamp_update_flags: FLAG_UPDATE_COMPLETE,
            lamp_id_start: LeU16::from(start),
            lamp_id_end: LeU16::from(end),
            colors: Color::from(c),
        };
        let r = set_feature_request(self.info.lamp_range_update_report_id, report);
        assert(r.buffer@ =~= range_frame(self@.info.lamp_range_update_report_id, start, end, c));
        r
    }

    /// Set every lamp to one color (takes host control first): the requests to
    /// send, in order.
    pub fn set_all_requests(&self, c: Rgb) -> (r: (FeatureRequest, FeatureRequest))
        ensures
            r.0.buffer@ == seq![self@.info.lamp_array_control_report_id, 0u8],
            r.0.request == spec_hidioc_sfeature(2),
            r.1.buffer@ == range_frame(
                self@.info.lamp_range_update_report_id,
                0,
                if self@.lamp_count == 0 { 0 } else { (self@.lamp_count - 1) as u16 },
                c,
            ),
            r.1.request == spec_hidioc_sfeature(10),
    {
        let take_control = self.autonomous_request(false);
        let count = self.lamp_count();
        let end = count.saturating_sub(1);
        let paint = self.range_request(0, end, c);
        (take_control, paint)
    }
}

/// A lamp attributes reply named a lamp the device does not have.
#[derive(Debug, Clone, Copy, PartialEq, Eq, Structural)]
pub struct LampIdOutOfRange {
    /// The lamp id of the reply.
    pub index: usize,
    /// The number of lamps.
    pub len: usize,
}

/// What opening a device asks for next.
pub enum OpenStep {
    /// Read the `LampArrayAttributesReport` with this request and hand it to
    /// `Opening::on_lamp_count`.
    ReadLampCount(FeatureRequest),
    /// Read one `LampAttributesResponseReport` with this request and hand it
    /// to `Opening::on_lamp_info`.
    ReadLampInfo(FeatureRequest),
    /// Every lamp has been read.
    Done,
}

/// A device being opened: the lamp count is read first, then one attributes
/// report per lamp, each stored under the lamp id it names.  The device file
/// and its `ioctl`s stay with the caller, which performs each `OpenStep` and
/// hands back the report it read.
pub struct Opening {
    array: LampArray,
    counted: bool,
    lamps_read: u16,
}

/// An `Opening` as plain values.
pub ghost struct OpeningView {
    pub array: LampArrayView,
    /// Whether the lamp count has been read.
    pub counted: bool,
    /// How many lamp attributes reports have been taken.
    pub lamps_read: u16,
}

impl View for Opening {
    type V = OpeningView;

    closed spec fn view(&self) -> OpeningView {
        OpeningView { array: self.array@, counted: self.counted, lamps_read: self.lamps_read }
    }
}

impl Opening {
    /// Start opening `info`: nothing has been read.
    pub fn new(info: DeviceInfo) -> (o: Opening)
        ensures
            o@ == (OpeningView {
                array: LampArrayView { info: info@, lamp_count: 0, lamps: Seq::empty() },
                counted: false,
                lamps_read: 0,
            }),
    {
        Opening { array: LampArray::new(info), counted: false, lamps_read: 0 }
    }

    /// The handle as it stands.
    pub fn lamp_array(&self) -> (a: &LampArray)
        ensures
            a@ == self@.array,
            a@.lamps.len() == a@.lamp_count,
    {
        proof {
            use_type_invariant(&self.array);
        }
        &self.array
    }

    /// What to read next: the lamp count first, then one lamp attributes
    /// report for each lamp, then nothing.
    pub fn next_step(&self) -> (step: OpenStep)
        ensures
            !self@.counted ==> (step matches OpenStep::ReadLampCount(r) && r.buffer@ == seq![
                self@.array.info.lamp_array_attributes_report_id,
            ] + zeros(22) && r.request == spec_hidioc_gfeature(23)),
            self@.counted && self@.lamps_read < self@.array.lamp_count ==> (
            step matches OpenStep::ReadLampInfo(r) && r.buffer@ == seq![
                self@.array.info.lamp_attribute_response_report_id,
            ] + zeros(28) && r.request == spec_hidioc_gfeature(29)),
            self@.counted && self@.lamps_read >= self@.array.lamp_count ==> step is Done,
    {
        if !self.counted {
            OpenStep::ReadLampCount(self.array.lamp_count_request())
        } else if self.lamps_read < self.array.lamp_count() {
            OpenStep::ReadLampInfo(self.array.lamp_info_request())
        } else {
            OpenStep::Done
        }
    }

    /// Take the lamp count: one default attributes entry per lamp, none read
    /// yet.
    pub fn on_lamp_count(&mut self, report: &LampArrayAttributesReport)
        requires
            !old(self)@.counted,
        ensures
            final(self)@.counted,
            final(self)@.lamps_read == 0,
            final(self)@.array.info == old(self)@.array.info,
            final(self)@.array.lamp_count == report.lamp_count@,
            final(self)@.array.lamps.len() == report.lamp_count@,
            forall|i: int|
                0 <= i < report.lamp_count@ ==> (#[trigger] final(self)@.array.lamps[i]).wire()
                    == zeros(28),
    {
        self.array.apply_lamp_count(report);
        self.counted = true;
        self.lamps_read = 0;
    }

    /// Take one lamp attributes report: it is stored under the lamp id it
    /// names, which must index one of the lamp entries.
    pub fn on_lamp_info(&mut self, info: LampAttributeResposeReport) -> (r: Result<
        (),
        LampIdOutOfRange,
    >)
        requires
            old(self)@.lamps_read < old(self)@.array.lamp_count,
        ensures
            info.spec_lamp_id() < old(self)@.array.lamps.len() ==> r is Ok && final(self)@ == (
            OpeningView {
                array: LampArrayView {
                    lamps: old(self)@.array.lamps.update(info.spec_lamp_id() as int, info),
                    ..old(self)@.array
                },
                lamps_read: (old(self)@.lamps_read + 1) as u16,
                ..old(self)@
            }),
            info.spec_lamp_id() >= old(self)@.array.lamps.len() ==> r == Err::<(), _>(
                LampIdOutOfRange {
                    index: info.spec_lamp_id() as usize,
                    len: old(self)@.array.lamps.len() as usize,
                },
            ) && final(self)@ == old(self)@,
    {
        let idx = info.lamp_id_value() as usize;
        let len = self.array.lamps().len();
        if idx < len {
            self.array.store_lamp_info(info);
            self.lamps_read = self.lamps_read + 1;
            Ok(())
        } else {
            Err(LampIdOutOfRange { index: idx, len })
        }
    }

    /// The opened handle.
    pub fn finish(self) -> (a: LampArray)
        ensures
            a@ == self@.array,
            a@.lamps.len() == a@.lamp_count,
    {
        proof {
            use_type_invariant(&self.array);
        }
        self.array
    }
}

} // verus!
