use lamparray::descriptor::{parse_hid_id, report_bits_are_bounded, uevent_ids, uevent_name};
use lamparray::device::{device_node, LampIdOutOfRange, OpenStep, Opening};
use lamparray::ioctl::{feature_response, hidioc_gfeature, hidioc_sfeature};
use lamparray::{
    DeviceInfo, LampArray, LampArrayAttributesReport, LampAttributeResposeReport, MissingReport,
    Probe, Rgb,
};

fn feature(id: u8, usage: u8) -> Vec<u8> {
    vec![0x85, id, 0x09, usage, 0xA1, 0x02, 0x09, 0x03, 0xB1, 0x02, 0xC0]
}

fn descriptor(features: &[(u8, u8)]) -> Vec<u8> {
    let mut d = vec![
        0x05, 0x59, 0x09, 0x01, 0xA1, 0x01, 0x15, 0x00, 0x26, 0xFF, 0x00, 0x75, 0x08, 0x95, 0x01,
    ];
    for (id, usage) in features {
        d.extend(feature(*id, *usage));
    }
    d.push(0xC0);
    d
}

const ALL: [(u8, u8); 6] = [(1, 0x02), (2, 0x20), (3, 0x22), (4, 0x50), (5, 0x60), (6, 0x70)];

const UEVENT: &str = "DRIVER=hid-generic\nHID_ID=0018:00000B05:000019B6\nHID_NAME=ASUS Keyboard\r\nHID_NAME=second\n";

#[test]
fn probe_finds_a_lamp_array() {
    let d = descriptor(&ALL);
    match lamparray::device::probe_device("hidraw3", &d, UEVENT) {
        Probe::Found(info) => {
            assert_eq!(info.node, "/dev/hidraw3");
            assert_eq!(info.name, "ASUS Keyboard");
            assert_eq!((info.vendor_id, info.product_id), (0x0B05, 0x19B6));
            assert_eq!(info.lamp_array_attributes_report_id, 1);
            assert_eq!(info.lamp_attribute_request_report_id, 2);
            assert_eq!(info.lamp_attribute_response_report_id, 3);
            assert_eq!(info.lamp_multi_update_report_id, 4);
            assert_eq!(info.lamp_range_update_report_id, 5);
            assert_eq!(info.lamp_array_control_report_id, 6);
        }
        other => panic!("unexpected probe result {other:?}"),
    }
}

#[test]
fn probe_reports_the_first_missing_report() {
    let d = descriptor(&ALL[..5]);
    match lamparray::device::probe_device("hidraw0", &d, "") {
        Probe::Missing(m) => {
            assert_eq!(m, MissingReport::Control);
            assert_eq!(m.name(), "lamp array control report");
        }
        other => panic!("unexpected probe result {other:?}"),
    }
    let d = descriptor(&[(1, 0x02), (3, 0x22)]);
    match lamparray::device::probe_device("hidraw0", &d, "") {
        Probe::Missing(m) => assert_eq!(m, MissingReport::AttributeRequest),
        other => panic!("unexpected probe result {other:?}"),
    }
}

#[test]
fn probe_skips_other_devices() {
    let keyboard = vec![0x05, 0x01, 0x09, 0x06, 0xA1, 0x01, 0xC0];
    assert!(matches!(
        lamparray::device::probe_device("hidraw1", &keyboard, UEVENT),
        Probe::NotLampArray
    ));
}

#[test]
fn probe_flags_a_feature_outside_any_logical_collection() {
    let mut d = descriptor(&ALL);
    d.pop();
    d.extend([0x85, 0x07, 0x09, 0x05, 0xB1, 0x02, 0xC0]);
    assert!(matches!(
        lamparray::device::probe_device("hidraw1", &d, UEVENT),
        Probe::Malformed
    ));
}

#[test]
fn later_reports_replace_earlier_ones() {
    let d = descriptor(&[(1, 0x02), (2, 0x20), (3, 0x22), (4, 0x50), (5, 0x60), (6, 0x70), (9, 0x02)]);
    match lamparray::device::probe_device("hidraw2", &d, "") {
        Probe::Found(info) => {
            assert_eq!(info.lamp_array_attributes_report_id, 9);
            assert_eq!(info.name, "LampArray device");
            assert_eq!((info.vendor_id, info.product_id), (0, 0));
        }
        other => panic!("unexpected probe result {other:?}"),
    }
}

#[test]
fn uevent_fields() {
    assert_eq!(uevent_name("HID_NAME=Foo\nHID_NAME=Bar"), "Foo");
    assert_eq!(uevent_name("HID_NAME=Foo\r"), "Foo\r");
    assert_eq!(uevent_name("X=1\n"), "LampArray device");
    assert_eq!(uevent_ids("HID_ID=0003:046D:C52B\n"), (0x046D, 0xC52B));
    assert_eq!(uevent_ids("HID_ID=garbage\nHID_ID=0003:1:2"), (0, 0));
    assert_eq!(device_node("hidraw7"), "/dev/hidraw7");
}

#[test]
fn hid_id_edge_cases() {
    assert_eq!(parse_hid_id(" 0003 : 1FFFF : +2 :extra"), Some((0xFFFF, 2)));
    assert_eq!(parse_hid_id("0:100000000:1"), None);
    assert_eq!(parse_hid_id("0:0000000000FF:1"), Some((0xFF, 1)));
    assert_eq!(parse_hid_id("0:1"), None);
    assert_eq!(parse_hid_id("0::1"), None);
}

fn info() -> DeviceInfo {
    DeviceInfo {
        node: "/dev/hidraw0".to_string(),
        name: "test".to_string(),
        vendor_id: 1,
        product_id: 2,
        lamp_array_attributes_report_id: 1,
        lamp_attribute_request_report_id: 2,
        lamp_attribute_response_report_id: 3,
        lamp_multi_update_report_id: 4,
        lamp_range_update_report_id: 5,
        lamp_array_control_report_id: 6,
    }
}

#[test]
fn set_all_takes_control_then_paints_every_lamp() {
    let mut dev = LampArray::new(info());
    let (control, paint) = dev.set_all_requests(Rgb::new(1, 2, 3));
    assert_eq!(control.buffer, vec![6, 0]);
    assert_eq!(paint.buffer, vec![5, 1, 0, 0, 0, 0, 1, 2, 3, 255]);
    assert_eq!(paint.request, hidioc_sfeature(10));
    let mut reply = dev.lamp_count_request().buffer;
    reply[1] = 0x2c;
    reply[2] = 0x01;
    let attrs: lamparray::LampArrayAttributesReport = lamparray::ioctl::feature_response(&reply);
    assert_eq!(dev.apply_lamp_count(&attrs), 300);
    assert_eq!(dev.lamp_count(), 300);
    assert_eq!(dev.lamps().len(), 300);
    assert_eq!(dev.info().node, "/dev/hidraw0");
    let (_, paint) = dev.set_all_requests(Rgb::new(1, 2, 3));
    assert_eq!(paint.buffer, vec![5, 1, 0, 0, 0x2b, 0x01, 1, 2, 3, 255]);
    assert_eq!(dev.node(), "/dev/hidraw0");
}

#[test]
fn lamps_are_stored_by_id() {
    let mut dev = LampArray::new(info());
    let mut reply = dev.lamp_count_request().buffer;
    reply[1] = 3;
    let attrs: lamparray::LampArrayAttributesReport = lamparray::ioctl::feature_response(&reply);
    dev.apply_lamp_count(&attrs);
    assert_eq!(dev.lamps().len(), 3);
    let mut reply = dev.lamp_info_request().buffer;
    assert_eq!(reply[0], 3);
    reply[1] = 2;
    reply[26] = 7;
    let lamp: lamparray::LampAttributeResposeReport = lamparray::ioctl::feature_response(&reply);
    dev.store_lamp_info(lamp);
    assert_eq!(dev.lamps()[2].lamp_id_value(), 2);
    assert_eq!(dev.lamps()[2].color.intensity, 7);
    assert_eq!(dev.lamps()[0].lamp_id_value(), 0);
    let on = dev.autonomous_request(true);
    assert_eq!(on.buffer, vec![6, 1]);
}

fn reply_to(step: OpenStep, fill: &[(usize, u8)]) -> Vec<u8> {
    let mut buffer = match step {
        OpenStep::ReadLampCount(r) | OpenStep::ReadLampInfo(r) => r.buffer,
        OpenStep::Done => panic!("nothing left to read"),
    };
    for (at, byte) in fill {
        buffer[*at] = *byte;
    }
    buffer
}

#[test]
fn opening_reads_the_count_then_every_lamp() {
    let mut opening = Opening::new(info());
    let step = opening.next_step();
    match &step {
        OpenStep::ReadLampCount(r) => {
            assert_eq!(r.buffer.len(), 23);
            assert_eq!(r.buffer[0], 1);
            assert_eq!(r.request, hidioc_gfeature(23));
        }
        _ => panic!("the lamp count comes first"),
    }
    let attrs: LampArrayAttributesReport = feature_response(&reply_to(step, &[(1, 2)]));
    opening.on_lamp_count(&attrs);
    assert_eq!(opening.lamp_array().lamp_count(), 2);
    assert_eq!(opening.lamp_array().lamps().len(), 2);

    let step = opening.next_step();
    match &step {
        OpenStep::ReadLampInfo(r) => {
            assert_eq!(r.buffer.len(), 29);
            assert_eq!(r.buffer[0], 3);
            assert_eq!(r.request, hidioc_gfeature(29));
        }
        _ => panic!("a lamp is still unread"),
    }
    let lamp: LampAttributeResposeReport = feature_response(&reply_to(step, &[(1, 1), (26, 9)]));
    assert_eq!(opening.on_lamp_info(lamp), Ok(()));

    let step = opening.next_step();
    assert!(matches!(step, OpenStep::ReadLampInfo(_)));
    let lamp: LampAttributeResposeReport = feature_response(&reply_to(step, &[(1, 0)]));
    assert_eq!(opening.on_lamp_info(lamp), Ok(()));

    assert!(matches!(opening.next_step(), OpenStep::Done));
    let array = opening.finish();
    assert_eq!(array.lamps().len(), 2);
    assert_eq!(array.lamps()[1].lamp_id_value(), 1);
    assert_eq!(array.lamps()[1].color.intensity, 9);
    assert_eq!(array.lamps()[0].lamp_id_value(), 0);
}

#[test]
fn opening_refuses_a_lamp_id_past_the_count() {
    let mut opening = Opening::new(info());
    let attrs: LampArrayAttributesReport =
        feature_response(&reply_to(opening.next_step(), &[(1, 2)]));
    opening.on_lamp_count(&attrs);
    let lamp: LampAttributeResposeReport =
        feature_response(&reply_to(opening.next_step(), &[(1, 5)]));
    assert_eq!(opening.on_lamp_info(lamp), Err(LampIdOutOfRange { index: 5, len: 2 }));
    assert!(matches!(opening.next_step(), OpenStep::ReadLampInfo(_)));
}

#[test]
fn opening_a_device_without_lamps_reads_only_the_count() {
    let mut opening = Opening::new(info());
    let attrs: LampArrayAttributesReport = feature_response(&reply_to(opening.next_step(), &[]));
    opening.on_lamp_count(&attrs);
    assert!(matches!(opening.next_step(), OpenStep::Done));
    assert_eq!(opening.finish().lamp_count(), 0);
}

#[test]
fn report_bit_bounds() {
    assert!(report_bits_are_bounded(&descriptor(&ALL)));
    assert!(report_bits_are_bounded(&[]));
    // Report Size 0x10000, Report Count 0x10000 and one padding feature.
    let huge = [
        0x05, 0x59, 0x77, 0x00, 0x00, 0x01, 0x00, 0x97, 0x00, 0x00, 0x01, 0x00, 0xB1, 0x03,
    ];
    assert!(!report_bits_are_bounded(&huge));
    assert!(matches!(
        lamparray::device::probe_device("hidraw4", &huge, UEVENT),
        Probe::Oversized
    ));
    // Without a main item nothing is laid out.
    assert!(report_bits_are_bounded(&huge[..12]));
    // Just within 32 bits: 0xFFFF * 0x10001 == 0xFFFF_FFFF.
    let edge = [0x77, 0x01, 0x00, 0x01, 0x00, 0x97, 0xFF, 0xFF, 0x00, 0x00, 0xB1, 0x03];
    assert!(report_bits_are_bounded(&edge));
    // An item whose data runs past the end ends the parse.
    let truncated = [0x97, 0x00, 0x00, 0x01, 0x00, 0x77, 0x00, 0x00, 0x01];
    assert!(report_bits_are_bounded(&truncated));
}

#[test]
fn report_bits_add_up_per_report() {
    // 0x10000 x 1 bits, then 1 x 0x10000 bits: 0x20000 bits in all.
    let two_paddings = [
        0x05, 0x59, 0x77, 0x01, 0x00, 0x00, 0x00, 0x97, 0x00, 0x00, 0x01, 0x00, 0xB1, 0x03, 0x77,
        0x00, 0x00, 0x01, 0x00, 0x97, 0x01, 0x00, 0x00, 0x00, 0xB1, 0x03,
    ];
    assert!(report_bits_are_bounded(&two_paddings));
    assert!(!matches!(
        lamparray::device::probe_device("hidraw5", &two_paddings, UEVENT),
        Probe::Oversized
    ));
    // Two features of 0x8000_0000 bits each in one report pass u32::MAX.
    let half = [0x77, 0x00, 0x00, 0x00, 0x80, 0x97, 0x01, 0x00, 0x00, 0x00];
    let mut same_report = half.to_vec();
    same_report.extend([0xB1, 0x03, 0xB1, 0x03]);
    assert!(!report_bits_are_bounded(&same_report));
    // In two reports, or as an input and a feature, they do not.
    let mut two_reports = half.to_vec();
    two_reports.extend([0x85, 0x01, 0xB1, 0x03, 0x85, 0x02, 0xB1, 0x03]);
    assert!(report_bits_are_bounded(&two_reports));
    let mut input_and_feature = half.to_vec();
    input_and_feature.extend([0x81, 0x03, 0xB1, 0x03]);
    assert!(report_bits_are_bounded(&input_and_feature));
    // A report laid out without a count stops there.
    let stopped = [
        0x77, 0x00, 0x00, 0x01, 0x00, 0xB1, 0x03, 0x97, 0x00, 0x00, 0x01, 0x00, 0xB1, 0x03,
    ];
    assert!(report_bits_are_bounded(&stopped));
    // An item the parser refuses (a pop with nothing pushed, a long item)
    // ends the parse before any layout.
    let mut refused = vec![0xB4];
    refused.extend(same_report.iter());
    assert!(report_bits_are_bounded(&refused));
    let mut long = vec![0xFE, 0x02, 0x10, 0xB1, 0xB1];
    long.extend(same_report.iter());
    assert!(report_bits_are_bounded(&long));
    // After a push, a pop is accepted.
    let mut pushed = vec![0xA4, 0xB4];
    pushed.extend(same_report.iter());
    assert!(!report_bits_are_bounded(&pushed));
}
