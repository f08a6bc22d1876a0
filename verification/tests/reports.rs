use lamparray::ioctl::{
    feature_response, get_feature_request, hidioc_gfeature, hidioc_sfeature, ioc,
    set_feature_request,
};
use lamparray::wire::WireFormat;
use lamparray::{
    Color, LampArrayAttributesReport, LampArrayControlReport, LampAttributeResposeReport,
    LampMultiUpdateReport, LampRangeUpdateReport, LeU16, Report, Rgb, UsageId,
};

#[test]
fn le_u16_conversions() {
    let v = LeU16::from(0x1234u16);
    assert_eq!(u16::from(v), 0x1234);
    assert_eq!(u16::from(LeU16::from([0x34u8, 0x12u8])), 0x1234);
    let mut out = Vec::new();
    v.encode(&mut out);
    assert_eq!(out, vec![0x34, 0x12]);
    assert_eq!(u16::from(LeU16::default()), 0);
}

#[test]
fn color_from_rgb_is_full_intensity() {
    let c = Color::from(Rgb::new(1, 2, 3));
    assert_eq!(c.intensity, 255);
    let mut out = Vec::new();
    c.encode(&mut out);
    assert_eq!(out, vec![1, 2, 3, 255]);
}

#[test]
fn attributes_report_layout() {
    let mut bytes = vec![0u8; 22];
    bytes[0] = 0x2c;
    bytes[1] = 0x01;
    bytes[2] = 0x78;
    bytes[3] = 0x56;
    bytes[4] = 0x34;
    bytes[5] = 0x12;
    let r = LampArrayAttributesReport::decode(&bytes, 0);
    assert_eq!(u16::from(r.lamp_count), 300);
    assert_eq!(r.bb_w, 0x12345678);
    let mut out = Vec::new();
    r.encode(&mut out);
    assert_eq!(out, bytes);
    assert_eq!(LampArrayAttributesReport::encoded_len(), 22);
}

#[test]
fn response_report_round_trip() {
    let bytes: Vec<u8> = (1..=28).collect();
    let r = LampAttributeResposeReport::decode(&bytes, 0);
    assert_eq!(r.lamp_id_value(), 0x0201);
    assert_eq!(r.color.intensity, 26);
    let mut out = Vec::new();
    r.encode(&mut out);
    assert_eq!(out, bytes);
    let mut zero = Vec::new();
    LampAttributeResposeReport::default().encode(&mut zero);
    assert_eq!(zero, vec![0u8; 28]);
}

#[test]
fn multi_update_report_layout() {
    let ids = [
        LeU16::from(1u16),
        LeU16::from(2u16),
        LeU16::from(3u16),
        LeU16::from(4u16),
        LeU16::from(5u16),
        LeU16::from(6u16),
        LeU16::from(7u16),
        LeU16::from(0x0102u16),
    ];
    let c = Color::from(Rgb::new(9, 8, 7));
    let r = LampMultiUpdateReport {
        lamp_count: 8,
        lamp_update_flags: 1,
        lamp_id: ids,
        colors: [c; 8],
    };
    let mut out = Vec::new();
    r.encode(&mut out);
    assert_eq!(out.len(), 50);
    assert_eq!(&out[0..6], &[8, 1, 1, 0, 2, 0]);
    assert_eq!(&out[16..18], &[2, 1]);
    assert_eq!(&out[18..22], &[9, 8, 7, 255]);
    assert_eq!(&out[46..50], &[9, 8, 7, 255]);
    let back = LampMultiUpdateReport::decode(&out, 0);
    let mut again = Vec::new();
    back.encode(&mut again);
    assert_eq!(again, out);
}

#[test]
fn range_update_report_layout() {
    let r = LampRangeUpdateReport {
        lamp_update_flags: 1,
        lamp_id_start: LeU16::from(0u16),
        lamp_id_end: LeU16::from(0x0105u16),
        colors: Color::from(Rgb::new(0, 0xE5, 0xFF)),
    };
    let mut out = Vec::new();
    r.encode(&mut out);
    assert_eq!(out, vec![1, 0, 0, 5, 1, 0, 0xE5, 0xFF, 255]);
}

#[test]
fn usage_ids() {
    assert_eq!(LampArrayAttributesReport::USAGE_ID, 0x02);
    assert_eq!(LampAttributeResposeReport::USAGE_ID, 0x22);
    assert_eq!(LampMultiUpdateReport::USAGE_ID, 0x50);
    assert_eq!(LampRangeUpdateReport::USAGE_ID, 0x60);
    assert_eq!(LampArrayControlReport::USAGE_ID, 0x70);
}

#[test]
fn ioc_numbers() {
    assert_eq!(ioc(3, 0x48, 0x06, 10), 0xC00A_4806);
    assert_eq!(hidioc_sfeature(10), 0xC00A_4806);
    assert_eq!(hidioc_gfeature(23), 0xC017_4807);
    assert_eq!(hidioc_sfeature(0x1_0000_0002), 0xC002_4806);
}

#[test]
fn feature_frames() {
    let set = set_feature_request(7, LampArrayControlReport { autonomous_mode: 1 });
    assert_eq!(set.buffer, vec![7, 1]);
    assert_eq!(set.request, hidioc_sfeature(2));
    let get = get_feature_request::<LampArrayAttributesReport>(3);
    assert_eq!(get.buffer.len(), 23);
    assert_eq!(get.buffer[0], 3);
    assert!(get.buffer[1..].iter().all(|b| *b == 0));
    assert_eq!(get.request, hidioc_gfeature(23));
    let mut reply = get.buffer.clone();
    reply[1] = 12;
    let r: LampArrayAttributesReport = feature_response(&reply);
    assert_eq!(u16::from(r.lamp_count), 12);
    let frame = Report { report_id: 4, data: LampArrayControlReport { autonomous_mode: 0 } };
    assert_eq!(frame.to_frame(), vec![4, 0]);
    let back = Report::<LampArrayControlReport>::from_frame(&[9, 1]);
    assert_eq!(back.report_id, 9);
    assert_eq!(back.data.autonomous_mode, 1);
}
