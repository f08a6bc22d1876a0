//! The `hidraw` feature-report requests: the `ioctl` request numbers and the
//! buffers handed to the kernel.
use vstd::prelude::*;

use crate::hid::{zeros, Report};
use crate::wire::WireFormat;

verus! {

/// `'H'`, the `ioctl` type of the `hidraw` requests.
pub const HIDIOC_MAGIC: u32 = 0x48;

pub const IOC_WRITE: u32 = 1;

pub const IOC_READ: u32 = 2;

/// The `_IOC` number of the `HIDIOCSFEATURE` request.
pub const HIDIOC_SFEATURE_NR: u32 = 0x06;

/// The `_IOC` number of the `HIDIOCGFEATURE` request.
pub const HIDIOC_GFEATURE_NR: u32 = 0x07;

/// Linux `_IOC(dir, ty, nr, size)`: direction in bits 30-31, size in bits
/// 16-29, type in bits 8-15, number in bits 0-7.
pub open spec fn spec_ioc(dir: u32, ty: u32, nr: u32, size: u32) -> u32 {
    (dir << 30u32) | (ty << 8u32) | nr | (size << 16u32)
}

/// Build a Linux `_IOC()` request number.
pub fn ioc(dir: u32, ty: u32, nr: u32, size: u32) -> (r: u32)
    ensures
        r == spec_ioc(dir, ty, nr, size),
{
    (dir << 30u32) | (ty << 8u32) | nr | (size << 16u32)
}

/// Each part of an `_IOC` number can be read back from it, as long as it fits
/// its bits.
pub proof fn lemma_ioc_fields(dir: u32, ty: u32, nr: u32, size: u32)
    requires
        dir < 4,
        ty < 256,
        nr < 256,
        size < 0x4000,
    ensures
        spec_ioc(dir, ty, nr, size) >> 30u32 == dir,
        (spec_ioc(dir, ty, nr, size) >> 16u32) & 0x3fff == size,
        (spec_ioc(dir, ty, nr, size) >> 8u32) & 0xff == ty,
        spec_ioc(dir, ty, nr, size) & 0xff == nr,
{
    assert(((dir << 30u32) | (ty << 8u32) | nr | (size << 16u32)) >> 30u32 == dir) by (bit_vector)
        requires
            dir < 4,
            ty < 256,
            nr < 256,
            size < 0x4000,
    ;
    assert((((dir << 30u32) | (ty << 8u32) | nr | (size << 16u32)) >> 16u32) & 0x3fff == size)
        by (bit_vector)
        requires
            dir < 4,
            ty < 256,
            nr < 256,
            size < 0x4000,
    ;
    assert((((dir << 30u32) | (ty << 8u32) | nr | (size << 16u32)) >> 8u32) & 0xff == ty)
        by (bit_vector)
        requires
            dir < 4,
            ty < 256,
            nr < 256,
            size < 0x4000,
    ;
    assert(((dir << 30u32) | (ty << 8u32) | nr | (size << 16u32)) & 0xff == nr) by (bit_vector)
        requires
            dir < 4,
            ty < 256,
            nr < 256,
            size < 0x4000,
    ;
}

/// `HIDIOCSFEATURE(len)` as a number.
pub open spec fn spec_hidioc_sfeature(len: usize) -> u32 {
    spec_ioc(IOC_WRITE | IOC_READ, HIDIOC_MAGIC, HIDIOC_SFEATURE_NR, len as u32)
}

/// `HIDIOCGFEATURE(len)` as a number.
pub open spec fn spec_hidioc_gfeature(len: usize) -> u32 {
    spec_ioc(IOC_WRITE | IOC_READ, HIDIOC_MAGIC, HIDIOC_GFEATURE_NR, len as u32)
}

pub fn hidioc_sfeature(len: usize) -> (r: u32)
    ensures
        r == spec_hidioc_sfeature(len),
{
    ioc(IOC_WRITE | IOC_READ, HIDIOC_MAGIC, HIDIOC_SFEATURE_NR, len as u32)
}

pub fn hidioc_gfeature(len: usize) -> (r: u32)
    ensures
        r == spec_hidioc_gfeature(len),
{
    ioc(IOC_WRITE | IOC_READ, HIDIOC_MAGIC, HIDIOC_GFEATURE_NR, len as u32)
}

/// A feature-report `ioctl` to perform: the request number and the buffer it
/// reads from (and, for a "get", writes into).
#[derive(Debug)]
pub struct FeatureRequest {
    pub request: u32,
    pub buffer: Vec<u8>,
}

/// `HIDIOCSFEATURE` for report `id` carrying `data`: the buffer is the report
/// id followed by the report's bytes, and the request names its length.
pub fn set_feature_request<T: WireFormat>(id: u8, data: T) -> (r: FeatureRequest)
    ensures
        r.buffer@ == (Report { report_id: id, data }).frame(),
        r.buffer@.len() == 1 + T::wire_len(),
        r.request == spec_hidioc_sfeature((1 + T::wire_len()) as usize),
{
    let report = Report { report_id: id, data };
    let buffer = report.to_frame();
    let request = hidioc_sfeature(Report::<T>::frame_len());
    FeatureRequest { request, buffer }
}

/// `HIDIOCGFEATURE` for report `id`: the buffer is the report id followed by
/// a default (all-zero) report for the kernel to overwrite.
pub fn get_feature_request<T: WireFormat>(id: u8) -> (r: FeatureRequest)
    ensures
        r.buffer@ == seq![id] + zeros(T::wire_len()),
        r.request == spec_hidioc_gfeature((1 + T::wire_len()) as usize),
{
    let len = Report::<T>::frame_len();
    let mut buffer: Vec<u8> = Vec::new();
    buffer.push(id);
    while buffer.len() < len
        invariant
            len == 1 + T::wire_len(),
            1 <= buffer@.len() <= len,
            buffer@ == seq![id] + zeros((buffer@.len() - 1) as nat),
        decreases len - buffer@.len(),
    {
        buffer.push(0);
        assert(buffer@ =~= seq![id] + zeros((buffer@.len() - 1) as nat));
    }
    let request = hidioc_gfeature(len);
    FeatureRequest { request, buffer }
}

/// The report that a filled-in `HIDIOCGFEATURE` buffer holds.
pub fn feature_response<T: WireFormat>(buffer: &[u8]) -> (r: T)
    requires
        buffer@.len() == 1 + T::wire_len(),
    ensures
        buffer@ == seq![buffer@[0]] + r.wire(),
{
    let report = Report::<T>::from_frame(buffer);
    report.data
}

} // verus!
