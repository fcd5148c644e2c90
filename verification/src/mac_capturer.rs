//! macOS screen capturer: what the answers of the native capturer mean.
//!
//! The native side reports through C result codes and signed numbers.

use vstd::prelude::*;

pub use crate::capture::{DisplayInfo, Nal};

verus! {

/// The outcome of starting the capture pipeline, by the result code.
pub fn start(rc: i32) -> (r: Result<(), &'static str>)
    ensures
        if rc == 0 {
            r is Ok
        } else {
            r matches Err(e) && e@ == "xz_capturer_start failed"@
        },
{
    if rc != 0 {
        return Err("xz_capturer_start failed");
    }
    Ok(())
}

/// What a result code means: 0 is success, 1 means that no capturer runs, and
/// any other code that the call itself failed.
pub open spec fn outcome(rc: i32, failed: Seq<char>) -> Result<(), Seq<char>> {
    if rc == 0 {
        Ok(())
    } else if rc == 1 {
        Err("capturer not started"@)
    } else {
        Err(failed)
    }
}

/// A result with the characters of its message.
pub open spec fn told(r: Result<(), &'static str>) -> Result<(), Seq<char>> {
    match r {
        Ok(_) => Ok(()),
        Err(e) => Err(e@),
    }
}

/// The outcome of switching to a different display.
pub fn select_display(rc: i32) -> (r: Result<(), &'static str>)
    ensures
        told(r) == outcome(rc, "select_display failed"@),
{
    match rc {
        0 => Ok(()),
        1 => Err("capturer not started"),
        _ => Err("select_display failed"),
    }
}

/// The outcome of setting the bitrate.
pub fn set_bitrate_kbps(rc: i32) -> (r: Result<(), &'static str>)
    ensures
        told(r) == outcome(rc, "set_bitrate failed"@),
{
    match rc {
        0 => Ok(()),
        1 => Err("capturer not started"),
        _ => Err("set_bitrate failed"),
    }
}

/// The outcome of setting the frame rate.
pub fn set_fps(rc: i32) -> (r: Result<(), &'static str>)
    ensures
        told(r) == outcome(rc, "set_fps failed"@),
{
    match rc {
        0 => Ok(()),
        1 => Err("capturer not started"),
        _ => Err("set_fps failed"),
    }
}

/// The outcome of switching the resolution.
pub fn set_resolution(rc: i32) -> (r: Result<(), &'static str>)
    ensures
        told(r) == outcome(rc, "set_resolution failed"@),
{
    match rc {
        0 => Ok(()),
        1 => Err("capturer not started"),
        _ => Err("set_resolution failed"),
    }
}

/// The configured bitrate. A negative report means that no capturer runs.
pub fn bitrate_kbps(reported: i32) -> (r: u32)
    ensures
        r as int == if reported < 0 {
            0
        } else {
            reported as int
        },
{
    if reported < 0 {
        0
    } else {
        reported as u32
    }
}

/// The configured frame rate. A negative report means that no capturer runs.
pub fn fps(reported: i32) -> (r: u32)
    ensures
        r as int == if reported < 0 {
            0
        } else {
            reported as int
        },
{
    if reported < 0 {
        0
    } else {
        reported as u32
    }
}

/// `(width, height)`, which are reported in the upper and the lower half of
/// one number. Without a capturer there is none, and the result is `(0, 0)`.
pub fn resolution(reported: i32) -> (r: (u32, u32))
    ensures
        if reported <= 0 {
            r == (0u32, 0u32)
        } else {
            r.0 == reported as int / 0x1_0000 && r.1 == reported as int % 0x1_0000
        },
{
    if reported <= 0 {
        return (0, 0);
    }
    let v = reported as u32;
    assert((v >> 16) & 0xFFFF == v / 0x1_0000) by (bit_vector);
    assert(v & 0xFFFF == v % 0x1_0000) by (bit_vector);
    ((v >> 16) & 0xFFFF, v & 0xFFFF)
}

/// The JSON list of displays that the native side wrote to `buf`: its first
/// `n` bytes. A negative `n` reports a failure.
pub fn list_displays(buf: &[u8], n: isize) -> (r: Option<&[u8]>)
    requires
        n <= buf@.len(),
    ensures
        match r {
            Some(json) => n >= 0 && json@ == buf@.take(n as int),
            None => n < 0,
        },
{
    if n < 0 {
        return None;
    }
    let json = vstd::slice::slice_subrange(buf, 0, n as usize);
    assert(json@ =~= buf@.take(n as int));
    Some(json)
}

/// How many bytes of a callback's data make a NAL unit. A callback without a
/// context or without data is passed over.
pub fn on_nal(has_ctx: bool, has_data: bool, len: isize) -> (r: Option<usize>)
    ensures
        match r {
            Some(n) => has_ctx && has_data && len > 0 && n == len,
            None => !has_ctx || !has_data || len <= 0,
        },
{
    if !has_ctx || !has_data || len <= 0 {
        None
    } else {
        Some(len as usize)
    }
}

/// What the result codes mean, and what is told of a result: 0 alone is
/// success, 1 means that no capturer runs, and any other code is the call's own
/// failure.
pub proof fn law_result_codes(rc: i32, failed: Seq<char>, r: Result<(), &'static str>)
    ensures
        rc == 0 <==> outcome(rc, failed) is Ok,
        rc == 1 ==> outcome(rc, failed) == Err::<(), Seq<char>>("capturer not started"@),
        rc < 0 || rc > 1 ==> outcome(rc, failed) == Err::<(), Seq<char>>(failed),
        told(r) is Ok <==> r is Ok,
        r matches Err(e) ==> told(r) == Err::<(), Seq<char>>(e@),
{
}

/// What the answers of the native capturer mean. Every call succeeds with 0
/// alone; 1 means that no capturer runs, and any other code that the call
/// failed. Negative numbers stand for 0.
pub proof fn law_native_answers(
    rc: i32,
    started: Result<(), &'static str>,
    selected: Result<(), &'static str>,
    bitrate: Result<(), &'static str>,
    rate: Result<(), &'static str>,
    resized: Result<(), &'static str>,
)
    requires
        call_ensures(start, (rc,), started),
        call_ensures(select_display, (rc,), selected),
        call_ensures(set_bitrate_kbps, (rc,), bitrate),
        call_ensures(set_fps, (rc,), rate),
        call_ensures(set_resolution, (rc,), resized),
    ensures
        rc == 0 <==> started is Ok,
        rc == 0 <==> selected is Ok,
        rc == 0 <==> bitrate is Ok,
        rc == 0 <==> rate is Ok,
        rc == 0 <==> resized is Ok,
        started matches Err(e) ==> e@ == "xz_capturer_start failed"@,
        rc == 1 ==> selected->Err_0@ == "capturer not started"@,
        rc == 1 ==> bitrate->Err_0@ == "capturer not started"@,
        rc == 1 ==> rate->Err_0@ == "capturer not started"@,
        rc == 1 ==> resized->Err_0@ == "capturer not started"@,
        rc != 0 && rc != 1 ==> selected->Err_0@ == "select_display failed"@,
        rc != 0 && rc != 1 ==> bitrate->Err_0@ == "set_bitrate failed"@,
        rc != 0 && rc != 1 ==> rate->Err_0@ == "set_fps failed"@,
        rc != 0 && rc != 1 ==> resized->Err_0@ == "set_resolution failed"@,
{
}

/// What the numbers of the native capturer mean: none is ever negative, and a
/// resolution is put together from its width and its height.
pub proof fn law_native_numbers(
    reported: i32,
    bitrate: u32,
    rate: u32,
    size: (u32, u32),
    buf: &[u8],
    n: isize,
    json: Option<&[u8]>,
    has_ctx: bool,
    has_data: bool,
    len: Option<usize>,
)
    requires
        n <= buf@.len(),
        call_ensures(bitrate_kbps, (reported,), bitrate),
        call_ensures(fps, (reported,), rate),
        call_ensures(resolution, (reported,), size),
        call_ensures(list_displays, (buf, n), json),
        call_ensures(on_nal, (has_ctx, has_data, n), len),
    ensures
        bitrate == rate,
        reported >= 0 ==> bitrate == reported,
        reported < 0 ==> bitrate == 0,
        reported > 0 ==> size.0 * 65536 + size.1 == reported && size.1 < 65536,
        reported <= 0 ==> size == (0u32, 0u32),
        json is Some <==> n >= 0,
        json is Some ==> json->0@ == buf@.subrange(0, n as int),
        len is Some <==> has_ctx && has_data && n > 0,
        len is Some ==> len->0 == n,
{
    if json is Some {
        assert(json->0@ =~= buf@.subrange(0, n as int));
    }
}

} // verus!
