//! The H264 encoder, wrapped in a "feed BGRA frame, get NAL units" interface.
//!
//! The platform transform is driven from outside; what goes into it, what is
//! made of its answers, and the pixel and bitstream formats are here:
//!
//! 1. A frame comes as a tightly packed BGRA buffer.
//! 2. `bgra_to_nv12` turns it into NV12, the pixel format that the transform
//!    accepts.
//! 3. It is stamped with a time and a duration and pushed into the transform.
//! 4. Each sample that the transform gives is one access unit in AVCC format:
//!    repeated `<4-byte big-endian length><NAL payload>`.
//! 5. `avcc_to_annexb` turns each into `<00 00 00 01><NAL payload>`.

use vstd::arithmetic::div_mod::lemma_fundamental_div_mod_converse;
use vstd::prelude::*;

use crate::capture::Nal;

verus! {

/// Errors that escape the encoder.
#[derive(Debug, Clone, Copy, PartialEq, Eq, Structural)]
pub enum Error {
    /// The transform failed with this result code.
    Mf { hresult: i32 },
    /// The encoder is not configured.
    NotConfigured,
    /// No H264 encoder was found.
    NoEncoderFound,
    /// The BGRA buffer is too short.
    InputBufferSize { got: usize, expected: usize },
}

/// The state of the encoder. One instance per publish session.
#[derive(Debug)]
pub struct H264Encoder {
    configured: bool,
    input_stream_id: u32,
    output_stream_id: u32,
    width: u32,
    height: u32,
    frame_duration_100ns: i64,
    next_pts_100ns: i64,
    epoch_ns: i128,
}

/// The encoder as the contracts see it. The frame times are in units of 100 ns.
/// `epoch_ns` is the wall clock when the encoder was configured, in nanoseconds
/// since the Unix epoch.
pub struct EncoderView {
    pub configured: bool,
    pub input_stream_id: u32,
    pub output_stream_id: u32,
    pub width: u32,
    pub height: u32,
    pub frame_duration_100ns: i64,
    pub next_pts_100ns: i64,
    pub epoch_ns: i128,
}

impl View for H264Encoder {
    type V = EncoderView;

    closed spec fn view(&self) -> EncoderView {
        EncoderView {
            configured: self.configured,
            input_stream_id: self.input_stream_id,
            output_stream_id: self.output_stream_id,
            width: self.width,
            height: self.height,
            frame_duration_100ns: self.frame_duration_100ns,
            next_pts_100ns: self.next_pts_100ns,
            epoch_ns: self.epoch_ns,
        }
    }
}

/// A video format of the transform's streams.
#[derive(Debug, Clone, Copy, PartialEq, Eq, Structural)]
pub enum Subtype {
    H264,
    Nv12,
}

/// The attributes of one of the transform's streams. Every stream is
/// progressive video. Sizes and ratios hold their first number in the upper
/// half and their second in the lower half.
#[derive(Debug, Clone, Copy, PartialEq, Eq, Structural)]
pub struct MediaType {
    pub subtype: Subtype,
    pub avg_bitrate: Option<u32>,
    pub frame_size: u64,
    pub frame_rate: u64,
    pub pixel_aspect_ratio: u64,
    /// Whether the H264 High profile is asked for.
    pub high_profile: bool,
}

/// How the transform is to be set up: the output type first, then the input
/// type.
#[derive(Debug, Clone, Copy, PartialEq, Eq, Structural)]
pub struct EncoderPlan {
    pub width: u32,
    pub height: u32,
    pub fps: u32,
    pub output: MediaType,
    pub input: MediaType,
}

/// Two 32-bit numbers in one 64-bit attribute.
pub open spec fn packed(hi: u32, lo: u32) -> u64 {
    (hi * 0x1_0000_0000 + lo) as u64
}

/// Two 32-bit numbers in one 64-bit attribute.
fn pack(hi: u32, lo: u32) -> (r: u64)
    ensures
        r == packed(hi, lo),
{
    assert(((hi as u64) << 32) | (lo as u64) == hi * 0x1_0000_0000 + lo) by (bit_vector);
    ((hi as u64) << 32) | (lo as u64)
}

/// `n` rounded up to an even number.
fn even(n: u32) -> (r: u32)
    requires
        n < u32::MAX,
    ensures
        r == round_up_even(n as int),
{
    let m: u32 = n + 1;
    assert(m >= 1 ==> m & !1u32 == (m - 1) + (m - 1) % 2) by (bit_vector);
    m & !1
}

/// The plan for a resolution, frame rate and average bitrate. NV12 needs even
/// dimensions, so odd ones are rounded up.
pub open spec fn plan_of(width: u32, height: u32, fps: u32, bitrate_bps: u32) -> EncoderPlan {
    let w = round_up_even(width as int) as u32;
    let h = round_up_even(height as int) as u32;
    EncoderPlan {
        width: w,
        height: h,
        fps,
        output: MediaType {
            subtype: Subtype::H264,
            avg_bitrate: Some(bitrate_bps),
            frame_size: packed(w, h),
            frame_rate: packed(fps, 1),
            pixel_aspect_ratio: packed(1, 1),
            high_profile: true,
        },
        input: MediaType {
            subtype: Subtype::Nv12,
            avg_bitrate: None,
            frame_size: packed(w, h),
            frame_rate: packed(fps, 1),
            pixel_aspect_ratio: packed(1, 1),
            high_profile: false,
        },
    }
}

/// Plan the set-up of the transform.
pub fn plan(width: u32, height: u32, fps: u32, bitrate_bps: u32) -> (r: EncoderPlan)
    requires
        width < u32::MAX,
        height < u32::MAX,
    ensures
        r == plan_of(width, height, fps, bitrate_bps),
{
    let w = even(width);
    let h = even(height);
    let frame_size = pack(w, h);
    let frame_rate = pack(fps, 1);
    let pixel_aspect_ratio = pack(1, 1);
    EncoderPlan {
        width: w,
        height: h,
        fps,
        output: MediaType {
            subtype: Subtype::H264,
            avg_bitrate: Some(bitrate_bps),
            frame_size,
            frame_rate,
            pixel_aspect_ratio,
            high_profile: true,
        },
        input: MediaType {
            subtype: Subtype::Nv12,
            avg_bitrate: None,
            frame_size,
            frame_rate,
            pixel_aspect_ratio,
            high_profile: false,
        },
    }
}

/// What the search for an encoder found.
#[derive(Debug, Clone, Copy, PartialEq, Eq, Structural)]
pub enum SearchStep {
    /// Take the first one of the list.
    TakeFirst,
    /// Search once more, for software encoders.
    SearchSoftware,
    /// Give up.
    NotFound,
}

/// Judge a search. `count` is the number of encoders, `listed` whether there
/// is a list, and `hardware` whether the search was for hardware encoders.
pub fn judge_search(count: u32, listed: bool, hardware: bool) -> (r: SearchStep)
    ensures
        r == (if count == 0 && hardware {
            SearchStep::SearchSoftware
        } else if count == 0 || !listed {
            SearchStep::NotFound
        } else {
            SearchStep::TakeFirst
        }),
{
    if count == 0 && hardware {
        SearchStep::SearchSoftware
    } else if count == 0 || !listed {
        SearchStep::NotFound
    } else {
        SearchStep::TakeFirst
    }
}

/// What the transform told of its stream ids.
#[derive(Debug, Clone, Copy, PartialEq, Eq, Structural)]
pub enum StreamIds {
    Reported { input: u32, output: u32 },
    /// The transform has fixed ids and does not report them.
    NotImplemented,
    Failed { hresult: i32 },
}

/// The input and output stream ids. Ids that are not reported are zero.
pub fn lookup_stream_ids(ids: StreamIds) -> (r: Result<(u32, u32), Error>)
    ensures
        r == (match ids {
            StreamIds::Reported { input, output } => Ok::<(u32, u32), Error>((input, output)),
            StreamIds::NotImplemented => Ok((0, 0)),
            StreamIds::Failed { hresult } => Err(Error::Mf { hresult }),
        }),
{
    match ids {
        StreamIds::Reported { input, output } => Ok((input, output)),
        StreamIds::NotImplemented => Ok((0, 0)),
        StreamIds::Failed { hresult } => Err(Error::Mf { hresult }),
    }
}

/// An NV12 frame for the transform, with its time and its duration in units of
/// 100 ns.
#[derive(Debug)]
pub struct Nv12Frame {
    pub data: Vec<u8>,
    pub sample_time: i64,
    pub sample_duration: i64,
}

/// What the transform answered when asked for output.
#[derive(Debug)]
pub enum TransformOutput {
    /// A sample with these bytes, or none.
    Produced(Option<Vec<u8>>),
    /// No output until more frames are pushed.
    NeedMoreInput,
    Failed { hresult: i32 },
}

/// How draining goes on.
#[derive(Debug)]
pub enum DrainStep {
    /// Ask the transform again.
    More(Vec<Nal>),
    /// These are the NAL units.
    Done(Vec<Nal>),
    Failed(Error),
}

/// A NAL unit as the contracts see it.
pub struct NalView {
    pub data: Seq<u8>,
    pub pts_us: i64,
}

/// NAL units as the contracts see them.
pub open spec fn nals_view(nals: Seq<Nal>) -> Seq<NalView> {
    nals.map_values(|n: Nal| NalView { data: n.data@, pts_us: n.pts_us })
}

/// The NAL units of an AVCC sample, all stamped with `pts_us`.
pub open spec fn stamped(avcc: Seq<u8>, pts_us: i64) -> Seq<NalView> {
    annexb_of(avcc).map_values(|data: Seq<u8>| NalView { data, pts_us })
}

/// The time between two frames, in units of 100 ns. A rate of 0 counts as 1.
pub open spec fn frame_interval(fps: u32) -> int {
    if fps == 0 {
        10_000_000
    } else {
        10_000_000int / fps as int
    }
}

/// The encoder after a frame was stamped: the next frame's time is one interval
/// later, but never more than `i64::MAX`.
pub open spec fn after_frame(v: EncoderView) -> EncoderView {
    EncoderView {
        next_pts_100ns: if v.next_pts_100ns + v.frame_duration_100ns > i64::MAX {
            i64::MAX
        } else {
            (v.next_pts_100ns + v.frame_duration_100ns) as i64
        },
        ..v
    }
}

/// The whole microseconds from `epoch_ns` to `clock_ns`. A clock that went
/// backwards, and a time that does not fit, counts as 0.
pub open spec fn elapsed_us(epoch_ns: i128, clock_ns: i128) -> i64 {
    let us = (clock_ns - epoch_ns) / 1000;
    if clock_ns >= epoch_ns && us <= i64::MAX {
        us as i64
    } else {
        0
    }
}

impl H264Encoder {
    #[verifier::type_invariant]
    spec fn wf(self) -> bool {
        &&& self.width % 2 == 0
        &&& self.height % 2 == 0
        &&& 0 <= self.frame_duration_100ns <= 10_000_000
        &&& 0 <= self.next_pts_100ns
    }

    /// An encoder that is not configured.
    pub fn new() -> (r: Self)
        ensures
            r@ == (EncoderView {
                configured: false,
                input_stream_id: 0,
                output_stream_id: 0,
                width: 0,
                height: 0,
                frame_duration_100ns: 0,
                next_pts_100ns: 0,
                epoch_ns: 0,
            }),
    {
        H264Encoder {
            configured: false,
            input_stream_id: 0,
            output_stream_id: 0,
            width: 0,
            height: 0,
            frame_duration_100ns: 0,
            next_pts_100ns: 0,
            epoch_ns: 0,
        }
    }

    /// Take over the set-up of the transform at the wall clock time
    /// `clock_ns`: the stream ids where it succeeded, or the error, which
    /// leaves the encoder as it was.
    pub fn configure(
        &mut self,
        plan: &EncoderPlan,
        ids: Result<(u32, u32), Error>,
        clock_ns: i128,
    ) -> (r: Result<(), Error>)
        requires
            plan.width % 2 == 0,
            plan.height % 2 == 0,
        ensures
            match ids {
                Ok((input, output)) => r is Ok && final(self)@ == (EncoderView {
                    configured: true,
                    input_stream_id: input,
                    output_stream_id: output,
                    width: plan.width,
                    height: plan.height,
                    frame_duration_100ns: frame_interval(plan.fps) as i64,
                    next_pts_100ns: 0,
                    epoch_ns: clock_ns,
                }),
                Err(e) => r == Err::<(), Error>(e) && final(self)@ == old(self)@,
            },
    {
        let (input, output) = match ids {
            Ok(ids) => ids,
            Err(e) => {
                return Err(e);
            },
        };
        let fps: u32 = if plan.fps == 0 {
            1
        } else {
            plan.fps
        };
        let duration: u32 = 10_000_000 / fps;
        *self = H264Encoder {
            configured: true,
            input_stream_id: input,
            output_stream_id: output,
            width: plan.width,
            height: plan.height,
            frame_duration_100ns: duration as i64,
            next_pts_100ns: 0,
            epoch_ns: clock_ns,
        };
        Ok(())
    }

    /// The stream ids of the transform.
    pub fn stream_ids(&self) -> (r: (u32, u32))
        ensures
            r == (self@.input_stream_id, self@.output_stream_id),
    {
        (self.input_stream_id, self.output_stream_id)
    }

    /// Turn a BGRA frame into what is pushed into the transform. The buffer
    /// holds `width * height * 4` bytes at least, row by row, without padding.
    pub fn submit_frame(&self, bgra: &[u8]) -> (r: Result<Nv12Frame, Error>)
        requires
            self@.width * self@.height * 4 <= usize::MAX,
        ensures
            if !self@.configured {
                r == Err::<Nv12Frame, Error>(Error::NotConfigured)
            } else if bgra@.len() < self@.width * self@.height * 4 {
                r == Err::<Nv12Frame, Error>(
                    Error::InputBufferSize {
                        got: bgra@.len() as usize,
                        expected: (self@.width * self@.height * 4) as usize,
                    },
                )
            } else {
                r matches Ok(f) && nv12_image(
                    bgra@,
                    self@.width as int,
                    self@.height as int,
                    f.data@,
                ) && f.sample_time == self@.next_pts_100ns && f.sample_duration
                    == self@.frame_duration_100ns
            },
    {
        proof {
            use_type_invariant(self);
        }
        if !self.configured {
            return Err(Error::NotConfigured);
        }
        let w = self.width as usize;
        let h = self.height as usize;
        proof {
            lemma_even_sizes(w as int, h as int);
        }
        let y_size = w * h;
        let expected = y_size * 4;
        if bgra.len() < expected {
            return Err(Error::InputBufferSize { got: bgra.len(), expected });
        }
        let nv12_len = y_size + y_size / 2;
        let mut data: Vec<u8> = vec![0; nv12_len];
        bgra_to_nv12(bgra, w, h, data.as_mut_slice());
        Ok(
            Nv12Frame {
                data,
                sample_time: self.next_pts_100ns,
                sample_duration: self.frame_duration_100ns,
            },
        )
    }

    /// Note that a frame was stamped: the next one follows it in time.
    pub fn frame_stamped(&mut self)
        ensures
            final(self)@ == after_frame(old(self)@),
    {
        proof {
            use_type_invariant(&*self);
        }
        let next = if self.next_pts_100ns > i64::MAX - self.frame_duration_100ns {
            i64::MAX
        } else {
            self.next_pts_100ns + self.frame_duration_100ns
        };
        self.next_pts_100ns = next;
    }

    /// Begin to drain the transform: no NAL unit yet.
    pub fn begin_drain(&self) -> (r: Result<Vec<Nal>, Error>)
        ensures
            if self@.configured {
                r matches Ok(nals) && nals@.len() == 0
            } else {
                r == Err::<Vec<Nal>, Error>(Error::NotConfigured)
            },
    {
        if self.configured {
            Ok(Vec::new())
        } else {
            Err(Error::NotConfigured)
        }
    }

    /// Go on draining: `nals` are the NAL units so far, and `clock_ns` is the
    /// wall clock when the transform gave `output`.
    pub fn drain(&self, nals: Vec<Nal>, output: TransformOutput, clock_ns: i128) -> (r: DrainStep)
        ensures
            if !self@.configured {
                r == DrainStep::Failed(Error::NotConfigured)
            } else {
                match output {
                    TransformOutput::Produced(Some(avcc)) => r matches DrainStep::More(all)
                        && nals_view(all@) == nals_view(nals@) + stamped(
                        avcc@,
                        elapsed_us(self@.epoch_ns, clock_ns),
                    ),
                    TransformOutput::Produced(None) => r == DrainStep::More(nals),
                    TransformOutput::NeedMoreInput => r == DrainStep::Done(nals),
                    TransformOutput::Failed { hresult } => r == DrainStep::Failed(
                        Error::Mf { hresult },
                    ),
                }
            },
    {
        if !self.configured {
            return DrainStep::Failed(Error::NotConfigured);
        }
        match output {
            TransformOutput::Produced(Some(avcc)) => {
                let mut all = nals;
                let mut more = sample_to_annexb(avcc.as_slice(), self.now_us(clock_ns));
                let ghost (old_all, old_more) = (all@, more@);
                all.append(&mut more);
                assert(nals_view(all@) =~= nals_view(old_all) + nals_view(old_more));
                DrainStep::More(all)
            },
            TransformOutput::Produced(None) => DrainStep::More(nals),
            TransformOutput::NeedMoreInput => DrainStep::Done(nals),
            TransformOutput::Failed { hresult } => DrainStep::Failed(Error::Mf { hresult }),
        }
    }

    /// Microseconds since the encoder was configured, by the wall clock time
    /// `clock_ns`.
    pub fn now_us(&self, clock_ns: i128) -> (r: i64)
        ensures
            r == elapsed_us(self@.epoch_ns, clock_ns),
    {
        match clock_ns.checked_sub(self.epoch_ns) {
            Some(ns) => {
                if ns < 0 {
                    return 0;
                }
                let us = ns / 1000;
                if us <= i64::MAX as i128 {
                    us as i64
                } else {
                    0
                }
            },
            None => 0,
        }
    }
}

/// The size of the sample that the transform has to be given for its output.
/// `None` where it brings its own: one of the two flags `provides` and
/// `can_provide` is set in `flags`.
pub fn output_sample_size(flags: u32, provides: u32, can_provide: u32, cb_size: u32) -> (r: Option<
    u32,
>)
    ensures
        r == (if flags & (provides | can_provide) != 0 {
            None
        } else if cb_size == 0 {
            Some(1u32)
        } else {
            Some(cb_size)
        }),
{
    if flags & (provides | can_provide) != 0 {
        None
    } else if cb_size == 0 {
        Some(1)
    } else {
        Some(cb_size)
    }
}

/// The number that the first four bytes hold in big-endian order.
pub open spec fn be_length(avcc: Seq<u8>) -> int {
    avcc[0] * 0x100_0000 + avcc[1] * 0x1_0000 + avcc[2] * 0x100 + avcc[3]
}

/// The Annex-B start code.
pub open spec fn start_code() -> Seq<u8> {
    seq![0u8, 0u8, 0u8, 1u8]
}

/// The Annex-B NAL units of AVCC data: each length-prefixed payload behind a
/// start code. A tail that is shorter than its length announces is dropped.
pub open spec fn annexb_of(avcc: Seq<u8>) -> Seq<Seq<u8>>
    decreases avcc.len(),
{
    if avcc.len() < 4 || avcc.len() - 4 < be_length(avcc) {
        Seq::empty()
    } else {
        seq![start_code() + avcc.subrange(4, 4 + be_length(avcc))] + annexb_of(
            avcc.skip(4 + be_length(avcc)),
        )
    }
}

/// The contents of byte vectors.
pub open spec fn contents(vs: Seq<Vec<u8>>) -> Seq<Seq<u8>> {
    vs.map_values(|v: Vec<u8>| v@)
}

/// Convert AVCC data (4-byte big-endian length and NAL bytes, repeating) into
/// Annex-B NAL units, each behind the 4-byte start code.
pub fn avcc_to_annexb(avcc: &[u8]) -> (r: Vec<Vec<u8>>)
    ensures
        contents(r@) == annexb_of(avcc@),
{
    let mut out: Vec<Vec<u8>> = Vec::new();
    let len = avcc.len();
    let mut off: usize = 0;
    assert(avcc@.skip(0) =~= avcc@);
    assert(contents(out@) + annexb_of(avcc@) =~= annexb_of(avcc@));
    while len - off >= 4
        invariant_except_break
            off <= len == avcc@.len(),
            contents(out@) + annexb_of(avcc@.skip(off as int)) == annexb_of(avcc@),
        ensures
            contents(out@) == annexb_of(avcc@),
        decreases len - off,
    {
        let ghost rest = avcc@.skip(off as int);
        let n = be_u32(avcc[off], avcc[off + 1], avcc[off + 2], avcc[off + 3]) as usize;
        assert(n == be_length(rest));
        let start = off + 4;
        if n > len - start {
            assert(contents(out@) + Seq::empty() =~= contents(out@));
            break;
        }
        let mut nal: Vec<u8> = Vec::with_capacity(4);
        nal.push(0);
        nal.push(0);
        nal.push(0);
        nal.push(1);
        let payload = vstd::slice::slice_subrange(avcc, start, start + n);
        nal.extend_from_slice(payload);
        let ghost before = contents(out@);
        out.push(nal);
        off = start + n;
        proof {
            let unit = start_code() + rest.subrange(4, 4 + n);
            assert(nal@ =~= unit);
            assert(contents(out@) =~= before.push(unit));
            assert(avcc@.skip(off as int) =~= rest.skip(4 + n as int));
            assert(before.push(unit) + annexb_of(rest.skip(4 + n as int)) =~= before + (seq![unit]
                + annexb_of(rest.skip(4 + n as int))));
        }
    }
    out
}

/// The number that four bytes hold in big-endian order.
fn be_u32(b0: u8, b1: u8, b2: u8, b3: u8) -> (r: u32)
    ensures
        r == b0 * 0x100_0000 + b1 * 0x1_0000 + b2 * 0x100 + b3,
{
    (b0 as u32) * 0x100_0000 + (b1 as u32) * 0x1_0000 + (b2 as u32) * 0x100 + b3 as u32
}

/// The NAL units of one sample, all stamped with `pts_us`.
pub fn sample_to_annexb(sample: &[u8], pts_us: i64) -> (r: Vec<Nal>)
    ensures
        nals_view(r@) == stamped(sample@, pts_us),
{
    let units = avcc_to_annexb(sample);
    let ghost all = units@;
    let mut out: Vec<Nal> = Vec::new();
    for data in it: units
        invariant
            it.seq() == all,
            out@.len() == it.index(),
            forall|i: int|
                0 <= i < out@.len() ==> (#[trigger] out@[i]).data == all[i] && out@[i].pts_us
                    == pts_us,
    {
        out.push(Nal { data, pts_us });
    }
    proof {
        assert(annexb_of(sample@) == contents(all));
        assert(nals_view(out@) =~= stamped(sample@, pts_us));
    }
    out
}

/// Whether `data` is the NV12 image of a BGRA image of `w` by `h` pixels.
pub open spec fn nv12_image(bgra: Seq<u8>, w: int, h: int, data: Seq<u8>) -> bool {
    &&& data.len() == w * h + w * h / 2
    &&& forall|i: int|
        0 <= i < data.len() ==> #[trigger] data[i] == nv12_byte(bgra, w, h, i)
}

/// With even dimensions the conversion reads the image's own pixels only, and
/// the chroma plane is half as large as the luma plane.
proof fn lemma_even_sizes(w: int, h: int)
    requires
        w >= 0,
        h >= 0,
        w % 2 == 0,
        h % 2 == 0,
    ensures
        0 <= w * h,
        pixels_read(w, h) == w * h,
        nv12_len(w, h) == w * h + w * h / 2,
{
    let half = h / 2;
    assert(w * h == 2 * (w * half)) by (nonlinear_arith)
        requires
            h == 2 * half,
    ;
    assert(w * half >= 0) by (nonlinear_arith)
        requires
            w >= 0,
            half >= 0,
    ;
    assert((h - 1) * w + w == w * h) by (nonlinear_arith);
    assert((half - 1) * w + w == w * half) by (nonlinear_arith);
}

/// The blue, green and red value of the pixel at place `p` of a BGRA image.
pub open spec fn blue(src: Seq<u8>, p: int) -> int {
    src[4 * p] as int
}

pub open spec fn green(src: Seq<u8>, p: int) -> int {
    src[4 * p + 1] as int
}

pub open spec fn red(src: Seq<u8>, p: int) -> int {
    src[4 * p + 2] as int
}

/// BT.601 limited-range luma, in fixed point.
pub open spec fn luma(r: int, g: int, b: int) -> int {
    (66 * r + 129 * g + 25 * b + 128) / 256 + 16
}

/// BT.601 limited-range blue-difference chroma, in fixed point.
pub open spec fn chroma_u(r: int, g: int, b: int) -> int {
    (112 * b - 38 * r - 74 * g + 128) / 256 + 128
}

/// BT.601 limited-range red-difference chroma, in fixed point.
pub open spec fn chroma_v(r: int, g: int, b: int) -> int {
    (112 * r - 94 * g - 18 * b + 128) / 256 + 128
}

/// `n` rounded up to an even number.
pub open spec fn round_up_even(n: int) -> int {
    n + n % 2
}

/// The mean of a channel over the 2x2 block of an image of width `w` whose
/// upper left pixel is at row `y` and column `x`.
pub open spec fn block_mean(channel: spec_fn(int) -> int, w: int, y: int, x: int) -> int {
    (channel(y * w + x) + channel(y * w + x + 1) + channel((y + 1) * w + x) + channel(
        (y + 1) * w + x + 1,
    )) / 4
}

/// The byte at column `col` of row `row` of the chroma plane: the two chroma
/// values of each 2x2 block, side by side.
pub open spec fn chroma_byte(src: Seq<u8>, w: int, row: int, col: int) -> int {
    let x = col - col % 2;
    let r = block_mean(|p: int| red(src, p), w, 2 * row, x);
    let g = block_mean(|p: int| green(src, p), w, 2 * row, x);
    let b = block_mean(|p: int| blue(src, p), w, 2 * row, x);
    if col % 2 == 0 {
        chroma_u(r, g, b)
    } else {
        chroma_v(r, g, b)
    }
}

/// The number of rows of the chroma plane.
pub open spec fn chroma_rows(h: int) -> int {
    round_up_even(h) / 2
}

/// The length of the NV12 image of a `w` by `h` image.
pub open spec fn nv12_len(w: int, h: int) -> int {
    if w <= 0 || h <= 0 {
        0
    } else {
        w * h + (chroma_rows(h) - 1) * w + round_up_even(w)
    }
}

/// The number of pixels that the conversion of a `w` by `h` image reads: the
/// image's own, and those that fill up the 2x2 blocks at its edges.
pub open spec fn pixels_read(w: int, h: int) -> int {
    if w <= 0 || h <= 0 {
        0
    } else {
        (round_up_even(h) - 1) * w + round_up_even(w)
    }
}

/// The row of the chroma plane that its `k`th byte belongs to.
pub open spec fn chroma_row(w: int, h: int, k: int) -> int {
    if k / w < chroma_rows(h) {
        k / w
    } else {
        chroma_rows(h) - 1
    }
}

/// The byte at place `i` of the NV12 image: the luma plane, then the chroma
/// plane.
pub open spec fn nv12_byte(src: Seq<u8>, w: int, h: int, i: int) -> int {
    if i < w * h {
        luma(red(src, i), green(src, i), blue(src, i))
    } else {
        let k = i - w * h;
        let row = chroma_row(w, h, k);
        chroma_byte(src, w, row, k - row * w)
    }
}

/// `v / 256`, rounded down.
fn shift_down(v: i32) -> (r: i32)
    ensures
        r == v as int / 256,
{
    assert(v >> 8 == v as int / 256) by (bit_vector);
    v >> 8
}

/// The luma of the pixel at place `p`.
fn luma_at(src: &[u8], p: usize) -> (r: u8)
    requires
        4 * (p + 1) <= src@.len(),
    ensures
        r == luma(red(src@, p as int), green(src@, p as int), blue(src@, p as int)),
{
    let len = src.len();
    assert(4 * p <= len);
    let i = 4 * p;
    let b = src[i] as i32;
    let g = src[i + 1] as i32;
    let r = src[i + 2] as i32;
    (shift_down(66 * r + 129 * g + 25 * b + 128) + 16) as u8
}

/// The mean of four bytes of `src`: those at `i` and `j`, and those one pixel
/// further on.
fn mean_at(src: &[u8], i: usize, j: usize) -> (r: i32)
    requires
        i + 4 < src@.len(),
        j + 4 < src@.len(),
    ensures
        r == (src@[i as int] + src@[i + 4] + src@[j as int] + src@[j + 4]) / 4,
        0 <= r <= 255,
{
    (src[i] as i32 + src[i + 4] as i32 + src[j] as i32 + src[j + 4] as i32) / 4
}

/// The two chroma values of a colour.
fn chroma_of(r: i32, g: i32, b: i32) -> (uv: (u8, u8))
    requires
        0 <= r <= 255,
        0 <= g <= 255,
        0 <= b <= 255,
    ensures
        uv.0 == chroma_u(r as int, g as int, b as int),
        uv.1 == chroma_v(r as int, g as int, b as int),
{
    let u = shift_down(112 * b - 38 * r - 74 * g + 128) + 128;
    let v = shift_down(112 * r - 94 * g - 18 * b + 128) + 128;
    (u as u8, v as u8)
}

/// The two chroma values of the 2x2 block with the pixels at `p`, `p + 1`, `q`
/// and `q + 1`.
fn chroma_at(src: &[u8], p: usize, q: usize, Ghost(w): Ghost<int>, Ghost(row): Ghost<int>, Ghost(
    x,
): Ghost<int>) -> (r: (u8, u8))
    requires
        p <= q,
        4 * (q + 2) <= src@.len(),
        p == 2 * row * w + x,
        q == (2 * row + 1) * w + x,
        x % 2 == 0,
    ensures
        r.0 == plane_byte(src@, w, row, x),
        r.1 == plane_byte(src@, w, row, x + 1),
{
    let len = src.len();
    assert(4 * p <= 4 * q <= len);
    let i = 4 * p;
    let j = 4 * q;
    let b = mean_at(src, i, j);
    let g = mean_at(src, i + 1, j + 1);
    let r = mean_at(src, i + 2, j + 2);
    proof {
        assert(block_mean(|p: int| blue(src@, p), w, 2 * row, x) == b);
        assert(block_mean(|p: int| green(src@, p), w, 2 * row, x) == g);
        assert(block_mean(|p: int| red(src@, p), w, 2 * row, x) == r);
        assert((x + 1) - (x + 1) % 2 == x);
        reveal(plane_byte);
    }
    chroma_of(r, g, b)
}

/// `nv12_byte`, for the loops that fill the image byte by byte.
#[verifier::opaque]
spec fn image_byte(src: Seq<u8>, w: int, h: int, i: int) -> int {
    nv12_byte(src, w, h, i)
}

/// `chroma_byte`, for the loops that fill the image byte by byte.
#[verifier::opaque]
spec fn plane_byte(src: Seq<u8>, w: int, row: int, col: int) -> int {
    chroma_byte(src, w, row, col)
}

/// Whether the first `n` bytes of `data` are those of the NV12 image.
#[verifier::opaque]
spec fn filled(src: Seq<u8>, w: int, h: int, data: Seq<u8>, n: int) -> bool {
    forall|i: int| 0 <= i < n ==> #[trigger] data[i] == image_byte(src, w, h, i)
}

/// Whether `data` is as long as `old_data`, and the same from `n` on.
#[verifier::opaque]
spec fn same_from(data: Seq<u8>, old_data: Seq<u8>, n: int) -> bool {
    &&& data.len() == old_data.len()
    &&& forall|i: int| n <= i < data.len() ==> #[trigger] data[i] == old_data[i]
}

/// Writing the byte at `at` fills up to it, where all in front was filled.
proof fn lemma_put(src: Seq<u8>, w: int, h: int, data: Seq<u8>, at: int, v: u8)
    requires
        0 <= at < data.len(),
        filled(src, w, h, data, at),
        v == image_byte(src, w, h, at),
    ensures
        filled(src, w, h, data.update(at, v), at + 1),
{
    reveal(filled);
}

/// Writing behind what is filled leaves it filled.
proof fn lemma_put_behind(src: Seq<u8>, w: int, h: int, data: Seq<u8>, n: int, at: int, v: u8)
    requires
        n <= at < data.len(),
        filled(src, w, h, data, n),
    ensures
        filled(src, w, h, data.update(at, v), n),
{
    reveal(filled);
}

/// Writing in front of `n` leaves what is from `n` on.
proof fn lemma_put_in_front(data: Seq<u8>, old_data: Seq<u8>, n: int, at: int, v: u8)
    requires
        0 <= at < n,
        at < data.len(),
        same_from(data, old_data, n),
    ensures
        same_from(data.update(at, v), old_data, n),
{
    reveal(same_from);
}

/// How much of the chroma row `row` is in place once the blocks in front of
/// column `x` are written. The last block of a row of odd width reaches into
/// the next row, if there is one.
spec fn row_written(w: int, h: int, row: int, x: int) -> int {
    if x <= w || row == chroma_rows(h) - 1 {
        x
    } else {
        w
    }
}

/// Write the row `row` of the chroma plane, which begins at `y_size + base`.
fn chroma_row_to_nv12(
    src: &[u8],
    w: usize,
    h: usize,
    row: usize,
    base: usize,
    y_size: usize,
    dst: &mut [u8],
)
    requires
        w > 0,
        h > 0,
        row < chroma_rows(h as int),
        y_size == w * h,
        base == row * w,
        4 * pixels_read(w as int, h as int) <= src@.len(),
        nv12_len(w as int, h as int) <= old(dst)@.len(),
        filled(src@, w as int, h as int, old(dst)@, y_size + base),
    ensures
        filled(
            src@,
            w as int,
            h as int,
            final(dst)@,
            y_size + base + row_written(w as int, h as int, row as int, round_up_even(w as int)),
        ),
        same_from(final(dst)@, old(dst)@, nv12_len(w as int, h as int)),
        final(dst)@.len() == old(dst)@.len(),
{
    let len = src.len();
    let dst_len = dst.len();
    let ghost wi = w as int;
    let ghost hi = h as int;
    let ghost ri = row as int;
    let ghost whole = nv12_len(wi, hi);
    let ghost w2 = round_up_even(wi);
    proof {
        lemma_image_sizes(wi, hi);
        lemma_row_bounds(wi, chroma_rows(hi), ri);
        lemma_block_places(wi, ri, base as int);
        reveal(same_from);
    }
    let mut x: usize = 0;
    while x < w
        invariant
            w > 0,
            wi == w,
            hi == h,
            ri == row,
            0 <= ri < chroma_rows(hi),
            y_size == wi * hi,
            base == ri * wi,
            2 * ri * wi == 2 * base,
            (2 * ri + 1) * wi == 2 * base + wi,
            len == src@.len(),
            4 * (2 * base + wi + w2) <= len,
            w2 == round_up_even(wi),
            x <= w2,
            x % 2 == 0,
            y_size + base + w2 <= whole,
            whole <= dst_len,
            dst@.len() == dst_len,
            filled(src@, wi, hi, dst@, y_size + base + row_written(wi, hi, ri, x as int)),
            same_from(dst@, old(dst)@, whole),
        decreases w2 - x,
    {
        let first = 2 * base + x;
        let second = first + w;
        let (u, v) = chroma_at(src, first, second, Ghost(wi), Ghost(ri), Ghost(x as int));
        let at = y_size + base + x;
        proof {
            lemma_chroma_place(src@, wi, hi, ri, x as int);
            lemma_put(src@, wi, hi, dst@, at as int, u);
            lemma_put_in_front(dst@, old(dst)@, whole, at as int, u);
        }
        dst[at] = u;
        proof {
            if x + 1 < w || ri == chroma_rows(hi) - 1 {
                lemma_chroma_place(src@, wi, hi, ri, x + 1);
                lemma_put(src@, wi, hi, dst@, at + 1, v);
            } else {
                lemma_put_behind(src@, wi, hi, dst@, at + 1, at + 1, v);
            }
            lemma_put_in_front(dst@, old(dst)@, whole, at + 1, v);
        }
        dst[at + 1] = v;
        x += 2;
    }
}

/// Write the luma plane, which is the first `y_size` bytes.
fn luma_to_nv12(src: &[u8], w: usize, h: usize, y_size: usize, dst: &mut [u8])
    requires
        y_size == w * h,
        y_size <= nv12_len(w as int, h as int) <= old(dst)@.len(),
        4 * y_size <= src@.len(),
    ensures
        filled(src@, w as int, h as int, final(dst)@, y_size as int),
        same_from(final(dst)@, old(dst)@, nv12_len(w as int, h as int)),
{
    let dst_len = dst.len();
    let ghost wi = w as int;
    let ghost hi = h as int;
    let ghost whole = nv12_len(wi, hi);
    proof {
        reveal(filled);
        reveal(same_from);
    }
    let mut p: usize = 0;
    while p < y_size
        invariant
            wi == w,
            hi == h,
            p <= y_size == wi * hi,
            y_size <= whole <= dst_len == dst@.len(),
            4 * y_size <= src@.len(),
            filled(src@, wi, hi, dst@, p as int),
            same_from(dst@, old(dst)@, whole),
        decreases y_size - p,
    {
        let y = luma_at(src, p);
        proof {
            reveal(image_byte);
            lemma_put(src@, wi, hi, dst@, p as int, y);
            lemma_put_in_front(dst@, old(dst)@, whole, p as int, y);
        }
        dst[p] = y;
        p += 1;
    }
}

/// BGRA8 to NV12 conversion: the luma plane, then the interleaved chroma plane
/// at 2x2 subsampling. Bytes of `dst` behind the image stay as they are.
pub fn bgra_to_nv12(src: &[u8], w: usize, h: usize, dst: &mut [u8])
    requires
        4 * pixels_read(w as int, h as int) <= src@.len(),
        nv12_len(w as int, h as int) <= old(dst)@.len(),
    ensures
        final(dst)@.len() == old(dst)@.len(),
        forall|i: int|
            0 <= i < nv12_len(w as int, h as int) ==> #[trigger] final(dst)@[i] == nv12_byte(
                src@,
                w as int,
                h as int,
                i,
            ),
        forall|i: int|
            nv12_len(w as int, h as int) <= i < old(dst)@.len() ==> #[trigger] final(dst)@[i]
                == old(dst)@[i],
{
    if w == 0 || h == 0 {
        return;
    }
    let len = src.len();
    let dst_len = dst.len();
    let ghost wi = w as int;
    let ghost hi = h as int;
    let ghost whole = nv12_len(wi, hi);
    let ghost wh = wi * hi;
    let rows = h / 2 + h % 2;
    proof {
        lemma_image_sizes(wi, hi);
        assert(wh <= len);
    }
    let y_size = w * h;
    luma_to_nv12(src, w, h, y_size, dst);
    proof {
        reveal(same_from);
    }
    let mut row: usize = 0;
    let mut base: usize = 0;
    while row < rows
        invariant
            w > 0,
            h > 0,
            row <= rows,
            wi == w,
            hi == h,
            y_size == wh == wi * hi,
            rows == chroma_rows(hi),
            row < rows ==> base == row * wi,
            whole == nv12_len(wi, hi) == wh + (rows - 1) * wi + round_up_even(wi),
            whole <= dst_len == dst@.len(),
            4 * pixels_read(wi, hi) <= src@.len(),
            filled(
                src@,
                wi,
                hi,
                dst@,
                if row == rows {
                    whole
                } else {
                    wh + base
                },
            ),
            same_from(dst@, old(dst)@, whole),
        decreases rows - row,
    {
        let ghost before = dst@;
        chroma_row_to_nv12(src, w, h, row, base, y_size, dst);
        proof {
            lemma_row_bounds(wi, rows as int, row as int);
            lemma_same_twice(dst@, before, old(dst)@, whole);
            assert((row + 1) * wi == row * wi + wi) by (nonlinear_arith);
        }
        row += 1;
        if row < rows {
            proof {
                lemma_row_bounds(wi, rows as int, row as int);
            }
            base += w;
        } else {
            assert(base == (rows - 1) * wi);
        }
    }
    proof {
        reveal(filled);
        reveal(image_byte);
        reveal(same_from);
    }
}

/// What two writes in turn leave, both leave.
proof fn lemma_same_twice(data: Seq<u8>, mid: Seq<u8>, old_data: Seq<u8>, n: int)
    requires
        same_from(data, mid, n),
        same_from(mid, old_data, n),
    ensures
        same_from(data, old_data, n),
{
    reveal(same_from);
}

/// How the sizes of an image relate.
proof fn lemma_image_sizes(w: int, h: int)
    requires
        w > 0,
        h > 0,
    ensures
        0 < w * h <= pixels_read(w, h),
        w * h <= nv12_len(w, h),
        chroma_rows(h) == h / 2 + h % 2,
        chroma_rows(h) >= 1,
        pixels_read(w, h) == (2 * chroma_rows(h) - 1) * w + round_up_even(w),
{
    let h2 = round_up_even(h);
    assert(w * h > 0) by (nonlinear_arith)
        requires
            w > 0,
            h > 0,
    ;
    assert((h2 - 1) * w + w == h2 * w) by (nonlinear_arith);
    assert(h2 * w >= w * h) by (nonlinear_arith)
        requires
            h2 >= h,
            w > 0,
    ;
    assert((chroma_rows(h) - 1) * w >= 0) by (nonlinear_arith)
        requires
            chroma_rows(h) >= 1,
            w > 0,
    ;
}

/// Where a row of the chroma plane and its two image rows lie.
proof fn lemma_row_bounds(w: int, rows: int, row: int)
    requires
        w > 0,
        0 <= row < rows,
    ensures
        0 <= row * w <= (rows - 1) * w,
        2 * (row * w) + w <= (2 * rows - 1) * w,
{
    assert(0 <= row * w <= (rows - 1) * w) by (nonlinear_arith)
        requires
            w > 0,
            0 <= row <= rows - 1,
    ;
    assert((2 * rows - 1) * w == 2 * ((rows - 1) * w) + w) by (nonlinear_arith);
}

/// The places of the two pixel rows of a block.
proof fn lemma_block_places(w: int, row: int, base: int)
    requires
        base == row * w,
    ensures
        2 * row * w == 2 * base,
        (2 * row + 1) * w == 2 * base + w,
{
    assert(2 * row * w == 2 * (row * w)) by (nonlinear_arith);
    assert((2 * row + 1) * w == 2 * (row * w) + w) by (nonlinear_arith);
}

/// The chroma byte at `row` and `col` lies where `nv12_byte` looks for it.
proof fn lemma_chroma_place(src: Seq<u8>, w: int, h: int, row: int, col: int)
    requires
        w > 0,
        0 <= row < chroma_rows(h),
        0 <= col < w || (col == w && row == chroma_rows(h) - 1),
    ensures
        image_byte(src, w, h, w * h + row * w + col) == plane_byte(src, w, row, col),
{
    reveal(image_byte);
    reveal(plane_byte);
    let k = row * w + col;
    assert(row * w >= 0) by (nonlinear_arith)
        requires
            w > 0,
            row >= 0,
    ;
    if col < w {
        lemma_fundamental_div_mod_converse(k, w, row, col);
    } else {
        assert(k == (row + 1) * w) by (nonlinear_arith)
            requires
                k == row * w + w,
        ;
        lemma_fundamental_div_mod_converse(k, w, row + 1, 0);
    }
}

/// AVCC data with the payloads `payloads`.
pub open spec fn avcc_of(payloads: Seq<Seq<u8>>) -> Seq<u8>
    decreases payloads.len(),
{
    if payloads.len() == 0 {
        Seq::empty()
    } else {
        be_bytes(payloads[0].len()) + payloads[0] + avcc_of(payloads.skip(1))
    }
}

/// A length in four bytes, in big-endian order.
pub open spec fn be_bytes(n: nat) -> Seq<u8> {
    seq![
        (n / 0x100_0000 % 256) as u8,
        (n / 0x1_0000 % 256) as u8,
        (n / 0x100 % 256) as u8,
        (n % 256) as u8,
    ]
}

/// Every payload of AVCC data comes out behind a start code, in its order, and
/// a tail that is cut short is dropped.
pub proof fn law_annexb_holds_every_payload(payloads: Seq<Seq<u8>>, tail: Seq<u8>)
    requires
        forall|i: int|
            0 <= i < payloads.len() ==> (#[trigger] payloads[i]).len() < 0x1_0000_0000,
        tail.len() < 4 || tail.len() - 4 < be_length(tail),
    ensures
        annexb_of(avcc_of(payloads) + tail) == payloads.map_values(
            |p: Seq<u8>| start_code() + p,
        ),
    decreases payloads.len(),
{
    let units = payloads.map_values(|p: Seq<u8>| start_code() + p);
    if payloads.len() == 0 {
        assert(avcc_of(payloads) + tail =~= tail);
        assert(units =~= Seq::empty());
    } else {
        let p = payloads[0];
        let rest = payloads.skip(1);
        let more = avcc_of(rest) + tail;
        law_annexb_holds_every_payload(rest, tail);
        assert(avcc_of(payloads) + tail =~= be_bytes(p.len()) + p + more);
        lemma_first_unit(p, more);
        assert(units =~= seq![start_code() + p] + rest.map_values(
            |p: Seq<u8>| start_code() + p,
        ));
    }
}

/// The first payload of AVCC data gives the first NAL unit.
proof fn lemma_first_unit(p: Seq<u8>, more: Seq<u8>)
    requires
        p.len() < 0x1_0000_0000,
    ensures
        annexb_of(be_bytes(p.len()) + p + more) == seq![start_code() + p] + annexb_of(more),
{
    let n = p.len();
    let all = be_bytes(n) + p + more;
    assert(all.take(4) =~= be_bytes(n));
    lemma_be_bytes(n);
    assert(be_length(all) == be_length(all.take(4)));
    assert(all.subrange(4, 4 + n as int) =~= p);
    assert(all.skip(4 + n as int) =~= more);
}

/// A length can be read back from its four bytes.
proof fn lemma_be_bytes(n: nat)
    requires
        n < 0x1_0000_0000,
    ensures
        be_length(be_bytes(n)) == n,
{
}

/// The image is in limited range: luma in 16..=235, chroma in 16..=240.
pub proof fn law_limited_range(src: Seq<u8>, w: int, h: int, i: int)
    requires
        0 <= i < nv12_len(w, h),
        4 * pixels_read(w, h) <= src.len(),
    ensures
        i < w * h ==> 16 <= nv12_byte(src, w, h, i) <= 235,
        i >= w * h ==> 16 <= nv12_byte(src, w, h, i) <= 240,
{
    if i >= w * h {
        let k = i - w * h;
        let row = chroma_row(w, h, k);
        let col = k - row * w;
        let x = col - col % 2;
        lemma_mean_of_bytes(|p: int| red(src, p), w, 2 * row, x);
        lemma_mean_of_bytes(|p: int| green(src, p), w, 2 * row, x);
        lemma_mean_of_bytes(|p: int| blue(src, p), w, 2 * row, x);
    }
}

/// The mean of four bytes is that of a byte.
proof fn lemma_mean_of_bytes(channel: spec_fn(int) -> int, w: int, y: int, x: int)
    requires
        forall|p: int| 0 <= #[trigger] channel(p) <= 255,
    ensures
        0 <= block_mean(channel, w, y, x) <= 255,
{
}

/// Whether the pixel at place `p` has no colour.
pub open spec fn grey(src: Seq<u8>, p: int) -> bool {
    red(src, p) == green(src, p) == blue(src, p)
}

/// A picture without colour has neutral chroma throughout.
pub proof fn law_grey_has_neutral_chroma(src: Seq<u8>, w: int, h: int, i: int)
    requires
        w > 0,
        h > 0,
        w * h <= i < nv12_len(w, h),
        4 * pixels_read(w, h) <= src.len(),
        forall|p: int| 0 <= p < pixels_read(w, h) ==> #[trigger] grey(src, p),
    ensures
        nv12_byte(src, w, h, i) == 128,
{
    let k = i - w * h;
    let row = chroma_row(w, h, k);
    let col = k - row * w;
    let x = col - col % 2;
    lemma_chroma_col(w, h, k);
    lemma_image_sizes(w, h);
    lemma_row_bounds(w, chroma_rows(h), row);
    lemma_block_places(w, row, row * w);
    let p = 2 * row * w + x;
    let q = (2 * row + 1) * w + x;
    assert(0 <= p && p + 1 < pixels_read(w, h));
    assert(0 <= q && q + 1 < pixels_read(w, h));
    let reds = |p: int| red(src, p);
    let greens = |p: int| green(src, p);
    let blues = |p: int| blue(src, p);
    assert(grey(src, p));
    assert(grey(src, p + 1));
    assert(grey(src, q));
    assert(grey(src, q + 1));
    let m = block_mean(reds, w, 2 * row, x);
    assert(block_mean(greens, w, 2 * row, x) == m);
    assert(block_mean(blues, w, 2 * row, x) == m);
    assert(chroma_u(m, m, m) == 128 && chroma_v(m, m, m) == 128);
}

/// Every byte of the chroma plane lies in one of its rows.
proof fn lemma_chroma_col(w: int, h: int, k: int)
    requires
        w > 0,
        h > 0,
        0 <= k < (chroma_rows(h) - 1) * w + round_up_even(w),
    ensures
        0 <= chroma_row(w, h, k) < chroma_rows(h),
        0 <= k - chroma_row(w, h, k) * w < round_up_even(w),
{
    vstd::arithmetic::div_mod::lemma_fundamental_div_mod(k, w);
    let d = k / w;
    assert(w * d == d * w) by (nonlinear_arith);
    vstd::arithmetic::div_mod::lemma_mod_bound(k, w);
    vstd::arithmetic::div_mod::lemma_div_pos_is_pos(k, w);
    let rows = chroma_rows(h);
    if d >= rows {
        assert(d * w >= rows * w) by (nonlinear_arith)
            requires
                d >= rows,
                w > 0,
        ;
        assert(rows * w == (rows - 1) * w + w) by (nonlinear_arith);
    }
}

/// The encoder after `frames` frames.
pub open spec fn after_frames(v: EncoderView, frames: nat) -> EncoderView
    decreases frames,
{
    if frames == 0 {
        v
    } else {
        after_frame(after_frames(v, (frames - 1) as nat))
    }
}

/// A later clock reading never gives an earlier time, as long as times fit.
pub proof fn law_clock_is_monotonic(epoch_ns: i128, earlier_ns: i128, later_ns: i128)
    requires
        earlier_ns <= later_ns,
        (later_ns - epoch_ns) / 1000 <= i64::MAX,
    ensures
        elapsed_us(epoch_ns, earlier_ns) <= elapsed_us(epoch_ns, later_ns),
{
}

/// Sample times are evenly spaced and never go back: after `frames` frames the
/// next one is that many intervals later, up to the largest time there is.
pub proof fn law_sample_times(v: EncoderView, frames: nat)
    requires
        v.next_pts_100ns >= 0,
        v.frame_duration_100ns >= 0,
    ensures
        after_frames(v, frames).next_pts_100ns as int == if v.next_pts_100ns + frames
            * v.frame_duration_100ns > i64::MAX {
            i64::MAX as int
        } else {
            v.next_pts_100ns + frames * v.frame_duration_100ns
        },
        after_frames(v, frames).frame_duration_100ns == v.frame_duration_100ns,
    decreases frames,
{
    let d = v.frame_duration_100ns as int;
    if frames > 0 {
        law_sample_times(v, (frames - 1) as nat);
        assert(frames * d == (frames - 1) * d + d) by (nonlinear_arith);
        assert((frames - 1) * d >= 0) by (nonlinear_arith)
            requires
                frames >= 1,
                d >= 0,
        ;
    }
}

/// Luma is a weighted sum of the pixel's own channels, rounded to the nearest
/// number: a 256th of 66 red, 129 green and 25 blue, above 16. The pixel at a
/// row and a column stands four bytes each, in the order blue, green, red.
pub proof fn law_luma_of_a_pixel(src: Seq<u8>, w: int, h: int, row: int, col: int)
    requires
        0 <= row < h,
        0 <= col < w,
    ensures
        ({
            let at = 4 * (row * w + col);
            let (b, g, r) = (src[at] as int, src[at + 1] as int, src[at + 2] as int);
            let y = nv12_byte(src, w, h, row * w + col);
            256 * (y - 16) - 128 <= 66 * r + 129 * g + 25 * b < 256 * (y - 16) + 128
        }),
{
    assert(row * w + col < w * h) by (nonlinear_arith)
        requires
            0 <= row < h,
            0 <= col < w,
    ;
}

/// The two chroma values of the block of pixels at the rows `2 * row` and
/// `2 * row + 1` and the columns `2 * col` and `2 * col + 1` stand behind the
/// luma plane, at `row * w + 2 * col`. They are weighted sums of the means of
/// the four pixels' channels, rounded to the nearest number. The second one is
/// there unless the next row begins in its place.
#[verifier::spinoff_prover]
#[verifier::rlimit(50)]
pub proof fn law_chroma_of_a_block(src: Seq<u8>, w: int, h: int, row: int, col: int)
    requires
        w > 0,
        h > 0,
        0 <= row,
        2 * row < h,
        0 <= col,
        2 * col < w,
    ensures
        ({
            let p = 4 * ((2 * row) * w + 2 * col);
            let q = 4 * ((2 * row + 1) * w + 2 * col);
            let b = (src[p] + src[p + 4] + src[q] + src[q + 4]) / 4;
            let g = (src[p + 1] + src[p + 5] + src[q + 1] + src[q + 5]) / 4;
            let r = (src[p + 2] + src[p + 6] + src[q + 2] + src[q + 6]) / 4;
            let u = nv12_byte(src, w, h, w * h + row * w + 2 * col);
            let v = nv12_byte(src, w, h, w * h + row * w + 2 * col + 1);
            &&& 256 * (u - 128) - 128 <= 112 * b - 38 * r - 74 * g < 256 * (u - 128) + 128
            &&& 2 * col + 1 < w || 2 * row + 2 >= h ==> 256 * (v - 128) - 128 <= 112 * r - 94 * g
                - 18 * b < 256 * (v - 128) + 128
        }),
{
    reveal(image_byte);
    reveal(plane_byte);
    lemma_block_places(w, row, row * w);
    lemma_chroma_place(src, w, h, row, 2 * col);
    let x = 2 * col;
    let p = 4 * ((2 * row) * w + x);
    let q = 4 * ((2 * row + 1) * w + x);
    assert((2 * row) * w == 2 * row * w);
    let b = (src[p] + src[p + 4] + src[q] + src[q + 4]) / 4;
    let g = (src[p + 1] + src[p + 5] + src[q + 1] + src[q + 5]) / 4;
    let r = (src[p + 2] + src[p + 6] + src[q + 2] + src[q + 6]) / 4;
    assert(block_mean(|p: int| blue(src, p), w, 2 * row, x) == b);
    assert(block_mean(|p: int| green(src, p), w, 2 * row, x) == g);
    assert(block_mean(|p: int| red(src, p), w, 2 * row, x) == r);
    assert(x - x % 2 == x && (x + 1) - (x + 1) % 2 == x);
    if x + 1 < w || 2 * row + 2 >= h {
        lemma_chroma_place(src, w, h, row, x + 1);
    }
}

/// The red, green and blue value of the pixel at a row and a column of a BGRA
/// image of width `w`.
#[verifier::opaque]
pub open spec fn pixel(src: Seq<u8>, w: int, row: int, col: int) -> (u8, u8, u8) {
    let at = 4 * (row * w + col);
    (src[at + 2], src[at + 1], src[at])
}

/// The two chroma bytes of the block at `row` and `col`.
#[verifier::opaque]
spec fn chroma_pair(src: Seq<u8>, w: int, h: int, row: int, col: int) -> (int, int) {
    (
        nv12_byte(src, w, h, w * h + row * w + 2 * col),
        nv12_byte(src, w, h, w * h + row * w + 2 * col + 1),
    )
}

/// The chroma bytes of a block by its four pixels.
#[verifier::spinoff_prover]
#[verifier::rlimit(50)]
proof fn lemma_chroma_by_pixels(src: Seq<u8>, w: int, h: int, row: int, col: int)
    requires
        w > 0,
        h > 0,
        w % 2 == 0,
        h % 2 == 0,
        0 <= row < h / 2,
        0 <= col < w / 2,
    ensures
        ({
            let (p0, p1) = (pixel(src, w, 2 * row, 2 * col), pixel(src, w, 2 * row, 2 * col + 1));
            let (p2, p3) = (
                pixel(src, w, 2 * row + 1, 2 * col),
                pixel(src, w, 2 * row + 1, 2 * col + 1),
            );
            let r = (p0.0 + p1.0 + p2.0 + p3.0) / 4;
            let g = (p0.1 + p1.1 + p2.1 + p3.1) / 4;
            let b = (p0.2 + p1.2 + p2.2 + p3.2) / 4;
            let (u, v) = chroma_pair(src, w, h, row, col);
            &&& 256 * (u - 128) - 128 <= 112 * b - 38 * r - 74 * g < 256 * (u - 128) + 128
            &&& 256 * (v - 128) - 128 <= 112 * r - 94 * g - 18 * b < 256 * (v - 128) + 128
        }),
{
    let p = 4 * ((2 * row) * w + 2 * col);
    let q = 4 * ((2 * row + 1) * w + 2 * col);
    assert(pixel(src, w, 2 * row, 2 * col) == (src[p + 2], src[p + 1], src[p])) by {
        reveal(pixel);
    }
    assert(pixel(src, w, 2 * row, 2 * col + 1) == (src[p + 6], src[p + 5], src[p + 4])) by {
        reveal(pixel);
    }
    assert(pixel(src, w, 2 * row + 1, 2 * col) == (src[q + 2], src[q + 1], src[q])) by {
        reveal(pixel);
    }
    assert(pixel(src, w, 2 * row + 1, 2 * col + 1) == (src[q + 6], src[q + 5], src[q + 4])) by {
        reveal(pixel);
    }
    law_chroma_of_a_block(src, w, h, row, col);
    reveal(chroma_pair);
}

/// A block of one colour has the chroma of that colour, whatever the other
/// pixels hold.
#[verifier::spinoff_prover]
#[verifier::rlimit(50)]
pub proof fn law_block_of_one_colour(
    src: Seq<u8>,
    w: int,
    h: int,
    row: int,
    col: int,
    colour: (u8, u8, u8),
)
    requires
        w > 0,
        h > 0,
        w % 2 == 0,
        h % 2 == 0,
        0 <= row < h / 2,
        0 <= col < w / 2,
        pixel(src, w, 2 * row, 2 * col) == colour,
        pixel(src, w, 2 * row, 2 * col + 1) == colour,
        pixel(src, w, 2 * row + 1, 2 * col) == colour,
        pixel(src, w, 2 * row + 1, 2 * col + 1) == colour,
    ensures
        ({
            let (r, g, b) = (colour.0 as int, colour.1 as int, colour.2 as int);
            let u = nv12_byte(src, w, h, w * h + row * w + 2 * col);
            let v = nv12_byte(src, w, h, w * h + row * w + 2 * col + 1);
            &&& 256 * (u - 128) - 128 <= 112 * b - 38 * r - 74 * g < 256 * (u - 128) + 128
            &&& 256 * (v - 128) - 128 <= 112 * r - 94 * g - 18 * b < 256 * (v - 128) + 128
        }),
{
    lemma_chroma_by_pixels(src, w, h, row, col);
    reveal(chroma_pair);
}

/// Two pictures whose blocks at the same place hold the same four pixels, in
/// whatever order, have the same chroma there, whatever else they hold.
/// `order` says where each pixel of the one block stands in the other.
#[verifier::spinoff_prover]
#[verifier::rlimit(50)]
pub proof fn law_chroma_depends_on_its_block(
    src: Seq<u8>,
    other: Seq<u8>,
    w: int,
    h: int,
    row: int,
    col: int,
    order: (int, int, int, int),
)
    requires
        w > 0,
        h > 0,
        w % 2 == 0,
        h % 2 == 0,
        0 <= row < h / 2,
        0 <= col < w / 2,
        0 <= order.0 < 4,
        0 <= order.1 < 4,
        0 <= order.2 < 4,
        0 <= order.3 < 4,
        order.0 != order.1,
        order.0 != order.2,
        order.0 != order.3,
        order.1 != order.2,
        order.1 != order.3,
        order.2 != order.3,
        pixel(other, w, 2 * row, 2 * col) == of_block(src, w, row, col, order.0),
        pixel(other, w, 2 * row, 2 * col + 1) == of_block(src, w, row, col, order.1),
        pixel(other, w, 2 * row + 1, 2 * col) == of_block(src, w, row, col, order.2),
        pixel(other, w, 2 * row + 1, 2 * col + 1) == of_block(src, w, row, col, order.3),
    ensures
        nv12_byte(other, w, h, w * h + row * w + 2 * col) == nv12_byte(
            src,
            w,
            h,
            w * h + row * w + 2 * col,
        ),
        nv12_byte(other, w, h, w * h + row * w + 2 * col + 1) == nv12_byte(
            src,
            w,
            h,
            w * h + row * w + 2 * col + 1,
        ),
{
    lemma_chroma_by_pixels(src, w, h, row, col);
    lemma_chroma_by_pixels(other, w, h, row, col);
    reveal(chroma_pair);
}

/// The pixels of the block at `row` and `col`, counted from the upper left one,
/// row by row.
pub open spec fn of_block(src: Seq<u8>, w: int, row: int, col: int, n: int) -> (u8, u8, u8) {
    if n == 0 {
        pixel(src, w, 2 * row, 2 * col)
    } else if n == 1 {
        pixel(src, w, 2 * row, 2 * col + 1)
    } else if n == 2 {
        pixel(src, w, 2 * row + 1, 2 * col)
    } else {
        pixel(src, w, 2 * row + 1, 2 * col + 1)
    }
}

/// An NV12 image holds the bytes that are called for and no others. An image of
/// even size has one luma byte per pixel, and half as many chroma bytes. One of
/// odd size has a chroma pair for every block that it touches.
pub proof fn law_image_size(src: Seq<u8>, w: int, h: int, data: Seq<u8>)
    requires
        w > 0,
        h > 0,
    ensures
        w % 2 == 0 && h % 2 == 0 ==> 2 * nv12_len(w, h) == 3 * (w * h) && pixels_read(w, h) == w
            * h,
        nv12_len(w, h) == w * h + ((h + 1) / 2 - 1) * w + 2 * ((w + 1) / 2),
        pixels_read(w, h) == (2 * ((h + 1) / 2) - 1) * w + 2 * ((w + 1) / 2),
        nv12_len(0, h) == 0 && nv12_len(w, 0) == 0,
        pixels_read(0, h) == 0 && pixels_read(w, 0) == 0,
        nv12_image(src, w, h, data) ==> data.len() == w * h + w * h / 2,
        nv12_image(src, w, h, data) ==> forall|i: int|
            0 <= i < data.len() ==> #[trigger] data[i] == nv12_byte(src, w, h, i),
{
    if w % 2 == 0 && h % 2 == 0 {
        lemma_even_sizes(w, h);
        let half = h / 2;
        assert(w * h == 2 * (w * half)) by (nonlinear_arith)
            requires
                h == 2 * half,
        ;
    }
    assert(round_up_even(h) == 2 * ((h + 1) / 2));
}

/// The intervals of one second's frames fill the second, up to rounding: no
/// shorter and no longer interval of whole units does.
pub proof fn law_frame_interval(fps: u32)
    ensures
        fps > 0 ==> fps * frame_interval(fps) <= 10_000_000 < fps * (frame_interval(fps) + 1),
        frame_interval(0) == frame_interval(1) == 10_000_000,
        0 <= frame_interval(fps) <= 10_000_000,
{
    if fps > 0 {
        let d = 10_000_000int / fps as int;
        vstd::arithmetic::div_mod::lemma_fundamental_div_mod(10_000_000, fps as int);
        vstd::arithmetic::div_mod::lemma_mod_bound(10_000_000, fps as int);
        vstd::arithmetic::div_mod::lemma_div_pos_is_pos(10_000_000, fps as int);
        assert(fps * (d + 1) == fps * d + fps) by (nonlinear_arith);
        assert(d <= 10_000_000) by (nonlinear_arith)
            requires
                fps * d <= 10_000_000,
                fps >= 1,
                d >= 0,
        ;
    }
}

/// After as many frames as a second has, the next sample is one second after
/// the first, less than one unit per frame short of it.
pub proof fn law_a_second_of_frames(v: EncoderView, fps: u32)
    requires
        fps > 0,
        v.next_pts_100ns == 0,
        v.frame_duration_100ns == frame_interval(fps),
    ensures
        10_000_000 - fps < after_frames(v, fps as nat).next_pts_100ns <= 10_000_000,
{
    law_frame_interval(fps);
    law_sample_times(v, fps as nat);
    let d = frame_interval(fps);
    assert(fps * (d + 1) == fps * d + fps) by (nonlinear_arith);
}

/// Stamping a frame moves the next sample's time by one interval, up to the
/// largest time there is, and changes nothing else.
pub proof fn law_stamping_moves_time_only(v: EncoderView)
    requires
        v.next_pts_100ns >= 0,
        v.frame_duration_100ns >= 0,
    ensures
        after_frame(v) == (EncoderView {
            next_pts_100ns: after_frame(v).next_pts_100ns,
            ..v
        }),
        v.next_pts_100ns + v.frame_duration_100ns <= i64::MAX ==> after_frame(v).next_pts_100ns
            - v.next_pts_100ns == v.frame_duration_100ns,
        v.next_pts_100ns + v.frame_duration_100ns > i64::MAX ==> after_frame(v).next_pts_100ns
            == i64::MAX,
{
}

/// A plan has even dimensions, the next ones from those asked for, and the rate
/// and bitrate asked for. Both streams have its size, its rate and square
/// pixels, each in the two halves of one number; the output is H264 of High
/// profile, and the input is NV12.
pub proof fn law_plan(width: u32, height: u32, fps: u32, bitrate_bps: u32)
    requires
        width < u32::MAX,
        height < u32::MAX,
    ensures
        ({
            let p = plan_of(width, height, fps, bitrate_bps);
            &&& p.width % 2 == 0 && 0 <= p.width - width <= 1
            &&& p.height % 2 == 0 && 0 <= p.height - height <= 1
            &&& p.fps == fps
            &&& p.output.subtype == Subtype::H264 && p.output.high_profile
            &&& p.input.subtype == Subtype::Nv12 && !p.input.high_profile
            &&& p.output.avg_bitrate == Some(bitrate_bps) && p.input.avg_bitrate is None
            &&& p.output.frame_size == p.width * 0x1_0000_0000 + p.height
            &&& p.output.frame_rate == fps * 0x1_0000_0000 + 1
            &&& p.output.pixel_aspect_ratio == 0x1_0000_0000 + 1
            &&& p.input.frame_size == p.output.frame_size
            &&& p.input.frame_rate == p.output.frame_rate
            &&& p.input.pixel_aspect_ratio == p.output.pixel_aspect_ratio
        }),
{
}

/// Elapsed time is counted in whole microseconds, those that have passed. A
/// clock that stands before the epoch, and a count that does not fit, give 0.
pub proof fn law_elapsed_time(epoch_ns: i128, clock_ns: i128)
    ensures
        clock_ns < epoch_ns ==> elapsed_us(epoch_ns, clock_ns) == 0,
        clock_ns - epoch_ns >= 1000 * 0x8000_0000_0000_0000 ==> elapsed_us(epoch_ns, clock_ns)
            == 0,
        0 <= clock_ns - epoch_ns < 1000 * 0x8000_0000_0000_0000 ==> {
            let us = elapsed_us(epoch_ns, clock_ns);
            1000 * us <= clock_ns - epoch_ns < 1000 * (us + 1)
        },
{
}

/// AVCC data begins with a length in four bytes, the largest part first. Where
/// as many bytes follow, they come out as one unit behind the bytes 0, 0, 0, 1,
/// in front of the units of what is left; where fewer do, nothing comes out.
pub proof fn law_unit_by_unit(avcc: Seq<u8>)
    ensures
        avcc.len() < 4 ==> annexb_of(avcc).len() == 0,
        avcc.len() >= 4 ==> {
            let n = ((avcc[0] * 256 + avcc[1]) * 256 + avcc[2]) * 256 + avcc[3];
            if avcc.len() < 4 + n {
                annexb_of(avcc).len() == 0
            } else {
                &&& annexb_of(avcc).len() == 1 + annexb_of(avcc.skip(4 + n)).len()
                &&& annexb_of(avcc)[0] == seq![0u8, 0u8, 0u8, 1u8] + avcc.subrange(4, 4 + n)
                &&& annexb_of(avcc).skip(1) == annexb_of(avcc.skip(4 + n))
            }
        },
{
    if avcc.len() >= 4 {
        let n = ((avcc[0] * 256 + avcc[1]) * 256 + avcc[2]) * 256 + avcc[3];
        assert(n == be_length(avcc));
        if avcc.len() >= 4 + n {
            let rest = annexb_of(avcc.skip(4 + n));
            assert((seq![start_code() + avcc.subrange(4, 4 + n)] + rest).skip(1) =~= rest);
        }
    }
}

/// NAL units are seen as their bytes and their time, and those of a sample are
/// its units, in their order, all with the sample's time.
pub proof fn law_units_of_a_sample(nals: Seq<Nal>, avcc: Seq<u8>, pts_us: i64, vs: Seq<Vec<u8>>)
    ensures
        nals_view(nals).len() == nals.len(),
        forall|i: int|
            0 <= i < nals.len() ==> (#[trigger] nals_view(nals)[i]).data == nals[i].data@
                && nals_view(nals)[i].pts_us == nals[i].pts_us,
        stamped(avcc, pts_us).len() == annexb_of(avcc).len(),
        forall|i: int|
            0 <= i < annexb_of(avcc).len() ==> (#[trigger] stamped(avcc, pts_us)[i]).data
                == annexb_of(avcc)[i] && stamped(avcc, pts_us)[i].pts_us == pts_us,
        contents(vs).len() == vs.len(),
        forall|i: int| 0 <= i < vs.len() ==> #[trigger] contents(vs)[i] == vs[i]@,
{
}

/// A configured encoder stamps its frames by the rate asked for: the first one
/// with the time 0, the next one with the duration of a frame, of which one
/// second holds as many as the rate says, up to rounding.
pub proof fn law_configured_rate_is_stamped(
    e: &mut H264Encoder,
    plan: &EncoderPlan,
    ids: (u32, u32),
    clock_ns: i128,
    r: Result<(), Error>,
    bgra: &[u8],
    first: Result<Nv12Frame, Error>,
    then: &mut H264Encoder,
    second: Result<Nv12Frame, Error>,
)
    requires
        plan.width % 2 == 0,
        plan.height % 2 == 0,
        plan.width * plan.height * 4 <= usize::MAX,
        bgra@.len() >= plan.width * plan.height * 4,
        call_ensures(H264Encoder::configure, (e, plan, Ok(ids), clock_ns), r),
        call_ensures(H264Encoder::submit_frame, (&*final(e), bgra), first),
        *then == *final(e),
        call_ensures(H264Encoder::frame_stamped, (then,), ()),
        call_ensures(H264Encoder::submit_frame, (&*final(then), bgra), second),
    ensures
        r is Ok && first is Ok && second is Ok,
        ({
            let d = first->Ok_0.sample_duration;
            &&& first->Ok_0.sample_time == 0
            &&& second->Ok_0.sample_time == d
            &&& second->Ok_0.sample_duration == d
            &&& plan.fps > 0 ==> plan.fps * d <= 10_000_000 < plan.fps * (d + 1)
            &&& plan.fps == 0 ==> d == 10_000_000
        }),
        second->Ok_0.data@ == first->Ok_0.data@,
        2 * first->Ok_0.data@.len() == 3 * (plan.width * plan.height),
        final(then)@.input_stream_id == ids.0,
        final(then)@.output_stream_id == ids.1,
        final(then)@.epoch_ns == clock_ns,
{
    law_frame_interval(plan.fps);
    lemma_even_sizes(plan.width as int, plan.height as int);
    let half = plan.height as int / 2;
    assert(plan.width * plan.height == 2 * (plan.width * half)) by (nonlinear_arith)
        requires
            plan.height == 2 * half,
    ;
    assert(second->Ok_0.data@ =~= first->Ok_0.data@);
}

/// An encoder that is not configured takes no frame and gives no unit, a set-up
/// that failed leaves an encoder as it was, and a configured one refuses
/// exactly the frames that are too short, telling both lengths.
pub proof fn law_refused_frames(
    fresh: H264Encoder,
    e: &mut H264Encoder,
    plan: &EncoderPlan,
    error: Error,
    clock_ns: i128,
    failed: Result<(), Error>,
    bgra: &[u8],
    unready: Result<Nv12Frame, Error>,
    drained: Result<Vec<Nal>, Error>,
    enc: H264Encoder,
    r: Result<Nv12Frame, Error>,
)
    requires
        call_ensures(H264Encoder::new, (), fresh),
        call_ensures(H264Encoder::submit_frame, (&fresh, bgra), unready),
        call_ensures(H264Encoder::begin_drain, (&fresh,), drained),
        call_ensures(H264Encoder::configure, (e, plan, Err(error), clock_ns), failed),
        enc@.configured,
        bgra@.len() <= usize::MAX,
        enc@.width * enc@.height * 4 <= usize::MAX,
        call_ensures(H264Encoder::submit_frame, (&enc, bgra), r),
    ensures
        unready is Err && unready->Err_0 == Error::NotConfigured,
        drained is Err && drained->Err_0 == Error::NotConfigured,
        failed is Err && failed->Err_0 == error,
        final(e)@ == old(e)@,
        r is Err <==> bgra@.len() < 4 * (enc@.width * enc@.height),
        r is Err ==> r->Err_0 is InputBufferSize && r->Err_0->got == bgra@.len()
            && r->Err_0->expected == 4 * (enc@.width * enc@.height),
{
}

/// Draining collects: a sample adds its units at the end, stamped with the time
/// since the encoder was configured, and what was collected stays. Without a
/// sample nothing is added. When the transform wants more input, the units are
/// handed over; where it fails, its code is.
pub proof fn law_drain_collects(
    e: H264Encoder,
    nals: Vec<Nal>,
    output: TransformOutput,
    clock_ns: i128,
    step: DrainStep,
)
    requires
        e@.configured,
        call_ensures(H264Encoder::drain, (&e, nals, output, clock_ns), step),
    ensures
        output matches TransformOutput::Produced(Some(avcc)) ==> {
            &&& step is More
            &&& step->More_0@.len() == nals@.len() + annexb_of(avcc@).len()
            &&& forall|i: int|
                0 <= i < nals@.len() ==> (#[trigger] step->More_0@[i]).data@ == nals@[i].data@
                    && step->More_0@[i].pts_us == nals@[i].pts_us
            &&& forall|i: int|
                nals@.len() <= i < step->More_0@.len() ==> (#[trigger] step->More_0@[i]).data@
                    == annexb_of(avcc@)[i - nals@.len()] && step->More_0@[i].pts_us == elapsed_us(
                    e@.epoch_ns,
                    clock_ns,
                )
        },
        output matches TransformOutput::Produced(None) ==> step is More && step->More_0@ == nals@,
        output is NeedMoreInput ==> step is Done && step->Done_0@ == nals@,
        output matches TransformOutput::Failed { hresult } ==> step is Failed && step->Failed_0
            is Mf && step->Failed_0->hresult == hresult,
{
    match output {
        TransformOutput::Produced(Some(avcc)) => {
            let all = step->More_0@;
            let us = elapsed_us(e@.epoch_ns, clock_ns);
            let added = stamped(avcc@, us);
            assert(nals_view(all) == nals_view(nals@) + added);
            assert(nals_view(all).len() == all.len());
            assert forall|i: int| 0 <= i < nals@.len() implies (#[trigger] all[i]).data@
                == nals@[i].data@ && all[i].pts_us == nals@[i].pts_us by {
                assert(nals_view(all)[i] == nals_view(nals@)[i]);
            }
            assert forall|i: int| nals@.len() <= i < all.len() implies (#[trigger] all[i]).data@
                == annexb_of(avcc@)[i - nals@.len()] && all[i].pts_us == us by {
                assert(nals_view(all)[i] == added[i - nals@.len()]);
            }
        },
        _ => {},
    }
}

/// AVCC data in, units out: what is true of the units of the data is true of
/// what the functions return.
pub proof fn law_units_are_returned(
    avcc: &[u8],
    units: Vec<Vec<u8>>,
    pts_us: i64,
    nals: Vec<Nal>,
)
    requires
        call_ensures(avcc_to_annexb, (avcc,), units),
        call_ensures(sample_to_annexb, (avcc, pts_us), nals),
    ensures
        units@.len() == nals@.len(),
        forall|i: int|
            0 <= i < units@.len() ==> (#[trigger] units@[i])@ == nals@[i].data@ && nals@[i].pts_us
                == pts_us,
        forall|i: int|
            0 <= i < units@.len() ==> (#[trigger] units@[i])@.len() >= 4 && units@[i]@.take(4)
                == seq![0u8, 0u8, 0u8, 1u8],
        avcc@.len() < 4 ==> units@.len() == 0,
        avcc@.len() >= 4 ==> {
            let n = ((avcc@[0] * 256 + avcc@[1]) * 256 + avcc@[2]) * 256 + avcc@[3];
            &&& avcc@.len() < 4 + n ==> units@.len() == 0
            &&& avcc@.len() >= 4 + n ==> units@.len() > 0 && units@[0]@ == seq![
                0u8,
                0u8,
                0u8,
                1u8,
            ] + avcc@.subrange(4, 4 + n)
        },
{
    law_unit_by_unit(avcc@);
    lemma_units_have_start_codes(avcc@);
    let all = annexb_of(avcc@);
    assert(contents(units@) == all);
    assert(nals_view(nals@) == stamped(avcc@, pts_us));
    assert(contents(units@).len() == units@.len());
    assert(nals_view(nals@).len() == nals@.len());
    assert forall|i: int| 0 <= i < units@.len() implies (#[trigger] units@[i])@ == nals@[i].data@
        && nals@[i].pts_us == pts_us by {
        assert(contents(units@)[i] == all[i]);
        assert(nals_view(nals@)[i] == stamped(avcc@, pts_us)[i]);
    }
    assert forall|i: int| 0 <= i < units@.len() implies (#[trigger] units@[i])@.len() >= 4
        && units@[i]@.take(4) == seq![0u8, 0u8, 0u8, 1u8] by {
        assert(contents(units@)[i] == all[i]);
    }
    if units@.len() > 0 {
        assert(contents(units@)[0] == all[0]);
    }
}

proof fn lemma_units_have_start_codes(avcc: Seq<u8>)
    ensures
        forall|i: int|
            0 <= i < annexb_of(avcc).len() ==> (#[trigger] annexb_of(avcc)[i]).len() >= 4
                && annexb_of(avcc)[i].take(4) == seq![0u8, 0u8, 0u8, 1u8],
    decreases avcc.len(),
{
    law_unit_by_unit(avcc);
    let all = annexb_of(avcc);
    if all.len() > 0 {
        let n = be_length(avcc);
        let rest = avcc.skip(4 + n);
        lemma_units_have_start_codes(rest);
        assert forall|i: int| 0 <= i < all.len() implies (#[trigger] all[i]).len() >= 4
            && all[i].take(4) == seq![0u8, 0u8, 0u8, 1u8] by {
            if i == 0 {
                assert(all[0].take(4) =~= seq![0u8, 0u8, 0u8, 1u8]);
            } else {
                assert(all[i] == annexb_of(rest)[i - 1]);
            }
        }
    }
}

/// What the transform's answers mean: hardware encoders are looked for first,
/// and software ones once; ids that are not reported are 0; and a sample is
/// brought along for the output unless the transform has one, never an empty
/// one.
pub proof fn law_transform_answers(
    count: u32,
    listed: bool,
    hardware: bool,
    search: SearchStep,
    ids: StreamIds,
    found: Result<(u32, u32), Error>,
    flags: (u32, u32, u32),
    cb_size: u32,
    size: Option<u32>,
)
    requires
        call_ensures(judge_search, (count, listed, hardware), search),
        call_ensures(lookup_stream_ids, (ids,), found),
        call_ensures(output_sample_size, (flags.0, flags.1, flags.2, cb_size), size),
    ensures
        search == SearchStep::TakeFirst <==> count > 0 && listed,
        search == SearchStep::SearchSoftware <==> count == 0 && hardware,
        found is Err <==> ids is Failed,
        ids matches StreamIds::Reported { input, output } ==> found == Ok::<(u32, u32), Error>(
            (input, output),
        ),
        ids is NotImplemented ==> found == Ok::<(u32, u32), Error>((0, 0)),
        ids matches StreamIds::Failed { hresult } ==> found == Err::<(u32, u32), Error>(
            Error::Mf { hresult },
        ),
        size is None <==> flags.0 & (flags.1 | flags.2) != 0,
        size is Some ==> size->0 >= 1 && size->0 >= cb_size && (cb_size >= 1 ==> size->0
            == cb_size) && size->0 <= cb_size + 1,
{
}

/// The chroma plane that `bgra_to_nv12` writes: a pair of bytes per block, from
/// exactly its own four pixels. What is behind the picture stays.
#[verifier::spinoff_prover]
#[verifier::rlimit(50)]
pub proof fn law_chroma_plane(
    src: &[u8],
    w: usize,
    h: usize,
    dst: &mut [u8],
    row: int,
    col: int,
)
    requires
        w > 0,
        h > 0,
        w % 2 == 0,
        h % 2 == 0,
        4 * (w * h) <= src@.len(),
        w * h + w * h / 2 <= dst@.len(),
        0 <= row < h / 2,
        0 <= col < w / 2,
        call_ensures(bgra_to_nv12, (src, w, h, dst), ()),
    ensures
        final(dst)@.len() == old(dst)@.len(),
        forall|i: int|
            w * h + w * h / 2 <= i < old(dst)@.len() ==> #[trigger] final(dst)@[i] == old(dst)@[i],
        ({
            let (p0, p1) = (
                pixel(src@, w as int, 2 * row, 2 * col),
                pixel(src@, w as int, 2 * row, 2 * col + 1),
            );
            let (p2, p3) = (
                pixel(src@, w as int, 2 * row + 1, 2 * col),
                pixel(src@, w as int, 2 * row + 1, 2 * col + 1),
            );
            let r = (p0.0 + p1.0 + p2.0 + p3.0) / 4;
            let g = (p0.1 + p1.1 + p2.1 + p3.1) / 4;
            let b = (p0.2 + p1.2 + p2.2 + p3.2) / 4;
            let u = final(dst)@[w * h + row * w + 2 * col];
            let v = final(dst)@[w * h + row * w + 2 * col + 1];
            &&& 256 * (u - 128) - 128 <= 112 * b - 38 * r - 74 * g < 256 * (u - 128) + 128
            &&& 256 * (v - 128) - 128 <= 112 * r - 94 * g - 18 * b < 256 * (v - 128) + 128
        }),
{
    let (wi, hi) = (w as int, h as int);
    lemma_even_sizes(wi, hi);
    lemma_chroma_by_pixels(src@, wi, hi, row, col);
    reveal(chroma_pair);
    let half = hi / 2;
    assert(wi * hi == 2 * (wi * half)) by (nonlinear_arith)
        requires
            hi == 2 * half,
    ;
    assert(row * wi + wi <= wi * half) by (nonlinear_arith)
        requires
            0 <= row < half,
            wi > 0,
    ;
    assert(row * wi >= 0) by (nonlinear_arith)
        requires
            0 <= row,
            wi > 0,
    ;
}

/// A plan makes room for the whole picture, with one row or column more at
/// most, and both of its types have the size and the rate that were asked for:
/// the first number in the upper half, the second in the lower half.
pub proof fn law_planned_types(
    width: u32,
    height: u32,
    fps: u32,
    bitrate_bps: u32,
    r: EncoderPlan,
)
    requires
        width < u32::MAX,
        height < u32::MAX,
        call_ensures(plan, (width, height, fps, bitrate_bps), r),
    ensures
        r.width % 2 == 0 && width <= r.width <= width + 1,
        r.height % 2 == 0 && height <= r.height <= height + 1,
        r.fps == fps,
        r.output.subtype == Subtype::H264 && r.input.subtype == Subtype::Nv12,
        r.output.avg_bitrate == Some(bitrate_bps) && r.input.avg_bitrate is None,
        r.output.high_profile && !r.input.high_profile,
        r.output.frame_size == r.input.frame_size,
        r.output.frame_rate == r.input.frame_rate,
        r.output.pixel_aspect_ratio == r.input.pixel_aspect_ratio,
        r.output.frame_size as int / 0x1_0000_0000 == r.width,
        r.output.frame_size as int % 0x1_0000_0000 == r.height,
        r.output.frame_rate as int / 0x1_0000_0000 == fps,
        r.output.frame_rate as int % 0x1_0000_0000 == 1,
        r.output.pixel_aspect_ratio as int / 0x1_0000_0000 == 1,
        r.output.pixel_aspect_ratio as int % 0x1_0000_0000 == 1,
{
    law_plan(width, height, fps, bitrate_bps);
}

/// The encoder's clock counts whole microseconds from the moment at which it
/// was configured, and stands at 0 before it. The stream ids are those that the
/// set-up gave, the input one first.
pub proof fn law_configured_clock_and_ids(
    e: &mut H264Encoder,
    plan: &EncoderPlan,
    input: u32,
    output: u32,
    epoch_ns: i128,
    r: Result<(), Error>,
    ids: (u32, u32),
    clock_ns: i128,
    us: i64,
)
    requires
        plan.width % 2 == 0,
        plan.height % 2 == 0,
        call_ensures(H264Encoder::configure, (e, plan, Ok((input, output)), epoch_ns), r),
        call_ensures(H264Encoder::stream_ids, (&*final(e),), ids),
        call_ensures(H264Encoder::now_us, (&*final(e), clock_ns), us),
    ensures
        ids.0 == input,
        ids.1 == output,
        clock_ns <= epoch_ns ==> us == 0,
        epoch_ns <= clock_ns && clock_ns - epoch_ns < 1000 * (i64::MAX + 1) ==> 1000 * us
            <= clock_ns - epoch_ns < 1000 * (us + 1),
        us >= 0,
{
}

/// The luma plane that `bgra_to_nv12` writes: a byte per pixel, from the pixel
/// alone, for images of all sizes.
pub proof fn law_luma_plane(
    src: &[u8],
    w: usize,
    h: usize,
    dst: &mut [u8],
    row: int,
    col: int,
)
    requires
        4 * pixels_read(w as int, h as int) <= src@.len(),
        nv12_len(w as int, h as int) <= dst@.len(),
        0 <= row < h,
        0 <= col < w,
        call_ensures(bgra_to_nv12, (src, w, h, dst), ()),
    ensures
        ({
            let at = 4 * (row * w + col);
            let (b, g, r) = (src@[at] as int, src@[at + 1] as int, src@[at + 2] as int);
            let y = final(dst)@[row * w + col];
            256 * (y - 16) - 128 <= 66 * r + 129 * g + 25 * b < 256 * (y - 16) + 128
        }),
{
    let (wi, hi) = (w as int, h as int);
    law_luma_of_a_pixel(src@, wi, hi, row, col);
    lemma_image_sizes(wi, hi);
    assert(0 <= row * wi + col < wi * hi) by (nonlinear_arith)
        requires
            0 <= row < hi,
            0 <= col < wi,
    ;
}

/// A frame that is taken is the converted picture: it holds what
/// `bgra_to_nv12` writes of the same buffer at the encoder's size.
pub proof fn law_frames_are_converted(
    e: H264Encoder,
    bgra: &[u8],
    r: Result<Nv12Frame, Error>,
    dst: &mut [u8],
)
    requires
        e@.width % 2 == 0,
        e@.height % 2 == 0,
        e@.width * e@.height * 4 <= usize::MAX,
        call_ensures(H264Encoder::submit_frame, (&e, bgra), r),
        r is Ok,
        dst@.len() == r->Ok_0.data@.len(),
        call_ensures(bgra_to_nv12, (bgra, e@.width as usize, e@.height as usize, dst), ()),
    ensures
        final(dst)@ == r->Ok_0.data@,
{
    let (w, h) = (e@.width as int, e@.height as int);
    lemma_even_sizes(w, h);
    assert(final(dst)@ =~= r->Ok_0.data@);
}

} // verus!
