//! The pipeline: the latest frame delivered by the capture bridge, the clock
//! that decides what each tick does, the access unit gathered from the
//! encoder, and the muxing session of the segment being written.

use crate::hls::Hls;
use crate::lazybytes::{BufferState, LazyBytes};
use crate::mpegts::MpegTs;
use crate::shared::share;
use crate::timing::{valid_timing, Clock, Tick};
use vstd::prelude::*;

verus! {

/// The width of the pictures the pipeline encodes.
pub const WIDTH: usize = 480;

/// The height of the pictures the pipeline encodes.
pub const HEIGHT: usize = 320;

/// The number of bytes in the luma plane of a `width` by `height` picture.
pub open spec fn luma_len(width: int, height: int) -> int {
    width * height
}

/// The width of a chroma plane: half the picture's width, rounded up.
pub open spec fn chroma_width(width: int) -> int {
    (width + 1) / 2
}

/// The number of bytes in one chroma plane of a `width` by `height` picture.
pub open spec fn chroma_len(width: int, height: int) -> int {
    chroma_width(width) * ((height + 1) / 2)
}

/// A frame in planar 4:2:0 layout, each plane stored row by row without padding.
pub struct Frame {
    pub width: usize,
    pub height: usize,
    pub y: Seq<u8>,
    pub u: Seq<u8>,
    pub v: Seq<u8>,
}

impl Frame {
    /// Each plane has the length that the picture's size gives it.
    pub open spec fn wf(self) -> bool {
        &&& self.y.len() == luma_len(self.width as int, self.height as int)
        &&& self.u.len() == chroma_len(self.width as int, self.height as int)
        &&& self.v.len() == chroma_len(self.width as int, self.height as int)
    }
}

/// A frame as the capture bridge delivers it.
pub struct VideoFrame {
    width: usize,
    height: usize,
    y: Vec<u8>,
    u: Vec<u8>,
    v: Vec<u8>,
}

impl View for VideoFrame {
    type V = Frame;

    closed spec fn view(&self) -> Frame {
        Frame { width: self.width, height: self.height, y: self.y@, u: self.u@, v: self.v@ }
    }
}

impl VideoFrame {
    #[verifier::type_invariant]
    spec fn inv(self) -> bool {
        self@.wf()
    }

    /// A frame of the given size and planes; `None` unless each plane has the
    /// length that the size gives it.
    pub fn new(width: usize, height: usize, y: Vec<u8>, u: Vec<u8>, v: Vec<u8>) -> (r: Option<
        VideoFrame,
    >)
        ensures
            r is Some <==> (Frame { width, height, y: y@, u: u@, v: v@ }).wf(),
            r matches Some(f) ==> f@ == (Frame { width, height, y: y@, u: u@, v: v@ }),
    {
        let wide: u128 = width as u128;
        let high: u128 = height as u128;
        assert(wide * high <= 0xffff_ffff_ffff_ffff * 0xffff_ffff_ffff_ffff) by (nonlinear_arith)
            requires
                wide <= 0xffff_ffff_ffff_ffff,
                high <= 0xffff_ffff_ffff_ffff,
        ;
        let luma: u128 = wide * high;
        let half_wide: u128 = (wide + 1) / 2;
        let half_high: u128 = (high + 1) / 2;
        assert(half_wide * half_high <= 0xffff_ffff_ffff_ffff * 0xffff_ffff_ffff_ffff)
            by (nonlinear_arith)
            requires
                half_wide <= 0xffff_ffff_ffff_ffff,
                half_high <= 0xffff_ffff_ffff_ffff,
        ;
        let chroma: u128 = half_wide * half_high;
        if y.len() as u128 == luma && u.len() as u128 == chroma && v.len() as u128 == chroma {
            Some(VideoFrame { width, height, y, u, v })
        } else {
            None
        }
    }
}

/// `fresh` laid over the front of `held`: the bytes of `fresh`, then what
/// `held` has beyond them.
pub open spec fn overlaid(held: Seq<u8>, fresh: Seq<u8>) -> Seq<u8> {
    if fresh.len() >= held.len() {
        fresh
    } else {
        fresh + held.subrange(fresh.len() as int, held.len() as int)
    }
}

/// Copies `fresh` over the front of `held`, which grows where it is shorter.
fn overlay(held: &mut Vec<u8>, fresh: &Vec<u8>)
    ensures
        final(held)@ == overlaid(old(held)@, fresh@),
{
    let ghost before = held@;
    if held.len() < fresh.len() {
        held.resize(fresh.len(), 0);
    }
    let ghost sized = held@;
    assert(sized.len() >= fresh.len());
    assert(forall|j: int| fresh.len() <= j < before.len() ==> sized[j] == before[j]) by {
        if before.len() > fresh.len() {
            assert(sized == before);
        }
    }
    let mut i: usize = 0;
    while i < fresh.len()
        invariant
            i <= fresh.len(),
            held.len() == sized.len(),
            sized.len() >= fresh.len(),
            forall|j: int| 0 <= j < i ==> held@[j] == fresh@[j],
            forall|j: int| fresh.len() <= j < held.len() ==> held@[j] == sized[j],
        decreases fresh.len() - i,
    {
        held.set(i, fresh[i]);
        i += 1;
    }
    assert(held@ =~= overlaid(before, fresh@));
}

/// A vector of `len` zero bytes.
fn zeros(len: usize) -> (r: Vec<u8>)
    ensures
        r@ == Seq::new(len as nat, |i: int| 0u8),
{
    let mut r: Vec<u8> = Vec::new();
    let mut i: usize = 0;
    while i < len
        invariant
            i <= len,
            r@ == Seq::new(i as nat, |j: int| 0u8),
        decreases len - i,
    {
        r.push(0);
        i += 1;
        assert(r@ =~= Seq::new(i as nat, |j: int| 0u8));
    }
    r
}

/// The three planes of the latest frame and the length of a row in each.
pub struct Planes {
    pub y: Seq<u8>,
    pub u: Seq<u8>,
    pub v: Seq<u8>,
    pub y_stride: usize,
    pub u_stride: usize,
    pub v_stride: usize,
}

impl Planes {
    /// The planes once `frame` has been delivered: its bytes lie over the
    /// front of each plane, and the rows have the frame's widths.
    pub open spec fn deliver(self, frame: Frame) -> Planes {
        Planes {
            y: overlaid(self.y, frame.y),
            u: overlaid(self.u, frame.u),
            v: overlaid(self.v, frame.v),
            y_stride: frame.width,
            u_stride: chroma_width(frame.width as int) as usize,
            v_stride: chroma_width(frame.width as int) as usize,
        }
    }

    /// All-zero planes for the pictures the pipeline encodes, with rows
    /// padded to a multiple of sixteen luma samples.
    pub open spec fn blank() -> Planes {
        Planes {
            y: Seq::new(153600, |i: int| 0u8),
            u: Seq::new(76800, |i: int| 0u8),
            v: Seq::new(76800, |i: int| 0u8),
            y_stride: 480,
            u_stride: 240,
            v_stride: 240,
        }
    }
}

/// One layer of the encoder's output for a frame.
pub struct Layer {
    /// The spatial layer the bytes belong to.
    pub spatial_id: u8,
    /// The layer's units, one behind the other.
    pub data: Vec<u8>,
}

/// The sum of the elements of `lengths`.
pub open spec fn total(lengths: Seq<i32>) -> int
    decreases lengths.len(),
{
    if lengths.len() == 0 {
        0
    } else {
        total(lengths.drop_last()) + lengths.last()
    }
}

/// The number of bytes that units of these lengths take up: their sum, and
/// nothing where the sum is not positive.
pub open spec fn layer_bytes(lengths: Seq<i32>) -> int {
    if total(lengths) > 0 {
        total(lengths)
    } else {
        0
    }
}

/// The size of a layer whose units have the given lengths; `None` where the
/// sum is more than a 32-bit length can state.
pub fn layer_size(nal_lengths: &Vec<i32>) -> (r: Option<usize>)
    ensures
        r is Some <==> total(nal_lengths@) <= i32::MAX,
        r matches Some(n) ==> n == layer_bytes(nal_lengths@),
{
    let mut size: i128 = 0;
    let mut i: usize = 0;
    while i < nal_lengths.len()
        invariant
            i <= nal_lengths.len(),
            size == total(nal_lengths@.subrange(0, i as int)),
            -0x8000_0000 * i <= size <= 0x7fff_ffff * i,
        decreases nal_lengths.len() - i,
    {
        assert(nal_lengths@.subrange(0, i + 1).drop_last() =~= nal_lengths@.subrange(0, i as int));
        size = size + nal_lengths[i] as i128;
        i += 1;
    }
    assert(nal_lengths@.subrange(0, i as int) =~= nal_lengths@);
    if size > i32::MAX as i128 {
        None
    } else if size > 0 {
        Some(size as usize)
    } else {
        Some(0)
    }
}

/// The access unit that a frame's layers make up: the bytes of the layers of
/// spatial layer 0, in the order the encoder gave them.
pub open spec fn unit_of(layers: Seq<Layer>) -> Seq<u8>
    decreases layers.len(),
{
    if layers.len() == 0 {
        Seq::empty()
    } else if layers.last().spatial_id == 0 {
        unit_of(layers.drop_last()) + layers.last().data@
    } else {
        unit_of(layers.drop_last())
    }
}

/// The layout of the samples handed to the encoder.
#[derive(Clone, Copy, Debug, PartialEq, Eq, Structural)]
pub enum ColorFormat {
    /// Planar 4:2:0: a full-size luma plane and two chroma planes of half
    /// the width and half the height.
    I420,
}

/// What the encoder is told the video is used for.
#[derive(Clone, Copy, Debug, PartialEq, Eq, Structural)]
pub enum UsageType {
    CameraVideoRealTime,
}

/// The H.264 profile the encoder keeps to.
#[derive(Clone, Copy, Debug, PartialEq, Eq, Structural)]
pub enum Profile {
    Baseline,
}

/// How the encoder cuts a picture into slices.
#[derive(Clone, Copy, Debug, PartialEq, Eq, Structural)]
pub enum SliceMode {
    FixedSliceCount,
}

/// The bitrate the encoder aims at, in bits per second.
pub const BITRATE: i32 = 4000000;

/// The number of slices, and of encoder threads.
pub const SLICES: u16 = 4;

/// What the encoder is set up with.
#[derive(Clone, Copy, Debug, PartialEq, Eq, Structural)]
pub struct EncoderSettings {
    pub usage_type: UsageType,
    /// The time between two frames; the frame rate is 1000 over this.
    pub frame_duration_ms: u64,
    /// The highest bitrate allowed; `None` leaves it open.
    pub max_bitrate: Option<i32>,
    pub spatial_layers: i32,
    pub simulcast_avc: bool,
    pub threads: u16,
    pub profile: Profile,
    pub width: i32,
    pub height: i32,
    pub target_bitrate: i32,
    pub slice_mode: SliceMode,
    pub slices: u16,
    pub data_format: ColorFormat,
    pub frame_skip: bool,
}

/// What the encoder is told about the picture it is handed, besides the
/// samples.
#[derive(Clone, Copy, Debug, PartialEq, Eq, Structural)]
pub struct Picture {
    pub timestamp: i64,
    pub width: i32,
    pub height: i32,
    pub color_format: ColorFormat,
    pub y_stride: i32,
    pub u_stride: i32,
    pub v_stride: i32,
}

pub struct Camcorder {
    y_pixels: Vec<u8>,
    u_pixels: Vec<u8>,
    v_pixels: Vec<u8>,
    y_stride: usize,
    u_stride: usize,
    v_stride: usize,
    width: usize,
    height: usize,
    clock: Clock,
    mpeg_ts: MpegTs,
    h264: Vec<u8>,
}

impl Camcorder {
    pub closed spec fn width(&self) -> usize {
        self.width
    }

    pub closed spec fn height(&self) -> usize {
        self.height
    }

    /// The latest frame.
    pub closed spec fn planes(&self) -> Planes {
        Planes {
            y: self.y_pixels@,
            u: self.u_pixels@,
            v: self.v_pixels@,
            y_stride: self.y_stride,
            u_stride: self.u_stride,
            v_stride: self.v_stride,
        }
    }

    pub closed spec fn clock(&self) -> Clock {
        self.clock
    }

    /// The encoded bytes gathered in this tick and not yet handed to the muxer.
    pub closed spec fn unit(&self) -> Seq<u8> {
        self.h264@
    }

    /// The muxing session of the segment being written.
    pub closed spec fn session(&self) -> MpegTs {
        self.mpeg_ts
    }

    /// The muxing session of the segment being written.
    pub fn mpeg_ts(&self) -> (r: &MpegTs)
        ensures
            *r == self.session(),
    {
        &self.mpeg_ts
    }

    /// The muxing session, to be written to. Nothing else of the pipeline changes.
    pub fn mpeg_ts_mut(&mut self) -> (r: &mut MpegTs)
        ensures
            *r == old(self).session(),
            final(self).session() == *final(r),
            final(self).clock() == old(self).clock(),
            final(self).planes() == old(self).planes(),
            final(self).unit() == old(self).unit(),
            final(self).width() == old(self).width(),
            final(self).height() == old(self).height(),
    {
        &mut self.mpeg_ts
    }

    /// A pipeline at time zero with an all-zero frame and a first session,
    /// whose segment is registered in `hls`.
    pub fn new(hls: &mut Hls, frame_duration_ms: u64, ts_duration_ms: u64) -> (r: Camcorder)
        requires
            old(hls)@.wf(),
            old(hls)@.last_index < u64::MAX,
            valid_timing(frame_duration_ms, ts_duration_ms),
        ensures
            r.width() == WIDTH,
            r.height() == HEIGHT,
            r.planes() == Planes::blank(),
            r.clock() == Clock::start(frame_duration_ms, ts_duration_ms),
            r.clock().wf(),
            r.unit() == Seq::<u8>::empty(),
            r.session().width() == WIDTH,
            r.session().height() == HEIGHT,
            r.session().output() == BufferState::empty(),
            final(hls)@ == old(hls)@.add(ts_duration_ms, r.session().shared()),
            final(hls)@.wf(),
    {
        let width = WIDTH;
        let height = HEIGHT;
        let y_stride = (width + 15) / 16 * 16;
        let y_pixels = zeros(y_stride * height);
        let u_stride = (width + 15) / 16 * 8;
        let u_pixels = zeros(u_stride * height);
        let v_stride = (width + 15) / 16 * 8;
        let v_pixels = zeros(v_stride * height);
        let lazy_bytes = share(LazyBytes::new());
        hls.add_new_segment(ts_duration_ms, lazy_bytes.clone());
        Camcorder {
            y_pixels,
            u_pixels,
            v_pixels,
            y_stride,
            u_stride,
            v_stride,
            width,
            height,
            clock: Clock::new(frame_duration_ms, ts_duration_ms),
            mpeg_ts: MpegTs::new(width, height, lazy_bytes),
            h264: Vec::new(),
        }
    }

    /// The luma plane of the latest frame.
    pub fn y_pixels(&self) -> (r: &Vec<u8>)
        ensures
            r@ == self.planes().y,
    {
        &self.y_pixels
    }

    /// The first chroma plane of the latest frame.
    pub fn u_pixels(&self) -> (r: &Vec<u8>)
        ensures
            r@ == self.planes().u,
    {
        &self.u_pixels
    }

    /// The second chroma plane of the latest frame.
    pub fn v_pixels(&self) -> (r: &Vec<u8>)
        ensures
            r@ == self.planes().v,
    {
        &self.v_pixels
    }

    /// The encoded bytes gathered in this tick.
    pub fn h264(&self) -> (r: &Vec<u8>)
        ensures
            r@ == self.unit(),
    {
        &self.h264
    }

    /// The clock as it stands.
    pub fn timing(&self) -> (r: Clock)
        ensures
            r == self.clock(),
    {
        self.clock
    }

    /// What the encoder is set up with; `None` where the picture size is
    /// more than it can be told.
    pub fn encoder_settings(&self) -> (r: Option<EncoderSettings>)
        ensures
            r is Some <==> self.width() <= i32::MAX && self.height() <= i32::MAX,
            r matches Some(s) ==> s == (EncoderSettings {
                usage_type: UsageType::CameraVideoRealTime,
                frame_duration_ms: self.clock().frame_duration_ms,
                max_bitrate: None,
                spatial_layers: 1,
                simulcast_avc: true,
                threads: SLICES,
                profile: Profile::Baseline,
                width: self.width() as i32,
                height: self.height() as i32,
                target_bitrate: BITRATE,
                slice_mode: SliceMode::FixedSliceCount,
                slices: SLICES,
                data_format: ColorFormat::I420,
                frame_skip: false,
            }),
    {
        if self.width > i32::MAX as usize || self.height > i32::MAX as usize {
            return None;
        }
        Some(
            EncoderSettings {
                usage_type: UsageType::CameraVideoRealTime,
                frame_duration_ms: self.clock.frame_duration_ms,
                max_bitrate: None,
                spatial_layers: 1,
                simulcast_avc: true,
                threads: SLICES,
                profile: Profile::Baseline,
                width: self.width as i32,
                height: self.height as i32,
                target_bitrate: BITRATE,
                slice_mode: SliceMode::FixedSliceCount,
                slices: SLICES,
                data_format: ColorFormat::I420,
                frame_skip: false,
            },
        )
    }

    /// Whether the picture of a tick can be described to the encoder: its
    /// time, the picture size and the row lengths all fit what it takes, and
    /// each plane holds as many rows of that length as the picture has.
    pub open spec fn describable(&self, tick: Tick) -> bool {
        &&& tick.picture_ms <= i64::MAX
        &&& self.width() <= i32::MAX
        &&& self.height() <= i32::MAX
        &&& self.planes().y_stride <= i32::MAX
        &&& self.planes().u_stride <= i32::MAX
        &&& self.planes().v_stride <= i32::MAX
        &&& self.planes().y_stride * self.height() <= self.planes().y.len()
        &&& self.planes().u_stride * ((self.height() + 1) / 2) <= self.planes().u.len()
        &&& self.planes().v_stride * ((self.height() + 1) / 2) <= self.planes().v.len()
    }

    /// What the encoder is told about the picture of `tick`.
    pub fn picture(&self, tick: &Tick) -> (r: Option<Picture>)
        ensures
            r is Some <==> self.describable(*tick),
            r matches Some(p) ==> p == (Picture {
                timestamp: tick.picture_ms as i64,
                width: self.width() as i32,
                height: self.height() as i32,
                color_format: ColorFormat::I420,
                y_stride: self.planes().y_stride as i32,
                u_stride: self.planes().u_stride as i32,
                v_stride: self.planes().v_stride as i32,
            }),
    {
        let limit: usize = i32::MAX as usize;
        if tick.picture_ms > i64::MAX as u64 || self.width > limit || self.height > limit
            || self.y_stride > limit || self.u_stride > limit || self.v_stride > limit {
            return None;
        }
        let rows: u64 = self.height as u64;
        let half_rows: u64 = (rows + 1) / 2;
        assert(self.y_stride as u64 * rows <= 0x7fff_ffff * 0x7fff_ffff) by (nonlinear_arith)
            requires
                self.y_stride <= 0x7fff_ffff,
                rows <= 0x7fff_ffff,
        ;
        assert(self.u_stride as u64 * half_rows <= 0x7fff_ffff * 0x7fff_ffff) by (nonlinear_arith)
            requires
                self.u_stride <= 0x7fff_ffff,
                half_rows <= 0x7fff_ffff,
        ;
        assert(self.v_stride as u64 * half_rows <= 0x7fff_ffff * 0x7fff_ffff) by (nonlinear_arith)
            requires
                self.v_stride <= 0x7fff_ffff,
                half_rows <= 0x7fff_ffff,
        ;
        if self.y_stride as u64 * rows > self.y_pixels.len() as u64 || self.u_stride as u64
            * half_rows > self.u_pixels.len() as u64 || self.v_stride as u64 * half_rows
            > self.v_pixels.len() as u64 {
            return None;
        }
        Some(
            Picture {
                timestamp: tick.picture_ms as i64,
                width: self.width as i32,
                height: self.height as i32,
                color_format: ColorFormat::I420,
                y_stride: self.y_stride as i32,
                u_stride: self.u_stride as i32,
                v_stride: self.v_stride as i32,
            },
        )
    }

    /// Whether the clock can be advanced by one more frame.
    pub fn ready(&self) -> (r: bool)
        ensures
            r == self.clock().can_tick(),
    {
        self.clock.ready()
    }

    /// Starts a tick: decides what it does and advances the clock by one frame.
    pub fn run(&mut self) -> (r: Tick)
        requires
            old(self).clock().wf(),
            old(self).clock().can_tick(),
        ensures
            r == old(self).clock().plan(),
            final(self).clock() == old(self).clock().advance(),
            final(self).clock().wf(),
            final(self).planes() == old(self).planes(),
            final(self).unit() == old(self).unit(),
            final(self).width() == old(self).width(),
            final(self).height() == old(self).height(),
            final(self).session() == old(self).session(),
    {
        self.clock.tick()
    }

    /// Gathers the encoder's output for a frame: the bytes of the layers of
    /// spatial layer 0 go behind those gathered so far.
    pub fn collect(&mut self, layers: &Vec<Layer>)
        ensures
            final(self).unit() == old(self).unit() + unit_of(layers@),
            final(self).clock() == old(self).clock(),
            final(self).planes() == old(self).planes(),
            final(self).width() == old(self).width(),
            final(self).height() == old(self).height(),
            final(self).session() == old(self).session(),
    {
        let ghost before = self.h264@;
        let mut i: usize = 0;
        while i < layers.len()
            invariant
                i <= layers.len(),
                self.h264@ == before + unit_of(layers@.subrange(0, i as int)),
                self.clock == old(self).clock,
                self.planes() == old(self).planes(),
                self.width == old(self).width,
                self.height == old(self).height,
                self.mpeg_ts == old(self).mpeg_ts,
            decreases layers.len() - i,
        {
            assert(layers@.subrange(0, i + 1).drop_last() =~= layers@.subrange(0, i as int));
            if layers[i].spatial_id == 0 {
                let ghost held = self.h264@;
                self.h264.extend_from_slice(layers[i].data.as_slice());
                assert(self.h264@ =~= held + layers@[i as int].data@);
            }
            i += 1;
        }
        assert(layers@.subrange(0, i as int) =~= layers@);
    }

    /// Forgets the bytes gathered, once the muxer has taken them.
    pub fn clear_unit(&mut self)
        ensures
            final(self).unit() == Seq::<u8>::empty(),
            final(self).clock() == old(self).clock(),
            final(self).planes() == old(self).planes(),
            final(self).width() == old(self).width(),
            final(self).height() == old(self).height(),
            final(self).session() == old(self).session(),
    {
        self.h264.clear();
    }

    /// Replaces the session, which must have been closed, by a new one whose
    /// segment is registered in `hls`. Returns the new segment's index.
    pub fn open_segment(&mut self, hls: &mut Hls) -> (index: u64)
        requires
            old(self).session().output().completion,
            old(hls)@.wf(),
            old(hls)@.last_index < u64::MAX,
        ensures
            index == old(hls)@.last_index + 1,
            final(hls)@ == old(hls)@.add(
                old(self).clock().ts_duration_ms,
                final(self).session().shared(),
            ),
            final(hls)@.wf(),
            final(self).session().width() == old(self).width(),
            final(self).session().height() == old(self).height(),
            final(self).session().output() == BufferState::empty(),
            final(self).clock() == old(self).clock(),
            final(self).planes() == old(self).planes(),
            final(self).unit() == old(self).unit(),
            final(self).width() == old(self).width(),
            final(self).height() == old(self).height(),
    {
        let lazy_bytes = share(LazyBytes::new());
        let index = hls.add_new_segment(self.clock.ts_duration_ms, lazy_bytes.clone());
        self.mpeg_ts = MpegTs::new(self.width, self.height, lazy_bytes);
        index
    }
}

/// Takes a frame from the capture bridge: its planes are copied over the
/// front of the pipeline's planes, which grow where they are too short, and
/// the rows get the frame's widths. A frame not yet encoded is overwritten.
pub fn frame_callback(camcorder: &mut Camcorder, frame: &VideoFrame)
    ensures
        final(camcorder).planes() == old(camcorder).planes().deliver(frame@),
        final(camcorder).clock() == old(camcorder).clock(),
        final(camcorder).unit() == old(camcorder).unit(),
        final(camcorder).width() == old(camcorder).width(),
        final(camcorder).height() == old(camcorder).height(),
        final(camcorder).session() == old(camcorder).session(),
{
    proof {
        use_type_invariant(frame);
    }
    let uv_width = frame.width / 2 + frame.width % 2;
    overlay(&mut camcorder.y_pixels, &frame.y);
    overlay(&mut camcorder.u_pixels, &frame.u);
    overlay(&mut camcorder.v_pixels, &frame.v);
    camcorder.y_stride = frame.width;
    camcorder.u_stride = uv_width;
    camcorder.v_stride = uv_width;
}

} // verus!
