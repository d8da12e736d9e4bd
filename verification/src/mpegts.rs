//! The adapter between the pipeline and the container muxer: what a session
//! tells the muxer about its stream, the packet it hands over for each access
//! unit, and the buffer into which the muxer's output is gathered.

use crate::lazybytes::{BufferState, LazyBytes};
use crate::rawbytes::bytes_contents;
use crate::shared::{store, SharedBytes};
use bytes::Bytes;
use vstd::arithmetic::div_mod::{
    lemma_div_is_ordered, lemma_div_pos_is_pos, lemma_fundamental_div_mod,
    lemma_fundamental_div_mod_converse,
};
use vstd::prelude::*;

verus! {

/// The size of the buffer through which the muxer hands its output over.
pub const AVIO_CTX_BUFFER_SIZE: usize = 8192;

/// The packet flag that marks a keyframe.
pub const AV_PKT_FLAG_KEY: i32 = 1;

/// The H.264 profile announced for the stream.
pub const PROFILE: i32 = 578;

/// The H.264 level announced for the stream.
pub const LEVEL: i32 = 41;

/// The container's unit of time, `num / den` of a second.
#[derive(Clone, Copy, Debug, PartialEq, Eq, Structural)]
pub struct TimeBase {
    pub num: i32,
    pub den: i32,
}

/// `a / b` rounded towards zero.
pub open spec fn truncated_quotient(a: int, b: int) -> int
    recommends
        b != 0,
{
    if a >= 0 && b > 0 {
        a / b
    } else if a >= 0 {
        -(a / (-b))
    } else if b > 0 {
        -((-a) / b)
    } else {
        (-a) / (-b)
    }
}

/// A time of `value_ms` milliseconds in units of `time_base`:
/// `value_ms * den / (num * 1000)`, rounded towards zero.
pub open spec fn scaled(value_ms: u64, time_base: TimeBase) -> int
    recommends
        time_base.num != 0,
{
    truncated_quotient(value_ms * time_base.den, time_base.num * 1000)
}

/// Whether a time can be scaled: the time base has a numerator, and the
/// result is a 64-bit timestamp.
pub open spec fn scalable(value_ms: u64, time_base: TimeBase) -> bool {
    time_base.num != 0 && i64::MIN <= scaled(value_ms, time_base) <= i64::MAX
}

/// The truncated quotient is the exact quotient with its fraction dropped:
/// what is left over has the sign of the dividend and is smaller than the
/// divisor.
pub proof fn lemma_truncated_quotient(a: int, b: int)
    requires
        b != 0,
    ensures
        a >= 0 ==> 0 <= a - truncated_quotient(a, b) * b < (if b > 0 {
            b
        } else {
            -b
        }),
        a <= 0 ==> 0 >= a - truncated_quotient(a, b) * b > (if b > 0 {
            -b
        } else {
            b
        }),
{
    let q = truncated_quotient(a, b);
    if a >= 0 && b > 0 {
        lemma_fundamental_div_mod(a, b);
        assert(q * b == b * (a / b)) by (nonlinear_arith)
            requires
                q == a / b,
        ;
    } else if a >= 0 {
        lemma_fundamental_div_mod(a, -b);
        assert(q * b == (-b) * (a / (-b))) by (nonlinear_arith)
            requires
                q == -(a / (-b)),
        ;
    } else if b > 0 {
        lemma_fundamental_div_mod(-a, b);
        assert(q * b == -(b * ((-a) / b))) by (nonlinear_arith)
            requires
                q == -((-a) / b),
        ;
    } else {
        lemma_fundamental_div_mod(-a, -b);
        assert(q * b == -((-b) * ((-a) / (-b)))) by (nonlinear_arith)
            requires
                q == (-a) / (-b),
        ;
    }
}

/// Scaling follows the formula `value_ms * den / (num * 1000)` with the
/// fraction dropped: for a time base with positive parts it is that quotient
/// rounded down, it is 0 at time 0, and a later time never scales to an
/// earlier one.
pub proof fn lemma_scaled(value_ms: u64, later_ms: u64, time_base: TimeBase)
    requires
        time_base.num > 0,
        time_base.den > 0,
        value_ms <= later_ms,
    ensures
        scaled(value_ms, time_base) == (value_ms * time_base.den) / (time_base.num * 1000),
        scaled(value_ms, time_base) * (time_base.num * 1000) <= value_ms * time_base.den < (scaled(
            value_ms,
            time_base,
        ) + 1) * (time_base.num * 1000),
        scaled(0, time_base) == 0,
        0 <= scaled(value_ms, time_base) <= scaled(later_ms, time_base),
{
    let b = time_base.num * 1000;
    let a = value_ms * time_base.den;
    let c = later_ms * time_base.den;
    assert(0 <= a <= c) by (nonlinear_arith)
        requires
            a == value_ms * time_base.den,
            c == later_ms * time_base.den,
            0 <= value_ms <= later_ms,
            time_base.den > 0,
    ;
    lemma_truncated_quotient(a, b);
    let q = scaled(value_ms, time_base);
    assert((q + 1) * b == q * b + b) by (nonlinear_arith);
    assert(0int * (time_base.den as int) == 0);
    lemma_fundamental_div_mod_converse(0, b, 0, 0);
    lemma_div_is_ordered(a, c, b);
    lemma_div_pos_is_pos(a, b);
}

/// Converts milliseconds into units of `time_base`.
pub fn scale(value_ms: u64, time_base: TimeBase) -> (r: Option<i64>)
    ensures
        r is Some <==> scalable(value_ms, time_base),
        r matches Some(t) ==> t == scaled(value_ms, time_base),
{
    if time_base.num == 0 {
        return None;
    }
    let den: i128 = time_base.den as i128;
    let num: i128 = time_base.num as i128;
    let den_abs: u128 = if den < 0 { (-den) as u128 } else { den as u128 };
    let num_abs: u128 = if num < 0 { (-num) as u128 } else { num as u128 };
    assert(value_ms as u128 * den_abs <= 0xffff_ffff_ffff_ffff * 0x8000_0000) by (nonlinear_arith)
        requires
            value_ms as u128 <= 0xffff_ffff_ffff_ffff,
            den_abs <= 0x8000_0000,
    ;
    let dividend: u128 = value_ms as u128 * den_abs;
    let divisor: u128 = num_abs * 1000;
    let magnitude: u128 = dividend / divisor;
    let negative = (den < 0) != (num < 0);
    proof {
        let t: int = value_ms as int;
        let d: int = time_base.den as int;
        let a: int = t * d;
        let b: int = time_base.num * 1000;
        assert(t * (-d) == -a) by (nonlinear_arith)
            requires
                a == t * d,
        ;
        assert(d >= 0 ==> a >= 0) by (nonlinear_arith)
            requires
                a == t * d,
                t >= 0,
        ;
        assert(d < 0 ==> a <= 0) by (nonlinear_arith)
            requires
                a == t * d,
                t >= 0,
        ;
        assert(0int / (divisor as int) == 0) by (nonlinear_arith)
            requires
                divisor > 0,
        ;
        assert(truncated_quotient(a, b) == if negative {
            -(magnitude as int)
        } else {
            magnitude as int
        });
    }
    if negative {
        if magnitude > 0x8000_0000_0000_0000 {
            None
        } else if magnitude == 0x8000_0000_0000_0000 {
            Some(i64::MIN)
        } else {
            Some(-(magnitude as i64))
        }
    } else {
        if magnitude > 0x7fff_ffff_ffff_ffff {
            None
        } else {
            Some(magnitude as i64)
        }
    }
}

/// What a packet tells the muxer about one access unit, besides the bytes.
#[derive(Clone, Copy, Debug, PartialEq, Eq, Structural)]
pub struct Packet {
    pub pts: i64,
    pub dts: i64,
    pub duration: i64,
    pub convergence_duration: i64,
    pub flags: i32,
    pub pos: i64,
    pub stream_index: i32,
    pub size: i32,
    pub side_data_elems: i32,
}

/// A packet with every field at zero.
pub fn default_av_packet() -> (r: Packet)
    ensures
        r == (Packet {
            pts: 0,
            dts: 0,
            duration: 0,
            convergence_duration: 0,
            flags: 0,
            pos: 0,
            stream_index: 0,
            size: 0,
            side_data_elems: 0,
        }),
{
    Packet {
        pts: 0,
        dts: 0,
        duration: 0,
        convergence_duration: 0,
        flags: 0,
        pos: 0,
        stream_index: 0,
        size: 0,
        side_data_elems: 0,
    }
}

/// The packet for an access unit of `size` bytes that is shown at `start_ms`
/// for `frame_duration_ms`.
pub open spec fn packet_for(
    size: nat,
    start_ms: u64,
    frame_duration_ms: u64,
    key: bool,
    time_base: TimeBase,
) -> Packet {
    Packet {
        pts: scaled(start_ms, time_base) as i64,
        dts: scaled(start_ms, time_base) as i64,
        duration: scaled(frame_duration_ms, time_base) as i64,
        convergence_duration: 0,
        flags: if key {
            AV_PKT_FLAG_KEY
        } else {
            0
        },
        pos: -1i64,
        stream_index: 0,
        size: size as i32,
        side_data_elems: 0,
    }
}

/// Whether a packet can be made: both times can be scaled, and the size of
/// the access unit is one that a packet can state.
pub open spec fn packable(
    size: nat,
    start_ms: u64,
    frame_duration_ms: u64,
    time_base: TimeBase,
) -> bool {
    &&& scalable(start_ms, time_base)
    &&& scalable(frame_duration_ms, time_base)
    &&& size <= i32::MAX
}

/// The kind of media a stream carries.
#[derive(Clone, Copy, Debug, PartialEq, Eq, Structural)]
pub enum MediaType {
    Video,
}

/// The codec of a stream.
#[derive(Clone, Copy, Debug, PartialEq, Eq, Structural)]
pub enum CodecId {
    H264,
}

/// What a session tells the muxer about its one video stream.
#[derive(Clone, Copy, Debug, PartialEq, Eq, Structural)]
pub struct CodecParameters {
    pub codec_type: MediaType,
    pub codec_id: CodecId,
    pub bits_per_raw_sample: i32,
    pub profile: i32,
    pub level: i32,
    pub width: i32,
    pub height: i32,
    pub sample_aspect_ratio_den: i32,
}

/// One muxing session, which is one segment: the picture size it was opened
/// for, the container bytes gathered so far, and the shared buffer through
/// which readers see them.
pub struct MpegTs {
    width: usize,
    height: usize,
    output: LazyBytes,
    shared: SharedBytes,
}

impl MpegTs {
    pub closed spec fn width(&self) -> usize {
        self.width
    }

    pub closed spec fn height(&self) -> usize {
        self.height
    }

    /// The container bytes gathered so far, and whether the session is closed.
    pub closed spec fn output(&self) -> BufferState {
        self.output@
    }

    /// The buffer through which readers see this session's bytes.
    pub closed spec fn shared(&self) -> SharedBytes {
        self.shared
    }

    /// A session for pictures of `width` by `height` that has gathered no
    /// byte yet and shows its bytes to readers through `lazy_bytes`.
    pub fn new(width: usize, height: usize, lazy_bytes: SharedBytes) -> (r: MpegTs)
        ensures
            r.width() == width,
            r.height() == height,
            r.output() == BufferState::empty(),
            r.shared() == lazy_bytes,
    {
        MpegTs { width, height, output: LazyBytes::new(), shared: lazy_bytes }
    }

    /// Whether the session has been closed.
    pub fn is_closed(&self) -> (r: bool)
        ensures
            r == self.output().completion,
    {
        self.output.completion
    }

    /// The stream parameters of this session; `None` where the picture size
    /// is more than the muxer can be told.
    pub fn codec_parameters(&self) -> (r: Option<CodecParameters>)
        ensures
            r is Some <==> self.width() <= i32::MAX && self.height() <= i32::MAX,
            r matches Some(p) ==> p == (CodecParameters {
                codec_type: MediaType::Video,
                codec_id: CodecId::H264,
                bits_per_raw_sample: 8,
                profile: PROFILE,
                level: LEVEL,
                width: self.width() as i32,
                height: self.height() as i32,
                sample_aspect_ratio_den: 1,
            }),
    {
        if self.width > i32::MAX as usize || self.height > i32::MAX as usize {
            return None;
        }
        Some(
            CodecParameters {
                codec_type: MediaType::Video,
                codec_id: CodecId::H264,
                bits_per_raw_sample: 8,
                profile: PROFILE,
                level: LEVEL,
                width: self.width as i32,
                height: self.height as i32,
                sample_aspect_ratio_den: 1,
            },
        )
    }

    /// The packet that carries the access unit `h264`, shown at `start_ms`
    /// for `frame_duration_ms`, with both times in units of `time_base`.
    pub fn write(
        &self,
        h264: &Vec<u8>,
        start_ms: u64,
        frame_duration_ms: u64,
        key: bool,
        time_base: TimeBase,
    ) -> (r: Option<Packet>)
        ensures
            r is Some <==> packable(h264@.len(), start_ms, frame_duration_ms, time_base),
            r matches Some(p) ==> p == packet_for(
                h264@.len(),
                start_ms,
                frame_duration_ms,
                key,
                time_base,
            ),
    {
        let mut packet = default_av_packet();
        if key {
            packet.flags = AV_PKT_FLAG_KEY;
        }
        if h264.len() > i32::MAX as usize {
            return None;
        }
        match scale(start_ms, time_base) {
            None => None,
            Some(pts) => match scale(frame_duration_ms, time_base) {
                None => None,
                Some(duration) => {
                    packet.pts = pts;
                    packet.dts = pts;
                    packet.duration = duration;
                    packet.pos = -1;
                    packet.stream_index = 0;
                    packet.size = h264.len() as i32;
                    Some(packet)
                },
            },
        }
    }

    /// Takes a piece of the muxer's output: the bytes go behind those
    /// gathered so far. Returns the number of bytes taken, or -1 where the
    /// piece was refused and nothing changed.
    pub fn write_output(&mut self, input: &[u8]) -> (r: i32)
        ensures
            final(self).width() == old(self).width(),
            final(self).height() == old(self).height(),
            final(self).shared() == old(self).shared(),
            r >= 0 <==> old(self).output().accepts(input@) && input@.len() <= i32::MAX,
            r >= 0 ==> r == input@.len() && final(self).output() == old(self).output().append(input@),
            r < 0 ==> r == -1 && final(self).output() == old(self).output(),
    {
        if input.len() > i32::MAX as usize {
            return -1;
        }
        match self.output.append(input) {
            Ok(()) => input.len() as i32,
            Err(_) => -1,
        }
    }

    /// Closes the session: the buffer is marked as finished and its whole
    /// content is returned.
    pub fn flush(&mut self) -> (r: Bytes)
        ensures
            final(self).width() == old(self).width(),
            final(self).height() == old(self).height(),
            final(self).shared() == old(self).shared(),
            final(self).output() == old(self).output().finish(),
            bytes_contents(r) == old(self).output().bytes,
    {
        self.output.finish();
        self.output.bytes.clone()
    }

    /// Shows readers the bytes gathered so far: the shared buffer is made to
    /// hold what this session holds. Returns `false` where the shared buffer
    /// can no longer be written, because a thread panicked while holding it.
    pub fn publish(&self) -> bool {
        store(&self.shared, self.output.snapshot())
    }
}

} // verus!
