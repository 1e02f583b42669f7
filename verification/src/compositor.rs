//! Frame overlay compositor: a lazy, single-pass transform over the
//! decoded frame stream. Each incoming raw frame is optionally
//! chroma-keyed, the active OSD frame is blended over it, and the
//! active telemetry record is selected by a monotonic cursor-based
//! merge of the time-ordered sources. The compositor polls the inbound
//! control channel between frames and stops early on a cancel command.

use vstd::prelude::*;

use crate::channel::try_recv_command;
use crate::messages::ToFfmpegMessage;
use crate::overlay::dims_wf;
use crate::srt_data::{frame_contains_time, frames_time_sorted, SrtFrame};

verus! {

/// An uncompressed frame: `width * height` RGBA pixels, 8 bits per
/// channel, row-major, no padding.
pub struct RawFrame {
    pub width: u32,
    pub height: u32,
    pub data: Vec<u8>,
}

impl RawFrame {
    /// The buffer holds exactly its pixels, and the dimensions are in
    /// the supported range.
    pub open spec fn wf(self) -> bool {
        &&& dims_wf(self.width, self.height)
        &&& self.data@.len() == (self.width as int) * (self.height as int) * 4
    }

    /// Wraps a raw pixel buffer after checking that it holds exactly
    /// `width * height` RGBA pixels and that the dimensions are in the
    /// supported range.
    pub fn new(width: u32, height: u32, data: Vec<u8>) -> (r: Option<RawFrame>)
        ensures
            r is Some <==> (dims_wf(width, height) && data@.len() == (width as int) * (
            height as int) * 4),
            r is Some ==> r->Some_0.width == width && r->Some_0.height == height
                && r->Some_0.data@ == data@,
    {
        if width == 0 || width > 65536 || height == 0 || height > 65536 {
            return None;
        }
        proof {
            vstd::arithmetic::mul::lemma_mul_upper_bound(width as int, 65536, height as int, 65536);
        }
        let expected: u64 = (width as u64) * (height as u64) * 4;
        if data.len() as u64 == expected {
            Some(RawFrame { width, height, data })
        } else {
            None
        }
    }
}

/// The chroma key color; a pixel within the tolerance of this color on
/// every color channel is treated as transparent.
pub struct ChromaKey {
    pub r: u8,
    pub g: u8,
    pub b: u8,
}

/// Per-channel tolerance of the chroma key match.
pub const CHROMA_TOLERANCE: u8 = 4;

/// The channel value `c` is within the chroma tolerance of `k`.
pub open spec fn spec_near(c: u8, k: u8) -> bool {
    k as int - CHROMA_TOLERANCE as int <= c as int <= k as int + CHROMA_TOLERANCE as int
}

fn near(c: u8, k: u8) -> (r: bool)
    ensures
        r == spec_near(c, k),
{
    let d = if c > k {
        c - k
    } else {
        k - c
    };
    d <= CHROMA_TOLERANCE
}

/// Pixel `p` of the buffer matches the chroma key on all three color
/// channels.
pub open spec fn chroma_matches(data: Seq<u8>, p: int, key: ChromaKey) -> bool {
    &&& spec_near(data[4 * p], key.r)
    &&& spec_near(data[4 * p + 1], key.g)
    &&& spec_near(data[4 * p + 2], key.b)
}

/// Porter-Duff "over" on one color channel, with the overlay's alpha
/// `a`: the overlay color weighted by `a` plus the base color weighted
/// by the remainder.
pub open spec fn blend_color(o: u8, b: u8, a: u8) -> u8 {
    (((o as int) * (a as int) + (b as int) * (255 - a as int)) / 255) as u8
}

/// Porter-Duff "over" on the alpha channel.
pub open spec fn blend_alpha(o_a: u8, b_a: u8) -> u8 {
    (o_a as int + (b_a as int) * (255 - o_a as int) / 255) as u8
}

fn blend_color_exec(o: u8, b: u8, a: u8) -> (r: u8)
    ensures
        r == blend_color(o, b, a),
{
    proof {
        vstd::arithmetic::mul::lemma_mul_inequality(o as int, 255, a as int);
        vstd::arithmetic::mul::lemma_mul_inequality(b as int, 255, 255 - a as int);
    }
    let num: u32 = (o as u32) * (a as u32) + (b as u32) * (255 - a as u32);
    proof {
        vstd::arithmetic::div_mod::lemma_div_is_ordered(num as int, 65025, 255);
    }
    (num / 255) as u8
}

fn blend_alpha_exec(o_a: u8, b_a: u8) -> (r: u8)
    ensures
        r == blend_alpha(o_a, b_a),
{
    proof {
        vstd::arithmetic::mul::lemma_mul_inequality(b_a as int, 255, 255 - o_a as int);
        vstd::arithmetic::div_mod::lemma_div_is_ordered(
            (b_a as int) * (255 - o_a as int),
            255 * (255 - o_a as int),
            255,
        );
        vstd::arithmetic::div_mod::lemma_div_multiples_vanish(255 - o_a as int, 255);
    }
    let num: u32 = (b_a as u32) * (255 - o_a as u32);
    o_a + (num / 255) as u8
}

/// The view of an optional OSD frame's pixels.
pub open spec fn osd_data_view(osd: Option<&RawFrame>) -> Option<Seq<u8>> {
    match osd {
        Option::Some(o) => Option::Some(o.data@),
        Option::None => Option::None,
    }
}

/// The view of an optional chroma key.
pub open spec fn key_view(key: Option<&ChromaKey>) -> Option<ChromaKey> {
    match key {
        Option::Some(k) => Option::Some(*k),
        Option::None => Option::None,
    }
}

/// Pixel `p` of `out` is the composite of pixel `p` of `src`: the
/// source alpha is dropped to zero when the pixel matches the chroma
/// key, and the OSD pixel, when there is an OSD frame, is blended over
/// with Porter-Duff "over" using its own alpha.
pub open spec fn composited_pixel_ok(
    src: Seq<u8>,
    osd: Option<Seq<u8>>,
    key: Option<ChromaKey>,
    out: Seq<u8>,
    p: int,
) -> bool {
    let i = 4 * p;
    let keyed_alpha = if key is Some && chroma_matches(src, p, key->0) {
        0u8
    } else {
        src[i + 3]
    };
    match osd {
        Option::None => {
            &&& out[i] == src[i]
            &&& out[i + 1] == src[i + 1]
            &&& out[i + 2] == src[i + 2]
            &&& out[i + 3] == keyed_alpha
        },
        Option::Some(o) => {
            let a = o[i + 3];
            &&& out[i] == blend_color(o[i], src[i], a)
            &&& out[i + 1] == blend_color(o[i + 1], src[i + 1], a)
            &&& out[i + 2] == blend_color(o[i + 2], src[i + 2], a)
            &&& out[i + 3] == blend_alpha(a, keyed_alpha)
        },
    }
}

/// Composites one frame: applies the chroma key to the source's alpha,
/// then blends the OSD frame, when given, over it. The output frame
/// has the source's dimensions, and every pixel is determined by the
/// inputs.
pub fn composite_frame(frame: &RawFrame, osd: Option<&RawFrame>, key: Option<&ChromaKey>) -> (out:
    RawFrame)
    requires
        frame.wf(),
        osd matches Option::Some(o) ==> o.wf() && o.width == frame.width && o.height
            == frame.height,
    ensures
        out.width == frame.width,
        out.height == frame.height,
        out.wf(),
        forall|p: int|
            0 <= p < (frame.width as int) * (frame.height as int) ==> composited_pixel_ok(
                frame.data@,
                osd_data_view(osd),
                key_view(key),
                out.data@,
                p,
            ),
{
    let n = frame.data.len();
    let npix = n / 4;
    proof {
        vstd::arithmetic::div_mod::lemma_div_by_multiple(
            (frame.width as int) * (frame.height as int),
            4,
        );
    }
    let mut out_data: Vec<u8> = Vec::new();
    let mut p: usize = 0;
    while p < npix
        invariant
            frame.wf(),
            osd matches Option::Some(o) ==> o.wf() && o.width == frame.width && o.height
                == frame.height,
            n == frame.data@.len(),
            npix == (frame.width as int) * (frame.height as int),
            n == 4 * npix,
            p <= npix,
            out_data@.len() == 4 * p,
            forall|q: int|
                0 <= q < p ==> composited_pixel_ok(
                    frame.data@,
                    osd_data_view(osd),
                    key_view(key),
                    out_data@,
                    q,
                ),
        decreases npix - p,
    {
        let i = 4 * p;
        let sr = frame.data[i];
        let sg = frame.data[i + 1];
        let sb = frame.data[i + 2];
        let sa = frame.data[i + 3];
        let keyed_alpha = match key {
            Some(k) => {
                if near(sr, k.r) && near(sg, k.g) && near(sb, k.b) {
                    0u8
                } else {
                    sa
                }
            },
            None => sa,
        };
        let ghost pre = out_data@;
        match osd {
            Some(o) => {
                let oa = o.data[i + 3];
                out_data.push(blend_color_exec(o.data[i], sr, oa));
                out_data.push(blend_color_exec(o.data[i + 1], sg, oa));
                out_data.push(blend_color_exec(o.data[i + 2], sb, oa));
                out_data.push(blend_alpha_exec(oa, keyed_alpha));
            },
            None => {
                out_data.push(sr);
                out_data.push(sg);
                out_data.push(sb);
                out_data.push(keyed_alpha);
            },
        }
        proof {
            assert(composited_pixel_ok(
                frame.data@,
                osd_data_view(osd),
                key_view(key),
                out_data@,
                p as int,
            ));
            assert forall|q: int| 0 <= q < p implies composited_pixel_ok(
                frame.data@,
                osd_data_view(osd),
                key_view(key),
                out_data@,
                q,
            ) by {
                assert(composited_pixel_ok(
                    frame.data@,
                    osd_data_view(osd),
                    key_view(key),
                    pre,
                    q,
                ));
                assert(out_data@[4 * q] == pre[4 * q]);
                assert(out_data@[4 * q + 1] == pre[4 * q + 1]);
                assert(out_data@[4 * q + 2] == pre[4 * q + 2]);
                assert(out_data@[4 * q + 3] == pre[4 * q + 3]);
            }
        }
        p += 1;
    }
    RawFrame { width: frame.width, height: frame.height, data: out_data }
}

/// A pre-rendered OSD overlay frame with its display time: it is shown
/// from its start time until the next OSD frame's start time.
pub struct OsdFrame {
    pub start_time_ms: u64,
    pub frame: RawFrame,
}

/// OSD frames are sorted by display time.
pub open spec fn osd_sorted(frames: Seq<OsdFrame>) -> bool {
    forall|i: int|
        0 <= i && i + 1 < frames.len() ==> (#[trigger] frames[i]).start_time_ms <= frames[i
            + 1].start_time_ms
}

/// Display times do not decrease across any gap in a sorted OSD
/// sequence.
pub proof fn lemma_osd_starts_monotone(frames: Seq<OsdFrame>, i: int, j: int)
    requires
        osd_sorted(frames),
        0 <= i <= j < frames.len(),
    ensures
        frames[i].start_time_ms <= frames[j].start_time_ms,
    decreases j - i,
{
    if i < j {
        lemma_osd_starts_monotone(frames, i + 1, j);
    }
}

/// The active OSD frame at time `e`: the latest one whose display
/// time is at or before `e`, or none before the first frame's time.
pub open spec fn active_osd_index(frames: Seq<OsdFrame>, e: int) -> Option<int>
    decreases frames.len(),
{
    if frames.len() == 0 {
        Option::None
    } else if frames.last().start_time_ms <= e {
        Option::Some(frames.len() - 1)
    } else {
        active_osd_index(frames.drop_last(), e)
    }
}

/// Characterizes the active OSD frame of a sorted sequence: it is the
/// frame at `k` exactly when its display time has come and the next
/// frame's, if any, has not.
pub proof fn lemma_active_osd_char(frames: Seq<OsdFrame>, e: int, k: int)
    requires
        osd_sorted(frames),
        0 <= k < frames.len(),
        frames[k].start_time_ms <= e,
        k + 1 == frames.len() || frames[k + 1].start_time_ms > e,
    ensures
        active_osd_index(frames, e) == Option::Some(k),
    decreases frames.len(),
{
    if k + 1 < frames.len() {
        lemma_osd_starts_monotone(frames, k + 1, frames.len() - 1);
        let prefix = frames.drop_last();
        assert forall|i: int| 0 <= i && i + 1 < prefix.len() implies (#[trigger] prefix[i]).start_time_ms
            <= prefix[i + 1].start_time_ms by {
            assert(frames[i].start_time_ms <= frames[i + 1].start_time_ms);
        }
        lemma_active_osd_char(prefix, e, k);
    }
}

/// No OSD frame is active before the first frame's display time.
pub proof fn lemma_active_osd_none(frames: Seq<OsdFrame>, e: int)
    requires
        forall|i: int| 0 <= i < frames.len() ==> (#[trigger] frames[i]).start_time_ms > e,
    ensures
        active_osd_index(frames, e) is None,
    decreases frames.len(),
{
    if frames.len() > 0 {
        lemma_active_osd_none(frames.drop_last(), e);
    }
}

/// The pixels of the active OSD frame at time `e`, when there is one.
pub open spec fn osd_view_at(frames: Seq<OsdFrame>, e: int) -> Option<Seq<u8>> {
    match active_osd_index(frames, e) {
        Option::Some(k) => Option::Some(frames[k].frame.data@),
        Option::None => Option::None,
    }
}

/// Elapsed milliseconds at a frame index, for a frame rate given as a
/// rational `num / den` frames per second.
pub open spec fn spec_elapsed_ms(index: u64, num: u32, den: u32) -> int {
    (index as int) * 1000 * (den as int) / (num as int)
}

/// A cancel command.
pub open spec fn is_abort(cmd: Option<ToFfmpegMessage>) -> bool {
    cmd matches Option::Some(ToFfmpegMessage::AbortRender)
}

/// One composited output frame together with the index of the
/// telemetry record active while it is shown, if any.
pub struct CompositedFrame {
    pub frame: RawFrame,
    pub srt_index: Option<usize>,
}

/// The frame overlay compositor: merges the decoded frame stream with
/// the time-sorted OSD and telemetry sources by monotonic cursors,
/// composites each frame, and polls the inbound control channel for a
/// cancel command between frames.
pub struct FrameOverlayIter {
    pub osd_frames: Vec<OsdFrame>,
    pub srt_frames: Vec<SrtFrame>,
    pub osd_cursor: usize,
    pub srt_cursor: usize,
    pub frame_index: u64,
    pub frame_rate_num: u32,
    pub frame_rate_den: u32,
    pub width: u32,
    pub height: u32,
    pub chroma_key: Option<ChromaKey>,
    pub cancelled: bool,
    pub commands: crossbeam_channel::Receiver<ToFfmpegMessage>,
}

impl FrameOverlayIter {
    /// The compositor's invariant: sources sorted, cursors in range
    /// and already past every record that ended before the current
    /// elapsed time, OSD frames matching the video dimensions.
    pub open spec fn wf(self) -> bool {
        let e = spec_elapsed_ms(self.frame_index, self.frame_rate_num, self.frame_rate_den);
        &&& self.frame_rate_num >= 1
        &&& self.frame_rate_den >= 1
        &&& dims_wf(self.width, self.height)
        &&& frames_time_sorted(self.srt_frames@)
        &&& osd_sorted(self.osd_frames@)
        &&& forall|i: int|
            0 <= i < self.osd_frames@.len() ==> (#[trigger] self.osd_frames@[i]).frame.wf()
                && self.osd_frames@[i].frame.width == self.width
                && self.osd_frames@[i].frame.height == self.height
        &&& self.srt_cursor <= self.srt_frames@.len()
        &&& forall|j: int|
            0 <= j < self.srt_cursor ==> (#[trigger] self.srt_frames@[j]).end_time_ms <= e
        &&& if self.osd_frames@.len() == 0 {
            self.osd_cursor == 0
        } else {
            self.osd_cursor < self.osd_frames@.len()
        }
        &&& (self.osd_cursor == 0 || self.osd_frames@[self.osd_cursor as int].start_time_ms <= e)
    }

    /// Builds a compositor over sorted sources for one render session,
    /// positioned at the first frame and not cancelled.
    pub fn new(
        osd_frames: Vec<OsdFrame>,
        srt_frames: Vec<SrtFrame>,
        frame_rate_num: u32,
        frame_rate_den: u32,
        width: u32,
        height: u32,
        chroma_key: Option<ChromaKey>,
        commands: crossbeam_channel::Receiver<ToFfmpegMessage>,
    ) -> (r: FrameOverlayIter)
        requires
            frame_rate_num >= 1,
            frame_rate_den >= 1,
            dims_wf(width, height),
            frames_time_sorted(srt_frames@),
            osd_sorted(osd_frames@),
            forall|i: int|
                0 <= i < osd_frames@.len() ==> (#[trigger] osd_frames@[i]).frame.wf()
                    && osd_frames@[i].frame.width == width && osd_frames@[i].frame.height
                    == height,
        ensures
            r.wf(),
            !r.cancelled,
            r.frame_index == 0,
            r.osd_frames@ == osd_frames@,
            r.srt_frames@ == srt_frames@,
            r.width == width,
            r.height == height,
            r.chroma_key == chroma_key,
    {
        FrameOverlayIter {
            osd_frames,
            srt_frames,
            osd_cursor: 0,
            srt_cursor: 0,
            frame_index: 0,
            frame_rate_num,
            frame_rate_den,
            width,
            height,
            chroma_key,
            cancelled: false,
            commands,
        }
    }

    /// The elapsed time of the frame about to be processed.
    fn elapsed_ms(&self) -> (e: u128)
        requires
            self.frame_rate_num >= 1,
        ensures
            e == spec_elapsed_ms(self.frame_index, self.frame_rate_num, self.frame_rate_den),
    {
        proof {
            vstd::arithmetic::mul::lemma_mul_upper_bound(
                (self.frame_index as int) * 1000,
                0xFFFF_FFFF_FFFF_FFFFint * 1000,
                self.frame_rate_den as int,
                0xFFFF_FFFFint,
            );
        }
        ((self.frame_index as u128) * 1000 * (self.frame_rate_den as u128)) / (
        self.frame_rate_num as u128)
    }

    /// Advances the telemetry cursor past every record whose interval
    /// ended by time `e`, then selects the record containing `e`, if
    /// one does. Over a sorted, non-overlapping record sequence the
    /// selection matches the unique interval containing `e`, or none
    /// when `e` falls in a gap.
    fn select_srt(&mut self, e: u128) -> (r: Option<usize>)
        requires
            old(self).wf(),
            e >= spec_elapsed_ms(
                old(self).frame_index,
                old(self).frame_rate_num,
                old(self).frame_rate_den,
            ),
        ensures
            *final(self) == (FrameOverlayIter { srt_cursor: final(self).srt_cursor, ..*old(self) }),
            final(self).srt_cursor <= final(self).srt_frames@.len(),
            forall|j: int|
                0 <= j < final(self).srt_cursor ==> (#[trigger] final(self).srt_frames@[j]).end_time_ms <= e,
            (r matches Option::Some(i) ==> i < final(self).srt_frames@.len()
                && frame_contains_time(final(self).srt_frames@[i as int], e as int)),
            r is None ==> forall|i: int|
                0 <= i < final(self).srt_frames@.len() ==> !frame_contains_time(
                    #[trigger] final(self).srt_frames@[i],
                    e as int,
                ),
    {
        let n = self.srt_frames.len();
        while self.srt_cursor < n && (self.srt_frames[self.srt_cursor].end_time_ms as u128) <= e
            invariant
                n == self.srt_frames@.len(),
                self.srt_cursor <= n,
                *self == (FrameOverlayIter { srt_cursor: self.srt_cursor, ..*old(self) }),
                forall|j: int|
                    0 <= j < self.srt_cursor ==> (#[trigger] self.srt_frames@[j]).end_time_ms
                        <= e,
            decreases n - self.srt_cursor,
        {
            self.srt_cursor = self.srt_cursor + 1;
        }
        let c = self.srt_cursor;
        if c < n && (self.srt_frames[c].start_time_ms as u128) <= e {
            Some(c)
        } else {
            proof {
                let frames = self.srt_frames@;
                assert forall|i: int| 0 <= i < frames.len() implies !frame_contains_time(
                    #[trigger] frames[i],
                    e as int,
                ) by {
                    if i >= c && c < frames.len() {
                        if i > c {
                            crate::srt_data::lemma_sorted_starts_increase(frames, c as int, i);
                        }
                    }
                }
            }
            None
        }
    }

    /// Advances the OSD cursor to the latest OSD frame whose display
    /// time is at or before `e`, and selects it; none is selected
    /// before the first OSD frame's time.
    fn select_osd(&mut self, e: u128) -> (r: Option<usize>)
        requires
            old(self).wf(),
            e >= spec_elapsed_ms(
                old(self).frame_index,
                old(self).frame_rate_num,
                old(self).frame_rate_den,
            ),
        ensures
            *final(self) == (FrameOverlayIter { osd_cursor: final(self).osd_cursor, ..*old(self) }),
            if final(self).osd_frames@.len() == 0 {
                final(self).osd_cursor == 0
            } else {
                final(self).osd_cursor < final(self).osd_frames@.len()
            },
            (r matches Option::Some(k) ==> k == final(self).osd_cursor && k < final(self).osd_frames@.len() && final(self).osd_frames@[k as int].start_time_ms <= e && (k + 1 == final(self).osd_frames@.len() || final(self).osd_frames@[k + 1].start_time_ms > e) && active_osd_index(final(self).osd_frames@, e as int) == Option::Some(k as int)),
            r is None ==> final(self).osd_cursor == 0 && active_osd_index(final(self).osd_frames@, e as int) is None,
    {
        let n = self.osd_frames.len();
        if n == 0 {
            return None;
        }
        while self.osd_cursor + 1 < n && (self.osd_frames[self.osd_cursor + 1].start_time_ms
            as u128) <= e
            invariant
                n == self.osd_frames@.len(),
                n > 0,
                self.osd_cursor < n,
                *self == (FrameOverlayIter { osd_cursor: self.osd_cursor, ..*old(self) }),
                self.osd_cursor == 0 || self.osd_frames@[self.osd_cursor as int].start_time_ms
                    <= e,
            decreases n - self.osd_cursor,
        {
            self.osd_cursor = self.osd_cursor + 1;
        }
        let c = self.osd_cursor;
        if (self.osd_frames[c].start_time_ms as u128) <= e {
            proof {
                lemma_active_osd_char(self.osd_frames@, e as int, c as int);
            }
            Some(c)
        } else {
            proof {
                assert(c == 0);
                assert forall|i: int| 0 <= i < self.osd_frames@.len() implies (#[trigger] self
                    .osd_frames@[i]).start_time_ms > e by {
                    lemma_osd_starts_monotone(self.osd_frames@, 0, i);
                }
                lemma_active_osd_none(self.osd_frames@, e as int);
            }
            None
        }
    }
}

/// One compositor step's output is correct for the input frame at
/// elapsed time `e`: dimensions are kept, the selected telemetry
/// record is the unique one containing `e` (none when `e` falls in a
/// gap), and every pixel is the composite of the input pixel, the
/// active OSD frame at `e` and the chroma key.
pub open spec fn step_output_ok(
    srt_frames: Seq<SrtFrame>,
    osd_frames: Seq<OsdFrame>,
    chroma_key: Option<ChromaKey>,
    input: RawFrame,
    output: CompositedFrame,
    e: int,
) -> bool {
    &&& output.frame.width == input.width
    &&& output.frame.height == input.height
    &&& output.frame.wf()
    &&& (output.srt_index matches Option::Some(i) ==> i < srt_frames.len()
        && frame_contains_time(srt_frames[i as int], e))
    &&& (output.srt_index is None ==> forall|i: int|
        0 <= i < srt_frames.len() ==> !frame_contains_time(#[trigger] srt_frames[i], e))
    &&& forall|p: int|
        0 <= p < (input.width as int) * (input.height as int) ==> composited_pixel_ok(
            input.data@,
            osd_view_at(osd_frames, e),
            chroma_key,
            output.frame.data@,
            p,
        )
}

impl FrameOverlayIter {
    /// Processes one decoded frame under an explicit control command:
    /// a cancel command, or one already received, stops the sequence
    /// and yields nothing; otherwise the frame is composited with the
    /// active OSD frame and chroma key, the active telemetry record is
    /// selected, and the compositor advances to the next frame.
    pub fn next_frame_with_command(
        &mut self,
        frame: &RawFrame,
        cmd: Option<ToFfmpegMessage>,
    ) -> (r: Option<CompositedFrame>)
        requires
            old(self).wf(),
            frame.wf(),
            frame.width == old(self).width,
            frame.height == old(self).height,
            old(self).frame_index < u64::MAX,
        ensures
            final(self).wf(),
            final(self).cancelled == (old(self).cancelled || is_abort(cmd)),
            final(self).width == old(self).width,
            final(self).height == old(self).height,
            final(self).osd_frames@ == old(self).osd_frames@,
            final(self).srt_frames@ == old(self).srt_frames@,
            final(self).frame_rate_num == old(self).frame_rate_num,
            final(self).frame_rate_den == old(self).frame_rate_den,
            final(self).chroma_key == old(self).chroma_key,
            final(self).frame_index <= old(self).frame_index + 1,
            (r is None <==> final(self).cancelled),
            final(self).cancelled ==> *final(self) == (FrameOverlayIter {
                cancelled: true,
                ..*old(self)
            }),
            !final(self).cancelled ==> ({
                let e = spec_elapsed_ms(
                    old(self).frame_index,
                    old(self).frame_rate_num,
                    old(self).frame_rate_den,
                );
                &&& final(self).frame_index == old(self).frame_index + 1
                &&& step_output_ok(
                    old(self).srt_frames@,
                    old(self).osd_frames@,
                    old(self).chroma_key,
                    *frame,
                    r->Some_0,
                    e,
                )
            }),
    {
        let cancel_now = match &cmd {
            Some(ToFfmpegMessage::AbortRender) => true,
            None => false,
        };
        if self.cancelled || cancel_now {
            self.cancelled = true;
            return None;
        }
        let e = self.elapsed_ms();
        let srt_index = self.select_srt(e);
        let osd_index = self.select_osd(e);
        let key_ref = match &self.chroma_key {
            Some(k) => Some(k),
            None => None,
        };
        let osd_ref = match osd_index {
            Some(k) => Some(&self.osd_frames[k].frame),
            None => None,
        };
        let out = composite_frame(frame, osd_ref, key_ref);
        proof {
            assert(key_view(key_ref) == old(self).chroma_key);
            assert(osd_data_view(osd_ref) == osd_view_at(old(self).osd_frames@, e as int));
        }
        proof {
            let e_old = spec_elapsed_ms(
                self.frame_index,
                self.frame_rate_num,
                self.frame_rate_den,
            );
            let e_new = spec_elapsed_ms(
                (self.frame_index + 1) as u64,
                self.frame_rate_num,
                self.frame_rate_den,
            );
            vstd::arithmetic::mul::lemma_mul_inequality(
                (self.frame_index as int) * 1000,
                (self.frame_index + 1) * 1000,
                self.frame_rate_den as int,
            );
            vstd::arithmetic::div_mod::lemma_div_is_ordered(
                (self.frame_index as int) * 1000 * (self.frame_rate_den as int),
                (self.frame_index + 1) * 1000 * (self.frame_rate_den as int),
                self.frame_rate_num as int,
            );
            assert(e_old <= e_new);
        }
        self.frame_index = self.frame_index + 1;
        let result = CompositedFrame { frame: out, srt_index };
        proof {
            let e_spec = spec_elapsed_ms(
                old(self).frame_index,
                old(self).frame_rate_num,
                old(self).frame_rate_den,
            );
            assert forall|p: int|
                0 <= p < (frame.width as int) * (frame.height as int) implies composited_pixel_ok(
                frame.data@,
                osd_view_at(old(self).osd_frames@, e_spec),
                old(self).chroma_key,
                result.frame.data@,
                p,
            ) by {
                assert(composited_pixel_ok(
                    frame.data@,
                    osd_data_view(osd_ref),
                    key_view(key_ref),
                    out.data@,
                    p,
                ));
            }
            assert(step_output_ok(
                old(self).srt_frames@,
                old(self).osd_frames@,
                old(self).chroma_key,
                *frame,
                result,
                e_spec,
            ));
        }
        Some(result)
    }

    /// Processes one decoded frame, first polling the inbound control
    /// channel: whatever command arrived, either the sequence stops
    /// (yielding nothing, and nothing ever after) or the composited
    /// frame is produced exactly as under an explicit command.
    pub fn next_frame(&mut self, frame: &RawFrame) -> (r: Option<CompositedFrame>)
        requires
            old(self).wf(),
            frame.wf(),
            frame.width == old(self).width,
            frame.height == old(self).height,
            old(self).frame_index < u64::MAX,
        ensures
            final(self).wf(),
            old(self).cancelled ==> final(self).cancelled,
            final(self).width == old(self).width,
            final(self).height == old(self).height,
            final(self).osd_frames@ == old(self).osd_frames@,
            final(self).srt_frames@ == old(self).srt_frames@,
            final(self).frame_rate_num == old(self).frame_rate_num,
            final(self).frame_rate_den == old(self).frame_rate_den,
            final(self).chroma_key == old(self).chroma_key,
            final(self).frame_index <= old(self).frame_index + 1,
            (r is None <==> final(self).cancelled),
            !final(self).cancelled ==> ({
                let e = spec_elapsed_ms(
                    old(self).frame_index,
                    old(self).frame_rate_num,
                    old(self).frame_rate_den,
                );
                &&& final(self).frame_index == old(self).frame_index + 1
                &&& step_output_ok(
                    old(self).srt_frames@,
                    old(self).osd_frames@,
                    old(self).chroma_key,
                    *frame,
                    r->Some_0,
                    e,
                )
            }),
    {
        let cmd = try_recv_command(&self.commands);
        self.next_frame_with_command(frame, cmd)
    }
}

/// The index of the first cancel command in a command sequence, or its
/// length when none occurs.
pub open spec fn first_abort(cmds: Seq<Option<ToFfmpegMessage>>) -> int
    decreases cmds.len(),
{
    if cmds.len() == 0 {
        0
    } else if is_abort(cmds[0]) {
        0
    } else {
        1 + first_abort(cmds.subrange(1, cmds.len() as int))
    }
}

/// `first_abort` points at the first cancel command: nothing before it
/// is one, and, when it is inside the sequence, it is one.
pub proof fn lemma_first_abort(cmds: Seq<Option<ToFfmpegMessage>>)
    ensures
        0 <= first_abort(cmds) <= cmds.len(),
        first_abort(cmds) < cmds.len() ==> is_abort(cmds[first_abort(cmds)]),
        forall|k: int| 0 <= k < first_abort(cmds) ==> !is_abort(#[trigger] cmds[k]),
    decreases cmds.len(),
{
    if cmds.len() > 0 && !is_abort(cmds[0]) {
        let tail = cmds.subrange(1, cmds.len() as int);
        lemma_first_abort(tail);
        assert forall|k: int| 0 <= k < first_abort(cmds) implies !is_abort(#[trigger] cmds[k]) by {
            if k > 0 {
                assert(cmds[k] == tail[k - 1]);
            }
        }
    }
}

impl FrameOverlayIter {
    /// Drives the compositor over a whole decoded sequence with one
    /// command polled per frame. Up to the first cancel command the
    /// compositor yields exactly one composited frame per input frame,
    /// in order; from the first cancel command on it yields nothing:
    /// the output count is the input count, cut at the first cancel.
    pub fn composite_all(
        &mut self,
        frames: &Vec<RawFrame>,
        commands: &Vec<Option<ToFfmpegMessage>>,
    ) -> (out: Vec<CompositedFrame>)
        requires
            old(self).wf(),
            !old(self).cancelled,
            commands@.len() == frames@.len(),
            forall|i: int|
                0 <= i < frames@.len() ==> (#[trigger] frames@[i]).wf() && frames@[i].width
                    == old(self).width && frames@[i].height == old(self).height,
            old(self).frame_index + frames@.len() <= u64::MAX,
        ensures
            final(self).wf(),
            out@.len() == (if first_abort(commands@) < frames@.len() {
                first_abort(commands@)
            } else {
                frames@.len() as int
            }),
            forall|j: int|
                0 <= j < out@.len() ==> step_output_ok(
                    old(self).srt_frames@,
                    old(self).osd_frames@,
                    old(self).chroma_key,
                    frames@[j],
                    #[trigger] out@[j],
                    spec_elapsed_ms(
                        (old(self).frame_index + j) as u64,
                        old(self).frame_rate_num,
                        old(self).frame_rate_den,
                    ),
                ),
    {
        proof {
            lemma_first_abort(commands@);
        }
        let ghost fa = first_abort(commands@);
        let n = frames.len();
        let mut out: Vec<CompositedFrame> = Vec::new();
        let mut i: usize = 0;
        while i < n
            invariant
                n == frames@.len(),
                n == commands@.len(),
                i <= n,
                fa == first_abort(commands@),
                0 <= fa <= n,
                fa < n ==> is_abort(commands@[fa]),
                forall|k: int| 0 <= k < fa ==> !is_abort(#[trigger] commands@[k]),
                self.wf(),
                self.width == old(self).width,
                self.height == old(self).height,
                self.srt_frames@ == old(self).srt_frames@,
                self.osd_frames@ == old(self).osd_frames@,
                self.chroma_key == old(self).chroma_key,
                self.frame_rate_num == old(self).frame_rate_num,
                self.frame_rate_den == old(self).frame_rate_den,
                self.frame_index <= old(self).frame_index + i,
                !self.cancelled ==> self.frame_index == old(self).frame_index + i,
                old(self).frame_index + n <= u64::MAX,
                self.cancelled == (fa < i),
                forall|j: int|
                    0 <= j < out@.len() ==> step_output_ok(
                        old(self).srt_frames@,
                        old(self).osd_frames@,
                        old(self).chroma_key,
                        frames@[j],
                        #[trigger] out@[j],
                        spec_elapsed_ms(
                            (old(self).frame_index + j) as u64,
                            old(self).frame_rate_num,
                            old(self).frame_rate_den,
                        ),
                    ),
                out@.len() == (if fa < i {
                    fa
                } else {
                    i as int
                }),
                forall|k: int|
                    0 <= k < frames@.len() ==> (#[trigger] frames@[k]).wf() && frames@[k].width
                        == old(self).width && frames@[k].height == old(self).height,
            decreases n - i,
        {
            let r = self.next_frame_with_command(&frames[i], commands[i]);
            match r {
                Some(cf) => out.push(cf),
                None => {},
            }
            i += 1;
        }
        out
    }
}

} // verus!
