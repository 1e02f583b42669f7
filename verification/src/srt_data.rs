//! Telemetry data model: time-ordered telemetry records extracted from
//! an SRT telemetry file, and the display option toggles.
//!
//! Fractional sensor readings are held in fixed-point integers (tenths,
//! hundredths or thousandths of the unit), which is exactly the
//! precision the overlay renders.

use vstd::prelude::*;

verus! {

/// Flight telemetry carried by a regular record.
#[derive(Clone, Debug)]
pub struct SrtFrameData {
    /// Flight time in whole seconds.
    pub flight_time: u32,
    /// Sky-side battery voltage in tenths of a volt.
    pub sky_bat: u32,
    /// Ground-side battery voltage in tenths of a volt.
    pub ground_bat: u32,
    /// Signal strength.
    pub signal: u32,
    /// Link latency in milliseconds.
    pub latency: u32,
    /// Video bitrate in tenths of a megabit per second.
    pub bitrate_mbps: u32,
    /// Distance from home in meters.
    pub distance: u32,
}

/// Extended sensor telemetry carried by a debug record.
#[derive(Clone, Debug)]
pub struct SrtDebugFrameData {
    /// Radio channel id.
    pub channel: u32,
    /// Ground signal-to-noise ratio in tenths of a dB.
    pub gsnr: i32,
    /// Sky signal-to-noise ratio in tenths of a dB.
    pub ssnr: i32,
    /// Ground temperature in tenths of a degree.
    pub gtemp: i32,
    /// Sky temperature in tenths of a degree.
    pub stemp: i32,
    /// Frame counter.
    pub frame: u32,
    /// Ground error code.
    pub gerr: u32,
    /// Sky error code.
    pub serr: u32,
    /// Extended sky error code.
    pub serr_ext: u32,
    /// Sensor ISO value.
    pub iso: u32,
    /// ISO mode.
    pub iso_mode: u32,
    /// ISO exposure value.
    pub iso_exp: u32,
    /// Sensor gain in hundredths.
    pub gain: u32,
    /// Exposure time in thousandths of a millisecond.
    pub gain_exp: u32,
    /// Measured lux.
    pub gain_lx: u32,
    /// Color temperature in kelvin.
    pub cct: u32,
    /// Red balance in hundredths.
    pub rb: u32,
    /// Blue balance in hundredths.
    pub rb_ext: u32,
}

/// One telemetry record with its validity interval, in milliseconds
/// from the start of the video.
#[derive(Clone, Debug)]
pub struct SrtFrame {
    pub start_time_ms: u64,
    pub end_time_ms: u64,
    pub data: Option<SrtFrameData>,
    pub debug_data: Option<SrtDebugFrameData>,
}

impl SrtFrame {
    /// The record's interval is non-empty.
    pub open spec fn wf(self) -> bool {
        self.start_time_ms < self.end_time_ms
    }
}

/// Elapsed time `t_ms` falls inside the record's validity interval.
pub open spec fn frame_contains_time(f: SrtFrame, t_ms: int) -> bool {
    f.start_time_ms <= t_ms < f.end_time_ms
}

/// The records' intervals are non-empty, sorted by start time, and
/// non-overlapping: at most one record is active at any time.
pub open spec fn frames_time_sorted(frames: Seq<SrtFrame>) -> bool {
    &&& forall|i: int| 0 <= i < frames.len() ==> (#[trigger] frames[i]).wf()
    &&& forall|i: int|
        0 <= i && i + 1 < frames.len() ==> (#[trigger] frames[i]).end_time_ms <= frames[i
            + 1].start_time_ms
}

/// Start times are strictly increasing in a sorted record sequence.
pub proof fn lemma_sorted_starts_increase(frames: Seq<SrtFrame>, i: int, j: int)
    requires
        frames_time_sorted(frames),
        0 <= i < j < frames.len(),
    ensures
        frames[i].end_time_ms <= frames[j].start_time_ms,
    decreases j - i,
{
    if i + 1 < j {
        lemma_sorted_starts_increase(frames, i + 1, j);
    }
}

/// At most one record of a sorted, non-overlapping sequence contains
/// any given time: the compositor's active-record selection is
/// well-defined.
pub proof fn lemma_active_record_unique(frames: Seq<SrtFrame>, t: int, i: int, j: int)
    requires
        frames_time_sorted(frames),
        0 <= i < frames.len(),
        0 <= j < frames.len(),
        frame_contains_time(frames[i], t),
        frame_contains_time(frames[j], t),
    ensures
        i == j,
{
    if i < j {
        lemma_sorted_starts_increase(frames, i, j);
    } else if j < i {
        lemma_sorted_starts_increase(frames, j, i);
    }
}

/// Checks that a record sequence is sorted and non-overlapping, so an
/// unverified loader can establish the compositor's precondition.
pub fn frames_are_time_sorted(frames: &Vec<SrtFrame>) -> (r: bool)
    ensures
        r == frames_time_sorted(frames@),
{
    let n = frames.len();
    let mut i: usize = 0;
    while i < n
        invariant
            n == frames@.len(),
            i <= n,
            forall|k: int| 0 <= k < i ==> (#[trigger] frames@[k]).wf(),
            forall|k: int|
                0 <= k && k + 1 < n && k + 1 <= i ==> (#[trigger] frames@[k]).end_time_ms
                    <= frames@[k + 1].start_time_ms,
        decreases n - i,
    {
        if frames[i].start_time_ms >= frames[i].end_time_ms {
            return false;
        }
        if i + 1 < n {
            if frames[i].end_time_ms > frames[i + 1].start_time_ms {
                return false;
            }
        }
        i += 1;
    }
    true
}

/// Display option toggles for the telemetry overlay, one per
/// displayable field, with the overlay's anchor position and text
/// scale.
#[derive(Clone, Copy, Debug)]
pub struct SrtOptions {
    pub show_time: bool,
    pub show_sbat: bool,
    pub show_gbat: bool,
    pub show_signal: bool,
    pub show_latency: bool,
    pub show_bitrate: bool,
    pub show_distance: bool,
    pub show_channel: bool,
    pub show_snr: bool,
    pub show_g_temp: bool,
    pub show_s_temp: bool,
    pub show_frame: bool,
    pub show_err: bool,
    pub show_iso: bool,
    pub show_gain: bool,
    pub show_cct: bool,
    pub show_rb: bool,
    /// Horizontal anchor as a percentage of the frame width.
    pub position_x: u32,
    /// Vertical anchor as a percentage of the frame height.
    pub position_y: u32,
    /// Text line height in pixels, normalized to a 1080-pixel-tall
    /// reference frame.
    pub scale: u32,
}

impl SrtOptions {
    /// Position percentages are in range, and the scale does not
    /// exceed the reference frame height: a line taller than the whole
    /// frame is degenerate, and the cap keeps every pixel line height
    /// within the frame it is drawn on.
    pub open spec fn wf(self) -> bool {
        self.position_x <= 100 && self.position_y <= 100 && self.scale <= 1080
    }
}

/// A loaded SRT telemetry file: its records plus summary facts about
/// them.
pub struct SrtFile {
    pub file_path: String,
    pub has_distance: bool,
    pub has_debug: bool,
    /// End time of the last record, in milliseconds.
    pub duration_ms: u64,
    pub frames: Vec<SrtFrame>,
}

/// Some record carries regular data with a positive distance.
pub open spec fn spec_has_distance(frames: Seq<SrtFrame>) -> bool {
    exists|i: int|
        0 <= i < frames.len() && (#[trigger] frames[i]).data is Some
            && frames[i].data->Some_0.distance > 0
}

/// Some record carries debug data.
pub open spec fn spec_has_debug(frames: Seq<SrtFrame>) -> bool {
    exists|i: int| 0 <= i < frames.len() && (#[trigger] frames[i]).debug_data is Some
}

impl SrtFile {
    /// Builds the summary over an already-parsed record sequence: set
    /// `has_distance` when any record reports a positive distance, set
    /// `has_debug` when any record carries debug data, and take the
    /// file's duration from the last record. An empty sequence has no
    /// duration and yields nothing.
    pub fn from_frames(file_path: String, frames: Vec<SrtFrame>) -> (r: Option<SrtFile>)
        ensures
            r is Some <==> frames@.len() > 0,
            r is Some ==> {
                let f = r->Some_0;
                &&& f.frames@ == frames@
                &&& f.file_path@ == file_path@
                &&& f.has_distance == spec_has_distance(frames@)
                &&& f.has_debug == spec_has_debug(frames@)
                &&& f.duration_ms == frames@.last().end_time_ms
            },
    {
        if frames.len() == 0 {
            return None;
        }
        let mut has_distance = false;
        let mut has_debug = false;
        let n = frames.len();
        let mut i: usize = 0;
        while i < n
            invariant
                n == frames@.len(),
                i <= n,
                has_distance == spec_has_distance(frames@.subrange(0, i as int)),
                has_debug == spec_has_debug(frames@.subrange(0, i as int)),
            decreases n - i,
        {
            let ghost prefix = frames@.subrange(0, i as int);
            let ghost next_prefix = frames@.subrange(0, i + 1);
            proof {
                assert(next_prefix.subrange(0, i as int) =~= prefix);
                assert(next_prefix.last() == frames@[i as int]);
            }
            match &frames[i].data {
                Some(data) => {
                    if data.distance > 0 {
                        has_distance = true;
                    }
                },
                None => {},
            }
            if frames[i].debug_data.is_some() {
                has_debug = true;
            }
            proof {
                lemma_summary_extend(next_prefix);
            }
            i += 1;
        }
        proof {
            assert(frames@.subrange(0, n as int) =~= frames@);
        }
        let duration_ms = frames[n - 1].end_time_ms;
        Some(
            SrtFile {
                file_path,
                has_distance,
                has_debug,
                duration_ms,
                frames,
            },
        )
    }
}

/// Extending a record sequence by one record extends the two summary
/// facts by that record alone.
proof fn lemma_summary_extend(frames: Seq<SrtFrame>)
    requires
        frames.len() > 0,
    ensures
        spec_has_distance(frames) <==> (spec_has_distance(frames.drop_last()) || (
        frames.last().data is Some && frames.last().data->Some_0.distance > 0)),
        spec_has_debug(frames) <==> (spec_has_debug(frames.drop_last())
            || frames.last().debug_data is Some),
{
    let prefix = frames.drop_last();
    if spec_has_distance(prefix) {
        let i = choose|i: int|
            0 <= i < prefix.len() && (#[trigger] prefix[i]).data is Some
                && prefix[i].data->Some_0.distance > 0;
        assert(frames[i].data is Some && frames[i].data->Some_0.distance > 0);
    }
    if spec_has_debug(prefix) {
        let i = choose|i: int| 0 <= i < prefix.len() && (#[trigger] prefix[i]).debug_data is Some;
        assert(frames[i].debug_data is Some);
    }
    if spec_has_distance(frames) {
        let i = choose|i: int|
            0 <= i < frames.len() && (#[trigger] frames[i]).data is Some
                && frames[i].data->Some_0.distance > 0;
        if i < prefix.len() {
            assert(prefix[i].data is Some && prefix[i].data->Some_0.distance > 0);
        }
    }
    if spec_has_debug(frames) {
        let i = choose|i: int| 0 <= i < frames.len() && (#[trigger] frames[i]).debug_data is Some;
        if i < prefix.len() {
            assert(prefix[i].debug_data is Some);
        }
    }
}

} // verus!
