//! Text overlay layout engine: turns a telemetry record and the display
//! options into positioned lines of text, ready for glyph rendering.
//!
//! Every enabled field is formatted in a fixed order. The regular
//! telemetry overlay is a single unwrapped line; the debug overlay is
//! split into whitespace-delimited tokens and greedily packed onto at
//! most two lines under the frame's pixel width, measured with
//! caller-supplied per-token pixel widths.

use vstd::prelude::*;

use crate::srt_data::{SrtDebugFrameData, SrtFrameData, SrtOptions};
use crate::text::{
    dec_digits, dec_two_digits, hundredths_digits, hundredths_string, pad_left, pad_left_spec,
    tenths_digits, tenths_digits_i32, tenths_string, tenths_string_i32, thousandths_digits,
    thousandths_string, u32_string, u32_two_digits,
};

verus! {

/// Frame dimensions the layout engine supports: non-zero, and small
/// enough that every pixel position and byte count stays far from the
/// integer limits.
pub open spec fn dims_wf(width: u32, height: u32) -> bool {
    0 < width <= 65536 && 0 < height <= 65536
}

/// One line of text anchored at a pixel position, to be drawn at the
/// given pixel line height.
pub struct PositionedLine {
    pub text: String,
    pub x: u32,
    pub y: u32,
    pub scale: u32,
}

/// `v * size / denom`, the anchor arithmetic: a normalized coordinate
/// scaled to a pixel dimension, truncated toward zero (the single-line
/// overlay's placement).
fn scaled_fraction(v: u32, size: u32, denom: u32) -> (r: u32)
    requires
        v <= denom,
        0 < denom,
    ensures
        r == (v as int) * (size as int) / (denom as int),
        r <= size,
{
    proof {
        vstd::arithmetic::mul::lemma_mul_upper_bound(
            v as int,
            0xFFFF_FFFF,
            size as int,
            0xFFFF_FFFF,
        );
    }
    let prod: u64 = (v as u64) * (size as u64);
    let q: u64 = prod / (denom as u64);
    proof {
        assert((v as int) * (size as int) <= (denom as int) * (size as int)) by (nonlinear_arith)
            requires
                v <= denom,
                size >= 0,
        ;
        vstd::arithmetic::div_mod::lemma_div_is_ordered(
            (v as int) * (size as int),
            (denom as int) * (size as int),
            denom as int,
        );
        vstd::arithmetic::div_mod::lemma_div_multiples_vanish(size as int, denom as int);
    }
    q as u32
}

/// `(v * size + denom/2) / denom`: the anchor arithmetic rounded to
/// the nearest pixel, halves up.
fn scaled_fraction_rounded(v: u32, size: u32, denom: u32) -> (r: u32)
    requires
        v <= denom,
        0 < denom,
    ensures
        r == ((v as int) * (size as int) + (denom as int) / 2) / (denom as int),
        r <= size,
{
    proof {
        vstd::arithmetic::mul::lemma_mul_upper_bound(
            v as int,
            0xFFFF_FFFF,
            size as int,
            0xFFFF_FFFF,
        );
    }
    let prod: u64 = (v as u64) * (size as u64) + (denom as u64) / 2;
    let q: u64 = prod / (denom as u64);
    proof {
        assert((v as int) * (size as int) <= (denom as int) * (size as int)) by (nonlinear_arith)
            requires
                v <= denom,
                size >= 0,
        ;
        vstd::arithmetic::div_mod::lemma_div_is_ordered(
            (v as int) * (size as int) + (denom as int) / 2,
            (denom as int) * (size as int) + (denom as int) / 2,
            denom as int,
        );
        vstd::arithmetic::div_mod::lemma_div_multiples_vanish_fancy(
            size as int,
            (denom as int) / 2,
            denom as int,
        );
    }
    q as u32
}

/// The overlay anchor in pixels and the pixel line height for a frame
/// of the given dimensions: the normalized position is a percentage of
/// each dimension, truncated to a whole pixel, and the text scale is
/// normalized to a 1080-pixel-tall reference frame.
pub fn overlay_anchor(options: &SrtOptions, width: u32, height: u32) -> (r: (u32, u32, u32))
    requires
        options.wf(),
    ensures
        r.0 == (options.position_x as int) * (width as int) / 100,
        r.1 == (options.position_y as int) * (height as int) / 100,
        r.2 == (options.scale as int) * (height as int) / 1080,
        r.0 <= width,
        r.1 <= height,
        r.2 <= height,
{
    let x = scaled_fraction(options.position_x, width, 100);
    let y = scaled_fraction(options.position_y, height, 100);
    let scale = scaled_fraction(options.scale, height, 1080);
    (x, y, scale)
}

/// The flight-time field: minutes and two-digit seconds.
pub open spec fn spec_time_field(d: SrtFrameData) -> Seq<char> {
    "Time:"@ + dec_digits((d.flight_time / 60) as nat) + seq![':'] + dec_two_digits(
        (d.flight_time % 60) as nat,
    ) + "  "@
}

fn time_field(d: &SrtFrameData) -> (s: String)
    ensures
        s@ == spec_time_field(*d),
{
    let mut s = String::from_str("Time:");
    s.append(u32_string(d.flight_time / 60).as_str());
    s.append(":");
    s.append(u32_two_digits(d.flight_time % 60).as_str());
    s.append("  ");
    proof {
        reveal_strlit(":");
        assert(":"@ =~= seq![':']);
        assert(s@ =~= spec_time_field(*d));
    }
    s
}

/// The sky-battery field: tenths of a volt, right-aligned to four
/// characters.
pub open spec fn spec_sbat_field(d: SrtFrameData) -> Seq<char> {
    "SBat:"@ + pad_left_spec(tenths_digits(d.sky_bat as nat), 4) + "V  "@
}

fn sbat_field(d: &SrtFrameData) -> (s: String)
    ensures
        s@ == spec_sbat_field(*d),
{
    let mut s = String::from_str("SBat:");
    s.append(pad_left(tenths_string(d.sky_bat), 4).as_str());
    s.append("V  ");
    proof {
        assert(s@ =~= spec_sbat_field(*d));
    }
    s
}

/// The ground-battery field: tenths of a volt, right-aligned to four
/// characters.
pub open spec fn spec_gbat_field(d: SrtFrameData) -> Seq<char> {
    "GBat:"@ + pad_left_spec(tenths_digits(d.ground_bat as nat), 4) + "V  "@
}

fn gbat_field(d: &SrtFrameData) -> (s: String)
    ensures
        s@ == spec_gbat_field(*d),
{
    let mut s = String::from_str("GBat:");
    s.append(pad_left(tenths_string(d.ground_bat), 4).as_str());
    s.append("V  ");
    proof {
        assert(s@ =~= spec_gbat_field(*d));
    }
    s
}

/// The signal-strength field.
pub open spec fn spec_signal_field(d: SrtFrameData) -> Seq<char> {
    "Signal:"@ + dec_digits(d.signal as nat) + "  "@
}

fn signal_field(d: &SrtFrameData) -> (s: String)
    ensures
        s@ == spec_signal_field(*d),
{
    let mut s = String::from_str("Signal:");
    s.append(u32_string(d.signal).as_str());
    s.append("  ");
    proof {
        assert(s@ =~= spec_signal_field(*d));
    }
    s
}

/// The latency field: milliseconds, right-aligned to three characters.
pub open spec fn spec_latency_field(d: SrtFrameData) -> Seq<char> {
    "Latency:"@ + pad_left_spec(dec_digits(d.latency as nat), 3) + "ms  "@
}

fn latency_field(d: &SrtFrameData) -> (s: String)
    ensures
        s@ == spec_latency_field(*d),
{
    let mut s = String::from_str("Latency:");
    s.append(pad_left(u32_string(d.latency), 3).as_str());
    s.append("ms  ");
    proof {
        assert(s@ =~= spec_latency_field(*d));
    }
    s
}

/// The bitrate field: tenths of a megabit per second, right-aligned to
/// four characters.
pub open spec fn spec_bitrate_field(d: SrtFrameData) -> Seq<char> {
    "Bitrate:"@ + pad_left_spec(tenths_digits(d.bitrate_mbps as nat), 4) + "Mbps  "@
}

fn bitrate_field(d: &SrtFrameData) -> (s: String)
    ensures
        s@ == spec_bitrate_field(*d),
{
    let mut s = String::from_str("Bitrate:");
    s.append(pad_left(tenths_string(d.bitrate_mbps), 4).as_str());
    s.append("Mbps  ");
    proof {
        assert(s@ =~= spec_bitrate_field(*d));
    }
    s
}

/// The distance field. Below one kilometer the distance is whole
/// meters right-aligned to three characters; from one kilometer up it
/// is kilometers with two decimal digits, the hundredths rounded half
/// up. Like every field, it carries the trailing double-space
/// separator.
pub open spec fn spec_distance_field(d: SrtFrameData) -> Seq<char> {
    if d.distance > 999 {
        "Distance:"@ + hundredths_digits(((d.distance + 5) / 10) as nat) + "km  "@
    } else {
        "Distance:"@ + pad_left_spec(dec_digits(d.distance as nat), 3) + "m  "@
    }
}

fn distance_field(d: &SrtFrameData) -> (s: String)
    ensures
        s@ == spec_distance_field(*d),
{
    let mut s = String::from_str("Distance:");
    if d.distance > 999 {
        let hundredths_km: u64 = ((d.distance as u64) + 5) / 10;
        s.append(hundredths_string(hundredths_km as u32).as_str());
        s.append("km  ");
    } else {
        s.append(pad_left(u32_string(d.distance), 3).as_str());
        s.append("m  ");
    }
    proof {
        assert(s@ =~= spec_distance_field(*d));
    }
    s
}

/// The regular overlay line: every enabled field in the fixed order,
/// each with its trailing separator.
pub open spec fn spec_srt_line(d: SrtFrameData, o: SrtOptions) -> Seq<char> {
    (if o.show_time {
        spec_time_field(d)
    } else {
        Seq::empty()
    }) + (if o.show_sbat {
        spec_sbat_field(d)
    } else {
        Seq::empty()
    }) + (if o.show_gbat {
        spec_gbat_field(d)
    } else {
        Seq::empty()
    }) + (if o.show_signal {
        spec_signal_field(d)
    } else {
        Seq::empty()
    }) + (if o.show_latency {
        spec_latency_field(d)
    } else {
        Seq::empty()
    }) + (if o.show_bitrate {
        spec_bitrate_field(d)
    } else {
        Seq::empty()
    }) + (if o.show_distance {
        spec_distance_field(d)
    } else {
        Seq::empty()
    })
}

/// Lays out the regular telemetry overlay: one unwrapped line holding
/// every enabled field, anchored at the normalized position.
pub fn overlay_srt_data(d: &SrtFrameData, options: &SrtOptions, width: u32, height: u32) -> (r:
    PositionedLine)
    requires
        options.wf(),
        dims_wf(width, height),
    ensures
        r.text@ == spec_srt_line(*d, *options),
        r.x == (options.position_x as int) * (width as int) / 100,
        r.y == (options.position_y as int) * (height as int) / 100,
        r.scale == (options.scale as int) * (height as int) / 1080,
{
    let mut s = String::new();
    if options.show_time {
        s.append(time_field(d).as_str());
    }
    if options.show_sbat {
        s.append(sbat_field(d).as_str());
    }
    if options.show_gbat {
        s.append(gbat_field(d).as_str());
    }
    if options.show_signal {
        s.append(signal_field(d).as_str());
    }
    if options.show_latency {
        s.append(latency_field(d).as_str());
    }
    if options.show_bitrate {
        s.append(bitrate_field(d).as_str());
    }
    if options.show_distance {
        s.append(distance_field(d).as_str());
    }
    proof {
        assert(s@ =~= spec_srt_line(*d, *options));
    }
    let (x, y, scale) = overlay_anchor(options, width, height);
    PositionedLine { text: s, x, y, scale }
}


/// The views of a sequence of strings.
pub open spec fn views(ss: Seq<String>) -> Seq<Seq<char>> {
    ss.map_values(|s: String| s@)
}

/// Taking views commutes with concatenation.
pub proof fn lemma_views_concat(a: Seq<String>, b: Seq<String>)
    ensures
        views(a + b) == views(a) + views(b),
{
    assert(views(a + b) =~= views(a) + views(b));
}

/// Appends `src`'s tokens to `dst`.
fn extend_tokens(dst: &mut Vec<String>, src: Vec<String>)
    ensures
        final(dst)@ == old(dst)@ + src@,
{
    let mut src = src;
    dst.append(&mut src);
}

/// A field's token contribution: its tokens when enabled, nothing
/// otherwise.
pub open spec fn seg(tokens: Seq<Seq<char>>, enabled: bool) -> Seq<Seq<char>> {
    if enabled {
        tokens
    } else {
        Seq::empty()
    }
}

/// Debug-overlay tokens contributed by the channel field.
pub open spec fn spec_channel_tokens(d: SrtDebugFrameData) -> Seq<Seq<char>> {
    seq!["CH:"@ + dec_digits(d.channel as nat)]
}

fn channel_tokens(d: &SrtDebugFrameData) -> (r: Vec<String>)
    ensures
        views(r@) == spec_channel_tokens(*d),
{
    let mut s = String::from_str("CH:");
    s.append(u32_string(d.channel).as_str());
    let mut r: Vec<String> = Vec::new();
    r.push(s);
    proof {
        assert(views(r@) =~= spec_channel_tokens(*d));
    }
    r
}

/// Debug-overlay tokens contributed by the SNR pair.
pub open spec fn spec_snr_tokens(d: SrtDebugFrameData) -> Seq<Seq<char>> {
    seq![
        "GSNR:"@ + tenths_digits_i32(d.gsnr as int),
        "SSNR:"@ + tenths_digits_i32(d.ssnr as int),
    ]
}

fn snr_tokens(d: &SrtDebugFrameData) -> (r: Vec<String>)
    ensures
        views(r@) == spec_snr_tokens(*d),
{
    let mut a = String::from_str("GSNR:");
    a.append(tenths_string_i32(d.gsnr).as_str());
    let mut b = String::from_str("SSNR:");
    b.append(tenths_string_i32(d.ssnr).as_str());
    let mut r: Vec<String> = Vec::new();
    r.push(a);
    r.push(b);
    proof {
        assert(views(r@) =~= spec_snr_tokens(*d));
    }
    r
}

/// Debug-overlay token for the ground temperature.
pub open spec fn spec_gtemp_tokens(d: SrtDebugFrameData) -> Seq<Seq<char>> {
    seq!["G:"@ + tenths_digits_i32(d.gtemp as int) + "\u{b0}C"@]
}

fn gtemp_tokens(d: &SrtDebugFrameData) -> (r: Vec<String>)
    ensures
        views(r@) == spec_gtemp_tokens(*d),
{
    let mut s = String::from_str("G:");
    s.append(tenths_string_i32(d.gtemp).as_str());
    s.append("\u{b0}C");
    let mut r: Vec<String> = Vec::new();
    r.push(s);
    proof {
        assert(views(r@) =~= spec_gtemp_tokens(*d));
    }
    r
}

/// Debug-overlay token for the sky temperature.
pub open spec fn spec_stemp_tokens(d: SrtDebugFrameData) -> Seq<Seq<char>> {
    seq!["S:"@ + tenths_digits_i32(d.stemp as int) + "\u{b0}C"@]
}

fn stemp_tokens(d: &SrtDebugFrameData) -> (r: Vec<String>)
    ensures
        views(r@) == spec_stemp_tokens(*d),
{
    let mut s = String::from_str("S:");
    s.append(tenths_string_i32(d.stemp).as_str());
    s.append("\u{b0}C");
    let mut r: Vec<String> = Vec::new();
    r.push(s);
    proof {
        assert(views(r@) =~= spec_stemp_tokens(*d));
    }
    r
}

/// Debug-overlay token for the frame counter.
pub open spec fn spec_frame_tokens(d: SrtDebugFrameData) -> Seq<Seq<char>> {
    seq!["Frame:"@ + dec_digits(d.frame as nat)]
}

fn frame_tokens(d: &SrtDebugFrameData) -> (r: Vec<String>)
    ensures
        views(r@) == spec_frame_tokens(*d),
{
    let mut s = String::from_str("Frame:");
    s.append(u32_string(d.frame).as_str());
    let mut r: Vec<String> = Vec::new();
    r.push(s);
    proof {
        assert(views(r@) =~= spec_frame_tokens(*d));
    }
    r
}

/// Debug-overlay tokens for the error-code triple.
pub open spec fn spec_err_tokens(d: SrtDebugFrameData) -> Seq<Seq<char>> {
    seq![
        "Gerr:"@ + dec_digits(d.gerr as nat),
        "SErr:"@ + dec_digits(d.serr as nat),
        dec_digits(d.serr_ext as nat),
    ]
}

fn err_tokens(d: &SrtDebugFrameData) -> (r: Vec<String>)
    ensures
        views(r@) == spec_err_tokens(*d),
{
    let mut a = String::from_str("Gerr:");
    a.append(u32_string(d.gerr).as_str());
    let mut b = String::from_str("SErr:");
    b.append(u32_string(d.serr).as_str());
    let mut r: Vec<String> = Vec::new();
    r.push(a);
    r.push(b);
    r.push(u32_string(d.serr_ext));
    proof {
        assert(views(r@) =~= spec_err_tokens(*d));
    }
    r
}

/// Debug-overlay tokens for the bracketed ISO triple.
pub open spec fn spec_iso_tokens(d: SrtDebugFrameData) -> Seq<Seq<char>> {
    seq![
        "[ISO:"@ + dec_digits(d.iso as nat),
        "Mode:"@ + dec_digits(d.iso_mode as nat),
        "Exp:"@ + dec_digits(d.iso_exp as nat) + "]"@,
    ]
}

fn iso_tokens(d: &SrtDebugFrameData) -> (r: Vec<String>)
    ensures
        views(r@) == spec_iso_tokens(*d),
{
    let mut a = String::from_str("[ISO:");
    a.append(u32_string(d.iso).as_str());
    let mut b = String::from_str("Mode:");
    b.append(u32_string(d.iso_mode).as_str());
    let mut c = String::from_str("Exp:");
    c.append(u32_string(d.iso_exp).as_str());
    c.append("]");
    let mut r: Vec<String> = Vec::new();
    r.push(a);
    r.push(b);
    r.push(c);
    proof {
        assert(views(r@) =~= spec_iso_tokens(*d));
    }
    r
}

/// Debug-overlay tokens for the bracketed gain triple.
pub open spec fn spec_gain_tokens(d: SrtDebugFrameData) -> Seq<Seq<char>> {
    seq![
        "[Gain:"@ + hundredths_digits(d.gain as nat),
        "Exp:"@ + thousandths_digits(d.gain_exp as nat) + "ms"@,
        "Lx:"@ + dec_digits(d.gain_lx as nat) + "]"@,
    ]
}

fn gain_tokens(d: &SrtDebugFrameData) -> (r: Vec<String>)
    ensures
        views(r@) == spec_gain_tokens(*d),
{
    let mut a = String::from_str("[Gain:");
    a.append(hundredths_string(d.gain).as_str());
    let mut b = String::from_str("Exp:");
    b.append(thousandths_string(d.gain_exp).as_str());
    b.append("ms");
    let mut c = String::from_str("Lx:");
    c.append(u32_string(d.gain_lx).as_str());
    c.append("]");
    let mut r: Vec<String> = Vec::new();
    r.push(a);
    r.push(b);
    r.push(c);
    proof {
        assert(views(r@) =~= spec_gain_tokens(*d));
    }
    r
}

/// Debug-overlay token for the bracketed color temperature.
pub open spec fn spec_cct_tokens(d: SrtDebugFrameData) -> Seq<Seq<char>> {
    seq!["[CCT:"@ + dec_digits(d.cct as nat) + "]"@]
}

fn cct_tokens(d: &SrtDebugFrameData) -> (r: Vec<String>)
    ensures
        views(r@) == spec_cct_tokens(*d),
{
    let mut s = String::from_str("[CCT:");
    s.append(u32_string(d.cct).as_str());
    s.append("]");
    let mut r: Vec<String> = Vec::new();
    r.push(s);
    proof {
        assert(views(r@) =~= spec_cct_tokens(*d));
    }
    r
}

/// Debug-overlay tokens for the bracketed red-blue balance pair.
pub open spec fn spec_rb_tokens(d: SrtDebugFrameData) -> Seq<Seq<char>> {
    seq![
        "[RB:"@ + hundredths_digits(d.rb as nat),
        hundredths_digits(d.rb_ext as nat) + "]"@,
    ]
}

fn rb_tokens(d: &SrtDebugFrameData) -> (r: Vec<String>)
    ensures
        views(r@) == spec_rb_tokens(*d),
{
    let mut a = String::from_str("[RB:");
    a.append(hundredths_string(d.rb).as_str());
    let mut b = hundredths_string(d.rb_ext);
    b.append("]");
    let mut r: Vec<String> = Vec::new();
    r.push(a);
    r.push(b);
    proof {
        assert(views(r@) =~= spec_rb_tokens(*d));
    }
    r
}

/// The debug-overlay token sequence: the tokens of every enabled field
/// in the fixed field order.
pub open spec fn spec_debug_tokens(d: SrtDebugFrameData, o: SrtOptions) -> Seq<Seq<char>> {
    seg(spec_channel_tokens(d), o.show_channel) + seg(spec_snr_tokens(d), o.show_snr) + seg(
        spec_gtemp_tokens(d),
        o.show_g_temp,
    ) + seg(spec_stemp_tokens(d), o.show_s_temp) + seg(spec_frame_tokens(d), o.show_frame) + seg(
        spec_err_tokens(d),
        o.show_err,
    ) + seg(spec_iso_tokens(d), o.show_iso) + seg(spec_gain_tokens(d), o.show_gain) + seg(
        spec_cct_tokens(d),
        o.show_cct,
    ) + seg(spec_rb_tokens(d), o.show_rb)
}

/// One conditional step of the token composition.
fn compose_field(toks: &mut Vec<String>, enabled: bool, field: Vec<String>)
    ensures
        views(final(toks)@) == views(old(toks)@) + seg(views(field@), enabled),
{
    let ghost pre = toks@;
    if enabled {
        extend_tokens(toks, field);
        proof {
            lemma_views_concat(pre, field@);
        }
    } else {
        proof {
            assert(views(pre) + seg(views(field@), false) =~= views(pre));
        }
    }
}

/// Formats the debug telemetry record into its whitespace-delimited
/// tokens, every enabled field in the fixed order. The caller measures
/// each token and hands the widths to `overlay_string` for wrapping.
pub fn overlay_srt_debug_data(d: &SrtDebugFrameData, options: &SrtOptions) -> (r: Vec<String>)
    ensures
        views(r@) == spec_debug_tokens(*d, *options),
{
    let mut toks: Vec<String> = Vec::new();
    proof {
        assert(views(toks@) =~= Seq::<Seq<char>>::empty());
    }
    let ghost t0 = Seq::<Seq<char>>::empty();
    compose_field(&mut toks, options.show_channel, channel_tokens(d));
    let ghost t1 = t0 + seg(spec_channel_tokens(*d), options.show_channel);
    compose_field(&mut toks, options.show_snr, snr_tokens(d));
    let ghost t2 = t1 + seg(spec_snr_tokens(*d), options.show_snr);
    compose_field(&mut toks, options.show_g_temp, gtemp_tokens(d));
    let ghost t3 = t2 + seg(spec_gtemp_tokens(*d), options.show_g_temp);
    compose_field(&mut toks, options.show_s_temp, stemp_tokens(d));
    let ghost t4 = t3 + seg(spec_stemp_tokens(*d), options.show_s_temp);
    compose_field(&mut toks, options.show_frame, frame_tokens(d));
    let ghost t5 = t4 + seg(spec_frame_tokens(*d), options.show_frame);
    compose_field(&mut toks, options.show_err, err_tokens(d));
    let ghost t6 = t5 + seg(spec_err_tokens(*d), options.show_err);
    compose_field(&mut toks, options.show_iso, iso_tokens(d));
    let ghost t7 = t6 + seg(spec_iso_tokens(*d), options.show_iso);
    compose_field(&mut toks, options.show_gain, gain_tokens(d));
    let ghost t8 = t7 + seg(spec_gain_tokens(*d), options.show_gain);
    compose_field(&mut toks, options.show_cct, cct_tokens(d));
    let ghost t9 = t8 + seg(spec_cct_tokens(*d), options.show_cct);
    compose_field(&mut toks, options.show_rb, rb_tokens(d));
    proof {
        assert(views(toks@) =~= spec_debug_tokens(*d, *options));
    }
    toks
}

/// Per-token pixel widths as mathematical integers.
pub open spec fn int_widths(ws: Seq<u32>) -> Seq<int> {
    ws.map_values(|w: u32| w as int)
}

/// The wrapping state after some prefix of the tokens: which line is
/// being filled, how many tokens each line holds, the accumulated
/// pixel width of each line, and whether packing has stopped.
pub ghost struct WrapState {
    pub on_first: bool,
    pub done: bool,
    pub n1: nat,
    pub n2: nat,
    pub w1: int,
    pub w2: int,
}

/// Wrapping starts on an empty first line.
pub open spec fn wrap_init() -> WrapState {
    WrapState { on_first: true, done: false, n1: 0, n2: 0, w1: 0, w2: 0 }
}

/// One token of greedy packing. A token goes on the current line when
/// the line, extended by a separating space and the token, still fits
/// the pixel budget; a token that overflows the first line starts the
/// second line unconditionally; a token that overflows the second line
/// stops packing, and every later token is dropped.
pub open spec fn wrap_step(s: WrapState, wi: int, space: int, max: int) -> WrapState {
    if s.done {
        s
    } else if s.on_first {
        let cand = if s.n1 == 0 {
            wi
        } else {
            s.w1 + space + wi
        };
        if cand <= max {
            WrapState { n1: s.n1 + 1, w1: cand, ..s }
        } else {
            WrapState { on_first: false, n2: 1, w2: wi, ..s }
        }
    } else {
        let cand = s.w2 + space + wi;
        if cand <= max {
            WrapState { n2: s.n2 + 1, w2: cand, ..s }
        } else {
            WrapState { done: true, ..s }
        }
    }
}

/// The wrapping state after the first `i` tokens.
pub open spec fn wrap_run(widths: Seq<int>, space: int, max: int, i: int) -> WrapState
    decreases i,
{
    if i <= 0 {
        wrap_init()
    } else {
        wrap_step(wrap_run(widths, space, max, i - 1), widths[i - 1], space, max)
    }
}

/// The tokens joined by single spaces.
pub open spec fn spec_join(toks: Seq<Seq<char>>) -> Seq<char>
    decreases toks.len(),
{
    if toks.len() == 0 {
        Seq::empty()
    } else if toks.len() == 1 {
        toks[0]
    } else {
        spec_join(toks.drop_last()) + seq![' '] + toks.last()
    }
}

/// Joins `tokens[from..to]` with single spaces.
fn join_range(tokens: &Vec<String>, from: usize, to: usize) -> (s: String)
    requires
        from <= to <= tokens@.len(),
    ensures
        s@ == spec_join(views(tokens@).subrange(from as int, to as int)),
{
    let mut s = String::new();
    let mut k = from;
    proof {
        assert(views(tokens@).subrange(from as int, from as int) =~= Seq::<Seq<char>>::empty());
    }
    while k < to
        invariant
            from <= k <= to <= tokens@.len(),
            s@ == spec_join(views(tokens@).subrange(from as int, k as int)),
        decreases to - k,
    {
        if k > from {
            s.append(" ");
        }
        s.append(tokens[k].as_str());
        proof {
            reveal_strlit(" ");
            let vs = views(tokens@);
            let prev = vs.subrange(from as int, k as int);
            let cur = vs.subrange(from as int, k + 1);
            assert(cur.drop_last() =~= prev);
            assert(cur.last() == vs[k as int]);
            if k == from {
                assert(s@ =~= spec_join(cur));
            } else {
                assert(" "@ =~= seq![' ']);
                assert(s@ =~= spec_join(cur));
            }
            assert(s@ == spec_join(vs.subrange(from as int, (k + 1) as int)));
        }
        k += 1;
    }
    s
}

/// Lays out the debug overlay: the tokens are packed greedily onto at
/// most two lines under the frame's pixel width, with a caller-supplied
/// pixel width for each token and for the separating space; both lines
/// share the anchor, rounded to the nearest pixel, the second sitting
/// one line height below the first. Tokens that fit on neither line
/// are dropped.
pub fn overlay_string(
    tokens: &Vec<String>,
    widths: &Vec<u32>,
    space_width: u32,
    options: &SrtOptions,
    width: u32,
    height: u32,
) -> (r: Vec<PositionedLine>)
    requires
        tokens@.len() == widths@.len(),
        options.wf(),
        dims_wf(width, height),
    ensures
        ({
            let st = wrap_run(
                int_widths(widths@),
                space_width as int,
                width as int,
                widths@.len() as int,
            );
            let x = ((options.position_x as int) * (width as int) + 50) / 100;
            let y = ((options.position_y as int) * (height as int) + 50) / 100;
            let sc = (options.scale as int) * (height as int) / 1080;
            &&& st.n1 + st.n2 <= tokens@.len()
            &&& r@.len() == (if st.n2 > 0 {
                2int
            } else {
                1int
            })
            &&& r@[0].text@ == spec_join(views(tokens@).subrange(0, st.n1 as int))
            &&& r@[0].x == x
            &&& r@[0].y == y
            &&& r@[0].scale == sc
            &&& st.n2 > 0 ==> {
                &&& r@[1].text@ == spec_join(
                    views(tokens@).subrange(st.n1 as int, (st.n1 + st.n2) as int),
                )
                &&& r@[1].x == x
                &&& r@[1].y == y + sc
                &&& r@[1].scale == sc
            }
        }),
{
    let ghost ws = int_widths(widths@);
    let ghost sp = space_width as int;
    let ghost mx = width as int;
    let n = tokens.len();
    let mut on_first = true;
    let mut done = false;
    let mut n1: usize = 0;
    let mut n2: usize = 0;
    let mut w1: u64 = 0;
    let mut w2: u64 = 0;
    let mut i: usize = 0;
    while i < n
        invariant
            n == tokens@.len(),
            widths@.len() == n,
            ws == int_widths(widths@),
            sp == space_width as int,
            mx == width as int,
            i <= n,
            n1 + n2 <= i,
            w1 <= u32::MAX,
            w2 <= u32::MAX,
            ({
                let s = wrap_run(ws, sp, mx, i as int);
                on_first == s.on_first && done == s.done && n1 == s.n1 && n2 == s.n2 && w1
                    == s.w1 && w2 == s.w2
            }),
        decreases n - i,
    {
        let wi = widths[i];
        proof {
            assert(ws[i as int] == wi as int);
            assert(wrap_run(ws, sp, mx, i + 1) == wrap_step(
                wrap_run(ws, sp, mx, i as int),
                ws[i as int],
                sp,
                mx,
            ));
        }
        if !done {
            if on_first {
                let cand: u64 = if n1 == 0 {
                    wi as u64
                } else {
                    w1 + space_width as u64 + wi as u64
                };
                if cand <= width as u64 {
                    n1 += 1;
                    w1 = cand;
                } else {
                    on_first = false;
                    n2 = 1;
                    w2 = wi as u64;
                }
            } else {
                let cand: u64 = w2 + space_width as u64 + wi as u64;
                if cand <= width as u64 {
                    n2 += 1;
                    w2 = cand;
                } else {
                    done = true;
                }
            }
        }
        i += 1;
    }
    let x = scaled_fraction_rounded(options.position_x, width, 100);
    let y = scaled_fraction_rounded(options.position_y, height, 100);
    let sc = scaled_fraction(options.scale, height, 1080);
    let line1 = join_range(tokens, 0, n1);
    let mut out: Vec<PositionedLine> = Vec::new();
    out.push(PositionedLine { text: line1, x, y, scale: sc });
    if n2 > 0 {
        let line2 = join_range(tokens, n1, n1 + n2);
        out.push(PositionedLine { text: line2, x, y: y + sc, scale: sc });
    }
    out
}

} // verus!
