use osd_render::overlay::{overlay_srt_data, overlay_srt_debug_data, overlay_string};
use osd_render::srt_data::{SrtDebugFrameData, SrtFrameData, SrtOptions};

fn options_none() -> SrtOptions {
    SrtOptions {
        show_time: false,
        show_sbat: false,
        show_gbat: false,
        show_signal: false,
        show_latency: false,
        show_bitrate: false,
        show_distance: false,
        show_channel: false,
        show_snr: false,
        show_g_temp: false,
        show_s_temp: false,
        show_frame: false,
        show_err: false,
        show_iso: false,
        show_gain: false,
        show_cct: false,
        show_rb: false,
        position_x: 0,
        position_y: 0,
        scale: 0,
    }
}

fn data(flight_time: u32, distance: u32) -> SrtFrameData {
    SrtFrameData {
        flight_time,
        sky_bat: 48,
        ground_bat: 121,
        signal: 4,
        latency: 32,
        bitrate_mbps: 255,
        distance,
    }
}

fn debug_data() -> SrtDebugFrameData {
    SrtDebugFrameData {
        channel: 7,
        gsnr: -15,
        ssnr: 201,
        gtemp: 365,
        stemp: 512,
        frame: 1234,
        gerr: 0,
        serr: 2,
        serr_ext: 9,
        iso: 400,
        iso_mode: 1,
        iso_exp: 12,
        gain: 105,
        gain_exp: 2500,
        gain_lx: 50,
        cct: 5600,
        rb: 123,
        rb_ext: 45,
    }
}

#[test]
fn time_formats_minutes_and_two_digit_seconds() {
    let mut o = options_none();
    o.show_time = true;
    let line = overlay_srt_data(&data(125, 0), &o, 1920, 1080);
    assert_eq!(line.text, "Time:2:05  ");
}

#[test]
fn distance_below_one_km_stays_in_meters() {
    let mut o = options_none();
    o.show_distance = true;
    let line = overlay_srt_data(&data(0, 999), &o, 1920, 1080);
    assert_eq!(line.text, "Distance:999m  ");
}

#[test]
fn distance_at_one_km_converts() {
    let mut o = options_none();
    o.show_distance = true;
    let line = overlay_srt_data(&data(0, 1000), &o, 1920, 1080);
    assert_eq!(line.text, "Distance:1.00km  ");
}

#[test]
fn distance_2500_is_2_50_km() {
    let mut o = options_none();
    o.show_distance = true;
    let line = overlay_srt_data(&data(0, 2500), &o, 1920, 1080);
    assert_eq!(line.text, "Distance:2.50km  ");
}

#[test]
fn short_distance_is_right_aligned() {
    let mut o = options_none();
    o.show_distance = true;
    let line = overlay_srt_data(&data(0, 5), &o, 1920, 1080);
    assert_eq!(line.text, "Distance:  5m  ");
}

#[test]
fn full_line_concatenates_enabled_fields() {
    let mut o = options_none();
    o.show_time = true;
    o.show_sbat = true;
    o.show_gbat = true;
    o.show_signal = true;
    o.show_latency = true;
    o.show_bitrate = true;
    o.show_distance = true;
    let line = overlay_srt_data(&data(61, 100), &o, 1920, 1080);
    assert_eq!(
        line.text,
        "Time:1:01  SBat: 4.8V  GBat:12.1V  Signal:4  Latency: 32ms  Bitrate:25.5Mbps  Distance:100m  "
    );
}

#[test]
fn anchor_scales_to_frame_dimensions() {
    let mut o = options_none();
    o.show_time = true;
    o.position_x = 50;
    o.position_y = 10;
    o.scale = 30;
    let line = overlay_srt_data(&data(0, 0), &o, 1920, 1080);
    assert_eq!(line.x, 960);
    assert_eq!(line.y, 108);
    assert_eq!(line.scale, 30);
}

#[test]
fn debug_tokens_follow_field_order() {
    let mut o = options_none();
    o.show_channel = true;
    o.show_snr = true;
    o.show_gain = true;
    let toks = overlay_srt_debug_data(&debug_data(), &o);
    let expected = vec![
        "CH:7",
        "GSNR:-1.5",
        "SSNR:20.1",
        "[Gain:1.05",
        "Exp:2.500ms",
        "Lx:50]",
    ];
    assert_eq!(toks, expected);
}

#[test]
fn debug_tokens_err_iso_cct_rb() {
    let mut o = options_none();
    o.show_err = true;
    o.show_iso = true;
    o.show_cct = true;
    o.show_rb = true;
    let toks = overlay_srt_debug_data(&debug_data(), &o);
    let expected = vec![
        "Gerr:0",
        "SErr:2",
        "9",
        "[ISO:400",
        "Mode:1",
        "Exp:12]",
        "[CCT:5600]",
        "[RB:1.23",
        "0.45]",
    ];
    assert_eq!(toks, expected);
}

#[test]
fn debug_temperature_tokens_carry_degree_unit() {
    let mut o = options_none();
    o.show_g_temp = true;
    o.show_s_temp = true;
    o.show_frame = true;
    let toks = overlay_srt_debug_data(&debug_data(), &o);
    let expected = vec!["G:36.5\u{b0}C", "S:51.2\u{b0}C", "Frame:1234"];
    assert_eq!(toks, expected);
}

#[test]
fn wrap_packs_two_tokens_then_one_and_drops_the_overflow() {
    // The frame is wide enough for exactly two of the narrow tokens per
    // line; the fourth token fits on neither line and is dropped.
    let tokens = vec![
        String::from("aa"),
        String::from("bb"),
        String::from("cc"),
        String::from("dd"),
    ];
    let widths = vec![10u32, 10, 10, 20];
    let mut o = options_none();
    o.position_y = 10;
    o.scale = 40;
    let lines = overlay_string(&tokens, &widths, 2, &o, 22, 1080);
    assert_eq!(lines.len(), 2);
    assert_eq!(lines[0].text, "aa bb");
    assert_eq!(lines[1].text, "cc");
    assert_eq!(lines[0].y, 108);
    assert_eq!(lines[1].y, 148);
}

#[test]
fn wrap_keeps_everything_on_one_line_when_it_fits() {
    let tokens = vec![String::from("aa"), String::from("bb")];
    let widths = vec![10u32, 10];
    let o = options_none();
    let lines = overlay_string(&tokens, &widths, 2, &o, 1920, 1080);
    assert_eq!(lines.len(), 1);
    assert_eq!(lines[0].text, "aa bb");
}

#[test]
fn time_minutes_are_not_converted_to_hours() {
    let mut o = options_none();
    o.show_time = true;
    let line = overlay_srt_data(&data(3700, 0), &o, 1920, 1080);
    assert_eq!(line.text, "Time:61:40  ");
}

#[test]
fn token_wider_than_the_frame_starts_the_second_line() {
    // A first token that overflows an empty first line still starts the
    // second line, leaving the first empty.
    let tokens = vec![String::from("wide"), String::from("x")];
    let widths = vec![100u32, 10];
    let o = options_none();
    let lines = overlay_string(&tokens, &widths, 2, &o, 50, 1080);
    assert_eq!(lines.len(), 2);
    assert_eq!(lines[0].text, "");
    assert_eq!(lines[1].text, "wide");
}

#[test]
fn two_line_anchor_rounds_to_the_nearest_pixel() {
    // 1% of 150 pixels is 1.5; the two-line overlay rounds up where
    // the single-line overlay truncates.
    let tokens = vec![String::from("aa")];
    let widths = vec![10u32];
    let mut o = options_none();
    o.position_x = 1;
    let lines = overlay_string(&tokens, &widths, 2, &o, 150, 1080);
    assert_eq!(lines[0].x, 2);
    let line = overlay_srt_data(&data(0, 0), &o, 150, 1080);
    assert_eq!(line.x, 1);
}
