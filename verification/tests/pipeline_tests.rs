use osd_render::compositor::{
    composite_frame, ChromaKey, CompositedFrame, FrameOverlayIter, OsdFrame, RawFrame,
};
use osd_render::messages::{
    handle_decoder_events, handle_encoder_events, FromFfmpegMessage, LogLevel, RenderEvent,
    RenderProgress, ToFfmpegMessage,
};
use osd_render::srt_data::{frames_are_time_sorted, SrtFile, SrtFrame, SrtFrameData};

fn srt_frame(start_ms: u64, end_ms: u64, distance: u32) -> SrtFrame {
    SrtFrame {
        start_time_ms: start_ms,
        end_time_ms: end_ms,
        data: Some(SrtFrameData {
            flight_time: 0,
            sky_bat: 0,
            ground_bat: 0,
            signal: 0,
            latency: 0,
            bitrate_mbps: 0,
            distance,
        }),
        debug_data: None,
    }
}

fn gray_frame() -> RawFrame {
    RawFrame::new(2, 2, vec![128u8; 16]).unwrap()
}

fn compositor_over(srt_frames: Vec<SrtFrame>) -> FrameOverlayIter {
    let (_tx, rx) = crossbeam_channel::unbounded::<ToFfmpegMessage>();
    FrameOverlayIter::new(Vec::new(), srt_frames, 1, 1, 2, 2, None, rx)
}

#[test]
fn active_record_tracks_intervals_and_gaps() {
    // One frame per second; records cover [0,1s), [1s,2s), a gap at
    // [2s,3s), then [3s,4s).
    let frames = vec![
        srt_frame(0, 1000, 1),
        srt_frame(1000, 2000, 2),
        srt_frame(3000, 4000, 3),
    ];
    assert!(frames_are_time_sorted(&frames));
    let mut it = compositor_over(frames);
    let f = gray_frame();
    let picks: Vec<Option<usize>> = (0..4).map(|_| it.next_frame(&f).unwrap().srt_index).collect();
    assert_eq!(picks, vec![Some(0), Some(1), None, Some(2)]);
}

#[test]
fn unsorted_records_are_rejected_by_the_checker() {
    let frames = vec![srt_frame(1000, 2000, 0), srt_frame(0, 1000, 0)];
    assert!(!frames_are_time_sorted(&frames));
    let empty_interval = vec![srt_frame(500, 500, 0)];
    assert!(!frames_are_time_sorted(&empty_interval));
}

#[test]
fn output_count_equals_input_count_without_cancellation() {
    let mut it = compositor_over(vec![srt_frame(0, 10_000, 1)]);
    let frames: Vec<RawFrame> = (0..5).map(|_| gray_frame()).collect();
    let commands: Vec<Option<ToFfmpegMessage>> = vec![None; 5];
    let out: Vec<CompositedFrame> = it.composite_all(&frames, &commands);
    assert_eq!(out.len(), frames.len());
}

#[test]
fn cancellation_stops_the_sequence_before_the_next_pull() {
    let mut it = compositor_over(vec![srt_frame(0, 10_000, 1)]);
    let frames: Vec<RawFrame> = (0..5).map(|_| gray_frame()).collect();
    let commands: Vec<Option<ToFfmpegMessage>> = vec![
        None,
        None,
        Some(ToFfmpegMessage::AbortRender),
        None,
        None,
    ];
    let out = it.composite_all(&frames, &commands);
    assert_eq!(out.len(), 2);
    // Once cancelled, the compositor yields nothing ever after.
    assert!(it.next_frame(&gray_frame()).is_none());
}

#[test]
fn cancel_command_received_over_the_channel_is_honored() {
    let (tx, rx) = crossbeam_channel::unbounded::<ToFfmpegMessage>();
    let mut it = FrameOverlayIter::new(Vec::new(), Vec::new(), 30, 1, 2, 2, None, rx);
    let f = gray_frame();
    assert!(it.next_frame(&f).is_some());
    tx.send(ToFfmpegMessage::AbortRender).unwrap();
    assert!(it.next_frame(&f).is_none());
    assert!(it.next_frame(&f).is_none());
}

#[test]
fn osd_pixels_blend_over_the_video_frame() {
    let base = RawFrame::new(1, 1, vec![200, 200, 200, 255]).unwrap();
    let osd = RawFrame::new(1, 1, vec![100, 50, 0, 128]).unwrap();
    let out = composite_frame(&base, Some(&osd), None);
    // (100*128 + 200*127) / 255 = 149, (50*128 + 200*127) / 255 = 124,
    // (0*128 + 200*127) / 255 = 99, alpha 128 + 255*127/255 = 255.
    assert_eq!(out.data, vec![149, 124, 99, 255]);
}

#[test]
fn fully_transparent_osd_leaves_the_frame_unchanged() {
    let base = RawFrame::new(1, 1, vec![10, 20, 30, 255]).unwrap();
    let osd = RawFrame::new(1, 1, vec![99, 99, 99, 0]).unwrap();
    let out = composite_frame(&base, Some(&osd), None);
    assert_eq!(out.data, vec![10, 20, 30, 255]);
}

#[test]
fn chroma_key_clears_alpha_within_tolerance() {
    let key = ChromaKey { r: 0, g: 255, b: 0 };
    let base = RawFrame::new(2, 1, vec![2, 253, 3, 255, 90, 90, 90, 255]).unwrap();
    let out = composite_frame(&base, None, Some(&key));
    assert_eq!(out.data, vec![2, 253, 3, 0, 90, 90, 90, 255]);
}

#[test]
fn compositor_applies_chroma_key_and_osd_together() {
    let key = ChromaKey { r: 0, g: 255, b: 0 };
    let osd = OsdFrame {
        start_time_ms: 0,
        frame: RawFrame::new(1, 1, vec![100, 50, 0, 128]).unwrap(),
    };
    let (_tx, rx) = crossbeam_channel::unbounded::<ToFfmpegMessage>();
    let mut it = FrameOverlayIter::new(vec![osd], Vec::new(), 30, 1, 1, 1, Some(key), rx);
    let frame = RawFrame::new(1, 1, vec![0, 255, 0, 255]).unwrap();
    let out = it.next_frame(&frame).unwrap();
    // Colors blend as usual; the keyed source alpha feeds the alpha
    // blend: 128 + 0*127/255 = 128.
    assert_eq!(out.frame.data[3], 128);
    assert_eq!(out.frame.data[0] as u32, (100u32 * 128 + 0 * 127) / 255);
}

#[test]
fn raw_frame_rejects_wrong_buffer_size() {
    assert!(RawFrame::new(2, 2, vec![0u8; 15]).is_none());
    assert!(RawFrame::new(0, 2, vec![]).is_none());
    assert!(RawFrame::new(2, 2, vec![0u8; 16]).is_some());
}

#[test]
fn fatal_pattern_is_escalated_despite_mild_severity() {
    let e = RenderEvent::Log(
        LogLevel::Error,
        String::from("[mp4 @ 0x1] Error initializing output stream 0:0"),
    );
    match handle_encoder_events(e) {
        Some(FromFfmpegMessage::EncoderFatalError(text)) => {
            assert!(text.contains("Error initializing output stream"));
        }
        other => panic!("expected a fatal encoder error, got {:?}", msg_kind(&other)),
    }
}

#[test]
fn cannot_load_pattern_is_escalated() {
    let e = RenderEvent::Log(LogLevel::Info, String::from("[error] Cannot load font file"));
    assert!(matches!(
        handle_encoder_events(e),
        Some(FromFfmpegMessage::EncoderFatalError(_))
    ));
}

#[test]
fn fatal_severity_is_escalated() {
    let e = RenderEvent::Log(LogLevel::Fatal, String::from("boom"));
    assert!(matches!(
        handle_encoder_events(e),
        Some(FromFfmpegMessage::EncoderFatalError(_))
    ));
}

#[test]
fn benign_encoder_lines_are_not_surfaced() {
    let e = RenderEvent::Log(LogLevel::Warning, String::from("deprecated pixel format"));
    assert!(handle_encoder_events(e).is_none());
    assert!(handle_encoder_events(RenderEvent::Other).is_none());
}

#[test]
fn encoder_log_end_reports_finished() {
    assert!(matches!(
        handle_encoder_events(RenderEvent::LogEof),
        Some(FromFfmpegMessage::EncoderFinished)
    ));
}

#[test]
fn decoder_progress_is_forwarded_verbatim() {
    let p = RenderProgress {
        frame: 42,
        size_kb: 1024,
        time: String::from("00:00:01.40"),
    };
    match handle_decoder_events(RenderEvent::Progress(p)) {
        Some(FromFfmpegMessage::Progress(p)) => {
            assert_eq!(p.frame, 42);
            assert_eq!(p.size_kb, 1024);
            assert_eq!(p.time, "00:00:01.40");
        }
        other => panic!("expected progress, got {:?}", msg_kind(&other)),
    }
}

#[test]
fn decoder_completion_and_log_end_report_finished() {
    assert!(matches!(
        handle_decoder_events(RenderEvent::Done),
        Some(FromFfmpegMessage::DecoderFinished)
    ));
    assert!(matches!(
        handle_decoder_events(RenderEvent::LogEof),
        Some(FromFfmpegMessage::DecoderFinished)
    ));
}

#[test]
fn decoder_warnings_stay_local() {
    let e = RenderEvent::Log(LogLevel::Warning, String::from("mind the gap"));
    assert!(handle_decoder_events(e).is_none());
    let e = RenderEvent::Log(LogLevel::Error, String::from("recoverable"));
    assert!(handle_decoder_events(e).is_none());
    let e = RenderEvent::Log(LogLevel::Fatal, String::from("no"));
    assert!(matches!(
        handle_decoder_events(e),
        Some(FromFfmpegMessage::DecoderFatalError(_))
    ));
}

fn msg_kind(m: &Option<FromFfmpegMessage>) -> &'static str {
    match m {
        None => "none",
        Some(FromFfmpegMessage::Progress(_)) => "progress",
        Some(FromFfmpegMessage::DecoderFinished) => "decoder finished",
        Some(FromFfmpegMessage::DecoderFatalError(_)) => "decoder fatal",
        Some(FromFfmpegMessage::EncoderFinished) => "encoder finished",
        Some(FromFfmpegMessage::EncoderFatalError(_)) => "encoder fatal",
    }
}

#[test]
fn srt_file_summarizes_its_records() {
    let frames = vec![srt_frame(0, 1000, 0), srt_frame(1000, 2000, 7)];
    let file = SrtFile::from_frames(String::from("flight.srt"), frames).unwrap();
    assert!(file.has_distance);
    assert!(!file.has_debug);
    assert_eq!(file.duration_ms, 2000);
    assert_eq!(file.frames.len(), 2);
    assert_eq!(file.file_path, "flight.srt");
}

#[test]
fn srt_file_without_records_is_rejected() {
    assert!(SrtFile::from_frames(String::from("empty.srt"), Vec::new()).is_none());
}

#[test]
fn srt_file_detects_debug_records() {
    let mut f = srt_frame(0, 1000, 0);
    f.debug_data = Some(osd_render::srt_data::SrtDebugFrameData {
        channel: 1,
        gsnr: 0,
        ssnr: 0,
        gtemp: 0,
        stemp: 0,
        frame: 0,
        gerr: 0,
        serr: 0,
        serr_ext: 0,
        iso: 0,
        iso_mode: 0,
        iso_exp: 0,
        gain: 0,
        gain_exp: 0,
        gain_lx: 0,
        cct: 0,
        rb: 0,
        rb_ext: 0,
    });
    let file = SrtFile::from_frames(String::from("d.srt"), vec![f]).unwrap();
    assert!(file.has_debug);
    assert!(!file.has_distance);
}
