//! Message protocol between the render pipeline and its caller, and the
//! classification of decoder and encoder log events into protocol
//! messages.

use vstd::prelude::*;

use crate::text::{contains_str, spec_contains};

verus! {

/// Severity that ffmpeg attaches to a log line.
#[derive(Clone, Copy, PartialEq, Eq, Structural, Debug)]
pub enum LogLevel {
    Info,
    Warning,
    Error,
    Fatal,
    Unknown,
}

/// Decode progress statistics carried by a progress event. Fractional
/// rate fields of the underlying event stream are not part of the
/// protocol; the whole-number statistics and the raw time string are.
pub struct RenderProgress {
    /// Index of the current output frame.
    pub frame: u32,
    /// Current total size of the output in kilobytes.
    pub size_kb: u32,
    /// The raw time string, in a form like `00:03:29.04`.
    pub time: String,
}

/// An event observed on a subprocess event stream: a log line with its
/// severity, the end of the log stream, a progress report, completion,
/// or anything else (parsed headers, frames, chunks), which the
/// classifiers ignore.
pub enum RenderEvent {
    Log(LogLevel, String),
    LogEof,
    Progress(RenderProgress),
    Done,
    Other,
}

/// Control commands accepted by a running pipeline.
#[derive(Clone, Copy, Debug)]
pub enum ToFfmpegMessage {
    /// Stop pulling frames; the encoder input closes and the pipeline
    /// winds down.
    AbortRender,
}

/// Status, error and completion messages sent out of the pipeline.
pub enum FromFfmpegMessage {
    Progress(RenderProgress),
    DecoderFinished,
    DecoderFatalError(String),
    EncoderFinished,
    EncoderFatalError(String),
}

/// A log line from the encoder that must be escalated to a fatal error:
/// either its severity is fatal, or it matches one of the known
/// patterns that ffmpeg mislabels as non-fatal.
pub open spec fn spec_encoder_fatal(level: LogLevel, text: Seq<char>) -> bool {
    ||| level == LogLevel::Fatal
    ||| spec_contains(text, "Error initializing output stream"@)
    ||| spec_contains(text, "[error] Cannot load"@)
}

/// What the encoder-side classifier reports for one event.
pub open spec fn spec_handle_encoder_event(event: RenderEvent) -> Option<FromFfmpegMessage> {
    match event {
        RenderEvent::Log(level, text) => if spec_encoder_fatal(level, text@) {
            Some(FromFfmpegMessage::EncoderFatalError(text))
        } else {
            None
        },
        RenderEvent::LogEof => Some(FromFfmpegMessage::EncoderFinished),
        _ => None,
    }
}

/// Classifies one event from the encoder's event stream. Fatal log
/// lines, and lines matching the known misclassified-fatal patterns,
/// become `EncoderFatalError`; the end of the log stream becomes
/// `EncoderFinished`; everything else is not surfaced.
pub fn handle_encoder_events(event: RenderEvent) -> (r: Option<FromFfmpegMessage>)
    ensures
        r == spec_handle_encoder_event(event),
{
    match event {
        RenderEvent::Log(level, text) => {
            let fatal = matches!(level, LogLevel::Fatal) || contains_str(
                text.as_str(),
                "Error initializing output stream",
            ) || contains_str(text.as_str(), "[error] Cannot load");
            if fatal {
                Some(FromFfmpegMessage::EncoderFatalError(text))
            } else {
                None
            }
        },
        RenderEvent::LogEof => Some(FromFfmpegMessage::EncoderFinished),
        _ => None,
    }
}

/// What the decoder-side classifier reports for one event.
pub open spec fn spec_handle_decoder_event(event: RenderEvent) -> Option<FromFfmpegMessage> {
    match event {
        RenderEvent::Progress(p) => Some(FromFfmpegMessage::Progress(p)),
        RenderEvent::Done => Some(FromFfmpegMessage::DecoderFinished),
        RenderEvent::LogEof => Some(FromFfmpegMessage::DecoderFinished),
        RenderEvent::Log(level, text) => if level == LogLevel::Fatal {
            Some(FromFfmpegMessage::DecoderFatalError(text))
        } else {
            None
        },
        _ => None,
    }
}

/// Classifies one event from the decoder's event stream. Progress is
/// forwarded verbatim; completion or end-of-log becomes
/// `DecoderFinished`; fatal log lines become `DecoderFatalError`;
/// warnings and errors are diagnostics only and are not surfaced.
pub fn handle_decoder_events(event: RenderEvent) -> (r: Option<FromFfmpegMessage>)
    ensures
        r == spec_handle_decoder_event(event),
{
    match event {
        RenderEvent::Progress(p) => Some(FromFfmpegMessage::Progress(p)),
        RenderEvent::Done => Some(FromFfmpegMessage::DecoderFinished),
        RenderEvent::LogEof => Some(FromFfmpegMessage::DecoderFinished),
        RenderEvent::Log(level, text) => {
            if matches!(level, LogLevel::Fatal) {
                Some(FromFfmpegMessage::DecoderFatalError(text))
            } else {
                None
            }
        },
        _ => None,
    }
}

} // verus!
