//! Construction of the decoder and encoder command lines: the exact
//! argument vectors handed to the two ffmpeg subprocesses, and the
//! codec-conditional output container override.

use vstd::prelude::*;

use crate::compositor::ChromaKey;
use crate::overlay::{lemma_views_concat, views};
use crate::text::{dec_digits, spec_contains, contains_str, u32_string};

verus! {

/// The selected video encoder: its codec name and its codec-specific
/// extra arguments.
pub struct Encoder {
    pub name: String,
    pub extra_args: Vec<String>,
}

/// Settings of one render.
pub struct RenderSettings {
    /// Video bitrate in megabits per second.
    pub bitrate_mbps: u32,
    pub encoder: Encoder,
    /// Upscale the video to 1440 pixels of height.
    pub upscale: bool,
    /// Override the container-level aspect ratio to 4:3 without
    /// resampling pixels.
    pub rescale_to_4x3_aspect: bool,
    pub use_chroma_key: bool,
    pub chroma_key: ChromaKey,
}

/// The source video's dimensions, frame rate (as a rational number of
/// frames per second) and track timescale, supplied by an external
/// probing step.
pub struct VideoInfo {
    pub width: u32,
    pub height: u32,
    pub frame_rate_num: u32,
    pub frame_rate_den: u32,
    pub time_base: u32,
}

/// The decoder's argument vector: read the input file and write raw
/// RGBA frames to standard output.
pub open spec fn spec_decoder_args(input_video: Seq<char>) -> Seq<Seq<char>> {
    seq!["-i"@, input_video, "-f"@, "rawvideo"@, "-pix_fmt"@, "rgba"@, "-"@]
}

/// Builds the decoder's argument vector.
pub fn decoder_args(input_video: &String) -> (r: Vec<String>)
    ensures
        views(r@) == spec_decoder_args(input_video@),
{
    let mut r: Vec<String> = Vec::new();
    r.push(String::from_str("-i"));
    r.push(input_video.clone());
    r.push(String::from_str("-f"));
    r.push(String::from_str("rawvideo"));
    r.push(String::from_str("-pix_fmt"));
    r.push(String::from_str("rgba"));
    r.push(String::from_str("-"));
    proof {
        assert(views(r@) =~= spec_decoder_args(input_video@));
    }
    r
}

/// The index of the dot starting the path's extension: the last `.`
/// of the final path component. A component without a dot has no
/// extension, and neither does one whose only dot leads it (a hidden
/// file's name is all stem).
pub open spec fn last_dot(s: Seq<char>) -> int
    decreases s.len(),
{
    if s.len() == 0 {
        -1
    } else if s.last() == '/' {
        -1
    } else if s.last() == '.' {
        if s.len() == 1 || s[s.len() - 2] == '/' {
            -1
        } else {
            s.len() - 1
        }
    } else {
        last_dot(s.drop_last())
    }
}

/// The path with its extension replaced by `mov`; a path without an
/// extension gets `.mov` appended.
pub open spec fn spec_with_mov(s: Seq<char>) -> Seq<char> {
    if last_dot(s) >= 0 {
        s.subrange(0, last_dot(s)) + ".mov"@
    } else {
        s + ".mov"@
    }
}

/// Replaces the path's extension by `mov`.
pub fn with_mov_extension(path: &String) -> (r: String)
    ensures
        r@ == spec_with_mov(path@),
{
    let s = path.as_str();
    let n = s.unicode_len();
    let mut j = n;
    proof {
        assert(s@.subrange(0, n as int) =~= s@);
    }
    while j > 0
        invariant
            s@ == path@,
            n == s@.len(),
            j <= n,
            last_dot(s@) == last_dot(s@.subrange(0, j as int)),
        decreases j,
    {
        let c = s.get_char(j - 1);
        proof {
            assert(s@.subrange(0, j as int).last() == s@[j - 1]);
            assert(s@.subrange(0, j as int).drop_last() =~= s@.subrange(0, j - 1));
        }
        if c == '.' {
            let leading = if j == 1 {
                true
            } else {
                s.get_char(j - 2) == '/'
            };
            if leading {
                proof {
                    assert(last_dot(s@.subrange(0, j as int)) == -1);
                }
                return path.clone().concat(".mov");
            }
            proof {
                assert(last_dot(s@.subrange(0, j as int)) == j - 1);
            }
            let mut r = String::from_str(s.substring_char(0, j - 1));
            r.append(".mov");
            proof {
                assert(r@ =~= spec_with_mov(path@));
            }
            return r;
        } else if c == '/' {
            proof {
                assert(last_dot(s@.subrange(0, j as int)) == -1);
            }
            return path.clone().concat(".mov");
        }
        j = j - 1;
    }
    proof {
        assert(s@.subrange(0, 0) =~= Seq::<char>::empty());
        assert(last_dot(s@) == -1);
    }
    path.clone().concat(".mov")
}

/// The output file for the selected codec: a ProRes-family codec
/// forces a `.mov` container, any other codec keeps the requested
/// path.
pub open spec fn spec_output_file(output: Seq<char>, encoder_name: Seq<char>) -> Seq<char> {
    if encoder_name == "prores_ks"@ {
        spec_with_mov(output)
    } else {
        output
    }
}

/// Picks the output file for the selected codec.
pub fn output_file(output: &String, encoder_name: &String) -> (r: String)
    ensures
        r@ == spec_output_file(output@, encoder_name@),
{
    let prores = String::from_str("prores_ks");
    if encoder_name.eq(&prores) {
        with_mov_extension(output)
    } else {
        output.clone()
    }
}

/// The encoder's argument vector: raw RGBA frames on standard input at
/// the source dimensions and frame rate; the original file as a second
/// input for audio passthrough (video mapped from input 0, optional
/// audio mapped from input 1 and copied); an optional upscale filter,
/// GPU-accelerated when the codec name carries the GPU marker; an
/// optional container-level 4:3 aspect override; the selected codec,
/// bitrate and extra arguments; the explicit output timescale; and the
/// output file with its codec-conditional container.
pub open spec fn spec_encoder_args(
    video: VideoInfo,
    settings: RenderSettings,
    original_file: Seq<char>,
    output_video: Seq<char>,
) -> Seq<Seq<char>> {
    seq![
        "-f"@,
        "rawvideo"@,
        "-pix_fmt"@,
        "rgba"@,
        "-s"@,
        dec_digits(video.width as nat) + "x"@ + dec_digits(video.height as nat),
        "-r"@,
        dec_digits(video.frame_rate_num as nat) + "/"@ + dec_digits(video.frame_rate_den as nat),
        "-i"@,
        "-"@,
        "-i"@,
        original_file,
        "-map"@,
        "0"@,
        "-map"@,
        "1:a?"@,
        "-c:a"@,
        "copy"@,
    ] + (if settings.upscale {
        if spec_contains(settings.encoder.name@, "nvenc"@) {
            seq!["-vf"@, "format=rgb24,hwupload_cuda,scale_cuda=-2:1440:4"@]
        } else {
            seq!["-vf"@, "scale=-2:1440:flags=lanczos"@]
        }
    } else {
        Seq::empty()
    }) + (if settings.rescale_to_4x3_aspect {
        seq!["-aspect"@, "4:3"@]
    } else {
        Seq::empty()
    }) + seq![
        "-c:v"@,
        settings.encoder.name@,
        "-b:v"@,
        dec_digits(settings.bitrate_mbps as nat) + "M"@,
    ] + views(settings.encoder.extra_args@) + seq![
        "-video_track_timescale"@,
        dec_digits(video.time_base as nat),
        "-y"@,
        spec_output_file(output_video, settings.encoder.name@),
    ]
}

fn append_args(dst: &mut Vec<String>, src: Vec<String>)
    ensures
        final(dst)@ == old(dst)@ + src@,
{
    let mut src = src;
    dst.append(&mut src);
}

fn encoder_head_args(video: &VideoInfo, original_file: &String) -> (r: Vec<String>)
    ensures
        views(r@) == seq![
            "-f"@,
            "rawvideo"@,
            "-pix_fmt"@,
            "rgba"@,
            "-s"@,
            dec_digits(video.width as nat) + "x"@ + dec_digits(video.height as nat),
            "-r"@,
            dec_digits(video.frame_rate_num as nat) + "/"@ + dec_digits(
                video.frame_rate_den as nat,
            ),
            "-i"@,
            "-"@,
            "-i"@,
            original_file@,
            "-map"@,
            "0"@,
            "-map"@,
            "1:a?"@,
            "-c:a"@,
            "copy"@,
        ],
{
    let mut size = u32_string(video.width);
    size.append("x");
    size.append(u32_string(video.height).as_str());
    let mut rate = u32_string(video.frame_rate_num);
    rate.append("/");
    rate.append(u32_string(video.frame_rate_den).as_str());
    let mut r: Vec<String> = Vec::new();
    r.push(String::from_str("-f"));
    r.push(String::from_str("rawvideo"));
    r.push(String::from_str("-pix_fmt"));
    r.push(String::from_str("rgba"));
    r.push(String::from_str("-s"));
    r.push(size);
    r.push(String::from_str("-r"));
    r.push(rate);
    r.push(String::from_str("-i"));
    r.push(String::from_str("-"));
    r.push(String::from_str("-i"));
    r.push(original_file.clone());
    r.push(String::from_str("-map"));
    r.push(String::from_str("0"));
    r.push(String::from_str("-map"));
    r.push(String::from_str("1:a?"));
    r.push(String::from_str("-c:a"));
    r.push(String::from_str("copy"));
    proof {
        assert(views(r@) =~= seq![
            "-f"@,
            "rawvideo"@,
            "-pix_fmt"@,
            "rgba"@,
            "-s"@,
            dec_digits(video.width as nat) + "x"@ + dec_digits(video.height as nat),
            "-r"@,
            dec_digits(video.frame_rate_num as nat) + "/"@ + dec_digits(
                video.frame_rate_den as nat,
            ),
            "-i"@,
            "-"@,
            "-i"@,
            original_file@,
            "-map"@,
            "0"@,
            "-map"@,
            "1:a?"@,
            "-c:a"@,
            "copy"@,
        ]);
    }
    r
}

fn encoder_filter_args(settings: &RenderSettings) -> (r: Vec<String>)
    ensures
        views(r@) == (if settings.upscale {
            if spec_contains(settings.encoder.name@, "nvenc"@) {
                seq!["-vf"@, "format=rgb24,hwupload_cuda,scale_cuda=-2:1440:4"@]
            } else {
                seq!["-vf"@, "scale=-2:1440:flags=lanczos"@]
            }
        } else {
            Seq::empty()
        }),
{
    let mut r: Vec<String> = Vec::new();
    if settings.upscale {
        r.push(String::from_str("-vf"));
        if contains_str(settings.encoder.name.as_str(), "nvenc") {
            r.push(String::from_str("format=rgb24,hwupload_cuda,scale_cuda=-2:1440:4"));
        } else {
            r.push(String::from_str("scale=-2:1440:flags=lanczos"));
        }
    }
    proof {
        if settings.upscale {
            if spec_contains(settings.encoder.name@, "nvenc"@) {
                assert(views(r@) =~= seq![
                    "-vf"@,
                    "format=rgb24,hwupload_cuda,scale_cuda=-2:1440:4"@,
                ]);
            } else {
                assert(views(r@) =~= seq!["-vf"@, "scale=-2:1440:flags=lanczos"@]);
            }
        } else {
            assert(views(r@) =~= Seq::<Seq<char>>::empty());
        }
    }
    r
}

fn encoder_tail_args(video: &VideoInfo, settings: &RenderSettings, output_video: &String) -> (r:
    Vec<String>)
    ensures
        views(r@) == seq![
            "-c:v"@,
            settings.encoder.name@,
            "-b:v"@,
            dec_digits(settings.bitrate_mbps as nat) + "M"@,
        ] + views(settings.encoder.extra_args@) + seq![
            "-video_track_timescale"@,
            dec_digits(video.time_base as nat),
            "-y"@,
            spec_output_file(output_video@, settings.encoder.name@),
        ],
{
    let mut bitrate = u32_string(settings.bitrate_mbps);
    bitrate.append("M");
    let mut r: Vec<String> = Vec::new();
    r.push(String::from_str("-c:v"));
    r.push(settings.encoder.name.clone());
    r.push(String::from_str("-b:v"));
    r.push(bitrate);
    let ghost head = views(r@);
    proof {
        assert(head =~= seq![
            "-c:v"@,
            settings.encoder.name@,
            "-b:v"@,
            dec_digits(settings.bitrate_mbps as nat) + "M"@,
        ]);
    }
    let mut extra: Vec<String> = Vec::new();
    let m = settings.encoder.extra_args.len();
    let mut k: usize = 0;
    while k < m
        invariant
            m == settings.encoder.extra_args@.len(),
            k <= m,
            extra@ == settings.encoder.extra_args@.subrange(0, k as int),
        decreases m - k,
    {
        extra.push(settings.encoder.extra_args[k].clone());
        proof {
            assert(extra@ =~= settings.encoder.extra_args@.subrange(0, k + 1));
        }
        k += 1;
    }
    proof {
        assert(extra@ =~= settings.encoder.extra_args@);
    }
    let ghost pre = r@;
    append_args(&mut r, extra);
    proof {
        lemma_views_concat(pre, settings.encoder.extra_args@);
    }
    let ghost mid = views(r@);
    r.push(String::from_str("-video_track_timescale"));
    r.push(u32_string(video.time_base));
    r.push(String::from_str("-y"));
    r.push(output_file(output_video, &settings.encoder.name));
    proof {
        assert(views(r@) =~= mid + seq![
            "-video_track_timescale"@,
            dec_digits(video.time_base as nat),
            "-y"@,
            spec_output_file(output_video@, settings.encoder.name@),
        ]);
    }
    r
}

/// Builds the encoder's argument vector.
pub fn encoder_args(
    video: &VideoInfo,
    settings: &RenderSettings,
    original_file: &String,
    output_video: &String,
) -> (r: Vec<String>)
    ensures
        views(r@) == spec_encoder_args(*video, *settings, original_file@, output_video@),
{
    let mut r = encoder_head_args(video, original_file);
    let filter = encoder_filter_args(settings);
    let ghost filter_v = filter@;
    let ghost pre1 = r@;
    append_args(&mut r, filter);
    proof {
        lemma_views_concat(pre1, filter_v);
    }
    let mut aspect: Vec<String> = Vec::new();
    if settings.rescale_to_4x3_aspect {
        aspect.push(String::from_str("-aspect"));
        aspect.push(String::from_str("4:3"));
    }
    proof {
        if settings.rescale_to_4x3_aspect {
            assert(views(aspect@) =~= seq!["-aspect"@, "4:3"@]);
        } else {
            assert(views(aspect@) =~= Seq::<Seq<char>>::empty());
        }
    }
    let ghost aspect_v = aspect@;
    let ghost pre2 = r@;
    append_args(&mut r, aspect);
    proof {
        lemma_views_concat(pre2, aspect_v);
    }
    let tail = encoder_tail_args(video, settings, output_video);
    let ghost tail_v = tail@;
    let ghost pre3 = r@;
    append_args(&mut r, tail);
    proof {
        lemma_views_concat(pre3, tail_v);
        assert(views(r@) =~= spec_encoder_args(*video, *settings, original_file@, output_video@));
    }
    r
}

} // verus!
