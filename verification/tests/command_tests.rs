use osd_render::command::{
    decoder_args, encoder_args, output_file, with_mov_extension, Encoder, RenderSettings,
    VideoInfo,
};
use osd_render::compositor::ChromaKey;

fn video() -> VideoInfo {
    VideoInfo {
        width: 1280,
        height: 720,
        frame_rate_num: 60,
        frame_rate_den: 1,
        time_base: 60000,
    }
}

fn settings(name: &str) -> RenderSettings {
    RenderSettings {
        bitrate_mbps: 40,
        encoder: Encoder {
            name: String::from(name),
            extra_args: vec![String::from("-preset"), String::from("slow")],
        },
        upscale: false,
        rescale_to_4x3_aspect: false,
        use_chroma_key: false,
        chroma_key: ChromaKey { r: 0, g: 255, b: 0 },
    }
}

#[test]
fn decoder_reads_the_input_and_emits_raw_rgba() {
    let args = decoder_args(&String::from("in.mp4"));
    assert_eq!(
        args,
        vec!["-i", "in.mp4", "-f", "rawvideo", "-pix_fmt", "rgba", "-"]
    );
}

#[test]
fn encoder_args_carry_format_mapping_codec_and_timescale() {
    let args = encoder_args(
        &video(),
        &settings("libx264"),
        &String::from("in.mp4"),
        &String::from("out.mp4"),
    );
    let expected: Vec<&str> = vec![
        "-f", "rawvideo", "-pix_fmt", "rgba", "-s", "1280x720", "-r", "60/1", "-i", "-", "-i",
        "in.mp4", "-map", "0", "-map", "1:a?", "-c:a", "copy", "-c:v", "libx264", "-b:v", "40M",
        "-preset", "slow", "-video_track_timescale", "60000", "-y", "out.mp4",
    ];
    assert_eq!(args, expected);
}

#[test]
fn upscale_uses_the_cpu_path_for_plain_codecs() {
    let mut s = settings("libx265");
    s.upscale = true;
    s.encoder.extra_args = Vec::new();
    let args = encoder_args(&video(), &s, &String::from("a"), &String::from("b"));
    let pos = args.iter().position(|a| a == "-vf").unwrap();
    assert_eq!(args[pos + 1], "scale=-2:1440:flags=lanczos");
}

#[test]
fn upscale_uses_the_gpu_path_for_nvenc_codecs() {
    let mut s = settings("hevc_nvenc");
    s.upscale = true;
    let args = encoder_args(&video(), &s, &String::from("a"), &String::from("b"));
    let pos = args.iter().position(|a| a == "-vf").unwrap();
    assert_eq!(args[pos + 1], "format=rgb24,hwupload_cuda,scale_cuda=-2:1440:4");
}

#[test]
fn aspect_override_is_emitted_only_when_requested() {
    let mut s = settings("libx264");
    s.rescale_to_4x3_aspect = true;
    let args = encoder_args(&video(), &s, &String::from("a"), &String::from("b"));
    let pos = args.iter().position(|a| a == "-aspect").unwrap();
    assert_eq!(args[pos + 1], "4:3");
    let s2 = settings("libx264");
    let args2 = encoder_args(&video(), &s2, &String::from("a"), &String::from("b"));
    assert!(!args2.iter().any(|a| a == "-aspect"));
}

#[test]
fn prores_forces_a_mov_container() {
    let args = encoder_args(
        &video(),
        &settings("prores_ks"),
        &String::from("in.mp4"),
        &String::from("out.mp4"),
    );
    assert_eq!(args.last().unwrap(), "out.mov");
    assert_eq!(
        output_file(&String::from("clip.mp4"), &String::from("prores_ks")),
        "clip.mov"
    );
    assert_eq!(
        output_file(&String::from("clip.mp4"), &String::from("libx264")),
        "clip.mp4"
    );
}

#[test]
fn extension_replacement_respects_path_components() {
    assert_eq!(with_mov_extension(&String::from("out.mp4")), "out.mov");
    assert_eq!(
        with_mov_extension(&String::from("archive.tar.gz")),
        "archive.tar.mov"
    );
    assert_eq!(
        with_mov_extension(&String::from("dir.d/out")),
        "dir.d/out.mov"
    );
    assert_eq!(with_mov_extension(&String::from("noext")), "noext.mov");
}

#[test]
fn hidden_file_names_are_all_stem() {
    assert_eq!(with_mov_extension(&String::from(".render")), ".render.mov");
    assert_eq!(with_mov_extension(&String::from("dir/.render")), "dir/.render.mov");
    assert_eq!(with_mov_extension(&String::from(".render.txt")), ".render.mov");
}
