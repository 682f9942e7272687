use palmier_pro::export::video_encoder;
use palmier_pro::ffmpeg::{
    export_arguments, find_ffmpeg, path_from_where, scale_pad_text, ExportText, LayerText, FFMPEG_IN_PROGRAM_FILES,
    FFMPEG_IN_ROOT,
};

fn layer(path: &str, is_image: bool) -> LayerText {
    LayerText {
        path: path.to_string(),
        is_image,
        start: "1.000000".to_string(),
        end: "3.000000".to_string(),
        duration: "2.000000".to_string(),
        trim_start: "0.500000".to_string(),
        speed: "1".to_string(),
    }
}

fn export() -> ExportText {
    ExportText {
        fps: "30".to_string(),
        duration: "4".to_string(),
        duration_fixed: "4.000000".to_string(),
        width: 1920,
        height: 1080,
        encoder: "libx264".to_string(),
        output: "/out.mp4".to_string(),
    }
}

const PAD: &str = "scale=1920:1080:force_original_aspect_ratio=decrease,pad=1920:1080:(ow-iw)/2:(oh-ih)/2:black";

#[test]
fn scale_and_pad_filter() {
    assert_eq!(scale_pad_text(1920, 1080), PAD);
}

#[test]
fn codecs() {
    assert_eq!(video_encoder("h265"), "libx265");
    assert_eq!(video_encoder("hevc"), "libx265");
    assert_eq!(video_encoder("h264"), "libx264");
    assert_eq!(video_encoder("anything"), "libx264");
}

#[test]
fn nothing_to_export() {
    assert_eq!(export_arguments(&vec![], &export()), Err("no exportable clips".to_string()));
}

#[test]
fn a_single_video_clip() {
    let args = export_arguments(&vec![layer("/m.mp4", false)], &export()).unwrap();
    let want = vec![
        "-ss".to_string(),
        "0.500000".to_string(),
        "-i".to_string(),
        "/m.mp4".to_string(),
        "-t".to_string(),
        "2.000000".to_string(),
        "-vf".to_string(),
        format!("setpts=PTS/1,{PAD},fps=30"),
        "-c:v".to_string(),
        "libx264".to_string(),
        "-pix_fmt".to_string(),
        "yuv420p".to_string(),
        "-y".to_string(),
        "/out.mp4".to_string(),
    ];
    assert_eq!(args, want);
}

#[test]
fn a_single_image() {
    let args = export_arguments(&vec![layer("/p.png", true)], &export()).unwrap();
    assert_eq!(args[0], "-loop");
    assert_eq!(args[5], format!("loop=loop=-1:size=1:start=0,trim=duration=4,fps=30,{PAD}"));
    assert_eq!(args[11], "4.000000");
}

#[test]
fn several_layers_are_composited() {
    let args = export_arguments(&vec![layer("/a.mp4", false), layer("/b.png", true)], &export()).unwrap();
    let head: Vec<&str> = args.iter().take(9).map(|s| s.as_str()).collect();
    assert_eq!(
        head,
        vec!["-f", "lavfi", "-i", "color=c=black:s=1920x1080:r=30:d=4.000000", "-i", "/a.mp4", "-loop", "1", "-i"]
    );
    let graph = &args[11];
    assert!(graph.starts_with("[1:v]trim=start=0.500000:duration=2.000000,setpts=PTS-STARTPTS,setpts=PTS/1,"));
    assert!(graph.contains("[0:v][v0]overlay=enable='between(t,1.000000,3.000000)'[o0];"));
    assert!(graph.contains("[2:v]loop=loop=-1:size=1,fps=30,trim=duration=2.000000,setpts=PTS-STARTPTS+1.000000/TB,"));
    assert!(graph.ends_with("[o1]format=yuv420p[out]"));
    assert_eq!(args[args.len() - 1], "/out.mp4");
}

#[test]
fn ffmpeg_lookup() {
    assert_eq!(find_ffmpeg(Ok("C:\\bin\\ffmpeg.exe".to_string()), true, true), Ok("C:\\bin\\ffmpeg.exe".to_string()));
    assert_eq!(find_ffmpeg(Err("x".to_string()), true, true), Ok(FFMPEG_IN_ROOT.to_string()));
    assert_eq!(find_ffmpeg(Err("x".to_string()), false, true), Ok(FFMPEG_IN_PROGRAM_FILES.to_string()));
    assert_eq!(
        find_ffmpeg(Err("x".to_string()), false, false),
        Err("FFmpeg not found. Install FFmpeg and add it to PATH.".to_string())
    );
    assert_eq!(FFMPEG_IN_ROOT, r"C:\ffmpeg\bin\ffmpeg.exe");
}

#[test]
fn where_output() {
    assert_eq!(path_from_where(true, "C:\\ff\\ffmpeg.exe\r\nC:\\other\\ffmpeg.exe\r\n"), Ok("C:\\ff\\ffmpeg.exe".to_string()));
    assert_eq!(path_from_where(true, "  /usr/bin/ffmpeg  "), Ok("/usr/bin/ffmpeg".to_string()));
    assert_eq!(path_from_where(true, "\n/usr/bin/ffmpeg"), Err("empty".to_string()));
    assert_eq!(path_from_where(true, ""), Err("empty".to_string()));
    assert_eq!(path_from_where(false, "/usr/bin/ffmpeg"), Err("not in PATH".to_string()));
}
