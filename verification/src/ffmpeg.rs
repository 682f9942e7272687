use vstd::prelude::*;
use crate::edit::text_result;
use crate::text::{decimal, decimal_text, trim_text, trimmed};

verus! {

/// Appends `s` to `acc`.
fn cat(acc: &mut String, s: &str)
    ensures
        final(acc)@ == old(acc)@ + s@,
{
    acc.append(s);
}

/// The filter that scales a picture to fit `w` x `h` and pads it with black.
pub open spec fn scale_pad(w: i64, h: i64) -> Seq<char> {
    "scale="@ + decimal(w as int) + ":"@ + decimal(h as int)
        + ":force_original_aspect_ratio=decrease,pad="@ + decimal(w as int) + ":"@ + decimal(
        h as int,
    ) + ":(ow-iw)/2:(oh-ih)/2:black"@
}

/// The filter that scales a picture to fit `w` x `h` and pads it with black.
pub fn scale_pad_text(w: i64, h: i64) -> (r: String)
    ensures
        r@ == scale_pad(w, h),
{
    let dw = decimal_text(w);
    let dh = decimal_text(h);
    let mut s = "scale=".to_owned();
    cat(&mut s, dw.as_str());
    cat(&mut s, ":");
    cat(&mut s, dh.as_str());
    cat(&mut s, ":force_original_aspect_ratio=decrease,pad=");
    cat(&mut s, dw.as_str());
    cat(&mut s, ":");
    cat(&mut s, dh.as_str());
    cat(&mut s, ":(ow-iw)/2:(oh-ih)/2:black");
    s
}

/// A clip of an export as the encoder's command line names it: the media
/// file, whether it is a still image, and its times in seconds already
/// written out (`start`, `end`, `duration`, `trim_start` with six
/// decimals, `speed` as a plain number).
pub struct LayerText {
    pub path: String,
    pub is_image: bool,
    pub start: String,
    pub end: String,
    pub duration: String,
    pub trim_start: String,
    pub speed: String,
}

/// The whole export: the frame rate and the length in seconds written out
/// as plain numbers, the length also with six decimals, the size, the
/// encoder and the output file.
pub struct ExportText {
    pub fps: String,
    pub duration: String,
    pub duration_fixed: String,
    pub width: i64,
    pub height: i64,
    pub encoder: String,
    pub output: String,
}

pub open spec fn texts(v: Seq<String>) -> Seq<Seq<char>> {
    Seq::new(v.len(), |i: int| v[i]@)
}

/// The encoder arguments for an export of one still image.
pub open spec fn single_image_args(l: LayerText, x: ExportText) -> Seq<Seq<char>> {
    let filter = "loop=loop=-1:size=1:start=0,trim=duration="@ + x.duration@ + ",fps="@ + x.fps@
        + ","@ + scale_pad(x.width, x.height);
    seq![
        "-loop"@,
        "1"@,
        "-i"@,
        l.path@,
        "-vf"@,
        filter,
        "-c:v"@,
        x.encoder@,
        "-pix_fmt"@,
        "yuv420p"@,
        "-t"@,
        x.duration_fixed@,
        "-y"@,
        x.output@,
    ]
}

/// The encoder arguments for an export of one video clip.
pub open spec fn single_video_args(l: LayerText, x: ExportText) -> Seq<Seq<char>> {
    let filter = "setpts=PTS/"@ + l.speed@ + ","@ + scale_pad(x.width, x.height) + ",fps="@ + x.fps@;
    seq![
        "-ss"@,
        l.trim_start@,
        "-i"@,
        l.path@,
        "-t"@,
        l.duration@,
        "-vf"@,
        filter,
        "-c:v"@,
        x.encoder@,
        "-pix_fmt"@,
        "yuv420p"@,
        "-y"@,
        x.output@,
    ]
}

/// Pushes `s` as the next argument.
fn arg(args: &mut Vec<String>, s: &str)
    ensures
        texts(final(args)@) == texts(old(args)@).push(s@),
{
    let ghost before = args@;
    args.push(s.to_owned());
    assert(texts(args@) =~= texts(before).push(s@));
}

/// The encoder arguments for an export made of a single clip.
pub fn single_layer_args(layer: &LayerText, x: &ExportText) -> (r: Vec<String>)
    ensures
        texts(r@) == if layer.is_image {
            single_image_args(*layer, *x)
        } else {
            single_video_args(*layer, *x)
        },
{
    let sp = scale_pad_text(x.width, x.height);
    let mut args: Vec<String> = Vec::new();
    if layer.is_image {
        let mut filter = "loop=loop=-1:size=1:start=0,trim=duration=".to_owned();
        cat(&mut filter, x.duration.as_str());
        cat(&mut filter, ",fps=");
        cat(&mut filter, x.fps.as_str());
        cat(&mut filter, ",");
        cat(&mut filter, sp.as_str());
        arg(&mut args, "-loop");
        arg(&mut args, "1");
        arg(&mut args, "-i");
        arg(&mut args, layer.path.as_str());
        arg(&mut args, "-vf");
        arg(&mut args, filter.as_str());
        arg(&mut args, "-c:v");
        arg(&mut args, x.encoder.as_str());
        arg(&mut args, "-pix_fmt");
        arg(&mut args, "yuv420p");
        arg(&mut args, "-t");
        arg(&mut args, x.duration_fixed.as_str());
        arg(&mut args, "-y");
        arg(&mut args, x.output.as_str());
        assert(texts(args@) =~= single_image_args(*layer, *x));
    } else {
        let mut filter = "setpts=PTS/".to_owned();
        cat(&mut filter, layer.speed.as_str());
        cat(&mut filter, ",");
        cat(&mut filter, sp.as_str());
        cat(&mut filter, ",fps=");
        cat(&mut filter, x.fps.as_str());
        arg(&mut args, "-ss");
        arg(&mut args, layer.trim_start.as_str());
        arg(&mut args, "-i");
        arg(&mut args, layer.path.as_str());
        arg(&mut args, "-t");
        arg(&mut args, layer.duration.as_str());
        arg(&mut args, "-vf");
        arg(&mut args, filter.as_str());
        arg(&mut args, "-c:v");
        arg(&mut args, x.encoder.as_str());
        arg(&mut args, "-pix_fmt");
        arg(&mut args, "yuv420p");
        arg(&mut args, "-y");
        arg(&mut args, x.output.as_str());
        assert(texts(args@) =~= single_video_args(*layer, *x));
    }
    args
}

/// The inputs of a layered export: a black background of the export's size,
/// rate and length, then each clip's file, still images looped.
pub open spec fn input_args(layers: Seq<LayerText>, x: ExportText) -> Seq<Seq<char>>
    decreases layers.len(),
{
    if layers.len() == 0 {
        seq![
            "-f"@,
            "lavfi"@,
            "-i"@,
            "color=c=black:s="@ + decimal(x.width as int) + "x"@ + decimal(x.height as int) + ":r="@
                + x.fps@ + ":d="@ + x.duration_fixed@,
        ]
    } else {
        let l = layers.last();
        let rest = input_args(layers.drop_last(), x);
        let looped = if l.is_image {
            rest + seq!["-loop"@, "1"@]
        } else {
            rest
        };
        looped + seq!["-i"@, l.path@]
    }
}

/// The label of the stream a layered export has built after `i` clips.
pub open spec fn stage_label(i: int) -> Seq<char> {
    if i == 0 {
        "[0:v]"@
    } else {
        "[o"@ + decimal(i - 1) + "]"@
    }
}

/// The filter that prepares clip `i` of a layered export.
pub open spec fn layer_filter(i: int, l: LayerText, x: ExportText) -> Seq<char> {
    let label = "[v"@ + decimal(i) + "]"@;
    if l.is_image {
        "["@ + decimal(i + 1) + ":v]loop=loop=-1:size=1,fps="@ + x.fps@ + ",trim=duration="@
            + l.duration@ + ",setpts=PTS-STARTPTS+"@ + l.start@ + "/TB,"@ + scale_pad(x.width, x.height)
            + label + ";"@
    } else {
        "["@ + decimal(i + 1) + ":v]trim=start="@ + l.trim_start@ + ":duration="@ + l.duration@
            + ",setpts=PTS-STARTPTS,setpts=PTS/"@ + l.speed@ + ","@ + scale_pad(x.width, x.height)
            + ",setpts=PTS-STARTPTS+"@ + l.start@ + "/TB"@ + label + ";"@
    }
}

/// The filter that lays clip `i` over what was built before it, shown
/// between its start and end.
pub open spec fn overlay_filter(i: int, l: LayerText) -> Seq<char> {
    stage_label(i) + "[v"@ + decimal(i) + "]"@ + "overlay=enable='between(t,"@ + l.start@ + ","@
        + l.end@ + ")'"@ + "[o"@ + decimal(i) + "]"@ + ";"@
}

/// The filter graph for the first clips of a layered export.
pub open spec fn graph(layers: Seq<LayerText>, x: ExportText) -> Seq<char>
    decreases layers.len(),
{
    if layers.len() == 0 {
        Seq::empty()
    } else {
        let i = layers.len() - 1;
        graph(layers.drop_last(), x) + layer_filter(i, layers.last(), x) + overlay_filter(
            i,
            layers.last(),
        )
    }
}

/// The encoder arguments for a layered export.
pub open spec fn multi_layer_args(layers: Seq<LayerText>, x: ExportText) -> Seq<Seq<char>> {
    let filter = graph(layers, x) + stage_label(layers.len() as int) + "format=yuv420p[out]"@;
    input_args(layers, x) + seq![
        "-filter_complex"@,
        filter,
        "-map"@,
        "[out]"@,
        "-c:v"@,
        x.encoder@,
        "-pix_fmt"@,
        "yuv420p"@,
        "-t"@,
        x.duration_fixed@,
        "-y"@,
        x.output@,
    ]
}

/// The label of the stream built after `i` clips.
fn stage_label_text(i: usize) -> (r: String)
    requires
        i <= i64::MAX,
    ensures
        r@ == stage_label(i as int),
{
    if i == 0 {
        "[0:v]".to_owned()
    } else {
        let mut s = "[o".to_owned();
        cat(&mut s, decimal_text((i - 1) as i64).as_str());
        cat(&mut s, "]");
        s
    }
}

/// The filter that prepares clip `i` of a layered export.
fn layer_filter_text(j: usize, l: &LayerText, x: &ExportText, sp: &String) -> (r: String)
    requires
        j < i64::MAX,
        sp@ == scale_pad(x.width, x.height),
    ensures
        r@ == layer_filter(j as int, *l, *x),
{
    let idx = decimal_text((j as i64) + 1);
    let di = decimal_text(j as i64);
    let mut label = "[v".to_owned();
    cat(&mut label, di.as_str());
    cat(&mut label, "]");
    let mut filter = "[".to_owned();
    if l.is_image {
        cat(&mut filter, idx.as_str());
        cat(&mut filter, ":v]loop=loop=-1:size=1,fps=");
        cat(&mut filter, x.fps.as_str());
        cat(&mut filter, ",trim=duration=");
        cat(&mut filter, l.duration.as_str());
        cat(&mut filter, ",setpts=PTS-STARTPTS+");
        cat(&mut filter, l.start.as_str());
        cat(&mut filter, "/TB,");
        cat(&mut filter, sp.as_str());
        cat(&mut filter, label.as_str());
        cat(&mut filter, ";");
    } else {
        cat(&mut filter, idx.as_str());
        cat(&mut filter, ":v]trim=start=");
        cat(&mut filter, l.trim_start.as_str());
        cat(&mut filter, ":duration=");
        cat(&mut filter, l.duration.as_str());
        cat(&mut filter, ",setpts=PTS-STARTPTS,setpts=PTS/");
        cat(&mut filter, l.speed.as_str());
        cat(&mut filter, ",");
        cat(&mut filter, sp.as_str());
        cat(&mut filter, ",setpts=PTS-STARTPTS+");
        cat(&mut filter, l.start.as_str());
        cat(&mut filter, "/TB");
        cat(&mut filter, label.as_str());
        cat(&mut filter, ";");
    }
    filter
}

/// The filter that lays clip `j` over what was built before it.
fn overlay_text(j: usize, l: &LayerText) -> (r: String)
    requires
        j < i64::MAX,
    ensures
        r@ == overlay_filter(j as int, *l),
{
    let di = decimal_text(j as i64);
    let mut s = stage_label_text(j);
    cat(&mut s, "[v");
    cat(&mut s, di.as_str());
    cat(&mut s, "]");
    cat(&mut s, "overlay=enable='between(t,");
    cat(&mut s, l.start.as_str());
    cat(&mut s, ",");
    cat(&mut s, l.end.as_str());
    cat(&mut s, ")'");
    cat(&mut s, "[o");
    cat(&mut s, di.as_str());
    cat(&mut s, "]");
    cat(&mut s, ";");
    s
}

/// The encoder arguments for an export that lays several clips over a black
/// background, each shown between its start and end.
pub fn multi_layer_args_for(layers: &Vec<LayerText>, x: &ExportText) -> (r: Vec<String>)
    requires
        layers@.len() < i64::MAX,
    ensures
        texts(r@) == multi_layer_args(layers@, *x),
{
    let sp = scale_pad_text(x.width, x.height);
    let mut args: Vec<String> = Vec::new();
    arg(&mut args, "-f");
    arg(&mut args, "lavfi");
    arg(&mut args, "-i");
    let mut color = "color=c=black:s=".to_owned();
    cat(&mut color, decimal_text(x.width).as_str());
    cat(&mut color, "x");
    cat(&mut color, decimal_text(x.height).as_str());
    cat(&mut color, ":r=");
    cat(&mut color, x.fps.as_str());
    cat(&mut color, ":d=");
    cat(&mut color, x.duration_fixed.as_str());
    arg(&mut args, color.as_str());
    assert(texts(args@) =~= input_args(layers@.take(0), *x));
    let mut i: usize = 0;
    while i < layers.len()
        invariant
            i <= layers.len(),
            texts(args@) == input_args(layers@.take(i as int), *x),
        decreases layers.len() - i,
    {
        assert(layers@.take(i + 1).drop_last() =~= layers@.take(i as int));
        assert(layers@.take(i + 1).last() == layers@[i as int]);
        if layers[i].is_image {
            arg(&mut args, "-loop");
            arg(&mut args, "1");
        }
        arg(&mut args, "-i");
        arg(&mut args, layers[i].path.as_str());
        i = i + 1;
    }
    assert(layers@.take(layers.len() as int) =~= layers@);
    let mut filter = "".to_owned();
    proof {
        reveal_strlit("");
    }
    let mut last = "[0:v]".to_owned();
    let mut j: usize = 0;
    assert(filter@ =~= graph(layers@.take(0), *x));
    while j < layers.len()
        invariant
            j <= layers.len(),
            layers@.len() < i64::MAX,
            sp@ == scale_pad(x.width, x.height),
            filter@ == graph(layers@.take(j as int), *x),
            last@ == stage_label(j as int),
        decreases layers.len() - j,
    {
        assert(layers@.take(j + 1).drop_last() =~= layers@.take(j as int));
        assert(layers@.take(j + 1).last() == layers@[j as int]);
        let l = &layers[j];
        let lf = layer_filter_text(j, l, x, &sp);
        cat(&mut filter, lf.as_str());
        let ov = overlay_text(j, l);
        cat(&mut filter, ov.as_str());
        let mut out = "[o".to_owned();
        cat(&mut out, decimal_text(j as i64).as_str());
        cat(&mut out, "]");
        last = out;
        j = j + 1;
    }
    assert(layers@.take(layers.len() as int) =~= layers@);
    cat(&mut filter, last.as_str());
    cat(&mut filter, "format=yuv420p[out]");
    let ghost before = texts(args@);
    arg(&mut args, "-filter_complex");
    arg(&mut args, filter.as_str());
    arg(&mut args, "-map");
    arg(&mut args, "[out]");
    arg(&mut args, "-c:v");
    arg(&mut args, x.encoder.as_str());
    arg(&mut args, "-pix_fmt");
    arg(&mut args, "yuv420p");
    arg(&mut args, "-t");
    arg(&mut args, x.duration_fixed.as_str());
    arg(&mut args, "-y");
    arg(&mut args, x.output.as_str());
    assert(texts(args@) =~= multi_layer_args(layers@, *x));
    args
}

/// The encoder arguments for an export of the given clips: nothing to
/// export without clips, a plain encode of a single clip, and a layered
/// composition of several.
pub fn export_arguments(layers: &Vec<LayerText>, x: &ExportText) -> (r: Result<Vec<String>, String>)
    requires
        layers@.len() < i64::MAX,
    ensures
        match r {
            Ok(args) => layers@.len() > 0 && texts(args@) == if layers@.len() == 1 {
                if layers@[0].is_image {
                    single_image_args(layers@[0], *x)
                } else {
                    single_video_args(layers@[0], *x)
                }
            } else {
                multi_layer_args(layers@, *x)
            },
            Err(e) => layers@.len() == 0 && e@ == "no exportable clips"@,
        },
{
    if layers.len() == 0 {
        Err("no exportable clips".to_owned())
    } else if layers.len() == 1 {
        Ok(single_layer_args(&layers[0], x))
    } else {
        Ok(multi_layer_args_for(layers, x))
    }
}


/// Where FFmpeg is usually installed on Windows, looked at when the `PATH`
/// holds none.
pub const FFMPEG_IN_ROOT: &'static str = "C:\\ffmpeg\\bin\\ffmpeg.exe";

/// The other usual install place of FFmpeg on Windows.
pub const FFMPEG_IN_PROGRAM_FILES: &'static str = "C:\\Program Files\\ffmpeg\\bin\\ffmpeg.exe";

/// The FFmpeg to run: the one found on the `PATH`, else the first usual
/// install place that exists.
pub open spec fn ffmpeg_choice(on_path: Result<Seq<char>, Seq<char>>, in_root: bool, in_program_files: bool) -> Result<
    Seq<char>,
    Seq<char>,
> {
    match on_path {
        Ok(p) => Ok(p),
        Err(_) => if in_root {
            Ok(FFMPEG_IN_ROOT@)
        } else if in_program_files {
            Ok(FFMPEG_IN_PROGRAM_FILES@)
        } else {
            Err("FFmpeg not found. Install FFmpeg and add it to PATH."@)
        },
    }
}

/// Picks the FFmpeg to run from what the `PATH` search gave and whether
/// each usual install place exists.
pub fn find_ffmpeg(on_path: Result<String, String>, in_root: bool, in_program_files: bool) -> (r: Result<String, String>)
    ensures
        text_result(r) == ffmpeg_choice(text_result(on_path), in_root, in_program_files),
{
    match on_path {
        Ok(p) => Ok(p),
        Err(_) => if in_root {
            Ok(FFMPEG_IN_ROOT.to_owned())
        } else if in_program_files {
            Ok(FFMPEG_IN_PROGRAM_FILES.to_owned())
        } else {
            Err("FFmpeg not found. Install FFmpeg and add it to PATH.".to_owned())
        },
    }
}

/// `n` is where the first line of `s` ends: at the first line feed, or at
/// the end of the text when it has none.
pub open spec fn line_end(s: Seq<char>, n: int) -> bool {
    &&& 0 <= n <= s.len()
    &&& (n == s.len() || s[n] == '\n')
    &&& forall|j: int| 0 <= j < n ==> s[j] != '\n'
}

/// The first line of `s`, as `str::lines` gives it: the text up to the
/// first line feed, without a carriage return right before that feed.
pub open spec fn first_line(s: Seq<char>) -> Seq<char> {
    let n = choose|n: int| line_end(s, n);
    if 0 < n < s.len() && s[n - 1] == '\r' {
        s.take(n - 1)
    } else {
        s.take(n)
    }
}

/// The program path a `where` search printed: its first line, trimmed.
pub open spec fn where_result(success: bool, output: Seq<char>) -> Result<Seq<char>, Seq<char>> {
    if !success {
        Err("not in PATH"@)
    } else if trimmed(first_line(output)).len() == 0 {
        Err("empty"@)
    } else {
        Ok(trimmed(first_line(output)))
    }
}

/// Reads the program path out of a `where` search that succeeded or not
/// and printed `output`.
pub fn path_from_where(success: bool, output: &str) -> (r: Result<String, String>)
    ensures
        text_result(r) == where_result(success, output@),
{
    if !success {
        return Err("not in PATH".to_owned());
    }
    let len = output.unicode_len();
    let mut n: usize = 0;
    while n < len && output.get_char(n) != '\n'
        invariant
            len == output@.len(),
            n <= len,
            forall|j: int| 0 <= j < n ==> output@[j] != '\n',
        decreases len - n,
    {
        n = n + 1;
    }
    proof {
        assert(line_end(output@, n as int));
        let m = choose|m: int| line_end(output@, m);
        if m < n {
            assert(output@[m] == '\n');
        } else if m > n {
            assert(output@[n as int] == '\n');
        }
    }
    let end = if 0 < n && n < len && output.get_char(n - 1) == '\r' {
        n - 1
    } else {
        n
    };
    let line = output.substring_char(0, end);
    assert(line@ =~= first_line(output@));
    let t = trim_text(line);
    if t.unicode_len() == 0 {
        Err("empty".to_owned())
    } else {
        Ok(t)
    }
}

/// The overlays of a layered export form one chain: clip `i` is laid
/// over the black background `[0:v]` when it is the first and over `[o i-1]`,
/// the output of the overlay before it, otherwise, shown between its start
/// and end, and its own output is `[o i]`.
pub proof fn law_overlays_chain(layers: Seq<LayerText>, x: ExportText, i: int)
    requires
        0 <= i < layers.len(),
    ensures
        graph(layers.take(i + 1), x) == graph(layers.take(i), x) + layer_filter(i, layers[i], x) + (if i
            == 0 {
            "[0:v]"@
        } else {
            "[o"@ + decimal(i - 1) + "]"@
        }) + "[v"@ + decimal(i) + "]"@ + "overlay=enable='between(t,"@ + layers[i].start@ + ","@
            + layers[i].end@ + ")'"@ + "[o"@ + decimal(i) + "]"@ + ";"@,
{
    let l = layers.take(i + 1);
    assert(l.drop_last() =~= layers.take(i));
    assert(l.last() == layers[i]);
    let prev = if i == 0 {
        "[0:v]"@
    } else {
        "[o"@ + decimal(i - 1) + "]"@
    };
    assert(graph(l, x) =~= graph(layers.take(i), x) + layer_filter(i, layers[i], x) + prev + "[v"@ + decimal(i)
        + "]"@ + "overlay=enable='between(t,"@ + layers[i].start@ + ","@ + layers[i].end@ + ")'"@ + "[o"@
        + decimal(i) + "]"@ + ";"@);
}

/// The filter graph of a layered export of at least one clip ends by
/// turning the output of the last overlay, `[o n-1]`, into `[out]`, the
/// stream the encoder maps.
pub proof fn law_graph_ends_in_out(layers: Seq<LayerText>, x: ExportText)
    requires
        layers.len() >= 1,
    ensures
        multi_layer_args(layers, x)[input_args(layers, x).len() as int] == "-filter_complex"@,
        multi_layer_args(layers, x)[input_args(layers, x).len() + 1int] == graph(layers, x) + "[o"@
            + decimal(layers.len() - 1) + "]"@ + "format=yuv420p[out]"@,
        multi_layer_args(layers, x)[input_args(layers, x).len() + 3int] == "[out]"@,
{
    let n = input_args(layers, x).len() as int;
    let m = multi_layer_args(layers, x);
    let tail = seq![
        "-filter_complex"@,
        graph(layers, x) + stage_label(layers.len() as int) + "format=yuv420p[out]"@,
        "-map"@,
        "[out]"@,
        "-c:v"@,
        x.encoder@,
        "-pix_fmt"@,
        "yuv420p"@,
        "-t"@,
        x.duration_fixed@,
        "-y"@,
        x.output@,
    ];
    assert(m == input_args(layers, x) + tail);
    assert(m[n] == tail[0]);
    assert(m[n + 1] == tail[1]);
    assert(m[n + 3] == tail[3]);
}

} // verus!
