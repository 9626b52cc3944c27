//! The media editor's decisions: what kind of file was opened, what the
//! clipboard offers, frame timing of GIFs, the trimmed frame range, the
//! ffmpeg filter graph for GIF export, and which exporter runs.
use vstd::prelude::*;
use crate::keys::{lowercase, to_lowercase};
use crate::text::str_eq;

verus! {

/// What kind of media the editor opened.
#[derive(Debug, Clone, Copy, PartialEq, Eq, Structural)]
pub enum MediaType {
    Gif,
    Video,
}

/// What the editor exports to.
#[derive(Debug, Clone, Copy, PartialEq, Eq, Structural)]
pub enum ExportFormat {
    Gif,
    Video,
}

/// The media type of a file with the given extension: GIF when the
/// extension is `gif` in any case, video otherwise (no extension included).
pub fn detect_media_type(extension: Option<&str>) -> (t: MediaType)
    ensures
        t == (if extension matches Some(e) && lowercase(e@) == "gif"@ {
            MediaType::Gif
        } else {
            MediaType::Video
        }),
{
    match extension {
        Some(e) => {
            let lower = to_lowercase(e);
            if str_eq(lower.as_str(), "gif") {
                MediaType::Gif
            } else {
                MediaType::Video
            }
        },
        None => MediaType::Video,
    }
}

/// What the editor puts on the clipboard: the current frame as PNG, the
/// exported GIF, and the file's URI (empty byte strings when absent).
#[derive(Debug)]
pub struct ClipboardData {
    pub png_bytes: Vec<u8>,
    pub gif_bytes: Vec<u8>,
    pub file_uri: String,
}

/// The MIME types offered for the given contents, in order: PNG and GIF when
/// present, and always the URI list.
pub open spec fn offered_types(has_png: bool, has_gif: bool) -> Seq<Seq<char>> {
    let a: Seq<Seq<char>> = if has_png {
        seq!["image/png"@]
    } else {
        seq![]
    };
    let b: Seq<Seq<char>> = if has_gif {
        seq!["image/gif"@]
    } else {
        seq![]
    };
    a + b + seq!["text/uri-list"@]
}

impl ClipboardData {
    /// The MIME types this clipboard content can be read as.
    pub fn available(&self) -> (types: Vec<String>)
        ensures
            types@.map_values(|t: String| t@) == offered_types(
                self.png_bytes@.len() > 0,
                self.gif_bytes@.len() > 0,
            ),
    {
        let mut types: Vec<String> = Vec::new();
        if self.png_bytes.len() > 0 {
            types.push(String::from_str("image/png"));
        }
        if self.gif_bytes.len() > 0 {
            types.push(String::from_str("image/gif"));
        }
        types.push(String::from_str("text/uri-list"));
        proof {
            let has_png = self.png_bytes@.len() > 0;
            let has_gif = self.gif_bytes@.len() > 0;
            assert(types@.map_values(|t: String| t@) =~= offered_types(has_png, has_gif));
        }
        types
    }

    /// The content as `mime_type`: the PNG or GIF bytes when present, the
    /// URI followed by CRLF as a URI list, nothing for any other type.
    pub fn as_bytes(&self, mime_type: &str) -> (r: Option<Vec<u8>>)
        ensures
            (mime_type@ == "image/png"@ && self.png_bytes@.len() > 0) ==> (r matches Some(b)
                && b@ == self.png_bytes@),
            (mime_type@ == "image/gif"@ && self.gif_bytes@.len() > 0) ==> (r matches Some(b)
                && b@ == self.gif_bytes@),
            mime_type@ == "text/uri-list"@ ==> (r matches Some(b) && b@ == vstd::utf8::encode_utf8(
                self.file_uri@ + "\r\n"@,
            )),
            !((mime_type@ == "image/png"@ && self.png_bytes@.len() > 0) || (mime_type@
                == "image/gif"@ && self.gif_bytes@.len() > 0) || mime_type@ == "text/uri-list"@)
                ==> r is None,
    {
        proof {
            reveal_strlit("image/png");
            reveal_strlit("image/gif");
            reveal_strlit("text/uri-list");
            assert("image/png"@[6] != "image/gif"@[6]);
            assert("image/png"@.len() != "text/uri-list"@.len());
            assert("image/gif"@.len() != "text/uri-list"@.len());
        }
        if str_eq(mime_type, "image/png") && self.png_bytes.len() > 0 {
            Some(self.png_bytes.clone())
        } else if str_eq(mime_type, "image/gif") && self.gif_bytes.len() > 0 {
            Some(self.gif_bytes.clone())
        } else if str_eq(mime_type, "text/uri-list") {
            let mut line = self.file_uri.clone();
            line.append("\r\n");
            Some(line.as_str().as_bytes_vec())
        } else {
            None
        }
    }
}

/// A GIF frame's delay in milliseconds from its ratio `numer / denom`, or
/// 100 ms when the ratio is degenerate.
pub open spec fn spec_frame_delay_ms(numer: u32, denom: u32) -> int {
    if denom > 0 {
        numer as int / denom as int
    } else {
        100
    }
}

/// A GIF frame's delay in milliseconds.
pub fn gif_frame_delay_ms(numer: u32, denom: u32) -> (ms: u32)
    ensures
        ms == spec_frame_delay_ms(numer, denom),
{
    if denom > 0 {
        numer / denom
    } else {
        100
    }
}

/// The delay a loaded GIF plays at: that of its first frame (each frame's
/// delay given as a ratio), or 100 ms when it has no frames.
pub fn gif_playback_delay_ms(delays: &[(u32, u32)]) -> (ms: u32)
    ensures
        ms == (if delays@.len() > 0 {
            spec_frame_delay_ms(delays@[0].0, delays@[0].1)
        } else {
            100
        }),
{
    if delays.len() > 0 {
        gif_frame_delay_ms(delays[0].0, delays[0].1)
    } else {
        100
    }
}

/// The frames kept when trimming a GIF of `len` frames to
/// `start_frame..end_frame`, both clamped to the frame count.
pub fn trimmed_frame_range(start_frame: usize, end_frame: usize, len: usize) -> (r: (usize, usize))
    requires
        (if start_frame < len {
            start_frame
        } else {
            len
        }) <= (if end_frame < len {
            end_frame
        } else {
            len
        }),
    ensures
        r.0 == (if start_frame < len {
            start_frame
        } else {
            len
        }),
        r.1 == (if end_frame < len {
            end_frame
        } else {
            len
        }),
        r.0 <= r.1 <= len,
{
    let start = if start_frame < len {
        start_frame
    } else {
        len
    };
    let end = if end_frame < len {
        end_frame
    } else {
        len
    };
    (start, end)
}

/// The decimal digit character for `d` (0 to 9).
pub open spec fn digit_char(d: int) -> char {
    ((d + 48) as u8) as char
}

/// The decimal writing of `n`, without leading zeros.
pub open spec fn decimal(n: nat) -> Seq<char>
    decreases n,
{
    if n < 10 {
        seq![digit_char(n as int)]
    } else {
        decimal(n / 10).push(digit_char((n % 10) as int))
    }
}

fn digit_str(d: u32) -> (s: &'static str)
    requires
        d < 10,
    ensures
        s@ == seq![digit_char(d as int)],
{
    proof {
        reveal_strlit("0");
        reveal_strlit("1");
        reveal_strlit("2");
        reveal_strlit("3");
        reveal_strlit("4");
        reveal_strlit("5");
        reveal_strlit("6");
        reveal_strlit("7");
        reveal_strlit("8");
        reveal_strlit("9");
    }
    let s = if d == 0 {
        "0"
    } else if d == 1 {
        "1"
    } else if d == 2 {
        "2"
    } else if d == 3 {
        "3"
    } else if d == 4 {
        "4"
    } else if d == 5 {
        "5"
    } else if d == 6 {
        "6"
    } else if d == 7 {
        "7"
    } else if d == 8 {
        "8"
    } else {
        "9"
    };
    assert(s@ =~= seq![digit_char(d as int)]);
    s
}

/// Append the decimal writing of `n` to `out`.
fn push_decimal(out: &mut String, n: u32)
    ensures
        final(out)@ == old(out)@ + decimal(n as nat),
    decreases n,
{
    if n >= 10 {
        push_decimal(out, n / 10);
    }
    out.append(digit_str(n % 10));
    proof {
        if n >= 10 {
            assert(decimal(n as nat) == decimal((n / 10) as nat).push(digit_char((n % 10) as int)));
        }
    }
}

/// The frame rate a GIF is exported at: the chosen one, or 15.
pub open spec fn export_fps(fps: Option<u32>) -> u32 {
    match fps {
        Some(f) => f,
        None => 15,
    }
}

/// The scaling step of the ffmpeg filter graph: none at full size, else
/// `,scale=iw*S/100:ih*S/100` for a scale of S percent.
pub open spec fn scale_step(scale: u32) -> Seq<char> {
    if scale < 100 {
        ",scale=iw*"@ + decimal(scale as nat) + "/100:ih*"@ + decimal(scale as nat) + "/100"@
    } else {
        Seq::empty()
    }
}

/// The ffmpeg video filter for a GIF export: resample to the export frame
/// rate and scale; without gifski, ffmpeg also builds and applies a palette.
pub open spec fn gif_filter_graph(fps: Option<u32>, scale: u32, gifski: bool) -> Seq<char> {
    let base = "fps="@ + decimal(export_fps(fps) as nat) + scale_step(scale);
    if gifski {
        base
    } else {
        base + ",split[s0][s1];[s0]palettegen[p];[s1][p]paletteuse=dither=bayer"@
    }
}

/// The ffmpeg video filter for exporting a video (or part of it) as a GIF at
/// `scale` percent.
pub fn gif_export_filter(fps: Option<u32>, scale: u32, gifski: bool) -> (s: String)
    ensures
        s@ == gif_filter_graph(fps, scale, gifski),
{
    let f = match fps {
        Some(f) => f,
        None => 15,
    };
    let mut s = String::from_str("fps=");
    push_decimal(&mut s, f);
    if scale < 100 {
        s.append(",scale=iw*");
        push_decimal(&mut s, scale);
        s.append("/100:ih*");
        push_decimal(&mut s, scale);
        s.append("/100");
    }
    if !gifski {
        s.append(",split[s0][s1];[s0]palettegen[p];[s1][p]paletteuse=dither=bayer");
    }
    proof {
        if scale < 100 {
            assert(s@ =~= gif_filter_graph(fps, scale, gifski));
        } else {
            assert(s@ =~= gif_filter_graph(fps, scale, gifski));
        }
    }
    s
}

/// How an export is carried out.
#[derive(Debug, Clone, Copy, PartialEq, Eq, Structural)]
pub enum ExportPlan {
    /// ffmpeg converts the source video to a GIF.
    FfmpegGif,
    /// The loaded GIF frames are re-encoded.
    FramesGif,
    /// ffmpeg cuts the source video without re-encoding.
    FfmpegVideo,
    /// Nothing to export: a GIF export of media that is neither a video with
    /// ffmpeg at hand nor loaded GIF frames.
    NoFrames,
    /// A video export without ffmpeg.
    FfmpegRequired,
}

/// Choose how to export: GIF from a video goes through ffmpeg when it is
/// available, otherwise loaded GIF frames are re-encoded; video export needs
/// ffmpeg.
pub fn plan_export(
    format: ExportFormat,
    ffmpeg_available: bool,
    media_type: MediaType,
    gif_frames_loaded: bool,
) -> (p: ExportPlan)
    ensures
        p == match format {
            ExportFormat::Gif => if ffmpeg_available && media_type == MediaType::Video {
                ExportPlan::FfmpegGif
            } else if gif_frames_loaded {
                ExportPlan::FramesGif
            } else {
                ExportPlan::NoFrames
            },
            ExportFormat::Video => if ffmpeg_available {
                ExportPlan::FfmpegVideo
            } else {
                ExportPlan::FfmpegRequired
            },
        },
{
    match format {
        ExportFormat::Gif => {
            if ffmpeg_available && media_type == MediaType::Video {
                ExportPlan::FfmpegGif
            } else if gif_frames_loaded {
                ExportPlan::FramesGif
            } else {
                ExportPlan::NoFrames
            }
        },
        ExportFormat::Video => {
            if ffmpeg_available {
                ExportPlan::FfmpegVideo
            } else {
                ExportPlan::FfmpegRequired
            }
        },
    }
}

/// The text of the `file://` URL of an absolute local path, as the url
/// crate writes it (components percent-encoded).
pub uninterp spec fn file_url_of(path: Seq<char>) -> Seq<char>;

/// Calls `url::Url::from_file_path(path)` and writes the URL out. Per the
/// url crate's source (on Unix), it fails exactly for a path that is not
/// absolute, and a URL it builds is `file://` followed by the path's
/// components, each after a `/`, so its text starts with `file:///`. How the
/// components are percent-encoded is left unsaid: the text is named.
#[verifier::external_body]
fn url_from_file_path(path: &str) -> (r: Option<String>)
    ensures
        r is Some <==> (path@.len() > 0 && path@[0] == '/'),
        r matches Some(u) ==> u@ == file_url_of(path@),
        r matches Some(u) ==> u@.len() >= 8 && u@.subrange(0, 8) == "file:///"@,
{
    match url::Url::from_file_path(path) {
        Ok(u) => Some(u.to_string()),
        Err(()) => None,
    }
}

/// The URL the video player opens for the media file at `path` (an absolute
/// path).
pub fn media_file_url(path: &str) -> (u: String)
    requires
        path@.len() > 0 && path@[0] == '/',
    ensures
        u@ == file_url_of(path@),
        u@.len() >= 8 && u@.subrange(0, 8) == "file:///"@,
{
    match url_from_file_path(path) {
        Some(u) => u,
        None => String::new(),
    }
}

/// The extension of the temporary file an export for the clipboard is
/// written to: `gif` for a GIF, else the media's own extension or `mp4`.
pub open spec fn clipboard_extension(format: ExportFormat, media_extension: Option<Seq<char>>) -> Seq<char> {
    match format {
        ExportFormat::Gif => "gif"@,
        ExportFormat::Video => match media_extension {
            Some(e) => e,
            None => "mp4"@,
        },
    }
}

/// The temporary file an export for the clipboard is written to.
pub fn clipboard_export_path(format: ExportFormat, media_extension: Option<&str>) -> (p: String)
    ensures
        p@ == "/tmp/snappea-clipboard."@ + clipboard_extension(
            format,
            match media_extension {
                Some(e) => Some(e@),
                None => None,
            },
        ),
{
    let mut p = String::from_str("/tmp/snappea-clipboard.");
    match format {
        ExportFormat::Gif => p.append("gif"),
        ExportFormat::Video => match media_extension {
            Some(e) => p.append(e),
            None => p.append("mp4"),
        },
    }
    p
}

/// The URI a file is put on the clipboard as: `file://` and its path.
pub fn file_uri(path: &str) -> (u: String)
    ensures
        u@ == "file://"@ + path@,
{
    let mut u = String::from_str("file://");
    u.append(path);
    u
}

} // verus!
