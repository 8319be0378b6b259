//! How the transcoding tool is asked to convert media: the ways that are
//! tried, in their order, and the arguments of each.

use crate::files::{lowercased, may_have_cover_art};
use crate::format::required_text;
use crate::json::{Json, JsonView};
use crate::text::{ends_with, opt_view, same_text, views};
use vstd::prelude::*;

verus! {

/// A way to convert a file.
#[derive(Clone, Copy, Debug, PartialEq, Eq, Structural)]
pub enum Strategy {
    /// Copy both streams into the new container.
    Remux,
    /// Encode video as H.264 and audio as AAC.
    Reencode,
    /// Copy the video stream and encode audio as AAC.
    CopyVideo,
    /// Encode video as baseline H.264 and audio as AAC.
    Baseline,
    /// Encode H.265 video as H.264, and audio as AAC.
    FromHevc,
    /// Copy both streams and move the index to the front.
    Faststart,
    /// The same, passing over errors in the input.
    TolerantFaststart,
    /// Take the first frame of the first video stream as a picture.
    CoverArt,
}

/// The filter that fits a picture into 320 by 180.
pub open spec fn thumbnail_filter() -> Seq<char> {
    "scale=320:180:force_original_aspect_ratio=decrease,pad=320:180:(ow-iw)/2:(oh-ih)/2"@
}

/// The arguments that ask the tool to convert `input` to `output` in the
/// given way.
pub open spec fn arguments_of(strategy: Strategy, input: Seq<char>, output: Seq<char>) -> Seq<
    Seq<char>,
> {
    match strategy {
        Strategy::Remux => seq![
            "-i"@,
            input,
            "-c:v"@,
            "copy"@,
            "-c:a"@,
            "copy"@,
            "-movflags"@,
            "+faststart"@,
            "-y"@,
            output,
        ],
        Strategy::Reencode => seq![
            "-i"@,
            input,
            "-c:v"@,
            "libx264"@,
            "-c:a"@,
            "aac"@,
            "-preset"@,
            "veryfast"@,
            "-crf"@,
            "23"@,
            "-movflags"@,
            "+faststart"@,
            "-y"@,
            output,
        ],
        Strategy::CopyVideo => seq![
            "-i"@,
            input,
            "-c:v"@,
            "copy"@,
            "-c:a"@,
            "aac"@,
            "-b:a"@,
            "192k"@,
            "-movflags"@,
            "+faststart"@,
            "-y"@,
            output,
        ],
        Strategy::Baseline => seq![
            "-i"@,
            input,
            "-c:v"@,
            "libx264"@,
            "-profile:v"@,
            "baseline"@,
            "-preset"@,
            "veryfast"@,
            "-crf"@,
            "23"@,
            "-c:a"@,
            "aac"@,
            "-b:a"@,
            "192k"@,
            "-movflags"@,
            "+faststart"@,
            "-y"@,
            output,
        ],
        Strategy::FromHevc => seq![
            "-v"@,
            "error"@,
            "-i"@,
            input,
            "-c:v"@,
            "libx264"@,
            "-preset"@,
            "fast"@,
            "-crf"@,
            "23"@,
            "-c:a"@,
            "aac"@,
            "-b:a"@,
            "192k"@,
            "-f"@,
            "mp4"@,
            "-movflags"@,
            "+faststart"@,
            "-y"@,
            output,
        ],
        Strategy::Faststart => seq![
            "-v"@,
            "error"@,
            "-i"@,
            input,
            "-c"@,
            "copy"@,
            "-f"@,
            "mp4"@,
            "-movflags"@,
            "+faststart"@,
            "-y"@,
            output,
        ],
        Strategy::TolerantFaststart => seq![
            "-v"@,
            "error"@,
            "-err_detect"@,
            "ignore_err"@,
            "-i"@,
            input,
            "-c"@,
            "copy"@,
            "-f"@,
            "mp4"@,
            "-movflags"@,
            "+faststart"@,
            "-y"@,
            output,
        ],
        Strategy::CoverArt => seq![
            "-i"@,
            input,
            "-map"@,
            "0:v:0"@,
            "-frames:v"@,
            "1"@,
            "-vf"@,
            thumbnail_filter(),
            "-y"@,
            output,
        ],
    }
}

/// Appends words to a list of arguments.
fn push_all(out: &mut Vec<String>, words: &[&str])
    ensures
        views(final(out)@) == views(old(out)@) + Seq::new(
            words@.len(),
            |i: int| words@[i]@,
        ),
{
    let ghost start = views(out@);
    let mut i: usize = 0;
    while i < words.len()
        invariant
            i <= words.len(),
            views(out@) == start + Seq::new(i as nat, |k: int| words@[k]@),
        decreases words.len() - i,
    {
        let ghost before = views(out@);
        let word = words[i].to_owned();
        out.push(word);
        assert(views(out@) =~= before.push(words@[i as int]@));
        i += 1;
    }
}

/// The arguments that ask the tool to convert `input` to `output` in the
/// given way.
pub fn ffmpeg_arguments(strategy: Strategy, input: &str, output: &str) -> (r: Vec<String>)
    ensures
        views(r@) == arguments_of(strategy, input@, output@),
{
    let mut out: Vec<String> = Vec::new();
    match strategy {
        Strategy::Remux => {
            push_all(
                &mut out,
                &["-i", input, "-c:v", "copy", "-c:a", "copy", "-movflags", "+faststart", "-y", output],
            );
        },
        Strategy::Reencode => {
            push_all(
                &mut out,
                &[
                    "-i",
                    input,
                    "-c:v",
                    "libx264",
                    "-c:a",
                    "aac",
                    "-preset",
                    "veryfast",
                    "-crf",
                    "23",
                    "-movflags",
                    "+faststart",
                    "-y",
                    output,
                ],
            );
        },
        Strategy::CopyVideo => {
            push_all(
                &mut out,
                &[
                    "-i",
                    input,
                    "-c:v",
                    "copy",
                    "-c:a",
                    "aac",
                    "-b:a",
                    "192k",
                    "-movflags",
                    "+faststart",
                    "-y",
                    output,
                ],
            );
        },
        Strategy::Baseline => {
            push_all(
                &mut out,
                &[
                    "-i",
                    input,
                    "-c:v",
                    "libx264",
                    "-profile:v",
                    "baseline",
                    "-preset",
                    "veryfast",
                    "-crf",
                    "23",
                    "-c:a",
                    "aac",
                    "-b:a",
                    "192k",
                    "-movflags",
                    "+faststart",
                    "-y",
                    output,
                ],
            );
        },
        Strategy::FromHevc => {
            push_all(
                &mut out,
                &[
                    "-v",
                    "error",
                    "-i",
                    input,
                    "-c:v",
                    "libx264",
                    "-preset",
                    "fast",
                    "-crf",
                    "23",
                    "-c:a",
                    "aac",
                    "-b:a",
                    "192k",
                    "-f",
                    "mp4",
                    "-movflags",
                    "+faststart",
                    "-y",
                    output,
                ],
            );
        },
        Strategy::Faststart => {
            push_all(
                &mut out,
                &[
                    "-v",
                    "error",
                    "-i",
                    input,
                    "-c",
                    "copy",
                    "-f",
                    "mp4",
                    "-movflags",
                    "+faststart",
                    "-y",
                    output,
                ],
            );
        },
        Strategy::TolerantFaststart => {
            push_all(
                &mut out,
                &[
                    "-v",
                    "error",
                    "-err_detect",
                    "ignore_err",
                    "-i",
                    input,
                    "-c",
                    "copy",
                    "-f",
                    "mp4",
                    "-movflags",
                    "+faststart",
                    "-y",
                    output,
                ],
            );
        },
        Strategy::CoverArt => {
            push_all(
                &mut out,
                &[
                    "-i",
                    input,
                    "-map",
                    "0:v:0",
                    "-frames:v",
                    "1",
                    "-vf",
                    "scale=320:180:force_original_aspect_ratio=decrease,pad=320:180:(ow-iw)/2:(oh-ih)/2",
                    "-y",
                    output,
                ],
            );
        },
    }
    out
}

/// The arguments that ask the tool for the frame at `seek` seconds of
/// `input` as a picture.
pub open spec fn frame_arguments_of(input: Seq<char>, seek: Seq<char>, output: Seq<char>) -> Seq<
    Seq<char>,
> {
    seq![
        "-i"@,
        input,
        "-ss"@,
        seek,
        "-vframes"@,
        "1"@,
        "-vf"@,
        thumbnail_filter(),
        "-y"@,
        output,
    ]
}

/// The arguments that ask the tool for the frame at `seek` seconds of
/// `input` as a picture.
pub fn frame_arguments(input: &str, seek: &str, output: &str) -> (r: Vec<String>)
    ensures
        views(r@) == frame_arguments_of(input@, seek@, output@),
{
    let mut out: Vec<String> = Vec::new();
    push_all(
        &mut out,
        &[
            "-i",
            input,
            "-ss",
            seek,
            "-vframes",
            "1",
            "-vf",
            "scale=320:180:force_original_aspect_ratio=decrease,pad=320:180:(ow-iw)/2:(oh-ih)/2",
            "-y",
            output,
        ],
    );
    out
}

/// What the probing tool is asked of a file.
#[derive(Clone, Copy, Debug, PartialEq, Eq, Structural)]
pub enum Probe {
    /// The duration, as a bare number.
    Duration,
    /// Whether the file can be read at all.
    Validity,
    /// The container and the streams, as a JSON document.
    Details,
}

/// The arguments that ask the probing tool something of `input`.
pub open spec fn probe_arguments_of(probe: Probe, input: Seq<char>) -> Seq<Seq<char>> {
    match probe {
        Probe::Duration => seq![
            "-v"@,
            "error"@,
            "-show_entries"@,
            "format=duration"@,
            "-of"@,
            "default=noprint_wrappers=1:nokey=1"@,
            input,
        ],
        Probe::Validity => seq!["-v"@, "error"@, "-show_format"@, "-show_streams"@, input],
        Probe::Details => seq![
            "-v"@,
            "error"@,
            "-print_format"@,
            "json"@,
            "-show_format"@,
            "-show_streams"@,
            input,
        ],
    }
}

/// The arguments that ask the probing tool something of `input`.
pub fn probe_arguments(probe: Probe, input: &str) -> (r: Vec<String>)
    ensures
        views(r@) == probe_arguments_of(probe, input@),
{
    let mut out: Vec<String> = Vec::new();
    match probe {
        Probe::Duration => {
            push_all(
                &mut out,
                &[
                    "-v",
                    "error",
                    "-show_entries",
                    "format=duration",
                    "-of",
                    "default=noprint_wrappers=1:nokey=1",
                    input,
                ],
            );
        },
        Probe::Validity => {
            push_all(&mut out, &["-v", "error", "-show_format", "-show_streams", input]);
        },
        Probe::Details => {
            push_all(
                &mut out,
                &["-v", "error", "-print_format", "json", "-show_format", "-show_streams", input],
            );
        },
    }
    out
}

/// The ways to move the index of a file to the front, in the order in
/// which they are tried: a file that can be read is first copied as it is
/// and then with its errors passed over; a file that cannot is only
/// repaired, by copying it with its errors passed over.
pub fn faststart_plan(file_is_valid: bool) -> (r: Vec<Strategy>)
    ensures
        r@ == if file_is_valid {
            seq![Strategy::Faststart, Strategy::TolerantFaststart]
        } else {
            seq![Strategy::TolerantFaststart]
        },
{
    let mut out: Vec<Strategy> = Vec::new();
    if file_is_valid {
        out.push(Strategy::Faststart);
    }
    out.push(Strategy::TolerantFaststart);
    assert(out@ =~= if file_is_valid {
        seq![Strategy::Faststart, Strategy::TolerantFaststart]
    } else {
        seq![Strategy::TolerantFaststart]
    });
    out
}

/// The ways to make a video playable in a browser, in the order in which
/// they are tried: first with the video stream copied, then with it
/// encoded anew.
pub fn web_ready_plan() -> (r: Vec<Strategy>)
    ensures
        r@ == seq![Strategy::CopyVideo, Strategy::Baseline],
{
    let mut out: Vec<Strategy> = Vec::new();
    out.push(Strategy::CopyVideo);
    out.push(Strategy::Baseline);
    out
}

/// The way to convert a Matroska file: by copying its streams unless
/// that is switched off, and else by encoding them anew.
pub fn conversion_strategy(fast_mode: Option<bool>) -> (r: Strategy)
    ensures
        r == if fast_mode == Some(false) {
            Strategy::Reencode
        } else {
            Strategy::Remux
        },
{
    match fast_mode {
        Some(false) => Strategy::Reencode,
        _ => Strategy::Remux,
    }
}

/// The way that is tried after `failed` ways of a plan have failed, if
/// one is left.
pub fn next_strategy(plan: &Vec<Strategy>, failed: usize) -> (r: Option<Strategy>)
    ensures
        r == if failed < plan.len() {
            Some(plan[failed as int])
        } else {
            None
        },
{
    if failed < plan.len() {
        Some(plan[failed])
    } else {
        None
    }
}

/// Whether the picture of a video is first looked for among its streams.
pub fn tries_cover_art(video_path: &str) -> (r: bool)
    ensures
        r == (ends_with(lowercased(video_path@), ".mp4"@) || ends_with(
            lowercased(video_path@),
            ".m4v"@,
        )),
{
    may_have_cover_art(video_path)
}

/// What a report of the probing tool tells of a file.
#[derive(Debug)]
pub struct ProbeDetails {
    /// The duration as the report writes it.
    pub duration: Option<String>,
    /// Whether the index is at the front, where the report tells.
    pub moov_at_start: Option<bool>,
    /// The name of the container format.
    pub file_format: Option<String>,
    /// The codec of the last video stream.
    pub video_codec: Option<String>,
    /// The codec of the last audio stream.
    pub audio_codec: Option<String>,
}

/// The mathematical value of [`ProbeDetails`].
pub struct ProbeDetailsView {
    pub duration: Option<Seq<char>>,
    pub moov_at_start: Option<bool>,
    pub file_format: Option<Seq<char>>,
    pub video_codec: Option<Seq<char>>,
    pub audio_codec: Option<Seq<char>>,
}

impl View for ProbeDetails {
    type V = ProbeDetailsView;

    open spec fn view(&self) -> ProbeDetailsView {
        ProbeDetailsView {
            duration: opt_view(self.duration),
            moov_at_start: self.moov_at_start,
            file_format: opt_view(self.file_format),
            video_codec: opt_view(self.video_codec),
            audio_codec: opt_view(self.audio_codec),
        }
    }
}

/// The member of a member.
pub open spec fn nested(doc: JsonView, outer: Seq<char>, inner: Seq<char>) -> Option<JsonView> {
    match doc.member(outer) {
        Some(j) => j.member(inner),
        None => None,
    }
}

/// Whether the report tells that the index is at the front: its format
/// has a `faststart` tag, which says so with `1` or `yes`.
pub open spec fn reported_faststart(doc: JsonView) -> Option<bool> {
    match nested(doc, "format"@, "tags"@) {
        Some(tags) => match tags.member("faststart"@) {
            Some(JsonView::Str(s)) => Some(s == "1"@ || s == "yes"@),
            _ => None,
        },
        None => None,
    }
}

/// The codec of the last stream of the given kind that names one.
pub open spec fn last_codec(streams: Seq<JsonView>, kind: Seq<char>) -> Option<Seq<char>>
    decreases streams.len(),
{
    if streams.len() == 0 {
        None
    } else if required_text(streams.last(), "codec_type"@) == Some(kind) && required_text(
        streams.last(),
        "codec_name"@,
    ) is Some {
        required_text(streams.last(), "codec_name"@)
    } else {
        last_codec(streams.drop_last(), kind)
    }
}

/// The streams of a report.
pub open spec fn reported_streams(doc: JsonView) -> Seq<JsonView> {
    match doc.member("streams"@) {
        Some(JsonView::Array(items)) => items,
        _ => Seq::empty(),
    }
}

/// What a report tells of a file.
pub open spec fn reported(doc: JsonView) -> ProbeDetailsView {
    ProbeDetailsView {
        duration: match nested(doc, "format"@, "duration"@) {
            Some(JsonView::Str(s)) => Some(s),
            _ => None,
        },
        moov_at_start: reported_faststart(doc),
        file_format: match nested(doc, "format"@, "format_name"@) {
            Some(JsonView::Str(s)) => Some(s),
            _ => None,
        },
        video_codec: last_codec(reported_streams(doc), "video"@),
        audio_codec: last_codec(reported_streams(doc), "audio"@),
    }
}

/// Reads the text under `key` of the member under `outer`.
fn read_nested_text(doc: &Json, outer: &str, key: &str) -> (r: Option<String>)
    ensures
        opt_view(r) == match nested(doc@, outer@, key@) {
            Some(JsonView::Str(s)) => Some(s),
            _ => None,
        },
{
    match doc.get(outer) {
        Some(j) => match j.get(key) {
            Some(v) => match v.as_str() {
                Some(s) => Some(s.clone()),
                None => None,
            },
            None => None,
        },
        None => None,
    }
}

/// Reads the text under `key`.
fn read_text<'a>(doc: &'a Json, key: &str) -> (r: Option<&'a String>)
    ensures
        match r {
            Some(s) => required_text(doc@, key@) == Some(s@),
            None => required_text(doc@, key@) is None,
        },
{
    match doc.get(key) {
        Some(j) => j.as_str(),
        None => None,
    }
}

/// Reads what a report of the probing tool tells of a file.
pub fn read_probe_details(doc: &Json) -> (r: ProbeDetails)
    ensures
        r@ == reported(doc@),
{
    let moov_at_start = match doc.get("format") {
        Some(format) => match format.get("tags") {
            Some(tags) => match tags.get("faststart") {
                Some(j) => match j.as_str() {
                    Some(s) => Some(same_text(s.as_str(), "1") || same_text(s.as_str(), "yes")),
                    None => None,
                },
                None => None,
            },
            None => None,
        },
        None => None,
    };
    let mut video_codec: Option<String> = None;
    let mut audio_codec: Option<String> = None;
    let listed = match doc.get("streams") {
        Some(j) => j.as_array(),
        None => None,
    };
    match listed {
        Some(streams) => {
            let ghost all = views(streams@);
            let mut i: usize = 0;
            while i < streams.len()
                invariant
                    i <= streams.len(),
                    all == views(streams@),
                    opt_view(video_codec) == last_codec(all.take(i as int), "video"@),
                    opt_view(audio_codec) == last_codec(all.take(i as int), "audio"@),
                decreases streams.len() - i,
            {
                proof {
                    assert(all.take(i + 1).drop_last() =~= all.take(i as int));
                    reveal_strlit("video");
                    reveal_strlit("audio");
                    assert("video"@[0] != "audio"@[0]);
                }
                if let Some(kind) = read_text(&streams[i], "codec_type") {
                    if let Some(name) = read_text(&streams[i], "codec_name") {
                        if same_text(kind.as_str(), "video") {
                            video_codec = Some(name.clone());
                        } else if same_text(kind.as_str(), "audio") {
                            audio_codec = Some(name.clone());
                        }
                    }
                }
                i += 1;
            }
            proof {
                assert(all.take(streams.len() as int) =~= all);
            }
        },
        None => {},
    }
    ProbeDetails {
        duration: read_nested_text(doc, "format", "duration"),
        moov_at_start,
        file_format: read_nested_text(doc, "format", "format_name"),
        video_codec,
        audio_codec,
    }
}

} // verus!
