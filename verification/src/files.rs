//! Local media files: which files count as videos, how they are listed,
//! and how converted files are named.

use crate::json::{member, member_views, Json, JsonView};
use crate::text::{decimal_text, digits_of, ends_with, has_suffix, join, same_text, views};
use vstd::prelude::*;

verus! {

/// The lower case of a text as `str::to_lowercase` gives it.
pub uninterp spec fn lowercased(text: Seq<char>) -> Seq<char>;

/// Turns a text to lower case with `str::to_lowercase`.
///
/// The contract claims only that the result is a function of the text.
#[verifier::external_body]
fn lowercase(text: &str) -> (r: String)
    ensures
        r@ == lowercased(text@),
{
    text.to_lowercase()
}

/// Whether a text is the extension of a video file.
pub open spec fn is_video_name(ext: Seq<char>) -> bool {
    ext == "mp4"@ || ext == "webm"@ || ext == "mkv"@ || ext == "avi"@ || ext == "mov"@ || ext
        == "wmv"@ || ext == "flv"@ || ext == "m4v"@
}

/// Whether a file with this extension is a video, whatever the case of
/// its letters.
pub fn is_video_extension(ext: &str) -> (r: bool)
    ensures
        r == is_video_name(lowercased(ext@)),
{
    let lower = lowercase(ext);
    let e = lower.as_str();
    same_text(e, "mp4") || same_text(e, "webm") || same_text(e, "mkv") || same_text(e, "avi")
        || same_text(e, "mov") || same_text(e, "wmv") || same_text(e, "flv") || same_text(
        e,
        "m4v",
    )
}

/// Whether a file with this extension is a Matroska file, whatever the
/// case of its letters.
pub fn is_matroska_extension(ext: &str) -> (r: bool)
    ensures
        r == (lowercased(ext@) == "mkv"@),
{
    let lower = lowercase(ext);
    same_text(lower.as_str(), "mkv")
}

/// Whether a video at this path may carry cover art: its name ends in
/// `.mp4` or `.m4v`, whatever the case of its letters.
pub fn may_have_cover_art(path: &str) -> (r: bool)
    ensures
        r == (ends_with(lowercased(path@), ".mp4"@) || ends_with(lowercased(path@), ".m4v"@)),
{
    let lower = lowercase(path);
    has_suffix(lower.as_str(), ".mp4") || has_suffix(lower.as_str(), ".m4v")
}

/// The name of the file that a conversion of the file with this stem is
/// written to.
pub fn converted_file_name(stem: &str) -> (r: String)
    ensures
        r@ == stem@ + ".mp4"@,
{
    join(stem, ".mp4")
}

/// The id of a local video: its path, marked as a local file.
pub fn local_video_id(file_path: &str) -> (r: String)
    ensures
        r@ == "local:file://"@ + file_path@,
{
    join("local:file://", file_path)
}

/// The entry that a local video is listed as.
pub open spec fn local_video_entry(file_path: Seq<char>, file_name: Seq<char>) -> JsonView {
    JsonView::Object(
        seq![
            ("id"@, JsonView::Str("local:file://"@ + file_path)),
            ("title"@, JsonView::Str(file_name)),
            ("duration"@, JsonView::Int(0)),
            ("filePath"@, JsonView::Str(file_path)),
        ],
    )
}

/// Lists a local video: its id, its file name as the title, no duration
/// yet, and its path.
pub fn describe_local_video(file_path: &str, file_name: &str) -> (r: Json)
    ensures
        r@ == local_video_entry(file_path@, file_name@),
{
    let mut members: Vec<(String, Json)> = Vec::new();
    members.push(member("id", Json::Str(local_video_id(file_path))));
    members.push(member("title", Json::Str(file_name.to_owned())));
    members.push(member("duration", Json::Int(0)));
    members.push(member("filePath", Json::Str(file_path.to_owned())));
    proof {
        Json::lemma_object_view(members);
        assert(member_views(members@) =~= local_video_entry(file_path@, file_name@)->Object_0);
    }
    Json::Object(members)
}

/// The number that a count is written as.
pub open spec fn count_document(n: usize) -> JsonView {
    if n <= i64::MAX {
        JsonView::Int(n as i64)
    } else {
        JsonView::Number(digits_of(n as nat, 10))
    }
}

/// Writes a count as a number.
pub fn encode_count(n: usize) -> (r: Json)
    ensures
        r@ == count_document(n),
{
    if n as u64 <= 0x7fff_ffff_ffff_ffffu64 {
        Json::Int(n as i64)
    } else {
        Json::Number(decimal_text(n as u64))
    }
}

/// How the conversion of one file ended: with the path of the file
/// written, or with what went wrong.
#[derive(Debug)]
pub struct Conversion {
    pub input: String,
    pub outcome: Result<String, String>,
}

/// The mathematical value of a [`Conversion`].
pub struct ConversionView {
    pub input: Seq<char>,
    pub outcome: Result<Seq<char>, Seq<char>>,
}

impl View for Conversion {
    type V = ConversionView;

    open spec fn view(&self) -> ConversionView {
        ConversionView {
            input: self.input@,
            outcome: match self.outcome {
                Ok(path) => Ok(path@),
                Err(why) => Err(why@),
            },
        }
    }
}

/// The entry that a conversion is reported as.
pub open spec fn conversion_entry(c: ConversionView) -> JsonView {
    match c.outcome {
        Ok(path) => JsonView::Object(
            seq![
                ("input"@, JsonView::Str(c.input)),
                ("output"@, JsonView::Str(path)),
                ("status"@, JsonView::Str("success"@)),
            ],
        ),
        Err(why) => JsonView::Object(
            seq![
                ("input"@, JsonView::Str(c.input)),
                ("output"@, JsonView::Null),
                ("status"@, JsonView::Str("error"@)),
                ("error"@, JsonView::Str(why)),
            ],
        ),
    }
}

/// The test for a conversion that succeeded.
pub open spec fn succeeded() -> spec_fn(ConversionView) -> bool {
    |c: ConversionView| c.outcome is Ok
}

/// The report of the conversions of a folder: how many files were
/// converted, how many of them with success and how many without, where
/// the files were written, and an entry for each.
pub open spec fn conversion_report(conversions: Seq<ConversionView>, output_folder: Seq<char>)
    -> JsonView {
    JsonView::Object(
        seq![
            ("total"@, count_document(conversions.len() as usize)),
            ("success"@, count_document(conversions.filter(succeeded()).len() as usize)),
            (
                "errors"@,
                count_document(
                    (conversions.len() - conversions.filter(succeeded()).len()) as usize,
                ),
            ),
            ("output_folder"@, JsonView::Str(output_folder)),
            (
                "results"@,
                JsonView::Array(conversions.map_values(|c: ConversionView| conversion_entry(c))),
            ),
        ],
    )
}

/// Writes the entry of one conversion.
pub fn describe_conversion(c: &Conversion) -> (r: Json)
    ensures
        r@ == conversion_entry(c@),
{
    let mut members: Vec<(String, Json)> = Vec::new();
    members.push(member("input", Json::Str(c.input.clone())));
    match &c.outcome {
        Ok(path) => {
            members.push(member("output", Json::Str(path.clone())));
            members.push(member("status", Json::Str("success".to_owned())));
        },
        Err(why) => {
            members.push(member("output", Json::Null));
            members.push(member("status", Json::Str("error".to_owned())));
            members.push(member("error", Json::Str(why.clone())));
        },
    }
    proof {
        Json::lemma_object_view(members);
        assert(member_views(members@) =~= conversion_entry(c@)->Object_0);
    }
    Json::Object(members)
}

/// Writes the report of the conversions of a folder.
pub fn report_conversions(conversions: &Vec<Conversion>, output_folder: &str) -> (r: Json)
    ensures
        r@ == conversion_report(views(conversions@), output_folder@),
{
    let ghost all = views(conversions@);
    let ghost test = succeeded();
    let mut entries: Vec<Json> = Vec::new();
    let mut good: usize = 0;
    let mut i: usize = 0;
    assert(all.take(0).filter(test).len() == 0) by {
        reveal(Seq::filter);
    }
    while i < conversions.len()
        invariant
            i <= conversions.len(),
            all == views(conversions@),
            test == succeeded(),
            entries.len() == i,
            forall|k: int| 0 <= k < i ==> entries[k]@ == conversion_entry(all[k]),
            good == all.take(i as int).filter(test).len(),
            good <= i,
        decreases conversions.len() - i,
    {
        proof {
            assert(all.take(i + 1) =~= all.take(i as int).push(all[i as int]));
            crate::json::lemma_filter_push(all.take(i as int), all[i as int], test);
        }
        entries.push(describe_conversion(&conversions[i]));
        if conversions[i].outcome.is_ok() {
            good += 1;
        }
        i += 1;
    }
    proof {
        assert(all.take(conversions.len() as int) =~= all);
        Json::lemma_array_view(entries);
        assert(views(entries@) =~= all.map_values(|c: ConversionView| conversion_entry(c)));
    }
    let mut members: Vec<(String, Json)> = Vec::new();
    members.push(member("total", encode_count(conversions.len())));
    members.push(member("success", encode_count(good)));
    members.push(member("errors", encode_count(conversions.len() - good)));
    members.push(member("output_folder", Json::Str(output_folder.to_owned())));
    members.push(member("results", Json::Array(entries)));
    proof {
        Json::lemma_object_view(members);
        assert(member_views(members@) =~= conversion_report(all, output_folder@)->Object_0);
    }
    Json::Object(members)
}

} // verus!
