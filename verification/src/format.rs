//! How playlists and tabs are written as documents.
//!
//! A playlist is an object with the members `id`, `name`, `videos`, `groups`
//! and `starred`, which must be there, and `category`, `description`,
//! `thumbnail`, `isConvertedFromColoredFolder` and `representativeVideoId`,
//! which may be left out. Members under other keys are passed over.

use crate::json::{member, Json, JsonView};
use crate::model::{Playlist, PlaylistTab, PlaylistView, TabView};
use crate::text::{opt_view, views};
use vstd::prelude::*;

verus! {

/// The member under `key`, which must be a string.
pub open spec fn required_text(doc: JsonView, key: Seq<char>) -> Option<Seq<char>> {
    match doc.member(key) {
        Some(JsonView::Str(s)) => Some(s),
        _ => None,
    }
}

/// The member under `key`, which must be an array of strings.
pub open spec fn required_texts(doc: JsonView, key: Seq<char>) -> Option<Seq<Seq<char>>> {
    match doc.member(key) {
        Some(j) => j.all_strings(),
        None => None,
    }
}

/// The member under `key`, which is a string, `null` or left out.
pub open spec fn optional_text(doc: JsonView, key: Seq<char>) -> Option<Option<Seq<char>>> {
    match doc.member(key) {
        None => Some(None),
        Some(JsonView::Null) => Some(None),
        Some(JsonView::Str(s)) => Some(Some(s)),
        Some(_) => None,
    }
}

/// The member under `key`, which is a boolean, or left out and then false.
pub open spec fn optional_flag(doc: JsonView, key: Seq<char>) -> Option<bool> {
    match doc.member(key) {
        None => Some(false),
        Some(JsonView::Bool(b)) => Some(b),
        Some(_) => None,
    }
}

/// The playlist that a document stands for, if it stands for one.
pub open spec fn decoded_playlist(doc: JsonView) -> Option<PlaylistView> {
    if required_text(doc, "id"@) is Some && required_text(doc, "name"@) is Some && required_texts(
        doc,
        "videos"@,
    ) is Some && doc.member("groups"@) is Some && required_texts(doc, "starred"@) is Some
        && optional_text(doc, "category"@) is Some && optional_text(doc, "description"@) is Some
        && optional_text(doc, "thumbnail"@) is Some && optional_flag(
        doc,
        "isConvertedFromColoredFolder"@,
    ) is Some && optional_text(doc, "representativeVideoId"@) is Some {
        Some(
            PlaylistView {
                id: required_text(doc, "id"@)->0,
                name: required_text(doc, "name"@)->0,
                videos: required_texts(doc, "videos"@)->0,
                groups: doc.member("groups"@)->0,
                starred: required_texts(doc, "starred"@)->0,
                category: optional_text(doc, "category"@)->0,
                description: optional_text(doc, "description"@)->0,
                thumbnail: optional_text(doc, "thumbnail"@)->0,
                is_converted_from_colored_folder: optional_flag(
                    doc,
                    "isConvertedFromColoredFolder"@,
                )->0,
                representative_video_id: optional_text(doc, "representativeVideoId"@)->0,
            },
        )
    } else {
        None
    }
}

/// Reads a member that must be a string.
fn read_text(doc: &Json, key: &str) -> (r: Option<String>)
    ensures
        opt_view(r) == required_text(doc@, key@),
{
    match doc.get(key) {
        Some(j) => match j.as_str() {
            Some(s) => Some(s.clone()),
            None => None,
        },
        None => None,
    }
}

/// Reads a member that must be an array of strings.
fn read_texts(doc: &Json, key: &str) -> (r: Option<Vec<String>>)
    ensures
        match r {
            Some(v) => required_texts(doc@, key@) == Some(views(v@)),
            None => required_texts(doc@, key@) is None,
        },
{
    match doc.get(key) {
        Some(j) => j.all_strings(),
        None => None,
    }
}

/// Reads a member that is a string, `null` or left out.
fn read_optional_text(doc: &Json, key: &str) -> (r: Option<Option<String>>)
    ensures
        match r {
            Some(o) => optional_text(doc@, key@) == Some(opt_view(o)),
            None => optional_text(doc@, key@) is None,
        },
{
    match doc.get(key) {
        None => Some(None),
        Some(j) => match j {
            Json::Null => Some(None),
            Json::Str(s) => Some(Some(s.clone())),
            _ => None,
        },
    }
}

/// The value of a flag that a document leaves out.
pub fn default_false() -> (b: bool)
    ensures
        !b,
{
    false
}

/// The watch progress of a snapshot that leaves it out: the empty object.
pub fn default_video_progress() -> (r: Json)
    ensures
        r@ == JsonView::Object(Seq::empty()),
{
    Json::empty_object()
}

/// Reads a member that is a boolean, or left out and then false.
fn read_optional_flag(doc: &Json, key: &str) -> (r: Option<bool>)
    ensures
        r == optional_flag(doc@, key@),
{
    match doc.get(key) {
        None => Some(default_false()),
        Some(j) => j.as_bool(),
    }
}

/// Reads a playlist from a document.
///
/// The result is the playlist exactly when the document is an object that
/// holds each required member in its kind and no optional member in a
/// wrong kind.
pub fn decode_playlist(doc: &Json) -> (r: Option<Playlist>)
    ensures
        match r {
            Some(p) => decoded_playlist(doc@) == Some(p@),
            None => decoded_playlist(doc@) is None,
        },
{
    let id = match read_text(doc, "id") {
        Some(x) => x,
        None => return None,
    };
    let name = match read_text(doc, "name") {
        Some(x) => x,
        None => return None,
    };
    let videos = match read_texts(doc, "videos") {
        Some(x) => x,
        None => return None,
    };
    let groups = match doc.get("groups") {
        Some(x) => x.duplicate(),
        None => return None,
    };
    let starred = match read_texts(doc, "starred") {
        Some(x) => x,
        None => return None,
    };
    let category = match read_optional_text(doc, "category") {
        Some(x) => x,
        None => return None,
    };
    let description = match read_optional_text(doc, "description") {
        Some(x) => x,
        None => return None,
    };
    let thumbnail = match read_optional_text(doc, "thumbnail") {
        Some(x) => x,
        None => return None,
    };
    let converted = match read_optional_flag(doc, "isConvertedFromColoredFolder") {
        Some(x) => x,
        None => return None,
    };
    let representative = match read_optional_text(doc, "representativeVideoId") {
        Some(x) => x,
        None => return None,
    };
    Some(
        Playlist {
            id,
            name,
            videos,
            groups,
            starred,
            category,
            description,
            thumbnail,
            is_converted_from_colored_folder: converted,
            representative_video_id: representative,
        },
    )
}

/// The playlists that the items stand for, in order; items that stand for
/// none are passed over.
pub open spec fn readable(items: Seq<JsonView>) -> Seq<PlaylistView> {
    items.filter(|j: JsonView| decoded_playlist(j) is Some).map_values(
        |j: JsonView| decoded_playlist(j)->0,
    )
}

/// Reads each item that stands for a playlist, and passes over the others.
pub fn decode_playlists(items: &Vec<Json>) -> (r: Vec<Playlist>)
    ensures
        views(r@) == readable(views(items@)),
{
    let ghost all = views(items@);
    let ghost ok = |j: JsonView| decoded_playlist(j) is Some;
    let ghost get = |j: JsonView| decoded_playlist(j)->0;
    let mut out: Vec<Playlist> = Vec::new();
    let mut i: usize = 0;
    assert(views(out@) =~= all.take(0).filter(ok).map_values(get)) by {
        reveal(Seq::filter);
    }
    while i < items.len()
        invariant
            i <= items.len(),
            all == views(items@),
            ok == |j: JsonView| decoded_playlist(j) is Some,
            get == |j: JsonView| decoded_playlist(j)->0,
            views(out@) == all.take(i as int).filter(ok).map_values(get),
        decreases items.len() - i,
    {
        let ghost before = all.take(i as int);
        let ghost kept = views(out@);
        proof {
            assert(all.take(i + 1) =~= before.push(all[i as int]));
            crate::json::lemma_filter_push(before, all[i as int], ok);
        }
        match decode_playlist(&items[i]) {
            Some(p) => {
                out.push(p);
                assert(before.filter(ok).push(all[i as int]).map_values(get) =~= kept.push(
                    get(all[i as int]),
                ));
            },
            None => {},
        }
        i += 1;
    }
    proof {
        assert(all.take(items.len() as int) =~= all);
    }
    out
}

/// The array of strings that a list of texts is written as.
pub open spec fn texts_document(texts: Seq<Seq<char>>) -> JsonView {
    JsonView::Array(texts.map_values(|s: Seq<char>| JsonView::Str(s)))
}

/// The string or `null` that an optional text is written as.
pub open spec fn optional_document(text: Option<Seq<char>>) -> JsonView {
    match text {
        Some(s) => JsonView::Str(s),
        None => JsonView::Null,
    }
}

/// The document that a playlist is written as: every member, in the order
/// in which a playlist lists its fields.
pub open spec fn encoded_playlist(p: PlaylistView) -> JsonView {
    JsonView::Object(
        seq![
            ("id"@, JsonView::Str(p.id)),
            ("name"@, JsonView::Str(p.name)),
            ("videos"@, texts_document(p.videos)),
            ("groups"@, p.groups),
            ("starred"@, texts_document(p.starred)),
            ("category"@, optional_document(p.category)),
            ("description"@, optional_document(p.description)),
            ("thumbnail"@, optional_document(p.thumbnail)),
            ("isConvertedFromColoredFolder"@, JsonView::Bool(p.is_converted_from_colored_folder)),
            ("representativeVideoId"@, optional_document(p.representative_video_id)),
        ],
    )
}

/// Writes a list of texts as an array of strings.
pub fn encode_texts(texts: &Vec<String>) -> (r: Json)
    ensures
        r@ == texts_document(views(texts@)),
{
    let mut out: Vec<Json> = Vec::new();
    let mut i: usize = 0;
    while i < texts.len()
        invariant
            i <= texts.len(),
            out.len() == i,
            forall|k: int| 0 <= k < i ==> out[k]@ == JsonView::Str(texts[k]@),
        decreases texts.len() - i,
    {
        out.push(Json::Str(texts[i].clone()));
        i += 1;
    }
    proof {
        Json::lemma_array_view(out);
        assert(views(out@) =~= views(texts@).map_values(|s: Seq<char>| JsonView::Str(s)));
    }
    Json::Array(out)
}

/// Writes an optional text as a string or `null`.
pub fn encode_optional(text: &Option<String>) -> (r: Json)
    ensures
        r@ == optional_document(opt_view(*text)),
{
    match text {
        Some(s) => Json::Str(s.clone()),
        None => Json::Null,
    }
}

/// Writes a playlist as a document.
pub fn encode_playlist(p: &Playlist) -> (r: Json)
    ensures
        r@ == encoded_playlist(p@),
{
    let mut members: Vec<(String, Json)> = Vec::new();
    members.push(member("id", Json::Str(p.id.clone())));
    members.push(member("name", Json::Str(p.name.clone())));
    members.push(member("videos", encode_texts(&p.videos)));
    members.push(member("groups", p.groups.duplicate()));
    members.push(member("starred", encode_texts(&p.starred)));
    members.push(member("category", encode_optional(&p.category)));
    members.push(member("description", encode_optional(&p.description)));
    members.push(member("thumbnail", encode_optional(&p.thumbnail)));
    members.push(
        member("isConvertedFromColoredFolder", Json::Bool(p.is_converted_from_colored_folder)),
    );
    members.push(member("representativeVideoId", encode_optional(&p.representative_video_id)));
    proof {
        Json::lemma_object_view(members);
        assert(crate::json::member_views(members@) =~= encoded_playlist(p@)->Object_0);
    }
    Json::Object(members)
}

/// The tab that a document stands for: an object with a `name` that is a
/// string and `playlistIds` that is an array of strings.
pub open spec fn decoded_tab(item: JsonView) -> Option<TabView> {
    match (required_text(item, "name"@), required_texts(item, "playlistIds"@)) {
        (Some(name), Some(playlist_ids)) => Some(TabView { name, playlist_ids }),
        _ => None,
    }
}

/// The tabs that a document stands for: an array of which every item
/// stands for a tab.
pub open spec fn decoded_tabs(doc: JsonView) -> Option<Seq<TabView>> {
    match doc {
        JsonView::Array(items) => if forall|i: int|
            0 <= i < items.len() ==> decoded_tab(#[trigger] items[i]) is Some {
            Some(items.map_values(|j: JsonView| decoded_tab(j)->0))
        } else {
            None
        },
        _ => None,
    }
}

/// Reads a tab.
pub fn decode_tab(item: &Json) -> (r: Option<PlaylistTab>)
    ensures
        match r {
            Some(t) => decoded_tab(item@) == Some(t@),
            None => decoded_tab(item@) is None,
        },
{
    let name = match read_text(item, "name") {
        Some(n) => n,
        None => return None,
    };
    match read_texts(item, "playlistIds") {
        Some(playlist_ids) => Some(PlaylistTab { name, playlist_ids }),
        None => None,
    }
}

/// Reads a list of tabs.
pub fn decode_tabs(doc: &Json) -> (r: Option<Vec<PlaylistTab>>)
    ensures
        match r {
            Some(tabs) => decoded_tabs(doc@) == Some(views(tabs@)),
            None => decoded_tabs(doc@) is None,
        },
{
    let items = match doc.as_array() {
        Some(items) => items,
        None => return None,
    };
    let ghost all = views(items@);
    let mut out: Vec<PlaylistTab> = Vec::new();
    let mut i: usize = 0;
    while i < items.len()
        invariant
            i <= items.len(),
            all == views(items@),
            doc@ == JsonView::Array(all),
            out.len() == i,
            forall|k: int| 0 <= k < i ==> decoded_tab(#[trigger] all[k]) == Some(out[k]@),
        decreases items.len() - i,
    {
        match decode_tab(&items[i]) {
            Some(t) => out.push(t),
            None => {
                assert(decoded_tab(all[i as int]) is None);
                return None;
            },
        }
        i += 1;
    }
    Some(out)
}

/// The document that a tab is written as.
pub open spec fn encoded_tab(t: TabView) -> JsonView {
    JsonView::Object(
        seq![("name"@, JsonView::Str(t.name)), ("playlistIds"@, texts_document(t.playlist_ids))],
    )
}

/// Writes a tab as a document.
pub fn encode_tab(t: &PlaylistTab) -> (r: Json)
    ensures
        r@ == encoded_tab(t@),
{
    let mut members: Vec<(String, Json)> = Vec::new();
    members.push(member("name", Json::Str(t.name.clone())));
    members.push(member("playlistIds", encode_texts(&t.playlist_ids)));
    proof {
        Json::lemma_object_view(members);
        assert(crate::json::member_views(members@) =~= encoded_tab(t@)->Object_0);
    }
    Json::Object(members)
}

/// Writes a list of tabs as an array of documents.
pub fn encode_tabs(tabs: &Vec<PlaylistTab>) -> (r: Json)
    ensures
        r@ == JsonView::Array(views(tabs@).map_values(|t: TabView| encoded_tab(t))),
{
    let mut out: Vec<Json> = Vec::new();
    let mut i: usize = 0;
    while i < tabs.len()
        invariant
            i <= tabs.len(),
            out.len() == i,
            forall|k: int| 0 <= k < i ==> out[k]@ == encoded_tab(tabs[k]@),
        decreases tabs.len() - i,
    {
        out.push(encode_tab(&tabs[i]));
        i += 1;
    }
    proof {
        Json::lemma_array_view(out);
        assert(views(out@) =~= views(tabs@).map_values(|t: TabView| encoded_tab(t)));
    }
    Json::Array(out)
}

} // verus!
