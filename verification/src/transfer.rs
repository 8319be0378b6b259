//! Import and export of playlists and tabs.
//!
//! Every operation here loads the user's data, changes the snapshot and
//! saves it once; none reaches into the store by itself.

use crate::account::{
    get_user_data, law_load_twice, law_save_then_load, law_store_stays_well_formed, loaded,
    save_user_data, saved, snapshot_of,
};
use crate::codec::{parse_document, parsed_document, render_document, rendered_document};
use crate::error::StoreError;
use crate::format::{
    decode_playlist, decode_playlists, decoded_playlist, encode_playlist, encode_texts,
    encoded_playlist, readable, texts_document,
};
use crate::json::{member, Json, JsonView};
use crate::model::{
    find_playlist, first_with_id, has_id, position, Playlist, PlaylistTab, PlaylistView, TabView,
    UserData, UserDataView,
};
use crate::store::{bare, distinct_ids, template_id, tenant_wf, OwnedPlaylist, Store, StoreView};
use crate::table::Key;
use crate::text::{contains_text, same_text, views};
use vstd::prelude::*;

verus! {

/// The test for a candidate whose id none of the existing playlists has.
pub open spec fn is_new(existing: Seq<PlaylistView>) -> spec_fn(PlaylistView) -> bool {
    |c: PlaylistView| !has_id(existing, c.id)
}

/// The candidates that an add-only import appends: those whose id none of
/// the existing playlists has, in their order.
pub open spec fn fresh(existing: Seq<PlaylistView>, candidates: Seq<PlaylistView>) -> Seq<
    PlaylistView,
> {
    candidates.filter(is_new(existing))
}

/// The playlists after an add-only import: the existing ones as they are,
/// then the fresh candidates.
pub open spec fn add_only(existing: Seq<PlaylistView>, candidates: Seq<PlaylistView>) -> Seq<
    PlaylistView,
> {
    existing + fresh(existing, candidates)
}

/// How many playlists an add-only import added, and how many it passed over
/// because their id was taken.
#[derive(Clone, Copy, Debug, PartialEq, Eq, Structural)]
pub struct ImportSummary {
    pub added: usize,
    pub skipped: usize,
}

/// The candidates that an import document offers.
///
/// Three shapes are tried in turn: an object with an `id`, which is one
/// playlist and must be readable as one; an object whose `playlists` is an
/// array, of which every readable item counts; an array, likewise.
pub open spec fn import_candidates(doc: JsonView) -> Result<Seq<PlaylistView>, StoreError> {
    if doc is Object && doc.member("id"@) is Some {
        match decoded_playlist(doc) {
            Some(p) => Ok(seq![p]),
            None => Err(StoreError::InvalidPlaylist),
        }
    } else if doc.member("playlists"@) is Some && doc.member("playlists"@)->0 is Array {
        Ok(readable(doc.member("playlists"@)->0->Array_0))
    } else if doc is Array {
        Ok(readable(doc->Array_0))
    } else {
        Err(StoreError::UnknownShape)
    }
}

/// Reads the candidates that an import document offers.
pub fn read_candidates(doc: &Json) -> (r: Result<Vec<Playlist>, StoreError>)
    ensures
        match r {
            Ok(v) => import_candidates(doc@) == Ok::<Seq<PlaylistView>, StoreError>(views(v@)),
            Err(e) => import_candidates(doc@) == Err::<Seq<PlaylistView>, StoreError>(e),
        },
{
    if doc.is_object() && doc.get("id").is_some() {
        return match decode_playlist(doc) {
            Some(p) => {
                let mut v: Vec<Playlist> = Vec::new();
                v.push(p);
                assert(views(v@) =~= seq![p@]);
                Ok(v)
            },
            None => Err(StoreError::InvalidPlaylist),
        };
    }
    if let Some(listed) = doc.get("playlists") {
        if let Some(items) = listed.as_array() {
            return Ok(decode_playlists(items));
        }
    }
    match doc.as_array() {
        Some(items) => Ok(decode_playlists(items)),
        None => Err(StoreError::UnknownShape),
    }
}

/// A snapshot with other playlists.
pub open spec fn with_playlists(data: UserDataView, playlists: Seq<PlaylistView>) -> UserDataView {
    UserDataView {
        playlists,
        playlist_tabs: data.playlist_tabs,
        custom_colors: data.custom_colors,
        color_order: data.color_order,
        video_progress: data.video_progress,
    }
}

/// An add-only import: the store afterwards and the result.
///
/// A document that offers no candidate fails and leaves the store as it
/// is. Otherwise the user's data is loaded, the fresh candidates are
/// appended and the whole is saved once. Where two fresh candidates share
/// an id the save fails, and the store is as the load left it.
pub open spec fn imported(s: StoreView, user: Key, doc: JsonView) -> (
    StoreView,
    Result<ImportSummary, StoreError>,
) {
    match import_candidates(doc) {
        Err(e) => (s, Err(e)),
        Ok(candidates) => if candidates.len() == 0 {
            (s, Err(StoreError::NoPlaylists))
        } else {
            let (s1, data) = loaded(s, user);
            let combined = add_only(data.playlists, candidates);
            if distinct_ids(combined) {
                (
                    saved(s1, user, with_playlists(data, combined)),
                    Ok(
                        ImportSummary {
                            added: fresh(data.playlists, candidates).len() as usize,
                            skipped: (candidates.len() - fresh(
                                data.playlists,
                                candidates,
                            ).len()) as usize,
                        },
                    ),
                )
            } else {
                (s1, Err(StoreError::DuplicatePlaylist))
            }
        },
    }
}

/// Appends to `existing` each candidate whose id none of the existing
/// playlists has, and counts the candidates added and passed over.
pub fn merge_add_only(existing: Vec<Playlist>, candidates: &Vec<Playlist>) -> (r: (
    Vec<Playlist>,
    ImportSummary,
))
    ensures
        views(r.0@) == add_only(views(existing@), views(candidates@)),
        r.1.added == fresh(views(existing@), views(candidates@)).len(),
        r.1.added + r.1.skipped == candidates.len(),
{
    let ghost old_ps = views(existing@);
    let ghost cs = views(candidates@);
    let ghost test = is_new(old_ps);
    let known = existing.len();
    let mut combined = existing;
    let mut added: usize = 0;
    let mut skipped: usize = 0;
    let mut i: usize = 0;
    assert(cs.take(0).filter(test) =~= Seq::empty()) by {
        reveal(Seq::filter);
    }
    while i < candidates.len()
        invariant
            i <= candidates.len(),
            cs == views(candidates@),
            test == is_new(old_ps),
            known == old_ps.len(),
            views(combined@) == old_ps + cs.take(i as int).filter(test),
            added == cs.take(i as int).filter(test).len(),
            added + skipped == i,
            combined.len() == known + added,
        decreases candidates.len() - i,
    {
        let ghost before = cs.take(i as int);
        let ghost so_far = views(combined@);
        proof {
            assert(cs.take(i + 1) =~= before.push(cs[i as int]));
            crate::json::lemma_filter_push(before, cs[i as int], test);
            before.lemma_filter_len(test);
        }
        let taken = id_is_taken(&combined, known, candidates[i].id.as_str());
        proof {
            let id = cs[i as int].id;
            if has_id(old_ps, id) {
                let k = choose|k: int| 0 <= k < old_ps.len() && (#[trigger] old_ps[k]).id == id;
                assert(so_far[k] == old_ps[k]);
            }
            if taken {
                let k = choose|k: int| 0 <= k < known && (#[trigger] so_far[k]).id == id;
            }
        }
        if taken {
            skipped += 1;
        } else {
            combined.push(candidates[i].clone());
            added += 1;
            assert(views(combined@) =~= so_far.push(cs[i as int]));
        }
        i += 1;
    }
    proof {
        assert(cs.take(candidates.len() as int) =~= cs);
    }
    (combined, ImportSummary { added, skipped })
}

/// Whether one of the first `known` playlists has the id.
fn id_is_taken(playlists: &Vec<Playlist>, known: usize, id: &str) -> (r: bool)
    requires
        known <= playlists.len(),
    ensures
        r == exists|k: int| 0 <= k < known && (#[trigger] views(playlists@)[k]).id == id@,
{
    let ghost ps = views(playlists@);
    let mut k: usize = 0;
    while k < known
        invariant
            k <= known <= playlists.len(),
            ps == views(playlists@),
            forall|j: int| 0 <= j < k ==> (#[trigger] ps[j]).id != id@,
        decreases known - k,
    {
        if same_text(playlists[k].id.as_str(), id) {
            assert(ps[k as int].id == id@);
            return true;
        }
        k += 1;
    }
    false
}

/// Imports the playlists that a document offers, adding those whose id the
/// user does not have yet and changing none that the user has.
pub fn import_playlists(store: &mut Store, user_id: &str, doc: &Json) -> (r: Result<
    ImportSummary,
    StoreError,
>)
    requires
        old(store).wf(),
    ensures
        final(store).wf(),
        final(store)@ == imported(old(store)@, user_id@, doc@).0,
        r == imported(old(store)@, user_id@, doc@).1,
{
    let candidates = match read_candidates(doc) {
        Ok(v) => v,
        Err(e) => return Err(e),
    };
    if candidates.len() == 0 {
        return Err(StoreError::NoPlaylists);
    }
    let data = get_user_data(store, user_id);
    let ghost before = data@;
    let UserData { playlists, playlist_tabs, custom_colors, color_order, video_progress } = data;
    let (combined, summary) = merge_add_only(playlists, &candidates);
    let next = UserData {
        playlists: combined,
        playlist_tabs,
        custom_colors,
        color_order,
        video_progress,
    };
    assert(next@ == with_playlists(before, add_only(before.playlists, views(candidates@))));
    match save_user_data(store, user_id, next) {
        Ok(()) => Ok(summary),
        Err(e) => Err(e),
    }
}

/// The playlist that an overwrite document offers.
///
/// Two shapes are tried in turn: an object with an `id`, which is the
/// playlist; an object whose `playlists` is an array, of which the first
/// item is the playlist. Either must be readable as a playlist.
pub open spec fn replacement(doc: JsonView) -> Result<PlaylistView, StoreError> {
    if doc is Object && doc.member("id"@) is Some {
        match decoded_playlist(doc) {
            Some(p) => Ok(p),
            None => Err(StoreError::InvalidPlaylist),
        }
    } else if doc.member("playlists"@) is Some && doc.member("playlists"@)->0 is Array {
        let items = doc.member("playlists"@)->0->Array_0;
        if items.len() == 0 {
            Err(StoreError::NoPlaylists)
        } else {
            match decoded_playlist(items[0]) {
                Some(p) => Ok(p),
                None => Err(StoreError::InvalidPlaylist),
            }
        }
    } else {
        Err(StoreError::UnknownShape)
    }
}

/// Reads the playlist that an overwrite document offers.
pub fn read_replacement(doc: &Json) -> (r: Result<Playlist, StoreError>)
    ensures
        match r {
            Ok(p) => replacement(doc@) == Ok::<PlaylistView, StoreError>(p@),
            Err(e) => replacement(doc@) == Err::<PlaylistView, StoreError>(e),
        },
{
    if doc.is_object() && doc.get("id").is_some() {
        return match decode_playlist(doc) {
            Some(p) => Ok(p),
            None => Err(StoreError::InvalidPlaylist),
        };
    }
    if let Some(listed) = doc.get("playlists") {
        if let Some(items) = listed.as_array() {
            if items.len() == 0 {
                return Err(StoreError::NoPlaylists);
            }
            return match decode_playlist(&items[0]) {
                Some(p) => Ok(p),
                None => Err(StoreError::InvalidPlaylist),
            };
        }
    }
    Err(StoreError::UnknownShape)
}

/// A playlist under another id.
pub open spec fn with_id(p: PlaylistView, id: Seq<char>) -> PlaylistView {
    PlaylistView {
        id,
        name: p.name,
        videos: p.videos,
        groups: p.groups,
        starred: p.starred,
        category: p.category,
        description: p.description,
        thumbnail: p.thumbnail,
        is_converted_from_colored_folder: p.is_converted_from_colored_folder,
        representative_video_id: p.representative_video_id,
    }
}

/// An overwrite by id: the store afterwards, and the name of the playlist
/// that was written, or the failure.
///
/// The user's data is loaded. Where no playlist has the id, the overwrite
/// fails and the store is as the load left it. Otherwise the playlist at
/// that place is replaced by the one from the document, which is given the
/// id that was named whatever id it came with, and the whole is saved once.
pub open spec fn overwritten(s: StoreView, user: Key, id: Seq<char>, doc: JsonView) -> (
    StoreView,
    Result<Seq<char>, StoreError>,
) {
    match replacement(doc) {
        Err(e) => (s, Err(e)),
        Ok(p) => {
            let (s1, data) = loaded(s, user);
            match position(data.playlists, id) {
                None => (s1, Err(StoreError::PlaylistNotFound)),
                Some(i) => (
                    saved(s1, user, with_playlists(data, data.playlists.update(i, with_id(p, id)))),
                    Ok(p.name),
                ),
            }
        },
    }
}

/// Replacing a playlist by one with the same id keeps the ids distinct.
pub proof fn lemma_update_distinct(playlists: Seq<PlaylistView>, i: int, p: PlaylistView)
    requires
        distinct_ids(playlists),
        0 <= i < playlists.len(),
        p.id == playlists[i].id,
    ensures
        distinct_ids(playlists.update(i, p)),
{
    let next = playlists.update(i, p);
    assert forall|a: int, b: int| 0 <= a < b < next.len() implies (#[trigger] next[a]).id != (
    #[trigger] next[b]).id by {
        assert(playlists[a].id != playlists[b].id);
    }
}

/// Replaces the user's playlist with the given id by the playlist that the
/// document offers, keeping the id.
pub fn overwrite_playlist(store: &mut Store, user_id: &str, playlist_id: &str, doc: &Json) -> (r:
    Result<String, StoreError>)
    requires
        old(store).wf(),
    ensures
        final(store).wf(),
        final(store)@ == overwritten(old(store)@, user_id@, playlist_id@, doc@).0,
        match r {
            Ok(name) => overwritten(old(store)@, user_id@, playlist_id@, doc@).1 == Ok::<
                Seq<char>,
                StoreError,
            >(name@),
            Err(e) => overwritten(old(store)@, user_id@, playlist_id@, doc@).1 == Err::<
                Seq<char>,
                StoreError,
            >(e),
        },
{
    let incoming = match read_replacement(doc) {
        Ok(p) => p,
        Err(e) => return Err(e),
    };
    let data = get_user_data(store, user_id);
    let ghost before = data@;
    let UserData { mut playlists, playlist_tabs, custom_colors, color_order, video_progress } =
        data;
    let place = match find_playlist(&playlists, playlist_id) {
        Some(i) => i,
        None => return Err(StoreError::PlaylistNotFound),
    };
    let name = incoming.name.clone();
    let Playlist {
        id: _,
        name: new_name,
        videos,
        groups,
        starred,
        category,
        description,
        thumbnail,
        is_converted_from_colored_folder,
        representative_video_id,
    } = incoming;
    let entry = Playlist {
        id: playlist_id.to_owned(),
        name: new_name,
        videos,
        groups,
        starred,
        category,
        description,
        thumbnail,
        is_converted_from_colored_folder,
        representative_video_id,
    };
    playlists.set(place, entry);
    proof {
        assert(views(playlists@) =~= before.playlists.update(
            place as int,
            with_id(incoming@, playlist_id@),
        ));
        lemma_update_distinct(before.playlists, place as int, with_id(incoming@, playlist_id@));
    }
    let next = UserData { playlists, playlist_tabs, custom_colors, color_order, video_progress };
    match save_user_data(store, user_id, next) {
        Ok(()) => Ok(name),
        Err(e) => Err(e),
    }
}

/// The test for a playlist that a tab refers to.
pub open spec fn in_tab(tab: TabView) -> spec_fn(PlaylistView) -> bool {
    |p: PlaylistView| tab.playlist_ids.contains(p.id)
}

/// The document that a tab is exported as: the tab's name and playlist
/// ids, and every playlist that the tab refers to, in the user's order.
pub open spec fn tab_document(tab: TabView, playlists: Seq<PlaylistView>) -> JsonView {
    JsonView::Object(
        seq![
            (
                "tab"@,
                JsonView::Object(
                    seq![
                        ("name"@, JsonView::Str(tab.name)),
                        ("playlistIds"@, texts_document(tab.playlist_ids)),
                    ],
                ),
            ),
            (
                "playlists"@,
                JsonView::Array(
                    playlists.filter(in_tab(tab)).map_values(|p: PlaylistView| encoded_playlist(p)),
                ),
            ),
        ],
    )
}

/// The export of the tab at `index`, which fails where the user has no
/// tab there.
pub open spec fn exported_tab(data: UserDataView, index: usize) -> Result<JsonView, StoreError> {
    if index >= data.playlist_tabs.len() {
        Err(StoreError::TabOutOfRange { index, count: data.playlist_tabs.len() as usize })
    } else {
        Ok(tab_document(data.playlist_tabs[index as int], data.playlists))
    }
}

/// The document for the tab at `tab_index` of a snapshot.
pub fn export_tab_document(data: &UserData, tab_index: usize) -> (r: Result<Json, StoreError>)
    ensures
        match r {
            Ok(doc) => exported_tab(data@, tab_index) == Ok::<JsonView, StoreError>(doc@),
            Err(e) => exported_tab(data@, tab_index) == Err::<JsonView, StoreError>(e),
        },
{
    if tab_index >= data.playlist_tabs.len() {
        return Err(
            StoreError::TabOutOfRange { index: tab_index, count: data.playlist_tabs.len() },
        );
    }
    let tab = &data.playlist_tabs[tab_index];
    let ghost ps = views(data.playlists@);
    let ghost test = in_tab(tab@);
    let ghost write = |p: PlaylistView| encoded_playlist(p);
    let mut items: Vec<Json> = Vec::new();
    let mut i: usize = 0;
    assert(views(items@) =~= ps.take(0).filter(test).map_values(write)) by {
        reveal(Seq::filter);
    }
    while i < data.playlists.len()
        invariant
            i <= data.playlists.len(),
            ps == views(data.playlists@),
            test == in_tab(tab@),
            write == |p: PlaylistView| encoded_playlist(p),
            views(items@) == ps.take(i as int).filter(test).map_values(write),
        decreases data.playlists.len() - i,
    {
        let ghost before = ps.take(i as int);
        let ghost kept = views(items@);
        proof {
            assert(ps.take(i + 1) =~= before.push(ps[i as int]));
            crate::json::lemma_filter_push(before, ps[i as int], test);
        }
        if contains_text(&tab.playlist_ids, data.playlists[i].id.as_str()) {
            items.push(encode_playlist(&data.playlists[i]));
            assert(before.filter(test).push(ps[i as int]).map_values(write) =~= kept.push(
                write(ps[i as int]),
            ));
        }
        i += 1;
    }
    proof {
        assert(ps.take(data.playlists.len() as int) =~= ps);
        Json::lemma_array_view(items);
    }
    let mut head: Vec<(String, Json)> = Vec::new();
    head.push(member("name", Json::Str(tab.name.clone())));
    head.push(member("playlistIds", encode_texts(&tab.playlist_ids)));
    proof {
        Json::lemma_object_view(head);
        assert(crate::json::member_views(head@) =~= seq![
            ("name"@, JsonView::Str(tab@.name)),
            ("playlistIds"@, texts_document(tab@.playlist_ids)),
        ]);
    }
    let mut members: Vec<(String, Json)> = Vec::new();
    members.push(member("tab", Json::Object(head)));
    members.push(member("playlists", Json::Array(items)));
    proof {
        Json::lemma_object_view(members);
        assert(crate::json::member_views(members@) =~= tab_document(tab@, ps)->Object_0);
    }
    Ok(Json::Object(members))
}

/// The playlists with one more written in: in the place of the first
/// playlist that has its id, or at the end where none has.
pub open spec fn upsert(playlists: Seq<PlaylistView>, c: PlaylistView) -> Seq<PlaylistView> {
    match position(playlists, c.id) {
        Some(i) => playlists.update(i, c),
        None => playlists.push(c),
    }
}

/// The playlists with each candidate written in, one after the other.
pub open spec fn upsert_all(playlists: Seq<PlaylistView>, candidates: Seq<PlaylistView>) -> Seq<
    PlaylistView,
>
    decreases candidates.len(),
{
    if candidates.len() == 0 {
        playlists
    } else {
        upsert(upsert_all(playlists, candidates.drop_last()), candidates.last())
    }
}

/// How many of the candidates, written in one after the other, took the
/// place of a playlist that was there.
pub open spec fn updates(playlists: Seq<PlaylistView>, candidates: Seq<PlaylistView>) -> nat
    decreases candidates.len(),
{
    if candidates.len() == 0 {
        0
    } else {
        let earlier = updates(playlists, candidates.drop_last());
        if has_id(upsert_all(playlists, candidates.drop_last()), candidates.last().id) {
            earlier + 1
        } else {
            earlier
        }
    }
}

/// No more candidates replace a playlist than there are candidates.
pub proof fn lemma_updates_bound(playlists: Seq<PlaylistView>, candidates: Seq<PlaylistView>)
    ensures
        updates(playlists, candidates) <= candidates.len(),
    decreases candidates.len(),
{
    if candidates.len() > 0 {
        lemma_updates_bound(playlists, candidates.drop_last());
    }
}

/// Writing a playlist in keeps the ids distinct.
pub proof fn lemma_upsert_distinct(playlists: Seq<PlaylistView>, c: PlaylistView)
    requires
        distinct_ids(playlists),
    ensures
        distinct_ids(upsert(playlists, c)),
{
    if has_id(playlists, c.id) {
        let i = choose|i: int| first_with_id(playlists, c.id, i);
        let w = choose|w: int| 0 <= w < playlists.len() && (#[trigger] playlists[w]).id == c.id;
        lemma_first_exists(playlists, c.id, w);
        lemma_update_distinct(playlists, i, c);
    } else {
        let next = playlists.push(c);
        assert forall|a: int, b: int| 0 <= a < b < next.len() implies (#[trigger] next[a]).id != (
        #[trigger] next[b]).id by {
            if b < playlists.len() {
                assert(playlists[a].id != playlists[b].id);
            } else {
                assert(playlists[a].id != c.id);
            }
        }
    }
}

/// Where some playlist up to place `w` has the id, there is a first one.
pub proof fn lemma_first_exists(playlists: Seq<PlaylistView>, id: Seq<char>, w: int)
    requires
        0 <= w < playlists.len(),
        playlists[w].id == id,
    ensures
        exists|i: int| first_with_id(playlists, id, i),
    decreases w,
{
    if exists|k: int| 0 <= k < w && (#[trigger] playlists[k]).id == id {
        let k = choose|k: int| 0 <= k < w && (#[trigger] playlists[k]).id == id;
        lemma_first_exists(playlists, id, k);
    } else {
        assert(first_with_id(playlists, id, w));
    }
}

/// How many playlists a tab import added, and how many it wrote over.
#[derive(Clone, Copy, Debug, PartialEq, Eq, Structural)]
pub struct TabImportSummary {
    pub added: usize,
    pub updated: usize,
}

/// The tab that a tab document describes: the `tab` member must be there
/// and have a name that is a string; of its `playlistIds` the strings
/// count, and where it has none the tab refers to no playlist.
pub open spec fn described_tab(doc: JsonView) -> Result<TabView, StoreError> {
    match doc.member("tab"@) {
        None => Err(StoreError::MissingTab),
        Some(t) => match t.member("name"@) {
            Some(JsonView::Str(name)) => Ok(
                TabView {
                    name,
                    playlist_ids: match t.member("playlistIds"@) {
                        Some(JsonView::Array(items)) => JsonView::Array(items).strings()->0,
                        _ => Seq::empty(),
                    },
                },
            ),
            _ => Err(StoreError::MissingTabName),
        },
    }
}

/// The playlists that a tab document brings: the readable items of its
/// `playlists`, and none where that is no array.
pub open spec fn tab_candidates(doc: JsonView) -> Seq<PlaylistView> {
    match doc.member("playlists"@) {
        Some(JsonView::Array(items)) => readable(items),
        _ => Seq::empty(),
    }
}

/// Reads the tab that a tab document describes.
pub fn read_tab(doc: &Json) -> (r: Result<PlaylistTab, StoreError>)
    ensures
        match r {
            Ok(t) => described_tab(doc@) == Ok::<TabView, StoreError>(t@),
            Err(e) => described_tab(doc@) == Err::<TabView, StoreError>(e),
        },
{
    let tab = match doc.get("tab") {
        Some(t) => t,
        None => return Err(StoreError::MissingTab),
    };
    let name = match tab.get("name") {
        Some(n) => match n.as_str() {
            Some(s) => s.clone(),
            None => return Err(StoreError::MissingTabName),
        },
        None => return Err(StoreError::MissingTabName),
    };
    let listed = match tab.get("playlistIds") {
        Some(j) => j.strings(),
        None => None,
    };
    let playlist_ids = match listed {
        Some(v) => v,
        None => {
            let none: Vec<String> = Vec::new();
            assert(views(none@) =~= Seq::<Seq<char>>::empty());
            none
        },
    };
    Ok(PlaylistTab { name, playlist_ids })
}

/// Reads the playlists that a tab document brings.
pub fn read_tab_candidates(doc: &Json) -> (r: Vec<Playlist>)
    ensures
        views(r@) == tab_candidates(doc@),
{
    if let Some(listed) = doc.get("playlists") {
        if let Some(items) = listed.as_array() {
            return decode_playlists(items);
        }
    }
    let none: Vec<Playlist> = Vec::new();
    none
}

/// A tab import: the store afterwards and the result.
///
/// A document without a tab, without a name for it or without a readable
/// playlist fails and leaves the store as it is. Otherwise the user's data
/// is loaded, each playlist of the document is written in by its id, the
/// tab is appended after the user's tabs, whatever their names, and the
/// whole is saved once.
pub open spec fn imported_tab(s: StoreView, user: Key, doc: JsonView) -> (
    StoreView,
    Result<TabImportSummary, StoreError>,
) {
    match described_tab(doc) {
        Err(e) => (s, Err(e)),
        Ok(tab) => {
            let candidates = tab_candidates(doc);
            if candidates.len() == 0 {
                (s, Err(StoreError::NoPlaylists))
            } else {
                let (s1, data) = loaded(s, user);
                let next = UserDataView {
                    playlists: upsert_all(data.playlists, candidates),
                    playlist_tabs: data.playlist_tabs.push(tab),
                    custom_colors: data.custom_colors,
                    color_order: data.color_order,
                    video_progress: data.video_progress,
                };
                let updated = updates(data.playlists, candidates);
                (
                    saved(s1, user, next),
                    Ok(
                        TabImportSummary {
                            added: (candidates.len() - updated) as usize,
                            updated: updated as usize,
                        },
                    ),
                )
            }
        },
    }
}

/// Writes each candidate into the playlists by its id, and counts the
/// candidates added and written over.
pub fn merge_upsert(existing: Vec<Playlist>, candidates: &Vec<Playlist>) -> (r: (
    Vec<Playlist>,
    TabImportSummary,
))
    requires
        distinct_ids(views(existing@)),
    ensures
        views(r.0@) == upsert_all(views(existing@), views(candidates@)),
        distinct_ids(views(r.0@)),
        r.1.updated == updates(views(existing@), views(candidates@)),
        r.1.added + r.1.updated == candidates.len(),
{
    let ghost start = views(existing@);
    let ghost cs = views(candidates@);
    let mut playlists = existing;
    let mut added: usize = 0;
    let mut updated: usize = 0;
    let mut i: usize = 0;
    while i < candidates.len()
        invariant
            i <= candidates.len(),
            cs == views(candidates@),
            views(playlists@) == upsert_all(start, cs.take(i as int)),
            distinct_ids(views(playlists@)),
            updated == updates(start, cs.take(i as int)),
            added + updated == i,
        decreases candidates.len() - i,
    {
        let ghost current = views(playlists@);
        proof {
            assert(cs.take(i + 1).drop_last() =~= cs.take(i as int));
            lemma_upsert_distinct(current, cs[i as int]);
        }
        match find_playlist(&playlists, candidates[i].id.as_str()) {
            Some(place) => {
                playlists.set(place, candidates[i].clone());
                updated += 1;
                assert(views(playlists@) =~= current.update(place as int, cs[i as int]));
            },
            None => {
                playlists.push(candidates[i].clone());
                added += 1;
            },
        }
        i += 1;
    }
    proof {
        assert(cs.take(candidates.len() as int) =~= cs);
    }
    (playlists, TabImportSummary { added, updated })
}

/// Imports a tab: writes the playlists of the document in by their ids and
/// appends the tab.
pub fn import_tab(store: &mut Store, user_id: &str, doc: &Json) -> (r: Result<
    TabImportSummary,
    StoreError,
>)
    requires
        old(store).wf(),
    ensures
        final(store).wf(),
        final(store)@ == imported_tab(old(store)@, user_id@, doc@).0,
        r == imported_tab(old(store)@, user_id@, doc@).1,
{
    let tab = match read_tab(doc) {
        Ok(t) => t,
        Err(e) => return Err(e),
    };
    let candidates = read_tab_candidates(doc);
    if candidates.len() == 0 {
        return Err(StoreError::NoPlaylists);
    }
    let data = get_user_data(store, user_id);
    let ghost before = data@;
    let UserData { playlists, playlist_tabs, custom_colors, color_order, video_progress } = data;
    let (merged, summary) = merge_upsert(playlists, &candidates);
    let mut tabs = playlist_tabs;
    tabs.push(tab);
    assert(views(tabs@) =~= before.playlist_tabs.push(tab@));
    let next = UserData {
        playlists: merged,
        playlist_tabs: tabs,
        custom_colors,
        color_order,
        video_progress,
    };
    proof {
        lemma_updates_bound(before.playlists, views(candidates@));
    }
    match save_user_data(store, user_id, next) {
        Ok(()) => Ok(summary),
        Err(e) => Err(e),
    }
}

/// A filter keeps every item where every item passes, and none where
/// none does.
pub proof fn lemma_filter_all_or_none<T>(s: Seq<T>, pred: spec_fn(T) -> bool)
    ensures
        (forall|i: int| 0 <= i < s.len() ==> pred(#[trigger] s[i])) ==> s.filter(pred) == s,
        (forall|i: int| 0 <= i < s.len() ==> !pred(#[trigger] s[i])) ==> s.filter(pred).len() == 0,
    decreases s.len(),
{
    reveal(Seq::filter);
    if s.len() > 0 {
        let front = s.drop_last();
        lemma_filter_all_or_none(front, pred);
        if forall|i: int| 0 <= i < s.len() ==> pred(#[trigger] s[i]) {
            assert forall|i: int| 0 <= i < front.len() implies pred(#[trigger] front[i]) by {
                assert(pred(s[i]));
            }
        }
        if forall|i: int| 0 <= i < s.len() ==> !pred(#[trigger] s[i]) {
            assert forall|i: int| 0 <= i < front.len() implies !pred(#[trigger] front[i]) by {
                assert(!pred(s[i]));
            }
        }
    }
}

/// An add-only import changes none of the playlists that were there: each
/// is in its place, as it was.
pub proof fn law_import_keeps_existing(existing: Seq<PlaylistView>, candidates: Seq<PlaylistView>)
    ensures
        add_only(existing, candidates).len() == existing.len() + fresh(existing, candidates).len(),
        add_only(existing, candidates).take(existing.len() as int) == existing,
        forall|i: int|
            0 <= i < existing.len() ==> #[trigger] add_only(existing, candidates)[i] == existing[i],
{
    assert(add_only(existing, candidates).take(existing.len() as int) =~= existing);
}

/// An add-only import passes over every candidate whose id is taken: where
/// all are, nothing is added.
pub proof fn law_import_skips_taken(existing: Seq<PlaylistView>, candidates: Seq<PlaylistView>)
    requires
        forall|i: int| 0 <= i < candidates.len() ==> has_id(existing, (#[trigger] candidates[i]).id),
    ensures
        fresh(existing, candidates).len() == 0,
        add_only(existing, candidates) == existing,
{
    lemma_filter_all_or_none(candidates, is_new(existing));
}

/// An add-only import of candidates whose ids were never seen adds each of
/// them, in their order, after the playlists that were there.
pub proof fn law_import_adds_new(existing: Seq<PlaylistView>, candidates: Seq<PlaylistView>)
    requires
        forall|i: int|
            0 <= i < candidates.len() ==> !has_id(existing, (#[trigger] candidates[i]).id),
    ensures
        fresh(existing, candidates) == candidates,
        add_only(existing, candidates) == existing + candidates,
{
    lemma_filter_all_or_none(candidates, is_new(existing));
}

/// An overwrite under an id that the user does not have fails, and the
/// user's data is what a load would have returned before.
pub proof fn law_overwrite_missing(s: StoreView, user: Key, id: Seq<char>, doc: JsonView)
    requires
        replacement(doc) is Ok,
        !has_id(loaded(s, user).1.playlists, id),
    ensures
        overwritten(s, user, id, doc).1 == Err::<Seq<char>, StoreError>(
            StoreError::PlaylistNotFound,
        ),
        overwritten(s, user, id, doc).0 == loaded(s, user).0,
        loaded(overwritten(s, user, id, doc).0, user).1 == loaded(s, user).1,
{
    law_load_twice(s, user);
}

/// An overwrite under an id that the user has puts the new content in the
/// place of the old, under the old id, and changes no other playlist.
pub proof fn law_overwrite_in_place(
    s: StoreView,
    user: Key,
    id: Seq<char>,
    doc: JsonView,
    i: int,
)
    requires
        replacement(doc) is Ok,
        first_with_id(loaded(s, user).1.playlists, id, i),
    ensures
        overwritten(s, user, id, doc).1 is Ok,
        loaded(overwritten(s, user, id, doc).0, user).1.playlists == loaded(
            s,
            user,
        ).1.playlists.update(i, with_id(replacement(doc)->Ok_0, id)),
{
    let before = loaded(s, user).1;
    let (s1, data) = loaded(s, user);
    let c = choose|c: int| first_with_id(before.playlists, id, c);
    if c < i {
        assert(before.playlists[c].id != id);
    }
    if i < c {
        assert(before.playlists[i].id != id);
    }
    let next = with_playlists(data, data.playlists.update(i, with_id(replacement(doc)->Ok_0, id)));
    law_save_then_load(s1, user, next);
}

/// The export of one playlist of a user: its document, or a failure where
/// the user has no record or no playlist with the id.
pub open spec fn exported_playlist(s: StoreView, user: Key, id: Seq<char>) -> Result<
    JsonView,
    StoreError,
> {
    if s.tenants.contains_key(user) {
        match position(bare(s.tenants[user].playlists), id) {
            Some(i) => Ok(encoded_playlist(bare(s.tenants[user].playlists)[i])),
            None => Err(StoreError::PlaylistNotFound),
        }
    } else {
        Err(StoreError::PlaylistNotFound)
    }
}

/// The place of the first playlist of a record with the id.
fn find_owned(playlists: &Vec<OwnedPlaylist>, id: &str) -> (r: Option<usize>)
    ensures
        match r {
            Some(i) => i < playlists.len() && position(bare(views(playlists@)), id@) == Some(
                i as int,
            ),
            None => position(bare(views(playlists@)), id@) is None,
        },
{
    let ghost ps = bare(views(playlists@));
    let mut i: usize = 0;
    while i < playlists.len()
        invariant
            i <= playlists.len(),
            ps == bare(views(playlists@)),
            forall|k: int| 0 <= k < i ==> (#[trigger] ps[k]).id != id@,
        decreases playlists.len() - i,
    {
        if same_text(playlists[i].playlist.id.as_str(), id) {
            proof {
                assert(first_with_id(ps, id@, i as int));
                let c = choose|c: int| first_with_id(ps, id@, c);
                if c < i {
                    assert(ps[c].id != id@);
                }
                if i < c {
                    assert(ps[i as int].id != id@);
                }
            }
            return Some(i);
        }
        i += 1;
    }
    None
}

/// The document of one playlist of a user. Nothing is stored: a user
/// without a record is not given one.
pub fn export_playlist_document(store: &Store, user_id: &str, playlist_id: &str) -> (r: Result<
    Json,
    StoreError,
>)
    requires
        store.wf(),
    ensures
        match r {
            Ok(doc) => exported_playlist(store@, user_id@, playlist_id@) == Ok::<
                JsonView,
                StoreError,
            >(doc@),
            Err(e) => exported_playlist(store@, user_id@, playlist_id@) == Err::<
                JsonView,
                StoreError,
            >(e),
        },
{
    match store.tenant(user_id) {
        Some(t) => match find_owned(&t.playlists, playlist_id) {
            Some(i) => Ok(encode_playlist(&t.playlists[i].playlist)),
            None => Err(StoreError::PlaylistNotFound),
        },
        None => Err(StoreError::PlaylistNotFound),
    }
}

/// The text of a result that is a document, where there is one.
pub open spec fn rendered(doc: Result<JsonView, StoreError>) -> Result<Seq<char>, StoreError> {
    match doc {
        Ok(d) => match rendered_document(d) {
            Some(text) => Ok(text),
            None => Err(StoreError::NotRendered),
        },
        Err(e) => Err(e),
    }
}

/// Writes out a result that is a document.
pub fn render(doc: Result<Json, StoreError>) -> (r: Result<String, StoreError>)
    ensures
        match r {
            Ok(text) => rendered(
                match doc {
                    Ok(d) => Ok(d@),
                    Err(e) => Err(e),
                },
            ) == Ok::<Seq<char>, StoreError>(text@),
            Err(e) => rendered(
                match doc {
                    Ok(d) => Ok(d@),
                    Err(e) => Err(e),
                },
            ) == Err::<Seq<char>, StoreError>(e),
        },
{
    match doc {
        Ok(d) => match render_document(&d) {
            Some(text) => Ok(text),
            None => Err(StoreError::NotRendered),
        },
        Err(e) => Err(e),
    }
}

/// Exports one playlist of a user as JSON text.
pub fn export_playlist(store: &Store, user_id: &str, playlist_id: &str) -> (r: Result<
    String,
    StoreError,
>)
    requires
        store.wf(),
    ensures
        match r {
            Ok(text) => rendered(exported_playlist(store@, user_id@, playlist_id@)) == Ok::<
                Seq<char>,
                StoreError,
            >(text@),
            Err(e) => rendered(exported_playlist(store@, user_id@, playlist_id@)) == Err::<
                Seq<char>,
                StoreError,
            >(e),
        },
{
    render(export_playlist_document(store, user_id, playlist_id))
}

/// Exports the tab at `tab_index` of a user, with the playlists that it
/// refers to, as JSON text. The user's data is loaded first, so that a new
/// user is given the template.
pub fn export_tab(store: &mut Store, user_id: &str, tab_index: usize) -> (r: Result<
    String,
    StoreError,
>)
    requires
        old(store).wf(),
    ensures
        final(store).wf(),
        final(store)@ == loaded(old(store)@, user_id@).0,
        match r {
            Ok(text) => rendered(exported_tab(loaded(old(store)@, user_id@).1, tab_index)) == Ok::<
                Seq<char>,
                StoreError,
            >(text@),
            Err(e) => rendered(exported_tab(loaded(old(store)@, user_id@).1, tab_index)) == Err::<
                Seq<char>,
                StoreError,
            >(e),
        },
{
    let data = get_user_data(store, user_id);
    render(export_tab_document(&data, tab_index))
}

/// An add-only import from text: the store afterwards and the result. A
/// text that is no JSON document fails and changes nothing.
pub open spec fn imported_text(s: StoreView, user: Key, doc: Option<JsonView>) -> (
    StoreView,
    Result<ImportSummary, StoreError>,
) {
    match doc {
        Some(d) => imported(s, user, d),
        None => (s, Err(StoreError::InvalidJson)),
    }
}

/// Imports the playlists of a file, given by its content, adding those
/// whose id the user does not have yet.
pub fn import_playlist_file(store: &mut Store, user_id: &str, file_content: &str) -> (r: Result<
    ImportSummary,
    StoreError,
>)
    requires
        old(store).wf(),
    ensures
        final(store).wf(),
        final(store)@ == imported_text(old(store)@, user_id@, parsed_document(file_content@)).0,
        r == imported_text(old(store)@, user_id@, parsed_document(file_content@)).1,
{
    match parse_document(file_content) {
        Some(doc) => import_playlists(store, user_id, &doc),
        None => Err(StoreError::InvalidJson),
    }
}

/// An overwrite from text: the store afterwards and the result. A text
/// that is no JSON document fails and changes nothing.
pub open spec fn overwritten_text(s: StoreView, user: Key, id: Seq<char>, doc: Option<JsonView>)
    -> (StoreView, Result<Seq<char>, StoreError>) {
    match doc {
        Some(d) => overwritten(s, user, id, d),
        None => (s, Err(StoreError::InvalidJson)),
    }
}

/// Replaces the user's playlist with the given id by the playlist of a
/// file, given by its content. The result is the name of the playlist that
/// was written.
pub fn overwrite_playlist_file(
    store: &mut Store,
    user_id: &str,
    playlist_id: &str,
    file_content: &str,
) -> (r: Result<String, StoreError>)
    requires
        old(store).wf(),
    ensures
        final(store).wf(),
        final(store)@ == overwritten_text(
            old(store)@,
            user_id@,
            playlist_id@,
            parsed_document(file_content@),
        ).0,
        match r {
            Ok(name) => overwritten_text(
                old(store)@,
                user_id@,
                playlist_id@,
                parsed_document(file_content@),
            ).1 == Ok::<Seq<char>, StoreError>(name@),
            Err(e) => overwritten_text(
                old(store)@,
                user_id@,
                playlist_id@,
                parsed_document(file_content@),
            ).1 == Err::<Seq<char>, StoreError>(e),
        },
{
    match parse_document(file_content) {
        Some(doc) => overwrite_playlist(store, user_id, playlist_id, &doc),
        None => Err(StoreError::InvalidJson),
    }
}

/// A tab import from text: the store afterwards and the result. A text
/// that is no JSON document fails and changes nothing.
pub open spec fn imported_tab_text(s: StoreView, user: Key, doc: Option<JsonView>) -> (
    StoreView,
    Result<TabImportSummary, StoreError>,
) {
    match doc {
        Some(d) => imported_tab(s, user, d),
        None => (s, Err(StoreError::InvalidJson)),
    }
}

/// Imports the tab of a file, given by its content, with its playlists.
pub fn import_tab_file(store: &mut Store, user_id: &str, file_content: &str) -> (r: Result<
    TabImportSummary,
    StoreError,
>)
    requires
        old(store).wf(),
    ensures
        final(store).wf(),
        final(store)@ == imported_tab_text(
            old(store)@,
            user_id@,
            parsed_document(file_content@),
        ).0,
        r == imported_tab_text(old(store)@, user_id@, parsed_document(file_content@)).1,
{
    match parse_document(file_content) {
        Some(doc) => import_tab(store, user_id, &doc),
        None => Err(StoreError::InvalidJson),
    }
}

/// What a load returns of a well-formed store has distinct playlist ids.
pub proof fn lemma_loaded_distinct(s: StoreView, user: Key)
    requires
        s.wf(),
    ensures
        distinct_ids(loaded(s, user).1.playlists),
{
    let data = UserDataView {
        playlists: Seq::empty(),
        playlist_tabs: Seq::empty(),
        custom_colors: JsonView::Null,
        color_order: Seq::empty(),
        video_progress: JsonView::Null,
    };
    law_store_stays_well_formed(s, user, data);
    let after = loaded(s, user).0;
    if after.tenants.contains_key(user) {
        if s.tenants.contains_key(user) {
            assert(loaded(s, user).1 == snapshot_of(after.tenants[user]));
        } else {
            assert(s.tenants.contains_key(template_id()));
        }
    }
}

/// An import of playlists whose ids the user has is reported as that many
/// skipped and none added, and leaves the user's data as a load would have
/// returned it before.
pub proof fn law_import_of_taken_ids(s: StoreView, user: Key, doc: JsonView)
    requires
        s.wf(),
        import_candidates(doc) is Ok,
        import_candidates(doc)->Ok_0.len() > 0,
        forall|i: int|
            0 <= i < import_candidates(doc)->Ok_0.len() ==> has_id(
                loaded(s, user).1.playlists,
                (#[trigger] import_candidates(doc)->Ok_0[i]).id,
            ),
    ensures
        imported(s, user, doc).1 == Ok::<ImportSummary, StoreError>(
            ImportSummary { added: 0, skipped: import_candidates(doc)->Ok_0.len() as usize },
        ),
        loaded(imported(s, user, doc).0, user).1 == loaded(s, user).1,
{
    let candidates = import_candidates(doc)->Ok_0;
    let (s1, data) = loaded(s, user);
    lemma_loaded_distinct(s, user);
    law_import_skips_taken(data.playlists, candidates);
    law_save_then_load(s1, user, data);
}

/// An import of playlists whose ids were never seen, and differ from each
/// other, is reported as that many added and none skipped, and puts them
/// after the user's playlists in the order given.
pub proof fn law_import_of_new_ids(s: StoreView, user: Key, doc: JsonView)
    requires
        s.wf(),
        import_candidates(doc) is Ok,
        import_candidates(doc)->Ok_0.len() > 0,
        distinct_ids(import_candidates(doc)->Ok_0),
        forall|i: int|
            0 <= i < import_candidates(doc)->Ok_0.len() ==> !has_id(
                loaded(s, user).1.playlists,
                (#[trigger] import_candidates(doc)->Ok_0[i]).id,
            ),
    ensures
        imported(s, user, doc).1 == Ok::<ImportSummary, StoreError>(
            ImportSummary { added: import_candidates(doc)->Ok_0.len() as usize, skipped: 0 },
        ),
        loaded(imported(s, user, doc).0, user).1.playlists == loaded(s, user).1.playlists
            + import_candidates(doc)->Ok_0,
{
    let candidates = import_candidates(doc)->Ok_0;
    let (s1, data) = loaded(s, user);
    let combined = data.playlists + candidates;
    lemma_loaded_distinct(s, user);
    law_import_adds_new(data.playlists, candidates);
    assert(distinct_ids(combined)) by {
        assert forall|a: int, b: int| 0 <= a < b < combined.len() implies (#[trigger] combined[a]).id
            != (#[trigger] combined[b]).id by {
            let n = data.playlists.len();
            if b < n {
                assert(data.playlists[a].id != data.playlists[b].id);
            } else if a >= n {
                assert(candidates[a - n].id != candidates[b - n].id);
            } else {
                assert(!has_id(data.playlists, candidates[b - n].id));
            }
        }
    }
    law_save_then_load(s1, user, with_playlists(data, combined));
}

/// A tab import appends its tab after the tabs that the user has, even
/// where one of them has the same name, and changes none of them.
pub proof fn law_tab_import_appends(s: StoreView, user: Key, doc: JsonView)
    requires
        described_tab(doc) is Ok,
        tab_candidates(doc).len() > 0,
    ensures
        imported_tab(s, user, doc).1 is Ok,
        loaded(imported_tab(s, user, doc).0, user).1.playlist_tabs == loaded(
            s,
            user,
        ).1.playlist_tabs.push(described_tab(doc)->Ok_0),
        loaded(imported_tab(s, user, doc).0, user).1.playlists == upsert_all(
            loaded(s, user).1.playlists,
            tab_candidates(doc),
        ),
{
    let (s1, data) = loaded(s, user);
    let next = UserDataView {
        playlists: upsert_all(data.playlists, tab_candidates(doc)),
        playlist_tabs: data.playlist_tabs.push(described_tab(doc)->Ok_0),
        custom_colors: data.custom_colors,
        color_order: data.color_order,
        video_progress: data.video_progress,
    };
    law_save_then_load(s1, user, next);
}

} // verus!
