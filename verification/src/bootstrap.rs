//! The template: a seed document that is stored once under the reserved
//! user id, and from which every new user's data is copied.
//!
//! A seed document is read leniently. Whatever a playlist in it leaves
//! out or gives in another kind is filled in; only an item that is no
//! object is passed over.

use crate::account::empty_object;
use crate::codec::{parse_document, parsed_document};
use crate::error::StoreError;
use crate::format::{decode_tabs, decoded_tabs, required_text};
use crate::json::{Json, JsonView};
use crate::model::{Playlist, PlaylistTab, PlaylistView, TabView};
use crate::store::{
    bare, distinct_ids, owned_ids_distinct, seeded, template_id, tenant_wf, OwnedPlaylist,
    OwnedPlaylistView, Store, StoreView, Tenant, TenantView,
};
use crate::text::{opt_view, views};
use vstd::prelude::*;

verus! {

/// The text under `key`, or none where the member is no string or is not
/// there.
pub open spec fn text_or_empty(item: JsonView, key: Seq<char>) -> Seq<char> {
    match item.member(key) {
        Some(JsonView::Str(s)) => s,
        _ => Seq::empty(),
    }
}

/// The texts under `key`, or none where the member is no array of strings
/// or is not there.
pub open spec fn texts_or_none(item: JsonView, key: Seq<char>) -> Seq<Seq<char>> {
    match item.member(key) {
        Some(j) => match j.all_strings() {
            Some(v) => v,
            None => Seq::empty(),
        },
        None => Seq::empty(),
    }
}

/// The member under `key`, or `{}` where there is none.
pub open spec fn member_or_object(item: JsonView, key: Seq<char>) -> JsonView {
    match item.member(key) {
        Some(j) => j,
        None => empty_object(),
    }
}

/// The flag under `key`, or false where the member is no boolean or is
/// not there.
pub open spec fn flag_or_false(item: JsonView, key: Seq<char>) -> bool {
    match item.member(key) {
        Some(JsonView::Bool(b)) => b,
        _ => false,
    }
}

/// The playlist that an item of a seed document stands for. Only an item
/// that is no object stands for none.
pub open spec fn seed_playlist(item: JsonView) -> Option<PlaylistView> {
    if item is Object {
        Some(
            PlaylistView {
                id: text_or_empty(item, "id"@),
                name: text_or_empty(item, "name"@),
                videos: texts_or_none(item, "videos"@),
                groups: member_or_object(item, "groups"@),
                starred: texts_or_none(item, "starred"@),
                category: required_text(item, "category"@),
                description: required_text(item, "description"@),
                thumbnail: required_text(item, "thumbnail"@),
                is_converted_from_colored_folder: flag_or_false(
                    item,
                    "isConvertedFromColoredFolder"@,
                ),
                representative_video_id: required_text(item, "representativeVideoId"@),
            },
        )
    } else {
        None
    }
}

/// The playlists of a seed document: those that the items of its
/// `playlists` stand for, in order.
pub open spec fn seed_playlists(doc: JsonView) -> Seq<PlaylistView> {
    match doc.member("playlists"@) {
        Some(JsonView::Array(items)) => items.filter(|j: JsonView| j is Object).map_values(
            |j: JsonView| seed_playlist(j)->0,
        ),
        _ => Seq::empty(),
    }
}

/// The tabs of a seed document: those of its `playlistTabs` where that is
/// an array of tabs, and none otherwise.
pub open spec fn seed_tabs(doc: JsonView) -> Seq<TabView> {
    match doc.member("playlistTabs"@) {
        Some(j) => match decoded_tabs(j) {
            Some(tabs) => tabs,
            None => Seq::empty(),
        },
        None => Seq::empty(),
    }
}

/// The colour order of a seed document: the strings of its `colorOrder`.
pub open spec fn seed_color_order(doc: JsonView) -> Seq<Seq<char>> {
    match doc.member("colorOrder"@) {
        Some(JsonView::Array(items)) => JsonView::Array(items).strings()->0,
        _ => Seq::empty(),
    }
}

/// The template's record as a seed document gives it, without playlists.
pub open spec fn seed_record(doc: JsonView) -> TenantView {
    TenantView {
        custom_colors: member_or_object(doc, "customColors"@),
        color_order: seed_color_order(doc),
        playlist_tabs: seed_tabs(doc),
        video_progress: member_or_object(doc, "videoProgress"@),
        playlists: Seq::empty(),
    }
}

/// A record with more playlists after those it has.
pub open spec fn with_more(t: TenantView, more: Seq<OwnedPlaylistView>) -> TenantView {
    TenantView {
        custom_colors: t.custom_colors,
        color_order: t.color_order,
        playlist_tabs: t.playlist_tabs,
        video_progress: t.video_progress,
        playlists: t.playlists + more,
    }
}

/// How a bootstrap ended.
#[derive(Clone, Copy, Debug, PartialEq, Eq, Structural)]
pub enum SeedOutcome {
    /// The store already held default playlists; nothing was done.
    AlreadyLoaded,
    /// No seed document was found; nothing was done, and the store works
    /// without a template.
    SeedMissing,
    /// The template was stored with this many default playlists.
    Loaded(usize),
}

/// The template's record after a bootstrap from `doc`: the record that is
/// there, or one made of the document's scalar fields, with the
/// document's playlists after it as defaults.
pub open spec fn seeded_record(s: StoreView, doc: JsonView) -> TenantView {
    with_more(
        if s.tenants.contains_key(template_id()) {
            s.tenants[template_id()]
        } else {
            seed_record(doc)
        },
        seed_playlists(doc).map_values(|p: PlaylistView| seeded(p)),
    )
}

/// A bootstrap: the store afterwards and the result.
///
/// Where a playlist is flagged as a default, or no seed document was
/// found, nothing is done. Otherwise the template's record is made from the
/// document's scalar fields unless there is one, and the document's
/// playlists are stored under it as defaults that cannot be deleted. All
/// of it happens or none: where two of the template's playlists would
/// share an id the bootstrap fails and the store is unchanged.
pub open spec fn bootstrapped(s: StoreView, seed: Option<JsonView>) -> (
    StoreView,
    Result<SeedOutcome, StoreError>,
) {
    if s.default_count() > 0 {
        (s, Ok(SeedOutcome::AlreadyLoaded))
    } else {
        match seed {
            None => (s, Ok(SeedOutcome::SeedMissing)),
            Some(doc) => if distinct_ids(bare(seeded_record(s, doc).playlists)) {
                (
                    StoreView {
                        tenants: s.tenants.insert(template_id(), seeded_record(s, doc)),
                        metadata: s.metadata,
                    },
                    Ok(SeedOutcome::Loaded(seed_playlists(doc).len() as usize)),
                )
            } else {
                (s, Err(StoreError::DuplicatePlaylist))
            },
        }
    }
}

/// Reads the text under `key`, or takes none.
fn read_text_or_empty(item: &Json, key: &str) -> (r: String)
    ensures
        r@ == text_or_empty(item@, key@),
{
    match item.get(key) {
        Some(j) => match j.as_str() {
            Some(s) => s.clone(),
            None => String::new(),
        },
        None => String::new(),
    }
}

/// Reads the text under `key`, if there is one.
fn read_text(item: &Json, key: &str) -> (r: Option<String>)
    ensures
        opt_view(r) == required_text(item@, key@),
{
    match item.get(key) {
        Some(j) => match j.as_str() {
            Some(s) => Some(s.clone()),
            None => None,
        },
        None => None,
    }
}

/// Reads the texts under `key`, or takes none.
fn read_texts_or_none(item: &Json, key: &str) -> (r: Vec<String>)
    ensures
        views(r@) == texts_or_none(item@, key@),
{
    let listed = match item.get(key) {
        Some(j) => j.all_strings(),
        None => None,
    };
    match listed {
        Some(v) => v,
        None => {
            let none: Vec<String> = Vec::new();
            none
        },
    }
}

/// Reads the member under `key`, or takes `{}`.
fn read_member_or_object(item: &Json, key: &str) -> (r: Json)
    ensures
        r@ == member_or_object(item@, key@),
{
    match item.get(key) {
        Some(j) => j.duplicate(),
        None => Json::empty_object(),
    }
}

/// Reads the flag under `key`, or takes false.
fn read_flag_or_false(item: &Json, key: &str) -> (r: bool)
    ensures
        r == flag_or_false(item@, key@),
{
    match item.get(key) {
        Some(j) => match j.as_bool() {
            Some(b) => b,
            None => false,
        },
        None => false,
    }
}

/// Reads a playlist from an item of a seed document.
pub fn read_seed_playlist(item: &Json) -> (r: Option<Playlist>)
    ensures
        match r {
            Some(p) => seed_playlist(item@) == Some(p@),
            None => seed_playlist(item@) is None,
        },
{
    if !item.is_object() {
        return None;
    }
    Some(
        Playlist {
            id: read_text_or_empty(item, "id"),
            name: read_text_or_empty(item, "name"),
            videos: read_texts_or_none(item, "videos"),
            groups: read_member_or_object(item, "groups"),
            starred: read_texts_or_none(item, "starred"),
            category: read_text(item, "category"),
            description: read_text(item, "description"),
            thumbnail: read_text(item, "thumbnail"),
            is_converted_from_colored_folder: read_flag_or_false(
                item,
                "isConvertedFromColoredFolder",
            ),
            representative_video_id: read_text(item, "representativeVideoId"),
        },
    )
}

/// Reads the playlists of a seed document, each as a default.
pub fn read_seed_playlists(doc: &Json) -> (r: Vec<OwnedPlaylist>)
    ensures
        views(r@) == seed_playlists(doc@).map_values(|p: PlaylistView| seeded(p)),
{
    let mut out: Vec<OwnedPlaylist> = Vec::new();
    let items = match doc.get("playlists") {
        Some(j) => match j.as_array() {
            Some(items) => items,
            None => {
                assert(seed_playlists(doc@).map_values(|p: PlaylistView| seeded(p))
                    =~= Seq::<OwnedPlaylistView>::empty());
                return out;
            },
        },
        None => {
            assert(seed_playlists(doc@).map_values(|p: PlaylistView| seeded(p))
                =~= Seq::<OwnedPlaylistView>::empty());
            return out;
        },
    };
    let ghost all = views(items@);
    let ghost ok = |j: JsonView| j is Object;
    let ghost get = |j: JsonView| seed_playlist(j)->0;
    let ghost flag = |p: PlaylistView| seeded(p);
    let mut i: usize = 0;
    assert(views(out@) =~= all.take(0).filter(ok).map_values(get).map_values(flag)) by {
        reveal(Seq::filter);
    }
    while i < items.len()
        invariant
            i <= items.len(),
            all == views(items@),
            ok == |j: JsonView| j is Object,
            get == |j: JsonView| seed_playlist(j)->0,
            flag == |p: PlaylistView| seeded(p),
            views(out@) == all.take(i as int).filter(ok).map_values(get).map_values(flag),
        decreases items.len() - i,
    {
        let ghost before = all.take(i as int);
        let ghost kept = views(out@);
        proof {
            assert(all.take(i + 1) =~= before.push(all[i as int]));
            crate::json::lemma_filter_push(before, all[i as int], ok);
        }
        match read_seed_playlist(&items[i]) {
            Some(p) => {
                out.push(OwnedPlaylist { playlist: p, is_default: true, can_delete: false });
                assert(before.filter(ok).push(all[i as int]).map_values(get).map_values(flag)
                    =~= kept.push(flag(get(all[i as int]))));
            },
            None => {},
        }
        i += 1;
    }
    proof {
        assert(all.take(items.len() as int) =~= all);
    }
    out
}

/// Reads the tabs of a seed document.
pub fn read_seed_tabs(doc: &Json) -> (r: Vec<PlaylistTab>)
    ensures
        views(r@) == seed_tabs(doc@),
{
    let read = match doc.get("playlistTabs") {
        Some(j) => decode_tabs(j),
        None => None,
    };
    match read {
        Some(tabs) => tabs,
        None => {
            let none: Vec<PlaylistTab> = Vec::new();
            none
        },
    }
}

/// Reads the colour order of a seed document.
pub fn read_seed_color_order(doc: &Json) -> (r: Vec<String>)
    ensures
        views(r@) == seed_color_order(doc@),
{
    let listed = match doc.get("colorOrder") {
        Some(j) => j.strings(),
        None => None,
    };
    match listed {
        Some(v) => v,
        None => {
            let none: Vec<String> = Vec::new();
            none
        },
    }
}

/// How many playlists are flagged as defaults.
pub fn default_count(store: &Store) -> (n: usize)
    requires
        store.wf(),
    ensures
        n == store@.default_count(),
{
    match store.tenant("default") {
        Some(t) => {
            let ghost all = views(t.playlists@);
            let ghost test = |o: OwnedPlaylistView| o.is_default;
            let mut n: usize = 0;
            let mut i: usize = 0;
            assert(all.take(0).filter(test).len() == 0) by {
                reveal(Seq::filter);
            }
            while i < t.playlists.len()
                invariant
                    i <= t.playlists.len(),
                    all == views(t.playlists@),
                    test == |o: OwnedPlaylistView| o.is_default,
                    n == all.take(i as int).filter(test).len(),
                    n <= i,
                decreases t.playlists.len() - i,
            {
                proof {
                    assert(all.take(i + 1) =~= all.take(i as int).push(all[i as int]));
                    crate::json::lemma_filter_push(all.take(i as int), all[i as int], test);
                }
                if t.playlists[i].is_default {
                    n += 1;
                }
                i += 1;
            }
            proof {
                assert(all.take(t.playlists.len() as int) =~= all);
            }
            n
        },
        None => 0,
    }
}

/// Where no playlist of a record is flagged, none is a default.
proof fn lemma_none_flagged(playlists: Seq<OwnedPlaylistView>)
    requires
        playlists.filter(|o: OwnedPlaylistView| o.is_default).len() == 0,
    ensures
        forall|i: int| 0 <= i < playlists.len() ==> !(#[trigger] playlists[i]).is_default,
    decreases playlists.len(),
{
    let test = |o: OwnedPlaylistView| o.is_default;
    if playlists.len() > 0 {
        let front = playlists.drop_last();
        assert(front.push(playlists.last()) =~= playlists);
        crate::json::lemma_filter_push(front, playlists.last(), test);
        lemma_none_flagged(front);
        assert forall|i: int| 0 <= i < playlists.len() implies !(#[trigger] playlists[i]).is_default by {
            if i < front.len() {
                assert(!front[i].is_default);
            }
        }
    }
}

/// Stores the template from a seed document, unless default playlists
/// are there already.
///
/// `seed` is the seed document that was found, if one was. Without one
/// nothing is stored and the store goes on without a template.
pub fn initialize_default_channels(store: &mut Store, seed: Option<&Json>) -> (r: Result<
    SeedOutcome,
    StoreError,
>)
    requires
        old(store).wf(),
    ensures
        final(store).wf(),
        final(store)@ == bootstrapped(
            old(store)@,
            match seed {
                Some(doc) => Some(doc@),
                None => None,
            },
        ).0,
        r == bootstrapped(
            old(store)@,
            match seed {
                Some(doc) => Some(doc@),
                None => None,
            },
        ).1,
{
    if default_count(store) > 0 {
        return Ok(SeedOutcome::AlreadyLoaded);
    }
    let doc = match seed {
        Some(doc) => doc,
        None => return Ok(SeedOutcome::SeedMissing),
    };
    let mut record = match store.tenant("default") {
        Some(t) => {
            proof {
                lemma_none_flagged(t@.playlists);
            }
            t.clone()
        },
        None => {
            let t = Tenant {
                user_id: "default".to_owned(),
                custom_colors: read_member_or_object(doc, "customColors"),
                color_order: read_seed_color_order(doc),
                playlist_tabs: read_seed_tabs(doc),
                video_progress: read_member_or_object(doc, "videoProgress"),
                playlists: Vec::new(),
            };
            t
        },
    };
    let ghost base = record@;
    let mut fresh = read_seed_playlists(doc);
    let count = fresh.len();
    let ghost more = views(fresh@);
    record.playlists.append(&mut fresh);
    proof {
        assert(views(record.playlists@) =~= base.playlists + more);
    }
    if !owned_ids_distinct(&record.playlists) {
        return Err(StoreError::DuplicatePlaylist);
    }
    proof {
        assert(tenant_wf(template_id(), record@)) by {
            assert forall|i: int| 0 <= i < record@.playlists.len() implies {
                &&& (#[trigger] record@.playlists[i]).is_default ==> template_id() == template_id()
                &&& record@.playlists[i].can_delete == !record@.playlists[i].is_default
            } by {
                if i < base.playlists.len() {
                    assert(record@.playlists[i] == base.playlists[i]);
                } else {
                    assert(record@.playlists[i] == more[i - base.playlists.len()]);
                }
            }
        }
    }
    store.put_tenant(record);
    Ok(SeedOutcome::Loaded(count))
}

/// What a store holds of the template.
#[derive(Clone, Copy, Debug, PartialEq, Eq, Structural)]
pub struct DefaultsStatus {
    /// How many playlists are flagged as defaults.
    pub default_playlists: usize,
    /// Whether the template has a record.
    pub template_exists: bool,
}

/// Reports what the store holds of the template.
pub fn check_default_channels(store: &Store) -> (r: DefaultsStatus)
    requires
        store.wf(),
    ensures
        r.default_playlists == store@.default_count(),
        r.template_exists == store@.tenants.contains_key(template_id()),
{
    DefaultsStatus {
        default_playlists: default_count(store),
        template_exists: store.tenant("default").is_some(),
    }
}

/// A store without the template's record.
pub open spec fn without_template(s: StoreView) -> StoreView {
    StoreView { tenants: s.tenants.remove(template_id()), metadata: s.metadata }
}

/// A forced bootstrap: the store afterwards and the result.
///
/// The template's record is dropped with all its playlists, and the
/// bootstrap runs on what is left. The result is the number of default
/// playlists that the store then holds, and a failure where it holds none.
pub open spec fn force_bootstrapped(s: StoreView, seed: Option<JsonView>) -> (
    StoreView,
    Result<usize, StoreError>,
) {
    let after = bootstrapped(without_template(s), seed);
    match after.1 {
        Err(e) => (after.0, Err(e)),
        Ok(_) => if after.0.default_count() == 0 {
            (after.0, Err(StoreError::SeedMissing))
        } else {
            (after.0, Ok(after.0.default_count() as usize))
        },
    }
}

/// Drops the template and stores it anew from a seed document.
pub fn force_initialize_default_channels(store: &mut Store, seed: Option<&Json>) -> (r: Result<
    usize,
    StoreError,
>)
    requires
        old(store).wf(),
    ensures
        final(store).wf(),
        final(store)@ == force_bootstrapped(
            old(store)@,
            match seed {
                Some(doc) => Some(doc@),
                None => None,
            },
        ).0,
        r == force_bootstrapped(
            old(store)@,
            match seed {
                Some(doc) => Some(doc@),
                None => None,
            },
        ).1,
{
    store.remove_tenant("default");
    match initialize_default_channels(store, seed) {
        Err(e) => Err(e),
        Ok(_) => {
            let count = default_count(store);
            if count == 0 {
                Err(StoreError::SeedMissing)
            } else {
                Ok(count)
            }
        },
    }
}

/// A bootstrap does its work once: on a store that holds a default
/// playlist a second bootstrap changes nothing, whatever document it is
/// given.
pub proof fn law_bootstrap_once(s: StoreView, seed: Option<JsonView>)
    requires
        s.default_count() > 0,
    ensures
        bootstrapped(s, seed) == (s, Ok::<SeedOutcome, StoreError>(SeedOutcome::AlreadyLoaded)),
{
}

/// Without a seed document a bootstrap changes nothing and does not fail.
pub proof fn law_bootstrap_without_seed(s: StoreView)
    ensures
        bootstrapped(s, None).0 == s,
        bootstrapped(s, None).1 is Ok,
{
}

/// Where a seed document is looked for, in the order of the search.
#[derive(Clone, Copy, Debug, PartialEq, Eq, Structural)]
pub enum SeedLocation {
    /// The working directory.
    WorkingDirectory,
    /// The resource directory that was configured.
    ResourceDirectory,
    /// The directory of the running executable.
    ExecutableDirectory,
    /// The `resources` directory under that of the executable.
    ExecutableResources,
    /// The `_up_` directory that an installer puts under that of the
    /// executable.
    InstallerResources,
}

/// The places where a seed document is looked for, in order.
pub fn search_order() -> (r: Vec<SeedLocation>)
    ensures
        r@ == seq![
            SeedLocation::WorkingDirectory,
            SeedLocation::ResourceDirectory,
            SeedLocation::ExecutableDirectory,
            SeedLocation::ExecutableResources,
            SeedLocation::InstallerResources,
        ],
{
    let mut r: Vec<SeedLocation> = Vec::new();
    r.push(SeedLocation::WorkingDirectory);
    r.push(SeedLocation::ResourceDirectory);
    r.push(SeedLocation::ExecutableDirectory);
    r.push(SeedLocation::ExecutableResources);
    r.push(SeedLocation::InstallerResources);
    assert(r@ =~= seq![
        SeedLocation::WorkingDirectory,
        SeedLocation::ResourceDirectory,
        SeedLocation::ExecutableDirectory,
        SeedLocation::ExecutableResources,
        SeedLocation::InstallerResources,
    ]);
    r
}

/// The document of a candidate: what was read there, where something was
/// read and it is a JSON document.
pub open spec fn candidate_document(candidate: Option<String>) -> Option<JsonView> {
    match candidate {
        Some(text) => parsed_document(text@),
        None => None,
    }
}

/// The place `i` holds the first candidate that has a document.
pub open spec fn first_match(candidates: Seq<Option<String>>, i: int) -> bool {
    &&& 0 <= i < candidates.len()
    &&& candidate_document(candidates[i]) is Some
    &&& forall|k: int| 0 <= k < i ==> candidate_document(#[trigger] candidates[k]) is None
}

/// Picks the seed document among what was read at the places of the
/// search, in their order: the first that is there and is a JSON document
/// wins. The result is its place and the document.
pub fn first_seed(candidates: &Vec<Option<String>>) -> (r: Option<(usize, Json)>)
    ensures
        match r {
            Some((i, doc)) => first_match(candidates@, i as int) && candidate_document(
                candidates[i as int],
            ) == Some(doc@),
            None => forall|k: int|
                0 <= k < candidates.len() ==> candidate_document(#[trigger] candidates[k]) is None,
        },
{
    let mut i: usize = 0;
    while i < candidates.len()
        invariant
            i <= candidates.len(),
            forall|k: int| 0 <= k < i ==> candidate_document(#[trigger] candidates[k]) is None,
        decreases candidates.len() - i,
    {
        if let Some(text) = &candidates[i] {
            if let Some(doc) = parse_document(text.as_str()) {
                return Some((i, doc));
            }
        }
        i += 1;
    }
    None
}

} // verus!
