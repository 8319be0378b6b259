//! Loading and saving the data of one user.
//!
//! A load gives a user without a record a copy of the template's. A save
//! replaces the whole of a user's record, scalar fields and playlists
//! together.

use crate::error::{verify_saved, StoreError};
use crate::json::{Json, JsonView};
use crate::model::{copy_tabs, Playlist, PlaylistView, UserData, UserDataView};
use crate::store::{
    bare, distinct_ids, owned, template_id, tenant_wf, OwnedPlaylist, OwnedPlaylistView, Store,
    StoreView, Tenant, TenantView,
};
use crate::table::Key;
use crate::text::{copy_texts, same_text, views};
use vstd::prelude::*;

verus! {

/// The snapshot that a record stands for.
pub open spec fn snapshot_of(t: TenantView) -> UserDataView {
    UserDataView {
        playlists: bare(t.playlists),
        playlist_tabs: t.playlist_tabs,
        custom_colors: t.custom_colors,
        color_order: t.color_order,
        video_progress: t.video_progress,
    }
}

/// The record that a snapshot is saved as.
pub open spec fn record_of(data: UserDataView) -> TenantView {
    TenantView {
        custom_colors: data.custom_colors,
        color_order: data.color_order,
        playlist_tabs: data.playlist_tabs,
        video_progress: data.video_progress,
        playlists: data.playlists.map_values(|p: PlaylistView| owned(p)),
    }
}

/// The record of a user who is given a copy of the template: the template's
/// scalar fields as they are, and each of its playlists, under its id and
/// in its place, as the user's own.
pub open spec fn provisioned(template: TenantView) -> TenantView {
    TenantView {
        custom_colors: template.custom_colors,
        color_order: template.color_order,
        playlist_tabs: template.playlist_tabs,
        video_progress: template.video_progress,
        playlists: template.playlists.map_values(|o: OwnedPlaylistView| owned(o.playlist)),
    }
}

/// The empty document `{}`.
pub open spec fn empty_object() -> JsonView {
    JsonView::Object(Seq::empty())
}

/// The snapshot of a user of whom nothing is stored.
pub open spec fn empty_snapshot() -> UserDataView {
    UserDataView {
        playlists: Seq::empty(),
        playlist_tabs: Seq::empty(),
        custom_colors: empty_object(),
        color_order: Seq::empty(),
        video_progress: empty_object(),
    }
}

/// Loading a user's data: the store afterwards and the snapshot returned.
///
/// A user with a record gets that record. A user without one gets a copy of
/// the template's record, which is stored; where there is no template
/// either, the empty snapshot, and nothing is stored.
pub open spec fn loaded(s: StoreView, user: Key) -> (StoreView, UserDataView) {
    if s.tenants.contains_key(user) {
        (s, snapshot_of(s.tenants[user]))
    } else if s.tenants.contains_key(template_id()) {
        let t = provisioned(s.tenants[template_id()]);
        (StoreView { tenants: s.tenants.insert(user, t), metadata: s.metadata }, snapshot_of(t))
    } else {
        (s, empty_snapshot())
    }
}

/// Saving a snapshot: the user's record is replaced as a whole.
pub open spec fn saved(s: StoreView, user: Key, data: UserDataView) -> StoreView {
    StoreView { tenants: s.tenants.insert(user, record_of(data)), metadata: s.metadata }
}

/// The snapshot that a record stands for.
fn snapshot(t: &Tenant) -> (d: UserData)
    ensures
        d@ == snapshot_of(t@),
{
    let mut playlists: Vec<Playlist> = Vec::new();
    let mut i: usize = 0;
    while i < t.playlists.len()
        invariant
            i <= t.playlists.len(),
            playlists.len() == i,
            forall|k: int| 0 <= k < i ==> playlists[k]@ == t.playlists[k]@.playlist,
        decreases t.playlists.len() - i,
    {
        playlists.push(t.playlists[i].playlist.clone());
        i += 1;
    }
    assert(views(playlists@) =~= bare(t@.playlists));
    UserData {
        playlists,
        playlist_tabs: copy_tabs(&t.playlist_tabs),
        custom_colors: t.custom_colors.duplicate(),
        color_order: copy_texts(&t.color_order),
        video_progress: t.video_progress.duplicate(),
    }
}

/// The playlists of a snapshot as a user's own.
fn own_all(playlists: &Vec<Playlist>) -> (r: Vec<OwnedPlaylist>)
    ensures
        views(r@) == views(playlists@).map_values(|p: PlaylistView| owned(p)),
{
    let mut out: Vec<OwnedPlaylist> = Vec::new();
    let mut i: usize = 0;
    while i < playlists.len()
        invariant
            i <= playlists.len(),
            out.len() == i,
            forall|k: int| 0 <= k < i ==> out[k]@ == owned(playlists[k]@),
        decreases playlists.len() - i,
    {
        out.push(
            OwnedPlaylist { playlist: playlists[i].clone(), is_default: false, can_delete: true },
        );
        i += 1;
    }
    out
}

/// A record for `user_id` that is a copy of the template's.
fn provision(template: &Tenant, user_id: &str) -> (t: Tenant)
    ensures
        t.user_id@ == user_id@,
        t@ == provisioned(template@),
{
    let mut playlists: Vec<OwnedPlaylist> = Vec::new();
    let mut i: usize = 0;
    while i < template.playlists.len()
        invariant
            i <= template.playlists.len(),
            playlists.len() == i,
            forall|k: int| 0 <= k < i ==> playlists[k]@ == owned(template.playlists[k]@.playlist),
        decreases template.playlists.len() - i,
    {
        playlists.push(
            OwnedPlaylist {
                playlist: template.playlists[i].playlist.clone(),
                is_default: false,
                can_delete: true,
            },
        );
        i += 1;
    }
    assert(views(playlists@) =~= provisioned(template@).playlists);
    Tenant {
        user_id: user_id.to_owned(),
        custom_colors: template.custom_colors.duplicate(),
        color_order: copy_texts(&template.color_order),
        playlist_tabs: copy_tabs(&template.playlist_tabs),
        video_progress: template.video_progress.duplicate(),
        playlists,
    }
}

/// A record made of a copy of a user's record is well formed.
proof fn lemma_provisioned_wf(key: Key, template: TenantView)
    requires
        distinct_ids(bare(template.playlists)),
    ensures
        tenant_wf(key, provisioned(template)),
{
    let t = provisioned(template);
    assert(bare(t.playlists) =~= bare(template.playlists));
}

/// The snapshot of a user of whom nothing is stored.
fn empty_user_data() -> (d: UserData)
    ensures
        d@ == empty_snapshot(),
{
    let d = UserData {
        playlists: Vec::new(),
        playlist_tabs: Vec::new(),
        custom_colors: Json::Object(Vec::new()),
        color_order: Vec::new(),
        video_progress: Json::Object(Vec::new()),
    };
    assert(d@.playlists =~= Seq::empty());
    assert(d@.playlist_tabs =~= Seq::empty());
    assert(d@.color_order =~= Seq::empty());
    assert(d.custom_colors@->Object_0 =~= Seq::empty());
    d
}

/// Loads a user's data, giving the user a copy of the template on first
/// access.
///
/// A user with a record gets the snapshot of that record, its playlists
/// in insertion order. A user without one gets a copy of the template's
/// record, which is stored under the user's id: the scalar fields as they
/// are, the playlists under their ids as the user's own. Where there is no
/// template either, the result is the empty snapshot and nothing is stored.
pub fn get_user_data(store: &mut Store, user_id: &str) -> (data: UserData)
    requires
        old(store).wf(),
    ensures
        final(store).wf(),
        final(store)@ == loaded(old(store)@, user_id@).0,
        data@ == loaded(old(store)@, user_id@).1,
        distinct_ids(data@.playlists),
{
    if let Some(found) = store.tenant(user_id) {
        return snapshot(found);
    }
    let fresh = match store.tenant("default") {
        Some(template) => {
            proof {
                lemma_provisioned_wf(user_id@, template@);
            }
            provision(template, user_id)
        },
        None => {
            return empty_user_data();
        },
    };
    let data = snapshot(&fresh);
    store.put_tenant(fresh);
    data
}

/// Whether no playlist id occurs twice in the list.
pub fn ids_are_distinct(playlists: &Vec<Playlist>) -> (r: bool)
    ensures
        r == distinct_ids(views(playlists@)),
{
    let ghost ps = views(playlists@);
    let mut j: usize = 0;
    while j < playlists.len()
        invariant
            j <= playlists.len(),
            ps == views(playlists@),
            forall|a: int, b: int| 0 <= a < b < j ==> (#[trigger] ps[a]).id != (#[trigger] ps[b]).id,
        decreases playlists.len() - j,
    {
        let mut i: usize = 0;
        while i < j
            invariant
                i <= j < playlists.len(),
                ps == views(playlists@),
                forall|a: int| 0 <= a < i ==> (#[trigger] ps[a]).id != ps[j as int].id,
            decreases j - i,
        {
            if same_text(playlists[i].id.as_str(), playlists[j].id.as_str()) {
                assert(ps[i as int].id == ps[j as int].id);
                return false;
            }
            i += 1;
        }
        j += 1;
    }
    true
}

/// A record made of a snapshot with distinct playlist ids is well formed.
proof fn lemma_record_wf(key: Key, data: UserDataView)
    requires
        distinct_ids(data.playlists),
    ensures
        tenant_wf(key, record_of(data)),
{
    assert(bare(record_of(data).playlists) =~= data.playlists);
}

/// Saves a snapshot as the whole of a user's data.
///
/// The user's scalar fields are overwritten, or the record is made where
/// the user had none; every playlist that the user had is dropped, and the
/// playlists of the snapshot are inserted in the order given. The three
/// steps happen together or not at all: where two playlists of the snapshot
/// share an id, the save fails and the store is unchanged. Saving a snapshot
/// without playlists clears the user's playlists.
pub fn save_user_data(store: &mut Store, user_id: &str, data: UserData) -> (r: Result<
    (),
    StoreError,
>)
    requires
        old(store).wf(),
    ensures
        final(store).wf(),
        distinct_ids(data@.playlists) ==> r is Ok && final(store)@ == saved(
            old(store)@,
            user_id@,
            data@,
        ),
        !distinct_ids(data@.playlists) ==> r == Err::<(), StoreError>(
            StoreError::DuplicatePlaylist,
        ) && final(store)@ == old(store)@,
{
    if !ids_are_distinct(&data.playlists) {
        return Err(StoreError::DuplicatePlaylist);
    }
    let expected = data.playlists.len();
    let record = Tenant {
        user_id: user_id.to_owned(),
        playlists: own_all(&data.playlists),
        custom_colors: data.custom_colors,
        color_order: data.color_order,
        playlist_tabs: data.playlist_tabs,
        video_progress: data.video_progress,
    };
    let found = record.playlists.len();
    proof {
        lemma_record_wf(user_id@, data@);
    }
    store.put_tenant(record);
    verify_saved(expected, found)
}

/// Round trip: a load after a save returns the snapshot that was saved,
/// its playlists in the order in which they were given, and changes
/// nothing.
pub proof fn law_save_then_load(s: StoreView, user: Key, data: UserDataView)
    ensures
        loaded(saved(s, user, data), user) == (saved(s, user, data), data),
{
    assert(bare(record_of(data).playlists) =~= data.playlists);
}

/// Full replace: after a save without playlists the user has none, however
/// many the user had before.
pub proof fn law_save_replaces(s: StoreView, user: Key, data: UserDataView)
    requires
        data.playlists.len() == 0,
    ensures
        loaded(saved(s, user, data), user).1.playlists.len() == 0,
{
    law_save_then_load(s, user, data);
}

/// Template clone: a user without a record is given the template's
/// playlists, each under its id and in its place, as playlists that are
/// no defaults and can be deleted. The template's record is not touched, so
/// its own playlists stay defaults that cannot be deleted.
pub proof fn law_first_load_clones_template(s: StoreView, user: Key)
    requires
        !s.tenants.contains_key(user),
        s.tenants.contains_key(template_id()),
    ensures
        loaded(s, user).1.playlists == bare(s.tenants[template_id()].playlists),
        loaded(s, user).0.tenants.contains_key(user),
        loaded(s, user).0.tenants[user].playlists.len() == s.tenants[template_id()].playlists.len(),
        forall|i: int|
            0 <= i < loaded(s, user).0.tenants[user].playlists.len() ==> {
                &&& !(#[trigger] loaded(s, user).0.tenants[user].playlists[i]).is_default
                &&& loaded(s, user).0.tenants[user].playlists[i].can_delete
            },
        loaded(s, user).0.tenants[template_id()] == s.tenants[template_id()],
        loaded(s, user).0.tenants.remove(user) == s.tenants,
{
    let template = s.tenants[template_id()];
    assert(bare(provisioned(template).playlists) =~= bare(template.playlists));
}

/// A second load returns what the first returned and changes nothing.
pub proof fn law_load_twice(s: StoreView, user: Key)
    ensures
        loaded(loaded(s, user).0, user) == (loaded(s, user).0, loaded(s, user).1),
{
    if !s.tenants.contains_key(user) && s.tenants.contains_key(template_id()) {
        assert(loaded(s, user).0.tenants.contains_key(user));
    }
}

/// A load changes no record but, on first access, that of the user who
/// loads; a save changes no record but that of the user who saves.
pub proof fn law_other_users_untouched(s: StoreView, user: Key, other: Key, data: UserDataView)
    requires
        other != user,
    ensures
        loaded(s, user).0.tenants.contains_key(other) == s.tenants.contains_key(other),
        s.tenants.contains_key(other) ==> loaded(s, user).0.tenants[other] == s.tenants[other],
        saved(s, user, data).tenants.contains_key(other) == s.tenants.contains_key(other),
        s.tenants.contains_key(other) ==> saved(s, user, data).tenants[other] == s.tenants[other],
{
}

/// Loads and saves keep every record well formed.
pub proof fn law_store_stays_well_formed(s: StoreView, user: Key, data: UserDataView)
    requires
        s.wf(),
    ensures
        loaded(s, user).0.wf(),
        distinct_ids(data.playlists) ==> saved(s, user, data).wf(),
{
    let l = loaded(s, user).0;
    assert forall|k: Key| #[trigger] l.tenants.contains_key(k) implies tenant_wf(
        k,
        l.tenants[k],
    ) by {
        if !s.tenants.contains_key(k) {
            lemma_provisioned_wf(user, s.tenants[template_id()]);
        }
    }
    if distinct_ids(data.playlists) {
        let v = saved(s, user, data);
        lemma_record_wf(user, data);
        assert forall|k: Key| #[trigger] v.tenants.contains_key(k) implies tenant_wf(
            k,
            v.tenants[k],
        ) by {
            if k != user {
                assert(s.tenants.contains_key(k));
            }
        }
    }
}

} // verus!
