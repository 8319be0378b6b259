//! The store: one record per user with that user's playlists in insertion
//! order, and a cache of video metadata shared by all users.

use crate::json::{Json, JsonView};
use crate::model::{copy_tabs, Playlist, PlaylistTab, PlaylistView, TabView};
use crate::table::{
    distinct_keys, has_key, keyed, lemma_distinct_push, lemma_keyed_at, lemma_keyed_dom,
    lemma_keyed_push, lemma_keyed_remove, lemma_keyed_update, Key,
};
use crate::text::{copy_texts, same_text, views};
use vstd::prelude::*;

verus! {

/// The user id that is reserved for the template, whose playlists are
/// copied to each user on first access.
pub open spec fn template_id() -> Key {
    "default"@
}

/// A playlist as a user's record holds it.
#[derive(Debug)]
pub struct OwnedPlaylist {
    pub playlist: Playlist,
    /// Set on the template's seeded playlists only.
    pub is_default: bool,
    /// Cleared on the template's seeded playlists only.
    pub can_delete: bool,
}

/// The mathematical value of an [`OwnedPlaylist`].
pub struct OwnedPlaylistView {
    pub playlist: PlaylistView,
    pub is_default: bool,
    pub can_delete: bool,
}

impl View for OwnedPlaylist {
    type V = OwnedPlaylistView;

    open spec fn view(&self) -> OwnedPlaylistView {
        OwnedPlaylistView {
            playlist: self.playlist@,
            is_default: self.is_default,
            can_delete: self.can_delete,
        }
    }
}

impl Clone for OwnedPlaylist {
    fn clone(&self) -> (r: OwnedPlaylist)
        ensures
            r@ == self@,
    {
        OwnedPlaylist {
            playlist: self.playlist.clone(),
            is_default: self.is_default,
            can_delete: self.can_delete,
        }
    }
}

/// One user's record: the scalar preferences and the playlists, in the order
/// in which they were inserted.
#[derive(Debug)]
pub struct Tenant {
    pub user_id: String,
    pub custom_colors: Json,
    pub color_order: Vec<String>,
    pub playlist_tabs: Vec<PlaylistTab>,
    pub video_progress: Json,
    pub playlists: Vec<OwnedPlaylist>,
}

/// The mathematical value of a [`Tenant`], without its key.
pub struct TenantView {
    pub custom_colors: JsonView,
    pub color_order: Seq<Seq<char>>,
    pub playlist_tabs: Seq<TabView>,
    pub video_progress: JsonView,
    pub playlists: Seq<OwnedPlaylistView>,
}

impl View for Tenant {
    type V = TenantView;

    open spec fn view(&self) -> TenantView {
        TenantView {
            custom_colors: self.custom_colors@,
            color_order: views(self.color_order@),
            playlist_tabs: views(self.playlist_tabs@),
            video_progress: self.video_progress@,
            playlists: views(self.playlists@),
        }
    }
}

/// A copy of the playlists of a record.
pub fn copy_owned(v: &Vec<OwnedPlaylist>) -> (r: Vec<OwnedPlaylist>)
    ensures
        views(r@) == views(v@),
{
    let mut out: Vec<OwnedPlaylist> = Vec::new();
    let mut i: usize = 0;
    while i < v.len()
        invariant
            i <= v.len(),
            out.len() == i,
            forall|k: int| 0 <= k < i ==> out[k]@ == v[k]@,
        decreases v.len() - i,
    {
        out.push(v[i].clone());
        i += 1;
    }
    out
}

impl Clone for Tenant {
    fn clone(&self) -> (r: Tenant)
        ensures
            r@ == self@,
            r.user_id@ == self.user_id@,
    {
        Tenant {
            user_id: self.user_id.clone(),
            custom_colors: self.custom_colors.duplicate(),
            color_order: copy_texts(&self.color_order),
            playlist_tabs: copy_tabs(&self.playlist_tabs),
            video_progress: self.video_progress.duplicate(),
            playlists: copy_owned(&self.playlists),
        }
    }
}

/// What is cached of one video.
#[derive(Debug)]
pub struct VideoMetadata {
    pub video_id: String,
    pub title: String,
    pub author: String,
    pub view_count: String,
    pub channel_id: String,
    pub published_year: String,
    pub duration: i32,
}

/// The mathematical value of a [`VideoMetadata`], without its key.
pub struct MetadataView {
    pub title: Seq<char>,
    pub author: Seq<char>,
    pub view_count: Seq<char>,
    pub channel_id: Seq<char>,
    pub published_year: Seq<char>,
    pub duration: i32,
}

impl View for VideoMetadata {
    type V = MetadataView;

    open spec fn view(&self) -> MetadataView {
        MetadataView {
            title: self.title@,
            author: self.author@,
            view_count: self.view_count@,
            channel_id: self.channel_id@,
            published_year: self.published_year@,
            duration: self.duration,
        }
    }
}

impl Clone for VideoMetadata {
    fn clone(&self) -> (r: VideoMetadata)
        ensures
            r@ == self@,
            r.video_id@ == self.video_id@,
    {
        VideoMetadata {
            video_id: self.video_id.clone(),
            title: self.title.clone(),
            author: self.author.clone(),
            view_count: self.view_count.clone(),
            channel_id: self.channel_id.clone(),
            published_year: self.published_year.clone(),
            duration: self.duration,
        }
    }
}

/// The mathematical value of a [`Store`]: each user id with its record, each
/// video id with its metadata.
pub struct StoreView {
    pub tenants: Map<Key, TenantView>,
    pub metadata: Map<Key, MetadataView>,
}

/// No playlist id occurs twice.
pub open spec fn distinct_ids(playlists: Seq<PlaylistView>) -> bool {
    forall|i: int, j: int|
        0 <= i < j < playlists.len() ==> (#[trigger] playlists[i]).id != (#[trigger] playlists[j]).id
}

/// The playlists of a record, without their flags.
pub open spec fn bare(playlists: Seq<OwnedPlaylistView>) -> Seq<PlaylistView> {
    playlists.map_values(|o: OwnedPlaylistView| o.playlist)
}

/// A playlist as a user owns it: not a default, and deletable.
pub open spec fn owned(p: PlaylistView) -> OwnedPlaylistView {
    OwnedPlaylistView { playlist: p, is_default: false, can_delete: true }
}

/// A playlist as the template holds a seeded one: a default, not deletable.
pub open spec fn seeded(p: PlaylistView) -> OwnedPlaylistView {
    OwnedPlaylistView { playlist: p, is_default: true, can_delete: false }
}

/// What holds of every record in a store: playlist ids are unique within
/// it, only the template holds playlists flagged as defaults, and a playlist
/// can be deleted exactly when it is not a default.
pub open spec fn tenant_wf(key: Key, t: TenantView) -> bool {
    &&& distinct_ids(bare(t.playlists))
    &&& forall|i: int|
        0 <= i < t.playlists.len() ==> {
            &&& (#[trigger] t.playlists[i]).is_default ==> key == template_id()
            &&& t.playlists[i].can_delete == !t.playlists[i].is_default
        }
}

impl StoreView {
    /// Every record is well formed.
    pub open spec fn wf(self) -> bool {
        forall|k: Key| #[trigger] self.tenants.contains_key(k) ==> tenant_wf(k, self.tenants[k])
    }

    /// How many playlists are flagged as defaults. In a well-formed store
    /// they are all the template's.
    pub open spec fn default_count(self) -> nat {
        if self.tenants.contains_key(template_id()) {
            self.tenants[template_id()].playlists.filter(
                |o: OwnedPlaylistView| o.is_default,
            ).len()
        } else {
            0
        }
    }
}

/// The rows of the user table.
pub open spec fn tenant_rows(tenants: Seq<Tenant>) -> Seq<(Key, TenantView)> {
    tenants.map_values(|t: Tenant| (t.user_id@, t@))
}

/// The rows of the metadata table.
pub open spec fn metadata_rows(metadata: Seq<VideoMetadata>) -> Seq<(Key, MetadataView)> {
    metadata.map_values(|m: VideoMetadata| (m.video_id@, m@))
}

/// The store.
#[derive(Debug)]
pub struct Store {
    tenants: Vec<Tenant>,
    metadata: Vec<VideoMetadata>,
}

impl View for Store {
    type V = StoreView;

    closed spec fn view(&self) -> StoreView {
        StoreView {
            tenants: keyed(tenant_rows(self.tenants@)),
            metadata: keyed(metadata_rows(self.metadata@)),
        }
    }
}

impl Store {
    /// The store's invariant: one record per user id, one entry per video
    /// id, and every record well formed.
    pub closed spec fn wf(&self) -> bool {
        &&& distinct_keys(tenant_rows(self.tenants@))
        &&& distinct_keys(metadata_rows(self.metadata@))
        &&& self@.wf()
    }

    /// In a well-formed store every record is well formed: playlist ids
    /// are unique within it, only the template holds defaults, and a
    /// playlist can be deleted exactly when it is no default.
    pub proof fn law_records_well_formed(&self)
        requires
            self.wf(),
        ensures
            self@.wf(),
    {
    }

    /// A store without users and without metadata.
    pub fn new() -> (s: Store)
        ensures
            s.wf(),
            s@.tenants == Map::<Key, TenantView>::empty(),
            s@.metadata == Map::<Key, MetadataView>::empty(),
    {
        let s = Store { tenants: Vec::new(), metadata: Vec::new() };
        s
    }

    /// The place of a user's record among the records.
    fn find_tenant(&self, user_id: &str) -> (r: Option<usize>)
        ensures
            match r {
                Some(i) => i < self.tenants.len() && self.tenants[i as int].user_id@ == user_id@,
                None => !has_key(tenant_rows(self.tenants@), user_id@),
            },
    {
        let mut i: usize = 0;
        while i < self.tenants.len()
            invariant
                i <= self.tenants.len(),
                forall|k: int| 0 <= k < i ==> self.tenants[k].user_id@ != user_id@,
            decreases self.tenants.len() - i,
        {
            if same_text(self.tenants[i].user_id.as_str(), user_id) {
                return Some(i);
            }
            i += 1;
        }
        assert(!has_key(tenant_rows(self.tenants@), user_id@)) by {
            if has_key(tenant_rows(self.tenants@), user_id@) {
                let k = choose|k: int|
                    0 <= k < tenant_rows(self.tenants@).len() && (#[trigger] tenant_rows(
                        self.tenants@,
                    )[k]).0 == user_id@;
            }
        }
        None
    }

    /// The record of a user, if the user has one.
    pub fn tenant(&self, user_id: &str) -> (r: Option<&Tenant>)
        requires
            self.wf(),
        ensures
            match r {
                Some(t) => self@.tenants.contains_key(user_id@) && self@.tenants[user_id@] == t@
                    && t.user_id@ == user_id@ && tenant_wf(user_id@, t@),
                None => !self@.tenants.contains_key(user_id@),
            },
    {
        let ghost rows = tenant_rows(self.tenants@);
        proof {
            lemma_keyed_dom(rows, user_id@);
        }
        match self.find_tenant(user_id) {
            Some(i) => {
                proof {
                    lemma_keyed_at(rows, i as int);
                }
                Some(&self.tenants[i])
            },
            None => None,
        }
    }

    /// Stores a record under its user id, in the place of the record that
    /// the user had or as a new one.
    pub fn put_tenant(&mut self, tenant: Tenant)
        requires
            old(self).wf(),
            tenant_wf(tenant.user_id@, tenant@),
        ensures
            final(self).wf(),
            final(self)@.tenants == old(self)@.tenants.insert(tenant.user_id@, tenant@),
            final(self)@.metadata == old(self)@.metadata,
    {
        let ghost rows = tenant_rows(self.tenants@);
        let ghost before = keyed(rows);
        let ghost key = tenant.user_id@;
        let ghost value = tenant@;
        proof {
            lemma_keyed_dom(rows, key);
        }
        match self.find_tenant(tenant.user_id.as_str()) {
            Some(i) => {
                self.tenants.set(i, tenant);
                proof {
                    assert(tenant_rows(self.tenants@) =~= rows.update(
                        i as int,
                        (rows[i as int].0, value),
                    ));
                    lemma_keyed_update(rows, i as int, value);
                }
            },
            None => {
                self.tenants.push(tenant);
                proof {
                    assert(tenant_rows(self.tenants@) =~= rows.push((key, value)));
                    lemma_keyed_push(rows, key, value);
                    lemma_distinct_push(rows, key, value);
                }
            },
        }
        proof {
            let after = before.insert(key, value);
            assert forall|k: Key| #[trigger] after.contains_key(k) implies tenant_wf(
                k,
                after[k],
            ) by {
                if k != key {
                    assert(old(self)@.tenants.contains_key(k));
                }
            }
        }
    }

    /// Drops a user's record with all its playlists. Nothing happens where
    /// the user has none.
    pub fn remove_tenant(&mut self, user_id: &str)
        requires
            old(self).wf(),
        ensures
            final(self).wf(),
            final(self)@.tenants == old(self)@.tenants.remove(user_id@),
            final(self)@.metadata == old(self)@.metadata,
    {
        let ghost rows = tenant_rows(self.tenants@);
        let ghost before = keyed(rows);
        proof {
            lemma_keyed_dom(rows, user_id@);
        }
        match self.find_tenant(user_id) {
            Some(i) => {
                let _ = self.tenants.remove(i);
                proof {
                    assert(tenant_rows(self.tenants@) =~= rows.remove(i as int));
                    lemma_keyed_remove(rows, i as int);
                    let after = before.remove(user_id@);
                    assert forall|k: Key| #[trigger] after.contains_key(k) implies tenant_wf(
                        k,
                        after[k],
                    ) by {
                        assert(old(self)@.tenants.contains_key(k));
                    }
                }
            },
            None => {
                assert(before.remove(user_id@) =~= before);
            },
        }
    }
    /// What is cached of a video, if anything is.
    pub fn metadata(&self, video_id: &str) -> (r: Option<&VideoMetadata>)
        requires
            self.wf(),
        ensures
            match r {
                Some(m) => self@.metadata.contains_key(video_id@) && self@.metadata[video_id@]
                    == m@ && m.video_id@ == video_id@,
                None => !self@.metadata.contains_key(video_id@),
            },
    {
        let ghost rows = metadata_rows(self.metadata@);
        proof {
            lemma_keyed_dom(rows, video_id@);
        }
        match self.find_metadata(video_id) {
            Some(i) => {
                proof {
                    lemma_keyed_at(rows, i as int);
                }
                Some(&self.metadata[i])
            },
            None => None,
        }
    }

    /// Caches what is known of a video, over what was cached of it before.
    pub fn put_metadata(&mut self, entry: VideoMetadata)
        requires
            old(self).wf(),
        ensures
            final(self).wf(),
            final(self)@.metadata == old(self)@.metadata.insert(entry.video_id@, entry@),
            final(self)@.tenants == old(self)@.tenants,
    {
        let ghost rows = metadata_rows(self.metadata@);
        let ghost key = entry.video_id@;
        let ghost value = entry@;
        proof {
            lemma_keyed_dom(rows, key);
        }
        match self.find_metadata(entry.video_id.as_str()) {
            Some(i) => {
                self.metadata.set(i, entry);
                proof {
                    assert(metadata_rows(self.metadata@) =~= rows.update(
                        i as int,
                        (rows[i as int].0, value),
                    ));
                    lemma_keyed_update(rows, i as int, value);
                }
            },
            None => {
                self.metadata.push(entry);
                proof {
                    assert(metadata_rows(self.metadata@) =~= rows.push((key, value)));
                    lemma_keyed_push(rows, key, value);
                    lemma_distinct_push(rows, key, value);
                }
            },
        }
        proof {
            assert forall|k: Key| #[trigger] self@.tenants.contains_key(k) implies tenant_wf(
                k,
                self@.tenants[k],
            ) by {
                assert(old(self)@.tenants.contains_key(k));
            }
        }
    }

    /// The place of a video's entry among the entries.
    fn find_metadata(&self, video_id: &str) -> (r: Option<usize>)
        ensures
            match r {
                Some(i) => i < self.metadata.len() && self.metadata[i as int].video_id@
                    == video_id@,
                None => !has_key(metadata_rows(self.metadata@), video_id@),
            },
    {
        let mut i: usize = 0;
        while i < self.metadata.len()
            invariant
                i <= self.metadata.len(),
                forall|k: int| 0 <= k < i ==> self.metadata[k].video_id@ != video_id@,
            decreases self.metadata.len() - i,
        {
            if same_text(self.metadata[i].video_id.as_str(), video_id) {
                return Some(i);
            }
            i += 1;
        }
        assert(!has_key(metadata_rows(self.metadata@), video_id@)) by {
            if has_key(metadata_rows(self.metadata@), video_id@) {
                let k = choose|k: int|
                    0 <= k < metadata_rows(self.metadata@).len() && (#[trigger] metadata_rows(
                        self.metadata@,
                    )[k]).0 == video_id@;
            }
        }
        None
    }
}

/// Whether no playlist id occurs twice among the playlists of a record.
pub fn owned_ids_distinct(playlists: &Vec<OwnedPlaylist>) -> (r: bool)
    ensures
        r == distinct_ids(bare(views(playlists@))),
{
    let ghost ps = bare(views(playlists@));
    let mut j: usize = 0;
    while j < playlists.len()
        invariant
            j <= playlists.len(),
            ps == bare(views(playlists@)),
            forall|a: int, b: int| 0 <= a < b < j ==> (#[trigger] ps[a]).id != (#[trigger] ps[b]).id,
        decreases playlists.len() - j,
    {
        let mut i: usize = 0;
        while i < j
            invariant
                i <= j < playlists.len(),
                ps == bare(views(playlists@)),
                forall|a: int| 0 <= a < i ==> (#[trigger] ps[a]).id != ps[j as int].id,
            decreases j - i,
        {
            if same_text(playlists[i].playlist.id.as_str(), playlists[j].playlist.id.as_str()) {
                assert(ps[i as int].id == ps[j as int].id);
                return false;
            }
            i += 1;
        }
        j += 1;
    }
    true
}

/// Whether a record is well formed under its user id.
pub fn tenant_is_wf(t: &Tenant) -> (r: bool)
    ensures
        r == tenant_wf(t.user_id@, t@),
{
    if !owned_ids_distinct(&t.playlists) {
        return false;
    }
    let is_template = same_text(t.user_id.as_str(), "default");
    let ghost ps = t@.playlists;
    let mut i: usize = 0;
    while i < t.playlists.len()
        invariant
            i <= t.playlists.len(),
            ps == views(t.playlists@),
            is_template == (t.user_id@ == template_id()),
            forall|k: int|
                0 <= k < i ==> {
                    &&& (#[trigger] ps[k]).is_default ==> t.user_id@ == template_id()
                    &&& ps[k].can_delete == !ps[k].is_default
                },
        decreases t.playlists.len() - i,
    {
        let p = &t.playlists[i];
        if (p.is_default && !is_template) || p.can_delete == p.is_default {
            assert(!({
                &&& ps[i as int].is_default ==> t.user_id@ == template_id()
                &&& ps[i as int].can_delete == !ps[i as int].is_default
            }));
            return false;
        }
        i += 1;
    }
    true
}

impl Store {
    /// The records of all users, in the order in which they were stored.
    pub fn tenants(&self) -> (r: &Vec<Tenant>)
        requires
            self.wf(),
        ensures
            distinct_keys(tenant_rows(r@)),
            keyed(tenant_rows(r@)) == self@.tenants,
    {
        &self.tenants
    }

    /// The metadata of all videos, in the order in which it was cached.
    pub fn metadata_entries(&self) -> (r: &Vec<VideoMetadata>)
        requires
            self.wf(),
        ensures
            distinct_keys(metadata_rows(r@)),
            keyed(metadata_rows(r@)) == self@.metadata,
    {
        &self.metadata
    }

    /// What makes records and metadata entries a store: no user id and no
    /// video id occurs twice, and every record is well formed.
    pub open spec fn valid_parts(tenants: Seq<Tenant>, metadata: Seq<VideoMetadata>) -> bool {
        &&& distinct_keys(tenant_rows(tenants))
        &&& distinct_keys(metadata_rows(metadata))
        &&& forall|i: int|
            0 <= i < tenants.len() ==> tenant_wf((#[trigger] tenants[i]).user_id@, tenants[i]@)
    }

    /// A store of the given records and metadata entries, where they make
    /// one.
    pub fn from_parts(tenants: Vec<Tenant>, metadata: Vec<VideoMetadata>) -> (r: Option<Store>)
        ensures
            match r {
                Some(s) => Store::valid_parts(tenants@, metadata@) && s.wf() && s@.tenants
                    == keyed(tenant_rows(tenants@)) && s@.metadata == keyed(
                    metadata_rows(metadata@),
                ),
                None => !Store::valid_parts(tenants@, metadata@),
            },
    {
        let ghost rows = tenant_rows(tenants@);
        let ghost entries = metadata_rows(metadata@);
        let mut j: usize = 0;
        while j < tenants.len()
            invariant
                j <= tenants.len(),
                rows == tenant_rows(tenants@),
                forall|a: int, b: int|
                    0 <= a < b < j ==> (#[trigger] rows[a]).0 != (#[trigger] rows[b]).0,
                forall|a: int|
                    0 <= a < j ==> tenant_wf((#[trigger] tenants[a]).user_id@, tenants[a]@),
            decreases tenants.len() - j,
        {
            if !tenant_is_wf(&tenants[j]) {
                return None;
            }
            let mut i: usize = 0;
            while i < j
                invariant
                    i <= j < tenants.len(),
                    rows == tenant_rows(tenants@),
                    forall|a: int| 0 <= a < i ==> (#[trigger] rows[a]).0 != rows[j as int].0,
                decreases j - i,
            {
                if same_text(tenants[i].user_id.as_str(), tenants[j].user_id.as_str()) {
                    assert(rows[i as int].0 == rows[j as int].0);
                    return None;
                }
                i += 1;
            }
            j += 1;
        }
        let mut j: usize = 0;
        while j < metadata.len()
            invariant
                j <= metadata.len(),
                entries == metadata_rows(metadata@),
                forall|a: int, b: int|
                    0 <= a < b < j ==> (#[trigger] entries[a]).0 != (#[trigger] entries[b]).0,
            decreases metadata.len() - j,
        {
            let mut i: usize = 0;
            while i < j
                invariant
                    i <= j < metadata.len(),
                    entries == metadata_rows(metadata@),
                    forall|a: int| 0 <= a < i ==> (#[trigger] entries[a]).0 != entries[j as int].0,
                decreases j - i,
            {
                if same_text(metadata[i].video_id.as_str(), metadata[j].video_id.as_str()) {
                    assert(entries[i as int].0 == entries[j as int].0);
                    return None;
                }
                i += 1;
            }
            j += 1;
        }
        let s = Store { tenants, metadata };
        proof {
            assert forall|k: Key| #[trigger] s@.tenants.contains_key(k) implies tenant_wf(
                k,
                s@.tenants[k],
            ) by {
                lemma_keyed_dom(rows, k);
                let i = choose|i: int| 0 <= i < rows.len() && (#[trigger] rows[i]).0 == k;
                lemma_keyed_at(rows, i);
            }
        }
        Some(s)
    }
}

} // verus!
