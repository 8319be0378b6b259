//! Watch progress: a map from video id to a progress value, merged on each
//! save.

use crate::account::empty_object;
use crate::json::{merged, Json, JsonView};
use crate::store::{Store, StoreView, Tenant, TenantView};
use crate::table::Key;
use vstd::prelude::*;

verus! {

/// The record of a user of whom only watch progress is stored: empty
/// preferences and no playlists.
pub open spec fn bare_record(progress: JsonView) -> TenantView {
    TenantView {
        custom_colors: empty_object(),
        color_order: Seq::empty(),
        playlist_tabs: Seq::empty(),
        video_progress: progress,
        playlists: Seq::empty(),
    }
}

/// A record with other watch progress.
pub open spec fn with_progress(t: TenantView, progress: JsonView) -> TenantView {
    TenantView {
        custom_colors: t.custom_colors,
        color_order: t.color_order,
        playlist_tabs: t.playlist_tabs,
        video_progress: progress,
        playlists: t.playlists,
    }
}

/// Saving watch progress: the store afterwards.
///
/// The update is merged over the progress that the user has: each of its
/// entries is written over the entry for the same video or added, and no
/// entry is dropped. The rest of the user's record stays as it is. A user
/// without a record gets one that holds the update and nothing else; such a
/// user is not given a copy of the template.
pub open spec fn progress_saved(s: StoreView, user: Key, update: JsonView) -> StoreView {
    StoreView {
        tenants: s.tenants.insert(
            user,
            if s.tenants.contains_key(user) {
                with_progress(s.tenants[user], merged(s.tenants[user].video_progress, update))
            } else {
                bare_record(merged(empty_object(), update))
            },
        ),
        metadata: s.metadata,
    }
}

/// Merges an update into the watch progress of a user.
pub fn save_video_progress(store: &mut Store, user_id: &str, video_progress: &Json)
    requires
        old(store).wf(),
    ensures
        final(store).wf(),
        final(store)@ == progress_saved(old(store)@, user_id@, video_progress@),
{
    let record = match store.tenant(user_id) {
        Some(t) => {
            let mut next = t.clone();
            next.video_progress = Json::merge(&t.video_progress, video_progress);
            next
        },
        None => {
            let next = Tenant {
                user_id: user_id.to_owned(),
                custom_colors: Json::empty_object(),
                color_order: Vec::new(),
                playlist_tabs: Vec::new(),
                video_progress: Json::merge(&Json::empty_object(), video_progress),
                playlists: Vec::new(),
            };
            assert(next@.color_order =~= Seq::empty());
            assert(next@.playlist_tabs =~= Seq::empty());
            assert(next@.playlists =~= Seq::empty());
            next
        },
    };
    store.put_tenant(record);
}

/// After a save of watch progress, the progress of each video in the
/// update is the new one, the progress of every other video is what it
/// was, and nothing else of the user's data has changed.
pub proof fn law_progress_merge(s: StoreView, user: Key, update: JsonView, video: Seq<char>)
    requires
        s.tenants.contains_key(user),
        s.tenants[user].video_progress is Object,
        update is Object,
    ensures
        progress_saved(s, user, update).tenants[user].video_progress.member(video) == if update.member(
            video,
        ) is Some {
            update.member(video)
        } else {
            s.tenants[user].video_progress.member(video)
        },
        progress_saved(s, user, update).tenants[user] == with_progress(
            s.tenants[user],
            progress_saved(s, user, update).tenants[user].video_progress,
        ),
{
    crate::json::lemma_put_all(
        s.tenants[user].video_progress->Object_0,
        update->Object_0,
        video,
    );
}

} // verus!
