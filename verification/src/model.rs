//! The records that cross the library's boundary: playlists, tabs and the
//! snapshot of one user's data.

use crate::json::{Json, JsonView};
use crate::text::{copy_opt, copy_texts, opt_view, same_opt, same_text, same_texts, views};
use vstd::prelude::*;

verus! {

/// A curated list of videos.
#[derive(Debug)]
pub struct Playlist {
    pub id: String,
    pub name: String,
    pub videos: Vec<String>,
    pub groups: Json,
    pub starred: Vec<String>,
    pub category: Option<String>,
    pub description: Option<String>,
    pub thumbnail: Option<String>,
    pub is_converted_from_colored_folder: bool,
    pub representative_video_id: Option<String>,
}

/// The mathematical value of a [`Playlist`].
pub struct PlaylistView {
    pub id: Seq<char>,
    pub name: Seq<char>,
    pub videos: Seq<Seq<char>>,
    pub groups: JsonView,
    pub starred: Seq<Seq<char>>,
    pub category: Option<Seq<char>>,
    pub description: Option<Seq<char>>,
    pub thumbnail: Option<Seq<char>>,
    pub is_converted_from_colored_folder: bool,
    pub representative_video_id: Option<Seq<char>>,
}

impl View for Playlist {
    type V = PlaylistView;

    open spec fn view(&self) -> PlaylistView {
        PlaylistView {
            id: self.id@,
            name: self.name@,
            videos: views(self.videos@),
            groups: self.groups@,
            starred: views(self.starred@),
            category: opt_view(self.category),
            description: opt_view(self.description),
            thumbnail: opt_view(self.thumbnail),
            is_converted_from_colored_folder: self.is_converted_from_colored_folder,
            representative_video_id: opt_view(self.representative_video_id),
        }
    }
}

impl Clone for Playlist {
    fn clone(&self) -> (r: Playlist)
        ensures
            r@ == self@,
    {
        Playlist {
            id: self.id.clone(),
            name: self.name.clone(),
            videos: copy_texts(&self.videos),
            groups: self.groups.duplicate(),
            starred: copy_texts(&self.starred),
            category: copy_opt(&self.category),
            description: copy_opt(&self.description),
            thumbnail: copy_opt(&self.thumbnail),
            is_converted_from_colored_folder: self.is_converted_from_colored_folder,
            representative_video_id: copy_opt(&self.representative_video_id),
        }
    }
}

/// A named, ordered grouping of playlist ids.
#[derive(Debug)]
pub struct PlaylistTab {
    pub name: String,
    pub playlist_ids: Vec<String>,
}

/// The mathematical value of a [`PlaylistTab`].
pub struct TabView {
    pub name: Seq<char>,
    pub playlist_ids: Seq<Seq<char>>,
}

impl View for PlaylistTab {
    type V = TabView;

    open spec fn view(&self) -> TabView {
        TabView { name: self.name@, playlist_ids: views(self.playlist_ids@) }
    }
}

impl Clone for PlaylistTab {
    fn clone(&self) -> (r: PlaylistTab)
        ensures
            r@ == self@,
    {
        PlaylistTab { name: self.name.clone(), playlist_ids: copy_texts(&self.playlist_ids) }
    }
}

/// Everything the store keeps for one user: the playlists in their order and
/// the scalar preferences.
#[derive(Debug)]
pub struct UserData {
    pub playlists: Vec<Playlist>,
    pub playlist_tabs: Vec<PlaylistTab>,
    pub custom_colors: Json,
    pub color_order: Vec<String>,
    pub video_progress: Json,
}

/// The mathematical value of a [`UserData`].
pub struct UserDataView {
    pub playlists: Seq<PlaylistView>,
    pub playlist_tabs: Seq<TabView>,
    pub custom_colors: JsonView,
    pub color_order: Seq<Seq<char>>,
    pub video_progress: JsonView,
}

impl View for UserData {
    type V = UserDataView;

    open spec fn view(&self) -> UserDataView {
        UserDataView {
            playlists: views(self.playlists@),
            playlist_tabs: views(self.playlist_tabs@),
            custom_colors: self.custom_colors@,
            color_order: views(self.color_order@),
            video_progress: self.video_progress@,
        }
    }
}

/// A copy of a list of playlists.
pub fn copy_playlists(v: &Vec<Playlist>) -> (r: Vec<Playlist>)
    ensures
        views(r@) == views(v@),
{
    let mut out: Vec<Playlist> = Vec::new();
    let mut i: usize = 0;
    while i < v.len()
        invariant
            i <= v.len(),
            out.len() == i,
            forall|k: int| 0 <= k < i ==> out[k]@ == v[k]@,
        decreases v.len() - i,
    {
        out.push(v[i].clone());
        i += 1;
    }
    out
}

/// A copy of a list of tabs.
pub fn copy_tabs(v: &Vec<PlaylistTab>) -> (r: Vec<PlaylistTab>)
    ensures
        views(r@) == views(v@),
{
    let mut out: Vec<PlaylistTab> = Vec::new();
    let mut i: usize = 0;
    while i < v.len()
        invariant
            i <= v.len(),
            out.len() == i,
            forall|k: int| 0 <= k < i ==> out[k]@ == v[k]@,
        decreases v.len() - i,
    {
        out.push(v[i].clone());
        i += 1;
    }
    out
}

impl Clone for UserData {
    fn clone(&self) -> (r: UserData)
        ensures
            r@ == self@,
    {
        UserData {
            playlists: copy_playlists(&self.playlists),
            playlist_tabs: copy_tabs(&self.playlist_tabs),
            custom_colors: self.custom_colors.duplicate(),
            color_order: copy_texts(&self.color_order),
            video_progress: self.video_progress.duplicate(),
        }
    }
}

/// Some playlist of the list has the id.
pub open spec fn has_id(playlists: Seq<PlaylistView>, id: Seq<char>) -> bool {
    exists|i: int| 0 <= i < playlists.len() && (#[trigger] playlists[i]).id == id
}

/// The place `i` holds the first playlist with the id.
pub open spec fn first_with_id(playlists: Seq<PlaylistView>, id: Seq<char>, i: int) -> bool {
    &&& 0 <= i < playlists.len()
    &&& playlists[i].id == id
    &&& forall|k: int| 0 <= k < i ==> (#[trigger] playlists[k]).id != id
}

/// The place of the first playlist with the id.
pub open spec fn position(playlists: Seq<PlaylistView>, id: Seq<char>) -> Option<int> {
    if has_id(playlists, id) {
        Some(choose|i: int| first_with_id(playlists, id, i))
    } else {
        None
    }
}

/// The place of the first playlist with the id.
pub fn find_playlist(playlists: &Vec<Playlist>, id: &str) -> (r: Option<usize>)
    ensures
        match r {
            Some(i) => position(views(playlists@), id@) == Some(i as int) && first_with_id(
                views(playlists@),
                id@,
                i as int,
            ),
            None => position(views(playlists@), id@) is None && !has_id(views(playlists@), id@),
        },
{
    let ghost ps = views(playlists@);
    let mut i: usize = 0;
    while i < playlists.len()
        invariant
            i <= playlists.len(),
            ps == views(playlists@),
            forall|k: int| 0 <= k < i ==> (#[trigger] ps[k]).id != id@,
        decreases playlists.len() - i,
    {
        if same_text(playlists[i].id.as_str(), id) {
            proof {
                assert(first_with_id(ps, id@, i as int));
                let c = choose|c: int| first_with_id(ps, id@, c);
                if c < i {
                    assert(ps[c].id != id@);
                }
                if i < c {
                    assert(ps[i as int].id != id@);
                }
            }
            return Some(i);
        }
        i += 1;
    }
    None
}

impl Playlist {
    /// Whether two playlists have the same value.
    pub fn same_as(&self, other: &Playlist) -> (r: bool)
        ensures
            r == (self@ == other@),
    {
        same_text(self.id.as_str(), other.id.as_str()) && same_text(
            self.name.as_str(),
            other.name.as_str(),
        ) && same_texts(&self.videos, &other.videos) && self.groups.same_as(&other.groups)
            && same_texts(&self.starred, &other.starred) && same_opt(
            &self.category,
            &other.category,
        ) && same_opt(&self.description, &other.description) && same_opt(
            &self.thumbnail,
            &other.thumbnail,
        ) && self.is_converted_from_colored_folder == other.is_converted_from_colored_folder
            && same_opt(&self.representative_video_id, &other.representative_video_id)
    }
}

impl PlaylistTab {
    /// Whether two tabs have the same value.
    pub fn same_as(&self, other: &PlaylistTab) -> (r: bool)
        ensures
            r == (self@ == other@),
    {
        same_text(self.name.as_str(), other.name.as_str()) && same_texts(
            &self.playlist_ids,
            &other.playlist_ids,
        )
    }
}

impl UserData {
    /// Whether two snapshots have the same value: the same playlists and
    /// tabs in the same order, and the same preferences.
    pub fn same_as(&self, other: &UserData) -> (r: bool)
        ensures
            r == (self@ == other@),
    {
        if self.playlists.len() != other.playlists.len() {
            assert(self@.playlists.len() != other@.playlists.len());
            return false;
        }
        let mut i: usize = 0;
        while i < self.playlists.len()
            invariant
                i <= self.playlists.len(),
                self.playlists.len() == other.playlists.len(),
                forall|k: int| 0 <= k < i ==> self.playlists[k]@ == other.playlists[k]@,
            decreases self.playlists.len() - i,
        {
            if !self.playlists[i].same_as(&other.playlists[i]) {
                assert(self@.playlists[i as int] != other@.playlists[i as int]);
                return false;
            }
            i += 1;
        }
        assert(self@.playlists =~= other@.playlists);
        if self.playlist_tabs.len() != other.playlist_tabs.len() {
            assert(self@.playlist_tabs.len() != other@.playlist_tabs.len());
            return false;
        }
        let mut j: usize = 0;
        while j < self.playlist_tabs.len()
            invariant
                j <= self.playlist_tabs.len(),
                self.playlist_tabs.len() == other.playlist_tabs.len(),
                forall|k: int| 0 <= k < j ==> self.playlist_tabs[k]@ == other.playlist_tabs[k]@,
            decreases self.playlist_tabs.len() - j,
        {
            if !self.playlist_tabs[j].same_as(&other.playlist_tabs[j]) {
                assert(self@.playlist_tabs[j as int] != other@.playlist_tabs[j as int]);
                return false;
            }
            j += 1;
        }
        assert(self@.playlist_tabs =~= other@.playlist_tabs);
        self.custom_colors.same_as(&other.custom_colors) && same_texts(
            &self.color_order,
            &other.color_order,
        ) && self.video_progress.same_as(&other.video_progress)
    }
}

} // verus!
