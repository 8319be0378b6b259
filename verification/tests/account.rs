use playlist_store::account::{get_user_data, save_user_data};
use playlist_store::bootstrap::initialize_default_channels;
use playlist_store::columns::document_from_column;
use playlist_store::error::{verify_saved, ErrorKind, StoreError};
use playlist_store::json::Json;
use playlist_store::model::{Playlist, PlaylistTab, UserData};
use playlist_store::store::Store;

fn playlist(id: &str, name: &str, videos: &[&str]) -> Playlist {
    Playlist {
        id: id.to_string(),
        name: name.to_string(),
        videos: videos.iter().map(|v| v.to_string()).collect(),
        groups: Json::Object(vec![("red".to_string(), Json::Array(vec![]))]),
        starred: vec!["v1".to_string()],
        category: Some("music".to_string()),
        description: None,
        thumbnail: Some("thumb.jpg".to_string()),
        is_converted_from_colored_folder: true,
        representative_video_id: Some("v1".to_string()),
    }
}

fn snapshot(playlists: Vec<Playlist>) -> UserData {
    UserData {
        playlists,
        playlist_tabs: vec![PlaylistTab {
            name: "Main".to_string(),
            playlist_ids: vec!["p1".to_string(), "p2".to_string()],
        }],
        custom_colors: Json::Object(vec![("red".to_string(), Json::Str("#f00".to_string()))]),
        color_order: vec!["red".to_string(), "blue".to_string()],
        video_progress: Json::Object(vec![("v1".to_string(), Json::Int(42))]),
    }
}

fn store_with_template() -> Store {
    let seed = document_from_column(
        r#"{
            "customColors": {"red": "Rock"},
            "colorOrder": ["red", 7, "blue"],
            "playlistTabs": [{"name": "All", "playlistIds": ["p1", "p2"]}],
            "videoProgress": {"v1": 10},
            "playlists": [
                {"id": "p1", "name": "One", "videos": ["v1", "v2"], "groups": {}, "starred": []},
                {"id": "p2", "name": "Two", "videos": ["v3"], "groups": {"g": 1}, "starred": ["v3"]}
            ]
        }"#,
    );
    let mut store = Store::new();
    assert!(initialize_default_channels(&mut store, Some(&seed)).is_ok());
    store
}

#[test]
fn load_of_unknown_user_without_template_is_empty_and_stores_nothing() {
    let mut store = Store::new();
    let data = get_user_data(&mut store, "alice");
    assert!(data.playlists.is_empty());
    assert!(data.playlist_tabs.is_empty());
    assert!(data.color_order.is_empty());
    assert!(data.custom_colors.same_as(&Json::Object(vec![])));
    assert!(data.video_progress.same_as(&Json::Object(vec![])));
    assert!(store.tenant("alice").is_none());
    assert!(store.tenants().is_empty());
}

#[test]
fn save_then_load_returns_the_snapshot_in_order() {
    let mut store = Store::new();
    let data = snapshot(vec![
        playlist("p2", "Second", &["b"]),
        playlist("p1", "First", &["a", "c"]),
        playlist("p3", "Third", &[]),
    ]);
    assert_eq!(save_user_data(&mut store, "alice", data.clone()), Ok(()));
    let back = get_user_data(&mut store, "alice");
    assert!(back.same_as(&data));
    let ids: Vec<&str> = back.playlists.iter().map(|p| p.id.as_str()).collect();
    assert_eq!(ids, vec!["p2", "p1", "p3"]);
}

#[test]
fn save_replaces_and_does_not_merge() {
    let mut store = Store::new();
    let first = snapshot(vec![playlist("p1", "One", &["a"]), playlist("p2", "Two", &["b"])]);
    assert_eq!(save_user_data(&mut store, "alice", first), Ok(()));
    let second = snapshot(vec![playlist("p9", "Nine", &["z"])]);
    assert_eq!(save_user_data(&mut store, "alice", second.clone()), Ok(()));
    let back = get_user_data(&mut store, "alice");
    assert!(back.same_as(&second));
}

#[test]
fn save_of_no_playlists_clears_them() {
    let mut store = Store::new();
    let first = snapshot(vec![playlist("p1", "One", &["a"]), playlist("p2", "Two", &["b"])]);
    assert_eq!(save_user_data(&mut store, "alice", first), Ok(()));
    assert_eq!(get_user_data(&mut store, "alice").playlists.len(), 2);
    assert_eq!(save_user_data(&mut store, "alice", snapshot(vec![])), Ok(()));
    assert_eq!(get_user_data(&mut store, "alice").playlists.len(), 0);
}

#[test]
fn save_with_a_repeated_id_fails_and_changes_nothing() {
    let mut store = Store::new();
    let first = snapshot(vec![playlist("p1", "One", &["a"])]);
    assert_eq!(save_user_data(&mut store, "alice", first.clone()), Ok(()));
    let bad = snapshot(vec![playlist("p7", "A", &[]), playlist("p7", "B", &[])]);
    let r = save_user_data(&mut store, "alice", bad);
    assert_eq!(r, Err(StoreError::DuplicatePlaylist));
    assert_eq!(r.unwrap_err().kind(), ErrorKind::StorageFault);
    assert!(get_user_data(&mut store, "alice").same_as(&first));
}

#[test]
fn saved_playlists_are_the_users_own() {
    let mut store = Store::new();
    assert_eq!(save_user_data(&mut store, "alice", snapshot(vec![playlist("p1", "One", &[])])), Ok(()));
    let record = store.tenant("alice").unwrap();
    assert_eq!(record.playlists.len(), 1);
    assert!(!record.playlists[0].is_default);
    assert!(record.playlists[0].can_delete);
}

#[test]
fn first_load_clones_the_template() {
    let mut store = store_with_template();
    let data = get_user_data(&mut store, "alice");
    let ids: Vec<&str> = data.playlists.iter().map(|p| p.id.as_str()).collect();
    assert_eq!(ids, vec!["p1", "p2"]);
    assert_eq!(data.playlists[0].videos, vec!["v1".to_string(), "v2".to_string()]);
    assert_eq!(data.color_order, vec!["red".to_string(), "blue".to_string()]);
    assert_eq!(data.playlist_tabs.len(), 1);
    assert_eq!(data.playlist_tabs[0].name, "All");
    assert!(data.custom_colors.same_as(&Json::Object(vec![(
        "red".to_string(),
        Json::Str("Rock".to_string())
    )])));

    let alice = store.tenant("alice").unwrap();
    assert_eq!(alice.playlists.len(), 2);
    for p in alice.playlists.iter() {
        assert!(p.can_delete);
        assert!(!p.is_default);
    }
    let template = store.tenant("default").unwrap();
    assert_eq!(template.playlists.len(), 2);
    for p in template.playlists.iter() {
        assert!(!p.can_delete);
        assert!(p.is_default);
    }
}

#[test]
fn second_load_returns_the_same_and_stores_nothing_more() {
    let mut store = store_with_template();
    let first = get_user_data(&mut store, "alice");
    let users = store.tenants().len();
    let second = get_user_data(&mut store, "alice");
    assert!(first.same_as(&second));
    assert_eq!(store.tenants().len(), users);
}

#[test]
fn a_save_of_one_user_leaves_the_others_alone() {
    let mut store = store_with_template();
    let bob = get_user_data(&mut store, "bob");
    assert_eq!(save_user_data(&mut store, "alice", snapshot(vec![playlist("x", "X", &[])])), Ok(()));
    assert!(get_user_data(&mut store, "bob").same_as(&bob));
    assert_eq!(get_user_data(&mut store, "default").playlists.len(), 2);
}

#[test]
fn the_check_after_a_save_reports_a_mismatch() {
    assert_eq!(verify_saved(3, 3), Ok(()));
    assert_eq!(verify_saved(3, 0), Err(StoreError::SaveMismatch { expected: 3, found: 0 }));
    assert_eq!(verify_saved(3, 2), Err(StoreError::SaveMismatch { expected: 3, found: 2 }));
    assert_eq!(verify_saved(0, 0), Ok(()));
    assert_eq!(verify_saved(0, 4), Ok(()));
    assert_eq!(
        StoreError::SaveMismatch { expected: 3, found: 0 }.kind(),
        ErrorKind::StorageFault
    );
}

#[test]
fn a_store_is_made_of_parts_only_where_they_fit() {
    let mut store = store_with_template();
    let _ = get_user_data(&mut store, "alice");
    let tenants: Vec<_> = store.tenants().iter().map(|t| t.clone()).collect();
    let rebuilt = Store::from_parts(tenants.clone(), vec![]).unwrap();
    assert_eq!(rebuilt.tenants().len(), 2);

    let mut twice = tenants.clone();
    twice.push(tenants[1].clone());
    assert!(Store::from_parts(twice, vec![]).is_none());

    let mut flagged = tenants.clone();
    flagged[1].playlists[0].is_default = true;
    flagged[1].playlists[0].can_delete = false;
    assert!(Store::from_parts(flagged, vec![]).is_none());

    let mut undeletable = tenants;
    undeletable[1].playlists[0].can_delete = false;
    assert!(Store::from_parts(undeletable, vec![]).is_none());
}
