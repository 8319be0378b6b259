use playlist_store::account::{get_user_data, save_user_data};
use playlist_store::columns::document_from_column;
use playlist_store::json::Json;
use playlist_store::model::{Playlist, UserData};
use playlist_store::progress::save_video_progress;
use playlist_store::store::Store;

fn one_playlist() -> Playlist {
    Playlist {
        id: "p1".to_string(),
        name: "One".to_string(),
        videos: vec![],
        groups: Json::Object(vec![]),
        starred: vec![],
        category: None,
        description: None,
        thumbnail: None,
        is_converted_from_colored_folder: false,
        representative_video_id: None,
    }
}

fn store_with_progress(progress: &str) -> Store {
    let mut store = Store::new();
    let data = UserData {
        playlists: vec![one_playlist()],
        playlist_tabs: vec![],
        custom_colors: Json::Object(vec![]),
        color_order: vec!["red".to_string()],
        video_progress: document_from_column(progress),
    };
    assert_eq!(save_user_data(&mut store, "alice", data), Ok(()));
    store
}

#[test]
fn new_progress_overwrites_matching_videos_and_drops_none() {
    let mut store = store_with_progress(r#"{"v1":10,"v2":20}"#);
    save_video_progress(&mut store, "alice", &document_from_column(r#"{"v2":25,"v3":{"at":1}}"#));
    let data = get_user_data(&mut store, "alice");
    let p = &data.video_progress;
    assert!(p.get("v1").unwrap().same_as(&Json::Int(10)));
    assert!(p.get("v2").unwrap().same_as(&Json::Int(25)));
    assert!(p.get("v3").unwrap().same_as(&Json::Object(vec![("at".to_string(), Json::Int(1))])));
    assert_eq!(p.as_object().unwrap().len(), 3);
    assert_eq!(data.playlists.len(), 1);
    assert_eq!(data.color_order, vec!["red".to_string()]);
}

#[test]
fn an_update_that_is_no_object_changes_no_progress() {
    let mut store = store_with_progress(r#"{"v1":10}"#);
    save_video_progress(&mut store, "alice", &Json::Array(vec![Json::Int(1)]));
    let p = get_user_data(&mut store, "alice").video_progress;
    assert!(p.same_as(&Json::Object(vec![("v1".to_string(), Json::Int(10))])));
}

#[test]
fn progress_that_is_no_object_counts_as_empty() {
    let mut store = store_with_progress("[1,2]");
    save_video_progress(&mut store, "alice", &document_from_column(r#"{"v9":1}"#));
    let p = get_user_data(&mut store, "alice").video_progress;
    assert!(p.same_as(&Json::Object(vec![("v9".to_string(), Json::Int(1))])));
}

#[test]
fn progress_of_an_unknown_user_makes_a_record_and_no_copy_of_the_template() {
    let mut store = Store::new();
    let template = UserData {
        playlists: vec![one_playlist()],
        playlist_tabs: vec![],
        custom_colors: Json::Object(vec![]),
        color_order: vec![],
        video_progress: Json::Object(vec![]),
    };
    assert_eq!(save_user_data(&mut store, "default", template), Ok(()));
    save_video_progress(&mut store, "bob", &document_from_column(r#"{"v1":5}"#));
    let bob = get_user_data(&mut store, "bob");
    assert!(bob.playlists.is_empty());
    assert!(bob.custom_colors.same_as(&Json::Object(vec![])));
    assert!(bob.video_progress.same_as(&Json::Object(vec![("v1".to_string(), Json::Int(5))])));
}

#[test]
fn a_merge_writes_over_the_member_that_is_read() {
    let current = Json::Object(vec![
        ("a".to_string(), Json::Int(1)),
        ("b".to_string(), Json::Int(2)),
        ("a".to_string(), Json::Int(3)),
    ]);
    let update = Json::Object(vec![
        ("a".to_string(), Json::Int(9)),
        ("c".to_string(), Json::Null),
        ("c".to_string(), Json::Bool(true)),
    ]);
    let merged = Json::merge(&current, &update);
    assert!(merged.same_as(&Json::Object(vec![
        ("a".to_string(), Json::Int(1)),
        ("b".to_string(), Json::Int(2)),
        ("a".to_string(), Json::Int(9)),
        ("c".to_string(), Json::Bool(true)),
    ])));
    assert!(merged.get("a").unwrap().same_as(&Json::Int(9)));
    assert!(Json::merge(&Json::Null, &Json::Int(1)).same_as(&Json::Object(vec![])));
}
