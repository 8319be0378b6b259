use playlist_store::account::{get_user_data, save_user_data};
use playlist_store::bootstrap::{first_seed, initialize_default_channels, SeedOutcome};
use playlist_store::json::Json;
use playlist_store::model::{Playlist, UserData};
use playlist_store::store::Store;

fn playlist(id: &str, name: &str, videos: &[&str]) -> Playlist {
    Playlist {
        id: id.to_string(),
        name: name.to_string(),
        videos: videos.iter().map(|v| v.to_string()).collect(),
        groups: Json::Object(vec![]),
        starred: vec![],
        category: None,
        description: None,
        thumbnail: None,
        is_converted_from_colored_folder: false,
        representative_video_id: None,
    }
}

fn seeded_store() -> Store {
    let text = r#"{"playlists":[{"id":"p1","name":"Music","videos":["v1","v2"]}]}"#;
    let (place, seed) = first_seed(&vec![None, Some(text.to_string())]).unwrap();
    assert_eq!(place, 1);
    let mut store = Store::new();
    let outcome = initialize_default_channels(&mut store, Some(&seed));
    assert_eq!(outcome, Ok(SeedOutcome::Loaded(1)));
    store
}

#[test]
fn end_to_end_scenario() {
    let mut store = seeded_store();

    let first = get_user_data(&mut store, "alice");
    assert_eq!(first.playlists.len(), 1);
    assert_eq!(first.playlists[0].id, "p1");
    assert_eq!(first.playlists[0].videos, vec!["v1".to_string(), "v2".to_string()]);

    let data = UserData {
        playlists: vec![playlist("p1", "Music", &["v1"]), playlist("p2", "More", &["v3"])],
        playlist_tabs: first.playlist_tabs,
        custom_colors: first.custom_colors,
        color_order: first.color_order,
        video_progress: first.video_progress,
    };
    assert_eq!(save_user_data(&mut store, "alice", data), Ok(()));

    let second = get_user_data(&mut store, "alice");
    assert_eq!(second.playlists.len(), 2);
    assert_eq!(second.playlists[0].id, "p1");
    assert_eq!(second.playlists[0].videos, vec!["v1".to_string()]);
    assert_eq!(second.playlists[1].id, "p2");
    assert_eq!(second.playlists[1].videos, vec!["v3".to_string()]);

    let template = get_user_data(&mut store, "default");
    assert_eq!(template.playlists.len(), 1);
    assert_eq!(template.playlists[0].id, "p1");
    assert_eq!(template.playlists[0].videos, vec!["v1".to_string(), "v2".to_string()]);
}
