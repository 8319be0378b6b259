use playlist_store::account::{get_user_data, save_user_data};
use playlist_store::bootstrap::{
    check_default_channels, default_count, first_seed, force_initialize_default_channels,
    initialize_default_channels, read_seed_playlist, search_order, DefaultsStatus, SeedLocation,
    SeedOutcome,
};
use playlist_store::columns::document_from_column;
use playlist_store::error::{ErrorKind, StoreError};
use playlist_store::json::Json;
use playlist_store::model::UserData;
use playlist_store::store::Store;

const SEED: &str = r#"{
    "customColors": {"red": "Rock"},
    "colorOrder": ["red", "blue"],
    "playlistTabs": [{"name": "All", "playlistIds": ["p1"]}],
    "videoProgress": {"v1": 3},
    "playlists": [
        {"id": "p1", "name": "One", "videos": ["v1"], "groups": {"g": []}, "starred": ["v1"],
         "category": "c", "isConvertedFromColoredFolder": true, "representativeVideoId": "v1"},
        "not a playlist",
        {"id": "p2"}
    ]
}"#;

#[test]
fn the_template_is_stored_from_the_seed() {
    let mut store = Store::new();
    let seed = document_from_column(SEED);
    assert_eq!(initialize_default_channels(&mut store, Some(&seed)), Ok(SeedOutcome::Loaded(2)));
    let template = store.tenant("default").unwrap();
    assert_eq!(template.color_order, vec!["red".to_string(), "blue".to_string()]);
    assert_eq!(template.playlist_tabs.len(), 1);
    assert!(template.video_progress.same_as(&Json::Object(vec![("v1".to_string(), Json::Int(3))])));
    assert_eq!(template.playlists.len(), 2);
    let one = &template.playlists[0];
    assert!(one.is_default && !one.can_delete);
    assert_eq!(one.playlist.name, "One");
    assert_eq!(one.playlist.category, Some("c".to_string()));
    assert!(one.playlist.is_converted_from_colored_folder);
    assert_eq!(one.playlist.representative_video_id, Some("v1".to_string()));
    let two = &template.playlists[1];
    assert!(two.is_default && !two.can_delete);
    assert_eq!(two.playlist.id, "p2");
    assert_eq!(two.playlist.name, "");
    assert!(two.playlist.videos.is_empty());
    assert!(two.playlist.groups.same_as(&Json::Object(vec![])));
    assert_eq!(default_count(&store), 2);
}

#[test]
fn a_second_bootstrap_does_nothing() {
    let mut store = Store::new();
    let seed = document_from_column(SEED);
    assert_eq!(initialize_default_channels(&mut store, Some(&seed)), Ok(SeedOutcome::Loaded(2)));
    let other = document_from_column(r#"{"playlists":[{"id":"q"}],"colorOrder":["green"]}"#);
    assert_eq!(initialize_default_channels(&mut store, Some(&other)), Ok(SeedOutcome::AlreadyLoaded));
    assert_eq!(initialize_default_channels(&mut store, None), Ok(SeedOutcome::AlreadyLoaded));
    let template = store.tenant("default").unwrap();
    assert_eq!(template.playlists.len(), 2);
    assert_eq!(template.color_order.len(), 2);
}

#[test]
fn without_a_seed_the_store_works_without_a_template() {
    let mut store = Store::new();
    assert_eq!(initialize_default_channels(&mut store, None), Ok(SeedOutcome::SeedMissing));
    assert!(store.tenants().is_empty());
    assert!(get_user_data(&mut store, "alice").playlists.is_empty());
    assert_eq!(StoreError::SeedMissing.kind(), ErrorKind::ExternalResourceMissing);
}

#[test]
fn a_seed_without_playlists_stores_the_template_alone() {
    let mut store = Store::new();
    let seed = document_from_column(r#"{"colorOrder":["red"]}"#);
    assert_eq!(initialize_default_channels(&mut store, Some(&seed)), Ok(SeedOutcome::Loaded(0)));
    let template = store.tenant("default").unwrap();
    assert!(template.playlists.is_empty());
    assert_eq!(template.color_order, vec!["red".to_string()]);
    assert!(template.custom_colors.same_as(&Json::Object(vec![])));
    assert_eq!(
        check_default_channels(&store),
        DefaultsStatus { default_playlists: 0, template_exists: true }
    );
}

#[test]
fn a_seed_with_a_repeated_id_fails_and_stores_nothing() {
    let mut store = Store::new();
    let seed = document_from_column(r#"{"playlists":[{"id":"p"},{"id":"q"},{"id":"p"}]}"#);
    assert_eq!(
        initialize_default_channels(&mut store, Some(&seed)),
        Err(StoreError::DuplicatePlaylist)
    );
    assert!(store.tenants().is_empty());
}

#[test]
fn an_existing_template_record_keeps_its_preferences() {
    let mut store = Store::new();
    let mine = UserData {
        playlists: vec![],
        playlist_tabs: vec![],
        custom_colors: Json::Object(vec![]),
        color_order: vec!["mine".to_string()],
        video_progress: Json::Object(vec![]),
    };
    assert_eq!(save_user_data(&mut store, "default", mine), Ok(()));
    let seed = document_from_column(SEED);
    assert_eq!(initialize_default_channels(&mut store, Some(&seed)), Ok(SeedOutcome::Loaded(2)));
    let template = store.tenant("default").unwrap();
    assert_eq!(template.color_order, vec!["mine".to_string()]);
    assert_eq!(template.playlists.len(), 2);
}

#[test]
fn tabs_of_a_seed_count_only_where_all_of_them_can_be_read() {
    let mut store = Store::new();
    let seed = document_from_column(
        r#"{"playlistTabs":[{"name":"A","playlistIds":[]},{"name":"B"}],"colorOrder":"red"}"#,
    );
    assert_eq!(initialize_default_channels(&mut store, Some(&seed)), Ok(SeedOutcome::Loaded(0)));
    let template = store.tenant("default").unwrap();
    assert!(template.playlist_tabs.is_empty());
    assert!(template.color_order.is_empty());
}

#[test]
fn items_of_a_seed_are_read_leniently() {
    assert!(read_seed_playlist(&Json::Int(1)).is_none());
    assert!(read_seed_playlist(&Json::Array(vec![])).is_none());
    let p = read_seed_playlist(&document_from_column(
        r#"{"id":5,"name":"N","videos":["a",1],"starred":"x","category":1,"groups":null,
            "isConvertedFromColoredFolder":"yes"}"#,
    ))
    .unwrap();
    assert_eq!(p.id, "");
    assert_eq!(p.name, "N");
    assert!(p.videos.is_empty());
    assert!(p.starred.is_empty());
    assert_eq!(p.category, None);
    assert!(p.groups.same_as(&Json::Null));
    assert!(!p.is_converted_from_colored_folder);
}

#[test]
fn the_status_of_the_template_is_reported() {
    let mut store = Store::new();
    assert_eq!(
        check_default_channels(&store),
        DefaultsStatus { default_playlists: 0, template_exists: false }
    );
    let seed = document_from_column(SEED);
    let _ = initialize_default_channels(&mut store, Some(&seed));
    assert_eq!(
        check_default_channels(&store),
        DefaultsStatus { default_playlists: 2, template_exists: true }
    );
}

#[test]
fn a_forced_bootstrap_drops_the_template_and_stores_it_anew() {
    let mut store = Store::new();
    let seed = document_from_column(SEED);
    let _ = initialize_default_channels(&mut store, Some(&seed));
    let _ = get_user_data(&mut store, "alice");
    let other = document_from_column(r#"{"playlists":[{"id":"q","name":"Q"}],"colorOrder":["green"]}"#);
    assert_eq!(force_initialize_default_channels(&mut store, Some(&other)), Ok(1));
    let template = store.tenant("default").unwrap();
    assert_eq!(template.playlists.len(), 1);
    assert_eq!(template.playlists[0].playlist.id, "q");
    assert_eq!(template.color_order, vec!["green".to_string()]);
    assert_eq!(get_user_data(&mut store, "alice").playlists.len(), 2);
}

#[test]
fn a_forced_bootstrap_without_a_seed_fails_and_leaves_no_template() {
    let mut store = Store::new();
    let seed = document_from_column(SEED);
    let _ = initialize_default_channels(&mut store, Some(&seed));
    assert_eq!(force_initialize_default_channels(&mut store, None), Err(StoreError::SeedMissing));
    assert!(store.tenant("default").is_none());
    let empty = document_from_column(r#"{"playlists":[]}"#);
    assert_eq!(
        force_initialize_default_channels(&mut store, Some(&empty)),
        Err(StoreError::SeedMissing)
    );
    assert!(store.tenant("default").is_some());
}

#[test]
fn the_search_for_a_seed_goes_in_order() {
    assert_eq!(
        search_order(),
        vec![
            SeedLocation::WorkingDirectory,
            SeedLocation::ResourceDirectory,
            SeedLocation::ExecutableDirectory,
            SeedLocation::ExecutableResources,
            SeedLocation::InstallerResources,
        ]
    );
}

#[test]
fn the_first_candidate_that_is_a_document_wins() {
    let candidates = vec![
        None,
        Some("not json".to_string()),
        Some(r#"{"playlists":[{"id":"a"}]}"#.to_string()),
        Some(r#"{"playlists":[{"id":"b"}]}"#.to_string()),
    ];
    let (place, doc) = first_seed(&candidates).unwrap();
    assert_eq!(place, 2);
    let first = &doc.get("playlists").unwrap().as_array().unwrap()[0];
    assert!(first.get("id").unwrap().same_as(&Json::Str("a".to_string())));
    assert!(first_seed(&vec![None, Some("".to_string())]).is_none());
    assert!(first_seed(&vec![]).is_none());
}
