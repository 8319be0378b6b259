use playlist_store::account::{get_user_data, save_user_data};
use playlist_store::columns::document_from_column;
use playlist_store::error::{ErrorKind, StoreError};
use playlist_store::json::Json;
use playlist_store::model::{Playlist, PlaylistTab, UserData};
use playlist_store::store::Store;
use playlist_store::transfer::{
    export_playlist, export_tab, export_tab_document, import_playlist_file, import_playlists,
    import_tab, import_tab_file, overwrite_playlist, overwrite_playlist_file, read_candidates,
    read_replacement, ImportSummary, TabImportSummary,
};

fn playlist(id: &str, name: &str, videos: &[&str]) -> Playlist {
    Playlist {
        id: id.to_string(),
        name: name.to_string(),
        videos: videos.iter().map(|v| v.to_string()).collect(),
        groups: Json::Object(vec![]),
        starred: vec![],
        category: None,
        description: None,
        thumbnail: None,
        is_converted_from_colored_folder: false,
        representative_video_id: None,
    }
}

fn store_with(user: &str, playlists: Vec<Playlist>, tabs: Vec<PlaylistTab>) -> Store {
    let mut store = Store::new();
    let data = UserData {
        playlists,
        playlist_tabs: tabs,
        custom_colors: Json::Object(vec![]),
        color_order: vec![],
        video_progress: Json::Object(vec![]),
    };
    assert_eq!(save_user_data(&mut store, user, data), Ok(()));
    store
}

fn text_of(id: &str, name: &str, videos: &str) -> String {
    format!(
        r#"{{"id":"{}","name":"{}","videos":{},"groups":{{}},"starred":[]}}"#,
        id, name, videos
    )
}

#[test]
fn import_skips_an_id_that_exists_and_leaves_the_entry_as_it_is() {
    let mut store = store_with("alice", vec![playlist("p1", "Mine", &["a"])], vec![]);
    let before = get_user_data(&mut store, "alice");
    let r = import_playlist_file(&mut store, "alice", &text_of("p1", "Other", r#"["x","y"]"#));
    assert_eq!(r, Ok(ImportSummary { added: 0, skipped: 1 }));
    let after = get_user_data(&mut store, "alice");
    assert!(after.same_as(&before));
    assert_eq!(after.playlists[0].name, "Mine");
}

#[test]
fn import_adds_each_id_that_was_never_seen() {
    let mut store = store_with("alice", vec![playlist("p1", "Mine", &["a"])], vec![]);
    let text = format!(
        "[{},{},{}]",
        text_of("n1", "N1", "[]"),
        text_of("n2", "N2", r#"["q"]"#),
        text_of("n3", "N3", "[]")
    );
    let r = import_playlist_file(&mut store, "alice", &text);
    assert_eq!(r, Ok(ImportSummary { added: 3, skipped: 0 }));
    let after = get_user_data(&mut store, "alice");
    let ids: Vec<&str> = after.playlists.iter().map(|p| p.id.as_str()).collect();
    assert_eq!(ids, vec!["p1", "n1", "n2", "n3"]);
    assert_eq!(after.playlists[2].videos, vec!["q".to_string()]);
}

#[test]
fn import_counts_added_and_skipped_together() {
    let mut store = store_with(
        "alice",
        vec![playlist("p1", "Mine", &["a"]), playlist("p2", "Too", &[])],
        vec![],
    );
    let text = format!(
        r#"{{"playlists":[{},{},{},{{"id":"broken"}}]}}"#,
        text_of("p2", "Other", "[]"),
        text_of("n1", "N1", "[]"),
        text_of("p1", "Other", "[]")
    );
    let r = import_playlist_file(&mut store, "alice", &text);
    assert_eq!(r, Ok(ImportSummary { added: 1, skipped: 2 }));
    let after = get_user_data(&mut store, "alice");
    let names: Vec<&str> = after.playlists.iter().map(|p| p.name.as_str()).collect();
    assert_eq!(names, vec!["Mine", "Too", "N1"]);
}

#[test]
fn import_of_two_new_playlists_with_one_id_fails_in_the_save() {
    let mut store = store_with("alice", vec![playlist("p1", "Mine", &["a"])], vec![]);
    let before = get_user_data(&mut store, "alice");
    let text = format!("[{},{}]", text_of("n1", "A", "[]"), text_of("n1", "B", "[]"));
    let r = import_playlist_file(&mut store, "alice", &text);
    assert_eq!(r, Err(StoreError::DuplicatePlaylist));
    assert!(get_user_data(&mut store, "alice").same_as(&before));
}

#[test]
fn import_refuses_what_is_no_json() {
    let mut store = Store::new();
    let r = import_playlist_file(&mut store, "alice", "{not json");
    assert_eq!(r, Err(StoreError::InvalidJson));
    assert_eq!(r.unwrap_err().kind(), ErrorKind::Validation);
    assert!(store.tenants().is_empty());
}

#[test]
fn import_refuses_a_document_of_no_known_shape() {
    let mut store = Store::new();
    assert_eq!(import_playlist_file(&mut store, "alice", "42"), Err(StoreError::UnknownShape));
    assert_eq!(
        import_playlist_file(&mut store, "alice", r#"{"name":"x"}"#),
        Err(StoreError::UnknownShape)
    );
    assert_eq!(
        import_playlist_file(&mut store, "alice", r#"{"playlists":"none"}"#),
        Err(StoreError::UnknownShape)
    );
}

#[test]
fn import_refuses_a_document_without_a_readable_playlist() {
    let mut store = Store::new();
    assert_eq!(import_playlist_file(&mut store, "alice", "[]"), Err(StoreError::NoPlaylists));
    assert_eq!(
        import_playlist_file(&mut store, "alice", r#"[{"id":"p"},17]"#),
        Err(StoreError::NoPlaylists)
    );
    assert_eq!(
        import_playlist_file(&mut store, "alice", r#"{"playlists":[]}"#),
        Err(StoreError::NoPlaylists)
    );
    assert!(store.tenants().is_empty());
}

#[test]
fn import_refuses_a_single_playlist_that_cannot_be_read() {
    let mut store = Store::new();
    assert_eq!(
        import_playlist_file(&mut store, "alice", r#"{"id":"p1","name":"x"}"#),
        Err(StoreError::InvalidPlaylist)
    );
    assert_eq!(
        import_playlist_file(
            &mut store,
            "alice",
            r#"{"id":"p1","name":"x","videos":[1],"groups":{},"starred":[]}"#
        ),
        Err(StoreError::InvalidPlaylist)
    );
    assert_eq!(
        import_playlist_file(
            &mut store,
            "alice",
            r#"{"id":"p1","name":"x","videos":[],"groups":{},"starred":[],"category":5}"#
        ),
        Err(StoreError::InvalidPlaylist)
    );
}

#[test]
fn an_object_with_an_id_is_one_playlist_even_with_a_list_in_it() {
    let doc = document_from_column(
        r#"{"id":"p1","name":"x","videos":[],"groups":null,"starred":[],
            "playlists":[{"id":"p2","name":"y","videos":[],"groups":{},"starred":[]}]}"#,
    );
    let candidates = read_candidates(&doc).unwrap();
    assert_eq!(candidates.len(), 1);
    assert_eq!(candidates[0].id, "p1");
    assert!(candidates[0].groups.same_as(&Json::Null));
    assert_eq!(read_replacement(&doc).unwrap().id, "p1");
}

#[test]
fn optional_members_of_a_playlist_are_read_or_filled_in() {
    let doc = document_from_column(
        r#"{"id":"p1","name":"x","videos":["a"],"groups":{"k":[1,2.5]},"starred":["a"],
            "category":"c","description":null,"isConvertedFromColoredFolder":true,
            "representativeVideoId":"a","extra":1}"#,
    );
    let p = read_candidates(&doc).unwrap().remove(0);
    assert_eq!(p.category, Some("c".to_string()));
    assert_eq!(p.description, None);
    assert_eq!(p.thumbnail, None);
    assert!(p.is_converted_from_colored_folder);
    assert_eq!(p.representative_video_id, Some("a".to_string()));
    assert!(p.groups.same_as(&Json::Object(vec![(
        "k".to_string(),
        Json::Array(vec![Json::Int(1), Json::Number("2.5".to_string())])
    )])));

    let bare = document_from_column(r#"{"id":"p","name":"n","videos":[],"groups":{},"starred":[]}"#);
    let q = read_candidates(&bare).unwrap().remove(0);
    assert!(!q.is_converted_from_colored_folder);
    assert_eq!(q.representative_video_id, None);
}

#[test]
fn import_gives_a_new_user_the_template_first() {
    let mut store = store_with("default", vec![playlist("t1", "Template", &["v"])], vec![]);
    let r = import_playlists(
        &mut store,
        "alice",
        &document_from_column(&text_of("n1", "New", "[]")),
    );
    assert_eq!(r, Ok(ImportSummary { added: 1, skipped: 0 }));
    let ids: Vec<String> =
        get_user_data(&mut store, "alice").playlists.iter().map(|p| p.id.clone()).collect();
    assert_eq!(ids, vec!["t1".to_string(), "n1".to_string()]);
}

#[test]
fn overwrite_of_a_missing_id_fails_and_changes_nothing() {
    let mut store = store_with("alice", vec![playlist("p1", "Mine", &["a"])], vec![]);
    let before = get_user_data(&mut store, "alice");
    let r = overwrite_playlist_file(
        &mut store,
        "alice",
        "missing-id",
        &text_of("p1", "Other", "[]"),
    );
    assert_eq!(r, Err(StoreError::PlaylistNotFound));
    assert_eq!(r.unwrap_err().kind(), ErrorKind::NotFound);
    assert!(get_user_data(&mut store, "alice").same_as(&before));
}

#[test]
fn overwrite_replaces_in_place_and_keeps_the_id() {
    let mut store = store_with(
        "alice",
        vec![playlist("p1", "One", &["a"]), playlist("p2", "Two", &["b"]), playlist("p3", "Three", &[])],
        vec![],
    );
    let r = overwrite_playlist_file(
        &mut store,
        "alice",
        "p2",
        &text_of("elsewhere", "Fresh", r#"["x","y"]"#),
    );
    assert_eq!(r, Ok("Fresh".to_string()));
    let after = get_user_data(&mut store, "alice");
    let ids: Vec<&str> = after.playlists.iter().map(|p| p.id.as_str()).collect();
    assert_eq!(ids, vec!["p1", "p2", "p3"]);
    assert_eq!(after.playlists[1].name, "Fresh");
    assert_eq!(after.playlists[1].videos, vec!["x".to_string(), "y".to_string()]);
    assert_eq!(after.playlists[0].name, "One");
    assert_eq!(after.playlists[2].name, "Three");
}

#[test]
fn overwrite_takes_the_first_playlist_of_a_list() {
    let mut store = store_with("alice", vec![playlist("p1", "One", &["a"])], vec![]);
    let text = format!(
        r#"{{"playlists":[{},{}]}}"#,
        text_of("a", "First", "[]"),
        text_of("b", "Second", "[]")
    );
    assert_eq!(overwrite_playlist_file(&mut store, "alice", "p1", &text), Ok("First".to_string()));
    assert_eq!(get_user_data(&mut store, "alice").playlists[0].name, "First");
}

#[test]
fn overwrite_refuses_documents_that_offer_no_playlist() {
    let mut store = store_with("alice", vec![playlist("p1", "One", &["a"])], vec![]);
    assert_eq!(
        overwrite_playlist_file(&mut store, "alice", "p1", "nope"),
        Err(StoreError::InvalidJson)
    );
    assert_eq!(
        overwrite_playlist_file(&mut store, "alice", "p1", r#"{"playlists":[]}"#),
        Err(StoreError::NoPlaylists)
    );
    assert_eq!(
        overwrite_playlist_file(&mut store, "alice", "p1", r#"{"playlists":[3]}"#),
        Err(StoreError::InvalidPlaylist)
    );
    let bare_array = format!("[{}]", text_of("a", "A", "[]"));
    assert_eq!(
        overwrite_playlist_file(&mut store, "alice", "p1", &bare_array),
        Err(StoreError::UnknownShape)
    );
    assert_eq!(
        overwrite_playlist(&mut store, "alice", "p1", &Json::Int(3)),
        Err(StoreError::UnknownShape)
    );
    assert_eq!(get_user_data(&mut store, "alice").playlists[0].name, "One");
}

fn tabbed_store() -> Store {
    store_with(
        "alice",
        vec![playlist("p1", "One", &["a"]), playlist("p2", "Two", &["b"]), playlist("p3", "Three", &[])],
        vec![
            PlaylistTab { name: "First".to_string(), playlist_ids: vec!["p3".to_string(), "p1".to_string(), "gone".to_string()] },
            PlaylistTab { name: "Empty".to_string(), playlist_ids: vec![] },
        ],
    )
}

#[test]
fn export_of_a_tab_out_of_range_fails() {
    let mut store = tabbed_store();
    let r = export_tab(&mut store, "alice", 2);
    assert_eq!(r, Err(StoreError::TabOutOfRange { index: 2, count: 2 }));
    assert_eq!(r.unwrap_err().kind(), ErrorKind::NotFound);
    let data = get_user_data(&mut store, "alice");
    assert!(export_tab_document(&data, 7).is_err());
}

#[test]
fn export_of_a_tab_holds_the_tab_and_its_playlists_in_the_users_order() {
    let mut store = tabbed_store();
    let text = export_tab(&mut store, "alice", 0).unwrap();
    assert!(text.contains('\n'));
    let doc = document_from_column(&text);
    let tab = doc.get("tab").unwrap();
    assert!(tab.get("name").unwrap().same_as(&Json::Str("First".to_string())));
    assert_eq!(
        tab.get("playlistIds").unwrap().all_strings().unwrap(),
        vec!["p3".to_string(), "p1".to_string(), "gone".to_string()]
    );
    let playlists = doc.get("playlists").unwrap().as_array().unwrap();
    assert_eq!(playlists.len(), 2);
    assert!(playlists[0].get("id").unwrap().same_as(&Json::Str("p1".to_string())));
    assert!(playlists[1].get("id").unwrap().same_as(&Json::Str("p3".to_string())));
    assert!(playlists[0].get("category").unwrap().same_as(&Json::Null));

    let empty = document_from_column(&export_tab(&mut store, "alice", 1).unwrap());
    assert_eq!(empty.get("playlists").unwrap().as_array().unwrap().len(), 0);
}

#[test]
fn an_exported_tab_can_be_imported_by_another_user() {
    let mut store = tabbed_store();
    let text = export_tab(&mut store, "alice", 0).unwrap();
    let r = import_tab_file(&mut store, "bob", &text);
    assert_eq!(r, Ok(TabImportSummary { added: 2, updated: 0 }));
    let bob = get_user_data(&mut store, "bob");
    assert_eq!(bob.playlist_tabs.len(), 1);
    assert_eq!(bob.playlist_tabs[0].name, "First");
    let alice = get_user_data(&mut store, "alice");
    assert!(bob.playlists[0].same_as(&alice.playlists[0]));
    assert!(bob.playlists[1].same_as(&alice.playlists[2]));
}

#[test]
fn import_of_a_tab_updates_adds_and_appends_the_tab() {
    let mut store = tabbed_store();
    let text = format!(
        r#"{{"tab":{{"name":"First","playlistIds":["p2","n1",5]}},"playlists":[{},{},{}]}}"#,
        text_of("p2", "Two again", r#"["z"]"#),
        text_of("n1", "New", "[]"),
        text_of("n1", "Newer", "[]")
    );
    let r = import_tab_file(&mut store, "alice", &text);
    assert_eq!(r, Ok(TabImportSummary { added: 1, updated: 2 }));
    let after = get_user_data(&mut store, "alice");
    let names: Vec<&str> = after.playlists.iter().map(|p| p.name.as_str()).collect();
    assert_eq!(names, vec!["One", "Two again", "Three", "Newer"]);
    assert_eq!(after.playlist_tabs.len(), 3);
    assert_eq!(after.playlist_tabs[0].name, "First");
    assert_eq!(after.playlist_tabs[2].name, "First");
    assert_eq!(after.playlist_tabs[2].playlist_ids, vec!["p2".to_string(), "n1".to_string()]);
}

#[test]
fn import_of_a_tab_refuses_what_lacks_a_tab_a_name_or_playlists() {
    let mut store = tabbed_store();
    let before = get_user_data(&mut store, "alice");
    let one = text_of("n1", "New", "[]");
    assert_eq!(import_tab_file(&mut store, "alice", "]"), Err(StoreError::InvalidJson));
    assert_eq!(
        import_tab_file(&mut store, "alice", &format!(r#"{{"playlists":[{}]}}"#, one)),
        Err(StoreError::MissingTab)
    );
    assert_eq!(
        import_tab_file(&mut store, "alice", &format!(r#"{{"tab":{{"name":3}},"playlists":[{}]}}"#, one)),
        Err(StoreError::MissingTabName)
    );
    assert_eq!(
        import_tab_file(&mut store, "alice", &format!(r#"{{"tab":"x","playlists":[{}]}}"#, one)),
        Err(StoreError::MissingTabName)
    );
    assert_eq!(
        import_tab_file(&mut store, "alice", r#"{"tab":{"name":"T"},"playlists":[1,2]}"#),
        Err(StoreError::NoPlaylists)
    );
    assert_eq!(
        import_tab(&mut store, "alice", &document_from_column(r#"{"tab":{"name":"T"}}"#)),
        Err(StoreError::NoPlaylists)
    );
    assert!(get_user_data(&mut store, "alice").same_as(&before));
}

#[test]
fn import_of_a_tab_without_ids_refers_to_no_playlist() {
    let mut store = Store::new();
    let text = format!(r#"{{"tab":{{"name":"T"}},"playlists":[{}]}}"#, text_of("n1", "New", "[]"));
    assert_eq!(
        import_tab_file(&mut store, "alice", &text),
        Ok(TabImportSummary { added: 1, updated: 0 })
    );
    let after = get_user_data(&mut store, "alice");
    assert_eq!(after.playlist_tabs.len(), 1);
    assert!(after.playlist_tabs[0].playlist_ids.is_empty());
}

#[test]
fn export_of_a_playlist_writes_every_member() {
    let mut p = playlist("p1", "One", &["a", "b"]);
    p.category = Some("c".to_string());
    p.is_converted_from_colored_folder = true;
    let store = store_with("alice", vec![p.clone()], vec![]);
    let text = export_playlist(&store, "alice", "p1").unwrap();
    let doc = document_from_column(&text);
    let back = read_candidates(&doc).unwrap().remove(0);
    assert!(back.same_as(&p));
    assert!(doc.get("description").unwrap().same_as(&Json::Null));
    assert!(doc.get("representativeVideoId").unwrap().same_as(&Json::Null));
    assert!(doc.get("isConvertedFromColoredFolder").unwrap().same_as(&Json::Bool(true)));
}

#[test]
fn export_of_a_playlist_that_is_not_there_fails_and_provisions_nobody() {
    let store = store_with("default", vec![playlist("t1", "T", &[])], vec![]);
    assert_eq!(export_playlist(&store, "alice", "t1"), Err(StoreError::PlaylistNotFound));
    assert_eq!(export_playlist(&store, "default", "zz"), Err(StoreError::PlaylistNotFound));
    assert!(export_playlist(&store, "default", "t1").is_ok());
    assert!(store.tenant("alice").is_none());
}
