use playlist_store::columns::{
    document_from_column, document_to_column, tabs_from_column, tabs_to_column, texts_from_column,
    texts_to_column,
};
use playlist_store::config::{get_db_path, set_resource_dir, Config};
use playlist_store::error::{ErrorKind, StoreError};
use playlist_store::format::{
    decode_playlist, decode_tab, decode_tabs, default_false, default_video_progress,
    encode_playlist, encode_tab,
};
use playlist_store::json::Json;
use playlist_store::model::{Playlist, PlaylistTab};

#[test]
fn a_document_is_read_from_text_kind_by_kind() {
    let doc = document_from_column(
        r#"{"s":"text","t":true,"n":null,"i":-12,"u":18446744073709551615,"f":1.5,"a":[1,"x",[]],"o":{"k":{}}}"#,
    );
    assert!(doc.is_object());
    assert!(doc.get("s").unwrap().same_as(&Json::Str("text".to_string())));
    assert_eq!(doc.get("t").unwrap().as_bool(), Some(true));
    assert!(doc.get("n").unwrap().is_null());
    assert_eq!(doc.get("i").unwrap().as_i64(), Some(-12));
    assert!(doc.get("u").unwrap().same_as(&Json::Number("18446744073709551615".to_string())));
    assert_eq!(doc.get("u").unwrap().as_i64(), None);
    assert!(doc.get("f").unwrap().same_as(&Json::Number("1.5".to_string())));
    assert_eq!(doc.get("a").unwrap().as_array().unwrap().len(), 3);
    assert!(doc.get("o").unwrap().get("k").unwrap().same_as(&Json::Object(vec![])));
    assert!(doc.get("missing").is_none());
    assert!(doc.get("s").unwrap().get("x").is_none());
    assert_eq!(doc.get("s").unwrap().as_i64(), None);
    assert!(doc.get("a").unwrap().as_str().is_none());
}

#[test]
fn a_column_that_holds_no_document_reads_as_empty() {
    assert!(document_from_column("").same_as(&Json::Object(vec![])));
    assert!(document_from_column("{oops").same_as(&Json::Object(vec![])));
    assert!(document_from_column("null").same_as(&Json::Null));
    assert!(texts_from_column("").is_empty());
    assert!(texts_from_column(r#"["a",1]"#).is_empty());
    assert!(texts_from_column(r#"{"a":1}"#).is_empty());
    assert_eq!(texts_from_column(r#"["a","b"]"#), vec!["a".to_string(), "b".to_string()]);
    assert!(tabs_from_column("").is_empty());
    assert!(tabs_from_column(r#"[{"name":"A"}]"#).is_empty());
    let tabs = tabs_from_column(r#"[{"name":"A","playlistIds":["p"],"more":1},{"name":"B","playlistIds":[]}]"#);
    assert_eq!(tabs.len(), 2);
    assert_eq!(tabs[0].playlist_ids, vec!["p".to_string()]);
    assert_eq!(tabs[1].name, "B");
}

#[test]
fn what_is_written_to_a_column_is_read_back() {
    let doc = Json::Object(vec![
        ("b".to_string(), Json::Array(vec![Json::Int(1), Json::Null, Json::Bool(false)])),
        ("a".to_string(), Json::Number("2.5".to_string())),
        ("c".to_string(), Json::Str("\"quoted\"\n".to_string())),
    ]);
    let text = document_to_column(&doc).unwrap();
    assert_eq!(text, r#"{"a":2.5,"b":[1,null,false],"c":"\"quoted\"\n"}"#);
    let back = document_from_column(&text);
    assert!(back.get("a").unwrap().same_as(doc.get("a").unwrap()));
    assert!(back.get("b").unwrap().same_as(doc.get("b").unwrap()));
    assert!(back.get("c").unwrap().same_as(doc.get("c").unwrap()));

    let texts = vec!["x".to_string(), "y z".to_string()];
    assert_eq!(texts_to_column(&texts), Ok(r#"["x","y z"]"#.to_string()));
    assert_eq!(texts_from_column(&texts_to_column(&texts).unwrap()), texts);

    let tabs = vec![PlaylistTab { name: "T".to_string(), playlist_ids: vec!["p".to_string()] }];
    let column = tabs_to_column(&tabs).unwrap();
    assert_eq!(column, r#"[{"name":"T","playlistIds":["p"]}]"#);
    let read = tabs_from_column(&column);
    assert_eq!(read.len(), 1);
    assert!(read[0].same_as(&tabs[0]));
}

#[test]
fn of_two_members_with_one_key_the_later_is_read_and_written() {
    let doc = Json::Object(vec![
        ("k".to_string(), Json::Int(1)),
        ("k".to_string(), Json::Int(2)),
    ]);
    assert!(doc.get("k").unwrap().same_as(&Json::Int(2)));
    assert_eq!(document_to_column(&doc), Ok(r#"{"k":2}"#.to_string()));
    assert_eq!(document_to_column(&Json::Number("not a number".to_string())), Ok("null".to_string()));
    assert_eq!(document_to_column(&Json::Int(i64::MIN)), Ok("-9223372036854775808".to_string()));
}

#[test]
fn documents_are_compared_by_value() {
    let a = document_from_column(r#"{"x":[1,{"y":"z"}]}"#);
    assert!(a.same_as(&a.clone()));
    assert!(a.same_as(&a.duplicate()));
    assert!(!a.same_as(&document_from_column(r#"{"x":[1,{"y":"w"}]}"#)));
    assert!(!a.same_as(&document_from_column(r#"{"x":[1]}"#)));
    assert!(!Json::Int(1).same_as(&Json::Number("1".to_string())));
    assert!(!Json::Null.same_as(&Json::Bool(false)));
    assert!(Json::empty_array().same_as(&Json::Array(vec![])));
    assert!(Json::empty_object().same_as(&Json::Object(vec![])));
    assert!(!Json::empty_object().same_as(&Json::empty_array()));
}

#[test]
fn strings_of_an_array_are_read_strictly_or_leniently() {
    let mixed = document_from_column(r#"["a",1,"b",null]"#);
    assert_eq!(mixed.strings(), Some(vec!["a".to_string(), "b".to_string()]));
    assert_eq!(mixed.all_strings(), None);
    let pure = document_from_column(r#"["a","b"]"#);
    assert_eq!(pure.all_strings(), Some(vec!["a".to_string(), "b".to_string()]));
    assert_eq!(Json::Int(1).strings(), None);
    assert_eq!(Json::empty_array().all_strings(), Some(vec![]));
}

#[test]
fn a_playlist_written_as_a_document_is_read_back() {
    let p = Playlist {
        id: "p1".to_string(),
        name: "One".to_string(),
        videos: vec!["a".to_string(), "b".to_string()],
        groups: document_from_column(r#"{"red":{"name":"R","videos":["a"]}}"#),
        starred: vec!["b".to_string()],
        category: Some("c".to_string()),
        description: None,
        thumbnail: Some("t".to_string()),
        is_converted_from_colored_folder: true,
        representative_video_id: None,
    };
    let doc = encode_playlist(&p);
    let keys: Vec<&str> = doc.as_object().unwrap().iter().map(|m| m.0.as_str()).collect();
    assert_eq!(
        keys,
        vec![
            "id", "name", "videos", "groups", "starred", "category", "description", "thumbnail",
            "isConvertedFromColoredFolder", "representativeVideoId"
        ]
    );
    assert!(decode_playlist(&doc).unwrap().same_as(&p));
    assert!(!decode_playlist(&doc).unwrap().same_as(&Playlist { name: "Two".to_string(), ..p.clone() }));
    assert!(decode_playlist(&Json::Array(vec![])).is_none());
}

#[test]
fn a_tab_written_as_a_document_is_read_back() {
    let t = PlaylistTab { name: "T".to_string(), playlist_ids: vec!["p".to_string(), "q".to_string()] };
    assert!(decode_tab(&encode_tab(&t)).unwrap().same_as(&t));
    assert!(decode_tab(&document_from_column(r#"{"name":"T","playlistIds":[1]}"#)).is_none());
    assert!(decode_tab(&document_from_column(r#"{"playlistIds":[]}"#)).is_none());
    assert!(decode_tabs(&Json::Int(1)).is_none());
    assert_eq!(decode_tabs(&Json::Array(vec![])).unwrap().len(), 0);
    assert!(decode_tabs(&Json::Array(vec![encode_tab(&t), Json::Null])).is_none());
}

#[test]
fn what_a_document_leaves_out_has_a_default() {
    assert!(!default_false());
    assert!(default_video_progress().same_as(&Json::Object(vec![])));
}

#[test]
fn the_resource_directory_is_set_once() {
    let mut config = Config::new();
    assert_eq!(config.resource_dir(), None);
    set_resource_dir(&mut config, Some("/opt/app/resources".to_string()));
    assert_eq!(config.resource_dir(), Some("/opt/app/resources".to_string()));
    set_resource_dir(&mut config, Some("/elsewhere".to_string()));
    assert_eq!(config.resource_dir(), Some("/opt/app/resources".to_string()));
    set_resource_dir(&mut config, None);
    assert_eq!(config.resource_dir(), Some("/opt/app/resources".to_string()));

    let mut unset = Config::new();
    set_resource_dir(&mut unset, None);
    set_resource_dir(&mut unset, Some("/late".to_string()));
    assert_eq!(unset.resource_dir(), None);
}

#[test]
fn the_path_of_the_database_is_resolved_once() {
    let mut config = Config::new();
    assert_eq!(get_db_path(&mut config, None, None), Err(StoreError::NoDataDirectory));
    assert_eq!(StoreError::NoDataDirectory.kind(), ErrorKind::StorageFault);
    assert_eq!(config.database_path(), None);
    assert_eq!(
        get_db_path(&mut config, Some("/env/db".to_string()), Some("/data/db".to_string())),
        Ok("/env/db".to_string())
    );
    assert_eq!(get_db_path(&mut config, None, Some("/data/db".to_string())), Ok("/env/db".to_string()));
    assert_eq!(get_db_path(&mut config, None, None), Ok("/env/db".to_string()));
    assert_eq!(config.database_path(), Some("/env/db".to_string()));

    let mut other = Config::new();
    assert_eq!(get_db_path(&mut other, None, Some("/data/db".to_string())), Ok("/data/db".to_string()));
}

#[test]
fn every_failure_has_its_class() {
    let classes = [
        (StoreError::PlaylistNotFound, ErrorKind::NotFound),
        (StoreError::TabOutOfRange { index: 1, count: 0 }, ErrorKind::NotFound),
        (StoreError::InvalidJson, ErrorKind::Validation),
        (StoreError::UnknownShape, ErrorKind::Validation),
        (StoreError::NoPlaylists, ErrorKind::Validation),
        (StoreError::InvalidPlaylist, ErrorKind::Validation),
        (StoreError::MissingTab, ErrorKind::Validation),
        (StoreError::MissingTabName, ErrorKind::Validation),
        (StoreError::MissingVideoId, ErrorKind::Validation),
        (StoreError::InvalidImageData, ErrorKind::Validation),
        (StoreError::ImageTooLarge, ErrorKind::Validation),
        (StoreError::NoDataDirectory, ErrorKind::StorageFault),
        (StoreError::DuplicatePlaylist, ErrorKind::StorageFault),
        (StoreError::SaveMismatch { expected: 1, found: 0 }, ErrorKind::StorageFault),
        (StoreError::NotRendered, ErrorKind::StorageFault),
        (StoreError::SeedMissing, ErrorKind::ExternalResourceMissing),
    ];
    for (error, class) in classes {
        assert_eq!(error.kind(), class);
    }
}
