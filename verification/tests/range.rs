use playlist_store::range::{get_port_from_listen_addr, parse_number, parse_range};
use playlist_store::server::{
    headers_for_file, plan_response, resolve_request, response_headers, status_code, Refusal,
    ResponsePlan,
};
use playlist_store::text::{decimal_text, has_prefix, has_suffix, hex_text, join, strip_prefix};

#[test]
fn a_range_with_both_ends_is_read() {
    assert_eq!(parse_range("bytes=0-499", 1000), Some((0, 499)));
    assert_eq!(parse_range("bytes=500-999", 1000), Some((500, 999)));
    assert_eq!(parse_range("bytes=7-7", 1000), Some((7, 7)));
}

#[test]
fn a_range_without_an_end_runs_to_the_end_of_the_file() {
    assert_eq!(parse_range("bytes=200-", 1000), Some((200, 999)));
    assert_eq!(parse_range("bytes=0-", 1), Some((0, 0)));
}

#[test]
fn an_end_past_the_file_is_cut_to_its_end() {
    assert_eq!(parse_range("bytes=0-5000", 1000), Some((0, 999)));
    assert_eq!(parse_range("bytes=0-999", 1000), Some((0, 999)));
    assert_eq!(parse_range("bytes=0-18446744073709551615", 10), Some((0, 9)));
}

#[test]
fn a_start_past_the_end_is_handed_on_as_it_is() {
    assert_eq!(parse_range("bytes=5000-6000", 1000), Some((5000, 999)));
    assert_eq!(parse_range("bytes=9-3", 1000), Some((9, 3)));
}

#[test]
fn a_header_of_another_shape_is_not_understood() {
    assert_eq!(parse_range("", 1000), None);
    assert_eq!(parse_range("bytes", 1000), None);
    assert_eq!(parse_range("bytes=", 1000), None);
    assert_eq!(parse_range("bytes=12", 1000), None);
    assert_eq!(parse_range("bytes=-500", 1000), None);
    assert_eq!(parse_range("bytes=a-b", 1000), None);
    assert_eq!(parse_range("bytes=0-1-2", 1000), None);
    assert_eq!(parse_range("bytes=0-1,5-6", 1000), None);
    assert_eq!(parse_range("bytes= 0-1", 1000), None);
    assert_eq!(parse_range("Bytes=0-1", 1000), None);
    assert_eq!(parse_range("items=0-1", 1000), None);
    assert_eq!(parse_range("bytes=0-18446744073709551616", 1000), None);
    assert_eq!(parse_range("bytes=\u{663}-5", 1000), None);
}

#[test]
fn a_plus_sign_before_a_number_is_taken() {
    assert_eq!(parse_range("bytes=+1-+2", 1000), Some((1, 2)));
    assert_eq!(parse_range("bytes=+-2", 1000), None);
}

#[test]
fn numbers_are_read_up_to_a_limit() {
    assert_eq!(parse_number("0", 10), Some(0));
    assert_eq!(parse_number("007", 10), Some(7));
    assert_eq!(parse_number("10", 10), Some(10));
    assert_eq!(parse_number("11", 10), None);
    assert_eq!(parse_number("+10", 10), Some(10));
    assert_eq!(parse_number("", 10), None);
    assert_eq!(parse_number("+", 10), None);
    assert_eq!(parse_number("-1", 10), None);
    assert_eq!(parse_number("1 ", 10), None);
    assert_eq!(parse_number("9", 3), None);
    assert_eq!(parse_number("18446744073709551615", u64::MAX), Some(u64::MAX));
    assert_eq!(parse_number("18446744073709551616", u64::MAX), None);
    assert_eq!(parse_number("99999999999999999999999", u64::MAX), None);
    assert_eq!(parse_number("0000000000000000000000001", u64::MAX), Some(1));
}

#[test]
fn numbers_are_written_without_leading_zeros() {
    assert_eq!(decimal_text(0), "0");
    assert_eq!(decimal_text(9), "9");
    assert_eq!(decimal_text(10), "10");
    assert_eq!(decimal_text(1234567890), "1234567890");
    assert_eq!(decimal_text(u64::MAX), "18446744073709551615");
    assert_eq!(hex_text(0), "0");
    assert_eq!(hex_text(255), "ff");
    assert_eq!(hex_text(0xdead_beef), "deadbeef");
    assert_eq!(hex_text(u64::MAX), "ffffffffffffffff");
    for n in [0u64, 5, 10, 99, 100, 65535, u64::MAX] {
        assert_eq!(parse_number(&decimal_text(n), u64::MAX), Some(n));
    }
}

#[test]
fn the_port_is_what_follows_the_last_colon() {
    assert_eq!(get_port_from_listen_addr("127.0.0.1:8080"), Some(8080));
    assert_eq!(get_port_from_listen_addr("[::1]:443"), Some(443));
    assert_eq!(get_port_from_listen_addr("host:0"), Some(0));
    assert_eq!(get_port_from_listen_addr("host:65535"), Some(65535));
    assert_eq!(get_port_from_listen_addr("host:65536"), None);
    assert_eq!(get_port_from_listen_addr("host:"), None);
    assert_eq!(get_port_from_listen_addr("host"), None);
    assert_eq!(get_port_from_listen_addr("host:80a"), None);
    assert_eq!(get_port_from_listen_addr(""), None);
    assert_eq!(get_port_from_listen_addr("/tmp/socket"), None);
}

#[test]
fn texts_are_told_by_their_ends() {
    assert!(has_prefix("bytes=1", "bytes="));
    assert!(has_prefix("abc", ""));
    assert!(!has_prefix("by", "bytes="));
    assert!(has_suffix("film.mp4", ".mp4"));
    assert!(!has_suffix("film.mp4", ".m4v"));
    assert!(!has_suffix("4", ".mp4"));
    assert_eq!(strip_prefix("/video/a%20b", "/video/"), Some("a%20b"));
    assert_eq!(strip_prefix("/videos", "/video/"), None);
    assert_eq!(strip_prefix("é/x", "é/"), Some("x"));
    assert_eq!(join("ab", "cd"), "abcd");
}

#[test]
fn a_request_names_the_file_after_the_prefix() {
    assert_eq!(resolve_request("/video/C%3A%5CFilms%5Ca%20b.mp4"), Ok("C:\\Films\\a b.mp4".to_string()));
    assert_eq!(resolve_request("/video/plain.mp4"), Ok("plain.mp4".to_string()));
    assert_eq!(resolve_request("/video/a+b%2"), Ok("a+b%2".to_string()));
    assert_eq!(resolve_request("/video/"), Ok("".to_string()));
    assert_eq!(resolve_request("/other/x.mp4"), Err(Refusal::NotFound));
    assert_eq!(resolve_request("/video"), Err(Refusal::NotFound));
    assert_eq!(resolve_request("/video/%ff%fe"), Err(Refusal::BadPath));
}

#[test]
fn a_response_without_a_range_carries_the_whole_file() {
    assert_eq!(
        plan_response(None, 1000),
        Some(ResponsePlan { start: 0, end: 999, partial: false, length: 1000 })
    );
    assert_eq!(
        plan_response(Some("garbage"), 1000),
        Some(ResponsePlan { start: 0, end: 999, partial: false, length: 1000 })
    );
    assert_eq!(
        plan_response(None, 0),
        Some(ResponsePlan { start: 0, end: 0, partial: false, length: 1 })
    );
}

#[test]
fn a_response_to_a_range_carries_that_part() {
    let plan = plan_response(Some("bytes=100-199"), 1000).unwrap();
    assert_eq!(plan, ResponsePlan { start: 100, end: 199, partial: true, length: 100 });
    assert_eq!(status_code(&plan), 206);
    assert_eq!(status_code(&plan_response(None, 5).unwrap()), 200);
    assert_eq!(
        plan_response(Some("bytes=900-"), 1000),
        Some(ResponsePlan { start: 900, end: 999, partial: true, length: 100 })
    );
    assert_eq!(plan_response(Some("bytes=5000-"), 1000), None);
    assert_eq!(plan_response(Some("bytes=9-3"), 1000), None);
}

#[test]
fn the_headers_of_a_response_are_in_order() {
    let whole = plan_response(None, 1000).unwrap();
    let pairs = |v: Vec<(String, String)>| -> Vec<String> {
        v.into_iter().map(|(a, b)| format!("{}: {}", a, b)).collect()
    };
    assert_eq!(
        pairs(response_headers(&whole, "video/mp4", 1000)),
        vec!["Accept-Ranges: bytes", "Content-Length: 1000", "Content-Type: video/mp4"]
    );
    let part = plan_response(Some("bytes=100-199"), 1000).unwrap();
    assert_eq!(
        pairs(response_headers(&part, "video/webm", 1000)),
        vec![
            "Accept-Ranges: bytes",
            "Content-Length: 100",
            "Content-Type: video/webm",
            "Content-Range: bytes 100-199/1000"
        ]
    );
}

#[test]
fn the_media_type_is_guessed_from_the_path() {
    let plan = plan_response(None, 10).unwrap();
    let mp4 = headers_for_file(&plan, "film.MP4", 10);
    assert_eq!(mp4[2], ("Content-Type".to_string(), "video/mp4".to_string()));
    let unknown = headers_for_file(&plan, "film.unknown-kind", 10);
    assert_eq!(unknown[2].1, "application/octet-stream");
    assert_eq!(unknown.len(), 3);
}
