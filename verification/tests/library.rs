use emotions::finder::{
    build_url, check_content_length, has_header_text, header_value_text, image_urls,
    read_search_answer,
    EmotionSearchClientImpl, MAX_STICKER_BYTES,
};
use emotions::json::{find_member, parse_json_document, JsonValue};
use emotions::query::{BrowseEvent, Browser, EmotionSpec, PageSpec, STICKERS_PER_PAGE};
use emotions::shared::{CommonRc, DemoInner, ABC};
use emotions::text::{parse_u32_ascii, push_i32_text};
use emotions::ui::{
    drop_files_size, generate_uri_list, grid_position, successful_loads, uri_list,
};
use emotions::{CommonError, ErrorCause, ErrorType};

fn spec(keywords: &str, current_page: i32, page_size: i32) -> EmotionSpec {
    EmotionSpec {
        keywords: keywords.to_string(),
        page: PageSpec { current_page, page_size },
    }
}

const URL_HEAD: &str =
    "https://m.baidu.com/sf/vsearch/image/search/wisesearchresult?tn=wisejsonala&ie=utf-8&fromsf=1&word=";
const URL_TAIL: &str = "&gsm=3c&prefresh=undefined&fp=result&searchtype=0&fromfilter=0&tpltype=0";

#[test]
fn common_error_new_defaults_message() {
    let e = CommonError::new(ErrorType::ParingError, None, None);
    assert_eq!(e.error_type(), ErrorType::ParingError);
    assert_eq!(e.msg(), "");
    assert!(e.source().is_none());
    let e = CommonError::new(ErrorType::IoError, Some("bad".to_string()), None);
    assert_eq!(e.error_type(), ErrorType::IoError);
    assert_eq!(e.msg(), "bad");
    assert_eq!(e.describe(), "HTTP Error");
}

#[test]
fn common_error_from_causes() {
    let json_err = serde_json::from_str::<serde_json::Value>("{").unwrap_err();
    let e = CommonError::from_json_error(json_err);
    assert_eq!(e.error_type(), ErrorType::ParingError);
    assert_eq!(e.msg(), "");
    assert!(matches!(e.source(), Some(ErrorCause::Json(_))));

    let io_err = std::io::Error::new(std::io::ErrorKind::Other, "x");
    let e = CommonError::from_io_error(io_err);
    assert_eq!(e.error_type(), ErrorType::IoError);
    assert!(matches!(e.source(), Some(ErrorCause::Io(_))));

    let http_err = reqwest::blocking::get("not a url").unwrap_err();
    let e = CommonError::from_http_error(http_err);
    assert_eq!(e.error_type(), ErrorType::IoError);
    assert_eq!(e.msg(), "");
    assert!(matches!(e.source(), Some(ErrorCause::Http(_))));
}

#[test]
fn build_url_encodes_keywords_and_pages() {
    let url = build_url(&spec("猫", 2, 10));
    let expected = format!(
        "{}{}&pn=20&rn=10{}",
        URL_HEAD, "%E7%8C%AB%2C%20%E8%A1%A8%E6%83%85%20gif", URL_TAIL
    );
    assert_eq!(url, expected);
}

#[test]
fn build_url_keeps_unreserved_characters() {
    let url = build_url(&spec("a-Z_0.~", 0, 18));
    let expected = format!("{}a-Z_0.~%2C%20%E8%A1%A8%E6%83%85%20gif&pn=0&rn=18{}", URL_HEAD, URL_TAIL);
    assert_eq!(url, expected);
}

#[test]
fn build_url_negative_and_extreme_numbers() {
    let url = build_url(&spec("", -1, 3));
    assert_eq!(url, format!("{}%2C%20%E8%A1%A8%E6%83%85%20gif&pn=-3&rn=3{}", URL_HEAD, URL_TAIL));
    let url = build_url(&spec("", i32::MIN, 1));
    assert_eq!(
        url,
        format!("{}%2C%20%E8%A1%A8%E6%83%85%20gif&pn=-2147483648&rn=1{}", URL_HEAD, URL_TAIL)
    );
}

#[test]
fn decimal_text_of_i32() {
    for n in [0, 7, 10, 123, -45, i32::MAX, i32::MIN] {
        let mut s = String::from("x");
        push_i32_text(&mut s, n);
        assert_eq!(s, format!("x{}", n));
    }
}

#[test]
fn internal_search_url_is_fixed() {
    let client = EmotionSearchClientImpl::new();
    assert_eq!(client.internal_search_url(), format!("{}&pn=60&rn=30{}", URL_HEAD, URL_TAIL));
}

#[test]
fn parse_u32_like_std() {
    for text in ["0", "12345", "+7", "", "+", "-1", "4294967295", "4294967296", "12a", " 1", "007", "++1"] {
        assert_eq!(parse_u32_ascii(text.as_bytes()), text.parse::<u32>().ok(), "{:?}", text);
    }
}

#[test]
fn header_text_accepts_visible_ascii_only() {
    assert_eq!(header_value_text(b"12 34\t"), Some("12 34\t".to_string()));
    assert_eq!(header_value_text(b"1\x01"), None);
    assert_eq!(header_value_text(b"\x7f"), None);
    assert_eq!(header_value_text(b""), Some(String::new()));
}

#[test]
fn content_length_limits() {
    assert_eq!(check_content_length(b"12345").unwrap(), 12345);
    assert_eq!(check_content_length(b"500000").unwrap(), MAX_STICKER_BYTES);
    let e = check_content_length(b"500001").unwrap_err();
    assert_eq!(e.error_type(), ErrorType::ParingError);
    assert!(e.source().is_none());
    let e = check_content_length(b"abc").unwrap_err();
    assert_eq!(e.error_type(), ErrorType::IoError);
    let e = check_content_length(b"").unwrap_err();
    assert_eq!(e.error_type(), ErrorType::IoError);
    let e = check_content_length(b"4294967296").unwrap_err();
    assert_eq!(e.error_type(), ErrorType::IoError);
    let e = check_content_length(b"1\x01").unwrap_err();
    assert_eq!(e.error_type(), ErrorType::IoError);
}

#[test]
fn json_document_parsing() {
    let doc = parse_json_document(r#"{"a": [1, "x", null, true], "b": {"c": 2.5}}"#).unwrap();
    match &doc {
        JsonValue::Object(entries) => {
            let a = find_member(entries, &"a".to_string()).unwrap();
            match a {
                JsonValue::Array(items) => {
                    assert_eq!(items.len(), 4);
                    assert!(matches!(&items[0], JsonValue::Number(n) if n == "1"));
                    assert!(matches!(&items[1], JsonValue::Str(s) if s == "x"));
                    assert!(matches!(&items[2], JsonValue::Null));
                    assert!(matches!(&items[3], JsonValue::Bool(true)));
                }
                _ => panic!("not an array"),
            }
            assert!(find_member(entries, &"z".to_string()).is_none());
        }
        _ => panic!("not an object"),
    }
    let e = parse_json_document("{oops").unwrap_err();
    assert_eq!(e.error_type(), ErrorType::ParingError);
    assert!(matches!(e.source(), Some(ErrorCause::Json(_))));
}

#[test]
fn image_urls_in_order() {
    let doc = parse_json_document(
        r#"{"linkData": [{"objurl": "http://a/1.gif", "x": 1}, {"objurl": "http://a/2.gif"}], "other": 3}"#,
    )
    .unwrap();
    assert_eq!(image_urls(&doc).unwrap(), vec!["http://a/1.gif".to_string(), "http://a/2.gif".to_string()]);
}

#[test]
fn image_urls_fail_as_a_whole() {
    for text in [
        r#"{"data": []}"#,
        r#"{"linkData": {"objurl": "x"}}"#,
        r#"{"linkData": [{"objurl": "x"}, 3]}"#,
        r#"{"linkData": [{"objurl": 4}]}"#,
        r#"[1, 2]"#,
        r#"{"linkData": [{"objurl": "x"}, {"other": "y"}]}"#,
    ] {
        let doc = parse_json_document(text).unwrap();
        let e = image_urls(&doc).unwrap_err();
        assert_eq!(e.error_type(), ErrorType::IoError);
        assert_eq!(e.msg(), "");
        match e.source() {
            Some(ErrorCause::Io(io)) => assert_eq!(io.kind(), std::io::ErrorKind::NotFound),
            _ => panic!("expected an I/O cause"),
        }
    }
    let doc = parse_json_document(r#"{"linkData": []}"#).unwrap();
    assert_eq!(image_urls(&doc).unwrap(), Vec::<String>::new());
}

#[test]
fn paging_queries() {
    let q = EmotionSpec::initial();
    assert_eq!(q.keywords, "");
    assert_eq!(q.page, PageSpec { current_page: 0, page_size: STICKERS_PER_PAGE });
    let q = spec("dog", 4, 18);
    let n = q.next_page();
    assert_eq!(n.keywords, "dog");
    assert_eq!(n.page, PageSpec { current_page: 5, page_size: 18 });
    assert!(q.start_search(String::new()).is_none());
    let s = q.start_search("cat".to_string()).unwrap();
    assert_eq!(s.keywords, "cat");
    assert_eq!(s.page, PageSpec { current_page: 0, page_size: 18 });
}

#[test]
fn consecutive_pages_ask_for_consecutive_items() {
    let q = spec("dog", 3, 18);
    let url_now = build_url(&q);
    let url_next = build_url(&q.next_page());
    assert!(url_now.contains("&pn=54&rn=18"));
    assert!(url_next.contains("&pn=72&rn=18"));
}

#[test]
fn grid_positions() {
    assert_eq!(grid_position(0, 0), (0, 0));
    assert_eq!(grid_position(4, 10), (1, 11));
    assert_eq!(grid_position(8, -2), (2, 0));
    let mut cells = Vec::new();
    for i in 0..30usize {
        let cell = grid_position(i, 7);
        assert!(cell.0 >= 0 && cell.0 < 3);
        assert!(!cells.contains(&cell));
        cells.push(cell);
    }
}

#[test]
fn successful_loads_keep_order() {
    let results = vec![
        ("a".to_string(), Some(1)),
        ("b".to_string(), None),
        ("c".to_string(), Some(3)),
    ];
    assert_eq!(successful_loads(results), vec![("a".to_string(), 1), ("c".to_string(), 3)]);
    assert!(successful_loads::<u8>(Vec::new()).is_empty());
}

#[test]
fn drop_files_size_layout() {
    assert_eq!(drop_files_size(20, 10), 44);
    assert_eq!(drop_files_size(0, 0), 4);
}

#[test]
fn common_rc_sharing() {
    let rc = CommonRc::new_rc(5u32);
    assert_eq!(*rc, 5);
    let copy = rc.clone();
    assert_eq!(*copy.get(), 5);
    let e = copy.require_arc().unwrap_err();
    assert_eq!(e.error_type(), ErrorType::ParingError);
    let arc = CommonRc::new_arc(String::from("x"));
    let arc2 = arc.clone();
    let inner = arc2.require_arc().unwrap();
    assert_eq!(*inner, "x");
    assert!(CommonRc::new_shared(1u8, true).require_arc().is_ok());
    assert!(CommonRc::new_shared(1u8, false).require_arc().is_err());
}

#[test]
fn demo_values() {
    let _inner = DemoInner::new("Demo".to_string());
    let abc = ABC::new("hello".to_string());
    assert_eq!(abc.value(), "hello");
}

#[test]
fn read_search_answer_cases() {
    let urls = read_search_answer(r#"{"linkData": [{"objurl": "u1"}, {"objurl": "u2"}]}"#).unwrap();
    assert_eq!(urls, vec!["u1".to_string(), "u2".to_string()]);
    let e = read_search_answer("not json").unwrap_err();
    assert_eq!(e.error_type(), ErrorType::ParingError);
    assert!(matches!(e.source(), Some(ErrorCause::Json(_))));
    let e = read_search_answer(r#"{"linkData": 1}"#).unwrap_err();
    assert_eq!(e.error_type(), ErrorType::IoError);
    let e = read_search_answer(r#"{"linkData": [{"objurl": "u1"}, {"no": 1}]}"#).unwrap_err();
    assert_eq!(e.error_type(), ErrorType::IoError);
    assert_eq!(e.msg(), "");
    match e.source() {
        Some(ErrorCause::Io(io)) => {
            assert_eq!(io.kind(), std::io::ErrorKind::NotFound);
            assert_eq!(io.to_string(), "加载失败");
        }
        _ => panic!("expected an I/O cause"),
    }
}

fn percent_decode(text: &str) -> Vec<u8> {
    let bytes = text.as_bytes();
    let mut out = Vec::new();
    let mut i = 0;
    while i < bytes.len() {
        if bytes[i] == b'%' && i + 2 < bytes.len() {
            out.push(u8::from_str_radix(&text[i + 1..i + 3], 16).unwrap());
            i += 3;
        } else {
            out.push(bytes[i]);
            i += 1;
        }
    }
    out
}

#[test]
fn search_word_decodes_to_keywords() {
    for keywords in ["猫 & dog=#1", "", "a-b_c.~", "100% 表情"] {
        let url = build_url(&spec(keywords, 1, 5));
        let word = url
            .split("&word=")
            .nth(1)
            .unwrap()
            .split("&pn=")
            .next()
            .unwrap()
            .to_string();
        assert!(!word.contains(['&', '=', '#', ' ']));
        assert_eq!(url.matches('&').count(), 11);
        assert_eq!(percent_decode(&word), format!("{}, 表情 gif", keywords).into_bytes());
    }
}

#[test]
fn search_session_pages() {
    let mut q = spec("old", 7, 18).start_search("cat".to_string()).unwrap();
    for j in 0..5 {
        assert_eq!(q.page, PageSpec { current_page: j, page_size: 18 });
        assert!(build_url(&q).contains(&format!("&pn={}&rn=18", j * 18)));
        q = q.next_page();
    }
}

#[test]
fn browser_session() {
    let mut b = Browser::new();
    assert_eq!(b.query.keywords, "");
    assert!(!b.loading);
    assert!(b.step(BrowseEvent::Searched(String::new())).is_none());
    let q = b.step(BrowseEvent::Searched("cat".to_string())).unwrap();
    assert_eq!(q.keywords, "cat");
    assert_eq!(q.page, PageSpec { current_page: 0, page_size: STICKERS_PER_PAGE });
    for j in 1..4 {
        assert!(b.step(BrowseEvent::Scrolled(false)).is_none());
        let q = b.step(BrowseEvent::Scrolled(true)).unwrap();
        assert_eq!(q.keywords, "cat");
        assert_eq!(q.page, PageSpec { current_page: j, page_size: STICKERS_PER_PAGE });
        assert!(b.loading);
        assert!(b.step(BrowseEvent::Scrolled(true)).is_none());
        assert_eq!(b.query.page.current_page, j);
        assert!(b.step(BrowseEvent::PageShown).is_none());
        assert!(!b.loading);
    }
    let q = b.step(BrowseEvent::Searched("dog".to_string())).unwrap();
    assert_eq!(q.page.current_page, 0);
    assert_eq!(b.query.keywords, "dog");
}

#[test]
fn uri_lists() {
    assert_eq!(uri_list(&vec!["file:///a".to_string()]), "file:///a");
    assert_eq!(
        uri_list(&vec!["file:///a".to_string(), "file:///b".to_string(), "file:///c".to_string()]),
        "file:///a\nfile:///b\nfile:///c"
    );
    assert!(generate_uri_list(&Vec::new()).is_none());
    assert!(generate_uri_list(&vec!["relative/path".to_string()]).is_none());
    assert_eq!(
        generate_uri_list(&vec!["/tmp/a b.gif".to_string(), "/x/\ny".to_string()]).unwrap(),
        "file:///tmp/a%20b.gif\nfile:///x/%0Ay"
    );
}

#[test]
fn from_impls_convert_errors() {
    let json_err = serde_json::from_str::<serde_json::Value>("[").unwrap_err();
    let text = json_err.to_string();
    let e: CommonError = json_err.into();
    assert_eq!(e.error_type(), ErrorType::ParingError);
    match e.source() {
        Some(ErrorCause::Json(j)) => assert_eq!(j.to_string(), text),
        _ => panic!("expected a JSON cause"),
    }
    let e: CommonError = std::io::Error::new(std::io::ErrorKind::Other, "x").into();
    assert_eq!(e.error_type(), ErrorType::IoError);
    let e: CommonError = reqwest::blocking::get("not a url").unwrap_err().into();
    assert_eq!(e.error_type(), ErrorType::IoError);
    assert_eq!(e.msg(), "");
}

#[test]
fn parse_error_is_the_parsers() {
    let body = "{\"linkData\": [1,";
    let expected = serde_json::from_str::<serde_json::Value>(body).unwrap_err().to_string();
    match read_search_answer(body).unwrap_err().source() {
        Some(ErrorCause::Json(j)) => assert_eq!(j.to_string(), expected),
        _ => panic!("expected a JSON cause"),
    }
}

#[test]
fn header_text_check() {
    assert!(has_header_text(b"123"));
    assert!(!has_header_text(b"1\x00"));
}

#[test]
fn res_file_names() {
    assert_eq!(emotions::text::res_file_name(0, ".gif"), "0.gif");
    assert_eq!(emotions::text::res_file_name(u64::MAX, ".gif"), format!("{}.gif", u64::MAX));
    assert_eq!(emotions::text::res_file_name(1234567890, ""), "1234567890");
}
