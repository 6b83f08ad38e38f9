use vstd::prelude::*;
use vstd::string::StringExecFns;
use vstd::utf8::encode_utf8;

use crate::error::{is_load_failure, load_failure, CommonError, ErrorCause, ErrorType};
use crate::json::{find_member, index_key, json_parse, member, parse_json_document, JsonValue};
use crate::query::{first_item, EmotionSpec};
use crate::text::{
    ascii_chars, lemma_percent_encoding_round_trip, parse_u32_ascii, percent_decode,
    percent_text_char, parse_u32_text, percent_encode, push_i32_text,
    signed_decimal_text, url_encode,
};

verus! {

// ---------------------------------------------------------------------------
// The search URL
// ---------------------------------------------------------------------------

/// The text appended to the user's keywords, so that the image search
/// looks for animated stickers.
pub open spec fn keyword_suffix() -> Seq<char> {
    ","@ + " 表情 gif"@
}

/// The value of the `word` parameter of the search URL: the keywords with the
/// sticker suffix, in UTF-8, percent-encoded.
pub open spec fn search_word(keywords: Seq<char>) -> Seq<char> {
    percent_encode(encode_utf8(keywords + keyword_suffix()))
}

/// URL law: whatever the keywords hold, the `word` value of the search URL
/// holds no `&`, `=`, `#` or space (so the URL keeps its twelve parameters,
/// in order), only unreserved characters and `%` escapes, and percent
/// decoding it gives back the UTF-8 of the keywords followed by
/// `", 表情 gif"`.
pub proof fn lemma_search_word(keywords: Seq<char>)
    ensures
        forall|i: int|
            0 <= i < search_word(keywords).len() ==> {
                let c = #[trigger] search_word(keywords)[i];
                &&& percent_text_char(c)
                &&& c != '&' && c != '=' && c != '#' && c != ' '
            },
        percent_decode(search_word(keywords)) == encode_utf8(keywords + keyword_suffix()),
{
    lemma_percent_encoding_round_trip(encode_utf8(keywords + keyword_suffix()));
}

/// The search URL for a keyword text, the number of the first item wanted
/// and the page size.
pub open spec fn search_url(keywords: Seq<char>, item_no: int, page_size: int) -> Seq<char> {
    "https://m.baidu.com/sf/vsearch/image/search/wisesearchresult"@
        + "?tn=wisejsonala&ie=utf-8&fromsf=1&word="@
        + search_word(keywords)
        + "&pn="@
        + signed_decimal_text(item_no)
        + "&rn="@
        + signed_decimal_text(page_size)
        + "&gsm=3c&prefresh=undefined&fp=result&searchtype=0&fromfilter=0&tpltype=0"@
}

/// The image-search URL of a sticker search: the keywords with the sticker
/// suffix, percent-encoded; the number of the first item, which is the page
/// number times the page size; and the page size.
pub fn build_url(emotion_spec: &EmotionSpec) -> (r: String)
    requires
        i32::MIN <= first_item(emotion_spec.page) <= i32::MAX,
    ensures
        r@ == search_url(
            emotion_spec.keywords@,
            first_item(emotion_spec.page),
            emotion_spec.page.page_size as int,
        ),
{
    let mut words = emotion_spec.keywords.clone();
    words.append(",");
    words.append(" 表情 gif");
    let encoded = url_encode(words.as_str());
    let item_no: i32 = emotion_spec.page.current_page * emotion_spec.page.page_size;
    let mut url = "https://m.baidu.com/sf/vsearch/image/search/wisesearchresult".to_owned();
    url.append("?tn=wisejsonala&ie=utf-8&fromsf=1&word=");
    url.append(encoded.as_str());
    url.append("&pn=");
    push_i32_text(&mut url, item_no);
    url.append("&rn=");
    push_i32_text(&mut url, emotion_spec.page.page_size);
    url.append("&gsm=3c&prefresh=undefined&fp=result&searchtype=0&fromfilter=0&tpltype=0");
    proof {
        assert(words@ =~= emotion_spec.keywords@ + keyword_suffix());
    }
    url
}

// ---------------------------------------------------------------------------
// The size check before a download
// ---------------------------------------------------------------------------

/// The largest sticker, in bytes, that the program downloads.
pub const MAX_STICKER_BYTES: u32 = 500_000;

/// Whether a header byte is visible ASCII or a tab, the bytes that
/// `http::HeaderValue::to_str` accepts.
pub open spec fn visible_header_byte(b: u8) -> bool {
    (32 <= b && b < 127) || b == 9
}

/// The text of a header value, as `http::HeaderValue::to_str` gives it:
/// present when every byte is visible ASCII or a tab.
pub open spec fn header_text(bytes: Seq<u8>) -> Option<Seq<char>> {
    if forall|i: int| 0 <= i < bytes.len() ==> visible_header_byte(#[trigger] bytes[i]) {
        Some(ascii_chars(bytes))
    } else {
        None
    }
}

/// The size that a `content-length` header value announces, if it reads as
/// a `u32`.
pub open spec fn announced_size(bytes: Seq<u8>) -> Option<u32> {
    match header_text(bytes) {
        Some(text) => parse_u32_text(text),
        None => None,
    }
}

/// Whether a header value has a text (see [`header_text`]).
pub fn has_header_text(bytes: &[u8]) -> (r: bool)
    ensures
        r == header_text(bytes@) is Some,
{
    let mut i: usize = 0;
    while i < bytes.len()
        invariant
            i <= bytes@.len(),
            forall|k: int| 0 <= k < i ==> visible_header_byte(#[trigger] bytes@[k]),
        decreases bytes@.len() - i,
    {
        let b = bytes[i];
        if !((32u8 <= b && b < 127u8) || b == 9u8) {
            return false;
        }
        i = i + 1;
    }
    true
}

/// The text of a header value (`http::HeaderValue::to_str`).
pub fn header_value_text(bytes: &[u8]) -> (r: Option<String>)
    ensures
        match r {
            Some(t) => header_text(bytes@) == Some(t@),
            None => header_text(bytes@) is None,
        },
{
    if !has_header_text(bytes) {
        return None;
    }
    let mut text = String::new();
    let mut j: usize = 0;
    while j < bytes.len()
        invariant
            j <= bytes@.len(),
            text@ == ascii_chars(bytes@.take(j as int)),
        decreases bytes@.len() - j,
    {
        crate::text::push_char(&mut text, bytes[j] as char);
        assert(ascii_chars(bytes@.take(j + 1)) =~= ascii_chars(bytes@.take(j as int)).push(
            bytes@[j as int] as char,
        ));
        j = j + 1;
    }
    assert(bytes@.take(bytes@.len() as int) =~= bytes@);
    Some(text)
}

/// Decides, from the `content-length` header of a sticker, whether to
/// download it: a value that is not a number gives an I/O error, a size over
/// [`MAX_STICKER_BYTES`] a parsing error, and an admissible size is handed
/// back. The errors carry no message and no cause.
pub fn check_content_length(value: &[u8]) -> (r: Result<u32, CommonError>)
    ensures
        match announced_size(value@) {
            None => r matches Err(e) && e.kind() == ErrorType::IoError && e.message()
                == Seq::<char>::empty() && e.origin() is None,
            Some(n) => if n > MAX_STICKER_BYTES {
                r matches Err(e) && e.kind() == ErrorType::ParingError && e.message()
                    == Seq::<char>::empty() && e.origin() is None
            } else {
                r == Ok::<u32, CommonError>(n)
            },
        },
{
    if !has_header_text(value) {
        return Err(CommonError::new(ErrorType::IoError, None, None));
    }
    let size = match parse_u32_ascii(value) {
        Some(n) => n,
        None => return Err(CommonError::new(ErrorType::IoError, None, None)),
    };
    if size > MAX_STICKER_BYTES {
        Err(CommonError::new(ErrorType::ParingError, None, None))
    } else {
        Ok(size)
    }
}

// ---------------------------------------------------------------------------
// Reading the search answer
// ---------------------------------------------------------------------------

/// The sticker list of a search answer: `answer["linkData"]`, when it is an
/// array.
pub open spec fn link_data(answer: JsonValue) -> Option<Seq<JsonValue>> {
    match index_key(answer, "linkData"@) {
        JsonValue::Array(items) => Some(items@),
        _ => None,
    }
}

/// The sticker URL of an item of the list: its `objurl` member, when the
/// item is an object and that member is a string.
pub open spec fn sticker_url(item: JsonValue) -> Option<Seq<char>> {
    match item {
        JsonValue::Object(entries) => match member(entries@, "objurl"@) {
            Some(JsonValue::Str(s)) => Some(s@),
            _ => None,
        },
        _ => None,
    }
}

/// The sticker URLs of a search answer, in the order of its list; `None`
/// when there is no list or one of its items has no URL.
pub open spec fn sticker_urls(answer: JsonValue) -> Option<Seq<Seq<char>>> {
    match link_data(answer) {
        Some(items) => if forall|i: int| 0 <= i < items.len() ==> (#[trigger] sticker_url(items[i])) is Some {
            Some(items.map_values(|item: JsonValue| sticker_url(item)->0))
        } else {
            None
        },
        None => None,
    }
}

/// URL law of a search answer: the sticker URLs are exactly the `objurl`
/// strings of the items of the answer's list, one for each item, in the
/// list's order and character for character; they are there exactly when
/// the list is there and each of its items is an object whose `objurl`
/// member is a string.
pub proof fn lemma_sticker_urls_are_objurl_strings(answer: JsonValue)
    ensures
        sticker_urls(answer) is Some <==> (link_data(answer) is Some && forall|i: int|
            0 <= i < link_data(answer)->0.len() ==> (#[trigger] link_data(answer)->0[i] matches JsonValue::Object(es)
                && member(es@, "objurl"@) matches Some(JsonValue::Str(_)))),
        sticker_urls(answer) matches Some(urls) ==> urls.len() == link_data(answer)->0.len(),
        sticker_urls(answer) matches Some(urls) ==> forall|i: int| 0 <= i < urls.len() ==>
            (#[trigger] link_data(answer)->0[i] matches JsonValue::Object(es)
                && member(es@, "objurl"@) matches Some(JsonValue::Str(s)) && urls[i] == s@),
{
    match link_data(answer) {
        Some(items) => {
            assert forall|i: int| 0 <= i < items.len() implies ((sticker_url(#[trigger] items[i])) is Some
                <==> (items[i] matches JsonValue::Object(es)
                && member(es@, "objurl"@) matches Some(JsonValue::Str(_)))) && (sticker_url(items[i]) is Some
                ==> (items[i] matches JsonValue::Object(es)
                && member(es@, "objurl"@) matches Some(JsonValue::Str(s)) && sticker_url(items[i])->0 == s@)) by {
                match items[i] {
                    JsonValue::Object(es) => {
                        match member(es@, "objurl"@) {
                            Some(JsonValue::Str(_)) => {},
                            _ => {},
                        }
                    },
                    _ => {},
                }
            }
            if forall|i: int| 0 <= i < items.len() ==> (#[trigger] sticker_url(items[i])) is Some {
                let urls = items.map_values(|item: JsonValue| sticker_url(item)->0);
                assert(sticker_urls(answer) == Some(urls));
                assert forall|i: int| 0 <= i < urls.len() implies (#[trigger] items[i] matches JsonValue::Object(es)
                    && member(es@, "objurl"@) matches Some(JsonValue::Str(s)) && urls[i] == s@) by {
                    assert(sticker_url(items[i]) is Some);
                }
            } else {
                let i = choose|i: int| 0 <= i < items.len() && !((#[trigger] sticker_url(items[i])) is Some);
                assert(!(items[i] matches JsonValue::Object(es)
                    && member(es@, "objurl"@) matches Some(JsonValue::Str(_))));
            }
        },
        None => {},
    }
}

fn link_data_items(answer: &JsonValue) -> (r: Option<&Vec<JsonValue>>)
    ensures
        match r {
            Some(items) => link_data(*answer) == Some(items@),
            None => link_data(*answer) is None,
        },
{
    match answer {
        JsonValue::Object(entries) => {
            let key = "linkData".to_owned();
            match find_member(entries, &key) {
                Some(JsonValue::Array(items)) => Some(items),
                _ => None,
            }
        },
        _ => None,
    }
}

/// The sticker URLs of a search answer, in the order of its list. A missing
/// list, or an item that is not an object, has no `objurl` member, or whose
/// `objurl` is not a string, fails the whole search with an I/O error
/// ("not found", "加载失败").
pub fn image_urls(answer: &JsonValue) -> (r: Result<Vec<String>, CommonError>)
    ensures
        match sticker_urls(*answer) {
            Some(urls) => r matches Ok(v) && v@.map_values(|s: String| s@) == urls,
            None => r matches Err(e) && e.kind() == ErrorType::IoError && e.message()
                == Seq::<char>::empty() && is_load_failure(e.origin()),
        },
        r matches Ok(v) ==> link_data(*answer) matches Some(items) && v@.len() == items.len()
            && forall|i: int| 0 <= i < v@.len() ==> (#[trigger] items[i] matches JsonValue::Object(es)
                && member(es@, "objurl"@) matches Some(JsonValue::Str(s)) && v@[i]@ == s@),
{
    proof {
        lemma_sticker_urls_are_objurl_strings(*answer);
    }
    let items = match link_data_items(answer) {
        Some(items) => items,
        None => return Err(CommonError::from_io_error(load_failure())),
    };
    let key = "objurl".to_owned();
    let mut urls: Vec<String> = Vec::new();
    let mut i: usize = 0;
    while i < items.len()
        invariant
            i <= items@.len(),
            link_data(*answer) == Some(items@),
            key@ == "objurl"@,
            urls@.len() == i,
            forall|k: int| 0 <= k < i ==> (#[trigger] sticker_url(items@[k])) is Some,
            forall|k: int| 0 <= k < i ==> #[trigger] urls@[k]@ == sticker_url(items@[k])->0,
        decreases items@.len() - i,
    {
        let item = &items[i];
        let url: Option<&String> = match item {
            JsonValue::Object(entries) => match find_member(entries, &key) {
                Some(JsonValue::Str(s)) => Some(s),
                _ => None,
            },
            _ => None,
        };
        match url {
            Some(s) => {
                urls.push(s.clone());
            },
            None => {
                assert(sticker_url(items@[i as int]) is None);
                return Err(CommonError::from_io_error(load_failure()));
            },
        }
        i = i + 1;
    }
    proof {
        assert(urls@.map_values(|s: String| s@) =~= items@.map_values(
            |item: JsonValue| sticker_url(item)->0,
        ));
    }
    Ok(urls)
}

/// Reads the text of a search answer into its sticker URLs, as the sticker
/// search does once the answer has arrived. A text that is not JSON gives a
/// parsing error; a document is read by [`image_urls`].
pub fn read_search_answer(body: &str) -> (r: Result<Vec<String>, CommonError>)
    ensures
        match json_parse(body@) {
            Err(je) => r matches Err(e) && e.kind() == ErrorType::ParingError && e.message()
                == Seq::<char>::empty() && e.origin() == Some(ErrorCause::Json(je)),
            Ok(doc) => match sticker_urls(doc) {
                Some(urls) => r matches Ok(v) && v@.map_values(|s: String| s@) == urls,
                None => r matches Err(e) && e.kind() == ErrorType::IoError && e.message()
                    == Seq::<char>::empty() && is_load_failure(e.origin()),
            },
        },
{
    let doc = parse_json_document(body)?;
    image_urls(&doc)
}

// ---------------------------------------------------------------------------
// The fixed search of the first client
// ---------------------------------------------------------------------------

/// The first search client, which always asks for the same page of the
/// search service.
pub struct EmotionSearchClientImpl {}

impl EmotionSearchClientImpl {
    pub fn new() -> Self {
        EmotionSearchClientImpl {  }
    }

    /// The URL this client searches: an empty, percent-encoded keyword,
    /// items from the 60th on, 30 of them.
    pub fn internal_search_url(&self) -> (r: String)
        ensures
            r@ == "https://m.baidu.com/sf/vsearch/image/search/wisesearchresult"@
                + "?tn=wisejsonala&ie=utf-8&fromsf=1&word="@ + percent_encode(encode_utf8(""@))
                + "&pn=60&rn=30&gsm=3c&prefresh=undefined&fp=result&searchtype=0&fromfilter=0&tpltype=0"@,
    {
        let keyword = url_encode("");
        let mut url = "https://m.baidu.com/sf/vsearch/image/search/wisesearchresult".to_owned();
        url.append("?tn=wisejsonala&ie=utf-8&fromsf=1&word=");
        url.append(keyword.as_str());
        url.append(
            "&pn=60&rn=30&gsm=3c&prefresh=undefined&fp=result&searchtype=0&fromfilter=0&tpltype=0",
        );
        url
    }
}

} // verus!
