//! DuckDuckGo search: the query URL, and a compact page built from the result list.

use vstd::prelude::*;
use crate::codec::{gzip_fast, gzip_fast_of};
use crate::dom::{NestedView, nested_first_of, select_nested_first};
use crate::protocol::{Response, is_error_response};
use crate::liteweb::sanitize::{escape_attr_spec, html_escape_attr, lemma_escape_attr_is_inert};
use crate::liteweb::inert::{scheme_runs_script, scheme_runs_script_at};
use crate::text::{chars_of, push_char, push_str, trim, trim_spec};

verus! {

/// The search page up to the query in `<title>`.
pub const SEARCH_HEAD: &'static str = "<!DOCTYPE html><html><head><meta charset=\"utf-8\"><meta name=\"viewport\" content=\"width=device-width,initial-scale=1\"><title>Search: ";

/// From the end of the title to the query in the heading.
pub const SEARCH_MID: &'static str = "</title><style>body{max-width:680px;margin:0 auto;padding:16px;font:16px/1.5 system-ui,sans-serif;color:#222;background:#fff}a{color:#1a73e8;text-decoration:none}@media(prefers-color-scheme:dark){body{background:#1a1a1a;color:#e0e0e0}a{color:#8ab4f8}}</style></head><body><h2>Search: ";

/// From the end of the heading to the results.
pub const SEARCH_BEFORE_RESULTS: &'static str = "</h2><hr style=\"margin:12px 0\">";

/// After the results.
pub const SEARCH_FOOT: &'static str = "</body></html>";

/// The DuckDuckGo HTML endpoint, before the encoded query.
pub const SEARCH_ENDPOINT: &'static str = "https://html.duckduckgo.com/html/?q=";

/// The result elements.
pub const RESULT_SELECTOR: &'static str = ".result";

/// A result's link.
pub const RESULT_LINK_SELECTOR: &'static str = "a.result__a";

/// A result's snippet.
pub const RESULT_SNIPPET_SELECTOR: &'static str = ".result__snippet";

/// The link attribute.
pub const HREF_ATTR: &'static str = "href";

/// The most results shown.
pub const MAX_RESULTS: usize = 15;

// ---------------------------------------------------------------------------
// Query encoding

/// Whether a byte stays as it is in a query: ASCII letters, digits, `-`, `_` and `.`.
pub open spec fn unreserved(b: u8) -> bool {
    (0x41 <= b <= 0x5a) || (0x61 <= b <= 0x7a) || (0x30 <= b <= 0x39) || b == 0x2d || b == 0x5f
        || b == 0x2e
}

/// The upper-case hexadecimal digit `d`.
pub open spec fn hex_digit(d: u8) -> char {
    if d < 10 {
        (d + 0x30) as char
    } else {
        (d - 10 + 0x41) as char
    }
}

/// How one byte of the query is written: unreserved bytes as they are, a space as `+`,
/// anything else as `%XX` in upper-case hexadecimal.
pub open spec fn encode_byte(b: u8) -> Seq<char> {
    if unreserved(b) {
        seq![b as char]
    } else if b == 0x20 {
        seq!['+']
    } else {
        seq!['%', hex_digit(b / 16), hex_digit(b % 16)]
    }
}

/// The query's UTF-8 bytes, each written as `encode_byte` says.
pub open spec fn urlencode_spec(bytes: Seq<u8>) -> Seq<char>
    decreases bytes.len(),
{
    if bytes.len() == 0 {
        Seq::empty()
    } else {
        urlencode_spec(bytes.drop_last()) + encode_byte(bytes.last())
    }
}

/// The upper-case hexadecimal digit `d`.
pub fn hex_char(d: u8) -> (c: char)
    requires
        d < 16,
    ensures
        c == hex_digit(d),
{
    if d < 10 {
        (d + 0x30) as char
    } else {
        (d - 10 + 0x41) as char
    }
}

/// Encodes a query for a URL, byte by byte: ASCII letters, digits, `-`, `_` and `.` stay,
/// a space becomes `+`, every other byte becomes `%XX`.
pub fn urlencoding(s: &str) -> (out: String)
    ensures
        out@ == urlencode_spec(vstd::utf8::encode_utf8(s@)),
{
    let bytes = s.as_bytes();
    let mut out = String::new();
    let mut i: usize = 0;
    while i < bytes.len()
        invariant
            bytes@ == vstd::utf8::encode_utf8(s@),
            i <= bytes@.len(),
            out@ == urlencode_spec(bytes@.take(i as int)),
        decreases bytes@.len() - i,
    {
        let b = bytes[i];
        assert(bytes@.take(i + 1).drop_last() == bytes@.take(i as int));
        if (0x41 <= b && b <= 0x5a) || (0x61 <= b && b <= 0x7a) || (0x30 <= b && b <= 0x39) || b
            == 0x2d || b == 0x5f || b == 0x2e {
            push_char(&mut out, b as char);
        } else if b == 0x20 {
            push_char(&mut out, '+');
        } else {
            push_char(&mut out, '%');
            push_char(&mut out, hex_char(b / 16));
            push_char(&mut out, hex_char(b % 16));
        }
        i = i + 1;
    }
    assert(bytes@.take(bytes@.len() as int) == bytes@);
    out
}

/// The search URL for a query.
pub fn search_url(query: &str) -> (url: String)
    ensures
        url@ == SEARCH_ENDPOINT@ + urlencode_spec(vstd::utf8::encode_utf8(query@)),
        url@ == "https://html.duckduckgo.com/html/?q="@ + urlencode_spec(
            vstd::utf8::encode_utf8(query@),
        ),
{
    let mut url = String::new();
    push_str(&mut url, SEARCH_ENDPOINT);
    let q = urlencoding(query);
    push_str(&mut url, q.as_str());
    url
}

// ---------------------------------------------------------------------------
// The result page

/// One result entry: the link with its title, the link address, and the snippet, each
/// escaped so that no markup of the result list reaches the page.
pub open spec fn entry_spec(href: Seq<char>, title: Seq<char>, snippet: Seq<char>) -> Seq<char> {
    let h = escape_attr_spec(href);
    "<div style=\"margin-bottom:16px\"><a href=\""@ + h + "\" style=\"font-size:1.1em\">"@
        + escape_attr_spec(title) + "</a><br><span style=\"color:#666;font-size:.85em\">"@ + h
        + "</span><br><span style=\"color:#888;font-size:.8em\">"@ + escape_attr_spec(snippet)
        + "</span></div>"@
}

/// The snippet found for result `i`, empty when there is none.
pub open spec fn snippet_at(snippets: Seq<NestedView>, i: int) -> Seq<char> {
    if 0 <= i < snippets.len() && snippets[i] is Some {
        trim_spec(snippets[i].unwrap().1)
    } else {
        Seq::empty()
    }
}

/// The address a result links to: `#` when it has none or when its scheme runs script.
pub open spec fn result_href(h: Option<Seq<char>>) -> Seq<char> {
    match h {
        Some(h) => if scheme_runs_script(h) {
            "#"@
        } else {
            h
        },
        None => "#"@,
    }
}

/// The entry for result `i`: none without a link or with an empty (trimmed) link text;
/// a link without an address, or whose scheme runs script, points at `#`.
pub open spec fn result_entry(links: Seq<NestedView>, snippets: Seq<NestedView>, i: int) -> Option<Seq<char>> {
    match links[i] {
        None => None,
        Some(link) => if trim_spec(link.1).len() == 0 {
            None
        } else {
            Some(entry_spec(
                result_href(link.0),
                trim_spec(link.1),
                snippet_at(snippets, i),
            ))
        },
    }
}

/// The entries of the first `n` results, at most `MAX_RESULTS` of them, and how many.
pub open spec fn entries_spec(links: Seq<NestedView>, snippets: Seq<NestedView>, n: nat) -> (Seq<char>, nat)
    decreases n,
{
    if n == 0 {
        (Seq::empty(), 0)
    } else {
        let prev = entries_spec(links, snippets, (n - 1) as nat);
        if prev.1 >= MAX_RESULTS {
            prev
        } else {
            match result_entry(links, snippets, n - 1) {
                Some(e) => (prev.0 + e, prev.1 + 1),
                None => prev,
            }
        }
    }
}

/// The result page for `query` from DuckDuckGo's page `html`.
pub open spec fn ddg_page_spec(html: Seq<char>, query: Seq<char>) -> Seq<char> {
    let links = nested_first_of(html, RESULT_SELECTOR@, RESULT_LINK_SELECTOR@, HREF_ATTR@);
    let snippets = nested_first_of(html, RESULT_SELECTOR@, RESULT_SNIPPET_SELECTOR@, HREF_ATTR@);
    let entries = entries_spec(links, snippets, links.len()).0;
    let results = if entries.len() == 0 {
        "<p>No results found.</p>"@
    } else {
        entries
    };
    let q = escape_attr_spec(query);
    SEARCH_HEAD@ + q + SEARCH_MID@ + q + SEARCH_BEFORE_RESULTS@ + results + SEARCH_FOOT@
}

/// The entry for result `i`.
pub fn entry_at(
    links: &Vec<Option<(Option<String>, String)>>,
    snippets: &Vec<Option<(Option<String>, String)>>,
    i: usize,
) -> (e: Option<String>)
    requires
        i < links@.len(),
    ensures
        e.deep_view() == result_entry(links.deep_view(), snippets.deep_view(), i as int),
{
    match &links[i] {
        None => None,
        Some(link) => {
            let title = trim(link.1.as_str());
            if title.as_str().is_empty() {
                return None;
            }
            let snip = if i < snippets.len() {
                match &snippets[i] {
                    Some(s) => trim(s.1.as_str()),
                    None => String::new(),
                }
            } else {
                String::new()
            };
            let href: &str = match &link.0 {
                Some(h) => {
                    let cs = chars_of(h.as_str());
                    assert(cs@.skip(0) == cs@);
                    if scheme_runs_script_at(cs.as_slice(), 0) {
                        "#"
                    } else {
                        h.as_str()
                    }
                },
                None => "#",
            };
            let h = html_escape_attr(href);
            let t = html_escape_attr(title.as_str());
            let sn = html_escape_attr(snip.as_str());
            let mut e = String::new();
            push_str(&mut e, "<div style=\"margin-bottom:16px\"><a href=\"");
            push_str(&mut e, h.as_str());
            push_str(&mut e, "\" style=\"font-size:1.1em\">");
            push_str(&mut e, t.as_str());
            push_str(&mut e, "</a><br><span style=\"color:#666;font-size:.85em\">");
            push_str(&mut e, h.as_str());
            push_str(&mut e, "</span><br><span style=\"color:#888;font-size:.8em\">");
            push_str(&mut e, sn.as_str());
            push_str(&mut e, "</span></div>");
            Some(e)
        },
    }
}

/// Builds a compact result page from DuckDuckGo's page: up to `MAX_RESULTS` results, each
/// with its title, address and snippet. The query and every text taken from the result
/// list are escaped.
pub fn extract_ddg_results(html: &str, query: &str) -> (page: String)
    ensures
        page@ == ddg_page_spec(html@, query@),
{
    let links = select_nested_first(html, RESULT_SELECTOR, RESULT_LINK_SELECTOR, HREF_ATTR);
    let snippets = select_nested_first(html, RESULT_SELECTOR, RESULT_SNIPPET_SELECTOR, HREF_ATTR);
    let ghost lv = links.deep_view();
    let ghost sv = snippets.deep_view();
    let mut results_html = String::new();
    let mut count: usize = 0;
    let mut i: usize = 0;
    while i < links.len()
        invariant
            lv == links.deep_view(),
            sv == snippets.deep_view(),
            i <= lv.len(),
            results_html@ == entries_spec(lv, sv, i as nat).0,
            count == entries_spec(lv, sv, i as nat).1,
            count <= MAX_RESULTS,
        decreases lv.len() - i,
    {
        if count < MAX_RESULTS {
            match entry_at(&links, &snippets, i) {
                Some(e) => {
                    push_str(&mut results_html, e.as_str());
                    count = count + 1;
                },
                None => {},
            }
        }
        i = i + 1;
    }
    let q = html_escape_attr(query);
    let mut page = String::new();
    push_str(&mut page, SEARCH_HEAD);
    push_str(&mut page, q.as_str());
    push_str(&mut page, SEARCH_MID);
    push_str(&mut page, q.as_str());
    push_str(&mut page, SEARCH_BEFORE_RESULTS);
    if results_html.as_str().is_empty() {
        push_str(&mut page, "<p>No results found.</p>");
    } else {
        push_str(&mut page, results_html.as_str());
    }
    push_str(&mut page, SEARCH_FOOT);
    page
}

/// The answer to a search: the compressed result page (empty where compression fails),
/// or 502 with the reason when the search request failed.
pub open spec fn search_answer(query: Seq<char>, fetched: Result<String, String>, r: Response) -> bool {
    match fetched {
        Ok(body) => r matches Response::SearchResults { query: q, html } && q@ == query && html@
            == match gzip_fast_of(vstd::utf8::encode_utf8(ddg_page_spec(body@, query))) {
            Some(z) => z,
            None => Seq::empty(),
        },
        Err(e) => is_error_response(r, 502, "Search failed: "@ + e@),
    }
}

/// Answers a search from the fetched DuckDuckGo page (or the reason it could not be
/// fetched).
pub fn search_response(query: &str, fetched: Result<String, String>) -> (r: Response)
    ensures
        search_answer(query@, fetched, r),
{
    match fetched {
        Ok(body) => {
            let clean = extract_ddg_results(body.as_str(), query);
            let html = match gzip_fast(clean.as_str().as_bytes()) {
                Some(z) => z,
                None => Vec::new(),
            };
            Response::SearchResults { query: query.to_owned(), html }
        },
        Err(e) => {
            let mut message = String::new();
            push_str(&mut message, "Search failed: ");
            push_str(&mut message, e.as_str());
            Response::Error { code: 502, message }
        },
    }
}


/// Law: a result page shows at most fifteen results.
pub proof fn lemma_result_count_bounded(links: Seq<NestedView>, snippets: Seq<NestedView>, n: nat)
    ensures
        entries_spec(links, snippets, n).1 <= 15,
    decreases n,
{
    if n > 0 {
        lemma_result_count_bounded(links, snippets, (n - 1) as nat);
    }
}

/// Law: the query stands in the result page only escaped: right after the page's head
/// comes the escaped query, which holds no `<`, `>` or `"`, so no query can open an
/// element or end the title it stands in.
pub proof fn lemma_query_is_inert_in_page(html: Seq<char>, query: Seq<char>)
    ensures
        ddg_page_spec(html, query).subrange(
            SEARCH_HEAD@.len() as int,
            (SEARCH_HEAD@.len() + escape_attr_spec(query).len()) as int,
        ) == escape_attr_spec(query),
        forall|i: int|
            0 <= i < escape_attr_spec(query).len() ==> {
                let c = #[trigger] escape_attr_spec(query)[i];
                c != '<' && c != '>' && c != '"'
            },
{
    lemma_escape_attr_is_inert(query);
    let q = escape_attr_spec(query);
    let page = ddg_page_spec(html, query);
    assert(page.subrange(SEARCH_HEAD@.len() as int, (SEARCH_HEAD@.len() + q.len()) as int) =~= q);
}

/// UTF-8 encoding distributes over concatenation.
pub proof fn lemma_encode_utf8_concat(a: Seq<char>, b: Seq<char>)
    ensures
        vstd::utf8::encode_utf8(a + b) == vstd::utf8::encode_utf8(a) + vstd::utf8::encode_utf8(b),
    decreases a.len(),
{
    if a.len() == 0 {
        assert(a + b =~= b);
        assert(vstd::utf8::encode_utf8(a) =~= Seq::<u8>::empty());
        assert(Seq::<u8>::empty() + vstd::utf8::encode_utf8(b) =~= vstd::utf8::encode_utf8(b));
    } else {
        lemma_encode_utf8_concat(a.drop_first(), b);
        assert((a + b).drop_first() =~= a.drop_first() + b);
        assert((a + b)[0] == a[0]);
        let e = vstd::utf8::encode_scalar(a[0] as u32);
        assert(e + (vstd::utf8::encode_utf8(a.drop_first()) + vstd::utf8::encode_utf8(b)) =~= (e
            + vstd::utf8::encode_utf8(a.drop_first())) + vstd::utf8::encode_utf8(b));
    }
}

/// Byte-wise query encoding distributes over concatenation.
pub proof fn lemma_urlencode_concat(a: Seq<u8>, b: Seq<u8>)
    ensures
        urlencode_spec(a + b) == urlencode_spec(a) + urlencode_spec(b),
    decreases b.len(),
{
    if b.len() == 0 {
        assert(a + b =~= a);
        assert(urlencode_spec(a) + urlencode_spec(b) =~= urlencode_spec(a));
    } else {
        lemma_urlencode_concat(a, b.drop_last());
        assert((a + b).drop_last() =~= a + b.drop_last());
        assert((a + b).last() == b.last());
        assert(urlencode_spec(a) + urlencode_spec(b.drop_last()) + encode_byte(b.last())
            =~= urlencode_spec(a) + (urlencode_spec(b.drop_last()) + encode_byte(b.last())));
    }
}

/// Law: encoding the concatenation of two queries gives the concatenation of their
/// encodings, as `urlencoding` encodes each byte on its own.
pub proof fn lemma_urlencoding_distributes(a: Seq<char>, b: Seq<char>)
    ensures
        urlencode_spec(vstd::utf8::encode_utf8(a + b)) == urlencode_spec(
            vstd::utf8::encode_utf8(a),
        ) + urlencode_spec(vstd::utf8::encode_utf8(b)),
{
    lemma_encode_utf8_concat(a, b);
    lemma_urlencode_concat(vstd::utf8::encode_utf8(a), vstd::utf8::encode_utf8(b));
}

/// The value of a hexadecimal digit, in either case; 0 for any other character.
pub open spec fn hex_value(c: char) -> int {
    if '0' <= c <= '9' {
        c as int - 0x30
    } else if 'A' <= c <= 'F' {
        c as int - 0x41 + 10
    } else if 'a' <= c <= 'f' {
        c as int - 0x61 + 10
    } else {
        0
    }
}

/// How a server reads a query back: `+` as a space, `%XX` as the byte with hexadecimal
/// value `XX`, any other character as its own code.
pub open spec fn query_decode(s: Seq<char>) -> Seq<u8>
    decreases s.len(),
{
    if s.len() == 0 {
        Seq::empty()
    } else if s[0] == '+' {
        seq![0x20u8] + query_decode(s.skip(1))
    } else if s[0] == '%' && s.len() >= 3 {
        seq![(hex_value(s[1]) * 16 + hex_value(s[2])) as u8] + query_decode(s.skip(3))
    } else {
        seq![s[0] as u8] + query_decode(s.skip(1))
    }
}

/// Reading back one encoded byte followed by more text gives the byte, then the rest read
/// back.
proof fn lemma_decode_encoded_byte(x: u8, r: Seq<char>)
    ensures
        query_decode(encode_byte(x) + r) == seq![x] + query_decode(r),
{
    let e = encode_byte(x);
    let t = e + r;
    if unreserved(x) {
        assert(t[0] == x as char);
        assert(t.skip(1) =~= r);
        assert((x as char) as u8 == x);
    } else if x == 0x20 {
        assert(t[0] == '+');
        assert(t.skip(1) =~= r);
    } else {
        let hi = x / 16;
        let lo = x % 16;
        assert(t[0] == '%' && t[1] == hex_digit(hi) && t[2] == hex_digit(lo));
        assert(t.skip(3) =~= r);
        assert(hex_value(hex_digit(hi)) == hi);
        assert(hex_value(hex_digit(lo)) == lo);
        assert(hi * 16 + lo == x);
    }
}

/// Law: an encoded query reads back as the bytes it was made from: every byte, `+` and
/// `%` among them, survives the trip, so the server searches for exactly the query.
pub proof fn lemma_urlencode_reads_back(b: Seq<u8>)
    ensures
        query_decode(urlencode_spec(b)) == b,
    decreases b.len(),
{
    if b.len() > 0 {
        let rest = b.drop_first();
        lemma_urlencode_reads_back(rest);
        lemma_urlencode_concat(seq![b[0]], rest);
        assert(seq![b[0]] + rest =~= b);
        let one = seq![b[0]];
        assert(one.drop_last() =~= Seq::<u8>::empty());
        assert(urlencode_spec(Seq::<u8>::empty()) == Seq::<char>::empty());
        assert(urlencode_spec(one) == urlencode_spec(one.drop_last()) + encode_byte(one.last()));
        assert(urlencode_spec(one) =~= encode_byte(b[0]));
        lemma_decode_encoded_byte(b[0], urlencode_spec(rest));
        assert(seq![b[0]] + rest =~= b);
    }
}

/// Law: the query part of a search URL reads back as the query's UTF-8 bytes.
pub proof fn lemma_search_url_reads_back(query: Seq<char>, url: Seq<char>)
    requires
        url == SEARCH_ENDPOINT@ + urlencode_spec(vstd::utf8::encode_utf8(query)),
    ensures
        query_decode(url.skip(SEARCH_ENDPOINT@.len() as int)) == vstd::utf8::encode_utf8(query),
{
    assert(url.skip(SEARCH_ENDPOINT@.len() as int) =~= urlencode_spec(
        vstd::utf8::encode_utf8(query),
    ));
    lemma_urlencode_reads_back(vstd::utf8::encode_utf8(query));
}

/// A character that may stand in an encoded query.
pub open spec fn query_safe(c: char) -> bool {
    ('A' <= c <= 'Z') || ('a' <= c <= 'z') || ('0' <= c <= '9') || c == '-' || c == '_' || c
        == '.' || c == '+' || c == '%'
}

/// Law: an encoded query holds only ASCII letters, digits, `-`, `_`, `.`, `+` and `%`, so
/// it cannot break out of the URL it is put in.
pub proof fn lemma_urlencode_is_safe(bytes: Seq<u8>)
    ensures
        forall|i: int|
            0 <= i < urlencode_spec(bytes).len() ==> query_safe(#[trigger] urlencode_spec(bytes)[i]),
    decreases bytes.len(),
{
    if bytes.len() > 0 {
        lemma_urlencode_is_safe(bytes.drop_last());
        let prev = urlencode_spec(bytes.drop_last());
        let b = bytes.last();
        let last = encode_byte(b);
        assert(b / 16 < 16 && b % 16 < 16);
        assert forall|i: int| 0 <= i < urlencode_spec(bytes).len() implies query_safe(
            #[trigger] urlencode_spec(bytes)[i],
        ) by {
            if i < prev.len() {
                assert(urlencode_spec(bytes)[i] == prev[i]);
            } else {
                assert(urlencode_spec(bytes)[i] == last[i - prev.len()]);
            }
        }
    }
}

} // verus!
