use std::io::Read;

use red_browser::protocol::Response;
use red_browser::search::{extract_ddg_results, search_response, search_url, urlencoding};
use red_browser::text::{count_non_whitespace, replace_str, trim};

#[test]
fn queries_are_encoded() {
    assert_eq!(urlencoding("hello world!"), "hello+world%21");
    assert_eq!(urlencoding("a-b_c.d~"), "a-b_c.d%7E");
    assert_eq!(urlencoding("é"), "%C3%A9");
    assert_eq!(search_url("rust lang"), "https://html.duckduckgo.com/html/?q=rust+lang");
}

fn result(href: &str, title: &str, snippet: &str) -> String {
    format!(
        r#"<div class="result"><a class="result__a" href="{}">{}</a><a class="result__snippet">{}</a></div>"#,
        href, title, snippet
    )
}

#[test]
fn result_pages_are_built() {
    let html = format!(
        "<html><body>{}{}{}</body></html>",
        result("https://a.example/", " Alpha ", " first "),
        result("https://b.example/", "   ", "skipped"),
        r#"<div class="result"><a class="result__a">NoHref</a></div>"#
    );
    let page = extract_ddg_results(&html, "q");
    assert!(page.starts_with("<!DOCTYPE html><html><head><meta charset=\"utf-8\">"));
    assert!(page.contains("<title>Search: q</title>"));
    assert!(page.contains("<h2>Search: q</h2><hr style=\"margin:12px 0\">"));
    assert!(page.contains(r#"<div style="margin-bottom:16px"><a href="https://a.example/" style="font-size:1.1em">Alpha</a><br><span style="color:#666;font-size:.85em">https://a.example/</span><br><span style="color:#888;font-size:.8em">first</span></div>"#));
    assert!(!page.contains("skipped"));
    assert!(page.contains(r##"<a href="#" style="font-size:1.1em">NoHref</a>"##));
    assert!(page.ends_with("</body></html>"));
}

#[test]
fn result_pages_show_at_most_fifteen() {
    let mut body = String::new();
    for i in 0..20 {
        body.push_str(&result(&format!("https://r{}.example/", i), &format!("R{}", i), ""));
    }
    let page = extract_ddg_results(&format!("<html><body>{}</body></html>", body), "q");
    assert_eq!(page.matches("margin-bottom:16px").count(), 15);
    assert!(page.contains("R14<"));
    assert!(!page.contains("R15<"));
}

#[test]
fn empty_result_pages() {
    let page = extract_ddg_results("<html><body></body></html>", "nothing");
    assert!(page.contains("<p>No results found.</p>"));
}

#[test]
fn search_answers() {
    match search_response("q", Err("timeout".to_string())) {
        Response::Error { code, message } => {
            assert_eq!(code, 502);
            assert_eq!(message, "Search failed: timeout");
        }
        other => panic!("unexpected: {:?}", other),
    }
    match search_response("q", Ok("<html><body></body></html>".to_string())) {
        Response::SearchResults { query, html } => {
            assert_eq!(query, "q");
            let mut s = String::new();
            flate2::read::GzDecoder::new(&html[..]).read_to_string(&mut s).unwrap();
            assert_eq!(s, extract_ddg_results("<html><body></body></html>", "q"));
        }
        other => panic!("unexpected: {:?}", other),
    }
}

#[test]
fn replace_matches_std() {
    for (h, n, r) in [("aaaa", "aa", "b"), ("abcabc", "bc", "X"), ("abc", "", "-"), ("", "", "-"), ("xyz", "q", "r"), ("aba", "aba", "")] {
        assert_eq!(replace_str(h, n, r), h.replace(n, r));
    }
}

#[test]
fn trimming_and_counting_match_std() {
    for s in ["  a b  ", "\u{3000}x\u{85}", "", "   ", "\tq\n"] {
        assert_eq!(trim(s), s.trim());
        assert_eq!(count_non_whitespace(s), s.chars().filter(|c| !c.is_whitespace()).count());
    }
}

#[test]
fn queries_are_escaped_in_the_result_page() {
    let page = extract_ddg_results("", "<script>alert(1)</script>");
    assert!(!page.contains("<script>"));
    assert!(page.contains("<title>Search: &lt;script&gt;alert(1)&lt;/script&gt;</title>"));
    assert!(page.contains("<h2>Search: &lt;script&gt;alert(1)&lt;/script&gt;</h2>"));
}

#[test]
fn result_texts_and_script_links_are_made_harmless() {
    let html = format!(
        "<html><body>{}</body></html>",
        result("javascript:alert(1)", "&lt;b&gt;T", "s &amp; t")
    );
    let page = extract_ddg_results(&html, "q");
    assert!(!page.contains("javascript"));
    assert!(page.contains(r##"<a href="#" style="font-size:1.1em">&lt;b&gt;T</a>"##));
    assert!(page.contains(r#"<span style="color:#888;font-size:.8em">s &amp; t</span>"#));
}

#[test]
fn query_encoding_distributes_over_concatenation() {
    let (a, b) = ("rust é", " lang&x=1");
    assert_eq!(urlencoding(&format!("{}{}", a, b)), format!("{}{}", urlencoding(a), urlencoding(b)));
}
