use std::io::Read;

use red_browser::liteweb::fetch::{check_fetched, is_html_content_type, FetchError, FetchResult};
use red_browser::liteweb::image_opt::{
    alt_of, apply_image_outcomes, collect_image_targets, image_too_large, image_too_large_message,
    replacement_for, webp_data_uri, ImageOutcome,
};
use red_browser::liteweb::readability::{
    cut_title_text, extract, extract_body_text, extract_byline, extract_title, score_candidates,
};
use red_browser::liteweb::template::{html_esc, wrap};
use red_browser::liteweb::tracker_list::TrackerSet;
use red_browser::liteweb::{
    finish_page, prepare_page, render_failure, PreparedPage, RenderError,
};
use red_browser::liteweb::cache::PageCache;
use red_browser::protocol::Response;

fn gunzip(z: &[u8]) -> String {
    let mut d = flate2::read::GzDecoder::new(z);
    let mut s = String::new();
    d.read_to_string(&mut s).unwrap();
    s
}

#[test]
fn html_esc_escapes_markup() {
    assert_eq!(html_esc("<a href='x'>&</a>"), "&lt;a href='x'&gt;&amp;&lt;/a&gt;");
}

#[test]
fn wrap_builds_the_page() {
    let page = wrap("Tom & <Jerry>", Some("By <me>"), "<p>body</p>");
    assert!(page.starts_with("<!DOCTYPE html>\n<html lang=\"en\">"));
    assert!(page.contains("<title>Tom &amp; &lt;Jerry&gt;</title>"));
    assert!(page.contains("<h1>Tom &amp; &lt;Jerry&gt;</h1>\n<div class=\"by\">By &lt;me&gt;</div>\n<p>body</p>\n<p class=\"ft\">Optimized by RedBrowser LiteWeb</p>"));
    assert!(page.contains("@media(prefers-color-scheme:dark){body{background:#1a1a1a;color:#e0e0e0}"));
    assert!(page.ends_with("</body>\n</html>"));
    let plain = wrap("T", None, "c");
    assert!(plain.contains("<h1>T</h1>\n\nc\n"));
}

#[test]
fn titles() {
    assert_eq!(cut_title_text("  Story - Part 2 - Site  "), "Story - Part 2");
    assert_eq!(cut_title_text("Story | Site"), "Story");
    assert_eq!(cut_title_text("  Plain  "), "Plain");
    let og = r#"<html><head><meta property="og:title" content="OG Title"><title>T - S</title></head><body><h1>H</h1></body></html>"#;
    assert_eq!(extract_title(og), "OG Title");
    let t = r#"<html><head><meta property="og:title" content=""><title>T - S</title></head></html>"#;
    assert_eq!(extract_title(t), "T");
    assert_eq!(extract_title("<html><body><h1> Heading </h1></body></html>"), "Heading");
    assert_eq!(extract_title("<html><body><p>x</p></body></html>"), "Untitled");
}

#[test]
fn bylines() {
    let meta = r#"<html><head><meta name="author" content="Ann"></head><body><span class="author">Bob</span></body></html>"#;
    assert_eq!(extract_byline(meta), Some("Ann".to_string()));
    let el = r#"<html><body><span class="byline">  Bob Smith </span></body></html>"#;
    assert_eq!(extract_byline(el), Some("Bob Smith".to_string()));
    let long = format!(r#"<html><body><span class="author">{}</span></body></html>"#, "x".repeat(120));
    assert_eq!(extract_byline(&long), None);
    assert_eq!(extract_byline("<html><body></body></html>"), None);
}

fn article_page() -> String {
    let prose = "Rust is a language, fast and safe, that many people enjoy writing. ".repeat(4);
    format!(
        r#"<html><head><title>News - Site</title></head><body><div class="sidebar nav">{short}</div><article class="post">{prose}</article><div id="footer"><a href="/x">{links}</a></div></body></html>"#,
        short = "menu ".repeat(30),
        prose = prose,
        links = "link text ".repeat(20),
    )
}

#[test]
fn candidates_are_scored() {
    let page = article_page();
    let cands = score_candidates(&page);
    // The sidebar (150 bytes of text), the article and the footer have enough text;
    // the body-level div wrapper does not exist, so three candidates remain.
    assert_eq!(cands.len(), 3);
    // sidebar: class matches "nav" (-25), 150 bytes -> +1, no commas
    assert_eq!(cands[0].0, -24);
    // article: "post" (+25), tag +20, 268 bytes -> +2, 8 commas
    assert_eq!(cands[1].0, 25 + 20 + 2 + 8);
    // footer: "footer" matches "foot" (-25), 200 bytes -> +2, all link text -> -30
    assert_eq!(cands[2].0, -25 + 2 - 30);
}

#[test]
fn extraction_picks_the_best_candidate() {
    let page = article_page();
    let r = extract(&page, "https://example.com");
    assert_eq!(r.title, "News");
    assert_eq!(r.byline, None);
    assert!(r.content_html.starts_with("Rust is a language"));
    let expected = r.content_html.chars().filter(|c| !c.is_whitespace()).count();
    assert_eq!(r.text_length, expected);
}

#[test]
fn extraction_falls_back_to_the_body() {
    let r = extract("<html><body><p>tiny</p></body></html>", "u");
    assert_eq!(r.content_html, "<p>tiny</p>");
    // Markup counts too: `<p>tiny</p>` has eleven non-whitespace characters.
    assert_eq!(r.text_length, 11);
    assert_eq!(extract_body_text("<p>x</p>"), "<p>x</p>");
}

#[test]
fn image_targets_skip_data_uris_and_are_capped() {
    let html = r#"<img src="data:image/png;base64,AA"><img alt="a" src="/1.png"><img src="/2.png"><img src="/3.png">"#;
    let ts = collect_image_targets(html, 2);
    assert_eq!(ts.len(), 2);
    assert_eq!(ts[0].tag, r#"<img alt="a" src="/1.png">"#);
    assert_eq!(ts[0].src, "/1.png");
    assert_eq!(ts[1].src, "/2.png");
    assert_eq!(collect_image_targets(html, 0).len(), 1);
    assert_eq!(collect_image_targets("<p>none</p>", 10).len(), 0);
}

#[test]
fn image_elements_are_rewritten() {
    assert_eq!(alt_of(r#"<img alt="cat" src="c.png">"#), Some("cat".to_string()));
    assert_eq!(alt_of(r#"<img src="c.png">"#), None);
    let html = r#"<p><img alt="cat" src="c.png"></p><p><img src="d.png"></p><img src="e.png">"#;
    let ts = collect_image_targets(html, 10);
    let outcomes = vec![
        ImageOutcome::Optimized("data:image/webp;base64,QQ==".to_string()),
        ImageOutcome::Failed,
        ImageOutcome::Lost,
    ];
    let (out, n) = apply_image_outcomes(html, &ts, &outcomes);
    assert_eq!(n, 1);
    assert_eq!(
        out,
        r#"<p><img src="data:image/webp;base64,QQ==" alt="cat" loading="lazy"></p><p><em>[Image]</em></p><img src="e.png">"#
    );
    assert_eq!(
        replacement_for(r#"<img alt="dog" src="x">"#, &ImageOutcome::Failed),
        Some("<em>[Image: dog]</em>".to_string())
    );
}

#[test]
fn data_uris_and_size_limits() {
    assert_eq!(webp_data_uri(b"abc"), "data:image/webp;base64,YWJj");
    assert_eq!(webp_data_uri(b"Ma"), "data:image/webp;base64,TWE=");
    assert_eq!(webp_data_uri(&[0xff]), "data:image/webp;base64,/w==");
    assert_eq!(webp_data_uri(b""), "data:image/webp;base64,");
    assert!(image_too_large(10_000_001));
    assert!(!image_too_large(10_000_000));
    assert_eq!(image_too_large_message(12345678), "Image too large: 12345678 bytes");
}

#[test]
fn fetched_pages_are_checked() {
    assert!(is_html_content_type("text/html; charset=utf-8"));
    assert!(is_html_content_type("application/xhtml+xml"));
    assert!(!is_html_content_type("application/json"));
    match check_fetched("u".into(), "image/png".into(), "x".into()) {
        Err(e @ FetchError::NotHtml { .. }) => assert_eq!(e.message(), "Not HTML: image/png"),
        other => panic!("unexpected: {:?}", other),
    }
    match check_fetched("u".into(), "text/html".into(), "é".repeat(2_500_001)) {
        Err(e @ FetchError::TooLarge { .. }) => assert_eq!(e.message(), "Page too large: 5000002 bytes"),
        other => panic!("unexpected: {:?}", other),
    }
    let ok = check_fetched("u".into(), "text/html".into(), "<p>x</p>".into()).unwrap();
    assert_eq!(ok.final_url, "u");
    assert_eq!(ok.body, "<p>x</p>");
}

#[test]
fn thin_pages_are_refused() {
    let fetched = FetchResult {
        final_url: "https://example.com/".into(),
        body: "<html><body><p>too short</p></body></html>".into(),
        content_type: "text/html".into(),
    };
    match prepare_page(&fetched, &TrackerSet::new()) {
        Err(e @ RenderError::NoReadableContent { text_length: 15 }) => {
            assert_eq!(e.message(), "No readable content found (text_length=15)");
            match render_failure(&e) {
                Response::Error { code, message } => {
                    assert_eq!(code, 502);
                    assert_eq!(message, "Failed to render page: No readable content found (text_length=15)");
                }
                other => panic!("unexpected: {:?}", other),
            }
        }
        other => panic!("unexpected: {:?}", other),
    }
}

#[test]
fn pages_are_prepared_and_finished() {
    let body = article_page().replace("<article class=\"post\">", "<article class=\"post\"><script>x()</script>");
    let fetched = FetchResult {
        final_url: "https://example.com/news".into(),
        body: body.clone(),
        content_type: "text/html".into(),
    };
    let prepared = prepare_page(&fetched, &TrackerSet::new()).unwrap();
    assert_eq!(prepared.title, "News");
    assert_eq!(prepared.original_size, body.len());
    assert!(!prepared.html.contains("script"));
    let html = prepared.html.clone();
    match finish_page(prepared, &html).unwrap() {
        Response::Page { url, title, html: z, original_size } => {
            assert_eq!(url, "https://example.com/news");
            assert_eq!(title, "News");
            assert_eq!(original_size as usize, body.len());
            assert_eq!(gunzip(&z), wrap("News", None, &html));
        }
        other => panic!("unexpected: {:?}", other),
    }
}

#[test]
fn finished_page_truncates_large_sizes() {
    let page = PreparedPage {
        final_url: "u".into(),
        original_size: (1usize << 32) + 5,
        title: "t".into(),
        byline: Some("b".into()),
        html: String::new(),
    };
    match finish_page(page, "c").unwrap() {
        Response::Page { original_size, html, .. } => {
            assert_eq!(original_size, 5);
            assert!(gunzip(&html).contains("<div class=\"by\">b</div>"));
        }
        other => panic!("unexpected: {:?}", other),
    }
}

#[test]
fn cached_pages_expire() {
    let mut cache = PageCache::new();
    assert!(cache.get_fresh("u", 0).is_none());
    cache.put("u", Response::Okay, 1_000);
    assert!(matches!(cache.get_fresh("u", 1_000), Some(Response::Okay)));
    assert!(matches!(cache.get_fresh("u", 300_999), Some(Response::Okay)));
    assert!(cache.get_fresh("u", 301_000).is_none());
    // An expired page is dropped.
    assert!(cache.get_fresh("u", 1_000).is_none());
}

#[test]
fn cache_evicts_least_recently_used() {
    let mut cache = PageCache::new();
    for i in 0..200 {
        cache.put(&format!("p{}", i), Response::Okay, 0);
    }
    assert!(cache.get_fresh("p0", 0).is_some());
    cache.put("new", Response::Okay, 0);
    // p0 was used last, so p1 went.
    assert!(cache.get_fresh("p1", 0).is_none());
    assert!(cache.get_fresh("p0", 0).is_some());
    assert!(cache.get_fresh("new", 0).is_some());
    assert!(cache.get_fresh("p2", 0).is_some());
}

#[test]
fn a_cached_response_is_read_back() {
    let mut cache = PageCache::new();
    cache.put("u", Response::Error { code: 7, message: "kept".to_string() }, 10);
    match cache.get_fresh("u", 20) {
        Some(Response::Error { code, message }) => {
            assert_eq!(code, 7);
            assert_eq!(message, "kept");
        }
        other => panic!("wrong response: {:?}", other),
    }
}

#[test]
fn a_byline_stands_below_the_heading() {
    let with = wrap("T", Some("Ann <x>"), "C");
    let without = wrap("T", None, "C");
    assert_eq!(
        with,
        without.replacen("</h1>\n\n", "</h1>\n<div class=\"by\">Ann &lt;x&gt;</div>\n", 1)
    );
}
