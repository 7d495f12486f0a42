use red_browser::liteweb::sanitize::{
    clean_url, collapse_whitespace, html_escape_attr, is_tracker_domain, is_tracking_image,
    resolve_url, sanitize_simple,
};
use red_browser::liteweb::inert::{defuse, disarm};
use red_browser::liteweb::tracker_list::{tracker_domains, TrackerSet};

#[test]
fn test_strip_scripts() {
    let html = r#"<p>Hello</p><script>alert('xss')</script><p>World</p>"#;
    let trackers = TrackerSet::new();
    let result = sanitize_simple(html, "https://example.com", &trackers);
    assert!(!result.contains("script"));
    assert!(result.contains("Hello"));
    assert!(result.contains("World"));
}

#[test]
fn test_strip_tracking_params() {
    let html = r#"<a href="https://example.com/page?utm_source=twitter&id=5&fbclid=abc">Link</a>"#;
    let trackers = TrackerSet::new();
    let result = sanitize_simple(html, "https://example.com", &trackers);
    assert!(result.contains("id=5"));
    assert!(!result.contains("utm_source"));
    assert!(!result.contains("fbclid"));
}

#[test]
fn test_strip_tracking_image() {
    let html = r#"<img src="https://pixel.facebook.com/tr.gif"><img src="https://example.com/photo.jpg" alt="photo">"#;
    let mut trackers = TrackerSet::new();
    trackers.insert("pixel.facebook.com");
    let result = sanitize_simple(html, "https://example.com", &trackers);
    assert!(!result.contains("facebook"));
    assert!(result.contains("photo.jpg"));
}

#[test]
fn test_strip_event_handlers() {
    let html = r#"<div onclick="evil()" onload="track()"><p>content</p></div>"#;
    let trackers = TrackerSet::new();
    let result = sanitize_simple(html, "https://example.com", &trackers);
    assert!(!result.contains("onclick"));
    assert!(!result.contains("onload"));
    assert!(result.contains("content"));
}

#[test]
fn sanitize_removes_attributes_comments_and_blocks() {
    let html = "<div class=\"x\" id=\"y\" style=\"color:red\" data-track=\"1\"><!-- note -->Text<STYLE>p{}</STYLE><form action=\"/\"><input></form></div>";
    let result = sanitize_simple(html, "https://example.com", &TrackerSet::new());
    assert_eq!(result, "<div>Text</div>");
}

#[test]
fn sanitize_resolves_relative_images_and_links() {
    let html = r#"<img src="/a.png"><a href="b/c?x=1&utm_medium=m">l</a>"#;
    let result = sanitize_simple(html, "https://example.com/dir/", &TrackerSet::new());
    assert_eq!(
        result,
        r#"<img src="https://example.com/a.png"><a href="https://example.com/dir/b/c?x=1">l</a>"#
    );
}

#[test]
fn sanitize_without_base_keeps_relative_images() {
    let result = sanitize_simple(r#"<img src="/a.png">"#, "not a url", &TrackerSet::new());
    assert_eq!(result, r#"<img src="/a.png">"#);
}

#[test]
fn links_to_trackers_lose_their_href() {
    let html = r#"<a href="https://www.doubleclick.net/x">ad</a>"#;
    let result = sanitize_simple(html, "https://example.com", &tracker_domains());
    assert_eq!(result, "<a >ad</a>");
}

#[test]
fn tracker_domains_match_parents_and_www() {
    let trackers = tracker_domains();
    assert!(is_tracker_domain("doubleclick.net", &trackers));
    assert!(is_tracker_domain("www.google-analytics.com", &trackers));
    assert!(is_tracker_domain("ads.sub.doubleclick.net", &trackers));
    assert!(is_tracker_domain("x.t.co", &trackers));
    assert!(!is_tracker_domain("example.com", &trackers));
    assert!(!is_tracker_domain("co", &trackers));
    assert!(!is_tracker_domain("notdoubleclick.net", &trackers));
}

#[test]
fn single_label_parents_are_not_checked() {
    let mut trackers = TrackerSet::new();
    trackers.insert("com");
    assert!(!is_tracker_domain("example.com", &trackers));
    assert!(is_tracker_domain("com", &trackers));
}

#[test]
fn clean_url_strips_params_and_blocks_trackers() {
    let trackers = tracker_domains();
    assert_eq!(
        clean_url("https://example.com/p?utm_source=a&q=rust&gclid=z", "", &trackers),
        Some("https://example.com/p?q=rust".to_string())
    );
    assert_eq!(
        clean_url("https://example.com/p?utm_source=a", "", &trackers),
        Some("https://example.com/p".to_string())
    );
    assert_eq!(clean_url("https://connect.facebook.net/sdk.js", "", &trackers), None);
    assert_eq!(clean_url("#top", "not a url", &trackers), Some("#top".to_string()));
}

#[test]
fn resolve_url_keeps_absolute_references() {
    assert_eq!(resolve_url("data:image/png;base64,xx", "https://a.b/"), "data:image/png;base64,xx");
    assert_eq!(resolve_url("https://x.y/z", "https://a.b/"), "https://x.y/z");
    assert_eq!(resolve_url("../up", "https://a.b/c/d/e"), "https://a.b/c/up");
    assert_eq!(resolve_url("rel", "::bad::"), "rel");
}

#[test]
fn tracking_images_by_pattern_case_and_domain() {
    let trackers = tracker_domains();
    assert!(is_tracking_image("https://example.com/img/TR.GIF", &trackers));
    assert!(is_tracking_image("https://example.com/Pixel?id=1", &trackers));
    assert!(is_tracking_image("https://www.facebook.net/a.png", &trackers));
    assert!(!is_tracking_image("https://example.com/photo.jpg", &trackers));
}

#[test]
fn collapse_whitespace_keeps_two_breaks() {
    assert_eq!(collapse_whitespace("a<br><br/>\n<br />  <br>b"), "a<br><br>b");
    assert_eq!(collapse_whitespace("a<br><br>b"), "a<br><br>b");
}

#[test]
fn attribute_escaping() {
    assert_eq!(html_escape_attr(r#"a&b"c<d>e"#), "a&amp;b&quot;c&lt;d&gt;e");
    assert_eq!(html_escape_attr(""), "");
}

#[test]
fn tracker_set_membership() {
    let mut set = TrackerSet::new();
    assert!(!set.contains("a.com"));
    set.insert("a.com");
    set.insert("a.com");
    assert!(set.contains("a.com"));
    assert!(!set.contains("b.com"));
    let all = tracker_domains();
    assert!(all.contains("cdn.taboola.com"));
    assert!(all.contains("google-analytics.com"));
}

#[test]
fn scripts_reformed_by_removal_are_removed_too() {
    let trackers = TrackerSet::new();
    let result = sanitize_simple(
        "<scr<script></script>ipt>alert(1)</script>",
        "https://example.com",
        &trackers,
    );
    assert!(!result.to_ascii_lowercase().contains("<script"));
    assert!(!result.contains("alert"));
}

#[test]
fn unclosed_dangerous_elements_are_defused() {
    let trackers = TrackerSet::new();
    let result = sanitize_simple("<p>a</p><ScRiPt>alert(1)<IFRAME src=x>", "https://example.com", &trackers);
    assert_eq!(result, "<p>a</p>&lt;ScRiPt>alert(1)&lt;IFRAME src=x>");
}

#[test]
fn unquoted_event_handlers_are_removed() {
    let trackers = TrackerSet::new();
    let result = sanitize_simple(
        r#"<img src="https://example.com/a.png" onerror=alert(1)>"#,
        "https://example.com",
        &trackers,
    );
    assert!(!result.to_ascii_lowercase().contains("onerror"));
    assert!(result.contains("a.png"));
}

#[test]
fn every_utm_parameter_is_stripped() {
    let trackers = TrackerSet::new();
    let result = sanitize_simple(
        r#"<a href="https://example.com/p?utm_id=1&x=2">L</a>"#,
        "https://example.com",
        &trackers,
    );
    assert_eq!(result, r#"<a href="https://example.com/p?x=2">L</a>"#);
}

#[test]
fn script_links_are_refused() {
    let trackers = TrackerSet::new();
    let result = sanitize_simple(
        r#"<a href="javascript:alert(1)">x</a><a href=" JaVa	Script:alert(2)">y</a>"#,
        "https://example.com",
        &trackers,
    );
    assert!(!result.to_ascii_lowercase().contains("javascript"));
    assert_eq!(result, "<a >x</a><a >y</a>");
    assert_eq!(clean_url("vbscript:msgbox(1)", "https://example.com", &trackers), None);
}

#[test]
fn kept_query_values_are_encoded_again() {
    let trackers = TrackerSet::new();
    assert_eq!(
        clean_url("https://example.com/s?q=a%26b&utm_source=x&n=c+d", "", &trackers),
        Some("https://example.com/s?q=a%26b&n=c+d".to_string())
    );
}

#[test]
fn handlers_and_script_values_left_by_the_patterns_are_disarmed() {
    let trackers = TrackerSet::new();
    assert_eq!(
        sanitize_simple("<img/onerror=alert(1) src=x>", "not a url", &trackers),
        "<img/_onerror=alert(1) src=x>"
    );
    assert_eq!(
        sanitize_simple("<a href='JavaScript:alert(1)'>x</a>", "not a url", &trackers),
        "<a href='_JavaScript:alert(1)'>x</a>"
    );
    assert_eq!(
        sanitize_simple("<a href=vbscript:x>x</a><p>a=b on=c</p>", "not a url", &trackers),
        "<a href=_vbscript:x>x</a><p>a=b on=c</p>"
    );
}

#[test]
fn guards_work_on_plain_text() {
    assert_eq!(defuse("<Svg onload=x><b>"), "&lt;Svg onload=x><b>");
    assert_eq!(disarm(r#"<b title="x"onclick = "y">"#), r#"<b title="x"_onclick = "y">"#);
    assert_eq!(disarm("<a href=\n java\tscript:1>"), "<a href=\n _java\tscript:1>");
    assert_eq!(disarm("say=\n java\tscript:1"), "say=\n java\tscript:1");
    assert_eq!(disarm("turn on the light"), "turn on the light");
}

#[test]
fn prose_outside_tags_is_kept() {
    let trackers = TrackerSet::new();
    assert_eq!(
        sanitize_simple("<p>turn online=yes, a=javascript:b</p>", "not a url", &trackers),
        "<p>turn online=yes, a=javascript:b</p>"
    );
    assert_eq!(
        sanitize_simple("<b id2 onclick=x onmouseover=y>t</b> onload=z", "not a url", &trackers),
        "<b id2>t</b> onload=z"
    );
}

#[test]
fn subdomains_of_blocked_domains_are_blocked() {
    let mut trackers = TrackerSet::new();
    trackers.insert("facebook.net");
    assert!(is_tracker_domain("connect.facebook.net", &trackers));
    assert!(is_tracker_domain("x.connect.facebook.net", &trackers));
    assert!(is_tracker_domain("www.a.b.connect.facebook.net", &trackers));
    assert!(!is_tracker_domain("facebook.network", &trackers));
}
