//! Sanitizing extracted HTML: dangerous elements, event handlers, tracking attributes and
//! comments are removed, links lose their tracking parameters (or vanish when they point
//! at a tracker), tracking images are dropped, relative image sources are resolved, and
//! runs of line breaks are collapsed.

use vstd::prelude::*;
use crate::liteweb::inert::{
    contains_dangerous_opener, defuse, defuse_spec, disarm, disarm_spec, has_dangerous_opener,
    has_event_handler, has_script_value, lemma_defuse_leaves_no_opener,
    lemma_disarm_keeps_no_opener, lemma_disarm_leaves_attrs_inert, lemma_inert_attrs,
    opens_dangerous_at, scheme_runs_script, scheme_runs_script_at, starts_with_ci, Tok,
};
use crate::liteweb::tracker_list::TrackerSet;
use crate::search::{urlencode_spec, urlencoding};
use crate::pattern::{
    GroupsView, constant_fill, group, group_at, regex_scan, replace_all_with,
    replace_each, splice, whole, whole_match,
};
use crate::text::{
    chars_of, contains, contains_seq, lowercase_of, push_char, push_str, starts_with,
    starts_with_seq, str_starts_with, to_lowercase,
};
use crate::urls::{url_join, url_join_of, url_parts, url_parts_of, url_with_query, url_with_query_of};

verus! {

// ---------------------------------------------------------------------------
// Attribute escaping

/// What `html_escape_attr` turns one character into.
pub open spec fn esc_attr_char(c: char) -> Seq<char> {
    if c == '&' {
        "&amp;"@
    } else if c == '"' {
        "&quot;"@
    } else if c == '<' {
        "&lt;"@
    } else if c == '>' {
        "&gt;"@
    } else {
        seq![c]
    }
}

/// `s` with `&`, `"`, `<` and `>` escaped, character by character.
pub open spec fn escape_attr_spec(s: Seq<char>) -> Seq<char>
    decreases s.len(),
{
    if s.len() == 0 {
        Seq::empty()
    } else {
        escape_attr_spec(s.drop_last()) + esc_attr_char(s.last())
    }
}

/// Escapes `&`, `"`, `<` and `>` for use inside a double-quoted attribute.
pub fn html_escape_attr(s: &str) -> (out: String)
    ensures
        out@ == escape_attr_spec(s@),
{
    let cs = chars_of(s);
    let mut out = String::new();
    let mut i: usize = 0;
    while i < cs.len()
        invariant
            i <= cs@.len(),
            cs@ == s@,
            out@ == escape_attr_spec(cs@.take(i as int)),
        decreases cs@.len() - i,
    {
        let c = cs[i];
        if c == '&' {
            push_str(&mut out, "&amp;");
        } else if c == '"' {
            push_str(&mut out, "&quot;");
        } else if c == '<' {
            push_str(&mut out, "&lt;");
        } else if c == '>' {
            push_str(&mut out, "&gt;");
        } else {
            push_char(&mut out, c);
        }
        assert(cs@.take(i + 1).drop_last() == cs@.take(i as int));
        i = i + 1;
    }
    assert(cs@.take(cs@.len() as int) == cs@);
    out
}

// ---------------------------------------------------------------------------
// Tracker domains

/// The domain without a leading `www.`.
pub open spec fn strip_www(d: Seq<char>) -> Seq<char> {
    if starts_with_seq(d, "www."@) {
        d.skip(4)
    } else {
        d
    }
}

/// Position `p` of `d` holds a dot that is not the last dot, so `d` after it is a parent
/// domain of at least two labels.
pub open spec fn inner_dot(d: Seq<char>, p: int) -> bool {
    &&& 0 <= p < d.len()
    &&& d[p] == '.'
    &&& exists|q: int| p < q < d.len() && d[q] == '.'
}

/// A domain is a tracker when, without a leading `www.`, it or one of its parent domains
/// of at least two labels is in the set.
pub open spec fn is_tracker_domain_spec(domain: Seq<char>, trackers: Set<Seq<char>>) -> bool {
    let d = strip_www(domain);
    ||| trackers.contains(d)
    ||| exists|p: int| #[trigger] inner_dot(d, p) && trackers.contains(d.skip(p + 1))
}

/// Whether `domain` (without a leading `www.`) or one of its parent domains of at least
/// two labels is a tracker.
pub fn is_tracker_domain(domain: &str, trackers: &TrackerSet) -> (b: bool)
    ensures
        b == is_tracker_domain_spec(domain@, trackers@),
{
    let all = chars_of(domain);
    let www = chars_of("www.");
    proof {
        reveal_strlit("www.");
    }
    let d: &[char] = if starts_with(all.as_slice(), www.as_slice()) {
        vstd::slice::slice_subrange(all.as_slice(), 4, all.len())
    } else {
        all.as_slice()
    };
    assert(d@ == strip_www(domain@));
    if trackers.contains_chars(d) {
        return true;
    }
    // The last dot: every parent domain starts after a dot before it.
    let mut last: usize = d.len();
    let mut k: usize = d.len();
    while k > 0
        invariant
            k <= d@.len(),
            last == d@.len() ==> forall|q: int| k <= q < d@.len() ==> d@[q] != '.',
            last < d@.len() ==> d@[last as int] == '.' && forall|q: int|
                last < q < d@.len() ==> d@[q] != '.',
            last == d@.len() || last < d@.len(),
        decreases k,
    {
        k = k - 1;
        if d[k] == '.' && last == d.len() {
            last = k;
        }
    }
    let mut p: usize = 0;
    while p < last && last < d.len()
        invariant
            last < d@.len() ==> d@[last as int] == '.' && forall|q: int|
                last < q < d@.len() ==> d@[q] != '.',
            last == d@.len() ==> forall|q: int| 0 <= q < d@.len() ==> d@[q] != '.',
            last <= d@.len(),
            p <= d@.len(),
            d@ == strip_www(domain@),
            !trackers@.contains(d@),
            forall|j: int| 0 <= j < p && inner_dot(d@, j) ==> !trackers@.contains(d@.skip(j + 1)),
        decreases d@.len() - p,
    {
        if d[p] == '.' {
            let parent = vstd::slice::slice_subrange(d, p + 1, d.len());
            assert(parent@ == d@.skip(p + 1));
            if trackers.contains_chars(parent) {
                assert(d@[last as int] == '.');
                assert(inner_dot(d@, p as int));
                assert(inner_dot(strip_www(domain@), p as int));
                assert(trackers@.contains(strip_www(domain@).skip(p + 1)));
                return true;
            }
        }
        p = p + 1;
    }
    assert forall|j: int| #[trigger] inner_dot(d@, j) implies !trackers@.contains(d@.skip(j + 1)) by {
        if j >= p {
            let q = choose|q: int| j < q < d@.len() && d@[q] == '.';
            assert(q <= last);
        }
    }
    false
}

// ---------------------------------------------------------------------------
// Lists of names

/// Whether one of the listed names is `k`.
pub fn list_contains(list: &Vec<&str>, k: &[char]) -> (b: bool)
    ensures
        b == list@.map_values(|s: &str| s@).contains(k@),
{
    let ghost names = list@.map_values(|s: &str| s@);
    let mut i: usize = 0;
    while i < list.len()
        invariant
            names == list@.map_values(|s: &str| s@),
            i <= list@.len(),
            forall|j: int| 0 <= j < i ==> names[j] != k@,
        decreases list@.len() - i,
    {
        let name = chars_of(list[i]);
        if name.len() == k.len() && starts_with(k, name.as_slice()) {
            assert(k@.subrange(0, name@.len() as int) == k@);
            assert(names[i as int] == k@);
            return true;
        }
        assert(names[i as int] != k@) by {
            if names[i as int] == k@ {
                assert(k@.subrange(0, name@.len() as int) == k@);
            }
        }
        i = i + 1;
    }
    false
}

/// Whether one of the listed patterns occurs in `text`.
pub fn any_occurs(text: &[char], list: &Vec<&str>) -> (b: bool)
    ensures
        b == exists|j: int| 0 <= j < list@.len() && contains_seq(text@, #[trigger] list@[j]@),
{
    let mut i: usize = 0;
    while i < list.len()
        invariant
            i <= list@.len(),
            forall|j: int| 0 <= j < i ==> !contains_seq(text@, #[trigger] list@[j]@),
        decreases list@.len() - i,
    {
        let pat = chars_of(list[i]);
        if contains(text, pat.as_slice()) {
            return true;
        }
        i = i + 1;
    }
    false
}

/// Query parameters used for tracking.
pub open spec fn tracking_params() -> Seq<Seq<char>> {
    seq![
        "utm_source"@, "utm_medium"@, "utm_campaign"@, "utm_term"@, "utm_content"@,
        "fbclid"@, "gclid"@, "mc_cid"@, "mc_eid"@, "_ga"@, "_gl"@,
        "ref"@, "source"@, "ocid"@, "icid"@, "ncid"@,
    ]
}

/// Query parameters used for tracking.
pub fn tracking_param_list() -> (v: Vec<&'static str>)
    ensures
        v@.map_values(|s: &str| s@) == tracking_params(),
{
    let v = vec![
        "utm_source", "utm_medium", "utm_campaign", "utm_term", "utm_content",
        "fbclid", "gclid", "mc_cid", "mc_eid", "_ga", "_gl",
        "ref", "source", "ocid", "icid", "ncid",
    ];
    assert(v@.map_values(|s: &str| s@) == tracking_params());
    v
}

/// URL fragments that mark tracking images.
pub open spec fn tracking_url_patterns() -> Seq<Seq<char>> {
    seq![
        "/pixel"@, "/beacon"@, "1x1"@, "__utm"@, "tr.gif"@, "spacer.gif"@,
        "/track"@, "/analytics"@, "collect?"@, "log?"@,
    ]
}

/// URL fragments that mark tracking images.
pub fn tracking_url_pattern_list() -> (v: Vec<&'static str>)
    ensures
        v@.map_values(|s: &str| s@) == tracking_url_patterns(),
{
    let v = vec![
        "/pixel", "/beacon", "1x1", "__utm", "tr.gif", "spacer.gif",
        "/track", "/analytics", "collect?", "log?",
    ];
    assert(v@.map_values(|s: &str| s@) == tracking_url_patterns());
    v
}

// ---------------------------------------------------------------------------
// URLs

/// A query parameter used for tracking: one of the listed names, or any `utm_*` name.
pub open spec fn is_tracking_param(name: Seq<char>) -> bool {
    tracking_params().contains(name) || starts_with_seq(name, "utm_"@)
}

/// The query pairs whose name is not a tracking parameter, in order.
pub open spec fn kept_pairs(pairs: Seq<(Seq<char>, Seq<char>)>) -> Seq<(Seq<char>, Seq<char>)>
    decreases pairs.len(),
{
    if pairs.len() == 0 {
        Seq::empty()
    } else if is_tracking_param(pairs.last().0) {
        kept_pairs(pairs.drop_last())
    } else {
        kept_pairs(pairs.drop_last()).push(pairs.last())
    }
}

/// A decoded name or value encoded again for a query: its UTF-8 bytes, ASCII letters,
/// digits, `-`, `_` and `.` as they are, a space as `+`, every other byte as `%XX`.
pub open spec fn query_component(s: Seq<char>) -> Seq<char> {
    urlencode_spec(vstd::utf8::encode_utf8(s))
}

/// `name=value`, both encoded again, so that the pair reads back as it was.
pub open spec fn pair_text(p: (Seq<char>, Seq<char>)) -> Seq<char> {
    query_component(p.0) + "="@ + query_component(p.1)
}

/// The pairs as encoded `name=value`, joined with `&`.
pub open spec fn join_query(pairs: Seq<(Seq<char>, Seq<char>)>) -> Seq<char>
    decreases pairs.len(),
{
    if pairs.len() == 0 {
        Seq::empty()
    } else if pairs.len() == 1 {
        pair_text(pairs[0])
    } else {
        join_query(pairs.drop_last()) + "&"@ + pair_text(pairs.last())
    }
}

/// An absolute `http://`, `https://` or `data:` reference stays as it is; anything else
/// is resolved against the base, and stays as it is where that fails.
pub open spec fn resolve_url_spec(href: Seq<char>, base: Seq<char>) -> Seq<char> {
    if starts_with_seq(href, "http://"@) || starts_with_seq(href, "https://"@)
        || starts_with_seq(href, "data:"@) {
        href
    } else {
        match url_join_of(base, href) {
            Some(r) => r,
            None => href,
        }
    }
}

/// The link without tracking: `None` when it points at a tracker domain; else the
/// resolved URL with its tracking parameters removed (the query goes when nothing is
/// left), or the resolved reference as it is when it does not parse as a URL.
pub open spec fn untracked_url_spec(href: Seq<char>, base: Seq<char>, trackers: Set<Seq<char>>) -> Option<
    Seq<char>,
> {
    let resolved = resolve_url_spec(href, base);
    match url_parts_of(resolved) {
        None => Some(resolved),
        Some(parts) => {
            if parts.0 matches Some(d) && is_tracker_domain_spec(d, trackers) {
                None
            } else {
                let kept = kept_pairs(parts.1);
                let q = if kept.len() == 0 {
                    None
                } else {
                    Some(join_query(kept))
                };
                match url_with_query_of(resolved, q) {
                    Some(u) => Some(u),
                    None => Some(resolved),
                }
            }
        },
    }
}

/// The cleaned link: the link without tracking, refused (`None`) when its scheme runs
/// script (`javascript:` or `vbscript:`, in any case, spaces and control characters
/// skipped).
pub open spec fn clean_url_spec(href: Seq<char>, base: Seq<char>, trackers: Set<Seq<char>>) -> Option<
    Seq<char>,
> {
    match untracked_url_spec(href, base, trackers) {
        Some(u) => if scheme_runs_script(u) {
            None
        } else {
            Some(u)
        },
        None => None,
    }
}

/// Resolves `href` against `base_url` unless it is already an absolute `http://`,
/// `https://` or `data:` reference; where resolution fails it stays as it is.
pub fn resolve_url(href: &str, base_url: &str) -> (out: String)
    ensures
        out@ == resolve_url_spec(href@, base_url@),
{
    if str_starts_with(href, "http://") || str_starts_with(href, "https://") || str_starts_with(
        href,
        "data:",
    ) {
        return href.to_owned();
    }
    match url_join(base_url, href) {
        Some(r) => r,
        None => href.to_owned(),
    }
}

/// The query pairs without the tracking parameters (the listed ones and every `utm_*`).
pub fn keep_pairs(pairs: &Vec<(String, String)>) -> (kept: Vec<(String, String)>)
    ensures
        kept.deep_view() == kept_pairs(pairs.deep_view()),
{
    let ghost all = pairs.deep_view();
    let params = tracking_param_list();
    let mut kept: Vec<(String, String)> = Vec::new();
    let mut i: usize = 0;
    while i < pairs.len()
        invariant
            all == pairs.deep_view(),
            params@.map_values(|s: &str| s@) == tracking_params(),
            i <= all.len(),
            kept.deep_view() == kept_pairs(all.take(i as int)),
        decreases all.len() - i,
    {
        let name = chars_of(pairs[i].0.as_str());
        assert(all.take(i + 1).drop_last() == all.take(i as int));
        let utm = chars_of("utm_");
        if !list_contains(&params, name.as_slice()) && !starts_with(name.as_slice(), utm.as_slice()) {
            let ghost before = kept.deep_view();
            let p = (pairs[i].0.clone(), pairs[i].1.clone());
            kept.push(p);
            assert(kept.deep_view() =~= before.push(all[i as int]));
        }
        i = i + 1;
    }
    assert(all.take(all.len() as int) == all);
    kept
}

/// The pairs as `name=value`, each encoded again, joined with `&`.
pub fn join_pairs(pairs: &Vec<(String, String)>) -> (q: String)
    ensures
        q@ == join_query(pairs.deep_view()),
{
    let ghost all = pairs.deep_view();
    let mut q = String::new();
    let mut i: usize = 0;
    while i < pairs.len()
        invariant
            all == pairs.deep_view(),
            i <= all.len(),
            q@ == join_query(all.take(i as int)),
        decreases all.len() - i,
    {
        if i > 0 {
            push_str(&mut q, "&");
        }
        let k = urlencoding(pairs[i].0.as_str());
        let v = urlencoding(pairs[i].1.as_str());
        push_str(&mut q, k.as_str());
        push_str(&mut q, "=");
        push_str(&mut q, v.as_str());
        assert(all.take(i + 1).drop_last() == all.take(i as int));
        i = i + 1;
    }
    assert(all.take(all.len() as int) == all);
    q
}

/// Cleans a link: `None` when it points at a tracker domain or runs script, else the
/// resolved URL without its tracking query parameters.
pub fn clean_url(href: &str, base_url: &str, trackers: &TrackerSet) -> (out: Option<String>)
    ensures
        match out {
            Some(u) => clean_url_spec(href@, base_url@, trackers@) == Some(u@),
            None => clean_url_spec(href@, base_url@, trackers@) is None,
        },
{
    match untracked_url(href, base_url, trackers) {
        Some(u) => {
            let cs = chars_of(u.as_str());
            assert(cs@.skip(0) == cs@);
            if scheme_runs_script_at(cs.as_slice(), 0) {
                None
            } else {
                Some(u)
            }
        },
        None => None,
    }
}

/// The link without tracking: `None` when it points at a tracker domain, else the
/// resolved URL without its tracking query parameters.
pub fn untracked_url(href: &str, base_url: &str, trackers: &TrackerSet) -> (out: Option<String>)
    ensures
        match out {
            Some(u) => untracked_url_spec(href@, base_url@, trackers@) == Some(u@),
            None => untracked_url_spec(href@, base_url@, trackers@) is None,
        },
{
    let resolved = resolve_url(href, base_url);
    match url_parts(resolved.as_str()) {
        None => Some(resolved),
        Some(parts) => {
            match &parts.domain {
                Some(domain) => {
                    if is_tracker_domain(domain.as_str(), trackers) {
                        return None;
                    }
                },
                None => {},
            }
            let kept = keep_pairs(&parts.query_pairs);
            let requeried = if kept.len() == 0 {
                url_with_query(resolved.as_str(), None)
            } else {
                let qs = join_pairs(&kept);
                url_with_query(resolved.as_str(), Some(qs.as_str()))
            };
            match requeried {
                Some(u) => Some(u),
                None => Some(resolved),
            }
        },
    }
}

/// An image is for tracking when its lower-cased URL holds one of the tracking patterns,
/// or its domain is a tracker.
pub open spec fn is_tracking_image_spec(src: Seq<char>, trackers: Set<Seq<char>>) -> bool {
    ||| exists|j: int|
        0 <= j < tracking_url_patterns().len() && contains_seq(
            lowercase_of(src),
            #[trigger] tracking_url_patterns()[j],
        )
    ||| match url_parts_of(src) {
        Some(parts) => parts.0 matches Some(d) && is_tracker_domain_spec(d, trackers),
        None => false,
    }
}

/// Whether an image URL is a tracking pixel or comes from a tracker domain.
pub fn is_tracking_image(src: &str, trackers: &TrackerSet) -> (b: bool)
    ensures
        b == is_tracking_image_spec(src@, trackers@),
{
    let lower = to_lowercase(src);
    let lower_chars = chars_of(lower.as_str());
    let pats = tracking_url_pattern_list();
    assert forall|j: int| 0 <= j < pats@.len() implies #[trigger] pats@[j]@
        == tracking_url_patterns()[j] by {
        assert(pats@.map_values(|s: &str| s@)[j] == pats@[j]@);
    }
    if any_occurs(lower_chars.as_slice(), &pats) {
        return true;
    }
    match url_parts(src) {
        Some(parts) => match &parts.domain {
            Some(domain) => is_tracker_domain(domain.as_str(), trackers),
            None => false,
        },
        None => false,
    }
}

// ---------------------------------------------------------------------------
// HTML rewriting

/// Three or more line breaks in a row, with any whitespace after each.
pub const BR_RUN_PATTERN: &'static str = r"(<br\s*/?>[\s]*){3,}";

/// Self-closing dangerous elements.
pub const SELF_CLOSING_PATTERN: &'static str =
    r"(?i)<(?:script|style|iframe|object|embed|applet|canvas|form)[^>]*/>";

/// Double-quoted event handlers.
pub const EVENT_DQ_PATTERN: &'static str = r#"(?i)\s+on\w+\s*=\s*"[^"]*""#;

/// Single-quoted event handlers.
pub const EVENT_SQ_PATTERN: &'static str = r"(?i)\s+on\w+\s*=\s*'[^']*'";

/// An unquoted event handler inside a tag, with the tag up to it in group 1.
pub const EVENT_UQ_PATTERN: &'static str = r#"(?i)(<[a-z][^<>]*?)\s+on\w+\s*=\s*[^\s>"']+"#;

/// `data-*` attributes.
pub const DATA_ATTR_PATTERN: &'static str = r#"(?i)\s+data-[\w-]+\s*=\s*"[^"]*""#;

/// `style` attributes.
pub const STYLE_ATTR_PATTERN: &'static str = r#"(?i)\s+style\s*=\s*"[^"]*""#;

/// `class` and `id` attributes.
pub const CLASS_ATTR_PATTERN: &'static str = r#"(?i)\s+(class|id)\s*=\s*"[^"]*""#;

/// HTML comments.
pub const COMMENT_PATTERN: &'static str = r"(?s)<!--.*?-->";

/// `href` attributes, with the link in group 1.
pub const HREF_PATTERN: &'static str = r#"href\s*=\s*"([^"]*)""#;

/// Image elements, with the source in group 1.
pub const IMG_PATTERN: &'static str = r#"<img[^>]*src\s*=\s*"([^"]*)"[^>]*>"#;

/// Non-empty `src` attributes, with the source in group 1.
pub const IMG_SRC_PATTERN: &'static str = r#"src\s*=\s*"([^"]+)""#;

/// Runs of three or more line breaks become two.
pub open spec fn collapse_whitespace_spec(html: Seq<char>) -> Seq<char> {
    replace_each(BR_RUN_PATTERN@, html, constant_fill("<br><br>"@))
}

/// Replaces runs of three or more `<br>` (with any whitespace after each) by two.
pub fn collapse_whitespace(html: &str) -> (out: String)
    ensures
        out@ == collapse_whitespace_spec(html@),
{
    replace_all_with(BR_RUN_PATTERN, html, "<br><br>")
}

/// Elements removed together with their content.
pub open spec fn dangerous_tags() -> Seq<Seq<char>> {
    seq![
        "script"@, "style"@, "noscript"@, "iframe"@, "object"@, "embed"@, "applet"@, "svg"@,
        "math"@, "canvas"@, "form"@,
    ]
}

/// Elements removed together with their content.
pub fn dangerous_tag_list() -> (v: Vec<&'static str>)
    ensures
        v@.map_values(|s: &str| s@) == dangerous_tags(),
{
    let v = vec![
        "script", "style", "noscript", "iframe", "object", "embed", "applet", "svg", "math",
        "canvas", "form",
    ];
    assert(v@.map_values(|s: &str| s@) == dangerous_tags());
    v
}

/// The pattern for an element `tag` with its content, case-insensitive and across lines.
pub open spec fn tag_block_pattern(tag: Seq<char>) -> Seq<char> {
    "(?si)<"@ + tag + "[^>]*>.*?</"@ + tag + ">"@
}

/// The pattern for an element `tag` with its content.
pub fn tag_block_pattern_of(tag: &str) -> (p: String)
    ensures
        p@ == tag_block_pattern(tag@),
{
    let mut p = String::new();
    push_str(&mut p, "(?si)<");
    push_str(&mut p, tag);
    push_str(&mut p, "[^>]*>.*?</");
    push_str(&mut p, tag);
    push_str(&mut p, ">");
    p
}

/// `html` with every element of the listed tags removed with its content, tag by tag.
pub open spec fn strip_tag_blocks(html: Seq<char>, tags: Seq<Seq<char>>) -> Seq<char>
    decreases tags.len(),
{
    if tags.len() == 0 {
        html
    } else {
        replace_each(
            tag_block_pattern(tags.last()),
            strip_tag_blocks(html, tags.drop_last()),
            constant_fill(Seq::empty()),
        )
    }
}

/// The attribute and comment patterns removed after the dangerous elements, in order.
pub open spec fn removal_patterns() -> Seq<Seq<char>> {
    seq![
        SELF_CLOSING_PATTERN@, EVENT_DQ_PATTERN@, EVENT_SQ_PATTERN@,
        DATA_ATTR_PATTERN@, STYLE_ATTR_PATTERN@, CLASS_ATTR_PATTERN@, COMMENT_PATTERN@,
    ]
}

/// The attribute and comment patterns removed after the dangerous elements, in order.
pub fn removal_pattern_list() -> (v: Vec<&'static str>)
    ensures
        v@.map_values(|s: &str| s@) == removal_patterns(),
{
    let v = vec![
        SELF_CLOSING_PATTERN, EVENT_DQ_PATTERN, EVENT_SQ_PATTERN,
        DATA_ATTR_PATTERN, STYLE_ATTR_PATTERN, CLASS_ATTR_PATTERN, COMMENT_PATTERN,
    ];
    assert(v@.map_values(|s: &str| s@) == removal_patterns());
    v
}

/// `html` with every match of the listed patterns removed, pattern by pattern.
pub open spec fn strip_patterns(html: Seq<char>, patterns: Seq<Seq<char>>) -> Seq<char>
    decreases patterns.len(),
{
    if patterns.len() == 0 {
        html
    } else {
        replace_each(patterns.last(), strip_patterns(html, patterns.drop_last()), constant_fill(Seq::empty()))
    }
}

/// A match keeps its first group: the tag up to the handler removed.
pub open spec fn keep_tag_fill() -> spec_fn(GroupsView) -> Seq<char> {
    |m: GroupsView|
        match group(m, 1) {
            None => whole(m),
            Some(g) => g,
        }
}

/// Unquoted event handlers removed from the tags they stand in, one per tag and pass, the
/// pass repeated while it removes something.
pub open spec fn strip_unquoted_handlers(html: Seq<char>) -> Seq<char>
    decreases html.len(),
{
    let next = replace_each(EVENT_UQ_PATTERN@, html, keep_tag_fill());
    if next.len() < html.len() {
        strip_unquoted_handlers(next)
    } else {
        next
    }
}

/// An `href` attribute becomes `href="<cleaned link>"`, or goes when the link points at
/// a tracker.
pub open spec fn href_fill(base: Seq<char>, trackers: Set<Seq<char>>) -> spec_fn(GroupsView) -> Seq<char> {
    |m: GroupsView|
        match group(m, 1) {
            None => whole(m),
            Some(h) => match clean_url_spec(h, base, trackers) {
                Some(u) => "href=\""@ + escape_attr_spec(u) + "\""@,
                None => Seq::empty(),
            },
        }
}

/// A tracking image goes; any other stays as it is.
pub open spec fn img_fill(trackers: Set<Seq<char>>) -> spec_fn(GroupsView) -> Seq<char> {
    |m: GroupsView|
        match group(m, 1) {
            None => whole(m),
            Some(src) => if is_tracking_image_spec(src, trackers) {
                Seq::empty()
            } else {
                whole(m)
            },
        }
}

/// A relative `src` becomes `src="<resolved>"`; one that starts with `http` or `data:`,
/// or does not resolve, stays as it is.
pub open spec fn img_src_fill(base: Seq<char>) -> spec_fn(GroupsView) -> Seq<char> {
    |m: GroupsView|
        match group(m, 1) {
            None => whole(m),
            Some(src) => if starts_with_seq(src, "http"@) || starts_with_seq(src, "data:"@) {
                whole(m)
            } else {
                match url_join_of(base, src) {
                    Some(r) => "src=\""@ + escape_attr_spec(r) + "\""@,
                    None => whole(m),
                }
            },
        }
}

/// The dangerous elements removed with their content, tag by tag, the whole pass
/// repeated while it removes something and the text still opens a dangerous element (an
/// element can close around what a pass removed).
pub open spec fn strip_dangerous_until_clean(html: Seq<char>) -> Seq<char>
    decreases html.len(),
{
    let next = strip_tag_blocks(html, dangerous_tags());
    if next.len() < html.len() && has_dangerous_opener(next) {
        strip_dangerous_until_clean(next)
    } else {
        next
    }
}

/// What `sanitize_simple` gives: the steps in order, the resolution of image sources
/// only when the base URL parses, then every `<` that still opens a dangerous element
/// written as `&lt;`, and last `_` put before the name of every event handler attribute
/// and before every attribute value with a script scheme still left.
pub open spec fn sanitize_spec(html: Seq<char>, base: Seq<char>, trackers: Set<Seq<char>>) -> Seq<char> {
    let s1 = strip_dangerous_until_clean(html);
    let s2 = strip_unquoted_handlers(strip_patterns(s1, removal_patterns()));
    let s3 = replace_each(HREF_PATTERN@, s2, href_fill(base, trackers));
    let s4 = replace_each(IMG_PATTERN@, s3, img_fill(trackers));
    let s5 = if url_parts_of(base) is Some {
        replace_each(IMG_SRC_PATTERN@, s4, img_src_fill(base))
    } else {
        s4
    };
    disarm_spec(defuse_spec(collapse_whitespace_spec(s5)))
}

/// Rewrites every `href` attribute to its cleaned link, or removes it.
pub fn rewrite_hrefs(html: &str, base_url: &str, trackers: &TrackerSet) -> (out: String)
    ensures
        out@ == replace_each(HREF_PATTERN@, html@, href_fill(base_url@, trackers@)),
{
    match regex_scan(HREF_PATTERN, html) {
        None => html.to_owned(),
        Some(scan) => {
            let ghost sv = scan.view();
            let ghost f = href_fill(base_url@, trackers@);
            let mut fills: Vec<String> = Vec::new();
            let mut i: usize = 0;
            while i < scan.matches.len()
                invariant
                    sv == scan.view(),
                    f == href_fill(base_url@, trackers@),
                    i <= sv.1.len(),
                    fills.deep_view() == sv.1.take(i as int).map_values(f),
                decreases sv.1.len() - i,
            {
                let m = &scan.matches[i];
                assert(m.deep_view() == sv.1[i as int]);
                let fill = match group_at(m, 1) {
                    None => whole_match(m),
                    Some(h) => match clean_url(h, base_url, trackers) {
                        Some(u) => {
                            let mut r = String::new();
                            push_str(&mut r, "href=\"");
                            let e = html_escape_attr(u.as_str());
                            push_str(&mut r, e.as_str());
                            push_str(&mut r, "\"");
                            r
                        },
                        None => String::new(),
                    },
                };
                assert(fill@ == f(sv.1[i as int]));
                let ghost before = fills.deep_view();
                fills.push(fill);
                assert(fills.deep_view() =~= before.push(f(sv.1[i as int])));
                assert(sv.1.take(i + 1).map_values(f) =~= sv.1.take(i as int).map_values(f).push(
                    f(sv.1[i as int]),
                ));
                i = i + 1;
            }
            assert(sv.1.take(sv.1.len() as int) == sv.1);
            splice(&scan.gaps, &fills)
        },
    }
}

/// Removes the first unquoted event handler of each tag.
pub fn remove_unquoted_handlers(html: &str) -> (out: String)
    ensures
        out@ == replace_each(EVENT_UQ_PATTERN@, html@, keep_tag_fill()),
{
    match regex_scan(EVENT_UQ_PATTERN, html) {
        None => html.to_owned(),
        Some(scan) => {
            let ghost sv = scan.view();
            let ghost f = keep_tag_fill();
            let mut fills: Vec<String> = Vec::new();
            let mut i: usize = 0;
            while i < scan.matches.len()
                invariant
                    sv == scan.view(),
                    f == keep_tag_fill(),
                    i <= sv.1.len(),
                    fills.deep_view() == sv.1.take(i as int).map_values(f),
                decreases sv.1.len() - i,
            {
                let m = &scan.matches[i];
                assert(m.deep_view() == sv.1[i as int]);
                let fill = match group_at(m, 1) {
                    None => whole_match(m),
                    Some(g) => g.to_owned(),
                };
                assert(fill@ == f(sv.1[i as int]));
                let ghost before = fills.deep_view();
                fills.push(fill);
                assert(fills.deep_view() =~= before.push(f(sv.1[i as int])));
                assert(sv.1.take(i + 1).map_values(f) =~= sv.1.take(i as int).map_values(f).push(
                    f(sv.1[i as int]),
                ));
                i = i + 1;
            }
            assert(sv.1.take(sv.1.len() as int) == sv.1);
            splice(&scan.gaps, &fills)
        },
    }
}

/// Removes the unquoted event handlers of tags, pass after pass while one removes
/// something.
pub fn strip_unquoted_handlers_all(html: &str) -> (out: String)
    ensures
        out@ == strip_unquoted_handlers(html@),
{
    let mut prev = html.to_owned();
    let mut cur = remove_unquoted_handlers(html);
    let mut again = chars_of(cur.as_str()).len() < chars_of(prev.as_str()).len();
    while again
        invariant
            strip_unquoted_handlers(html@) == strip_unquoted_handlers(prev@),
            cur@ == replace_each(EVENT_UQ_PATTERN@, prev@, keep_tag_fill()),
            again == (cur@.len() < prev@.len()),
        decreases prev@.len(),
    {
        prev = cur;
        cur = remove_unquoted_handlers(prev.as_str());
        again = chars_of(cur.as_str()).len() < chars_of(prev.as_str()).len();
    }
    cur
}

/// Removes tracking images.
pub fn remove_tracking_images(html: &str, trackers: &TrackerSet) -> (out: String)
    ensures
        out@ == replace_each(IMG_PATTERN@, html@, img_fill(trackers@)),
{
    match regex_scan(IMG_PATTERN, html) {
        None => html.to_owned(),
        Some(scan) => {
            let ghost sv = scan.view();
            let ghost f = img_fill(trackers@);
            let mut fills: Vec<String> = Vec::new();
            let mut i: usize = 0;
            while i < scan.matches.len()
                invariant
                    sv == scan.view(),
                    f == img_fill(trackers@),
                    i <= sv.1.len(),
                    fills.deep_view() == sv.1.take(i as int).map_values(f),
                decreases sv.1.len() - i,
            {
                let m = &scan.matches[i];
                assert(m.deep_view() == sv.1[i as int]);
                let fill = match group_at(m, 1) {
                    None => whole_match(m),
                    Some(src) => if is_tracking_image(src, trackers) {
                        String::new()
                    } else {
                        whole_match(m)
                    },
                };
                assert(fill@ == f(sv.1[i as int]));
                let ghost before = fills.deep_view();
                fills.push(fill);
                assert(fills.deep_view() =~= before.push(f(sv.1[i as int])));
                assert(sv.1.take(i + 1).map_values(f) =~= sv.1.take(i as int).map_values(f).push(
                    f(sv.1[i as int]),
                ));
                i = i + 1;
            }
            assert(sv.1.take(sv.1.len() as int) == sv.1);
            splice(&scan.gaps, &fills)
        },
    }
}

/// Resolves relative image sources against the base URL.
pub fn resolve_image_sources(html: &str, base_url: &str) -> (out: String)
    ensures
        out@ == replace_each(IMG_SRC_PATTERN@, html@, img_src_fill(base_url@)),
{
    match regex_scan(IMG_SRC_PATTERN, html) {
        None => html.to_owned(),
        Some(scan) => {
            let ghost sv = scan.view();
            let ghost f = img_src_fill(base_url@);
            let mut fills: Vec<String> = Vec::new();
            let mut i: usize = 0;
            while i < scan.matches.len()
                invariant
                    sv == scan.view(),
                    f == img_src_fill(base_url@),
                    i <= sv.1.len(),
                    fills.deep_view() == sv.1.take(i as int).map_values(f),
                decreases sv.1.len() - i,
            {
                let m = &scan.matches[i];
                assert(m.deep_view() == sv.1[i as int]);
                let fill = match group_at(m, 1) {
                    None => whole_match(m),
                    Some(src) => if str_starts_with(src, "http") || str_starts_with(src, "data:") {
                        whole_match(m)
                    } else {
                        match url_join(base_url, src) {
                            Some(r) => {
                                let mut out = String::new();
                                push_str(&mut out, "src=\"");
                                let e = html_escape_attr(r.as_str());
                                push_str(&mut out, e.as_str());
                                push_str(&mut out, "\"");
                                out
                            },
                            None => whole_match(m),
                        }
                    },
                };
                assert(fill@ == f(sv.1[i as int]));
                let ghost before = fills.deep_view();
                fills.push(fill);
                assert(fills.deep_view() =~= before.push(f(sv.1[i as int])));
                assert(sv.1.take(i + 1).map_values(f) =~= sv.1.take(i as int).map_values(f).push(
                    f(sv.1[i as int]),
                ));
                i = i + 1;
            }
            assert(sv.1.take(sv.1.len() as int) == sv.1);
            splice(&scan.gaps, &fills)
        },
    }
}

/// Sanitizes HTML: removes dangerous elements with their content (`script`, `style`,
/// `noscript`, `iframe`, `object`, `embed`, `applet`, `svg`, `math`, `canvas`, `form`),
/// again and again while that removes something and one is still opened, then their
/// self-closing forms, quoted event handlers, `data-*`, `style`, `class` and `id`
/// attributes, comments, and unquoted event handlers inside tags; cleans links (refusing
/// script links); drops tracking images; resolves relative image sources when the base
/// URL parses; collapses runs of line breaks; and last writes any `<` that still opens a
/// dangerous element as `&lt;` and, inside tags, puts `_` before the name of any event
/// handler attribute, and before any attribute value with a script scheme
/// (`javascript:`, `vbscript:`), still left. The result opens no dangerous element, in
/// any case, and no tag in it holds an event handler attribute or a script value.
pub fn sanitize_simple(html: &str, base_url: &str, tracker_domains: &TrackerSet) -> (out: String)
    ensures
        out@ == sanitize_spec(html@, base_url@, tracker_domains@),
        !has_dangerous_opener(out@),
        !has_event_handler(out@),
        !has_script_value(out@),
{
    let mut prev = html.to_owned();
    let mut cleaned = strip_dangerous_blocks(html);
    let mut again = chars_of(cleaned.as_str()).len() < chars_of(prev.as_str()).len()
        && contains_dangerous_opener(cleaned.as_str());
    while again
        invariant
            strip_dangerous_until_clean(html@) == strip_dangerous_until_clean(prev@),
            cleaned@ == strip_tag_blocks(prev@, dangerous_tags()),
            again == (cleaned@.len() < prev@.len() && has_dangerous_opener(cleaned@)),
        decreases prev@.len(),
    {
        prev = cleaned;
        cleaned = strip_dangerous_blocks(prev.as_str());
        again = chars_of(cleaned.as_str()).len() < chars_of(prev.as_str()).len()
            && contains_dangerous_opener(cleaned.as_str());
    }
    assert(cleaned@ == strip_dangerous_until_clean(html@));

    let patterns = removal_pattern_list();
    let ghost pattern_texts = patterns@.map_values(|s: &str| s@);
    let ghost s1 = cleaned@;
    let mut j: usize = 0;
    while j < patterns.len()
        invariant
            pattern_texts == patterns@.map_values(|s: &str| s@),
            j <= patterns@.len(),
            cleaned@ == strip_patterns(s1, pattern_texts.take(j as int)),
        decreases patterns@.len() - j,
    {
        cleaned = replace_all_with(patterns[j], cleaned.as_str(), "");
        proof {
            reveal_strlit("");
            assert(""@ =~= Seq::<char>::empty());
        }
        assert(pattern_texts.take(j + 1).drop_last() == pattern_texts.take(j as int));
        assert(pattern_texts.take(j + 1).last() == patterns@[j as int]@);
        j = j + 1;
    }
    assert(pattern_texts.take(patterns@.len() as int) == pattern_texts);

    cleaned = strip_unquoted_handlers_all(cleaned.as_str());
    cleaned = rewrite_hrefs(cleaned.as_str(), base_url, tracker_domains);
    cleaned = remove_tracking_images(cleaned.as_str(), tracker_domains);
    if url_parts(base_url).is_some() {
        cleaned = resolve_image_sources(cleaned.as_str(), base_url);
    }
    let collapsed = collapse_whitespace(cleaned.as_str());
    let defused = defuse(collapsed.as_str());
    proof {
        lemma_disarm_keeps_no_opener(Tok::Data, defused@);
    }
    disarm(defused.as_str())
}

/// One pass over the dangerous elements: each removed with its content, tag by tag.
pub fn strip_dangerous_blocks(html: &str) -> (out: String)
    ensures
        out@ == strip_tag_blocks(html@, dangerous_tags()),
{
    proof {
        reveal_strlit("");
    }
    let tags = dangerous_tag_list();
    let ghost tag_names = tags@.map_values(|s: &str| s@);
    let mut cleaned = html.to_owned();
    let mut i: usize = 0;
    while i < tags.len()
        invariant
            tag_names == tags@.map_values(|s: &str| s@),
            tag_names == dangerous_tags(),
            i <= tags@.len(),
            cleaned@ == strip_tag_blocks(html@, tag_names.take(i as int)),
        decreases tags@.len() - i,
    {
        let pattern = tag_block_pattern_of(tags[i]);
        cleaned = replace_all_with(pattern.as_str(), cleaned.as_str(), "");
        proof {
            reveal_strlit("");
            assert(""@ =~= Seq::<char>::empty());
        }
        assert(tag_names.take(i + 1).drop_last() == tag_names.take(i as int));
        assert(tag_names.take(i + 1).last() == tags@[i as int]@);
        i = i + 1;
    }
    assert(tag_names.take(tags@.len() as int) == tag_names);
    cleaned
}


/// Law: an escaped attribute value holds no `"`, `<` or `>`, so it cannot end the
/// attribute or the element it stands in.
pub proof fn lemma_escape_attr_is_inert(s: Seq<char>)
    ensures
        forall|i: int|
            0 <= i < escape_attr_spec(s).len() ==> {
                let c = #[trigger] escape_attr_spec(s)[i];
                c != '"' && c != '<' && c != '>'
            },
    decreases s.len(),
{
    reveal_strlit("&amp;");
    reveal_strlit("&quot;");
    reveal_strlit("&lt;");
    reveal_strlit("&gt;");
    if s.len() > 0 {
        lemma_escape_attr_is_inert(s.drop_last());
        let prev = escape_attr_spec(s.drop_last());
        let last = esc_attr_char(s.last());
        assert forall|i: int| 0 <= i < escape_attr_spec(s).len() implies {
            let c = #[trigger] escape_attr_spec(s)[i];
            c != '"' && c != '<' && c != '>'
        } by {
            if i < prev.len() {
                assert(escape_attr_spec(s)[i] == prev[i]);
            } else {
                assert(escape_attr_spec(s)[i] == last[i - prev.len()]);
            }
        }
    }
}

/// Law: cleaning a query keeps exactly the pairs whose name is not a tracking parameter,
/// in their order.
pub proof fn lemma_kept_pairs_is_filter(pairs: Seq<(Seq<char>, Seq<char>)>)
    ensures
        kept_pairs(pairs) == pairs.filter(|p: (Seq<char>, Seq<char>)| !is_tracking_param(p.0)),
    decreases pairs.len(),
{
    reveal_with_fuel(Seq::filter, 1);
    if pairs.len() > 0 {
        lemma_kept_pairs_is_filter(pairs.drop_last());
    }
}

/// Law: no pair kept in a cleaned query is a tracking parameter: none of the listed
/// names, and no name that starts with `utm_`.
pub proof fn lemma_kept_pairs_have_no_tracking_params(pairs: Seq<(Seq<char>, Seq<char>)>)
    ensures
        forall|k: int|
            0 <= k < kept_pairs(pairs).len() ==> !tracking_params().contains(
                #[trigger] kept_pairs(pairs)[k].0,
            ) && !starts_with_seq(kept_pairs(pairs)[k].0, "utm_"@),
    decreases pairs.len(),
{
    if pairs.len() > 0 {
        lemma_kept_pairs_have_no_tracking_params(pairs.drop_last());
        let prev = kept_pairs(pairs.drop_last());
        assert forall|k: int| 0 <= k < kept_pairs(pairs).len() implies !tracking_params().contains(
            #[trigger] kept_pairs(pairs)[k].0,
        ) && !starts_with_seq(kept_pairs(pairs)[k].0, "utm_"@) by {
            if k < prev.len() {
                assert(kept_pairs(pairs)[k] == prev[k]);
            }
        }
    }
}

/// Law: no pair kept in a cleaned query is named `utm_source`, `utm_medium`,
/// `utm_campaign`, `utm_term`, `utm_content`, `fbclid`, `gclid`, `mc_cid`, `mc_eid`, `_ga`,
/// `_gl`, `ref`, `source`, `ocid`, `icid` or `ncid`, nor anything else that starts with
/// `utm_`; every pair with another name is kept.
pub proof fn lemma_cleaned_query_keeps_no_tracking_names(pairs: Seq<(Seq<char>, Seq<char>)>)
    ensures
        forall|k: int|
            0 <= k < kept_pairs(pairs).len() ==> !seq![
                "utm_source"@, "utm_medium"@, "utm_campaign"@, "utm_term"@, "utm_content"@,
                "fbclid"@, "gclid"@, "mc_cid"@, "mc_eid"@, "_ga"@, "_gl"@, "ref"@, "source"@,
                "ocid"@, "icid"@, "ncid"@,
            ].contains(#[trigger] kept_pairs(pairs)[k].0) && !starts_with_seq(
                kept_pairs(pairs)[k].0,
                "utm_"@,
            ),
        forall|k: int|
            0 <= k < pairs.len() && !seq![
                "utm_source"@, "utm_medium"@, "utm_campaign"@, "utm_term"@, "utm_content"@,
                "fbclid"@, "gclid"@, "mc_cid"@, "mc_eid"@, "_ga"@, "_gl"@, "ref"@, "source"@,
                "ocid"@, "icid"@, "ncid"@,
            ].contains(#[trigger] pairs[k].0) && !starts_with_seq(pairs[k].0, "utm_"@)
                ==> kept_pairs(pairs).contains(pairs[k]),
{
    let listed = seq![
        "utm_source"@, "utm_medium"@, "utm_campaign"@, "utm_term"@, "utm_content"@, "fbclid"@,
        "gclid"@, "mc_cid"@, "mc_eid"@, "_ga"@, "_gl"@, "ref"@, "source"@, "ocid"@, "icid"@,
        "ncid"@,
    ];
    assert(listed =~= tracking_params());
    lemma_kept_pairs_have_no_tracking_params(pairs);
    lemma_kept_pairs_is_filter(pairs);
    let keep = |p: (Seq<char>, Seq<char>)| !is_tracking_param(p.0);
    assert forall|k: int|
        0 <= k < pairs.len() && !listed.contains(#[trigger] pairs[k].0) && !starts_with_seq(
            pairs[k].0,
            "utm_"@,
        ) implies kept_pairs(pairs).contains(pairs[k]) by {
        assert(pairs.contains(pairs[k]));
        pairs.filter_lemma(keep);
        assert(keep(pairs[k]));
    }
}

/// Law: an image whose lower-cased address holds `/pixel`, `/beacon`, `1x1`, `__utm`,
/// `tr.gif`, `spacer.gif`, `/track`, `/analytics`, `collect?` or `log?` is a tracking
/// image, whatever its domain.
pub proof fn lemma_tracking_image_patterns(src: Seq<char>, trackers: Set<Seq<char>>, p: Seq<char>)
    requires
        seq![
            "/pixel"@, "/beacon"@, "1x1"@, "__utm"@, "tr.gif"@, "spacer.gif"@, "/track"@,
            "/analytics"@, "collect?"@, "log?"@,
        ].contains(p),
        contains_seq(lowercase_of(src), p),
    ensures
        is_tracking_image_spec(src, trackers),
{
    let listed = seq![
        "/pixel"@, "/beacon"@, "1x1"@, "__utm"@, "tr.gif"@, "spacer.gif"@, "/track"@,
        "/analytics"@, "collect?"@, "log?"@,
    ];
    assert(listed =~= tracking_url_patterns());
    let j = choose|j: int| 0 <= j < listed.len() && listed[j] == p;
    assert(contains_seq(lowercase_of(src), tracking_url_patterns()[j]));
}

/// Law: a cleaned link never runs script.
pub proof fn lemma_clean_url_refuses_script_links(href: Seq<char>, base: Seq<char>, trackers: Set<Seq<char>>)
    ensures
        clean_url_spec(href, base, trackers) matches Some(u) ==> !scheme_runs_script(u),
{
}

/// Law: sanitized HTML opens no dangerous element (`script`, `style`, `noscript`,
/// `iframe`, `object`, `embed`, `applet`, `svg`, `math`, `canvas`, `form`), whatever the
/// case of its name, and, read as an HTML tokenizer reads its tags, no tag in it holds
/// an event handler attribute or an attribute value with a script scheme (`javascript:`,
/// `vbscript:`, in any case, spaces and control characters skipped).
pub proof fn lemma_sanitized_is_inert(html: Seq<char>, base: Seq<char>, trackers: Set<Seq<char>>)
    ensures
        !has_dangerous_opener(sanitize_spec(html, base, trackers)),
        !has_event_handler(sanitize_spec(html, base, trackers)),
        !has_script_value(sanitize_spec(html, base, trackers)),
{
    let s1 = strip_dangerous_until_clean(html);
    let s2 = strip_unquoted_handlers(strip_patterns(s1, removal_patterns()));
    let s3 = replace_each(HREF_PATTERN@, s2, href_fill(base, trackers));
    let s4 = replace_each(IMG_PATTERN@, s3, img_fill(trackers));
    let s5 = if url_parts_of(base) is Some {
        replace_each(IMG_SRC_PATTERN@, s4, img_src_fill(base))
    } else {
        s4
    };
    let defused = defuse_spec(collapse_whitespace_spec(s5));
    lemma_defuse_leaves_no_opener(collapse_whitespace_spec(s5));
    lemma_disarm_keeps_no_opener(Tok::Data, defused);
    lemma_disarm_leaves_attrs_inert(Tok::Data, defused);
    lemma_inert_attrs(Tok::Data, disarm_spec(defused));
}

/// Law: no `<` in sanitized HTML opens `script`, `style`, `noscript`, `iframe`, `object`,
/// `embed`, `applet`, `svg`, `math`, `canvas` or `form`, whatever the case of the name.
pub proof fn lemma_sanitized_opens_none_of_the_removed_elements(
    html: Seq<char>,
    base: Seq<char>,
    trackers: Set<Seq<char>>,
)
    ensures
        forall|i: int, name: Seq<char>|
            #![trigger starts_with_ci(sanitize_spec(html, base, trackers).skip(i + 1), name)]
            seq![
                "script"@, "style"@, "noscript"@, "iframe"@, "object"@, "embed"@, "applet"@,
                "svg"@, "math"@, "canvas"@, "form"@,
            ].contains(name) && 0 <= i < sanitize_spec(html, base, trackers).len()
                && sanitize_spec(html, base, trackers)[i] == '<' ==> !starts_with_ci(
                sanitize_spec(html, base, trackers).skip(i + 1),
                name,
            ),
{
    let out = sanitize_spec(html, base, trackers);
    let listed = seq![
        "script"@, "style"@, "noscript"@, "iframe"@, "object"@, "embed"@, "applet"@, "svg"@,
        "math"@, "canvas"@, "form"@,
    ];
    lemma_sanitized_is_inert(html, base, trackers);
    assert(listed =~= dangerous_tags());
    assert forall|i: int, name: Seq<char>|
        listed.contains(name) && 0 <= i < out.len() && out[i] == '<' implies !starts_with_ci(
        out.skip(i + 1),
        name,
    ) by {
        let j = choose|j: int| 0 <= j < listed.len() && listed[j] == name;
        if starts_with_ci(out.skip(i + 1), name) {
            assert(starts_with_ci(out.skip(i + 1), dangerous_tags()[j]));
            assert(opens_dangerous_at(out, i));
        }
    }
}

/// Law: every subdomain of a blocked domain is blocked too: a domain of at least two
/// labels, without a leading `www.`, that is a tracker (itself listed, or through a
/// listed parent) has every `<sub>.<domain>` a tracker as well.
pub proof fn lemma_subdomain_of_tracker(sub: Seq<char>, d: Seq<char>, trackers: Set<Seq<char>>)
    requires
        !starts_with_seq(d, "www."@),
        exists|q: int| 0 <= q < d.len() && d[q] == '.',
        is_tracker_domain_spec(d, trackers),
    ensures
        is_tracker_domain_spec(sub + seq!['.'] + d, trackers),
{
    reveal_strlit("www.");
    let full = sub + seq!['.'] + d;
    let st = strip_www(full);
    assert(strip_www(d) == d);
    if starts_with_seq(full, "www."@) && sub.len() < 4 {
        assert(full[sub.len() as int] == '.');
        assert(full.subrange(0, 4)[sub.len() as int] == "www."@[sub.len() as int]);
        assert(sub.len() == 3);
        assert(st =~= d);
    } else {
        let k: int = if starts_with_seq(full, "www."@) {
            4
        } else {
            0
        };
        let pre = sub.len() + 1 - k;
        assert(st =~= full.skip(k));
        assert(st.skip(pre) =~= d);
        assert(st[pre - 1] == '.');
        if trackers.contains(d) {
            let q = choose|q: int| 0 <= q < d.len() && d[q] == '.';
            assert(st[pre + q] == d[q]);
            assert(inner_dot(st, pre - 1));
            assert(st.skip(pre - 1 + 1) =~= d);
        } else {
            let p0 = choose|p: int| #[trigger] inner_dot(d, p) && trackers.contains(d.skip(p + 1));
            let q0 = choose|q: int| p0 < q < d.len() && d[q] == '.';
            assert(st[pre + p0] == d[p0]);
            assert(st[pre + q0] == d[q0]);
            assert(inner_dot(st, pre + p0));
            assert(st.skip(pre + p0 + 1) =~= d.skip(p0 + 1));
        }
    }
}

} // verus!
