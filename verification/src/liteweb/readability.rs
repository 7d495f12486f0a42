//! Readability extraction: the title, the byline and the main content of a page.
//! Candidate containers are scored by their class and id, their tag, the amount of
//! their text and its commas, and lose points when their text is mostly links.

use vstd::prelude::*;
use crate::dom::{
    ElementInfo, ElementView, FirstMatchView, elements_of, first_match_of, root_inner_html,
    root_inner_html_of, select_elements, select_first,
};
use crate::pattern::{is_match, is_match_spec};
use crate::text::{
    byte_len, chars_of, count_char, count_non_whitespace, count_non_ws, count_occurrences,
    contains_seq, is_last_occurrence, occurs_at, push_str, rfind, str_eq, trim, trim_range, trim_spec,
    utf8_len,
};

verus! {

/// What extraction gives.
#[derive(Debug, Clone)]
pub struct ReadabilityResult {
    pub title: String,
    pub byline: Option<String>,
    pub content_html: String,
    /// The number of non-whitespace characters of the content.
    pub text_length: usize,
}

/// The Open Graph title.
pub const OG_TITLE_SELECTOR: &'static str = "meta[property='og:title']";

/// The document title.
pub const TITLE_SELECTOR: &'static str = "title";

/// The first heading.
pub const H1_SELECTOR: &'static str = "h1";

/// The attribute that holds a meta element's value.
pub const CONTENT_ATTR: &'static str = "content";

/// Candidate containers of the main content.
pub const CONTAINER_SELECTOR: &'static str = "article, div, section, main, td";

/// Links inside a candidate.
pub const LINK_SELECTOR: &'static str = "a";

/// The document body.
pub const BODY_SELECTOR: &'static str = "body";

/// Class and id words that mark content.
pub const POSITIVE_PATTERN: &'static str =
    r"(?i)article|body|content|entry|main|page|post|text|blog|story";

/// Class and id words that mark everything but content.
pub const NEGATIVE_PATTERN: &'static str =
    r"(?i)hidden|banner|combx|comment|community|disqus|extra|foot|header|legends|menu|related|remark|rss|sharedaddy|sidebar|skyscraper|social|sponsor|ad-break|pagination|pager|popup|nav";

// ---------------------------------------------------------------------------
// Title

/// The title without a trailing ` - Site Name` (or else ` | Site Name`), trimmed.
pub open spec fn cut_title(text: Seq<char>) -> Seq<char> {
    if exists|i: int| occurs_at(text, " - "@, i) {
        trim_spec(text.take(choose|i: int| is_last_occurrence(text, " - "@, i)))
    } else if exists|i: int| occurs_at(text, " | "@, i) {
        trim_spec(text.take(choose|i: int| is_last_occurrence(text, " | "@, i)))
    } else {
        trim_spec(text)
    }
}

/// The title: a non-empty Open Graph title; else the document title cut at its last
/// ` - ` (or else ` | `) and trimmed; else the first heading trimmed; else "Untitled".
pub open spec fn choose_title_spec(
    og: Option<FirstMatchView>,
    title: Option<FirstMatchView>,
    h1: Option<FirstMatchView>,
) -> Seq<char> {
    if og matches Some(m) && m.0 matches Some(c) && c.len() > 0 {
        og.unwrap().0.unwrap()
    } else if title is Some {
        cut_title(title.unwrap().1)
    } else if h1 is Some {
        trim_spec(h1.unwrap().1)
    } else {
        "Untitled"@
    }
}

/// The title of the page `html`.
pub open spec fn title_spec(html: Seq<char>) -> Seq<char> {
    choose_title_spec(
        first_match_of(html, OG_TITLE_SELECTOR@, CONTENT_ATTR@),
        first_match_of(html, TITLE_SELECTOR@, CONTENT_ATTR@),
        first_match_of(html, H1_SELECTOR@, CONTENT_ATTR@),
    )
}

proof fn lemma_last_occurrence_unique(s: Seq<char>, n: Seq<char>, i: int)
    requires
        is_last_occurrence(s, n, i),
    ensures
        (choose|j: int| is_last_occurrence(s, n, j)) == i,
{
    let j = choose|j: int| is_last_occurrence(s, n, j);
    assert(is_last_occurrence(s, n, j));
    if j < i {
        assert(!occurs_at(s, n, i));
    } else if i < j {
        assert(!occurs_at(s, n, j));
    }
}

/// Cuts a document title at its last ` - ` (or else ` | `) and trims it.
pub fn cut_title_text(text: &str) -> (out: String)
    ensures
        out@ == cut_title(text@),
{
    let cs = chars_of(text);
    let dash = chars_of(" - ");
    let bar = chars_of(" | ");
    match rfind(cs.as_slice(), dash.as_slice()) {
        Some(pos) => {
            proof {
                lemma_last_occurrence_unique(text@, " - "@, pos as int);
            }
            assert(cs@.subrange(0, pos as int) == text@.take(pos as int));
            trim_range(cs.as_slice(), 0, pos)
        },
        None => match rfind(cs.as_slice(), bar.as_slice()) {
            Some(pos) => {
                proof {
                    lemma_last_occurrence_unique(text@, " | "@, pos as int);
                }
                assert(cs@.subrange(0, pos as int) == text@.take(pos as int));
                trim_range(cs.as_slice(), 0, pos)
            },
            None => trim(text),
        },
    }
}

/// Chooses the title from what the three selectors found.
pub fn choose_title(
    og: Option<crate::dom::FirstMatch>,
    title: Option<crate::dom::FirstMatch>,
    h1: Option<crate::dom::FirstMatch>,
) -> (out: String)
    ensures
        out@ == choose_title_spec(
            match og {
                Some(m) => Some(m.view()),
                None => None,
            },
            match title {
                Some(m) => Some(m.view()),
                None => None,
            },
            match h1 {
                Some(m) => Some(m.view()),
                None => None,
            },
        ),
{
    if let Some(m) = &og {
        if let Some(c) = &m.attr {
            if !c.as_str().is_empty() {
                return c.clone();
            }
        }
    }
    if let Some(t) = &title {
        return cut_title_text(t.text.as_str());
    }
    if let Some(h) = &h1 {
        return trim(h.text.as_str());
    }
    "Untitled".to_owned()
}

/// The title of a page: a non-empty Open Graph title, else the document title without
/// its site name, else the first heading, else "Untitled".
pub fn extract_title(html: &str) -> (out: String)
    ensures
        out@ == title_spec(html@),
{
    let og = select_first(html, OG_TITLE_SELECTOR, CONTENT_ATTR);
    let title = select_first(html, TITLE_SELECTOR, CONTENT_ATTR);
    let h1 = select_first(html, H1_SELECTOR, CONTENT_ATTR);
    choose_title(og, title, h1)
}

/// Law: a page without a non-empty Open Graph title that has a `<title>` element takes
/// its title from that element, whatever headings the page holds: the element's text up
/// to its last ` - ` (or, where there is none, its last ` | `), trimmed.
pub proof fn lemma_title_element_wins_over_headings(html: Seq<char>, t: FirstMatchView)
    requires
        first_match_of(html, "title"@, "content"@) == Some(t),
        !(first_match_of(html, "meta[property='og:title']"@, "content"@) matches Some(m) && m.0
            matches Some(c) && c.len() > 0),
    ensures
        forall|i: int| is_last_occurrence(t.1, " - "@, i) ==> title_spec(html) == trim_spec(
            t.1.take(i),
        ),
        forall|i: int|
            !contains_seq(t.1, " - "@) && is_last_occurrence(t.1, " | "@, i) ==> title_spec(html)
                == trim_spec(t.1.take(i)),
        !contains_seq(t.1, " - "@) && !contains_seq(t.1, " | "@) ==> title_spec(html) == trim_spec(
            t.1,
        ),
{
    assert forall|i: int| is_last_occurrence(t.1, " - "@, i) implies title_spec(html) == trim_spec(
        t.1.take(i),
    ) by {
        lemma_last_occurrence_unique(t.1, " - "@, i);
    }
    assert forall|i: int|
        !contains_seq(t.1, " - "@) && is_last_occurrence(t.1, " | "@, i) implies title_spec(html)
        == trim_spec(t.1.take(i)) by {
        lemma_last_occurrence_unique(t.1, " | "@, i);
    }
}

/// Law: the other title choices. A non-empty Open Graph title is the title as it is;
/// without one and without a `<title>` element, the first `<h1>` trimmed is; without
/// any of the three, the title is "Untitled".
pub proof fn lemma_title_other_choices(html: Seq<char>)
    ensures
        ({
            let og = first_match_of(html, "meta[property='og:title']"@, "content"@);
            let og_text: Option<Seq<char>> = match og {
                Some(m) => match m.0 {
                    Some(c) => if c.len() > 0 {
                        Some(c)
                    } else {
                        None
                    },
                    None => None,
                },
                None => None,
            };
            let t = first_match_of(html, "title"@, "content"@);
            let h = first_match_of(html, "h1"@, "content"@);
            &&& og_text is Some ==> title_spec(html) == og_text.unwrap()
            &&& og_text is None && t is None && h is Some ==> title_spec(html) == trim_spec(
                h.unwrap().1,
            )
            &&& og_text is None && t is None && h is None ==> title_spec(html) == "Untitled"@
        }),
{
}

// ---------------------------------------------------------------------------
// Byline

/// The author meta elements, in the order they are tried.
pub open spec fn author_meta_selectors() -> Seq<Seq<char>> {
    seq!["meta[name='author']"@, "meta[property='article:author']"@]
}

/// The author elements, in the order they are tried after the meta elements.
pub open spec fn author_element_selectors() -> Seq<Seq<char>> {
    seq![".author"@, "[rel='author']"@, ".byline"@, ".post-author"@]
}

/// The non-empty content of the first author meta element that has one.
pub open spec fn first_meta_author(found: Seq<Option<FirstMatchView>>) -> Option<Seq<char>>
    decreases found.len(),
{
    if found.len() == 0 {
        None
    } else if found[0] matches Some(m) && m.0 matches Some(c) && c.len() > 0 {
        found[0].unwrap().0
    } else {
        first_meta_author(found.skip(1))
    }
}

/// The trimmed text of the first author element whose trimmed text is non-empty and
/// shorter than 100 bytes.
pub open spec fn first_author_text(found: Seq<Option<FirstMatchView>>) -> Option<Seq<char>>
    decreases found.len(),
{
    if found.len() == 0 {
        None
    } else if found[0] matches Some(m) && trim_spec(m.1).len() > 0 && utf8_len(trim_spec(m.1))
        < 100 {
        Some(trim_spec(found[0].unwrap().1))
    } else {
        first_author_text(found.skip(1))
    }
}

/// What each selector found in `html`.
pub open spec fn found_by(html: Seq<char>, selectors: Seq<Seq<char>>) -> Seq<Option<FirstMatchView>> {
    selectors.map_values(|s: Seq<char>| first_match_of(html, s, CONTENT_ATTR@))
}

/// The byline of the page `html`: an author meta element's content, else the text of
/// an author element.
pub open spec fn byline_spec(html: Seq<char>) -> Option<Seq<char>> {
    match first_meta_author(found_by(html, author_meta_selectors())) {
        Some(a) => Some(a),
        None => first_author_text(found_by(html, author_element_selectors())),
    }
}

/// The attribute of a found element, when it is there and not empty.
pub open spec fn nonempty_attr(m: Option<FirstMatchView>) -> Option<Seq<char>> {
    match m {
        Some(mm) => match mm.0 {
            Some(c) => if c.len() > 0 {
                Some(c)
            } else {
                None
            },
            None => None,
        },
        None => None,
    }
}

/// The trimmed text of a found element.
pub open spec fn trimmed_text(m: Option<FirstMatchView>) -> Option<Seq<char>> {
    match m {
        Some(mm) => Some(trim_spec(mm.1)),
        None => None,
    }
}

proof fn lemma_meta_author_found(f: Seq<Option<FirstMatchView>>, x: Seq<char>)
    requires
        first_meta_author(f) == Some(x),
    ensures
        exists|k: int| 0 <= k < f.len() && nonempty_attr(#[trigger] f[k]) == Some(x),
    decreases f.len(),
{
    if nonempty_attr(f[0]) != Some(x) {
        lemma_meta_author_found(f.skip(1), x);
        let k = choose|k: int|
            0 <= k < f.skip(1).len() && nonempty_attr(#[trigger] f.skip(1)[k]) == Some(x);
        assert(f[k + 1] == f.skip(1)[k]);
    }
}

proof fn lemma_author_text_found(f: Seq<Option<FirstMatchView>>, x: Seq<char>)
    requires
        first_author_text(f) == Some(x),
    ensures
        x.len() > 0,
        utf8_len(x) < 100,
        exists|k: int| 0 <= k < f.len() && trimmed_text(#[trigger] f[k]) == Some(x),
    decreases f.len(),
{
    if f[0] is Some && trim_spec(f[0].unwrap().1).len() > 0 && utf8_len(trim_spec(f[0].unwrap().1))
        < 100 {
        assert(trimmed_text(f[0]) == Some(x));
    } else {
        lemma_author_text_found(f.skip(1), x);
        let k = choose|k: int|
            0 <= k < f.skip(1).len() && trimmed_text(#[trigger] f.skip(1)[k]) == Some(x);
        assert(f[k + 1] == f.skip(1)[k]);
    }
}

/// Law: the byline. The non-empty content of `meta[name='author']` comes first, then that
/// of `meta[property='article:author']`; without either, the byline is the trimmed text
/// of an element matching `.author`, `[rel='author']`, `.byline` or `.post-author`, and
/// is shorter than 100 bytes. A byline is never empty.
pub proof fn lemma_byline_choices(html: Seq<char>)
    ensures
        ({
            let a = nonempty_attr(first_match_of(html, "meta[name='author']"@, "content"@));
            let b = nonempty_attr(
                first_match_of(html, "meta[property='article:author']"@, "content"@),
            );
            &&& a is Some ==> byline_spec(html) == a
            &&& a is None && b is Some ==> byline_spec(html) == b
            &&& forall|x: Seq<char>| byline_spec(html) == Some(x) ==> x.len() > 0
            &&& forall|x: Seq<char>|
                a is None && b is None && byline_spec(html) == Some(x) ==> utf8_len(x) < 100
                    && exists|sel: Seq<char>|
                    seq![".author"@, "[rel='author']"@, ".byline"@, ".post-author"@].contains(sel)
                        && trimmed_text(#[trigger] first_match_of(html, sel, "content"@))
                        == Some(x)
        }),
{
    reveal_with_fuel(first_meta_author, 3);
    let metas = found_by(html, author_meta_selectors());
    let others = found_by(html, author_element_selectors());
    let listed = seq![".author"@, "[rel='author']"@, ".byline"@, ".post-author"@];
    assert(listed =~= author_element_selectors());
    assert(metas.len() == 2);
    assert(metas[0] == first_match_of(html, "meta[name='author']"@, "content"@));
    assert(metas[1] == first_match_of(html, "meta[property='article:author']"@, "content"@));
    assert(metas.skip(1)[0] == metas[1]);
    assert(metas.skip(1).skip(1).len() == 0);
    assert(others.len() == 4);
    assert forall|x: Seq<char>| byline_spec(html) == Some(x) implies x.len() > 0 by {
        if first_meta_author(metas) == Some(x) {
            lemma_meta_author_found(metas, x);
            let k = choose|k: int| 0 <= k < metas.len() && nonempty_attr(#[trigger] metas[k]) == Some(x);
        } else {
            lemma_author_text_found(others, x);
        }
    }
    assert forall|x: Seq<char>|
        nonempty_attr(metas[0]) is None && nonempty_attr(metas[1]) is None && byline_spec(html)
            == Some(x) implies utf8_len(x) < 100 && exists|sel: Seq<char>|
        listed.contains(sel) && trimmed_text(#[trigger] first_match_of(html, sel, "content"@))
            == Some(x) by {
        assert(first_meta_author(metas) is None);
        lemma_author_text_found(others, x);
        let k = choose|k: int| 0 <= k < others.len() && trimmed_text(#[trigger] others[k]) == Some(x);
        assert(others[k] == first_match_of(html, listed[k], "content"@));
        assert(listed.contains(listed[k]));
    }
}

/// The byline of a page: the non-empty content of an author meta element, else the
/// trimmed text (non-empty, under 100 bytes) of an author element.
pub fn extract_byline(html: &str) -> (out: Option<String>)
    ensures
        match out {
            Some(b) => byline_spec(html@) == Some(b@),
            None => byline_spec(html@) is None,
        },
{
    let metas = vec!["meta[name='author']", "meta[property='article:author']"];
    let ghost found_meta = found_by(html@, author_meta_selectors());
    assert(metas@.map_values(|s: &str| s@) == author_meta_selectors());
    assert(found_meta.skip(0) == found_meta);
    let mut i: usize = 0;
    while i < metas.len()
        invariant
            metas@.map_values(|s: &str| s@) == author_meta_selectors(),
            found_meta == found_by(html@, author_meta_selectors()),
            i <= metas@.len(),
            first_meta_author(found_meta) == first_meta_author(found_meta.skip(i as int)),
        decreases metas@.len() - i,
    {
        let m = select_first(html, metas[i], CONTENT_ATTR);
        assert(metas@[i as int]@ == author_meta_selectors()[i as int]);
        assert(found_meta[i as int] == first_match_of(
            html@,
            author_meta_selectors()[i as int],
            CONTENT_ATTR@,
        ));
        assert(found_meta.skip(i as int)[0] == found_meta[i as int]);
        assert(found_meta.skip(i as int).skip(1) == found_meta.skip(i + 1));
        if let Some(found) = m {
            if let Some(c) = found.attr {
                if !c.as_str().is_empty() {
                    return Some(c);
                }
            }
        }
        i = i + 1;
    }
    assert(found_meta.skip(2).len() == 0);
    let others = vec![".author", "[rel='author']", ".byline", ".post-author"];
    let ghost found_other = found_by(html@, author_element_selectors());
    assert(others@.map_values(|s: &str| s@) == author_element_selectors());
    assert(found_other.skip(0) == found_other);
    let mut j: usize = 0;
    while j < others.len()
        invariant
            others@.map_values(|s: &str| s@) == author_element_selectors(),
            found_other == found_by(html@, author_element_selectors()),
            first_meta_author(found_by(html@, author_meta_selectors())) is None,
            j <= others@.len(),
            first_author_text(found_other) == first_author_text(found_other.skip(j as int)),
        decreases others@.len() - j,
    {
        let m = select_first(html, others[j], CONTENT_ATTR);
        assert(others@[j as int]@ == author_element_selectors()[j as int]);
        assert(found_other[j as int] == first_match_of(
            html@,
            author_element_selectors()[j as int],
            CONTENT_ATTR@,
        ));
        assert(found_other.skip(j as int)[0] == found_other[j as int]);
        assert(found_other.skip(j as int).skip(1) == found_other.skip(j + 1));
        if let Some(found) = m {
            let text = trim(found.text.as_str());
            if !text.as_str().is_empty() && byte_len(text.as_str()) < 100 {
                return Some(text);
            }
        }
        j = j + 1;
    }
    assert(found_other.skip(4).len() == 0);
    None
}

// ---------------------------------------------------------------------------
// Scoring

/// The total number of bytes of the texts.
pub open spec fn total_utf8_len(texts: Seq<Seq<char>>) -> nat
    decreases texts.len(),
{
    if texts.len() == 0 {
        0
    } else {
        total_utf8_len(texts.drop_last()) + utf8_len(texts.last())
    }
}

/// A class or id that is absent counts as empty.
pub open spec fn or_empty(a: Option<Seq<char>>) -> Seq<char> {
    match a {
        Some(s) => s,
        None => Seq::empty(),
    }
}

/// Points for the tag: `article` 20, `main` 15, `section` 5.
pub open spec fn tag_points(name: Seq<char>) -> int {
    if name == "article"@ {
        20
    } else if name == "main"@ {
        15
    } else if name == "section"@ {
        5
    } else {
        0
    }
}

/// The score of a candidate: +25 when its class and id (joined by a space) match the
/// content words, -25 when they match the other words, points for the tag, one point
/// per 100 bytes of text and one per comma, and -30 when the text of its links is more
/// than half of its text. `None` for a candidate with less than 100 bytes of text.
pub open spec fn score_spec(e: ElementView) -> Option<int> {
    let class_id = or_empty(e.1) + " "@ + or_empty(e.2);
    let text_len = utf8_len(e.3) as int;
    let score = (if is_match_spec(POSITIVE_PATTERN@, class_id) { 25int } else { 0int }) - (
    if is_match_spec(NEGATIVE_PATTERN@, class_id) { 25int } else { 0int }) + tag_points(e.0) + (
    text_len / 100) + count_char(e.3, ',') as int;
    if text_len < 100 {
        None
    } else if total_utf8_len(e.4) > text_len / 2 {
        Some(score - 30)
    } else {
        Some(score)
    }
}

/// Law: how the tag, the text and the links weigh. A candidate with less than 100 bytes
/// of text is not scored; otherwise `article` scores 20 more than `div` with the same
/// class, id, text and links, `main` 15 more and `section` 5 more, and links whose text
/// is more than half of the candidate's cost 30 points against having no links.
pub proof fn lemma_score_weights(e: ElementView)
    ensures
        utf8_len(e.3) < 100 ==> score_spec(e) is None,
        utf8_len(e.3) >= 100 ==> {
            &&& score_spec(("article"@, e.1, e.2, e.3, e.4, e.5)).unwrap() == score_spec(
                ("div"@, e.1, e.2, e.3, e.4, e.5),
            ).unwrap() + 20
            &&& score_spec(("main"@, e.1, e.2, e.3, e.4, e.5)).unwrap() == score_spec(
                ("div"@, e.1, e.2, e.3, e.4, e.5),
            ).unwrap() + 15
            &&& score_spec(("section"@, e.1, e.2, e.3, e.4, e.5)).unwrap() == score_spec(
                ("div"@, e.1, e.2, e.3, e.4, e.5),
            ).unwrap() + 5
        },
        utf8_len(e.3) >= 100 && total_utf8_len(e.4) > utf8_len(e.3) / 2 ==> score_spec(e).unwrap()
            == score_spec((e.0, e.1, e.2, e.3, Seq::<Seq<char>>::empty(), e.5)).unwrap() - 30,
{
    reveal_strlit("article");
    reveal_strlit("main");
    reveal_strlit("section");
    reveal_strlit("div");
    assert("div"@.len() != "article"@.len() && "div"@.len() != "main"@.len() && "div"@.len()
        != "section"@.len() && "main"@.len() != "article"@.len());
    assert(tag_points("div"@) == 0);
    assert(tag_points("article"@) == 20);
    assert(tag_points("main"@) == 15);
    assert("section"@ != "article"@) by {
        assert("section"@[0] != "article"@[0]);
    }
    assert(tag_points("section"@) == 5);
    assert(total_utf8_len(Seq::<Seq<char>>::empty()) == 0);
}

/// The scored candidates, in document order: each with its score and inner HTML.
pub open spec fn candidates_spec(es: Seq<ElementView>) -> Seq<(int, Seq<char>)>
    decreases es.len(),
{
    if es.len() == 0 {
        Seq::empty()
    } else if score_spec(es.last()) is Some {
        candidates_spec(es.drop_last()).push((score_spec(es.last()).unwrap(), es.last().5))
    } else {
        candidates_spec(es.drop_last())
    }
}

/// Whether the texts total more than `limit` bytes.
pub fn texts_exceed(texts: &Vec<String>, limit: usize) -> (b: bool)
    ensures
        b == (total_utf8_len(texts.deep_view()) > limit),
{
    let ghost t = texts.deep_view();
    let mut acc: usize = 0;
    let mut i: usize = 0;
    while i < texts.len()
        invariant
            t == texts.deep_view(),
            i <= t.len(),
            acc == total_utf8_len(t.take(i as int)),
            acc <= limit,
        decreases t.len() - i,
    {
        let n = byte_len(texts[i].as_str());
        assert(t.take(i + 1).drop_last() == t.take(i as int));
        if n > limit - acc {
            proof {
                lemma_total_utf8_len_prefix(t, i as int + 1);
            }
            return true;
        }
        acc = acc + n;
        i = i + 1;
    }
    assert(t.take(t.len() as int) == t);
    false
}

/// The total of a sequence of texts is at least that of any prefix.
pub proof fn lemma_total_utf8_len_prefix(t: Seq<Seq<char>>, k: int)
    requires
        0 <= k <= t.len(),
    ensures
        total_utf8_len(t.take(k)) <= total_utf8_len(t),
    decreases t.len() - k,
{
    if k < t.len() {
        lemma_total_utf8_len_prefix(t, k + 1);
        assert(t.take(k + 1).drop_last() == t.take(k));
    } else {
        assert(t.take(k) == t);
    }
}

/// The score of one candidate element, in a type wide enough for any text length.
pub fn score_element(e: &ElementInfo) -> (s: Option<i128>)
    ensures
        match s {
            Some(v) => score_spec(e.view()) == Some(v as int),
            None => score_spec(e.view()) is None,
        },
{
    let mut class_id = String::new();
    if let Some(c) = &e.class {
        push_str(&mut class_id, c.as_str());
    }
    push_str(&mut class_id, " ");
    if let Some(i) = &e.id {
        push_str(&mut class_id, i.as_str());
    }
    assert(class_id@ == or_empty(e.view().1) + " "@ + or_empty(e.view().2));
    let mut score: i128 = 0;
    if is_match(POSITIVE_PATTERN, class_id.as_str()) {
        score = score + 25;
    }
    if is_match(NEGATIVE_PATTERN, class_id.as_str()) {
        score = score - 25;
    }
    if str_eq(e.name.as_str(), "article") {
        score = score + 20;
    } else if str_eq(e.name.as_str(), "main") {
        score = score + 15;
    } else if str_eq(e.name.as_str(), "section") {
        score = score + 5;
    }
    let text_len = byte_len(e.text.as_str());
    score = score + (text_len / 100) as i128;
    let text_chars = chars_of(e.text.as_str());
    let commas = count_occurrences(text_chars.as_slice(), ',');
    proof {
        assert(count_char(e.text@, ',') <= e.text@.len());
        lemma_chars_le_bytes(e.text@);
    }
    score = score + commas as i128;
    if text_len < 100 {
        return None;
    }
    if texts_exceed(&e.inner_texts, text_len / 2) {
        score = score - 30;
    }
    Some(score)
}

/// A text has no more characters than bytes.
pub proof fn lemma_chars_le_bytes(s: Seq<char>)
    ensures
        s.len() <= utf8_len(s),
    decreases s.len(),
{
    if s.len() > 0 {
        lemma_chars_le_bytes(s.drop_first());
    }
}

/// Candidates as plain values.
pub open spec fn candidate_view(cands: Seq<(i128, String)>) -> Seq<(int, Seq<char>)> {
    cands.map_values(|c: (i128, String)| (c.0 as int, c.1@))
}

/// Scores the candidate containers of a page, in document order: each candidate with at
/// least 100 bytes of text gets its score and inner HTML.
pub fn score_candidates(html: &str) -> (cands: Vec<(i128, String)>)
    ensures
        candidate_view(cands@) == candidates_spec(
            elements_of(html@, CONTAINER_SELECTOR@, LINK_SELECTOR@),
        ),
{
    let elements = select_elements(html, CONTAINER_SELECTOR, LINK_SELECTOR);
    let ghost es = elements.deep_view();
    let mut cands: Vec<(i128, String)> = Vec::new();
    let mut i: usize = 0;
    while i < elements.len()
        invariant
            es == elements.deep_view(),
            es == elements_of(html@, CONTAINER_SELECTOR@, LINK_SELECTOR@),
            i <= es.len(),
            candidate_view(cands@) == candidates_spec(es.take(i as int)),
        decreases es.len() - i,
    {
        let e = &elements[i];
        assert(e.view() == es[i as int]);
        assert(es.take(i + 1).drop_last() == es.take(i as int));
        assert(es.take(i + 1).last() == es[i as int]);
        match score_element(e) {
            Some(s) => {
                let ghost before = cands@;
                let inner = e.inner_html.clone();
                cands.push((s, inner));
                assert(candidate_view(cands@) =~= candidate_view(before).push((s as int, inner@)));
            },
            None => {},
        }
        i = i + 1;
    }
    assert(es.take(es.len() as int) == es);
    cands
}

// ---------------------------------------------------------------------------
// Extraction

/// `i` holds the best score, and no later candidate has as good a one (the last of
/// equally best candidates wins).
pub open spec fn is_last_best(cands: Seq<(int, Seq<char>)>, i: int) -> bool {
    &&& 0 <= i < cands.len()
    &&& forall|j: int| 0 <= j < cands.len() ==> cands[j].0 <= cands[i].0
    &&& forall|j: int| i < j < cands.len() ==> cands[j].0 < cands[i].0
}

/// The content of the page `html`: the inner HTML of the best-scored candidate, else
/// that of the body, else that of the root element.
pub open spec fn content_spec(html: Seq<char>) -> Seq<char> {
    let cands = candidates_spec(elements_of(html, CONTAINER_SELECTOR@, LINK_SELECTOR@));
    if cands.len() > 0 {
        cands[choose|i: int| is_last_best(cands, i)].1
    } else {
        body_text_spec(html)
    }
}

/// The inner HTML of the body, or else of the root element.
pub open spec fn body_text_spec(html: Seq<char>) -> Seq<char> {
    match first_match_of(html, BODY_SELECTOR@, CONTENT_ATTR@) {
        Some(m) => m.2,
        None => root_inner_html_of(html),
    }
}

/// The inner HTML of the body, or else of the root element.
pub fn extract_body_text(html: &str) -> (out: String)
    ensures
        out@ == body_text_spec(html@),
{
    match select_first(html, BODY_SELECTOR, CONTENT_ATTR) {
        Some(m) => m.inner_html,
        None => root_inner_html(html),
    }
}

/// The position of the best-scored candidate; the last of equally good ones.
pub fn best_candidate(cands: &Vec<(i128, String)>) -> (i: usize)
    requires
        cands@.len() > 0,
    ensures
        is_last_best(candidate_view(cands@), i as int),
{
    let ghost cs = candidate_view(cands@);
    let mut best: usize = 0;
    let mut i: usize = 1;
    while i < cands.len()
        invariant
            cs == candidate_view(cands@),
            1 <= i <= cands@.len(),
            best < i,
            forall|j: int| 0 <= j < i ==> cs[j].0 <= cs[best as int].0,
            forall|j: int| best < j < i ==> cs[j].0 < cs[best as int].0,
        decreases cands@.len() - i,
    {
        if cands[i].0 >= cands[best].0 {
            best = i;
        }
        i = i + 1;
    }
    best
}

proof fn lemma_last_best_unique(cands: Seq<(int, Seq<char>)>, i: int)
    requires
        is_last_best(cands, i),
    ensures
        (choose|j: int| is_last_best(cands, j)) == i,
{
    let j = choose|j: int| is_last_best(cands, j);
    assert(is_last_best(cands, j));
    if i < j {
        assert(cands[j].0 < cands[i].0);
        assert(cands[i].0 <= cands[j].0);
    } else if j < i {
        assert(cands[i].0 < cands[j].0);
        assert(cands[j].0 <= cands[i].0);
    }
}

/// What extraction gives for the page `html`.
pub open spec fn extracted(html: Seq<char>, r: ReadabilityResult) -> bool {
    &&& r.title@ == title_spec(html)
    &&& r.byline.deep_view() == byline_spec(html)
    &&& r.content_html@ == content_spec(html)
    &&& r.text_length == count_non_ws(content_spec(html))
}

/// Extracts the title, the byline and the main content of a page, and counts the
/// non-whitespace characters of the content.
pub fn extract(html: &str, _url: &str) -> (r: ReadabilityResult)
    ensures
        extracted(html@, r),
{
    let title = extract_title(html);
    let byline = extract_byline(html);
    let cands = score_candidates(html);
    let ghost spec_cands = candidates_spec(elements_of(html@, CONTAINER_SELECTOR@, LINK_SELECTOR@));
    let content_html = if cands.len() > 0 {
        let best = best_candidate(&cands);
        proof {
            assert(candidate_view(cands@) == spec_cands);
            lemma_last_best_unique(spec_cands, best as int);
        }
        cands[best].1.clone()
    } else {
        extract_body_text(html)
    };
    let text_length = count_non_whitespace(content_html.as_str());
    ReadabilityResult { title, byline, content_html, text_length }
}

} // verus!
