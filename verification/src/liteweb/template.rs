//! The minimal page that wraps extracted content: about 500 bytes of CSS, dark mode,
//! no scripts.

use vstd::prelude::*;
use crate::text::{chars_of, push_char, push_str};

verus! {

/// The page up to the title in `<title>`.
pub const PAGE_HEAD: &'static str = "<!DOCTYPE html>\n<html lang=\"en\">\n<head>\n<meta charset=\"utf-8\">\n<meta name=\"viewport\" content=\"width=device-width,initial-scale=1\">\n<title>";

/// From the end of `<title>` through the style sheet to the start of the `<h1>` heading.
pub const PAGE_STYLE: &'static str = "</title>\n<style>\n*{margin:0;padding:0;box-sizing:border-box}\nbody{max-width:680px;margin:0 auto;padding:16px;font:18px/1.6 system-ui,-apple-system,sans-serif;color:#222;background:#fff;word-wrap:break-word}\nh1{font-size:1.5em;line-height:1.25;margin:0 0 8px}\nh2,h3,h4{margin:20px 0 8px}\np{margin:0 0 12px}\n.by{color:#666;font-size:.85em;margin:0 0 20px}\nimg{max-width:100%;height:auto;border-radius:4px;margin:12px 0}\na{color:#1a73e8;text-decoration:none}\na:hover{text-decoration:underline}\nblockquote{border-left:3px solid #ccc;margin:16px 0;padding:0 16px;color:#555}\npre{background:#f5f5f5;border-radius:4px;padding:12px;overflow-x:auto;font-size:.9em;margin:12px 0}\ncode{background:#f5f5f5;border-radius:3px;padding:2px 4px;font-size:.9em}\npre code{background:none;padding:0}\ntable{border-collapse:collapse;width:100%;margin:12px 0}\ntd,th{border:1px solid #ddd;padding:8px;text-align:left}\nth{background:#f9f9f9}\nhr{border:none;border-top:1px solid #eee;margin:20px 0}\nli{margin:4px 0}\nul,ol{padding-left:24px;margin:8px 0}\nfigure{margin:12px 0}\nfigcaption{color:#666;font-size:.85em;margin-top:4px}\n.ft{color:#999;font-size:.75em;margin-top:32px;padding-top:12px;border-top:1px solid #eee}\n@media(prefers-color-scheme:dark){body{background:#1a1a1a;color:#e0e0e0}a{color:#8ab4f8}blockquote{border-color:#555;color:#aaa}pre,code{background:#2a2a2a}td,th{border-color:#444}th{background:#252525}.by,.ft{color:#888}hr{border-color:#333}}\n</style>\n</head>\n<body>\n<h1>";

/// Between the heading and the byline.
pub const PAGE_AFTER_HEADING: &'static str = "</h1>\n";

/// Between the byline and the content.
pub const PAGE_BEFORE_CONTENT: &'static str = "\n";

/// After the content: the footer and the closing tags.
pub const PAGE_FOOT: &'static str = "\n<p class=\"ft\">Optimized by RedBrowser LiteWeb</p>\n</body>\n</html>";

/// What `html_esc` turns one character into: `&`, `<` and `>` become entities.
pub open spec fn esc_char(c: char) -> Seq<char> {
    if c == '&' {
        "&amp;"@
    } else if c == '<' {
        "&lt;"@
    } else if c == '>' {
        "&gt;"@
    } else {
        seq![c]
    }
}

/// `s` with `&`, `<` and `>` escaped, character by character.
pub open spec fn html_esc_spec(s: Seq<char>) -> Seq<char>
    decreases s.len(),
{
    if s.len() == 0 {
        Seq::empty()
    } else {
        html_esc_spec(s.drop_last()) + esc_char(s.last())
    }
}

/// The byline block: empty without a byline.
pub open spec fn byline_html_spec(byline: Option<Seq<char>>) -> Seq<char> {
    match byline {
        Some(by) => "<div class=\"by\">"@ + html_esc_spec(by) + "</div>"@,
        None => Seq::empty(),
    }
}

/// The whole page: escaped title in `<title>` and `<h1>`, the byline block, then the
/// content as it is.
pub open spec fn page_spec(title: Seq<char>, byline: Option<Seq<char>>, content: Seq<char>) -> Seq<char> {
    PAGE_HEAD@ + html_esc_spec(title) + PAGE_STYLE@ + html_esc_spec(title) + PAGE_AFTER_HEADING@
        + byline_html_spec(byline) + PAGE_BEFORE_CONTENT@ + content + PAGE_FOOT@
}

/// Escapes `&`, `<` and `>` for HTML text.
pub fn html_esc(s: &str) -> (out: String)
    ensures
        out@ == html_esc_spec(s@),
{
    let cs = chars_of(s);
    let mut out = String::new();
    let mut i: usize = 0;
    while i < cs.len()
        invariant
            i <= cs@.len(),
            cs@ == s@,
            out@ == html_esc_spec(cs@.take(i as int)),
        decreases cs@.len() - i,
    {
        let c = cs[i];
        if c == '&' {
            push_str(&mut out, "&amp;");
        } else if c == '<' {
            push_str(&mut out, "&lt;");
        } else if c == '>' {
            push_str(&mut out, "&gt;");
        } else {
            push_char(&mut out, c);
        }
        assert(cs@.take(i + 1).drop_last() == cs@.take(i as int));
        i = i + 1;
    }
    assert(cs@.take(cs@.len() as int) == cs@);
    out
}

/// Wraps extracted content in the minimal page: the title (escaped) as `<title>` and
/// heading, an optional escaped byline, then the content unchanged.
pub fn wrap(title: &str, byline: Option<&str>, content: &str) -> (page: String)
    ensures
        page@ == page_spec(
            title@,
            match byline {
                Some(b) => Some(b@),
                None => None,
            },
            content@,
        ),
{
    let byline_html = match byline {
        Some(by) => {
            let mut b = String::new();
            push_str(&mut b, "<div class=\"by\">");
            let e = html_esc(by);
            push_str(&mut b, e.as_str());
            push_str(&mut b, "</div>");
            b
        },
        None => String::new(),
    };
    let t = html_esc(title);
    let mut page = String::new();
    push_str(&mut page, PAGE_HEAD);
    push_str(&mut page, t.as_str());
    push_str(&mut page, PAGE_STYLE);
    push_str(&mut page, t.as_str());
    push_str(&mut page, PAGE_AFTER_HEADING);
    push_str(&mut page, byline_html.as_str());
    push_str(&mut page, PAGE_BEFORE_CONTENT);
    push_str(&mut page, content);
    push_str(&mut page, PAGE_FOOT);
    page
}


/// The page through the heading: head, escaped title, style sheet, escaped heading and
/// its closing `</h1>` with the line break after it.
pub open spec fn page_top(title: Seq<char>) -> Seq<char> {
    PAGE_HEAD@ + html_esc_spec(title) + PAGE_STYLE@ + html_esc_spec(title) + PAGE_AFTER_HEADING@
}

/// Law: a byline stands directly below the heading. The page with a byline is the page
/// without one with the byline block put right after the heading's closing `</h1>` and
/// line break; everything else is the same.
pub proof fn lemma_byline_below_heading(title: Seq<char>, byline: Seq<char>, content: Seq<char>)
    ensures
        page_top(title).len() >= PAGE_AFTER_HEADING@.len(),
        page_top(title).skip(page_top(title).len() - PAGE_AFTER_HEADING@.len())
            == "</h1>\n"@,
        page_spec(title, None, content) == page_top(title) + (PAGE_BEFORE_CONTENT@ + content
            + PAGE_FOOT@),
        page_spec(title, Some(byline), content) == page_top(title) + (
        "<div class=\"by\">"@ + html_esc_spec(byline) + "</div>"@) + (PAGE_BEFORE_CONTENT@
            + content + PAGE_FOOT@),
{
    reveal_strlit("</h1>\n");
    let top = page_top(title);
    let n = PAGE_AFTER_HEADING@.len();
    assert(top.skip(top.len() - n) =~= PAGE_AFTER_HEADING@);
    assert(byline_html_spec(None) =~= Seq::<char>::empty());
    assert(page_spec(title, None, content) =~= top + (PAGE_BEFORE_CONTENT@ + content + PAGE_FOOT@));
    assert(page_spec(title, Some(byline), content) =~= top + ("<div class=\"by\">"@ + html_esc_spec(
        byline,
    ) + "</div>"@) + (PAGE_BEFORE_CONTENT@ + content + PAGE_FOOT@));
}

/// Law: escaped text holds no `<` and no `>`, so a title or byline cannot open or close
/// an element of the page.
pub proof fn lemma_html_esc_has_no_angle_brackets(s: Seq<char>)
    ensures
        forall|i: int|
            0 <= i < html_esc_spec(s).len() ==> #[trigger] html_esc_spec(s)[i] != '<'
                && html_esc_spec(s)[i] != '>',
    decreases s.len(),
{
    reveal_strlit("&amp;");
    reveal_strlit("&lt;");
    reveal_strlit("&gt;");
    if s.len() > 0 {
        lemma_html_esc_has_no_angle_brackets(s.drop_last());
        let prev = html_esc_spec(s.drop_last());
        let last = esc_char(s.last());
        assert forall|i: int| 0 <= i < html_esc_spec(s).len() implies #[trigger] html_esc_spec(
            s,
        )[i] != '<' && html_esc_spec(s)[i] != '>' by {
            if i < prev.len() {
                assert(html_esc_spec(s)[i] == prev[i]);
            } else {
                assert(html_esc_spec(s)[i] == last[i - prev.len()]);
            }
        }
    }
}

} // verus!
