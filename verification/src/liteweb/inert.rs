//! The last guards of sanitizing. HTML tag names ignore ASCII case, so `<ScRiPt` opens a
//! script as `<script` does; every `<` that opens one of the dangerous elements is written
//! as `&lt;`, after which no such element can remain. Inside tags, read as an HTML
//! tokenizer reads them, an event handler attribute (`onerror`) gets `_` put before its
//! name, after which it names no handler, and an attribute value with a script scheme
//! (`javascript:`) gets `_` put before it, after which it is a relative link; text
//! outside tags is left as it is.

use vstd::prelude::*;
use crate::liteweb::sanitize::{dangerous_tag_list, dangerous_tags};
use crate::text::{chars_of, push_char, push_str};

verus! {

/// `c` with an ASCII capital made small.
pub open spec fn ascii_lower(c: char) -> char {
    if 'A' <= c <= 'Z' {
        ((c as u32) + 32) as char
    } else {
        c
    }
}

/// `s` starts with `name`, ignoring ASCII case (`name` is written in small letters).
pub open spec fn starts_with_ci(s: Seq<char>, name: Seq<char>) -> bool {
    &&& name.len() <= s.len()
    &&& forall|k: int| 0 <= k < name.len() ==> ascii_lower(#[trigger] s[k]) == name[k]
}

/// The `<` at `i` opens one of the dangerous elements.
pub open spec fn opens_dangerous_at(s: Seq<char>, i: int) -> bool {
    &&& 0 <= i < s.len()
    &&& s[i] == '<'
    &&& exists|j: int|
        0 <= j < dangerous_tags().len() && starts_with_ci(s.skip(i + 1), #[trigger] dangerous_tags()[j])
}

/// Some `<` in `s` opens a dangerous element.
pub open spec fn has_dangerous_opener(s: Seq<char>) -> bool {
    exists|i: int| opens_dangerous_at(s, i)
}

/// `s` with each `<` that opens a dangerous element written as `&lt;`.
pub open spec fn defuse_spec(s: Seq<char>) -> Seq<char>
    decreases s.len(),
{
    if s.len() == 0 {
        Seq::empty()
    } else if opens_dangerous_at(s, 0) {
        "&lt;"@ + defuse_spec(s.skip(1))
    } else {
        seq![s[0]] + defuse_spec(s.skip(1))
    }
}

/// Whether `a` and `b` are the same letter, ignoring ASCII case in `a`.
pub fn same_ci(a: char, b: char) -> (r: bool)
    ensures
        r == (ascii_lower(a) == b),
{
    if 'A' <= a && a <= 'Z' {
        (a as u32) + 32 == (b as u32)
    } else {
        a == b
    }
}

/// Whether `s` from `from` on starts with `name`, ignoring ASCII case.
pub fn starts_with_ci_at(s: &[char], from: usize, name: &[char]) -> (b: bool)
    requires
        from <= s@.len(),
    ensures
        b == starts_with_ci(s@.skip(from as int), name@),
{
    let n = s.len();
    if name.len() > n - from {
        return false;
    }
    let mut k: usize = 0;
    while k < name.len()
        invariant
            n == s@.len(),
            from <= s@.len(),
            name@.len() <= s@.len() - from,
            k <= name@.len(),
            forall|q: int| 0 <= q < k ==> ascii_lower(#[trigger] s@.skip(from as int)[q]) == name@[q],
        decreases name@.len() - k,
    {
        assert(s@.skip(from as int)[k as int] == s@[from + k]);
        if !same_ci(s[from + k], name[k]) {
            return false;
        }
        k = k + 1;
    }
    true
}

/// The dangerous element names, as characters.
pub fn dangerous_names() -> (v: Vec<Vec<char>>)
    ensures
        v.deep_view() == dangerous_tags(),
{
    let tags = dangerous_tag_list();
    let ghost names = tags@.map_values(|s: &str| s@);
    let mut v: Vec<Vec<char>> = Vec::new();
    let mut i: usize = 0;
    while i < tags.len()
        invariant
            names == tags@.map_values(|s: &str| s@),
            names == dangerous_tags(),
            i <= tags@.len(),
            v.deep_view() == names.take(i as int),
        decreases tags@.len() - i,
    {
        let cs = chars_of(tags[i]);
        let ghost before = v.deep_view();
        assert(cs.deep_view() =~= cs@);
        v.push(cs);
        assert(v.deep_view() =~= before.push(names[i as int]));
        assert(names.take(i + 1) =~= names.take(i as int).push(names[i as int]));
        i = i + 1;
    }
    assert(names.take(tags@.len() as int) == names);
    v
}

/// Whether the `<`, if any, at `i` opens a dangerous element.
pub fn opens_dangerous(s: &[char], i: usize, names: &Vec<Vec<char>>) -> (b: bool)
    requires
        i < s@.len(),
        names.deep_view() == dangerous_tags(),
    ensures
        b == opens_dangerous_at(s@, i as int),
{
    let n = s.len();
    if s[i] != '<' {
        return false;
    }
    let ghost d = names.deep_view();
    let mut j: usize = 0;
    while j < names.len()
        invariant
            n == s@.len(),
            i < s@.len(),
            s@[i as int] == '<',
            d == names.deep_view(),
            d == dangerous_tags(),
            j <= d.len(),
            forall|q: int| 0 <= q < j ==> !starts_with_ci(s@.skip(i + 1), #[trigger] d[q]),
        decreases d.len() - j,
    {
        assert(names@[j as int]@ == d[j as int]);
        if starts_with_ci_at(s, i + 1, names[j].as_slice()) {
            assert(starts_with_ci(s@.skip(i + 1), dangerous_tags()[j as int]));
            return true;
        }
        j = j + 1;
    }
    false
}

/// Whether some `<` in the text opens a dangerous element (ASCII case ignored).
pub fn contains_dangerous_opener(s: &str) -> (b: bool)
    ensures
        b == has_dangerous_opener(s@),
{
    let cs = chars_of(s);
    let names = dangerous_names();
    let mut i: usize = 0;
    while i < cs.len()
        invariant
            cs@ == s@,
            names.deep_view() == dangerous_tags(),
            i <= cs@.len(),
            forall|q: int| 0 <= q < i ==> !opens_dangerous_at(s@, q),
        decreases cs@.len() - i,
    {
        if opens_dangerous(cs.as_slice(), i, &names) {
            return true;
        }
        i = i + 1;
    }
    false
}

/// Writes each `<` that opens a dangerous element (ASCII case ignored) as `&lt;`.
pub fn defuse(s: &str) -> (out: String)
    ensures
        out@ == defuse_spec(s@),
        !has_dangerous_opener(out@),
{
    let cs = chars_of(s);
    let names = dangerous_names();
    let mut out = String::new();
    let mut i: usize = 0;
    assert(cs@.skip(0) == cs@);
    while i < cs.len()
        invariant
            cs@ == s@,
            names.deep_view() == dangerous_tags(),
            i <= cs@.len(),
            defuse_spec(s@) == out@ + defuse_spec(cs@.skip(i as int)),
        decreases cs@.len() - i,
    {
        let ghost rest = cs@.skip(i as int);
        assert(rest.skip(1) =~= cs@.skip(i + 1));
        assert(rest.skip(1) =~= rest.skip(0int + 1));
        assert(rest[0] == cs@[i as int]);
        assert(opens_dangerous_at(rest, 0) == opens_dangerous_at(cs@, i as int)) by {
            assert(rest.skip(0int + 1) =~= cs@.skip(i + 1));
        }
        if opens_dangerous(cs.as_slice(), i, &names) {
            push_str(&mut out, "&lt;");
        } else {
            push_char(&mut out, cs[i]);
        }
        i = i + 1;
    }
    assert(cs@.skip(cs@.len() as int) =~= Seq::<char>::empty());
    assert(out@ + Seq::<char>::empty() =~= out@);
    proof {
        lemma_defuse_leaves_no_opener(s@);
    }
    out
}

/// The dangerous element names are written in small ASCII letters.
pub proof fn lemma_dangerous_names_are_small_letters()
    ensures
        forall|j: int, k: int|
            0 <= j < dangerous_tags().len() && 0 <= k < dangerous_tags()[j].len() ==> 'a'
                <= #[trigger] dangerous_tags()[j][k] <= 'z',
{
    reveal_strlit("script");
    reveal_strlit("style");
    reveal_strlit("noscript");
    reveal_strlit("iframe");
    reveal_strlit("object");
    reveal_strlit("embed");
    reveal_strlit("applet");
    reveal_strlit("svg");
    reveal_strlit("math");
    reveal_strlit("canvas");
    reveal_strlit("form");
}

/// A name in small letters that starts the defused text ignoring case starts the text.
proof fn lemma_defuse_keeps_name(x: Seq<char>, t: Seq<char>)
    requires
        forall|k: int| 0 <= k < t.len() ==> 'a' <= #[trigger] t[k] <= 'z',
        starts_with_ci(defuse_spec(x), t),
    ensures
        starts_with_ci(x, t),
    decreases t.len(),
{
    reveal_strlit("&lt;");
    if t.len() > 0 {
        let d = defuse_spec(x);
        assert(x.len() > 0);
        let head: Seq<char> = if opens_dangerous_at(x, 0) {
            "&lt;"@
        } else {
            seq![x[0]]
        };
        let tail = defuse_spec(x.skip(1));
        assert(d == head + tail);
        assert(ascii_lower(d[0]) == t[0]);
        assert(!opens_dangerous_at(x, 0)) by {
            if opens_dangerous_at(x, 0) {
                assert(d[0] == '&');
            }
        }
        assert forall|k: int| 0 <= k < t.skip(1).len() implies ascii_lower(
            #[trigger] tail[k],
        ) == t.skip(1)[k] by {
            assert(tail[k] == d[k + 1]);
        }
        lemma_defuse_keeps_name(x.skip(1), t.skip(1));
        assert forall|k: int| 0 <= k < t.len() implies ascii_lower(#[trigger] x[k]) == t[k] by {
            if k > 0 {
                assert(x[k] == x.skip(1)[k - 1]);
                assert(t[k] == t.skip(1)[k - 1]);
            } else {
                assert(d[0] == x[0]);
            }
        }
    }
}

/// Law: defused text holds no `<` that opens a dangerous element, in any case.
pub proof fn lemma_defuse_leaves_no_opener(s: Seq<char>)
    ensures
        !has_dangerous_opener(defuse_spec(s)),
    decreases s.len(),
{
    reveal_strlit("&lt;");
    lemma_dangerous_names_are_small_letters();
    if s.len() > 0 {
        lemma_defuse_leaves_no_opener(s.skip(1));
        let d = defuse_spec(s);
        let head: Seq<char> = if opens_dangerous_at(s, 0) {
            "&lt;"@
        } else {
            seq![s[0]]
        };
        let tail = defuse_spec(s.skip(1));
        assert(d == head + tail);
        assert forall|i: int| !opens_dangerous_at(d, i) by {
            if 0 <= i < d.len() && i >= head.len() {
                assert(d.skip(i + 1) =~= tail.skip(i - head.len() + 1));
                assert(d[i] == tail[i - head.len()]);
                if opens_dangerous_at(d, i) {
                    assert(opens_dangerous_at(tail, i - head.len()));
                }
            } else if 0 <= i < head.len() {
                if opens_dangerous_at(s, 0) {
                    assert(d[i] == head[i]);
                } else if opens_dangerous_at(d, i) {
                    assert(i == 0);
                    assert(d.skip(1) =~= tail);
                    let j = choose|j: int|
                        0 <= j < dangerous_tags().len() && starts_with_ci(
                            d.skip(1),
                            #[trigger] dangerous_tags()[j],
                        );
                    lemma_defuse_keeps_name(s.skip(1), dangerous_tags()[j]);
                    assert(s.skip(0int + 1) =~= s.skip(1));
                    assert(opens_dangerous_at(s, 0));
                }
            }
        }
    }
}

// ---------------------------------------------------------------------------
// Attributes

/// Where an HTML tokenizer stands between two characters, as far as tags and attributes
/// go (after a quoted value, and after `/` in a tag, it reads on as before an attribute).
#[derive(Clone, Copy, Debug)]
pub enum Tok {
    Data,
    TagOpen,
    EndTagOpen,
    TagName,
    BeforeAttr,
    AttrName,
    AfterAttrName,
    BeforeValue,
    DqStart,
    Dq,
    SqStart,
    Sq,
    Unquoted,
    Bogus,
}

/// HTML whitespace: space, tab, line feed, form feed, carriage return.
pub open spec fn html_ws(c: char) -> bool {
    c == ' ' || c == '\t' || c == '\n' || c == '\x0C' || c == '\r'
}

/// An ASCII letter.
pub open spec fn ascii_letter(c: char) -> bool {
    ('a' <= c <= 'z') || ('A' <= c <= 'Z')
}

/// The tokenizer's next state after `c`.
pub open spec fn tok_step(q: Tok, c: char) -> Tok {
    match q {
        Tok::Data => if c == '<' {
            Tok::TagOpen
        } else {
            Tok::Data
        },
        Tok::TagOpen => if ascii_letter(c) {
            Tok::TagName
        } else if c == '/' {
            Tok::EndTagOpen
        } else if c == '!' || c == '?' {
            Tok::Bogus
        } else if c == '<' {
            Tok::TagOpen
        } else {
            Tok::Data
        },
        Tok::EndTagOpen => if ascii_letter(c) {
            Tok::TagName
        } else if c == '>' {
            Tok::Data
        } else {
            Tok::Bogus
        },
        Tok::TagName => if html_ws(c) || c == '/' {
            Tok::BeforeAttr
        } else if c == '>' {
            Tok::Data
        } else {
            Tok::TagName
        },
        Tok::BeforeAttr => if html_ws(c) || c == '/' {
            Tok::BeforeAttr
        } else if c == '>' {
            Tok::Data
        } else {
            Tok::AttrName
        },
        Tok::AttrName => if html_ws(c) {
            Tok::AfterAttrName
        } else if c == '/' {
            Tok::BeforeAttr
        } else if c == '>' {
            Tok::Data
        } else if c == '=' {
            Tok::BeforeValue
        } else {
            Tok::AttrName
        },
        Tok::AfterAttrName => if html_ws(c) {
            Tok::AfterAttrName
        } else if c == '/' {
            Tok::BeforeAttr
        } else if c == '>' {
            Tok::Data
        } else if c == '=' {
            Tok::BeforeValue
        } else {
            Tok::AttrName
        },
        Tok::BeforeValue => if html_ws(c) {
            Tok::BeforeValue
        } else if c == '"' {
            Tok::DqStart
        } else if c == '\'' {
            Tok::SqStart
        } else if c == '>' {
            Tok::Data
        } else {
            Tok::Unquoted
        },
        Tok::DqStart | Tok::Dq => if c == '"' {
            Tok::BeforeAttr
        } else {
            Tok::Dq
        },
        Tok::SqStart | Tok::Sq => if c == '\'' {
            Tok::BeforeAttr
        } else {
            Tok::Sq
        },
        Tok::Unquoted => if html_ws(c) {
            Tok::BeforeAttr
        } else if c == '>' {
            Tok::Data
        } else {
            Tok::Unquoted
        },
        Tok::Bogus => if c == '>' {
            Tok::Data
        } else {
            Tok::Bogus
        },
    }
}

/// The tokenizer's next state after `c`.
pub fn next_tok(q: Tok, c: char) -> (r: Tok)
    ensures
        r == tok_step(q, c),
{
    let ws = c == ' ' || c == '\t' || c == '\n' || c == '\x0C' || c == '\r';
    let letter = ('a' <= c && c <= 'z') || ('A' <= c && c <= 'Z');
    match q {
        Tok::Data => if c == '<' {
            Tok::TagOpen
        } else {
            Tok::Data
        },
        Tok::TagOpen => if letter {
            Tok::TagName
        } else if c == '/' {
            Tok::EndTagOpen
        } else if c == '!' || c == '?' {
            Tok::Bogus
        } else if c == '<' {
            Tok::TagOpen
        } else {
            Tok::Data
        },
        Tok::EndTagOpen => if letter {
            Tok::TagName
        } else if c == '>' {
            Tok::Data
        } else {
            Tok::Bogus
        },
        Tok::TagName => if ws || c == '/' {
            Tok::BeforeAttr
        } else if c == '>' {
            Tok::Data
        } else {
            Tok::TagName
        },
        Tok::BeforeAttr => if ws || c == '/' {
            Tok::BeforeAttr
        } else if c == '>' {
            Tok::Data
        } else {
            Tok::AttrName
        },
        Tok::AttrName => if ws {
            Tok::AfterAttrName
        } else if c == '/' {
            Tok::BeforeAttr
        } else if c == '>' {
            Tok::Data
        } else if c == '=' {
            Tok::BeforeValue
        } else {
            Tok::AttrName
        },
        Tok::AfterAttrName => if ws {
            Tok::AfterAttrName
        } else if c == '/' {
            Tok::BeforeAttr
        } else if c == '>' {
            Tok::Data
        } else if c == '=' {
            Tok::BeforeValue
        } else {
            Tok::AttrName
        },
        Tok::BeforeValue => if ws {
            Tok::BeforeValue
        } else if c == '"' {
            Tok::DqStart
        } else if c == '\'' {
            Tok::SqStart
        } else if c == '>' {
            Tok::Data
        } else {
            Tok::Unquoted
        },
        Tok::DqStart | Tok::Dq => if c == '"' {
            Tok::BeforeAttr
        } else {
            Tok::Dq
        },
        Tok::SqStart | Tok::Sq => if c == '\'' {
            Tok::BeforeAttr
        } else {
            Tok::Sq
        },
        Tok::Unquoted => if ws {
            Tok::BeforeAttr
        } else if c == '>' {
            Tok::Data
        } else {
            Tok::Unquoted
        },
        Tok::Bogus => if c == '>' {
            Tok::Data
        } else {
            Tok::Bogus
        },
    }
}

/// `t` matches `name` ignoring ASCII case and skipping spaces and control characters,
/// which a URL parser drops or skips.
pub open spec fn ci_skipping(t: Seq<char>, name: Seq<char>) -> bool
    decreases t.len(),
{
    if name.len() == 0 {
        true
    } else if t.len() == 0 {
        false
    } else if t[0] <= ' ' {
        ci_skipping(t.skip(1), name)
    } else {
        ascii_lower(t[0]) == name[0] && ci_skipping(t.skip(1), name.skip(1))
    }
}

/// `t` starts with a script scheme, `javascript:` or `vbscript:`.
pub open spec fn scheme_runs_script(t: Seq<char>) -> bool {
    ci_skipping(t, "javascript:"@) || ci_skipping(t, "vbscript:"@)
}

/// In state `q`, `t` starts an attribute whose name begins with `on` and a letter: an
/// event handler.
pub open spec fn handler_start(q: Tok, t: Seq<char>) -> bool {
    &&& (q is BeforeAttr || q is AfterAttrName)
    &&& t.len() > 2
    &&& ascii_lower(t[0]) == 'o'
    &&& ascii_lower(t[1]) == 'n'
    &&& ascii_letter(t[2])
}

/// In state `q`, `t` starts an attribute value (unquoted, or just inside its quote) with
/// a script scheme.
pub open spec fn script_value_start(q: Tok, t: Seq<char>) -> bool {
    &&& t.len() > 0
    &&& ((q is BeforeValue && !html_ws(t[0]) && t[0] != '"' && t[0] != '\'' && t[0] != '>')
        || q is DqStart || q is SqStart)
    &&& scheme_runs_script(t)
}

/// `_` goes before `t[0]`: an event handler name or a script value starts there.
pub open spec fn arm_start(q: Tok, t: Seq<char>) -> bool {
    handler_start(q, t) || script_value_start(q, t)
}

/// `t`, read from state `q`, with `_` put before each event handler name (so it names an
/// attribute that is no handler) and before each attribute value with a script scheme
/// (so the value is a relative link). `_` moves the tokenizer as the character it stands
/// before does, so every later state is unchanged.
pub open spec fn disarm_from(q: Tok, t: Seq<char>) -> Seq<char>
    decreases t.len(),
{
    if t.len() == 0 {
        Seq::empty()
    } else if arm_start(q, t) {
        seq!['_', t[0]] + disarm_from(tok_step(q, t[0]), t.skip(1))
    } else {
        seq![t[0]] + disarm_from(tok_step(q, t[0]), t.skip(1))
    }
}

/// Text read from the start of a page's body.
pub open spec fn disarm_spec(s: Seq<char>) -> Seq<char> {
    disarm_from(Tok::Data, s)
}

/// Read from state `q`, `o` starts no event handler name and no script value anywhere.
pub open spec fn attrs_inert_from(q: Tok, o: Seq<char>) -> bool
    decreases o.len(),
{
    if o.len() == 0 {
        true
    } else {
        !arm_start(q, o) && attrs_inert_from(tok_step(q, o[0]), o.skip(1))
    }
}

/// Read from state `q`, `o` starts no event handler attribute.
pub open spec fn handler_free_from(q: Tok, o: Seq<char>) -> bool
    decreases o.len(),
{
    if o.len() == 0 {
        true
    } else {
        !handler_start(q, o) && handler_free_from(tok_step(q, o[0]), o.skip(1))
    }
}

/// Read from state `q`, `o` gives no attribute a value with a script scheme.
pub open spec fn script_value_free_from(q: Tok, o: Seq<char>) -> bool
    decreases o.len(),
{
    if o.len() == 0 {
        true
    } else {
        !script_value_start(q, o) && script_value_free_from(tok_step(q, o[0]), o.skip(1))
    }
}

/// Some tag in the text has an event handler attribute.
pub open spec fn has_event_handler(s: Seq<char>) -> bool {
    !handler_free_from(Tok::Data, s)
}

/// Some tag in the text has an attribute value with a script scheme.
pub open spec fn has_script_value(s: Seq<char>) -> bool {
    !script_value_free_from(Tok::Data, s)
}

/// Whether `s` from `from` on matches `name`, ignoring ASCII case and skipping spaces and
/// control characters.
pub fn ci_skipping_at(s: &[char], from: usize, name: &[char]) -> (b: bool)
    requires
        from <= s@.len(),
    ensures
        b == ci_skipping(s@.skip(from as int), name@),
{
    let n = s.len();
    let mut k = from;
    let mut j: usize = 0;
    assert(name@.skip(0) == name@);
    while j < name.len() && k < n
        invariant
            n == s@.len(),
            from <= k <= n,
            j <= name@.len(),
            ci_skipping(s@.skip(from as int), name@) == ci_skipping(
                s@.skip(k as int),
                name@.skip(j as int),
            ),
        decreases n - k,
    {
        let ghost t = s@.skip(k as int);
        assert(t.skip(1) =~= s@.skip(k + 1));
        assert(t[0] == s@[k as int]);
        assert(name@.skip(j as int).skip(1) =~= name@.skip(j + 1));
        assert(name@.skip(j as int)[0] == name@[j as int]);
        if s[k] <= ' ' {
            k = k + 1;
        } else if same_ci(s[k], name[j]) {
            k = k + 1;
            j = j + 1;
        } else {
            return false;
        }
    }
    j == name.len()
}

/// Whether `s` from `from` on starts with a script scheme.
pub fn scheme_runs_script_at(s: &[char], from: usize) -> (b: bool)
    requires
        from <= s@.len(),
    ensures
        b == scheme_runs_script(s@.skip(from as int)),
{
    let js = chars_of("javascript:");
    let vbs = chars_of("vbscript:");
    ci_skipping_at(s, from, js.as_slice()) || ci_skipping_at(s, from, vbs.as_slice())
}

/// Whether `_` goes before `s[i]`, read in state `q`.
pub fn arm_start_at(s: &[char], i: usize, q: Tok) -> (b: bool)
    requires
        i < s@.len(),
    ensures
        b == arm_start(q, s@.skip(i as int)),
{
    let n = s.len();
    let ghost t = s@.skip(i as int);
    assert(t[0] == s@[i as int]);
    let c = s[i];
    let handler = match q {
        Tok::BeforeAttr | Tok::AfterAttrName => {
            if n - i > 2 {
                assert(t[1] == s@[i + 1] && t[2] == s@[i + 2]);
                let l = s[i + 2];
                same_ci(c, 'o') && same_ci(s[i + 1], 'n') && (('a' <= l && l <= 'z') || ('A' <= l
                    && l <= 'Z'))
            } else {
                false
            }
        },
        _ => false,
    };
    if handler {
        return true;
    }
    let value_start = match q {
        Tok::BeforeValue => !(c == ' ' || c == '\t' || c == '\n' || c == '\x0C' || c == '\r')
            && c != '"' && c != '\'' && c != '>',
        Tok::DqStart | Tok::SqStart => true,
        _ => false,
    };
    value_start && scheme_runs_script_at(s, i)
}

/// Puts `_` before each event handler name inside a tag and before each attribute value
/// with a script scheme (`javascript:`, `vbscript:`), so that no tag is left with either;
/// text outside tags is kept as it is.
pub fn disarm(s: &str) -> (out: String)
    ensures
        out@ == disarm_spec(s@),
        !has_event_handler(out@),
        !has_script_value(out@),
{
    let cs = chars_of(s);
    let mut out = String::new();
    let mut q = Tok::Data;
    let mut i: usize = 0;
    assert(cs@.skip(0) == cs@);
    while i < cs.len()
        invariant
            cs@ == s@,
            i <= cs@.len(),
            disarm_spec(s@) == out@ + disarm_from(q, cs@.skip(i as int)),
        decreases cs@.len() - i,
    {
        let ghost rest = cs@.skip(i as int);
        assert(rest.skip(1) =~= cs@.skip(i + 1));
        assert(rest[0] == cs@[i as int]);
        if arm_start_at(cs.as_slice(), i, q) {
            push_char(&mut out, '_');
        }
        push_char(&mut out, cs[i]);
        q = next_tok(q, cs[i]);
        i = i + 1;
    }
    assert(cs@.skip(cs@.len() as int) =~= Seq::<char>::empty());
    assert(out@ + Seq::<char>::empty() =~= out@);
    proof {
        lemma_disarm_leaves_attrs_inert(Tok::Data, s@);
        lemma_inert_attrs(Tok::Data, out@);
    }
    out
}

/// The script schemes are written in small ASCII letters and `:`.
proof fn lemma_scheme_chars()
    ensures
        forall|k: int|
            0 <= k < "javascript:"@.len() ==> ('a' <= #[trigger] "javascript:"@[k] <= 'z') || (
            "javascript:"@[k] == ':'),
        forall|k: int|
            0 <= k < "vbscript:"@.len() ==> ('a' <= #[trigger] "vbscript:"@[k] <= 'z') || (
            "vbscript:"@[k] == ':'),
        "javascript:"@.len() > 0,
        "vbscript:"@.len() > 0,
{
    reveal_strlit("javascript:");
    reveal_strlit("vbscript:");
}

/// Disarmed text is empty exactly when the text is, and otherwise starts with `_` (where
/// `_` was put) or with the text's first character.
proof fn lemma_disarm_head(q: Tok, t: Seq<char>)
    ensures
        t.len() == 0 ==> disarm_from(q, t).len() == 0,
        t.len() > 0 ==> disarm_from(q, t).len() > 0 && disarm_from(q, t)[0] == if arm_start(
            q,
            t,
        ) {
            '_'
        } else {
            t[0]
        },
        t.len() > 0 && !arm_start(q, t) ==> disarm_from(q, t) == seq![t[0]] + disarm_from(
            tok_step(q, t[0]),
            t.skip(1),
        ),
{
}

/// A scheme name that disarmed text matches (spaces skipped) is matched by the text.
proof fn lemma_disarm_ci_back(q: Tok, x: Seq<char>, name: Seq<char>)
    requires
        forall|k: int| 0 <= k < name.len() ==> ('a' <= #[trigger] name[k] <= 'z') || name[k] == ':',
        ci_skipping(disarm_from(q, x), name),
    ensures
        ci_skipping(x, name),
    decreases x.len(),
{
    if name.len() > 0 {
        lemma_disarm_head(q, x);
        let d = disarm_from(q, x);
        assert(x.len() > 0);
        if arm_start(q, x) {
            assert(d[0] == '_');
            assert(!ci_skipping(d, name));
        } else {
            assert(d.skip(1) =~= disarm_from(tok_step(q, x[0]), x.skip(1)));
            if x[0] <= ' ' {
                lemma_disarm_ci_back(tok_step(q, x[0]), x.skip(1), name);
            } else {
                lemma_disarm_ci_back(tok_step(q, x[0]), x.skip(1), name.skip(1));
            }
        }
    }
}

/// A dangerous name that disarmed text starts with ignoring case starts the text.
proof fn lemma_disarm_keeps_name(q: Tok, x: Seq<char>, t: Seq<char>)
    requires
        forall|k: int| 0 <= k < t.len() ==> 'a' <= #[trigger] t[k] <= 'z',
        starts_with_ci(disarm_from(q, x), t),
    ensures
        starts_with_ci(x, t),
    decreases t.len(),
{
    if t.len() > 0 {
        lemma_disarm_head(q, x);
        let d = disarm_from(q, x);
        assert(x.len() > 0);
        assert(ascii_lower(d[0]) == t[0]);
        assert(!arm_start(q, x));
        let tail = disarm_from(tok_step(q, x[0]), x.skip(1));
        assert forall|k: int| 0 <= k < t.skip(1).len() implies ascii_lower(
            #[trigger] tail[k],
        ) == t.skip(1)[k] by {
            assert(tail[k] == d[k + 1]);
        }
        lemma_disarm_keeps_name(tok_step(q, x[0]), x.skip(1), t.skip(1));
        assert forall|k: int| 0 <= k < t.len() implies ascii_lower(#[trigger] x[k]) == t[k] by {
            if k > 0 {
                assert(x[k] == x.skip(1)[k - 1]);
                assert(t[k] == t.skip(1)[k - 1]);
            }
        }
    }
}

/// Where `_` goes, it moves the tokenizer as the character after it does, into a state
/// inside a name or value that the character keeps and where nothing is put.
proof fn lemma_arm_states(q: Tok, t: Seq<char>)
    requires
        arm_start(q, t),
    ensures
        tok_step(q, '_') == tok_step(q, t[0]),
        tok_step(tok_step(q, t[0]), t[0]) == tok_step(q, t[0]),
        tok_step(q, t[0]) is AttrName || tok_step(q, t[0]) is Unquoted || tok_step(q, t[0]) is Dq
            || tok_step(q, t[0]) is Sq,
{
    lemma_scheme_chars();
    if !handler_start(q, t) {
        assert(t[0] != '"' && t[0] != '\'') by {
            if t[0] == '"' || t[0] == '\'' {
                assert(!ci_skipping(t, "javascript:"@));
                assert(!ci_skipping(t, "vbscript:"@));
            }
        }
    }
}

/// Text whose first character was not armed starts no handler or script value once
/// disarmed.
proof fn lemma_disarm_no_arm_at_head(q: Tok, t: Seq<char>)
    requires
        t.len() > 0,
        !arm_start(q, t),
    ensures
        !arm_start(q, disarm_from(q, t)),
{
    lemma_scheme_chars();
    lemma_disarm_head(q, t);
    let d = disarm_from(q, t);
    let q1 = tok_step(q, t[0]);
    let t1 = t.skip(1);
    if handler_start(q, d) {
        assert(q1 is AttrName);
        let d1 = disarm_from(q1, t1);
        assert(d.skip(1) =~= d1);
        lemma_disarm_head(q1, t1);
        assert(t1.len() > 0);
        assert(!arm_start(q1, t1));
        let q2 = tok_step(q1, t1[0]);
        let t2 = t1.skip(1);
        assert(d1[0] == t1[0]);
        assert(q2 is AttrName);
        lemma_disarm_head(q2, t2);
        assert(d1.skip(1) =~= disarm_from(q2, t2));
        assert(t2.len() > 0);
        assert(!arm_start(q2, t2));
        assert(d[2] == t2[0]);
        assert(t[1] == t1[0] && t[2] == t2[0]);
        assert(handler_start(q, t));
    }
    if script_value_start(q, d) {
        if ci_skipping(d, "javascript:"@) {
            lemma_disarm_ci_back(q, t, "javascript:"@);
        } else {
            lemma_disarm_ci_back(q, t, "vbscript:"@);
        }
        assert(script_value_start(q, t));
    }
}

/// Law: disarmed text, read from the same state, starts no event handler name and no
/// script value anywhere.
pub proof fn lemma_disarm_leaves_attrs_inert(q: Tok, t: Seq<char>)
    ensures
        attrs_inert_from(q, disarm_from(q, t)),
    decreases t.len(),
{
    lemma_scheme_chars();
    if t.len() > 0 {
        let q1 = tok_step(q, t[0]);
        let rest = disarm_from(q1, t.skip(1));
        lemma_disarm_leaves_attrs_inert(q1, t.skip(1));
        let d = disarm_from(q, t);
        if arm_start(q, t) {
            lemma_arm_states(q, t);
            assert(d == seq!['_', t[0]] + rest);
            assert(!arm_start(q, d)) by {
                assert(d[0] == '_');
                assert(!ci_skipping(d, "javascript:"@));
                assert(!ci_skipping(d, "vbscript:"@));
            }
            let d1 = d.skip(1);
            assert(d1 =~= seq![t[0]] + rest);
            assert(d1.skip(1) =~= rest);
            assert(!arm_start(q1, d1));
            assert(attrs_inert_from(q1, d1));
        } else {
            lemma_disarm_no_arm_at_head(q, t);
            assert(d.skip(1) =~= rest);
        }
    }
}

/// Text that starts no handler name or script value starts neither kind alone.
pub proof fn lemma_inert_attrs(q: Tok, o: Seq<char>)
    requires
        attrs_inert_from(q, o),
    ensures
        handler_free_from(q, o),
        script_value_free_from(q, o),
    decreases o.len(),
{
    if o.len() > 0 {
        lemma_inert_attrs(tok_step(q, o[0]), o.skip(1));
    }
}

/// Law: disarming opens no new dangerous element.
pub proof fn lemma_disarm_keeps_no_opener(q: Tok, y: Seq<char>)
    requires
        !has_dangerous_opener(y),
    ensures
        !has_dangerous_opener(disarm_from(q, y)),
    decreases y.len(),
{
    lemma_dangerous_names_are_small_letters();
    if y.len() > 0 {
        let y1 = y.skip(1);
        let q1 = tok_step(q, y[0]);
        assert forall|i: int| !opens_dangerous_at(y1, i) by {
            if 0 <= i < y1.len() {
                assert(y1.skip(i + 1) =~= y.skip(i + 1 + 1));
                assert(y1[i] == y[i + 1]);
                if opens_dangerous_at(y1, i) {
                    assert(opens_dangerous_at(y, i + 1));
                }
            }
        }
        lemma_disarm_keeps_no_opener(q1, y1);
        let d = disarm_from(q, y);
        let head: Seq<char> = if arm_start(q, y) {
            seq!['_', y[0]]
        } else {
            seq![y[0]]
        };
        let tail = disarm_from(q1, y1);
        assert(d == head + tail);
        assert forall|i: int| !opens_dangerous_at(d, i) by {
            if 0 <= i < d.len() && i >= head.len() {
                assert(d.skip(i + 1) =~= tail.skip(i - head.len() + 1));
                assert(d[i] == tail[i - head.len()]);
                if opens_dangerous_at(d, i) {
                    assert(opens_dangerous_at(tail, i - head.len()));
                }
            } else if 0 <= i < head.len() {
                if i == 0 && arm_start(q, y) {
                    assert(d[0] == '_');
                } else if opens_dangerous_at(d, i) {
                    assert(i == head.len() - 1);
                    assert(d[i] == y[0]);
                    assert(d.skip(i + 1) =~= tail);
                    let j = choose|j: int|
                        0 <= j < dangerous_tags().len() && starts_with_ci(
                            d.skip(i + 1),
                            #[trigger] dangerous_tags()[j],
                        );
                    lemma_disarm_keeps_name(q1, y1, dangerous_tags()[j]);
                    assert(y.skip(0int + 1) =~= y1);
                    assert(opens_dangerous_at(y, 0));
                }
            }
        }
    }
}

} // verus!
