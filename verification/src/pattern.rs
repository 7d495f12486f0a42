//! Regular-expression scanning (through the `regex` crate) and splicing of the
//! pieces back together, with the replacement of each match computed by verified code.

use vstd::prelude::*;
use crate::text::push_str;

verus! {

/// The groups of one match, as plain values: group 0 is the whole match, a group that
/// took no part in the match is `None`.
pub type GroupsView = Seq<Option<Seq<char>>>;

/// What scanning a text gives, as plain values: the pieces between matches, then the
/// groups of each match.
pub type ScanView = (Seq<Seq<char>>, Seq<GroupsView>);

/// The result of scanning a text with a regular expression.
pub struct RegexScan {
    /// The text between consecutive matches, one piece more than there are matches.
    pub gaps: Vec<String>,
    /// The capture groups of each match, in order.
    pub matches: Vec<Vec<Option<String>>>,
}

impl RegexScan {
    pub open spec fn view(&self) -> ScanView {
        (self.gaps.deep_view(), self.matches.deep_view())
    }
}

/// What `regex::Regex` gives for `pattern` on `text`: `None` when the pattern does not
/// compile, else the pieces between the leftmost-first non-overlapping matches, and the
/// capture groups of each match.
pub uninterp spec fn regex_scan_of(pattern: Seq<char>, text: Seq<char>) -> Option<ScanView>;

/// `gaps[0] fills[0] gaps[1] fills[1] ... gaps[n]`.
pub open spec fn interleave(gaps: Seq<Seq<char>>, fills: Seq<Seq<char>>) -> Seq<char>
    decreases fills.len(),
{
    if fills.len() == 0 {
        if gaps.len() == 0 {
            Seq::empty()
        } else {
            gaps[0]
        }
    } else {
        interleave(gaps.drop_last(), fills.drop_last()) + fills.last() + gaps.last()
    }
}

/// Group `k` of a match, `None` where there is no such group or it took no part.
pub open spec fn group(m: GroupsView, k: int) -> Option<Seq<char>> {
    if 0 <= k < m.len() {
        m[k]
    } else {
        None
    }
}

/// The whole text of a match.
pub open spec fn whole(m: GroupsView) -> Seq<char> {
    match group(m, 0) {
        Some(g) => g,
        None => Seq::empty(),
    }
}

/// The shape that the regex crate documents for a scan of `text`: one more gap than
/// matches, group 0 of every match present, and gaps and matches together giving back
/// the text.
pub open spec fn scan_partitions(scan: ScanView, text: Seq<char>) -> bool {
    &&& scan.0.len() == scan.1.len() + 1
    &&& forall|i: int| 0 <= i < scan.1.len() ==> (#[trigger] group(scan.1[i], 0)) is Some
    &&& interleave(scan.0, scan.1.map_values(|m: GroupsView| whole(m))) == text
}

/// Scans `text` with the regular expression `pattern` (`regex::Regex::new`, then
/// `Regex::split` for the text between matches and `Regex::captures_iter` for the
/// matches). The contract claims that the result is a function of the two strings,
/// `None` exactly when the pattern does not compile, and, as the crate documents,
/// that the gaps and the matches interleaved give back the text.
#[verifier::external_body]
pub(crate) fn regex_scan(pattern: &str, text: &str) -> (r: Option<RegexScan>)
    ensures
        match r {
            Some(s) => regex_scan_of(pattern@, text@) == Some(s.view()),
            None => regex_scan_of(pattern@, text@) is None,
        },
        r matches Some(s) ==> scan_partitions(s.view(), text@),
{
    let re = regex::Regex::new(pattern).ok()?;
    let gaps = re.split(text).map(|g| g.to_string()).collect();
    let matches = re.captures_iter(text).map(|c| {
        c.iter().map(|g| g.map(|m| m.as_str().to_string())).collect()
    }).collect();
    Some(RegexScan { gaps, matches })
}

/// Joins the gaps of a scan with the given fills between them.
pub fn splice(gaps: &Vec<String>, fills: &Vec<String>) -> (out: String)
    requires
        gaps@.len() == fills@.len() + 1,
    ensures
        out@ == interleave(gaps.deep_view(), fills.deep_view()),
{
    let ghost g = gaps.deep_view();
    let ghost f = fills.deep_view();
    let mut out = String::new();
    push_str(&mut out, gaps[0].as_str());
    assert(g.take(1).drop_last().len() == 0);
    assert(out@ == interleave(g.take(1), f.take(0)));
    let mut i: usize = 0;
    while i < fills.len()
        invariant
            gaps@.len() == fills@.len() + 1,
            g == gaps.deep_view(),
            f == fills.deep_view(),
            i <= fills@.len(),
            out@ == interleave(g.take(i + 1), f.take(i as int)),
        decreases fills@.len() - i,
    {
        push_str(&mut out, fills[i].as_str());
        push_str(&mut out, gaps[i + 1].as_str());
        assert(g.take(i + 2).drop_last() == g.take(i + 1));
        assert(f.take(i + 1).drop_last() == f.take(i as int));
        i = i + 1;
    }
    assert(g.take(fills@.len() + 1 as int) == g);
    assert(f.take(fills@.len() as int) == f);
    out
}

/// Group `k` of a match, as a string slice.
pub fn group_at(m: &Vec<Option<String>>, k: usize) -> (g: Option<&str>)
    ensures
        match g {
            Some(s) => group(m.deep_view(), k as int) == Some(s@),
            None => group(m.deep_view(), k as int) is None,
        },
{
    if k < m.len() {
        match &m[k] {
            Some(s) => Some(s.as_str()),
            None => None,
        }
    } else {
        None
    }
}

/// The whole text of a match.
pub fn whole_match(m: &Vec<Option<String>>) -> (w: String)
    ensures
        w@ == whole(m.deep_view()),
{
    match group_at(m, 0) {
        Some(s) => s.to_owned(),
        None => String::new(),
    }
}

/// `text` with every match of `pattern` replaced by what `f` gives for its groups;
/// `text` unchanged when the pattern does not compile.
pub open spec fn replace_each(
    pattern: Seq<char>,
    text: Seq<char>,
    f: spec_fn(GroupsView) -> Seq<char>,
) -> Seq<char> {
    match regex_scan_of(pattern, text) {
        None => text,
        Some(scan) => interleave(scan.0, scan.1.map_values(f)),
    }
}

/// The replacement that puts `r` in place of every match.
pub open spec fn constant_fill(r: Seq<char>) -> spec_fn(GroupsView) -> Seq<char> {
    |m: GroupsView| r
}

/// Whether `pattern` matches somewhere in `text` (`false` when it does not compile).
pub open spec fn is_match_spec(pattern: Seq<char>, text: Seq<char>) -> bool {
    match regex_scan_of(pattern, text) {
        None => false,
        Some(scan) => scan.1.len() > 0,
    }
}

/// Replaces every match of `pattern` in `text` with `rep`.
pub fn replace_all_with(pattern: &str, text: &str, rep: &str) -> (out: String)
    ensures
        out@ == replace_each(pattern@, text@, constant_fill(rep@)),
{
    match regex_scan(pattern, text) {
        None => text.to_owned(),
        Some(scan) => {
            let ghost sv = scan.view();
            let mut fills: Vec<String> = Vec::new();
            let mut i: usize = 0;
            while i < scan.matches.len()
                invariant
                    sv == scan.view(),
                    i <= sv.1.len(),
                    fills.deep_view() == sv.1.take(i as int).map_values(constant_fill(rep@)),
                decreases sv.1.len() - i,
            {
                let r = rep.to_owned();
                let ghost before = fills.deep_view();
                fills.push(r);
                assert(fills.deep_view() =~= before.push(rep@));
                assert(sv.1.take(i + 1).map_values(constant_fill(rep@)) =~= sv.1.take(
                    i as int,
                ).map_values(constant_fill(rep@)).push(rep@));
                i = i + 1;
            }
            assert(sv.1.take(sv.1.len() as int) == sv.1);
            splice(&scan.gaps, &fills)
        },
    }
}

/// Whether `pattern` matches somewhere in `text` (`false` when it does not compile).
pub fn is_match(pattern: &str, text: &str) -> (b: bool)
    ensures
        b == is_match_spec(pattern@, text@),
{
    match regex_scan(pattern, text) {
        None => false,
        Some(scan) => scan.matches.len() > 0,
    }
}

} // verus!
