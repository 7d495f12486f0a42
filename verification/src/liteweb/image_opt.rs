//! Image optimization decisions: which images of a page are fetched, and how each image
//! element is rewritten once its download succeeded (inlined as a WebP data URI) or
//! failed (replaced by its alt text).

use vstd::prelude::*;
use crate::codec::{base64_spec, base64_standard};
use crate::pattern::{GroupsView, group, group_at, regex_scan, regex_scan_of, whole, whole_match};
use crate::text::{
    decimal, push_decimal, push_str, replace_spec, replace_str, starts_with_seq, str_starts_with,
};

verus! {

/// Image elements with a non-empty source, the source in group 1.
pub const IMG_TAG_PATTERN: &'static str = r#"<img[^>]*src\s*=\s*"([^"]+)"[^>]*>"#;

/// An `alt` attribute, its text in group 1.
pub const ALT_PATTERN: &'static str = r#"alt\s*=\s*"([^"]*)""#;

/// The most images fetched per page.
pub const MAX_IMAGES_PER_PAGE: usize = 10;

/// The largest image accepted, in bytes.
pub const MAX_IMAGE_BYTES: usize = 10_000_000;

/// An image to fetch: the whole element, and its source.
#[derive(Debug, Clone)]
pub struct ImageTarget {
    pub tag: String,
    pub src: String,
}

/// The images to fetch, in document order: every image element whose source is not
/// already a `data:` URI, stopping once `max_images` are collected (at least one is
/// collected when there is one).
pub open spec fn targets_spec(ms: Seq<GroupsView>, max_images: nat) -> Seq<(Seq<char>, Seq<char>)>
    decreases ms.len(),
{
    if ms.len() == 0 {
        Seq::empty()
    } else {
        let prev = targets_spec(ms.drop_last(), max_images);
        if prev.len() > 0 && prev.len() >= max_images {
            prev
        } else {
            match group(ms.last(), 1) {
                None => prev,
                Some(src) => if starts_with_seq(src, "data:"@) {
                    prev
                } else {
                    prev.push((whole(ms.last()), src))
                },
            }
        }
    }
}

/// The images to fetch from `html`.
pub open spec fn image_targets_spec(html: Seq<char>, max_images: nat) -> Seq<(Seq<char>, Seq<char>)> {
    match regex_scan_of(IMG_TAG_PATTERN@, html) {
        None => Seq::empty(),
        Some(scan) => targets_spec(scan.1, max_images),
    }
}

/// Targets as plain values.
pub open spec fn target_view(ts: Seq<ImageTarget>) -> Seq<(Seq<char>, Seq<char>)> {
    ts.map_values(|t: ImageTarget| (t.tag@, t.src@))
}

/// Collects the images of `html` to fetch: image elements whose source is not a `data:`
/// URI, in document order, at most `max_images` of them (but at least one when any).
pub fn collect_image_targets(html: &str, max_images: usize) -> (ts: Vec<ImageTarget>)
    ensures
        target_view(ts@) == image_targets_spec(html@, max_images as nat),
{
    let mut ts: Vec<ImageTarget> = Vec::new();
    match regex_scan(IMG_TAG_PATTERN, html) {
        None => ts,
        Some(scan) => {
            let ghost ms = scan.view().1;
            let mut i: usize = 0;
            while i < scan.matches.len()
                invariant
                    ms == scan.view().1,
                    i <= ms.len(),
                    target_view(ts@) == targets_spec(ms.take(i as int), max_images as nat),
                decreases ms.len() - i,
            {
                let m = &scan.matches[i];
                assert(m.deep_view() == ms[i as int]);
                assert(ms.take(i + 1).drop_last() == ms.take(i as int));
                assert(ms.take(i + 1).last() == ms[i as int]);
                if ts.len() == 0 || ts.len() < max_images {
                    match group_at(m, 1) {
                        None => {},
                        Some(src) => {
                            if !str_starts_with(src, "data:") {
                                let t = ImageTarget { tag: whole_match(m), src: src.to_owned() };
                                let ghost before = ts@;
                                ts.push(t);
                                assert(target_view(ts@) =~= target_view(before).push(
                                    (whole(ms[i as int]), src@),
                                ));
                            }
                        },
                    }
                }
                i = i + 1;
            }
            assert(ms.take(ms.len() as int) == ms);
            ts
        },
    }
}

/// What became of one image download.
#[derive(Debug, Clone)]
pub enum ImageOutcome {
    /// Downloaded and re-encoded: the `data:` URI of the WebP image.
    Optimized(String),
    /// The download or the re-encoding failed.
    Failed,
    /// The download task did not finish.
    Lost,
}

/// The text of the first `alt` attribute in an image element.
pub open spec fn alt_spec(tag: Seq<char>) -> Option<Seq<char>> {
    match regex_scan_of(ALT_PATTERN@, tag) {
        Some(scan) => if scan.1.len() > 0 {
            group(scan.1[0], 1)
        } else {
            None
        },
        None => None,
    }
}

/// The text of the first `alt` attribute in an image element.
pub fn alt_of(tag: &str) -> (alt: Option<String>)
    ensures
        alt.deep_view() == alt_spec(tag@),
{
    match regex_scan(ALT_PATTERN, tag) {
        Some(scan) => {
            if scan.matches.len() > 0 {
                assert(scan.matches@[0].deep_view() == scan.view().1[0]);
                match group_at(&scan.matches[0], 1) {
                    Some(a) => Some(a.to_owned()),
                    None => None,
                }
            } else {
                None
            }
        },
        None => None,
    }
}

/// What an image element is replaced by: an inlined, lazily loaded image keeping the alt
/// text; on failure its alt text in emphasis (`[Image: alt]`, or `[Image]`); nothing
/// when the download was lost.
pub open spec fn replacement_spec(tag: Seq<char>, outcome: ImageOutcome) -> Option<Seq<char>> {
    match outcome {
        ImageOutcome::Optimized(uri) => Some(
            "<img src=\""@ + uri@ + "\" alt=\""@ + match alt_spec(tag) {
                Some(a) => a,
                None => Seq::empty(),
            } + "\" loading=\"lazy\">"@,
        ),
        ImageOutcome::Failed => Some(
            "<em>"@ + match alt_spec(tag) {
                Some(a) => "[Image: "@ + a + "]"@,
                None => "[Image]"@,
            } + "</em>"@,
        ),
        ImageOutcome::Lost => None,
    }
}

/// What an image element is replaced by.
pub fn replacement_for(tag: &str, outcome: &ImageOutcome) -> (r: Option<String>)
    ensures
        r.deep_view() == replacement_spec(tag@, *outcome),
{
    match outcome {
        ImageOutcome::Optimized(uri) => {
            let mut r = String::new();
            push_str(&mut r, "<img src=\"");
            push_str(&mut r, uri.as_str());
            push_str(&mut r, "\" alt=\"");
            match alt_of(tag) {
                Some(a) => push_str(&mut r, a.as_str()),
                None => {},
            }
            push_str(&mut r, "\" loading=\"lazy\">");
            Some(r)
        },
        ImageOutcome::Failed => {
            let mut r = String::new();
            push_str(&mut r, "<em>");
            match alt_of(tag) {
                Some(a) => {
                    push_str(&mut r, "[Image: ");
                    push_str(&mut r, a.as_str());
                    push_str(&mut r, "]");
                },
                None => push_str(&mut r, "[Image]"),
            }
            push_str(&mut r, "</em>");
            Some(r)
        },
        ImageOutcome::Lost => None,
    }
}

/// The page after rewriting each image element with its outcome, in order (every
/// occurrence of the element's text is replaced), and the number of inlined images.
pub open spec fn apply_spec(html: Seq<char>, tags: Seq<Seq<char>>, outcomes: Seq<ImageOutcome>) -> (Seq<char>, nat)
    decreases tags.len(),
{
    if tags.len() == 0 || outcomes.len() == 0 {
        (html, 0)
    } else {
        let prev = apply_spec(html, tags.drop_last(), outcomes.drop_last());
        match replacement_spec(tags.last(), outcomes.last()) {
            Some(r) => (
                replace_spec(prev.0, tags.last(), r),
                prev.1 + if outcomes.last() is Optimized {
                    1nat
                } else {
                    0nat
                },
            ),
            None => prev,
        }
    }
}

/// Rewrites the image elements of `html` with the outcomes of their downloads, in order,
/// and counts the inlined images.
pub fn apply_image_outcomes(html: &str, targets: &Vec<ImageTarget>, outcomes: &Vec<ImageOutcome>) -> (r: (String, usize))
    requires
        targets@.len() == outcomes@.len(),
    ensures
        r.0@ == apply_spec(html@, targets@.map_values(|t: ImageTarget| t.tag@), outcomes@).0,
        r.1 == apply_spec(html@, targets@.map_values(|t: ImageTarget| t.tag@), outcomes@).1,
{
    let ghost tags = targets@.map_values(|t: ImageTarget| t.tag@);
    let mut out = html.to_owned();
    let mut count: usize = 0;
    let mut i: usize = 0;
    while i < targets.len()
        invariant
            targets@.len() == outcomes@.len(),
            tags == targets@.map_values(|t: ImageTarget| t.tag@),
            i <= targets@.len(),
            out@ == apply_spec(html@, tags.take(i as int), outcomes@.take(i as int)).0,
            count == apply_spec(html@, tags.take(i as int), outcomes@.take(i as int)).1,
            count <= i,
        decreases targets@.len() - i,
    {
        assert(tags.take(i + 1).drop_last() == tags.take(i as int));
        assert(outcomes@.take(i + 1).drop_last() == outcomes@.take(i as int));
        assert(tags.take(i + 1).last() == targets@[i as int].tag@);
        match replacement_for(targets[i].tag.as_str(), &outcomes[i]) {
            Some(rep) => {
                out = replace_str(out.as_str(), targets[i].tag.as_str(), rep.as_str());
                match &outcomes[i] {
                    ImageOutcome::Optimized(_) => {
                        count = count + 1;
                    },
                    _ => {},
                }
            },
            None => {},
        }
        i = i + 1;
    }
    assert(tags.take(targets@.len() as int) == tags);
    assert(outcomes@.take(targets@.len() as int) == outcomes@);
    (out, count)
}

/// The `data:` URI of WebP bytes.
pub open spec fn data_uri_spec(webp: Seq<u8>) -> Seq<char> {
    "data:image/webp;base64,"@ + base64_spec(webp)
}

/// The `data:` URI of WebP bytes, Base64-encoded.
pub fn webp_data_uri(webp: &[u8]) -> (uri: String)
    ensures
        uri@ == data_uri_spec(webp@),
{
    let mut uri = String::new();
    push_str(&mut uri, "data:image/webp;base64,");
    let b = base64_standard(webp);
    push_str(&mut uri, b.as_str());
    uri
}

/// Whether a downloaded image is too large to process.
pub fn image_too_large(size: usize) -> (b: bool)
    ensures
        b == (size > MAX_IMAGE_BYTES),
{
    size > MAX_IMAGE_BYTES
}

/// The message for an image too large to process.
pub fn image_too_large_message(size: usize) -> (m: String)
    ensures
        m@ == "Image too large: "@ + decimal(size as nat) + " bytes"@,
{
    let mut m = String::new();
    push_str(&mut m, "Image too large: ");
    push_decimal(&mut m, size as u64);
    push_str(&mut m, " bytes");
    m
}


/// Law: at most `max_images` images are fetched from a page (one when `max_images` is
/// zero), and none whose source is already a `data:` URI.
pub proof fn lemma_image_targets_bounded(ms: Seq<GroupsView>, max_images: nat)
    ensures
        targets_spec(ms, max_images).len() <= if max_images == 0 {
            1
        } else {
            max_images
        },
        forall|k: int|
            0 <= k < targets_spec(ms, max_images).len() ==> !starts_with_seq(
                #[trigger] targets_spec(ms, max_images)[k].1,
                "data:"@,
            ),
    decreases ms.len(),
{
    if ms.len() > 0 {
        lemma_image_targets_bounded(ms.drop_last(), max_images);
        let prev = targets_spec(ms.drop_last(), max_images);
        assert forall|k: int| 0 <= k < targets_spec(ms, max_images).len() implies !starts_with_seq(
            #[trigger] targets_spec(ms, max_images)[k].1,
            "data:"@,
        ) by {
            if k < prev.len() {
                assert(targets_spec(ms, max_images)[k] == prev[k]);
            }
        }
    }
}

} // verus!
