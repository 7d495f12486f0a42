//! Byte encodings done by outside crates: gzip (`flate2`) and Base64 (`base64`).

use vstd::prelude::*;
use std::io::Write;
use base64::Engine;

verus! {

/// What `flate2::write::GzEncoder` at `Compression::fast()` writes for `data`: `None`
/// where writing or finishing the stream fails.
pub uninterp spec fn gzip_fast_of(data: Seq<u8>) -> Option<Seq<u8>>;

/// Compresses `data` with `flate2::write::GzEncoder` into a `Vec` at
/// `flate2::Compression::fast()` (`write_all`, then `finish`). The contract claims only
/// that the result is a function of `data`.
#[verifier::external_body]
pub(crate) fn gzip_fast(data: &[u8]) -> (r: Option<Vec<u8>>)
    ensures
        match r {
            Some(z) => gzip_fast_of(data@) == Some(z@),
            None => gzip_fast_of(data@) is None,
        },
{
    let mut encoder = flate2::write::GzEncoder::new(Vec::new(), flate2::Compression::fast());
    encoder.write_all(data).ok()?;
    encoder.finish().ok()
}

/// The character of the standard Base64 alphabet for the six-bit value `v`: `A`-`Z`,
/// `a`-`z`, `0`-`9`, `+`, `/`.
pub open spec fn base64_char(v: int) -> char {
    if v < 26 {
        (v + 0x41) as char
    } else if v < 52 {
        (v - 26 + 0x61) as char
    } else if v < 62 {
        (v - 52 + 0x30) as char
    } else if v == 62 {
        '+'
    } else {
        '/'
    }
}

/// Standard Base64 with padding: every three bytes become four characters, six bits
/// each, most significant first; a last group of one or two bytes is filled with zero
/// bits and padded with `=` to four characters.
pub open spec fn base64_spec(d: Seq<u8>) -> Seq<char>
    decreases d.len(),
{
    if d.len() == 0 {
        Seq::empty()
    } else if d.len() == 1 {
        seq![base64_char(d[0] as int / 4), base64_char((d[0] % 4) * 16), '=', '=']
    } else if d.len() == 2 {
        seq![
            base64_char(d[0] as int / 4),
            base64_char((d[0] % 4) * 16 + d[1] / 16),
            base64_char((d[1] % 16) * 4),
            '=',
        ]
    } else {
        seq![
            base64_char(d[0] as int / 4),
            base64_char((d[0] % 4) * 16 + d[1] / 16),
            base64_char((d[1] % 16) * 4 + d[2] / 64),
            base64_char(d[2] as int % 64),
        ] + base64_spec(d.skip(3))
    }
}

/// Encodes `data` with `base64::engine::general_purpose::STANDARD`: the standard
/// alphabet, padded, as `base64_spec` says.
#[verifier::external_body]
pub(crate) fn base64_standard(data: &[u8]) -> (r: String)
    ensures
        r@ == base64_spec(data@),
{
    base64::engine::general_purpose::STANDARD.encode(data)
}

} // verus!
