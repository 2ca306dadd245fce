//! Image media types, from a file name's extension or from the bytes' signature.
use vstd::prelude::*;
use crate::text::{chars_end_with, chars_of, ends_with, lowercase_of, to_lowercase};

verus! {

/// The view of an optional string.
pub open spec fn opt_view(o: Option<String>) -> Option<Seq<char>> {
    match o {
        Some(s) => Some(s@),
        None => None,
    }
}

pub open spec fn jpeg_mime() -> Seq<char> {
    "image/jpeg"@
}

pub open spec fn png_mime() -> Seq<char> {
    "image/png"@
}

pub open spec fn webp_mime() -> Seq<char> {
    "image/webp"@
}

pub open spec fn gif_mime() -> Seq<char> {
    "image/gif"@
}

/// The media type that a lower-case file name's extension implies.
pub open spec fn extension_mime(lower: Seq<char>) -> Option<Seq<char>> {
    if ends_with(lower, ".jpg"@) || ends_with(lower, ".jpeg"@) {
        Some(jpeg_mime())
    } else if ends_with(lower, ".png"@) {
        Some(png_mime())
    } else if ends_with(lower, ".webp"@) {
        Some(webp_mime())
    } else if ends_with(lower, ".gif"@) {
        Some(gif_mime())
    } else {
        None
    }
}

/// The JPEG start-of-image marker followed by a marker byte.
pub open spec fn jpeg_signature(b: Seq<u8>) -> bool {
    b.len() >= 3 && b[0] == 0xFF && b[1] == 0xD8 && b[2] == 0xFF
}

/// The eight-byte PNG signature.
pub open spec fn png_signature(b: Seq<u8>) -> bool {
    &&& b.len() >= 8
    &&& b[0] == 0x89 && b[1] == 0x50 && b[2] == 0x4E && b[3] == 0x47
    &&& b[4] == 0x0D && b[5] == 0x0A && b[6] == 0x1A && b[7] == 0x0A
}

/// `GIF87a` or `GIF89a`.
pub open spec fn gif_signature(b: Seq<u8>) -> bool {
    &&& b.len() >= 6
    &&& b[0] == 0x47 && b[1] == 0x49 && b[2] == 0x46 && b[3] == 0x38
    &&& (b[4] == 0x37 || b[4] == 0x39)
    &&& b[5] == 0x61
}

/// A RIFF container whose form type is `WEBP`.
pub open spec fn webp_signature(b: Seq<u8>) -> bool {
    &&& b.len() >= 12
    &&& b[0] == 0x52 && b[1] == 0x49 && b[2] == 0x46 && b[3] == 0x46
    &&& b[8] == 0x57 && b[9] == 0x45 && b[10] == 0x42 && b[11] == 0x50
}

/// The media type that the leading bytes of `b` show.
pub open spec fn sniffed_mime(b: Seq<u8>) -> Option<Seq<char>> {
    if jpeg_signature(b) {
        Some(jpeg_mime())
    } else if png_signature(b) {
        Some(png_mime())
    } else if gif_signature(b) {
        Some(gif_mime())
    } else if webp_signature(b) {
        Some(webp_mime())
    } else {
        None
    }
}

/// The media type implied by `path`'s extension, compared without regard to case.
pub fn mime_from_path(path: &str) -> (r: Option<String>)
    ensures
        opt_view(r) == extension_mime(lowercase_of(path@)),
{
    let lower = to_lowercase(path);
    let l = chars_of(lower.as_str());
    let jpg = chars_of(".jpg");
    let jpeg = chars_of(".jpeg");
    let png = chars_of(".png");
    let webp = chars_of(".webp");
    let gif = chars_of(".gif");
    if chars_end_with(&l, &jpg) || chars_end_with(&l, &jpeg) {
        Some(String::from_str("image/jpeg"))
    } else if chars_end_with(&l, &png) {
        Some(String::from_str("image/png"))
    } else if chars_end_with(&l, &webp) {
        Some(String::from_str("image/webp"))
    } else if chars_end_with(&l, &gif) {
        Some(String::from_str("image/gif"))
    } else {
        None
    }
}

/// The media type that the signature at the start of `bytes` shows: JPEG,
/// PNG, GIF or WebP.
pub fn mime_from_bytes(bytes: &[u8]) -> (r: Option<String>)
    ensures
        opt_view(r) == sniffed_mime(bytes@),
{
    let n = bytes.len();
    if n >= 3 && bytes[0] == 0xFF && bytes[1] == 0xD8 && bytes[2] == 0xFF {
        return Some(String::from_str("image/jpeg"));
    }
    if n >= 8 && bytes[0] == 0x89 && bytes[1] == 0x50 && bytes[2] == 0x4E && bytes[3] == 0x47
        && bytes[4] == 0x0D && bytes[5] == 0x0A && bytes[6] == 0x1A && bytes[7] == 0x0A {
        return Some(String::from_str("image/png"));
    }
    if n >= 6 && bytes[0] == 0x47 && bytes[1] == 0x49 && bytes[2] == 0x46 && bytes[3] == 0x38
        && (bytes[4] == 0x37 || bytes[4] == 0x39) && bytes[5] == 0x61 {
        return Some(String::from_str("image/gif"));
    }
    if n >= 12 && bytes[0] == 0x52 && bytes[1] == 0x49 && bytes[2] == 0x46 && bytes[3] == 0x46
        && bytes[8] == 0x57 && bytes[9] == 0x45 && bytes[10] == 0x42 && bytes[11] == 0x50 {
        return Some(String::from_str("image/webp"));
    }
    None
}

/// For an image whose bytes carry the JPEG, PNG, GIF or WebP signature and
/// whose lower-case name carries the matching extension, the media type
/// sniffed from the bytes is the one that the extension implies.
pub proof fn lemma_sniffed_matches_extension(b: Seq<u8>, lower: Seq<char>)
    requires
        (jpeg_signature(b) && (ends_with(lower, ".jpg"@) || ends_with(lower, ".jpeg"@)))
        || (png_signature(b) && ends_with(lower, ".png"@))
        || (gif_signature(b) && ends_with(lower, ".gif"@))
        || (webp_signature(b) && ends_with(lower, ".webp"@)),
    ensures
        sniffed_mime(b) is Some,
        sniffed_mime(b) == extension_mime(lower),
{
    reveal_strlit(".jpg");
    reveal_strlit(".jpeg");
    reveal_strlit(".png");
    reveal_strlit(".gif");
    reveal_strlit(".webp");
    if png_signature(b) || gif_signature(b) || webp_signature(b) {
        assert(!jpeg_signature(b));
    }
    let exts = seq![".jpg"@, ".jpeg"@, ".png"@, ".gif"@, ".webp"@];
    assert forall|k: int| 0 <= k < 5 && #[trigger] ends_with(lower, exts[k]) implies
        lower[lower.len() - 1] == exts[k][exts[k].len() - 1]
        && lower[lower.len() - 2] == exts[k][exts[k].len() - 2] by {
        lemma_ends_last_two(lower, exts[k]);
    }
    assert(ends_with(lower, ".jpg"@) == ends_with(lower, exts[0]));
    assert(ends_with(lower, ".jpeg"@) == ends_with(lower, exts[1]));
    assert(ends_with(lower, ".png"@) == ends_with(lower, exts[2]));
    assert(ends_with(lower, ".gif"@) == ends_with(lower, exts[3]));
    assert(ends_with(lower, ".webp"@) == ends_with(lower, exts[4]));
}

proof fn lemma_ends_last_two(s: Seq<char>, t: Seq<char>)
    requires
        ends_with(s, t),
        t.len() >= 2,
    ensures
        s[s.len() - 1] == t[t.len() - 1],
        s[s.len() - 2] == t[t.len() - 2],
{
    let n = s.len() as int;
    let m = t.len() as int;
    assert(s.subrange(n - m, n)[m - 1] == s[n - 1]);
    assert(s.subrange(n - m, n)[m - 2] == s[n - 2]);
}

} // verus!
