//! The decisions of the speech-synthesis adapters that do not depend on the
//! network: endpoints, defaults, media types and vendor status codes.
use vstd::prelude::*;
use crate::mime::opt_view;
use crate::archive::{base64_decoded, base64_encoded, decode_base64, encode_base64};
use crate::models::{AudioClip, ExternalTtsConfig};
use crate::path::hex_digit;
use vstd::string::StringSliceAdditionalSpecFns;
use crate::text::{chars_of, string_of};
use crate::xml::same_text;

verus! {

/// `s` without its trailing `/` characters.
pub open spec fn trim_trailing_slashes(s: Seq<char>) -> Seq<char>
    decreases s.len(),
{
    if s.len() > 0 && s.last() == '/' {
        trim_trailing_slashes(s.drop_last())
    } else {
        s
    }
}

/// The synthesis endpoint under the service's base URL.
pub fn build_endpoint(config: &ExternalTtsConfig) -> (r: String)
    ensures
        r@ == trim_trailing_slashes(config.api_base_url@) + "/synthesize"@,
{
    let cs = chars_of(config.api_base_url.as_str());
    let ghost all = cs@;
    let mut end: usize = cs.len();
    assert(cs@.subrange(0, end as int) =~= cs@);
    while end > 0 && cs[end - 1] == '/'
        invariant
            end <= cs@.len(),
            trim_trailing_slashes(cs@) == trim_trailing_slashes(cs@.subrange(0, end as int)),
        decreases end,
    {
        assert(cs@.subrange(0, end as int).drop_last() =~= cs@.subrange(0, end - 1));
        end = end - 1;
    }
    let mut kept = cs;
    kept.truncate(end);
    let base = string_of(kept.as_slice());
    assert(kept@ =~= all.subrange(0, end as int));
    base.concat("/synthesize")
}

/// The media type of audio that MiniMax returns in `format`.
pub open spec fn minimax_mime_of(format: Seq<char>) -> Seq<char> {
    if format == "wav"@ {
        "audio/wav"@
    } else if format == "flac"@ {
        "audio/flac"@
    } else if format == "pcm"@ {
        "audio/pcm"@
    } else {
        "audio/mpeg"@
    }
}

/// The media type of audio that MiniMax returns in `format`.
pub fn minimax_mime(format: &str) -> (r: String)
    ensures
        r@ == minimax_mime_of(format@),
{
    let f = String::from_str(format);
    if same_text(&f, "wav") {
        String::from_str("audio/wav")
    } else if same_text(&f, "flac") {
        String::from_str("audio/flac")
    } else if same_text(&f, "pcm") {
        String::from_str("audio/pcm")
    } else {
        String::from_str("audio/mpeg")
    }
}

/// A setting that is present and not empty.
pub open spec fn given(value: Option<Seq<char>>) -> Option<Seq<char>> {
    match value {
        Some(v) => if v.len() > 0 { Some(v) } else { None },
        None => None,
    }
}

/// The setting when it is present and not empty.
pub fn non_empty(value: &Option<String>) -> (r: Option<String>)
    ensures
        opt_view(r) == given(opt_view(*value)),
{
    match value {
        Some(v) => {
            if chars_of(v.as_str()).len() > 0 {
                Some(v.clone())
            } else {
                None
            }
        },
        None => None,
    }
}

/// The setting when it is present and not empty, else `default`.
pub fn setting_or(value: &Option<String>, default: &str) -> (r: String)
    ensures
        r@ == match given(opt_view(*value)) {
            Some(v) => v,
            None => default@,
        },
{
    match non_empty(value) {
        Some(v) => v,
        None => String::from_str(default),
    }
}

/// The outcome of a vendor's status code: zero is success; any other code
/// fails with the vendor's message, or with `fallback` where it gave none.
pub fn check_vendor_status(status_code: i64, message: Option<String>, fallback: &str) -> (r: Result<(), String>)
    ensures
        status_code == 0 <==> r is Ok,
        r matches Err(m) ==> m@ == match opt_view(message) {
            Some(s) => s,
            None => fallback@,
        },
{
    if status_code == 0 {
        Ok(())
    } else {
        match message {
            Some(m) => Err(m),
            None => Err(String::from_str(fallback)),
        }
    }
}

/// The audio bytes of an upload given as base64 text.
pub fn decode_audio(audio_base64: &str) -> (r: Result<Vec<u8>, String>)
    ensures
        match base64_decoded(audio_base64@) {
            Some(b) => r matches Ok(v) && v@ == b,
            None => r is Err,
        },
{
    match decode_base64(audio_base64) {
        Ok(b) => Ok(b),
        Err(cause) => Err(String::from_str("Invalid audio base64: ").concat(cause.as_str())),
    }
}

/// The clip for audio received as raw bytes of media type `mime`.
pub fn audio_clip(chapter_id: String, bytes: &[u8], mime: String) -> (r: AudioClip)
    ensures
        r.chapter_id@ == chapter_id@,
        r.audio_base64@ == base64_encoded(bytes@),
        r.mime@ == mime@,
{
    AudioClip { chapter_id, audio_base64: encode_base64(bytes), mime }
}

/// The bytes that the hexadecimal text `b` spells, two digits (of either
/// case) to a byte; `None` when its length is odd or a digit is invalid.
pub open spec fn hex_bytes(b: Seq<u8>) -> Option<Seq<u8>>
    decreases b.len(),
{
    if b.len() == 0 {
        Some(Seq::empty())
    } else if b.len() == 1 || hex_digit(b[0]) is None || hex_digit(b[1]) is None {
        None
    } else {
        match hex_bytes(b.subrange(2, b.len() as int)) {
            Some(rest) => Some(seq![(hex_digit(b[0])->0 * 16 + hex_digit(b[1])->0) as u8] + rest),
            None => None,
        }
    }
}

/// Relies on `hex::FromHex` for `Vec<u8>`: odd lengths and non-digits are
/// refused, and each pair of digits gives one byte, high digit first.
#[verifier::external_body]
fn decode_hex(s: &str) -> (r: Option<Vec<u8>>)
    ensures
        match r {
            Some(b) => hex_bytes(s.spec_bytes()) == Some(b@),
            None => hex_bytes(s.spec_bytes()) is None,
        },
{
    <Vec<u8> as hex::FromHex>::from_hex(s).ok()
}

/// The clip for MiniMax audio delivered as hexadecimal text in `format`:
/// the audio re-encoded as base64, with the format's media type.
pub fn minimax_audio_clip(chapter_id: String, audio_hex: &str, format: &str) -> (r: Result<AudioClip, String>)
    ensures
        r is Ok <==> hex_bytes(audio_hex.spec_bytes()) is Some,
        r matches Ok(c) ==> c.chapter_id@ == chapter_id@
            && c.audio_base64@ == base64_encoded(hex_bytes(audio_hex.spec_bytes())->0)
            && c.mime@ == minimax_mime_of(format@),
{
    match decode_hex(audio_hex) {
        Some(bytes) => Ok(AudioClip {
            chapter_id,
            audio_base64: encode_base64(bytes.as_slice()),
            mime: minimax_mime(format),
        }),
        None => Err(String::from_str("Invalid audio hex.")),
    }
}

} // verus!
