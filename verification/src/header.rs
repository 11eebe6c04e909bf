//! The value of an HTTP header: which texts can be one, and the header that
//! presents an OAuth token.

use crate::error::MwError;
use vstd::prelude::*;
use vstd::string::StringExecFns;
use vstd::utf8::{encode_scalar, encode_utf8};

verus! {

/// `reqwest::header::HeaderValue`: the value of one HTTP header.
#[verifier::external_type_specification]
#[verifier::external_body]
pub struct ExHeaderValue(reqwest::header::HeaderValue);

/// The bytes that a header value holds.
pub uninterp spec fn header_bytes(value: reqwest::header::HeaderValue) -> Seq<u8>;

/// Whether a byte may stand in a header value: a tab, or anything from the
/// space upwards but the delete character.
pub open spec fn header_byte(b: u8) -> bool {
    (b >= 32 && b != 127) || b == 9
}

/// Whether every one of the bytes may stand in a header value.
pub open spec fn header_bytes_ok(bytes: Seq<u8>) -> bool {
    forall|i: int| 0 <= i < bytes.len() ==> header_byte(#[trigger] bytes[i])
}

/// `HeaderValue::from_str`: the header value that holds the bytes of the
/// UTF-8 form of `text`.  It is refused exactly when one of these bytes may
/// not stand in a header value.
#[verifier::external_body]
fn header_value(text: &str) -> (out: Result<
    reqwest::header::HeaderValue,
    reqwest::header::InvalidHeaderValue,
>)
    ensures
        out is Ok <==> header_bytes_ok(encode_utf8(text@)),
        out matches Ok(value) ==> header_bytes(value) == encode_utf8(text@),
{
    reqwest::header::HeaderValue::from_str(text)
}

/// Whether a character may stand in a header value: a tab, or any character
/// that is no control character of ASCII.
pub open spec fn header_char(c: char) -> bool {
    let v = c as u32;
    v == 9 || (v >= 32 && v != 127)
}

/// Whether a text may be sent as a header value: each of its characters may
/// stand in one.
pub open spec fn header_text(text: Seq<char>) -> bool {
    forall|i: int| 0 <= i < text.len() ==> header_char(#[trigger] text[i])
}

/// Bytes with one of these marks in front are never below 128.
proof fn lemma_marked_bytes(b: u8)
    by (bit_vector)
    ensures
        0x80u8 | b >= 0x80u8,
        0xC0u8 | b >= 0x80u8,
        0xE0u8 | b >= 0x80u8,
        0xF0u8 | b >= 0x80u8,
{
}

/// The bytes of one character may stand in a header value exactly when the
/// character may: a character of ASCII is its own byte, and the bytes of any
/// other are all above the range of ASCII.
proof fn lemma_header_scalar(c: char)
    ensures
        header_bytes_ok(encode_scalar(c as u32)) <==> header_char(c),
{
    let v = c as u32;
    let bytes = encode_scalar(v);
    if v <= 0x7F {
        assert((v & 0x7F) as u8 == v) by (bit_vector)
            requires
                v <= 0x7F,
        ;
        assert(bytes[0] == v);
        if header_char(c) {
            assert forall|i: int| 0 <= i < bytes.len() implies header_byte(#[trigger] bytes[i]) by {
                assert(bytes[i] == bytes[0]);
            }
        } else {
            assert(!header_byte(bytes[0]));
        }
    } else {
        lemma_marked_bytes((v & 0x3F) as u8);
        lemma_marked_bytes(((v >> 6) & 0x3F) as u8);
        lemma_marked_bytes(((v >> 12) & 0x3F) as u8);
        lemma_marked_bytes(((v >> 6) & 0x1F) as u8);
        lemma_marked_bytes(((v >> 12) & 0x0F) as u8);
        lemma_marked_bytes(((v >> 18) & 0x7) as u8);
        assert forall|i: int| 0 <= i < bytes.len() implies header_byte(#[trigger] bytes[i]) by {
            assert(bytes[i] >= 0x80);
        }
    }
}

/// Bytes in a row may stand in a header value exactly when both parts may.
proof fn lemma_header_bytes_concat(a: Seq<u8>, b: Seq<u8>)
    ensures
        header_bytes_ok(a + b) <==> header_bytes_ok(a) && header_bytes_ok(b),
{
    let ab = a + b;
    if header_bytes_ok(ab) {
        assert forall|i: int| 0 <= i < a.len() implies header_byte(#[trigger] a[i]) by {
            assert(ab[i] == a[i]);
        }
        assert forall|i: int| 0 <= i < b.len() implies header_byte(#[trigger] b[i]) by {
            assert(ab[a.len() + i] == b[i]);
        }
    }
    if header_bytes_ok(a) && header_bytes_ok(b) {
        assert forall|i: int| 0 <= i < ab.len() implies header_byte(#[trigger] ab[i]) by {
            if i < a.len() {
                assert(ab[i] == a[i]);
            } else {
                assert(ab[i] == b[i - a.len()]);
            }
        }
    }
}

/// A text is taken as a header value exactly when each of its characters may
/// stand in one: what is asked of the bytes of its UTF-8 form comes to the
/// same.
pub proof fn lemma_header_text(text: Seq<char>)
    ensures
        header_bytes_ok(encode_utf8(text)) <==> header_text(text),
    decreases text.len(),
{
    if text.len() > 0 {
        let rest = text.drop_first();
        lemma_header_text(rest);
        lemma_header_scalar(text[0]);
        lemma_header_bytes_concat(encode_scalar(text[0] as u32), encode_utf8(rest));
        if header_text(text) {
            assert(header_char(text[0]));
            assert forall|i: int| 0 <= i < rest.len() implies header_char(#[trigger] rest[i]) by {
                assert(rest[i] == text[i + 1]);
            }
        }
        if header_char(text[0]) && header_text(rest) {
            assert forall|i: int| 0 <= i < text.len() implies header_char(#[trigger] text[i]) by {
                if i > 0 {
                    assert(text[i] == rest[i - 1]);
                }
            }
        }
    }
}

/// The text of the `Authorization` header that presents an OAuth token.
pub open spec fn bearer_text(token: Seq<char>) -> Seq<char> {
    "Bearer "@ + token
}

/// The value of the `Authorization` header that presents the given OAuth
/// token.  A token with a character that cannot be sent in a header is
/// refused.
pub fn bearer(token: &str) -> (out: Result<reqwest::header::HeaderValue, MwError>)
    ensures
        out is Ok <==> header_text(token@),
        out matches Ok(value) ==> header_bytes(value) == encode_utf8(bearer_text(token@)),
        out matches Err(e) ==> e is InvalidHeaderValue,
{
    let text = "Bearer ".to_owned().concat(token);
    proof {
        reveal_strlit("Bearer ");
        let word = "Bearer "@;
        let all = bearer_text(token@);
        lemma_header_text(all);
        assert(header_text(word));
        if header_text(all) {
            assert forall|i: int| 0 <= i < token@.len() implies header_char(
                #[trigger] token@[i],
            ) by {
                assert(all[word.len() + i] == token@[i]);
            }
        }
        if header_text(token@) {
            assert forall|i: int| 0 <= i < all.len() implies header_char(#[trigger] all[i]) by {
                if i < word.len() {
                    assert(all[i] == word[i]);
                } else {
                    assert(all[i] == token@[i - word.len()]);
                }
            }
        }
    }
    match header_value(text.as_str()) {
        Ok(value) => Ok(value),
        Err(e) => Err(MwError::InvalidHeaderValue(e)),
    }
}

} // verus!
