//! Levenshtein (edit) distance between two strings, counted either in bytes of
//! their UTF-8 encoding or in characters (Unicode scalar values).
use vstd::prelude::*;
use vstd::utf8::{char_u32_cast, encode_utf8_decode_utf8};

pub mod model;
pub mod table;
pub mod text;
pub mod laws;

use crate::model::{lemma_encoded_len, lemma_map_values, lemma_self_zero, text_distance};
use crate::table::min_distance;
use crate::text::{same_bytes, scalar_values};

verus! {

/// The Levenshtein distance between `a` and `b`.
///
/// With `ascii` set, the strings are compared byte by byte in UTF-8. That is
/// cheap, and exact for text of single-byte characters; on other text it
/// counts each multi-byte character as several elements, and so may give more
/// than the distance in characters. Without `ascii`, the strings are compared
/// character by character (Unicode scalar values).
///
/// Both strings must be shorter than `u32::MAX` bytes, so that every distance
/// met on the way fits the result type.
pub fn edit_distance(a: &str, b: &str, ascii: bool) -> (r: u32)
    requires
        a.len() < u32::MAX,
        b.len() < u32::MAX,
    ensures
        r == text_distance(a@, b@, ascii),
{
    let a_bytes = a.as_bytes();
    let b_bytes = b.as_bytes();
    let a_len = a_bytes.len();
    let b_len = b_bytes.len();
    proof {
        lemma_encoded_len(a@);
        lemma_encoded_len(b@);
    }
    if same_bytes(a_bytes, b_bytes) {
        proof {
            encode_utf8_decode_utf8(a@);
            encode_utf8_decode_utf8(b@);
            lemma_self_zero(a@);
            lemma_self_zero(a_bytes@);
        }
        return 0;
    }
    if a.is_empty() {
        if ascii {
            return b_len as u32;
        }
        return scalar_values(b).len() as u32;
    }
    if b.is_empty() {
        if ascii {
            return a_len as u32;
        }
        return scalar_values(a).len() as u32;
    }
    if ascii {
        broadcast use vstd::laws_eq::group_laws_eq;

        min_distance(a_bytes, b_bytes)
    } else {
        broadcast use vstd::laws_eq::group_laws_eq;

        let a_chars = scalar_values(a);
        let b_chars = scalar_values(b);
        proof {
            let f = |c: char| c as u32;
            assert forall|i: int, j: int| 0 <= i < a@.len() && 0 <= j < b@.len() implies (f(a@[i])
                == f(b@[j]) <==> a@[i] == b@[j]) by {
                char_u32_cast(a@[i], a@[i] as u32);
                char_u32_cast(b@[j], b@[j] as u32);
            }
            lemma_map_values(a@, b@, f);
        }
        min_distance(a_chars.as_slice(), b_chars.as_slice())
    }
}

} // verus!
