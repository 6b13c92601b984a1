//! Laws of the distance between texts, in either mode.
use vstd::prelude::*;
use vstd::utf8::{encode_utf8, is_ascii_chars, is_ascii_chars_encode_utf8, is_ascii_chars_nat_bound};

use crate::model::{
    lemma_map_values, lemma_self_zero, lemma_symmetric, lemma_triangle, text_distance,
};

verus! {

/// Every text is at distance zero from itself, in both modes.
pub proof fn identity(t: Seq<char>, ascii: bool)
    ensures
        text_distance(t, t, ascii) == 0,
{
    lemma_self_zero(t);
    lemma_self_zero(encode_utf8(t));
}

/// The distance from `a` to `b` is the distance from `b` to `a`, in both modes.
pub proof fn symmetry(a: Seq<char>, b: Seq<char>, ascii: bool)
    ensures
        text_distance(a, b, ascii) == text_distance(b, a, ascii),
{
    lemma_symmetric(a, b);
    lemma_symmetric(encode_utf8(a), encode_utf8(b));
}

/// Against the empty text, the distance is the length of the other text: its
/// number of bytes in byte mode, its number of characters otherwise.
pub proof fn empty_text(t: Seq<char>)
    ensures
        text_distance(Seq::empty(), t, true) == encode_utf8(t).len(),
        text_distance(t, Seq::empty(), true) == encode_utf8(t).len(),
        text_distance(Seq::empty(), t, false) == t.len(),
        text_distance(t, Seq::empty(), false) == t.len(),
{
    assert(encode_utf8(Seq::<char>::empty()) =~= Seq::<u8>::empty());
}

/// The distance from `a` to `c` is at most the distance from `a` to `b` plus
/// the distance from `b` to `c`, in both modes.
pub proof fn triangle(a: Seq<char>, b: Seq<char>, c: Seq<char>, ascii: bool)
    ensures
        text_distance(a, c, ascii) <= text_distance(a, b, ascii) + text_distance(b, c, ascii),
{
    lemma_triangle(a, b, c);
    lemma_triangle(encode_utf8(a), encode_utf8(b), encode_utf8(c));
}

/// On texts made of single-byte (ASCII) characters the two modes give the same
/// distance.
pub proof fn modes_agree_on_ascii(a: Seq<char>, b: Seq<char>)
    requires
        is_ascii_chars(a),
        is_ascii_chars(b),
    ensures
        text_distance(a, b, true) == text_distance(a, b, false),
{
    let f = |c: char| c as u8;
    is_ascii_chars_encode_utf8(a);
    is_ascii_chars_encode_utf8(b);
    is_ascii_chars_nat_bound(a);
    is_ascii_chars_nat_bound(b);
    assert(encode_utf8(a) =~= a.map_values(f));
    assert(encode_utf8(b) =~= b.map_values(f));
    assert forall|i: int, j: int| 0 <= i < a.len() && 0 <= j < b.len() implies (f(a[i]) == f(
        b[j],
    ) <==> a[i] == b[j]) by {
        assert((a[i] as nat) < 128);
        assert((b[j] as nat) < 128);
    }
    lemma_map_values(a, b, f);
}

/// Some texts with a multi-byte character are at different distances in the
/// two modes.
pub proof fn modes_differ_on_multibyte()
    ensures
        exists|a: Seq<char>, b: Seq<char>| text_distance(a, b, true) != text_distance(a, b, false),
{
    let a = seq!['\u{e9}'];
    let b = Seq::<char>::empty();
    assert(encode_utf8(b) =~= Seq::<u8>::empty());
    assert(a.drop_first() =~= b);
    assert(encode_utf8(a).len() == 2);
    assert(text_distance(a, b, true) != text_distance(a, b, false));
}

} // verus!
