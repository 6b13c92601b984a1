//! The mathematical definition of edit distance, and the facts about it that
//! the executable code and the laws of the library rest on.
use vstd::prelude::*;
use vstd::utf8::{encode_scalar, encode_utf8};

verus! {

/// The least of three naturals.
pub open spec fn min3(x: nat, y: nat, z: nat) -> nat {
    if x <= y && x <= z {
        x
    } else if y <= z {
        y
    } else {
        z
    }
}

/// The Levenshtein distance between `a` and `b`: the least number of
/// single-element insertions, deletions and substitutions that turn `a`
/// into `b`, each costing one.
pub open spec fn levenshtein<T>(a: Seq<T>, b: Seq<T>) -> nat
    decreases a.len() + b.len(),
{
    if a.len() == 0 {
        b.len()
    } else if b.len() == 0 {
        a.len()
    } else {
        let cost: nat = if a.last() == b.last() { 0 } else { 1 };
        min3(
            levenshtein(a.drop_last(), b) + 1,
            levenshtein(a, b.drop_last()) + 1,
            levenshtein(a.drop_last(), b.drop_last()) + cost,
        )
    }
}

/// The edit distance between two texts given as characters: over the bytes of
/// their UTF-8 encodings when `ascii` holds, over the characters otherwise.
pub open spec fn text_distance(a: Seq<char>, b: Seq<char>, ascii: bool) -> nat {
    if ascii {
        levenshtein(encode_utf8(a), encode_utf8(b))
    } else {
        levenshtein(a, b)
    }
}

/// The distance is at most the longer length.
pub proof fn lemma_upper_bound<T>(a: Seq<T>, b: Seq<T>)
    ensures
        levenshtein(a, b) <= if a.len() >= b.len() { a.len() } else { b.len() },
    decreases a.len() + b.len(),
{
    if a.len() > 0 && b.len() > 0 {
        lemma_upper_bound(a.drop_last(), b.drop_last());
    }
}

/// The distance is at least the difference of the lengths.
pub proof fn lemma_lower_bound<T>(a: Seq<T>, b: Seq<T>)
    ensures
        levenshtein(a, b) >= a.len() - b.len(),
        levenshtein(a, b) >= b.len() - a.len(),
    decreases a.len() + b.len(),
{
    if a.len() > 0 && b.len() > 0 {
        lemma_lower_bound(a.drop_last(), b);
        lemma_lower_bound(a, b.drop_last());
        lemma_lower_bound(a.drop_last(), b.drop_last());
    }
}

/// A sequence is at distance zero from itself.
pub proof fn lemma_self_zero<T>(a: Seq<T>)
    ensures
        levenshtein(a, a) == 0,
    decreases a.len(),
{
    if a.len() > 0 {
        lemma_self_zero(a.drop_last());
    }
}

/// Swapping the arguments does not change the distance.
pub proof fn lemma_symmetric<T>(a: Seq<T>, b: Seq<T>)
    ensures
        levenshtein(a, b) == levenshtein(b, a),
    decreases a.len() + b.len(),
{
    if a.len() > 0 && b.len() > 0 {
        lemma_symmetric(a.drop_last(), b);
        lemma_symmetric(a, b.drop_last());
        lemma_symmetric(a.drop_last(), b.drop_last());
    }
}

/// Going through an intermediate sequence never shortens the way.
pub proof fn lemma_triangle<T>(a: Seq<T>, b: Seq<T>, c: Seq<T>)
    ensures
        levenshtein(a, c) <= levenshtein(a, b) + levenshtein(b, c),
    decreases a.len() + b.len() + c.len(),
{
    if a.len() == 0 {
        lemma_lower_bound(b, c);
    } else if c.len() == 0 {
        lemma_lower_bound(a, b);
    } else if b.len() == 0 {
        lemma_upper_bound(a, c);
    } else {
        let (a1, b1, c1) = (a.drop_last(), b.drop_last(), c.drop_last());
        lemma_triangle(a1, b, c);
        lemma_triangle(a, b, c1);
        lemma_triangle(a, b1, c);
        lemma_triangle(a, b1, c1);
        lemma_triangle(a1, b1, c);
        lemma_triangle(a1, b1, c1);
    }
}

/// When the last elements agree, the distance is that of the two sequences
/// without them.
pub proof fn lemma_equal_last<T>(a: Seq<T>, b: Seq<T>)
    requires
        a.len() > 0,
        b.len() > 0,
        a.last() == b.last(),
    ensures
        levenshtein(a, b) == levenshtein(a.drop_last(), b.drop_last()),
{
    let (a1, b1) = (a.drop_last(), b.drop_last());
    lemma_self_zero(a1);
    lemma_self_zero(b1);
    lemma_triangle(a1, a, b1);
    lemma_triangle(a1, b, b1);
    lemma_symmetric(b, b1);
}

/// Renaming the elements by a map that keeps every comparison between an
/// element of `a` and an element of `b` keeps the distance.
pub proof fn lemma_map_values<A, B>(a: Seq<A>, b: Seq<A>, f: spec_fn(A) -> B)
    requires
        forall|i: int, j: int|
            #![trigger a[i], b[j]]
            0 <= i < a.len() && 0 <= j < b.len() ==> (f(a[i]) == f(b[j]) <==> a[i] == b[j]),
    ensures
        levenshtein(a.map_values(f), b.map_values(f)) == levenshtein(a, b),
    decreases a.len() + b.len(),
{
    if a.len() > 0 && b.len() > 0 {
        assert(a.map_values(f).drop_last() =~= a.drop_last().map_values(f));
        assert(b.map_values(f).drop_last() =~= b.drop_last().map_values(f));
        assert(a.last() == a[a.len() - 1]);
        assert(b.last() == b[b.len() - 1]);
        lemma_map_values(a.drop_last(), b, f);
        lemma_map_values(a, b.drop_last(), f);
        lemma_map_values(a.drop_last(), b.drop_last(), f);
    }
}

/// A text has at least as many bytes in UTF-8 as it has characters.
pub proof fn lemma_encoded_len(s: Seq<char>)
    ensures
        s.len() <= encode_utf8(s).len(),
    decreases s.len(),
{
    if s.len() > 0 {
        assert(encode_scalar(s[0] as u32).len() >= 1);
        lemma_encoded_len(s.drop_first());
    }
}

} // verus!
