//! The dynamic program over two rolling rows.
use vstd::laws_eq::obeys_concrete_eq;
use vstd::prelude::*;

use crate::model::{levenshtein, lemma_equal_last, lemma_upper_bound};

verus! {

/// The edit distance between `a` and `b`, computed row by row: row `i` holds
/// the distances from every prefix of `a` to the first `i` elements of `b`.
/// `==` on `T` must be the equality of values, and both lengths must leave
/// room for one more step in a `u32`.
pub fn min_distance<T: PartialEq>(a: &[T], b: &[T]) -> (r: u32)
    requires
        obeys_concrete_eq::<T>(),
        a@.len() < u32::MAX,
        b@.len() < u32::MAX,
    ensures
        r == levenshtein(a@, b@),
{
    let m = a.len();
    let n = b.len();
    let mut dp_prev: Vec<u32> = Vec::new();
    let mut k: usize = 0;
    while k <= m
        invariant
            k <= m + 1,
            m == a@.len(),
            m < u32::MAX,
            dp_prev@.len() == k,
            forall|j: int| 0 <= j < k ==> dp_prev@[j] == j,
        decreases m + 1 - k,
    {
        dp_prev.push(k as u32);
        k = k + 1;
    }
    proof {
        assert forall|j: int| 0 <= j <= m implies dp_prev@[j] == levenshtein(
            a@.subrange(0, j),
            b@.subrange(0, 0),
        ) by {}
    }
    let mut dp_curr: Vec<u32> = vec![0; m + 1];
    let mut i: usize = 0;
    while i < n
        invariant
            i <= n,
            m == a@.len(),
            n == b@.len(),
            m < u32::MAX,
            n < u32::MAX,
            obeys_concrete_eq::<T>(),
            dp_prev@.len() == m + 1,
            dp_curr@.len() == m + 1,
            forall|j: int|
                0 <= j <= m ==> #[trigger] dp_prev@[j] == levenshtein(
                    a@.subrange(0, j),
                    b@.subrange(0, i as int),
                ),
        decreases n - i,
    {
        let bi = &b[i];
        let ghost bp = b@.subrange(0, i + 1);
        dp_curr.set(0, i as u32 + 1);
        let mut j: usize = 1;
        while j <= m
            invariant
                1 <= j <= m + 1,
                i < n,
                m == a@.len(),
                n == b@.len(),
                m < u32::MAX,
                n < u32::MAX,
                obeys_concrete_eq::<T>(),
                *bi == b@[i as int],
                bp == b@.subrange(0, i + 1),
                dp_prev@.len() == m + 1,
                dp_curr@.len() == m + 1,
                forall|k: int|
                    0 <= k <= m ==> #[trigger] dp_prev@[k] == levenshtein(
                        a@.subrange(0, k),
                        b@.subrange(0, i as int),
                    ),
                forall|k: int|
                    0 <= k < j ==> #[trigger] dp_curr@[k] == levenshtein(a@.subrange(0, k), bp),
            decreases m + 1 - j,
        {
            let ghost ap = a@.subrange(0, j as int);
            proof {
                assert(ap.drop_last() =~= a@.subrange(0, j - 1));
                assert(bp.drop_last() =~= b@.subrange(0, i as int));
                lemma_upper_bound(a@.subrange(0, j - 1), bp);
                lemma_upper_bound(ap, b@.subrange(0, i as int));
                lemma_upper_bound(a@.subrange(0, j - 1), b@.subrange(0, i as int));
                reveal(obeys_concrete_eq);
                assert(ap.last() == a@[j - 1]);
                assert(bp.last() == b@[i as int]);
            }
            if a[j - 1] == *bi {
                proof {
                    lemma_equal_last(ap, bp);
                }
                dp_curr.set(j, dp_prev[j - 1]);
            } else {
                let insert = dp_curr[j - 1] + 1;
                let delete = dp_prev[j] + 1;
                let substitute = dp_prev[j - 1] + 1;
                dp_curr.set(j, insert.min(delete).min(substitute));
            }
            j = j + 1;
        }
        std::mem::swap(&mut dp_prev, &mut dp_curr);
        i = i + 1;
    }
    proof {
        assert(a@.subrange(0, m as int) =~= a@);
        assert(b@.subrange(0, n as int) =~= b@);
    }
    dp_prev[m]
}

} // verus!
