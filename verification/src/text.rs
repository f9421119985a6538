//! The order of texts: character by character, a proper prefix first. This is
//! the order of std's `str`, since UTF-8 keeps the order of code points.

use vstd::prelude::*;
use vstd::string::*;

verus! {

/// `a` comes before `b`, comparing from position `k` on.
pub open spec fn text_lt_from(a: Seq<char>, b: Seq<char>, k: int) -> bool
    decreases a.len() - k,
{
    if k < 0 || k >= a.len() {
        0 <= k < b.len()
    } else if k >= b.len() {
        false
    } else if a[k] != b[k] {
        (a[k] as int) < (b[k] as int)
    } else {
        text_lt_from(a, b, k + 1)
    }
}

/// `a` comes before `b`.
pub open spec fn text_lt(a: Seq<char>, b: Seq<char>) -> bool {
    text_lt_from(a, b, 0)
}

/// Whether `a` comes before `b`.
pub fn less_than(a: &str, b: &str) -> (r: bool)
    ensures
        r == text_lt(a@, b@),
{
    let la = a.unicode_len();
    let lb = b.unicode_len();
    let mut k: usize = 0;
    while k < la && k < lb
        invariant
            la == a@.len(),
            lb == b@.len(),
            0 <= k <= la,
            k <= lb,
            text_lt(a@, b@) == text_lt_from(a@, b@, k as int),
        decreases la - k,
    {
        let ca = a.get_char(k);
        let cb = b.get_char(k);
        if ca != cb {
            return (ca as u32) < (cb as u32);
        }
        k = k + 1;
    }
    k < lb && k >= la
}

/// Helper: agreement on a range of positions.
pub open spec fn agree(a: Seq<char>, b: Seq<char>, from: int, to: int) -> bool {
    forall|j: int| from <= j < to ==> #[trigger] a[j] == b[j]
}

/// No text comes before itself.
pub proof fn lemma_text_lt_irreflexive(a: Seq<char>, k: int)
    requires
        0 <= k <= a.len(),
    ensures
        !text_lt_from(a, a, k),
    decreases a.len() - k,
{
    if k < a.len() {
        lemma_text_lt_irreflexive(a, k + 1);
    }
}

/// Of two texts one comes before the other, or they are equal, or both
/// (compared from position `k` on).
pub proof fn lemma_text_lt_total(a: Seq<char>, b: Seq<char>, k: int)
    requires
        0 <= k,
        k <= a.len(),
        k <= b.len(),
        agree(a, b, 0, k),
    ensures
        text_lt_from(a, b, k) || text_lt_from(b, a, k) || a == b,
    decreases a.len() - k,
{
    if k < a.len() && k < b.len() && a[k] == b[k] {
        lemma_text_lt_total(a, b, k + 1);
    } else if k == a.len() && k == b.len() {
        assert(a =~= b);
    } else if k < a.len() && k < b.len() {
        assert((a[k] as int) != (b[k] as int));
    }
}

/// The order of texts is transitive (compared from position `k` on).
pub proof fn lemma_text_lt_transitive(a: Seq<char>, b: Seq<char>, c: Seq<char>, k: int)
    requires
        0 <= k,
        text_lt_from(a, b, k),
        text_lt_from(b, c, k),
    ensures
        text_lt_from(a, c, k),
    decreases a.len() - k,
{
    if k < a.len() && k < b.len() && k < c.len() && a[k] == b[k] && b[k] == c[k] {
        lemma_text_lt_transitive(a, b, c, k + 1);
    }
}

/// Texts that compare neither way are equal.
pub proof fn lemma_text_eq_of_not_lt(a: Seq<char>, b: Seq<char>)
    requires
        !text_lt(a, b),
        !text_lt(b, a),
    ensures
        a == b,
{
    assert(agree(a, b, 0, 0));
    lemma_text_lt_total(a, b, 0);
}

} // verus!
