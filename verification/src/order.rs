//! The order in which names are listed: lexicographic by code point.

use vstd::prelude::*;

verus! {

/// The least index at or after `from` where `a` and `b` stop agreeing: where
/// they differ, or where one of them ends.
pub open spec fn common_prefix_from(a: Seq<char>, b: Seq<char>, from: int) -> int
    decreases a.len() - from,
{
    if from < 0 || from >= a.len() || from >= b.len() || a[from] != b[from] {
        from
    } else {
        common_prefix_from(a, b, from + 1)
    }
}

/// Whether `a` comes strictly before `b`: at the first index where they stop
/// agreeing, `a` has ended and `b` has not, or `a` holds the smaller code point.
pub open spec fn precedes(a: Seq<char>, b: Seq<char>) -> bool {
    let k = common_prefix_from(a, b, 0);
    k < b.len() && (k >= a.len() || a[k] < b[k])
}

/// What `common_prefix_from` returns: `a` and `b` agree between `from` and it,
/// and do not agree at it.
pub proof fn lemma_common_prefix(a: Seq<char>, b: Seq<char>, from: int)
    requires
        0 <= from <= a.len(),
        from <= b.len(),
    ensures
        from <= common_prefix_from(a, b, from) <= a.len(),
        common_prefix_from(a, b, from) <= b.len(),
        forall|j: int| from <= j < common_prefix_from(a, b, from) ==> a[j] == b[j],
        ({
            let k = common_prefix_from(a, b, from);
            k == a.len() || k == b.len() || a[k] != b[k]
        }),
    decreases a.len() - from,
{
    if from < a.len() && from < b.len() && a[from] == b[from] {
        lemma_common_prefix(a, b, from + 1);
    }
}

/// An index up to which `a` and `b` agree and at which they do not is the one
/// that `common_prefix_from` returns.
pub proof fn lemma_common_prefix_unique(a: Seq<char>, b: Seq<char>, k: int)
    requires
        0 <= k <= a.len(),
        k <= b.len(),
        forall|j: int| 0 <= j < k ==> a[j] == b[j],
        k == a.len() || k == b.len() || a[k] != b[k],
    ensures
        common_prefix_from(a, b, 0) == k,
{
    lemma_common_prefix(a, b, 0);
}

/// No text comes before itself.
pub proof fn law_precedes_irreflexive(a: Seq<char>)
    ensures
        !precedes(a, a),
{
    lemma_common_prefix_unique(a, a, a.len() as int);
}

/// Of two different texts one comes before the other.
pub proof fn law_precedes_total(a: Seq<char>, b: Seq<char>)
    ensures
        precedes(a, b) || a == b || precedes(b, a),
{
    lemma_common_prefix(a, b, 0);
    let k = common_prefix_from(a, b, 0);
    lemma_common_prefix_unique(b, a, k);
    if k == a.len() && k == b.len() {
        assert(a =~= b);
    }
}

/// Two texts never come before each other.
pub proof fn law_precedes_asymmetric(a: Seq<char>, b: Seq<char>)
    ensures
        !(precedes(a, b) && precedes(b, a)),
{
    lemma_common_prefix(a, b, 0);
    lemma_common_prefix_unique(b, a, common_prefix_from(a, b, 0));
}

/// What comes before a text also comes before everything after that text.
pub proof fn law_precedes_transitive(a: Seq<char>, b: Seq<char>, c: Seq<char>)
    requires
        precedes(a, b),
        precedes(b, c),
    ensures
        precedes(a, c),
{
    lemma_common_prefix(a, b, 0);
    lemma_common_prefix(b, c, 0);
    let k1 = common_prefix_from(a, b, 0);
    let k2 = common_prefix_from(b, c, 0);
    let k = if k1 <= k2 {
        k1
    } else {
        k2
    };
    lemma_common_prefix_unique(a, c, k);
}

/// Decides [`precedes`].
pub fn text_precedes(a: &Vec<char>, b: &Vec<char>) -> (r: bool)
    ensures
        r == precedes(a@, b@),
{
    let mut i: usize = 0;
    while i < a.len() && i < b.len() && a[i] == b[i]
        invariant
            i <= a.len(),
            i <= b.len(),
            forall|j: int| 0 <= j < i ==> a@[j] == b@[j],
        decreases a.len() - i,
    {
        i += 1;
    }
    proof {
        lemma_common_prefix_unique(a@, b@, i as int);
    }
    i < b.len() && (i >= a.len() || a[i] < b[i])
}

} // verus!
