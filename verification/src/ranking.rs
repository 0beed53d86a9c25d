use crate::text::char_count_fits;
use vstd::prelude::*;
use vstd::std_specs::iter::IteratorSpec;

verus! {

/// Length of the longest common prefix of `a` and `b`.
pub open spec fn matching_prefix_len(a: Seq<char>, b: Seq<char>) -> nat
    decreases a.len(),
{
    if a.len() == 0 || b.len() == 0 || a[0] != b[0] {
        0
    } else {
        1 + matching_prefix_len(a.drop_first(), b.drop_first())
    }
}

/// Number of positions, within the shorter of `a` and `b`, at which both hold
/// the same character.
pub open spec fn positional_matches(a: Seq<char>, b: Seq<char>) -> nat
    decreases a.len(),
{
    if a.len() == 0 || b.len() == 0 {
        0
    } else {
        (if a[0] == b[0] { 1nat } else { 0nat }) + positional_matches(a.drop_first(), b.drop_first())
    }
}

/// The common prefix length is the one index `k` up to which `a` and `b` agree
/// and at which they part or one of them ends.
pub proof fn lemma_matching_prefix_len(a: Seq<char>, b: Seq<char>)
    ensures
        matching_prefix_len(a, b) <= a.len(),
        matching_prefix_len(a, b) <= b.len(),
        forall|i: int| 0 <= i < matching_prefix_len(a, b) ==> a[i] == b[i],
        matching_prefix_len(a, b) < a.len() && matching_prefix_len(a, b) < b.len() ==> a[
            matching_prefix_len(a, b) as int] != b[matching_prefix_len(a, b) as int],
    decreases a.len(),
{
    if a.len() == 0 || b.len() == 0 || a[0] != b[0] {
    } else {
        let x = a.drop_first();
        let y = b.drop_first();
        lemma_matching_prefix_len(x, y);
        let k = matching_prefix_len(x, y) as int;
        assert forall|i: int| 0 <= i < k + 1 implies a[i] == b[i] by {
            if i > 0 {
                assert(a[i] == x[i - 1]);
                assert(b[i] == y[i - 1]);
            }
        }
        if k + 1 < a.len() && k + 1 < b.len() {
            assert(a[k + 1] == x[k]);
            assert(b[k + 1] == y[k]);
        }
    }
}

/// `p` is a prefix of `a` exactly when their common prefix is all of `p`.
pub proof fn lemma_prefix_iff_full_match(p: Seq<char>, a: Seq<char>)
    ensures
        p.is_prefix_of(a) <==> matching_prefix_len(p, a) == p.len(),
{
    lemma_matching_prefix_len(p, a);
    let k = matching_prefix_len(p, a);
    if k == p.len() {
        assert(p =~= a.subrange(0, p.len() as int));
    }
    if p.is_prefix_of(a) {
        if k < p.len() {
            assert(p[k as int] == a.subrange(0, p.len() as int)[k as int]);
        }
    }
}

/// A prefix of `a` matches `a` at every one of its positions.
pub proof fn lemma_prefix_matches_everywhere(p: Seq<char>, a: Seq<char>)
    requires
        p.is_prefix_of(a),
    ensures
        positional_matches(p, a) == p.len(),
        matching_prefix_len(p, a) == p.len(),
    decreases p.len(),
{
    lemma_prefix_iff_full_match(p, a);
    if p.len() > 0 {
        assert(p[0] == a.subrange(0, p.len() as int)[0]);
        assert(p.drop_first() =~= a.drop_first().subrange(0, p.len() - 1)) by {
            assert forall|i: int| 0 <= i < p.len() - 1 implies p.drop_first()[i] == a.drop_first()[i] by {
                assert(p[i + 1] == a.subrange(0, p.len() as int)[i + 1]);
            }
        }
        lemma_prefix_matches_everywhere(p.drop_first(), a.drop_first());
    }
}

/// No more positions match than `a` has characters.
pub proof fn lemma_positional_matches_bound(a: Seq<char>, b: Seq<char>)
    ensures
        positional_matches(a, b) <= a.len(),
        positional_matches(a, b) <= b.len(),
    decreases a.len(),
{
    if a.len() > 0 && b.len() > 0 {
        lemma_positional_matches_bound(a.drop_first(), b.drop_first());
    }
}

/// Number of leading characters on which `a` and `b` agree.
pub fn matching_prefix_length(a: &str, b: &str) -> (n: usize)
    ensures
        n == matching_prefix_len(a@, b@),
{
    char_count_fits(a);
    let mut left = a.chars();
    let mut right = b.chars();
    let mut n: usize = 0;
    loop
        invariant
            n + left.remaining().len() <= usize::MAX,
            n + matching_prefix_len(left.remaining(), right.remaining()) == matching_prefix_len(
                a@,
                b@,
            ),
            left.obeys_prophetic_iter_laws(),
            right.obeys_prophetic_iter_laws(),
            left.decrease() is Some,
        decreases left.decrease()->0,
    {
        let x = left.next();
        let y = right.next();
        match (x, y) {
            (Some(p), Some(q)) => {
                if p != q {
                    return n;
                }
                n = n + 1;
            },
            _ => {
                return n;
            },
        }
    }
}

/// Number of positions at which `a` and `b` hold the same character.
pub fn matching_positions(a: &str, b: &str) -> (n: usize)
    ensures
        n == positional_matches(a@, b@),
{
    char_count_fits(a);
    let mut left = a.chars();
    let mut right = b.chars();
    let mut n: usize = 0;
    loop
        invariant
            n + left.remaining().len() <= usize::MAX,
            n + positional_matches(left.remaining(), right.remaining()) == positional_matches(
                a@,
                b@,
            ),
            left.obeys_prophetic_iter_laws(),
            right.obeys_prophetic_iter_laws(),
            left.decrease() is Some,
        decreases left.decrease()->0,
    {
        let x = left.next();
        let y = right.next();
        match (x, y) {
            (Some(p), Some(q)) => {
                if p == q {
                    n = n + 1;
                }
            },
            _ => {
                return n;
            },
        }
    }
}

} // verus!
