//! The longest prefix of a sequence whose items all meet a condition.
use vstd::prelude::*;

verus! {

/// How many items at the start of the sequence meet the condition: the index
/// of the first one that does not, or the length where all do.
pub open spec fn prefix_len<T>(s: Seq<T>, keep: spec_fn(T) -> bool) -> int
    decreases s.len(),
{
    if s.len() > 0 && keep(s[0]) {
        1 + prefix_len(s.drop_first(), keep)
    } else {
        0
    }
}

/// Every item before `prefix_len` meets the condition, and the item there, if
/// there is one, does not.
pub proof fn lemma_prefix_len<T>(s: Seq<T>, keep: spec_fn(T) -> bool)
    ensures
        0 <= prefix_len(s, keep) <= s.len(),
        forall|i: int| 0 <= i < prefix_len(s, keep) ==> keep(#[trigger] s[i]),
        prefix_len(s, keep) < s.len() ==> !keep(s[prefix_len(s, keep)]),
    decreases s.len(),
{
    if s.len() > 0 && keep(s[0]) {
        let rest = s.drop_first();
        lemma_prefix_len(rest, keep);
        assert forall|i: int| 0 <= i < prefix_len(s, keep) implies keep(#[trigger] s[i]) by {
            if i > 0 {
                assert(rest[i - 1] == s[i]);
            }
        }
        if prefix_len(s, keep) < s.len() {
            assert(rest[prefix_len(rest, keep)] == s[prefix_len(s, keep)]);
        }
    }
}

/// `prefix_len` is the only index before which every item meets the condition
/// and at which none does.
pub proof fn lemma_prefix_len_is<T>(s: Seq<T>, keep: spec_fn(T) -> bool, k: int)
    requires
        0 <= k <= s.len(),
        forall|i: int| 0 <= i < k ==> keep(#[trigger] s[i]),
        k < s.len() ==> !keep(s[k]),
    ensures
        prefix_len(s, keep) == k,
{
    lemma_prefix_len(s, keep);
    let m = prefix_len(s, keep);
    if m < k {
        assert(keep(s[m]));
    } else if m > k {
        assert(keep(s[k]));
    }
}

} // verus!
