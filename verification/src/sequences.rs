//! Facts about sequences that several modules need.

use vstd::prelude::*;

verus! {

/// Where the elements of a filtered sequence stood: in the same order, and none is left out that
/// is wanted.
pub(crate) proof fn lemma_filter_positions<A>(s: Seq<A>, wanted: spec_fn(A) -> bool) -> (at: Seq<
    int,
>)
    ensures
        at.len() == s.filter(wanted).len(),
        forall|i: int|
            0 <= i < at.len() ==> 0 <= #[trigger] at[i] < s.len() && wanted(s[at[i]]) && s.filter(
                wanted,
            )[i] == s[at[i]],
        forall|i: int, j: int| 0 <= i < j < at.len() ==> #[trigger] at[i] < #[trigger] at[j],
        forall|k: int| 0 <= k < s.len() && wanted(#[trigger] s[k]) ==> at.contains(k),
    decreases s.len(),
{
    reveal(Seq::filter);
    if s.len() == 0 {
        Seq::empty()
    } else {
        let init = s.drop_last();
        let before = lemma_filter_positions(init, wanted);
        let last = s.len() - 1;
        let at = if wanted(s.last()) {
            before.push(last)
        } else {
            before
        };
        assert forall|i: int| 0 <= i < at.len() implies 0 <= #[trigger] at[i] < s.len() && wanted(
            s[at[i]],
        ) && s.filter(wanted)[i] == s[at[i]] by {
            if i < before.len() {
                assert(at[i] == before[i]);
                assert(init[before[i]] == s[before[i]]);
            }
        }
        assert forall|k: int| 0 <= k < s.len() && wanted(#[trigger] s[k]) implies at.contains(
            k,
        ) by {
            if k < last {
                assert(init[k] == s[k]);
                assert(before.contains(k));
                let i = choose|i: int| 0 <= i < before.len() && before[i] == k;
                assert(at[i] == k);
            } else {
                assert(at[at.len() - 1] == k);
            }
        }
        at
    }
}

} // verus!
