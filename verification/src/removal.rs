//! Order-preserving batch removal: destroy-candidates are marked during a
//! read-only scan, then removed in a second pass from the highest index down,
//! so earlier removals never invalidate later indices and no survivor is
//! skipped or duplicated.

use vstd::prelude::*;

verus! {

/// The survivors of `s` from position `j` on, keeping exactly the elements
/// whose index is not marked in `dead`, in their original order.
pub open spec fn tail_surv<T>(s: Seq<T>, dead: Seq<bool>, j: int) -> Seq<T>
    decreases s.len() - j,
{
    if j < 0 || j >= s.len() {
        Seq::empty()
    } else if j < dead.len() && dead[j] {
        tail_surv(s, dead, j + 1)
    } else {
        seq![s[j]] + tail_surv(s, dead, j + 1)
    }
}

/// The survivors of the whole of `s` under the mark vector `dead`.
pub open spec fn survivors<T>(s: Seq<T>, dead: Seq<bool>) -> Seq<T> {
    tail_surv(s, dead, 0)
}

/// A survivor suffix is never longer than the suffix it came from.
pub proof fn lemma_tail_surv_len<T>(s: Seq<T>, dead: Seq<bool>, j: int)
    requires
        0 <= j,
    ensures
        tail_surv(s, dead, j).len() <= s.len() - j || tail_surv(s, dead, j).len() == 0,
    decreases s.len() - j,
{
    if j < s.len() {
        lemma_tail_surv_len(s, dead, j + 1);
    }
}

/// Any property that holds of every unmarked element holds of every
/// survivor.
pub proof fn lemma_tail_surv_sat<T>(s: Seq<T>, dead: Seq<bool>, j: int, p: spec_fn(T) -> bool)
    requires
        forall|i: int| 0 <= i < s.len() && !(i < dead.len() && dead[i]) ==> p(#[trigger] s[i]),
    ensures
        forall|i: int|
            0 <= i < tail_surv(s, dead, j).len() ==> p(#[trigger] tail_surv(s, dead, j)[i]),
    decreases s.len() - j,
{
    if j < 0 || j >= s.len() {
        assert(tail_surv(s, dead, j) =~= Seq::<T>::empty());
    } else if j < dead.len() && dead[j] {
        lemma_tail_surv_sat(s, dead, j + 1, p);
        assert(tail_surv(s, dead, j) == tail_surv(s, dead, j + 1));
    } else {
        lemma_tail_surv_sat(s, dead, j + 1, p);
        assert forall|i: int|
            0 <= i < tail_surv(s, dead, j).len() implies p(
            #[trigger] tail_surv(s, dead, j)[i],
        ) by {
            if i == 0 {
                assert(tail_surv(s, dead, j)[0] == s[j]);
                assert(p(s[j]));
            } else {
                assert(tail_surv(s, dead, j)[i] == tail_surv(s, dead, j + 1)[i - 1]);
                assert(p(tail_surv(s, dead, j + 1)[i - 1]));
            }
        }
    }
}

/// Survival under one mark vector preserves any element-wise relation
/// between two equally long sequences: the survivors line up pairwise.
pub proof fn lemma_tail_surv_rel<T, U>(
    a: Seq<T>,
    b: Seq<U>,
    dead: Seq<bool>,
    j: int,
    r: spec_fn(T, U) -> bool,
)
    requires
        a.len() == b.len(),
        forall|k: int| 0 <= k < a.len() ==> r(#[trigger] a[k], b[k]),
    ensures
        tail_surv(a, dead, j).len() == tail_surv(b, dead, j).len(),
        forall|i: int|
            0 <= i < tail_surv(a, dead, j).len() ==> r(
                #[trigger] tail_surv(a, dead, j)[i],
                tail_surv(b, dead, j)[i],
            ),
    decreases a.len() - j,
{
    if j < 0 || j >= a.len() {
    } else if j < dead.len() && dead[j] {
        lemma_tail_surv_rel(a, b, dead, j + 1, r);
    } else {
        lemma_tail_surv_rel(a, b, dead, j + 1, r);
        assert forall|i: int|
            0 <= i < tail_surv(a, dead, j).len() implies r(
            #[trigger] tail_surv(a, dead, j)[i],
            tail_surv(b, dead, j)[i],
        ) by {
            if i == 0 {
                assert(tail_surv(a, dead, j)[0] == a[j]);
                assert(tail_surv(b, dead, j)[0] == b[j]);
                assert(r(a[j], b[j]));
            } else {
                assert(tail_surv(a, dead, j)[i] == tail_surv(a, dead, j + 1)[i - 1]);
                assert(tail_surv(b, dead, j)[i] == tail_surv(b, dead, j + 1)[i - 1]);
                assert(r(tail_surv(a, dead, j + 1)[i - 1], tail_surv(b, dead, j + 1)[i - 1]));
            }
        }
    }
}

/// Removes from `v` exactly the elements whose index is marked in `dead`,
/// from the highest marked index down, preserving the relative order of the
/// survivors.
pub fn remove_marked<T>(v: &mut Vec<T>, dead: &Vec<bool>)
    requires
        dead@.len() == old(v)@.len(),
    ensures
        final(v)@ == survivors(old(v)@, dead@),
{
    let ghost s = v@;
    let mut j: usize = v.len();
    while j > 0
        invariant
            j <= s.len(),
            dead@.len() == s.len(),
            v@ == s.take(j as int) + tail_surv(s, dead@, j as int),
        decreases j,
    {
        j = j - 1;
        if dead[j] {
            assert(v@[j as int] == s[j as int]);
            v.remove(j);
            proof {
                assert(v@ =~= s.take(j as int) + tail_surv(s, dead@, j as int));
            }
        } else {
            proof {
                assert(s.take(j + 1) =~= s.take(j as int) + seq![s[j as int]]);
                assert(v@ =~= s.take(j as int) + tail_surv(s, dead@, j as int));
            }
        }
    }
    proof {
        assert(v@ =~= survivors(s, dead@));
    }
}

} // verus!
