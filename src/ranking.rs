use vstd::prelude::*;
use vstd::multiset::Multiset;
use vstd::seq_lib::{group_to_multiset_ensures, to_multiset_insert, to_multiset_remove};

verus! {

/// Items ordered by an integer key.
pub trait Ranked {
    spec fn rank_key(&self) -> int;

    fn key(&self) -> (k: i128)
        ensures
            k as int == self.rank_key(),
    ;
}

/// Keys never increase along the sequence.
pub open spec fn sorted_desc<T: Ranked>(s: Seq<T>) -> bool {
    forall|i: int, j: int| 0 <= i < j < s.len() ==> s[i].rank_key() >= s[j].rank_key()
}

/// `r` holds the first `k` items of a descending arrangement of `all`.
pub open spec fn is_top_desc<T: Ranked>(r: Seq<T>, all: Seq<T>, k: nat) -> bool {
    exists|s: Seq<T>|
        #[trigger] s.to_multiset() == all.to_multiset() && sorted_desc(s) && r == s.take(
            if k < s.len() {
                k as int
            } else {
                s.len() as int
            },
        )
}

/// Arranges the items by descending key; items with equal keys keep their order.
pub fn sort_desc<T: Ranked>(v: Vec<T>) -> (r: Vec<T>)
    ensures
        r@.to_multiset() == v@.to_multiset(),
        sorted_desc(r@),
{
    broadcast use group_to_multiset_ensures, vstd::multiset::group_multiset_axioms;

    let mut rest = v;
    let mut out: Vec<T> = Vec::new();
    while rest.len() > 0
        invariant
            out@.to_multiset().add(rest@.to_multiset()) == v@.to_multiset(),
            sorted_desc(out@),
        decreases rest.len(),
    {
        let ghost before = rest@;
        let x = rest.remove(0);
        let k = x.key();
        let mut pos: usize = 0;
        while pos < out.len() && out[pos].key() >= k
            invariant
                pos <= out@.len(),
                forall|i: int| 0 <= i < pos ==> out@[i].rank_key() >= k,
            decreases out.len() - pos,
        {
            pos += 1;
        }
        let ghost old_out = out@;
        out.insert(pos, x);
        assert(sorted_desc(out@)) by {
            assert forall|i: int, j: int| 0 <= i < j < out@.len() implies out@[i].rank_key()
                >= out@[j].rank_key() by {
                if j < pos {
                } else if j == pos {
                } else if i < pos {
                    if pos < old_out.len() {
                        assert(old_out[pos as int].rank_key() < k);
                    }
                } else if i == pos {
                    assert(old_out[pos as int].rank_key() < k);
                    assert(old_out[pos as int].rank_key() >= old_out[j - 1].rank_key());
                } else {
                    assert(old_out[i - 1].rank_key() >= old_out[j - 1].rank_key());
                }
            }
        }
        assert(out@ == old_out.insert(pos as int, x));
        proof {
            to_multiset_insert(old_out, pos as int, x);
            to_multiset_remove(before, 0);
        }
        assert(out@.to_multiset() == old_out.to_multiset().insert(x));
        assert(rest@ == before.remove(0) && x == before[0]);
        assert(rest@.to_multiset() == before.to_multiset().remove(x));
        assert(before.contains(x));
        proof {
            vstd::seq_lib::to_multiset_contains(before, x);
        }
        assert(before.to_multiset().count(x) > 0);
        assert(out@.to_multiset().add(rest@.to_multiset()) =~= v@.to_multiset());
    }
    assert(rest@.to_multiset() =~= Multiset::empty());
    assert(out@.to_multiset() =~= v@.to_multiset());
    out
}

/// The first `k` items of the descending arrangement.
pub fn top_desc<T: Ranked>(v: Vec<T>, k: usize) -> (r: Vec<T>)
    ensures
        is_top_desc(r@, v@, k as nat),
{
    broadcast use group_to_multiset_ensures;

    let mut s = sort_desc(v);
    let ghost full = s@;
    s.truncate(k);
    assert(s@ == full.take(
        if (k as nat) < full.len() {
            k as int
        } else {
            full.len() as int
        },
    ));
    s
}

} // verus!
