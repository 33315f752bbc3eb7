//! Reverse-sequence ordering of logged operations for rollback.

use vstd::prelude::*;
use vstd::multiset::Multiset;
use vstd::seq_lib::{lemma_multiset_commutative, to_multiset_build};
use crate::domain::VerifyItem;

verus! {

broadcast use {vstd::seq_lib::group_to_multiset_ensures, vstd::multiset::group_multiset_axioms};

/// Sequence numbers never increase along `s`.
pub open spec fn by_sequence_desc(s: Seq<VerifyItem>) -> bool {
    forall|i: int, j: int| 0 <= i < j < s.len() ==> s[i].sequence_no >= s[j].sequence_no
}

/// Sequence numbers never decrease along `s`.
pub open spec fn by_sequence_asc(s: Seq<VerifyItem>) -> bool {
    forall|i: int, j: int| 0 <= i < j < s.len() ==> s[i].sequence_no <= s[j].sequence_no
}

/// The elements of `v` in reverse order.
pub(crate) fn reverse_into<T>(v: Vec<T>) -> (out: Vec<T>)
    ensures
        out@.len() == v@.len(),
        forall|k: int| 0 <= k < v@.len() ==> out@[k] == v@[v@.len() - 1 - k],
        out@.to_multiset() == v@.to_multiset(),
{
    let ghost orig = v@;
    let mut v = v;
    let mut out: Vec<T> = Vec::new();
    while v.len() > 0
        invariant
            v@ == orig.take(v@.len() as int),
            out@.len() + v@.len() == orig.len(),
            forall|k: int| 0 <= k < out@.len() ==> out@[k] == orig[orig.len() - 1 - k],
            out@.to_multiset().add(v@.to_multiset()) == orig.to_multiset(),
        decreases v.len(),
    {
        let ghost before_v = v@;
        let ghost before_out = out@;
        let x = v.pop().unwrap();
        proof {
            assert(before_v == v@.push(x));
            to_multiset_build(v@, x);
            to_multiset_build(before_out, x);
            assert(v@ == orig.take(v@.len() as int));
        }
        out.push(x);
        assert(out@.to_multiset().add(v@.to_multiset()) =~= orig.to_multiset());
    }
    assert(v@.to_multiset() =~= Multiset::empty());
    assert(out@.to_multiset() =~= orig.to_multiset());
    out
}

fn merge_desc(left: Vec<VerifyItem>, right: Vec<VerifyItem>) -> (out: Vec<VerifyItem>)
    requires
        by_sequence_desc(left@),
        by_sequence_desc(right@),
    ensures
        by_sequence_desc(out@),
        out@.to_multiset() == left@.to_multiset().add(right@.to_multiset()),
{
    let ghost total = left@.to_multiset().add(right@.to_multiset());
    let mut l = reverse_into(left);
    let mut r = reverse_into(right);
    let mut out: Vec<VerifyItem> = Vec::new();
    assert(by_sequence_asc(l@)) by {
        assert forall|i: int, j: int| 0 <= i < j < l@.len() implies l@[i].sequence_no
            <= l@[j].sequence_no by {
            assert(l@[i] == left@[left@.len() - 1 - i]);
            assert(l@[j] == left@[left@.len() - 1 - j]);
        }
    }
    assert(by_sequence_asc(r@)) by {
        assert forall|i: int, j: int| 0 <= i < j < r@.len() implies r@[i].sequence_no
            <= r@[j].sequence_no by {
            assert(r@[i] == right@[right@.len() - 1 - i]);
            assert(r@[j] == right@[right@.len() - 1 - j]);
        }
    }
    assert(out@.to_multiset() =~= Multiset::empty());
    while l.len() > 0 || r.len() > 0
        invariant
            by_sequence_asc(l@),
            by_sequence_asc(r@),
            by_sequence_desc(out@),
            out@.len() > 0 ==> (forall|k: int| 0 <= k < l@.len() ==> l@[k].sequence_no
                <= out@.last().sequence_no),
            out@.len() > 0 ==> (forall|k: int| 0 <= k < r@.len() ==> r@[k].sequence_no
                <= out@.last().sequence_no),
            out@.to_multiset().add(l@.to_multiset()).add(r@.to_multiset()) == total,
        decreases l.len() + r.len(),
    {
        let take_left = if l.len() == 0 {
            false
        } else if r.len() == 0 {
            true
        } else {
            l[l.len() - 1].sequence_no >= r[r.len() - 1].sequence_no
        };
        let ghost before_l = l@;
        let ghost before_r = r@;
        let ghost before_out = out@;
        let x = if take_left {
            l.pop().unwrap()
        } else {
            r.pop().unwrap()
        };
        proof {
            if take_left {
                assert(before_l == l@.push(x));
                to_multiset_build(l@, x);
                assert forall|k: int| 0 <= k < l@.len() implies l@[k].sequence_no
                    <= x.sequence_no by {
                    assert(before_l[k] == l@[k]);
                }
                assert forall|k: int| 0 <= k < r@.len() implies r@[k].sequence_no
                    <= x.sequence_no by {
                    assert(r@[k].sequence_no <= r@.last().sequence_no);
                }
            } else {
                assert(before_r == r@.push(x));
                to_multiset_build(r@, x);
                assert forall|k: int| 0 <= k < r@.len() implies r@[k].sequence_no
                    <= x.sequence_no by {
                    assert(before_r[k] == r@[k]);
                }
                assert forall|k: int| 0 <= k < l@.len() implies l@[k].sequence_no
                    <= x.sequence_no by {
                    assert(l@[k].sequence_no <= l@.last().sequence_no);
                }
            }
            to_multiset_build(before_out, x);
            if before_out.len() > 0 {
                if take_left {
                    assert(before_l[before_l.len() - 1] == x);
                } else {
                    assert(before_r[before_r.len() - 1] == x);
                }
            }
        }
        out.push(x);
        proof {
            assert(by_sequence_desc(out@)) by {
                assert forall|i: int, j: int| 0 <= i < j < out@.len() implies out@[i].sequence_no
                    >= out@[j].sequence_no by {
                    if j < out@.len() - 1 {
                        assert(out@[i] == before_out[i]);
                        assert(out@[j] == before_out[j]);
                    } else {
                        assert(out@[i] == before_out[i]);
                        assert(before_out[i].sequence_no >= before_out.last().sequence_no);
                    }
                }
            }
            assert(out@.to_multiset().add(l@.to_multiset()).add(r@.to_multiset()) =~= total);
        }
    }
    assert(l@.to_multiset() =~= Multiset::empty());
    assert(r@.to_multiset() =~= Multiset::empty());
    assert(out@.to_multiset() =~= total);
    out
}

/// The items ordered by descending sequence number, as rollback processes them (the last
/// operation first); the same items, none lost or added.
pub fn rollback_order(items: Vec<VerifyItem>) -> (out: Vec<VerifyItem>)
    ensures
        by_sequence_desc(out@),
        out@.to_multiset() == items@.to_multiset(),
    decreases items.len(),
{
    if items.len() <= 1 {
        return items;
    }
    let ghost orig = items@;
    let mut left = items;
    let mid = left.len() / 2;
    let right = left.split_off(mid);
    proof {
        assert(orig == left@ + right@);
        lemma_multiset_commutative(left@, right@);
    }
    let sorted_left = rollback_order(left);
    let sorted_right = rollback_order(right);
    merge_desc(sorted_left, sorted_right)
}

} // verus!
