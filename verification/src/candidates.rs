//! Where a companion image goes: the target directories of the music found above it.

use vstd::prelude::*;
use vstd::multiset::Multiset;
use vstd::seq_lib::{lemma_multiset_commutative, to_multiset_build};
use crate::domain::{CandidateView, PlanConflictCandidate};
use crate::order::reverse_into;
use crate::paths::{compare_paths, parent_of, path_equal, path_order, path_parent, same_path};
use crate::text::opt_chars;

verus! {

broadcast use {vstd::seq_lib::group_to_multiset_ensures, vstd::multiset::group_multiset_axioms};

/// The target directory of one music item, recorded for a source directory above it.
#[derive(Debug, Clone)]
pub struct MusicImageAnchor {
    pub target_directory: String,
    /// The album directory above a disc directory, when the item's disc component proves it.
    pub disc_parent: Option<String>,
    pub music_item_id: u128,
}

/// An anchor as the plan sees it.
pub ghost struct AnchorView {
    pub dir: Seq<char>,
    pub disc_parent: Option<Seq<char>>,
    pub id: u128,
}

impl View for MusicImageAnchor {
    type V = AnchorView;

    open spec fn view(&self) -> AnchorView {
        AnchorView {
            dir: self.target_directory@,
            disc_parent: opt_chars(self.disc_parent),
            id: self.music_item_id,
        }
    }
}

/// The views of a sequence of anchors.
pub open spec fn anchor_views(s: Seq<MusicImageAnchor>) -> Seq<AnchorView> {
    s.map_values(|a: MusicImageAnchor| a@)
}

/// A copy of an anchor.
pub fn copy_anchor(a: &MusicImageAnchor) -> (r: MusicImageAnchor)
    ensures
        r@ == a@,
{
    MusicImageAnchor {
        target_directory: a.target_directory.clone(),
        disc_parent: match &a.disc_parent {
            Some(p) => Some(p.clone()),
            None => None,
        },
        music_item_id: a.music_item_id,
    }
}

/// A copy of a list of anchors.
pub fn copy_anchors(v: &Vec<MusicImageAnchor>) -> (r: Vec<MusicImageAnchor>)
    ensures
        anchor_views(r@) == anchor_views(v@),
{
    let mut r: Vec<MusicImageAnchor> = Vec::new();
    let mut i: usize = 0;
    while i < v.len()
        invariant
            i <= v@.len(),
            anchor_views(r@) == anchor_views(v@.take(i as int)),
        decreases v.len() - i,
    {
        let ghost before = r@;
        r.push(copy_anchor(&v[i]));
        assert(r@ == before.push(r@.last()));
        assert(v@.take(i + 1) =~= v@.take(i as int).push(v@[i as int]));
        assert(anchor_views(r@) =~= anchor_views(before).push(v@[i as int]@));
        assert(anchor_views(v@.take(i + 1)) =~= anchor_views(v@.take(i as int)).push(v@[i as int]@));
        i += 1;
    }
    assert(v@.take(v@.len() as int) =~= v@);
    r
}

/// Anchors are ordered by target directory (as paths), then by music item id.
pub open spec fn anchor_le(a: MusicImageAnchor, b: MusicImageAnchor) -> bool {
    let o = path_order(a.target_directory@, b.target_directory@);
    o < 0 || (o == 0 && a.music_item_id <= b.music_item_id)
}

/// Each anchor of `s` is ordered before the next one.
pub open spec fn anchors_sorted(s: Seq<MusicImageAnchor>) -> bool {
    forall|i: int, j: int| 0 <= i && j == i + 1 && j < s.len() ==> #[trigger] anchor_le(s[i], s[j])
}

/// Each anchor of `s` is ordered after the next one.
spec fn anchors_sorted_back(s: Seq<MusicImageAnchor>) -> bool {
    forall|i: int, j: int| 0 <= i && j == i + 1 && j < s.len() ==> #[trigger] anchor_le(s[j], s[i])
}

fn anchor_le_exec(a: &MusicImageAnchor, b: &MusicImageAnchor) -> (r: bool)
    ensures
        r == anchor_le(*a, *b),
        !r ==> anchor_le(*b, *a),
{
    let o = compare_paths(a.target_directory.as_str(), b.target_directory.as_str());
    o < 0 || (o == 0 && a.music_item_id <= b.music_item_id)
}

fn merge_anchors(left: Vec<MusicImageAnchor>, right: Vec<MusicImageAnchor>) -> (out: Vec<
    MusicImageAnchor,
>)
    requires
        anchors_sorted(left@),
        anchors_sorted(right@),
    ensures
        anchors_sorted(out@),
        out@.to_multiset() == left@.to_multiset().add(right@.to_multiset()),
{
    let ghost total = left@.to_multiset().add(right@.to_multiset());
    let ghost left0 = left@;
    let ghost right0 = right@;
    let mut l = reverse_into(left);
    let mut r = reverse_into(right);
    assert(anchors_sorted_back(l@)) by {
        assert forall|i: int, j: int| 0 <= i && j == i + 1 && j < l@.len() implies #[trigger] anchor_le(
            l@[j],
            l@[i],
        ) by {
            assert(l@[j] == left0[left0.len() - 1 - j]);
            assert(l@[i] == left0[left0.len() - 1 - i]);
            assert(anchor_le(left0[left0.len() - 1 - j], left0[left0.len() - 1 - j + 1]));
        }
    }
    assert(anchors_sorted_back(r@)) by {
        assert forall|i: int, j: int| 0 <= i && j == i + 1 && j < r@.len() implies #[trigger] anchor_le(
            r@[j],
            r@[i],
        ) by {
            assert(r@[j] == right0[right0.len() - 1 - j]);
            assert(r@[i] == right0[right0.len() - 1 - i]);
            assert(anchor_le(right0[right0.len() - 1 - j], right0[right0.len() - 1 - j + 1]));
        }
    }
    let mut out: Vec<MusicImageAnchor> = Vec::new();
    assert(out@.to_multiset() =~= Multiset::empty());
    while l.len() > 0 || r.len() > 0
        invariant
            anchors_sorted_back(l@),
            anchors_sorted_back(r@),
            anchors_sorted(out@),
            out@.len() > 0 && l@.len() > 0 ==> anchor_le(out@.last(), l@.last()),
            out@.len() > 0 && r@.len() > 0 ==> anchor_le(out@.last(), r@.last()),
            out@.to_multiset().add(l@.to_multiset()).add(r@.to_multiset()) == total,
        decreases l.len() + r.len(),
    {
        let take_left = if l.len() == 0 {
            false
        } else if r.len() == 0 {
            true
        } else {
            anchor_le_exec(&l[l.len() - 1], &r[r.len() - 1])
        };
        let ghost before_l = l@;
        let ghost before_r = r@;
        let ghost before_out = out@;
        let x = if take_left {
            l.pop().unwrap()
        } else {
            r.pop().unwrap()
        };
        proof {
            if take_left {
                assert(before_l == l@.push(x));
                to_multiset_build(l@, x);
                if l@.len() > 0 {
                    assert(anchor_le(before_l[l@.len() as int], before_l[l@.len() - 1]));
                }
                assert(anchors_sorted_back(l@)) by {
                    assert forall|i: int, j: int|
                        0 <= i && j == i + 1 && j < l@.len() implies #[trigger] anchor_le(
                        l@[j],
                        l@[i],
                    ) by {
                        assert(anchor_le(before_l[j], before_l[i]));
                    }
                }
            } else {
                assert(before_r == r@.push(x));
                to_multiset_build(r@, x);
                if r@.len() > 0 {
                    assert(anchor_le(before_r[r@.len() as int], before_r[r@.len() - 1]));
                }
                assert(anchors_sorted_back(r@)) by {
                    assert forall|i: int, j: int|
                        0 <= i && j == i + 1 && j < r@.len() implies #[trigger] anchor_le(
                        r@[j],
                        r@[i],
                    ) by {
                        assert(anchor_le(before_r[j], before_r[i]));
                    }
                }
            }
            to_multiset_build(before_out, x);
        }
        out.push(x);
        proof {
            assert(anchors_sorted(out@)) by {
                assert forall|i: int, j: int|
                    0 <= i && j == i + 1 && j < out@.len() implies #[trigger] anchor_le(
                    out@[i],
                    out@[j],
                ) by {
                    if j < out@.len() - 1 {
                        assert(anchor_le(before_out[i], before_out[j]));
                    }
                }
            }
            assert(out@.to_multiset().add(l@.to_multiset()).add(r@.to_multiset()) =~= total);
        }
    }
    assert(l@.to_multiset() =~= Multiset::empty());
    assert(r@.to_multiset() =~= Multiset::empty());
    assert(out@.to_multiset() =~= total);
    out
}

/// The anchors ordered by target directory and then music item id: the same anchors, each
/// ordered before the next.
pub fn sort_anchors(anchors: Vec<MusicImageAnchor>) -> (out: Vec<MusicImageAnchor>)
    ensures
        anchors_sorted(out@),
        out@.to_multiset() == anchors@.to_multiset(),
    decreases anchors.len(),
{
    if anchors.len() <= 1 {
        return anchors;
    }
    let ghost orig = anchors@;
    let mut left = anchors;
    let mid = left.len() / 2;
    let right = left.split_off(mid);
    proof {
        assert(orig == left@ + right@);
        lemma_multiset_commutative(left@, right@);
    }
    let sorted_left = sort_anchors(left);
    let sorted_right = sort_anchors(right);
    merge_anchors(sorted_left, sorted_right)
}

/// A later anchor repeats a kept one: the same directory (as paths) and the same music item.
pub open spec fn same_anchor(later: MusicImageAnchor, kept: MusicImageAnchor) -> bool {
    path_equal(later.target_directory@, kept.target_directory@) && later.music_item_id
        == kept.music_item_id
}

/// `s` without each anchor that repeats the last anchor kept before it, as `Vec::dedup_by`
/// keeps them.
pub open spec fn dedup_anchors(s: Seq<MusicImageAnchor>) -> Seq<MusicImageAnchor>
    decreases s.len(),
{
    if s.len() == 0 {
        s
    } else {
        let d = dedup_anchors(s.drop_last());
        if d.len() > 0 && same_anchor(s.last(), d.last()) {
            d
        } else {
            d.push(s.last())
        }
    }
}

fn dedup_anchor_vec(v: Vec<MusicImageAnchor>) -> (out: Vec<MusicImageAnchor>)
    ensures
        out@ == dedup_anchors(v@),
{
    let ghost orig = v@;
    let n = v.len();
    let mut rest = reverse_into(v);
    let mut kept: Vec<MusicImageAnchor> = Vec::new();
    assert(orig.take(0) =~= Seq::<MusicImageAnchor>::empty());
    while rest.len() > 0
        invariant
            rest@.len() <= n == orig.len(),
            forall|k: int| 0 <= k < rest@.len() ==> rest@[k] == orig[n - 1 - k],
            kept@ == dedup_anchors(orig.take(n - rest@.len())),
        decreases rest.len(),
    {
        let ghost done = n - rest@.len();
        let x = rest.pop().unwrap();
        assert(x == orig[done]);
        assert(orig.take(done + 1).drop_last() =~= orig.take(done));
        assert(orig.take(done + 1).last() == x);
        let repeat = if kept.len() > 0 {
            let last = kept.len() - 1;
            same_path(x.target_directory.as_str(), kept[last].target_directory.as_str())
                && x.music_item_id == kept[last].music_item_id
        } else {
            false
        };
        if !repeat {
            kept.push(x);
        }
    }
    assert(orig.take(n as int) =~= orig);
    kept
}

/// The first candidate whose directory `==` holds with `dir` (candidate first).
pub open spec fn first_match(c: Seq<CandidateView>, dir: Seq<char>) -> Option<int>
    decreases c.len(),
{
    if c.len() == 0 {
        None
    } else {
        match first_match(c.drop_last(), dir) {
            Some(j) => Some(j),
            None => if path_equal(c.last().dir, dir) {
                Some(c.len() - 1)
            } else {
                None
            },
        }
    }
}

/// The candidates with one more anchor: its id joins the first candidate of the same
/// directory, or it opens a candidate of its own at the end.
pub open spec fn add_anchor(c: Seq<CandidateView>, a: MusicImageAnchor) -> Seq<CandidateView> {
    match first_match(c, a.target_directory@) {
        Some(j) => c.update(j, CandidateView { dir: c[j].dir, ids: c[j].ids.push(a.music_item_id) }),
        None => c.push(CandidateView { dir: a.target_directory@, ids: seq![a.music_item_id] }),
    }
}

/// The anchors grouped by target directory, in order of first appearance.
pub open spec fn grouped(s: Seq<MusicImageAnchor>) -> Seq<CandidateView>
    decreases s.len(),
{
    if s.len() == 0 {
        Seq::<CandidateView>::empty()
    } else {
        add_anchor(grouped(s.drop_last()), s.last())
    }
}

proof fn lemma_grouped_len(s: Seq<MusicImageAnchor>)
    ensures
        grouped(s).len() <= s.len(),
    decreases s.len(),
{
    if s.len() > 0 {
        lemma_grouped_len(s.drop_last());
        lemma_first_match_range(grouped(s.drop_last()), s.last().target_directory@);
    }
}

proof fn lemma_first_match_range(c: Seq<CandidateView>, dir: Seq<char>)
    ensures
        match first_match(c, dir) {
            Some(j) => 0 <= j < c.len(),
            None => true,
        },
    decreases c.len(),
{
    if c.len() > 0 {
        lemma_first_match_range(c.drop_last(), dir);
    }
}

proof fn lemma_first_match_found(c: Seq<CandidateView>, dir: Seq<char>, j: int)
    requires
        0 <= j < c.len(),
        path_equal(c[j].dir, dir),
        forall|k: int| 0 <= k < j ==> !path_equal(#[trigger] c[k].dir, dir),
    ensures
        first_match(c, dir) == Some(j),
    decreases c.len(),
{
    if j < c.len() - 1 {
        lemma_first_match_found(c.drop_last(), dir, j);
    } else {
        lemma_first_match_none(c.drop_last(), dir);
    }
}

proof fn lemma_first_match_none(c: Seq<CandidateView>, dir: Seq<char>)
    requires
        forall|k: int| 0 <= k < c.len() ==> !path_equal(#[trigger] c[k].dir, dir),
    ensures
        first_match(c, dir) is None,
    decreases c.len(),
{
    if c.len() > 0 {
        lemma_first_match_none(c.drop_last(), dir);
    }
}

/// The views of the candidates.
pub open spec fn candidate_views(c: Seq<PlanConflictCandidate>) -> Seq<CandidateView> {
    c.map_values(|x: PlanConflictCandidate| x@)
}

fn group_anchors(anchors: &Vec<MusicImageAnchor>) -> (out: Vec<PlanConflictCandidate>)
    ensures
        candidate_views(out@) == grouped(anchors@),
{
    let mut dirs: Vec<String> = Vec::new();
    let mut idss: Vec<Vec<u128>> = Vec::new();
    let ghost mut g: Seq<CandidateView> = Seq::empty();
    let mut k: usize = 0;
    while k < anchors.len()
        invariant
            k <= anchors.len(),
            g == grouped(anchors@.take(k as int)),
            dirs@.len() == g.len(),
            idss@.len() == g.len(),
            forall|j: int| 0 <= j < g.len() ==> (#[trigger] dirs@[j])@ == g[j].dir,
            forall|j: int| 0 <= j < g.len() ==> (#[trigger] idss@[j])@ == g[j].ids,
        decreases anchors.len() - k,
    {
        let a = &anchors[k];
        assert(anchors@.take(k + 1).drop_last() =~= anchors@.take(k as int));
        assert(anchors@.take(k + 1).last() == *a);
        let mut j: usize = 0;
        while j < dirs.len() && !same_path(dirs[j].as_str(), a.target_directory.as_str())
            invariant
                j <= dirs@.len() == g.len(),
                forall|m: int| 0 <= m < g.len() ==> (#[trigger] dirs@[m])@ == g[m].dir,
                forall|m: int| 0 <= m < j ==> !path_equal(#[trigger] g[m].dir, a.target_directory@),
            decreases dirs.len() - j,
        {
            j += 1;
        }
        let found = j < dirs.len();
        if found {
            proof {
                lemma_first_match_found(g, a.target_directory@, j as int);
            }
            idss[j].push(a.music_item_id);
            proof {
                g = g.update(j as int, CandidateView { dir: g[j as int].dir, ids: g[j as int].ids.push(a.music_item_id) });
            }
        } else {
            proof {
                lemma_first_match_none(g, a.target_directory@);
            }
            dirs.push(a.target_directory.clone());
            let mut ids: Vec<u128> = Vec::new();
            ids.push(a.music_item_id);
            idss.push(ids);
            proof {
                g = g.push(CandidateView { dir: a.target_directory@, ids: seq![a.music_item_id] });
            }
        }
        k += 1;
    }
    assert(anchors@.take(anchors.len() as int) =~= anchors@);
    let ghost dirs_view = dirs@;
    let ghost idss_view = idss@;
    let mut out: Vec<PlanConflictCandidate> = Vec::new();
    let mut rd = reverse_into(dirs);
    let mut ri = reverse_into(idss);
    let n = rd.len();
    while rd.len() > 0
        invariant
            rd@.len() == ri@.len() <= n == g.len(),
            forall|m: int| 0 <= m < rd@.len() ==> rd@[m] == dirs_view[n - 1 - m],
            forall|m: int| 0 <= m < ri@.len() ==> ri@[m] == idss_view[n - 1 - m],
            forall|m: int| 0 <= m < g.len() ==> (#[trigger] dirs_view[m])@ == g[m].dir,
            forall|m: int| 0 <= m < g.len() ==> (#[trigger] idss_view[m])@ == g[m].ids,
            candidate_views(out@) == g.take(n - rd@.len()),
        decreases rd.len(),
    {
        let ghost done = n - rd@.len();
        let ghost before_rd = rd@;
        let ghost before_ri = ri@;
        let ghost before_out = out@;
        let dir = rd.pop().unwrap();
        let ids = ri.pop().unwrap();
        assert(before_rd == rd@.push(dir));
        assert(before_ri == ri@.push(ids));
        assert(dir == dirs_view[done]);
        assert(ids == idss_view[done]);
        assert(forall|m: int| 0 <= m < rd@.len() ==> rd@[m] == before_rd[m]);
        assert(forall|m: int| 0 <= m < ri@.len() ==> ri@[m] == before_ri[m]);
        let cand = PlanConflictCandidate { target_directory: dir, music_item_ids: ids };
        assert(cand@ == g[done]);
        out.push(cand);
        assert(out@ == before_out.push(cand));
        assert(candidate_views(out@) =~= candidate_views(before_out).push(cand@));
        assert(g.take(done + 1) =~= g.take(done).push(g[done]));
    }
    assert(g.take(n as int) =~= g);
    out
}

/// All values of `s` are in ascending order, none twice.
pub open spec fn strictly_increasing(s: Seq<u128>) -> bool {
    forall|i: int, j: int| 0 <= i < j < s.len() ==> s[i] < s[j]
}

/// `a` and `b` hold the same values.
pub open spec fn same_members(a: Seq<u128>, b: Seq<u128>) -> bool {
    forall|x: u128| a.contains(x) <==> b.contains(x)
}

fn merge_union(a: &Vec<u128>, b: &Vec<u128>) -> (out: Vec<u128>)
    requires
        strictly_increasing(a@),
        strictly_increasing(b@),
    ensures
        strictly_increasing(out@),
        forall|x: u128| out@.contains(x) <==> (a@.contains(x) || b@.contains(x)),
{
    let mut out: Vec<u128> = Vec::new();
    let mut i: usize = 0;
    let mut j: usize = 0;
    while i < a.len() || j < b.len()
        invariant
            i <= a.len(),
            j <= b.len(),
            strictly_increasing(a@),
            strictly_increasing(b@),
            strictly_increasing(out@),
            out@.len() > 0 && i < a.len() ==> out@.last() < a@[i as int],
            out@.len() > 0 && j < b.len() ==> out@.last() < b@[j as int],
            forall|x: u128| out@.contains(x) <==> (a@.take(i as int).contains(x) || b@.take(
                j as int,
            ).contains(x)),
        decreases a.len() + b.len() - i - j,
    {
        let ghost before = out@;
        let ghost (i0, j0) = (i as int, j as int);
        let x: u128;
        if j == b.len() || (i < a.len() && a[i] < b[j]) {
            x = a[i];
            i += 1;
        } else if i == a.len() || b[j] < a[i] {
            x = b[j];
            j += 1;
        } else {
            x = a[i];
            i += 1;
            j += 1;
        }
        out.push(x);
        proof {
            assert(a@.take(i as int) =~= if i0 < i { a@.take(i0).push(a@[i0]) } else { a@.take(i0) });
            assert(b@.take(j as int) =~= if j0 < j { b@.take(j0).push(b@[j0]) } else { b@.take(j0) });
            assert forall|y: u128| out@.contains(y) <==> (a@.take(i as int).contains(y) || b@.take(
                j as int,
            ).contains(y)) by {
                if out@.contains(y) {
                    let k = choose|k: int| 0 <= k < out@.len() && out@[k] == y;
                    if k < before.len() {
                        assert(before[k] == y);
                        assert(before.contains(y));
                    }
                }
                if before.contains(y) {
                    let k = choose|k: int| 0 <= k < before.len() && before[k] == y;
                    assert(out@[k] == y);
                }
                assert(out@[before.len() as int] == x);
                if a@.take(i as int).contains(y) {
                    let k = choose|k: int| 0 <= k < i && a@.take(i as int)[k] == y;
                    if k < i0 {
                        assert(a@.take(i0)[k] == y);
                    }
                }
                if b@.take(j as int).contains(y) {
                    let k = choose|k: int| 0 <= k < j && b@.take(j as int)[k] == y;
                    if k < j0 {
                        assert(b@.take(j0)[k] == y);
                    }
                }
                if a@.take(i0).contains(y) {
                    let k = choose|k: int| 0 <= k < i0 && a@.take(i0)[k] == y;
                    assert(a@.take(i as int)[k] == y);
                }
                if b@.take(j0).contains(y) {
                    let k = choose|k: int| 0 <= k < j0 && b@.take(j0)[k] == y;
                    assert(b@.take(j as int)[k] == y);
                }
                if i0 < i {
                    assert(a@.take(i as int)[i0] == a@[i0]);
                }
                if j0 < j {
                    assert(b@.take(j as int)[j0] == b@[j0]);
                }
            }
            assert forall|p: int, q: int| 0 <= p < q < out@.len() implies out@[p] < out@[q] by {
                if q == out@.len() - 1 && before.len() > 0 {
                    assert(before[p] <= before.last());
                }
            }
        }
    }
    assert(a@.take(a.len() as int) =~= a@);
    assert(b@.take(b.len() as int) =~= b@);
    out
}

fn sorted_unique_range(v: &Vec<u128>, lo: usize, hi: usize) -> (out: Vec<u128>)
    requires
        lo <= hi <= v.len(),
    ensures
        strictly_increasing(out@),
        same_members(out@, v@.subrange(lo as int, hi as int)),
    decreases hi - lo,
{
    if hi == lo {
        let out: Vec<u128> = Vec::new();
        assert forall|x: u128| !v@.subrange(lo as int, hi as int).contains(x) by {}
        return out;
    }
    if hi - lo == 1 {
        let mut out: Vec<u128> = Vec::new();
        out.push(v[lo]);
        assert(v@.subrange(lo as int, hi as int) =~= out@);
        return out;
    }
    let mid = lo + (hi - lo) / 2;
    let left = sorted_unique_range(v, lo, mid);
    let right = sorted_unique_range(v, mid, hi);
    let out = merge_union(&left, &right);
    assert forall|x: u128| out@.contains(x) <==> v@.subrange(lo as int, hi as int).contains(x) by {
        let whole = v@.subrange(lo as int, hi as int);
        let l = v@.subrange(lo as int, mid as int);
        let r = v@.subrange(mid as int, hi as int);
        if whole.contains(x) {
            let k = choose|k: int| 0 <= k < whole.len() && whole[k] == x;
            if k < mid - lo {
                assert(l[k] == x);
            } else {
                assert(r[k - (mid - lo)] == x);
            }
        }
        if l.contains(x) {
            let k = choose|k: int| 0 <= k < l.len() && l[k] == x;
            assert(whole[k] == x);
        }
        if r.contains(x) {
            let k = choose|k: int| 0 <= k < r.len() && r[k] == x;
            assert(whole[k + (mid - lo)] == x);
        }
    }
    out
}

/// The ids of the anchors, in order.
pub open spec fn ids_of(s: Seq<MusicImageAnchor>) -> Seq<u128> {
    s.map_values(|a: MusicImageAnchor| a.music_item_id)
}

/// The anchor's disc component proves `p` as its album directory: its recorded disc parent
/// and the parent of its target directory are both `p` (as paths).
pub open spec fn proves_parent(a: MusicImageAnchor, p: Seq<char>) -> bool {
    &&& match a.disc_parent {
        Some(dp) => path_equal(dp@, p),
        None => false,
    }
    &&& match path_parent(a.target_directory@) {
        Some(q) => path_equal(q, p),
        None => false,
    }
}

/// The album directory that all of `d` prove, taken from its first anchor.
pub open spec fn common_parent(d: Seq<MusicImageAnchor>) -> Option<Seq<char>> {
    if d.len() > 0 {
        opt_chars(d[0].disc_parent)
    } else {
        None
    }
}

/// The candidates for ordered, deduplicated anchors `d`: one per target directory; but when
/// there are several and every anchor proves the first anchor's album directory, that album
/// directory alone, with all music item ids in ascending order, each once.
pub open spec fn candidates_of(d: Seq<MusicImageAnchor>, r: Seq<CandidateView>) -> bool {
    let g = grouped(d);
    match common_parent(d) {
        Some(p) => if g.len() > 1 && (forall|k: int| 0 <= k < d.len() ==> proves_parent(#[trigger] d[k], p)) {
            &&& r.len() == 1
            &&& r[0].dir == p
            &&& strictly_increasing(r[0].ids)
            &&& same_members(r[0].ids, ids_of(d))
        } else {
            r == g
        },
        None => r == g,
    }
}

/// The directories an image could move to, from the anchors found above it: the anchors are
/// ordered by directory and id and repeats dropped; they are grouped by directory; and when
/// all of them sit in disc directories that prove one album directory, that album directory
/// is the single candidate.
pub fn image_destination_candidates(anchors: Vec<MusicImageAnchor>) -> (r: Vec<PlanConflictCandidate>)
    ensures
        exists|s: Seq<MusicImageAnchor>|
            #![trigger anchors_sorted(s)]
            anchors_sorted(s) && s.to_multiset() == anchors@.to_multiset() && candidates_of(
                dedup_anchors(s),
                candidate_views(r@),
            ),
{
    let ghost anchors0 = anchors@;
    let sorted = sort_anchors(anchors);
    let ghost s = sorted@;
    let d = dedup_anchor_vec(sorted);
    let groups = group_anchors(&d);
    if groups.len() <= 1 {
        return groups;
    }
    proof {
        lemma_grouped_len(d@);
    }
    let common = match &d[0].disc_parent {
        Some(p) => p.clone(),
        None => return groups,
    };
    assert(common_parent(d@) == Some(common@));
    let mut k: usize = 0;
    while k < d.len()
        invariant
            k <= d@.len(),
            forall|m: int| 0 <= m < k ==> proves_parent(#[trigger] d@[m], common@),
            anchors_sorted(s),
            s.to_multiset() == anchors0.to_multiset(),
            anchors0 == anchors@,
            d@ == dedup_anchors(s),
            candidate_views(groups@) == grouped(d@),
            groups@.len() > 1,
            common_parent(d@) == Some(common@),
        decreases d.len() - k,
    {
        let a = &d[k];
        let disc_ok = match &a.disc_parent {
            Some(dp) => same_path(dp.as_str(), common.as_str()),
            None => false,
        };
        if !disc_ok {
            assert(!proves_parent(d@[k as int], common@));
            assert(candidates_of(dedup_anchors(s), candidate_views(groups@)));
            return groups;
        }
        let parent_ok = match parent_of(a.target_directory.as_str()) {
            Some(q) => same_path(q.as_str(), common.as_str()),
            None => false,
        };
        if !parent_ok {
            assert(!proves_parent(d@[k as int], common@));
            assert(candidates_of(dedup_anchors(s), candidate_views(groups@)));
            return groups;
        }
        k += 1;
    }
    let mut ids: Vec<u128> = Vec::new();
    let mut m: usize = 0;
    while m < d.len()
        invariant
            m <= d@.len(),
            ids@ == ids_of(d@).take(m as int),
        decreases d.len() - m,
    {
        ids.push(d[m].music_item_id);
        m += 1;
        assert(ids_of(d@).take(m as int) =~= ids_of(d@).take(m - 1).push(d@[m - 1].music_item_id));
    }
    assert(ids_of(d@).take(d.len() as int) =~= ids_of(d@));
    let unique = sorted_unique_range(&ids, 0, ids.len());
    assert(ids@.subrange(0, ids.len() as int) =~= ids@);
    let mut out: Vec<PlanConflictCandidate> = Vec::new();
    out.push(PlanConflictCandidate { target_directory: common, music_item_ids: unique });
    out
}

} // verus!
