//! Drafting a plan: every scanned file gets an item, and each companion image follows the
//! music found in the nearest directory above it.

use vstd::prelude::*;
use vstd::hash_map::StringHashMap;
use crate::anchors::{
    anchors_at, ancestors, index_content, index_holds, item_anchor, item_anchors_at,
    nearest_anchor_list, nearest_anchors, record_item_anchors,
};
use crate::candidates::{
    anchor_views, anchors_sorted, candidate_views, candidates_of, dedup_anchors,
    image_destination_candidates, MusicImageAnchor,
};
use crate::domain::{
    sanitize_component, sanitized, CandidateView, FileKind, NamingRules, PlanAction, PlanItem,
    Risk, ScannedFile,
};
use crate::ids::new_id;
use crate::order::reverse_into;
use crate::paths::{file_name_of, join_path, path_file_name, path_joined};
use crate::plan::{make_plan_item, music_plan, plan_view, skipped_plan_item};

verus! {

/// The name an image keeps at its destination: its file name, or `image`.
pub open spec fn image_name(p: Seq<char>) -> Seq<char> {
    match path_file_name(p) {
        Some(n) => n,
        None => "image"@,
    }
}

/// Where an image goes given its candidate directories: into the only candidate (under its
/// sanitized name); nowhere, for want of music, when there is none; nowhere, as a conflict,
/// when there are several.
pub open spec fn image_plan(path: Seq<char>, c: Seq<CandidateView>) -> (
    Option<Seq<char>>,
    PlanAction,
    Risk,
    Option<Seq<char>>,
) {
    if c.len() == 1 {
        (Some(path_joined(c[0].dir, sanitized(image_name(path)))), PlanAction::Move, Risk::NoRisk, None)
    } else if c.len() == 0 {
        (None, PlanAction::Skip, Risk::MetadataMissing, Some("companion_without_music"@))
    } else {
        (None, PlanAction::Skip, Risk::Conflict, Some("companion_target_ambiguous"@))
    }
}

/// The image item is planned from candidates `c`; only an ambiguous image gets a conflict
/// group and keeps its candidates.
pub open spec fn image_planned(it: PlanItem, c: Seq<CandidateView>) -> bool {
    &&& plan_view(it) == image_plan(it.file.path@, c)
    &&& (it.conflict_group_id is Some <==> c.len() > 1)
    &&& candidate_views(it.conflict_candidates@) == if c.len() > 1 {
        c
    } else {
        Seq::<CandidateView>::empty()
    }
}

/// `c` are the candidates that `image_destination_candidates` gives for some list of
/// anchors with views `anchors`.
pub open spec fn image_candidates_from(anchors: Seq<crate::candidates::AnchorView>, c: Seq<CandidateView>) -> bool {
    exists|l: Seq<MusicImageAnchor>, s: Seq<MusicImageAnchor>|
        #![trigger anchor_views(l), anchors_sorted(s)]
        anchor_views(l) == anchors && anchors_sorted(s) && s.to_multiset() == l.to_multiset()
            && candidates_of(dedup_anchors(s), c)
}

proof fn lemma_anchors_at_music(s1: Seq<PlanItem>, s2: Seq<PlanItem>, key: Seq<char>, naming: NamingRules)
    requires
        s1.len() == s2.len(),
        forall|j: int| 0 <= j < s1.len() ==> (#[trigger] s1[j]).file == s2[j].file,
        forall|j: int| 0 <= j < s1.len() && (#[trigger] s1[j]).file.kind == FileKind::Music ==> s1[j] == s2[j],
    ensures
        anchors_at(s1, key, naming) == anchors_at(s2, key, naming),
    decreases s1.len(),
{
    if s1.len() > 0 {
        let n = s1.len() - 1;
        assert forall|j: int| 0 <= j < n implies (#[trigger] s1.drop_last()[j]).file == s2.drop_last()[j].file by {
            assert(s1[j].file == s2[j].file);
        }
        assert forall|j: int| 0 <= j < n && (#[trigger] s1.drop_last()[j]).file.kind == FileKind::Music implies s1.drop_last()[j] == s2.drop_last()[j] by {
            assert(s1[j].file == s2[j].file);
        }
        lemma_anchors_at_music(s1.drop_last(), s2.drop_last(), key, naming);
        assert(s1[n].file == s2[n].file);
        if s1[n].file.kind == FileKind::Music {
            assert(s1[n] == s2[n]);
        } else {
            assert(item_anchor(s1.last(), naming) is None);
            assert(item_anchor(s2.last(), naming) is None);
        }
        assert(item_anchors_at(s1.last(), key, naming) == item_anchors_at(s2.last(), key, naming));
    }
}

proof fn lemma_nearest_music(dirs: Seq<Seq<char>>, s1: Seq<PlanItem>, s2: Seq<PlanItem>, naming: NamingRules)
    requires
        forall|key: Seq<char>| #[trigger] anchors_at(s1, key, naming) == anchors_at(s2, key, naming),
    ensures
        nearest_anchors(dirs, s1, naming) == nearest_anchors(dirs, s2, naming),
    decreases dirs.len(),
{
    if dirs.len() > 0 {
        lemma_nearest_music(dirs.skip(1), s1, s2, naming);
    }
}

/// Plans an image from its candidate directories (see `image_plan`).
fn place_image(it: &mut PlanItem, candidates: Vec<crate::domain::PlanConflictCandidate>)
    requires
        old(it).target is None,
        old(it).action == PlanAction::Skip,
        old(it).conflict_group_id is None,
        old(it).conflict_candidates@.len() == 0,
    ensures
        final(it).id == old(it).id,
        final(it).ordinal == old(it).ordinal,
        final(it).file == old(it).file,
        image_planned(*final(it), candidate_views(candidates@)),
{
    let ghost c = candidate_views(candidates@);
    if candidates.len() == 1 {
        let name = match file_name_of(it.file.path.as_str()) {
            Some(n) => n,
            None => String::from_str("image"),
        };
        let target = join_path(
            candidates[0].target_directory.as_str(),
            sanitize_component(name.as_str()).as_str(),
        );
        assert(c[0].dir == candidates@[0].target_directory@);
        it.target = Some(target);
        it.action = PlanAction::Move;
        it.risk = Risk::NoRisk;
        it.reason = None;
        assert(candidate_views(it.conflict_candidates@) =~= Seq::<CandidateView>::empty());
    } else if candidates.len() == 0 {
        it.risk = Risk::MetadataMissing;
        it.reason = Some(String::from_str("companion_without_music"));
        assert(candidate_views(it.conflict_candidates@) =~= Seq::<CandidateView>::empty());
    } else {
        it.conflict_group_id = Some(new_id());
        it.conflict_candidates = candidates;
        it.risk = Risk::Conflict;
        it.reason = Some(String::from_str("companion_target_ambiguous"));
    }
}

/// Drafts the items of a plan, one per scanned file, numbered from 1 in scan order. Music
/// is planned by the naming rules (see `music_plan`); each image by the candidates of the
/// anchors in the nearest directory above it that has any (see `image_plan`). Duplicates and
/// collisions are left for `resolve_duplicate_targets` and `mark_target_conflicts`.
/// The drafted plan items for `files`: one per file, in order, numbered from 1, each for
/// its file; music planned by `music_plan`, images placed by the music found above them.
pub open spec fn drafted_items(
    files: Seq<ScannedFile>,
    target_root: Seq<char>,
    naming: NamingRules,
    r: Seq<PlanItem>,
) -> bool {
    &&& r.len() == files.len()
    &&& forall|i: int|
        0 <= i < r.len() ==> (#[trigger] r[i]).ordinal == i + 1 && r[i].file == files[i]
    &&& forall|i: int|
        0 <= i < r.len() && files[i].kind == FileKind::Music ==> (#[trigger] r[i]).conflict_group_id is None
            && r[i].conflict_candidates@.len() == 0 && plan_view(r[i]) == music_plan(
            files[i],
            target_root,
            naming,
        )
    &&& forall|i: int|
        0 <= i < r.len() && files[i].kind == FileKind::Image ==> exists|c: Seq<CandidateView>|
            #![trigger image_planned(r[i], c)]
            image_candidates_from(nearest_anchors(ancestors(files[i].path@), r, naming), c)
                && image_planned(r[i], c)
}

pub fn draft_plan_items(files: Vec<ScannedFile>, target_root: &str, naming: &NamingRules) -> (r: Vec<
    PlanItem,
>)
    ensures
        drafted_items(files@, target_root@, *naming, r@),
{
    let ghost files0 = files@;
    let n = files.len();
    let mut rest = reverse_into(files);
    let mut items: Vec<PlanItem> = Vec::new();
    let mut keys: StringHashMap<usize> = StringHashMap::new();
    let mut lists: Vec<Vec<MusicImageAnchor>> = Vec::new();
    assert(index_holds(keys@, lists@, index_content(items@, *naming))) by {
        assert forall|key: Seq<char>| anchors_at(items@, key, *naming).len() == 0 by {}
    }
    while rest.len() > 0
        invariant
            n == files0.len() <= usize::MAX,
            rest@.len() + items@.len() == n,
            forall|k: int| 0 <= k < rest@.len() ==> rest@[k] == files0[n - 1 - k],
            index_holds(keys@, lists@, index_content(items@, *naming)),
            forall|i: int|
                0 <= i < items@.len() ==> (#[trigger] items@[i]).ordinal == i + 1 && items@[i].file
                    == files0[i],
            forall|i: int|
                0 <= i < items@.len() && files0[i].kind == FileKind::Music ==> (#[trigger] items@[i]).conflict_group_id is None
                    && items@[i].conflict_candidates@.len() == 0 && plan_view(items@[i]) == music_plan(
                    files0[i],
                    target_root@,
                    *naming,
                ),
            forall|i: int|
                0 <= i < items@.len() && files0[i].kind == FileKind::Image ==> (#[trigger] items@[i]).conflict_group_id is None
                    && items@[i].conflict_candidates@.len() == 0 && items@[i].target is None
                    && items@[i].action == PlanAction::Skip,
        decreases rest.len(),
    {
        let ghost before_rest = rest@;
        let file = rest.pop().unwrap();
        let ghost i = items@.len() as int;
        assert(file == files0[i]) by {
            assert(before_rest[before_rest.len() - 1] == file);
        }
        assert(forall|k: int| 0 <= k < rest@.len() ==> rest@[k] == before_rest[k]);
        let ordinal = (items.len() as u64) + 1;
        let item = if file.kind == FileKind::Music {
            make_plan_item(ordinal, file, target_root, naming)
        } else {
            skipped_plan_item(ordinal, file, Risk::MetadataMissing, "image_pending_anchor")
        };
        record_item_anchors(&mut keys, &mut lists, &item, naming, Ghost(items@));
        items.push(item);
    }
    let ghost items0 = items@;
    let mut i: usize = 0;
    while i < items.len()
        invariant
            items@.len() == items0.len() == n == files0.len(),
            index_holds(keys@, lists@, index_content(items0, *naming)),
            forall|j: int|
                0 <= j < n ==> (#[trigger] items@[j]).ordinal == items0[j].ordinal && items@[j].file
                    == items0[j].file && items0[j].file == files0[j],
            forall|j: int| 0 <= j < n && files0[j].kind == FileKind::Music ==> #[trigger] items@[j] == items0[j],
            forall|j: int| i <= j < n ==> #[trigger] items@[j] == items0[j],
            forall|j: int|
                0 <= j < n && files0[j].kind == FileKind::Image ==> (#[trigger] items0[j]).conflict_group_id is None
                    && items0[j].conflict_candidates@.len() == 0 && items0[j].target is None
                    && items0[j].action == PlanAction::Skip,
            forall|j: int|
                0 <= j < i && files0[j].kind == FileKind::Image ==> exists|c: Seq<CandidateView>|
                    #![trigger image_planned(items@[j], c)]
                    image_candidates_from(
                        nearest_anchors(ancestors(files0[j].path@), items0, *naming),
                        c,
                    ) && image_planned(items@[j], c),
        decreases n - i,
    {
        if items[i].file.kind == FileKind::Image {
            let list = nearest_anchor_list(&keys, &lists, items[i].file.path.as_str(), Ghost(items0), naming);
            let ghost l = list@;
            let candidates = image_destination_candidates(list);
            let ghost c = candidate_views(candidates@);
            let ghost s = choose|s: Seq<MusicImageAnchor>|
                anchors_sorted(s) && s.to_multiset() == l.to_multiset() && candidates_of(
                    dedup_anchors(s),
                    c,
                );
            assert(image_candidates_from(nearest_anchors(ancestors(files0[i as int].path@), items0, *naming), c)) by {
                assert(anchor_views(l) == nearest_anchors(ancestors(files0[i as int].path@), items0, *naming));
                assert(anchors_sorted(s));
            }
            let ghost before = items@;
            place_image(&mut items[i], candidates);
            assert(image_planned(items@[i as int], c));
            assert(forall|j: int| 0 <= j < n && j != i ==> items@[j] == before[j]);
        }
        i += 1;
    }
    proof {
        assert forall|key: Seq<char>| #[trigger] anchors_at(items@, key, *naming) == anchors_at(items0, key, *naming) by {
            lemma_anchors_at_music(items@, items0, key, *naming);
        }
        assert forall|j: int| 0 <= j < n && files0[j].kind == FileKind::Image implies exists|c: Seq<CandidateView>|
            #![trigger image_planned(items@[j], c)]
            image_candidates_from(nearest_anchors(ancestors(files0[j].path@), items@, *naming), c)
                && image_planned(items@[j], c) by {
            lemma_nearest_music(ancestors(files0[j].path@), items@, items0, *naming);
        }
    }
    items
}

} // verus!
