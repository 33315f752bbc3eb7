//! Targets that collide under Windows rules: renaming duplicates, and grouping the rest as
//! conflicts.

use vstd::prelude::*;
use vstd::hash_map::StringHashMap;
use crate::domain::{DuplicateStrategy, FileKind, NamingRules, PlanAction, PlanItem, Risk};
use crate::ids::new_id;
use crate::path_policy::{path_key, windows_path_key};
use crate::paths::{path_with_file_name, with_file_name};
use crate::plan::{
    dotted_extension, dotted_extension_of, metadata_view_of, source_stem, source_stem_of,
};
use crate::template::{render_template, rendered};
use crate::text::{append_chars, chars_of, decimal, decimal_chars, opt_chars, string_of};

verus! {

/// An item that claims its target: it moves, and has a target.
pub open spec fn counted(it: PlanItem) -> bool {
    it.action == PlanAction::Move && it.target is Some
}

/// The collision key of an item's target (empty when it has none).
pub open spec fn target_key(it: PlanItem) -> Seq<char> {
    match it.target {
        Some(t) => path_key(t@),
        None => Seq::<char>::empty(),
    }
}

/// How many items of `s` claim a target with collision key `key`.
pub open spec fn key_count(s: Seq<PlanItem>, key: Seq<char>) -> nat
    decreases s.len(),
{
    if s.len() == 0 {
        0
    } else {
        key_count(s.drop_last(), key) + if counted(s.last()) && target_key(s.last()) == key {
            1nat
        } else {
            0nat
        }
    }
}

/// The position of item `i` among the claims on its key, counting from 1.
pub open spec fn claim_number(s: Seq<PlanItem>, i: int) -> nat {
    key_count(s.take(i + 1), target_key(s[i]))
}

/// A duplicate that keeps its colliding target, to be reported as a conflict: under the
/// `Skip` strategy, or the legacy one without a suffix template; images are always renamed.
pub open spec fn keeps_duplicate(it: PlanItem, naming: NamingRules) -> bool {
    (naming.duplicate_strategy == DuplicateStrategy::Skip || (naming.duplicate_strategy
        == DuplicateStrategy::Legacy && naming.duplicate_suffix_template@.len() == 0))
        && it.file.kind != FileKind::Image
}

/// Duplicates of images, and all duplicates under the `Sequence` strategy, are numbered.
pub open spec fn numbered_duplicate(it: PlanItem, naming: NamingRules) -> bool {
    it.file.kind == FileKind::Image || naming.duplicate_strategy == DuplicateStrategy::Sequence
}

/// The suffix of a renamed duplicate: `_N` for numbered ones, otherwise the suffix template
/// rendered with the item's tags and source stem (and no extension).
pub open spec fn duplicate_suffix(it: PlanItem, n: nat, naming: NamingRules) -> Seq<char> {
    if numbered_duplicate(it, naming) {
        seq!['_'] + decimal(n)
    } else {
        rendered(
            naming.duplicate_suffix_template@,
            metadata_view_of(it.file.metadata),
            source_stem(it.file.path@),
            Seq::<char>::empty(),
        )
    }
}

/// The target with the suffix (or `_N` when the suffix is empty) between its stem and its
/// extension.
pub open spec fn renamed_target(t: Seq<char>, suffix: Seq<char>, n: nat) -> Seq<char> {
    path_with_file_name(
        t,
        source_stem(t) + (if suffix.len() == 0 {
            seq!['_'] + decimal(n)
        } else {
            suffix
        }) + dotted_extension(t),
    )
}

/// A duplicate would have its suffix rendered from tags it does not have.
pub open spec fn suffix_lacks_metadata(it: PlanItem, n: nat, naming: NamingRules) -> bool {
    &&& counted(it)
    &&& n > 1
    &&& !keeps_duplicate(it, naming)
    &&& !numbered_duplicate(it, naming)
    &&& it.file.metadata is None
}

/// The target of an item after duplicate resolution: the N-th claim (N > 1) on a key is
/// renamed unless it keeps its target.
pub open spec fn resolved_target(it: PlanItem, n: nat, naming: NamingRules) -> Option<Seq<char>> {
    match it.target {
        Some(t) => if counted(it) && n > 1 && !keeps_duplicate(it, naming) {
            Some(renamed_target(t@, duplicate_suffix(it, n, naming), n))
        } else {
            Some(t@)
        },
        None => None,
    }
}

/// The suffix template rendered for an item: its tags, its source stem, no extension.
pub open spec fn rendered_suffix(it: PlanItem, naming: NamingRules) -> Seq<char> {
    rendered(
        naming.duplicate_suffix_template@,
        metadata_view_of(it.file.metadata),
        source_stem(it.file.path@),
        Seq::<char>::empty(),
    )
}

/// Under the legacy strategy with a suffix template, a later claim by a music file is
/// renamed with the rendered suffix template between the target's stem and extension (it is
/// not numbered `_N`; only images and the `Sequence` strategy are).
pub proof fn law_legacy_music_duplicate_takes_the_suffix(it: PlanItem, n: nat, naming: NamingRules)
    requires
        counted(it),
        n > 1,
        it.file.kind == FileKind::Music,
        naming.duplicate_strategy == DuplicateStrategy::Legacy,
        naming.duplicate_suffix_template@.len() > 0,
        rendered_suffix(it, naming).len() > 0,
    ensures
        resolved_target(it, n, naming) == Some(
            path_with_file_name(
                it.target->0@,
                source_stem(it.target->0@) + rendered_suffix(it, naming) + dotted_extension(
                    it.target->0@,
                ),
            ),
        ),
{
}

/// Under the legacy strategy with a suffix template, the new name of a music duplicate does
/// not depend on how many claims came before it.
pub proof fn law_legacy_music_duplicate_is_not_numbered(
    it: PlanItem,
    n1: nat,
    n2: nat,
    naming: NamingRules,
)
    requires
        counted(it),
        n1 > 1,
        n2 > 1,
        it.file.kind == FileKind::Music,
        naming.duplicate_strategy == DuplicateStrategy::Legacy,
        naming.duplicate_suffix_template@.len() > 0,
        rendered_suffix(it, naming).len() > 0,
    ensures
        resolved_target(it, n1, naming) == resolved_target(it, n2, naming),
{
    law_legacy_music_duplicate_takes_the_suffix(it, n1, naming);
    law_legacy_music_duplicate_takes_the_suffix(it, n2, naming);
}

/// A later claim by an image is numbered: `_N` (N its claim number) between the target's
/// stem and extension, whatever the strategy.
pub proof fn law_image_duplicate_is_numbered(it: PlanItem, n: nat, naming: NamingRules)
    requires
        counted(it),
        n > 1,
        it.file.kind == FileKind::Image,
    ensures
        resolved_target(it, n, naming) == Some(
            path_with_file_name(
                it.target->0@,
                source_stem(it.target->0@) + seq!['_'] + decimal(n) + dotted_extension(it.target->0@),
            ),
        ),
{
    assert((seq!['_'] + decimal(n)).len() > 0);
    assert(source_stem(it.target->0@) + (seq!['_'] + decimal(n)) =~= source_stem(it.target->0@)
        + seq!['_'] + decimal(n));
}

/// Under the `Skip` strategy a music file keeps its target, whatever its claim number (the
/// collision is reported as a conflict instead).
pub proof fn law_skip_strategy_keeps_music_targets(it: PlanItem, n: nat, naming: NamingRules)
    requires
        it.target is Some,
        it.file.kind == FileKind::Music,
        naming.duplicate_strategy == DuplicateStrategy::Skip,
    ensures
        resolved_target(it, n, naming) == Some(it.target->0@),
{
}

/// The first claim on a collision key always keeps its target.
pub proof fn law_first_claim_keeps_its_target(it: PlanItem, naming: NamingRules)
    requires
        it.target is Some,
    ensures
        resolved_target(it, 1, naming) == Some(it.target->0@),
{
}

/// The item with another target and everything else unchanged.
pub open spec fn with_target(it: PlanItem, t: Option<String>) -> PlanItem {
    PlanItem {
        id: it.id,
        conflict_group_id: it.conflict_group_id,
        ordinal: it.ordinal,
        file: it.file,
        target: t,
        action: it.action,
        risk: it.risk,
        reason: it.reason,
        conflict_candidates: it.conflict_candidates,
    }
}

proof fn lemma_key_count_step(s: Seq<PlanItem>, k: int, key: Seq<char>)
    requires
        0 <= k < s.len(),
    ensures
        key_count(s.take(k + 1), key) == key_count(s.take(k), key) + if counted(s[k])
            && target_key(s[k]) == key {
            1nat
        } else {
            0nat
        },
{
    assert(s.take(k + 1).drop_last() =~= s.take(k));
}

/// The items after duplicate renaming: every item kept, with its target replaced by
/// `resolved_target` of its claim on its collision key, and no suffix needing missing tags.
pub open spec fn duplicates_resolved(before: Seq<PlanItem>, after: Seq<PlanItem>, naming: NamingRules) -> bool {
    &&& after.len() == before.len()
    &&& forall|i: int|
        0 <= i < before.len() ==> !#[trigger] suffix_lacks_metadata(
            before[i],
            claim_number(before, i),
            naming,
        )
    &&& forall|i: int|
        0 <= i < before.len() ==> #[trigger] after[i] == with_target(before[i], after[i].target)
            && opt_chars(after[i].target) == resolved_target(before[i], claim_number(before, i), naming)
}

/// Item `i` is the first whose duplicate suffix would need tags it lacks.
pub open spec fn duplicate_suffix_fails(before: Seq<PlanItem>, i: int, naming: NamingRules) -> bool {
    &&& 0 <= i < before.len()
    &&& suffix_lacks_metadata(before[i], claim_number(before, i), naming)
    &&& forall|j: int|
        0 <= j < i ==> !#[trigger] suffix_lacks_metadata(before[j], claim_number(before, j), naming)
}

/// Renames duplicate targets in order: the first claim on a collision key keeps its target,
/// and each later one is renamed with a suffix (see `resolved_target`), unless the strategy
/// keeps duplicates for conflict reporting. Fails, at the first such item, where a suffix
/// would have to be rendered from tags that the item does not have.
pub fn resolve_duplicate_targets(items: &mut Vec<PlanItem>, naming: &NamingRules) -> (r: Result<
    (),
    usize,
>)
    ensures
        final(items)@.len() == old(items)@.len(),
        match r {
            Ok(()) => duplicates_resolved(old(items)@, final(items)@, *naming),
            Err(i) => duplicate_suffix_fails(old(items)@, i as int, *naming),
        },
{
    let ghost orig = items@;
    let mut seen: StringHashMap<u64> = StringHashMap::new();
    let mut k: usize = 0;
    while k < items.len()
        invariant
            k <= items@.len() == orig.len(),
            orig == old(items)@,
            forall|key: Seq<char>| #[trigger]
                seen@.contains_key(key) <==> key_count(orig.take(k as int), key) > 0,
            forall|key: Seq<char>| #[trigger]
                seen@.contains_key(key) ==> seen@[key] == key_count(orig.take(k as int), key),
            forall|j: int|
                0 <= j < k ==> !#[trigger] suffix_lacks_metadata(
                    orig[j],
                    claim_number(orig, j),
                    *naming,
                ),
            forall|j: int|
                0 <= j < k ==> #[trigger] items@[j] == with_target(orig[j], items@[j].target)
                    && opt_chars(items@[j].target) == resolved_target(
                    orig[j],
                    claim_number(orig, j),
                    *naming,
                ),
            forall|j: int| k <= j < orig.len() ==> #[trigger] items@[j] == orig[j],
            k <= usize::MAX,
        decreases orig.len() - k,
    {
        proof {
            assert forall|key: Seq<char>| true implies key_count(orig.take(k + 1), key)
                == key_count(orig.take(k as int), key) + if counted(orig[k as int]) && target_key(
                orig[k as int],
            ) == key {
                1nat
            } else {
                0nat
            } by {
                lemma_key_count_step(orig, k as int, key);
            }
        }
        assert(items@[k as int] == orig[k as int]);
        if items[k].action == PlanAction::Move && items[k].target.is_some() {
            let target = match &items[k].target {
                Some(t) => t.clone(),
                None => String::new(),
            };
            let key = windows_path_key(target.as_str());
            let previous: u64 = match seen.get(key.as_str()) {
                Some(c) => *c,
                None => 0,
            };
            proof {
                assert(key_count(orig.take(k as int), key@) <= k) by {
                    lemma_key_count_bound(orig.take(k as int), key@);
                }
            }
            let count = previous + 1;
            seen.insert(key, count);
            let ghost n = claim_number(orig, k as int);
            assert(count == n);
            if count > 1 {
                let kind = items[k].file.kind;
                let template_empty = chars_of(naming.duplicate_suffix_template.as_str()).len() == 0;
                let keeps = (naming.duplicate_strategy == DuplicateStrategy::Skip || (
                naming.duplicate_strategy == DuplicateStrategy::Legacy && template_empty))
                    && kind != FileKind::Image;
                if !keeps {
                    let numbered = kind == FileKind::Image || naming.duplicate_strategy
                        == DuplicateStrategy::Sequence;
                    let suffix = if numbered {
                        let mut v: Vec<char> = Vec::new();
                        v.push('_');
                        append_chars(&mut v, &decimal_chars(count));
                        string_of(&v)
                    } else {
                        match &items[k].file.metadata {
                            Some(m) => {
                                let stem = source_stem_of(items[k].file.path.as_str());
                                let no_extension = String::new();
                                render_template(
                                    naming.duplicate_suffix_template.as_str(),
                                    m,
                                    stem.as_str(),
                                    no_extension.as_str(),
                                )
                            },
                            None => {
                                return Err(k);
                            },
                        }
                    };
                    assert(suffix@ == duplicate_suffix(orig[k as int], n, *naming));
                    let suffix_chars = chars_of(suffix.as_str());
                    let mut name = chars_of(source_stem_of(target.as_str()).as_str());
                    if suffix_chars.len() == 0 {
                        name.push('_');
                        append_chars(&mut name, &decimal_chars(count));
                    } else {
                        append_chars(&mut name, &suffix_chars);
                    }
                    append_chars(&mut name, &chars_of(dotted_extension_of(target.as_str()).as_str()));
                    assert(name@ =~= source_stem(target@) + (if suffix@.len() == 0 {
                        seq!['_'] + decimal(n)
                    } else {
                        suffix@
                    }) + dotted_extension(target@));
                    let next = with_file_name(target.as_str(), string_of(&name).as_str());
                    assert(next@ == renamed_target(target@, suffix@, n));
                    let ghost before = items@;
                    items[k].target = Some(next);
                    assert(items@[k as int] == with_target(orig[k as int], items@[k as int].target));
                    assert(forall|j: int| 0 <= j < items@.len() && j != k ==> items@[j] == before[j]);
                }
            }
        }
        k += 1;
    }
    Ok(())
}

proof fn lemma_key_count_bound(s: Seq<PlanItem>, key: Seq<char>)
    ensures
        key_count(s, key) <= s.len(),
    decreases s.len(),
{
    if s.len() > 0 {
        lemma_key_count_bound(s.drop_last(), key);
    }
}

/// The item collides with another: its target's key is claimed by more than one item of `s`.
pub open spec fn in_conflict(s: Seq<PlanItem>, it: PlanItem) -> bool {
    it.target is Some && key_count(s, target_key(it)) > 1
}

/// `after` is `before` marked as a target conflict in group `group`: skipped, at risk
/// `Conflict`, with reason `target_conflict`; everything else unchanged.
pub open spec fn marked_conflict(before: PlanItem, after: PlanItem, group: u128) -> bool {
    &&& after.id == before.id
    &&& after.conflict_group_id == Some(group)
    &&& after.ordinal == before.ordinal
    &&& after.file == before.file
    &&& after.target == before.target
    &&& after.action == PlanAction::Skip
    &&& after.risk == Risk::Conflict
    &&& opt_chars(after.reason) == Some("target_conflict"@)
    &&& after.conflict_candidates == before.conflict_candidates
}

/// The items after conflict marking: every item whose target collides with another's is
/// marked a conflict, one group per collision key; the others are unchanged; and no two
/// moving items share a collision key.
pub open spec fn conflicts_marked(before: Seq<PlanItem>, after: Seq<PlanItem>) -> bool {
    &&& after.len() == before.len()
    &&& forall|i: int|
        0 <= i < before.len() ==> if in_conflict(before, #[trigger] before[i]) {
            marked_conflict(before[i], after[i], after[i].conflict_group_id->0)
        } else {
            after[i] == before[i]
        }
    &&& forall|i: int, j: int|
        0 <= i < before.len() && 0 <= j < before.len() && in_conflict(before, #[trigger] before[i])
            && in_conflict(before, #[trigger] before[j]) && target_key(before[i]) == target_key(
            before[j],
        ) ==> after[i].conflict_group_id == after[j].conflict_group_id
    &&& forall|i: int, j: int|
        0 <= i < j < after.len() && counted(#[trigger] after[i]) && counted(#[trigger] after[j])
            ==> target_key(after[i]) != target_key(after[j])
}

/// Marks every item whose target collides with another item's (see `in_conflict`) as a
/// conflict; items of one collision key share one fresh conflict group. Other items are
/// left as they are. Afterwards no two moving items have targets with the same collision
/// key: a plan never moves two files to one place.
pub fn mark_target_conflicts(items: &mut Vec<PlanItem>)
    ensures
        conflicts_marked(old(items)@, final(items)@),
{
    let ghost orig = items@;
    let mut groups: StringHashMap<(u64, u128)> = StringHashMap::new();
    let mut k: usize = 0;
    while k < items.len()
        invariant
            k <= items@.len() == orig.len(),
            items@ == orig,
            forall|key: Seq<char>| #[trigger]
                groups@.contains_key(key) <==> key_count(orig.take(k as int), key) > 0,
            forall|key: Seq<char>| #[trigger]
                groups@.contains_key(key) ==> groups@[key].0 == key_count(orig.take(k as int), key),
        decreases orig.len() - k,
    {
        proof {
            assert forall|key: Seq<char>| true implies key_count(orig.take(k + 1), key)
                == key_count(orig.take(k as int), key) + if counted(orig[k as int]) && target_key(
                orig[k as int],
            ) == key {
                1nat
            } else {
                0nat
            } by {
                lemma_key_count_step(orig, k as int, key);
            }
        }
        if items[k].action == PlanAction::Move {
            if let Some(target) = &items[k].target {
                let key = windows_path_key(target.as_str());
                proof {
                    lemma_key_count_bound(orig.take(k as int), key@);
                }
                let entry: (u64, u128) = match groups.get(key.as_str()) {
                    Some(e) => (e.0 + 1, e.1),
                    None => (1, new_id()),
                };
                groups.insert(key, entry);
            }
        }
        k += 1;
    }
    assert(orig.take(orig.len() as int) =~= orig);
    let ghost groups_view = groups@;
    let mut k: usize = 0;
    while k < items.len()
        invariant
            k <= items@.len() == orig.len(),
            groups@ == groups_view,
            forall|key: Seq<char>| #[trigger]
                groups_view.contains_key(key) <==> key_count(orig, key) > 0,
            forall|key: Seq<char>| #[trigger]
                groups_view.contains_key(key) ==> groups_view[key].0 == key_count(orig, key),
            forall|j: int| k <= j < orig.len() ==> #[trigger] items@[j] == orig[j],
            forall|j: int|
                0 <= j < k ==> if in_conflict(orig, #[trigger] orig[j]) {
                    marked_conflict(orig[j], items@[j], groups_view[target_key(orig[j])].1)
                } else {
                    items@[j] == orig[j]
                },
        decreases orig.len() - k,
    {
        assert(items@[k as int] == orig[k as int]);
        let group = match &items[k].target {
            Some(target) => {
                let key = windows_path_key(target.as_str());
                match groups.get(key.as_str()) {
                    Some(e) => if e.0 > 1 {
                        Some(e.1)
                    } else {
                        None
                    },
                    None => None,
                }
            },
            None => None,
        };
        assert(group is Some <==> in_conflict(orig, orig[k as int]));
        if let Some(id) = group {
            let ghost before = items@;
            items[k].conflict_group_id = Some(id);
            items[k].action = PlanAction::Skip;
            items[k].risk = Risk::Conflict;
            items[k].reason = Some(String::from_str("target_conflict"));
            assert(marked_conflict(orig[k as int], items@[k as int], groups_view[target_key(orig[k as int])].1));
            assert(forall|j: int| 0 <= j < items@.len() && j != k ==> items@[j] == before[j]);
        }
        k += 1;
    }
    proof {
        assert forall|i: int, j: int|
            0 <= i < j < items@.len() && counted(#[trigger] items@[i]) && counted(
                #[trigger] items@[j],
            ) implies target_key(items@[i]) != target_key(items@[j]) by {
            if !in_conflict(orig, orig[i]) && !in_conflict(orig, orig[j]) {
                if target_key(orig[i]) == target_key(orig[j]) {
                    lemma_two_claims(orig, i, j, target_key(orig[i]));
                }
            }
        }
    }
}

/// Two claims on one key make its count at least two.
proof fn lemma_two_claims(s: Seq<PlanItem>, i: int, j: int, key: Seq<char>)
    requires
        0 <= i < j < s.len(),
        counted(s[i]) && target_key(s[i]) == key,
        counted(s[j]) && target_key(s[j]) == key,
    ensures
        key_count(s, key) >= 2,
    decreases s.len(),
{
    if j < s.len() - 1 {
        lemma_two_claims(s.drop_last(), i, j, key);
    } else {
        lemma_one_claim(s.drop_last(), i, key);
    }
}

/// One claim on a key makes its count at least one.
proof fn lemma_one_claim(s: Seq<PlanItem>, i: int, key: Seq<char>)
    requires
        0 <= i < s.len(),
        counted(s[i]) && target_key(s[i]) == key,
    ensures
        key_count(s, key) >= 1,
    decreases s.len(),
{
    if i < s.len() - 1 {
        lemma_one_claim(s.drop_last(), i, key);
    }
}

} // verus!
