//! Plans as the store keeps them: rows with named actions and risks, the check of a stored
//! plan against its snapshot hash, and the revision of a completed plan by manual targets.

use vstd::prelude::*;
use vstd::hash_map::StringHashMap;
use crate::domain::{PlanAction, PlanItem, Risk, MAX_PATH_CHARS};
use crate::path_policy::{lowercase, to_lowercase};
use crate::ports::ManualTargetChange;
use crate::snapshot::{
    action_code, item_snapshot_bytes, lower_hex, lower_hex_string, push_row_bytes, risk_code,
    row_bytes, sha256, snapshot_bytes, snapshot_hash, sha256_digest,
};
use crate::text::{chars_equal_str, chars_of, opt_chars};

verus! {

/// A plan item as the store keeps it.
#[derive(Debug, Clone)]
pub struct StoredPlanRow {
    pub id: String,
    pub ordinal: u64,
    pub source_path: String,
    pub target_path: Option<String>,
    pub action: String,
    pub risk: String,
    pub reason: Option<String>,
}

/// The name under which an action is stored.
pub fn plan_action_name(action: PlanAction) -> (r: &'static str)
    ensures
        r@ == action_code(action),
{
    match action {
        PlanAction::Move => "move",
        PlanAction::Skip => "skip",
    }
}

/// The name under which a risk is stored.
pub fn risk_name(risk: Risk) -> (r: &'static str)
    ensures
        r@ == risk_code(risk),
{
    match risk {
        Risk::NoRisk => "none",
        Risk::InvalidTarget => "invalid_target",
        Risk::PathTooLong => "path_too_long",
        Risk::Conflict => "conflict",
        Risk::MetadataMissing => "metadata_missing",
    }
}

/// The action a stored name stands for: `move`, and anything else is a skip.
pub open spec fn stored_action(name: Seq<char>) -> PlanAction {
    if name == "move"@ {
        PlanAction::Move
    } else {
        PlanAction::Skip
    }
}

/// The risk a stored name stands for; an unknown name reads as an invalid target.
pub open spec fn stored_risk(name: Seq<char>) -> Risk {
    if name == "none"@ {
        Risk::NoRisk
    } else if name == "conflict"@ {
        Risk::Conflict
    } else if name == "metadata_missing"@ {
        Risk::MetadataMissing
    } else if name == "path_too_long"@ {
        Risk::PathTooLong
    } else {
        Risk::InvalidTarget
    }
}

/// Reads a stored action name.
pub fn parse_stored_action(name: &str) -> (r: PlanAction)
    ensures
        r == stored_action(name@),
{
    if chars_equal_str(&chars_of(name), "move") {
        PlanAction::Move
    } else {
        PlanAction::Skip
    }
}

/// Reads a stored risk name.
pub fn parse_stored_risk(name: &str) -> (r: Risk)
    ensures
        r == stored_risk(name@),
{
    let chars = chars_of(name);
    if chars_equal_str(&chars, "none") {
        Risk::NoRisk
    } else if chars_equal_str(&chars, "conflict") {
        Risk::Conflict
    } else if chars_equal_str(&chars, "metadata_missing") {
        Risk::MetadataMissing
    } else if chars_equal_str(&chars, "path_too_long") {
        Risk::PathTooLong
    } else {
        Risk::InvalidTarget
    }
}

/// Storing an action or a risk by name and reading it back gives it back.
pub proof fn law_stored_names_round_trip(action: PlanAction, risk: Risk)
    ensures
        stored_action(action_code(action)) == action,
        stored_risk(risk_code(risk)) == risk,
{
    reveal_strlit("move");
    reveal_strlit("skip");
    reveal_strlit("none");
    reveal_strlit("invalid_target");
    reveal_strlit("path_too_long");
    reveal_strlit("conflict");
    reveal_strlit("metadata_missing");
    assert("skip"@[0] != "move"@[0]);
    assert("invalid_target"@.len() != "none"@.len());
    assert("invalid_target"@.len() != "conflict"@.len());
    assert("invalid_target"@.len() != "metadata_missing"@.len());
    assert("invalid_target"@.len() != "path_too_long"@.len());
    assert("path_too_long"@.len() != "none"@.len());
    assert("path_too_long"@.len() != "conflict"@.len());
    assert("path_too_long"@.len() != "metadata_missing"@.len());
    assert("metadata_missing"@.len() != "none"@.len());
    assert("metadata_missing"@.len() != "conflict"@.len());
    assert("conflict"@.len() != "none"@.len());
}

/// The snapshot bytes of one stored row.
pub open spec fn stored_row_bytes(row: StoredPlanRow) -> Seq<u8> {
    row_bytes(
        row.ordinal,
        row.source_path@,
        opt_chars(row.target_path),
        row.action@,
        row.risk@,
        opt_chars(row.reason),
    )
}

/// The snapshot bytes of stored rows, in order.
pub open spec fn stored_rows_bytes(rows: Seq<StoredPlanRow>) -> Seq<u8>
    decreases rows.len(),
{
    if rows.len() == 0 {
        Seq::<u8>::empty()
    } else {
        stored_rows_bytes(rows.drop_last()) + stored_row_bytes(rows.last())
    }
}

/// The snapshot hash recomputed from stored rows.
pub open spec fn stored_rows_hash(rows: Seq<StoredPlanRow>) -> Seq<char> {
    lower_hex(sha256(stored_rows_bytes(rows)))
}

/// Recomputes the snapshot hash of stored rows (see `stored_rows_hash`).
pub fn stored_plan_hash(rows: &Vec<StoredPlanRow>) -> (r: String)
    ensures
        r@ == stored_rows_hash(rows@),
{
    let mut buf: Vec<u8> = Vec::new();
    let mut k: usize = 0;
    while k < rows.len()
        invariant
            k <= rows@.len(),
            buf@ == stored_rows_bytes(rows@.take(k as int)),
        decreases rows.len() - k,
    {
        let row = &rows[k];
        push_row_bytes(
            &mut buf,
            row.ordinal,
            row.source_path.as_str(),
            &row.target_path,
            row.action.as_str(),
            row.risk.as_str(),
            &row.reason,
        );
        assert(rows@.take(k + 1).drop_last() =~= rows@.take(k as int));
        k += 1;
    }
    assert(rows@.take(rows@.len() as int) =~= rows@);
    let digest = sha256_digest(&buf);
    lower_hex_string(&digest)
}

/// Checks stored rows against the snapshot hash recorded for their plan: refused with
/// `plan_snapshot_mismatch` exactly when the recomputed hash differs.
pub fn check_plan_snapshot(rows: &Vec<StoredPlanRow>, stored_hash: &str) -> (r: Result<(), String>)
    ensures
        r is Ok <==> stored_rows_hash(rows@) == stored_hash@,
        r matches Err(e) ==> e@ == "plan_snapshot_mismatch"@,
{
    let hash = stored_plan_hash(rows);
    if chars_equal_str(&chars_of(hash.as_str()), stored_hash) {
        Ok(())
    } else {
        Err(String::from_str("plan_snapshot_mismatch"))
    }
}

/// A stored row holds a plan item: its ordinal, source, target and reason, and the names of
/// its action and risk.
pub open spec fn row_stores_item(row: StoredPlanRow, it: PlanItem) -> bool {
    &&& row.ordinal == it.ordinal
    &&& row.source_path@ == it.file.path@
    &&& opt_chars(row.target_path) == opt_chars(it.target)
    &&& row.action@ == action_code(it.action)
    &&& row.risk@ == risk_code(it.risk)
    &&& opt_chars(row.reason) == opt_chars(it.reason)
}

/// A plan stored row by row hashes as the plan did: the check of a stored plan against the
/// snapshot hash recorded when it was made passes as long as its rows are unchanged.
pub proof fn law_stored_plan_matches_snapshot(rows: Seq<StoredPlanRow>, items: Seq<PlanItem>)
    requires
        rows.len() == items.len(),
        forall|i: int| 0 <= i < rows.len() ==> row_stores_item(#[trigger] rows[i], items[i]),
    ensures
        stored_rows_hash(rows) == snapshot_hash(items),
    decreases rows.len(),
{
    lemma_stored_bytes(rows, items);
}

proof fn lemma_stored_bytes(rows: Seq<StoredPlanRow>, items: Seq<PlanItem>)
    requires
        rows.len() == items.len(),
        forall|i: int| 0 <= i < rows.len() ==> row_stores_item(#[trigger] rows[i], items[i]),
    ensures
        stored_rows_bytes(rows) == snapshot_bytes(items),
    decreases rows.len(),
{
    if rows.len() > 0 {
        assert forall|i: int| 0 <= i < rows.drop_last().len() implies row_stores_item(
            #[trigger] rows.drop_last()[i],
            items.drop_last()[i],
        ) by {
            assert(row_stores_item(rows[i], items[i]));
        }
        lemma_stored_bytes(rows.drop_last(), items.drop_last());
        assert(row_stores_item(rows[rows.len() - 1], items[items.len() - 1]));
        assert(stored_row_bytes(rows.last()) == item_snapshot_bytes(items.last()));
    }
}

/// The change that applies to the row with item id `id`: of several, the last one.
pub open spec fn last_change(changes: Seq<ManualTargetChange>, id: Seq<char>) -> Option<ManualTargetChange>
    decreases changes.len(),
{
    if changes.len() == 0 {
        None
    } else if changes.last().plan_item_id@ == id {
        Some(changes.last())
    } else {
        last_change(changes.drop_last(), id)
    }
}

/// A row of a revised plan as the contracts see it.
pub ghost struct RevisedView {
    pub ordinal: u64,
    pub source: Seq<char>,
    pub target: Option<Seq<char>>,
    pub origin: Seq<char>,
    pub action: Seq<char>,
    pub risk: Seq<char>,
    pub reason: Option<Seq<char>>,
}

/// A row carried into a revision: with a manual change, its target becomes the manual one
/// (a `manual` row that moves, or is skipped as an invalid target when it equals the source
/// or the path policy refuses it), with the change's reason; without one, it keeps its rule
/// target, and a former target conflict moves again, to be checked anew.
pub open spec fn revised_row(row: StoredPlanRow, change: Option<ManualTargetChange>) -> RevisedView {
    match change {
        Some(c) => {
            let t = c.target@;
            let bad = t == row.source_path@ || !(0 < t.len() <= MAX_PATH_CHARS);
            RevisedView {
                ordinal: row.ordinal,
                source: row.source_path@,
                target: Some(t),
                origin: "manual"@,
                action: if bad {
                    "skip"@
                } else {
                    "move"@
                },
                risk: if bad {
                    "invalid_target"@
                } else {
                    "none"@
                },
                reason: Some(c.reason@),
            }
        },
        None => {
            let cleared = row.risk@ == "conflict"@ && opt_chars(row.reason) == Some(
                "target_conflict"@,
            );
            RevisedView {
                ordinal: row.ordinal,
                source: row.source_path@,
                target: opt_chars(row.target_path),
                origin: "rule"@,
                action: if cleared {
                    "move"@
                } else {
                    row.action@
                },
                risk: if cleared {
                    "none"@
                } else {
                    row.risk@
                },
                reason: if cleared {
                    None
                } else {
                    opt_chars(row.reason)
                },
            }
        },
    }
}

/// The rows of a revision before conflicts are checked.
pub open spec fn revised_rows(rows: Seq<StoredPlanRow>, changes: Seq<ManualTargetChange>) -> Seq<RevisedView> {
    rows.map_values(|r: StoredPlanRow| revised_row(r, last_change(changes, r.id@)))
}

/// How many moving rows of `s` claim a target whose lower-cased text is `key`.
pub open spec fn lower_claims(s: Seq<RevisedView>, key: Seq<char>) -> nat
    decreases s.len(),
{
    if s.len() == 0 {
        0
    } else {
        lower_claims(s.drop_last(), key) + if s.last().action == "move"@ && s.last().target is Some
            && lowercase(s.last().target->0) == key {
            1nat
        } else {
            0nat
        }
    }
}

/// The conflict a revised row falls in: the lower-cased text of its target, when more than
/// one moving row claims it.
pub open spec fn conflict_key(s: Seq<RevisedView>, v: RevisedView) -> Option<Seq<char>> {
    match v.target {
        Some(t) => if lower_claims(s, lowercase(t)) > 1 {
            Some(lowercase(t))
        } else {
            None
        },
        None => None,
    }
}

/// A revised row with its conflict applied: skipped as a target conflict when it has one.
pub open spec fn settled(v: RevisedView, key: Option<Seq<char>>) -> RevisedView {
    if key is Some {
        RevisedView { action: "skip"@, risk: "conflict"@, reason: Some("target_conflict"@), ..v }
    } else {
        v
    }
}

/// A row of a revised plan, ready to be stored; rows with the same conflict key form one
/// conflict group.
#[derive(Debug, Clone)]
pub struct RevisedPlanRow {
    pub ordinal: u64,
    pub source_path: String,
    pub target_path: Option<String>,
    pub origin: String,
    pub action: String,
    pub risk: String,
    pub reason: Option<String>,
    pub conflict_key: Option<String>,
}

impl View for RevisedPlanRow {
    type V = RevisedView;

    open spec fn view(&self) -> RevisedView {
        RevisedView {
            ordinal: self.ordinal,
            source: self.source_path@,
            target: opt_chars(self.target_path),
            origin: self.origin@,
            action: self.action@,
            risk: self.risk@,
            reason: opt_chars(self.reason),
        }
    }
}

/// A revised plan: its rows, counts and snapshot hash.
#[derive(Debug, Clone)]
pub struct RevisedPlan {
    pub rows: Vec<RevisedPlanRow>,
    pub conflicts: u64,
    pub risks: u64,
    pub snapshot_hash: String,
}

/// How many rows of `s` are conflicts.
pub open spec fn revised_conflicts(s: Seq<RevisedView>) -> nat
    decreases s.len(),
{
    if s.len() == 0 {
        0
    } else {
        revised_conflicts(s.drop_last()) + if s.last().risk == "conflict"@ {
            1nat
        } else {
            0nat
        }
    }
}

/// How many rows of `s` carry a risk.
pub open spec fn revised_risks(s: Seq<RevisedView>) -> nat
    decreases s.len(),
{
    if s.len() == 0 {
        0
    } else {
        revised_risks(s.drop_last()) + if s.last().risk != "none"@ {
            1nat
        } else {
            0nat
        }
    }
}

/// The snapshot bytes of revised rows.
pub open spec fn revised_bytes(s: Seq<RevisedView>) -> Seq<u8>
    decreases s.len(),
{
    if s.len() == 0 {
        Seq::<u8>::empty()
    } else {
        revised_bytes(s.drop_last()) + row_bytes(
            s.last().ordinal,
            s.last().source,
            s.last().target,
            s.last().action,
            s.last().risk,
            s.last().reason,
        )
    }
}

/// The revised rows with their conflicts applied.
pub open spec fn settled_rows(s: Seq<RevisedView>) -> Seq<RevisedView> {
    s.map_values(|v: RevisedView| settled(v, conflict_key(s, v)))
}

proof fn lemma_two_lower_claims(s: Seq<RevisedView>, i: int, j: int, key: Seq<char>)
    requires
        0 <= i < j < s.len(),
        s[i].action == "move"@ && s[i].target is Some && lowercase(s[i].target->0) == key,
        s[j].action == "move"@ && s[j].target is Some && lowercase(s[j].target->0) == key,
    ensures
        lower_claims(s, key) >= 2,
    decreases s.len(),
{
    if j < s.len() - 1 {
        lemma_two_lower_claims(s.drop_last(), i, j, key);
    } else {
        lemma_one_lower_claim(s.drop_last(), i, key);
    }
}

proof fn lemma_one_lower_claim(s: Seq<RevisedView>, i: int, key: Seq<char>)
    requires
        0 <= i < s.len(),
        s[i].action == "move"@ && s[i].target is Some && lowercase(s[i].target->0) == key,
    ensures
        lower_claims(s, key) >= 1,
    decreases s.len(),
{
    if i < s.len() - 1 {
        lemma_one_lower_claim(s.drop_last(), i, key);
    }
}

/// A revised plan never moves two files to one place: after conflicts are applied, no two
/// moving rows have targets with the same lower-cased text.
pub proof fn law_revised_moves_are_distinct(s: Seq<RevisedView>, i: int, j: int)
    requires
        0 <= i < j < s.len(),
        settled_rows(s)[i].action == "move"@,
        settled_rows(s)[j].action == "move"@,
        settled_rows(s)[i].target is Some,
        settled_rows(s)[j].target is Some,
    ensures
        lowercase(settled_rows(s)[i].target->0) != lowercase(settled_rows(s)[j].target->0),
{
    reveal_strlit("skip");
    reveal_strlit("move");
    assert("skip"@[0] != "move"@[0]);
    let a = s[i];
    let b = s[j];
    assert(conflict_key(s, a) is None);
    assert(conflict_key(s, b) is None);
    if lowercase(a.target->0) == lowercase(b.target->0) {
        lemma_two_lower_claims(s, i, j, lowercase(a.target->0));
    }
}

fn copy_text(s: &Option<String>) -> (r: Option<String>)
    ensures
        opt_chars(r) == opt_chars(*s),
{
    match s {
        Some(t) => Some(t.clone()),
        None => None,
    }
}

proof fn lemma_lower_claims_bound(s: Seq<RevisedView>, key: Seq<char>)
    ensures
        lower_claims(s, key) <= s.len(),
    decreases s.len(),
{
    if s.len() > 0 {
        lemma_lower_claims_bound(s.drop_last(), key);
    }
}

/// Revises a completed plan's rows with manual changes (see `revised_row`), then marks as
/// conflicts all rows whose target, lower-cased, more than one moving row claims (see
/// `settled`); counts conflicts and risks and computes the snapshot hash of the result.
pub fn revise_plan_rows(rows: &Vec<StoredPlanRow>, changes: &[ManualTargetChange]) -> (r: RevisedPlan)
    ensures
        r.rows@.len() == rows@.len(),
        forall|i: int|
            0 <= i < rows@.len() ==> (#[trigger] r.rows@[i])@ == settled_rows(
                revised_rows(rows@, changes@),
            )[i],
        forall|i: int|
            0 <= i < rows@.len() ==> opt_chars((#[trigger] r.rows@[i]).conflict_key) == conflict_key(
                revised_rows(rows@, changes@),
                revised_rows(rows@, changes@)[i],
            ),
        r.conflicts == revised_conflicts(settled_rows(revised_rows(rows@, changes@))),
        r.risks == revised_risks(settled_rows(revised_rows(rows@, changes@))),
        r.snapshot_hash@ == lower_hex(
            sha256(revised_bytes(settled_rows(revised_rows(rows@, changes@)))),
        ),
{
    let ghost revised = revised_rows(rows@, changes@);
    // The last change for each item id.
    let mut latest: StringHashMap<usize> = StringHashMap::new();
    let mut c: usize = 0;
    while c < changes.len()
        invariant
            c <= changes@.len(),
            forall|id: Seq<char>| #[trigger]
                latest@.contains_key(id) <==> last_change(changes@.take(c as int), id) is Some,
            forall|id: Seq<char>| #[trigger]
                latest@.contains_key(id) ==> latest@[id] < c && last_change(
                    changes@.take(c as int),
                    id,
                ) == Some(changes@[latest@[id] as int]),
        decreases changes.len() - c,
    {
        assert(changes@.take(c + 1).drop_last() =~= changes@.take(c as int));
        assert(changes@.take(c + 1).last() == changes@[c as int]);
        latest.insert(changes[c].plan_item_id.clone(), c);
        c += 1;
    }
    assert(changes@.take(changes@.len() as int) =~= changes@);
    // Carry each row over.
    let mut out: Vec<RevisedPlanRow> = Vec::new();
    let mut k: usize = 0;
    while k < rows.len()
        invariant
            k <= rows@.len(),
            revised == revised_rows(rows@, changes@),
            forall|id: Seq<char>| #[trigger]
                latest@.contains_key(id) <==> last_change(changes@, id) is Some,
            forall|id: Seq<char>| #[trigger]
                latest@.contains_key(id) ==> latest@[id] < changes@.len() && last_change(changes@, id)
                    == Some(changes@[latest@[id] as int]),
            out@.len() == k,
            forall|i: int| 0 <= i < k ==> (#[trigger] out@[i])@ == revised[i],
            forall|i: int| 0 <= i < k ==> (#[trigger] out@[i]).conflict_key is None,
        decreases rows.len() - k,
    {
        let row = &rows[k];
        assert(revised[k as int] == revised_row(*row, last_change(changes@, row.id@)));
        let next = match latest.get(row.id.as_str()) {
            Some(index) => {
                let change = &changes[*index];
                let target_chars = chars_of(change.target.as_str());
                let bad = chars_equal_str(&target_chars, row.source_path.as_str())
                    || crate::domain::assess_windows_path(change.target.as_str()).is_err();
                RevisedPlanRow {
                    ordinal: row.ordinal,
                    source_path: row.source_path.clone(),
                    target_path: Some(change.target.clone()),
                    origin: String::from_str("manual"),
                    action: String::from_str(
                        if bad {
                            "skip"
                        } else {
                            "move"
                        },
                    ),
                    risk: String::from_str(
                        if bad {
                            "invalid_target"
                        } else {
                            "none"
                        },
                    ),
                    reason: Some(change.reason.clone()),
                    conflict_key: None,
                }
            },
            None => {
                let cleared = chars_equal_str(&chars_of(row.risk.as_str()), "conflict") && match &row.reason {
                    Some(r) => chars_equal_str(&chars_of(r.as_str()), "target_conflict"),
                    None => false,
                };
                RevisedPlanRow {
                    ordinal: row.ordinal,
                    source_path: row.source_path.clone(),
                    target_path: copy_text(&row.target_path),
                    origin: String::from_str("rule"),
                    action: if cleared {
                        String::from_str("move")
                    } else {
                        row.action.clone()
                    },
                    risk: if cleared {
                        String::from_str("none")
                    } else {
                        row.risk.clone()
                    },
                    reason: if cleared {
                        None
                    } else {
                        copy_text(&row.reason)
                    },
                    conflict_key: None,
                }
            },
        };
        assert(next@ == revised[k as int]);
        out.push(next);
        k += 1;
    }
    // Count the claims on each lower-cased target.
    let mut claims: StringHashMap<u64> = StringHashMap::new();
    let mut k: usize = 0;
    while k < out.len()
        invariant
            k <= out@.len() == revised.len(),
            forall|i: int| 0 <= i < out@.len() ==> (#[trigger] out@[i])@ == revised[i],
            forall|key: Seq<char>| #[trigger]
                claims@.contains_key(key) <==> lower_claims(revised.take(k as int), key) > 0,
            forall|key: Seq<char>| #[trigger]
                claims@.contains_key(key) ==> claims@[key] == lower_claims(revised.take(k as int), key),
        decreases out.len() - k,
    {
        assert(revised.take(k + 1).drop_last() =~= revised.take(k as int));
        assert(revised.take(k + 1).last() == revised[k as int]);
        let row = &out[k];
        if chars_equal_str(&chars_of(row.action.as_str()), "move") {
            if let Some(target) = &row.target_path {
                let key = to_lowercase(target.as_str());
                proof {
                    lemma_lower_claims_bound(revised.take(k as int), key@);
                }
                let n: u64 = match claims.get(key.as_str()) {
                    Some(n) => *n,
                    None => 0,
                };
                claims.insert(key, n + 1);
            }
        }
        k += 1;
    }
    assert(revised.take(revised.len() as int) =~= revised);
    // Settle conflicts, count, and hash.
    let ghost settled_view = settled_rows(revised);
    let mut conflicts: u64 = 0;
    let mut risks: u64 = 0;
    let mut buf: Vec<u8> = Vec::new();
    let mut k: usize = 0;
    while k < out.len()
        invariant
            k <= out@.len() == revised.len(),
            settled_view == settled_rows(revised),
            forall|key: Seq<char>| #[trigger]
                claims@.contains_key(key) <==> lower_claims(revised, key) > 0,
            forall|key: Seq<char>| #[trigger]
                claims@.contains_key(key) ==> claims@[key] == lower_claims(revised, key),
            forall|i: int| k <= i < out@.len() ==> (#[trigger] out@[i])@ == revised[i],
            forall|i: int| 0 <= i < k ==> (#[trigger] out@[i])@ == settled_view[i],
            forall|i: int|
                0 <= i < k ==> opt_chars((#[trigger] out@[i]).conflict_key) == conflict_key(
                    revised,
                    revised[i],
                ),
            conflicts == revised_conflicts(settled_view.take(k as int)),
            risks == revised_risks(settled_view.take(k as int)),
            conflicts <= k,
            risks <= k,
            buf@ == revised_bytes(settled_view.take(k as int)),
        decreases out.len() - k,
    {
        assert(settled_view.take(k + 1).drop_last() =~= settled_view.take(k as int));
        assert(settled_view.take(k + 1).last() == settled_view[k as int]);
        let key: Option<String> = match &out[k].target_path {
            Some(target) => {
                let key = to_lowercase(target.as_str());
                let n: u64 = match claims.get(key.as_str()) {
                    Some(n) => *n,
                    None => 0,
                };
                if n > 1 {
                    Some(key)
                } else {
                    None
                }
            },
            None => None,
        };
        assert(opt_chars(key) == conflict_key(revised, revised[k as int]));
        let ghost before = out@;
        if key.is_some() {
            out[k].action = String::from_str("skip");
            out[k].risk = String::from_str("conflict");
            out[k].reason = Some(String::from_str("target_conflict"));
        }
        out[k].conflict_key = key;
        assert(out@[k as int]@ == settled_view[k as int]);
        assert(forall|i: int| 0 <= i < out@.len() && i != k ==> out@[i] == before[i]);
        let row = &out[k];
        if chars_equal_str(&chars_of(row.risk.as_str()), "conflict") {
            conflicts += 1;
        }
        if !chars_equal_str(&chars_of(row.risk.as_str()), "none") {
            risks += 1;
        }
        push_row_bytes(
            &mut buf,
            row.ordinal,
            row.source_path.as_str(),
            &row.target_path,
            row.action.as_str(),
            row.risk.as_str(),
            &row.reason,
        );
        k += 1;
    }
    assert(settled_view.take(settled_view.len() as int) =~= settled_view);
    let digest = sha256_digest(&buf);
    RevisedPlan { rows: out, conflicts, risks, snapshot_hash: lower_hex_string(&digest) }
}

} // verus!
