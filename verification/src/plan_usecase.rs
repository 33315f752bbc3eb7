//! The plan step: checks the naming rules, drafts the items of a completed scan, resolves
//! duplicate and colliding targets, and stores the plan with its snapshot hash; and the
//! revision of a completed plan by manual targets.

use vstd::prelude::*;
use vstd::slice::slice_subrange;
use std::sync::Arc;
use crate::clock::{elapsed_ms, start_clock};
use crate::domain::{NamingRules, PlanItem, Risk, ScannedFile};
use crate::duplicates::{
    conflicts_marked, duplicate_suffix_fails, duplicates_resolved, mark_target_conflicts,
    resolve_duplicate_targets,
};
use crate::execution::{WorkflowError, WorkflowResult};
use crate::naming::{naming_issues, validate_naming_rules};
use crate::planning::{draft_plan_items, drafted_items};
use crate::ports::{ManualTargetChange, PlanRevisionStore, PlanStore};
use crate::snapshot::plan_snapshot_hash;
use crate::text::{append_chars, chars_of, string_of};

verus! {

/// What a plan is made with.
#[derive(Debug, Clone)]
pub struct PlanOptions {
    pub target_root: String,
    /// How many items are stored at a time (0 counts as 1).
    pub batch_size: usize,
    pub naming: NamingRules,
}

/// The stored plan and its counts.
#[derive(Debug, Clone)]
pub struct PlanResult {
    pub plan_id: String,
    pub items: u64,
    pub conflicts: u64,
    pub risks: u64,
}

pub struct PlanUseCase<S> {
    pub store: Arc<S>,
}

pub struct RevisePlanUseCase<S> {
    pub store: Arc<S>,
}

/// How many items of `s` are target conflicts.
pub open spec fn conflict_count(s: Seq<PlanItem>) -> nat
    decreases s.len(),
{
    if s.len() == 0 {
        0
    } else {
        conflict_count(s.drop_last()) + if s.last().risk == Risk::Conflict {
            1nat
        } else {
            0nat
        }
    }
}

/// How many items of `s` carry any risk.
pub open spec fn risk_count(s: Seq<PlanItem>) -> nat
    decreases s.len(),
{
    if s.len() == 0 {
        0
    } else {
        risk_count(s.drop_last()) + if s.last().risk != Risk::NoRisk {
            1nat
        } else {
            0nat
        }
    }
}

/// Every conflict is a risk, and there are no more risks than items.
pub proof fn law_conflicts_are_risks(s: Seq<PlanItem>)
    ensures
        conflict_count(s) <= risk_count(s) <= s.len(),
    decreases s.len(),
{
    if s.len() > 0 {
        law_conflicts_are_risks(s.drop_last());
    }
}

/// The number of conflicts and of risks among the items.
pub fn plan_counts(items: &Vec<PlanItem>) -> (r: (u64, u64))
    ensures
        r.0 == conflict_count(items@),
        r.1 == risk_count(items@),
{
    let mut conflicts: u64 = 0;
    let mut risks: u64 = 0;
    let mut i: usize = 0;
    while i < items.len()
        invariant
            i <= items@.len(),
            conflicts == conflict_count(items@.take(i as int)),
            risks == risk_count(items@.take(i as int)),
        decreases items.len() - i,
    {
        proof {
            assert(items@.take(i + 1).drop_last() =~= items@.take(i as int));
            law_conflicts_are_risks(items@.take(i as int));
        }
        if items[i].risk == Risk::Conflict {
            conflicts += 1;
        }
        if items[i].risk != Risk::NoRisk {
            risks += 1;
        }
        i += 1;
    }
    assert(items@.take(items@.len() as int) =~= items@);
    (conflicts, risks)
}

/// The error for naming rules with problems: `invalid_naming_rules:` and the first code.
pub open spec fn invalid_naming_code(naming: NamingRules) -> Seq<char> {
    "invalid_naming_rules:"@ + naming_issues(naming)[0].1
}

/// The items of a plan for `files`: drafted (`drafted_items`), duplicates renamed
/// (`duplicates_resolved`) and collisions marked (`conflicts_marked`).
pub open spec fn planned_items(
    files: Seq<ScannedFile>,
    target_root: Seq<char>,
    naming: NamingRules,
    items: Seq<PlanItem>,
) -> bool {
    exists|drafted: Seq<PlanItem>, resolved: Seq<PlanItem>|
        #![trigger drafted_items(files, target_root, naming, drafted), conflicts_marked(resolved, items)]
        {
            &&& drafted_items(files, target_root, naming, drafted)
            &&& duplicates_resolved(drafted, resolved, naming)
            &&& conflicts_marked(resolved, items)
        }
}

/// The items of a plan for the files of a completed scan: drafted (`draft_plan_items`),
/// duplicates renamed (`resolve_duplicate_targets`) and collisions marked
/// (`mark_target_conflicts`). `Err(i)` names the first drafted item whose duplicate suffix
/// needs tags it lacks.
pub fn build_plan(files: Vec<ScannedFile>, target_root: &str, naming: &NamingRules) -> (r: Result<
    Vec<PlanItem>,
    usize,
>)
    ensures
        r matches Ok(items) ==> planned_items(files@, target_root@, *naming, items@),
        r matches Err(i) ==> exists|drafted: Seq<PlanItem>|
            #[trigger] drafted_items(files@, target_root@, *naming, drafted)
                && duplicate_suffix_fails(drafted, i as int, *naming),
{
    let ghost fs = files@;
    let mut items = draft_plan_items(files, target_root, naming);
    let ghost drafted = items@;
    if let Err(i) = resolve_duplicate_targets(&mut items, naming) {
        assert(drafted_items(fs, target_root@, *naming, drafted));
        return Err(i);
    }
    let ghost resolved = items@;
    mark_target_conflicts(&mut items);
    assert(drafted_items(fs, target_root@, *naming, drafted));
    assert(conflicts_marked(resolved, items@));
    Ok(items)
}

impl<S: PlanStore> PlanUseCase<S> {
    /// Makes a plan from a completed scan. Naming rules with problems are refused before the
    /// store is touched. The items are those of `build_plan`, stored in batches and finished
    /// with their counts (`plan_counts`) and snapshot hash (`plan_snapshot_hash`); the result
    /// reports the same counts and the number of items; when storing fails
    /// after the plan was begun, the plan is marked failed. A duplicate whose suffix would
    /// need tags it lacks fails the plan with `duplicate_suffix_needs_metadata`.
    pub fn execute(&self, scan_id: &str, options: &PlanOptions) -> (r: WorkflowResult<PlanResult>)
        ensures
            naming_issues(options.naming).len() > 0 ==> (r matches Err(e) && e.code_view()
                == invalid_naming_code(options.naming)),
            r matches Ok(res) ==> naming_issues(options.naming).len() == 0 && res.conflicts
                <= res.risks <= res.items,
            r matches Ok(res) ==> exists|files: Seq<ScannedFile>, items: Seq<PlanItem>|
                {
                    &&& #[trigger] planned_items(files, options.target_root@, options.naming, items)
                    &&& res.items == items.len()
                    &&& res.conflicts == conflict_count(items)
                    &&& res.risks == risk_count(items)
                },
    {
        let issues = validate_naming_rules(&options.naming);
        if issues.len() > 0 {
            assert(issues@.map_values(|i: crate::naming::NamingIssue| (i.template@, i.code@))[0]
                == (issues@[0].template@, issues@[0].code@));
            let mut code = chars_of("invalid_naming_rules:");
            append_chars(&mut code, &chars_of(issues[0].code.as_str()));
            return Err(WorkflowError::new(string_of(&code)));
        }
        assert(naming_issues(options.naming).len() == 0);
        let started = start_clock();
        let files = match self.store.load_completed_scan(scan_id) {
            Ok(files) => files,
            Err(e) => return Err(WorkflowError::new(e)),
        };
        let plan_id = match self.store.begin_plan(
            scan_id,
            options.target_root.as_str(),
            &options.naming,
        ) {
            Ok(id) => id,
            Err(e) => return Err(WorkflowError::new(e)),
        };
        let ghost loaded = files@;
        let items = match build_plan(files, options.target_root.as_str(), &options.naming) {
            Ok(items) => items,
            Err(_) => {
                let _ = self.store.fail_plan(plan_id.as_str());
                return Err(WorkflowError::from_code("duplicate_suffix_needs_metadata"));
            },
        };
        let (conflicts, risks) = plan_counts(&items);
        proof {
            law_conflicts_are_risks(items@);
        }
        let batch = if options.batch_size == 0 {
            1
        } else {
            options.batch_size
        };
        let mut start: usize = 0;
        while start < items.len()
            invariant
                start <= items@.len(),
                batch > 0,
                naming_issues(options.naming).len() == 0,
                planned_items(loaded, options.target_root@, options.naming, items@),
            decreases items.len() - start,
        {
            let end = if items.len() - start > batch {
                start + batch
            } else {
                items.len()
            };
            let chunk = slice_subrange(items.as_slice(), start, end);
            if let Err(e) = self.store.save_plan_items(plan_id.as_str(), chunk) {
                let _ = self.store.fail_plan(plan_id.as_str());
                return Err(WorkflowError::new(e));
            }
            start = end;
        }
        let snapshot_hash = plan_snapshot_hash(&items);
        if let Err(e) = self.store.finish_plan(
            plan_id.as_str(),
            conflicts,
            risks,
            snapshot_hash.as_str(),
        ) {
            let _ = self.store.fail_plan(plan_id.as_str());
            return Err(WorkflowError::new(e));
        }
        let count = items.len() as u64;
        if let Err(e) = self.store.record_metric(
            plan_id.as_str(),
            "plan",
            elapsed_ms(&started),
            count,
        ) {
            return Err(WorkflowError::new(e));
        }
        assert(planned_items(loaded, options.target_root@, options.naming, items@));
        Ok(PlanResult { plan_id, items: count, conflicts, risks })
    }
}

impl<S: PlanRevisionStore> RevisePlanUseCase<S> {
    /// Creates a revised child plan with manual targets; at least one change is required,
    /// and without one the store is not asked.
    pub fn execute(&self, parent_plan_id: &str, changes: &[ManualTargetChange]) -> (r: WorkflowResult<
        String,
    >)
        ensures
            changes@.len() == 0 ==> (r matches Err(e) && e.code_view()
                == "manual_target_change_required"@),
    {
        if changes.len() == 0 {
            return Err(WorkflowError::from_code("manual_target_change_required"));
        }
        match self.store.revise_plan(parent_plan_id, changes) {
            Ok(id) => Ok(id),
            Err(e) => Err(WorkflowError::new(e)),
        }
    }
}

} // verus!
