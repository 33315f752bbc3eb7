//! Safe music library organizer: naming rules, Windows path policy and the
//! scan / plan / apply / verify / rollback workflow.

pub mod text;
pub mod domain;
pub mod execution;
pub mod path_policy;
pub mod paths;
pub mod ids;
pub mod plan;
pub mod candidates;
pub mod anchors;
pub mod planning;
pub mod plan_usecase;
pub mod scan;
pub mod duplicates;
pub mod snapshot;
pub mod stored_plan;
pub mod pages;
pub mod template;
pub mod naming;
pub mod ports;
pub mod clock;
pub mod verify;
pub mod apply;
pub mod order;
pub mod rollback;
