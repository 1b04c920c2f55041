//! Context compaction for long conversations.

pub mod driving;
pub mod estimate_laws;
pub mod estimation;
pub mod extraction;
pub mod pairing;
pub mod plan_laws;
pub mod planning;
pub mod prune_laws;
pub mod pruning;
pub mod request_laws;
pub mod rule_laws;
pub mod rules;
pub mod summary;
pub mod workflow_laws;
