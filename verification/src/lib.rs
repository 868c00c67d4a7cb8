//! Local orchestration core: a task-lifecycle registry with safe, idempotent
//! start/stop semantics, a flow-definition store with a freshness-checked
//! cache, and the decision logic behind the HTTP control surface.

pub mod control;
pub mod flow;
pub mod kvmap;
pub mod registry;
pub mod store;
pub mod task;
pub mod text;
