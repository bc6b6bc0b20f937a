//! Remote build orchestration: where a project lives on the remote machine,
//! the shell script that builds it there, and the order of the steps of a run.

pub mod arguments;
pub mod identity;
pub mod orchestrator;
pub mod script;
pub mod sync;
pub mod target;
