//! Batch orchestration for a declared set of version-controlled working
//! trees: resolving requested names and groups into an ordered,
//! de-duplicated target list, interpreting line-oriented status reports,
//! driving a per-repository synchronization state machine, and
//! aggregating per-target outcomes with strict failure isolation.

pub mod batch;
pub mod command;
pub mod config;
pub mod init;
pub mod resolve;
pub mod status;
pub mod sync;
pub mod text;
