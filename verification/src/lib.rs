//! Planning for rolling snapshots of storage volumes and for their
//! incremental replication between repositories.
//!
//! The library decides and the caller acts: it reads location strings and
//! snapshot names, says when a snapshot is due and which ones leave, plans
//! which snapshots a destination lacks and from which parent each is sent,
//! and spells the commands that carry this out. It runs nothing itself.

pub mod backend;
pub mod codec;
pub mod config;
pub mod error;
pub mod instant;
pub mod location;
pub mod options;
pub mod planner;
pub mod retention;
pub mod text;

pub use crate::backend::{list, list_snapshots, restore, snapshot, transfer};
pub use crate::codec::{parse_snapshot_list, parse_snapshot_name, Snapshot, SnapshotIdentifier};
pub use crate::error::FridgeError;
pub use crate::instant::Timestamp;
pub use crate::location::{
    parse_snapshot_repository_location, parse_sync_location, Location, SnapshotRepositoryLocation,
};
pub use crate::options::{ListOpts, RestoreOpts, RunOpts, SnapshotOpts, SyncOpts, TransferOpts};
pub use crate::planner::{
    build_replication_plan, diff_snapshot_lists, find_parent_snapshot_to, parent_snapshot_to, sync,
};
pub use crate::retention::{is_snapshot_due, plan_pruning, run_snapshot, RetentionPolicy, Tier};
