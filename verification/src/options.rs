//! What the operations on snapshots are told.

use vstd::prelude::*;
use crate::location::{text_of, LocationView, SnapshotRepositoryLocation};

verus! {

/// What taking a snapshot is told.
#[derive(Debug, Default, PartialEq, Eq)]
pub struct SnapshotOpts {
    pub src: String,
    pub name: String,
    pub suffix: Option<String>,
    pub sudo: bool,
    pub dry_run: bool,
    pub verbose: i32,
}

/// What bringing a destination up to date is told.
#[derive(Debug, Default, PartialEq, Eq)]
pub struct SyncOpts {
    pub name: String,
    pub src: String,
    pub src_sudo: bool,
    pub src_suffix: String,
    pub dst: String,
    pub dst_sudo: bool,
    pub dst_suffix: String,
    pub dry_run: bool,
    pub verbose: i32,
}

/// What sending one snapshot is told.
#[derive(Debug, Default, PartialEq, Eq)]
pub struct TransferOpts {
    pub parent_snapshot: Option<String>,
    pub snapshot: String,
    pub src: SnapshotRepositoryLocation,
    pub src_sudo: bool,
    pub dst: SnapshotRepositoryLocation,
    pub dst_sudo: bool,
    pub dry_run: bool,
    pub verbose: i32,
}

/// What restoring a volume from a snapshot is told.
#[derive(Debug, Default, PartialEq, Eq)]
pub struct RestoreOpts {
    pub src: String,
    pub dst: String,
    pub name: String,
    pub suffix: Option<String>,
    pub sudo: bool,
    pub dry_run: bool,
    pub verbose: i32,
}

/// What listing the snapshots of a volume is told.
#[derive(Debug, Default, PartialEq, Eq)]
pub struct ListOpts {
    pub name: String,
    pub path: String,
    pub sudo: bool,
    pub verbose: i32,
    pub suffix: String,
}

/// What a pass over all configured volumes is told.
#[derive(Debug, Default, PartialEq, Eq)]
pub struct RunOpts {
    pub dry_run: bool,
    pub verbose: i32,
}

/// What taking a snapshot is told, as plain values.
pub struct SnapshotOptsView {
    pub src: Seq<char>,
    pub name: Seq<char>,
    pub suffix: Option<Seq<char>>,
    pub sudo: bool,
    pub dry_run: bool,
    pub verbose: i32,
}

impl View for SnapshotOpts {
    type V = SnapshotOptsView;

    open spec fn view(&self) -> SnapshotOptsView {
        SnapshotOptsView {
            src: self.src@,
            name: self.name@,
            suffix: text_of(self.suffix),
            sudo: self.sudo,
            dry_run: self.dry_run,
            verbose: self.verbose,
        }
    }
}

/// What sending one snapshot is told, as plain values.
pub struct TransferOptsView {
    pub parent_snapshot: Option<Seq<char>>,
    pub snapshot: Seq<char>,
    pub src: LocationView,
    pub src_sudo: bool,
    pub dst: LocationView,
    pub dst_sudo: bool,
    pub dry_run: bool,
    pub verbose: i32,
}

impl View for TransferOpts {
    type V = TransferOptsView;

    open spec fn view(&self) -> TransferOptsView {
        TransferOptsView {
            parent_snapshot: text_of(self.parent_snapshot),
            snapshot: self.snapshot@,
            src: self.src@,
            src_sudo: self.src_sudo,
            dst: self.dst@,
            dst_sudo: self.dst_sudo,
            dry_run: self.dry_run,
            verbose: self.verbose,
        }
    }
}

} // verus!
