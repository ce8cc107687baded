//! The backup operation state machine and the backup audit trail.
//!
//! One backup or restore runs at a time: a second invocation while one is in
//! flight is a no-op.  The file itself is written and read by the caller;
//! the logical content travels as a `BackupImage` through the store's backup
//! and restore operations.

use vstd::prelude::*;
use crate::settings::{BackupEntry, UserSettings};

verus! {

/// Where a backup or restore operation stands.
#[derive(Debug, Clone, PartialEq, Eq, Structural)]
pub enum BackupPhase {
    Idle,
    SelectingTarget,
    InProgress,
    Completed,
    Failed,
}

/// The single in-flight guard around backup and restore.
#[derive(Debug, Clone, PartialEq, Eq, Structural)]
pub struct BackupSession {
    pub phase: BackupPhase,
}

impl BackupSession {
    /// A fresh, idle session.
    pub fn new() -> (r: BackupSession)
        ensures
            r.phase == BackupPhase::Idle,
    {
        BackupSession { phase: BackupPhase::Idle }
    }

    /// Ask to start an operation: refused without effect while one is
    /// already selecting a target or running.
    pub fn start_selecting(&mut self) -> (r: bool)
        ensures
            r == !(old(self).phase == BackupPhase::SelectingTarget || old(self).phase
                == BackupPhase::InProgress),
            r ==> final(self).phase == BackupPhase::SelectingTarget,
            !r ==> *final(self) == *old(self),
    {
        match self.phase {
            BackupPhase::SelectingTarget | BackupPhase::InProgress => false,
            _ => {
                self.phase = BackupPhase::SelectingTarget;
                true
            },
        }
    }

    /// The target is chosen; the operation proper begins.
    pub fn begin_operation(&mut self)
        requires
            old(self).phase == BackupPhase::SelectingTarget,
        ensures
            final(self).phase == BackupPhase::InProgress,
    {
        self.phase = BackupPhase::InProgress;
    }

    /// The operation ended.
    pub fn finish(&mut self, success: bool)
        requires
            old(self).phase == BackupPhase::InProgress,
        ensures
            final(self).phase == if success {
                BackupPhase::Completed
            } else {
                BackupPhase::Failed
            },
    {
        self.phase = if success {
            BackupPhase::Completed
        } else {
            BackupPhase::Failed
        };
    }

    /// Selection was abandoned, or the outcome acknowledged.
    pub fn reset(&mut self)
        ensures
            final(self).phase == BackupPhase::Idle,
    {
        self.phase = BackupPhase::Idle;
    }
}

/// Record a finished backup attempt in the audit log; a successful one also
/// becomes the last backup path.
pub fn record_backup_outcome(settings: &mut UserSettings, entry: BackupEntry)
    requires
        old(settings).wf(),
    ensures
        final(settings).wf(),
        final(settings).backup_history@ == if old(settings).backup_history@.len()
            >= crate::settings::BACKUP_HISTORY_CAP as int {
            old(settings).backup_history@.drop_first().push(entry)
        } else {
            old(settings).backup_history@.push(entry)
        },
        entry.success ==> (final(settings).last_backup_path matches Some(p) && p@
            == entry.file_path@),
        !entry.success ==> final(settings).last_backup_path == old(settings).last_backup_path,
        final(settings).hidden_categories == old(settings).hidden_categories,
        final(settings).year_filter == old(settings).year_filter,
        final(settings).auto_backup_enabled == old(settings).auto_backup_enabled,
        final(settings).auto_backup_directory == old(settings).auto_backup_directory,
        final(settings).auto_backup_encrypted == old(settings).auto_backup_encrypted,
{
    let success = entry.success;
    let path = entry.file_path.clone();
    settings.add_backup_entry(entry);
    if success {
        settings.set_last_backup_path(path);
    }
}

/// Backup/restore round trip: a store with these categories and flows,
/// backed up and then restored into a store, reproduces the same categories
/// and flows, by id and field equality.  The backup image mirrors the
/// original rows and the restored rows mirror the image, so the restored
/// rows mirror the original ones.
pub proof fn lemma_backup_restore_round_trip(
    original_cats: Seq<crate::models::Category>,
    image_cats: Seq<crate::models::Category>,
    restored_cats: Seq<crate::models::Category>,
    original_flows: Seq<crate::models::Flow>,
    image_flows: Seq<crate::models::Flow>,
    restored_flows: Seq<crate::models::Flow>,
)
    requires
        image_cats.len() == original_cats.len(),
        forall|i: int| 0 <= i < image_cats.len() ==> crate::models::cat_same(
            #[trigger] image_cats[i],
            original_cats[i],
        ),
        restored_cats.len() == image_cats.len(),
        forall|i: int| 0 <= i < restored_cats.len() ==> crate::models::cat_same(
            #[trigger] restored_cats[i],
            image_cats[i],
        ),
        image_flows.len() == original_flows.len(),
        forall|i: int| 0 <= i < image_flows.len() ==> crate::models::flow_same(
            #[trigger] image_flows[i],
            original_flows[i],
        ),
        restored_flows.len() == image_flows.len(),
        forall|i: int| 0 <= i < restored_flows.len() ==> crate::models::flow_same(
            #[trigger] restored_flows[i],
            image_flows[i],
        ),
    ensures
        restored_cats.len() == original_cats.len(),
        forall|i: int| 0 <= i < restored_cats.len() ==> crate::models::cat_same(
            #[trigger] restored_cats[i],
            original_cats[i],
        ),
        restored_flows.len() == original_flows.len(),
        forall|i: int| 0 <= i < restored_flows.len() ==> crate::models::flow_same(
            #[trigger] restored_flows[i],
            original_flows[i],
        ),
{
    assert forall|i: int| 0 <= i < restored_cats.len() implies crate::models::cat_same(
        #[trigger] restored_cats[i],
        original_cats[i],
    ) by {
        crate::models::lemma_cat_same_trans(restored_cats[i], image_cats[i], original_cats[i]);
    }
    assert forall|i: int| 0 <= i < restored_flows.len() implies crate::models::flow_same(
        #[trigger] restored_flows[i],
        original_flows[i],
    ) by {
        crate::models::lemma_flow_same_trans(restored_flows[i], image_flows[i], original_flows[i]);
    }
}

} // verus!
