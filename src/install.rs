//! Installing a staged executable over the running one by renames, as a state
//! machine: the caller performs each file-system operation it asks for and reports
//! whether it succeeded.
use vstd::prelude::*;

verus! {

/// A file-system operation of the installation. "Running" is the path of the
/// running executable, "staged" the sibling holding the new one, "backup" the
/// sibling that receives the old one.
#[derive(Debug, Clone, Copy, PartialEq, Eq, Structural)]
pub enum InstallOp {
    /// Report whether a backup left by an earlier interrupted run exists.
    ProbeBackup,
    /// Delete that stale backup.
    RemoveStaleBackup,
    /// Rename running to backup.
    MoveRunningToBackup,
    /// Rename staged to running.
    MoveStagedToRunning,
    /// Delete the backup once the new executable is in place.
    RemoveBackup,
    /// Rename backup to running, after the new executable could not be moved in.
    RestoreBackup,
}

/// Where an installation stands.
#[derive(Debug, Clone, Copy, PartialEq, Eq, Structural)]
pub enum InstallState {
    Probing,
    ClearingBackup,
    MovingRunning,
    MovingStaged,
    CleaningUp,
    RollingBack,
    Installed,
    /// Stopped; holds the operation whose failure stopped it.
    Failed(InstallOp),
}

/// The operation that a state asks the caller to perform; none in a final state.
pub open spec fn pending_spec(s: InstallState) -> Option<InstallOp> {
    match s {
        InstallState::Probing => Some(InstallOp::ProbeBackup),
        InstallState::ClearingBackup => Some(InstallOp::RemoveStaleBackup),
        InstallState::MovingRunning => Some(InstallOp::MoveRunningToBackup),
        InstallState::MovingStaged => Some(InstallOp::MoveStagedToRunning),
        InstallState::CleaningUp => Some(InstallOp::RemoveBackup),
        InstallState::RollingBack => Some(InstallOp::RestoreBackup),
        InstallState::Installed => None,
        InstallState::Failed(_) => None,
    }
}

/// The next state, given whether the pending operation succeeded (for the probe:
/// whether a backup exists). A failed backup removal after the new executable is in
/// place still ends installed; a failed move of the new executable rolls back.
pub open spec fn step_spec(s: InstallState, ok: bool) -> InstallState {
    match s {
        InstallState::Probing => if ok {
            InstallState::ClearingBackup
        } else {
            InstallState::MovingRunning
        },
        InstallState::ClearingBackup => if ok {
            InstallState::MovingRunning
        } else {
            InstallState::Failed(InstallOp::RemoveStaleBackup)
        },
        InstallState::MovingRunning => if ok {
            InstallState::MovingStaged
        } else {
            InstallState::Failed(InstallOp::MoveRunningToBackup)
        },
        InstallState::MovingStaged => if ok {
            InstallState::CleaningUp
        } else {
            InstallState::RollingBack
        },
        InstallState::CleaningUp => InstallState::Installed,
        InstallState::RollingBack => InstallState::Failed(InstallOp::MoveStagedToRunning),
        InstallState::Installed => InstallState::Installed,
        InstallState::Failed(op) => InstallState::Failed(op),
    }
}

/// The state an installation starts in.
pub fn install_start() -> (r: InstallState)
    ensures
        r == InstallState::Probing,
{
    InstallState::Probing
}

/// The operation the caller must perform next, or `None` once finished.
pub fn install_pending(s: InstallState) -> (r: Option<InstallOp>)
    ensures
        r == pending_spec(s),
{
    match s {
        InstallState::Probing => Some(InstallOp::ProbeBackup),
        InstallState::ClearingBackup => Some(InstallOp::RemoveStaleBackup),
        InstallState::MovingRunning => Some(InstallOp::MoveRunningToBackup),
        InstallState::MovingStaged => Some(InstallOp::MoveStagedToRunning),
        InstallState::CleaningUp => Some(InstallOp::RemoveBackup),
        InstallState::RollingBack => Some(InstallOp::RestoreBackup),
        InstallState::Installed => None,
        InstallState::Failed(_) => None,
    }
}

/// Advance after the pending operation was performed; `ok` tells whether it
/// succeeded (for the probe: whether a backup exists).
pub fn install_step(s: InstallState, ok: bool) -> (r: InstallState)
    ensures
        r == step_spec(s, ok),
{
    match s {
        InstallState::Probing => if ok {
            InstallState::ClearingBackup
        } else {
            InstallState::MovingRunning
        },
        InstallState::ClearingBackup => if ok {
            InstallState::MovingRunning
        } else {
            InstallState::Failed(InstallOp::RemoveStaleBackup)
        },
        InstallState::MovingRunning => if ok {
            InstallState::MovingStaged
        } else {
            InstallState::Failed(InstallOp::MoveRunningToBackup)
        },
        InstallState::MovingStaged => if ok {
            InstallState::CleaningUp
        } else {
            InstallState::RollingBack
        },
        InstallState::CleaningUp => InstallState::Installed,
        InstallState::RollingBack => InstallState::Failed(InstallOp::MoveStagedToRunning),
        InstallState::Installed => InstallState::Installed,
        InstallState::Failed(op) => InstallState::Failed(op),
    }
}

/// The three paths as a model: which executable (by an identifying number) each
/// one holds, if any.
pub struct Disk {
    pub running: Option<int>,
    pub staged: Option<int>,
    pub backup: Option<int>,
}

/// The disk after an operation; a failed operation, and the probe, change nothing.
pub open spec fn disk_after(d: Disk, op: InstallOp, ok: bool) -> Disk {
    if !ok {
        d
    } else {
        match op {
            InstallOp::ProbeBackup => d,
            InstallOp::RemoveStaleBackup => Disk { backup: None, ..d },
            InstallOp::RemoveBackup => Disk { backup: None, ..d },
            InstallOp::MoveRunningToBackup => Disk { backup: d.running, running: None, ..d },
            InstallOp::MoveStagedToRunning => Disk { running: d.staged, staged: None, ..d },
            InstallOp::RestoreBackup => Disk { running: d.backup, backup: None, ..d },
        }
    }
}

/// What each state guarantees of the disk, for the old executable `old` and the
/// new one `new`. Whatever happens, the old executable is never lost: once stopped
/// by a failure it is at the running path, or at the backup path where even the
/// rollback failed.
pub open spec fn install_safe(s: InstallState, d: Disk, old: int, new: int) -> bool {
    match s {
        InstallState::Probing => d.running == Some(old) && d.staged == Some(new),
        InstallState::ClearingBackup => d.running == Some(old) && d.staged == Some(new),
        InstallState::MovingRunning => d.running == Some(old) && d.staged == Some(new),
        InstallState::MovingStaged => d.running is None && d.backup == Some(old) && d.staged
            == Some(new),
        InstallState::CleaningUp => d.running == Some(new) && d.staged is None,
        InstallState::RollingBack => d.running is None && d.backup == Some(old),
        InstallState::Installed => d.running == Some(new) && d.staged is None,
        InstallState::Failed(_) => d.running == Some(old) || (d.running is None && d.backup == Some(
            old,
        )),
    }
}

pub open spec fn disk_next(s: InstallState, d: Disk, ok: bool) -> Disk {
    match pending_spec(s) {
        Some(op) => disk_after(d, op, ok),
        None => d,
    }
}

/// Every step keeps the installation safe, whichever operations fail: the
/// guarantee of each state carries over to the next one.
pub proof fn lemma_install_step_safe(s: InstallState, d: Disk, old: int, new: int, ok: bool)
    requires
        install_safe(s, d, old, new),
    ensures
        install_safe(step_spec(s, ok), disk_next(s, d, ok), old, new),
{
}

/// A failure between the two renames is rolled back: the new executable could not
/// be moved in, the old one is renamed back, and the installation stops failed on
/// that move with the old executable at the running path.
pub proof fn lemma_rollback_restores(d: Disk, old: int, new: int)
    requires
        install_safe(InstallState::MovingStaged, d, old, new),
    ensures
        step_spec(InstallState::MovingStaged, false) == InstallState::RollingBack,
        disk_next(InstallState::MovingStaged, d, false) == d,
        step_spec(InstallState::RollingBack, true) == InstallState::Failed(
            InstallOp::MoveStagedToRunning,
        ),
        disk_next(InstallState::RollingBack, d, true).running == Some(old),
{
}

/// Where every operation succeeds, the installation ends installed with the new
/// executable at the running path and neither staged nor backup file left.
pub proof fn lemma_clean_install(d: Disk, old: int, new: int)
    requires
        d.running == Some(old),
        d.staged == Some(new),
        d.backup is None,
    ensures
        ({
            let d1 = disk_next(InstallState::Probing, d, false);
            let d2 = disk_next(InstallState::MovingRunning, d1, true);
            let d3 = disk_next(InstallState::MovingStaged, d2, true);
            let d4 = disk_next(InstallState::CleaningUp, d3, true);
            &&& step_spec(InstallState::Probing, false) == InstallState::MovingRunning
            &&& step_spec(InstallState::MovingRunning, true) == InstallState::MovingStaged
            &&& step_spec(InstallState::MovingStaged, true) == InstallState::CleaningUp
            &&& step_spec(InstallState::CleaningUp, true) == InstallState::Installed
            &&& d4.running == Some(new) && d4.staged is None && d4.backup is None
        }),
{
}

} // verus!
