use cue::extract::extract_executable;
use cue::install::{install_pending, install_start, install_step, InstallOp, InstallState};
use cue::upgrade::{get_target, plan_upgrade, AssetDescriptor, ReleaseMetadata};
use std::io::Write;

/// In-memory stand-in for the three paths, with an operation that is made to fail.
struct FakeDisk {
    running: Option<Vec<u8>>,
    staged: Option<Vec<u8>>,
    backup: Option<Vec<u8>>,
    fail: Option<InstallOp>,
}

impl FakeDisk {
    fn perform(&mut self, op: InstallOp) -> bool {
        if self.fail == Some(op) {
            return false;
        }
        match op {
            InstallOp::ProbeBackup => self.backup.is_some(),
            InstallOp::RemoveStaleBackup | InstallOp::RemoveBackup => {
                self.backup = None;
                true
            }
            InstallOp::MoveRunningToBackup => {
                self.backup = self.running.take();
                true
            }
            InstallOp::MoveStagedToRunning => {
                self.running = self.staged.take();
                true
            }
            InstallOp::RestoreBackup => {
                self.running = self.backup.take();
                true
            }
        }
    }

    fn run(&mut self) -> (InstallState, Vec<InstallOp>) {
        let mut s = install_start();
        let mut ops = Vec::new();
        while let Some(op) = install_pending(s) {
            ops.push(op);
            let ok = self.perform(op);
            s = install_step(s, ok);
        }
        (s, ops)
    }
}

fn disk(fail: Option<InstallOp>, stale: bool) -> FakeDisk {
    FakeDisk {
        running: Some(b"old".to_vec()),
        staged: Some(b"new".to_vec()),
        backup: if stale { Some(b"stale".to_vec()) } else { None },
        fail,
    }
}

#[test]
fn clean_install_replaces_running() {
    let mut d = disk(None, false);
    let (s, ops) = d.run();
    assert_eq!(s, InstallState::Installed);
    assert_eq!(
        ops,
        vec![
            InstallOp::ProbeBackup,
            InstallOp::MoveRunningToBackup,
            InstallOp::MoveStagedToRunning,
            InstallOp::RemoveBackup
        ]
    );
    assert_eq!(d.running, Some(b"new".to_vec()));
    assert!(d.staged.is_none() && d.backup.is_none());
}

#[test]
fn stale_backup_is_removed_first() {
    let mut d = disk(None, true);
    let (s, ops) = d.run();
    assert_eq!(s, InstallState::Installed);
    assert_eq!(ops[1], InstallOp::RemoveStaleBackup);
    assert!(d.backup.is_none());
}

#[test]
fn failure_between_renames_rolls_back() {
    let mut d = disk(Some(InstallOp::MoveStagedToRunning), false);
    let (s, ops) = d.run();
    assert_eq!(s, InstallState::Failed(InstallOp::MoveStagedToRunning));
    assert_eq!(*ops.last().unwrap(), InstallOp::RestoreBackup);
    assert_eq!(d.running, Some(b"old".to_vec()));
}

#[test]
fn failure_of_first_rename_moves_nothing() {
    let mut d = disk(Some(InstallOp::MoveRunningToBackup), false);
    let (s, _) = d.run();
    assert_eq!(s, InstallState::Failed(InstallOp::MoveRunningToBackup));
    assert_eq!(d.running, Some(b"old".to_vec()));
    assert_eq!(d.staged, Some(b"new".to_vec()));
}

#[test]
fn failed_backup_cleanup_still_installs() {
    let mut d = disk(Some(InstallOp::RemoveBackup), false);
    let (s, _) = d.run();
    assert_eq!(s, InstallState::Installed);
    assert_eq!(d.running, Some(b"new".to_vec()));
}

#[test]
fn end_to_end_upgrade() {
    let target = get_target("x86_64", "linux");
    let release = ReleaseMetadata {
        tag_name: "v1.1.0".to_string(),
        assets: vec![AssetDescriptor {
            name: "cue-v1.1.0-x86_64-unknown-linux-gnu.tar.gz".to_string(),
            browser_download_url: "https://example.invalid/cue.tar.gz".to_string(),
        }],
    };
    let plan = plan_upgrade("1.0.0", &release, &target).unwrap();
    assert!(plan.info.has_update);
    assert_eq!(plan.info.current.minor(), 0);
    assert_eq!(plan.info.latest.minor(), 1);
    assert_eq!(plan.download_url.as_deref(), Some("https://example.invalid/cue.tar.gz"));

    let mut builder = tar::Builder::new(Vec::new());
    let mut header = tar::Header::new_gnu();
    header.set_size(10);
    header.set_mode(0o755);
    header.set_cksum();
    builder.append_data(&mut header, "cue", &b"new binary"[..]).unwrap();
    let mut enc = flate2::write::GzEncoder::new(Vec::new(), flate2::Compression::default());
    enc.write_all(&builder.into_inner().unwrap()).unwrap();
    let payload = extract_executable(&enc.finish().unwrap()).unwrap();

    let mut d = FakeDisk {
        running: Some(b"old binary".to_vec()),
        staged: Some(payload),
        backup: None,
        fail: None,
    };
    let (s, _) = d.run();
    assert_eq!(s, InstallState::Installed);
    assert_eq!(d.running, Some(b"new binary".to_vec()));
    assert!(d.staged.is_none() && d.backup.is_none());
}

#[test]
fn outcome_of_finished_installation() {
    let r = ReleaseMetadata { tag_name: "v2.0.0".to_string(), assets: vec![] };
    let info = cue::upgrade::assess_release("1.0.0", &r).unwrap();
    let ok = cue::upgrade::install_outcome(InstallState::Installed, info).unwrap();
    assert!(ok.has_update);
    let info = cue::upgrade::assess_release("1.0.0", &r).unwrap();
    match cue::upgrade::install_outcome(
        InstallState::Failed(InstallOp::MoveStagedToRunning),
        info,
    ) {
        Err(cue::upgrade::UpgradeError::Install(op)) => {
            assert_eq!(op, InstallOp::MoveStagedToRunning)
        }
        _ => panic!("expected Install error"),
    }
}
