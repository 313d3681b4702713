use ssamd::pkg_file::{
    backup_path_of, remove_file_if_exists, FileOp, InstallAction, InstallError, InstallFlow,
    InstallMode, RemoveOutcome,
};

#[derive(Default)]
struct MockTrackingPackageFile {
    copy_fails: bool,
    rename_fails: bool,
    volume_fails: bool,
    build_fails: bool,
    copies: Vec<(String, String)>,
    renames: Vec<(String, String)>,
    removals: Vec<String>,
}

impl MockTrackingPackageFile {
    fn install(&mut self, mode: InstallMode, remove_data: bool) -> Result<(), InstallError> {
        let mut flow = InstallFlow::new(
            mode,
            "/tmp/src.ssam".to_string(),
            "/tmp/dest.ssam".to_string(),
            remove_data,
        );
        loop {
            let file_ok = match flow.file_op() {
                FileOp::Nothing => true,
                FileOp::Rename { .. } if self.rename_fails => false,
                FileOp::Rename { from, to } => {
                    self.renames.push((from, to));
                    true
                }
                FileOp::Copy { .. } if self.copy_fails => false,
                FileOp::Copy { from, to } => {
                    self.copies.push((from, to));
                    true
                }
                FileOp::Remove { path } => {
                    self.removals.push(path);
                    true
                }
            };
            let ok = match flow.action {
                InstallAction::Purge | InstallAction::Acquire => !self.volume_fails,
                InstallAction::Build => !self.build_fails,
                InstallAction::Installed => return Ok(()),
                InstallAction::Failed(e) => return Err(e),
                _ => file_ok,
            };
            flow.next(ok);
        }
    }
}

fn upgrade() -> InstallMode {
    InstallMode::UpgradeDownloaded { installed_path: "/pkg/installed.ssam".to_string() }
}

fn backed_up_and_back() -> Vec<(String, String)> {
    let installed = "/pkg/installed.ssam".to_string();
    let old = "/pkg/installed.ssam.old".to_string();
    vec![(installed.clone(), old.clone()), (old, installed)]
}

#[test]
fn test_copy_failure_returns_failed() {
    let mut ops = MockTrackingPackageFile { copy_fails: true, ..Default::default() };
    let result = ops.install(InstallMode::Fresh, false);
    assert!(result.is_err(), "expected Failed on copy error");
    assert!(ops.removals.is_empty());
}

#[test]
fn test_copy_failure_rolls_back_non_bundled_backup() {
    let mut ops = MockTrackingPackageFile { copy_fails: true, ..Default::default() };
    assert!(ops.install(upgrade(), false).is_err());
    assert_eq!(ops.renames, backed_up_and_back());
}

#[test]
fn test_copy_failure_removes_dest_for_bundled_backup() {
    let mut ops = MockTrackingPackageFile { copy_fails: true, ..Default::default() };
    assert!(ops.install(InstallMode::UpgradeBundled, false).is_err());
    assert!(ops.renames.is_empty(), "bundled backup should not rename");
    assert_eq!(ops.removals, ["/tmp/dest.ssam"]);
}

#[test]
fn test_rename_failure_returns_failed_without_copy() {
    let mut ops = MockTrackingPackageFile { rename_fails: true, ..Default::default() };
    assert!(ops.install(upgrade(), false).is_err(), "expected Failed when backup rename fails");
    assert!(ops.renames.is_empty());
    assert!(ops.removals.is_empty());
    assert!(ops.copies.is_empty());
}

#[test]
fn test_purge_failure_rolls_back_non_bundled_backup() {
    let mut ops = MockTrackingPackageFile { volume_fails: true, ..Default::default() };
    let result = ops.install(upgrade(), true);
    assert_eq!(result, Err(InstallError::Purge), "expected Failed when purge_volume fails");
    assert_eq!(ops.renames, backed_up_and_back());
}

#[test]
fn test_acquire_failure_rolls_back_non_bundled_backup() {
    let mut ops = MockTrackingPackageFile { volume_fails: true, ..Default::default() };
    let result = ops.install(upgrade(), false);
    assert_eq!(result, Err(InstallError::Acquire));
    assert_eq!(ops.renames, backed_up_and_back());
}

#[test]
fn a_package_that_cannot_be_made_is_rolled_back() {
    let mut ops = MockTrackingPackageFile { build_fails: true, ..Default::default() };
    assert_eq!(ops.install(upgrade(), false), Err(InstallError::Build));
    assert_eq!(ops.renames, backed_up_and_back());
}

#[test]
fn an_upgrade_that_succeeds_keeps_no_backup() {
    let mut ops = MockTrackingPackageFile::default();
    assert_eq!(ops.install(upgrade(), true), Ok(()));
    assert_eq!(ops.copies, [("/tmp/src.ssam".to_string(), "/tmp/dest.ssam".to_string())]);
    assert_eq!(ops.renames.len(), 1);
    assert_eq!(ops.removals, ["/pkg/installed.ssam.old"]);

    let mut ops = MockTrackingPackageFile::default();
    assert_eq!(ops.install(InstallMode::UpgradeBundled, false), Ok(()));
    assert!(ops.renames.is_empty() && ops.removals.is_empty());
}

#[test]
fn test_remove_package_file_success() {
    assert!(remove_file_if_exists(RemoveOutcome::Removed).expect("should succeed"));
}

#[test]
fn test_remove_package_file_not_found_returns_false() {
    assert!(!remove_file_if_exists(RemoveOutcome::NotFound).expect("NotFound should be Ok(false)"));
}

#[test]
fn test_remove_package_file_other_error_propagates() {
    let result = remove_file_if_exists(RemoveOutcome::Failed);
    assert!(result.is_none(), "non-NotFound errors should propagate");
}

#[test]
fn a_backup_lies_beside_its_file() {
    assert_eq!(backup_path_of("/pkg/a.ssam"), "/pkg/a.ssam.old");
    assert_eq!(backup_path_of("/pkg/a"), "/pkg/a..old");
}
