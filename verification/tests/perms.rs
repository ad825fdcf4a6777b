use installer_package::error::PackageError;
use installer_package::platform::Platform;
use installer_package::perms::{
    needs_x, set_file_perms, FileMeta, Normalizer, PermsAction, PermsEvent, PermsReport,
    MODE_EXECUTABLE, MODE_PLAIN,
};

fn file(mode: u32) -> PermsEvent {
    PermsEvent::Entry(FileMeta { is_dir: false, mode })
}

fn dir(mode: u32) -> PermsEvent {
    PermsEvent::Entry(FileMeta { is_dir: true, mode })
}

#[test]
fn the_two_modes() {
    assert_eq!(MODE_EXECUTABLE, 0o755);
    assert_eq!(MODE_PLAIN, 0o644);
}

#[test]
fn needs_x_for_directories_and_owner_rwx() {
    assert!(needs_x(&FileMeta { is_dir: true, mode: 0 }));
    assert!(needs_x(&FileMeta { is_dir: false, mode: 0o700 }));
    assert!(needs_x(&FileMeta { is_dir: false, mode: 0o100755 }));
    assert!(!needs_x(&FileMeta { is_dir: false, mode: 0o600 }));
    assert!(!needs_x(&FileMeta { is_dir: false, mode: 0o500 }));
    assert!(!needs_x(&FileMeta { is_dir: false, mode: 0o077 }));
    assert!(!needs_x(&FileMeta { is_dir: false, mode: 0o100644 }));
}

#[test]
fn a_tree_gets_executable_directories_and_rwx_files() {
    let events = [dir(0o700), file(0o644), file(0o755), dir(0o000), file(0o711), file(0o666)];
    let report = set_file_perms(Platform::Unix, true, "root/rustc/share", &events);
    assert_eq!(
        report,
        PermsReport { modes: vec![0o755, 0o644, 0o755, 0o755, 0o755, 0o644], outcome: Ok(()) }
    );
}

#[test]
fn a_tree_under_bin_is_still_judged_entry_by_entry() {
    let events = [dir(0o755), file(0o644)];
    let report = set_file_perms(Platform::Unix, true, "root/rustc/bin/tools", &events);
    assert_eq!(report, PermsReport { modes: vec![0o755, 0o644], outcome: Ok(()) });
}

#[test]
fn a_single_file_from_bin_is_executable_whatever_its_mode() {
    for mode in [0o000, 0o644, 0o600, 0o755] {
        let report = set_file_perms(Platform::Unix, false, "root/rustc/bin/rustc", &[file(mode)]);
        assert_eq!(report, PermsReport { modes: vec![0o755], outcome: Ok(()) });
    }
}

#[test]
fn a_single_file_elsewhere_goes_by_its_mode() {
    let report = set_file_perms(Platform::Unix, false, "root/rustc/lib/a.so", &[file(0o644)]);
    assert_eq!(report, PermsReport { modes: vec![0o644], outcome: Ok(()) });
    let report = set_file_perms(Platform::Unix, false, "root/rustc/lib/a.so", &[file(0o744)]);
    assert_eq!(report, PermsReport { modes: vec![0o755], outcome: Ok(()) });
}

#[test]
fn a_failed_walk_is_a_directory_failure() {
    let events = [dir(0o755), file(0o644), PermsEvent::WalkFailed, file(0o755)];
    let report = set_file_perms(Platform::Unix, true, "root/rustc/share", &events);
    assert_eq!(
        report,
        PermsReport {
            modes: vec![0o755, 0o644],
            outcome: Err(PackageError::ComponentDirPermissionsFailed)
        }
    );
}

#[test]
fn unreadable_metadata_in_a_tree_is_a_directory_failure() {
    let events = [dir(0o755), PermsEvent::MetadataFailed];
    let report = set_file_perms(Platform::Unix, true, "root/rustc/share", &events);
    assert_eq!(
        report,
        PermsReport { modes: vec![0o755], outcome: Err(PackageError::ComponentDirPermissionsFailed) }
    );
}

#[test]
fn unreadable_metadata_of_a_single_file_is_a_file_failure() {
    let report =
        set_file_perms(Platform::Unix, false, "root/rustc/bin/rustc", &[PermsEvent::MetadataFailed]);
    assert_eq!(
        report,
        PermsReport { modes: vec![], outcome: Err(PackageError::ComponentFilePermissionsFailed) }
    );
}

#[test]
fn a_mode_that_cannot_be_set_is_a_file_failure() {
    let events = [dir(0o755), file(0o644), PermsEvent::SetModeFailed, file(0o644)];
    let report = set_file_perms(Platform::Unix, true, "root/rustc/share", &events);
    assert_eq!(
        report,
        PermsReport {
            modes: vec![0o755, 0o644],
            outcome: Err(PackageError::ComponentFilePermissionsFailed)
        }
    );
}

#[test]
fn nothing_is_set_without_execute_bits() {
    let events = [dir(0o755), file(0o644), PermsEvent::WalkFailed];
    let report = set_file_perms(Platform::Windows, true, "root/rustc/share", &events);
    assert_eq!(report, PermsReport { modes: vec![], outcome: Ok(()) });
    let report = set_file_perms(Platform::Windows, false, "root/rustc/bin/rustc", &[file(0o644)]);
    assert_eq!(report, PermsReport { modes: vec![], outcome: Ok(()) });
}

#[test]
fn an_empty_visit_sets_nothing() {
    let report = set_file_perms(Platform::Unix, true, "root/rustc/share", &[]);
    assert_eq!(report, PermsReport { modes: vec![], outcome: Ok(()) });
}

#[test]
fn the_rule_of_a_path() {
    let rule = Normalizer::new(Platform::Unix, false, "root/rustc/bin/rustc");
    assert_eq!(rule, Normalizer { active: true, walking_dir: false, from_bin: true });
    let rule = Normalizer::new(Platform::Unix, true, "root/rustc/bin/rustc");
    assert_eq!(rule, Normalizer { active: true, walking_dir: true, from_bin: false });
    let rule = Normalizer::new(Platform::Windows, false, "root/rustc/lib/x");
    assert_eq!(rule, Normalizer { active: false, walking_dir: false, from_bin: false });
}

#[test]
fn the_rule_step_by_step() {
    let rule = Normalizer::new(Platform::Unix, true, "root/rustc/share");
    assert_eq!(rule.step(dir(0o700)), PermsAction::SetMode(0o755));
    assert_eq!(rule.step(file(0o640)), PermsAction::SetMode(0o644));
    assert_eq!(
        rule.step(PermsEvent::WalkFailed),
        PermsAction::Fail(PackageError::ComponentDirPermissionsFailed)
    );
    assert_eq!(
        rule.step(PermsEvent::MetadataFailed),
        PermsAction::Fail(PackageError::ComponentDirPermissionsFailed)
    );
    assert_eq!(
        rule.step(PermsEvent::SetModeFailed),
        PermsAction::Fail(PackageError::ComponentFilePermissionsFailed)
    );
    let rule = Normalizer::new(Platform::Unix, false, "root/rustc/lib/x");
    assert_eq!(
        rule.step(PermsEvent::MetadataFailed),
        PermsAction::Fail(PackageError::ComponentFilePermissionsFailed)
    );
}
