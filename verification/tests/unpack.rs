use installer_package::error::PackageError;
use installer_package::unpack::{unpack_without_first_dir, EntryTarget, Extraction, UnpackPlan};

fn target(path: &str, check_dir: Option<&str>) -> EntryTarget {
    EntryTarget { path: path.to_string(), check_dir: check_dir.map(|d| d.to_string()) }
}

fn some(paths: &[&str]) -> Vec<Option<String>> {
    paths.iter().map(|p| Some(p.to_string())).collect()
}

#[test]
fn entries_lose_their_top_directory() {
    let plan = unpack_without_first_dir("destination", &some(&["pkg-1.0-x86/bin/tool"]));
    assert_eq!(
        plan,
        UnpackPlan {
            targets: vec![target("destination/bin/tool", Some("destination/bin"))],
            outcome: Ok(()),
        }
    );
}

#[test]
fn deep_entries_keep_all_but_the_top_directory() {
    let plan = unpack_without_first_dir("d", &some(&["top/a/b/c/d/e/f.txt"]));
    assert_eq!(plan.targets, vec![target("d/a/b/c/d/e/f.txt", Some("d/a/b/c/d/e"))]);
    assert_eq!(plan.outcome, Ok(()));
}

#[test]
fn a_shared_directory_is_checked_once() {
    let paths = some(&[
        "pkg/bin/a",
        "pkg/bin/b",
        "pkg/lib/x",
        "pkg/bin/c",
        "pkg/lib/y",
        "pkg/bin/sub/d",
        "pkg/bin/e",
    ]);
    let plan = unpack_without_first_dir("dest", &paths);
    assert_eq!(
        plan,
        UnpackPlan {
            targets: vec![
                target("dest/bin/a", Some("dest/bin")),
                target("dest/bin/b", None),
                target("dest/lib/x", Some("dest/lib")),
                target("dest/bin/c", None),
                target("dest/lib/y", None),
                target("dest/bin/sub/d", Some("dest/bin/sub")),
                target("dest/bin/e", None),
            ],
            outcome: Ok(()),
        }
    );
}

#[test]
fn unpacking_again_checks_each_directory_once_again() {
    let paths = some(&["pkg/bin/a", "pkg/bin/b", "pkg/bin/c"]);
    let first = unpack_without_first_dir("dest", &paths);
    let second = unpack_without_first_dir("dest", &paths);
    assert_eq!(first, second);
    let checks: Vec<&EntryTarget> =
        second.targets.iter().filter(|t| t.check_dir.is_some()).collect();
    assert_eq!(checks.len(), 1);
    assert_eq!(checks[0].check_dir, Some("dest/bin".to_string()));
}

#[test]
fn the_top_directory_itself_goes_to_the_destination() {
    let plan = unpack_without_first_dir("/tmp/scratch", &some(&["pkg/", "pkg/components"]));
    assert_eq!(
        plan.targets,
        vec![
            target("/tmp/scratch/", Some("/tmp")),
            target("/tmp/scratch/components", Some("/tmp/scratch")),
        ]
    );
}

#[test]
fn an_unreadable_entry_fails_the_unpacking() {
    let paths = vec![Some("pkg/bin/a".to_string()), None, Some("pkg/bin/b".to_string())];
    let plan = unpack_without_first_dir("dest", &paths);
    assert_eq!(
        plan,
        UnpackPlan {
            targets: vec![target("dest/bin/a", Some("dest/bin"))],
            outcome: Err(PackageError::ExtractingPackage),
        }
    );
}

#[test]
fn an_empty_archive_unpacks_to_nothing() {
    let plan = unpack_without_first_dir("dest", &[]);
    assert_eq!(plan, UnpackPlan { targets: vec![], outcome: Ok(()) });
}

#[test]
fn entries_are_placed_one_by_one() {
    let mut unpacking = Extraction::new("dest".to_string());
    assert_eq!(unpacking.place("pkg/bin/a"), target("dest/bin/a", Some("dest/bin")));
    assert_eq!(unpacking.place("pkg/bin/b"), target("dest/bin/b", None));
    assert_eq!(unpacking.place("other/bin/c"), target("dest/bin/c", None));
    assert_eq!(unpacking.place("pkg/d"), target("dest/d", Some("dest")));
    assert_eq!(unpacking.place("pkg/e"), target("dest/e", None));
}
