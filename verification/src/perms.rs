//! Permission normalisation. Packages cannot be trusted to carry the right
//! mode bits, so every installed entry gets one of two modes: directories
//! and files that their owner may read, write and execute become
//! executable, and so does a file installed from a `bin` directory; every
//! other file becomes plain.

use crate::error::{PackageError, PackageErrorView};
use crate::path::{in_bin, in_bin_directory};
use crate::platform::Platform;
use vstd::prelude::*;

verus! {

/// The mode of directories and executables: `rwxr-xr-x`.
pub const MODE_EXECUTABLE: u32 = 0o755;

/// The mode of every other file: `rw-r--r--`.
pub const MODE_PLAIN: u32 = 0o644;

/// The bits by which the owner may read, write and execute.
pub const OWNER_RWX: u32 = 0o700;

/// What normalisation reads of an entry's metadata.
#[derive(Debug, Clone, Copy, PartialEq, Eq, Structural)]
pub struct FileMeta {
    pub is_dir: bool,
    pub mode: u32,
}

/// What happened while the installed path was visited.
#[derive(Debug, Clone, Copy, PartialEq, Eq, Structural)]
pub enum PermsEvent {
    /// An entry was reached, with this metadata.
    Entry(FileMeta),
    /// The walk could not go on.
    WalkFailed,
    /// The metadata of an entry could not be read.
    MetadataFailed,
    /// The mode asked for the previous entry could not be set.
    SetModeFailed,
}

/// What to do about an event.
#[derive(Debug, PartialEq, Eq)]
pub enum PermsAction {
    /// Set this mode on the entry.
    SetMode(u32),
    /// Give up with this error.
    Fail(PackageError),
}

/// The modes that a normalisation set, in the order of the entries, and how
/// it ended.
#[derive(Debug, PartialEq, Eq)]
pub struct PermsReport {
    pub modes: Vec<u32>,
    pub outcome: Result<(), PackageError>,
}

/// Whether an entry needs the execute bit by itself: a directory does, and
/// so does a file with all of `OWNER_RWX`.
pub open spec fn needs_execute(meta: FileMeta) -> bool {
    meta.is_dir || meta.mode & OWNER_RWX == OWNER_RWX
}

/// The mode that an entry gets; `from_bin` says that it is a single file
/// installed from a `bin` directory.
pub open spec fn mode_for(from_bin: bool, meta: FileMeta) -> u32 {
    if from_bin || needs_execute(meta) {
        MODE_EXECUTABLE
    } else {
        MODE_PLAIN
    }
}

/// The error that ends a normalisation at an event other than an entry.
pub open spec fn failure_of(walking_dir: bool, event: PermsEvent) -> PackageErrorView {
    match event {
        PermsEvent::WalkFailed => PackageErrorView::ComponentDirPermissionsFailed,
        PermsEvent::MetadataFailed => if walking_dir {
            PackageErrorView::ComponentDirPermissionsFailed
        } else {
            PackageErrorView::ComponentFilePermissionsFailed
        },
        _ => PackageErrorView::ComponentFilePermissionsFailed,
    }
}

/// The number of events from index `i` on that come before the first one
/// that is no entry.
pub open spec fn entries_before_failure(events: Seq<PermsEvent>, i: int) -> int
    decreases events.len() - i,
{
    if 0 <= i < events.len() && events[i] is Entry {
        entries_before_failure(events, i + 1)
    } else {
        i
    }
}

/// In a tree, a directory and a file that its owner may read, write and
/// execute get `0o755`, and every other file gets `0o644`. A single file
/// installed from a `bin` directory gets `0o755` whatever its mode was.
pub proof fn lemma_normalized_modes(meta: FileMeta)
    ensures
        mode_for(false, meta) == if meta.is_dir || meta.mode & 0o700 == 0o700 {
            0o755u32
        } else {
            0o644u32
        },
        mode_for(true, meta) == 0o755u32,
{
}

/// The rule by which one installed path is normalised.
#[derive(Debug, Clone, Copy, PartialEq, Eq, Structural)]
pub struct Normalizer {
    /// Whether modes are set at all.
    pub active: bool,
    /// Whether the installed path is a directory, whose tree is walked.
    pub walking_dir: bool,
    /// Whether the path is a single file installed from a `bin` directory.
    pub from_bin: bool,
}

impl Normalizer {
    /// The rule for a path installed from `src_path`; `dest_is_dir` says
    /// whether the installed path is a directory. On a platform without
    /// execute bits the rule is inactive, and nothing is to be visited.
    pub fn new(platform: Platform, dest_is_dir: bool, src_path: &str) -> (rule: Normalizer)
        ensures
            rule.active == (platform == Platform::Unix),
            rule.walking_dir == dest_is_dir,
            rule.from_bin == (!dest_is_dir && in_bin_directory(src_path@)),
    {
        let active = match platform {
            Platform::Unix => true,
            Platform::Windows => false,
        };
        Normalizer { active, walking_dir: dest_is_dir, from_bin: !dest_is_dir && in_bin(src_path) }
    }

    /// What to do about `event`: an entry gets its mode, anything else ends
    /// the normalisation.
    pub fn step(&self, event: PermsEvent) -> (action: PermsAction)
        ensures
            match event {
                PermsEvent::Entry(meta) => action == PermsAction::SetMode(
                    mode_for(self.from_bin, meta),
                ),
                _ => action matches PermsAction::Fail(e) && e@ == failure_of(
                    self.walking_dir,
                    event,
                ),
            },
    {
        match event {
            PermsEvent::Entry(meta) => {
                if self.from_bin || needs_x(&meta) {
                    PermsAction::SetMode(MODE_EXECUTABLE)
                } else {
                    PermsAction::SetMode(MODE_PLAIN)
                }
            },
            PermsEvent::WalkFailed => PermsAction::Fail(
                PackageError::ComponentDirPermissionsFailed,
            ),
            PermsEvent::MetadataFailed => {
                if self.walking_dir {
                    PermsAction::Fail(PackageError::ComponentDirPermissionsFailed)
                } else {
                    PermsAction::Fail(PackageError::ComponentFilePermissionsFailed)
                }
            },
            PermsEvent::SetModeFailed => PermsAction::Fail(
                PackageError::ComponentFilePermissionsFailed,
            ),
        }
    }
}

/// Whether an entry needs the execute bit by itself.
pub fn needs_x(meta: &FileMeta) -> (b: bool)
    ensures
        b == needs_execute(*meta),
{
    meta.is_dir || meta.mode & OWNER_RWX == OWNER_RWX
}

/// Normalises the permissions of a path installed from `src_path`, given
/// what visiting it brought: the path itself where it is a file, every
/// entry of its tree where it is a directory (`dest_is_dir`). Each entry up
/// to the first event that is no entry gets its mode, and that event
/// decides the error. Without execute bits on the platform nothing is set.
pub fn set_file_perms(
    platform: Platform,
    dest_is_dir: bool,
    src_path: &str,
    events: &[PermsEvent],
) -> (report: PermsReport)
    ensures
        platform == Platform::Windows ==> report.modes@.len() == 0 && report.outcome is Ok,
        platform == Platform::Unix ==> {
            let k = entries_before_failure(events@, 0);
            let from_bin = !dest_is_dir && in_bin_directory(src_path@);
            &&& 0 <= k <= events@.len()
            &&& report.modes@.len() == k
            &&& forall|i: int|
                0 <= i < k ==> (#[trigger] events@[i] matches PermsEvent::Entry(meta)
                    && report.modes@[i] == mode_for(from_bin, meta))
            &&& k == events@.len() ==> report.outcome is Ok
            &&& k < events@.len() ==> (report.outcome matches Err(e) && e@ == failure_of(
                dest_is_dir,
                events@[k],
            ))
        },
{
    let rule = Normalizer::new(platform, dest_is_dir, src_path);
    let mut modes: Vec<u32> = Vec::new();
    if !rule.active {
        return PermsReport { modes, outcome: Ok(()) };
    }
    let mut i: usize = 0;
    while i < events.len()
        invariant
            i <= events@.len(),
            platform == Platform::Unix,
            rule.walking_dir == dest_is_dir,
            rule.from_bin == (!dest_is_dir && in_bin_directory(src_path@)),
            entries_before_failure(events@, 0) == entries_before_failure(events@, i as int),
            modes@.len() == i,
            forall|j: int|
                0 <= j < i ==> (#[trigger] events@[j] matches PermsEvent::Entry(meta) && modes@[j]
                    == mode_for(rule.from_bin, meta)),
        decreases events@.len() - i,
    {
        match rule.step(events[i]) {
            PermsAction::SetMode(mode) => {
                modes.push(mode);
            },
            PermsAction::Fail(e) => {
                return PermsReport { modes, outcome: Err(e) };
            },
        }
        i += 1;
    }
    PermsReport { modes, outcome: Ok(()) }
}

} // verus!
