//! Unpacking an archive into a directory. Every entry of the archive lies
//! below one top directory that must not appear in what is unpacked: an
//! entry goes to the destination joined with its path without the first
//! component. The directory that will hold an entry is checked, and created
//! if it is missing, before the first entry that goes into it, and not
//! again.

use crate::error::{PackageError, PackageErrorView};
use crate::path::{join, joined, parent, parent_of, strip_first_component, without_first_component};
use crate::text::holds;
use vstd::prelude::*;

verus! {

/// Where an entry is unpacked, and the directory to check first: to create
/// if it does not exist. `check_dir` is `None` where the directory was
/// checked for an earlier entry, or where the path has none above it.
#[derive(Debug, PartialEq, Eq)]
pub struct EntryTarget {
    pub path: String,
    pub check_dir: Option<String>,
}

/// An `EntryTarget` with its paths as sequences of characters.
pub struct EntryTargetView {
    pub path: Seq<char>,
    pub check_dir: Option<Seq<char>>,
}

impl View for EntryTarget {
    type V = EntryTargetView;

    open spec fn view(&self) -> EntryTargetView {
        EntryTargetView {
            path: self.path@,
            check_dir: match self.check_dir {
                Some(dir) => Some(dir@),
                None => None,
            },
        }
    }
}

/// The targets of the entries that are unpacked, in order, and how the
/// unpacking ends: with `Ok`, or with the error of the first entry that
/// cannot be read.
#[derive(Debug, PartialEq, Eq)]
pub struct UnpackPlan {
    pub targets: Vec<EntryTarget>,
    pub outcome: Result<(), PackageError>,
}

/// The path at which the entry recorded as `entry` is unpacked below
/// `dest`.
pub open spec fn target_path(dest: Seq<char>, entry: Seq<char>) -> Seq<char> {
    joined(dest, without_first_component(entry))
}

/// The directory that holds what the entry recorded as `entry` unpacks to.
pub open spec fn target_dir(dest: Seq<char>, entry: Seq<char>) -> Option<Seq<char>> {
    parent_of(target_path(dest, entry))
}

/// The directories that hold the targets of the first `n` entries.
pub open spec fn dirs_checked(dest: Seq<char>, entries: Seq<Seq<char>>, n: int) -> Set<Seq<char>> {
    Set::new(|dir: Seq<char>| exists|j: int| 0 <= j < n && target_dir(dest, #[trigger] entries[j]) == Some(dir))
}

/// The directory to check before entry `i` is unpacked: the one that holds
/// its target, unless it holds the target of an earlier entry too.
pub open spec fn dir_to_check(dest: Seq<char>, entries: Seq<Seq<char>>, i: int) -> Option<Seq<char>> {
    match target_dir(dest, entries[i]) {
        Some(dir) => if dirs_checked(dest, entries, i).contains(dir) {
            None
        } else {
            Some(dir)
        },
        None => None,
    }
}

/// The target of entry `i`.
pub open spec fn planned_target(dest: Seq<char>, entries: Seq<Seq<char>>, i: int) -> EntryTargetView {
    EntryTargetView { path: target_path(dest, entries[i]), check_dir: dir_to_check(dest, entries, i) }
}

/// The index of the first path from index `i` on that could not be read, or
/// the number of paths.
pub open spec fn readable_before_failure(paths: Seq<Option<Seq<char>>>, i: int) -> int
    decreases paths.len() - i,
{
    if 0 <= i < paths.len() && paths[i] is Some {
        readable_before_failure(paths, i + 1)
    } else {
        i
    }
}

/// Up to `readable_before_failure` every path could be read, and the one
/// there, if there is one, could not.
pub proof fn lemma_readable_before_failure(paths: Seq<Option<Seq<char>>>, i: int)
    requires
        0 <= i <= paths.len(),
    ensures
        i <= readable_before_failure(paths, i) <= paths.len(),
        forall|j: int| i <= j < readable_before_failure(paths, i) ==> #[trigger] paths[j] is Some,
        readable_before_failure(paths, i) < paths.len() ==> paths[readable_before_failure(
            paths,
            i,
        )] is None,
    decreases paths.len() - i,
{
    if i < paths.len() && paths[i] is Some {
        lemma_readable_before_failure(paths, i + 1);
    }
}

/// The paths as sequences of characters.
pub open spec fn path_texts(paths: Seq<Option<String>>) -> Seq<Option<Seq<char>>> {
    Seq::new(
        paths.len(),
        |i: int|
            match paths[i] {
                Some(p) => Some(p@),
                None => None,
            },
    )
}

/// The unpacking of an archive whose entries have the recorded paths
/// `paths`, in order; `None` stands for an entry that cannot be read, or
/// whose path cannot. Every entry before the first such one is unpacked to
/// its target, and such an entry fails the unpacking.
pub open spec fn planned_unpack(dest: Seq<char>, paths: Seq<Option<Seq<char>>>) -> (
    Seq<EntryTargetView>,
    Result<(), PackageErrorView>,
) {
    let k = readable_before_failure(paths, 0);
    let entries = Seq::new(k as nat, |i: int| paths[i]->0);
    (
        Seq::new(k as nat, |i: int| planned_target(dest, entries, i)),
        if k < paths.len() {
            Err(PackageErrorView::ExtractingPackage)
        } else {
            Ok(())
        },
    )
}

/// The state of one unpacking: the destination, and the directories that
/// were handed out to be checked.
#[derive(Debug)]
pub struct Extraction {
    dest: String,
    checked_parents: Vec<String>,
}

impl Extraction {
    /// The directory into which the archive is unpacked.
    pub closed spec fn destination(&self) -> Seq<char> {
        self.dest@
    }

    /// The directories that need no further check.
    pub closed spec fn checked(&self) -> Set<Seq<char>> {
        self.checked_parents.deep_view().to_set()
    }

    /// An unpacking into `dest` in which no directory was checked yet.
    pub fn new(dest: String) -> (unpacking: Extraction)
        ensures
            unpacking.destination() == dest@,
            unpacking.checked() == Set::<Seq<char>>::empty(),
    {
        let unpacking = Extraction { dest, checked_parents: Vec::new() };
        assert(unpacking.checked() =~= Set::<Seq<char>>::empty());
        unpacking
    }

    /// Where the entry recorded as `entry_path` is unpacked. The directory
    /// that holds the target is handed out to be checked unless it was
    /// before, and needs no check from now on.
    pub fn place(&mut self, entry_path: &str) -> (target: EntryTarget)
        ensures
            final(self).destination() == old(self).destination(),
            target@.path == target_path(old(self).destination(), entry_path@),
            match target_dir(old(self).destination(), entry_path@) {
                Some(dir) => {
                    &&& final(self).checked() == old(self).checked().insert(dir)
                    &&& target@.check_dir == if old(self).checked().contains(dir) {
                        None
                    } else {
                        Some(dir)
                    }
                },
                None => final(self).checked() == old(self).checked() && target@.check_dir is None,
            },
    {
        let rest = strip_first_component(entry_path);
        let path = join(self.dest.as_str(), rest.as_str());
        let check_dir = match parent(path.as_str()) {
            Some(dir) => {
                if holds(&self.checked_parents, dir.as_str()) {
                    assert(self.checked() =~= old(self).checked().insert(dir@));
                    None
                } else {
                    let ghost before = self.checked_parents.deep_view();
                    self.checked_parents.push(dir.clone());
                    proof {
                        let after = self.checked_parents.deep_view();
                        assert(after == before.push(dir@));
                        assert forall|d: Seq<char>| after.contains(d) <==> before.contains(d) || d
                            == dir@ by {
                            if before.contains(d) {
                                let k = choose|k: int| 0 <= k < before.len() && before[k] == d;
                                assert(after[k] == d);
                            }
                            if d == dir@ {
                                assert(after[before.len() as int] == d);
                            }
                        }
                        assert(self.checked() =~= old(self).checked().insert(dir@));
                    }
                    Some(dir)
                }
            },
            None => None,
        };
        EntryTarget { path, check_dir }
    }
}

/// Plans the unpacking into `dest` of an archive whose entries have the
/// recorded paths `paths`, in order; `None` stands for an entry that cannot
/// be read, or whose path cannot.
pub fn unpack_without_first_dir(dest: &str, paths: &[Option<String>]) -> (plan: UnpackPlan)
    ensures
        Seq::new(plan.targets@.len(), |i: int| plan.targets@[i]@) == planned_unpack(
            dest@,
            path_texts(paths@),
        ).0,
        match plan.outcome {
            Ok(_) => planned_unpack(dest@, path_texts(paths@)).1 is Ok,
            Err(e) => planned_unpack(dest@, path_texts(paths@)).1 == Err::<(), _>(e@),
        },
{
    let mut unpacking = Extraction::new(dest.to_owned());
    let mut targets: Vec<EntryTarget> = Vec::new();
    let ghost texts = path_texts(paths@);
    let ghost k = readable_before_failure(texts, 0);
    let ghost entries = Seq::new(k as nat, |i: int| texts[i]->0);
    proof {
        lemma_readable_before_failure(texts, 0);
        assert(unpacking.checked() =~= dirs_checked(dest@, entries, 0));
    }
    let mut n: usize = 0;
    while n < paths.len()
        invariant
            n <= paths@.len(),
            texts == path_texts(paths@),
            k == readable_before_failure(texts, 0),
            k == readable_before_failure(texts, n as int),
            n <= k <= texts.len(),
            entries == Seq::new(k as nat, |i: int| texts[i]->0),
            unpacking.destination() == dest@,
            unpacking.checked() == dirs_checked(dest@, entries, n as int),
            targets@.len() == n,
            forall|m: int| 0 <= m < n ==> (#[trigger] targets@[m])@ == planned_target(dest@, entries, m),
        decreases paths@.len() - n,
    {
        match &paths[n] {
            Some(entry_path) => {
                assert(texts[n as int] == Some(entry_path@));
                proof {
                    lemma_readable_before_failure(texts, n + 1);
                }
                assert(entries[n as int] == entry_path@);
                let ghost before = unpacking.checked();
                let target = unpacking.place(entry_path.as_str());
                proof {
                    let dir = target_dir(dest@, entry_path@);
                    assert forall|d: Seq<char>|
                        dirs_checked(dest@, entries, n + 1).contains(d) <==> dirs_checked(
                            dest@,
                            entries,
                            n as int,
                        ).contains(d) || dir == Some(d) by {
                        if dirs_checked(dest@, entries, n + 1).contains(d) {
                            let j = choose|j: int|
                                0 <= j < n + 1 && target_dir(dest@, #[trigger] entries[j]) == Some(d);
                            if j < n {
                                assert(dirs_checked(dest@, entries, n as int).contains(d));
                            }
                        }
                        if dirs_checked(dest@, entries, n as int).contains(d) {
                            let j = choose|j: int|
                                0 <= j < n && target_dir(dest@, #[trigger] entries[j]) == Some(d);
                            assert(0 <= j < n + 1);
                        }
                        if dir == Some(d) {
                            assert(target_dir(dest@, entries[n as int]) == Some(d));
                        }
                    }
                    assert(unpacking.checked() =~= dirs_checked(dest@, entries, n + 1));
                }
                targets.push(target);
            },
            None => {
                assert(texts[n as int] is None);
                let plan = UnpackPlan { targets, outcome: Err(PackageError::ExtractingPackage) };
                assert(Seq::new(plan.targets@.len(), |i: int| plan.targets@[i]@) =~= planned_unpack(
                    dest@,
                    texts,
                ).0);
                return plan;
            },
        }
        n += 1;
    }
    let plan = UnpackPlan { targets, outcome: Ok(()) };
    assert(Seq::new(plan.targets@.len(), |i: int| plan.targets@[i]@) =~= planned_unpack(
        dest@,
        texts,
    ).0);
    plan
}

/// No directory is handed out to be checked twice.
pub proof fn lemma_each_dir_checked_once(dest: Seq<char>, entries: Seq<Seq<char>>, i: int, j: int)
    requires
        0 <= i < j < entries.len(),
        dir_to_check(dest, entries, i) is Some,
    ensures
        dir_to_check(dest, entries, j) != dir_to_check(dest, entries, i),
{
    let dir = dir_to_check(dest, entries, i)->0;
    assert(target_dir(dest, entries[i]) == Some(dir));
    assert(dirs_checked(dest, entries, j).contains(dir));
}

/// The directory that holds the target of an entry is handed out to be
/// checked with that entry or with an earlier one.
pub proof fn lemma_dir_checked_before_unpack(dest: Seq<char>, entries: Seq<Seq<char>>, i: int)
    requires
        0 <= i < entries.len(),
        target_dir(dest, entries[i]) is Some,
    ensures
        exists|j: int| 0 <= j <= i && dir_to_check(dest, entries, j) == target_dir(dest, entries[i]),
    decreases i,
{
    let dir = target_dir(dest, entries[i])->0;
    if dirs_checked(dest, entries, i).contains(dir) {
        let earlier = choose|e: int| 0 <= e < i && target_dir(dest, #[trigger] entries[e]) == Some(dir);
        lemma_dir_checked_before_unpack(dest, entries, earlier);
        let j = choose|j: int|
            0 <= j <= earlier && dir_to_check(dest, entries, j) == target_dir(dest, entries[earlier]);
        assert(0 <= j <= i && dir_to_check(dest, entries, j) == target_dir(dest, entries[i]));
    } else {
        assert(dir_to_check(dest, entries, i) == target_dir(dest, entries[i]));
    }
}

/// An entry that lies in a top directory is unpacked to the destination
/// joined with what follows the top directory: `top` names the top
/// directory and holds no separator, and `rest` is not empty and starts
/// with no separator.
pub proof fn lemma_top_directory_stripped(dest: Seq<char>, top: Seq<char>, rest: Seq<char>)
    requires
        forall|i: int| 0 <= i < top.len() ==> #[trigger] top[i] != '/',
        rest.len() > 0,
        rest[0] != '/',
    ensures
        without_first_component(top + seq!['/'] + rest) == rest,
        target_path(dest, top + seq!['/'] + rest) == joined(dest, rest),
{
    let p = top + seq!['/'] + rest;
    let n = top.len() as int;
    crate::path::lemma_skip_component(p, 0);
    assert(crate::path::skip_component(p, 0) == n) by {
        let k = crate::path::skip_component(p, 0);
        if k < n {
            assert(p[k] == top[k]);
        }
        if k > n {
            assert(p[n] == '/');
        }
    }
    crate::path::lemma_skip_separators(p, n);
    assert(crate::path::skip_separators(p, n) == n + 1) by {
        let k = crate::path::skip_separators(p, n);
        assert(p[n] == '/');
        assert(p[n + 1] == rest[0]);
        if k > n + 1 {
            assert(p[n + 1] == '/');
        }
    }
    assert(p.subrange(n + 1, p.len() as int) == rest);
}

} // verus!
