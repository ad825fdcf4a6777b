//! Packages: a directory that holds a version marker, the list of its
//! components and one directory per component, or an archive unpacked into
//! such a directory. A package says which components it holds and plans the
//! installation of one of them.

use crate::error::{PackageError, PackageErrorView};
use crate::manifest::{decode_chars, decoded, PartKind};
use crate::path::{join, joined};
use crate::text::{holds, line_bounds, lines, lines_of, string_of, to_chars, trim, trimmed};
use vstd::prelude::*;
use vstd::slice::slice_subrange;

verus! {

/// The format version that this library reads.
pub const INSTALLER_VERSION: &'static str = "3";

/// The file of a package that holds its format version.
pub const VERSION_FILE: &'static str = "rust-installer-version";

/// The file of a package that lists its components, one per line.
pub const COMPONENTS_FILE: &'static str = "components";

/// The file of a component's directory that holds its manifest.
pub const MANIFEST_FILE: &'static str = "manifest.in";

/// The only version text that is accepted.
pub open spec fn supported_version() -> Seq<char> {
    seq!['3']
}

/// `INSTALLER_VERSION` is the supported version.
pub proof fn lemma_installer_version()
    ensures
        INSTALLER_VERSION@ == supported_version(),
{
    reveal_strlit("3");
    assert(INSTALLER_VERSION@ =~= supported_version());
}

/// Checks the content of a package's version file: it is accepted exactly
/// when, trimmed, it is the supported version; otherwise the error carries
/// the trimmed text.
pub fn validate_installer_version(version_text: &str) -> (checked: Result<(), PackageError>)
    ensures
        match checked {
            Ok(_) => trimmed(version_text@) == supported_version(),
            Err(e) => trimmed(version_text@) != supported_version() && e@
                == PackageErrorView::BadInstallerVersion(trimmed(version_text@)),
        },
{
    proof {
        lemma_installer_version();
    }
    let found = trim(version_text);
    let expected = INSTALLER_VERSION.to_owned();
    if found == expected {
        Ok(())
    } else {
        Err(PackageError::BadInstallerVersion(found))
    }
}

/// The view of an optional text.
pub open spec fn text_of(s: Option<&str>) -> Option<Seq<char>> {
    match s {
        Some(t) => Some(t@),
        None => None,
    }
}

/// Whether a package that declares `names` holds `component`, under that
/// name or under `short_name`.
pub open spec fn declares(
    names: Set<Seq<char>>,
    component: Seq<char>,
    short_name: Option<Seq<char>>,
) -> bool {
    names.contains(component) || (short_name matches Some(n) && names.contains(n))
}

/// A package that declares no component holds none, whatever is asked
/// for.
pub proof fn lemma_empty_package_holds_nothing(component: Seq<char>, short_name: Option<Seq<char>>)
    ensures
        !declares(Set::empty(), component, short_name),
{
}

/// The name of the directory from which `component` is installed:
/// `component` where the package declares it, else `short_name` where the
/// package declares that, else `component` all the same.
pub open spec fn resolved_name(
    names: Set<Seq<char>>,
    component: Seq<char>,
    short_name: Option<Seq<char>>,
) -> Seq<char> {
    if names.contains(component) {
        component
    } else {
        match short_name {
            Some(n) => if names.contains(n) {
                n
            } else {
                component
            },
            None => component,
        }
    }
}

/// The path of the manifest of `component` in a package rooted at `root`
/// that declares `names`.
pub open spec fn manifest_path_of(
    root: Seq<char>,
    names: Set<Seq<char>>,
    component: Seq<char>,
    short_name: Option<Seq<char>>,
) -> Seq<char> {
    joined(joined(root, resolved_name(names, component, short_name)), MANIFEST_FILE@)
}

/// How a directive is carried out.
#[derive(Debug, Clone, Copy, PartialEq, Eq, Structural)]
pub enum InstallAction {
    CopyFile,
    MoveFile,
    CopyDir,
    MoveDir,
}

/// One step of an installation: the action, the path below the installation
/// prefix, the path in the package to take it from, and the path at which
/// it is installed, whose permissions are normalised once the action is
/// done.
#[derive(Debug, PartialEq, Eq)]
pub struct InstallStep {
    pub action: InstallAction,
    pub relative_path: String,
    pub source_path: String,
    pub installed_path: String,
}

/// An `InstallStep` with its paths as sequences of characters.
pub struct InstallStepView {
    pub action: InstallAction,
    pub relative_path: Seq<char>,
    pub source_path: Seq<char>,
    pub installed_path: Seq<char>,
}

impl View for InstallStep {
    type V = InstallStepView;

    open spec fn view(&self) -> InstallStepView {
        InstallStepView {
            action: self.action,
            relative_path: self.relative_path@,
            source_path: self.source_path@,
            installed_path: self.installed_path@,
        }
    }
}

/// The steps of an installation, in order, and how it ends once they are
/// done: with `Ok`, and the installation can be finished, or with the error
/// of the first line that is no directive.
#[derive(Debug, PartialEq, Eq)]
pub struct InstallPlan {
    pub steps: Vec<InstallStep>,
    pub outcome: Result<(), PackageError>,
}

/// An `InstallPlan` with its texts as sequences of characters.
pub struct InstallPlanView {
    pub steps: Seq<InstallStepView>,
    pub outcome: Result<(), PackageErrorView>,
}

impl View for InstallPlan {
    type V = InstallPlanView;

    open spec fn view(&self) -> InstallPlanView {
        InstallPlanView {
            steps: Seq::new(self.steps@.len(), |i: int| self.steps@[i]@),
            outcome: match self.outcome {
                Ok(_) => Ok(()),
                Err(e) => Err(e@),
            },
        }
    }
}

/// The action for a directive of kind `kind` in a package that copies
/// (`copy`) or moves its files.
pub open spec fn action_for(kind: PartKind, copy: bool) -> InstallAction {
    match kind {
        PartKind::File => if copy {
            InstallAction::CopyFile
        } else {
            InstallAction::MoveFile
        },
        PartKind::Dir => if copy {
            InstallAction::CopyDir
        } else {
            InstallAction::MoveDir
        },
    }
}

/// The step for a directive: its path is taken from below `root`, the
/// component's directory, and installed below `prefix`.
pub open spec fn planned_step(
    copy: bool,
    root: Seq<char>,
    prefix: Seq<char>,
    part: (PartKind, Seq<char>),
) -> InstallStepView {
    InstallStepView {
        action: action_for(part.0, copy),
        relative_path: part.1,
        source_path: joined(root, part.1),
        installed_path: joined(prefix, part.1),
    }
}

/// The index of the first line from index `i` on that is no directive, or
/// the number of lines.
pub open spec fn directives_before_corruption(manifest: Seq<Seq<char>>, i: int) -> int
    decreases manifest.len() - i,
{
    if 0 <= i < manifest.len() && decoded(manifest[i]) is Some {
        directives_before_corruption(manifest, i + 1)
    } else {
        i
    }
}

/// Up to `directives_before_corruption` every line is a directive, and the
/// line there, if there is one, is none.
pub proof fn lemma_directives_before_corruption(manifest: Seq<Seq<char>>, i: int)
    requires
        0 <= i <= manifest.len(),
    ensures
        i <= directives_before_corruption(manifest, i) <= manifest.len(),
        forall|j: int|
            i <= j < directives_before_corruption(manifest, i) ==> decoded(
                #[trigger] manifest[j],
            ) is Some,
        directives_before_corruption(manifest, i) < manifest.len() ==> decoded(
            manifest[directives_before_corruption(manifest, i)],
        ) is None,
    decreases manifest.len() - i,
{
    if i < manifest.len() && decoded(manifest[i]) is Some {
        lemma_directives_before_corruption(manifest, i + 1);
    }
}

/// The installation of `component` from a package rooted at `root` that
/// declares `names`. Without a manifest nothing is done and the component
/// is corrupt. With one, each line up to the first that is no directive
/// gives a step, in order, and such a line makes the component corrupt.
pub open spec fn planned_install(
    root: Seq<char>,
    names: Set<Seq<char>>,
    copy: bool,
    prefix: Seq<char>,
    component: Seq<char>,
    short_name: Option<Seq<char>>,
    manifest: Option<Seq<char>>,
) -> InstallPlanView {
    match manifest {
        None => InstallPlanView {
            steps: Seq::empty(),
            outcome: Err(PackageErrorView::CorruptComponent(component)),
        },
        Some(text) => {
            let all = lines_of(text);
            let k = directives_before_corruption(all, 0);
            let dir = joined(root, resolved_name(names, component, short_name));
            InstallPlanView {
                steps: Seq::new(
                    k as nat,
                    |i: int| planned_step(copy, dir, prefix, decoded(all[i])->0),
                ),
                outcome: if k < all.len() {
                    Err(PackageErrorView::CorruptComponent(component))
                } else {
                    Ok(())
                },
            }
        },
    }
}

/// What every kind of package offers.
pub trait Package {
    /// The directory that holds the package.
    spec fn root(&self) -> Seq<char>;

    /// The names of the components that the package declares.
    spec fn names(&self) -> Set<Seq<char>>;

    /// Whether installing copies the package's files, or moves them.
    spec fn copies(&self) -> bool;

    /// Whether the package holds `component`, under that name or under
    /// `short_name`.
    fn contains(&self, component: &str, short_name: Option<&str>) -> (found: bool)
        ensures
            found == declares(self.names(), component@, text_of(short_name)),
    ;

    /// The path of the manifest of `component`, which `install` is to be
    /// given the content of.
    fn manifest_path(&self, component: &str, short_name: Option<&str>) -> (path: String)
        ensures
            path@ == manifest_path_of(self.root(), self.names(), component@, text_of(short_name)),
    ;

    /// Plans the installation of `component` below `prefix`. `manifest` is
    /// the content of the component's manifest, `None` where it cannot be
    /// read.
    fn install(
        &self,
        prefix: &str,
        component: &str,
        short_name: Option<&str>,
        manifest: Option<&str>,
    ) -> (plan: InstallPlan)
        ensures
            plan@ == planned_install(
                self.root(),
                self.names(),
                self.copies(),
                prefix@,
                component@,
                text_of(short_name),
                text_of(manifest),
            ),
    ;

    /// The names of the components that the package declares, each once.
    fn components(&self) -> (list: Vec<String>)
        ensures
            list.deep_view().to_set() == self.names(),
            list.deep_view().no_duplicates(),
    ;
}

/// A package held in a directory.
#[derive(Debug)]
pub struct DirectoryPackage {
    path: String,
    components: Vec<String>,
    copy: bool,
}

impl DirectoryPackage {
    #[verifier::type_invariant]
    spec fn well_formed(self) -> bool {
        self.components.deep_view().no_duplicates()
    }

    /// The package in the directory `path`, given the content of its
    /// version file and of its components file. The version must be the
    /// supported one; the components are the lines of the components file.
    /// `copy` says whether installing copies the package's files or moves
    /// them.
    pub fn new(path: String, copy: bool, version_text: &str, components_text: &str) -> (made:
        Result<DirectoryPackage, PackageError>)
        ensures
            match made {
                Ok(package) => {
                    &&& trimmed(version_text@) == supported_version()
                    &&& package.root() == path@
                    &&& package.copies() == copy
                    &&& package.names() == lines_of(components_text@).to_set()
                },
                Err(e) => trimmed(version_text@) != supported_version() && e@
                    == PackageErrorView::BadInstallerVersion(trimmed(version_text@)),
            },
    {
        match validate_installer_version(version_text) {
            Ok(_) => {},
            Err(e) => {
                return Err(e);
            },
        }
        let all = lines(components_text);
        let ghost declared = lines_of(components_text@);
        assert(all.deep_view() == declared);
        let mut components: Vec<String> = Vec::new();
        let mut i: usize = 0;
        while i < all.len()
            invariant
                i <= all@.len(),
                all.deep_view() == declared,
                components.deep_view().no_duplicates(),
                forall|j: int| 0 <= j < i ==> components.deep_view().contains(#[trigger] declared[j]),
                forall|k: int|
                    0 <= k < components@.len() ==> declared.contains(
                        #[trigger] components.deep_view()[k],
                    ),
            decreases all@.len() - i,
        {
            let ghost before = components.deep_view();
            assert(declared[i as int] == all@[i as int]@);
            if !holds(&components, all[i].as_str()) {
                components.push(all[i].clone());
                proof {
                    let after = components.deep_view();
                    assert(after == before.push(declared[i as int]));
                    assert forall|j: int| 0 <= j <= i implies after.contains(
                        #[trigger] declared[j],
                    ) by {
                        if j < i {
                            let k = choose|k: int| 0 <= k < before.len() && before[k] == declared[j];
                            assert(after[k] == declared[j]);
                        } else {
                            assert(after[before.len() as int] == declared[j]);
                        }
                    }
                }
            }
            i += 1;
        }
        proof {
            let held = components.deep_view();
            assert forall|name: Seq<char>| held.to_set().contains(name) <==> declared.to_set().contains(
                name,
            ) by {
                if held.contains(name) {
                    let k = choose|k: int| 0 <= k < held.len() && held[k] == name;
                    assert(declared.contains(held[k]));
                }
                if declared.contains(name) {
                    let j = choose|j: int| 0 <= j < declared.len() && declared[j] == name;
                    assert(held.contains(declared[j]));
                }
            }
            assert(held.to_set() =~= declared.to_set());
        }
        Ok(DirectoryPackage { path, components, copy })
    }

    /// The directory that holds the package.
    pub fn path(&self) -> (path: &str)
        ensures
            path@ == self.root(),
    {
        self.path.as_str()
    }

    /// Whether installing copies the package's files, or moves them.
    pub fn copy(&self) -> (copy: bool)
        ensures
            copy == self.copies(),
    {
        self.copy
    }

    /// The name of the directory from which `component` is installed.
    pub fn component_dir(&self, component: &str, short_name: Option<&str>) -> (name: String)
        ensures
            name@ == resolved_name(self.names(), component@, text_of(short_name)),
    {
        if holds(&self.components, component) {
            component.to_owned()
        } else {
            match short_name {
                Some(n) => {
                    if holds(&self.components, n) {
                        n.to_owned()
                    } else {
                        component.to_owned()
                    }
                },
                None => component.to_owned(),
            }
        }
    }
}

impl Package for DirectoryPackage {
    closed spec fn root(&self) -> Seq<char> {
        self.path@
    }

    closed spec fn names(&self) -> Set<Seq<char>> {
        self.components.deep_view().to_set()
    }

    closed spec fn copies(&self) -> bool {
        self.copy
    }

    fn contains(&self, component: &str, short_name: Option<&str>) -> (found: bool) {
        holds(&self.components, component) || match short_name {
            Some(n) => holds(&self.components, n),
            None => false,
        }
    }

    fn manifest_path(&self, component: &str, short_name: Option<&str>) -> (path: String) {
        let name = self.component_dir(component, short_name);
        let dir = join(self.path.as_str(), name.as_str());
        join(dir.as_str(), MANIFEST_FILE)
    }

    fn install(
        &self,
        prefix: &str,
        component: &str,
        short_name: Option<&str>,
        manifest: Option<&str>,
    ) -> (plan: InstallPlan) {
        let mut steps: Vec<InstallStep> = Vec::new();
        let text = match manifest {
            Some(text) => text,
            None => {
                let plan = InstallPlan {
                    steps,
                    outcome: Err(PackageError::CorruptComponent(component.to_owned())),
                };
                assert(plan@.steps == Seq::<InstallStepView>::empty());
                return plan;
            },
        };
        let name = self.component_dir(component, short_name);
        let dir = join(self.path.as_str(), name.as_str());
        let chars = to_chars(text);
        let bounds = line_bounds(chars.as_slice());
        let ghost all = lines_of(text@);
        let ghost wanted = planned_install(
            self.root(),
            self.names(),
            self.copies(),
            prefix@,
            component@,
            text_of(short_name),
            Some(text@),
        );
        let mut n: usize = 0;
        while n < bounds.len()
            invariant
                n <= bounds@.len(),
                manifest == Some(text),
                chars@ == text@,
                all == lines_of(text@),
                wanted == planned_install(
                    self.root(),
                    self.names(),
                    self.copies(),
                    prefix@,
                    component@,
                    text_of(short_name),
                    Some(text@),
                ),
                bounds@.len() == all.len(),
                forall|m: int|
                    0 <= m < bounds@.len() ==> {
                        &&& (#[trigger] bounds@[m]).0 <= bounds@[m].1 <= chars@.len()
                        &&& chars@.subrange(bounds@[m].0 as int, bounds@[m].1 as int) == all[m]
                    },
                dir@ == joined(
                    self.root(),
                    resolved_name(self.names(), component@, text_of(short_name)),
                ),
                self.copy == self.copies(),
                directives_before_corruption(all, 0) == directives_before_corruption(all, n as int),
                steps@.len() == n,
                forall|m: int|
                    0 <= m < n ==> (#[trigger] steps@[m])@ == planned_step(
                        self.copies(),
                        dir@,
                        prefix@,
                        decoded(all[m])->0,
                    ),
            decreases bounds@.len() - n,
        {
            let (start, end) = bounds[n];
            let line = slice_subrange(chars.as_slice(), start, end);
            assert(line@ == all[n as int]);
            match decode_chars(line) {
                Some((kind, at)) => {
                    let relative_path = string_of(line, at, line.len());
                    let source_path = join(dir.as_str(), relative_path.as_str());
                    let installed_path = join(prefix, relative_path.as_str());
                    let action = match kind {
                        PartKind::File => if self.copy {
                            InstallAction::CopyFile
                        } else {
                            InstallAction::MoveFile
                        },
                        PartKind::Dir => if self.copy {
                            InstallAction::CopyDir
                        } else {
                            InstallAction::MoveDir
                        },
                    };
                    steps.push(InstallStep { action, relative_path, source_path, installed_path });
                },
                None => {
                    let plan = InstallPlan {
                        steps,
                        outcome: Err(PackageError::CorruptComponent(component.to_owned())),
                    };
                    proof {
                        lemma_directives_before_corruption(all, 0);
                        assert(plan@.steps =~= wanted.steps);
                    }
                    return plan;
                },
            }
            n += 1;
        }
        let plan = InstallPlan { steps, outcome: Ok(()) };
        proof {
            assert(plan@.steps =~= wanted.steps);
        }
        plan
    }

    fn components(&self) -> (list: Vec<String>) {
        proof {
            use_type_invariant(self);
        }
        let mut list: Vec<String> = Vec::new();
        let mut i: usize = 0;
        while i < self.components.len()
            invariant
                i <= self.components@.len(),
                list.deep_view() == self.components.deep_view().subrange(0, i as int),
            decreases self.components@.len() - i,
        {
            let ghost before = list.deep_view();
            list.push(self.components[i].clone());
            assert(list.deep_view() == before.push(self.components.deep_view()[i as int]));
            i += 1;
        }
        assert(list.deep_view() == self.components.deep_view());
        list
    }
}

/// A package unpacked from a tar archive into a scratch directory.
#[derive(Debug)]
pub struct TarPackage(DirectoryPackage);

impl TarPackage {
    /// The package in `scratch_dir`, into which the archive was unpacked,
    /// given the content of its version file and of its components file.
    /// Installing from it moves the files out of the scratch directory.
    pub fn new(scratch_dir: String, version_text: &str, components_text: &str) -> (made: Result<
        TarPackage,
        PackageError,
    >)
        ensures
            match made {
                Ok(package) => {
                    &&& trimmed(version_text@) == supported_version()
                    &&& package.root() == scratch_dir@
                    &&& !package.copies()
                    &&& package.names() == lines_of(components_text@).to_set()
                },
                Err(e) => trimmed(version_text@) != supported_version() && e@
                    == PackageErrorView::BadInstallerVersion(trimmed(version_text@)),
            },
    {
        match DirectoryPackage::new(scratch_dir, false, version_text, components_text) {
            Ok(inner) => Ok(TarPackage(inner)),
            Err(e) => Err(e),
        }
    }
}

impl Package for TarPackage {
    closed spec fn root(&self) -> Seq<char> {
        self.0.root()
    }

    closed spec fn names(&self) -> Set<Seq<char>> {
        self.0.names()
    }

    closed spec fn copies(&self) -> bool {
        self.0.copies()
    }

    fn contains(&self, component: &str, short_name: Option<&str>) -> (found: bool) {
        self.0.contains(component, short_name)
    }

    fn manifest_path(&self, component: &str, short_name: Option<&str>) -> (path: String) {
        self.0.manifest_path(component, short_name)
    }

    fn install(
        &self,
        prefix: &str,
        component: &str,
        short_name: Option<&str>,
        manifest: Option<&str>,
    ) -> (plan: InstallPlan) {
        self.0.install(prefix, component, short_name, manifest)
    }

    fn components(&self) -> (list: Vec<String>) {
        self.0.components()
    }
}

/// A package unpacked from a gzip-compressed tar archive.
#[derive(Debug)]
pub struct TarGzPackage(TarPackage);

impl TarGzPackage {
    /// The package in `scratch_dir`, into which the decompressed archive was
    /// unpacked.
    pub fn new(scratch_dir: String, version_text: &str, components_text: &str) -> (made: Result<
        TarGzPackage,
        PackageError,
    >)
        ensures
            match made {
                Ok(package) => {
                    &&& trimmed(version_text@) == supported_version()
                    &&& package.root() == scratch_dir@
                    &&& !package.copies()
                    &&& package.names() == lines_of(components_text@).to_set()
                },
                Err(e) => trimmed(version_text@) != supported_version() && e@
                    == PackageErrorView::BadInstallerVersion(trimmed(version_text@)),
            },
    {
        match TarPackage::new(scratch_dir, version_text, components_text) {
            Ok(inner) => Ok(TarGzPackage(inner)),
            Err(e) => Err(e),
        }
    }
}

impl Package for TarGzPackage {
    closed spec fn root(&self) -> Seq<char> {
        self.0.root()
    }

    closed spec fn names(&self) -> Set<Seq<char>> {
        self.0.names()
    }

    closed spec fn copies(&self) -> bool {
        self.0.copies()
    }

    fn contains(&self, component: &str, short_name: Option<&str>) -> (found: bool) {
        self.0.contains(component, short_name)
    }

    fn manifest_path(&self, component: &str, short_name: Option<&str>) -> (path: String) {
        self.0.manifest_path(component, short_name)
    }

    fn install(
        &self,
        prefix: &str,
        component: &str,
        short_name: Option<&str>,
        manifest: Option<&str>,
    ) -> (plan: InstallPlan) {
        self.0.install(prefix, component, short_name, manifest)
    }

    fn components(&self) -> (list: Vec<String>) {
        self.0.components()
    }
}

/// A package unpacked from an xz-compressed tar archive.
#[derive(Debug)]
pub struct TarXzPackage(TarPackage);

impl TarXzPackage {
    /// The package in `scratch_dir`, into which the decompressed archive was
    /// unpacked.
    pub fn new(scratch_dir: String, version_text: &str, components_text: &str) -> (made: Result<
        TarXzPackage,
        PackageError,
    >)
        ensures
            match made {
                Ok(package) => {
                    &&& trimmed(version_text@) == supported_version()
                    &&& package.root() == scratch_dir@
                    &&& !package.copies()
                    &&& package.names() == lines_of(components_text@).to_set()
                },
                Err(e) => trimmed(version_text@) != supported_version() && e@
                    == PackageErrorView::BadInstallerVersion(trimmed(version_text@)),
            },
    {
        match TarPackage::new(scratch_dir, version_text, components_text) {
            Ok(inner) => Ok(TarXzPackage(inner)),
            Err(e) => Err(e),
        }
    }
}

impl Package for TarXzPackage {
    closed spec fn root(&self) -> Seq<char> {
        self.0.root()
    }

    closed spec fn names(&self) -> Set<Seq<char>> {
        self.0.names()
    }

    closed spec fn copies(&self) -> bool {
        self.0.copies()
    }

    fn contains(&self, component: &str, short_name: Option<&str>) -> (found: bool) {
        self.0.contains(component, short_name)
    }

    fn manifest_path(&self, component: &str, short_name: Option<&str>) -> (path: String) {
        self.0.manifest_path(component, short_name)
    }

    fn install(
        &self,
        prefix: &str,
        component: &str,
        short_name: Option<&str>,
        manifest: Option<&str>,
    ) -> (plan: InstallPlan) {
        self.0.install(prefix, component, short_name, manifest)
    }

    fn components(&self) -> (list: Vec<String>) {
        self.0.components()
    }
}

} // verus!
