//! The ways in which reading, unpacking or installing a package fails.

use vstd::prelude::*;

verus! {

/// Why an operation on a package was given up.
#[derive(Debug, PartialEq, Eq)]
pub enum PackageError {
    /// The package declares a format version other than the supported
    /// one; the field is the trimmed version text that was found.
    BadInstallerVersion(String),
    /// The manifest of the named component cannot be read or holds a line
    /// that is no directive.
    CorruptComponent(String),
    /// An archive entry could not be read or unpacked.
    ExtractingPackage,
    /// An installed directory tree could not be walked.
    ComponentDirPermissionsFailed,
    /// The permissions of an installed file could not be read or set.
    ComponentFilePermissionsFailed,
}

/// A `PackageError` with its texts as sequences of characters.
pub enum PackageErrorView {
    BadInstallerVersion(Seq<char>),
    CorruptComponent(Seq<char>),
    ExtractingPackage,
    ComponentDirPermissionsFailed,
    ComponentFilePermissionsFailed,
}

impl View for PackageError {
    type V = PackageErrorView;

    open spec fn view(&self) -> PackageErrorView {
        match self {
            PackageError::BadInstallerVersion(found) => PackageErrorView::BadInstallerVersion(
                found@,
            ),
            PackageError::CorruptComponent(name) => PackageErrorView::CorruptComponent(name@),
            PackageError::ExtractingPackage => PackageErrorView::ExtractingPackage,
            PackageError::ComponentDirPermissionsFailed => {
                PackageErrorView::ComponentDirPermissionsFailed
            },
            PackageError::ComponentFilePermissionsFailed => {
                PackageErrorView::ComponentFilePermissionsFailed
            },
        }
    }
}

} // verus!
