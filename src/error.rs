//! Errors of the manifest model and of the version workflow.
use vstd::prelude::*;

verus! {

/// The manifest, or how it is used, does not fit what the tools expect.
#[derive(Debug, Clone, Copy, PartialEq, Eq, Structural)]
pub enum ConfigurationError {
    /// A dependency names no version: neither a `versionNumber` nor an
    /// `@version` suffix on its package name.
    MissingDependencyVersion,
    /// A dependency's version is not a dotted `major.minor.patch`.
    MalformedDependencyVersion,
    /// A package's own version is not a dotted `major.minor.patch`.
    MalformedPackageVersion,
    /// The manifest declares no package at all.
    NoPackages,
    /// No package has the requested name.
    PackageNotFound,
    /// Publishing a release artifact needs a devhub alias.
    DevhubRequired,
    /// The bumped version number would not fit an `i32`.
    VersionOutOfRange,
    /// The manifest document is not an object with a `packageDirectories`
    /// array.
    MalformedManifest,
}

} // verus!
