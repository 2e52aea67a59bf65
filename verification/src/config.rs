use vstd::prelude::*;

verus! {

/// How the files of a package get from the store into a project.
#[derive(Debug, Clone, Copy, PartialEq, Eq, Structural)]
pub enum PackageImportMethod {
    /// Clone a file where the file system can, copy it where it cannot.
    Auto,
    /// Hard link the files.
    Hardlink,
    /// Copy the files.
    Copy,
    /// Clone the files, and fail where the file system cannot.
    Clone,
    /// Clone the files, and fall back to copying.
    CloneOrCopy,
}

/// The settings that an install goes by.
#[derive(Debug, Clone, PartialEq, Eq)]
pub struct Npmrc {
    /// Directory of the content-addressed store.
    pub store_dir: String,
    /// Directory of the project's virtual store.
    pub virtual_store_dir: String,
    /// Directory that gets the links to the project's direct dependencies.
    pub modules_dir: String,
    /// Address of the registry, with or without a `/` at its end.
    pub registry: String,
    pub package_import_method: PackageImportMethod,
    /// Whether dependencies are linked into the modules directory.
    pub symlink: bool,
}

} // verus!
