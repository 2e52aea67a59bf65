use crate::package::PackageManagerError;
use crate::paths::join;
use crate::snapshot::{dependency_views, SnapshotDependency, SnapshotDependencyView};
use crate::virtual_dir::{
    dir_symlink_views, link_to_dependency, package_dir, DirSymlink, DirSymlinkView, FileImport,
};
use vstd::prelude::*;

verus! {

/// What stands at a path.
#[derive(Debug, Clone, Copy, PartialEq, Eq, Structural)]
pub enum PathState {
    /// Nothing.
    Absent,
    /// A symbolic link.
    Symlink,
    /// A file or a directory.
    Other,
}

/// What to do about a link that is wanted at a path.
#[derive(Debug, Clone, Copy, PartialEq, Eq, Structural)]
pub enum SymlinkAction {
    /// Make the missing directories above the path, then the link.
    Create,
    /// Leave the path as it is.
    Keep,
}

/// What is decided about a link that is wanted where `state` stands; nothing
/// where the link collides with what stands there.
pub open spec fn decided_symlink_action(state: PathState) -> Option<SymlinkAction> {
    match state {
        PathState::Absent => Some(SymlinkAction::Create),
        PathState::Symlink => Some(SymlinkAction::Keep),
        PathState::Other => None,
    }
}

/// Decides what to do about the link wanted at `link_path`, given what
/// stands there: a link is made where nothing stands, a link that is there is
/// kept, and anything else is a collision.
pub fn symlink_action(state: PathState, link_path: &str) -> (action: Result<
    SymlinkAction,
    PackageManagerError,
>)
    ensures
        match decided_symlink_action(state) {
            Some(decided) => action == Ok::<SymlinkAction, PackageManagerError>(decided),
            None => action matches Err(PackageManagerError::SymlinkCollision { path }) && path@
                == link_path@,
        },
{
    match state {
        PathState::Absent => Ok(SymlinkAction::Create),
        PathState::Symlink => Ok(SymlinkAction::Keep),
        PathState::Other => Err(
            PackageManagerError::SymlinkCollision { path: link_path.to_owned() },
        ),
    }
}

/// How an attempt to make a link ended.
#[derive(Debug, Clone, PartialEq, Eq)]
pub enum CreateOutcome {
    /// The link was made.
    Created,
    /// Somebody else made the link in the meantime.
    AlreadyExists,
    /// The link could not be made.
    Failed { message: String },
}

/// Judges the outcome of making the link at `link_path`: that another task
/// made the same link first is as good as having made it.
pub fn symlink_outcome(outcome: CreateOutcome, link_path: &str) -> (result: Result<
    (),
    PackageManagerError,
>)
    ensures
        match outcome {
            CreateOutcome::Created | CreateOutcome::AlreadyExists => result is Ok,
            CreateOutcome::Failed { message } => result matches Err(
                PackageManagerError::Io { path, message: reported },
            ) && path@ == link_path@ && reported@ == message@,
        },
{
    match outcome {
        CreateOutcome::Created | CreateOutcome::AlreadyExists => Ok(()),
        CreateOutcome::Failed { message } => Err(
            PackageManagerError::Io { path: link_path.to_owned(), message },
        ),
    }
}

/// What to do about a file, or about the files of a whole package, that is
/// to be brought to its place.
#[derive(Debug, Clone, Copy, PartialEq, Eq, Structural)]
pub enum ImportAction {
    /// Something stands at the place: leave it.
    Skip,
    /// Make the missing directories above the place, then bring it in.
    Link,
}

/// What is decided about a file, or the directory of a package, that is to
/// be brought to its place.
pub open spec fn decided_import_action(target_exists: bool) -> ImportAction {
    if target_exists {
        ImportAction::Skip
    } else {
        ImportAction::Link
    }
}

/// The imports of a package that are due, given whether something stands at
/// the package's own directory: all of them where nothing stands there, and
/// none where something does.
pub open spec fn due_imports<T>(own_dir_exists: bool, imports: Seq<T>) -> Seq<T> {
    match decided_import_action(own_dir_exists) {
        ImportAction::Skip => Seq::<T>::empty(),
        ImportAction::Link => imports,
    }
}

/// Decides whether a file, or the directory of a package with all its files,
/// is brought to its place, given whether something stands there already.
pub fn import_action(target_exists: bool) -> (action: ImportAction)
    ensures
        action == decided_import_action(target_exists),
{
    if target_exists {
        ImportAction::Skip
    } else {
        ImportAction::Link
    }
}

/// How far the bringing in of one file has come.
#[derive(Debug, Clone, Copy, PartialEq, Eq, Structural)]
pub enum LinkProgress {
    /// Nothing was tried yet.
    Fresh,
    /// Cloning the blob failed.
    CloneFailed,
    /// Cloning and copying the blob failed.
    CopyFailed,
}

/// A way to bring a blob to its place.
#[derive(Debug, Clone, Copy, PartialEq, Eq, Structural)]
pub enum LinkStep {
    /// Clone the blob, so that the two files share their content until one is written to.
    Clone,
    /// Copy the bytes of the blob.
    Copy,
}

/// Decides how to go on with bringing in one file: cloning comes first, for
/// whatever reason it fails copying comes next, and a failed copy is
/// reported with both paths.
pub fn link_step(progress: LinkProgress, import: &FileImport) -> (step: Result<
    LinkStep,
    PackageManagerError,
>)
    ensures
        match progress {
            LinkProgress::Fresh => step == Ok::<LinkStep, PackageManagerError>(LinkStep::Clone),
            LinkProgress::CloneFailed => step == Ok::<LinkStep, PackageManagerError>(
                LinkStep::Copy,
            ),
            LinkProgress::CopyFailed => step matches Err(
                PackageManagerError::LinkFile { from, to },
            ) && from@ == import.source@ && to@ == import.target@,
        },
{
    match progress {
        LinkProgress::Fresh => Ok(LinkStep::Clone),
        LinkProgress::CloneFailed => Ok(LinkStep::Copy),
        LinkProgress::CopyFailed => Err(
            PackageManagerError::LinkFile {
                from: import.source.clone(),
                to: import.target.clone(),
            },
        ),
    }
}

/// The link that makes one direct dependency of a project reachable from the
/// project: it stands in the modules directory under the name of the
/// dependency, and points to the own directory of the package in the
/// virtual store.
pub open spec fn project_symlink(
    modules_dir: Seq<char>,
    virtual_store_dir: Seq<char>,
    dependency: SnapshotDependencyView,
) -> DirSymlinkView {
    DirSymlinkView {
        original: package_dir(virtual_store_dir, dependency.identity(), dependency.name),
        link: join(modules_dir, dependency.name.text()),
    }
}

/// The links for the direct dependencies of a project, in their order.
pub open spec fn project_symlinks(
    modules_dir: Seq<char>,
    virtual_store_dir: Seq<char>,
    dependencies: Seq<SnapshotDependencyView>,
) -> Seq<DirSymlinkView> {
    Seq::new(
        dependencies.len(),
        |i: int| project_symlink(modules_dir, virtual_store_dir, dependencies[i]),
    )
}

/// Plans the links that expose the direct dependencies of a project in its
/// modules directory: one for each, and none for what they depend on in turn.
pub fn link_direct_dependencies(
    modules_dir: &str,
    virtual_store_dir: &str,
    dependencies: &Vec<SnapshotDependency>,
) -> (links: Vec<DirSymlink>)
    ensures
        dir_symlink_views(links@) == project_symlinks(
            modules_dir@,
            virtual_store_dir@,
            dependency_views(dependencies@),
        ),
{
    let ghost planned = project_symlinks(
        modules_dir@,
        virtual_store_dir@,
        dependency_views(dependencies@),
    );
    let mut links: Vec<DirSymlink> = Vec::new();
    let mut i: usize = 0;
    while i < dependencies.len()
        invariant
            0 <= i <= dependencies@.len(),
            planned == project_symlinks(
                modules_dir@,
                virtual_store_dir@,
                dependency_views(dependencies@),
            ),
            dir_symlink_views(links@) == planned.take(i as int),
        decreases dependencies@.len() - i,
    {
        let link = link_to_dependency(virtual_store_dir, modules_dir, &dependencies[i]);
        let ghost before = dir_symlink_views(links@);
        links.push(link);
        assert(dir_symlink_views(links@) =~= before.push(link@));
        i += 1;
    }
    links
}

} // verus!
