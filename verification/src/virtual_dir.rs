use crate::config::PackageImportMethod;
use crate::dependency_path::DependencyPath;
use crate::index::{index_entry_views, names_distinct, ExtractionIndex, IndexEntryView};
use crate::link::{due_imports, import_action, ImportAction};
use crate::paths::{join, join_path, lemma_join_injective, separator};
use crate::pkg_name::PkgNameView;
use crate::pkg_name_ver_peer::{virtual_store_name, PkgNameVerPeer, PkgNameVerPeerView};
use crate::snapshot::{
    dependency_views, PackageSnapshot, PackageSnapshotDependency, SnapshotDependency,
    SnapshotDependencyView,
};
use vstd::prelude::*;

verus! {

/// One file of a package to be brought from the store to its place.
#[derive(Debug, Clone, PartialEq, Eq)]
pub struct FileImport {
    /// Path of the blob in the store.
    pub source: String,
    /// Path of the file in the package's directory.
    pub target: String,
}

/// Mathematical value of a [`FileImport`].
pub struct FileImportView {
    pub source: Seq<char>,
    pub target: Seq<char>,
}

impl View for FileImport {
    type V = FileImportView;

    open spec fn view(&self) -> FileImportView {
        FileImportView { source: self.source@, target: self.target@ }
    }
}

/// The views of a sequence of file imports.
pub open spec fn file_import_views(imports: Seq<FileImport>) -> Seq<FileImportView> {
    imports.map_values(|import: FileImport| import@)
}

/// A symbolic link to a directory.
#[derive(Debug, Clone, PartialEq, Eq)]
pub struct DirSymlink {
    /// The directory that the link points to.
    pub original: String,
    /// Path of the link itself.
    pub link: String,
}

/// Mathematical value of a [`DirSymlink`].
pub struct DirSymlinkView {
    pub original: Seq<char>,
    pub link: Seq<char>,
}

impl View for DirSymlink {
    type V = DirSymlinkView;

    open spec fn view(&self) -> DirSymlinkView {
        DirSymlinkView { original: self.original@, link: self.link@ }
    }
}

/// The views of a sequence of links.
pub open spec fn dir_symlink_views(links: Seq<DirSymlink>) -> Seq<DirSymlinkView> {
    links.map_values(|link: DirSymlink| link@)
}

/// The `node_modules` directory of a package in the virtual store:
/// `<virtual_store_dir>/<directory name of the identity>/node_modules`.
pub open spec fn virtual_node_modules_dir(
    virtual_store_dir: Seq<char>,
    identity: PkgNameVerPeerView,
) -> Seq<char> {
    join(join(virtual_store_dir, identity.store_text()), "node_modules"@)
}

/// The directory that holds the own files of the package `identity` when it
/// is reached under `name`:
/// `<virtual_store_dir>/<directory name of the identity>/node_modules/<name>`.
pub open spec fn package_dir(
    virtual_store_dir: Seq<char>,
    identity: PkgNameVerPeerView,
    name: PkgNameView,
) -> Seq<char> {
    join(virtual_node_modules_dir(virtual_store_dir, identity), name.text())
}

/// The imports that bring the files of `index` into `save_path`: one for each
/// file, in the order of the index, from its blob to its name below `save_path`.
pub open spec fn planned_imports(save_path: Seq<char>, index: Seq<IndexEntryView>) -> Seq<
    FileImportView,
> {
    Seq::new(
        index.len(),
        |i: int| FileImportView { source: index[i].cas_path, target: join(save_path, index[i].name) },
    )
}

/// The imports of one package go to different places, so that the order in
/// which they are carried out does not matter: this holds where no file name
/// of the index occurs twice and none is an absolute path.
pub proof fn lemma_import_targets_distinct(save_path: Seq<char>, index: Seq<IndexEntryView>)
    requires
        names_distinct(index),
        forall|i: int|
            0 <= i < index.len() ==> (#[trigger] index[i]).name.len() == 0 || index[i].name[0]
                != separator(),
    ensures
        forall|i: int, j: int|
            0 <= i < j < index.len() ==> (#[trigger] planned_imports(save_path, index)[i]).target
                != (#[trigger] planned_imports(save_path, index)[j]).target,
{
    assert forall|i: int, j: int| 0 <= i < j < index.len() implies (#[trigger] planned_imports(
        save_path,
        index,
    )[i]).target != (#[trigger] planned_imports(save_path, index)[j]).target by {
        if join(save_path, index[i].name) == join(save_path, index[j].name) {
            lemma_join_injective(save_path, index[i].name, index[j].name);
        }
    }
}

/// The link that makes one dependency of the package `identity` reachable
/// from the package: it stands beside the package's own directory, under the
/// name of the dependency, and points to the own directory of the package
/// that the dependency was resolved to.
pub open spec fn planned_symlink(
    virtual_store_dir: Seq<char>,
    identity: PkgNameVerPeerView,
    dependency: SnapshotDependencyView,
) -> DirSymlinkView {
    DirSymlinkView {
        original: package_dir(virtual_store_dir, dependency.identity(), dependency.name),
        link: join(virtual_node_modules_dir(virtual_store_dir, identity), dependency.name.text()),
    }
}

/// The links for the direct dependencies of a package, in their order.
pub open spec fn planned_symlinks(
    virtual_store_dir: Seq<char>,
    identity: PkgNameVerPeerView,
    dependencies: Seq<SnapshotDependencyView>,
) -> Seq<DirSymlinkView> {
    Seq::new(
        dependencies.len(),
        |i: int| planned_symlink(virtual_store_dir, identity, dependencies[i]),
    )
}

/// Different identities have different places in a virtual store: the
/// `node_modules` directories of two well-formed identities are the same
/// only if the identities are the same, in name, version, peers and the
/// order of the peers.
pub proof fn lemma_identities_have_places_of_their_own(
    virtual_store_dir: Seq<char>,
    first: PkgNameVerPeerView,
    second: PkgNameVerPeerView,
)
    requires
        first.wf(),
        second.wf(),
        virtual_node_modules_dir(virtual_store_dir, first) == virtual_node_modules_dir(
            virtual_store_dir,
            second,
        ),
    ensures
        first == second,
{
    reveal_strlit("node_modules");
    let child = "node_modules"@;
    assert(child[0] == 'n');
    let name = first.store_text();
    let other_name = second.store_text();
    first.lemma_store_text_is_segment();
    second.lemma_store_text_is_segment();
    let folder = join(virtual_store_dir, name);
    let other_folder = join(virtual_store_dir, other_name);
    assert(name[0] != '/' && other_name[0] != '/');
    assert(folder.len() > 0 && folder.last() == name.last());
    assert(other_folder.len() > 0 && other_folder.last() == other_name.last());
    assert(name.last() != '/' && other_name.last() != '/');
    let whole = join(folder, child);
    assert(whole == folder + seq!['/'] + child);
    assert(whole == other_folder + seq!['/'] + child);
    assert(folder =~= whole.subrange(0, whole.len() - child.len() - 1));
    assert(other_folder =~= whole.subrange(0, whole.len() - child.len() - 1));
    lemma_join_injective(virtual_store_dir, name, other_name);
    first.lemma_store_text_injective(second);
}

/// Isolation: beside the package's own directory, the `node_modules`
/// directory of an entry gets one link for each direct dependency of the
/// package, named after that dependency, and nothing else. What the
/// dependencies depend on in turn is reached through their own entries only.
pub proof fn lemma_entry_links_direct_dependencies_only(
    virtual_store_dir: Seq<char>,
    identity: PkgNameVerPeerView,
    dependencies: Seq<SnapshotDependencyView>,
)
    ensures
        planned_symlinks(virtual_store_dir, identity, dependencies).len() == dependencies.len(),
        forall|i: int|
            #![trigger planned_symlinks(virtual_store_dir, identity, dependencies)[i]]
            0 <= i < dependencies.len() ==> {
                let link = planned_symlinks(virtual_store_dir, identity, dependencies)[i];
                &&& link.link == join(
                    virtual_node_modules_dir(virtual_store_dir, identity),
                    dependencies[i].name.text(),
                )
                &&& link.original == package_dir(
                    virtual_store_dir,
                    dependencies[i].identity(),
                    dependencies[i].name,
                )
            },
{
}

/// The entry of one package in a virtual store: the directories to make, the
/// files to bring in from the store, and the links to lay.
#[derive(Debug, Clone, PartialEq, Eq)]
pub struct VirtualDir {
    /// The `node_modules` directory of the entry.
    pub virtual_node_modules_dir: String,
    /// The directory of the package's own files.
    pub save_path: String,
    /// The files to bring in, if `save_path` does not exist yet.
    pub imports: Vec<FileImport>,
    /// The links to the direct dependencies.
    pub symlinks: Vec<DirSymlink>,
}

impl VirtualDir {
    /// What of the layout is to be carried out, given whether something
    /// stands at the package's own directory: the files are brought in only
    /// where nothing stands there; the links are laid in either case.
    pub fn to_carry_out(self, own_dir_exists: bool) -> (due: VirtualDir)
        ensures
            due.imports@ == due_imports(own_dir_exists, self.imports@),
            due.symlinks == self.symlinks,
            due.save_path == self.save_path,
            due.virtual_node_modules_dir == self.virtual_node_modules_dir,
    {
        match import_action(own_dir_exists) {
            ImportAction::Skip => VirtualDir {
                virtual_node_modules_dir: self.virtual_node_modules_dir,
                save_path: self.save_path,
                imports: Vec::new(),
                symlinks: self.symlinks,
            },
            ImportAction::Link => self,
        }
    }
}

/// Computes the `node_modules` directory of a package in the virtual store.
pub fn node_modules_dir_of(virtual_store_dir: &str, identity: &PkgNameVerPeer) -> (dir: String)
    ensures
        dir@ == virtual_node_modules_dir(virtual_store_dir@, identity@),
{
    let folder = join_path(virtual_store_dir, identity.to_virtual_store_name().as_str());
    join_path(folder.as_str(), "node_modules")
}

/// Plans the imports of the files of `index` into `save_path`.
pub fn plan_imports(save_path: &str, index: &ExtractionIndex) -> (imports: Vec<FileImport>)
    ensures
        file_import_views(imports@) == planned_imports(save_path@, index@),
{
    let entries = index.entries();
    let mut imports: Vec<FileImport> = Vec::new();
    let mut i: usize = 0;
    while i < entries.len()
        invariant
            0 <= i <= entries@.len(),
            index_entry_views(entries@) == index@,
            file_import_views(imports@) == planned_imports(save_path@, index@).take(i as int),
        decreases entries@.len() - i,
    {
        let entry = &entries[i];
        let import = FileImport {
            source: entry.cas_path.clone(),
            target: join_path(save_path, entry.name.as_str()),
        };
        let ghost before = file_import_views(imports@);
        imports.push(import);
        assert(file_import_views(imports@) =~= before.push(import@));
        i += 1;
    }
    imports
}

/// Plans the link that stands in `link_dir` under the name of `dependency`
/// and points to the own directory of the package that the dependency was
/// resolved to.
pub fn link_to_dependency(virtual_store_dir: &str, link_dir: &str, dependency: &SnapshotDependency) -> (link:
    DirSymlink)
    ensures
        link.original@ == package_dir(virtual_store_dir@, dependency@.identity(), dependency@.name),
        link.link@ == join(link_dir@, dependency@.name.text()),
{
    let store_name = match &dependency.spec {
        PackageSnapshotDependency::PkgVerPeer(ver_peer) => virtual_store_name(
            &dependency.name,
            ver_peer,
        ),
        PackageSnapshotDependency::DependencyPath(path) => {
            path.package_specifier.to_virtual_store_name()
        },
    };
    let name = dependency.name.to_string();
    let folder = join_path(virtual_store_dir, store_name.as_str());
    let node_modules = join_path(folder.as_str(), "node_modules");
    DirSymlink {
        original: join_path(node_modules.as_str(), name.as_str()),
        link: join_path(link_dir, name.as_str()),
    }
}

/// This function plans 2 things:
/// 1. the files to install from `cas_paths`,
/// 2. the symlink layout.
///
/// Carrying the plan out is left to the caller.
pub fn create_virtdir_by_snapshot(
    dependency_path: &DependencyPath,
    virtual_store_dir: &str,
    cas_paths: &ExtractionIndex,
    import_method: PackageImportMethod,
    package_snapshot: &PackageSnapshot,
) -> (layout: VirtualDir)
    requires
        import_method == PackageImportMethod::Auto,
    ensures
        layout.virtual_node_modules_dir@ == self::virtual_node_modules_dir(
            virtual_store_dir@,
            dependency_path@.package_specifier,
        ),
        layout.save_path@ == package_dir(
            virtual_store_dir@,
            dependency_path@.package_specifier,
            dependency_path@.package_specifier.name,
        ),
        file_import_views(layout.imports@) == planned_imports(layout.save_path@, cas_paths@),
        dir_symlink_views(layout.symlinks@) == planned_symlinks(
            virtual_store_dir@,
            dependency_path@.package_specifier,
            package_snapshot.dependency_seq(),
        ),
{
    let identity = &dependency_path.package_specifier;
    // node_modules/.pacquet/pkg-name@x.y.z/node_modules
    let virtual_node_modules_dir = node_modules_dir_of(virtual_store_dir, identity);

    // 1. The files to install from `cas_paths`
    let save_path = join_path(virtual_node_modules_dir.as_str(), identity.name.to_string().as_str());
    let imports = plan_imports(save_path.as_str(), cas_paths);

    // 2. The symlink layout
    let mut symlinks: Vec<DirSymlink> = Vec::new();
    let ghost planned = planned_symlinks(
        virtual_store_dir@,
        identity@,
        package_snapshot.dependency_seq(),
    );
    match &package_snapshot.dependencies {
        Some(dependencies) => {
            let mut i: usize = 0;
            while i < dependencies.len()
                invariant
                    0 <= i <= dependencies@.len(),
                    package_snapshot.dependency_seq() == dependency_views(dependencies@),
                    planned == planned_symlinks(
                        virtual_store_dir@,
                        identity@,
                        package_snapshot.dependency_seq(),
                    ),
                    virtual_node_modules_dir@ == self::virtual_node_modules_dir(
                        virtual_store_dir@,
                        identity@,
                    ),
                    dir_symlink_views(symlinks@) == planned.take(i as int),
                decreases dependencies@.len() - i,
            {
                let link = link_to_dependency(
                    virtual_store_dir,
                    virtual_node_modules_dir.as_str(),
                    &dependencies[i],
                );
                let ghost before = dir_symlink_views(symlinks@);
                symlinks.push(link);
                assert(dir_symlink_views(symlinks@) =~= before.push(link@));
                i += 1;
            }
        },
        None => {},
    }
    VirtualDir { virtual_node_modules_dir, save_path, imports, symlinks }
}

} // verus!
