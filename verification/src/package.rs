use crate::config::{Npmrc, PackageImportMethod};
use crate::dependency_path::{DependencyPath, DependencyPathView};
use crate::index::ExtractionIndex;
use crate::link::{due_imports, import_action, ImportAction};
use crate::paths::{join, join_path};
use crate::pkg_name::{PkgName, PkgNameView};
use crate::registry::{
    pinned, strip_trailing_slash, version_store_name, version_texts, without_trailing_slash,
    Package, PackageDependency, PackageVersion,
};
use crate::resolution::{LockfileResolution, ResolutionView};
use crate::snapshot::PackageSnapshot;
use crate::tarball::TarballError;
use crate::text::text_of;
use crate::text_map::TextMap;
use crate::virtual_dir::{
    file_import_views, plan_imports, planned_imports, DirSymlink, DirSymlinkView, FileImport,
};
use vstd::prelude::*;

verus! {

/// Why an install failed.
#[derive(Debug, Clone, PartialEq, Eq)]
pub enum PackageManagerError {
    /// The lockfile resolves a package in a way that cannot be installed.
    UnsupportedResolution { kind: String },
    /// A package comes without the integrity of its tarball.
    MissingIntegrity { identity: String },
    /// No published version of a package lies in the wanted range.
    NoMatchingVersion { name: String, range: String },
    /// Something that is no link stands where a link should be laid.
    SymlinkCollision { path: String },
    /// The tarball of a package could not be had.
    Tarball(TarballError),
    /// A file of a package could not be brought from the store to its place.
    LinkFile { from: String, to: String },
    /// A directory or a link could not be made.
    Io { path: String, message: String },
}

/// Where the tarball of a package is fetched from, and the integrity it must have.
#[derive(Debug, Clone, PartialEq, Eq)]
pub struct TarballSource {
    pub tarball_url: String,
    pub integrity: String,
}

/// The address at which a registry keeps the tarball of a version of a
/// package: `<registry>/<name>/-/<bare name>-<version>.tgz`.
pub open spec fn registry_tarball_url(
    registry: Seq<char>,
    name: PkgNameView,
    version: Seq<char>,
) -> Seq<char> {
    without_trailing_slash(registry) + seq!['/'] + name.text() + "/-/"@ + name.bare + seq!['-']
        + version + ".tgz"@
}

/// The registry that a package comes from: its own where its key names one,
/// else the configured one.
pub open spec fn registry_of(configured: Seq<char>, path: DependencyPathView) -> Seq<char> {
    match path.custom_registry {
        Some(registry) => registry,
        None => configured,
    }
}

/// Computes the address of the tarball of a version of a package at a registry.
pub fn tarball_url_at(registry: &str, name: &PkgName, version: &str) -> (url: String)
    ensures
        url@ == registry_tarball_url(registry@, name@, version@),
{
    proof {
        reveal_strlit("/");
        reveal_strlit("-");
    }
    let mut url = strip_trailing_slash(registry).to_owned();
    url.append("/");
    url.append(name.to_string().as_str());
    url.append("/-/");
    url.append(name.bare.as_str());
    url.append("-");
    url.append(version);
    url.append(".tgz");
    url
}

/// Finds out where the tarball of a package of a lockfile comes from, and
/// which integrity it must have.
///
/// * A tarball resolution names the address itself; without an integrity it
///   is refused as [`PackageManagerError::MissingIntegrity`], which names the
///   package.
/// * A registry resolution stands for the tarball that the registry keeps
///   for the package's name and version.
/// * Directory and git resolutions are refused as
///   [`PackageManagerError::UnsupportedResolution`], of the kinds
///   `directory` and `git`.
pub fn tarball_source(
    config: &Npmrc,
    dependency_path: &DependencyPath,
    package_snapshot: &PackageSnapshot,
) -> (source: Result<TarballSource, PackageManagerError>)
    ensures
        match package_snapshot.resolution@ {
            ResolutionView::Tarball { tarball, integrity: Some(integrity) } => source matches Ok(
                found,
            ) && found.tarball_url@ == tarball && found.integrity@ == integrity,
            ResolutionView::Tarball { tarball, integrity: None } => source matches Err(
                PackageManagerError::MissingIntegrity { identity },
            ) && identity@ == dependency_path@.text(),
            ResolutionView::Registry { integrity } => source matches Ok(found) && found.integrity@
                == integrity && found.tarball_url@ == registry_tarball_url(
                registry_of(config.registry@, dependency_path@),
                dependency_path@.package_specifier.name,
                dependency_path@.package_specifier.suffix.version,
            ),
            ResolutionView::Directory { .. } => source matches Err(
                PackageManagerError::UnsupportedResolution { kind },
            ) && kind@ == "directory"@,
            ResolutionView::Git { .. } => source matches Err(
                PackageManagerError::UnsupportedResolution { kind },
            ) && kind@ == "git"@,
        },
{
    match &package_snapshot.resolution {
        LockfileResolution::Tarball(tarball_resolution) => match &tarball_resolution.integrity {
            Some(integrity) => Ok(
                TarballSource {
                    tarball_url: tarball_resolution.tarball.clone(),
                    integrity: integrity.clone(),
                },
            ),
            None => Err(
                PackageManagerError::MissingIntegrity { identity: dependency_path.to_string() },
            ),
        },
        LockfileResolution::Registry(registry_resolution) => {
            let registry = match &dependency_path.custom_registry {
                Some(registry) => registry.as_str(),
                None => config.registry.as_str(),
            };
            let specifier = &dependency_path.package_specifier;
            let tarball_url = tarball_url_at(
                registry,
                &specifier.name,
                specifier.suffix.version().as_str(),
            );
            Ok(TarballSource { tarball_url, integrity: registry_resolution.integrity.clone() })
        },
        LockfileResolution::Directory(_) => Err(
            PackageManagerError::UnsupportedResolution { kind: "directory".to_owned() },
        ),
        LockfileResolution::Git(_) => Err(
            PackageManagerError::UnsupportedResolution { kind: "git".to_owned() },
        ),
    }
}

/// Whether a resolution can be installed: a registry resolution, or a
/// tarball resolution that comes with an integrity.
pub open spec fn installable(resolution: ResolutionView) -> bool {
    match resolution {
        ResolutionView::Tarball { integrity, .. } => integrity is Some,
        ResolutionView::Registry { .. } => true,
        ResolutionView::Directory { .. } | ResolutionView::Git { .. } => false,
    }
}

/// One package as a lockfile records it: its key and its snapshot.
#[derive(Debug, Clone, PartialEq, Eq)]
pub struct LockedPackage {
    pub dependency_path: DependencyPath,
    pub snapshot: PackageSnapshot,
}

/// Finds out, before anything is fetched or written, where the tarball of
/// each package of a lockfile comes from. If one of them cannot be
/// installed, the whole install is refused with the error of the first such
/// package.
pub fn tarball_sources(config: &Npmrc, packages: &Vec<LockedPackage>) -> (sources: Result<
    Vec<TarballSource>,
    PackageManagerError,
>)
    ensures
        sources is Ok <==> forall|i: int|
            0 <= i < packages@.len() ==> installable(#[trigger] packages@[i].snapshot.resolution@),
        sources matches Ok(found) ==> found@.len() == packages@.len() && forall|i: int|
            0 <= i < packages@.len() ==> source_matches(
                config.registry@,
                #[trigger] packages@[i],
                found@[i],
            ),
        sources matches Err(error) ==> exists|i: int|
            0 <= i < packages@.len() && !installable(#[trigger] packages@[i].snapshot.resolution@)
                && refusal_matches(packages@[i], error) && forall|j: int|
                0 <= j < i ==> installable(#[trigger] packages@[j].snapshot.resolution@),
{
    let mut found: Vec<TarballSource> = Vec::new();
    let mut i: usize = 0;
    while i < packages.len()
        invariant
            0 <= i <= packages@.len(),
            found@.len() == i,
            forall|k: int| 0 <= k < i ==> installable(#[trigger] packages@[k].snapshot.resolution@),
            forall|k: int|
                0 <= k < i ==> source_matches(config.registry@, #[trigger] packages@[k], found@[k]),
        decreases packages@.len() - i,
    {
        let package = &packages[i];
        match tarball_source(config, &package.dependency_path, &package.snapshot) {
            Ok(source) => {
                found.push(source);
            },
            Err(error) => {
                return Err(error);
            },
        }
        i += 1;
    }
    Ok(found)
}

/// Whether `source` is where the tarball of `package` comes from.
pub open spec fn source_matches(
    configured_registry: Seq<char>,
    package: LockedPackage,
    source: TarballSource,
) -> bool {
    match package.snapshot.resolution@ {
        ResolutionView::Tarball { tarball, integrity: Some(integrity) } => source.tarball_url@
            == tarball && source.integrity@ == integrity,
        ResolutionView::Registry { integrity } => source.integrity@ == integrity
            && source.tarball_url@ == registry_tarball_url(
            registry_of(configured_registry, package.dependency_path@),
            package.dependency_path@.package_specifier.name,
            package.dependency_path@.package_specifier.suffix.version,
        ),
        _ => false,
    }
}

/// Whether `error` is the reason why `package` cannot be installed.
pub open spec fn refusal_matches(package: LockedPackage, error: PackageManagerError) -> bool {
    match package.snapshot.resolution@ {
        ResolutionView::Tarball { integrity: None, .. } => error matches PackageManagerError::MissingIntegrity {
            identity,
        } && identity@ == package.dependency_path@.text(),
        ResolutionView::Directory { .. } => error matches PackageManagerError::UnsupportedResolution {
            kind,
        } && kind@ == "directory"@,
        ResolutionView::Git { .. } => error matches PackageManagerError::UnsupportedResolution {
            kind,
        } && kind@ == "git"@,
        _ => false,
    }
}

/// Picks the version of `package` to install for `version_range`: the one
/// that [`Package::pinned_version`] picks. Where no published version lies
/// in the range, the install is refused.
pub fn select_version<'a>(package: &'a Package, version_range: &str) -> (selected: Result<
    &'a PackageVersion,
    PackageManagerError,
>)
    ensures
        match pinned(version_texts(package.versions@), version_range@) {
            Some(at) => selected == Ok::<&PackageVersion, PackageManagerError>(
                &package.versions@[at],
            ),
            None => selected matches Err(PackageManagerError::NoMatchingVersion { name, range })
                && name@ == package.name@ && range@ == version_range@,
        },
{
    match package.pinned_version(version_range) {
        Some(version) => Ok(version),
        None => Err(
            PackageManagerError::NoMatchingVersion {
                name: package.name.clone(),
                range: version_range.to_owned(),
            },
        ),
    }
}

/// What it takes to bring one published version of a package into a
/// project, as far as it is known before the tarball is fetched.
#[derive(Debug, Clone, PartialEq, Eq)]
pub struct PackageFetch {
    /// Where the tarball comes from.
    pub source: TarballSource,
    /// Size of the unpacked tarball, as a hint.
    pub unpacked_size: Option<usize>,
    /// The directory of the package's own files in the virtual store.
    pub save_path: String,
    /// The link through which the package is reached.
    pub symlink_path: String,
}

/// The directory of the own files of a published version in a virtual store:
/// `<virtual_store_dir>/<name>@<version>/node_modules/<name>`.
pub open spec fn version_save_path(
    virtual_store_dir: Seq<char>,
    name: Seq<char>,
    version: Seq<char>,
) -> Seq<char> {
    join(
        join(join(virtual_store_dir, version_store_name(name, version)), "node_modules"@),
        name,
    )
}

/// The identity of a published version: `name@version`.
pub open spec fn version_identity(name: Seq<char>, version: Seq<char>) -> Seq<char> {
    name + seq!['@'] + version
}

/// Plans how to bring a published version into a project: where its
/// tarball comes from, where its files go in the virtual store, and where
/// below `symlink_path` the link to them is laid. A version that comes
/// without the integrity of its tarball is refused.
pub fn plan_fetch(package_version: &PackageVersion, config: &Npmrc, symlink_path: &str) -> (plan:
    Result<PackageFetch, PackageManagerError>)
    ensures
        match text_of(package_version.dist.integrity) {
            Some(integrity) => plan matches Ok(fetch) && fetch.source.integrity@ == integrity
                && fetch.source.tarball_url@ == package_version.dist.tarball@
                && fetch.unpacked_size == package_version.dist.unpacked_size && fetch.save_path@
                == version_save_path(
                config.virtual_store_dir@,
                package_version.name@,
                package_version.version@,
            ) && fetch.symlink_path@ == join(symlink_path@, package_version.name@),
            None => plan matches Err(PackageManagerError::MissingIntegrity { identity })
                && identity@ == version_identity(package_version.name@, package_version.version@),
        },
{
    match &package_version.dist.integrity {
        None => {
            proof {
                reveal_strlit("@");
            }
            let mut identity = package_version.name.clone();
            identity.append("@");
            identity.append(package_version.version.as_str());
            Err(PackageManagerError::MissingIntegrity { identity })
        },
        Some(integrity) => {
            let store_folder_name = package_version.to_virtual_store_name();
            let folder = join_path(config.virtual_store_dir.as_str(), store_folder_name.as_str());
            let node_modules = join_path(folder.as_str(), "node_modules");
            let save_path = join_path(node_modules.as_str(), package_version.name.as_str());
            let symlink_path = join_path(symlink_path, package_version.name.as_str());
            Ok(
                PackageFetch {
                    source: TarballSource {
                        tarball_url: package_version.as_tarball_url().to_owned(),
                        integrity: integrity.clone(),
                    },
                    unpacked_size: package_version.dist.unpacked_size,
                    save_path,
                    symlink_path,
                },
            )
        },
    }
}

/// The files to bring into the directory of a package, and the link
/// through which the package is reached.
#[derive(Debug, Clone, PartialEq, Eq)]
pub struct PackageImport {
    /// The files to bring in, if the directory does not exist yet.
    pub imports: Vec<FileImport>,
    /// The link to lay, unless it is there already.
    pub symlink: DirSymlink,
}

impl PackageImport {
    /// What of the plan is to be carried out, given whether something stands
    /// at the package's directory: the files are brought in only where
    /// nothing stands there; the link is wanted in either case.
    pub fn to_carry_out(self, save_path_exists: bool) -> (due: PackageImport)
        ensures
            due.imports@ == due_imports(save_path_exists, self.imports@),
            due.symlink == self.symlink,
    {
        match import_action(save_path_exists) {
            ImportAction::Skip => PackageImport { imports: Vec::new(), symlink: self.symlink },
            ImportAction::Link => self,
        }
    }
}

/// A way of bringing the files of a package from the store into a project.
pub trait ImportMethodImpl {
    /// Whether this way is available.
    spec fn is_implemented(&self) -> bool;

    /// Plans the import of the files of `cas_files` into `save_path`, and the
    /// link at `symlink_to` that points to `save_path`.
    fn import(&self, cas_files: &ExtractionIndex, save_path: &str, symlink_to: &str) -> (plan:
        PackageImport)
        requires
            self.is_implemented(),
        ensures
            file_import_views(plan.imports@) == planned_imports(save_path@, cas_files@),
            plan.symlink@ == (DirSymlinkView { original: save_path@, link: symlink_to@ }),
    ;
}

impl ImportMethodImpl for PackageImportMethod {
    open spec fn is_implemented(&self) -> bool {
        *self == PackageImportMethod::Auto
    }

    fn import(&self, cas_files: &ExtractionIndex, save_path: &str, symlink_to: &str) -> (plan:
        PackageImport) {
        PackageImport {
            imports: plan_imports(save_path, cas_files),
            symlink: DirSymlink { original: save_path.to_owned(), link: symlink_to.to_owned() },
        }
    }
}

/// One dependency of a published version that is to be installed in turn.
#[derive(Debug, Clone, PartialEq, Eq)]
pub struct DependencyInstall {
    pub name: String,
    pub version_range: String,
    /// The directory in which the link to the dependency is laid: the
    /// `node_modules` directory of the version that requires it.
    pub symlink_path: String,
}

/// Mathematical value of a [`DependencyInstall`].
pub struct DependencyInstallView {
    pub name: Seq<char>,
    pub version_range: Seq<char>,
    pub symlink_path: Seq<char>,
}

impl View for DependencyInstall {
    type V = DependencyInstallView;

    open spec fn view(&self) -> DependencyInstallView {
        DependencyInstallView {
            name: self.name@,
            version_range: self.version_range@,
            symlink_path: self.symlink_path@,
        }
    }
}

/// The runtime dependencies that a published version declares; none where it declares none.
pub open spec fn declared_dependencies(package_version: PackageVersion) -> Seq<PackageDependency> {
    match package_version.dependencies {
        Some(dependencies) => dependencies@,
        None => Seq::<PackageDependency>::empty(),
    }
}

/// The `node_modules` directory of a published version in a virtual store:
/// `<virtual_store_dir>/<name>@<version>/node_modules`.
pub open spec fn version_node_modules_dir(
    virtual_store_dir: Seq<char>,
    name: Seq<char>,
    version: Seq<char>,
) -> Seq<char> {
    join(join(virtual_store_dir, version_store_name(name, version)), "node_modules"@)
}

/// Plans the installs that follow the install of a published version: one
/// for each runtime dependency that it declares, in their order, each linked
/// beside the version's own directory.
pub fn plan_dependencies(package_version: &PackageVersion, config: &Npmrc) -> (installs: Vec<
    DependencyInstall,
>)
    ensures
        installs@.len() == declared_dependencies(*package_version).len(),
        forall|i: int|
            0 <= i < installs@.len() ==> (#[trigger] installs@[i])@ == (DependencyInstallView {
                name: declared_dependencies(*package_version)[i].name@,
                version_range: declared_dependencies(*package_version)[i].range@,
                symlink_path: version_node_modules_dir(
                    config.virtual_store_dir@,
                    package_version.name@,
                    package_version.version@,
                ),
            }),
{
    let mut installs: Vec<DependencyInstall> = Vec::new();
    match &package_version.dependencies {
        None => {},
        Some(dependencies) => {
            let folder = join_path(
                config.virtual_store_dir.as_str(),
                package_version.to_virtual_store_name().as_str(),
            );
            let node_modules = join_path(folder.as_str(), "node_modules");
            let mut i: usize = 0;
            while i < dependencies.len()
                invariant
                    0 <= i <= dependencies@.len(),
                    installs@.len() == i,
                    declared_dependencies(*package_version) == dependencies@,
                    node_modules@ == version_node_modules_dir(
                        config.virtual_store_dir@,
                        package_version.name@,
                        package_version.version@,
                    ),
                    forall|k: int|
                        0 <= k < i ==> (#[trigger] installs@[k])@ == (DependencyInstallView {
                            name: dependencies@[k].name@,
                            version_range: dependencies@[k].range@,
                            symlink_path: node_modules@,
                        }),
                decreases dependencies@.len() - i,
            {
                installs.push(
                    DependencyInstall {
                        name: dependencies[i].name.clone(),
                        version_range: dependencies[i].range.clone(),
                        symlink_path: node_modules.clone(),
                    },
                );
                i += 1;
            }
        },
    }
    installs
}

/// The packages that an install has taken up so far, by the names of their
/// directories in the virtual store. It makes sure that each is built once,
/// also where packages depend on each other in a circle.
#[derive(Debug, Clone, PartialEq, Eq)]
pub struct InstalledPackages {
    seen: TextMap<()>,
}

impl View for InstalledPackages {
    type V = Set<Seq<char>>;

    closed spec fn view(&self) -> Set<Seq<char>> {
        self.seen@.dom()
    }
}

impl InstalledPackages {
    /// Nothing taken up yet.
    pub fn new() -> (installed: InstalledPackages)
        ensures
            installed@ == Set::<Seq<char>>::empty(),
    {
        InstalledPackages { seen: TextMap::new() }
    }

    /// Takes up the package whose directory is named `store_name`, and tells
    /// whether this is the first time.
    pub fn take_up(&mut self, store_name: &str) -> (first: bool)
        ensures
            first == !old(self)@.contains(store_name@),
            final(self)@ == old(self)@.insert(store_name@),
    {
        match self.seen.get(store_name) {
            Some(_) => {
                false
            },
            None => {
                self.seen.insert(store_name.to_owned(), ());
                true
            },
        }
    }
}

} // verus!
