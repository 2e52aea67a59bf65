use crate::dependency_path::{DependencyPath, DependencyPathView};
use crate::pkg_name::{PkgName, PkgNameView};
use crate::pkg_name_ver_peer::PkgNameVerPeerView;
use crate::pkg_ver_peer::{PkgVerPeer, PkgVerPeerView};
use crate::resolution::LockfileResolution;
use vstd::prelude::*;

verus! {

/// What a package depends on under one name: either the version and peers
/// of a package of that name, or the full key of a package.
#[derive(Debug, Clone, PartialEq, Eq)]
pub enum PackageSnapshotDependency {
    PkgVerPeer(PkgVerPeer),
    DependencyPath(DependencyPath),
}

/// Mathematical value of a [`PackageSnapshotDependency`].
pub enum PackageSnapshotDependencyView {
    PkgVerPeer(PkgVerPeerView),
    DependencyPath(DependencyPathView),
}

impl View for PackageSnapshotDependency {
    type V = PackageSnapshotDependencyView;

    open spec fn view(&self) -> PackageSnapshotDependencyView {
        match self {
            PackageSnapshotDependency::PkgVerPeer(ver_peer) => {
                PackageSnapshotDependencyView::PkgVerPeer(ver_peer@)
            },
            PackageSnapshotDependency::DependencyPath(path) => {
                PackageSnapshotDependencyView::DependencyPath(path@)
            },
        }
    }
}

/// One direct dependency of a package: the name under which the package
/// requires it, and what it was resolved to.
#[derive(Debug, Clone, PartialEq, Eq)]
pub struct SnapshotDependency {
    pub name: PkgName,
    pub spec: PackageSnapshotDependency,
}

/// Mathematical value of a [`SnapshotDependency`].
pub struct SnapshotDependencyView {
    pub name: PkgNameView,
    pub spec: PackageSnapshotDependencyView,
}

impl View for SnapshotDependency {
    type V = SnapshotDependencyView;

    open spec fn view(&self) -> SnapshotDependencyView {
        SnapshotDependencyView { name: self.name@, spec: self.spec@ }
    }
}

impl SnapshotDependencyView {
    /// The identity of the package that the dependency was resolved to.
    pub open spec fn identity(self) -> PkgNameVerPeerView {
        match self.spec {
            PackageSnapshotDependencyView::PkgVerPeer(suffix) => PkgNameVerPeerView {
                name: self.name,
                suffix,
            },
            PackageSnapshotDependencyView::DependencyPath(path) => path.package_specifier,
        }
    }
}

/// The views of a sequence of dependencies.
pub open spec fn dependency_views(dependencies: Seq<SnapshotDependency>) -> Seq<
    SnapshotDependencyView,
> {
    dependencies.map_values(|dependency: SnapshotDependency| dependency@)
}

/// What a lockfile records of one package: where it comes from, and its
/// direct dependencies.
#[derive(Debug, Clone, PartialEq, Eq)]
pub struct PackageSnapshot {
    pub resolution: LockfileResolution,
    pub dependencies: Option<Vec<SnapshotDependency>>,
}

impl PackageSnapshot {
    /// The direct dependencies; none where the lockfile records none.
    pub open spec fn dependency_seq(&self) -> Seq<SnapshotDependencyView> {
        match self.dependencies {
            Some(dependencies) => dependency_views(dependencies@),
            None => Seq::<SnapshotDependencyView>::empty(),
        }
    }
}

} // verus!
