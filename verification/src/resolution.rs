use crate::text::{str_text_of, text_of};
use vstd::prelude::*;
use vstd::std_specs::convert::{FromSpec, FromSpecImpl};

verus! {

/// For tarball hosted remotely or locally.
#[derive(Debug, Clone, PartialEq, Eq)]
pub struct TarballResolution {
    pub tarball: String,
    pub integrity: Option<String>,
}

/// For standard package specification, with package name and version range.
#[derive(Debug, Clone, PartialEq, Eq)]
pub struct RegistryResolution {
    pub integrity: String,
}

/// For local directory on a filesystem.
#[derive(Debug, Clone, PartialEq, Eq)]
pub struct DirectoryResolution {
    pub directory: String,
}

/// For git repository.
#[derive(Debug, Clone, PartialEq, Eq)]
pub struct GitResolution {
    pub repo: String,
    pub commit: String,
}

/// Represent the resolution object.
#[derive(Debug, Clone, PartialEq, Eq)]
pub enum LockfileResolution {
    Tarball(TarballResolution),
    Registry(RegistryResolution),
    Directory(DirectoryResolution),
    Git(GitResolution),
}

/// The resolutions that are told apart by a `type` entry.
#[derive(Debug, Clone, PartialEq, Eq)]
pub enum TaggedResolution {
    Directory(DirectoryResolution),
    Git(GitResolution),
}

/// A resolution in the grouping of its written form: two kinds are told
/// apart by their entries alone, the others by a `type` entry.
#[derive(Debug, Clone, PartialEq, Eq)]
pub enum ResolutionSerde {
    Tarball(TarballResolution),
    Registry(RegistryResolution),
    Tagged(TaggedResolution),
}

/// Mathematical value of a resolution.
pub enum ResolutionView {
    Tarball { tarball: Seq<char>, integrity: Option<Seq<char>> },
    Registry { integrity: Seq<char> },
    Directory { directory: Seq<char> },
    Git { repo: Seq<char>, commit: Seq<char> },
}

impl View for TarballResolution {
    type V = ResolutionView;

    open spec fn view(&self) -> ResolutionView {
        ResolutionView::Tarball { tarball: self.tarball@, integrity: text_of(self.integrity) }
    }
}

impl View for RegistryResolution {
    type V = ResolutionView;

    open spec fn view(&self) -> ResolutionView {
        ResolutionView::Registry { integrity: self.integrity@ }
    }
}

impl View for DirectoryResolution {
    type V = ResolutionView;

    open spec fn view(&self) -> ResolutionView {
        ResolutionView::Directory { directory: self.directory@ }
    }
}

impl View for GitResolution {
    type V = ResolutionView;

    open spec fn view(&self) -> ResolutionView {
        ResolutionView::Git { repo: self.repo@, commit: self.commit@ }
    }
}

impl View for LockfileResolution {
    type V = ResolutionView;

    open spec fn view(&self) -> ResolutionView {
        match self {
            LockfileResolution::Tarball(resolution) => resolution@,
            LockfileResolution::Registry(resolution) => resolution@,
            LockfileResolution::Directory(resolution) => resolution@,
            LockfileResolution::Git(resolution) => resolution@,
        }
    }
}

impl View for ResolutionSerde {
    type V = ResolutionView;

    open spec fn view(&self) -> ResolutionView {
        match self {
            ResolutionSerde::Tarball(resolution) => resolution@,
            ResolutionSerde::Registry(resolution) => resolution@,
            ResolutionSerde::Tagged(TaggedResolution::Directory(resolution)) => resolution@,
            ResolutionSerde::Tagged(TaggedResolution::Git(resolution)) => resolution@,
        }
    }
}

impl ResolutionView {
    /// The integrity that the resolution carries, if it carries one.
    pub open spec fn integrity(self) -> Option<Seq<char>> {
        match self {
            ResolutionView::Tarball { integrity, .. } => integrity,
            ResolutionView::Registry { integrity } => Some(integrity),
            ResolutionView::Directory { .. } | ResolutionView::Git { .. } => None,
        }
    }
}

impl LockfileResolution {
    /// Get the integrity field if available.
    pub fn integrity(&self) -> (integrity: Option<&'_ str>)
        ensures
            str_text_of(integrity) == self@.integrity(),
    {
        match self {
            LockfileResolution::Tarball(resolution) => match &resolution.integrity {
                Some(integrity) => Some(integrity.as_str()),
                None => None,
            },
            LockfileResolution::Registry(resolution) => Some(resolution.integrity.as_str()),
            LockfileResolution::Directory(_) | LockfileResolution::Git(_) => None,
        }
    }
}

impl From<ResolutionSerde> for LockfileResolution {
    fn from(value: ResolutionSerde) -> (resolution: Self) {
        match value {
            ResolutionSerde::Tarball(resolution) => LockfileResolution::Tarball(resolution),
            ResolutionSerde::Registry(resolution) => LockfileResolution::Registry(resolution),
            ResolutionSerde::Tagged(TaggedResolution::Directory(resolution)) => {
                LockfileResolution::Directory(resolution)
            },
            ResolutionSerde::Tagged(TaggedResolution::Git(resolution)) => {
                LockfileResolution::Git(resolution)
            },
        }
    }
}

impl FromSpecImpl<ResolutionSerde> for LockfileResolution {
    open spec fn obeys_from_spec() -> bool {
        true
    }

    open spec fn from_spec(value: ResolutionSerde) -> Self {
        match value {
            ResolutionSerde::Tarball(resolution) => LockfileResolution::Tarball(resolution),
            ResolutionSerde::Registry(resolution) => LockfileResolution::Registry(resolution),
            ResolutionSerde::Tagged(TaggedResolution::Directory(resolution)) => {
                LockfileResolution::Directory(resolution)
            },
            ResolutionSerde::Tagged(TaggedResolution::Git(resolution)) => {
                LockfileResolution::Git(resolution)
            },
        }
    }
}

impl From<LockfileResolution> for ResolutionSerde {
    fn from(value: LockfileResolution) -> (grouped: Self) {
        match value {
            LockfileResolution::Tarball(resolution) => ResolutionSerde::Tarball(resolution),
            LockfileResolution::Registry(resolution) => ResolutionSerde::Registry(resolution),
            LockfileResolution::Directory(resolution) => {
                ResolutionSerde::Tagged(TaggedResolution::Directory(resolution))
            },
            LockfileResolution::Git(resolution) => {
                ResolutionSerde::Tagged(TaggedResolution::Git(resolution))
            },
        }
    }
}

impl FromSpecImpl<LockfileResolution> for ResolutionSerde {
    open spec fn obeys_from_spec() -> bool {
        true
    }

    open spec fn from_spec(value: LockfileResolution) -> Self {
        match value {
            LockfileResolution::Tarball(resolution) => ResolutionSerde::Tarball(resolution),
            LockfileResolution::Registry(resolution) => ResolutionSerde::Registry(resolution),
            LockfileResolution::Directory(resolution) => {
                ResolutionSerde::Tagged(TaggedResolution::Directory(resolution))
            },
            LockfileResolution::Git(resolution) => {
                ResolutionSerde::Tagged(TaggedResolution::Git(resolution))
            },
        }
    }
}

/// Regrouping a resolution for writing and back gives the same resolution,
/// and the regrouped value denotes what the resolution denotes.
pub proof fn lemma_regroup_round_trip(resolution: LockfileResolution)
    ensures
        <LockfileResolution as FromSpec<ResolutionSerde>>::from_spec(
            <ResolutionSerde as FromSpec<LockfileResolution>>::from_spec(resolution),
        ) == resolution,
        <ResolutionSerde as FromSpec<LockfileResolution>>::from_spec(resolution)@ == resolution@,
{
}

/// Regrouping what was read and back gives the same value.
pub proof fn lemma_group_round_trip(grouped: ResolutionSerde)
    ensures
        <ResolutionSerde as FromSpec<LockfileResolution>>::from_spec(
            <LockfileResolution as FromSpec<ResolutionSerde>>::from_spec(grouped),
        ) == grouped,
        <LockfileResolution as FromSpec<ResolutionSerde>>::from_spec(grouped)@ == grouped@,
{
}

} // verus!
