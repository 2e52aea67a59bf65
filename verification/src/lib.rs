//! The core of a package manager for the npm ecosystem: the paths of a
//! content-addressed store, the identities of packages and the layout of a
//! virtual store built from them, the resolutions of a lockfile, and the
//! decisions that an install takes between its reads and writes.
//!
//! Nothing in this library touches the disk or the network. What it gives
//! back are plans: paths, links and writes for its caller to carry out.

pub mod cafs;
pub mod config;
pub mod dependency_path;
pub mod disk;
pub mod index;
pub mod integrity;
pub mod link;
pub mod package;
pub mod paths;
pub mod pkg_name;
pub mod pkg_name_ver_peer;
pub mod pkg_ver_peer;
pub mod registry;
pub mod registry_mock;
pub mod resolution;
pub mod resolution_entries;
pub mod semver_range;
pub mod snapshot;
pub mod tarball;
pub mod tarball_cache;
pub mod text;
pub mod text_map;
pub mod virtual_dir;
