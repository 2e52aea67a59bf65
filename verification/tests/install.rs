use pacquet_core::config::{Npmrc, PackageImportMethod};
use pacquet_core::dependency_path::DependencyPath;
use pacquet_core::index::ExtractionIndex;
use pacquet_core::link::{
    import_action, link_direct_dependencies, link_step, symlink_action, symlink_outcome,
    CreateOutcome, ImportAction, LinkProgress, LinkStep, PathState, SymlinkAction,
};
use pacquet_core::package::{
    plan_dependencies, plan_fetch, select_version, tarball_source, tarball_sources,
    tarball_url_at, DependencyInstall, ImportMethodImpl, InstalledPackages, LockedPackage,
    PackageManagerError, TarballSource,
};
use pacquet_core::pkg_name::PkgName;
use pacquet_core::pkg_ver_peer::PkgVerPeer;
use pacquet_core::registry::{Package, PackageDependency, PackageDistribution, PackageVersion};
use pacquet_core::resolution::{
    DirectoryResolution, GitResolution, LockfileResolution, RegistryResolution, TarballResolution,
};
use pacquet_core::snapshot::{PackageSnapshot, PackageSnapshotDependency, SnapshotDependency};
use pacquet_core::virtual_dir::{create_virtdir_by_snapshot, DirSymlink, FileImport};

fn config() -> Npmrc {
    Npmrc {
        store_dir: "/home/me/.store".to_string(),
        virtual_store_dir: "/project/node_modules/.pacquet".to_string(),
        modules_dir: "/project/node_modules".to_string(),
        registry: "https://registry.npmjs.com/".to_string(),
        package_import_method: PackageImportMethod::Auto,
        symlink: true,
    }
}

fn snapshot(resolution: LockfileResolution) -> PackageSnapshot {
    PackageSnapshot { resolution, dependencies: None }
}

fn registry_resolution() -> LockfileResolution {
    LockfileResolution::Registry(RegistryResolution { integrity: "sha512-abc".to_string() })
}

fn git_resolution() -> LockfileResolution {
    LockfileResolution::Git(GitResolution { repo: "r".to_string(), commit: "c".to_string() })
}

fn path(text: &str) -> DependencyPath {
    text.parse().unwrap()
}

fn published(name: &str, version: &str, integrity: Option<&str>) -> PackageVersion {
    PackageVersion {
        name: name.to_string(),
        version: version.to_string(),
        dist: PackageDistribution {
            integrity: integrity.map(str::to_string),
            tarball: format!("https://registry.npmjs.com/{name}/-/{name}-{version}.tgz"),
            unpacked_size: Some(1234),
        },
        dependencies: None,
    }
}

#[test]
fn registry_resolution_names_the_tarball_at_the_registry() {
    let source = tarball_source(
        &config(),
        &path("/@fastify/error@3.3.0(peer@1.0.0)"),
        &snapshot(registry_resolution()),
    );
    assert_eq!(
        source,
        Ok(TarballSource {
            tarball_url: "https://registry.npmjs.com/@fastify/error/-/error-3.3.0.tgz".to_string(),
            integrity: "sha512-abc".to_string(),
        })
    );
}

#[test]
fn a_custom_registry_takes_the_place_of_the_configured_one() {
    let source = tarball_source(
        &config(),
        &path("registry.example.org/fast-querystring@1.0.0"),
        &snapshot(registry_resolution()),
    );
    assert_eq!(
        source.unwrap().tarball_url,
        "registry.example.org/fast-querystring/-/fast-querystring-1.0.0.tgz"
    );
}

#[test]
fn one_trailing_slash_of_the_registry_is_stripped() {
    let name = PkgName::parse("a").unwrap();
    assert_eq!(tarball_url_at("https://r.io/", &name, "1.0.0"), "https://r.io/a/-/a-1.0.0.tgz");
    assert_eq!(tarball_url_at("https://r.io", &name, "1.0.0"), "https://r.io/a/-/a-1.0.0.tgz");
    assert_eq!(tarball_url_at("https://r.io//", &name, "1.0.0"), "https://r.io//a/-/a-1.0.0.tgz");
    assert_eq!(tarball_url_at("", &name, "1.0.0"), "/a/-/a-1.0.0.tgz");
}

#[test]
fn tarball_resolution_names_the_tarball_itself() {
    let resolution = LockfileResolution::Tarball(TarballResolution {
        tarball: "file:ts-pipe-compose-0.2.1.tgz".to_string(),
        integrity: Some("sha512-xyz".to_string()),
    });
    assert_eq!(
        tarball_source(&config(), &path("/ts-pipe-compose@0.2.1"), &snapshot(resolution)),
        Ok(TarballSource {
            tarball_url: "file:ts-pipe-compose-0.2.1.tgz".to_string(),
            integrity: "sha512-xyz".to_string(),
        })
    );
}

#[test]
fn tarball_resolution_without_integrity_is_refused() {
    let resolution = LockfileResolution::Tarball(TarballResolution {
        tarball: "file:ts-pipe-compose-0.2.1.tgz".to_string(),
        integrity: None,
    });
    assert_eq!(
        tarball_source(&config(), &path("/ts-pipe-compose@0.2.1"), &snapshot(resolution)),
        Err(PackageManagerError::MissingIntegrity {
            identity: "/ts-pipe-compose@0.2.1".to_string()
        })
    );
}

#[test]
fn git_resolution_is_unsupported() {
    assert_eq!(
        tarball_source(&config(), &path("/ts-pipe-compose@0.2.1"), &snapshot(git_resolution())),
        Err(PackageManagerError::UnsupportedResolution { kind: "git".to_string() })
    );
}

#[test]
fn directory_resolution_is_unsupported() {
    let resolution = LockfileResolution::Directory(DirectoryResolution {
        directory: "ts-pipe-compose-0.2.1/package".to_string(),
    });
    assert_eq!(
        tarball_source(&config(), &path("/ts-pipe-compose@0.2.1"), &snapshot(resolution)),
        Err(PackageManagerError::UnsupportedResolution { kind: "directory".to_string() })
    );
}

#[test]
fn one_unsupported_package_refuses_the_whole_lockfile() {
    let locked = |text: &str, resolution: LockfileResolution| LockedPackage {
        dependency_path: path(text),
        snapshot: snapshot(resolution),
    };
    let good = vec![locked("/a@1.0.0", registry_resolution()), locked("/b@2.0.0", registry_resolution())];
    let sources = tarball_sources(&config(), &good).unwrap();
    assert_eq!(sources.len(), 2);
    assert_eq!(sources[0].tarball_url, "https://registry.npmjs.com/a/-/a-1.0.0.tgz");
    assert_eq!(sources[1].tarball_url, "https://registry.npmjs.com/b/-/b-2.0.0.tgz");

    let bad = vec![
        locked("/a@1.0.0", registry_resolution()),
        locked("/g@1.0.0", git_resolution()),
        locked(
            "/t@1.0.0",
            LockfileResolution::Tarball(TarballResolution {
                tarball: "file:t.tgz".to_string(),
                integrity: None,
            }),
        ),
    ];
    assert_eq!(
        tarball_sources(&config(), &bad),
        Err(PackageManagerError::UnsupportedResolution { kind: "git".to_string() })
    );
    assert_eq!(tarball_sources(&config(), &Vec::new()), Ok(Vec::new()));
}

#[test]
fn fetch_plan_of_a_published_version() {
    let version = published("fast-querystring", "1.0.0", Some("sha512-abc"));
    let plan = plan_fetch(&version, &config(), "/project/node_modules").unwrap();
    assert_eq!(
        plan.save_path,
        "/project/node_modules/.pacquet/fast-querystring@1.0.0/node_modules/fast-querystring"
    );
    assert_eq!(plan.symlink_path, "/project/node_modules/fast-querystring");
    assert_eq!(plan.source.integrity, "sha512-abc");
    assert_eq!(
        plan.source.tarball_url,
        "https://registry.npmjs.com/fast-querystring/-/fast-querystring-1.0.0.tgz"
    );
    assert_eq!(plan.unpacked_size, Some(1234));
}

#[test]
fn fetch_plan_of_a_scoped_version() {
    let version = published("@fastify/error", "3.3.0", Some("sha512-abc"));
    assert_eq!(version.to_virtual_store_name(), "@fastify+error@3.3.0");
    let plan = plan_fetch(&version, &config(), "/x/node_modules").unwrap();
    assert_eq!(
        plan.save_path,
        "/project/node_modules/.pacquet/@fastify+error@3.3.0/node_modules/@fastify/error"
    );
    assert_eq!(plan.symlink_path, "/x/node_modules/@fastify/error");
}

#[test]
fn fetch_plan_without_integrity_is_refused() {
    let version = published("fast-querystring", "1.0.0", None);
    assert_eq!(
        plan_fetch(&version, &config(), "/project/node_modules"),
        Err(PackageManagerError::MissingIntegrity {
            identity: "fast-querystring@1.0.0".to_string()
        })
    );
}

#[test]
fn import_plan_links_every_file_and_the_package() {
    let mut index = ExtractionIndex::new();
    index.insert("package.json".to_string(), "/store/aa/bb".to_string());
    index.insert("lib/index.js".to_string(), "/store/cc/dd".to_string());
    let plan = PackageImportMethod::Auto.import(&index, "/vs/a@1/node_modules/a", "/nm/a");
    assert_eq!(
        plan.imports,
        vec![
            FileImport {
                source: "/store/aa/bb".to_string(),
                target: "/vs/a@1/node_modules/a/package.json".to_string(),
            },
            FileImport {
                source: "/store/cc/dd".to_string(),
                target: "/vs/a@1/node_modules/a/lib/index.js".to_string(),
            },
        ]
    );
    assert_eq!(
        plan.symlink,
        DirSymlink { original: "/vs/a@1/node_modules/a".to_string(), link: "/nm/a".to_string() }
    );
}

fn dependency(name: &str, spec: PackageSnapshotDependency) -> SnapshotDependency {
    SnapshotDependency { name: PkgName::parse(name).unwrap(), spec }
}

#[test]
fn virtual_dir_of_a_package_with_dependencies() {
    let mut index = ExtractionIndex::new();
    index.insert("package.json".to_string(), "/store/aa/bb".to_string());
    let dependencies = vec![
        dependency(
            "react",
            PackageSnapshotDependency::PkgVerPeer(PkgVerPeer::parse("17.0.2").unwrap()),
        ),
        dependency(
            "@types/react",
            PackageSnapshotDependency::PkgVerPeer(
                PkgVerPeer::parse("17.0.49(csstype@3.1.0)").unwrap(),
            ),
        ),
        dependency(
            "alias",
            PackageSnapshotDependency::DependencyPath(path("/real-name@2.0.0")),
        ),
    ];
    let snapshot =
        PackageSnapshot { resolution: registry_resolution(), dependencies: Some(dependencies) };
    let layout = create_virtdir_by_snapshot(
        &path("/react-json-view@1.21.3(@types/react@17.0.49)(react@17.0.2)"),
        "/vs",
        &index,
        PackageImportMethod::Auto,
        &snapshot,
    );
    let entry = "/vs/react-json-view@1.21.3_@types+react@17.0.49_react@17.0.2/node_modules";
    assert_eq!(layout.virtual_node_modules_dir, entry);
    assert_eq!(layout.save_path, format!("{entry}/react-json-view"));
    assert_eq!(
        layout.imports,
        vec![FileImport {
            source: "/store/aa/bb".to_string(),
            target: format!("{entry}/react-json-view/package.json"),
        }]
    );
    assert_eq!(
        layout.symlinks,
        vec![
            DirSymlink {
                original: "/vs/react@17.0.2/node_modules/react".to_string(),
                link: format!("{entry}/react"),
            },
            DirSymlink {
                original: "/vs/@types+react@17.0.49_csstype@3.1.0/node_modules/@types/react"
                    .to_string(),
                link: format!("{entry}/@types/react"),
            },
            DirSymlink {
                original: "/vs/real-name@2.0.0/node_modules/alias".to_string(),
                link: format!("{entry}/alias"),
            },
        ]
    );
}

#[test]
fn virtual_dir_without_dependencies_has_no_links() {
    let layout = create_virtdir_by_snapshot(
        &path("/fast-querystring@1.0.0"),
        "/vs/",
        &ExtractionIndex::new(),
        PackageImportMethod::Auto,
        &snapshot(registry_resolution()),
    );
    assert_eq!(layout.virtual_node_modules_dir, "/vs/fast-querystring@1.0.0/node_modules");
    assert_eq!(layout.save_path, "/vs/fast-querystring@1.0.0/node_modules/fast-querystring");
    assert!(layout.imports.is_empty());
    assert!(layout.symlinks.is_empty());
    let snapshot =
        PackageSnapshot { resolution: registry_resolution(), dependencies: Some(Vec::new()) };
    let layout = create_virtdir_by_snapshot(
        &path("/fast-querystring@1.0.0"),
        "/vs/",
        &ExtractionIndex::new(),
        PackageImportMethod::Auto,
        &snapshot,
    );
    assert!(layout.symlinks.is_empty());
}

#[test]
fn direct_dependencies_are_linked_into_the_modules_dir() {
    let dependencies = vec![
        dependency(
            "fast-querystring",
            PackageSnapshotDependency::PkgVerPeer(PkgVerPeer::parse("1.0.0").unwrap()),
        ),
        dependency(
            "@fastify/error",
            PackageSnapshotDependency::PkgVerPeer(PkgVerPeer::parse("3.3.0").unwrap()),
        ),
    ];
    assert_eq!(
        link_direct_dependencies("/p/node_modules", "/p/node_modules/.pacquet", &dependencies),
        vec![
            DirSymlink {
                original:
                    "/p/node_modules/.pacquet/fast-querystring@1.0.0/node_modules/fast-querystring"
                        .to_string(),
                link: "/p/node_modules/fast-querystring".to_string(),
            },
            DirSymlink {
                original:
                    "/p/node_modules/.pacquet/@fastify+error@3.3.0/node_modules/@fastify/error"
                        .to_string(),
                link: "/p/node_modules/@fastify/error".to_string(),
            },
        ]
    );
    assert!(link_direct_dependencies("/p", "/v", &Vec::new()).is_empty());
}

#[test]
fn symlink_decisions() {
    assert_eq!(symlink_action(PathState::Absent, "/nm/a"), Ok(SymlinkAction::Create));
    assert_eq!(symlink_action(PathState::Symlink, "/nm/a"), Ok(SymlinkAction::Keep));
    assert_eq!(
        symlink_action(PathState::Other, "/nm/a"),
        Err(PackageManagerError::SymlinkCollision { path: "/nm/a".to_string() })
    );
    assert_eq!(symlink_outcome(CreateOutcome::Created, "/nm/a"), Ok(()));
    assert_eq!(symlink_outcome(CreateOutcome::AlreadyExists, "/nm/a"), Ok(()));
    assert_eq!(
        symlink_outcome(CreateOutcome::Failed { message: "denied".to_string() }, "/nm/a"),
        Err(PackageManagerError::Io { path: "/nm/a".to_string(), message: "denied".to_string() })
    );
}

#[test]
fn a_second_run_changes_nothing() {
    assert_eq!(import_action(false), ImportAction::Link);
    assert_eq!(import_action(true), ImportAction::Skip);
    let first = symlink_action(PathState::Absent, "/nm/a").unwrap();
    assert_eq!(first, SymlinkAction::Create);
    assert_eq!(symlink_action(PathState::Symlink, "/nm/a"), Ok(SymlinkAction::Keep));
}

#[test]
fn cloning_falls_back_to_copying() {
    let import = FileImport { source: "/store/aa/bb".to_string(), target: "/x/a.js".to_string() };
    assert_eq!(link_step(LinkProgress::Fresh, &import), Ok(LinkStep::Clone));
    assert_eq!(link_step(LinkProgress::CloneFailed, &import), Ok(LinkStep::Copy));
    assert_eq!(
        link_step(LinkProgress::CopyFailed, &import),
        Err(PackageManagerError::LinkFile {
            from: "/store/aa/bb".to_string(),
            to: "/x/a.js".to_string(),
        })
    );
}

#[test]
fn no_matching_version_is_an_error() {
    let package = Package {
        name: "fast-querystring".to_string(),
        versions: vec![published("fast-querystring", "1.0.0", Some("sha512-abc"))],
    };
    assert_eq!(select_version(&package, "1.0.0"), Ok(&package.versions[0]));
    assert_eq!(
        select_version(&package, "^2.0.0"),
        Err(PackageManagerError::NoMatchingVersion {
            name: "fast-querystring".to_string(),
            range: "^2.0.0".to_string(),
        })
    );
}

#[test]
fn an_entry_links_its_direct_dependencies_only() {
    let dependencies = vec![
        dependency(
            "b",
            PackageSnapshotDependency::PkgVerPeer(PkgVerPeer::parse("2.0.0").unwrap()),
        ),
        dependency(
            "c",
            PackageSnapshotDependency::PkgVerPeer(PkgVerPeer::parse("3.0.0").unwrap()),
        ),
    ];
    let snapshot =
        PackageSnapshot { resolution: registry_resolution(), dependencies: Some(dependencies) };
    let layout = create_virtdir_by_snapshot(
        &path("/a@1.0.0"),
        "/vs",
        &ExtractionIndex::new(),
        PackageImportMethod::Auto,
        &snapshot,
    );
    let names: Vec<&str> = layout
        .symlinks
        .iter()
        .map(|symlink| symlink.link.strip_prefix("/vs/a@1.0.0/node_modules/").unwrap())
        .collect();
    assert_eq!(names, vec!["b", "c"]);
    assert_eq!(layout.save_path, "/vs/a@1.0.0/node_modules/a");
}

#[test]
fn dependencies_are_installed_beside_the_version() {
    let mut version = published("fastify", "4.0.0", Some("sha512-abc"));
    assert!(plan_dependencies(&version, &config()).is_empty());
    version.dependencies = Some(vec![
        PackageDependency { name: "@fastify/error".to_string(), range: "^3.0.0".to_string() },
        PackageDependency { name: "pino".to_string(), range: "~8.0.0".to_string() },
    ]);
    let node_modules = "/project/node_modules/.pacquet/fastify@4.0.0/node_modules";
    assert_eq!(
        plan_dependencies(&version, &config()),
        vec![
            DependencyInstall {
                name: "@fastify/error".to_string(),
                version_range: "^3.0.0".to_string(),
                symlink_path: node_modules.to_string(),
            },
            DependencyInstall {
                name: "pino".to_string(),
                version_range: "~8.0.0".to_string(),
                symlink_path: node_modules.to_string(),
            },
        ]
    );
}

#[test]
fn a_package_is_taken_up_once() {
    let mut installed = InstalledPackages::new();
    assert!(installed.take_up("a@1.0.0"));
    assert!(installed.take_up("b@1.0.0"));
    assert!(!installed.take_up("a@1.0.0"));
    assert!(!installed.take_up("b@1.0.0"));
    assert!(installed.take_up("a@1.0.1"));
}

#[test]
fn files_are_due_only_where_the_own_directory_is_missing() {
    let mut index = ExtractionIndex::new();
    index.insert("package.json".to_string(), "/store/aa/bb".to_string());
    let dependencies = vec![dependency(
        "b",
        PackageSnapshotDependency::PkgVerPeer(PkgVerPeer::parse("2.0.0").unwrap()),
    )];
    let snapshot =
        PackageSnapshot { resolution: registry_resolution(), dependencies: Some(dependencies) };
    let layout = || {
        create_virtdir_by_snapshot(
            &path("/a@1.0.0"),
            "/vs",
            &index,
            PackageImportMethod::Auto,
            &snapshot,
        )
    };
    assert_eq!(layout().to_carry_out(false), layout());
    let due = layout().to_carry_out(true);
    assert!(due.imports.is_empty());
    assert_eq!(due.symlinks, layout().symlinks);
    assert_eq!(due.save_path, layout().save_path);

    let plan = || PackageImportMethod::Auto.import(&index, "/vs/a@1/node_modules/a", "/nm/a");
    assert_eq!(plan().to_carry_out(false), plan());
    assert!(plan().to_carry_out(true).imports.is_empty());
    assert_eq!(plan().to_carry_out(true).symlink, plan().symlink);
}
