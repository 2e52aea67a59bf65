use pacquet_core::dependency_path::{DependencyPath, ParseDependencyPathError};
use pacquet_core::pkg_name::PkgName;
use pacquet_core::pkg_name_ver_peer::{ParsePkgNameVerPeerError, PkgNameVerPeer};
use pacquet_core::pkg_ver_peer::{ParsePkgVerPeerError, PkgPeer, PkgVerPeer};

fn name_peer_ver(name: &str, peer_ver: &str) -> PkgNameVerPeer {
    let peer_ver = peer_ver.to_string().parse().unwrap();
    PkgNameVerPeer::new(PkgName::parse(name).unwrap(), peer_ver)
}

fn case(input: &str, expected: PkgNameVerPeer) {
    println!("CASE: {input:?}");
    let received: PkgNameVerPeer = input.parse().unwrap();
    assert_eq!(&received, &expected);
}

#[test]
fn parse() {
    case(
        "react-json-view@1.21.3(@types/react@17.0.49)(react-dom@17.0.2)(react@17.0.2)",
        name_peer_ver(
            "react-json-view",
            "1.21.3(@types/react@17.0.49)(react-dom@17.0.2)(react@17.0.2)",
        ),
    );
    case("react-json-view@1.21.3", name_peer_ver("react-json-view", "1.21.3"));
    case(
        "@algolia/autocomplete-core@1.9.3(@algolia/client-search@4.18.0)(algoliasearch@4.18.0)(search-insights@2.6.0)",
        name_peer_ver(
            "@algolia/autocomplete-core",
            "1.9.3(@algolia/client-search@4.18.0)(algoliasearch@4.18.0)(search-insights@2.6.0)",
        ),
    );
    case(
        "@algolia/autocomplete-core@1.9.3",
        name_peer_ver("@algolia/autocomplete-core", "1.9.3"),
    );
}

#[test]
fn parse_gives_name_version_and_peers() {
    let identity =
        PkgNameVerPeer::parse("react-json-view@1.21.3(@types/react@17.0.49)(react-dom@17.0.2)")
            .unwrap();
    assert_eq!(identity.name, PkgName { scope: None, bare: "react-json-view".to_string() });
    assert_eq!(identity.suffix.version, "1.21.3");
    assert_eq!(identity.suffix.version(), "1.21.3");
    assert_eq!(
        identity.suffix.peers,
        vec![
            PkgPeer {
                name: PkgName { scope: Some("types".to_string()), bare: "react".to_string() },
                version: "17.0.49".to_string(),
            },
            PkgPeer {
                name: PkgName { scope: None, bare: "react-dom".to_string() },
                version: "17.0.2".to_string(),
            },
        ]
    );
}

#[test]
fn identity_suffix_is_the_text_behind_the_name() {
    let identity: PkgNameVerPeer =
        "react-json-view@1.21.3(@types/react@17.0.49)(react-dom@17.0.2)(react@17.0.2)"
            .parse()
            .unwrap();
    assert_eq!(identity.name.to_string(), "react-json-view");
    assert_eq!(
        identity.suffix.to_string(),
        "1.21.3(@types/react@17.0.49)(react-dom@17.0.2)(react@17.0.2)"
    );
    let identity: PkgNameVerPeer = "@algolia/autocomplete-core@1.9.3".parse().unwrap();
    assert_eq!(identity.name.to_string(), "@algolia/autocomplete-core");
    assert_eq!(identity.suffix.to_string(), "1.9.3");
}

#[test]
fn identity_round_trips_through_its_text() {
    let inputs = [
        "name@ver(p1@v1)(p2@v2)",
        "react-json-view@1.21.3(@types/react@17.0.49)(react-dom@17.0.2)(react@17.0.2)",
        "@algolia/autocomplete-core@1.9.3",
        "a@1",
        "@s/b@1.0.0-rc.1+build(@t/u@2)",
    ];
    for input in inputs {
        let identity = PkgNameVerPeer::parse(input).unwrap();
        assert_eq!(identity.to_string(), input);
        assert_eq!(PkgNameVerPeer::parse(&identity.to_string()), Ok(identity));
    }
}

#[test]
fn structured_identity_round_trips() {
    let identity = PkgNameVerPeer::new(
        PkgName { scope: None, bare: "name".to_string() },
        PkgVerPeer {
            version: "ver".to_string(),
            peers: vec![
                PkgPeer {
                    name: PkgName { scope: None, bare: "p1".to_string() },
                    version: "v1".to_string(),
                },
                PkgPeer {
                    name: PkgName { scope: None, bare: "p2".to_string() },
                    version: "v2".to_string(),
                },
            ],
        },
    );
    assert_eq!(identity.to_string(), "name@ver(p1@v1)(p2@v2)");
    assert_eq!(PkgNameVerPeer::parse("name@ver(p1@v1)(p2@v2)"), Ok(identity));
}

#[test]
fn identity_without_version_is_refused() {
    assert_eq!(PkgNameVerPeer::parse(""), Err(ParsePkgNameVerPeerError::MissingSuffix));
    assert_eq!(PkgNameVerPeer::parse("react"), Err(ParsePkgNameVerPeerError::MissingSuffix));
    assert_eq!(PkgNameVerPeer::parse("@scope/name"), Err(ParsePkgNameVerPeerError::MissingSuffix));
    assert_eq!(PkgNameVerPeer::parse("@"), Err(ParsePkgNameVerPeerError::MissingSuffix));
}

#[test]
fn identity_with_a_bad_name_is_refused() {
    assert_eq!(PkgNameVerPeer::parse("@scope@1.0.0"), Err(ParsePkgNameVerPeerError::InvalidName));
    assert_eq!(PkgNameVerPeer::parse("@/name@1.0.0"), Err(ParsePkgNameVerPeerError::InvalidName));
    assert_eq!(PkgNameVerPeer::parse("@scope/@1.0.0"), Err(ParsePkgNameVerPeerError::InvalidName));
    assert_eq!(PkgNameVerPeer::parse("a/b@1.0.0"), Err(ParsePkgNameVerPeerError::InvalidName));
    assert_eq!(PkgNameVerPeer::parse("a(b@1.0.0"), Err(ParsePkgNameVerPeerError::InvalidName));
}

#[test]
fn identity_with_a_bad_suffix_is_refused() {
    assert_eq!(
        PkgNameVerPeer::parse("a@"),
        Err(ParsePkgNameVerPeerError::ParseSuffixFailure(ParsePkgVerPeerError::InvalidVersion))
    );
    assert_eq!(
        PkgNameVerPeer::parse("a@(b@1)"),
        Err(ParsePkgNameVerPeerError::ParseSuffixFailure(ParsePkgVerPeerError::InvalidVersion))
    );
    assert_eq!(
        PkgNameVerPeer::parse("a@1)"),
        Err(ParsePkgNameVerPeerError::ParseSuffixFailure(ParsePkgVerPeerError::InvalidVersion))
    );
    assert_eq!(
        PkgNameVerPeer::parse("a@1/2"),
        Err(ParsePkgNameVerPeerError::ParseSuffixFailure(ParsePkgVerPeerError::InvalidVersion))
    );
    assert_eq!(
        PkgNameVerPeer::parse("a@1(b@2"),
        Err(ParsePkgNameVerPeerError::ParseSuffixFailure(
            ParsePkgVerPeerError::MismatchedParenthesis
        ))
    );
    assert_eq!(
        PkgNameVerPeer::parse("a@1(b@2)x"),
        Err(ParsePkgNameVerPeerError::ParseSuffixFailure(
            ParsePkgVerPeerError::MismatchedParenthesis
        ))
    );
    assert_eq!(
        PkgNameVerPeer::parse("a@1(b)"),
        Err(ParsePkgNameVerPeerError::ParseSuffixFailure(ParsePkgVerPeerError::InvalidPeer))
    );
    assert_eq!(
        PkgNameVerPeer::parse("a@1()"),
        Err(ParsePkgNameVerPeerError::ParseSuffixFailure(ParsePkgVerPeerError::InvalidPeer))
    );
    assert_eq!(
        PkgNameVerPeer::parse("a@1(b@2(c@3))"),
        Err(ParsePkgNameVerPeerError::ParseSuffixFailure(ParsePkgVerPeerError::InvalidPeer))
    );
}

#[test]
fn ver_peer_errors() {
    assert_eq!(PkgVerPeer::parse(""), Err(ParsePkgVerPeerError::InvalidVersion));
    assert_eq!(PkgVerPeer::parse("1.0.0(a@1"), Err(ParsePkgVerPeerError::MismatchedParenthesis));
    assert_eq!(PkgVerPeer::parse("1.0.0(@1)"), Err(ParsePkgVerPeerError::InvalidPeer));
    assert_eq!(
        PkgVerPeer::parse("1.0.0"),
        Ok(PkgVerPeer { version: "1.0.0".to_string(), peers: vec![] })
    );
}

#[test]
fn name_parsing() {
    assert_eq!(PkgName::parse("react"), Some(PkgName { scope: None, bare: "react".to_string() }));
    assert_eq!(
        PkgName::parse("@algolia/autocomplete-core"),
        Some(PkgName {
            scope: Some("algolia".to_string()),
            bare: "autocomplete-core".to_string()
        })
    );
    assert_eq!(PkgName::parse(""), None);
    assert_eq!(PkgName::parse("@scope"), None);
    assert_eq!(PkgName::parse("@scope/"), None);
    assert_eq!(PkgName::parse("@/name"), None);
    assert_eq!(PkgName::parse("@scope/a/b"), None);
    assert_eq!(PkgName::parse("a@b"), None);
    assert_eq!(PkgName::parse("héllo").unwrap().to_string(), "héllo");
}

#[test]
fn virtual_store_names() {
    let cases = [
        ("fast-querystring@1.0.0", "fast-querystring@1.0.0"),
        ("@algolia/autocomplete-core@1.9.3", "@algolia+autocomplete-core@1.9.3"),
        (
            "react-json-view@1.21.3(@types/react@17.0.49)(react-dom@17.0.2)(react@17.0.2)",
            "react-json-view@1.21.3_@types+react@17.0.49_react-dom@17.0.2_react@17.0.2",
        ),
    ];
    for (input, expected) in cases {
        let identity = PkgNameVerPeer::parse(input).unwrap();
        let name = identity.to_virtual_store_name();
        assert_eq!(name, expected);
        assert!(!name.contains('/'));
    }
}

#[test]
fn dependency_path_round_trips() {
    let path = DependencyPath::parse("/ts-node@10.9.1").unwrap();
    assert_eq!(path.custom_registry, None);
    assert_eq!(path.package_specifier, PkgNameVerPeer::parse("ts-node@10.9.1").unwrap());
    assert_eq!(path.to_string(), "/ts-node@10.9.1");

    let text = "registry.npmjs.com/@scope/ts-node@10.9.1(@types/node@18.7.19)";
    let path: DependencyPath = text.parse().unwrap();
    assert_eq!(path.custom_registry, Some("registry.npmjs.com".to_string()));
    assert_eq!(
        path.package_specifier,
        PkgNameVerPeer::parse("@scope/ts-node@10.9.1(@types/node@18.7.19)").unwrap()
    );
    assert_eq!(path.to_string(), text);
}

#[test]
fn dependency_path_errors() {
    assert_eq!(DependencyPath::parse("ts-node@10.9.1"), Err(ParseDependencyPathError::InvalidSyntax));
    assert_eq!(DependencyPath::parse(""), Err(ParseDependencyPathError::InvalidSyntax));
    assert_eq!(
        DependencyPath::parse("/ts-node"),
        Err(ParseDependencyPathError::ParsePackageSpecifierFailure(
            ParsePkgNameVerPeerError::MissingSuffix
        ))
    );
}

#[test]
fn signs_of_a_directory_name_are_refused_inside_names_and_versions() {
    assert_eq!(PkgName::parse("a+b"), None);
    assert_eq!(PkgName::parse("@a+b/c"), None);
    assert_eq!(PkgName::parse("@a/b+c"), None);
    assert_eq!(PkgNameVerPeer::parse("a+b@1.0.0"), Err(ParsePkgNameVerPeerError::InvalidName));
    assert_eq!(
        PkgNameVerPeer::parse("a@1@2"),
        Err(ParsePkgNameVerPeerError::ParseSuffixFailure(ParsePkgVerPeerError::InvalidVersion))
    );
    assert_eq!(
        PkgNameVerPeer::parse("a@1_2"),
        Err(ParsePkgNameVerPeerError::ParseSuffixFailure(ParsePkgVerPeerError::InvalidVersion))
    );
    assert_eq!(
        PkgNameVerPeer::parse("a@1(b@2_3)"),
        Err(ParsePkgNameVerPeerError::ParseSuffixFailure(ParsePkgVerPeerError::InvalidPeer))
    );
    assert_eq!(
        PkgNameVerPeer::parse("a@1(b@2@3)"),
        Err(ParsePkgNameVerPeerError::ParseSuffixFailure(ParsePkgVerPeerError::InvalidPeer))
    );
    assert!(PkgNameVerPeer::parse("a_b@1.0.0-rc.1+build(c_d@2)").is_ok());
}

#[test]
fn different_identities_get_different_directories() {
    let texts = [
        "name@ver(p1@v1)(p2@v2)",
        "name@ver(p2@v2)(p1@v1)",
        "name@ver(p1@v1)",
        "name@ver(p1@v2)(p2@v2)",
        "name@ver",
        "name@ver2(p1@v1)(p2@v2)",
        "name2@ver(p1@v1)(p2@v2)",
        "@name/ver@1",
        "@s/a_b@1(c@2)",
        "@s/a@1(b_c@2)",
        "a_b@1",
        "a@1(b@1)",
    ];
    let names: Vec<String> = texts
        .iter()
        .map(|text| PkgNameVerPeer::parse(text).unwrap().to_virtual_store_name())
        .collect();
    for (at, name) in names.iter().enumerate() {
        for other in &names[at + 1..] {
            assert_ne!(name, other);
        }
    }
    assert_eq!(names[0], "name@ver_p1@v1_p2@v2");
    assert_eq!(names[1], "name@ver_p2@v2_p1@v1");
    let again = PkgNameVerPeer::parse(texts[0]).unwrap().to_virtual_store_name();
    assert_eq!(again, names[0]);
}
