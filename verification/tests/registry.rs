use pacquet_core::registry::{
    url_of_package, url_of_package_version, Package, PackageCache, PackageDistribution,
    PackageLookup, PackageVersion,
};
use pacquet_core::registry_mock::{wait_step, WaitStep};
use pacquet_core::semver_range::is_readable_range;

fn published(name: &str, version: &str) -> PackageVersion {
    PackageVersion {
        name: name.to_string(),
        version: version.to_string(),
        dist: PackageDistribution {
            integrity: Some("sha512-abc".to_string()),
            tarball: format!("https://registry.npmjs.com/{name}/-/{name}-{version}.tgz"),
            unpacked_size: None,
        },
        dependencies: None,
    }
}

fn package(name: &str, versions: &[&str]) -> Package {
    Package {
        name: name.to_string(),
        versions: versions.iter().map(|version| published(name, version)).collect(),
    }
}

fn pinned(versions: &[&str], range: &str) -> Option<String> {
    package("p", versions).pinned_version(range).map(|version| version.version.clone())
}

#[test]
fn pinned_version_is_the_highest_in_range() {
    let versions = ["1.0.0", "1.2.0", "2.0.0", "1.10.0", "1.1.5", "0.9.0"];
    assert_eq!(pinned(&versions, "^1.0.0"), Some("1.10.0".to_string()));
    assert_eq!(pinned(&versions, "~1.1.0"), Some("1.1.5".to_string()));
    assert_eq!(pinned(&versions, "1.0.0"), Some("1.0.0".to_string()));
    assert_eq!(pinned(&versions, "*"), Some("2.0.0".to_string()));
    assert_eq!(pinned(&versions, ">=1.2.0 <2.0.0"), Some("1.10.0".to_string()));
    assert_eq!(pinned(&versions, "<1.0.0"), Some("0.9.0".to_string()));
}

#[test]
fn pinned_version_does_not_depend_on_the_order() {
    assert_eq!(pinned(&["3.0.0", "2.0.0", "1.0.0"], ">=1.0.0"), Some("3.0.0".to_string()));
    assert_eq!(pinned(&["1.0.0", "2.0.0", "3.0.0"], ">=1.0.0"), Some("3.0.0".to_string()));
    assert_eq!(pinned(&["2.0.0", "3.0.0", "1.0.0"], ">=1.0.0"), Some("3.0.0".to_string()));
}

#[test]
fn pinned_version_without_match() {
    assert_eq!(pinned(&["1.0.0", "1.2.0"], "^2.0.0"), None);
    assert_eq!(pinned(&[], "*"), None);
    assert_eq!(pinned(&["not-a-version"], "*"), None);
    assert_eq!(pinned(&["1.0.0"], "not a range"), None);
}

#[test]
fn pinned_version_skips_unreadable_versions() {
    assert_eq!(pinned(&["junk", "1.0.0", "also junk"], "^1.0.0"), Some("1.0.0".to_string()));
}

#[test]
fn pinned_version_gives_the_whole_version() {
    let package = package("fast-querystring", &["0.9.0", "1.0.0"]);
    assert_eq!(package.pinned_version("1.0.0"), Some(&package.versions[1]));
    assert_eq!(package.versions[1].as_tarball_url(), package.versions[1].dist.tarball);
}

#[test]
fn store_name_of_a_published_version() {
    assert_eq!(published("fast-querystring", "1.0.0").to_virtual_store_name(), "fast-querystring@1.0.0");
    assert_eq!(published("@a/b", "1.0.0").to_virtual_store_name(), "@a+b@1.0.0");
    assert_eq!(published("a/b/c", "1").to_virtual_store_name(), "a+b+c@1");
    assert_eq!(published("", "").to_virtual_store_name(), "@");
}

#[test]
fn the_cache_asks_for_a_fetch_once() {
    let mut cache = PackageCache::new("https://registry.npmjs.com/");
    assert!(cache.get("fast-querystring").is_none());
    match cache.lookup("fast-querystring") {
        PackageLookup::Fetch { url } => {
            assert_eq!(url, "https://registry.npmjs.com/fast-querystring")
        }
        PackageLookup::Cached(_) => panic!("nothing was kept yet"),
    }
    cache.insert("fast-querystring", package("fast-querystring", &["1.0.0"]));
    for _ in 0..16 {
        match cache.lookup("fast-querystring") {
            PackageLookup::Cached(kept) => {
                assert_eq!(kept, &package("fast-querystring", &["1.0.0"]))
            }
            PackageLookup::Fetch { .. } => panic!("the document is kept"),
        }
    }
    assert!(matches!(cache.lookup("other"), PackageLookup::Fetch { .. }));
}

#[test]
fn a_kept_document_is_not_replaced() {
    let mut cache = PackageCache::new("https://registry.npmjs.com/");
    cache.insert("a", package("a", &["1.0.0"]));
    cache.insert("a", package("a", &["2.0.0"]));
    cache.insert("b", package("b", &["3.0.0"]));
    assert_eq!(cache.get("a"), Some(&package("a", &["1.0.0"])));
    assert_eq!(cache.get("b"), Some(&package("b", &["3.0.0"])));
    assert_eq!(cache.get("c"), None);
}

#[test]
fn address_of_a_version_document() {
    let cache = PackageCache::new("https://registry.npmjs.com/");
    assert_eq!(
        cache.version_url("fast-querystring", "1.0.0"),
        "https://registry.npmjs.com/fast-querystring/1.0.0"
    );
    assert_eq!(
        cache.version_url("@fastify/error", "3.3.0"),
        "https://registry.npmjs.com/@fastify/error/3.3.0"
    );
}

#[test]
fn waiting_for_a_registry() {
    assert_eq!(wait_step(true, 5), WaitStep::Ready);
    assert_eq!(wait_step(true, 0), WaitStep::Ready);
    assert_eq!(wait_step(false, 5), WaitStep::Retry { retries: 4 });
    assert_eq!(wait_step(false, 1), WaitStep::Retry { retries: 0 });
    assert_eq!(wait_step(false, 0), WaitStep::GiveUp);
}

#[test]
fn addresses_at_a_registry() {
    assert_eq!(
        url_of_package("https://registry.npmjs.com/", "fast-querystring"),
        "https://registry.npmjs.com/fast-querystring"
    );
    assert_eq!(
        url_of_package_version("https://registry.npmjs.com/", "fast-querystring", "1.0.0"),
        "https://registry.npmjs.com/fast-querystring/1.0.0"
    );
    assert_eq!(
        url_of_package("https://registry.npmjs.com", "fast-querystring"),
        "https://registry.npmjs.com/fast-querystring"
    );
    assert_eq!(
        url_of_package_version("https://registry.npmjs.com", "@fastify/error", "3.3.0"),
        "https://registry.npmjs.com/@fastify/error/3.3.0"
    );
    assert_eq!(url_of_package("https://r.io//", "a"), "https://r.io//a");
    assert_eq!(url_of_package("", ""), "/");
    assert_eq!(url_of_package_version("", "", ""), "//");
}

#[test]
fn a_registry_without_trailing_slash_gives_the_same_addresses() {
    let with = PackageCache::new("https://registry.npmjs.com/");
    let without = PackageCache::new("https://registry.npmjs.com");
    assert_eq!(with.version_url("a", "1.0.0"), without.version_url("a", "1.0.0"));
    match (with.lookup("a"), without.lookup("a")) {
        (PackageLookup::Fetch { url: first }, PackageLookup::Fetch { url: second }) => {
            assert_eq!(first, "https://registry.npmjs.com/a");
            assert_eq!(first, second);
        }
        _ => panic!("nothing was kept yet"),
    }
}

#[test]
fn a_senseless_range_holds_no_version() {
    let ranges = [
        "=*", "=x", "= X", "=v*", "= v x", "~*", "~x", "~> X", "~>*", "~ > v *", "~1.x.3",
        "~>1.*.0", "~v12.X.7-rc", "1.0.0 =*", "1.0.0 || ~x", "1.0.0||=x", ">1.0.0\t~1.x.3",
        "=*foo", "~*.1",
    ];
    for range in ranges {
        println!("CASE: {range:?}");
        assert_eq!(pinned(&["1.0.0", "2.0.0"], range), None);
        assert!(!is_readable_range(range));
    }
}

#[test]
fn ranges_with_wildcards_elsewhere_are_read() {
    assert_eq!(pinned(&["1.0.0", "2.0.0"], ">=*"), Some("2.0.0".to_string()));
    assert_eq!(pinned(&["1.0.0", "1.4.0", "2.0.0"], "=1.x"), Some("1.4.0".to_string()));
    assert_eq!(pinned(&["1.0.0", "1.4.0", "2.0.0"], "=1"), Some("1.4.0".to_string()));
    assert_eq!(pinned(&["1.0.0", "1.4.0", "2.0.0"], "~1.x"), Some("1.4.0".to_string()));
    assert_eq!(pinned(&["1.0.0", "1.4.0", "2.0.0"], "~1"), Some("1.4.0".to_string()));
    assert_eq!(pinned(&["1.0.0", "1.4.0", "1.4.9"], "~1.4.x"), Some("1.4.9".to_string()));
    assert_eq!(pinned(&["1.0.0", "1.4.0", "2.0.0"], "~>1.0"), Some("1.0.0".to_string()));
    assert_eq!(pinned(&["1.0.0", "1.4.0", "2.0.0"], "x"), Some("2.0.0".to_string()));
    assert_eq!(pinned(&["1.0.0", "1.4.0", "2.0.0"], "^1.x"), Some("1.4.0".to_string()));
    for range in [">=*", "<=x", "=1.x", "~1.x", "~1.4.x", "x", "1.x.3", "a=*", "1~*", ""] {
        assert!(is_readable_range(range));
    }
}

fn every_text(alphabet: &[char], longest: usize) -> Vec<String> {
    let mut texts = vec![String::new()];
    let mut from = 0;
    for _ in 0..longest {
        let upto = texts.len();
        for at in from..upto {
            for c in alphabet {
                let mut longer = texts[at].clone();
                longer.push(*c);
                texts.push(longer);
            }
        }
        from = upto;
    }
    texts
}

#[test]
fn no_short_range_stops_the_pick() {
    let package = package("p", &["1.2.3"]);
    let mut readable = 0;
    for range in every_text(&['~', '=', '1', '.', 'x', ' '], 6) {
        if is_readable_range(&range) {
            readable += 1;
        }
        let _ = package.pinned_version(&range);
    }
    for range in every_text(&['~', '=', '>', '<', '^', '|', '\t', 'v', 'X', '*', '0', '.', '-'], 4) {
        if is_readable_range(&range) {
            readable += 1;
        }
        let _ = package.pinned_version(&range);
    }
    assert!(readable > 0);
}
