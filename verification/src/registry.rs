use crate::semver_range::{is_readable_range, is_senseless};
use crate::text::str_chars;
use elsa::FrozenMap;
use node_semver::{Range, Version};
use vstd::prelude::*;

verus! {

/// Where the tarball of a version is, and what is known of it.
#[derive(Debug, Clone, PartialEq, Eq)]
pub struct PackageDistribution {
    /// Integrity of the tarball.
    pub integrity: Option<String>,
    /// Address of the tarball.
    pub tarball: String,
    /// Size of the unpacked tarball in bytes, as a hint.
    pub unpacked_size: Option<usize>,
}

/// One declared dependency: a name and the range of versions that will do.
#[derive(Debug, Clone, PartialEq, Eq)]
pub struct PackageDependency {
    pub name: String,
    pub range: String,
}

/// What a registry publishes of one version of a package.
#[derive(Debug, Clone, PartialEq, Eq)]
pub struct PackageVersion {
    pub name: String,
    pub version: String,
    pub dist: PackageDistribution,
    /// The runtime dependencies.
    pub dependencies: Option<Vec<PackageDependency>>,
}

/// What a registry publishes of a package: its versions.
#[derive(Debug, Clone, PartialEq, Eq)]
pub struct Package {
    pub name: String,
    pub versions: Vec<PackageVersion>,
}

/// A name with `+` in place of each `/`, so that it is one path segment.
pub open spec fn plus_for_slash(name: Seq<char>) -> Seq<char> {
    name.map_values(
        |c: char|
            if c == '/' {
                '+'
            } else {
                c
            },
    )
}

/// The name of the directory of a published version in a virtual store: `name@version`.
pub open spec fn version_store_name(name: Seq<char>, version: Seq<char>) -> Seq<char> {
    plus_for_slash(name) + seq!['@'] + version
}

/// A registry address without the `/` at its end, if it has one.
pub open spec fn without_trailing_slash(registry: Seq<char>) -> Seq<char> {
    if registry.len() > 0 && registry.last() == '/' {
        registry.drop_last()
    } else {
        registry
    }
}

/// Address of the document of the package `name` at `registry`:
/// `<registry>/<name>`.
pub open spec fn package_url(registry: Seq<char>, name: Seq<char>) -> Seq<char> {
    without_trailing_slash(registry) + seq!['/'] + name
}

/// Address of the document of one version of the package `name` at
/// `registry`: `<registry>/<name>/<version>`.
pub open spec fn package_version_url(
    registry: Seq<char>,
    name: Seq<char>,
    version: Seq<char>,
) -> Seq<char> {
    without_trailing_slash(registry) + seq!['/'] + name + seq!['/'] + version
}

/// Takes the `/` from the end of a registry address, if there is one.
pub fn strip_trailing_slash(registry: &str) -> (stripped: &str)
    ensures
        stripped@ == without_trailing_slash(registry@),
{
    let len = registry.unicode_len();
    if len > 0 && registry.get_char(len - 1) == '/' {
        registry.substring_char(0, len - 1)
    } else {
        registry
    }
}

/// Computes the address of the document of a package at a registry.
pub fn url_of_package(registry: &str, name: &str) -> (url: String)
    ensures
        url@ == package_url(registry@, name@),
{
    proof {
        reveal_strlit("/");
    }
    let mut url = strip_trailing_slash(registry).to_owned();
    url.append("/");
    url.append(name);
    url
}

/// Computes the address of the document of one version of a package at a registry.
pub fn url_of_package_version(registry: &str, name: &str, version: &str) -> (url: String)
    ensures
        url@ == package_version_url(registry@, name@, version@),
{
    proof {
        reveal_strlit("/");
    }
    let mut url = strip_trailing_slash(registry).to_owned();
    url.append("/");
    url.append(name);
    url.append("/");
    url.append(version);
    url
}

/// Whether the version `version` lies in the range `range`, by the rules of
/// semantic versioning as npm reads them; nothing where one of the two texts
/// cannot be read. It says nothing of a range that is senseless.
pub uninterp spec fn semver_satisfies(version: Seq<char>, range: Seq<char>) -> Option<bool>;

/// Whether the version `left` comes before the version `right`; nothing
/// where one of the two texts cannot be read.
pub uninterp spec fn semver_precedes(left: Seq<char>, right: Seq<char>) -> Option<bool>;

/// Reads the two texts with `Version::parse` and `Range::parse` of
/// `node_semver` and asks `Range::satisfies`. A senseless range is kept from
/// it: on such a range `Range::parse` does not return.
///
/// Taken on trust: the answer depends on the two texts alone.
#[verifier::external_body]
fn satisfies(version: &str, range: &str) -> (answer: Option<bool>)
    requires
        !is_senseless(range@),
    ensures
        answer == semver_satisfies(version@, range@),
{
    match (Version::parse(version), Range::parse(range)) {
        (Ok(version), Ok(range)) => Some(range.satisfies(&version)),
        _ => None,
    }
}

/// Reads the two texts with `Version::parse` of `node_semver` and compares
/// the versions by the order that `node_semver` gives them.
///
/// Taken on trust: the answer depends on the two texts alone.
#[verifier::external_body]
fn precedes(left: &str, right: &str) -> (answer: Option<bool>)
    ensures
        answer == semver_precedes(left@, right@),
{
    match (Version::parse(left), Version::parse(right)) {
        (Ok(left), Ok(right)) => Some(left < right),
        _ => None,
    }
}

/// Whether a version is known to lie in a range. No version lies in a
/// range that is senseless.
pub open spec fn in_range(version: Seq<char>, range: Seq<char>) -> bool {
    !is_senseless(range) && semver_satisfies(version, range) == Some(true)
}

/// The position of the version that is picked from `versions` for `range`:
/// going through the versions in their order, a version in the range takes
/// the place of the one picked so far unless it comes before it.
pub open spec fn pinned(versions: Seq<Seq<char>>, range: Seq<char>) -> Option<int>
    decreases versions.len(),
{
    if versions.len() == 0 {
        None
    } else {
        let before = pinned(versions.drop_last(), range);
        let last = versions.len() - 1;
        if !in_range(versions[last], range) {
            before
        } else {
            match before {
                Some(best) if semver_precedes(versions[last], versions[best]) == Some(true) => {
                    Some(best)
                },
                _ => Some(last),
            }
        }
    }
}

/// The pick is a version in the range, and there is a pick whenever some
/// version is in the range.
pub proof fn lemma_pinned(versions: Seq<Seq<char>>, range: Seq<char>)
    ensures
        pinned(versions, range) matches Some(at) ==> 0 <= at < versions.len() && in_range(
            versions[at],
            range,
        ),
        pinned(versions, range) is None <==> forall|i: int|
            0 <= i < versions.len() ==> !in_range(#[trigger] versions[i], range),
    decreases versions.len(),
{
    if versions.len() > 0 {
        let shorter = versions.drop_last();
        lemma_pinned(shorter, range);
        assert forall|i: int| 0 <= i < shorter.len() implies shorter[i] == versions[i] by {}
    }
}

/// Whether `left` is known to come before `right`.
pub open spec fn comes_before(left: Seq<char>, right: Seq<char>) -> bool {
    semver_precedes(left, right) == Some(true)
}

/// Whether "comes before" is a strict weak order on the given versions: no
/// two of them come before each other, and where neither a first comes
/// before a second nor the second before a third, the first does not come
/// before the third.
pub open spec fn is_strictly_ordered(versions: Seq<Seq<char>>) -> bool {
    &&& forall|i: int, j: int|
        0 <= i < versions.len() && 0 <= j < versions.len() && #[trigger] comes_before(
            versions[i],
            versions[j],
        ) ==> !comes_before(versions[j], versions[i])
    &&& forall|i: int, j: int, k: int|
        0 <= i < versions.len() && 0 <= j < versions.len() && 0 <= k < versions.len()
            && !#[trigger] comes_before(versions[i], versions[j]) && !#[trigger] comes_before(
            versions[j],
            versions[k],
        ) ==> !comes_before(versions[i], versions[k])
}

/// The pick is the highest version in the range: where "comes before" is a
/// strict weak order on the versions, the pick comes before no version in
/// the range.
pub proof fn lemma_pinned_is_highest(versions: Seq<Seq<char>>, range: Seq<char>)
    requires
        is_strictly_ordered(versions),
    ensures
        pinned(versions, range) matches Some(at) ==> forall|i: int|
            0 <= i < versions.len() && in_range(#[trigger] versions[i], range) ==> !comes_before(
                versions[at],
                versions[i],
            ),
    decreases versions.len(),
{
    if versions.len() > 0 {
        let earlier = versions.drop_last();
        let last = versions.len() - 1;
        assert forall|i: int| 0 <= i < earlier.len() implies earlier[i] == versions[i] by {}
        assert(is_strictly_ordered(earlier)) by {
            assert forall|i: int, j: int|
                0 <= i < earlier.len() && 0 <= j < earlier.len() && #[trigger] comes_before(
                    earlier[i],
                    earlier[j],
                ) implies !comes_before(earlier[j], earlier[i]) by {
                assert(comes_before(versions[i], versions[j]));
            }
            assert forall|i: int, j: int, k: int|
                0 <= i < earlier.len() && 0 <= j < earlier.len() && 0 <= k < earlier.len()
                    && !#[trigger] comes_before(earlier[i], earlier[j])
                    && !#[trigger] comes_before(earlier[j], earlier[k]) implies !comes_before(
                earlier[i],
                earlier[k],
            ) by {
                assert(!comes_before(versions[i], versions[j]));
                assert(!comes_before(versions[j], versions[k]));
            }
        }
        lemma_pinned_is_highest(earlier, range);
        lemma_pinned(earlier, range);
        if let Some(at) = pinned(versions, range) {
            assert forall|i: int|
                0 <= i < versions.len() && in_range(#[trigger] versions[i], range) implies !comes_before(
                versions[at],
                versions[i],
            ) by {
                if at == last {
                    if i == last {
                        assert(comes_before(versions[last], versions[last]) ==> !comes_before(
                            versions[last],
                            versions[last],
                        ));
                    } else {
                        assert(in_range(earlier[i], range));
                        let best = pinned(earlier, range)->0;
                        assert(!comes_before(versions[last], versions[best]));
                        assert(!comes_before(versions[best], versions[i]));
                    }
                } else if i == last {
                    assert(comes_before(versions[last], versions[at]));
                } else {
                    assert(in_range(earlier[i], range));
                }
            }
        }
    }
}

/// The version texts of a sequence of published versions.
pub open spec fn version_texts(versions: Seq<PackageVersion>) -> Seq<Seq<char>> {
    versions.map_values(|version: PackageVersion| version.version@)
}

/// Picks between the version picked so far and a further version in the range.
pub fn keep_best(best: Option<usize>, candidate: usize, candidate_precedes: Option<bool>) -> (pick:
    usize)
    ensures
        pick == match (best, candidate_precedes) {
            (Some(best), Some(true)) => best,
            _ => candidate,
        },
{
    match (best, candidate_precedes) {
        (Some(best), Some(true)) => best,
        _ => candidate,
    }
}

impl PackageVersion {
    /// The name of the version's directory in a virtual store.
    pub fn to_virtual_store_name(&self) -> (text: String)
        ensures
            text@ == version_store_name(self.name@, self.version@),
    {
        let chars = str_chars(self.name.as_str());
        let mut text = String::new();
        let mut i: usize = 0;
        while i < chars.len()
            invariant
                0 <= i <= chars@.len(),
                chars@ == self.name@,
                text@ == plus_for_slash(self.name@).take(i as int),
            decreases chars@.len() - i,
        {
            let c = chars[i];
            if c == '/' {
                text.push('+');
            } else {
                text.push(c);
            }
            i += 1;
        }
        proof {
            reveal_strlit("@");
        }
        text.append("@");
        text.append(self.version.as_str());
        text
    }

    /// Address of the version's tarball.
    pub fn as_tarball_url(&self) -> (url: &str)
        ensures
            url@ == self.dist.tarball@,
    {
        self.dist.tarball.as_str()
    }
}

impl Package {
    /// The highest published version that lies in `version_range`. A range
    /// that cannot be read, or that is senseless, holds no version.
    pub fn pinned_version(&self, version_range: &str) -> (version: Option<&PackageVersion>)
        ensures
            match pinned(version_texts(self.versions@), version_range@) {
                Some(at) => version == Some(&self.versions@[at]),
                None => version is None,
            },
            version is None <==> forall|i: int|
                0 <= i < self.versions@.len() ==> !in_range(
                    #[trigger] self.versions@[i].version@,
                    version_range@,
                ),
    {
        let ghost texts = version_texts(self.versions@);
        if !is_readable_range(version_range) {
            proof {
                lemma_pinned(texts, version_range@);
            }
            return None;
        }
        let mut best: Option<usize> = None;
        let mut i: usize = 0;
        while i < self.versions.len()
            invariant
                0 <= i <= self.versions@.len(),
                texts == version_texts(self.versions@),
                !is_senseless(version_range@),
                match pinned(texts.take(i as int), version_range@) {
                    Some(at) => best == Some(at as usize) && 0 <= at < i,
                    None => best is None,
                },
            decreases self.versions@.len() - i,
        {
            proof {
                assert(texts.take(i + 1).drop_last() =~= texts.take(i as int));
            }
            let candidate = &self.versions[i];
            match satisfies(candidate.version.as_str(), version_range) {
                Some(true) => {
                    let candidate_precedes = match best {
                        Some(at) => {
                            precedes(candidate.version.as_str(), self.versions[at].version.as_str())
                        },
                        None => None,
                    };
                    best = Some(keep_best(best, i, candidate_precedes));
                },
                _ => {},
            }
            i += 1;
        }
        proof {
            assert(texts.take(i as int) =~= texts);
            lemma_pinned(texts, version_range@);
            if best is None {
                assert forall|k: int| 0 <= k < self.versions@.len() implies !in_range(
                    #[trigger] self.versions@[k].version@,
                    version_range@,
                ) by {
                    assert(texts[k] == self.versions@[k].version@);
                }
            }
        }
        match best {
            Some(at) => Some(&self.versions[at]),
            None => None,
        }
    }
}

/// `FrozenMap` of `elsa`: a map that only grows, and therefore can hand out
/// references to what it holds that stay good for as long as it lives.
#[verifier::external_type_specification]
#[verifier::external_body]
#[verifier::reject_recursive_types(K)]
#[verifier::reject_recursive_types(V)]
#[verifier::reject_recursive_types(S)]
pub struct ExFrozenMap<K, V, S>(FrozenMap<K, V, S>);

/// The packages that a map holds, by their names.
pub uninterp spec fn frozen_packages(map: FrozenMap<String, Box<Package>>) -> Map<
    Seq<char>,
    Package,
>;

/// No packages at all.
pub open spec fn no_packages() -> Map<Seq<char>, Package> {
    Map::empty()
}

/// `FrozenMap::new` of `elsa`. Taken on trust: the new map holds nothing.
#[verifier::external_body]
fn frozen_new() -> (frozen: FrozenMap<String, Box<Package>>)
    ensures
        frozen_packages(frozen) == no_packages(),
{
    FrozenMap::new()
}

/// `FrozenMap::get` of `elsa`. Taken on trust: it gives the value that the
/// map holds under the key, by reference, and nothing where it holds none.
#[verifier::external_body]
fn frozen_get<'a>(map: &'a FrozenMap<String, Box<Package>>, name: &str) -> (found: Option<
    &'a Package,
>)
    ensures
        found is Some <==> frozen_packages(*map).dom().contains(name@),
        found matches Some(package) ==> *package == frozen_packages(*map)[name@],
{
    map.get(name)
}

/// `FrozenMap::insert` of `elsa`. Taken on trust: it puts the value under a
/// key that the map does not hold yet, and under a key that it holds it
/// leaves the map as it is.
#[verifier::external_body]
fn frozen_insert(map: &mut FrozenMap<String, Box<Package>>, name: String, package: Box<Package>)
    ensures
        frozen_packages(*final(map)) == if frozen_packages(*old(map)).dom().contains(name@) {
            frozen_packages(*old(map))
        } else {
            frozen_packages(*old(map)).insert(name@, *package)
        },
{
    map.insert(name, package);
}

/// What a caller who wants the document of a package has to do.
pub enum PackageLookup<'a> {
    /// The document was fetched before: here it is.
    Cached(&'a Package),
    /// The document has to be fetched from this address.
    Fetch { url: String },
}

/// The documents of the packages that were fetched from one registry. A
/// document, once kept, stays as it is for as long as the cache lives.
pub struct PackageCache {
    registry: String,
    cache: FrozenMap<String, Box<Package>>,
}

impl PackageCache {
    /// The address of the registry.
    pub closed spec fn registry(&self) -> Seq<char> {
        self.registry@
    }

    /// The documents that are kept, by the names of their packages.
    pub closed spec fn packages(&self) -> Map<Seq<char>, Package> {
        frozen_packages(self.cache)
    }

    /// A cache for the registry at `registry`, without documents.
    pub fn new(registry: &str) -> (cache: PackageCache)
        ensures
            cache.registry() == registry@,
            cache.packages() == no_packages(),
    {
        PackageCache { registry: registry.to_owned(), cache: frozen_new() }
    }

    /// The document kept for the package `name`.
    pub fn get(&self, name: &str) -> (found: Option<&Package>)
        ensures
            found is Some <==> self.packages().dom().contains(name@),
            found matches Some(package) ==> *package == self.packages()[name@],
    {
        frozen_get(&self.cache, name)
    }

    /// Tells how to come by the document of the package `name`: from the
    /// cache if it is kept, else from the registry.
    pub fn lookup(&self, name: &str) -> (lookup: PackageLookup<'_>)
        ensures
            match lookup {
                PackageLookup::Cached(package) => self.packages().dom().contains(name@)
                    && *package == self.packages()[name@],
                PackageLookup::Fetch { url } => !self.packages().dom().contains(name@) && url@
                    == package_url(self.registry(), name@),
            },
    {
        match frozen_get(&self.cache, name) {
            Some(package) => PackageLookup::Cached(package),
            None => PackageLookup::Fetch { url: url_of_package(self.registry.as_str(), name) },
        }
    }

    /// Keeps `package` as the document of the package `name`, unless one is
    /// kept already.
    pub fn insert(&mut self, name: &str, package: Package)
        ensures
            final(self).registry() == old(self).registry(),
            final(self).packages() == if old(self).packages().dom().contains(name@) {
                old(self).packages()
            } else {
                old(self).packages().insert(name@, package)
            },
    {
        frozen_insert(&mut self.cache, name.to_owned(), Box::new(package));
    }

    /// Address of the document of the version `version` of the package `name`.
    pub fn version_url(&self, name: &str, version: &str) -> (url: String)
        ensures
            url@ == package_version_url(self.registry(), name@, version@),
    {
        url_of_package_version(self.registry.as_str(), name, version)
    }
}

/// A document that is kept stays kept, and stays the same, whatever is
/// offered for its name or for other names afterwards.
pub proof fn lemma_kept_is_stable(
    before: Map<Seq<char>, Package>,
    name: Seq<char>,
    offered_name: Seq<char>,
    offered: Package,
)
    requires
        before.dom().contains(name),
    ensures
        ({
            let after = if before.dom().contains(offered_name) {
                before
            } else {
                before.insert(offered_name, offered)
            };
            after.dom().contains(name) && after[name] == before[name]
        }),
{
}

} // verus!
