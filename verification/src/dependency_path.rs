use crate::pkg_name_ver_peer::{ParsePkgNameVerPeerError, PkgNameVerPeer, PkgNameVerPeerView};
use crate::text::{
    find_char, first_index, lemma_first_index, lemma_first_index_is, str_chars, string_from_chars,
    text_of,
};
use vstd::prelude::*;

verus! {

/// Key of a package in a lockfile: the identity of the package, behind the
/// registry it comes from where that is not the default one.
///
/// Syntax: `{custom_registry}/{name}@{version}({peers})`
///
/// Examples: `/ts-node@10.9.1`, `registry.npmjs.com/ts-node@10.9.1(@types/node@18.7.19)`
#[derive(Debug, Clone, PartialEq, Eq, Hash)]
pub struct DependencyPath {
    pub custom_registry: Option<String>,
    pub package_specifier: PkgNameVerPeer,
}

/// Mathematical value of a [`DependencyPath`].
pub struct DependencyPathView {
    pub custom_registry: Option<Seq<char>>,
    pub package_specifier: PkgNameVerPeerView,
}

impl View for DependencyPath {
    type V = DependencyPathView;

    open spec fn view(&self) -> DependencyPathView {
        DependencyPathView {
            custom_registry: text_of(self.custom_registry),
            package_specifier: self.package_specifier@,
        }
    }
}

/// Why a text is not a dependency path.
#[derive(Debug, Clone, Copy, PartialEq, Eq, Structural)]
pub enum ParseDependencyPathError {
    /// The text holds no `/`.
    InvalidSyntax,
    /// What stands behind the first `/` is not an identity.
    ParsePackageSpecifierFailure(ParsePkgNameVerPeerError),
}

/// A registry as it is written in a dependency path: not empty, and without `/`.
pub open spec fn is_registry(registry: Seq<char>) -> bool {
    registry.len() > 0 && forall|i: int| 0 <= i < registry.len() ==> registry[i] != '/'
}

impl DependencyPathView {
    /// The identity is well formed, and so is the registry where there is one.
    pub open spec fn wf(self) -> bool {
        &&& self.package_specifier.wf()
        &&& self.custom_registry matches Some(registry) ==> is_registry(registry)
    }

    /// The registry as it is written: nothing where there is none.
    pub open spec fn registry_text(self) -> Seq<char> {
        match self.custom_registry {
            Some(registry) => registry,
            None => Seq::<char>::empty(),
        }
    }

    /// The canonical text: the registry, a `/`, and the identity.
    pub open spec fn text(self) -> Seq<char> {
        self.registry_text() + seq!['/'] + self.package_specifier.text()
    }

    /// What `text` denotes: the registry ends at the first `/`.
    pub open spec fn parse(text: Seq<char>) -> Result<DependencyPathView, ParseDependencyPathError> {
        let slash = first_index(text, '/', 0);
        if slash >= text.len() {
            Err(ParseDependencyPathError::InvalidSyntax)
        } else {
            match PkgNameVerPeerView::parse(text.subrange(slash + 1, text.len() as int)) {
                Err(error) => Err(ParseDependencyPathError::ParsePackageSpecifierFailure(error)),
                Ok(package_specifier) => Ok(
                    DependencyPathView {
                        custom_registry: if slash == 0 {
                            None
                        } else {
                            Some(text.subrange(0, slash))
                        },
                        package_specifier,
                    },
                ),
            }
        }
    }

    /// Reading the canonical text of a dependency path gives it back.
    pub proof fn lemma_parse_text(self)
        requires
            self.wf(),
        ensures
            Self::parse(self.text()) == Ok::<DependencyPathView, ParseDependencyPathError>(self),
    {
        let text = self.text();
        let registry = self.registry_text();
        let slash = registry.len() as int;
        self.package_specifier.lemma_parse_text();
        lemma_first_index_is(text, '/', 0, slash);
        assert(text.subrange(0, slash) =~= registry);
        assert(text.subrange(slash + 1, text.len() as int) =~= self.package_specifier.text());
    }

    /// A text that is read as a dependency path is its canonical text.
    pub proof fn lemma_text_parse(text: Seq<char>)
        requires
            Self::parse(text) is Ok,
        ensures
            Self::parse(text)->Ok_0.wf(),
            Self::parse(text)->Ok_0.text() == text,
    {
        let slash = first_index(text, '/', 0);
        lemma_first_index(text, '/', 0);
        PkgNameVerPeerView::lemma_text_parse(text.subrange(slash + 1, text.len() as int));
    }
}

impl DependencyPath {
    /// Reads a dependency path from its canonical text.
    pub fn parse(text: &str) -> (parsed: Result<DependencyPath, ParseDependencyPathError>)
        ensures
            parsed matches Ok(path) ==> DependencyPathView::parse(text@) == Ok::<
                DependencyPathView,
                ParseDependencyPathError,
            >(path@),
            parsed matches Err(error) ==> DependencyPathView::parse(text@) == Err::<
                DependencyPathView,
                ParseDependencyPathError,
            >(error),
    {
        let chars = str_chars(text);
        let len = chars.len();
        let slash = find_char(&chars, '/', 0, len);
        proof {
            lemma_first_index_is(text@, '/', 0, slash as int);
        }
        if slash == len {
            return Err(ParseDependencyPathError::InvalidSyntax);
        }
        let rest = string_from_chars(&chars, slash + 1, len);
        match PkgNameVerPeer::parse(rest.as_str()) {
            Err(error) => Err(ParseDependencyPathError::ParsePackageSpecifierFailure(error)),
            Ok(package_specifier) => {
                let custom_registry = if slash == 0 {
                    None
                } else {
                    Some(string_from_chars(&chars, 0, slash))
                };
                Ok(DependencyPath { custom_registry, package_specifier })
            },
        }
    }

    /// Writes the canonical text of the dependency path.
    pub fn to_string(&self) -> (text: String)
        ensures
            text@ == self@.text(),
    {
        proof {
            reveal_strlit("/");
        }
        let mut text = match &self.custom_registry {
            Some(registry) => registry.clone(),
            None => String::new(),
        };
        text.append("/");
        text.append(self.package_specifier.to_string().as_str());
        text
    }
}

impl std::str::FromStr for DependencyPath {
    type Err = ParseDependencyPathError;

    /// Reads a dependency path from its canonical text, as [`DependencyPath::parse`] does.
    fn from_str(text: &str) -> (parsed: Result<Self, Self::Err>)
        ensures
            parsed matches Ok(path) ==> DependencyPathView::parse(text@) == Ok::<
                DependencyPathView,
                ParseDependencyPathError,
            >(path@),
            parsed matches Err(error) ==> DependencyPathView::parse(text@) == Err::<
                DependencyPathView,
                ParseDependencyPathError,
            >(error),
    {
        DependencyPath::parse(text)
    }
}

} // verus!
