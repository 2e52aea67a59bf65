use crate::pkg_name::{lemma_store_text_of_name_ends, parse_name_in, PkgName, PkgNameView};
use crate::pkg_ver_peer::{
    is_barred, is_version, parse_ver_peer_in, peers_store_text, peers_wf, ParsePkgVerPeerError,
    PkgPeerView, PkgVerPeer, PkgVerPeerView,
};
use crate::text::{find_char, first_index, lemma_first_index, lemma_first_index_is, str_chars};
use vstd::prelude::*;

verus! {

/// Identity of an installed package: its name, its version, and the peers it
/// was resolved with.
///
/// Syntax: `{name}@{version}({peer}@{version})…`
///
/// Example: `react-json-view@1.21.3(@types/react@17.0.49)(react-dom@17.0.2)(react@17.0.2)`
#[derive(Debug, Clone, PartialEq, Eq, Hash)]
pub struct PkgNameVerPeer {
    pub name: PkgName,
    pub suffix: PkgVerPeer,
}

/// Mathematical value of a [`PkgNameVerPeer`].
pub struct PkgNameVerPeerView {
    pub name: PkgNameView,
    pub suffix: PkgVerPeerView,
}

impl View for PkgNameVerPeer {
    type V = PkgNameVerPeerView;

    open spec fn view(&self) -> PkgNameVerPeerView {
        PkgNameVerPeerView { name: self.name@, suffix: self.suffix@ }
    }
}

/// Why a text is not an identity.
#[derive(Debug, Clone, Copy, PartialEq, Eq, Structural)]
pub enum ParsePkgNameVerPeerError {
    /// No `@` follows the first character, so there is no version.
    MissingSuffix,
    /// What stands before the version is not a name.
    InvalidName,
    /// What stands behind the name is not a version with peers.
    ParseSuffixFailure(ParsePkgVerPeerError),
}

impl PkgNameVerPeerView {
    /// The name and what follows it are well formed.
    pub open spec fn wf(self) -> bool {
        self.name.wf() && self.suffix.wf()
    }

    /// The canonical text: `name@version(p1@v1)(p2@v2)…`.
    pub open spec fn text(self) -> Seq<char> {
        self.name.text() + seq!['@'] + self.suffix.text()
    }

    /// The name of the identity's directory in a virtual store:
    /// `name@version_p1@v1_p2@v2…`, with `+` for the scope separator of each name.
    pub open spec fn store_text(self) -> Seq<char> {
        self.name.store_text() + seq!['@'] + self.suffix.store_text()
    }

    /// What `text` denotes: an identity, or the reason why it denotes none.
    /// The name ends at the first `@` behind the first character.
    pub open spec fn parse(text: Seq<char>) -> Result<PkgNameVerPeerView, ParsePkgNameVerPeerError> {
        let at = first_index(text, '@', 1);
        if at >= text.len() {
            Err(ParsePkgNameVerPeerError::MissingSuffix)
        } else {
            match PkgNameView::parse(text.subrange(0, at)) {
                None => Err(ParsePkgNameVerPeerError::InvalidName),
                Some(name) => match PkgVerPeerView::parse(text.subrange(at + 1, text.len() as int)) {
                    Err(error) => Err(ParsePkgNameVerPeerError::ParseSuffixFailure(error)),
                    Ok(suffix) => Ok(PkgNameVerPeerView { name, suffix }),
                },
            }
        }
    }

    /// Reading the canonical text of an identity gives the identity back.
    pub proof fn lemma_parse_text(self)
        requires
            self.wf(),
        ensures
            Self::parse(self.text()) == Ok::<PkgNameVerPeerView, ParsePkgNameVerPeerError>(self),
    {
        let text = self.text();
        let name = self.name.text();
        let at = name.len() as int;
        self.name.lemma_parse_text();
        self.suffix.lemma_parse_text();
        lemma_first_index_is(text, '@', 1, at);
        assert(text.subrange(0, at) =~= name);
        assert(text.subrange(at + 1, text.len() as int) =~= self.suffix.text());
    }

    /// A text that is read as an identity is the canonical text of that
    /// identity, and the identity is well formed.
    pub proof fn lemma_text_parse(text: Seq<char>)
        requires
            Self::parse(text) is Ok,
        ensures
            Self::parse(text)->Ok_0.wf(),
            Self::parse(text)->Ok_0.text() == text,
    {
        let at = first_index(text, '@', 1);
        lemma_first_index(text, '@', 1);
        PkgNameView::lemma_text_parse(text.subrange(0, at));
        PkgVerPeerView::lemma_text_parse(text.subrange(at + 1, text.len() as int));
    }

    /// Two well-formed identities with the same canonical text are the same.
    pub proof fn lemma_text_injective(self, other: PkgNameVerPeerView)
        requires
            self.wf(),
            other.wf(),
            self.text() == other.text(),
        ensures
            self == other,
    {
        self.lemma_parse_text();
        other.lemma_parse_text();
    }

    /// Two well-formed identities with the same directory name are the
    /// same: identities that differ in the name, in the version, in a peer
    /// or in the order of their peers get different directories.
    pub proof fn lemma_store_text_injective(self, other: PkgNameVerPeerView)
        requires
            self.wf(),
            other.wf(),
            self.store_text() == other.store_text(),
        ensures
            self == other,
    {
        let behind = self.suffix.version + peers_store_text(self.suffix.peers);
        let other_behind = other.suffix.version + peers_store_text(other.suffix.peers);
        assert(self.store_text() =~= self.name.store_text() + seq!['@'] + behind);
        assert(other.store_text() =~= other.name.store_text() + seq!['@'] + other_behind);
        lemma_store_text_of_name_ends(self.name, behind, other.name, other_behind);
        lemma_version_ends(
            self.suffix.version,
            self.suffix.peers,
            other.suffix.version,
            other.suffix.peers,
        );
        lemma_peers_store_text_injective(self.suffix.peers, other.suffix.peers);
    }

    /// The directory name of a well-formed identity is a single path segment.
    pub proof fn lemma_store_text_is_segment(self)
        requires
            self.wf(),
        ensures
            self.store_text().len() > 0,
            forall|i: int| 0 <= i < self.store_text().len() ==> self.store_text()[i] != '/',
    {
        lemma_peers_store_text_shape(self.suffix.peers);
    }
}

/// The peers of a directory name hold no path separator.
pub proof fn lemma_peers_store_text_shape(peers: Seq<PkgPeerView>)
    requires
        peers_wf(peers),
    ensures
        forall|i: int|
            0 <= i < peers_store_text(peers).len() ==> peers_store_text(peers)[i] != '/',
    decreases peers.len(),
{
    if peers.len() > 0 {
        let peer = peers[0];
        let rest = peers.drop_first();
        let head = peer.store_text();
        let text = peers_store_text(peers);
        lemma_peers_store_text_shape(rest);
        assert forall|i: int| 0 <= i < text.len() implies text[i] != '/' by {
            if i >= head.len() {
                assert(text[i] == peers_store_text(rest)[i - head.len()]);
            }
        }
    }
}

/// A run of peers in a directory name is empty only if there is no peer,
/// and begins with `_` otherwise.
pub proof fn lemma_peers_store_text_begins(peers: Seq<PkgPeerView>)
    ensures
        peers.len() == 0 ==> peers_store_text(peers).len() == 0,
        peers.len() > 0 ==> peers_store_text(peers).len() > 0 && peers_store_text(peers)[0] == '_',
{
    if peers.len() > 0 {
        assert(peers_store_text(peers)[0] == peers[0].store_text()[0]);
    }
}

/// A version in a directory name ends where the first `_` stands: two
/// versions with runs of peers behind them are written alike only if the
/// versions are the same and the runs are.
pub proof fn lemma_version_ends(
    first: Seq<char>,
    first_peers: Seq<PkgPeerView>,
    second: Seq<char>,
    second_peers: Seq<PkgPeerView>,
)
    requires
        is_version(first),
        is_version(second),
        first + peers_store_text(first_peers) == second + peers_store_text(second_peers),
    ensures
        first == second,
        peers_store_text(first_peers) == peers_store_text(second_peers),
{
    let text = first + peers_store_text(first_peers);
    let other_text = second + peers_store_text(second_peers);
    let end = first.len() as int;
    let other_end = second.len() as int;
    lemma_peers_store_text_begins(first_peers);
    lemma_peers_store_text_begins(second_peers);
    assert forall|j: int| 0 <= j < end implies text[j] != '_' by {
        assert(text[j] == first[j]);
        assert(!is_barred(first[j]));
    }
    assert forall|j: int| 0 <= j < other_end implies text[j] != '_' by {
        assert(other_text[j] == second[j]);
        assert(!is_barred(second[j]));
    }
    if end < text.len() {
        assert(text[end] == peers_store_text(first_peers)[0]);
    }
    if other_end < other_text.len() {
        assert(other_text[other_end] == peers_store_text(second_peers)[0]);
    }
    lemma_first_index_is(text, '_', 0, end);
    lemma_first_index_is(text, '_', 0, other_end);
    assert(first =~= text.subrange(0, end));
    assert(second =~= other_text.subrange(0, other_end));
    assert(peers_store_text(first_peers) =~= text.subrange(end, text.len() as int));
    assert(peers_store_text(second_peers) =~= other_text.subrange(
        other_end,
        other_text.len() as int,
    ));
}

/// Two runs of well-formed peers that are written alike in a directory name
/// are the same run.
pub proof fn lemma_peers_store_text_injective(first: Seq<PkgPeerView>, second: Seq<PkgPeerView>)
    requires
        peers_wf(first),
        peers_wf(second),
        peers_store_text(first) == peers_store_text(second),
    ensures
        first == second,
    decreases first.len(),
{
    lemma_peers_store_text_begins(first);
    lemma_peers_store_text_begins(second);
    if first.len() == 0 {
        assert(first =~= second);
    } else {
        let peer = first[0];
        let other = second[0];
        let rest = first.drop_first();
        let other_rest = second.drop_first();
        assert(peer.wf() && other.wf());
        assert(peers_wf(rest)) by {
            assert forall|i: int| 0 <= i < rest.len() implies (#[trigger] rest[i]).wf() by {
                assert(rest[i] == first[i + 1]);
            }
        }
        assert(peers_wf(other_rest)) by {
            assert forall|i: int| 0 <= i < other_rest.len() implies (#[trigger] other_rest[i]).wf() by {
                assert(other_rest[i] == second[i + 1]);
            }
        }
        let text = peers_store_text(first);
        let behind = peer.version + peers_store_text(rest);
        let other_behind = other.version + peers_store_text(other_rest);
        assert(text.subrange(1, text.len() as int) =~= peer.name.store_text() + seq!['@']
            + behind);
        assert(peers_store_text(second).subrange(1, text.len() as int)
            =~= other.name.store_text() + seq!['@'] + other_behind);
        lemma_store_text_of_name_ends(peer.name, behind, other.name, other_behind);
        lemma_version_ends(peer.version, rest, other.version, other_rest);
        lemma_peers_store_text_injective(rest, other_rest);
        assert(first =~= seq![peer] + rest);
        assert(second =~= seq![other] + other_rest);
    }
}

impl PkgNameVerPeer {
    /// Puts a name and what follows it together.
    pub fn new(name: PkgName, suffix: PkgVerPeer) -> (identity: PkgNameVerPeer)
        ensures
            identity.name == name,
            identity.suffix == suffix,
    {
        PkgNameVerPeer { name, suffix }
    }

    /// Reads an identity from its canonical text.
    pub fn parse(text: &str) -> (parsed: Result<PkgNameVerPeer, ParsePkgNameVerPeerError>)
        ensures
            parsed matches Ok(identity) ==> PkgNameVerPeerView::parse(text@) == Ok::<
                PkgNameVerPeerView,
                ParsePkgNameVerPeerError,
            >(identity@),
            parsed matches Err(error) ==> PkgNameVerPeerView::parse(text@) == Err::<
                PkgNameVerPeerView,
                ParsePkgNameVerPeerError,
            >(error),
    {
        let chars = str_chars(text);
        let len = chars.len();
        if len == 0 {
            return Err(ParsePkgNameVerPeerError::MissingSuffix);
        }
        let at = find_char(&chars, '@', 1, len);
        proof {
            lemma_first_index_is(text@, '@', 1, at as int);
        }
        if at == len {
            return Err(ParsePkgNameVerPeerError::MissingSuffix);
        }
        match parse_name_in(&chars, 0, at) {
            None => Err(ParsePkgNameVerPeerError::InvalidName),
            Some(name) => match parse_ver_peer_in(&chars, at + 1, len) {
                Err(error) => Err(ParsePkgNameVerPeerError::ParseSuffixFailure(error)),
                Ok(suffix) => Ok(PkgNameVerPeer { name, suffix }),
            },
        }
    }

    /// Writes the canonical text of the identity.
    pub fn to_string(&self) -> (text: String)
        ensures
            text@ == self@.text(),
    {
        proof {
            reveal_strlit("@");
        }
        let mut text = self.name.to_string();
        text.append("@");
        text.append(self.suffix.to_string().as_str());
        text
    }

    /// Construct the name of the corresponding subdirectory in the virtual store directory.
    pub fn to_virtual_store_name(&self) -> (text: String)
        ensures
            text@ == self@.store_text(),
    {
        virtual_store_name(&self.name, &self.suffix)
    }
}

/// The name of the subdirectory that the package called `name`, with the
/// version and peers of `suffix`, has in a virtual store directory.
pub fn virtual_store_name(name: &PkgName, suffix: &PkgVerPeer) -> (text: String)
    ensures
        text@ == (PkgNameVerPeerView { name: name@, suffix: suffix@ }).store_text(),
{
    proof {
        reveal_strlit("@");
    }
    let mut text = name.to_virtual_store_name();
    text.append("@");
    text.append(suffix.to_virtual_store_name().as_str());
    text
}

impl std::str::FromStr for PkgNameVerPeer {
    type Err = ParsePkgNameVerPeerError;

    /// Reads an identity from its canonical text, as [`PkgNameVerPeer::parse`] does.
    fn from_str(text: &str) -> (parsed: Result<Self, Self::Err>)
        ensures
            parsed matches Ok(identity) ==> PkgNameVerPeerView::parse(text@) == Ok::<
                PkgNameVerPeerView,
                ParsePkgNameVerPeerError,
            >(identity@),
            parsed matches Err(error) ==> PkgNameVerPeerView::parse(text@) == Err::<
                PkgNameVerPeerView,
                ParsePkgNameVerPeerError,
            >(error),
    {
        PkgNameVerPeer::parse(text)
    }
}

} // verus!
