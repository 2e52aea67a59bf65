use crate::pkg_name::{parse_name_in, PkgName, PkgNameView};
use crate::text::{
    find_char, first_index, lemma_first_index, lemma_first_index_is, str_chars, string_from_chars,
};
use vstd::prelude::*;

verus! {

/// A character that cannot occur in a version: the parentheses that
/// enclose a peer, the path separator, the sign between a name and a
/// version, and the sign before a peer in a directory name.
pub open spec fn is_barred(c: char) -> bool {
    c == '(' || c == ')' || c == '/' || c == '@' || c == '_'
}

/// A version as it is written in an identity: not empty, and free of barred
/// characters.
pub open spec fn is_version(s: Seq<char>) -> bool {
    s.len() > 0 && forall|i: int| 0 <= i < s.len() ==> !is_barred(#[trigger] s[i])
}

/// One peer of a package: the peer's name and the version it was resolved to.
#[derive(Debug, Clone, PartialEq, Eq, Hash)]
pub struct PkgPeer {
    pub name: PkgName,
    pub version: String,
}

/// Mathematical value of a [`PkgPeer`].
pub struct PkgPeerView {
    pub name: PkgNameView,
    pub version: Seq<char>,
}

impl View for PkgPeer {
    type V = PkgPeerView;

    open spec fn view(&self) -> PkgPeerView {
        PkgPeerView { name: self.name@, version: self.version@ }
    }
}

impl PkgPeerView {
    /// The name is well formed and the version is a version.
    pub open spec fn wf(self) -> bool {
        self.name.wf() && is_version(self.version)
    }

    /// What stands between the parentheses: `name@version`.
    pub open spec fn inner_text(self) -> Seq<char> {
        self.name.text() + seq!['@'] + self.version
    }

    /// The peer as it is written in an identity: `(name@version)`.
    pub open spec fn text(self) -> Seq<char> {
        seq!['('] + self.inner_text() + seq![')']
    }

    /// The peer as it is written in a directory name: `_name@version`, the
    /// name in its directory form.
    pub open spec fn store_text(self) -> Seq<char> {
        seq!['_'] + self.name.store_text() + seq!['@'] + self.version
    }

    /// The peer that the text between two parentheses denotes, if any.
    pub open spec fn parse_inner(inner: Seq<char>) -> Option<PkgPeerView> {
        let at = first_index(inner, '@', 1);
        let version = inner.subrange(at + 1, inner.len() as int);
        if at < inner.len() && is_version(version) {
            match PkgNameView::parse(inner.subrange(0, at)) {
                Some(name) => Some(PkgPeerView { name, version }),
                None => None,
            }
        } else {
            None
        }
    }

    /// Reading what stands between the parentheses of a written peer gives
    /// the peer back; no `)` stands there.
    pub proof fn lemma_parse_inner_text(self)
        requires
            self.wf(),
        ensures
            Self::parse_inner(self.inner_text()) == Some(self),
            forall|i: int| 0 <= i < self.inner_text().len() ==> self.inner_text()[i] != ')',
    {
        let inner = self.inner_text();
        let name = self.name.text();
        let at = name.len() as int;
        self.name.lemma_parse_text();
        lemma_first_index_is(inner, '@', 1, at);
        assert(inner.subrange(0, at) =~= name);
        assert(inner.subrange(at + 1, inner.len() as int) =~= self.version);
    }

    /// A text that is read as a peer is what that peer is written as, and
    /// the peer is well formed.
    pub proof fn lemma_inner_text_parse(inner: Seq<char>)
        requires
            Self::parse_inner(inner) is Some,
        ensures
            Self::parse_inner(inner)->0.wf(),
            Self::parse_inner(inner)->0.inner_text() == inner,
    {
        let at = first_index(inner, '@', 1);
        lemma_first_index(inner, '@', 1);
        PkgNameView::lemma_text_parse(inner.subrange(0, at));
    }
}

/// The views of a sequence of peers.
pub open spec fn peer_views(peers: Seq<PkgPeer>) -> Seq<PkgPeerView> {
    peers.map_values(|peer: PkgPeer| peer@)
}

/// The peers of an identity written one after the other: `(p1@v1)(p2@v2)…`.
pub open spec fn peers_text(peers: Seq<PkgPeerView>) -> Seq<char>
    decreases peers.len(),
{
    if peers.len() == 0 {
        Seq::<char>::empty()
    } else {
        peers[0].text() + peers_text(peers.drop_first())
    }
}

/// The peers of an identity as they are written in a directory name.
pub open spec fn peers_store_text(peers: Seq<PkgPeerView>) -> Seq<char>
    decreases peers.len(),
{
    if peers.len() == 0 {
        Seq::<char>::empty()
    } else {
        peers[0].store_text() + peers_store_text(peers.drop_first())
    }
}

/// Every peer of the sequence is well formed.
pub open spec fn peers_wf(peers: Seq<PkgPeerView>) -> bool {
    forall|i: int| 0 <= i < peers.len() ==> (#[trigger] peers[i]).wf()
}

/// Writing one more peer appends its text to the text of the others.
pub proof fn lemma_peers_text_push(peers: Seq<PkgPeerView>, peer: PkgPeerView)
    ensures
        peers_text(peers.push(peer)) == peers_text(peers) + peer.text(),
        peers_store_text(peers.push(peer)) == peers_store_text(peers) + peer.store_text(),
    decreases peers.len(),
{
    let pushed = peers.push(peer);
    if peers.len() == 0 {
        assert(peers_text(pushed.drop_first()) =~= Seq::<char>::empty());
        assert(peers_store_text(pushed.drop_first()) =~= Seq::<char>::empty());
    } else {
        assert(pushed.drop_first() =~= peers.drop_first().push(peer));
        lemma_peers_text_push(peers.drop_first(), peer);
    }
}

/// Why the part of an identity behind the name could not be read.
#[derive(Debug, Clone, Copy, PartialEq, Eq, Structural)]
pub enum ParsePkgVerPeerError {
    /// The version is empty or holds `)`, `/`, `@` or `_`.
    InvalidVersion,
    /// A peer does not start with `(`, or its `)` is missing.
    MismatchedParenthesis,
    /// What stands between two parentheses is not `name@version`.
    InvalidPeer,
}

/// Puts `peers` in front of the peers of `rest`, and keeps its error.
pub open spec fn prepend_peers(
    peers: Seq<PkgPeerView>,
    rest: Result<Seq<PkgPeerView>, ParsePkgVerPeerError>,
) -> Result<Seq<PkgPeerView>, ParsePkgVerPeerError> {
    match rest {
        Ok(more) => Ok(peers + more),
        Err(error) => Err(error),
    }
}

/// The peers that `text` denotes: a possibly empty run of `(name@version)`.
pub open spec fn parse_peers(text: Seq<char>) -> Result<Seq<PkgPeerView>, ParsePkgVerPeerError>
    decreases text.len(),
{
    if text.len() == 0 {
        Ok(Seq::<PkgPeerView>::empty())
    } else if text[0] != '(' {
        Err(ParsePkgVerPeerError::MismatchedParenthesis)
    } else {
        let close = first_index(text, ')', 1);
        if close < 1 || close >= text.len() {
            Err(ParsePkgVerPeerError::MismatchedParenthesis)
        } else {
            match PkgPeerView::parse_inner(text.subrange(1, close)) {
                None => Err(ParsePkgVerPeerError::InvalidPeer),
                Some(peer) => prepend_peers(
                    seq![peer],
                    parse_peers(text.subrange(close + 1, text.len() as int)),
                ),
            }
        }
    }
}

/// Reading a written run of peers gives the peers back; a run that is not
/// empty starts with `(`.
pub proof fn lemma_parse_peers_text(peers: Seq<PkgPeerView>)
    requires
        peers_wf(peers),
    ensures
        parse_peers(peers_text(peers)) == Ok::<Seq<PkgPeerView>, ParsePkgVerPeerError>(peers),
        peers.len() > 0 ==> peers_text(peers).len() > 0 && peers_text(peers)[0] == '(',
    decreases peers.len(),
{
    if peers.len() > 0 {
        let peer = peers[0];
        let rest = peers.drop_first();
        let text = peers_text(peers);
        let inner = peer.inner_text();
        let close = 1 + inner.len() as int;
        peer.lemma_parse_inner_text();
        lemma_parse_peers_text(rest);
        lemma_first_index_is(text, ')', 1, close);
        assert(text.subrange(1, close) =~= inner);
        assert(text.subrange(close + 1, text.len() as int) =~= peers_text(rest));
        assert(seq![peer] + rest =~= peers);
    } else {
        assert(peers =~= Seq::<PkgPeerView>::empty());
    }
}

/// A text that is read as a run of peers is what these peers are written
/// as, and the peers are well formed.
pub proof fn lemma_peers_text_parse(text: Seq<char>)
    requires
        parse_peers(text) is Ok,
    ensures
        peers_wf(parse_peers(text)->Ok_0),
        peers_text(parse_peers(text)->Ok_0) == text,
    decreases text.len(),
{
    if text.len() > 0 {
        let close = first_index(text, ')', 1);
        lemma_first_index(text, ')', 1);
        let inner = text.subrange(1, close);
        let tail = text.subrange(close + 1, text.len() as int);
        let peer = PkgPeerView::parse_inner(inner)->0;
        let rest = parse_peers(tail)->Ok_0;
        PkgPeerView::lemma_inner_text_parse(inner);
        lemma_peers_text_parse(tail);
        let peers = seq![peer] + rest;
        assert(peers.drop_first() =~= rest);
    }
}

/// The part of an identity behind the name: the version of the package and
/// the peers it was resolved with, in their order.
///
/// # Example
/// `1.21.3(@types/react@17.0.49)(react-dom@17.0.2)(react@17.0.2)`
#[derive(Debug, Clone, PartialEq, Eq, Hash)]
pub struct PkgVerPeer {
    pub version: String,
    pub peers: Vec<PkgPeer>,
}

/// Mathematical value of a [`PkgVerPeer`].
pub struct PkgVerPeerView {
    pub version: Seq<char>,
    pub peers: Seq<PkgPeerView>,
}

impl View for PkgVerPeer {
    type V = PkgVerPeerView;

    open spec fn view(&self) -> PkgVerPeerView {
        PkgVerPeerView { version: self.version@, peers: peer_views(self.peers@) }
    }
}

impl PkgVerPeerView {
    /// The version is a version and every peer is well formed.
    pub open spec fn wf(self) -> bool {
        is_version(self.version) && peers_wf(self.peers)
    }

    /// The canonical text: `version(p1@v1)(p2@v2)…`.
    pub open spec fn text(self) -> Seq<char> {
        self.version + peers_text(self.peers)
    }

    /// The text in a directory name: `version_p1@v1_p2@v2…`.
    pub open spec fn store_text(self) -> Seq<char> {
        self.version + peers_store_text(self.peers)
    }

    /// What `text` denotes: a version and its peers, or the reason why it denotes none.
    pub open spec fn parse(text: Seq<char>) -> Result<PkgVerPeerView, ParsePkgVerPeerError> {
        let open = first_index(text, '(', 0);
        let version = text.subrange(0, open);
        if !is_version(version) {
            Err(ParsePkgVerPeerError::InvalidVersion)
        } else {
            match parse_peers(text.subrange(open, text.len() as int)) {
                Ok(peers) => Ok(PkgVerPeerView { version, peers }),
                Err(error) => Err(error),
            }
        }
    }

    /// Parsing undoes writing.
    pub proof fn lemma_parse_text(self)
        requires
            self.wf(),
        ensures
            Self::parse(self.text()) == Ok::<PkgVerPeerView, ParsePkgVerPeerError>(self),
    {
        let text = self.text();
        let open = self.version.len() as int;
        lemma_parse_peers_text(self.peers);
        lemma_first_index_is(text, '(', 0, open);
        assert(text.subrange(0, open) =~= self.version);
        assert(text.subrange(open, text.len() as int) =~= peers_text(self.peers));
    }

    /// Writing undoes parsing, and only well-formed values are parsed.
    pub proof fn lemma_text_parse(text: Seq<char>)
        requires
            Self::parse(text) is Ok,
        ensures
            Self::parse(text)->Ok_0.wf(),
            Self::parse(text)->Ok_0.text() == text,
    {
        let open = first_index(text, '(', 0);
        lemma_first_index(text, '(', 0);
        lemma_peers_text_parse(text.subrange(open, text.len() as int));
    }
}

/// Whether the characters of `chars` from `from` up to `to` form a version.
pub fn is_version_segment(chars: &Vec<char>, from: usize, to: usize) -> (valid: bool)
    requires
        from <= to <= chars@.len(),
    ensures
        valid == is_version(chars@.subrange(from as int, to as int)),
{
    let ghost segment = chars@.subrange(from as int, to as int);
    if from == to {
        return false;
    }
    let mut i: usize = from;
    while i < to
        invariant
            from <= i <= to <= chars@.len(),
            segment == chars@.subrange(from as int, to as int),
            forall|j: int|
                0 <= j < i - from ==> !is_barred(#[trigger] segment[j]),
        decreases to - i,
    {
        let c = chars[i];
        if c == '(' || c == ')' || c == '/' || c == '@' || c == '_' {
            assert(is_barred(segment[i - from]));
            return false;
        }
        i += 1;
    }
    true
}

/// Reads `name@version` from the characters of `chars` between `from` and `to`.
pub fn parse_peer_in(chars: &Vec<char>, from: usize, to: usize) -> (parsed: Option<PkgPeer>)
    requires
        from <= to <= chars@.len(),
    ensures
        parsed is Some <==> PkgPeerView::parse_inner(chars@.subrange(from as int, to as int)) is Some,
        parsed matches Some(peer) ==> PkgPeerView::parse_inner(
            chars@.subrange(from as int, to as int),
        ) == Some(peer@),
{
    let ghost inner = chars@.subrange(from as int, to as int);
    if from == to {
        return None;
    }
    let at = find_char(chars, '@', from + 1, to);
    proof {
        lemma_first_index_is(inner, '@', 1, at - from);
    }
    if at == to {
        return None;
    }
    proof {
        assert(inner.subrange(0, at - from) =~= chars@.subrange(from as int, at as int));
        assert(inner.subrange(at - from + 1, inner.len() as int) =~= chars@.subrange(
            at + 1,
            to as int,
        ));
    }
    if !is_version_segment(chars, at + 1, to) {
        return None;
    }
    match parse_name_in(chars, from, at) {
        Some(name) => Some(PkgPeer { name, version: string_from_chars(chars, at + 1, to) }),
        None => None,
    }
}

/// Reads a run of peers from the characters of `chars` between `from` and `to`.
pub fn parse_peers_in(chars: &Vec<char>, from: usize, to: usize) -> (parsed: Result<
    Vec<PkgPeer>,
    ParsePkgVerPeerError,
>)
    requires
        from <= to <= chars@.len(),
    ensures
        parsed matches Ok(peers) ==> parse_peers(chars@.subrange(from as int, to as int)) == Ok::<
            Seq<PkgPeerView>,
            ParsePkgVerPeerError,
        >(peer_views(peers@)),
        parsed matches Err(error) ==> parse_peers(chars@.subrange(from as int, to as int)) == Err::<
            Seq<PkgPeerView>,
            ParsePkgVerPeerError,
        >(error),
{
    let ghost whole = chars@.subrange(from as int, to as int);
    let mut peers: Vec<PkgPeer> = Vec::new();
    let mut pos: usize = from;
    proof {
        match parse_peers(whole) {
            Ok(more) => assert(Seq::<PkgPeerView>::empty() + more =~= more),
            Err(_) => {},
        }
    }
    while pos < to
        invariant
            from <= pos <= to <= chars@.len(),
            whole == chars@.subrange(from as int, to as int),
            parse_peers(whole) == prepend_peers(
                peer_views(peers@),
                parse_peers(chars@.subrange(pos as int, to as int)),
            ),
        decreases to - pos,
    {
        let ghost rest = chars@.subrange(pos as int, to as int);
        if chars[pos] != '(' {
            return Err(ParsePkgVerPeerError::MismatchedParenthesis);
        }
        assert(rest[0] == '(');
        let close = find_char(chars, ')', pos + 1, to);
        proof {
            lemma_first_index_is(rest, ')', 1, close - pos);
        }
        if close == to {
            return Err(ParsePkgVerPeerError::MismatchedParenthesis);
        }
        proof {
            assert(rest.subrange(1, close - pos) =~= chars@.subrange(pos + 1, close as int));
            assert(rest.subrange(close - pos + 1, rest.len() as int) =~= chars@.subrange(
                close + 1,
                to as int,
            ));
        }
        match parse_peer_in(chars, pos + 1, close) {
            None => {
                return Err(ParsePkgVerPeerError::InvalidPeer);
            },
            Some(peer) => {
                let ghost before = peer_views(peers@);
                let ghost tail = parse_peers(chars@.subrange(close + 1, to as int));
                peers.push(peer);
                proof {
                    assert(peer_views(peers@) =~= before.push(peer@));
                    match tail {
                        Ok(more) => {
                            assert(before + (seq![peer@] + more) =~= before.push(peer@) + more);
                        },
                        Err(_) => {},
                    }
                }
                pos = close + 1;
            },
        }
    }
    Ok(peers)
}

/// Reads a version and its peers from the characters of `chars` between `from` and `to`.
pub fn parse_ver_peer_in(chars: &Vec<char>, from: usize, to: usize) -> (parsed: Result<
    PkgVerPeer,
    ParsePkgVerPeerError,
>)
    requires
        from <= to <= chars@.len(),
    ensures
        parsed matches Ok(suffix) ==> PkgVerPeerView::parse(
            chars@.subrange(from as int, to as int),
        ) == Ok::<PkgVerPeerView, ParsePkgVerPeerError>(suffix@),
        parsed matches Err(error) ==> PkgVerPeerView::parse(
            chars@.subrange(from as int, to as int),
        ) == Err::<PkgVerPeerView, ParsePkgVerPeerError>(error),
{
    let ghost text = chars@.subrange(from as int, to as int);
    let open = find_char(chars, '(', from, to);
    proof {
        lemma_first_index_is(text, '(', 0, open - from);
        assert(text.subrange(0, open - from) =~= chars@.subrange(from as int, open as int));
        assert(text.subrange(open - from, text.len() as int) =~= chars@.subrange(
            open as int,
            to as int,
        ));
    }
    if !is_version_segment(chars, from, open) {
        return Err(ParsePkgVerPeerError::InvalidVersion);
    }
    match parse_peers_in(chars, open, to) {
        Ok(peers) => Ok(PkgVerPeer { version: string_from_chars(chars, from, open), peers }),
        Err(error) => Err(error),
    }
}

impl PkgVerPeer {
    /// Reads `version(p1@v1)(p2@v2)…`.
    pub fn parse(text: &str) -> (parsed: Result<PkgVerPeer, ParsePkgVerPeerError>)
        ensures
            parsed matches Ok(suffix) ==> PkgVerPeerView::parse(text@) == Ok::<
                PkgVerPeerView,
                ParsePkgVerPeerError,
            >(suffix@),
            parsed matches Err(error) ==> PkgVerPeerView::parse(text@) == Err::<
                PkgVerPeerView,
                ParsePkgVerPeerError,
            >(error),
    {
        let chars = str_chars(text);
        assert(chars@.subrange(0, chars@.len() as int) =~= text@);
        parse_ver_peer_in(&chars, 0, chars.len())
    }

    /// The version, without the peers.
    pub fn version(&self) -> (version: &String)
        ensures
            version@ == self@.version,
    {
        &self.version
    }

    /// Writes the canonical text.
    pub fn to_string(&self) -> (text: String)
        ensures
            text@ == self@.text(),
    {
        let mut text = self.version.clone();
        let mut i: usize = 0;
        while i < self.peers.len()
            invariant
                0 <= i <= self.peers@.len(),
                text@ == self.version@ + peers_text(peer_views(self.peers@).take(i as int)),
            decreases self.peers@.len() - i,
        {
            proof {
                reveal_strlit("(");
                reveal_strlit("@");
                reveal_strlit(")");
            }
            let peer = &self.peers[i];
            text.append("(");
            text.append(peer.name.to_string().as_str());
            text.append("@");
            text.append(peer.version.as_str());
            text.append(")");
            proof {
                let views = peer_views(self.peers@);
                assert(views.take(i + 1) =~= views.take(i as int).push(peer@));
                lemma_peers_text_push(views.take(i as int), peer@);
            }
            i += 1;
        }
        assert(peer_views(self.peers@).take(i as int) =~= peer_views(self.peers@));
        text
    }

    /// Writes the text as it stands in a directory name of the virtual store.
    pub fn to_virtual_store_name(&self) -> (text: String)
        ensures
            text@ == self@.store_text(),
    {
        let mut text = self.version.clone();
        let mut i: usize = 0;
        while i < self.peers.len()
            invariant
                0 <= i <= self.peers@.len(),
                text@ == self.version@ + peers_store_text(peer_views(self.peers@).take(i as int)),
            decreases self.peers@.len() - i,
        {
            proof {
                reveal_strlit("_");
                reveal_strlit("@");
            }
            let peer = &self.peers[i];
            text.append("_");
            text.append(peer.name.to_virtual_store_name().as_str());
            text.append("@");
            text.append(peer.version.as_str());
            proof {
                let views = peer_views(self.peers@);
                assert(views.take(i + 1) =~= views.take(i as int).push(peer@));
                lemma_peers_text_push(views.take(i as int), peer@);
            }
            i += 1;
        }
        assert(peer_views(self.peers@).take(i as int) =~= peer_views(self.peers@));
        text
    }
}

impl std::str::FromStr for PkgVerPeer {
    type Err = ParsePkgVerPeerError;

    /// Reads `version(p1@v1)(p2@v2)…`, as [`PkgVerPeer::parse`] does.
    fn from_str(text: &str) -> (parsed: Result<Self, Self::Err>)
        ensures
            parsed matches Ok(suffix) ==> PkgVerPeerView::parse(text@) == Ok::<
                PkgVerPeerView,
                ParsePkgVerPeerError,
            >(suffix@),
            parsed matches Err(error) ==> PkgVerPeerView::parse(text@) == Err::<
                PkgVerPeerView,
                ParsePkgVerPeerError,
            >(error),
    {
        PkgVerPeer::parse(text)
    }
}

} // verus!
