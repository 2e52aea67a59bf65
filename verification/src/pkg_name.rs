use crate::text::{
    find_char, first_index, lemma_first_index, lemma_first_index_is, str_chars, string_from_chars,
};
use vstd::prelude::*;

verus! {

/// Characters that structure an identity or the name of its directory and
/// therefore cannot occur inside a name segment: the scope marker, the scope
/// separator, the sign that stands for the separator in a directory name,
/// and the parentheses that enclose a peer.
pub open spec fn is_reserved(c: char) -> bool {
    c == '@' || c == '/' || c == '+' || c == '(' || c == ')'
}

/// A segment of a name: not empty, and free of reserved characters.
pub open spec fn is_plain(s: Seq<char>) -> bool {
    s.len() > 0 && forall|i: int| 0 <= i < s.len() ==> !is_reserved(#[trigger] s[i])
}

/// Name of a package, with the scope apart from the bare name.
///
/// # Examples
/// `@algolia/autocomplete-core` has scope `algolia` and bare name
/// `autocomplete-core`; `react` has no scope.
#[derive(Debug, Clone, PartialEq, Eq, Hash)]
pub struct PkgName {
    /// The scope, without the leading `@`.
    pub scope: Option<String>,
    /// The name without its scope.
    pub bare: String,
}

/// Mathematical value of a [`PkgName`].
pub struct PkgNameView {
    pub scope: Option<Seq<char>>,
    pub bare: Seq<char>,
}

impl PkgNameView {
    /// Both segments are plain.
    pub open spec fn wf(self) -> bool {
        &&& is_plain(self.bare)
        &&& self.scope matches Some(scope) ==> is_plain(scope)
    }

    /// The name as it is written in an identity: `@scope/bare` or `bare`.
    pub open spec fn text(self) -> Seq<char> {
        match self.scope {
            Some(scope) => seq!['@'] + scope + seq!['/'] + self.bare,
            None => self.bare,
        }
    }

    /// The name as part of a directory name: the scope separator becomes `+`.
    pub open spec fn store_text(self) -> Seq<char> {
        match self.scope {
            Some(scope) => seq!['@'] + scope + seq!['+'] + self.bare,
            None => self.bare,
        }
    }

    /// The name that `text` denotes, if it denotes one.
    pub open spec fn parse(text: Seq<char>) -> Option<PkgNameView> {
        if text.len() > 0 && text[0] == '@' {
            let slash = first_index(text, '/', 1);
            let name = PkgNameView {
                scope: Some(text.subrange(1, slash)),
                bare: text.subrange(slash + 1, text.len() as int),
            };
            if slash < text.len() && name.wf() {
                Some(name)
            } else {
                None
            }
        } else if is_plain(text) {
            Some(PkgNameView { scope: None, bare: text })
        } else {
            None
        }
    }

    /// Parsing undoes writing.
    pub proof fn lemma_parse_text(self)
        requires
            self.wf(),
        ensures
            Self::parse(self.text()) == Some(self),
    {
        if let Some(scope) = self.scope {
            let text = self.text();
            let slash = 1 + scope.len() as int;
            lemma_first_index_is(text, '/', 1, slash);
            assert(text.subrange(1, slash) =~= scope);
            assert(text.subrange(slash + 1, text.len() as int) =~= self.bare);
        }
    }

    /// Writing undoes parsing, and only well-formed names are parsed.
    pub proof fn lemma_text_parse(text: Seq<char>)
        requires
            Self::parse(text) is Some,
        ensures
            Self::parse(text)->0.wf(),
            Self::parse(text)->0.text() == text,
    {
        if text.len() > 0 && text[0] == '@' {
            lemma_first_index(text, '/', 1);
        }
    }
}

/// Two names that are written alike in a directory name are the same name.
pub proof fn lemma_store_text_of_name_injective(first: PkgNameView, second: PkgNameView)
    requires
        first.wf(),
        second.wf(),
        first.store_text() == second.store_text(),
    ensures
        first == second,
{
    let text = first.store_text();
    assert(!is_reserved(first.bare[0]) && !is_reserved(second.bare[0]));
    match (first.scope, second.scope) {
        (Some(scope), Some(other)) => {
            let plus = 1 + scope.len() as int;
            let other_plus = 1 + other.len() as int;
            assert forall|j: int| 1 <= j < plus implies text[j] != '+' by {
                assert(text[j] == scope[j - 1]);
            }
            assert forall|j: int| 1 <= j < other_plus implies text[j] != '+' by {
                assert(second.store_text()[j] == other[j - 1]);
            }
            assert(first.store_text()[plus] == '+');
            assert(second.store_text()[other_plus] == '+');
            lemma_first_index_is(text, '+', 1, plus);
            lemma_first_index_is(text, '+', 1, other_plus);
            assert(scope =~= text.subrange(1, plus));
            assert(other =~= text.subrange(1, other_plus));
            assert(first.bare =~= text.subrange(plus + 1, text.len() as int));
            assert(second.bare =~= text.subrange(other_plus + 1, text.len() as int));
        },
        (Some(scope), None) => {
            assert(first.store_text()[0] == '@');
            assert(second.store_text()[0] == second.bare[0]);
        },
        (None, Some(other)) => {
            assert(second.store_text()[0] == '@');
            assert(first.store_text()[0] == first.bare[0]);
        },
        (None, None) => {},
    }
}

/// A name in a directory name ends where the first `@` behind its first
/// character stands: two names with an `@` and more behind them are written
/// alike only if the names are the same and what stands behind them is.
pub proof fn lemma_store_text_of_name_ends(
    first: PkgNameView,
    first_rest: Seq<char>,
    second: PkgNameView,
    second_rest: Seq<char>,
)
    requires
        first.wf(),
        second.wf(),
        first.store_text() + seq!['@'] + first_rest == second.store_text() + seq!['@']
            + second_rest,
    ensures
        first == second,
        first_rest == second_rest,
{
    let text = first.store_text() + seq!['@'] + first_rest;
    let other_text = second.store_text() + seq!['@'] + second_rest;
    lemma_no_at_inside_store_text(first);
    lemma_no_at_inside_store_text(second);
    let end = first.store_text().len() as int;
    let other_end = second.store_text().len() as int;
    assert forall|j: int| 1 <= j < end implies text[j] != '@' by {
        assert(text[j] == first.store_text()[j]);
    }
    assert forall|j: int| 1 <= j < other_end implies text[j] != '@' by {
        assert(other_text[j] == second.store_text()[j]);
    }
    assert(text[end] == '@');
    assert(other_text[other_end] == '@');
    lemma_first_index_is(text, '@', 1, end);
    lemma_first_index_is(text, '@', 1, other_end);
    assert(first.store_text() =~= text.subrange(0, end));
    assert(second.store_text() =~= other_text.subrange(0, other_end));
    assert(first_rest =~= text.subrange(end + 1, text.len() as int));
    assert(second_rest =~= other_text.subrange(other_end + 1, other_text.len() as int));
    lemma_store_text_of_name_injective(first, second);
}

/// A name in a directory name is not empty and holds no `@` behind its first character.
pub proof fn lemma_no_at_inside_store_text(name: PkgNameView)
    requires
        name.wf(),
    ensures
        name.store_text().len() > 0,
        forall|j: int| 1 <= j < name.store_text().len() ==> name.store_text()[j] != '@',
{
    let text = name.store_text();
    match name.scope {
        Some(scope) => {
            assert forall|j: int| 1 <= j < text.len() implies text[j] != '@' by {
                if j <= scope.len() {
                    assert(text[j] == scope[j - 1]);
                } else if j > scope.len() + 1 {
                    assert(text[j] == name.bare[j - scope.len() - 2]);
                }
            }
        },
        None => {
            assert forall|j: int| 1 <= j < text.len() implies text[j] != '@' by {
                assert(!is_reserved(text[j]));
            }
        },
    }
}

impl View for PkgName {
    type V = PkgNameView;

    open spec fn view(&self) -> PkgNameView {
        PkgNameView {
            scope: match self.scope {
                Some(scope) => Some(scope@),
                None => None,
            },
            bare: self.bare@,
        }
    }
}

/// Whether the characters of `chars` from `from` up to `to` form a plain segment.
pub fn is_plain_segment(chars: &Vec<char>, from: usize, to: usize) -> (plain: bool)
    requires
        from <= to <= chars@.len(),
    ensures
        plain == is_plain(chars@.subrange(from as int, to as int)),
{
    let ghost segment = chars@.subrange(from as int, to as int);
    if from == to {
        return false;
    }
    let mut i: usize = from;
    while i < to
        invariant
            from <= i <= to <= chars@.len(),
            segment == chars@.subrange(from as int, to as int),
            forall|j: int| 0 <= j < i - from ==> !is_reserved(#[trigger] segment[j]),
        decreases to - i,
    {
        let c = chars[i];
        if c == '@' || c == '/' || c == '+' || c == '(' || c == ')' {
            assert(is_reserved(segment[i - from]));
            return false;
        }
        i += 1;
    }
    true
}

/// Reads a name from the characters of `chars` between `from` and `to`.
pub fn parse_name_in(chars: &Vec<char>, from: usize, to: usize) -> (parsed: Option<PkgName>)
    requires
        from <= to <= chars@.len(),
    ensures
        parsed is Some <==> PkgNameView::parse(chars@.subrange(from as int, to as int)) is Some,
        parsed matches Some(name) ==> PkgNameView::parse(
            chars@.subrange(from as int, to as int),
        ) == Some(name@),
{
    let ghost text = chars@.subrange(from as int, to as int);
    if from < to && chars[from] == '@' {
        let slash = find_char(chars, '/', from + 1, to);
        proof {
            lemma_first_index_is(text, '/', 1, slash - from);
            assert(text.subrange(1, slash - from) =~= chars@.subrange(from + 1, slash as int));
        }
        if slash == to {
            return None;
        }
        proof {
            assert(text.subrange(slash - from + 1, text.len() as int) =~= chars@.subrange(
                slash + 1,
                to as int,
            ));
        }
        if is_plain_segment(chars, from + 1, slash) && is_plain_segment(chars, slash + 1, to) {
            Some(
                PkgName {
                    scope: Some(string_from_chars(chars, from + 1, slash)),
                    bare: string_from_chars(chars, slash + 1, to),
                },
            )
        } else {
            None
        }
    } else if is_plain_segment(chars, from, to) {
        Some(PkgName { scope: None, bare: string_from_chars(chars, from, to) })
    } else {
        None
    }
}

impl PkgName {
    /// Reads a name: `@scope/bare` or `bare`, each segment plain.
    pub fn parse(text: &str) -> (parsed: Option<PkgName>)
        ensures
            parsed is Some <==> PkgNameView::parse(text@) is Some,
            parsed matches Some(name) ==> PkgNameView::parse(text@) == Some(name@),
    {
        let chars = str_chars(text);
        assert(chars@.subrange(0, chars@.len() as int) =~= text@);
        parse_name_in(&chars, 0, chars.len())
    }

    /// Writes the name as it stands in an identity.
    pub fn to_string(&self) -> (text: String)
        ensures
            text@ == self@.text(),
    {
        proof {
            reveal_strlit("@");
            reveal_strlit("/");
        }
        match &self.scope {
            Some(scope) => {
                let mut text = "@".to_owned();
                text.append(scope.as_str());
                text.append("/");
                text.append(self.bare.as_str());
                text
            },
            None => self.bare.clone(),
        }
    }

    /// Writes the name as it stands in a directory name of the virtual store.
    pub fn to_virtual_store_name(&self) -> (text: String)
        ensures
            text@ == self@.store_text(),
    {
        proof {
            reveal_strlit("@");
            reveal_strlit("+");
        }
        match &self.scope {
            Some(scope) => {
                let mut text = "@".to_owned();
                text.append(scope.as_str());
                text.append("+");
                text.append(self.bare.as_str());
                text
            },
            None => self.bare.clone(),
        }
    }
}

} // verus!
