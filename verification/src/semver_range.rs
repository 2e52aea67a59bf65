use crate::text::str_chars;
use vstd::prelude::*;

verus! {

/// A space or a tab.
pub open spec fn is_blank(c: char) -> bool {
    c == ' ' || c == '\t'
}

/// A sign that stands for any number in a version.
pub open spec fn is_wildcard(c: char) -> bool {
    c == 'x' || c == 'X' || c == '*'
}

/// A decimal digit.
pub open spec fn is_digit(c: char) -> bool {
    '0' <= c && c <= '9'
}

/// Whether a comparator of a range can begin at `at`: at the very start,
/// behind a blank, or behind the sign that joins two alternatives.
pub open spec fn begins_comparator(range: Seq<char>, at: int) -> bool {
    at == 0 || is_blank(range[at - 1]) || range[at - 1] == '|'
}

/// What may stand between an operator and the version behind it: blanks and
/// the letter `v`, and behind a tilde also `>`.
pub open spec fn is_lead(c: char, behind_tilde: bool) -> bool {
    is_blank(c) || c == 'v' || (behind_tilde && c == '>')
}

/// The first position from `from` on that holds no lead.
pub open spec fn behind_lead(range: Seq<char>, from: int, behind_tilde: bool) -> int
    decreases range.len() - from,
{
    if 0 <= from < range.len() && is_lead(range[from], behind_tilde) {
        behind_lead(range, from + 1, behind_tilde)
    } else {
        from
    }
}

/// The first position from `from` on that holds no digit.
pub open spec fn behind_digits(range: Seq<char>, from: int) -> int
    decreases range.len() - from,
{
    if 0 <= from < range.len() && is_digit(range[from]) {
        behind_digits(range, from + 1)
    } else {
        from
    }
}

/// Whether the version that begins at `at` has a wildcard for its major number.
pub open spec fn has_wild_major(range: Seq<char>, at: int) -> bool {
    0 <= at < range.len() && is_wildcard(range[at])
}

/// Whether the version that begins at `at` has a major number, a wildcard
/// for its minor number, and a patch number.
pub open spec fn has_wild_minor_with_patch(range: Seq<char>, at: int) -> bool {
    let dot = behind_digits(range, at);
    &&& 0 <= at < range.len()
    &&& is_digit(range[at])
    &&& dot + 3 < range.len()
    &&& range[dot] == '.'
    &&& is_wildcard(range[dot + 1])
    &&& range[dot + 2] == '.'
    &&& is_digit(range[dot + 3])
}

/// Whether a comparator begins at `at` that asks for exactly a version
/// whose major number is a wildcard, as `=*` and `= x` do.
pub open spec fn exact_wildcard_at(range: Seq<char>, at: int) -> bool {
    &&& range[at] == '='
    &&& begins_comparator(range, at)
    &&& has_wild_major(range, behind_lead(range, at + 1, false))
}

/// Whether a comparator begins at `at` that puts a tilde before a version
/// whose major number is a wildcard, or whose minor number is one while its
/// patch number is given, as `~*`, `~> x` and `~1.x.3` do.
pub open spec fn tilde_wildcard_at(range: Seq<char>, at: int) -> bool {
    let version = behind_lead(range, at + 1, true);
    &&& range[at] == '~'
    &&& begins_comparator(range, at)
    &&& (has_wild_major(range, version) || has_wild_minor_with_patch(range, version))
}

/// Whether a range holds a comparator that means nothing: an exact match
/// or a tilde on a version that is left open in the wrong place. The reader
/// of ranges cannot take such a range.
pub open spec fn is_senseless(range: Seq<char>) -> bool {
    exists|at: int|
        0 <= at < range.len() && (#[trigger] exact_wildcard_at(range, at) || tilde_wildcard_at(
            range,
            at,
        ))
}

/// Skips the leads from `from` on.
fn skip_lead(chars: &Vec<char>, from: usize, behind_tilde: bool) -> (to: usize)
    requires
        from <= chars@.len(),
    ensures
        to == behind_lead(chars@, from as int, behind_tilde),
        from <= to <= chars@.len(),
{
    let mut to: usize = from;
    while to < chars.len() && (chars[to] == ' ' || chars[to] == '\t' || chars[to] == 'v' || (
    behind_tilde && chars[to] == '>'))
        invariant
            from <= to <= chars@.len(),
            behind_lead(chars@, from as int, behind_tilde) == behind_lead(
                chars@,
                to as int,
                behind_tilde,
            ),
        decreases chars@.len() - to,
    {
        to += 1;
    }
    to
}

/// Skips the digits from `from` on.
fn skip_digits(chars: &Vec<char>, from: usize) -> (to: usize)
    requires
        from <= chars@.len(),
    ensures
        to == behind_digits(chars@, from as int),
        from <= to <= chars@.len(),
{
    let mut to: usize = from;
    while to < chars.len() && '0' <= chars[to] && chars[to] <= '9'
        invariant
            from <= to <= chars@.len(),
            behind_digits(chars@, from as int) == behind_digits(chars@, to as int),
        decreases chars@.len() - to,
    {
        to += 1;
    }
    to
}

/// Whether `c` is a wildcard.
fn wildcard(c: char) -> (wild: bool)
    ensures
        wild == is_wildcard(c),
{
    c == 'x' || c == 'X' || c == '*'
}

/// Whether a senseless comparator begins at `at`.
fn is_senseless_at(chars: &Vec<char>, at: usize) -> (senseless: bool)
    requires
        at < chars@.len(),
    ensures
        senseless == (exact_wildcard_at(chars@, at as int) || tilde_wildcard_at(chars@, at as int)),
{
    let c = chars[at];
    if c != '=' && c != '~' {
        return false;
    }
    if at > 0 && chars[at - 1] != ' ' && chars[at - 1] != '\t' && chars[at - 1] != '|' {
        return false;
    }
    let len = chars.len();
    let version = skip_lead(chars, at + 1, c == '~');
    if version == len {
        return false;
    }
    if wildcard(chars[version]) {
        return true;
    }
    if c == '=' || !('0' <= chars[version] && chars[version] <= '9') {
        return false;
    }
    let dot = skip_digits(chars, version);
    len - dot > 3 && chars[dot] == '.' && wildcard(chars[dot + 1]) && chars[dot + 2] == '.' && '0'
        <= chars[dot + 3] && chars[dot + 3] <= '9'
}

/// Whether the reader of ranges can take `range`: whether it holds no
/// senseless comparator.
pub fn is_readable_range(range: &str) -> (readable: bool)
    ensures
        readable == !is_senseless(range@),
{
    let chars = str_chars(range);
    let mut at: usize = 0;
    while at < chars.len()
        invariant
            0 <= at <= chars@.len(),
            chars@ == range@,
            forall|before: int|
                0 <= before < at ==> !(#[trigger] exact_wildcard_at(range@, before)
                    || tilde_wildcard_at(range@, before)),
        decreases chars@.len() - at,
    {
        if is_senseless_at(&chars, at) {
            assert(exact_wildcard_at(range@, at as int) || tilde_wildcard_at(range@, at as int));
            return false;
        }
        at += 1;
    }
    true
}

} // verus!
