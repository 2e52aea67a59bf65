use vstd::prelude::*;

verus! {

/// The separator between the segments of a path.
pub open spec fn separator() -> char {
    '/'
}

/// `child` appended to `base` as a further path segment.
///
/// An absolute `child` stands for itself. Otherwise a single separator is put
/// between the two, unless `base` is empty or already ends with one.
pub open spec fn join(base: Seq<char>, child: Seq<char>) -> Seq<char> {
    if child.len() > 0 && child[0] == separator() {
        child
    } else if base.len() == 0 || base.last() == separator() {
        base + child
    } else {
        base + seq![separator()] + child
    }
}

/// Joins two path texts, see [`join`].
pub fn join_path(base: &str, child: &str) -> (path: String)
    ensures
        path@ == join(base@, child@),
{
    proof {
        reveal_strlit("/");
    }
    if !child.is_empty() && child.get_char(0) == '/' {
        return child.to_owned();
    }
    let mut path = base.to_owned();
    let base_len = base.unicode_len();
    if base_len > 0 && base.get_char(base_len - 1) != '/' {
        path.append("/");
    }
    path.append(child);
    path
}

/// Joining onto the same base keeps distinct relative children apart.
pub proof fn lemma_join_injective(base: Seq<char>, a: Seq<char>, b: Seq<char>)
    requires
        a.len() == 0 || a[0] != separator(),
        b.len() == 0 || b[0] != separator(),
        join(base, a) == join(base, b),
    ensures
        a == b,
{
    let skip: int = if base.len() == 0 || base.last() == separator() {
        base.len() as int
    } else {
        base.len() as int + 1
    };
    assert(join(base, b).subrange(skip, join(base, b).len() as int) =~= b);
}

} // verus!
