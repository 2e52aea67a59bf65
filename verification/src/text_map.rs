use vstd::prelude::*;

verus! {

/// The mapping that a run of bindings amounts to: a later binding of a key
/// takes the place of an earlier one.
pub open spec fn bound<V>(bindings: Seq<(String, V)>) -> Map<Seq<char>, V>
    decreases bindings.len(),
{
    if bindings.len() == 0 {
        Map::empty()
    } else {
        bound(bindings.drop_last()).insert(bindings.last().0@, bindings.last().1)
    }
}

/// Bindings behind position `upto` that do not bind `key` do not matter for `key`.
pub proof fn lemma_bound_tail<V>(bindings: Seq<(String, V)>, key: Seq<char>, upto: int)
    requires
        0 <= upto <= bindings.len(),
        forall|j: int| upto <= j < bindings.len() ==> (#[trigger] bindings[j]).0@ != key,
    ensures
        bound(bindings).dom().contains(key) == bound(bindings.take(upto)).dom().contains(key),
        bound(bindings).dom().contains(key) ==> bound(bindings)[key] == bound(
            bindings.take(upto),
        )[key],
    decreases bindings.len(),
{
    if upto < bindings.len() {
        let shorter = bindings.drop_last();
        lemma_bound_tail(shorter, key, upto);
        assert(shorter.take(upto) =~= bindings.take(upto));
    } else {
        assert(bindings.take(upto) =~= bindings);
    }
}

/// A mapping from texts to values, kept as the run of its bindings.
#[derive(Debug, Clone, PartialEq, Eq)]
pub struct TextMap<V> {
    bindings: Vec<(String, V)>,
}

impl<V> View for TextMap<V> {
    type V = Map<Seq<char>, V>;

    closed spec fn view(&self) -> Map<Seq<char>, V> {
        bound(self.bindings@)
    }
}

impl<V> TextMap<V> {
    /// A mapping without bindings.
    pub fn new() -> (map: TextMap<V>)
        ensures
            map@ == Map::<Seq<char>, V>::empty(),
    {
        TextMap { bindings: Vec::new() }
    }

    /// What `key` is bound to.
    pub fn get(&self, key: &str) -> (value: Option<&V>)
        ensures
            value is Some <==> self@.dom().contains(key@),
            value matches Some(held) ==> *held == self@[key@],
    {
        let wanted = key.to_owned();
        let mut i: usize = self.bindings.len();
        while i > 0
            invariant
                0 <= i <= self.bindings@.len(),
                wanted@ == key@,
                forall|j: int| i <= j < self.bindings@.len() ==> (#[trigger] self.bindings@[j]).0@
                    != key@,
            decreases i,
        {
            i -= 1;
            if self.bindings[i].0 == wanted {
                proof {
                    let upto = i + 1;
                    lemma_bound_tail(self.bindings@, key@, upto);
                }
                return Some(&self.bindings[i].1);
            }
        }
        proof {
            lemma_bound_tail(self.bindings@, key@, 0);
        }
        None
    }

    /// Binds `key` to `value`, in place of what it was bound to.
    pub fn insert(&mut self, key: String, value: V)
        ensures
            final(self)@ == old(self)@.insert(key@, value),
    {
        let ghost before = self.bindings@;
        self.bindings.push((key, value));
        assert(self.bindings@.drop_last() =~= before);
    }
}

} // verus!
