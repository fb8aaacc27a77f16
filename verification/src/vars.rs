//! A set of named text values, such as the environment of a process, seen as
//! a map from names to values.

use crate::text::same_text;
use vstd::prelude::*;

verus! {

/// The map that a list of `(name, value)` pairs stands for: a later pair
/// overrides an earlier one of the same name.
pub open spec fn pairs_map(pairs: Seq<(String, String)>) -> Map<Seq<char>, Seq<char>>
    decreases pairs.len(),
{
    if pairs.len() == 0 {
        Map::empty()
    } else {
        pairs_map(pairs.drop_last()).insert(pairs.last().0@, pairs.last().1@)
    }
}

/// The last pair of a given name decides what the map holds under that name.
pub proof fn lemma_pairs_map_found(pairs: Seq<(String, String)>, name: Seq<char>, i: int)
    requires
        0 <= i < pairs.len(),
        pairs[i].0@ == name,
        forall|j: int| i < j < pairs.len() ==> (#[trigger] pairs[j]).0@ != name,
    ensures
        pairs_map(pairs).contains_key(name),
        pairs_map(pairs)[name] == pairs[i].1@,
    decreases pairs.len(),
{
    if i < pairs.len() - 1 {
        let front = pairs.drop_last();
        assert(pairs.last().0@ != name);
        assert(front[i] == pairs[i]);
        assert forall|j: int| i < j < front.len() implies (#[trigger] front[j]).0@ != name by {
            assert(front[j] == pairs[j]);
        }
        lemma_pairs_map_found(front, name, i);
    }
}

/// A name that no pair carries is not in the map.
pub proof fn lemma_pairs_map_absent(pairs: Seq<(String, String)>, name: Seq<char>)
    requires
        forall|j: int| 0 <= j < pairs.len() ==> (#[trigger] pairs[j]).0@ != name,
    ensures
        !pairs_map(pairs).contains_key(name),
    decreases pairs.len(),
{
    if pairs.len() > 0 {
        let front = pairs.drop_last();
        assert(pairs.last().0@ != name);
        assert forall|j: int| 0 <= j < front.len() implies (#[trigger] front[j]).0@ != name by {
            assert(front[j] == pairs[j]);
        }
        lemma_pairs_map_absent(front, name);
    }
}

/// A set of named text values, such as a process environment.
#[derive(Debug, Clone)]
pub struct EnvVars {
    /// The pairs in the order in which they were set.
    pub pairs: Vec<(String, String)>,
}

impl View for EnvVars {
    type V = Map<Seq<char>, Seq<char>>;

    open spec fn view(&self) -> Map<Seq<char>, Seq<char>> {
        pairs_map(self.pairs@)
    }
}

impl EnvVars {
    /// A set that holds no variable.
    pub fn new() -> (vars: EnvVars)
        ensures
            vars@ == Map::<Seq<char>, Seq<char>>::empty(),
    {
        EnvVars { pairs: Vec::new() }
    }

    /// Sets `name` to `value`, in place of what it held before.
    pub fn set(&mut self, name: &str, value: &str)
        ensures
            final(self)@ == old(self)@.insert(name@, value@),
    {
        self.pairs.push((name.to_owned(), value.to_owned()));
        proof {
            assert(self.pairs@.drop_last() == old(self).pairs@);
        }
    }

    /// The value of `name`, if it is set.
    pub fn get(&self, name: &str) -> (r: Option<&str>)
        ensures
            r is Some == self@.contains_key(name@),
            r is Some ==> r->Some_0@ == self@[name@],
    {
        let mut i: usize = self.pairs.len();
        while i > 0
            invariant
                i <= self.pairs.len(),
                forall|j: int| i <= j < self.pairs.len() ==> (#[trigger] self.pairs@[j]).0@ != name@,
            decreases i,
        {
            i = i - 1;
            if same_text(self.pairs[i].0.as_str(), name) {
                proof {
                    lemma_pairs_map_found(self.pairs@, name@, i as int);
                }
                return Some(self.pairs[i].1.as_str());
            }
        }
        proof {
            lemma_pairs_map_absent(self.pairs@, name@);
        }
        None
    }
}

} // verus!
