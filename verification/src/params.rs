//! Parameter bindings: what the named segments of a pattern matched.

use vstd::prelude::*;

verus! {

/// The views of a list of name and value pairs.
pub open spec fn bindings(pairs: Seq<(String, String)>) -> Seq<(Seq<char>, Seq<char>)> {
    pairs.map_values(|p: (String, String)| (p.0@, p.1@))
}

/// No name is bound twice.
pub open spec fn distinct_keys(bound: Seq<(Seq<char>, Seq<char>)>) -> bool {
    forall|i: int, j: int| 0 <= i < j < bound.len() ==> bound[i].0 != bound[j].0
}

/// The value of the first binding of `key`, if there is one.
pub open spec fn value_of(bound: Seq<(Seq<char>, Seq<char>)>, key: Seq<char>) -> Option<
    Seq<char>,
>
    decreases bound.len(),
{
    if bound.len() == 0 {
        None
    } else if bound[0].0 == key {
        Some(bound[0].1)
    } else {
        value_of(bound.drop_first(), key)
    }
}

/// The parameter bindings of one lookup, as name and value pairs.
pub struct Params {
    pairs: Vec<(String, String)>,
}

impl View for Params {
    type V = Seq<(Seq<char>, Seq<char>)>;

    closed spec fn view(&self) -> Seq<(Seq<char>, Seq<char>)> {
        bindings(self.pairs@)
    }
}

impl Params {
    /// No bindings.
    pub fn new() -> (params: Params)
        ensures
            params@ == Seq::<(Seq<char>, Seq<char>)>::empty(),
    {
        let params = Params { pairs: Vec::new() };
        assert(params@ =~= Seq::<(Seq<char>, Seq<char>)>::empty());
        params
    }

    /// The bindings that `pairs` lists.
    pub fn from_pairs(pairs: Vec<(String, String)>) -> (params: Params)
        ensures
            params@ == bindings(pairs@),
    {
        Params { pairs }
    }

    /// The bindings as pairs, in their order.
    pub fn into_pairs(self) -> (pairs: Vec<(String, String)>)
        ensures
            bindings(pairs@) == self@,
    {
        self.pairs
    }

    /// How many bindings there are.
    pub fn len(&self) -> (n: usize)
        ensures
            n == self@.len(),
    {
        self.pairs.len()
    }

    /// Whether there is no binding.
    pub fn is_empty(&self) -> (empty: bool)
        ensures
            empty == (self@.len() == 0),
    {
        self.pairs.len() == 0
    }

    /// The value bound to `key`.
    pub fn find(&self, key: &str) -> (value: Option<&str>)
        ensures
            match value {
                Some(text) => value_of(self@, key@) == Some(text@),
                None => value_of(self@, key@) is None,
            },
    {
        let wanted = key.to_owned();
        let mut i: usize = 0;
        assert(self@.skip(0) =~= self@);
        while i < self.pairs.len()
            invariant
                i <= self.pairs.len(),
                wanted@ == key@,
                value_of(self@, key@) == value_of(self@.skip(i as int), key@),
            decreases self.pairs.len() - i,
        {
            let ghost rest = self@.skip(i as int);
            assert(rest[0] == (self.pairs@[i as int].0@, self.pairs@[i as int].1@));
            assert(rest.drop_first() =~= self@.skip(i + 1));
            if self.pairs[i].0 == wanted {
                return Some(self.pairs[i].1.as_str());
            }
            i += 1;
        }
        None
    }
}

} // verus!
