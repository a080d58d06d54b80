//! The read-only name-to-value mapping that `$NAME` references resolve
//! against.

use vstd::hash_map::StringHashMap;
use vstd::prelude::*;

verus! {

/// An environment mapping: variable names to replacement values.
///
/// The caller fills it once, before parsing; the parser only reads it. Its
/// view is the mathematical map from name characters to value characters.
pub struct Env {
    map: StringHashMap<String>,
}

impl View for Env {
    type V = Map<Seq<char>, Seq<char>>;

    closed spec fn view(&self) -> Map<Seq<char>, Seq<char>> {
        self.map@.map_values(|v: String| v@)
    }
}

impl Env {
    /// An empty mapping.
    pub fn new() -> (r: Env)
        ensures
            r@ == Map::<Seq<char>, Seq<char>>::empty(),
    {
        let m = Env { map: StringHashMap::new() };
        proof {
            assert(m@ =~= Map::<Seq<char>, Seq<char>>::empty());
        }
        m
    }

    /// Binds `name` to `value`, replacing any earlier binding.
    pub fn insert(&mut self, name: String, value: String)
        ensures
            final(self)@ == old(self)@.insert(name@, value@),
    {
        self.map.insert(name, value);
        proof {
            assert(self@ =~= old(self)@.insert(name@, value@));
        }
    }

    /// Looks a name up: its value if the name is bound, `None` otherwise.
    pub fn get<'a>(&'a self, name: &str) -> (r: Option<&'a String>)
        ensures
            match r {
                Some(v) => self@.contains_key(name@) && v@ == self@[name@],
                None => !self@.contains_key(name@),
            },
    {
        self.map.get(name)
    }
}

} // verus!
