//! One static scope: the variables that a block defines.

use vstd::prelude::*;

verus! {

/// The variables that a sequence of definitions leaves: a later definition of
/// a name replaces an earlier one.
spec fn bindings_map(b: Seq<(String, String)>) -> Map<Seq<char>, Seq<char>>
    decreases b.len(),
{
    if b.len() == 0 {
        Map::empty()
    } else {
        bindings_map(b.drop_last()).insert(b.last().0@, b.last().1@)
    }
}

/// The variables of one scope, each name bound to its latest value.
pub struct Scope {
    bindings: Vec<(String, String)>,
}

impl View for Scope {
    type V = Map<Seq<char>, Seq<char>>;

    closed spec fn view(&self) -> Map<Seq<char>, Seq<char>> {
        bindings_map(self.bindings@)
    }
}

impl Scope {
    /// A scope that defines nothing.
    pub fn new() -> (r: Scope)
        ensures
            r@ == Map::<Seq<char>, Seq<char>>::empty(),
    {
        Scope { bindings: Vec::new() }
    }

    /// Binds `name` to `value`, replacing any earlier binding of `name`.
    pub fn define(&mut self, name: String, value: String)
        ensures
            final(self)@ == old(self)@.insert(name@, value@),
    {
        let ghost before = self.bindings@;
        self.bindings.push((name, value));
        assert(self.bindings@.drop_last() =~= before);
    }

    /// The value bound to `name`, if any.
    pub fn get(&self, name: &str) -> (r: Option<String>)
        ensures
            r is Some <==> self@.contains_key(name@),
            r matches Some(v) ==> v@ == self@[name@],
    {
        let key: String = name.to_owned();
        let ghost b = self.bindings@;
        let mut i = self.bindings.len();
        assert(b.take(i as int) =~= b);
        while i > 0
            invariant
                i <= b.len(),
                b == self.bindings@,
                key@ == name@,
                bindings_map(b).contains_key(name@) == bindings_map(b.take(i as int)).contains_key(
                    name@,
                ),
                bindings_map(b.take(i as int)).contains_key(name@) ==> bindings_map(b)[name@]
                    == bindings_map(b.take(i as int))[name@],
            decreases i,
        {
            i -= 1;
            assert(b.take(i + 1).drop_last() =~= b.take(i as int));
            if self.bindings[i].0 == key {
                return Some(self.bindings[i].1.clone());
            }
        }
        None
    }
}

} // verus!
