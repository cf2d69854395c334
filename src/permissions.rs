//! Names of users and groups, remembered once looked up.
use vstd::prelude::*;
use vstd::string::*;
use std::collections::HashMap;

verus! {

broadcast use vstd::std_specs::hash::group_hash_axioms;

/// Whether permissions can be shown on this platform.
pub fn supported() -> (r: bool)
    ensures
        r,
{
    true
}

/// The names already known, by user or group id.
pub struct NameCache {
    names: HashMap<u32, String>,
}

impl View for NameCache {
    type V = Map<u32, String>;

    closed spec fn view(&self) -> Map<u32, String> {
        self.names@
    }
}

impl NameCache {
    pub fn new() -> (r: NameCache)
        ensures
            r@ == Map::<u32, String>::empty(),
    {
        NameCache { names: HashMap::new() }
    }

    /// The name remembered for `id`, if any.
    pub fn get(&self, id: u32) -> (r: Option<String>)
        ensures
            r is Some <==> self@.contains_key(id),
            r matches Some(n) ==> n == self@[id],
    {
        match self.names.get(&id) {
            Some(n) => Some(n.clone()),
            None => None,
        }
    }

    /// Remember the name that the system gave for `id`, or `????` when it
    /// knows no such id, and return it.
    pub fn record(&mut self, id: u32, found: Option<String>) -> (r: String)
        ensures
            r@ == match found {
                Some(n) => n@,
                None => "????"@,
            },
            final(self)@ == old(self)@.insert(id, r),
    {
        let name = match found {
            Some(n) => n,
            None => String::from_str("????"),
        };
        self.names.insert(id, name.clone());
        name
    }
}

} // verus!
