//! Things kept by name.

use vstd::hash_map::StringHashMap;
use vstd::prelude::*;

verus! {

/// A table of things, each under a name of its own.
#[verifier::reject_recursive_types(T)]
pub struct Catalog<T> {
    items: StringHashMap<T>,
}

impl<T> View for Catalog<T> {
    type V = Map<Seq<char>, T>;

    closed spec fn view(&self) -> Map<Seq<char>, T> {
        self.items@
    }
}

impl<T> Catalog<T> {
    /// An empty table.
    pub fn new() -> (res: Catalog<T>)
        ensures
            res@ == Map::<Seq<char>, T>::empty(),
    {
        Catalog { items: StringHashMap::new() }
    }

    /// Puts `item` under `name`, in place of what stood there.
    pub fn insert(&mut self, name: String, item: T)
        ensures
            final(self)@ == old(self)@.insert(name@, item),
    {
        self.items.insert(name, item);
    }

    /// What stands under `name`.
    pub fn get(&self, name: &str) -> (res: Option<&T>)
        ensures
            match res {
                Some(item) => self@.contains_key(name@) && *item == self@[name@],
                None => !self@.contains_key(name@),
            },
    {
        self.items.get(name)
    }

    /// Tells whether something stands under `name`.
    pub fn contains(&self, name: &str) -> (res: bool)
        ensures
            res == self@.contains_key(name@),
    {
        self.items.contains_key(name)
    }
}

} // verus!
