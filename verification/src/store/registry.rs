//! The stores of a server, by name.

use vstd::prelude::*;

use crate::store::types::{StoreError, StoreErrorView};
use crate::text::joined;

verus! {

/// A concurrent map.
#[verifier::external_type_specification]
#[verifier::external_body]
#[verifier::reject_recursive_types(K)]
#[verifier::reject_recursive_types(V)]
#[verifier::reject_recursive_types(S)]
pub struct ExDashMap<K, V, S>(dashmap::DashMap<K, V, S>);

/// What a `dashmap::DashMap` holds.
pub uninterp spec fn numbers(map: dashmap::DashMap<String, usize>) -> Map<Seq<char>, usize>;

/// Calls `DashMap::new`, which makes an empty map.
#[verifier::external_body]
fn no_numbers() -> (map: dashmap::DashMap<String, usize>)
    ensures
        numbers(map).is_empty(),
{
    dashmap::DashMap::new()
}

/// Calls `DashMap::entry` and, where the entry is vacant, `VacantEntry::insert`.
/// A number is put under a name that has none; a name that has one keeps it.
#[verifier::external_body]
fn put_if_vacant(map: &mut dashmap::DashMap<String, usize>, name: String, number: usize) -> (put: bool)
    ensures
        put == !numbers(*old(map)).contains_key(name@),
        numbers(*final(map)) == (if put { numbers(*old(map)).insert(name@, number) } else { numbers(*old(map)) }),
{
    match map.entry(name) {
        dashmap::Entry::Occupied(_) => false,
        dashmap::Entry::Vacant(entry) => {
            entry.insert(number);
            true
        },
    }
}

/// Calls `DashMap::get`, which finds what stands under a name.
#[verifier::external_body]
fn number_of(map: &dashmap::DashMap<String, usize>, name: &str) -> (found: Option<usize>)
    ensures
        found == (if numbers(*map).contains_key(name@) { Some(numbers(*map)[name@]) } else { None }),
{
    map.get(name).map(|number| *number.value())
}

/// Named stores.
///
/// A store has to be registered before it can be had; none is made on access.
pub struct ResponseStoreRegistry<T> {
    numbers: dashmap::DashMap<String, usize>,
    stores: Vec<T>,
}

impl<T> View for ResponseStoreRegistry<T> {
    type V = Map<Seq<char>, T>;

    closed spec fn view(&self) -> Map<Seq<char>, T> {
        Map::new(
            |name: Seq<char>| numbers(self.numbers).contains_key(name),
            |name: Seq<char>| self.stores@[numbers(self.numbers)[name] as int],
        )
    }
}

impl<T> ResponseStoreRegistry<T> {
    #[verifier::type_invariant]
    spec fn numbers_are_stores(self) -> bool {
        forall|name: Seq<char>| #[trigger]
            numbers(self.numbers).contains_key(name) ==> numbers(self.numbers)[name] < self.stores@.len()
    }

    /// A registry without stores.
    pub fn new() -> (registry: ResponseStoreRegistry<T>)
        ensures
            registry@ == Map::<Seq<char>, T>::empty(),
    {
        let registry = ResponseStoreRegistry { numbers: no_numbers(), stores: Vec::new() };
        assert(registry@ =~= Map::<Seq<char>, T>::empty());
        registry
    }

    /// Registers a store under a name that has none yet.
    pub fn register(&mut self, name: &str, store: T) -> (registered: Result<(), StoreError>)
        ensures
            match registered {
                Ok(_) => !old(self)@.contains_key(name@) && final(self)@ == old(self)@.insert(name@, store),
                Err(error) => old(self)@.contains_key(name@) && final(self)@ == old(self)@ && error@
                    == StoreErrorView::Unavailable("store already registered: "@ + name@),
            },
    {
        proof {
            use_type_invariant(&*self);
        }
        let mut known = no_numbers();
        std::mem::swap(&mut known, &mut self.numbers);
        let mut stores: Vec<T> = Vec::new();
        std::mem::swap(&mut stores, &mut self.stores);
        let vacant = put_if_vacant(&mut known, name.to_owned(), stores.len());
        if vacant {
            stores.push(store);
        }
        self.stores = stores;
        self.numbers = known;
        if vacant {
            assert(self@ =~= old(self)@.insert(name@, store));
            Ok(())
        } else {
            assert(self@ =~= old(self)@);
            Err(StoreError::Unavailable(joined("store already registered: ", name)))
        }
    }

    /// The store of a name.
    pub fn get(&self, name: &str) -> (found: Option<&T>)
        ensures
            match found {
                Some(store) => self@.contains_key(name@) && *store == self@[name@],
                None => !self@.contains_key(name@),
            },
    {
        proof {
            use_type_invariant(self);
        }
        match number_of(&self.numbers, name) {
            Some(number) => Some(&self.stores[number]),
            None => None,
        }
    }
}

impl<T> Default for ResponseStoreRegistry<T> {
    fn default() -> (registry: ResponseStoreRegistry<T>)
        ensures
            registry@ == Map::<Seq<char>, T>::empty(),
    {
        ResponseStoreRegistry::new()
    }
}

} // verus!
