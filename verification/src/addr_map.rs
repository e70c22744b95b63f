//! Maps from socket addresses to values.

use std::collections::BTreeMap;
use vstd::prelude::*;

use crate::addr::{AddrKey, SocketAddr};

verus! {

broadcast use {vstd::std_specs::btree::group_btree_axioms, vstd::laws_cmp::group_laws_cmp};

/// A map from socket addresses to values of type `V`.
pub struct AddrMap<V> {
    entries: BTreeMap<AddrKey, V>,
}

impl<V> View for AddrMap<V> {
    type V = Map<SocketAddr, V>;

    closed spec fn view(&self) -> Map<SocketAddr, V> {
        Map::new(
            |addr: SocketAddr| self.entries@.contains_key(addr.spec_key()),
            |addr: SocketAddr| self.entries@[addr.spec_key()],
        )
    }
}

impl<V> AddrMap<V> {
    /// An empty map.
    pub fn new() -> (map: AddrMap<V>)
        ensures
            map@ == Map::<SocketAddr, V>::empty(),
    {
        let map = AddrMap { entries: BTreeMap::new() };
        assert(map@ =~= Map::<SocketAddr, V>::empty());
        map
    }

    /// The value held for `addr`, if there is one.
    pub fn get(&self, addr: &SocketAddr) -> (value: Option<&V>)
        ensures
            value == (if self@.contains_key(*addr) {
                Some(&self@[*addr])
            } else {
                None
            }),
    {
        self.entries.get(&addr.key())
    }

    /// Holds `value` for `addr`, and returns the value it takes the place of.
    pub fn insert(&mut self, addr: SocketAddr, value: V) -> (replaced: Option<V>)
        ensures
            final(self)@ == old(self)@.insert(addr, value),
            replaced == (if old(self)@.contains_key(addr) {
                Some(old(self)@[addr])
            } else {
                None
            }),
    {
        let replaced = self.entries.insert(addr.key(), value);
        assert(self@ =~= old(self)@.insert(addr, value));
        replaced
    }

    /// Gives up the value held for `addr`, and returns it.
    pub fn remove(&mut self, addr: &SocketAddr) -> (removed: Option<V>)
        ensures
            final(self)@ == old(self)@.remove(*addr),
            removed == (if old(self)@.contains_key(*addr) {
                Some(old(self)@[*addr])
            } else {
                None
            }),
    {
        let removed = self.entries.remove(&addr.key());
        assert(self@ =~= old(self)@.remove(*addr));
        removed
    }
}

} // verus!
