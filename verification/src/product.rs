//! The identity of the product, from the platform's property store.

use crate::error::{text_result, ErrorModel, ReadoutError};
use vstd::prelude::*;

verus! {

/// The property that names the vendor.
pub const VENDOR_KEY: &'static str = "ro.product.brand";

/// The property that names the product family.
pub const FAMILY_KEY: &'static str = "ro.product.model";

/// The property that names the product.
pub const PRODUCT_KEY: &'static str = "ro.build.product";

/// The map that a list of key and value pairs stands for: a later pair
/// replaces an earlier one with the same key.
pub open spec fn pairs_map(pairs: Seq<(String, String)>) -> Map<Seq<char>, Seq<char>>
    decreases pairs.len(),
{
    if pairs.len() == 0 {
        Map::empty()
    } else {
        pairs_map(pairs.drop_last()).insert(pairs.last().0@, pairs.last().1@)
    }
}

/// What a query of `store` for `key` gives.
pub open spec fn lookup(store: Map<Seq<char>, Seq<char>>, key: Seq<char>) -> Option<Seq<char>> {
    if store.contains_key(key) {
        Some(store[key])
    } else {
        None
    }
}

/// The properties that were read from the platform's store: a finite map
/// from keys to values.
pub struct PropertyStore {
    pairs: Vec<(String, String)>,
}

impl View for PropertyStore {
    type V = Map<Seq<char>, Seq<char>>;

    closed spec fn view(&self) -> Map<Seq<char>, Seq<char>> {
        pairs_map(self.pairs@)
    }
}

impl PropertyStore {
    /// A store without properties.
    pub fn new() -> (store: PropertyStore)
        ensures
            store@ == Map::<Seq<char>, Seq<char>>::empty(),
    {
        PropertyStore { pairs: Vec::new() }
    }

    /// Sets the property `key` to `value`.
    pub fn set(&mut self, key: &str, value: &str)
        ensures
            final(self)@ == old(self)@.insert(key@, value@),
    {
        let ghost before = self.pairs@;
        self.pairs.push((key.to_owned(), value.to_owned()));
        proof {
            assert(self.pairs@.drop_last() =~= before);
        }
    }

    /// The value of the property `key`, if the store holds it.
    pub fn get(&self, key: &str) -> (r: Option<String>)
        ensures
            match r {
                Some(value) => lookup(self@, key@) == Some(value@),
                None => lookup(self@, key@) is None,
            },
    {
        let wanted = key.to_owned();
        let mut i: usize = self.pairs.len();
        proof {
            assert(self.pairs@.take(i as int) =~= self.pairs@);
        }
        while i > 0
            invariant
                i <= self.pairs.len(),
                wanted@ == key@,
                lookup(self@, key@) == lookup(pairs_map(self.pairs@.take(i as int)), key@),
            decreases i,
        {
            proof {
                assert(self.pairs@.take(i as int).drop_last() =~= self.pairs@.take(i - 1));
            }
            if self.pairs[i - 1].0 == wanted {
                return Some(self.pairs[i - 1].1.clone());
            }
            i -= 1;
        }
        None
    }
}

/// What a readout gives for a property: its value, or the failure of the
/// query where the store does not hold it.
pub open spec fn property_of(value: Option<Seq<char>>) -> Result<Seq<char>, ErrorModel> {
    match value {
        Some(text) => Ok(text),
        None => Err(ErrorModel::Other("getprop failed"@)),
    }
}

/// Reads the identity of the product.
pub struct AndroidProductReadout;

impl AndroidProductReadout {
    pub fn new() -> Self {
        AndroidProductReadout
    }

    /// Queries one property.
    pub fn query(store: &PropertyStore, key: &str) -> (r: Result<String, ReadoutError>)
        ensures
            text_result(r) == property_of(lookup(store@, key@)),
    {
        match store.get(key) {
            Some(value) => Ok(value),
            None => Err(ReadoutError::other("getprop failed")),
        }
    }

    /// The product family: the property `FAMILY_KEY`.
    pub fn family(&self, store: &PropertyStore) -> (r: Result<String, ReadoutError>)
        ensures
            text_result(r) == property_of(lookup(store@, FAMILY_KEY@)),
    {
        Self::query(store, FAMILY_KEY)
    }

    /// The vendor: the property `VENDOR_KEY`.
    pub fn vendor(&self, store: &PropertyStore) -> (r: Result<String, ReadoutError>)
        ensures
            text_result(r) == property_of(lookup(store@, VENDOR_KEY@)),
    {
        Self::query(store, VENDOR_KEY)
    }

    /// The product: the property `PRODUCT_KEY`.
    pub fn product(&self, store: &PropertyStore) -> (r: Result<String, ReadoutError>)
        ensures
            text_result(r) == property_of(lookup(store@, PRODUCT_KEY@)),
    {
        Self::query(store, PRODUCT_KEY)
    }
}

} // verus!
