//! The cell that a slot of the table holds: a key and a value that can be
//! taken out once.

use vstd::prelude::*;

verus! {

/// One key with its value. The value is present from construction until it
/// is taken out with [`HashMapEntry::remove_value`]; the key never changes.
#[derive(Debug)]
pub struct HashMapEntry<T: Clone> {
    key: String,
    value: Option<T>,
}

impl<T: Clone> HashMapEntry<T> {
    /// The characters of the key.
    pub closed spec fn key_view(&self) -> Seq<char> {
        self.key@
    }

    /// The value, or `None` once it has been taken out.
    pub closed spec fn value_view(&self) -> Option<T> {
        self.value
    }

    /// An entry that owns `key` and holds `value`.
    pub fn new(key: String, value: T) -> (entry: HashMapEntry<T>)
        ensures
            entry.key_view() == key@,
            entry.value_view() == Some(value),
    {
        let value = Some(value);
        HashMapEntry { key, value }
    }

    /// A look at the value, which stays where it is.
    pub fn get_value(&self) -> (value: &Option<T>)
        ensures
            *value == self.value_view(),
    {
        &self.value
    }

    /// A look at the key.
    pub fn get_key(&self) -> (key: &str)
        ensures
            key@ == self.key_view(),
    {
        self.key.as_str()
    }

    /// Takes the value out and leaves the entry without one. A second call
    /// finds nothing to take.
    pub fn remove_value(&mut self) -> (taken: Option<T>)
        ensures
            taken == old(self).value_view(),
            final(self).value_view() is None,
            final(self).key_view() == old(self).key_view(),
    {
        self.value.take()
    }
}

impl<T: Clone> Clone for HashMapEntry<T> {
    /// A copy with the same key, and with a clone of the value where there
    /// is one.
    fn clone(&self) -> (copy: Self)
        ensures
            copy.key_view() == self.key_view(),
            match self.value_view() {
                Some(value) => copy.value_view() is Some && cloned::<T>(
                    value,
                    copy.value_view()->0,
                ),
                None => copy.value_view() is None,
            },
    {
        HashMapEntry { key: self.key.clone(), value: self.value.clone() }
    }
}

} // verus!
