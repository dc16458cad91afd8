use vstd::prelude::*;

verus! {

/// A value held by the store's key-value layer.
#[derive(Debug, PartialEq, Eq)]
pub struct Value<T> {
    data: T,
}

impl<T> Value<T> {
    /// What the value holds.
    pub closed spec fn spec_data(&self) -> T {
        self.data
    }

    /// A value holding `data`.
    pub fn new(data: T) -> (r: Value<T>)
        ensures
            r.spec_data() == data,
    {
        Value { data }
    }

    /// What the value holds.
    pub fn get(&self) -> (r: &T)
        ensures
            *r == self.spec_data(),
    {
        &self.data
    }

    /// Replaces what the value holds.
    pub fn set(&mut self, data: T)
        ensures
            final(self).spec_data() == data,
    {
        self.data = data;
    }
}

impl<T: std::fmt::Debug> Value<T> {
    /// The debug text of what the value holds.
    ///
    /// Relies on std's `format!` with `{:?}`, that is on `T`'s `Debug` impl.
    #[verifier::external_body]
    pub fn debug_string(&self) -> String {
        format!("{:?}", self.data)
    }
}

impl<T: Default> Default for Value<T> {
    /// A value holding `T`'s default.
    fn default() -> (r: Value<T>)
        ensures
            call_ensures(T::default, (), r.spec_data()),
    {
        Value { data: T::default() }
    }
}

} // verus!
