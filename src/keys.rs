use vstd::prelude::*;

verus! {

/// The 128-bit value of a random version-4 UUID: the version nibble reads 4 and
/// the variant bits read `10`.
pub open spec fn is_v4_value(v: u128) -> bool {
    (v >> 76u128) & 0xf == 4 && (v >> 62u128) & 0x3 == 2
}

/// Relies on `uuid::Uuid::new_v4`, which masks random bits into a version-4 UUID,
/// and `Uuid::as_u128`, which gives its 128 bits, most significant byte first.
#[verifier::external_body]
fn random_v4() -> (r: u128)
    ensures
        is_v4_value(r),
{
    uuid::Uuid::new_v4().as_u128()
}

/// A key of the key-value layer: a random version-4 UUID, held as its 128-bit value.
#[derive(Debug, Clone, Copy, PartialEq, Eq, Structural, Hash)]
pub struct Key {
    id: u128,
}

impl View for Key {
    type V = u128;

    closed spec fn view(&self) -> u128 {
        self.id
    }
}

impl Key {
    /// A fresh random key.
    pub fn new() -> (r: Key)
        ensures
            is_v4_value(r@),
    {
        Key { id: random_v4() }
    }

    /// The key's UUID as a 128-bit value.
    pub fn get_id(&self) -> (r: u128)
        ensures
            r == self@,
    {
        self.id
    }

    /// Replaces the key's UUID.
    pub fn set_id(&mut self, id: u128)
        ensures
            final(self)@ == id,
    {
        self.id = id;
    }
}

} // verus!
