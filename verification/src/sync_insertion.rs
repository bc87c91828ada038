use vstd::prelude::*;
use std::sync::Arc;

verus! {

/// Internal encoding of a key, chosen once when the key enters the
/// table. A key that is cheap to copy (at most machine-word sized) is
/// held by value; a larger one is held behind shared ownership, so that
/// the copies taken on every scanning cycle and on every delivery stay
/// cheap whatever the key's size. Code elsewhere never branches on the
/// representation: equality and the abstract value are those of the
/// underlying key.
pub enum InsertSync<T> {
    /// The key held by value.
    Plain(T),
    /// The key held behind shared ownership.
    Shared(Arc<T>),
}

impl<T: View> View for InsertSync<T> {
    type V = T::V;

    open spec fn view(&self) -> T::V {
        match self {
            InsertSync::Plain(v) => v.view(),
            InsertSync::Shared(a) => a.view(),
        }
    }
}

/// Relies on `Arc::clone` (std): the clone is a second handle to the
/// same allocation, so it holds the same value as the original.
#[verifier::external_body]
fn clone_arc<T>(a: &Arc<T>) -> (r: Arc<T>)
    ensures
        r == *a,
{
    Arc::clone(a)
}

/// A key a clock can track. Keys are compared and copied through these
/// methods, whose contracts speak of the key's abstract value (its
/// [`View`]), so that every decision the clock makes about a key is
/// pinned to that value.
pub trait SandClockInsertion: View + Send + Sync + Sized + 'static {
    /// Whether the two keys have the same abstract value.
    fn key_eq(&self, other: &Self) -> (r: bool)
        ensures
            r == (self@ == other@),
    ;

    /// A copy of the key with the same abstract value.
    fn clone_key(&self) -> (r: Self)
        ensures
            r@ == self@,
    ;

    /// Encodes the key for the table: by value when it is at most
    /// machine-word sized, behind shared ownership otherwise.
    fn to_insert_sync(self) -> (r: InsertSync<Self>)
        ensures
            r@ == self@,
    {
        if core::mem::size_of::<Self>() <= 8 {
            InsertSync::Plain(self)
        } else {
            InsertSync::Shared(Arc::new(self))
        }
    }
}

impl<T: SandClockInsertion> InsertSync<T> {
    /// The stored key, whichever representation holds it.
    pub fn inner_ref(&self) -> (r: &T)
        ensures
            r@ == self@,
    {
        match self {
            InsertSync::Plain(v) => v,
            InsertSync::Shared(a) => &**a,
        }
    }

    /// A second handle to the same key; for a shared representation
    /// this copies nothing but the handle.
    pub fn duplicate(&self) -> (r: Self)
        ensures
            r@ == self@,
    {
        match self {
            InsertSync::Plain(v) => InsertSync::Plain(v.clone_key()),
            InsertSync::Shared(a) => InsertSync::Shared(clone_arc(a)),
        }
    }

    /// The key as an owned value, copied out of a shared representation.
    pub fn into_inner(self) -> (r: T)
        ensures
            r@ == self@,
    {
        match self {
            InsertSync::Plain(v) => v,
            InsertSync::Shared(a) => (*a).clone_key(),
        }
    }
}

impl<T: SandClockInsertion> PartialEq for InsertSync<T> {
    /// Equality is that of the underlying keys, independent of the
    /// representation that holds them.
    fn eq(&self, other: &Self) -> (r: bool) {
        self.inner_ref().key_eq(other.inner_ref())
    }
}

impl<T: SandClockInsertion> vstd::std_specs::cmp::PartialEqSpecImpl for InsertSync<T> {
    open spec fn obeys_eq_spec() -> bool {
        true
    }

    open spec fn eq_spec(&self, other: &Self) -> bool {
        self@ == other@
    }
}

impl SandClockInsertion for u64 {
    fn key_eq(&self, other: &Self) -> (r: bool) {
        *self == *other
    }

    fn clone_key(&self) -> (r: Self) {
        *self
    }
}

impl SandClockInsertion for u32 {
    fn key_eq(&self, other: &Self) -> (r: bool) {
        *self == *other
    }

    fn clone_key(&self) -> (r: Self) {
        *self
    }
}

impl SandClockInsertion for usize {
    fn key_eq(&self, other: &Self) -> (r: bool) {
        *self == *other
    }

    fn clone_key(&self) -> (r: Self) {
        *self
    }
}

impl SandClockInsertion for i32 {
    fn key_eq(&self, other: &Self) -> (r: bool) {
        *self == *other
    }

    fn clone_key(&self) -> (r: Self) {
        *self
    }
}

impl SandClockInsertion for i64 {
    fn key_eq(&self, other: &Self) -> (r: bool) {
        *self == *other
    }

    fn clone_key(&self) -> (r: Self) {
        *self
    }
}

impl SandClockInsertion for String {
    fn key_eq(&self, other: &Self) -> (r: bool) {
        *self == *other
    }

    fn clone_key(&self) -> (r: Self) {
        self.clone()
    }
}

} // verus!
