//! Shared, reference-counted values whose concrete type is erased.
use std::any::{Any, TypeId};
use std::sync::Arc;
use vstd::prelude::*;

verus! {

#[verifier::external_type_specification]
#[verifier::external_body]
pub struct ExTypeId(TypeId);

/// Relies on `TypeId`'s `PartialEq`: two identifiers compare equal exactly
/// when they are the same value.
pub assume_specification[ <TypeId as PartialEq>::eq ](a: &TypeId, b: &TypeId) -> (r: bool)
    ensures
        r == (*a == *b),
;

/// Relies on `std::any::TypeId::of`: the identity of `T`, the key under
/// which a value of type `T` is stored.
#[verifier::external_body]
pub(crate) fn type_key<T: Any + Sync + Send>() -> (r: TypeId) {
    TypeId::of::<T>()
}

/// A shared handle to a value of some type that the holder does not know.
///
/// Verus does not accept a trait object with several traits, nor the
/// unsizing that builds one, so the handle is opaque to proofs.
#[verifier::external_body]
pub struct AnyArc {
    value: Arc<dyn Any + Sync + Send>,
}

impl AnyArc {
    /// Relies on `Arc::new`: moves `value` behind a new shared handle.
    #[verifier::external_body]
    pub(crate) fn wrap<T: Any + Sync + Send>(value: T) -> (r: AnyArc) {
        AnyArc { value: Arc::new(value) }
    }

    /// Relies on `Arc::clone`: the copy points at the same value.
    #[verifier::external_body]
    pub(crate) fn share(&self) -> (r: AnyArc)
        ensures
            r == *self,
    {
        AnyArc { value: Arc::clone(&self.value) }
    }

    /// Relies on `Arc::downcast`: a handle to the value when its type is
    /// exactly `T`, none otherwise.
    #[verifier::external_body]
    pub(crate) fn downcast<T: Any + Sync + Send>(&self) -> (r: Option<Arc<T>>) {
        Arc::clone(&self.value).downcast::<T>().ok()
    }
}

impl Clone for AnyArc {
    fn clone(&self) -> (r: AnyArc) {
        self.share()
    }
}

} // verus!
