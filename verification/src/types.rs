use vstd::prelude::*;

use crate::url::VersionedUrlRef;

verus! {

/// A borrowed view of a generated type, which can be turned into the owned type.
pub trait TypeRef: Sized {
    type Owned;

    // called into_owned instead of to_owned to prevent confusion
    fn into_owned(self) -> Self::Owned;
}

/// A mutable view of a generated type, which can be turned into the owned type.
pub trait TypeMut: Sized {
    type Owned;

    fn into_owned(self) -> Self::Owned;
}

/// A generated type: its URL, and its borrowed and mutable views.
pub trait Type: Sized {
    type Mut<'a>: TypeMut<Owned = Self> where Self: 'a;

    type Ref<'a>: TypeRef<Owned = Self> where Self: 'a;

    /// The URL of the type.
    fn id() -> VersionedUrlRef<'static>;

    fn as_mut(&mut self) -> Self::Mut<'_>;

    fn as_ref(&self) -> Self::Ref<'_>;
}

} // verus!
