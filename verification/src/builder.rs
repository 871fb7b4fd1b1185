//! The builder pattern: a type that is made through a builder, and the builder
//! that makes it.

use vstd::prelude::*;

verus! {

/// A builder: it holds the parts of a value and makes the value if the parts
/// fit together.
pub trait Builder: Sized {
    /// The type that is built.
    type Buildable;

    /// Whether `made` is what the parts make: the value of exactly these
    /// parts if they fit together, and nothing otherwise.
    spec fn builds(self, made: Option<Self::Buildable>) -> bool;

    /// Consume the builder and make the value.
    fn build(self) -> (r: Option<Self::Buildable>)
        ensures
            self.builds(r),
    ;
}

/// A type that is made through a builder.
pub trait Buildable: Sized {
    /// The builder of the type.
    type Builder: Builder;

    /// Whether `builder` holds the default of every part.
    spec fn is_default_builder(builder: Self::Builder) -> bool;

    /// A builder that holds the default of every part.
    fn builder() -> (r: Self::Builder)
        ensures
            Self::is_default_builder(r),
    ;
}

} // verus!
