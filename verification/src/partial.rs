//! Partial values and the targets they are built into.
use crate::source::Source;
use core::fmt::Debug;
use vstd::prelude::*;

verus! {

/// A partial state of `Self::Target`: each field is present or absent. The
/// default value is the one in which every field is absent.
///
/// What `build` and `override_with` do is the implementor's to say, in
/// `builds` and `merges`: the contracts here, and those of `source` and
/// `layer`, speak through these two. An implementor whose fields are merged
/// with [`crate::field::override_field`] states in `merges` that each field of
/// the result is [`crate::field::overridden`] of the two it came from; one
/// that builds with a [`crate::builder::Builder`] states in `builds` what
/// `finish` ensures. Left as they are, the two say nothing.
pub trait Partial: Default {
    /// The configuration that this is a partial state of.
    type Target: HasPartial<Partial = Self>;

    /// What `build` fails with, and what reading a layer for it fails with.
    type Error: Debug;

    /// Whether `outcome` is what building `self` may give.
    open spec fn builds(self, outcome: Result<Self::Target, Self::Error>) -> bool {
        true
    }

    /// Whether `merged` is what `self` overridden by `other` may be.
    open spec fn merges(self, other: Self, merged: Self) -> bool {
        true
    }

    /// Builds the target from the merged layers, or fails with every
    /// required field that no layer has set.
    fn build(self) -> (outcome: Result<Self::Target, Self::Error>)
        ensures
            self.builds(outcome),
    ;

    /// Reads the layer that `value` holds and lays it over `self`: what the
    /// layer sets overrides what `self` held. Where the source fails, its
    /// failure is handed on, converted, and nothing is laid.
    ///
    /// Sources are laid in the order of the calls, so that of
    /// `base.source(a).source(b)` the layer of `b` overrides that of `a`,
    /// which overrides `base`.
    fn source<T: Source<Self::Target>>(self, value: T) -> (layered: Result<Self, Self::Error>) where
        Self::Error: From<T::Error>,

        ensures
            match layered {
                Ok(merged) => exists|layer: Self| #[trigger]
                    value.yields(Ok(layer)) && self.merges(layer, merged),
                Err(error) => exists|cause: T::Error| #[trigger]
                    value.yields(Err(cause)) && call_ensures(
                        <Self::Error as From<T::Error>>::from,
                        (cause,),
                        error,
                    ),
            },
    {
        let outcome = value.to_partial();
        let ghost read = outcome;
        let layered = self.layer(outcome);
        proof {
            match read {
                Ok(layer) => {
                    assert(value.yields(Ok(layer)));
                },
                Err(cause) => {
                    assert(value.yields(Err(cause)));
                },
            }
        }
        layered
    }

    /// Lays over `self` a layer that has been read already, or hands on the
    /// failure to read it.
    fn layer<E>(self, outcome: Result<Self, E>) -> (layered: Result<Self, Self::Error>) where
        Self::Error: From<E>,

        ensures
            match outcome {
                Ok(layer) => layered matches Ok(merged) && self.merges(layer, merged),
                Err(cause) => layered matches Err(error) && call_ensures(
                    <Self::Error as From<E>>::from,
                    (cause,),
                    error,
                ),
            },
    {
        match outcome {
            Ok(layer) => Ok(self.override_with(layer)),
            Err(cause) => Err(<Self::Error as From<E>>::from(cause)),
        }
    }

    /// `self` with each field that `other` holds taken from `other`, and
    /// every other field as `self` held it.
    fn override_with(self, other: Self) -> (merged: Self)
        ensures
            self.merges(other, merged),
    ;
}

/// `From<A> for A` of `core`: the conversion of a value into its own type
/// hands the value back unchanged.
pub assume_specification<A>[ <A as core::convert::From<A>>::from ](value: A) -> (same: A)
    ensures
        same == value,
;

/// A configuration that has a partial state.
pub trait HasPartial {
    /// The partial state of `Self`.
    type Partial;
}

} // verus!
