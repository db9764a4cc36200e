//! One field of a partial value: a slot that is present or absent.
use vstd::prelude::*;

verus! {

/// What a slot holds once `other` has been laid over `own`: `other` where it is
/// present, else `own`, whatever that holds.
pub open spec fn overridden<T>(own: Option<T>, other: Option<T>) -> Option<T> {
    if other is Some {
        other
    } else {
        own
    }
}

/// What a slot holds once `layers` have been laid over `base`, first to last.
pub open spec fn layered<T>(base: Option<T>, layers: Seq<Option<T>>) -> Option<T>
    decreases layers.len(),
{
    if layers.len() == 0 {
        base
    } else {
        overridden(layered(base, layers.drop_last()), layers.last())
    }
}

/// Lays `other` over `own`. Whether the field is required plays no part.
pub fn override_field<T>(own: Option<T>, other: Option<T>) -> (merged: Option<T>)
    ensures
        merged == overridden(own, other),
{
    match other {
        Some(value) => Some(value),
        None => own,
    }
}

/// Two layers laid over a slot one after the other give what their own merge
/// gives when it is laid over the slot: layering is one fold, in order.
pub proof fn lemma_override_is_associative<T>(base: Option<T>, first: Option<T>, second: Option<T>)
    ensures
        overridden(overridden(base, first), second) == overridden(base, overridden(first, second)),
{
}

/// An absent layer changes nothing, and anything laid over an absent slot
/// stands as it is.
pub proof fn lemma_absent_is_neutral<T>(slot: Option<T>)
    ensures
        overridden(slot, None) == slot,
        overridden(None, slot) == slot,
{
}

/// A slot that holds a value holds one after any layer: a layer may replace a
/// value, and never takes one away.
pub proof fn lemma_override_never_unsets<T>(own: Option<T>, other: Option<T>)
    requires
        own is Some,
    ensures
        overridden(own, other) is Some,
{
}

/// Laying a run of layers over a slot, and then a second run, is laying the
/// two runs over it as one.
pub proof fn lemma_layering_in_two_runs<T>(
    base: Option<T>,
    first: Seq<Option<T>>,
    second: Seq<Option<T>>,
)
    ensures
        layered(layered(base, first), second) == layered(base, first + second),
    decreases second.len(),
{
    if second.len() == 0 {
        assert(first + second == first);
    } else {
        assert((first + second).drop_last() == first + second.drop_last());
        assert((first + second).last() == second.last());
        lemma_layering_in_two_runs(base, first, second.drop_last());
    }
}

/// After any run of layers a slot holds what the last layer that is present
/// holds; where none of them is present, it holds what the base held.
pub proof fn lemma_last_present_layer_wins<T>(base: Option<T>, layers: Seq<Option<T>>)
    ensures
        (forall|i: int| 0 <= i < layers.len() ==> layers[i] is None) ==> layered(base, layers)
            == base,
        forall|i: int|
            0 <= i < layers.len() && layers[i] is Some && (forall|j: int|
                i < j < layers.len() ==> layers[j] is None) ==> layered(base, layers)
                == #[trigger] layers[i],
    decreases layers.len(),
{
    if layers.len() > 0 {
        let before = layers.drop_last();
        lemma_last_present_layer_wins(base, before);
        assert forall|i: int|
            0 <= i < layers.len() && layers[i] is Some && (forall|j: int|
                i < j < layers.len() ==> layers[j] is None) implies layered(base, layers)
            == #[trigger] layers[i] by {
            if i < layers.len() - 1 {
                assert(layers[layers.len() - 1] is None);
                assert(before[i] == layers[i]);
                assert forall|j: int| i < j < before.len() implies before[j] is None by {
                    assert(before[j] == layers[j]);
                }
            }
        }
        if forall|i: int| 0 <= i < layers.len() ==> layers[i] is None {
            assert forall|i: int| 0 <= i < before.len() implies before[i] is None by {
                assert(before[i] == layers[i]);
            }
        }
    }
}

} // verus!
