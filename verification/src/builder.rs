//! Building a target from a merged partial value, field by field.
//!
//! A build visits every field of the partial value. A required field that is
//! absent does not stop the build: it is noted, a placeholder stands in for
//! it, and the build goes on, so that the error at the end lists every such
//! field and not only the first.
use crate::error::{field_names, Error, MissingField};
use crate::field::{lemma_last_present_layer_wins, layered};
use crate::notice::{building_text, Level, Notice, NoticeView};
use vstd::prelude::*;

verus! {

/// How one field stood when a build visited it.
#[derive(Debug)]
pub struct Visit {
    /// The field's declared name.
    pub name: &'static str,
    /// Whether the target needs the field.
    pub required: bool,
    /// Whether the merged layers held a value for it.
    pub present: bool,
}

/// Whether a visited field is one that the build must report.
pub open spec fn is_missing(visit: Visit) -> bool {
    visit.required && !visit.present
}

/// The names of the visited fields that are required and absent, in the order
/// of the visits.
pub open spec fn missing_names(visits: Seq<Visit>) -> Seq<Seq<char>> {
    visits.filter(|visit: Visit| is_missing(visit)).map_values(|visit: Visit| visit.name@)
}

/// How many of the visited fields are required.
pub open spec fn required_count(visits: Seq<Visit>) -> nat {
    visits.filter(|visit: Visit| visit.required).len()
}

/// How many of the visited fields are optional.
pub open spec fn optional_count(visits: Seq<Visit>) -> nat {
    visits.filter(|visit: Visit| !visit.required).len()
}

/// One build: the fields visited so far.
#[derive(Debug)]
pub struct Builder {
    visits: Vec<Visit>,
}

impl Builder {
    /// The fields visited so far, first to last.
    pub closed spec fn visited(&self) -> Seq<Visit> {
        self.visits@
    }

    /// A build that has visited no field yet.
    pub fn new() -> (builder: Self)
        ensures
            builder.visited() == Seq::<Visit>::empty(),
    {
        Builder { visits: Vec::new() }
    }

    /// Visits a required field. A present value is handed out. An absent one
    /// is noted, and the type's default stands in for it until `finish` fails.
    pub fn require<T: Default>(&mut self, name: &'static str, slot: Option<T>) -> (value: T)
        ensures
            final(self).visited() == old(self).visited().push(
                Visit { name, required: true, present: slot is Some },
            ),
            slot matches Some(held) ==> value == held,
            slot is None ==> call_ensures(T::default, (), value),
    {
        match slot {
            Some(held) => {
                self.visits.push(Visit { name, required: true, present: true });
                held
            },
            None => {
                self.visits.push(Visit { name, required: true, present: false });
                T::default()
            },
        }
    }

    /// Visits a field that the target itself holds as optional: the slot is
    /// handed on as it is, and its absence is no error.
    pub fn optional<T>(&mut self, name: &'static str, slot: Option<T>) -> (value: Option<T>)
        ensures
            final(self).visited() == old(self).visited().push(
                Visit { name, required: false, present: slot is Some },
            ),
            value == slot,
    {
        self.visits.push(Visit { name, required: false, present: slot.is_some() });
        slot
    }

    /// The required fields that were absent, in the order of the visits.
    pub fn missing(&self) -> (missing: Vec<MissingField<'static>>)
        ensures
            field_names(missing@) == missing_names(self.visited()),
    {
        let ghost wanted = |visit: Visit| is_missing(visit);
        let mut missing: Vec<MissingField<'static>> = Vec::new();
        let mut i: usize = 0;
        proof {
            reveal(Seq::filter);
            assert(self.visits@.take(0).filter(wanted) == Seq::<Visit>::empty());
        }
        while i < self.visits.len()
            invariant
                i <= self.visits.len(),
                wanted == |visit: Visit| is_missing(visit),
                field_names(missing@) == missing_names(self.visits@.take(i as int)),
            decreases self.visits.len() - i,
        {
            let visit = &self.visits[i];
            let ghost listed = missing@;
            if visit.required && !visit.present {
                missing.push(MissingField(visit.name));
            }
            proof {
                let seen = self.visits@.take(i as int);
                let kept = seen.filter(wanted);
                assert(self.visits@.take(i + 1) == seen.push(*visit));
                seen.lemma_filter_push(*visit, wanted);
                if is_missing(*visit) {
                    assert(field_names(missing@) == field_names(listed).push(visit.name@));
                    assert(kept.push(*visit).map_values(|visit: Visit| visit.name@)
                        == kept.map_values(|visit: Visit| visit.name@).push(visit.name@));
                }
            }
            i += 1;
        }
        proof {
            assert(self.visits@.take(self.visits.len() as int) == self.visits@);
        }
        missing
    }

    /// How many required and how many optional fields were visited.
    pub fn tally(&self) -> (counts: (usize, usize))
        ensures
            counts.0 == required_count(self.visited()),
            counts.1 == optional_count(self.visited()),
    {
        let ghost needed = |visit: Visit| visit.required;
        let ghost spare = |visit: Visit| !visit.required;
        let mut required: usize = 0;
        let mut optional: usize = 0;
        let mut i: usize = 0;
        proof {
            reveal(Seq::filter);
            assert(self.visits@.take(0).filter(needed).len() == 0);
            assert(self.visits@.take(0).filter(spare).len() == 0);
        }
        while i < self.visits.len()
            invariant
                i <= self.visits.len(),
                needed == |visit: Visit| visit.required,
                spare == |visit: Visit| !visit.required,
                required == self.visits@.take(i as int).filter(needed).len(),
                optional == self.visits@.take(i as int).filter(spare).len(),
                required + optional == i,
            decreases self.visits.len() - i,
        {
            proof {
                let seen = self.visits@.take(i as int);
                assert(self.visits@.take(i + 1) == seen.push(self.visits@[i as int]));
                seen.lemma_filter_push(self.visits@[i as int], needed);
                seen.lemma_filter_push(self.visits@[i as int], spare);
            }
            if self.visits[i].required {
                required += 1;
            } else {
                optional += 1;
            }
            i += 1;
        }
        proof {
            assert(self.visits@.take(self.visits.len() as int) == self.visits@);
        }
        (required, optional)
    }

    /// The notice that says how many required and optional fields the build
    /// has visited.
    pub fn notice(&self) -> (notice: Notice)
        ensures
            notice@ == (NoticeView {
                level: Level::Info,
                text: building_text(
                    required_count(self.visited()),
                    optional_count(self.visited()),
                ),
            }),
    {
        let (required, optional) = self.tally();
        Notice::building(required, optional)
    }

    /// Ends the build. Where no required field was absent, the assembled
    /// `target` is the result. Otherwise the build fails and lists every
    /// required field that was absent, and `target`, placeholders and all, is
    /// dropped.
    pub fn finish<C>(self, target: C) -> (outcome: Result<C, Error>)
        ensures
            match outcome {
                Ok(built) => built == target && missing_names(self.visited()).len() == 0,
                Err(error) => {
                    &&& error matches Error::MissingFields { required_fields }
                    &&& field_names(required_fields@) == missing_names(self.visited())
                    &&& missing_names(self.visited()).len() > 0
                },
            },
    {
        let missing = self.missing();
        if missing.is_empty() {
            Ok(target)
        } else {
            Err(Error::MissingFields { required_fields: missing })
        }
    }
}

/// A build lists a name exactly where a visited field of that name is
/// required and absent: none is left out, and none is listed without cause.
pub proof fn lemma_missing_names_are_exact(visits: Seq<Visit>)
    ensures
        forall|i: int|
            0 <= i < visits.len() && is_missing(visits[i]) ==> missing_names(visits).contains(
                #[trigger] visits[i].name@,
            ),
        forall|name: Seq<char>| #[trigger]
            missing_names(visits).contains(name) ==> exists|i: int|
                0 <= i < visits.len() && is_missing(visits[i]) && #[trigger] visits[i].name@
                    == name,
    decreases visits.len(),
{
    let wanted = |visit: Visit| is_missing(visit);
    let named = |visit: Visit| visit.name@;
    if visits.len() == 0 {
        reveal(Seq::filter);
        assert(visits.filter(wanted).len() == 0);
    } else {
        let before = visits.drop_last();
        let last = visits.last();
        lemma_missing_names_are_exact(before);
        assert(visits == before.push(last));
        before.lemma_filter_push(last, wanted);
        let kept = before.filter(wanted);
        if is_missing(last) {
            assert(kept.push(last).map_values(named) == kept.map_values(named).push(last.name@));
            assert(missing_names(visits) == missing_names(before).push(last.name@));
        } else {
            assert(missing_names(visits) == missing_names(before));
        }
        assert forall|i: int| 0 <= i < visits.len() && is_missing(visits[i]) implies missing_names(
            visits,
        ).contains(#[trigger] visits[i].name@) by {
            if i < before.len() {
                assert(before[i] == visits[i]);
                let at = choose|at: int|
                    0 <= at < missing_names(before).len() && missing_names(before)[at]
                        == before[i].name@;
                assert(missing_names(visits)[at] == visits[i].name@);
            } else {
                assert(missing_names(visits)[missing_names(visits).len() - 1] == last.name@);
            }
        }
        assert forall|name: Seq<char>| #[trigger]
            missing_names(visits).contains(name) implies exists|i: int|
            0 <= i < visits.len() && is_missing(visits[i]) && #[trigger] visits[i].name@
                == name by {
            let at = choose|at: int|
                0 <= at < missing_names(visits).len() && missing_names(visits)[at] == name;
            if at < missing_names(before).len() {
                assert(missing_names(before)[at] == name);
                assert(missing_names(before).contains(name));
                let i = choose|i: int|
                    0 <= i < before.len() && is_missing(before[i]) && #[trigger] before[i].name@
                        == name;
                assert(visits[i] == before[i]);
            } else {
                assert(is_missing(last));
                assert(visits[visits.len() - 1].name@ == name);
            }
        }
    }
}

/// Nothing is listed if and only if every required field that was visited was
/// present. Optional fields, present or not, play no part.
pub proof fn lemma_nothing_missing_iff_required_present(visits: Seq<Visit>)
    ensures
        missing_names(visits).len() == 0 <==> (forall|i: int|
            0 <= i < visits.len() && (#[trigger] visits[i]).required ==> visits[i].present),
{
    lemma_missing_names_are_exact(visits);
    if missing_names(visits).len() == 0 {
        assert forall|i: int|
            0 <= i < visits.len() && (#[trigger] visits[i]).required implies visits[i].present by {
            if !visits[i].present {
                assert(is_missing(visits[i]));
                assert(missing_names(visits).contains(visits[i].name@));
            }
        }
    } else {
        let name = missing_names(visits)[0];
        assert(missing_names(visits).contains(name));
    }
}

/// Visiting an optional field, present or absent, adds nothing to what a
/// build lists.
pub proof fn lemma_optional_field_is_never_missing(visits: Seq<Visit>, visit: Visit)
    requires
        !visit.required,
    ensures
        missing_names(visits.push(visit)) == missing_names(visits),
{
    visits.lemma_filter_push(visit, |visit: Visit| is_missing(visit));
}

/// Visiting a required field that is absent adds its name at the end of what
/// a build lists; visiting one that is present adds nothing.
pub proof fn lemma_required_field_is_listed_when_absent(visits: Seq<Visit>, visit: Visit)
    requires
        visit.required,
    ensures
        missing_names(visits.push(visit)) == if visit.present {
            missing_names(visits)
        } else {
            missing_names(visits).push(visit.name@)
        },
{
    let wanted = |visit: Visit| is_missing(visit);
    visits.lemma_filter_push(visit, wanted);
    if !visit.present {
        let kept = visits.filter(wanted);
        assert(kept.push(visit).map_values(|visit: Visit| visit.name@) == kept.map_values(
            |visit: Visit| visit.name@,
        ).push(visit.name@));
    }
}

/// An optional field that no layer has set is absent when the build visits
/// it, is handed on as absent, and adds nothing to what the build lists.
pub proof fn lemma_unset_optional_field_builds_to_nothing<T>(
    layers: Seq<Option<T>>,
    visits: Seq<Visit>,
    name: &'static str,
)
    requires
        forall|i: int| 0 <= i < layers.len() ==> layers[i] is None,
    ensures
        layered(None::<T>, layers) is None,
        missing_names(
            visits.push(
                Visit { name, required: false, present: layered(None::<T>, layers) is Some },
            ),
        ) == missing_names(visits),
{
    lemma_last_present_layer_wins(None::<T>, layers);
    lemma_optional_field_is_never_missing(
        visits,
        Visit { name, required: false, present: layered(None::<T>, layers) is Some },
    );
}

} // verus!
