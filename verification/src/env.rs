//! One field read from the environment, under several names.
//!
//! A field may be set through any of its candidate names. The names are
//! looked at in the order in which they are given. The first one that holds
//! text settles the value; a later one may repeat it, which is noted, but may
//! not differ from it, which is an error. The environment itself is read by
//! the caller, who hands over what each name held.
use crate::error::Error;
use crate::notice::{
    inconsistent_text, not_unicode_text, notice_views, redundant_text, Level, Notice, NoticeView,
};
use crate::partial::HasPartial;
use crate::source::Source;
use vstd::prelude::*;
use vstd::string::StringExecFns;

verus! {

/// A configuration whose layers can be read from the environment.
pub trait EnvSourced<'a>: HasPartial + Sized {
    /// The source that reads them.
    type Source: 'a + Source<Self> + Default;
}

/// What the environment holds under one name.
#[derive(Debug)]
pub enum Lookup {
    /// No variable of that name is set.
    Absent,
    /// The variable holds something that is no Unicode text; `shown` is how a
    /// diagnostic prints it.
    NotUnicode { shown: String },
    /// The variable's text.
    Text(String),
}

/// A candidate name of a field, with what the environment held under it.
#[derive(Debug)]
pub struct Candidate<'a> {
    pub name: &'a str,
    pub found: Lookup,
}

/// How far the resolution of one field has come.
#[derive(Debug)]
pub enum Resolution<'a> {
    /// No candidate has held text yet.
    Unset,
    /// `origin` was the first candidate that held text, and `value` is that text.
    Settled { origin: &'a str, value: String },
    /// `rival` held `claimed`, which differs from the `value` that `origin`
    /// had set. Nothing that follows changes this.
    Failed { origin: &'a str, value: String, rival: &'a str, claimed: String },
}

/// A lookup as contracts see it.
pub enum Found {
    Absent,
    NotUnicode { shown: Seq<char> },
    Text(Seq<char>),
}

/// A candidate as contracts see it.
pub struct Sighting {
    pub name: Seq<char>,
    pub found: Found,
}

/// A resolution as contracts see it.
pub enum State {
    Unset,
    Settled { origin: Seq<char>, value: Seq<char> },
    Failed { origin: Seq<char>, value: Seq<char>, rival: Seq<char>, claimed: Seq<char> },
}

impl View for Lookup {
    type V = Found;

    open spec fn view(&self) -> Found {
        match self {
            Lookup::Absent => Found::Absent,
            Lookup::NotUnicode { shown } => Found::NotUnicode { shown: shown@ },
            Lookup::Text(text) => Found::Text(text@),
        }
    }
}

impl<'a> View for Candidate<'a> {
    type V = Sighting;

    open spec fn view(&self) -> Sighting {
        Sighting { name: self.name@, found: self.found@ }
    }
}

impl<'a> View for Resolution<'a> {
    type V = State;

    open spec fn view(&self) -> State {
        match self {
            Resolution::Unset => State::Unset,
            Resolution::Settled { origin, value } => State::Settled {
                origin: origin@,
                value: value@,
            },
            Resolution::Failed { origin, value, rival, claimed } => State::Failed {
                origin: origin@,
                value: value@,
                rival: rival@,
                claimed: claimed@,
            },
        }
    }
}

/// The state after the candidate `sighting` has been looked at in `state`.
pub open spec fn advance(state: State, sighting: Sighting) -> State {
    match state {
        State::Unset => match sighting.found {
            Found::Text(text) => State::Settled { origin: sighting.name, value: text },
            _ => State::Unset,
        },
        State::Settled { origin, value } => match sighting.found {
            Found::Text(text) => if text == value {
                state
            } else {
                State::Failed { origin, value, rival: sighting.name, claimed: text }
            },
            _ => state,
        },
        State::Failed { .. } => state,
    }
}

/// What is noted when the candidate `sighting` is looked at in `state`.
pub open spec fn noted(state: State, sighting: Sighting) -> Option<NoticeView> {
    match state {
        State::Failed { .. } => None,
        _ => match sighting.found {
            Found::Absent => None,
            Found::NotUnicode { shown } => Some(
                NoticeView { level: Level::Warn, text: not_unicode_text(sighting.name, shown) },
            ),
            Found::Text(text) => match state {
                State::Settled { origin, value } => if text == value {
                    Some(
                        NoticeView {
                            level: Level::Warn,
                            text: redundant_text(sighting.name, origin),
                        },
                    )
                } else {
                    Some(
                        NoticeView {
                            level: Level::Error,
                            text: inconsistent_text(sighting.name, value, text),
                        },
                    )
                },
                _ => None,
            },
        },
    }
}

/// The state after all of `sightings` have been looked at, first to last.
pub open spec fn resolve(sightings: Seq<Sighting>) -> State
    decreases sightings.len(),
{
    if sightings.len() == 0 {
        State::Unset
    } else {
        advance(resolve(sightings.drop_last()), sightings.last())
    }
}

/// All that is noted while `sightings` are looked at, first to last.
pub open spec fn noted_all(sightings: Seq<Sighting>) -> Seq<NoticeView>
    decreases sightings.len(),
{
    if sightings.len() == 0 {
        Seq::empty()
    } else {
        let before = noted_all(sightings.drop_last());
        match noted(resolve(sightings.drop_last()), sightings.last()) {
            Some(notice) => before.push(notice),
            None => before,
        }
    }
}

/// The views of `candidates`, in the same order.
pub open spec fn sightings(candidates: Seq<Candidate<'_>>) -> Seq<Sighting> {
    candidates.map_values(|candidate: Candidate<'_>| candidate@)
}

/// What a source is called in an error when it is the variable `name`.
pub open spec fn variable_label(name: Seq<char>) -> Seq<char> {
    "Environment variable "@ + name
}

/// Whether `outcome` is what a resolution that ended in `state` gives: no
/// value, the value, or the error that names both variables and both values.
pub open spec fn settles(state: State, outcome: Result<Option<String>, Error>) -> bool {
    match state {
        State::Unset => outcome matches Ok(None),
        State::Settled { origin, value } => outcome matches Ok(Some(text)) && text@ == value,
        State::Failed { origin, value, rival, claimed } => {
            &&& outcome matches Err(
                Error::InconsistentSetting {
                    first_source,
                    first_setting,
                    second_source,
                    second_setting,
                },
            )
            &&& first_source@ == variable_label(origin)
            &&& first_setting@ == value
            &&& second_source@ == variable_label(rival)
            &&& second_setting@ == claimed
        },
    }
}

impl<'a> Resolution<'a> {
    /// Looks at one more candidate: `name`, under which the environment held
    /// `found`. Gives the next state and what there is to note.
    pub fn step(self, name: &'a str, found: &Lookup) -> (next: (Resolution<'a>, Option<Notice>))
        ensures
            next.0@ == advance(self@, Sighting { name: name@, found: found@ }),
            match noted(self@, Sighting { name: name@, found: found@ }) {
                Some(notice) => next.1 matches Some(told) && told@ == notice,
                None => next.1 is None,
            },
    {
        match self {
            Resolution::Failed { origin, value, rival, claimed } => (
                Resolution::Failed { origin, value, rival, claimed },
                None,
            ),
            Resolution::Unset => match found {
                Lookup::Absent => (Resolution::Unset, None),
                Lookup::NotUnicode { shown } => (
                    Resolution::Unset,
                    Some(Notice::not_unicode(name, shown.as_str())),
                ),
                Lookup::Text(text) => (
                    Resolution::Settled { origin: name, value: text.clone() },
                    None,
                ),
            },
            Resolution::Settled { origin, value } => match found {
                Lookup::Absent => (Resolution::Settled { origin, value }, None),
                Lookup::NotUnicode { shown } => (
                    Resolution::Settled { origin, value },
                    Some(Notice::not_unicode(name, shown.as_str())),
                ),
                Lookup::Text(text) => {
                    if *text == value {
                        let notice = Notice::redundant(name, origin);
                        (Resolution::Settled { origin, value }, Some(notice))
                    } else {
                        let notice = Notice::inconsistent(name, value.as_str(), text.as_str());
                        let claimed = text.clone();
                        (Resolution::Failed { origin, value, rival: name, claimed }, Some(notice))
                    }
                },
            },
        }
    }

    /// Ends the resolution: no value, the value, or the error.
    pub fn finish(self) -> (outcome: Result<Option<String>, Error>)
        ensures
            settles(self@, outcome),
    {
        match self {
            Resolution::Unset => Ok(None),
            Resolution::Settled { origin, value } => Ok(Some(value)),
            Resolution::Failed { origin, value, rival, claimed } => {
                let mut first_source = String::from_str("Environment variable ");
                first_source.append(origin);
                let mut second_source = String::from_str("Environment variable ");
                second_source.append(rival);
                Err(
                    Error::InconsistentSetting {
                        first_source,
                        first_setting: value,
                        second_source,
                        second_setting: claimed,
                    },
                )
            },
        }
    }
}

impl<'a> Resolution<'a> {
    /// Whether the resolution has failed.
    pub fn is_failed(&self) -> (failed: bool)
        ensures
            failed == (self@ is Failed),
    {
        match self {
            Resolution::Failed { .. } => true,
            _ => false,
        }
    }
}

/// The value of a field that is not text, once the text resolved for it, if
/// any, has been handed to the type's parser.
///
/// No text gives no value. Text that parsed gives the value. Text that did
/// not parse gives an error that holds the field's name, the name of its
/// type, and the parser's own account of the failure as `E` displays it.
pub fn typed<T, E: core::fmt::Display>(
    field_name: &'static str,
    field_type: &'static str,
    parsed: Option<Result<T, E>>,
) -> (outcome: Result<Option<T>, Error>)
    ensures
        match parsed {
            None => outcome == Ok::<Option<T>, Error>(None),
            Some(Ok(value)) => outcome == Ok::<Option<T>, Error>(Some(value)),
            Some(Err(cause)) => {
                &&& outcome matches Err(
                    Error::ParseFieldError { field_name: name, field_type: kind, error_condition },
                )
                &&& name == field_name
                &&& kind == field_type
                &&& vstd::string::to_string_from_display_ensures::<E>(&cause, error_condition)
            },
        },
{
    match parsed {
        None => Ok(None),
        Some(Ok(value)) => Ok(Some(value)),
        Some(Err(cause)) => Err(
            Error::ParseFieldError { field_name, field_type, error_condition: cause.to_string() },
        ),
    }
}

/// Once the candidates before `end` have led to failure, those from `end` on
/// change neither the state nor what is noted.
pub proof fn lemma_failure_is_final(sightings: Seq<Sighting>, end: int)
    requires
        0 <= end <= sightings.len(),
        resolve(sightings.take(end)) is Failed,
    ensures
        resolve(sightings) == resolve(sightings.take(end)),
        noted_all(sightings) == noted_all(sightings.take(end)),
    decreases sightings.len() - end,
{
    if end == sightings.len() {
        assert(sightings.take(end) == sightings);
    } else {
        assert(sightings.drop_last().take(end) == sightings.take(end));
        lemma_failure_is_final(sightings.drop_last(), end);
    }
}

/// Resolves one field from its candidate names, in the order given, and
/// appends to `log` what there is to note on the way.
///
/// A name that holds no text is passed over, with a warning where it holds
/// something else. The first name that holds text settles the value. A later
/// name that holds the same text is noted as redundant. One that holds another
/// text ends the resolution at once, with an error that names both variables
/// and both values; the names after it are not looked at.
pub fn extract<'a>(candidates: &[Candidate<'a>], log: &mut Vec<Notice>) -> (outcome: Result<
    Option<String>,
    Error,
>)
    ensures
        settles(resolve(sightings(candidates@)), outcome),
        notice_views(final(log)@) == notice_views(old(log)@) + noted_all(sightings(candidates@)),
{
    let ghost all = sightings(candidates@);
    let ghost before = notice_views(log@);
    let mut state = Resolution::Unset;
    let mut i: usize = 0;
    proof {
        assert(notice_views(log@) == before + noted_all(all.take(0)));
    }
    while i < candidates.len()
        invariant
            i <= candidates.len(),
            all == sightings(candidates@),
            before == notice_views(old(log)@),
            state@ == resolve(all.take(i as int)),
            !(state@ is Failed),
            notice_views(log@) == before + noted_all(all.take(i as int)),
        decreases candidates.len() - i,
    {
        let candidate = &candidates[i];
        let ghost told_before = log@;
        let (next, notice) = state.step(candidate.name, &candidate.found);
        proof {
            assert(all.take(i + 1).drop_last() == all.take(i as int));
            assert(all.take(i + 1).last() == candidate@);
        }
        match notice {
            Some(told) => {
                log.push(told);
                proof {
                    assert(notice_views(log@) == notice_views(told_before).push(told@));
                }
            },
            None => {},
        }
        proof {
            assert(notice_views(log@) == before + noted_all(all.take(i + 1)));
        }
        if next.is_failed() {
            proof {
                lemma_failure_is_final(all, i + 1);
            }
            return next.finish();
        }
        state = next;
        i += 1;
    }
    proof {
        assert(all.take(candidates.len() as int) == all);
    }
    state.finish()
}

/// Whether the candidate at `index` is the first of `sightings` that holds text.
pub open spec fn first_text_at(sightings: Seq<Sighting>, index: int) -> bool {
    &&& 0 <= index < sightings.len()
    &&& sightings[index].found is Text
    &&& forall|i: int| 0 <= i < index ==> !((#[trigger] sightings[i]).found is Text)
}

/// Whether every candidate before `end` that holds text holds `value`.
pub open spec fn texts_agree(sightings: Seq<Sighting>, end: int, value: Seq<char>) -> bool {
    forall|i: int|
        0 <= i < end && i < sightings.len() ==> (
        (#[trigger] sightings[i]).found matches Found::Text(text) ==> text == value)
}

/// What a resolution ends in is decided by the candidates that hold text.
/// It stays unset where none does. It is settled where all of them hold one
/// value, and its origin is the first of them. It fails where one of them
/// differs from the first: it then names the first, and the earliest that
/// differs from it, each with its value.
pub proof fn lemma_resolution_is_decided_by_texts(sightings: Seq<Sighting>)
    ensures
        match resolve(sightings) {
            State::Unset => forall|i: int|
                0 <= i < sightings.len() ==> !((#[trigger] sightings[i]).found is Text),
            State::Settled { origin, value } => {
                &&& texts_agree(sightings, sightings.len() as int, value)
                &&& exists|first: int|
                    first_text_at(sightings, first) && #[trigger] sightings[first] == (Sighting {
                        name: origin,
                        found: Found::Text(value),
                    })
            },
            State::Failed { origin, value, rival, claimed } => {
                &&& claimed != value
                &&& exists|first: int, second: int|
                    {
                        &&& first < second
                        &&& first_text_at(sightings, first)
                        &&& #[trigger] sightings[first] == (Sighting {
                            name: origin,
                            found: Found::Text(value),
                        })
                        &&& 0 <= second < sightings.len()
                        &&& #[trigger] sightings[second] == (Sighting {
                            name: rival,
                            found: Found::Text(claimed),
                        })
                        &&& texts_agree(sightings, second, value)
                    }
            },
        },
    decreases sightings.len(),
{
    if sightings.len() > 0 {
        let before = sightings.drop_last();
        let last = sightings.last();
        let at = sightings.len() - 1;
        lemma_resolution_is_decided_by_texts(before);
        assert forall|i: int| 0 <= i < before.len() implies before[i] == sightings[i] by {}
        match resolve(before) {
            State::Unset => {
                if last.found is Text {
                    assert(first_text_at(sightings, at));
                    assert(sightings[at] == (Sighting {
                        name: last.name,
                        found: Found::Text(last.found->Text_0),
                    }));
                }
            },
            State::Settled { origin, value } => {
                let first = choose|first: int|
                    first_text_at(before, first) && #[trigger] before[first] == (Sighting {
                        name: origin,
                        found: Found::Text(value),
                    });
                assert(first_text_at(sightings, first));
                assert(sightings[first] == before[first]);
                match last.found {
                    Found::Text(text) => {
                        if text != value {
                            assert(sightings[at] == (Sighting {
                                name: last.name,
                                found: Found::Text(text),
                            }));
                            assert(texts_agree(sightings, at, value));
                        }
                    },
                    _ => {},
                }
            },
            State::Failed { origin, value, rival, claimed } => {
                let (first, second) = choose|first: int, second: int|
                    {
                        &&& first < second
                        &&& first_text_at(before, first)
                        &&& #[trigger] before[first] == (Sighting {
                            name: origin,
                            found: Found::Text(value),
                        })
                        &&& 0 <= second < before.len()
                        &&& #[trigger] before[second] == (Sighting {
                            name: rival,
                            found: Found::Text(claimed),
                        })
                        &&& texts_agree(before, second, value)
                    };
                assert(first_text_at(sightings, first));
                assert(sightings[first] == before[first]);
                assert(sightings[second] == before[second]);
                assert(texts_agree(sightings, second, value));
            },
        }
    }
}

/// Where the candidates that hold text all hold `value`, and the one at
/// `first` is the first of them, the field resolves to `value`, with that
/// candidate as its origin.
pub proof fn lemma_agreeing_texts_settle(sightings: Seq<Sighting>, first: int, value: Seq<char>)
    requires
        first_text_at(sightings, first),
        texts_agree(sightings, sightings.len() as int, value),
    ensures
        resolve(sightings) == (State::Settled { origin: sightings[first].name, value }),
{
    lemma_resolution_is_decided_by_texts(sightings);
    match resolve(sightings) {
        State::Unset => {
            assert(!(sightings[first].found is Text));
        },
        State::Settled { origin, value: held } => {
            let found = choose|found: int|
                first_text_at(sightings, found) && #[trigger] sightings[found] == (Sighting {
                    name: origin,
                    found: Found::Text(held),
                });
            assert(found == first) by {
                if found < first {
                    assert(!(sightings[found].found is Text));
                }
                if first < found {
                    assert(!(sightings[first].found is Text));
                }
            }
        },
        State::Failed { origin, value: held, rival, claimed } => {
            let (found, second) = choose|found: int, second: int|
                {
                    &&& found < second
                    &&& first_text_at(sightings, found)
                    &&& #[trigger] sightings[found] == (Sighting {
                        name: origin,
                        found: Found::Text(held),
                    })
                    &&& 0 <= second < sightings.len()
                    &&& #[trigger] sightings[second] == (Sighting {
                        name: rival,
                        found: Found::Text(claimed),
                    })
                    &&& texts_agree(sightings, second, held)
                };
            assert(sightings[found].found matches Found::Text(text) ==> text == value);
            assert(sightings[second].found matches Found::Text(text) ==> text == value);
        },
    }
}

/// Where the candidate at `first` is the first that holds text, and the one at
/// `second` is the earliest after it whose text differs, the resolution fails
/// and names these two, each with its value.
pub proof fn lemma_differing_text_fails(sightings: Seq<Sighting>, first: int, second: int)
    requires
        first_text_at(sightings, first),
        first < second < sightings.len(),
        sightings[second].found is Text,
        sightings[second].found != sightings[first].found,
        texts_agree(sightings, second, sightings[first].found->Text_0),
    ensures
        resolve(sightings) == (State::Failed {
            origin: sightings[first].name,
            value: sightings[first].found->Text_0,
            rival: sightings[second].name,
            claimed: sightings[second].found->Text_0,
        }),
{
    let upto = sightings.take(second);
    assert forall|i: int| 0 <= i < upto.len() implies upto[i] == sightings[i] by {}
    assert(first_text_at(upto, first));
    assert(texts_agree(upto, upto.len() as int, sightings[first].found->Text_0));
    lemma_agreeing_texts_settle(upto, first, sightings[first].found->Text_0);
    let through = sightings.take(second + 1);
    assert(through.drop_last() == upto);
    assert(through.last() == sightings[second]);
    lemma_failure_is_final(sightings, second + 1);
}

} // verus!
