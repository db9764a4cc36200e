//! Sources of layers.
use crate::notice::{sourcing_text, Level, Notice, NoticeView};
use crate::partial::HasPartial;
use core::fmt::Debug;
use vstd::prelude::*;

verus! {

/// Something that one layer of `C` can be read from: a file, the
/// environment, the command line.
///
/// What a source yields and what it is called is the implementor's to say, in
/// `yields` and `named`. Left as they are, the two say nothing, as befits a
/// source whose layer depends on the world outside.
pub trait Source<C: HasPartial> {
    /// What reading fails with.
    type Error: Debug;

    /// Whether reading `self` may give `outcome`.
    open spec fn yields(&self, outcome: Result<C::Partial, Self::Error>) -> bool {
        true
    }

    /// Whether `name` is what this source is called.
    open spec fn named(&self, name: Seq<char>) -> bool {
        true
    }

    /// Reads the layer. A source is read once.
    fn to_partial(self) -> (outcome: Result<C::Partial, Self::Error>)
        ensures
            self.yields(outcome),
    ;

    /// What this source is called in diagnostics.
    fn name(&self) -> (name: String)
        ensures
            self.named(name@),
    ;
}

impl<T, C, E> Source<C> for Option<T> where
    C: HasPartial,
    C::Partial: Default,
    T: Source<C, Error = E>,
    E: Debug,
 {
    type Error = E;

    /// A source that is there yields what it yields. One that is not there
    /// yields the default partial value, in which no field is set.
    open spec fn yields(&self, outcome: Result<C::Partial, E>) -> bool {
        match self {
            Some(inner) => inner.yields(outcome),
            None => outcome matches Ok(layer) && call_ensures(
                <C::Partial as Default>::default,
                (),
                layer,
            ),
        }
    }

    /// A source that is there is called what it is called. One that is not
    /// there is called "Unspecified".
    open spec fn named(&self, name: Seq<char>) -> bool {
        match self {
            Some(inner) => inner.named(name),
            None => name == "Unspecified"@,
        }
    }

    fn to_partial(self) -> (outcome: Result<C::Partial, E>) {
        match self {
            Some(inner) => inner.to_partial(),
            None => Ok(<C::Partial as Default>::default()),
        }
    }

    fn name(&self) -> (name: String) {
        match self {
            Some(inner) => inner.name(),
            None => "Unspecified".to_owned(),
        }
    }
}

/// The notice that a layer is about to be read from `value`: it names the
/// source as the source names itself.
pub fn announcement<C: HasPartial, T: Source<C>>(value: &T) -> (notice: Notice)
    ensures
        exists|name: Seq<char>| #[trigger]
            value.named(name) && notice@ == (NoticeView {
                level: Level::Info,
                text: sourcing_text(name),
            }),
{
    let name = value.name();
    let notice = Notice::sourcing(name.as_str());
    proof {
        assert(value.named(name@));
    }
    notice
}

/// Something that may name the configuration file to read. `T` is what the
/// path is held as: a string slice, a path, or another thing that names one.
pub trait ConfigPath<T> {
    /// The path of the configuration file, if one was given.
    fn config_path(&self) -> Option<T>;
}

} // verus!
