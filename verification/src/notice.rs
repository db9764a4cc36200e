//! Diagnostics. The library prints nothing: what it has to tell is handed to
//! the caller as notices, to be logged as the application sees fit.
use vstd::prelude::*;
use vstd::string::StringExecFns;

verus! {

/// How much a notice matters.
#[derive(Debug, Clone, Copy, PartialEq, Eq, Structural)]
pub enum Level {
    /// What is being done.
    Info,
    /// Something odd that stops nothing.
    Warn,
    /// The reason of a failure.
    Error,
}

/// One diagnostic.
#[derive(Debug)]
pub struct Notice {
    pub level: Level,
    pub text: String,
}

/// A notice as contracts see it.
pub struct NoticeView {
    pub level: Level,
    pub text: Seq<char>,
}

impl View for Notice {
    type V = NoticeView;

    open spec fn view(&self) -> NoticeView {
        NoticeView { level: self.level, text: self.text@ }
    }
}

/// The views of `notices`, in the same order.
pub open spec fn notice_views(notices: Seq<Notice>) -> Seq<NoticeView> {
    notices.map_values(|notice: Notice| notice@)
}

/// The decimal digit `digit`, which is below ten.
pub open spec fn digit_text(digit: nat) -> Seq<char> {
    if digit == 0 {
        "0"@
    } else if digit == 1 {
        "1"@
    } else if digit == 2 {
        "2"@
    } else if digit == 3 {
        "3"@
    } else if digit == 4 {
        "4"@
    } else if digit == 5 {
        "5"@
    } else if digit == 6 {
        "6"@
    } else if digit == 7 {
        "7"@
    } else if digit == 8 {
        "8"@
    } else {
        "9"@
    }
}

/// `number` in decimal digits, without leading zeros.
pub open spec fn decimal(number: nat) -> Seq<char>
    decreases number,
{
    if number < 10 {
        digit_text(number)
    } else {
        decimal(number / 10) + digit_text(number % 10)
    }
}

/// What is said when a layer is about to be read from the source called `name`.
pub open spec fn sourcing_text(name: Seq<char>) -> Seq<char> {
    "Sourcing configuration from `"@ + name + "`"@
}

/// What is said when a build starts on `required` required and `optional`
/// optional fields.
pub open spec fn building_text(required: nat, optional: nat) -> Seq<char> {
    "Building configuration. "@ + decimal(required) + " ("@ + decimal(optional) + ") fields"@
}

/// What is said when the variable `candidate` holds `shown`, which is no text.
pub open spec fn not_unicode_text(candidate: Seq<char>, shown: Seq<char>) -> Seq<char> {
    "The value of the environment variable for `"@ + candidate + "` was not Unicode. Got "@
        + shown
}

/// What is said when `candidate` repeats the value that `previous` has set.
pub open spec fn redundant_text(candidate: Seq<char>, previous: Seq<char>) -> Seq<char> {
    "Redundant specification of the environment variable "@ + candidate
        + ", which was previously set via "@ + previous
}

/// What is said when `candidate` holds `found` where an earlier name has set
/// `expected`.
pub open spec fn inconsistent_text(
    candidate: Seq<char>,
    expected: Seq<char>,
    found: Seq<char>,
) -> Seq<char> {
    "Inconsistent specification via environment variable "@ + candidate + ". Expected "@
        + expected + " found "@ + found
}

/// Appends `number` in decimal digits to `text`.
fn append_decimal(text: &mut String, number: usize)
    ensures
        final(text)@ == old(text)@ + decimal(number as nat),
    decreases number,
{
    if number >= 10 {
        append_decimal(text, number / 10);
    }
    let digit: usize = number % 10;
    let shown = if digit == 0 {
        "0"
    } else if digit == 1 {
        "1"
    } else if digit == 2 {
        "2"
    } else if digit == 3 {
        "3"
    } else if digit == 4 {
        "4"
    } else if digit == 5 {
        "5"
    } else if digit == 6 {
        "6"
    } else if digit == 7 {
        "7"
    } else if digit == 8 {
        "8"
    } else {
        "9"
    };
    text.append(shown);
}

impl Notice {
    /// The notice that a layer is about to be read from the source called `name`.
    pub fn sourcing(name: &str) -> (notice: Notice)
        ensures
            notice@ == (NoticeView { level: Level::Info, text: sourcing_text(name@) }),
    {
        let mut text = String::from_str("Sourcing configuration from `");
        text.append(name);
        text.append("`");
        Notice { level: Level::Info, text }
    }

    /// The notice that a build starts on so many required and optional fields.
    pub fn building(required: usize, optional: usize) -> (notice: Notice)
        ensures
            notice@ == (NoticeView {
                level: Level::Info,
                text: building_text(required as nat, optional as nat),
            }),
    {
        let mut text = String::from_str("Building configuration. ");
        append_decimal(&mut text, required);
        text.append(" (");
        append_decimal(&mut text, optional);
        text.append(") fields");
        Notice { level: Level::Info, text }
    }

    /// The warning that the variable `candidate` holds `shown`, which is no text.
    pub fn not_unicode(candidate: &str, shown: &str) -> (notice: Notice)
        ensures
            notice@ == (NoticeView {
                level: Level::Warn,
                text: not_unicode_text(candidate@, shown@),
            }),
    {
        let mut text = String::from_str("The value of the environment variable for `");
        text.append(candidate);
        text.append("` was not Unicode. Got ");
        text.append(shown);
        Notice { level: Level::Warn, text }
    }

    /// The warning that `candidate` repeats the value that `previous` has set.
    pub fn redundant(candidate: &str, previous: &str) -> (notice: Notice)
        ensures
            notice@ == (NoticeView {
                level: Level::Warn,
                text: redundant_text(candidate@, previous@),
            }),
    {
        let mut text = String::from_str("Redundant specification of the environment variable ");
        text.append(candidate);
        text.append(", which was previously set via ");
        text.append(previous);
        Notice { level: Level::Warn, text }
    }

    /// The error notice that `candidate` holds `found` where an earlier name
    /// has set `expected`.
    pub fn inconsistent(candidate: &str, expected: &str, found: &str) -> (notice: Notice)
        ensures
            notice@ == (NoticeView {
                level: Level::Error,
                text: inconsistent_text(candidate@, expected@, found@),
            }),
    {
        let mut text = String::from_str("Inconsistent specification via environment variable ");
        text.append(candidate);
        text.append(". Expected ");
        text.append(expected);
        text.append(" found ");
        text.append(found);
        Notice { level: Level::Error, text }
    }
}

} // verus!
