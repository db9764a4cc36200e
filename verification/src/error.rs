//! The errors of layering, and the text that reports each of them.
use crate::serde_support::FileReadError;
use vstd::prelude::*;
use vstd::string::StringExecFns;

verus! {

/// `std::num::ParseIntError`, carried through as an opaque value.
#[verifier::external_type_specification]
#[verifier::external_body]
pub struct ExParseIntError(std::num::ParseIntError);

/// A required field that no layer has set. It holds the field's declared name.
#[derive(Debug)]
pub struct MissingField<'a>(pub &'a str);

/// All that can go wrong while layers are read, merged and built.
#[derive(Debug)]
pub enum Error {
    /// Required fields were absent from every layer; all of them are listed,
    /// in the order in which the target declares them.
    MissingFields { required_fields: Vec<MissingField<'static>> },
    /// A number could not be parsed from its text.
    ParseIntError(std::num::ParseIntError),
    /// One setting was given twice, with two different values.
    InconsistentSetting {
        first_source: String,
        first_setting: String,
        second_source: String,
        second_setting: String,
    },
    /// The text found for a field does not parse as the field's type.
    /// `error_condition` is the parser's own account of the failure.
    ParseFieldError { field_name: &'static str, field_type: &'static str, error_condition: String },
    /// A configuration file could not be used.
    FileReadError(FileReadError),
}

/// The names in `names`, each followed by the next after `separator`.
pub open spec fn joined(names: Seq<Seq<char>>, separator: Seq<char>) -> Seq<char>
    decreases names.len(),
{
    if names.len() == 0 {
        Seq::empty()
    } else if names.len() == 1 {
        names[0]
    } else {
        joined(names.drop_last(), separator) + separator + names.last()
    }
}

/// The declared names of the fields in `fields`, in the same order.
pub open spec fn field_names(fields: Seq<MissingField<'static>>) -> Seq<Seq<char>> {
    Seq::new(fields.len(), |i: int| fields[i].0@)
}

impl<'a> MissingField<'a> {
    /// The text that reports a missing field called `name`.
    pub open spec fn message_of(name: Seq<char>) -> Seq<char> {
        "The field "@ + name + " is missing"@
    }

    /// The text that reports this field.
    pub fn message(&self) -> (text: String)
        ensures
            text@ == Self::message_of(self.0@),
    {
        let mut text = String::from_str("The field ");
        text.append(self.0);
        text.append(" is missing");
        text
    }
}

/// The names of `fields`, with a comma and a space between each two.
fn join_names(fields: &Vec<MissingField<'static>>) -> (text: String)
    ensures
        text@ == joined(field_names(fields@), ", "@),
{
    let ghost names = field_names(fields@);
    let mut text = String::new();
    let mut i: usize = 0;
    while i < fields.len()
        invariant
            i <= fields.len(),
            names == field_names(fields@),
            text@ == joined(names.take(i as int), ", "@),
        decreases fields.len() - i,
    {
        proof {
            assert(names.take(i + 1).drop_last() == names.take(i as int));
            assert(names.take(i + 1).last() == fields@[i as int].0@);
        }
        if i > 0 {
            text.append(", ");
        }
        text.append(fields[i].0);
        i += 1;
    }
    proof {
        assert(names.take(fields.len() as int) == names);
    }
    text
}

impl Error {
    /// Whether `text` reports this error.
    ///
    /// Where the error wraps a value of another library, the text holds that
    /// value's own display, which is not stated further here.
    pub open spec fn reported_as(&self, text: Seq<char>) -> bool {
        match self {
            Error::MissingFields { required_fields } => text == "The required fields ["@ + joined(
                field_names(required_fields@),
                ", "@,
            ) + "] were not specified in any of the configuration sources"@,
            Error::ParseIntError(cause) => exists|shown: String|
                vstd::string::to_string_from_display_ensures::<std::num::ParseIntError>(
                    cause,
                    shown,
                ) && text == "Failed to parse integer. "@ + shown@,
            Error::InconsistentSetting {
                first_source,
                first_setting,
                second_source,
                second_setting,
            } => text == "The field was set twice first to "@ + first_setting@ + " in "@
                + first_source@ + " and then a second time to "@ + second_setting@ + " in "@
                + second_source@,
            Error::ParseFieldError { field_name, field_type, error_condition } => text
                == "The field "@ + field_name@ + " failed to convert to "@ + field_type@
                + ", because of "@ + error_condition@,
            Error::FileReadError(cause) => exists|inner: Seq<char>|
                cause.reported_as(inner) && text == "File read error: `"@ + inner + "`"@,
        }
    }

    /// The text that reports this error.
    pub fn message(&self) -> (text: String)
        ensures
            self.reported_as(text@),
    {
        match self {
            Error::MissingFields { required_fields } => {
                let names = join_names(required_fields);
                let mut text = String::from_str("The required fields [");
                text.append(names.as_str());
                text.append("] were not specified in any of the configuration sources");
                text
            },
            Error::ParseIntError(cause) => {
                let shown = cause.to_string();
                let mut text = String::from_str("Failed to parse integer. ");
                text.append(shown.as_str());
                text
            },
            Error::InconsistentSetting {
                first_source,
                first_setting,
                second_source,
                second_setting,
            } => {
                let mut text = String::from_str("The field was set twice first to ");
                text.append(first_setting.as_str());
                text.append(" in ");
                text.append(first_source.as_str());
                text.append(" and then a second time to ");
                text.append(second_setting.as_str());
                text.append(" in ");
                text.append(second_source.as_str());
                text
            },
            Error::ParseFieldError { field_name, field_type, error_condition } => {
                let mut text = String::from_str("The field ");
                text.append(field_name);
                text.append(" failed to convert to ");
                text.append(field_type);
                text.append(", because of ");
                text.append(error_condition.as_str());
                text
            },
            Error::FileReadError(cause) => {
                let inner = cause.message();
                let mut text = String::from_str("File read error: `");
                text.append(inner.as_str());
                text.append("`");
                text
            },
        }
    }
}

impl From<std::num::ParseIntError> for Error {
    fn from(value: std::num::ParseIntError) -> (error: Self) {
        Error::ParseIntError(value)
    }
}

impl vstd::std_specs::convert::FromSpecImpl<std::num::ParseIntError> for Error {
    open spec fn obeys_from_spec() -> bool {
        true
    }

    open spec fn from_spec(value: std::num::ParseIntError) -> Self {
        Error::ParseIntError(value)
    }
}

impl From<FileReadError> for Error {
    fn from(value: FileReadError) -> (error: Self) {
        Error::FileReadError(value)
    }
}

impl vstd::std_specs::convert::FromSpecImpl<FileReadError> for Error {
    open spec fn obeys_from_spec() -> bool {
        true
    }

    open spec fn from_spec(value: FileReadError) -> Self {
        Error::FileReadError(value)
    }
}

} // verus!
