//! Configuration files as layers: the formats, and what can go wrong with a file.
use serde_json::Error as JsonError;
use toml::de::Error as TomlError;
use vstd::prelude::*;
use vstd::string::StringExecFns;

verus! {

/// `std::io::Error`, carried through as an opaque value.
#[verifier::external_type_specification]
#[verifier::external_body]
pub struct ExIoError(std::io::Error);

/// `std::path::PathBuf`, carried through as an opaque value.
#[verifier::external_type_specification]
#[verifier::external_body]
pub struct ExPathBuf(std::path::PathBuf);

/// `std::path::Path`, carried through as an opaque value.
#[verifier::external_type_specification]
#[verifier::external_body]
pub struct ExPath(std::path::Path);

/// `toml::de::Error`, carried through as an opaque value.
#[verifier::external_type_specification]
#[verifier::external_body]
pub struct ExTomlError(TomlError);

/// `serde_json::Error`, carried through as an opaque value.
#[verifier::external_type_specification]
#[verifier::external_body]
pub struct ExJsonError(JsonError);

/// Why a configuration file yielded no layer.
#[derive(Debug)]
#[non_exhaustive]
pub enum FileReadError {
    /// The file could not be opened or read.
    Open(std::io::Error),
    /// The file's text is not the TOML of a layer.
    Toml(TomlError),
    /// The file's bytes are not the JSON of a layer.
    Json(JsonError),
    /// No file exists at this path.
    NoFile(std::path::PathBuf),
    /// The file's extension names no format that is read here.
    UnsupportedExtension(String),
    /// The file has no extension to tell its format by.
    NoExtension,
}

/// `Debug` for `std::path::PathBuf`: the text that `{:?}` prints for `path`.
/// Nothing is claimed of the result.
#[verifier::external_body]
fn path_buf_shown(path: &std::path::PathBuf) -> (shown: String) {
    format!("{:?}", path)
}

/// `Debug` for `std::path::Path`: the text that `{:?}` prints for `path`.
/// Nothing is claimed of the result.
#[verifier::external_body]
fn path_shown(path: &std::path::Path) -> (shown: String) {
    format!("{:?}", path)
}

impl FileReadError {
    /// Whether `text` reports this error.
    ///
    /// Where the error wraps a value of another library, or a path, the text
    /// holds that value's own display, which is not stated further here.
    pub open spec fn reported_as(&self, text: Seq<char>) -> bool {
        match self {
            FileReadError::NoExtension => text == "No file extension provided. Aborting"@,
            FileReadError::UnsupportedExtension(extension) => text == "The file extension "@
                + extension@ + " is not supported"@,
            FileReadError::NoFile(_) => exists|shown: Seq<char>|
                text == "The file "@ + shown + " could not be found"@,
            FileReadError::Open(cause) => exists|shown: String|
                vstd::string::to_string_from_display_ensures::<std::io::Error>(cause, shown)
                    && text == "The file system reported the following error "@ + shown@,
            FileReadError::Toml(cause) => exists|shown: String|
                vstd::string::to_string_from_display_ensures::<TomlError>(cause, shown) && text
                    == "Error parsing TOML file "@ + shown@,
            FileReadError::Json(cause) => exists|shown: String|
                vstd::string::to_string_from_display_ensures::<JsonError>(cause, shown) && text
                    == "Error parsing JSON file "@ + shown@,
        }
    }

    /// The text that reports this error.
    pub fn message(&self) -> (text: String)
        ensures
            self.reported_as(text@),
    {
        match self {
            FileReadError::NoExtension => String::from_str("No file extension provided. Aborting"),
            FileReadError::UnsupportedExtension(extension) => {
                let mut text = String::from_str("The file extension ");
                text.append(extension.as_str());
                text.append(" is not supported");
                text
            },
            FileReadError::NoFile(path) => {
                let shown = path_buf_shown(path);
                let mut text = String::from_str("The file ");
                text.append(shown.as_str());
                text.append(" could not be found");
                text
            },
            FileReadError::Open(cause) => {
                let shown = cause.to_string();
                let mut text = String::from_str("The file system reported the following error ");
                text.append(shown.as_str());
                text
            },
            FileReadError::Toml(cause) => {
                let shown = cause.to_string();
                let mut text = String::from_str("Error parsing TOML file ");
                text.append(shown.as_str());
                text
            },
            FileReadError::Json(cause) => {
                let shown = cause.to_string();
                let mut text = String::from_str("Error parsing JSON file ");
                text.append(shown.as_str());
                text
            },
        }
    }
}

impl From<std::io::Error> for FileReadError {
    fn from(value: std::io::Error) -> (error: Self) {
        FileReadError::Open(value)
    }
}

impl vstd::std_specs::convert::FromSpecImpl<std::io::Error> for FileReadError {
    open spec fn obeys_from_spec() -> bool {
        true
    }

    open spec fn from_spec(value: std::io::Error) -> Self {
        FileReadError::Open(value)
    }
}

/// A file that holds TOML.
pub struct Toml<'a>(pub &'a std::path::Path);

/// A file that holds JSON.
pub struct Json<'a>(pub &'a std::path::Path);

/// A format that configuration files are read in.
#[derive(Debug, Clone, Copy, PartialEq, Eq, Structural)]
pub enum Format {
    Toml,
    Json,
}

/// The format that a file with the extension `extension` is read in, if any.
pub open spec fn format_of(extension: Seq<char>) -> Option<Format> {
    if extension == "toml"@ || extension == "tml"@ {
        Some(Format::Toml)
    } else if extension == "json"@ || extension == "js"@ {
        Some(Format::Json)
    } else {
        None
    }
}

/// Whether `outcome` is what is known of the file at `path` before it is
/// opened, given whether it `exists` and what `extension` it has: that there
/// is no such file, that it has no extension, that its extension is not
/// supported, or the format it is to be read in.
pub open spec fn detects(
    path: std::path::PathBuf,
    exists: bool,
    extension: Option<Seq<char>>,
    outcome: Result<Format, FileReadError>,
) -> bool {
    if !exists {
        outcome == Err::<Format, FileReadError>(FileReadError::NoFile(path))
    } else {
        match extension {
            None => outcome == Err::<Format, FileReadError>(FileReadError::NoExtension),
            Some(text) => match format_of(text) {
                Some(format) => outcome == Ok::<Format, FileReadError>(format),
                None => outcome matches Err(FileReadError::UnsupportedExtension(named))
                    && named@ == text,
            },
        }
    }
}

impl Format {
    /// The format that a file with the extension `extension` is read in.
    pub fn of_extension(extension: &str) -> (format: Option<Format>)
        ensures
            format == format_of(extension@),
    {
        let given = extension.to_owned();
        if given == String::from_str("toml") || given == String::from_str("tml") {
            Some(Format::Toml)
        } else if given == String::from_str("json") || given == String::from_str("js") {
            Some(Format::Json)
        } else {
            None
        }
    }

    /// Decides, before the file at `path` is opened, how it is to be read.
    /// The caller has asked the file system whether the file `exists`, and has
    /// taken the `extension` from the path.
    pub fn detect(path: std::path::PathBuf, exists: bool, extension: Option<&str>) -> (outcome:
        Result<Format, FileReadError>)
        ensures
            detects(
                path,
                exists,
                match extension {
                    Some(text) => Some(text@),
                    None => None,
                },
                outcome,
            ),
    {
        if !exists {
            Err(FileReadError::NoFile(path))
        } else {
            match extension {
                None => Err(FileReadError::NoExtension),
                Some(text) => match Format::of_extension(text) {
                    Some(format) => Ok(format),
                    None => Err(FileReadError::UnsupportedExtension(text.to_owned())),
                },
            }
        }
    }
}

impl<'a> Toml<'a> {
    /// What the file is called in diagnostics: "TOML file at ", then the path
    /// as `{:?}` prints it.
    pub fn name(&self) -> (name: String)
        ensures
            exists|shown: Seq<char>| name@ == "TOML file at "@ + shown,
    {
        let shown = path_shown(self.0);
        let mut name = String::from_str("TOML file at ");
        name.append(shown.as_str());
        name
    }

    /// What reading the file gives, once a decoder has made a layer of its
    /// text or has failed to.
    pub fn decoded<P>(attempt: Result<P, TomlError>) -> (outcome: Result<P, FileReadError>)
        ensures
            match attempt {
                Ok(layer) => outcome == Ok::<P, FileReadError>(layer),
                Err(cause) => outcome == Err::<P, FileReadError>(FileReadError::Toml(cause)),
            },
    {
        match attempt {
            Ok(layer) => Ok(layer),
            Err(cause) => Err(FileReadError::Toml(cause)),
        }
    }
}

impl<'a> Json<'a> {
    /// What the file is called in diagnostics: "JSON file at ", then the path
    /// as `{:?}` prints it.
    pub fn name(&self) -> (name: String)
        ensures
            exists|shown: Seq<char>| name@ == "JSON file at "@ + shown,
    {
        let shown = path_shown(self.0);
        let mut name = String::from_str("JSON file at ");
        name.append(shown.as_str());
        name
    }

    /// What reading the file gives, once a decoder has made a layer of its
    /// bytes or has failed to.
    pub fn decoded<P>(attempt: Result<P, JsonError>) -> (outcome: Result<P, FileReadError>)
        ensures
            match attempt {
                Ok(layer) => outcome == Ok::<P, FileReadError>(layer),
                Err(cause) => outcome == Err::<P, FileReadError>(FileReadError::Json(cause)),
            },
    {
        match attempt {
            Ok(layer) => Ok(layer),
            Err(cause) => Err(FileReadError::Json(cause)),
        }
    }
}

/// What a configuration file whose format is yet to be found is called in
/// diagnostics: "Configuration file at `", the path as `{:?}` prints it, "`".
pub fn file_name(path: &std::path::PathBuf) -> (name: String)
    ensures
        exists|shown: Seq<char>| name@ == "Configuration file at `"@ + shown + "`"@,
{
    let shown = path_buf_shown(path);
    let mut name = String::from_str("Configuration file at `");
    name.append(shown.as_str());
    name.append("`");
    name
}

} // verus!
