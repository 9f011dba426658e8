//! The formats that a file of a store can be written in.

pub mod hjson;
pub mod hjson_laws;
pub mod hjson_scan;
pub mod json;
pub mod toml_format;
pub mod yaml;

use crate::error::{outcome, Error, ErrorView, Fault};
use crate::files::{Files, FilesView};
pub use crate::source::hjson::Hjson;
use crate::source::hjson::{hjson_parsed, hjson_printed, FromHjsonError, IntoHjsonError};
use crate::source::hjson_scan::refusal;
pub use crate::source::json::Json;
use crate::source::json::{json_parsed, json_printed, IntoJsonError};
pub use crate::source::toml_format::Toml;
use crate::source::toml_format::{toml_parsed, toml_printed, IntoTomlError};
pub use crate::source::yaml::Yaml;
use crate::source::yaml::{yaml_parsed, yaml_printed};
use crate::value::{Value, ValueView};
use vstd::prelude::*;

verus! {

/// A format as it stands between a file's text and the documents that it
/// keeps of its own.
pub trait FileSource {
    /// The documents of the format.
    type Value;

    /// Why a document could not be written.
    type SerError;

    /// Why a text could not be read.
    type DeError;

    /// Whether the format can be asked to write the document.
    spec fn writable(&self, value: &Self::Value) -> bool;

    /// The extension of the format's files.
    fn extension(&self) -> String;

    /// Reads a text of the format.
    fn deserialize(&self, string: &str) -> Result<Self::Value, Self::DeError>;

    /// Writes a document as text of the format.
    fn serialize(&self, value: &Self::Value) -> Result<String, Self::SerError>
        requires
            self.writable(value),
    ;
}

/// A format, by which a file's text is turned into a value and back. The
/// formats are these four and no others.
#[derive(Debug, Clone, Copy, PartialEq, Eq, Structural)]
pub enum Source {
    Hjson,
    Json,
    Toml,
    Yaml,
}

impl Source {
    /// The name of the format, which is also the extension of its files.
    pub open spec fn extension(self) -> Seq<char> {
        match self {
            Source::Hjson => "hjson"@,
            Source::Json => "json"@,
            Source::Toml => "toml"@,
            Source::Yaml => "yaml"@,
        }
    }

    /// The path of the file that holds what is stored at `path`: the path
    /// with a dot and the format's extension behind it.
    pub open spec fn file(self, path: Seq<char>) -> Seq<char> {
        path + seq!['.'] + self.extension()
    }

    /// The name of the format.
    pub fn id(&self) -> (r: String)
        ensures
            r@ == self.extension(),
    {
        match self {
            Source::Hjson => Hjson {}.extension(),
            Source::Json => Json {}.extension(),
            Source::Toml => Toml {}.extension(),
            Source::Yaml => Yaml {}.extension(),
        }
    }

    /// Turns the text of the file at `file` into a value.
    pub fn decode(&self, file: &str, text: &str) -> (r: Result<Value, Error>)
        ensures
            outcome(r) == decoded(*self, file@, text@),
            r matches Ok(value) ==> value@.well_formed(),
            r matches Err(e) ==> e.worded_by_outside(),
    {
        match self {
            Source::Hjson => {
                let format = Hjson {};
                match format.deserialize(text) {
                    Ok(document) => {
                        proof {
                            crate::source::hjson::to_value_well_formed(document@);
                        }
                        Ok(format.to_value(&document))
                    },
                    Err(FromHjsonError::Refused(fault)) => Err(
                        Error::Deserialize { path: file.to_owned(), fault, detail: String::new() },
                    ),
                    Err(FromHjsonError::Syntax(e)) => Err(
                        Error::Deserialize {
                            path: file.to_owned(),
                            fault: Fault::Syntax,
                            detail: e.to_string(),
                        },
                    ),
                }
            },
            Source::Json => {
                let format = Json {};
                match format.deserialize(text) {
                    Ok(document) => {
                        proof {
                            crate::source::json::to_value_well_formed(document@);
                        }
                        Ok(format.to_value(&document))
                    },
                    Err(e) => Err(
                        Error::Deserialize {
                            path: file.to_owned(),
                            fault: Fault::Syntax,
                            detail: e.to_string(),
                        },
                    ),
                }
            },
            Source::Toml => {
                let format = Toml {};
                match format.deserialize(text) {
                    Ok(document) => {
                        proof {
                            crate::source::toml_format::to_value_well_formed(document@);
                        }
                        Ok(format.to_value(&document))
                    },
                    Err(e) => Err(
                        Error::Deserialize {
                            path: file.to_owned(),
                            fault: Fault::Syntax,
                            detail: e.to_string(),
                        },
                    ),
                }
            },
            Source::Yaml => {
                let format = Yaml {};
                match format.deserialize(text) {
                    Ok(document) => match format.to_value(&document) {
                        Ok(value) => {
                            proof {
                                crate::source::yaml::to_value_well_formed(document@);
                            }
                            Ok(value)
                        },
                        Err(_) => Err(
                            Error::Deserialize {
                                path: file.to_owned(),
                                fault: Fault::NonStringKey,
                                detail: String::new(),
                            },
                        ),
                    },
                    Err(e) => Err(
                        Error::Deserialize {
                            path: file.to_owned(),
                            fault: Fault::Syntax,
                            detail: e.to_string(),
                        },
                    ),
                }
            },
        }
    }

    /// Turns a value into the text of the file at `file`.
    pub fn encode(&self, file: &str, value: &Value) -> (r: Result<String, Error>)
        ensures
            outcome(r) == encoded(*self, file@, value@),
            r matches Err(e) ==> e.worded_by_outside(),
    {
        match self {
            Source::Hjson => {
                let format = Hjson {};
                match format.from_value(value) {
                    Ok(document) => match format.serialize(&document) {
                        Ok(text) => Ok(text),
                        Err(e) => Err(
                            Error::Serialize {
                                path: file.to_owned(),
                                fault: Fault::Encoding,
                                detail: e.to_string(),
                            },
                        ),
                    },
                    Err(e) => Err(
                        Error::Serialize {
                            path: file.to_owned(),
                            fault: hjson_fault(e),
                            detail: String::new(),
                        },
                    ),
                }
            },
            Source::Json => {
                let format = Json {};
                match format.from_value(value) {
                    Ok(document) => match format.serialize(&document) {
                        Ok(text) => Ok(text),
                        Err(e) => Err(
                            Error::Serialize {
                                path: file.to_owned(),
                                fault: Fault::Encoding,
                                detail: e.to_string(),
                            },
                        ),
                    },
                    Err(e) => Err(
                        Error::Serialize {
                            path: file.to_owned(),
                            fault: json_fault(e),
                            detail: String::new(),
                        },
                    ),
                }
            },
            Source::Toml => {
                let format = Toml {};
                match format.from_value(value) {
                    Ok(document) => match format.serialize(&document) {
                        Ok(text) => Ok(text),
                        Err(e) => Err(
                            Error::Serialize {
                                path: file.to_owned(),
                                fault: Fault::Encoding,
                                detail: e.to_string(),
                            },
                        ),
                    },
                    Err(e) => Err(
                        Error::Serialize {
                            path: file.to_owned(),
                            fault: toml_fault(e),
                            detail: String::new(),
                        },
                    ),
                }
            },
            Source::Yaml => {
                let format = Yaml {};
                let document = format.from_value(value);
                match format.serialize(&document) {
                    Ok(text) => Ok(text),
                    Err(e) => Err(
                        Error::Serialize {
                            path: file.to_owned(),
                            fault: Fault::Encoding,
                            detail: e.to_string(),
                        },
                    ),
                }
            },
        }
    }

    /// Reads the value stored at `path`: the whole of the file there.
    pub fn read(&self, path: &str, files: &Files) -> (r: Result<Value, Error>)
        ensures
            outcome(r) == read_source(*self, path@, files@),
            r matches Ok(value) ==> value@.well_formed(),
            r matches Err(e) ==> e.worded_by_outside(),
    {
        let file = self.file_path(path);
        match files.read(file.as_str()) {
            Ok(text) => self.decode(file.as_str(), text.as_str()),
            Err(cause) => Err(Error::ReadSource { path: file, cause }),
        }
    }

    /// Writes a value as the whole of the file at `path`. Where the value
    /// cannot be turned into text, no file changes.
    pub fn write(&self, path: &str, value: &Value, files: &mut Files) -> (r: Result<(), Error>)
        ensures
            match r {
                Ok(_) => write_source(*self, path@, value@, old(files)@) == (
                    Ok::<(), ErrorView>(()),
                    final(files)@,
                ),
                Err(e) => write_source(*self, path@, value@, old(files)@) == (
                    Err::<(), ErrorView>(e@),
                    final(files)@,
                ),
            },
            r matches Err(e) ==> e.worded_by_outside(),
    {
        let file = self.file_path(path);
        match self.encode(file.as_str(), value) {
            Ok(text) => {
                files.write(file, text);
                Ok(())
            },
            Err(e) => Err(e),
        }
    }

    /// The path of the file that holds what is stored at `path`.
    pub fn file_path(&self, path: &str) -> (r: String)
        ensures
            r@ == self.file(path@),
    {
        let mut file = path.to_owned();
        proof {
            reveal_strlit(".");
        }
        file.append(".");
        let extension = self.id();
        file.append(extension.as_str());
        file
    }
}

/// How a refusal of the JSON format is reported.
pub open spec fn json_fault_of(e: IntoJsonError) -> Fault {
    match e {
        IntoJsonError::Nan => Fault::Nan,
        IntoJsonError::Infinite => Fault::Infinite,
    }
}

/// How a refusal of the Hjson format is reported.
pub open spec fn hjson_fault_of(e: IntoHjsonError) -> Fault {
    match e {
        IntoHjsonError::Nan => Fault::Nan,
        IntoHjsonError::Infinite => Fault::Infinite,
        IntoHjsonError::NumberTooGreat => Fault::NumberTooGreat,
        IntoHjsonError::CommentNotClosed => Fault::CommentNotClosed,
    }
}

/// How a refusal of the TOML format is reported.
pub open spec fn toml_fault_of(e: IntoTomlError) -> Fault {
    match e {
        IntoTomlError::Null => Fault::Null,
    }
}

/// How a refusal of the JSON format is reported.
fn json_fault(e: IntoJsonError) -> (r: Fault)
    ensures
        r == json_fault_of(e),
{
    match e {
        IntoJsonError::Nan => Fault::Nan,
        IntoJsonError::Infinite => Fault::Infinite,
    }
}

/// How a refusal of the Hjson format is reported.
fn hjson_fault(e: IntoHjsonError) -> (r: Fault)
    ensures
        r == hjson_fault_of(e),
{
    match e {
        IntoHjsonError::Nan => Fault::Nan,
        IntoHjsonError::Infinite => Fault::Infinite,
        IntoHjsonError::NumberTooGreat => Fault::NumberTooGreat,
        IntoHjsonError::CommentNotClosed => Fault::CommentNotClosed,
    }
}

/// How a refusal of the TOML format is reported.
fn toml_fault(e: IntoTomlError) -> (r: Fault)
    ensures
        r == toml_fault_of(e),
{
    match e {
        IntoTomlError::Null => Fault::Null,
    }
}

/// The value of a text of the file at `file`, or the error that says what is
/// wrong with the text. A text of Hjson on which the reader of `serde_hjson`
/// would stop the program is turned down before that crate is asked, with
/// the fault that names the place; every other fault of Hjson is one of
/// syntax, which that crate reports.
pub open spec fn decoded(source: Source, file: Seq<char>, text: Seq<char>) -> Result<
    ValueView,
    ErrorView,
> {
    let syntax = ErrorView::Deserialize { path: file, fault: Fault::Syntax };
    match source {
        Source::Hjson => match refusal(text) {
            Some(fault) => Err(ErrorView::Deserialize { path: file, fault }),
            None => match hjson_parsed(text) {
                Some(document) => Ok(crate::source::hjson::to_value(document)),
                None => Err(syntax),
            },
        },
        Source::Json => match json_parsed(text) {
            Some(document) => Ok(crate::source::json::to_value(document)),
            None => Err(syntax),
        },
        Source::Toml => match toml_parsed(text) {
            Some(document) => Ok(crate::source::toml_format::to_value(document)),
            None => Err(syntax),
        },
        Source::Yaml => match yaml_parsed(text) {
            Some(document) => match crate::source::yaml::to_value(document) {
                Ok(value) => Ok(value),
                Err(_) => Err(ErrorView::Deserialize { path: file, fault: Fault::NonStringKey }),
            },
            None => Err(syntax),
        },
    }
}

/// The text for a value in the file at `file`, or the error that says why
/// there is none. Hjson, JSON and YAML text ends with a line feed of the
/// library's.
pub open spec fn encoded(source: Source, file: Seq<char>, value: ValueView) -> Result<
    Seq<char>,
    ErrorView,
> {
    let encoding = ErrorView::Serialize { path: file, fault: Fault::Encoding };
    match source {
        Source::Hjson => match crate::source::hjson::from_value(value) {
            Ok(document) => match hjson_printed(document) {
                Some(text) => Ok(text.push('\n')),
                None => Err(encoding),
            },
            Err(e) => Err(ErrorView::Serialize { path: file, fault: hjson_fault_of(e) }),
        },
        Source::Json => match crate::source::json::from_value(value) {
            Ok(document) => match json_printed(document) {
                Some(text) => Ok(text.push('\n')),
                None => Err(encoding),
            },
            Err(e) => Err(ErrorView::Serialize { path: file, fault: json_fault_of(e) }),
        },
        Source::Toml => match crate::source::toml_format::from_value(value) {
            Ok(document) => match toml_printed(document) {
                Some(text) => Ok(text),
                None => Err(encoding),
            },
            Err(e) => Err(ErrorView::Serialize { path: file, fault: toml_fault_of(e) }),
        },
        Source::Yaml => match yaml_printed(crate::source::yaml::from_value(value)) {
            Some(text) => Ok(text.push('\n')),
            None => Err(encoding),
        },
    }
}

/// What reading the value stored at `path` gives.
pub open spec fn read_source(source: Source, path: Seq<char>, files: FilesView) -> Result<
    ValueView,
    ErrorView,
> {
    let file = source.file(path);
    match files.read(file) {
        Ok(text) => decoded(source, file, text),
        Err(cause) => Err(ErrorView::ReadSource { path: file, cause }),
    }
}

/// What writing a value as the whole of what is stored at `path` gives, and
/// the files after it.
pub open spec fn write_source(
    source: Source,
    path: Seq<char>,
    value: ValueView,
    files: FilesView,
) -> (Result<(), ErrorView>, FilesView) {
    let file = source.file(path);
    match encoded(source, file, value) {
        Ok(text) => (Ok(()), files.write(file, text)),
        Err(e) => (Err(e), files),
    }
}

/// The formats, in the order in which a name is looked up.
pub open spec fn all_sources() -> Seq<Source> {
    seq![Source::Hjson, Source::Json, Source::Toml, Source::Yaml]
}

/// The format of a name, if it names one.
pub open spec fn source_named(id: Seq<char>) -> Option<Source> {
    if id == Source::Hjson.extension() {
        Some(Source::Hjson)
    } else if id == Source::Json.extension() {
        Some(Source::Json)
    } else if id == Source::Toml.extension() {
        Some(Source::Toml)
    } else if id == Source::Yaml.extension() {
        Some(Source::Yaml)
    } else {
        None
    }
}

/// The formats that the library knows.
pub fn sources() -> (r: Vec<Source>)
    ensures
        r@ == all_sources(),
{
    let mut list: Vec<Source> = Vec::new();
    list.push(Source::Hjson);
    list.push(Source::Json);
    list.push(Source::Toml);
    list.push(Source::Yaml);
    assert(list@ =~= all_sources());
    list
}

/// Looks a format up by its name.
pub fn find_source(id: &str) -> (r: Option<Source>)
    ensures
        r == source_named(id@),
{
    let wanted = id.to_owned();
    let known = sources();
    let mut i: usize = 0;
    while i < known.len()
        invariant
            i <= known.len(),
            known@ == all_sources(),
            wanted@ == id@,
            forall|j: int| 0 <= j < i ==> all_sources()[j].extension() != id@,
        decreases known.len() - i,
    {
        if known[i].id() == wanted {
            return Some(known[i]);
        }
        i += 1;
    }
    None
}

} // verus!
