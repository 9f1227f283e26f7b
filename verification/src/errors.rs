//! Error taxonomy for configuration loading and home-directory resolution.
//!
//! Reading and parsing failures abort a run before any operation; they are
//! kept apart so a caller can tell a missing file from malformed text.

use vstd::prelude::*;
use vstd::string::StringExecFns;

verus! {

/// The two required fields of a tool entry.
#[derive(Clone, Copy, Debug, PartialEq, Eq, Structural)]
pub enum FieldName {
    Source,
    Target,
}

/// Mathematical form of a parse failure.
pub ghost enum ParseErrorV {
    /// A line that is neither blank, a comment, a table header,
    /// nor `key = "value"`.
    BadLine { text: Seq<char> },
    /// A key set directly under `[tool]`, where a table is expected.
    NotATable { name: Seq<char> },
    /// A table defined more than once.
    DuplicateTable { name: Seq<char> },
    /// A tool entry setting `source` or `target` twice.
    DuplicateField { tool: Seq<char>, field: FieldName },
    /// A tool entry missing `source` or `target`.
    MissingField { tool: Seq<char>, field: FieldName },
    /// The configuration never mentions the `tool` table.
    MissingToolTable,
}

/// Mathematical form of a configuration error.
pub ghost enum ConfigErrorV {
    /// The configuration file could not be read; holds the attempted path.
    Read { path: Seq<char> },
    /// The configuration text could not be parsed.
    Parse { kind: ParseErrorV },
    /// The home directory could not be determined while a path needed it.
    HomeResolution,
}

/// A failure to make sense of configuration text.
#[derive(Debug)]
pub enum ParseError {
    BadLine { text: String },
    NotATable { name: String },
    DuplicateTable { name: String },
    DuplicateField { tool: String, field: FieldName },
    MissingField { tool: String, field: FieldName },
    MissingToolTable,
}

impl View for ParseError {
    type V = ParseErrorV;

    open spec fn view(&self) -> ParseErrorV {
        match self {
            ParseError::BadLine { text } => ParseErrorV::BadLine { text: text@ },
            ParseError::NotATable { name } => ParseErrorV::NotATable { name: name@ },
            ParseError::DuplicateTable { name } => ParseErrorV::DuplicateTable { name: name@ },
            ParseError::DuplicateField { tool, field } => ParseErrorV::DuplicateField {
                tool: tool@,
                field: *field,
            },
            ParseError::MissingField { tool, field } => ParseErrorV::MissingField {
                tool: tool@,
                field: *field,
            },
            ParseError::MissingToolTable => ParseErrorV::MissingToolTable,
        }
    }
}

/// A failure to load the configuration or to resolve the home directory.
#[derive(Debug)]
pub enum ConfigError {
    Read { path: String },
    Parse { kind: ParseError },
    HomeResolution,
}

impl View for ConfigError {
    type V = ConfigErrorV;

    open spec fn view(&self) -> ConfigErrorV {
        match self {
            ConfigError::Read { path } => ConfigErrorV::Read { path: path@ },
            ConfigError::Parse { kind } => ConfigErrorV::Parse { kind: kind@ },
            ConfigError::HomeResolution => ConfigErrorV::HomeResolution,
        }
    }
}

/// The rendered name of a required field.
pub open spec fn field_name_seq(f: FieldName) -> Seq<char> {
    match f {
        FieldName::Source => "source"@,
        FieldName::Target => "target"@,
    }
}

/// The human-readable message of a parse failure.
pub open spec fn parse_message(e: ParseErrorV) -> Seq<char> {
    match e {
        ParseErrorV::BadLine { text } => "malformed configuration line: "@ + text,
        ParseErrorV::NotATable { name } => "entry `"@ + name + "` is not a table"@,
        ParseErrorV::DuplicateTable { name } => "table `"@ + name
            + "` is defined more than once"@,
        ParseErrorV::DuplicateField { tool, field } => "tool `"@ + tool + "` sets `"@
            + field_name_seq(field) + "` more than once"@,
        ParseErrorV::MissingField { tool, field } => "tool `"@ + tool
            + "` is missing the required field `"@ + field_name_seq(field) + "`"@,
        ParseErrorV::MissingToolTable => "the configuration has no [tool] table"@,
    }
}

/// The human-readable message of a configuration error.
pub open spec fn config_message(e: ConfigErrorV) -> Seq<char> {
    match e {
        ConfigErrorV::Read { path } => "could not read file `"@ + path + "`"@,
        ConfigErrorV::Parse { kind } => parse_message(kind),
        ConfigErrorV::HomeResolution => "could not determine the home directory"@,
    }
}

/// The message of a read failure always carries the attempted path.
pub proof fn lemma_read_message_contains_path(path: Seq<char>)
    ensures
        exists|i: int|
            0 <= i && i + path.len() <= config_message(ConfigErrorV::Read { path }).len()
                && #[trigger] config_message(ConfigErrorV::Read { path }).subrange(
                i,
                i + path.len(),
            ) == path,
{
    let prefix = "could not read file `"@;
    let m = config_message(ConfigErrorV::Read { path });
    let i = prefix.len() as int;
    assert(m.subrange(i, i + path.len()) =~= path);
    assert(0 <= i && i + path.len() <= m.len() && m.subrange(i, i + path.len()) == path);
}

impl FieldName {
    /// The rendered name of the field.
    pub fn as_str(&self) -> (r: &'static str)
        ensures
            r@ == field_name_seq(*self),
    {
        match self {
            FieldName::Source => "source",
            FieldName::Target => "target",
        }
    }
}

impl ParseError {
    /// The human-readable message of this parse failure.
    pub fn message(&self) -> (r: String)
        ensures
            r@ == parse_message(self@),
    {
        match self {
            ParseError::BadLine { text } => String::from_str("malformed configuration line: ")
                .concat(text.as_str()),
            ParseError::NotATable { name } => String::from_str("entry `").concat(name.as_str())
                .concat("` is not a table"),
            ParseError::DuplicateTable { name } => String::from_str("table `").concat(
                name.as_str(),
            ).concat("` is defined more than once"),
            ParseError::DuplicateField { tool, field } => String::from_str("tool `").concat(
                tool.as_str(),
            ).concat("` sets `").concat(field.as_str()).concat("` more than once"),
            ParseError::MissingField { tool, field } => String::from_str("tool `").concat(
                tool.as_str(),
            ).concat("` is missing the required field `").concat(field.as_str()).concat("`"),
            ParseError::MissingToolTable => String::from_str(
                "the configuration has no [tool] table",
            ),
        }
    }
}

impl ConfigError {
    /// The human-readable message of this error.
    pub fn message(&self) -> (r: String)
        ensures
            r@ == config_message(self@),
    {
        match self {
            ConfigError::Read { path } => String::from_str("could not read file `").concat(
                path.as_str(),
            ).concat("`"),
            ConfigError::Parse { kind } => kind.message(),
            ConfigError::HomeResolution => String::from_str(
                "could not determine the home directory",
            ),
        }
    }
}

} // verus!
