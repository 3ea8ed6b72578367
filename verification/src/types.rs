//! The fixed patterns: the scalar JSON types and the string formats.

use vstd::prelude::*;
use crate::text::str_eq;

verus! {

/// One character of a JSON string: any character but `"`, `\` and the
/// control characters, or an escaped `"` or `\`.
pub const STRING_INNER: &'static str = r#"([^"\\\x00-\x1F\x7F-\x9F]|\\["\\])"#;

/// A JSON string of any length.
pub const STRING: &'static str = r#""([^"\\\x00-\x1F\x7F-\x9F]|\\["\\])*""#;

/// A JSON integer without leading zeros.
pub const INTEGER: &'static str = r#"(-)?(0|[1-9][0-9]*)"#;

/// A JSON number with optional fraction and exponent.
pub const NUMBER: &'static str = r#"((-)?(0|[1-9][0-9]*))(\.[0-9]+)?([eE][+-][0-9]+)?"#;

/// `true` or `false`.
pub const BOOLEAN: &'static str = r#"(true|false)"#;

/// `null`.
pub const NULL: &'static str = r#"null"#;

/// The default whitespace pattern: at most one space.
pub const WHITESPACE: &'static str = r#"[ ]?"#;

/// How deep open arrays and objects nest where a schema does not say.
pub const DEFAULT_DEPTH: u64 = 2;

/// An RFC 3339 date and time, between double quotes.
pub const DATE_TIME: &'static str = r#""(-?(?:[1-9][0-9]*)?[0-9]{4})-(1[0-2]|0[1-9])-(3[01]|0[1-9]|[12][0-9])T(2[0-3]|[01][0-9]):([0-5][0-9]):([0-5][0-9])(\.[0-9]{3})?(Z)?""#;

/// A calendar date, between double quotes.
pub const DATE: &'static str = r#""(?:\d{4})-(?:0[1-9]|1[0-2])-(?:0[1-9]|[1-2][0-9]|3[0-1])""#;

/// A time of day, between double quotes.
pub const TIME: &'static str = r#""(2[0-3]|[01][0-9]):([0-5][0-9]):([0-5][0-9])(\\.[0-9]+)?(Z)?""#;

/// A UUID in lower-case hexadecimal, between double quotes.
pub const UUID: &'static str = r#""[0-9a-f]{8}-[0-9a-f]{4}-[0-9a-f]{4}-[0-9a-f]{4}-[0-9a-f]{12}""#;

/// The scalar JSON types that have a fixed pattern.
#[derive(Debug, Clone, Copy, PartialEq, Eq, Structural)]
pub enum JsonType {
    String,
    Integer,
    Number,
    Boolean,
    Null,
}

impl JsonType {
    /// The pattern of the type, as a sequence of characters.
    pub open spec fn pattern(&self) -> Seq<char> {
        match self {
            JsonType::String => STRING@,
            JsonType::Integer => INTEGER@,
            JsonType::Number => NUMBER@,
            JsonType::Boolean => BOOLEAN@,
            JsonType::Null => NULL@,
        }
    }

    /// The pattern that accepts every value of the type.
    pub fn to_regex(&self) -> (regex: &'static str)
        ensures
            regex@ == self.pattern(),
    {
        match self {
            JsonType::String => STRING,
            JsonType::Integer => INTEGER,
            JsonType::Number => NUMBER,
            JsonType::Boolean => BOOLEAN,
            JsonType::Null => NULL,
        }
    }
}

/// The string formats that have a pattern.
#[derive(Debug, Clone, Copy, PartialEq, Eq, Structural)]
pub enum FormatType {
    DateTime,
    Date,
    Time,
    Uuid,
}

impl FormatType {
    /// The pattern of the format, quotes included.
    pub open spec fn pattern(&self) -> Seq<char> {
        match self {
            FormatType::DateTime => DATE_TIME@,
            FormatType::Date => DATE@,
            FormatType::Time => TIME@,
            FormatType::Uuid => UUID@,
        }
    }

    /// The format that a name stands for, if any.
    pub open spec fn parse(name: Seq<char>) -> Option<FormatType> {
        if name == "date-time"@ {
            Some(FormatType::DateTime)
        } else if name == "date"@ {
            Some(FormatType::Date)
        } else if name == "time"@ {
            Some(FormatType::Time)
        } else if name == "uuid"@ {
            Some(FormatType::Uuid)
        } else {
            None
        }
    }

    /// The pattern that accepts every string of the format.
    pub fn to_regex(&self) -> (regex: &'static str)
        ensures
            regex@ == self.pattern(),
    {
        match self {
            FormatType::DateTime => DATE_TIME,
            FormatType::Date => DATE,
            FormatType::Time => TIME,
            FormatType::Uuid => UUID,
        }
    }

    /// Reads a format name: `date-time`, `date`, `time` or `uuid`.
    pub fn from_str(s: &str) -> (format: Option<FormatType>)
        ensures
            format == Self::parse(s@),
    {
        if str_eq(s, "date-time") {
            Some(FormatType::DateTime)
        } else if str_eq(s, "date") {
            Some(FormatType::Date)
        } else if str_eq(s, "time") {
            Some(FormatType::Time)
        } else if str_eq(s, "uuid") {
            Some(FormatType::Uuid)
        } else {
            None
        }
    }
}

} // verus!
