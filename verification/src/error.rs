//! The errors of a compilation.

use vstd::prelude::*;

verus! {

/// Why a schema could not be compiled.
#[derive(Debug, Clone, Copy, PartialEq, Eq, Structural)]
pub enum SchemaError {
    /// A schema node is not a JSON object, or a keyword holds a value of
    /// the wrong shape.
    InvalidSchema,
    /// A non-empty object holds none of the recognised keywords.
    UnsupportedSchema,
    /// The selected keyword is recognised but has no handler.
    UnsupportedKeyword,
    /// The value of `"type"` is not one of the seven primitive type names.
    UnsupportedType,
    /// The value of `"format"` is not one of the supported formats.
    UnsupportedFormat,
    /// A maximum lies below its minimum.
    InvalidBounds,
    /// An `enum` or `const` literal is an array or an object.
    UnsupportedLiteral,
    /// The input text is not JSON.
    MalformedValue,
}

impl SchemaError {
    /// A one-line description of the error.
    pub fn message(&self) -> (text: &'static str)
        ensures
            text@ == self.spec_message(),
    {
        match self {
            SchemaError::InvalidSchema => "invalid JSON Schema: expected an object or a well-shaped keyword value",
            SchemaError::UnsupportedSchema => "unsupported JSON Schema structure",
            SchemaError::UnsupportedKeyword => "unsupported JSON Schema keyword",
            SchemaError::UnsupportedType => "unsupported type",
            SchemaError::UnsupportedFormat => "unsupported string format",
            SchemaError::InvalidBounds => "max bound must be greater than or equal to min bound",
            SchemaError::UnsupportedLiteral => "unsupported data type in enum or const",
            SchemaError::MalformedValue => "malformed JSON text",
        }
    }

    pub open spec fn spec_message(&self) -> Seq<char> {
        match self {
            SchemaError::InvalidSchema => "invalid JSON Schema: expected an object or a well-shaped keyword value"@,
            SchemaError::UnsupportedSchema => "unsupported JSON Schema structure"@,
            SchemaError::UnsupportedKeyword => "unsupported JSON Schema keyword"@,
            SchemaError::UnsupportedType => "unsupported type"@,
            SchemaError::UnsupportedFormat => "unsupported string format"@,
            SchemaError::InvalidBounds => "max bound must be greater than or equal to min bound"@,
            SchemaError::UnsupportedLiteral => "unsupported data type in enum or const"@,
            SchemaError::MalformedValue => "malformed JSON text"@,
        }
    }
}

} // verus!
