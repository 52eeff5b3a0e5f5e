//! Failures of schema analysis and of tree conversions.

use vstd::prelude::*;

verus! {

/// Why a schema cannot be turned into representations. Each is fatal for the
/// whole generation run.
#[derive(Debug, Clone, Copy, PartialEq, Eq, Structural)]
pub enum SchemaError {
    /// A message-typed field names a message that the schema does not hold.
    DanglingReference,
    /// The designated root message is not in the schema.
    MissingRoot,
    /// The root message has no message-typed field, so the union would be empty.
    NoVariants,
    /// A field of the root message holds no message, so it has no payload
    /// type and can be no arm of the union.
    ScalarVariant,
    /// Two fields of the root message share one payload type.
    DuplicatePayload,
}

/// Failures at run time, on a tree or at the parse/deparse boundary.
#[derive(Debug, Clone, PartialEq, Eq)]
pub enum Error {
    /// An exclusive accessor held the null address.
    InvalidPointer,
    /// The statement cannot be handed to the parser; the text says why.
    Conversion(String),
    /// The parser's output cannot be decoded; the text is the decoder's own.
    Decode(String),
    /// The parser rejected the statement; the text is the parser's own.
    Parse(String),
    /// The renderer rejected the tree; the text is the renderer's own.
    Deparse(String),
}

} // verus!
