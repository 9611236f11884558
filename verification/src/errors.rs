//! What a failed parse reports.

use vstd::prelude::*;

verus! {

/// What the parser was looking for when the text did not fit.
#[derive(Debug, Clone, Copy, PartialEq, Eq, Structural)]
pub enum Context {
    /// One tab or four spaces.
    Indent,
    /// Spaces or tabs between two tokens.
    Space,
    /// The end of a line.
    LineEnding,
    /// A quoted, bare or backtick-quoted text.
    Text,
    /// The quote that closes a quoted text.
    ClosingQuote,
    /// A quoted text or the rest of the line.
    ResourcePath,
    /// Digits that fit the field.
    Integer,
    /// A decimal number.
    Number,
    /// The digits of a decimal number's exponent.
    Exponent,
    /// A comment line.
    Comment,
    /// The keyword of a field or of a nested record.
    Keyword,
    /// The keyword `start`.
    StartTag,
    /// The keyword `planet`.
    PlanetTag,
    /// The keyword `galaxy`.
    GalaxyTag,
    /// The keyword `system`.
    SystemTag,
    /// The keyword `ship`.
    ShipTag,
}

impl Context {
    /// A short description for messages.
    pub fn label(&self) -> (label: &'static str)
        ensures
            label@ == self.spec_label()@,
    {
        match self {
            Context::Indent => "indent",
            Context::Space => "space",
            Context::LineEnding => "line ending",
            Context::Text => "string",
            Context::ClosingQuote => "closing quote",
            Context::ResourcePath => "resource path",
            Context::Integer => "integer",
            Context::Number => "number",
            Context::Exponent => "exponent",
            Context::Comment => "comment",
            Context::Keyword => "keyword",
            Context::StartTag => "start tag",
            Context::PlanetTag => "planet tag",
            Context::GalaxyTag => "galaxy tag",
            Context::SystemTag => "system tag",
            Context::ShipTag => "ship tag",
        }
    }

    /// The description that [`Context::label`] returns.
    pub open spec fn spec_label(&self) -> &'static str {
        match self {
            Context::Indent => "indent",
            Context::Space => "space",
            Context::LineEnding => "line ending",
            Context::Text => "string",
            Context::ClosingQuote => "closing quote",
            Context::ResourcePath => "resource path",
            Context::Integer => "integer",
            Context::Number => "number",
            Context::Exponent => "exponent",
            Context::Comment => "comment",
            Context::Keyword => "keyword",
            Context::StartTag => "start tag",
            Context::PlanetTag => "planet tag",
            Context::GalaxyTag => "galaxy tag",
            Context::SystemTag => "system tag",
            Context::ShipTag => "ship tag",
        }
    }
}

/// An expected token that was not found.
#[derive(Debug, Clone, Copy, PartialEq, Eq, Structural)]
pub struct Mismatch {
    /// How many bytes of the text were still unread where the token was
    /// expected. The offset of that place is the text's length less this.
    pub remaining: usize,
    /// What was expected there.
    pub context: Context,
}

/// Why a text could not be parsed.
#[derive(Debug, Clone, PartialEq, Eq)]
pub enum DataError {
    /// An expected token was not found.
    Mismatch(Mismatch),
    /// A record was read to its end and lacks a required field.
    Validation {
        /// How many bytes of the text were still unread behind the record.
        remaining: usize,
        /// The kind of record.
        data_type: &'static str,
        /// The first required field, in declaration order, that is missing.
        field: &'static str,
    },
    /// Several alternatives were tried at one place and none fitted.
    Aggregate(Vec<Mismatch>),
}

/// [`DataError`] in contracts.
pub enum ErrorModel {
    Mismatch(Mismatch),
    Validation { remaining: usize, data_type: Seq<char>, field: Seq<char> },
    Aggregate(Seq<Mismatch>),
}

impl View for DataError {
    type V = ErrorModel;

    open spec fn view(&self) -> ErrorModel {
        match self {
            DataError::Mismatch(m) => ErrorModel::Mismatch(*m),
            DataError::Validation { remaining, data_type, field } => ErrorModel::Validation {
                remaining: *remaining,
                data_type: data_type@,
                field: field@,
            },
            DataError::Aggregate(list) => ErrorModel::Aggregate(list@),
        }
    }
}

impl DataError {
    /// The error for a token of kind `context` that was expected where
    /// `remaining` bytes were left.
    pub fn from_error_kind(remaining: usize, context: Context) -> (error: DataError)
        ensures
            error@ == ErrorModel::Mismatch(Mismatch { remaining, context }),
    {
        DataError::Mismatch(Mismatch { remaining, context })
    }

    /// Adds the mismatch of one more alternative to `other`, the error of the
    /// alternatives tried before it. A validation error stays as it is: it
    /// says more than any mismatch.
    pub fn append(remaining: usize, context: Context, other: DataError) -> (error: DataError)
        ensures
            error@ == spec_append(remaining, context, other@),
    {
        let last = Mismatch { remaining, context };
        match other {
            DataError::Aggregate(mut errors) => {
                errors.push(last);
                DataError::Aggregate(errors)
            },
            DataError::Mismatch(first) => {
                let mut errors: Vec<Mismatch> = Vec::new();
                errors.push(first);
                errors.push(last);
                assert(errors@ =~= seq![first, last]);
                DataError::Aggregate(errors)
            },
            DataError::Validation { remaining, data_type, field } => DataError::Validation {
                remaining,
                data_type,
                field,
            },
        }
    }
}

/// What [`DataError::append`] returns.
pub open spec fn spec_append(remaining: usize, context: Context, other: ErrorModel) -> ErrorModel {
    let last = Mismatch { remaining, context };
    match other {
        ErrorModel::Aggregate(errors) => ErrorModel::Aggregate(errors.push(last)),
        ErrorModel::Mismatch(first) => ErrorModel::Aggregate(seq![first, last]),
        ErrorModel::Validation { .. } => other,
    }
}

/// A failed parse. A soft failure says that the text is not what this parser
/// reads, and lets the caller try another parser at the same place. A hard
/// failure says that the text began as what this parser reads and then went
/// wrong: no other parser is tried.
#[derive(Debug, Clone, PartialEq, Eq)]
pub enum Failure {
    Soft(DataError),
    Hard(DataError),
}

/// [`Failure`] in contracts.
pub enum FailureModel {
    Soft(ErrorModel),
    Hard(ErrorModel),
}

impl View for Failure {
    type V = FailureModel;

    open spec fn view(&self) -> FailureModel {
        match self {
            Failure::Soft(e) => FailureModel::Soft(e@),
            Failure::Hard(e) => FailureModel::Hard(e@),
        }
    }
}

impl FailureModel {
    /// The error inside.
    pub open spec fn error(self) -> ErrorModel {
        match self {
            FailureModel::Soft(e) => e,
            FailureModel::Hard(e) => e,
        }
    }

    /// The same error as a hard failure.
    pub open spec fn harden(self) -> FailureModel {
        FailureModel::Hard(self.error())
    }
}

impl Failure {
    /// The error inside.
    pub fn into_error(self) -> (error: DataError)
        ensures
            error@ == self@.error(),
    {
        match self {
            Failure::Soft(e) => e,
            Failure::Hard(e) => e,
        }
    }

    /// The same error as a hard failure.
    pub fn harden(self) -> (hard: Failure)
        ensures
            hard@ == self@.harden(),
    {
        Failure::Hard(self.into_error())
    }

    /// True for a hard failure.
    pub fn is_hard(&self) -> (hard: bool)
        ensures
            hard == (self@ is Hard),
    {
        match self {
            Failure::Soft(_) => false,
            Failure::Hard(_) => true,
        }
    }
}

} // verus!
