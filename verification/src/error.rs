//! The failures that the library reports, grouped into a few kinds so that a
//! caller can react to a whole kind at once.

use vstd::prelude::*;

verus! {

/// The broad kind of a failure.
#[derive(Debug, Clone, Copy, PartialEq, Eq, Structural)]
pub enum ErrorKind {
    /// Edited text does not follow the expected layout.
    ParseFailure,
    /// A uniqueness rule of the store would be broken.
    ConstraintViolation,
    /// A request is well formed but not allowed.
    ValidationFailure,
    /// Nothing eligible is selected; routinely ignored.
    EmptySelection,
    /// A row that the request names does not exist.
    NotFound,
    /// An identifier or the clock has run out of values.
    Exhausted,
    /// The text editor could not deliver edited text.
    Collaborator,
}

/// Every failure the library can report.
#[derive(Debug, PartialEq, Eq)]
pub enum Error {
    /// Card text without a title line followed by a rule and a blank line.
    CardTextMalformed,
    /// Board text without a name line followed by a rule and a blank line.
    BoardNameMissing,
    /// Board text with a name but without any `- column` entry.
    BoardColumnsMissing,
    /// Another board already has this name.
    DuplicateBoardName,
    /// The same column name occurs twice within one board.
    DuplicateColumnName,
    /// A board must have at least one column.
    NoColumns,
    /// An edited board must keep every column it already has.
    ColumnsRemoved,
    /// Nothing eligible is selected.
    EmptySelection,
    /// No board has the requested identity.
    BoardNotFound,
    /// The board has no column that could take a card.
    ColumnNotFound,
    /// No card has the requested identity.
    CardNotFound,
    /// No fresh identifier or timestamp is left.
    Exhausted,
    /// Rows offered to the store contradict one another.
    InconsistentRows,
    /// The editor failed; the text says how.
    Editor(String),
}

impl Error {
    /// The kind each failure belongs to.
    pub open spec fn spec_kind(&self) -> ErrorKind {
        match *self {
            Error::CardTextMalformed => ErrorKind::ParseFailure,
            Error::BoardNameMissing => ErrorKind::ParseFailure,
            Error::BoardColumnsMissing => ErrorKind::ParseFailure,
            Error::DuplicateBoardName => ErrorKind::ConstraintViolation,
            Error::DuplicateColumnName => ErrorKind::ConstraintViolation,
            Error::InconsistentRows => ErrorKind::ConstraintViolation,
            Error::NoColumns => ErrorKind::ValidationFailure,
            Error::ColumnsRemoved => ErrorKind::ValidationFailure,
            Error::EmptySelection => ErrorKind::EmptySelection,
            Error::BoardNotFound => ErrorKind::NotFound,
            Error::ColumnNotFound => ErrorKind::NotFound,
            Error::CardNotFound => ErrorKind::NotFound,
            Error::Exhausted => ErrorKind::Exhausted,
            Error::Editor(_) => ErrorKind::Collaborator,
        }
    }

    /// The text shown to the user for each failure.
    pub open spec fn spec_message(&self) -> Seq<char> {
        match *self {
            Error::CardTextMalformed => "could not parse raw card text"@,
            Error::BoardNameMissing => "could not parse raw board text: bad board name"@,
            Error::BoardColumnsMissing => "could not parse raw board text: bad columns"@,
            Error::DuplicateBoardName => "a board with this name already exists"@,
            Error::DuplicateColumnName => "a column name occurs twice in this board"@,
            Error::InconsistentRows => "stored rows contradict one another"@,
            Error::NoColumns => "Board must have at least 1 column"@,
            Error::ColumnsRemoved => "Could not update board: columns do not match"@,
            Error::EmptySelection => "No board selected"@,
            Error::BoardNotFound => "no such board"@,
            Error::ColumnNotFound => "the board has no column"@,
            Error::CardNotFound => "no such card"@,
            Error::Exhausted => "no identifier or timestamp is left"@,
            Error::Editor(text) => text@,
        }
    }

    /// The kind of this failure.
    #[verifier::when_used_as_spec(spec_kind)]
    pub fn kind(&self) -> (k: ErrorKind)
        ensures
            k == self.spec_kind(),
    {
        match self {
            Error::CardTextMalformed => ErrorKind::ParseFailure,
            Error::BoardNameMissing => ErrorKind::ParseFailure,
            Error::BoardColumnsMissing => ErrorKind::ParseFailure,
            Error::DuplicateBoardName => ErrorKind::ConstraintViolation,
            Error::DuplicateColumnName => ErrorKind::ConstraintViolation,
            Error::InconsistentRows => ErrorKind::ConstraintViolation,
            Error::NoColumns => ErrorKind::ValidationFailure,
            Error::ColumnsRemoved => ErrorKind::ValidationFailure,
            Error::EmptySelection => ErrorKind::EmptySelection,
            Error::BoardNotFound => ErrorKind::NotFound,
            Error::ColumnNotFound => ErrorKind::NotFound,
            Error::CardNotFound => ErrorKind::NotFound,
            Error::Exhausted => ErrorKind::Exhausted,
            Error::Editor(_) => ErrorKind::Collaborator,
        }
    }

    /// The text to show for this failure.
    pub fn message(&self) -> (text: String)
        ensures
            text@ == self.spec_message(),
    {
        match self {
            Error::CardTextMalformed => "could not parse raw card text".to_owned(),
            Error::BoardNameMissing => "could not parse raw board text: bad board name".to_owned(),
            Error::BoardColumnsMissing => "could not parse raw board text: bad columns".to_owned(),
            Error::DuplicateBoardName => "a board with this name already exists".to_owned(),
            Error::DuplicateColumnName => "a column name occurs twice in this board".to_owned(),
            Error::InconsistentRows => "stored rows contradict one another".to_owned(),
            Error::NoColumns => "Board must have at least 1 column".to_owned(),
            Error::ColumnsRemoved => "Could not update board: columns do not match".to_owned(),
            Error::EmptySelection => "No board selected".to_owned(),
            Error::BoardNotFound => "no such board".to_owned(),
            Error::ColumnNotFound => "the board has no column".to_owned(),
            Error::CardNotFound => "no such card".to_owned(),
            Error::Exhausted => "no identifier or timestamp is left".to_owned(),
            Error::Editor(text) => text.clone(),
        }
    }
}

} // verus!
