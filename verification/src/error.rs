//! What can go wrong while a grid is read.
use vstd::prelude::*;

verus! {

/// The operating system's account of a failed read or seek.
#[verifier::external_type_specification]
#[verifier::external_body]
pub struct ExIoError(std::io::Error);

/// A failure to read a grid.
#[derive(Debug)]
pub enum Error {
    /// The byte source failed.
    Io(std::io::Error),
    /// A header line is missing. Holds the name of the field.
    MissingField(String),
    /// A header line names another field. Holds the expected name and the one found.
    MismatchedField(String, String),
    /// A header line holds a name and no value. Holds the name of the field.
    MissingValue(String),
    /// The header contradicts itself or describes no grid. Holds the reason.
    BrokenInvariant(String),
    /// A word is no variant of an enumeration. Holds the word and the enumeration's name.
    ParseEnum(String, &'static str),
    /// The data ends early. Holds the row that was asked for and the number of rows found.
    MismatchedRowCount(usize, usize),
    /// A row is too short or too long. Holds the number of columns expected and found.
    MismatchColumnCount(usize, usize),
    /// A cell lies outside the grid. Holds its row and column.
    OutOfBounds(usize, usize),
    /// A word is no number of the wanted type. Holds the word, what it was
    /// read for, and the name of the type.
    TypeCast(String, String, &'static str),
}

/// An [`Error`] with its texts as sequences of characters.
pub enum Failure {
    Io(std::io::Error),
    MissingField(Seq<char>),
    MismatchedField(Seq<char>, Seq<char>),
    MissingValue(Seq<char>),
    BrokenInvariant(Seq<char>),
    ParseEnum(Seq<char>, Seq<char>),
    MismatchedRowCount(usize, usize),
    MismatchColumnCount(usize, usize),
    OutOfBounds(usize, usize),
    TypeCast(Seq<char>, Seq<char>, Seq<char>),
}

impl View for Error {
    type V = Failure;

    open spec fn view(&self) -> Failure {
        match *self {
            Error::Io(e) => Failure::Io(e),
            Error::MissingField(name) => Failure::MissingField(name@),
            Error::MismatchedField(expected, found) => Failure::MismatchedField(expected@, found@),
            Error::MissingValue(name) => Failure::MissingValue(name@),
            Error::BrokenInvariant(reason) => Failure::BrokenInvariant(reason@),
            Error::ParseEnum(word, of) => Failure::ParseEnum(word@, of@),
            Error::MismatchedRowCount(row, found) => Failure::MismatchedRowCount(row, found),
            Error::MismatchColumnCount(expected, found) => Failure::MismatchColumnCount(
                expected,
                found,
            ),
            Error::OutOfBounds(row, col) => Failure::OutOfBounds(row, col),
            Error::TypeCast(word, field, of) => Failure::TypeCast(word@, field@, of@),
        }
    }
}

} // verus!
