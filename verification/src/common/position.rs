use vstd::prelude::*;

use crate::common::string::{decimal, decimal_text};

verus! {

/// A position in the source text: a line and a column, both counted from 1.
/// The position of the end of input is line 0, column 0.
#[derive(Clone, Copy, Debug, PartialEq, Eq, Structural, Hash)]
pub struct Position {
    pub line: usize,
    pub column: usize,
}

impl Position {
    /// The position given to the end-of-input token.
    pub fn eof() -> (r: Position)
        ensures
            r == Position::eof_spec(),
    {
        Position { line: 0, column: 0 }
    }

    pub open spec fn eof_spec() -> Position {
        Position { line: 0, column: 0 }
    }

    /// The position as error texts show it: the line, a colon, the column.
    pub open spec fn display_spec(self) -> Seq<char> {
        decimal(self.line as nat) + ":"@ + decimal(self.column as nat)
    }

    /// The position as error texts show it: the line, a colon, the column.
    pub fn display_text(&self) -> (r: String)
        ensures
            r@ == self.display_spec(),
    {
        let mut r = decimal_text(self.line);
        r.append(":");
        r.append(decimal_text(self.column).as_str());
        r
    }

    /// The text `{:?}` writes for a position.
    pub open spec fn debug_spec(self) -> Seq<char> {
        "Position { line: "@ + decimal(self.line as nat) + ", column: "@ + decimal(
            self.column as nat,
        ) + " }"@
    }

    /// The text `{:?}` writes for the position.
    pub fn debug_text(&self) -> (r: String)
        ensures
            r@ == self.debug_spec(),
    {
        let mut r = "Position { line: ".to_owned();
        r.append(decimal_text(self.line).as_str());
        r.append(", column: ");
        r.append(decimal_text(self.column).as_str());
        r.append(" }");
        r
    }
}

} // verus!
