//! The position of a lexeme in the source text.

use vstd::prelude::*;
verus! {

/// A 1-based line and column. Both saturate at the machine limit.
#[derive(Debug, Clone, Copy, PartialEq, Eq, Structural)]
pub struct Location {
    /// The line number.
    pub line: usize,
    /// The column number.
    pub column: usize,
}

/// `value + amount`, held at `usize::MAX`.
pub open spec fn saturating(value: usize, amount: nat) -> usize {
    if value + amount <= usize::MAX {
        (value + amount) as usize
    } else {
        usize::MAX
    }
}

impl Location {
    /// The location of the first character of a text.
    pub open spec fn start() -> Location {
        Location { line: 1, column: 1 }
    }

    /// The location `columns` characters further on the same line.
    pub open spec fn right(self, columns: nat) -> Location {
        Location { line: self.line, column: saturating(self.column, columns) }
    }

    /// The location at the start of the line `lines` below.
    pub open spec fn down(self, lines: nat) -> Location {
        Location { line: saturating(self.line, lines), column: 1 }
    }

    /// The location after the character `c` has been read at `self`: a line
    /// feed starts the next line, a carriage return takes no room, any other
    /// character takes one column.
    pub open spec fn after(self, c: char) -> Location {
        if c == '\n' {
            self.down(1)
        } else if c == '\r' {
            self
        } else {
            self.right(1)
        }
    }

    /// The location after the characters of `text` from `from` up to `to`
    /// have been read in turn.
    pub open spec fn along(self, text: Seq<char>, from: int, to: int) -> Location
        decreases to - from,
    {
        if 0 <= from < to && from < text.len() {
            self.after(text[from]).along(text, from + 1, to)
        } else {
            self
        }
    }

    /// Creates the location of the first character of a text.
    pub fn new() -> (location: Location)
        ensures
            location == Location::start(),
    {
        Location { line: 1, column: 1 }
    }

    /// Moves `columns` characters to the right.
    pub fn shift_right(&mut self, columns: usize)
        ensures
            *final(self) == old(self).right(columns as nat),
    {
        self.column = self.column.saturating_add(columns);
    }

    /// Moves `lines` down, to the column after the first `columns`, when
    /// `lines` is positive; else `columns` to the right.
    pub fn shift_down(&mut self, lines: usize, columns: usize)
        ensures
            *final(self) == if lines == 0 {
                old(self).right(columns as nat)
            } else {
                old(self).down(lines as nat).right(columns as nat)
            },
    {
        if lines == 0 {
            self.shift_right(columns);
        } else {
            self.line = self.line.saturating_add(lines);
            self.column = 1usize.saturating_add(columns);
        }
    }

    /// Moves over one character.
    pub fn step(&mut self, c: char)
        ensures
            *final(self) == old(self).after(c),
    {
        if c == '\n' {
            self.shift_down(1, 0);
        } else if c != '\r' {
            self.shift_right(1);
        }
    }

    /// Moves over the characters of `text` from `from` up to `to`.
    pub fn advance(&mut self, text: &Vec<char>, from: usize, to: usize)
        requires
            from <= to <= text.len(),
        ensures
            *final(self) == old(self).along(text@, from as int, to as int),
    {
        let mut at: usize = from;
        while at < to
            invariant
                from <= at <= to <= text.len(),
                self.along(text@, at as int, to as int) == old(self).along(
                    text@,
                    from as int,
                    to as int,
                ),
            decreases to - at,
        {
            self.step(text[at]);
            at = at + 1;
        }
    }
}

} // verus!
