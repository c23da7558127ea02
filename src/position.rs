use vstd::prelude::*;

verus! {

/// A point in a source file: the file's name, and a line and a column that
/// both count from 1.
#[derive(Clone, Debug)]
pub struct Position {
    pub file: String,
    pub line: usize,
    pub column: usize,
}

/// How far a consumed character moves a position: to the start of the next
/// line, or one column along the current one.
pub enum Next {
    Line,
    Column,
}

/// Line and column after moving from `(line, column)` over the character `c`.
pub open spec fn step_over(line: nat, column: nat, c: char) -> (nat, nat) {
    if c == '\n' {
        (line + 1, 1)
    } else {
        (line, column + 1)
    }
}

/// Line and column reached from the start of a file after consuming `s`.
pub open spec fn location_after(s: Seq<char>) -> (nat, nat)
    decreases s.len(),
{
    if s.len() == 0 {
        (1, 1)
    } else {
        let (l, c) = location_after(s.drop_last());
        step_over(l, c, s.last())
    }
}

/// Neither counter outgrows the number of characters consumed, plus one.
pub proof fn lemma_location_bounded(s: Seq<char>)
    ensures
        1 <= location_after(s).0 <= s.len() + 1,
        1 <= location_after(s).1 <= s.len() + 1,
    decreases s.len(),
{
    if s.len() > 0 {
        lemma_location_bounded(s.drop_last());
    }
}

impl Position {
    /// The start of `file`: line 1, column 1.
    pub fn new(file: &str) -> (r: Position)
        ensures
            r.file@ == file@,
            r.line == 1,
            r.column == 1,
    {
        Position { file: file.to_owned(), line: 1, column: 1 }
    }

    pub fn file(&self) -> (r: String)
        ensures
            r@ == self.file@,
    {
        self.file.clone()
    }

    pub fn line(&self) -> (r: usize)
        ensures
            r == self.line,
    {
        self.line
    }

    pub fn column(&self) -> (r: usize)
        ensures
            r == self.column,
    {
        self.column
    }

    /// Moves past one character: `Line` for a newline, `Column` for any other.
    pub fn next(&mut self, by: Next)
        requires
            by is Line ==> old(self).line < usize::MAX,
            by is Column ==> old(self).column < usize::MAX,
        ensures
            final(self).file@ == old(self).file@,
            by is Line ==> final(self).line == old(self).line + 1 && final(self).column == 1,
            by is Column ==> final(self).line == old(self).line && final(self).column
                == old(self).column + 1,
    {
        match by {
            Next::Line => {
                self.line = self.line + 1;
                self.column = 1;
            },
            Next::Column => {
                self.column = self.column + 1;
            },
        }
    }
}

} // verus!
