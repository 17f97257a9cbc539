//! A 1-indexed (line, column) location in source text.

use vstd::prelude::*;

use super::text::{decimal, push_char, push_decimal};

verus! {

/// Line and column after reading one character from (line, column).
pub open spec fn step_line_col(p: (int, int), c: char) -> (int, int) {
    if c == '\n' {
        (p.0 + 1, 1)
    } else {
        (p.0, p.1 + 1)
    }
}

/// Line and column of the character at index `i` (or of the end, when `i == s.len()`).
pub open spec fn line_col(s: Seq<char>, i: int) -> (int, int)
    decreases i,
{
    if i <= 0 {
        (1, 1)
    } else {
        step_line_col(line_col(s, i - 1), s[i - 1])
    }
}

/// The position of index `i` of `s`, counting from line 1, column 1.
pub open spec fn position_at(s: Seq<char>, i: int) -> Position {
    Position { line: line_col(s, i).0 as usize, column: line_col(s, i).1 as usize }
}

pub proof fn lemma_line_col_bounds(s: Seq<char>, i: int)
    requires
        0 <= i,
    ensures
        1 <= line_col(s, i).0 <= i + 1,
        1 <= line_col(s, i).1 <= i + 1,
    decreases i,
{
    if i > 0 {
        lemma_line_col_bounds(s, i - 1);
    }
}


/// A location in source text; both fields are at least 1 in a valid position.
#[derive(Debug, Clone, Copy, PartialEq, Eq, Hash, Structural)]
pub struct Position {
    pub line: usize,
    pub column: usize,
}

impl Position {
    pub open spec fn valid(&self) -> bool {
        self.line >= 1 && self.column >= 1
    }

    /// `line:column`, the way positions are printed in messages.
    pub open spec fn text(&self) -> Seq<char> {
        decimal(self.line as nat) + seq![':'] + decimal(self.column as nat)
    }

    pub fn new(line: usize, column: usize) -> (r: Self)
        requires
            line >= 1,
            column >= 1,
        ensures
            r.line == line,
            r.column == column,
    {
        Position { line, column }
    }

    pub fn start() -> (r: Self)
        ensures
            r.line == 1,
            r.column == 1,
    {
        Self::new(1, 1)
    }

    pub fn advance_column(&mut self, by: usize)
        requires
            old(self).column + by <= usize::MAX,
        ensures
            final(self).line == old(self).line,
            final(self).column == old(self).column + by,
    {
        self.column = self.column + by;
    }

    pub fn new_line(&mut self)
        requires
            old(self).line < usize::MAX,
        ensures
            final(self).line == old(self).line + 1,
            final(self).column == 1,
    {
        self.line = self.line + 1;
        self.column = 1;
    }

    pub fn with_column_offset(&self, offset: usize) -> (r: Self)
        requires
            self.column + offset <= usize::MAX,
        ensures
            r.line == self.line,
            r.column == self.column + offset,
    {
        Position { line: self.line, column: self.column + offset }
    }

    pub fn is_valid(&self) -> (r: bool)
        ensures
            r == self.valid(),
    {
        self.line >= 1 && self.column >= 1
    }

    /// `(line:column)`.
    pub fn debug(&self) -> (r: String)
        ensures
            r@ == seq!['('] + self.text() + seq![')'],
    {
        let mut r = String::new();
        push_char(&mut r, '(');
        push_decimal(&mut r, self.line);
        push_char(&mut r, ':');
        push_decimal(&mut r, self.column);
        push_char(&mut r, ')');
        assert(r@ =~= seq!['('] + self.text() + seq![')']);
        r
    }

    /// `line:column`.
    pub fn to_string(&self) -> (r: String)
        ensures
            r@ == self.text(),
    {
        let mut r = String::new();
        self.write_to(&mut r);
        r
    }

    /// Appends `line:column` to `out`.
    pub fn write_to(&self, out: &mut String)
        ensures
            final(out)@ == old(out)@ + self.text(),
    {
        let ghost o = out@;
        push_decimal(out, self.line);
        push_char(out, ':');
        push_decimal(out, self.column);
        assert(out@ =~= o + self.text());
    }
}

impl Default for Position {
    fn default() -> (r: Self)
        ensures
            r.line == 1 && r.column == 1,
    {
        Self::start()
    }
}

impl std::ops::Add<usize> for Position {
    type Output = Position;

    /// Moves the column right by `rhs`.
    fn add(self, rhs: usize) -> Position {
        Position { line: self.line, column: self.column + rhs }
    }
}

impl vstd::std_specs::ops::AddSpecImpl<usize> for Position {
    open spec fn obeys_add_spec() -> bool {
        true
    }

    open spec fn add_req(self, rhs: usize) -> bool {
        self.column + rhs <= usize::MAX
    }

    open spec fn add_spec(self, rhs: usize) -> Position {
        Position { line: self.line, column: (self.column + rhs) as usize }
    }
}

impl std::ops::Sub<usize> for Position {
    type Output = Position;

    /// Moves the column left by `rhs`, never below column 1.
    fn sub(self, rhs: usize) -> Position {
        let column = if self.column > rhs {
            self.column - rhs
        } else {
            1
        };
        Position { line: self.line, column }
    }
}

impl vstd::std_specs::ops::SubSpecImpl<usize> for Position {
    open spec fn obeys_sub_spec() -> bool {
        true
    }

    open spec fn sub_req(self, rhs: usize) -> bool {
        true
    }

    open spec fn sub_spec(self, rhs: usize) -> Position {
        Position {
            line: self.line,
            column: if self.column > rhs { (self.column - rhs) as usize } else { 1 },
        }
    }
}

/// The position of index `i` of `v`.
pub fn locate(v: &Vec<char>, i: usize) -> (r: Position)
    requires
        i <= v.len(),
        i < usize::MAX,
    ensures
        r == position_at(v@, i as int),
{
    let mut p = Position::start();
    let mut k: usize = 0;
    while k < i
        invariant
            k <= i <= v.len(),
            i < usize::MAX,
            p == position_at(v@, k as int),
        decreases i - k,
    {
        proof {
            lemma_line_col_bounds(v@, k as int);
            lemma_line_col_bounds(v@, k + 1);
        }
        if v[k] == '\n' {
            p.new_line();
        } else {
            p.advance_column(1);
        }
        k = k + 1;
    }
    p
}

} // verus!
