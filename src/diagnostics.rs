//! Source positions and how they advance as characters are consumed.
use vstd::prelude::*;

verus! {

/// A 1-based row/column location in the source text.
#[derive(Clone, Copy, Debug, PartialEq, Eq, Structural)]
pub struct Position {
    pub row: usize,
    pub column: usize,
}

impl View for Position {
    type V = (int, int);

    open spec fn view(&self) -> (int, int) {
        (self.row as int, self.column as int)
    }
}

/// The position reached from `p` by consuming the character `c`.
pub open spec fn advanced(p: (int, int), c: char) -> (int, int) {
    if c == '\n' {
        (p.0 + 1, 1)
    } else {
        (p.0, p.1 + 1)
    }
}

/// The position after the first `n` characters of `s` have been consumed,
/// starting from row 1, column 1.
pub open spec fn position_at(s: Seq<char>, n: int) -> (int, int)
    decreases n,
{
    if n <= 0 {
        (1, 1)
    } else {
        advanced(position_at(s, n - 1), s[n - 1])
    }
}

impl Position {
    /// The position of a fresh lexer: row 1, column 1.
    pub fn start() -> (r: Position)
        ensures
            r@ == (1int, 1int),
    {
        Position { row: 1, column: 1 }
    }

    /// Moves past one consumed character: a newline starts the next row at
    /// column 1, any other character moves one column right.
    pub fn advance(&mut self, c: char)
        requires
            old(self).row < usize::MAX,
            old(self).column < usize::MAX,
        ensures
            final(self)@ == advanced(old(self)@, c),
    {
        if c == '\n' {
            self.row = self.row + 1;
            self.column = 0;
        }
        self.column = self.column + 1;
    }
}

/// Rows and columns stay at least 1, and together grow by at most one per
/// consumed character.
pub proof fn lemma_position_bounds(s: Seq<char>, n: int)
    requires
        0 <= n,
    ensures
        position_at(s, n).0 >= 1,
        position_at(s, n).1 >= 1,
        position_at(s, n).0 + position_at(s, n).1 <= n + 2,
    decreases n,
{
    if n > 0 {
        lemma_position_bounds(s, n - 1);
    }
}

/// Consuming one character never moves back a row, and the column is 1
/// exactly when the consumed character was a newline.
pub proof fn lemma_position_step(s: Seq<char>, n: int)
    requires
        0 <= n < s.len(),
    ensures
        position_at(s, n + 1).0 >= position_at(s, n).0,
        position_at(s, n + 1).1 == 1 <==> s[n] == '\n',
        s[n] == '\n' ==> position_at(s, n + 1).0 == position_at(s, n).0 + 1,
        s[n] != '\n' ==> position_at(s, n + 1) == (position_at(s, n).0, position_at(s, n).1 + 1),
{
    lemma_position_bounds(s, n);
}

/// Over any stretch of input the row never decreases.
pub proof fn lemma_rows_monotone(s: Seq<char>, m: int, n: int)
    requires
        0 <= m <= n <= s.len(),
    ensures
        position_at(s, m).0 <= position_at(s, n).0,
    decreases n - m,
{
    if m < n {
        lemma_position_step(s, n - 1);
        lemma_rows_monotone(s, m, n - 1);
    }
}

} // verus!
