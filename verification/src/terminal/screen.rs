//! The terminal's grid with its history, as plain values.
use vstd::prelude::*;
use crate::security::MAX_ZERO_WIDTH_PER_CELL;
use crate::terminal::search::SearchAnchor;
use crate::terminal::snapshot::{GridSize, SnapshotHyperlink, TerminalColor};

verus! {

/// The attributes of a cell in the grid.
#[derive(Clone, Copy, Debug, PartialEq, Eq, Structural)]
pub struct ScreenFlags {
    pub bold: bool,
    pub dim: bool,
    pub italic: bool,
    pub inverse: bool,
    pub hidden: bool,
    pub strikeout: bool,
    pub underline: bool,
    pub double_underline: bool,
    pub undercurl: bool,
    pub dotted_underline: bool,
    pub dashed_underline: bool,
    pub wide_char: bool,
    pub wide_char_spacer: bool,
    pub leading_wide_char_spacer: bool,
    pub wrapline: bool,
}

/// One cell of the grid.
#[derive(Clone, Debug)]
pub struct ScreenCell {
    pub ch: char,
    pub zerowidth: Vec<char>,
    pub foreground: TerminalColor,
    pub background: TerminalColor,
    pub underline_color: Option<TerminalColor>,
    pub flags: ScreenFlags,
    pub hyperlink: Option<SnapshotHyperlink>,
}

/// The grid with the lines that have scrolled off its top.
#[derive(Clone, Debug)]
pub struct TerminalScreen {
    pub size: GridSize,
    /// The rows, oldest first: those of the history, then those of the grid.
    pub rows: Vec<Vec<ScreenCell>>,
    pub history_size: usize,
    pub display_offset: usize,
    pub alternate: bool,
}

/// The most lines of history that a terminal keeps.
pub const MAX_HISTORY_LINES: usize = 100_000;

impl TerminalScreen {
    /// Every row has all of its columns, and the display shows rows that are there.
    pub open spec fn wf(&self) -> bool {
        &&& self.size.wf()
        &&& self.history_size <= MAX_HISTORY_LINES
        &&& self.display_offset <= self.history_size
        &&& self.rows@.len() == self.history_size + self.size.lines
        &&& forall|r: int|
            0 <= r < self.rows@.len() ==> (#[trigger] self.rows@[r])@.len() == self.size.columns
    }

    /// The cell of a row, counted from the oldest, and a column.
    pub open spec fn cell(&self, r: int, c: int) -> ScreenCell {
        self.rows@[r]@[c]
    }
}

impl ScreenCell {
    pub open spec fn is_spacer(&self) -> bool {
        self.flags.wide_char_spacer || self.flags.leading_wide_char_spacer
    }

    /// The combining characters that count: none where there are too many.
    pub open spec fn combining(&self) -> Seq<char> {
        if self.zerowidth@.len() <= MAX_ZERO_WIDTH_PER_CELL {
            self.zerowidth@
        } else {
            Seq::empty()
        }
    }

    /// The character shown; a tab is a blank.
    pub open spec fn shown(&self) -> char {
        if self.ch == '\t' {
            ' '
        } else {
            self.ch
        }
    }

    /// The characters that a search reads in this cell.
    pub open spec fn scalars(&self) -> Seq<char> {
        if self.is_spacer() {
            Seq::empty()
        } else {
            seq![self.shown()] + self.combining()
        }
    }

    /// How many characters a search reads in this cell.
    pub fn scalar_count(&self) -> (result: usize)
        ensures
            result == self.scalars().len(),
            result <= MAX_ZERO_WIDTH_PER_CELL + 1,
    {
        if self.flags.wide_char_spacer || self.flags.leading_wide_char_spacer {
            0
        } else if self.zerowidth.len() <= MAX_ZERO_WIDTH_PER_CELL {
            1 + self.zerowidth.len()
        } else {
            1
        }
    }

    /// One of the characters that a search reads in this cell.
    pub fn scalar(&self, offset: usize) -> (result: char)
        requires
            offset < self.scalars().len(),
        ensures
            result == self.scalars()[offset as int],
    {
        if offset == 0 {
            if self.ch == '\t' {
                ' '
            } else {
                self.ch
            }
        } else {
            self.zerowidth[offset - 1]
        }
    }
}

/// What a search reads: a character and where it stands, or the end of a line.
pub enum Token {
    Scalar(SearchAnchor, char),
    Break,
}

impl TerminalScreen {
    /// Where a character of a cell stands. Line zero is the first line of the grid.
    pub open spec fn anchor(&self, r: int, c: int, offset: int) -> SearchAnchor {
        SearchAnchor {
            history_line: (r - self.history_size) as i32,
            column: c as u16,
            scalar_offset: offset as u8,
        }
    }

    /// Whether a line ends with the given cell: the row does, and was not wrapped.
    pub open spec fn ends_line(&self, r: int, c: int) -> bool {
        c + 1 == self.size.columns && !self.cell(r, c).flags.wrapline
    }

    /// A character of a cell, with where it stands.
    pub open spec fn token(&self, r: int, c: int, offset: int) -> Token {
        Token::Scalar(self.anchor(r, c, offset), self.cell(r, c).scalars()[offset])
    }

    /// What a search reads in one cell.
    pub open spec fn cell_tokens(&self, r: int, c: int) -> Seq<Token> {
        let scalars = Seq::new(
            self.cell(r, c).scalars().len(),
            |k: int| self.token(r, c, k),
        );
        if self.ends_line(r, c) {
            scalars.push(Token::Break)
        } else {
            scalars
        }
    }

    /// What a search reads in the first `c` cells of a row.
    pub open spec fn row_to(&self, r: int, c: int) -> Seq<Token>
        decreases c,
    {
        if c <= 0 {
            Seq::empty()
        } else {
            self.row_to(r, c - 1) + self.cell_tokens(r, c - 1)
        }
    }

    /// What a search reads in the first `r` rows.
    pub open spec fn rows_to(&self, r: int) -> Seq<Token>
        decreases r,
    {
        if r <= 0 {
            Seq::empty()
        } else {
            self.rows_to(r - 1) + self.row_to(r - 1, self.size.columns as int)
        }
    }

    /// What a search has read when it stands at a character of a cell.
    pub open spec fn before(&self, r: int, c: int, offset: int) -> Seq<Token> {
        self.rows_to(r) + self.row_to(r, c) + self.cell_tokens(r, c).take(offset)
    }

    /// Everything that a search reads.
    pub open spec fn all_tokens(&self) -> Seq<Token> {
        self.rows_to(self.rows@.len() as int)
    }

    /// Reading one more character of a cell.
    pub(crate) proof fn before_next(&self, r: int, c: int, offset: int)
        requires
            0 <= offset < self.cell(r, c).scalars().len(),
        ensures
            self.before(r, c, offset + 1) == self.before(r, c, offset).push(
                Token::Scalar(self.anchor(r, c, offset), self.cell(r, c).scalars()[offset]),
            ),
    {
        let token = Token::Scalar(self.anchor(r, c, offset), self.cell(r, c).scalars()[offset]);
        let tokens = self.cell_tokens(r, c);
        let earlier = self.rows_to(r) + self.row_to(r, c);
        assert(tokens.len() >= self.cell(r, c).scalars().len());
        assert(tokens[offset] == token);
        assert(tokens.take(offset + 1) =~= tokens.take(offset).push(token));
        assert(earlier + tokens.take(offset).push(token) =~= (earlier + tokens.take(offset)).push(
            token,
        ));
    }

    /// Leaving a cell that has been read.
    pub(crate) proof fn before_leave(&self, r: int, c: int)
        requires
            0 <= r,
            0 <= c < self.size.columns,
        ensures
            ({
                let here = self.before(r, c, self.cell(r, c).scalars().len() as int);
                let next = if self.ends_line(r, c) {
                    here.push(Token::Break)
                } else {
                    here
                };
                if c + 1 == self.size.columns {
                    self.before(r + 1, 0, 0) == next
                } else {
                    self.before(r, c + 1, 0) == next
                }
            }),
    {
        let here = self.before(r, c, self.cell(r, c).scalars().len() as int);
        let next = if self.ends_line(r, c) {
            here.push(Token::Break)
        } else {
            here
        };
        let tokens = self.cell_tokens(r, c);
        let n = self.cell(r, c).scalars().len() as int;
        let rows = self.rows_to(r);
        let row = self.row_to(r, c);
        if self.ends_line(r, c) {
            assert(tokens.len() == n + 1);
            assert(tokens =~= tokens.take(n).push(Token::Break));
            assert(rows + row + tokens.take(n).push(Token::Break) =~= (rows + row + tokens.take(
                n,
            )).push(Token::Break));
        } else {
            assert(tokens.len() == n);
            assert(tokens =~= tokens.take(n));
        }
        assert(next == rows + row + tokens);
        assert(self.row_to(r, c + 1) == row + tokens);
        assert(rows + row + tokens =~= rows + (row + tokens));
        if c + 1 == self.size.columns {
            assert(self.rows_to(r + 1) == rows + self.row_to(r, c + 1));
            assert(self.row_to(r + 1, 0).len() == 0);
            assert(self.before(r + 1, 0, 0) =~= self.rows_to(r + 1));
        } else {
            assert(self.before(r, c + 1, 0) =~= rows + self.row_to(r, c + 1));
        }
    }
}

/// A line of the screen is read from left to right, a character for each cell, with its line
/// counted from the first line of the grid and its column counted from zero; a tab is read as a
/// blank. The line ends with the row, unless the row was wrapped.
pub proof fn a_row_is_read_from_left_to_right(screen: &TerminalScreen, r: int, c: int)
    requires
        screen.wf(),
        0 <= r < screen.rows@.len(),
        forall|k: int|
            0 <= k < screen.size.columns ==> {
                let cell = #[trigger] screen.rows@[r]@[k];
                &&& !cell.flags.wide_char_spacer
                &&& !cell.flags.leading_wide_char_spacer
                &&& cell.zerowidth@.len() == 0
            },
        0 <= c < screen.size.columns,
    ensures
        ({
            let tokens = screen.row_to(r, screen.size.columns as int);
            let cell = screen.rows@[r]@[c];
            let last = screen.rows@[r]@[screen.size.columns - 1];
            &&& tokens[c] matches Token::Scalar(place, read) && {
                &&& place.history_line == r - screen.history_size
                &&& place.column == c
                &&& place.scalar_offset == 0
                &&& read == if cell.ch as u32 == 9 {
                    ' '
                } else {
                    cell.ch
                }
            }
            &&& last.flags.wrapline ==> tokens.len() == screen.size.columns
            &&& !last.flags.wrapline ==> tokens.len() == screen.size.columns + 1 && tokens.last()
                is Break
        }),
{
    plain_cells(screen, r, screen.size.columns as int);
    plain_cells(screen, r, screen.size.columns - 1);
    let before = screen.row_to(r, screen.size.columns - 1);
    let last = screen.cell_tokens(r, screen.size.columns - 1);
    assert(screen.row_to(r, screen.size.columns as int) == before + last);
}

proof fn plain_cells(screen: &TerminalScreen, r: int, n: int)
    requires
        screen.wf(),
        0 <= r < screen.rows@.len(),
        0 <= n <= screen.size.columns,
        forall|k: int|
            0 <= k < screen.size.columns ==> {
                let cell = #[trigger] screen.rows@[r]@[k];
                &&& !cell.flags.wide_char_spacer
                &&& !cell.flags.leading_wide_char_spacer
                &&& cell.zerowidth@.len() == 0
            },
    ensures
        n < screen.size.columns ==> screen.row_to(r, n).len() == n,
        n == screen.size.columns ==> screen.row_to(r, n).len() >= n,
        forall|k: int| 0 <= k < n ==> #[trigger] screen.row_to(r, n)[k] == screen.token(r, k, 0),
    decreases n,
{
    if n > 0 {
        plain_cells(screen, r, n - 1);
        let cell = screen.rows@[r]@[n - 1];
        assert(cell.scalars() =~= seq![cell.shown()]);
        let tokens = screen.cell_tokens(r, n - 1);
        assert(tokens[0] == screen.token(r, n - 1, 0));
        assert(screen.row_to(r, n) == screen.row_to(r, n - 1) + tokens);
        assert forall|k: int| 0 <= k < n implies #[trigger] screen.row_to(r, n)[k]
            == screen.token(r, k, 0) by {
            if k < n - 1 {
                assert(screen.row_to(r, n)[k] == screen.row_to(r, n - 1)[k]);
            }
        }
    }
}

/// The rows are read from the oldest to the newest, all of each before any of the next.
pub proof fn rows_are_read_from_the_oldest_on(screen: &TerminalScreen, r: int)
    requires
        screen.wf(),
        0 <= r < screen.rows@.len(),
    ensures
        ({
            let row = screen.row_to(r, screen.size.columns as int);
            let start = screen.rows_to(r).len() as int;
            &&& screen.rows_to(0).len() == 0
            &&& screen.rows_to(r + 1).len() == start + row.len()
            &&& start + row.len() <= screen.all_tokens().len()
            &&& screen.all_tokens().subrange(start, start + row.len()) == row
        }),
{
    let row = screen.row_to(r, screen.size.columns as int);
    let start = screen.rows_to(r).len() as int;
    let end = screen.rows@.len() as int;
    rows_extend(screen, r + 1, end);
    assert(screen.rows_to(r + 1) == screen.rows_to(r) + row);
    assert(screen.all_tokens().subrange(start, start + row.len()) =~= screen.rows_to(
        r + 1,
    ).subrange(start, start + row.len()));
    assert(screen.rows_to(r + 1).subrange(start, start + row.len()) =~= row);
}

proof fn rows_extend(screen: &TerminalScreen, a: int, b: int)
    requires
        0 <= a <= b,
    ensures
        screen.rows_to(a).len() <= screen.rows_to(b).len(),
        forall|i: int|
            0 <= i < screen.rows_to(a).len() ==> #[trigger] screen.rows_to(b)[i]
                == screen.rows_to(a)[i],
    decreases b,
{
    if a < b {
        rows_extend(screen, a, b - 1);
        assert(screen.rows_to(b) == screen.rows_to(b - 1) + screen.row_to(
            b - 1,
            screen.size.columns as int,
        ));
    }
}

/// A cell that is only there for the other half of a wide character is not read. Of any other,
/// its character is read first and up to sixty-four combining ones after it, in order.
pub proof fn a_cell_is_read_with_its_combining_characters(cell: &ScreenCell, k: int)
    ensures
        cell.flags.wide_char_spacer || cell.flags.leading_wide_char_spacer
            ==> cell.scalars().len() == 0,
        !cell.flags.wide_char_spacer && !cell.flags.leading_wide_char_spacer ==> {
            let read = cell.scalars();
            &&& read[0] == if cell.ch as u32 == 9 {
                ' '
            } else {
                cell.ch
            }
            &&& cell.zerowidth@.len() <= 64 ==> read.len() == cell.zerowidth@.len() + 1 && (0 <= k
                < cell.zerowidth@.len() ==> read[k + 1] == cell.zerowidth@[k])
            &&& cell.zerowidth@.len() > 64 ==> read.len() == 1
        },
{
}

} // verus!
