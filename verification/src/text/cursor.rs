use vstd::prelude::*;

verus! {

/// A position within a multi-line text layout: a line index and a column
/// (character offset) within that line.
#[derive(Debug, Clone, Copy, PartialEq, Eq, Structural)]
pub struct TextCursor {
    pub line: usize,
    pub col: usize,
}

/// The length of line `i`, or 0 when there is no such line.
pub open spec fn line_len(ls: Seq<usize>, i: int) -> usize {
    if 0 <= i < ls.len() { ls[i] } else { 0 }
}

/// A cursor that points into the text: an existing line, and a column no
/// further right than that line's end.
pub open spec fn valid_cursor(c: TextCursor, ls: Seq<usize>) -> bool {
    c.line < ls.len() && c.col <= ls[c.line as int]
}

/// One character right, wrapping to the start of the next line at a line's
/// end; unchanged at the end of the last line or past the last line.
pub open spec fn advanced(c: TextCursor, ls: Seq<usize>) -> TextCursor {
    if c.line >= ls.len() {
        c
    } else if c.col < ls[c.line as int] {
        TextCursor { col: (c.col + 1) as usize, ..c }
    } else if c.line + 1 < ls.len() {
        TextCursor { line: (c.line + 1) as usize, col: 0 }
    } else {
        c
    }
}

/// One character left, wrapping to the end of the previous line at a line's
/// start; unchanged at the start of the first line.
pub open spec fn backspaced(c: TextCursor, ls: Seq<usize>) -> TextCursor {
    if c.col > 0 {
        TextCursor { col: (c.col - 1) as usize, ..c }
    } else if c.line > 0 {
        TextCursor { line: (c.line - 1) as usize, col: line_len(ls, c.line - 1) }
    } else {
        c
    }
}

/// The smaller of two columns.
pub open spec fn min_col(a: usize, b: usize) -> usize {
    if a <= b { a } else { b }
}

/// One line up, the column clamped to that line's length; unchanged on the
/// first line.
pub open spec fn moved_up(c: TextCursor, ls: Seq<usize>) -> TextCursor {
    if c.line > 0 {
        TextCursor { line: (c.line - 1) as usize, col: min_col(c.col, line_len(ls, c.line - 1)) }
    } else {
        c
    }
}

/// One line down, the column clamped to that line's length; unchanged on the
/// last line.
pub open spec fn moved_down(c: TextCursor, ls: Seq<usize>) -> TextCursor {
    if c.line + 1 < ls.len() {
        TextCursor { line: (c.line + 1) as usize, col: min_col(c.col, line_len(ls, c.line + 1)) }
    } else {
        c
    }
}

fn len_at(ls: &[usize], i: usize) -> (r: usize)
    ensures
        r == line_len(ls@, i as int),
{
    if i < ls.len() { ls[i] } else { 0 }
}

impl TextCursor {
    /// A cursor at the given line and column.
    pub fn new(line: usize, col: usize) -> (c: TextCursor)
        ensures
            c == (TextCursor { line, col }),
    {
        TextCursor { line, col }
    }

    /// Moves right by one character, wrapping to the next line.
    pub fn advance(&mut self, line_lengths: &[usize])
        ensures
            *final(self) == advanced(*old(self), line_lengths@),
    {
        if self.line >= line_lengths.len() {
            return;
        }
        if self.col < line_lengths[self.line] {
            self.col = self.col + 1;
        } else if self.line + 1 < line_lengths.len() {
            self.line = self.line + 1;
            self.col = 0;
        }
    }

    /// Moves left by one character, wrapping to the previous line.
    pub fn backspace(&mut self, line_lengths: &[usize])
        ensures
            *final(self) == backspaced(*old(self), line_lengths@),
    {
        if self.col > 0 {
            self.col = self.col - 1;
        } else if self.line > 0 {
            self.line = self.line - 1;
            self.col = len_at(line_lengths, self.line);
        }
    }

    /// Moves to the start of the line.
    pub fn home(&mut self)
        ensures
            *final(self) == (TextCursor { col: 0, ..*old(self) }),
    {
        self.col = 0;
    }

    /// Moves to the end of the current line (column 0 past the last line).
    pub fn end(&mut self, line_lengths: &[usize])
        ensures
            *final(self) == (TextCursor { col: line_len(line_lengths@, old(self).line as int), ..*old(self) }),
    {
        self.col = len_at(line_lengths, self.line);
    }

    /// Moves up one line, keeping the column where the line is long enough.
    pub fn up(&mut self, line_lengths: &[usize])
        ensures
            *final(self) == moved_up(*old(self), line_lengths@),
    {
        if self.line > 0 {
            self.line = self.line - 1;
            let l = len_at(line_lengths, self.line);
            self.col = if self.col <= l { self.col } else { l };
        }
    }

    /// Moves down one line, keeping the column where the line is long enough.
    pub fn down(&mut self, line_lengths: &[usize])
        requires
            old(self).line < usize::MAX,
        ensures
            *final(self) == moved_down(*old(self), line_lengths@),
    {
        if self.line + 1 < line_lengths.len() {
            self.line = self.line + 1;
            let l = len_at(line_lengths, self.line);
            self.col = if self.col <= l { self.col } else { l };
        }
    }
}

/// Every movement keeps a cursor that points into the text pointing into it.
pub proof fn law_moves_keep_cursor_valid(c: TextCursor, ls: Seq<usize>)
    requires
        valid_cursor(c, ls),
        ls.len() <= usize::MAX,
    ensures
        valid_cursor(advanced(c, ls), ls),
        valid_cursor(backspaced(c, ls), ls),
        valid_cursor(moved_up(c, ls), ls),
        valid_cursor(moved_down(c, ls), ls),
        valid_cursor(TextCursor { col: 0, ..c }, ls),
        valid_cursor(TextCursor { col: line_len(ls, c.line as int), ..c }, ls),
{
}

/// Backspace undoes a step right, and a step right undoes a backspace,
/// whenever the first step moved the cursor.
pub proof fn law_advance_backspace_inverse(c: TextCursor, ls: Seq<usize>)
    requires
        valid_cursor(c, ls),
        ls.len() <= usize::MAX,
    ensures
        advanced(c, ls) != c ==> backspaced(advanced(c, ls), ls) == c,
        backspaced(c, ls) != c ==> advanced(backspaced(c, ls), ls) == c,
{
}

/// Moving down and then up returns to the same position when the column
/// fits on the line below; moving up and then down likewise when it fits on
/// the line above.
pub proof fn law_down_up_inverse(c: TextCursor, ls: Seq<usize>)
    requires
        valid_cursor(c, ls),
        ls.len() <= usize::MAX,
    ensures
        moved_down(c, ls) != c && c.col <= line_len(ls, c.line + 1) ==> moved_up(moved_down(c, ls), ls) == c,
        moved_up(c, ls) != c && c.col <= line_len(ls, c.line - 1) ==> moved_down(moved_up(c, ls), ls) == c,
{
}

impl Default for TextCursor {
    fn default() -> (c: TextCursor)
        ensures
            c == (TextCursor { line: 0, col: 0 }),
    {
        TextCursor { line: 0, col: 0 }
    }
}

} // verus!
