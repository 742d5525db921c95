//! The table in which cats are shown on a terminal.

use crate::text::{chars_of, joined, views};
use prettytable::Table;
use unicode_width::{UnicodeWidthChar, UnicodeWidthStr};
use vstd::prelude::*;

verus! {

/// `prettytable::Table`, of which nothing is known here but what the
/// functions below say.
#[verifier::external_type_specification]
#[verifier::external_body]
pub struct ExTable(Table);

/// The number of columns that a text takes on a terminal: what
/// `UnicodeWidthStr::width` gives for it.
pub uninterp spec fn str_width(text: Seq<char>) -> usize;

/// The number of columns that a character takes on a terminal, `None` for a
/// control character: what `UnicodeWidthChar::width` gives for it.
pub uninterp spec fn char_width(c: char) -> Option<usize>;

/// The rows of a table, first to last: of each row what `Cell::get_content`
/// gives for its cells, left to right.
pub uninterp spec fn table_rows(table: Table) -> Seq<Seq<Seq<char>>>;

/// What `Cell::get_content` gives for the cells of a table's title row, left
/// to right; `None` where the table has no title row.
pub uninterp spec fn table_titles(table: Table) -> Option<Seq<Seq<char>>>;

/// The place of the first line feed in a text; the length of the text where
/// it has none.
pub open spec fn line_end(text: Seq<char>) -> nat
    decreases text.len(),
{
    if text.len() == 0 || text[0] == '\n' {
        0
    } else {
        1 + line_end(text.skip(1))
    }
}

/// The lines of a text. A line ends at a line feed, or at a carriage return
/// that a line feed follows, and holds neither; what stands behind the last
/// line feed is a line unless it is empty.
pub open spec fn text_lines(text: Seq<char>) -> Seq<Seq<char>>
    decreases text.len(),
{
    let end = line_end(text);
    if text.len() == 0 {
        Seq::empty()
    } else if end >= text.len() {
        seq![text]
    } else {
        let line = text.take(end as int);
        let line = if line.len() > 0 && line.last() == '\r' {
            line.drop_last()
        } else {
            line
        };
        seq![line] + text_lines(text.skip(end as int + 1))
    }
}

/// The text that a cell holds when it is made from `text`: the lines of the
/// text with a line feed between each two.
pub open spec fn cell_text(text: Seq<char>) -> Seq<char> {
    joined(text_lines(text), "\n"@)
}

/// The texts that the cells of a row hold when they are made from the given
/// texts, one cell from each.
pub open spec fn row_texts(cells: Seq<Seq<char>>) -> Seq<Seq<char>> {
    Seq::new(cells.len(), |i: int| cell_text(cells[i]))
}

/// Where the reading of a line stands with regard to the control sequences
/// of a terminal.
#[derive(Debug, Clone, Copy, PartialEq, Eq, Structural)]
pub enum Escape {
    /// Outside any sequence.
    Normal,
    /// Behind an escape character.
    EscapeChar,
    /// Behind an escape character and `[`: inside a sequence, which ends
    /// with `m`.
    OpenBracket,
}

/// Where the reading stands behind one more character.
pub open spec fn escape_after(state: Escape, c: char) -> Escape {
    match state {
        Escape::Normal => if c == '\u{1b}' {
            Escape::EscapeChar
        } else {
            Escape::Normal
        },
        Escape::EscapeChar => if c == '[' {
            Escape::OpenBracket
        } else {
            Escape::Normal
        },
        Escape::OpenBracket => if c == 'm' {
            Escape::Normal
        } else {
            Escape::OpenBracket
        },
    }
}

/// Whether a character belongs to a control sequence: the `[` that opens
/// one, and all that follows up to the `m` that ends it, that `m` included.
pub open spec fn in_sequence(state: Escape, c: char) -> bool {
    match state {
        Escape::Normal => false,
        Escape::EscapeChar => c == '[',
        Escape::OpenBracket => true,
    }
}

/// Whether a character takes room on a terminal.
pub open spec fn takes_room(c: char) -> bool {
    char_width(c) matches Some(width) && width > 0
}

/// How many characters of a line belong to a control sequence and would take
/// room outside one, when the reading starts in the given state.
pub open spec fn hidden(line: Seq<char>, state: Escape) -> nat
    decreases line.len(),
{
    if line.len() == 0 {
        0
    } else {
        let here: nat = if in_sequence(state, line[0]) && takes_room(line[0]) {
            1
        } else {
            0
        };
        here + hidden(line.skip(1), escape_after(state, line[0]))
    }
}

/// Whether a line can stand in a cell: it is at least as wide as the number
/// of its hidden characters.
pub open spec fn line_fits(line: Seq<char>) -> bool {
    hidden(line, Escape::Normal) <= str_width(line)
}

/// Whether a text can stand in a cell: each of its lines can.
pub open spec fn cell_fits(text: Seq<char>) -> bool {
    forall|i: int| 0 <= i < text_lines(text).len() ==> line_fits(#[trigger] text_lines(text)[i])
}

/// Whether a text is free of the escape character U+001B, with which the
/// control sequences of a terminal begin.
pub open spec fn escape_free(text: Seq<char>) -> bool {
    forall|i: int| 0 <= i < text.len() ==> text[i] != '\u{1b}'
}

/// `str::lines`, collected: the lines of the text as [`text_lines`] states
/// them.
#[verifier::external_body]
pub(crate) fn lines_of(text: &str) -> (lines: Vec<&str>)
    ensures
        views(lines@) == text_lines(text@),
{
    text.lines().collect()
}

/// `UnicodeWidthStr::width` of the text.
#[verifier::external_body]
pub(crate) fn width_of(text: &str) -> (width: usize)
    ensures
        width == str_width(text@),
{
    UnicodeWidthStr::width(text)
}

/// `UnicodeWidthChar::width` of the character.
#[verifier::external_body]
pub(crate) fn width_of_char(c: char) -> (width: Option<usize>)
    ensures
        width == char_width(c),
{
    UnicodeWidthChar::width(c)
}

/// `Table::new`: a table without rows and without a title row.
#[verifier::external_body]
pub(crate) fn new_table() -> (table: Table)
    ensures
        table_rows(table) == Seq::<Seq<Seq<char>>>::empty(),
        table_titles(table) is None,
{
    Table::new()
}

/// `Table::set_titles` with a row that has one cell for each of the texts,
/// made by `Cell::new`: that row becomes the title row, and the other rows
/// stay as they are.
///
/// Each text has to fit a cell. `Cell::new` measures every line of its text
/// with `display_width`, which fails where the line is less wide than the
/// number of its hidden characters.
#[verifier::external_body]
pub(crate) fn set_titles(table: &mut Table, cells: &Vec<String>)
    requires
        forall|i: int| 0 <= i < cells@.len() ==> cell_fits(cells@[i]@),
    ensures
        table_titles(*final(table)) == Some(
            Seq::new(cells@.len(), |i: int| cell_text(cells@[i]@)),
        ),
        table_rows(*final(table)) == table_rows(*old(table)),
{
    table.set_titles(cells.iter().collect());
}

/// `Table::add_row` with a row that has one cell for each of the texts, made
/// by `Cell::new`: that row is put behind the rows that the table has, and
/// the title row stays as it is.
///
/// Each text has to fit a cell, for the reason given at [`set_titles`].
#[verifier::external_body]
pub(crate) fn add_row(table: &mut Table, cells: &Vec<String>)
    requires
        forall|i: int| 0 <= i < cells@.len() ==> cell_fits(cells@[i]@),
    ensures
        table_rows(*final(table)) == table_rows(*old(table)).push(
            Seq::new(cells@.len(), |i: int| cell_text(cells@[i]@)),
        ),
        table_titles(*final(table)) == table_titles(*old(table)),
{
    table.add_row(cells.iter().collect());
}

impl Escape {
    /// Where the reading stands behind one more character, and whether that
    /// character belongs to a control sequence.
    pub fn step(self, c: char) -> (r: (Escape, bool))
        ensures
            r.0 == escape_after(self, c),
            r.1 == in_sequence(self, c),
    {
        match self {
            Escape::Normal => (
                if c == '\u{1b}' {
                    Escape::EscapeChar
                } else {
                    Escape::Normal
                },
                false,
            ),
            Escape::EscapeChar => (
                if c == '[' {
                    Escape::OpenBracket
                } else {
                    Escape::Normal
                },
                c == '[',
            ),
            Escape::OpenBracket => (
                if c == 'm' {
                    Escape::Normal
                } else {
                    Escape::OpenBracket
                },
                true,
            ),
        }
    }
}

/// Whether a character takes room on a terminal.
fn has_room(c: char) -> (b: bool)
    ensures
        b == takes_room(c),
{
    match width_of_char(c) {
        Some(width) => width > 0,
        None => false,
    }
}

/// Whether a line can stand in a cell.
fn fits_line(line: &str) -> (b: bool)
    ensures
        b == line_fits(line@),
{
    let chars = chars_of(line);
    let n = chars.len();
    let mut state = Escape::Normal;
    let mut count: usize = 0;
    let mut i: usize = 0;
    assert(chars@.skip(0) =~= chars@);
    while i < n
        invariant
            i <= n,
            n == chars@.len(),
            count <= i,
            count + hidden(chars@.skip(i as int), state) == hidden(chars@, Escape::Normal),
        decreases n - i,
    {
        let (next, inside) = state.step(chars[i]);
        assert(chars@.skip(i as int).skip(1) =~= chars@.skip(i + 1));
        if inside && has_room(chars[i]) {
            count += 1;
        }
        state = next;
        i += 1;
    }
    count <= width_of(line)
}

/// Whether a text can stand in a cell: [`cell_fits`].
pub fn fits_cell(text: &str) -> (b: bool)
    ensures
        b == cell_fits(text@),
{
    let lines = lines_of(text);
    let n = lines.len();
    let mut i: usize = 0;
    while i < n
        invariant
            i <= n,
            n == lines@.len(),
            views(lines@) == text_lines(text@),
            forall|k: int| 0 <= k < i ==> line_fits(#[trigger] text_lines(text@)[k]),
        decreases n - i,
    {
        assert(views(lines@)[i as int] == lines@[i as int]@);
        if !fits_line(lines[i]) {
            return false;
        }
        i += 1;
    }
    true
}

/// Where no line feed stands before place `n`, and one at it or nothing, the
/// first line ends at `n`.
proof fn lemma_line_end(text: Seq<char>, n: nat)
    requires
        n <= text.len(),
        forall|k: int| 0 <= k < n ==> text[k] != '\n',
        n == text.len() || text[n as int] == '\n',
    ensures
        line_end(text) == n,
    decreases n,
{
    if n > 0 {
        lemma_line_end(text.skip(1), (n - 1) as nat);
    }
}

/// The first line of a text ends within the text.
proof fn lemma_line_end_within(text: Seq<char>)
    ensures
        line_end(text) <= text.len(),
    decreases text.len(),
{
    if text.len() > 0 && text[0] != '\n' {
        lemma_line_end_within(text.skip(1));
    }
}

/// A line without the escape character has no hidden character.
proof fn lemma_nothing_hidden(line: Seq<char>)
    requires
        escape_free(line),
    ensures
        hidden(line, Escape::Normal) == 0,
    decreases line.len(),
{
    if line.len() > 0 {
        lemma_nothing_hidden(line.skip(1));
    }
}

/// The lines of a text without the escape character are without it.
proof fn lemma_lines_are_escape_free(text: Seq<char>)
    requires
        escape_free(text),
    ensures
        forall|i: int|
            0 <= i < text_lines(text).len() ==> escape_free(#[trigger] text_lines(text)[i]),
    decreases text.len(),
{
    let end = line_end(text);
    lemma_line_end_within(text);
    if text.len() > 0 && end < text.len() {
        let rest = text.skip(end as int + 1);
        lemma_lines_are_escape_free(rest);
        assert forall|i: int| 0 <= i < text_lines(text).len() implies escape_free(
            #[trigger] text_lines(text)[i],
        ) by {
            if i > 0 {
                assert(text_lines(text)[i] == text_lines(rest)[i - 1]);
            }
        }
    }
}

/// A text without the escape character can stand in a cell, whatever else it
/// holds.
pub proof fn lemma_text_without_escape_fits(text: Seq<char>)
    requires
        escape_free(text),
    ensures
        cell_fits(text),
{
    lemma_lines_are_escape_free(text);
    assert forall|i: int| 0 <= i < text_lines(text).len() implies line_fits(
        #[trigger] text_lines(text)[i],
    ) by {
        lemma_nothing_hidden(text_lines(text)[i]);
    }
}

/// A cell holds a text without a line feed as it is.
pub proof fn lemma_cell_keeps_one_line(text: Seq<char>)
    requires
        forall|i: int| 0 <= i < text.len() ==> text[i] != '\n',
    ensures
        cell_text(text) == text,
{
    lemma_line_end(text, text.len());
}

} // verus!
