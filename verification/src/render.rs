//! What is shown of the cats that a command brought back.

use crate::args::{Cmd, CmdView};
use crate::cmds::{Cat, CatView};
use crate::table::{
    add_row, cell_fits, cell_text, escape_free, fits_cell, lemma_text_without_escape_fits,
    new_table, row_texts, set_titles, table_rows, table_titles,
};
use crate::text::{decimal, decimal_text, join, joined, parts_of};
use prettytable::Table;
use vstd::prelude::*;
use vstd::string::StringExecFns;

verus! {

/// The breed as it is shown: its text, or `<none>` where it is not set.
pub open spec fn shown_breed(breed: Option<Seq<char>>) -> Seq<char> {
    match breed {
        Some(breed) => breed,
        None => "<none>"@,
    }
}

/// The cells of a cat's row in a table: id, name, age, breed.
pub open spec fn cat_cells(cat: CatView) -> Seq<Seq<char>> {
    seq![decimal(cat.id as nat), cat.name, decimal(cat.age as nat), shown_breed(cat.breed)]
}

/// The line of a cat in plain text: the cells of its row with a blank
/// between each two.
pub open spec fn cat_line(cat: CatView) -> Seq<char> {
    joined(cat_cells(cat), " "@)
}

/// The headings of the table, in the order of a row's cells.
pub open spec fn headings() -> Seq<Seq<char>> {
    seq!["ID"@, "Name"@, "Age"@, "Breed"@]
}

/// What is said where there is no cat to show.
pub open spec fn no_cat() -> Seq<char> {
    "No such cat exists"@
}

/// The headings of the table, in the order of a row's cells.
pub fn titles() -> (cells: Vec<String>)
    ensures
        cells.deep_view() == headings(),
{
    let mut cells: Vec<String> = Vec::new();
    cells.push(String::from_str("ID"));
    cells.push(String::from_str("Name"));
    cells.push(String::from_str("Age"));
    cells.push(String::from_str("Breed"));
    cells
}

impl Cat {
    /// The cells of the cat's row in a table.
    pub fn cells(&self) -> (cells: Vec<String>)
        ensures
            cells.deep_view() == cat_cells(self@),
    {
        let breed = match &self.breed {
            Some(breed) => breed.clone(),
            None => String::from_str("<none>"),
        };
        let mut cells: Vec<String> = Vec::new();
        cells.push(decimal_text(self.id));
        cells.push(self.name.clone());
        cells.push(decimal_text(self.age as u64));
        cells.push(breed);
        cells
    }

    /// The cat's line in plain text.
    pub fn line(&self) -> (line: String)
        ensures
            line@ == cat_line(self@),
    {
        let cells = self.cells();
        let parts = parts_of(&cells);
        proof {
            reveal_strlit(" ");
        }
        join(&parts, " ")
    }
}

/// What a command brought back.
#[derive(Debug, Clone, PartialEq, Eq)]
pub enum Reply {
    /// The one cat that was asked for.
    One(Cat),
    /// The cat that was asked for, if there is one.
    Maybe(Option<Cat>),
    /// The cats that were asked for, in the order in which the store gave
    /// them.
    Many(Vec<Cat>),
}

/// The mathematical value of a [`Reply`].
pub enum ReplyView {
    One(CatView),
    Maybe(Option<CatView>),
    Many(Seq<CatView>),
}

impl View for Reply {
    type V = ReplyView;

    open spec fn view(&self) -> ReplyView {
        match *self {
            Reply::One(cat) => ReplyView::One(cat@),
            Reply::Maybe(Some(cat)) => ReplyView::Maybe(Some(cat@)),
            Reply::Maybe(None) => ReplyView::Maybe(None),
            Reply::Many(cats) => ReplyView::Many(cats.deep_view()),
        }
    }
}

/// What is shown on a terminal: a message, a table, or lines of plain text
/// for cats that cannot stand in a table.
#[derive(Debug, PartialEq, Eq)]
pub enum Rendering {
    Message(String),
    Table(Table),
    Lines(Vec<String>),
}

/// The mathematical value of a [`Rendering`]: of a table the texts in the
/// cells of its title row, if it has one, and of its rows.
pub enum RenderingView {
    Message(Seq<char>),
    Table { titles: Option<Seq<Seq<char>>>, rows: Seq<Seq<Seq<char>>> },
    Lines(Seq<Seq<char>>),
}

impl View for Rendering {
    type V = RenderingView;

    open spec fn view(&self) -> RenderingView {
        match *self {
            Rendering::Message(text) => RenderingView::Message(text@),
            Rendering::Table(table) => RenderingView::Table {
                titles: table_titles(table),
                rows: table_rows(table),
            },
            Rendering::Lines(lines) => RenderingView::Lines(lines.deep_view()),
        }
    }
}

/// What is handed on as structured data.
#[derive(Debug, Clone, Copy, PartialEq, Eq)]
pub enum Structured<'a> {
    /// An object without a field, for a cat that is not there.
    Empty,
    /// One cat, as an object.
    One(&'a Cat),
    /// The cats in their order, as a list.
    Many(&'a Vec<Cat>),
}

/// The table of the cats: under the headings one row for each cat, in their
/// order, with a cell for each of [`cat_cells`].
pub open spec fn cat_table(cats: Seq<CatView>) -> RenderingView {
    RenderingView::Table {
        titles: Some(row_texts(headings())),
        rows: Seq::new(cats.len(), |i: int| row_texts(cat_cells(cats[i]))),
    }
}

/// The lines of the cats, in their order.
pub open spec fn cat_lines(cats: Seq<CatView>) -> Seq<Seq<char>> {
    Seq::new(cats.len(), |i: int| cat_line(cats[i]))
}

impl CatView {
    /// Whether the cat can stand in a table: its name and its breed each fit
    /// a cell. A text without the escape character always does.
    pub open spec fn tabular(self) -> bool {
        &&& cell_fits(self.name)
        &&& self.breed matches Some(breed) ==> cell_fits(breed)
    }
}

/// Whether every one of the cats can stand in a table.
pub open spec fn all_tabular(cats: Seq<CatView>) -> bool {
    forall|i: int| 0 <= i < cats.len() ==> (#[trigger] cats[i]).tabular()
}

impl ReplyView {
    /// The cats of the reply, in their order.
    pub open spec fn cats(self) -> Seq<CatView> {
        match self {
            ReplyView::One(cat) => seq![cat],
            ReplyView::Maybe(Some(cat)) => seq![cat],
            ReplyView::Maybe(None) => Seq::empty(),
            ReplyView::Many(cats) => cats,
        }
    }

    /// What is shown on a terminal: where there is no cat, be it one that is
    /// missing or an empty list, the message [`no_cat`]; else a table with one
    /// row for each cat; but where one of the cats cannot stand in a table,
    /// the lines of [`ReplyView::plain`] for all of them.
    pub open spec fn display(self) -> RenderingView {
        if self.cats().len() == 0 {
            RenderingView::Message(no_cat())
        } else if all_tabular(self.cats()) {
            cat_table(self.cats())
        } else {
            RenderingView::Lines(self.plain())
        }
    }

    /// The lines of plain text: one for each cat; for a cat that is missing
    /// the message [`no_cat`]; none for an empty list.
    pub open spec fn plain(self) -> Seq<Seq<char>> {
        match self {
            ReplyView::One(cat) => seq![cat_line(cat)],
            ReplyView::Maybe(Some(cat)) => seq![cat_line(cat)],
            ReplyView::Maybe(None) => seq![no_cat()],
            ReplyView::Many(cats) => cat_lines(cats),
        }
    }
}

impl Cat {
    /// Whether the cat can stand in a table: [`CatView::tabular`].
    pub fn tabular(&self) -> (b: bool)
        ensures
            b == self@.tabular(),
    {
        if !fits_cell(self.name.as_str()) {
            return false;
        }
        match &self.breed {
            Some(breed) => fits_cell(breed.as_str()),
            None => true,
        }
    }
}

/// Whether every one of the cats can stand in a table.
fn are_tabular(cats: &Vec<Cat>) -> (b: bool)
    ensures
        b == all_tabular(cats.deep_view()),
{
    let n = cats.len();
    let mut i: usize = 0;
    while i < n
        invariant
            i <= n,
            n == cats@.len(),
            forall|k: int| 0 <= k < i ==> (#[trigger] cats.deep_view()[k]).tabular(),
        decreases n - i,
    {
        if !cats[i].tabular() {
            assert(!cats.deep_view()[i as int].tabular());
            return false;
        }
        i += 1;
    }
    true
}

/// A number written in base ten holds digits only, and so no escape
/// character.
proof fn lemma_decimal_is_escape_free(n: nat)
    ensures
        escape_free(decimal(n)),
    decreases n,
{
    if n >= 10 {
        lemma_decimal_is_escape_free(n / 10);
    }
}

/// Each of the cells of a cat that can stand in a table fits a cell.
proof fn lemma_cells_fit(cat: CatView)
    requires
        cat.tabular(),
    ensures
        forall|i: int| 0 <= i < cat_cells(cat).len() ==> cell_fits(#[trigger] cat_cells(cat)[i]),
{
    reveal_strlit("<none>");
    lemma_decimal_is_escape_free(cat.id as nat);
    lemma_decimal_is_escape_free(cat.age as nat);
    lemma_text_without_escape_fits(decimal(cat.id as nat));
    lemma_text_without_escape_fits(decimal(cat.age as nat));
    lemma_text_without_escape_fits("<none>"@);
}

/// A cat whose name and breed are without the escape character can stand in
/// a table.
pub proof fn lemma_cat_without_escape_is_tabular(cat: CatView)
    requires
        escape_free(cat.name),
        cat.breed matches Some(breed) ==> escape_free(breed),
    ensures
        cat.tabular(),
{
    lemma_text_without_escape_fits(cat.name);
    if let Some(breed) = cat.breed {
        lemma_text_without_escape_fits(breed);
    }
}

/// A table with the headings and no row yet.
fn titled_table() -> (table: Table)
    ensures
        table_titles(table) == Some(row_texts(headings())),
        table_rows(table) == Seq::<Seq<Seq<char>>>::empty(),
{
    let mut table = new_table();
    let cells = titles();
    proof {
        reveal_strlit("ID");
        reveal_strlit("Name");
        reveal_strlit("Age");
        reveal_strlit("Breed");
        lemma_text_without_escape_fits("ID"@);
        lemma_text_without_escape_fits("Name"@);
        lemma_text_without_escape_fits("Age"@);
        lemma_text_without_escape_fits("Breed"@);
        assert(cells@.len() == cells.deep_view().len());
    }
    set_titles(&mut table, &cells);
    table
}

/// Puts the row of a cat behind the rows that the table has.
fn add_cat(table: &mut Table, cat: &Cat)
    requires
        cat@.tabular(),
    ensures
        table_titles(*final(table)) == table_titles(*old(table)),
        table_rows(*final(table)) == table_rows(*old(table)).push(row_texts(cat_cells(cat@))),
{
    let cells = cat.cells();
    proof {
        lemma_cells_fit(cat@);
    }
    add_row(table, &cells);
    assert(Seq::new(cells@.len(), |i: int| cell_text(cells@[i]@)) =~= row_texts(
        cells.deep_view(),
    ));
}

impl Reply {
    /// What is shown on a terminal: [`ReplyView::display`].
    pub fn display(&self) -> (shown: Rendering)
        ensures
            shown@ == self@.display(),
    {
        match self {
            Reply::One(cat) | Reply::Maybe(Some(cat)) => {
                if !cat.tabular() {
                    assert(!self@.cats()[0].tabular());
                    return Rendering::Lines(self.plain());
                }
                let mut table = titled_table();
                add_cat(&mut table, cat);
                assert(table_rows(table) =~= Seq::new(
                    1,
                    |i: int| row_texts(cat_cells(seq![cat@][i])),
                ));
                Rendering::Table(table)
            },
            Reply::Maybe(None) => Rendering::Message(String::from_str("No such cat exists")),
            Reply::Many(cats) => {
                if cats.len() == 0 {
                    return Rendering::Message(String::from_str("No such cat exists"));
                }
                if !are_tabular(cats) {
                    return Rendering::Lines(self.plain());
                }
                let mut table = titled_table();
                let ghost all = cats.deep_view();
                let n = cats.len();
                let mut i: usize = 0;
                while i < n
                    invariant
                        i <= n,
                        n == cats@.len(),
                        all == cats.deep_view(),
                        all_tabular(all),
                        table_titles(table) == Some(row_texts(headings())),
                        table_rows(table) == Seq::new(
                            i as nat,
                            |k: int| row_texts(cat_cells(all[k])),
                        ),
                    decreases n - i,
                {
                    assert(all[i as int].tabular());
                    add_cat(&mut table, &cats[i]);
                    i += 1;
                }
                Rendering::Table(table)
            },
        }
    }

    /// The lines of plain text: [`ReplyView::plain`].
    pub fn plain(&self) -> (lines: Vec<String>)
        ensures
            lines.deep_view() == self@.plain(),
    {
        let mut lines: Vec<String> = Vec::new();
        match self {
            Reply::One(cat) | Reply::Maybe(Some(cat)) => {
                lines.push(cat.line());
            },
            Reply::Maybe(None) => {
                lines.push(String::from_str("No such cat exists"));
            },
            Reply::Many(cats) => {
                let n = cats.len();
                let mut i: usize = 0;
                while i < n
                    invariant
                        i <= n,
                        n == cats@.len(),
                        lines@.len() == i,
                        forall|k: int| 0 <= k < i ==> lines@[k]@ == cat_line(cats@[k]@),
                    decreases n - i,
                {
                    lines.push(cats[i].line());
                    i += 1;
                }
            },
        }
        lines
    }

    /// What is handed on as structured data: the cat, the cats, or an object
    /// without a field for a cat that is missing.
    pub fn structured(&self) -> (data: Structured<'_>)
        ensures
            match *self {
                Reply::One(cat) => data == Structured::One(&cat),
                Reply::Maybe(Some(cat)) => data == Structured::One(&cat),
                Reply::Maybe(None) => data == Structured::Empty,
                Reply::Many(cats) => data == Structured::Many(&cats),
            },
    {
        match self {
            Reply::One(cat) | Reply::Maybe(Some(cat)) => Structured::One(cat),
            Reply::Maybe(None) => Structured::Empty,
            Reply::Many(cats) => Structured::Many(cats),
        }
    }
}

/// How a reply is put out.
#[derive(Debug, Clone, Copy, PartialEq, Eq, Structural)]
pub enum Format {
    /// As structured data.
    Json,
    /// As a table.
    Table,
    /// As lines of plain text.
    Plain,
}

impl Format {
    /// How a reply is put out: as structured data where that was asked for,
    /// else as a table where the output is a terminal, else as plain text.
    pub fn select(json: bool, terminal: bool) -> (format: Format)
        ensures
            format == if json {
                Format::Json
            } else if terminal {
                Format::Table
            } else {
                Format::Plain
            },
    {
        if json {
            Format::Json
        } else if terminal {
            Format::Table
        } else {
            Format::Plain
        }
    }
}

/// How many cats a command asks for.
#[derive(Debug, Clone, Copy, PartialEq, Eq, Structural)]
pub enum Expect {
    /// One, which has to be there.
    One,
    /// One, if it is there.
    Maybe,
    /// All that there are.
    Many,
}

impl CmdView {
    /// How many cats the command asks for: the new cat where one is added;
    /// the cat with the id, if there is one, where one is changed or removed;
    /// else all that were found.
    pub open spec fn expects(self) -> Expect {
        match self {
            CmdView::Add { .. } => Expect::One,
            CmdView::Update { .. } | CmdView::Delete { .. } => Expect::Maybe,
            CmdView::Find { .. } | CmdView::Get { .. } => Expect::Many,
        }
    }
}

impl Cmd {
    /// How many cats the command asks for: [`CmdView::expects`].
    pub fn expects(&self) -> (expect: Expect)
        ensures
            expect == self@.expects(),
    {
        match self {
            Cmd::Add { .. } => Expect::One,
            Cmd::Update { .. } | Cmd::Delete { .. } => Expect::Maybe,
            Cmd::Find { .. } | Cmd::Get { .. } => Expect::Many,
        }
    }
}

/// The reply that the cats of the rows make, in the order of the rows.
/// Where one cat is asked for the first row counts; `None` where that cat
/// has to be there and no row came.
pub open spec fn reply_of(expect: Expect, cats: Seq<CatView>) -> Option<ReplyView> {
    match expect {
        Expect::One => if cats.len() == 0 {
            None
        } else {
            Some(ReplyView::One(cats[0]))
        },
        Expect::Maybe => Some(
            ReplyView::Maybe(
                if cats.len() == 0 {
                    None
                } else {
                    Some(cats[0])
                },
            ),
        ),
        Expect::Many => Some(ReplyView::Many(cats)),
    }
}

/// What an optional reply holds.
pub open spec fn reply_view(reply: Option<Reply>) -> Option<ReplyView> {
    match reply {
        Some(reply) => Some(reply@),
        None => None,
    }
}

impl Reply {
    /// The reply that the cats of the rows make: [`reply_of`].
    pub fn new(expect: Expect, cats: Vec<Cat>) -> (reply: Option<Reply>)
        ensures
            reply_view(reply) == reply_of(expect, cats.deep_view()),
    {
        let mut cats = cats;
        match expect {
            Expect::Many => Some(Reply::Many(cats)),
            Expect::One => {
                if cats.len() == 0 {
                    None
                } else {
                    let first = cats.swap_remove(0);
                    Some(Reply::One(first))
                }
            },
            Expect::Maybe => {
                if cats.len() == 0 {
                    Some(Reply::Maybe(None))
                } else {
                    let first = cats.swap_remove(0);
                    Some(Reply::Maybe(Some(first)))
                }
            },
        }
    }
}

} // verus!
