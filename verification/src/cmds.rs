//! The statement that each command runs, and the records that come back.

use crate::args::{
    text_view, Age, BreedFilter, BreedFilterView, Cmd, CmdAdd, CmdAddView, CmdFind, CmdFindView,
    CmdUpdate, CmdUpdateView, CmdView,
};
use crate::text::{join, joined, views};
use vstd::prelude::*;
use vstd::string::StringExecFns;

verus! {

/// A value bound to one placeholder of a statement.
#[derive(Debug, Clone, PartialEq, Eq)]
pub enum Param {
    Null,
    Integer(u64),
    Text(String),
}

/// The mathematical value of a [`Param`].
pub enum ParamView {
    Null,
    Integer(u64),
    Text(Seq<char>),
}

impl View for Param {
    type V = ParamView;

    open spec fn view(&self) -> ParamView {
        match *self {
            Param::Null => ParamView::Null,
            Param::Integer(n) => ParamView::Integer(n),
            Param::Text(s) => ParamView::Text(s@),
        }
    }
}

impl DeepView for Param {
    type V = ParamView;

    open spec fn deep_view(&self) -> ParamView {
        self@
    }
}

/// A statement for the store: its text, with a `?` wherever a value goes,
/// and the values in the order of their placeholders. No value is ever part
/// of the text.
#[derive(Debug, Clone, PartialEq, Eq)]
pub struct Statement {
    pub text: String,
    pub params: Vec<Param>,
}

/// The mathematical value of a [`Statement`].
pub struct StatementView {
    pub text: Seq<char>,
    pub params: Seq<ParamView>,
}

impl View for Statement {
    type V = StatementView;

    open spec fn view(&self) -> StatementView {
        StatementView { text: self.text@, params: self.params.deep_view() }
    }
}

/// `n` times the same part.
pub open spec fn repeated(part: Seq<char>, n: nat) -> Seq<Seq<char>> {
    Seq::new(n, |i: int| part)
}

/// The test that passes where one of the given tests does: the tests with
/// `OR` between them. With no test it is `0`, which nothing passes.
pub open spec fn any_of(tests: Seq<Seq<char>>) -> Seq<char> {
    if tests.len() == 0 {
        "0"@
    } else {
        joined(tests, " OR "@)
    }
}

/// The test of one text column against `n` patterns. `like` is the test of
/// the column against one pattern by containment, `member` the start of its
/// test for membership in a list. With no pattern no text passes: the list
/// is empty, and so is the choice of tests.
pub open spec fn text_clause(like: Seq<char>, member: Seq<char>, n: nat, fuzzy: bool) -> Seq<char> {
    if fuzzy {
        member + joined(repeated("?"@, n), ", "@) + ")"@
    } else {
        "("@ + any_of(repeated(like, n)) + ")"@
    }
}

/// The value bound for one pattern: the pattern itself where it must equal
/// the whole text, else the pattern between two `%`, so that it is looked for
/// anywhere in the text.
pub open spec fn bound_pattern(pattern: Seq<char>, fuzzy: bool) -> Seq<char> {
    if fuzzy {
        pattern
    } else {
        "%"@ + pattern + "%"@
    }
}

/// The values bound for the patterns of one text column, in their order.
pub open spec fn text_params(patterns: Seq<Seq<char>>, fuzzy: bool) -> Seq<ParamView> {
    Seq::new(patterns.len(), |i: int| ParamView::Text(bound_pattern(patterns[i], fuzzy)))
}

/// The test of the age against one term.
pub open spec fn age_test(term: Age) -> Seq<char> {
    match term {
        Age::Concrete(_) => "age = ?"@,
        Age::Range(_, _) => "age BETWEEN ? AND ?"@,
    }
}

/// The tests of the age against each term, in their order.
pub open spec fn age_tests(terms: Seq<Age>) -> Seq<Seq<char>> {
    Seq::new(terms.len(), |i: int| age_test(terms[i]))
}

/// The test of the age against the terms: any one of them is enough.
pub open spec fn age_clause(terms: Seq<Age>) -> Seq<char> {
    "("@ + any_of(age_tests(terms)) + ")"@
}

/// The values bound for one term: the age, or the lower bound and then the
/// upper.
pub open spec fn age_term_params(term: Age) -> Seq<ParamView> {
    match term {
        Age::Concrete(n) => seq![ParamView::Integer(n as u64)],
        Age::Range(lo, hi) => seq![ParamView::Integer(lo as u64), ParamView::Integer(hi as u64)],
    }
}

/// The values bound for the terms, in their order.
pub open spec fn age_params(terms: Seq<Age>) -> Seq<ParamView>
    decreases terms.len(),
{
    if terms.len() == 0 {
        Seq::empty()
    } else {
        age_params(terms.drop_last()) + age_term_params(terms.last())
    }
}

/// The tests that a search makes, in the order in which they stand in its
/// statement: on the name, on the age, on the breed. A field that is not set
/// gives none.
pub open spec fn find_clauses(cmd: CmdFindView) -> Seq<Seq<char>> {
    let name = match cmd.name {
        Some(names) => seq![
            text_clause("name LIKE ?"@, "name COLLATE NOCASE IN ("@, names.len(), cmd.fuzzy),
        ],
        None => Seq::empty(),
    };
    let age = match cmd.age {
        Some(terms) => seq![age_clause(terms)],
        None => Seq::empty(),
    };
    let breed = match cmd.breed {
        BreedFilterView::NoFilter => Seq::empty(),
        BreedFilterView::Patterns(breeds) => seq![
            text_clause("breed LIKE ?"@, "breed COLLATE NOCASE IN ("@, breeds.len(), cmd.fuzzy),
        ],
        BreedFilterView::Absent => seq!["breed ISNULL"@],
    };
    name + age + breed
}

/// The text of a search: every cat where there is no test, else the cats
/// that pass all of them.
pub open spec fn find_text(cmd: CmdFindView) -> Seq<char> {
    let clauses = find_clauses(cmd);
    if clauses.len() == 0 {
        "SELECT * FROM cats"@
    } else {
        "SELECT * FROM cats WHERE "@ + joined(clauses, " AND "@)
    }
}

/// The values of a search, in the order of their placeholders in
/// [`find_text`]: those of the name, of the age, of the breed.
pub open spec fn find_params(cmd: CmdFindView) -> Seq<ParamView> {
    let name = match cmd.name {
        Some(names) => text_params(names, cmd.fuzzy),
        None => Seq::empty(),
    };
    let age = match cmd.age {
        Some(terms) => age_params(terms),
        None => Seq::empty(),
    };
    let breed = match cmd.breed {
        BreedFilterView::Patterns(breeds) => text_params(breeds, cmd.fuzzy),
        _ => Seq::empty(),
    };
    name + age + breed
}

/// `n` times the same part.
fn repeat(part: &'static str, n: usize) -> (parts: Vec<&'static str>)
    ensures
        views(parts@) == repeated(part@, n as nat),
{
    let mut parts: Vec<&'static str> = Vec::new();
    let mut i: usize = 0;
    while i < n
        invariant
            i <= n,
            parts@.len() == i,
            forall|k: int| 0 <= k < i ==> parts@[k]@ == part@,
        decreases n - i,
    {
        parts.push(part);
        i += 1;
    }
    parts
}

/// The test that passes where one of the given tests does.
fn any(tests: &Vec<&str>) -> (test: String)
    ensures
        test@ == any_of(views(tests@)),
{
    if tests.len() == 0 {
        String::from_str("0")
    } else {
        proof {
            reveal_strlit(" OR ");
        }
        join(tests, " OR ")
    }
}

/// The test of one text column against `n` patterns.
fn text_test(like: &'static str, member: &'static str, n: usize, fuzzy: bool) -> (clause: String)
    ensures
        clause@ == text_clause(like@, member@, n as nat, fuzzy),
{
    if fuzzy {
        let marks = repeat("?", n);
        proof {
            reveal_strlit(", ");
        }
        let list = join(&marks, ", ");
        let mut clause = String::from_str(member);
        clause.append(list.as_str());
        clause.append(")");
        clause
    } else {
        let tests = repeat(like, n);
        let mut clause = String::from_str("(");
        clause.append(any(&tests).as_str());
        clause.append(")");
        clause
    }
}

/// Binds the patterns of one text column, in their order, behind the values
/// that are bound already.
fn bind_patterns(params: &mut Vec<Param>, patterns: Vec<String>, fuzzy: bool)
    ensures
        final(params).deep_view() == old(params).deep_view() + text_params(
            patterns.deep_view(),
            fuzzy,
        ),
{
    let ghost before = params.deep_view();
    let ghost all = patterns.deep_view();
    let mut i: usize = 0;
    let n = patterns.len();
    while i < n
        invariant
            i <= n,
            n == patterns@.len(),
            all == patterns.deep_view(),
            params.deep_view() == before + text_params(all, fuzzy).take(i as int),
        decreases n - i,
    {
        let pattern = &patterns[i];
        let bound = if fuzzy {
            pattern.clone()
        } else {
            let mut wrapped = String::from_str("%");
            wrapped.append(pattern.as_str());
            wrapped.append("%");
            wrapped
        };
        let ghost prev = params.deep_view();
        params.push(Param::Text(bound));
        assert(params.deep_view() =~= prev.push(ParamView::Text(bound@)));
        i += 1;
    }
}

/// The test of the age against the terms, and their values bound behind
/// those that are bound already.
fn age_test_of(params: &mut Vec<Param>, terms: &Vec<Age>) -> (clause: String)
    ensures
        clause@ == age_clause(terms@),
        final(params).deep_view() == old(params).deep_view() + age_params(terms@),
{
    let ghost before = params.deep_view();
    let mut tests: Vec<&'static str> = Vec::new();
    let mut i: usize = 0;
    let n = terms.len();
    while i < n
        invariant
            i <= n,
            n == terms@.len(),
            tests@.len() == i,
            forall|k: int| 0 <= k < i ==> tests@[k]@ == age_test(terms@[k]),
            params.deep_view() == before + age_params(terms@.take(i as int)),
        decreases n - i,
    {
        let ghost prev = params.deep_view();
        match terms[i] {
            Age::Concrete(age) => {
                params.push(Param::Integer(age as u64));
                assert(params.deep_view() =~= prev + age_term_params(terms@[i as int]));
                tests.push("age = ?");
            },
            Age::Range(lower, upper) => {
                params.push(Param::Integer(lower as u64));
                params.push(Param::Integer(upper as u64));
                assert(params.deep_view() =~= prev + age_term_params(terms@[i as int]));
                tests.push("age BETWEEN ? AND ?");
            },
        }
        assert(terms@.take(i + 1).drop_last() =~= terms@.take(i as int));
        i += 1;
    }
    assert(terms@.take(n as int) =~= terms@);
    assert(views(tests@) =~= age_tests(terms@));
    let mut clause = String::from_str("(");
    clause.append(any(&tests).as_str());
    clause.append(")");
    clause
}

/// The statement of a search: its text is [`find_text`], its values are
/// [`find_params`].
///
/// The text depends on which fields are set, on how many terms each has and
/// on the kind of each age term, never on a value. A field that is set with
/// no term at all gives a test that no cat passes.
pub fn find(cmd: CmdFind) -> (stmt: Statement)
    ensures
        stmt@.text == find_text(cmd@),
        stmt@.params == find_params(cmd@),
{
    let fuzzy = cmd.fuzzy;
    let mut params: Vec<Param> = Vec::new();
    let name_clause = match cmd.name {
        Some(names) => {
            let clause = text_test("name LIKE ?", "name COLLATE NOCASE IN (", names.len(), fuzzy);
            bind_patterns(&mut params, names, fuzzy);
            Some(clause)
        },
        None => None,
    };
    let age_clause = match &cmd.age {
        Some(terms) => Some(age_test_of(&mut params, terms)),
        None => None,
    };
    let breed_clause = match cmd.breed {
        BreedFilter::NoFilter => None,
        BreedFilter::Patterns(breeds) => {
            let clause = text_test(
                "breed LIKE ?",
                "breed COLLATE NOCASE IN (",
                breeds.len(),
                fuzzy,
            );
            bind_patterns(&mut params, breeds, fuzzy);
            Some(clause)
        },
        BreedFilter::Absent => Some(String::from_str("breed ISNULL")),
    };
    let mut clauses: Vec<&str> = Vec::new();
    if let Some(clause) = &name_clause {
        clauses.push(clause.as_str());
    }
    if let Some(clause) = &age_clause {
        clauses.push(clause.as_str());
    }
    if let Some(clause) = &breed_clause {
        clauses.push(clause.as_str());
    }
    assert(views(clauses@) =~= find_clauses(cmd@));
    let text = if clauses.len() == 0 {
        String::from_str("SELECT * FROM cats")
    } else {
        proof {
            reveal_strlit(" AND ");
        }
        let all = join(&clauses, " AND ");
        let mut text = String::from_str("SELECT * FROM cats WHERE ");
        text.append(all.as_str());
        text
    };
    Statement { text, params }
}

/// The text that asks for the cats with any of `n` ids; with no id, for no
/// cat.
pub open spec fn get_text(n: nat) -> Seq<char> {
    "SELECT * FROM cats WHERE "@ + any_of(repeated("id = ?"@, n))
}

/// The ids as bound values, in their order.
pub open spec fn get_params(ids: Seq<u64>) -> Seq<ParamView> {
    Seq::new(ids.len(), |i: int| ParamView::Integer(ids[i]))
}

/// The statement that reads the cats with the given ids: one test for each
/// id, also for one that is given twice. With no id it reads no cat.
pub fn get(id: &[u64]) -> (stmt: Statement)
    ensures
        stmt@.text == get_text(id@.len()),
        stmt@.params == get_params(id@),
{
    let n = id.len();
    let tests = repeat("id = ?", n);
    let mut text = String::from_str("SELECT * FROM cats WHERE ");
    text.append(any(&tests).as_str());
    let mut params: Vec<Param> = Vec::new();
    let mut i: usize = 0;
    while i < n
        invariant
            i <= n,
            n == id@.len(),
            params@.len() == i,
            forall|k: int| 0 <= k < i ==> params@[k]@ == ParamView::Integer(id@[k]),
        decreases n - i,
    {
        params.push(Param::Integer(id[i]));
        i += 1;
    }
    Statement { text, params }
}

/// The text that stores a new cat and gives its row back.
pub open spec fn add_text() -> Seq<char> {
    "INSERT INTO cats (name, age, breed) VALUES (?, ?, ?) RETURNING *"@
}

/// A text that may be missing, as a bound value.
pub open spec fn optional_text(text: Option<Seq<char>>) -> ParamView {
    match text {
        Some(s) => ParamView::Text(s),
        None => ParamView::Null,
    }
}

/// The values of a new cat: name, age, breed.
pub open spec fn add_params(cmd: CmdAddView) -> Seq<ParamView> {
    seq![
        ParamView::Text(cmd.name),
        ParamView::Integer(cmd.age as u64),
        optional_text(cmd.breed),
    ]
}

/// The statement that stores a new cat. The store assigns the id; the row
/// that comes back holds it.
pub fn add(cmd: CmdAdd) -> (stmt: Statement)
    ensures
        stmt@.text == add_text(),
        stmt@.params == add_params(cmd@),
{
    let breed = match cmd.breed {
        Some(breed) => Param::Text(breed),
        None => Param::Null,
    };
    let mut params: Vec<Param> = Vec::new();
    params.push(Param::Text(cmd.name));
    params.push(Param::Integer(cmd.age as u64));
    params.push(breed);
    Statement {
        text: String::from_str("INSERT INTO cats (name, age, breed) VALUES (?, ?, ?) RETURNING *"),
        params,
    }
}

/// The text that removes one cat and gives its row back.
pub open spec fn delete_text() -> Seq<char> {
    "DELETE FROM cats WHERE id = ? RETURNING *"@
}

/// The statement that removes the cat with the given id. Where there is no
/// such cat no row comes back.
pub fn delete(id: u64) -> (stmt: Statement)
    ensures
        stmt@.text == delete_text(),
        stmt@.params == seq![ParamView::Integer(id)],
{
    let mut params: Vec<Param> = Vec::new();
    params.push(Param::Integer(id));
    Statement { text: String::from_str("DELETE FROM cats WHERE id = ? RETURNING *"), params }
}

/// The assignments of an update, one for each field that is set: name, age,
/// breed.
pub open spec fn update_assignments(cmd: CmdUpdateView) -> Seq<Seq<char>> {
    let name = if cmd.name is Some {
        seq!["name = ?"@]
    } else {
        Seq::empty()
    };
    let age = if cmd.age is Some {
        seq!["age = ?"@]
    } else {
        Seq::empty()
    };
    let breed = if cmd.breed is Some {
        seq!["breed = ?"@]
    } else {
        Seq::empty()
    };
    name + age + breed
}

/// The new values of an update, in the order of its assignments.
pub open spec fn update_values(cmd: CmdUpdateView) -> Seq<ParamView> {
    let name = match cmd.name {
        Some(name) => seq![ParamView::Text(name)],
        None => Seq::empty(),
    };
    let age = match cmd.age {
        Some(age) => seq![ParamView::Integer(age as u64)],
        None => Seq::empty(),
    };
    let breed = match cmd.breed {
        Some(breed) => seq![ParamView::Text(breed)],
        None => Seq::empty(),
    };
    name + age + breed
}

/// The text of an update. With no field set nothing is to be written, and
/// the text only reads the cat.
pub open spec fn update_text(cmd: CmdUpdateView) -> Seq<char> {
    let assignments = update_assignments(cmd);
    if assignments.len() == 0 {
        get_text(1)
    } else {
        "UPDATE cats SET "@ + joined(assignments, ", "@) + " WHERE id = ? RETURNING *"@
    }
}

/// The values of an update: the new values, then the id.
pub open spec fn update_params(cmd: CmdUpdateView) -> Seq<ParamView> {
    update_values(cmd).push(ParamView::Integer(cmd.id))
}

/// The statement of an update: it writes the fields that are set and gives
/// the cat's row back as it then is. With no field set it writes nothing and
/// is the statement that [`get`] gives for this one id. Where there is no
/// such cat no row comes back.
pub fn update(cmd: CmdUpdate) -> (stmt: Statement)
    ensures
        stmt@.text == update_text(cmd@),
        stmt@.params == update_params(cmd@),
{
    let mut params: Vec<Param> = Vec::new();
    let mut assignments: Vec<&'static str> = Vec::new();
    if let Some(name) = cmd.name {
        params.push(Param::Text(name));
        assignments.push("name = ?");
    }
    if let Some(age) = cmd.age {
        params.push(Param::Integer(age as u64));
        assignments.push("age = ?");
    }
    if let Some(breed) = cmd.breed {
        params.push(Param::Text(breed));
        assignments.push("breed = ?");
    }
    assert(views(assignments@) =~= update_assignments(cmd@));
    if assignments.len() == 0 {
        let ids: Vec<u64> = vec![cmd.id];
        let stmt = self::get(ids.as_slice());
        return stmt;
    }
    params.push(Param::Integer(cmd.id));
    proof {
        reveal_strlit(", ");
    }
    let list = join(&assignments, ", ");
    let mut text = String::from_str("UPDATE cats SET ");
    text.append(list.as_str());
    text.append(" WHERE id = ? RETURNING *");
    Statement { text, params }
}

impl CmdView {
    /// The statement that the command runs.
    pub open spec fn statement(self) -> StatementView {
        match self {
            CmdView::Add { cmd } => StatementView { text: add_text(), params: add_params(cmd) },
            CmdView::Find { cmd } => StatementView {
                text: find_text(cmd),
                params: find_params(cmd),
            },
            CmdView::Get { id } => StatementView {
                text: get_text(id.len()),
                params: get_params(id),
            },
            CmdView::Update { cmd } => StatementView {
                text: update_text(cmd),
                params: update_params(cmd),
            },
            CmdView::Delete { id } => StatementView {
                text: delete_text(),
                params: seq![ParamView::Integer(id)],
            },
        }
    }
}

impl Cmd {
    /// The statement that the command runs: the one that the function of its
    /// name gives.
    pub fn statement(self) -> (stmt: Statement)
        ensures
            stmt@ == self@.statement(),
    {
        match self {
            Cmd::Add { cmd } => self::add(cmd),
            Cmd::Find { cmd } => find(cmd),
            Cmd::Get { id } => get(id.as_slice()),
            Cmd::Update { cmd } => update(cmd),
            Cmd::Delete { id } => delete(id),
        }
    }
}

/// An update with no field set writes nothing: its statement is the one
/// that reads the cat with its id.
pub proof fn lemma_update_without_fields_reads(cmd: CmdUpdateView)
    requires
        cmd.name is None,
        cmd.age is None,
        cmd.breed is None,
    ensures
        update_text(cmd) == get_text(1),
        update_params(cmd) == get_params(seq![cmd.id]),
{
}

/// Whether two age terms are of the same kind.
pub open spec fn same_kind(a: Age, b: Age) -> bool {
    a is Concrete <==> b is Concrete
}

/// Whether two searches differ in nothing but the values of their terms:
/// the same fields are set, with as many terms, each of the same kind.
pub open spec fn same_shape(a: CmdFindView, b: CmdFindView) -> bool {
    &&& a.fuzzy == b.fuzzy
    &&& match (a.name, b.name) {
        (Some(x), Some(y)) => x.len() == y.len(),
        (None, None) => true,
        _ => false,
    }
    &&& match (a.age, b.age) {
        (Some(x), Some(y)) => x.len() == y.len() && forall|i: int|
            0 <= i < x.len() ==> same_kind(x[i], y[i]),
        (None, None) => true,
        _ => false,
    }
    &&& match (a.breed, b.breed) {
        (BreedFilterView::Patterns(x), BreedFilterView::Patterns(y)) => x.len() == y.len(),
        (BreedFilterView::NoFilter, BreedFilterView::NoFilter) => true,
        (BreedFilterView::Absent, BreedFilterView::Absent) => true,
        _ => false,
    }
}

/// No value of a search is part of its text: two searches that differ only
/// in the values of their terms have the same text.
pub proof fn lemma_find_text_holds_no_value(a: CmdFindView, b: CmdFindView)
    requires
        same_shape(a, b),
    ensures
        find_text(a) == find_text(b),
{
    if let (Some(x), Some(y)) = (a.age, b.age) {
        assert(age_tests(x) =~= age_tests(y));
    }
}

/// No value of an update is part of its text: two updates that set the same
/// fields have the same text.
pub proof fn lemma_update_text_holds_no_value(a: CmdUpdateView, b: CmdUpdateView)
    requires
        a.name is Some <==> b.name is Some,
        a.age is Some <==> b.age is Some,
        a.breed is Some <==> b.breed is Some,
    ensures
        update_text(a) == update_text(b),
{
}

/// One cat of the registry.
#[derive(Debug, Clone, PartialEq, Eq)]
pub struct Cat {
    /// Assigned by the store when the cat is added, and never changed.
    pub id: u64,
    pub name: String,
    /// In years.
    pub age: u32,
    /// `None` where the breed is not known.
    pub breed: Option<String>,
}

/// The mathematical value of a [`Cat`].
pub struct CatView {
    pub id: u64,
    pub name: Seq<char>,
    pub age: u32,
    pub breed: Option<Seq<char>>,
}

impl View for Cat {
    type V = CatView;

    open spec fn view(&self) -> CatView {
        CatView { id: self.id, name: self.name@, age: self.age, breed: text_view(self.breed) }
    }
}

impl DeepView for Cat {
    type V = CatView;

    open spec fn deep_view(&self) -> CatView {
        self@
    }
}

/// What one column of a row holds. Of a real number and of a blob only the
/// kind is kept: no field of a cat is read from one.
#[derive(Debug, Clone, PartialEq, Eq)]
pub enum Column {
    Null,
    Integer(i64),
    Real,
    Text(String),
    Blob,
}

/// The mathematical value of a [`Column`].
pub enum ColumnView {
    Null,
    Integer(i64),
    Real,
    Text(Seq<char>),
    Blob,
}

impl View for Column {
    type V = ColumnView;

    open spec fn view(&self) -> ColumnView {
        match *self {
            Column::Null => ColumnView::Null,
            Column::Integer(i) => ColumnView::Integer(i),
            Column::Real => ColumnView::Real,
            Column::Text(s) => ColumnView::Text(s@),
            Column::Blob => ColumnView::Blob,
        }
    }
}

/// Why a row is not a cat. Each holds the index of the column at fault.
#[derive(Debug, Clone, Copy, PartialEq, Eq, Structural)]
pub enum RowError {
    /// The row has no column with this index.
    InvalidColumnIndex(usize),
    /// The column holds a value of another kind than the field.
    InvalidColumnType(usize),
    /// The column holds this integer, which is outside the field's range.
    IntegralValueOutOfRange(usize, i64),
}

/// The columns of a row as mathematical values.
pub open spec fn columns(row: Seq<Column>) -> Seq<ColumnView> {
    Seq::new(row.len(), |i: int| row[i]@)
}

/// The integer in column `at`, which has to lie in `0..=max`.
pub open spec fn integer_at(row: Seq<ColumnView>, at: usize, max: int) -> Result<int, RowError> {
    if at >= row.len() {
        Err(RowError::InvalidColumnIndex(at))
    } else {
        match row[at as int] {
            ColumnView::Integer(i) => if 0 <= i <= max {
                Ok(i as int)
            } else {
                Err(RowError::IntegralValueOutOfRange(at, i))
            },
            _ => Err(RowError::InvalidColumnType(at)),
        }
    }
}

/// The text in column `at`; `None` for a column that holds nothing, which
/// is an error unless `optional` is set.
pub open spec fn text_at(row: Seq<ColumnView>, at: usize, optional: bool) -> Result<
    Option<Seq<char>>,
    RowError,
> {
    if at >= row.len() {
        Err(RowError::InvalidColumnIndex(at))
    } else {
        match row[at as int] {
            ColumnView::Text(s) => Ok(Some(s)),
            ColumnView::Null if optional => Ok(None),
            _ => Err(RowError::InvalidColumnType(at)),
        }
    }
}

/// The cat that a row stands for. The columns are read in the order of the
/// table: id, name, age, breed; further columns are not looked at. The
/// first column that cannot be read decides the error.
pub open spec fn row_cat(row: Seq<ColumnView>) -> Result<CatView, RowError> {
    match integer_at(row, 0, u64::MAX as int) {
        Err(e) => Err(e),
        Ok(id) => match text_at(row, 1, false) {
            Err(e) => Err(e),
            Ok(name) => match integer_at(row, 2, u32::MAX as int) {
                Err(e) => Err(e),
                Ok(age) => match text_at(row, 3, true) {
                    Err(e) => Err(e),
                    Ok(breed) => Ok(
                        CatView { id: id as u64, name: name->0, age: age as u32, breed },
                    ),
                },
            },
        },
    }
}

/// What reading a row gave, with the cat as a mathematical value.
pub open spec fn cat_result(r: Result<Cat, RowError>) -> Result<CatView, RowError> {
    match r {
        Ok(cat) => Ok(cat@),
        Err(e) => Err(e),
    }
}

/// The integer in column `at`.
fn read_integer(row: &[Column], at: usize, max: u64) -> (r: Result<u64, RowError>)
    ensures
        match r {
            Ok(n) => integer_at(columns(row@), at, max as int) == Ok::<int, RowError>(n as int),
            Err(e) => integer_at(columns(row@), at, max as int) == Err::<int, RowError>(e),
        },
{
    if at >= row.len() {
        return Err(RowError::InvalidColumnIndex(at));
    }
    match &row[at] {
        Column::Integer(i) => {
            if *i >= 0 && *i as u64 <= max {
                Ok(*i as u64)
            } else {
                Err(RowError::IntegralValueOutOfRange(at, *i))
            }
        },
        _ => Err(RowError::InvalidColumnType(at)),
    }
}

/// The text in column `at`.
fn read_text(row: &[Column], at: usize, optional: bool) -> (r: Result<Option<String>, RowError>)
    ensures
        match r {
            Ok(text) => text_at(columns(row@), at, optional) == Ok::<Option<Seq<char>>, RowError>(
                text_view(text),
            ),
            Err(e) => text_at(columns(row@), at, optional) == Err::<Option<Seq<char>>, RowError>(e),
        },
{
    if at >= row.len() {
        return Err(RowError::InvalidColumnIndex(at));
    }
    match &row[at] {
        Column::Text(s) => Ok(Some(s.clone())),
        Column::Null => {
            if optional {
                Ok(None)
            } else {
                Err(RowError::InvalidColumnType(at))
            }
        },
        _ => Err(RowError::InvalidColumnType(at)),
    }
}

impl Cat {
    /// The cat that a row stands for: [`row_cat`] of its columns.
    pub fn from_row(row: &[Column]) -> (r: Result<Cat, RowError>)
        ensures
            cat_result(r) == row_cat(columns(row@)),
    {
        let id = match read_integer(row, 0, u64::MAX) {
            Ok(id) => id,
            Err(e) => { return Err(e); },
        };
        let name = match read_text(row, 1, false) {
            Ok(Some(name)) => name,
            Ok(None) => { return Err(RowError::InvalidColumnType(1)); },
            Err(e) => { return Err(e); },
        };
        let age = match read_integer(row, 2, 0xffff_ffff) {
            Ok(age) => age as u32,
            Err(e) => { return Err(e); },
        };
        let breed = match read_text(row, 3, true) {
            Ok(breed) => breed,
            Err(e) => { return Err(e); },
        };
        Ok(Cat { id, name, age, breed })
    }
}

} // verus!
