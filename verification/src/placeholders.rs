//! Every statement has as many placeholders as it binds values.

use crate::args::{Age, BreedFilterView, CmdFindView, CmdUpdateView, CmdView};
use crate::cmds::{
    age_clause, age_params, age_test, age_tests, any_of, find_clauses, find_params, find_text,
    get_params, get_text, repeated, text_clause, update_assignments, update_params, update_text,
};
use crate::text::{
    count, count_all, joined, lemma_count_add, lemma_count_all_add, lemma_count_all_one,
    lemma_count_all_same, lemma_count_joined, lemma_count_places,
};
use vstd::prelude::*;

verus! {

/// How many placeholders a text has.
pub open spec fn placeholders(text: Seq<char>) -> nat {
    count(text, '?')
}

/// The placeholders in the pieces that lists of tests are made of.
proof fn lemma_marks_of_lists()
    ensures
        count("?"@, '?') == 1,
        count(", "@, '?') == 0,
        count("("@, '?') == 0,
        count(")"@, '?') == 0,
        count(" OR "@, '?') == 0,
        count(" AND "@, '?') == 0,
{
    reveal_strlit("?");
    let places = seq![0int];
    assert(places[0] == 0);
    lemma_count_places("?"@, '?', places);
    reveal_strlit(", ");
    lemma_count_places(", "@, '?', Seq::<int>::empty());
    reveal_strlit("(");
    lemma_count_places("("@, '?', Seq::<int>::empty());
    reveal_strlit(")");
    lemma_count_places(")"@, '?', Seq::<int>::empty());
    reveal_strlit(" OR ");
    lemma_count_places(" OR "@, '?', Seq::<int>::empty());
    reveal_strlit(" AND ");
    lemma_count_places(" AND "@, '?', Seq::<int>::empty());
}

/// The placeholders in the tests of a text column.
proof fn lemma_marks_of_text_tests()
    ensures
        count("name LIKE ?"@, '?') == 1,
        count("breed LIKE ?"@, '?') == 1,
        count("name COLLATE NOCASE IN ("@, '?') == 0,
        count("breed COLLATE NOCASE IN ("@, '?') == 0,
        count("breed ISNULL"@, '?') == 0,
{
    reveal_strlit("name LIKE ?");
    let places = seq![10int];
    assert(places[0] == 10);
    lemma_count_places("name LIKE ?"@, '?', places);
    reveal_strlit("breed LIKE ?");
    let places = seq![11int];
    assert(places[0] == 11);
    lemma_count_places("breed LIKE ?"@, '?', places);
    reveal_strlit("name COLLATE NOCASE IN (");
    lemma_count_places("name COLLATE NOCASE IN ("@, '?', Seq::<int>::empty());
    reveal_strlit("breed COLLATE NOCASE IN (");
    lemma_count_places("breed COLLATE NOCASE IN ("@, '?', Seq::<int>::empty());
    reveal_strlit("breed ISNULL");
    lemma_count_places("breed ISNULL"@, '?', Seq::<int>::empty());
}

/// The placeholders in the tests of the age.
proof fn lemma_marks_of_age_tests()
    ensures
        count("age = ?"@, '?') == 1,
        count("age BETWEEN ? AND ?"@, '?') == 2,
{
    reveal_strlit("age = ?");
    let places = seq![6int];
    assert(places[0] == 6);
    lemma_count_places("age = ?"@, '?', places);
    reveal_strlit("age BETWEEN ? AND ?");
    let places = seq![12int, 18int];
    lemma_count_places("age BETWEEN ? AND ?"@, '?', places);
}

/// The placeholders in the pieces of a statement that reads.
proof fn lemma_marks_of_reads()
    ensures
        count("SELECT * FROM cats"@, '?') == 0,
        count("SELECT * FROM cats WHERE "@, '?') == 0,
        count("id = ?"@, '?') == 1,
{
    reveal_strlit("SELECT * FROM cats");
    lemma_count_places("SELECT * FROM cats"@, '?', Seq::<int>::empty());
    reveal_strlit("SELECT * FROM cats WHERE ");
    lemma_count_places("SELECT * FROM cats WHERE "@, '?', Seq::<int>::empty());
    reveal_strlit("id = ?");
    let places = seq![5int];
    assert(places[0] == 5);
    lemma_count_places("id = ?"@, '?', places);
}

/// The placeholders in the pieces of a statement that writes.
proof fn lemma_marks_of_writes()
    ensures
        count("UPDATE cats SET "@, '?') == 0,
        count("name = ?"@, '?') == 1,
        count("breed = ?"@, '?') == 1,
        count(" WHERE id = ? RETURNING *"@, '?') == 1,
        count("DELETE FROM cats WHERE id = ? RETURNING *"@, '?') == 1,
{
    reveal_strlit("UPDATE cats SET ");
    lemma_count_places("UPDATE cats SET "@, '?', Seq::<int>::empty());
    reveal_strlit("name = ?");
    let places = seq![7int];
    assert(places[0] == 7);
    lemma_count_places("name = ?"@, '?', places);
    reveal_strlit("breed = ?");
    let places = seq![8int];
    assert(places[0] == 8);
    lemma_count_places("breed = ?"@, '?', places);
    reveal_strlit(" WHERE id = ? RETURNING *");
    let places = seq![12int];
    assert(places[0] == 12);
    lemma_count_places(" WHERE id = ? RETURNING *"@, '?', places);
    reveal_strlit("DELETE FROM cats WHERE id = ? RETURNING *");
    let places = seq![28int];
    assert(places[0] == 28);
    lemma_count_places("DELETE FROM cats WHERE id = ? RETURNING *"@, '?', places);
}

/// The placeholders in the statement that adds a cat.
proof fn lemma_marks_of_add()
    ensures
        count("INSERT INTO cats (name, age, breed) VALUES (?, ?, ?) RETURNING *"@, '?') == 3,
{
    reveal_strlit("INSERT INTO cats (name, age, breed) VALUES (?, ?, ?) RETURNING *");
    let places = seq![44int, 47int, 50int];
    lemma_count_places("INSERT INTO cats (name, age, breed) VALUES (?, ?, ?) RETURNING *"@, '?', places);
}

/// A choice of tests has the placeholders of its tests.
proof fn lemma_marks_of_any(tests: Seq<Seq<char>>)
    ensures
        count(any_of(tests), '?') == count_all(tests, '?'),
{
    lemma_marks_of_lists();
    if tests.len() == 0 {
        reveal_strlit("0");
        lemma_count_places("0"@, '?', Seq::<int>::empty());
    } else {
        lemma_count_joined(tests, " OR "@, '?');
    }
}

/// The test of a text column has one placeholder for each pattern.
proof fn lemma_marks_of_text_clause(like: Seq<char>, member: Seq<char>, n: nat, fuzzy: bool)
    requires
        count(like, '?') == 1,
        count(member, '?') == 0,
    ensures
        placeholders(text_clause(like, member, n, fuzzy)) == n,
{
    lemma_marks_of_lists();
    if fuzzy {
        let marks = repeated("?"@, n);
        lemma_count_joined(marks, ", "@, '?');
        lemma_count_all_same(marks, '?', 1);
        lemma_count_add(member + joined(marks, ", "@), ")"@, '?');
        lemma_count_add(member, joined(marks, ", "@), '?');
    } else {
        let tests = repeated(like, n);
        lemma_marks_of_any(tests);
        lemma_count_all_same(tests, '?', 1);
        lemma_count_add("("@ + any_of(tests), ")"@, '?');
        lemma_count_add("("@, any_of(tests), '?');
    }
}

/// The tests of the age have one placeholder for each value that the terms
/// bind.
proof fn lemma_marks_of_age_terms(terms: Seq<Age>)
    ensures
        count_all(age_tests(terms), '?') == age_params(terms).len(),
    decreases terms.len(),
{
    if terms.len() > 0 {
        lemma_marks_of_age_tests();
        lemma_marks_of_age_terms(terms.drop_last());
        assert(age_tests(terms).drop_last() =~= age_tests(terms.drop_last()));
    }
}

/// The test of the age has one placeholder for each value that the terms
/// bind.
proof fn lemma_marks_of_age_clause(terms: Seq<Age>)
    ensures
        placeholders(age_clause(terms)) == age_params(terms).len(),
{
    lemma_marks_of_lists();
    lemma_marks_of_age_terms(terms);
    let tests = age_tests(terms);
    lemma_marks_of_any(tests);
    lemma_count_add("("@ + any_of(tests), ")"@, '?');
    lemma_count_add("("@, any_of(tests), '?');
}

/// The text of a search has as many placeholders as the search binds
/// values.
pub proof fn lemma_find_binds_each_placeholder(cmd: CmdFindView)
    ensures
        placeholders(find_text(cmd)) == find_params(cmd).len(),
{
    lemma_marks_of_lists();
    lemma_marks_of_text_tests();
    lemma_marks_of_reads();
    let name = match cmd.name {
        Some(names) => seq![
            text_clause("name LIKE ?"@, "name COLLATE NOCASE IN ("@, names.len(), cmd.fuzzy),
        ],
        None => Seq::empty(),
    };
    let age = match cmd.age {
        Some(terms) => seq![age_clause(terms)],
        None => Seq::empty(),
    };
    let breed = match cmd.breed {
        BreedFilterView::NoFilter => Seq::empty(),
        BreedFilterView::Patterns(breeds) => seq![
            text_clause("breed LIKE ?"@, "breed COLLATE NOCASE IN ("@, breeds.len(), cmd.fuzzy),
        ],
        BreedFilterView::Absent => seq!["breed ISNULL"@],
    };
    if let Some(names) = cmd.name {
        lemma_marks_of_text_clause(
            "name LIKE ?"@,
            "name COLLATE NOCASE IN ("@,
            names.len(),
            cmd.fuzzy,
        );
        lemma_count_all_one(name[0], '?');
    }
    if let Some(terms) = cmd.age {
        lemma_marks_of_age_clause(terms);
        lemma_count_all_one(age[0], '?');
    }
    match cmd.breed {
        BreedFilterView::NoFilter => {},
        BreedFilterView::Patterns(breeds) => {
            lemma_marks_of_text_clause(
                "breed LIKE ?"@,
                "breed COLLATE NOCASE IN ("@,
                breeds.len(),
                cmd.fuzzy,
            );
            lemma_count_all_one(breed[0], '?');
        },
        BreedFilterView::Absent => {
            lemma_count_all_one(breed[0], '?');
        },
    }
    lemma_count_all_add(name + age, breed, '?');
    lemma_count_all_add(name, age, '?');
    let clauses = find_clauses(cmd);
    if clauses.len() > 0 {
        lemma_count_joined(clauses, " AND "@, '?');
        lemma_count_add("SELECT * FROM cats WHERE "@, joined(clauses, " AND "@), '?');
    }
}

/// The text that reads cats by their ids has one placeholder for each id.
pub proof fn lemma_get_binds_each_placeholder(ids: Seq<u64>)
    ensures
        placeholders(get_text(ids.len())) == get_params(ids).len(),
{
    lemma_marks_of_lists();
    lemma_marks_of_reads();
    let tests = repeated("id = ?"@, ids.len());
    lemma_marks_of_any(tests);
    lemma_count_all_same(tests, '?', 1);
    lemma_count_add("SELECT * FROM cats WHERE "@, any_of(tests), '?');
}

/// The text of an update has as many placeholders as the update binds
/// values.
pub proof fn lemma_update_binds_each_placeholder(cmd: CmdUpdateView)
    ensures
        placeholders(update_text(cmd)) == update_params(cmd).len(),
{
    lemma_marks_of_lists();
    lemma_marks_of_writes();
    lemma_marks_of_age_tests();
    let assignments = update_assignments(cmd);
    if assignments.len() == 0 {
        lemma_get_binds_each_placeholder(seq![cmd.id]);
    } else {
        lemma_count_all_same(assignments, '?', 1);
        lemma_count_joined(assignments, ", "@, '?');
        let list = joined(assignments, ", "@);
        lemma_count_add("UPDATE cats SET "@ + list, " WHERE id = ? RETURNING *"@, '?');
        lemma_count_add("UPDATE cats SET "@, list, '?');
    }
}

/// The text of every command has as many placeholders as the command binds
/// values.
pub proof fn lemma_statement_binds_each_placeholder(cmd: CmdView)
    ensures
        placeholders(cmd.statement().text) == cmd.statement().params.len(),
{
    match cmd {
        CmdView::Add { cmd } => {
            lemma_marks_of_add();
        },
        CmdView::Find { cmd } => {
            lemma_find_binds_each_placeholder(cmd);
        },
        CmdView::Get { id } => {
            lemma_get_binds_each_placeholder(id);
        },
        CmdView::Update { cmd } => {
            lemma_update_binds_each_placeholder(cmd);
        },
        CmdView::Delete { id } => {
            lemma_marks_of_writes();
        },
    }
}

} // verus!
