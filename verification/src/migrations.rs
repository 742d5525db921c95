//! The statements that prepare the store.

use crate::cmds::{ParamView, Statement};
use vstd::prelude::*;
use vstd::string::StringExecFns;

verus! {

/// The text that makes the table of the cats where the store has none yet.
pub open spec fn migration1_text() -> Seq<char> {
    "CREATE TABLE IF NOT EXISTS cats (
    id INTEGER NOT NULL PRIMARY KEY ASC,
    name TEXT NOT NULL,
    age INTEGER NOT NULL,
    breed TEXT)"@
}

/// The statement that makes the table of the cats where the store has none
/// yet. It binds no value, and it can be run any number of times.
pub fn migration1() -> (stmt: Statement)
    ensures
        stmt@.text == migration1_text(),
        stmt@.params == Seq::<ParamView>::empty(),
{
    let params = Vec::new();
    Statement {
        text: String::from_str(
            "CREATE TABLE IF NOT EXISTS cats (
    id INTEGER NOT NULL PRIMARY KEY ASC,
    name TEXT NOT NULL,
    age INTEGER NOT NULL,
    breed TEXT)",
        ),
        params,
    }
}

} // verus!
