//! Which cats a search asks for.
//!
//! The store decides which rows it returns. What is written here is the
//! meaning that the statement of a search is built to have, so that it can be
//! stated, reasoned about, and held against what the store gives back. Where
//! a search is not fuzzy the store also reads `%` and `_` inside a pattern as
//! wildcards, and so may return more cats than a pattern with such a
//! character asks for here.

use crate::args::{Age, BreedFilter, BreedFilterView, CmdFind, CmdFindView};
use crate::cmds::{find_params, find_text, Cat, CatView, ParamView};
use crate::text::chars_of;
use vstd::prelude::*;

verus! {

/// The code of a character, with the capital letters `A` to `Z` counted as
/// their small forms. No other character is changed.
pub open spec fn folded(c: char) -> int {
    if 'A' <= c <= 'Z' {
        c as int + 32
    } else {
        c as int
    }
}

/// Whether two texts are equal but for the case of the letters `A` to `Z`.
pub open spec fn same_text(a: Seq<char>, b: Seq<char>) -> bool {
    &&& a.len() == b.len()
    &&& forall|i: int| 0 <= i < a.len() ==> folded(a[i]) == folded(b[i])
}

/// Whether `pattern` stands in `text` at place `at`, letter case aside.
pub open spec fn occurs_at(text: Seq<char>, pattern: Seq<char>, at: int) -> bool {
    &&& 0 <= at
    &&& at + pattern.len() <= text.len()
    &&& same_text(text.subrange(at, at + pattern.len()), pattern)
}

/// Whether `pattern` stands somewhere in `text`, letter case aside.
pub open spec fn contains_text(text: Seq<char>, pattern: Seq<char>) -> bool {
    exists|at: int| occurs_at(text, pattern, at)
}

/// Whether a text fits a pattern: in a fuzzy search by being equal to it, else
/// by containing it; letter case aside in both.
pub open spec fn fits(text: Seq<char>, pattern: Seq<char>, fuzzy: bool) -> bool {
    if fuzzy {
        same_text(text, pattern)
    } else {
        contains_text(text, pattern)
    }
}

/// Whether a text fits one of the patterns.
pub open spec fn fits_any(text: Seq<char>, patterns: Seq<Seq<char>>, fuzzy: bool) -> bool {
    exists|i: int| 0 <= i < patterns.len() && fits(text, #[trigger] patterns[i], fuzzy)
}

impl Age {
    /// Whether the term asks for this age.
    pub open spec fn admits(self, age: u32) -> bool {
        match self {
            Age::Concrete(n) => age == n,
            Age::Range(lower, upper) => lower <= age <= upper,
        }
    }

    /// Whether the term asks for this age.
    pub fn matches(&self, age: u32) -> (b: bool)
        ensures
            b == self.admits(age),
    {
        match *self {
            Age::Concrete(n) => age == n,
            Age::Range(lower, upper) => lower <= age && age <= upper,
        }
    }
}

/// Whether one of the terms asks for this age.
pub open spec fn admits_any(terms: Seq<Age>, age: u32) -> bool {
    exists|i: int| 0 <= i < terms.len() && (#[trigger] terms[i]).admits(age)
}

impl CmdFindView {
    /// Whether the search asks for this cat: it has to pass the test of every
    /// field that is set. A cat without a breed fits no pattern for the breed.
    pub open spec fn matches(self, cat: CatView) -> bool {
        &&& self.name matches Some(names) ==> fits_any(cat.name, names, self.fuzzy)
        &&& self.age matches Some(terms) ==> admits_any(terms, cat.age)
        &&& match self.breed {
            BreedFilterView::NoFilter => true,
            BreedFilterView::Patterns(breeds) => cat.breed matches Some(breed) && fits_any(
                breed,
                breeds,
                self.fuzzy,
            ),
            BreedFilterView::Absent => cat.breed is None,
        }
    }
}

/// The code of a character, with the capital letters `A` to `Z` counted as
/// their small forms.
fn fold(c: char) -> (code: u32)
    ensures
        code == folded(c),
{
    let code = c as u32;
    if 'A' <= c && c <= 'Z' {
        code + 32
    } else {
        code
    }
}

/// Whether `pattern` stands in `text` at place `at`, letter case aside.
fn stands_at(text: &Vec<char>, pattern: &Vec<char>, at: usize) -> (b: bool)
    requires
        at + pattern@.len() <= text@.len(),
    ensures
        b == occurs_at(text@, pattern@, at as int),
{
    let n = pattern.len();
    let total = text.len();
    let ghost part = text@.subrange(at as int, at + n);
    let mut i: usize = 0;
    while i < n
        invariant
            i <= n,
            n == pattern@.len(),
            total == text@.len(),
            at + n <= total,
            part == text@.subrange(at as int, at + n),
            forall|k: int| 0 <= k < i ==> folded(part[k]) == folded(pattern@[k]),
        decreases n - i,
    {
        if fold(text[at + i]) != fold(pattern[i]) {
            return false;
        }
        i += 1;
    }
    true
}

/// Whether a text fits a pattern.
fn text_fits(text: &Vec<char>, pattern: &Vec<char>, fuzzy: bool) -> (b: bool)
    ensures
        b == fits(text@, pattern@, fuzzy),
{
    let n = text.len();
    let m = pattern.len();
    if fuzzy {
        if n != m {
            return false;
        }
        return stands_at(text, pattern, 0);
    }
    if m > n {
        return false;
    }
    let mut at: usize = 0;
    while at <= n - m
        invariant
            !fuzzy,
            m <= n,
            n == text@.len(),
            m == pattern@.len(),
            at <= n - m + 1,
            forall|k: int| 0 <= k < at ==> !occurs_at(text@, pattern@, k),
        decreases n - m + 1 - at,
    {
        if stands_at(text, pattern, at) {
            return true;
        }
        at += 1;
    }
    false
}

/// Whether a text fits one of the patterns.
fn fits_one(text: &str, patterns: &Vec<String>, fuzzy: bool) -> (b: bool)
    ensures
        b == fits_any(text@, patterns.deep_view(), fuzzy),
{
    let chars = chars_of(text);
    let ghost all = patterns.deep_view();
    let n = patterns.len();
    let mut i: usize = 0;
    while i < n
        invariant
            i <= n,
            n == patterns@.len(),
            all == patterns.deep_view(),
            chars@ == text@,
            forall|k: int| 0 <= k < i ==> !fits(text@, #[trigger] all[k], fuzzy),
        decreases n - i,
    {
        let pattern = chars_of(patterns[i].as_str());
        assert(pattern@ == all[i as int]);
        if text_fits(&chars, &pattern, fuzzy) {
            return true;
        }
        i += 1;
    }
    false
}

/// Whether one of the terms asks for this age.
fn admits_one(terms: &Vec<Age>, age: u32) -> (b: bool)
    ensures
        b == admits_any(terms@, age),
{
    let n = terms.len();
    let mut i: usize = 0;
    while i < n
        invariant
            i <= n,
            n == terms@.len(),
            forall|k: int| 0 <= k < i ==> !(#[trigger] terms@[k]).admits(age),
        decreases n - i,
    {
        if terms[i].matches(age) {
            return true;
        }
        i += 1;
    }
    false
}

impl CmdFind {
    /// Whether the search asks for this cat.
    pub fn matches(&self, cat: &Cat) -> (b: bool)
        ensures
            b == self@.matches(cat@),
    {
        if let Some(names) = &self.name {
            if !fits_one(cat.name.as_str(), names, self.fuzzy) {
                return false;
            }
        }
        if let Some(terms) = &self.age {
            if !admits_one(terms, cat.age) {
                return false;
            }
        }
        match &self.breed {
            BreedFilter::NoFilter => true,
            BreedFilter::Patterns(breeds) => match &cat.breed {
                Some(breed) => fits_one(breed.as_str(), breeds, self.fuzzy),
                None => false,
            },
            BreedFilter::Absent => cat.breed.is_none(),
        }
    }
}

/// The search that asks for nothing but one pattern for the name.
pub open spec fn name_search(pattern: Seq<char>, fuzzy: bool) -> CmdFindView {
    CmdFindView {
        name: Some(seq![pattern]),
        age: None,
        breed: BreedFilterView::NoFilter,
        fuzzy,
    }
}

/// The search that asks for nothing but one term for the age.
pub open spec fn age_search(term: Age, fuzzy: bool) -> CmdFindView {
    CmdFindView { name: None, age: Some(seq![term]), breed: BreedFilterView::NoFilter, fuzzy }
}

/// A search with no field set asks for every cat: its statement has no test
/// and binds no value.
pub proof fn lemma_search_without_fields_finds_all(cmd: CmdFindView, cat: CatView)
    requires
        cmd.name is None,
        cmd.age is None,
        cmd.breed is NoFilter,
    ensures
        cmd.matches(cat),
        find_text(cmd) == "SELECT * FROM cats"@,
        find_params(cmd) == Seq::<ParamView>::empty(),
{
}

/// A field that is set with no term asks for no cat, whatever the other
/// fields hold.
pub proof fn lemma_field_without_terms_finds_nothing(cmd: CmdFindView, cat: CatView)
    requires
        (cmd.name matches Some(names) && names.len() == 0) || (cmd.age matches Some(terms)
            && terms.len() == 0) || (cmd.breed matches BreedFilterView::Patterns(breeds)
            && breeds.len() == 0),
    ensures
        !cmd.matches(cat),
{
}

/// A search that is not fuzzy and has one pattern for the name asks for
/// every cat whose name holds the pattern at some place, whatever the case of
/// the letters in either.
pub proof fn lemma_part_of_name_is_found(cat: CatView, pattern: Seq<char>, at: int)
    requires
        occurs_at(cat.name, pattern, at),
    ensures
        name_search(pattern, false).matches(cat),
{
    let names = seq![pattern];
    assert(fits(cat.name, names[0], false));
}

/// A fuzzy search with one pattern for the name asks for the cats whose whole
/// name is the pattern, letter case aside, and for no other.
pub proof fn lemma_fuzzy_name_is_whole_name(cat: CatView, pattern: Seq<char>)
    ensures
        name_search(pattern, true).matches(cat) <==> same_text(cat.name, pattern),
{
    let names = seq![pattern];
    if same_text(cat.name, pattern) {
        assert(fits(cat.name, names[0], true));
    }
}

/// A range whose lower bound is above its upper bound asks for no age, and a
/// search with this term alone for no cat.
pub proof fn lemma_reversed_range_finds_nothing(
    lower: u32,
    upper: u32,
    age: u32,
    cat: CatView,
    fuzzy: bool,
)
    requires
        lower > upper,
    ensures
        !Age::Range(lower, upper).admits(age),
        !age_search(Age::Range(lower, upper), fuzzy).matches(cat),
{
}

/// A concrete age asks for that age and no other, and a search with this
/// term alone for the cats of that age.
pub proof fn lemma_concrete_age_is_exact(n: u32, age: u32, cat: CatView, fuzzy: bool)
    ensures
        Age::Concrete(n).admits(age) <==> age == n,
        age_search(Age::Concrete(n), fuzzy).matches(cat) <==> cat.age == n,
{
    let terms = seq![Age::Concrete(n)];
    if cat.age == n {
        assert(terms[0].admits(cat.age));
    }
}

} // verus!
