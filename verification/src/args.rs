//! What a caller asks of the registry: the commands and their fields.

use crate::text::{chars_of, decimal};
use vstd::prelude::*;
use vstd::string::StringExecFns;

verus! {

/// One term of an age filter.
#[derive(Debug, Clone, Copy, PartialEq, Eq, Structural)]
pub enum Age {
    /// Every age from the first bound to the second, both included. With the
    /// first above the second no age is in it.
    Range(u32, u32),
    /// This age and no other.
    Concrete(u32),
}

/// What a search asks of a cat's breed.
#[derive(Debug, Clone, PartialEq, Eq)]
pub enum BreedFilter {
    /// Nothing: any breed, or none, will do.
    NoFilter,
    /// The breed is set and fits one of the patterns.
    Patterns(Vec<String>),
    /// The breed is not set.
    Absent,
}

/// The mathematical value of a [`BreedFilter`].
pub enum BreedFilterView {
    NoFilter,
    Patterns(Seq<Seq<char>>),
    Absent,
}

impl View for BreedFilter {
    type V = BreedFilterView;

    open spec fn view(&self) -> BreedFilterView {
        match *self {
            BreedFilter::NoFilter => BreedFilterView::NoFilter,
            BreedFilter::Patterns(patterns) => BreedFilterView::Patterns(patterns.deep_view()),
            BreedFilter::Absent => BreedFilterView::Absent,
        }
    }
}

/// A new cat: the name and the age are required, the breed is not.
#[derive(Debug, Clone, PartialEq, Eq)]
pub struct CmdAdd {
    pub name: String,
    pub age: u32,
    pub breed: Option<String>,
}

/// The mathematical value of a [`CmdAdd`].
pub struct CmdAddView {
    pub name: Seq<char>,
    pub age: u32,
    pub breed: Option<Seq<char>>,
}

impl View for CmdAdd {
    type V = CmdAddView;

    open spec fn view(&self) -> CmdAddView {
        CmdAddView { name: self.name@, age: self.age, breed: text_view(self.breed) }
    }
}

/// A search. Each field that is set narrows it; within a field any one of
/// the terms is enough.
#[derive(Debug, Clone, PartialEq, Eq)]
pub struct CmdFind {
    /// Patterns for the name.
    pub name: Option<Vec<String>>,
    /// Terms for the age.
    pub age: Option<Vec<Age>>,
    /// What is asked of the breed.
    pub breed: BreedFilter,
    /// Whether a pattern must equal the whole text, letter case aside. When
    /// not set it is enough that the text contains the pattern, letter case
    /// aside.
    pub fuzzy: bool,
}

/// The mathematical value of a [`CmdFind`].
pub struct CmdFindView {
    pub name: Option<Seq<Seq<char>>>,
    pub age: Option<Seq<Age>>,
    pub breed: BreedFilterView,
    pub fuzzy: bool,
}

impl View for CmdFind {
    type V = CmdFindView;

    open spec fn view(&self) -> CmdFindView {
        CmdFindView {
            name: match self.name {
                Some(names) => Some(names.deep_view()),
                None => None,
            },
            age: match self.age {
                Some(ages) => Some(ages@),
                None => None,
            },
            breed: self.breed@,
            fuzzy: self.fuzzy,
        }
    }
}

/// New values for the cat with the given id. A field that is not set is left
/// as it is.
#[derive(Debug, Clone, PartialEq, Eq)]
pub struct CmdUpdate {
    pub id: u64,
    pub name: Option<String>,
    pub age: Option<u32>,
    pub breed: Option<String>,
}

/// The mathematical value of a [`CmdUpdate`].
pub struct CmdUpdateView {
    pub id: u64,
    pub name: Option<Seq<char>>,
    pub age: Option<u32>,
    pub breed: Option<Seq<char>>,
}

impl View for CmdUpdate {
    type V = CmdUpdateView;

    open spec fn view(&self) -> CmdUpdateView {
        CmdUpdateView {
            id: self.id,
            name: text_view(self.name),
            age: self.age,
            breed: text_view(self.breed),
        }
    }
}

/// What an optional text holds.
pub open spec fn text_view(text: Option<String>) -> Option<Seq<char>> {
    match text {
        Some(s) => Some(s@),
        None => None,
    }
}

/// Why the fields of a search were refused.
#[derive(Debug, Clone, Copy, PartialEq, Eq, Structural)]
pub enum ParseError {
    /// A number was expected where the text has nothing.
    Empty,
    /// A number holds a character that is no digit, or no digit at all.
    InvalidDigit,
    /// A number is above the largest age that can be stored.
    TooLarge,
    /// Patterns for the breed were given together with the wish for cats
    /// without a breed.
    Conflict,
}

impl ParseError {
    /// The error in words, as one line.
    pub fn message(&self) -> (line: String)
        ensures
            line@ == match *self {
                ParseError::Empty => "cannot parse integer from empty string"@,
                ParseError::InvalidDigit => "invalid digit found in string"@,
                ParseError::TooLarge => "number too large to fit in target type"@,
                ParseError::Conflict => "a breed cannot be given together with no breed"@,
            },
    {
        match self {
            ParseError::Empty => String::from_str("cannot parse integer from empty string"),
            ParseError::InvalidDigit => String::from_str("invalid digit found in string"),
            ParseError::TooLarge => String::from_str("number too large to fit in target type"),
            ParseError::Conflict => String::from_str(
                "a breed cannot be given together with no breed",
            ),
        }
    }
}

/// Whether `c` is one of the digits `0` to `9`.
pub open spec fn is_digit(c: char) -> bool {
    '0' <= c <= '9'
}

/// The value of a digit; 0 for any other character.
pub open spec fn digit_value(c: char) -> nat {
    if is_digit(c) {
        (c as int - '0' as int) as nat
    } else {
        0
    }
}

/// The number that a run of digits writes in base ten, the most significant
/// digit first.
pub open spec fn number(digits: Seq<char>) -> nat
    decreases digits.len(),
{
    if digits.len() == 0 {
        0
    } else {
        number(digits.drop_last()) * 10 + digit_value(digits.last())
    }
}

/// How many digits stand at the start of `s` before anything else.
pub open spec fn leading_digits(s: Seq<char>) -> nat
    decreases s.len(),
{
    if s.len() == 0 || !is_digit(s[0]) {
        0
    } else {
        1 + leading_digits(s.skip(1))
    }
}

/// The place of the first `-` in `s`; the length of `s` where it has none.
pub open spec fn first_dash(s: Seq<char>) -> nat
    decreases s.len(),
{
    if s.len() == 0 || s[0] == '-' {
        0
    } else {
        1 + first_dash(s.skip(1))
    }
}

/// The number that a text writes: one or more digits, which a single `+`
/// may precede, with a value of at most `u32::MAX`.
///
/// The text is read from the left, and what fails first decides the error:
/// digits that lead beyond the range before any other character is reached
/// are [`ParseError::TooLarge`]; else a character that is no digit, or a
/// sign with nothing behind it, is [`ParseError::InvalidDigit`].
pub open spec fn parse_number(s: Seq<char>) -> Result<u32, ParseError> {
    if s.len() == 0 {
        Err(ParseError::Empty)
    } else {
        let body = if s[0] == '+' {
            s.skip(1)
        } else {
            s
        };
        let run = leading_digits(body);
        if body.len() == 0 {
            Err(ParseError::InvalidDigit)
        } else if number(body.take(run as int)) > u32::MAX {
            Err(ParseError::TooLarge)
        } else if run < body.len() {
            Err(ParseError::InvalidDigit)
        } else {
            Ok(number(body) as u32)
        }
    }
}

/// The age term that a text writes: a number, or two numbers with a `-`
/// between them, of which the text is split at its first `-`. Of a range the
/// lower bound is read first, and no order of the bounds is asked for.
pub open spec fn parse_age(s: Seq<char>) -> Result<Age, ParseError> {
    let dash = first_dash(s);
    if dash == s.len() {
        match parse_number(s) {
            Ok(age) => Ok(Age::Concrete(age)),
            Err(e) => Err(e),
        }
    } else {
        match parse_number(s.take(dash as int)) {
            Err(e) => Err(e),
            Ok(lower) => match parse_number(s.skip(dash as int + 1)) {
                Err(e) => Err(e),
                Ok(upper) => Ok(Age::Range(lower, upper)),
            },
        }
    }
}

/// Where only digits stand before place `n`, and none at it, `n` digits lead.
proof fn lemma_leading_digits(s: Seq<char>, n: nat)
    requires
        n <= s.len(),
        forall|k: int| 0 <= k < n ==> is_digit(s[k]),
        n == s.len() || !is_digit(s[n as int]),
    ensures
        leading_digits(s) == n,
    decreases n,
{
    if n > 0 {
        lemma_leading_digits(s.skip(1), (n - 1) as nat);
    }
}

/// Where no `-` stands before place `n`, and one at it or nothing, the first
/// `-` is at `n`.
proof fn lemma_first_dash(s: Seq<char>, n: nat)
    requires
        n <= s.len(),
        forall|k: int| 0 <= k < n ==> s[k] != '-',
        n == s.len() || s[n as int] == '-',
    ensures
        first_dash(s) == n,
    decreases n,
{
    if n > 0 {
        lemma_first_dash(s.skip(1), (n - 1) as nat);
    }
}

/// A longer start of a text writes no smaller number.
proof fn lemma_number_grows(s: Seq<char>, j: int, k: int)
    requires
        0 <= j <= k <= s.len(),
    ensures
        number(s.take(j)) <= number(s.take(k)),
    decreases k - j,
{
    if j < k {
        lemma_number_grows(s, j, k - 1);
        assert(s.take(k).drop_last() =~= s.take(k - 1));
    }
}

/// The number that the characters from `from` up to `to` write.
fn read_number(chars: &Vec<char>, from: usize, to: usize) -> (r: Result<u32, ParseError>)
    requires
        from <= to <= chars@.len(),
    ensures
        r == parse_number(chars@.subrange(from as int, to as int)),
{
    let ghost s = chars@.subrange(from as int, to as int);
    if from == to {
        return Err(ParseError::Empty);
    }
    let start = if chars[from] == '+' {
        from + 1
    } else {
        from
    };
    let ghost body = chars@.subrange(start as int, to as int);
    if start == to {
        return Err(ParseError::InvalidDigit);
    }
    let mut value: u32 = 0;
    let mut i = start;
    while i < to
        invariant
            from <= start <= i <= to <= chars@.len(),
            start < to,
            s == chars@.subrange(from as int, to as int),
            body == chars@.subrange(start as int, to as int),
            body == if s[0] == '+' {
                s.skip(1)
            } else {
                s
            },
            forall|k: int| 0 <= k < i - start ==> is_digit(body[k]),
            value == number(body.take(i - start)),
        decreases to - i,
    {
        let c = chars[i];
        if !('0' <= c && c <= '9') {
            proof {
                lemma_leading_digits(body, (i - start) as nat);
            }
            return Err(ParseError::InvalidDigit);
        }
        let digit = c as u32 - '0' as u32;
        assert(body.take(i - start + 1).drop_last() =~= body.take(i - start));
        let next = value as u64 * 10 + digit as u64;
        if next > 0xffff_ffff {
            proof {
                lemma_run_at_least(body, (i - start + 1) as nat);
                lemma_number_grows(body, i - start + 1, leading_digits(body) as int);
            }
            return Err(ParseError::TooLarge);
        }
        value = next as u32;
        i += 1;
    }
    proof {
        lemma_leading_digits(body, body.len());
        assert(body.take(body.len() as int) =~= body);
    }
    Ok(value)
}

/// Where only digits stand before place `n`, at least `n` digits lead.
proof fn lemma_run_at_least(s: Seq<char>, n: nat)
    requires
        n <= s.len(),
        forall|k: int| 0 <= k < n ==> is_digit(s[k]),
    ensures
        n <= leading_digits(s) <= s.len(),
    decreases s.len(),
{
    if s.len() > 0 && is_digit(s[0]) {
        if n > 0 {
            lemma_run_at_least(s.skip(1), (n - 1) as nat);
        } else {
            lemma_run_at_least(s.skip(1), 0);
        }
    }
}

/// What stands in a text behind its sign, if it has one.
pub open spec fn unsigned(s: Seq<char>) -> Seq<char> {
    if s.len() > 0 && s[0] == '+' {
        s.skip(1)
    } else {
        s
    }
}

/// Whether a text holds digits only.
pub open spec fn all_digits(s: Seq<char>) -> bool {
    forall|i: int| 0 <= i < s.len() ==> is_digit(s[i])
}

/// A text writes a number where, and only where, it holds one or more
/// digits behind at most one `+`, and nothing else, and their value is in the
/// range. It then writes that value.
pub proof fn lemma_parse_number_succeeds(s: Seq<char>)
    ensures
        parse_number(s) is Ok <==> unsigned(s).len() > 0 && all_digits(unsigned(s)) && number(
            unsigned(s),
        ) <= u32::MAX,
        parse_number(s) matches Ok(n) ==> n == number(unsigned(s)),
{
    let body = unsigned(s);
    if s.len() > 0 && body.len() > 0 {
        let run = leading_digits(body);
        lemma_run_at_least(body, 0);
        if all_digits(body) {
            lemma_leading_digits(body, body.len());
        } else {
            let bad = choose|i: int| 0 <= i < body.len() && !is_digit(body[i]);
            if run == body.len() {
                lemma_leading_run_is_digits(body, bad);
            }
        }
        if run == body.len() {
            assert(body.take(run as int) =~= body);
        }
    }
}

/// Each of the digits that lead is a digit.
proof fn lemma_leading_run_is_digits(s: Seq<char>, i: int)
    requires
        0 <= i < leading_digits(s),
    ensures
        i < s.len(),
        is_digit(s[i]),
    decreases s.len(),
{
    if i > 0 {
        lemma_leading_run_is_digits(s.skip(1), i - 1);
    }
}

/// A number written in base ten is one or more digits that write it.
proof fn lemma_decimal_writes(n: nat)
    ensures
        decimal(n).len() > 0,
        all_digits(decimal(n)),
        number(decimal(n)) == n,
    decreases n,
{
    if n < 10 {
        assert(number(decimal(n).drop_last()) == 0);
    } else {
        lemma_decimal_writes(n / 10);
        let front = decimal(n / 10);
        assert(decimal(n).drop_last() =~= front);
    }
}

/// What is written of a number in base ten is read back as that number.
pub proof fn lemma_decimal_is_read_back(n: u32)
    ensures
        parse_number(decimal(n as nat)) == Ok::<u32, ParseError>(n),
{
    lemma_decimal_writes(n as nat);
    lemma_parse_number_succeeds(decimal(n as nat));
}

impl Age {
    /// Reads one age term: [`parse_age`] of the text.
    pub fn from_str(s: &str) -> (r: Result<Age, ParseError>)
        ensures
            r == parse_age(s@),
    {
        let chars = chars_of(s);
        let n = chars.len();
        let mut dash: usize = 0;
        while dash < n && chars[dash] != '-'
            invariant
                dash <= n,
                n == chars@.len(),
                forall|k: int| 0 <= k < dash ==> chars@[k] != '-',
            decreases n - dash,
        {
            dash += 1;
        }
        proof {
            lemma_first_dash(chars@, dash as nat);
            assert(chars@.subrange(0, n as int) =~= chars@);
        }
        if dash == n {
            match read_number(&chars, 0, n) {
                Ok(age) => Ok(Age::Concrete(age)),
                Err(e) => Err(e),
            }
        } else {
            let lower = match read_number(&chars, 0, dash) {
                Ok(lower) => lower,
                Err(e) => { return Err(e); },
            };
            let upper = match read_number(&chars, dash + 1, n) {
                Ok(upper) => upper,
                Err(e) => { return Err(e); },
            };
            Ok(Age::Range(lower, upper))
        }
    }
}

impl std::str::FromStr for Age {
    type Err = ParseError;

    /// As [`Age::from_str`], for `str::parse`.
    fn from_str(s: &str) -> (r: Result<Age, ParseError>)
        ensures
            r == parse_age(s@),
    {
        Age::from_str(s)
    }
}

/// What is asked of the breed by patterns, if any were given, and by the
/// wish for cats without a breed. The two together are refused.
pub open spec fn breed_filter(breed: Option<Seq<Seq<char>>>, no_breed: bool) -> Result<
    BreedFilterView,
    ParseError,
> {
    match breed {
        Some(patterns) => if no_breed {
            Err(ParseError::Conflict)
        } else {
            Ok(BreedFilterView::Patterns(patterns))
        },
        None => if no_breed {
            Ok(BreedFilterView::Absent)
        } else {
            Ok(BreedFilterView::NoFilter)
        },
    }
}

/// The age terms that the texts write, in their order; the error of the
/// first text that writes none.
pub open spec fn parse_ages(terms: Seq<Seq<char>>) -> Result<Seq<Age>, ParseError>
    decreases terms.len(),
{
    if terms.len() == 0 {
        Ok(Seq::empty())
    } else {
        match parse_ages(terms.drop_last()) {
            Err(e) => Err(e),
            Ok(ages) => match parse_age(terms.last()) {
                Err(e) => Err(e),
                Ok(age) => Ok(ages.push(age)),
            },
        }
    }
}

/// The search that the given fields ask for. A breed together with no breed
/// is refused first, then an age term that cannot be read. The patterns are
/// taken as they are: in their order, and with those that occur twice.
pub open spec fn parse_find(
    name: Option<Seq<Seq<char>>>,
    age: Option<Seq<Seq<char>>>,
    breed: Option<Seq<Seq<char>>>,
    no_breed: bool,
    fuzzy: bool,
) -> Result<CmdFindView, ParseError> {
    match breed_filter(breed, no_breed) {
        Err(e) => Err(e),
        Ok(breed) => match age {
            None => Ok(CmdFindView { name, age: None, breed, fuzzy }),
            Some(terms) => match parse_ages(terms) {
                Err(e) => Err(e),
                Ok(ages) => Ok(CmdFindView { name, age: Some(ages), breed, fuzzy }),
            },
        },
    }
}

/// What optional texts hold.
pub open spec fn texts_view(texts: Option<Vec<String>>) -> Option<Seq<Seq<char>>> {
    match texts {
        Some(v) => Some(v.deep_view()),
        None => None,
    }
}

/// Reads the age terms in their order and stops at the first that cannot be
/// read.
fn read_ages(terms: &Vec<String>) -> (r: Result<Vec<Age>, ParseError>)
    ensures
        match r {
            Ok(ages) => parse_ages(terms.deep_view()) == Ok::<Seq<Age>, ParseError>(ages@),
            Err(e) => parse_ages(terms.deep_view()) == Err::<Seq<Age>, ParseError>(e),
        },
{
    let ghost texts = terms.deep_view();
    let mut ages: Vec<Age> = Vec::new();
    let n = terms.len();
    let mut i: usize = 0;
    while i < n
        invariant
            i <= n,
            n == terms@.len(),
            texts == terms.deep_view(),
            parse_ages(texts.take(i as int)) == Ok::<Seq<Age>, ParseError>(ages@),
        decreases n - i,
    {
        assert(texts.take(i + 1).drop_last() =~= texts.take(i as int));
        match Age::from_str(terms[i].as_str()) {
            Ok(age) => {
                ages.push(age);
            },
            Err(e) => {
                proof {
                    lemma_parse_ages_fails(texts, i + 1);
                }
                return Err(e);
            },
        }
        i += 1;
    }
    assert(texts.take(n as int) =~= texts);
    Ok(ages)
}

/// Once a start of the texts cannot be read, the whole cannot, for the same
/// reason.
proof fn lemma_parse_ages_fails(terms: Seq<Seq<char>>, n: int)
    requires
        0 <= n <= terms.len(),
        parse_ages(terms.take(n)) is Err,
    ensures
        parse_ages(terms) == parse_ages(terms.take(n)),
    decreases terms.len() - n,
{
    if n < terms.len() {
        assert(terms.take(n + 1).drop_last() =~= terms.take(n));
        lemma_parse_ages_fails(terms, n + 1);
    } else {
        assert(terms.take(n) =~= terms);
    }
}

impl BreedFilter {
    /// What is asked of the breed: [`breed_filter`] of the two fields.
    pub fn new(breed: Option<Vec<String>>, no_breed: bool) -> (r: Result<BreedFilter, ParseError>)
        ensures
            match r {
                Ok(filter) => breed_filter(texts_view(breed), no_breed) == Ok::<
                    BreedFilterView,
                    ParseError,
                >(filter@),
                Err(e) => breed_filter(texts_view(breed), no_breed) == Err::<
                    BreedFilterView,
                    ParseError,
                >(e),
            },
    {
        match breed {
            Some(patterns) => {
                if no_breed {
                    Err(ParseError::Conflict)
                } else {
                    Ok(BreedFilter::Patterns(patterns))
                }
            },
            None => {
                if no_breed {
                    Ok(BreedFilter::Absent)
                } else {
                    Ok(BreedFilter::NoFilter)
                }
            },
        }
    }
}

impl CmdFind {
    /// The search that the given fields ask for: [`parse_find`] of them. The
    /// age terms come as they were written.
    pub fn new(
        name: Option<Vec<String>>,
        age: Option<Vec<String>>,
        breed: Option<Vec<String>>,
        no_breed: bool,
        fuzzy: bool,
    ) -> (r: Result<CmdFind, ParseError>)
        ensures
            match r {
                Ok(cmd) => parse_find(
                    texts_view(name),
                    texts_view(age),
                    texts_view(breed),
                    no_breed,
                    fuzzy,
                ) == Ok::<CmdFindView, ParseError>(cmd@),
                Err(e) => parse_find(
                    texts_view(name),
                    texts_view(age),
                    texts_view(breed),
                    no_breed,
                    fuzzy,
                ) == Err::<CmdFindView, ParseError>(e),
            },
    {
        let breed = match BreedFilter::new(breed, no_breed) {
            Ok(breed) => breed,
            Err(e) => { return Err(e); },
        };
        let age = match age {
            None => None,
            Some(terms) => match read_ages(&terms) {
                Ok(ages) => Some(ages),
                Err(e) => { return Err(e); },
            },
        };
        Ok(CmdFind { name, age, breed, fuzzy })
    }
}

/// Patterns for the breed together with the wish for cats without a breed
/// never make a search, whatever the other fields hold; and a search that is
/// made asks of the breed what the one of the two that was given says.
pub proof fn lemma_breed_and_no_breed_are_refused(
    name: Option<Seq<Seq<char>>>,
    age: Option<Seq<Seq<char>>>,
    breed: Option<Seq<Seq<char>>>,
    no_breed: bool,
    fuzzy: bool,
)
    ensures
        breed is Some && no_breed ==> parse_find(name, age, breed, no_breed, fuzzy) == Err::<
            CmdFindView,
            ParseError,
        >(ParseError::Conflict),
        parse_find(name, age, breed, no_breed, fuzzy) matches Ok(cmd) ==> {
            &&& cmd.breed is Patterns <==> breed is Some
            &&& cmd.breed is Absent <==> no_breed
            &&& !(breed is Some && no_breed)
        },
{
}

/// One command to the registry.
#[derive(Debug, Clone, PartialEq, Eq)]
#[allow(inconsistent_fields)]
pub enum Cmd {
    /// Adds a new cat.
    Add { cmd: CmdAdd },
    /// Searches for cats. With no field set every cat is found.
    Find { cmd: CmdFind },
    /// Gets the cats with the given ids.
    Get { id: Vec<u64> },
    /// Changes what is known of a cat.
    Update { cmd: CmdUpdate },
    /// Removes the cat with the given id.
    Delete { id: u64 },
}

/// The mathematical value of a [`Cmd`].
#[allow(inconsistent_fields)]
pub enum CmdView {
    Add { cmd: CmdAddView },
    Find { cmd: CmdFindView },
    Get { id: Seq<u64> },
    Update { cmd: CmdUpdateView },
    Delete { id: u64 },
}

impl View for Cmd {
    type V = CmdView;

    open spec fn view(&self) -> CmdView {
        match *self {
            Cmd::Add { cmd } => CmdView::Add { cmd: cmd@ },
            Cmd::Find { cmd } => CmdView::Find { cmd: cmd@ },
            Cmd::Get { id } => CmdView::Get { id: id@ },
            Cmd::Update { cmd } => CmdView::Update { cmd: cmd@ },
            Cmd::Delete { id } => CmdView::Delete { id },
        }
    }
}

/// What a caller asks for: a command, and whether the reply is wanted as
/// structured data.
#[derive(Debug, Clone, PartialEq, Eq)]
pub struct Args {
    pub cmd: Cmd,
    pub json: bool,
}

} // verus!
