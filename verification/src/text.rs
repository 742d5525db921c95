//! Text helpers that the statements and the renderings are built from.

use itertools::Itertools;
use vstd::prelude::*;
use vstd::string::StringExecFns;

verus! {

/// The parts in order, with `sep` between each two neighbours.
pub open spec fn joined(parts: Seq<Seq<char>>, sep: Seq<char>) -> Seq<char>
    decreases parts.len(),
{
    if parts.len() == 0 {
        Seq::empty()
    } else if parts.len() == 1 {
        parts[0]
    } else {
        joined(parts.drop_last(), sep) + sep + parts.last()
    }
}

/// What each of the parts holds.
pub open spec fn views(parts: Seq<&str>) -> Seq<Seq<char>> {
    Seq::new(parts.len(), |i: int| parts[i]@)
}

/// `Itertools::join` on the parts in order. It writes the first part, then
/// for each further part the separator and the part; no part gives the empty
/// string. A `&str` is written as it is. The separator is to be short: the
/// room that is reserved at the start is its length times the number of
/// parts.
#[verifier::external_body]
pub(crate) fn join(parts: &Vec<&str>, sep: &str) -> (text: String)
    requires
        sep@.len() <= 8,
    ensures
        text@ == joined(views(parts@), sep@),
{
    parts.iter().join(sep)
}

/// The characters of a text, in their order.
pub fn chars_of(text: &str) -> (chars: Vec<char>)
    ensures
        chars@ == text@,
{
    let mut chars: Vec<char> = Vec::new();
    for c in it: text.chars()
        invariant
            chars@ == it.seq().take(it.index()),
            it.seq() == text@,
    {
        chars.push(c);
    }
    chars
}

/// The character that writes a digit.
pub open spec fn digit(d: nat) -> char {
    if d == 0 {
        '0'
    } else if d == 1 {
        '1'
    } else if d == 2 {
        '2'
    } else if d == 3 {
        '3'
    } else if d == 4 {
        '4'
    } else if d == 5 {
        '5'
    } else if d == 6 {
        '6'
    } else if d == 7 {
        '7'
    } else if d == 8 {
        '8'
    } else {
        '9'
    }
}

/// A number in base ten: its digits, the most significant first, with no
/// zero in front but for the number 0 itself.
pub open spec fn decimal(n: nat) -> Seq<char>
    decreases n,
{
    if n < 10 {
        seq![digit(n)]
    } else {
        decimal(n / 10).push(digit(n % 10))
    }
}

/// The text of one digit.
fn digit_text(d: u64) -> (text: &'static str)
    requires
        d < 10,
    ensures
        text@ == seq![digit(d as nat)],
{
    proof {
        reveal_strlit("0");
        reveal_strlit("1");
        reveal_strlit("2");
        reveal_strlit("3");
        reveal_strlit("4");
        reveal_strlit("5");
        reveal_strlit("6");
        reveal_strlit("7");
        reveal_strlit("8");
        reveal_strlit("9");
    }
    let text = if d == 0 {
        "0"
    } else if d == 1 {
        "1"
    } else if d == 2 {
        "2"
    } else if d == 3 {
        "3"
    } else if d == 4 {
        "4"
    } else if d == 5 {
        "5"
    } else if d == 6 {
        "6"
    } else if d == 7 {
        "7"
    } else if d == 8 {
        "8"
    } else {
        "9"
    };
    text
}

/// Writes a number in base ten behind what `out` holds.
fn write_decimal(out: &mut String, n: u64)
    ensures
        final(out)@ == old(out)@ + decimal(n as nat),
    decreases n,
{
    if n >= 10 {
        write_decimal(out, n / 10);
    }
    out.append(digit_text(n % 10));
}

/// A number in base ten.
pub fn decimal_text(n: u64) -> (text: String)
    ensures
        text@ == decimal(n as nat),
{
    let mut text = String::new();
    write_decimal(&mut text, n);
    text
}

/// The texts as borrowed parts, in their order.
pub fn parts_of(texts: &Vec<String>) -> (parts: Vec<&str>)
    ensures
        views(parts@) == texts.deep_view(),
{
    let mut parts: Vec<&str> = Vec::new();
    let n = texts.len();
    let mut i: usize = 0;
    while i < n
        invariant
            i <= n,
            n == texts@.len(),
            parts@.len() == i,
            forall|k: int| 0 <= k < i ==> parts@[k]@ == texts@[k]@,
        decreases n - i,
    {
        parts.push(texts[i].as_str());
        i += 1;
    }
    parts
}

/// How often `c` stands in `s`.
pub open spec fn count(s: Seq<char>, c: char) -> nat
    decreases s.len(),
{
    if s.len() == 0 {
        0
    } else {
        count(s.drop_last(), c) + if s.last() == c {
            1nat
        } else {
            0nat
        }
    }
}

/// What stands in two texts stands in the two put together.
pub proof fn lemma_count_add(a: Seq<char>, b: Seq<char>, c: char)
    ensures
        count(a + b, c) == count(a, c) + count(b, c),
    decreases b.len(),
{
    if b.len() > 0 {
        assert((a + b).drop_last() =~= a + b.drop_last());
        lemma_count_add(a, b.drop_last(), c);
    }
}

/// How often `c` stands in all the parts together.
pub open spec fn count_all(parts: Seq<Seq<char>>, c: char) -> nat
    decreases parts.len(),
{
    if parts.len() == 0 {
        0
    } else {
        count_all(parts.drop_last(), c) + count(parts.last(), c)
    }
}

/// A text holds `c` as often as there are places where it stands.
pub proof fn lemma_count_places(s: Seq<char>, c: char, places: Seq<int>)
    requires
        forall|j: int|
            0 <= j < places.len() ==> 0 <= #[trigger] places[j] < s.len() && s[places[j]] == c,
        forall|j: int, k: int| 0 <= j < k < places.len() ==> places[j] < places[k],
        forall|i: int| 0 <= i < s.len() && s[i] == c ==> places.contains(i),
    ensures
        count(s, c) == places.len(),
    decreases s.len(),
{
    if s.len() == 0 {
        if places.len() > 0 {
            assert(0 <= places[0] < s.len());
        }
    } else {
        let front = s.drop_last();
        let end = s.len() - 1;
        if s[end] == c {
            let at = choose|j: int| 0 <= j < places.len() && places[j] == end;
            if at < places.len() - 1 {
                assert(places[at + 1] < s.len());
            }
            let rest = places.drop_last();
            assert forall|i: int| 0 <= i < front.len() && front[i] == c implies rest.contains(
                i,
            ) by {
                let j = choose|j: int| 0 <= j < places.len() && places[j] == i;
                assert(rest[j] == i);
            }
            lemma_count_places(front, c, rest);
        } else {
            lemma_count_places(front, c, places);
        }
    }
}

/// What stands in two lists of parts stands in the two put together.
pub proof fn lemma_count_all_add(a: Seq<Seq<char>>, b: Seq<Seq<char>>, c: char)
    ensures
        count_all(a + b, c) == count_all(a, c) + count_all(b, c),
    decreases b.len(),
{
    if b.len() > 0 {
        assert((a + b).drop_last() =~= a + b.drop_last());
        lemma_count_all_add(a, b.drop_last(), c);
    }
}

/// One part alone holds what it holds.
pub proof fn lemma_count_all_one(part: Seq<char>, c: char)
    ensures
        count_all(seq![part], c) == count(part, c),
{
    assert(count_all(seq![part].drop_last(), c) == 0);
}

/// Parts that each hold `c` as often hold it that many times for each part.
pub proof fn lemma_count_all_same(parts: Seq<Seq<char>>, c: char, each: nat)
    requires
        forall|i: int| 0 <= i < parts.len() ==> count(#[trigger] parts[i], c) == each,
    ensures
        count_all(parts, c) == parts.len() * each,
    decreases parts.len(),
{
    if parts.len() > 0 {
        let front = parts.drop_last();
        lemma_count_all_same(front, c, each);
        assert(parts.len() * each == front.len() * each + each) by (nonlinear_arith)
            requires
                parts.len() == front.len() + 1,
        ;
    }
}

/// Parts joined by a separator without `c` hold it as often as the parts
/// do.
pub proof fn lemma_count_joined(parts: Seq<Seq<char>>, sep: Seq<char>, c: char)
    requires
        count(sep, c) == 0,
    ensures
        count(joined(parts, sep), c) == count_all(parts, c),
    decreases parts.len(),
{
    if parts.len() == 1 {
        assert(count_all(parts.drop_last(), c) == 0);
    } else if parts.len() > 1 {
        let front = parts.drop_last();
        lemma_count_joined(front, sep, c);
        lemma_count_add(joined(front, sep) + sep, parts.last(), c);
        lemma_count_add(joined(front, sep), sep, c);
    }
}

} // verus!
