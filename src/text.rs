//! Verified text building blocks: decimal numerals, comma joins and the
//! path-separator test used when resolving handler names.
use vstd::prelude::*;
use vstd::string::*;

verus! {

/// The character of a decimal digit.
pub open spec fn digit_char(d: nat) -> char {
    if d == 0 { '0' } else if d == 1 { '1' } else if d == 2 { '2' } else if d == 3 { '3' }
    else if d == 4 { '4' } else if d == 5 { '5' } else if d == 6 { '6' } else if d == 7 { '7' }
    else if d == 8 { '8' } else { '9' }
}

/// The decimal numeral of `n`, most significant digit first, without leading zeros.
pub open spec fn decimal(n: nat) -> Seq<char>
    decreases n,
{
    if n < 10 {
        seq![digit_char(n)]
    } else {
        decimal(n / 10).push(digit_char(n % 10))
    }
}

/// Positions `i` and `i + 1` of `s` both hold a colon.
pub open spec fn sep_at(s: Seq<char>, i: int) -> bool {
    0 <= i && i + 1 < s.len() && s[i] == ':' && s[i + 1] == ':'
}

/// `s` holds two consecutive colons somewhere.
pub open spec fn has_path_sep(s: Seq<char>) -> bool {
    exists|i: int| #[trigger] sep_at(s, i)
}

/// `s` holds a double quote.
pub open spec fn has_quote(s: Seq<char>) -> bool {
    s.contains('"')
}

/// The pieces of `parts` joined with a single comma between neighbours.
pub open spec fn join_commas(parts: Seq<Seq<char>>) -> Seq<char>
    decreases parts.len(),
{
    if parts.len() == 0 {
        Seq::empty()
    } else if parts.len() == 1 {
        parts[0]
    } else {
        join_commas(parts.drop_last()) + seq![','] + parts.last()
    }
}

fn digit_str(d: usize) -> (r: String)
    requires
        d < 10,
    ensures
        r@ == seq![digit_char(d as nat)],
{
    let s: &str = if d == 0 {
        proof { reveal_strlit("0"); }
        "0"
    } else if d == 1 {
        proof { reveal_strlit("1"); }
        "1"
    } else if d == 2 {
        proof { reveal_strlit("2"); }
        "2"
    } else if d == 3 {
        proof { reveal_strlit("3"); }
        "3"
    } else if d == 4 {
        proof { reveal_strlit("4"); }
        "4"
    } else if d == 5 {
        proof { reveal_strlit("5"); }
        "5"
    } else if d == 6 {
        proof { reveal_strlit("6"); }
        "6"
    } else if d == 7 {
        proof { reveal_strlit("7"); }
        "7"
    } else if d == 8 {
        proof { reveal_strlit("8"); }
        "8"
    } else {
        proof { reveal_strlit("9"); }
        "9"
    };
    let r = String::from_str(s);
    assert(r@ =~= seq![digit_char(d as nat)]);
    r
}

/// The decimal numeral of `n`.
pub fn decimal_string(n: usize) -> (r: String)
    ensures
        r@ == decimal(n as nat),
    decreases n,
{
    if n < 10 {
        digit_str(n)
    } else {
        let high = decimal_string(n / 10);
        let low = digit_str(n % 10);
        let r = high.concat(low.as_str());
        assert(r@ =~= decimal(n as nat));
        r
    }
}

/// Whether `s` holds the path separator `::`.
pub fn contains_path_sep(s: &str) -> (r: bool)
    ensures
        r == has_path_sep(s@),
{
    let n = s.unicode_len();
    let mut i: usize = 0;
    while i < n && i + 1 < n
        invariant
            n == s@.len(),
            i <= n,
            forall|j: int| 0 <= j < i ==> !#[trigger] sep_at(s@, j),
        decreases n - i,
    {
        if s.get_char(i) == ':' && s.get_char(i + 1) == ':' {
            assert(sep_at(s@, i as int));
            return true;
        }
        i = i + 1;
    }
    assert forall|j: int| !#[trigger] sep_at(s@, j) by {
        if 0 <= j < i {
        } else if j >= i {
            assert(j + 1 >= n);
        }
    }
    false
}

/// Whether `s` holds a double quote.
pub fn contains_quote(s: &str) -> (r: bool)
    ensures
        r == has_quote(s@),
{
    let n = s.unicode_len();
    let mut i: usize = 0;
    while i < n
        invariant
            n == s@.len(),
            i <= n,
            forall|j: int| 0 <= j < i ==> s@[j] != '"',
        decreases n - i,
    {
        if s.get_char(i) == '"' {
            return true;
        }
        i = i + 1;
    }
    false
}

/// The strings of `parts` joined with a single comma between neighbours.
pub fn join_with_commas(parts: &Vec<String>) -> (r: String)
    ensures
        r@ == join_commas(parts@.map_values(|p: String| p@)),
{
    let ghost views = parts@.map_values(|p: String| p@);
    let mut r = String::new();
    let mut i: usize = 0;
    while i < parts.len()
        invariant
            i <= parts.len(),
            views == parts@.map_values(|p: String| p@),
            r@ == join_commas(views.subrange(0, i as int)),
        decreases parts.len() - i,
    {
        proof {
            reveal_strlit(",");
            assert(views.subrange(0, i + 1).drop_last() =~= views.subrange(0, i as int));
        }
        if i > 0 {
            r.append(",");
        }
        r.append(parts[i].as_str());
        i = i + 1;
    }
    assert(views.subrange(0, i as int) =~= views);
    r
}

} // verus!
