//! Character-level helpers shared by the parser, the verifiers and the
//! report lines: substring search, decimal rendering and string assembly.

use vstd::prelude::*;
use vstd::string::*;

verus! {

/// `needle` stands in `hay` at offset `at`.
pub open spec fn occurs_at(hay: Seq<char>, needle: Seq<char>, at: int) -> bool {
    &&& 0 <= at
    &&& at + needle.len() <= hay.len()
    &&& hay.subrange(at, at + needle.len()) == needle
}

/// `needle` is a contiguous part of `hay`.
pub open spec fn is_substring(needle: Seq<char>, hay: Seq<char>) -> bool {
    exists|at: int| occurs_at(hay, needle, at)
}

/// The offset of the first occurrence of `needle` in `hay` at or after
/// `from`, if there is one.
pub open spec fn find_from(hay: Seq<char>, needle: Seq<char>, from: int) -> Option<int>
    decreases hay.len() + 1 - from,
{
    if from < 0 || from + needle.len() > hay.len() {
        None
    } else if occurs_at(hay, needle, from) {
        Some(from)
    } else {
        find_from(hay, needle, from + 1)
    }
}

/// What `find_from` returns is an occurrence, and the earliest one; it
/// returns nothing only where there is none.
pub proof fn lemma_find_from_first(hay: Seq<char>, needle: Seq<char>, from: int)
    requires
        0 <= from,
    ensures
        match find_from(hay, needle, from) {
            Some(at) => from <= at && occurs_at(hay, needle, at) && forall|j: int|
                from <= j < at ==> !occurs_at(hay, needle, j),
            None => forall|j: int| from <= j ==> !occurs_at(hay, needle, j),
        },
    decreases hay.len() + 1 - from,
{
    if from + needle.len() > hay.len() {
    } else if occurs_at(hay, needle, from) {
    } else {
        lemma_find_from_first(hay, needle, from + 1);
    }
}

/// `find_from` finds something exactly where `needle` is a substring.
pub proof fn lemma_find_iff_substring(hay: Seq<char>, needle: Seq<char>)
    ensures
        find_from(hay, needle, 0) is Some <==> is_substring(needle, hay),
{
    lemma_find_from_first(hay, needle, 0);
}

/// The characters of a string, in order.
pub fn to_chars(s: &str) -> (chars: Vec<char>)
    ensures
        chars@ == s@,
{
    broadcast use group_string_axioms;

    let mut chars: Vec<char> = Vec::new();
    for c in it: s.chars()
        invariant
            it.seq() == s@,
            chars@ == s@.take(it.index() as int),
    {
        chars.push(c);
    }
    chars
}

/// Whether `needle` stands in `hay` at offset `at`.
pub fn matches_at(hay: &Vec<char>, needle: &Vec<char>, at: usize) -> (hit: bool)
    ensures
        hit == occurs_at(hay@, needle@, at as int),
{
    if needle.len() > hay.len() || at > hay.len() - needle.len() {
        return false;
    }
    let mut k: usize = 0;
    while k < needle.len()
        invariant
            k <= needle.len(),
            at + needle.len() <= hay.len(),
            forall|j: int| 0 <= j < k ==> hay@[at + j] == needle@[j],
        decreases needle.len() - k,
    {
        if hay[at + k] != needle[k] {
            proof {
                let part = hay@.subrange(at as int, at + needle.len());
                assert(part[k as int] == hay@[at + k]);
            }
            return false;
        }
        k += 1;
    }
    assert(hay@.subrange(at as int, at + needle.len()) =~= needle@);
    true
}

/// The offset of the first occurrence of `needle` in the first `end`
/// characters of `hay`, at or after `from`. A range that does not lie in
/// `hay` holds no occurrence.
pub fn find_in(hay: &Vec<char>, needle: &Vec<char>, from: usize, end: usize) -> (found: Option<
    usize,
>)
    ensures
        from <= end <= hay.len() ==> match found {
            Some(at) => find_from(hay@.take(end as int), needle@, from as int) == Some(at as int),
            None => find_from(hay@.take(end as int), needle@, from as int) is None,
        },
        !(from <= end <= hay.len()) ==> found is None,
{
    if from > end || end > hay.len() {
        return None;
    }
    let ghost window = hay@.take(end as int);
    if needle.len() > end - from {
        return None;
    }
    let last = end - needle.len();
    let mut at = from;
    loop
        invariant
            from <= at <= last,
            last + needle.len() == end,
            end <= hay.len(),
            window == hay@.take(end as int),
            find_from(window, needle@, from as int) == find_from(window, needle@, at as int),
        decreases last - at,
    {
        let hit = matches_at(hay, needle, at);
        proof {
            assert(window.subrange(at as int, at + needle.len()) =~= hay@.subrange(
                at as int,
                at + needle.len(),
            ));
        }
        if hit {
            return Some(at);
        }
        if at == last {
            assert(find_from(window, needle@, at + 1) is None);
            return None;
        }
        at += 1;
    }
}

/// Whether `needle` is a contiguous part of `hay`.
pub fn contains_text(hay: &str, needle: &str) -> (present: bool)
    ensures
        present == is_substring(needle@, hay@),
{
    let hay_chars = to_chars(hay);
    let needle_chars = to_chars(needle);
    let n = hay_chars.len();
    assert(hay_chars@.take(n as int) =~= hay_chars@);
    proof {
        lemma_find_iff_substring(hay@, needle@);
    }
    find_in(&hay_chars, &needle_chars, 0, n).is_some()
}

/// The character that writes the digit `d`.
pub open spec fn digit_char(d: int) -> char {
    if d == 0 {
        '0'
    } else if d == 1 {
        '1'
    } else if d == 2 {
        '2'
    } else if d == 3 {
        '3'
    } else if d == 4 {
        '4'
    } else if d == 5 {
        '5'
    } else if d == 6 {
        '6'
    } else if d == 7 {
        '7'
    } else if d == 8 {
        '8'
    } else {
        '9'
    }
}

/// `n` written in base ten, without leading zeros.
pub open spec fn decimal(n: nat) -> Seq<char>
    decreases n,
{
    if n < 10 {
        seq![digit_char(n as int)]
    } else {
        decimal(n / 10).push(digit_char((n % 10) as int))
    }
}

fn digit_str(d: usize) -> (s: &'static str)
    requires
        d < 10,
    ensures
        s@ == seq![digit_char(d as int)],
{
    proof {
        reveal_strlit("0");
        reveal_strlit("1");
        reveal_strlit("2");
        reveal_strlit("3");
        reveal_strlit("4");
        reveal_strlit("5");
        reveal_strlit("6");
        reveal_strlit("7");
        reveal_strlit("8");
        reveal_strlit("9");
    }
    let s = if d == 0 {
        "0"
    } else if d == 1 {
        "1"
    } else if d == 2 {
        "2"
    } else if d == 3 {
        "3"
    } else if d == 4 {
        "4"
    } else if d == 5 {
        "5"
    } else if d == 6 {
        "6"
    } else if d == 7 {
        "7"
    } else if d == 8 {
        "8"
    } else {
        "9"
    };
    assert(s@ =~= seq![digit_char(d as int)]);
    s
}

/// `n` in base ten.
pub fn decimal_string(n: usize) -> (s: String)
    ensures
        s@ == decimal(n as nat),
    decreases n,
{
    if n < 10 {
        digit_str(n).to_owned()
    } else {
        let mut s = decimal_string(n / 10);
        let ghost before = s@;
        s.append(digit_str(n % 10));
        assert(s@ =~= before.push(digit_char((n % 10) as int)));
        s
    }
}

} // verus!
