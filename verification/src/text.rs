//! Prefix and substring tests on text, by character.

use vstd::prelude::*;
use vstd::string::*;

verus! {

/// `needle` stands in `hay` starting at position `at`.
pub open spec fn occurs_at(needle: Seq<char>, hay: Seq<char>, at: int) -> bool {
    &&& 0 <= at
    &&& at + needle.len() <= hay.len()
    &&& hay.subrange(at, at + needle.len()) == needle
}

/// `hay` begins with `needle`.
pub open spec fn has_prefix(hay: Seq<char>, needle: Seq<char>) -> bool {
    occurs_at(needle, hay, 0)
}

/// `needle` stands somewhere in `hay`.
pub open spec fn has_substring(hay: Seq<char>, needle: Seq<char>) -> bool {
    exists|at: int| occurs_at(needle, hay, at)
}

/// A text that is put together from three parts holds the middle one.
pub proof fn lemma_middle_is_substring(before: Seq<char>, middle: Seq<char>, after: Seq<char>)
    ensures
        has_substring(before + middle + after, middle),
        occurs_at(middle, before + middle + after, before.len() as int),
{
    let whole = before + middle + after;
    assert(whole.subrange(before.len() as int, (before.len() + middle.len()) as int) =~= middle);
    assert(occurs_at(middle, whole, before.len() as int));
}

/// A text begins with its own first part.
pub proof fn lemma_front_is_prefix(front: Seq<char>, rest: Seq<char>)
    ensures
        has_prefix(front + rest, front),
{
    assert((front + rest).subrange(0, front.len() as int) =~= front);
}

/// The characters of `s`, in order.
pub fn chars_of(s: &str) -> (v: Vec<char>)
    ensures
        v@ == s@,
{
    let mut v: Vec<char> = Vec::new();
    for c in it: s.chars()
        invariant
            v@ == it.seq().take(it.index()),
            it.seq() == s@,
    {
        v.push(c);
    }
    v
}

/// Whether `needle` stands in `hay` at `at`.
pub fn matches_at(hay: &Vec<char>, needle: &Vec<char>, at: usize) -> (found: bool)
    ensures
        found == occurs_at(needle@, hay@, at as int),
{
    if needle.len() > hay.len() || at > hay.len() - needle.len() {
        return false;
    }
    let ghost window = hay@.subrange(at as int, at + needle@.len());
    let mut k: usize = 0;
    while k < needle.len()
        invariant
            k <= needle.len(),
            at + needle.len() <= hay.len(),
            window == hay@.subrange(at as int, at + needle@.len()),
            forall|j: int| 0 <= j < k ==> hay@[at + j] == needle@[j],
        decreases needle.len() - k,
    {
        if hay[at + k] != needle[k] {
            assert(window[k as int] == hay@[at + k]);
            return false;
        }
        k += 1;
    }
    assert(window =~= needle@);
    true
}

/// Whether `hay` begins with `needle`.
pub fn starts_with(hay: &str, needle: &str) -> (found: bool)
    ensures
        found == has_prefix(hay@, needle@),
{
    let h = chars_of(hay);
    let n = chars_of(needle);
    matches_at(&h, &n, 0)
}

/// Whether `needle` stands somewhere in `hay`.
pub fn contains(hay: &str, needle: &str) -> (found: bool)
    ensures
        found == has_substring(hay@, needle@),
{
    let h = chars_of(hay);
    let n = chars_of(needle);
    if n.len() == 0 {
        assert(h@.subrange(0, 0) =~= n@);
        assert(occurs_at(n@, h@, 0));
        return true;
    }
    let mut at: usize = 0;
    while at < h.len() && n.len() <= h.len() - at
        invariant
            h@ == hay@,
            n@ == needle@,
            n.len() > 0,
            at <= h.len(),
            forall|a: int| 0 <= a < at ==> !occurs_at(n@, h@, a),
        decreases h.len() - at,
    {
        if matches_at(&h, &n, at) {
            return true;
        }
        at += 1;
    }
    false
}

/// Whether both texts are the same.
pub fn same_text(a: &str, b: &str) -> (same: bool)
    ensures
        same == (a@ == b@),
{
    let x = chars_of(a);
    let y = chars_of(b);
    if x.len() != y.len() {
        return false;
    }
    let found = matches_at(&x, &y, 0);
    proof {
        assert(x@.subrange(0, x@.len() as int) =~= x@);
    }
    found
}

/// What is left of `hay` behind `needle`, where `hay` begins with it.
pub fn strip_prefix<'a>(hay: &'a str, needle: &str) -> (rest: Option<&'a str>)
    ensures
        match rest {
            Some(rest) => has_prefix(hay@, needle@) && rest@ == hay@.skip(needle@.len() as int),
            None => !has_prefix(hay@, needle@),
        },
{
    if starts_with(hay, needle) {
        let from = needle.unicode_len();
        let to = hay.unicode_len();
        let rest = hay.substring_char(from, to);
        proof {
            assert(hay@.subrange(from as int, to as int) =~= hay@.skip(from as int));
        }
        Some(rest)
    } else {
        None
    }
}

/// The character of the digit `d`.
pub open spec fn digit_char(d: nat) -> char {
    if d == 0 {
        '0'
    } else if d == 1 {
        '1'
    } else if d == 2 {
        '2'
    } else if d == 3 {
        '3'
    } else if d == 4 {
        '4'
    } else if d == 5 {
        '5'
    } else if d == 6 {
        '6'
    } else if d == 7 {
        '7'
    } else if d == 8 {
        '8'
    } else {
        '9'
    }
}

/// The number `n` written in decimal.
pub open spec fn decimal(n: nat) -> Seq<char>
    decreases n,
{
    if n < 10 {
        seq![digit_char(n)]
    } else {
        decimal(n / 10).push(digit_char(n % 10))
    }
}

fn digit_text(d: u64) -> (text: &'static str)
    requires
        d < 10,
    ensures
        text@ == seq![digit_char(d as nat)],
{
    proof {
        reveal_strlit("0");
        reveal_strlit("1");
        reveal_strlit("2");
        reveal_strlit("3");
        reveal_strlit("4");
        reveal_strlit("5");
        reveal_strlit("6");
        reveal_strlit("7");
        reveal_strlit("8");
        reveal_strlit("9");
    }
    let text = if d == 0 {
        "0"
    } else if d == 1 {
        "1"
    } else if d == 2 {
        "2"
    } else if d == 3 {
        "3"
    } else if d == 4 {
        "4"
    } else if d == 5 {
        "5"
    } else if d == 6 {
        "6"
    } else if d == 7 {
        "7"
    } else if d == 8 {
        "8"
    } else {
        "9"
    };
    assert(text@ =~= seq![digit_char(d as nat)]);
    text
}

/// Writes `n` in decimal.
pub fn decimal_text(n: u64) -> (text: String)
    ensures
        text@ == decimal(n as nat),
    decreases n,
{
    if n < 10 {
        String::from_str(digit_text(n))
    } else {
        let mut text = decimal_text(n / 10);
        text.append(digit_text(n % 10));
        assert(text@ =~= decimal(n as nat));
        text
    }
}

} // verus!
