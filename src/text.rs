//! Substring search over the characters of a string, exact or ignoring
//! the case of ASCII letters.
use vstd::prelude::*;

verus! {

/// `a` and `b` are the same letter of the ASCII alphabet, in either case.
pub open spec fn same_ascii_letter(a: char, b: char) -> bool {
    let (x, y) = (a as u32, b as u32);
    ||| x == y
    ||| 65 <= x <= 90 && y == x + 32
    ||| 65 <= y <= 90 && x == y + 32
}

/// A character of the searched text agrees with a character of the pattern.
pub open spec fn char_agrees(h: char, n: char, ignore_case: bool) -> bool {
    if ignore_case {
        same_ascii_letter(h, n)
    } else {
        h == n
    }
}

/// `needle` stands in `hay` starting at position `i`.
pub open spec fn occurs_at(hay: Seq<char>, needle: Seq<char>, i: int, ignore_case: bool) -> bool {
    &&& 0 <= i
    &&& i + needle.len() <= hay.len()
    &&& forall|k: int| 0 <= k < needle.len() ==> char_agrees(#[trigger] hay[i + k], needle[k], ignore_case)
}

/// `needle` stands somewhere in `hay`.
pub open spec fn occurs_in(hay: Seq<char>, needle: Seq<char>, ignore_case: bool) -> bool {
    exists|i: int| occurs_at(hay, needle, i, ignore_case)
}

/// The characters of `s`, in order.
pub fn chars_of(s: &str) -> (r: Vec<char>)
    ensures
        r@ == s@,
{
    let mut r: Vec<char> = Vec::new();
    for c in it: s.chars()
        invariant
            it.seq() == s@,
            r@ == it.seq().take(it.index() as int),
    {
        r.push(c);
    }
    r
}

fn agrees(h: char, n: char, ignore_case: bool) -> (r: bool)
    ensures
        r == char_agrees(h, n, ignore_case),
{
    let (x, y) = (h as u32, n as u32);
    if ignore_case {
        x == y || (65 <= x && x <= 90 && y == x + 32) || (65 <= y && y <= 90 && x == y + 32)
    } else {
        h == n
    }
}

fn occurs_at_exec(hay: &Vec<char>, needle: &Vec<char>, i: usize, ignore_case: bool) -> (r: bool)
    requires
        i + needle@.len() <= hay@.len(),
    ensures
        r == occurs_at(hay@, needle@, i as int, ignore_case),
{
    let mut k: usize = 0;
    let n: usize = hay.len();
    while k < needle.len()
        invariant
            n == hay@.len(),
            k <= needle@.len(),
            i + needle@.len() <= hay@.len(),
            forall|j: int| 0 <= j < k ==> char_agrees(#[trigger] hay@[i + j], needle@[j], ignore_case),
        decreases needle@.len() - k,
    {
        if !agrees(hay[i + k], needle[k], ignore_case) {
            assert(!char_agrees(hay@[i + k as int], needle@[k as int], ignore_case));
            return false;
        }
        k = k + 1;
    }
    true
}

fn occurs_in_chars(hay: &Vec<char>, needle: &Vec<char>, ignore_case: bool) -> (r: bool)
    ensures
        r == occurs_in(hay@, needle@, ignore_case),
{
    if needle.len() > hay.len() {
        return false;
    }
    let last = hay.len() - needle.len();
    let mut i: usize = 0;
    loop
        invariant
            i <= last,
            last + needle@.len() == hay@.len(),
            forall|j: int| 0 <= j < i ==> !occurs_at(hay@, needle@, j, ignore_case),
        decreases last - i,
    {
        if occurs_at_exec(hay, needle, i, ignore_case) {
            return true;
        }
        if i == last {
            return false;
        }
        i = i + 1;
    }
}

/// Whether `needle` occurs in `hay`, character for character.
pub fn contains_text(hay: &str, needle: &str) -> (r: bool)
    ensures
        r == occurs_in(hay@, needle@, false),
{
    occurs_in_chars(&chars_of(hay), &chars_of(needle), false)
}

/// Whether `needle` occurs in `hay` when the case of ASCII letters is ignored.
pub fn contains_ignoring_ascii_case(hay: &str, needle: &str) -> (r: bool)
    ensures
        r == occurs_in(hay@, needle@, true),
{
    occurs_in_chars(&chars_of(hay), &chars_of(needle), true)
}

} // verus!
