//! Small string routines: comparing texts and writing numbers in decimal.

use vstd::prelude::*;

verus! {

/// Whether the two texts hold the same characters.
pub fn same_text(a: &str, b: &str) -> (same: bool)
    ensures
        same == (a@ == b@),
{
    let n = a.unicode_len();
    if n != b.unicode_len() {
        return false;
    }
    let mut i: usize = 0;
    while i < n
        invariant
            n == a@.len(),
            n == b@.len(),
            i <= n,
            forall|j: int| 0 <= j < i ==> a@[j] == b@[j],
        decreases n - i,
    {
        if a.get_char(i) != b.get_char(i) {
            return false;
        }
        i = i + 1;
    }
    assert(a@ =~= b@);
    true
}

/// The decimal digit for `d`, which is below ten.
pub open spec fn digit_char(d: nat) -> char {
    (d + 48) as char
}

/// The decimal writing of `n`, without leading zeros ("0" for zero).
pub open spec fn decimal(n: nat) -> Seq<char>
    decreases n,
{
    if n < 10 {
        seq![digit_char(n)]
    } else {
        decimal(n / 10).push(digit_char(n % 10))
    }
}

/// Writes `n` in decimal.
pub fn decimal_text(n: usize) -> (text: String)
    ensures
        text@ == decimal(n as nat),
    decreases n,
{
    let d = n % 10;
    let c: char = if d == 0 { '0' } else if d == 1 { '1' } else if d == 2 { '2' } else if d == 3 {
        '3'
    } else if d == 4 { '4' } else if d == 5 { '5' } else if d == 6 { '6' } else if d == 7 {
        '7'
    } else if d == 8 { '8' } else { '9' };
    assert(c == digit_char(d as nat));
    let one = if c == '0' { "0" } else if c == '1' { "1" } else if c == '2' { "2" } else if c
        == '3' { "3" } else if c == '4' { "4" } else if c == '5' { "5" } else if c == '6' {
        "6"
    } else if c == '7' { "7" } else if c == '8' { "8" } else { "9" };
    proof {
        reveal_strlit("0");
        reveal_strlit("1");
        reveal_strlit("2");
        reveal_strlit("3");
        reveal_strlit("4");
        reveal_strlit("5");
        reveal_strlit("6");
        reveal_strlit("7");
        reveal_strlit("8");
        reveal_strlit("9");
    }
    assert(one@ =~= seq![c]);
    if n < 10 {
        String::from_str(one)
    } else {
        let head = decimal_text(n / 10);
        let text = head.concat(one);
        assert(text@ =~= decimal((n / 10) as nat).push(c));
        text
    }
}

/// `prefix` followed by `n` in decimal, as in the ids and names the editor
/// gives to new items ("rect_3", "Rectangle 3").
pub fn numbered(prefix: &str, n: usize) -> (text: String)
    ensures
        text@ == prefix@ + decimal(n as nat),
{
    let digits = decimal_text(n);
    String::from_str(prefix).concat(digits.as_str())
}

/// The text of `s` in lower case, as `str::to_lowercase` gives it.
pub uninterp spec fn lowercase(s: Seq<char>) -> Seq<char>;

/// The text of `s` in upper case, as `str::to_uppercase` gives it.
pub uninterp spec fn uppercase(s: Seq<char>) -> Seq<char>;

/// Calls `str::to_lowercase`; the contract names the result (Unicode case
/// mapping) and claims that it depends on the text alone.
#[verifier::external_body]
pub(crate) fn to_lowercase(s: &str) -> (lower: String)
    ensures
        lower@ == lowercase(s@),
{
    s.to_lowercase()
}

/// Calls `str::to_uppercase`; the contract names the result (Unicode case
/// mapping) and claims that it depends on the text alone.
#[verifier::external_body]
pub(crate) fn to_uppercase(s: &str) -> (upper: String)
    ensures
        upper@ == uppercase(s@),
{
    s.to_uppercase()
}

/// Whether `part` occurs in `text` starting at position `at`.
pub open spec fn occurs_at(text: Seq<char>, part: Seq<char>, at: int) -> bool {
    0 <= at && at + part.len() <= text.len() && text.subrange(at, at + part.len()) == part
}

/// Whether `part` occurs anywhere in `text`.
pub open spec fn contains_text(text: Seq<char>, part: Seq<char>) -> bool {
    exists|at: int| occurs_at(text, part, at)
}

/// Whether `part` occurs in `text` starting at position `at`.
fn matches_at(text: &str, n: usize, part: &str, m: usize, at: usize) -> (found: bool)
    requires
        n == text@.len(),
        m == part@.len(),
        at + m <= n,
    ensures
        found == occurs_at(text@, part@, at as int),
{
    let mut k: usize = 0;
    while k < m
        invariant
            n == text@.len(),
            m == part@.len(),
            at + m <= n,
            k <= m,
            forall|j: int| 0 <= j < k ==> text@[at + j] == part@[j],
        decreases m - k,
    {
        if text.get_char(at + k) != part.get_char(k) {
            assert(text@.subrange(at as int, at + m)[k as int] != part@[k as int]);
            return false;
        }
        k = k + 1;
    }
    assert(text@.subrange(at as int, at + m) =~= part@);
    true
}

/// Whether `part` occurs anywhere in `text`.
pub fn find_text(text: &str, part: &str) -> (found: bool)
    ensures
        found == contains_text(text@, part@),
{
    let n = text.unicode_len();
    let m = part.unicode_len();
    if m > n {
        assert forall|at: int| !occurs_at(text@, part@, at) by {}
        return false;
    }
    if m == 0 {
        assert(occurs_at(text@, part@, 0)) by {
            assert(text@.subrange(0, 0) =~= part@);
        }
        return true;
    }
    let last = n - m;
    let mut at: usize = 0;
    while at <= last
        invariant
            n == text@.len(),
            m == part@.len(),
            0 < m <= n,
            last == n - m,
            at <= last + 1,
            forall|a: int| 0 <= a < at ==> !occurs_at(text@, part@, a),
        decreases last + 1 - at,
    {
        if matches_at(text, n, part, m, at) {
            return true;
        }
        at = at + 1;
    }
    assert forall|a: int| !occurs_at(text@, part@, a) by {
        if 0 <= a && a < at {
        }
    }
    false
}

/// Whether `text` begins with `part`.
pub fn begins_with(text: &str, part: &str) -> (found: bool)
    ensures
        found == occurs_at(text@, part@, 0),
{
    let n = text.unicode_len();
    let m = part.unicode_len();
    if m > n {
        return false;
    }
    matches_at(text, n, part, m, 0)
}

} // verus!
