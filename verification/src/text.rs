//! Text helpers over the character sequences of strings.

use vstd::prelude::*;
use vstd::string::*;

verus! {

/// Whether `needle` occurs in `hay` starting at position `at`.
pub open spec fn occurs_at(hay: Seq<char>, needle: Seq<char>, at: int) -> bool {
    &&& 0 <= at
    &&& at + needle.len() <= hay.len()
    &&& hay.subrange(at, at + needle.len()) == needle
}

/// Whether `needle` occurs somewhere in `hay` as a contiguous run of characters.
pub open spec fn contains_text(hay: Seq<char>, needle: Seq<char>) -> bool {
    exists|at: int| occurs_at(hay, needle, at)
}

/// The lower-case form of an ASCII letter; every other character is unchanged.
pub open spec fn ascii_lower(c: char) -> char {
    if 'A' <= c && c <= 'Z' {
        ((c as u8) + 32) as u8 as char
    } else {
        c
    }
}

/// Whether `a` and `b` are equal once their ASCII letters are lower-cased.
pub open spec fn eq_ignoring_ascii_case(a: Seq<char>, b: Seq<char>) -> bool {
    &&& a.len() == b.len()
    &&& forall|i: int| 0 <= i < a.len() ==> ascii_lower(#[trigger] a[i]) == ascii_lower(b[i])
}

/// The character that writes the decimal digit `d`.
pub open spec fn digit_char(d: nat) -> char {
    if d == 0 {
        '0'
    } else if d == 1 {
        '1'
    } else if d == 2 {
        '2'
    } else if d == 3 {
        '3'
    } else if d == 4 {
        '4'
    } else if d == 5 {
        '5'
    } else if d == 6 {
        '6'
    } else if d == 7 {
        '7'
    } else if d == 8 {
        '8'
    } else {
        '9'
    }
}

/// The decimal notation of `n`, without sign or leading zeros.
pub open spec fn decimal_text(n: nat) -> Seq<char>
    decreases n,
{
    if n < 10 {
        seq![digit_char(n)]
    } else {
        decimal_text(n / 10).push(digit_char(n % 10))
    }
}

/// The decimal notation of `n`, with a minus sign before a negative number.
pub open spec fn integer_text(n: int) -> Seq<char> {
    if n < 0 {
        seq!['-'] + decimal_text((-n) as nat)
    } else {
        decimal_text(n as nat)
    }
}

/// The text `host:port` of a socket address.
pub open spec fn endpoint_text(host: Seq<char>, port: u16) -> Seq<char> {
    host + seq![':'] + decimal_text(port as nat)
}

/// The characters of `s`, in order.
pub fn chars_of(s: &str) -> (chars: Vec<char>)
    ensures
        chars@ == s@,
{
    let mut chars: Vec<char> = Vec::new();
    for c in it: s.chars()
        invariant
            it.seq() == s@,
            chars@ == it.seq().take(it.index() as int),
    {
        chars.push(c);
    }
    chars
}

/// Whether the two texts hold the same characters.
pub fn text_eq(a: &str, b: &str) -> (same: bool)
    ensures
        same == (a@ == b@),
{
    let left = chars_of(a);
    let right = chars_of(b);
    if left.len() != right.len() {
        return false;
    }
    let mut i: usize = 0;
    while i < left.len()
        invariant
            i <= left.len(),
            left.len() == right.len(),
            left@ == a@,
            right@ == b@,
            forall|k: int| 0 <= k < i ==> left@[k] == right@[k],
        decreases left.len() - i,
    {
        if left[i] != right[i] {
            return false;
        }
        i += 1;
    }
    assert(left@ =~= right@);
    true
}

/// Lower-cases one ASCII letter and leaves any other character as it is.
pub fn to_ascii_lower(c: char) -> (lower: char)
    ensures
        lower == ascii_lower(c),
{
    if 'A' <= c && c <= 'Z' {
        ((c as u8) + 32) as char
    } else {
        c
    }
}

/// ASCII case-insensitive comparison of two texts, as `str::eq_ignore_ascii_case` makes it.
pub fn eq_ignore_ascii_case(a: &str, b: &str) -> (same: bool)
    ensures
        same == eq_ignoring_ascii_case(a@, b@),
{
    let left = chars_of(a);
    let right = chars_of(b);
    if left.len() != right.len() {
        return false;
    }
    let mut i: usize = 0;
    while i < left.len()
        invariant
            i <= left.len(),
            left.len() == right.len(),
            left@ == a@,
            right@ == b@,
            forall|k: int|
                0 <= k < i ==> ascii_lower(#[trigger] left@[k]) == ascii_lower(right@[k]),
        decreases left.len() - i,
    {
        if to_ascii_lower(left[i]) != to_ascii_lower(right[i]) {
            return false;
        }
        i += 1;
    }
    true
}

/// Whether `needle` stands in `hay` at position `at`.
fn occurs_at_index(hay: &Vec<char>, needle: &Vec<char>, at: usize) -> (found: bool)
    requires
        at + needle.len() <= hay.len(),
    ensures
        found == occurs_at(hay@, needle@, at as int),
{
    let mut k: usize = 0;
    while k < needle.len()
        invariant
            k <= needle.len(),
            at + needle.len() <= hay.len(),
            forall|j: int| 0 <= j < k ==> hay@[at + j] == needle@[j],
        decreases needle.len() - k,
    {
        if hay[at + k] != needle[k] {
            assert(hay@.subrange(at as int, at + needle.len())[k as int] == hay@[at + k]);
            return false;
        }
        k += 1;
    }
    assert(hay@.subrange(at as int, at + needle.len()) =~= needle@);
    true
}

/// Whether `needle` occurs in `hay`, as `str::contains` finds it for a text pattern.
pub fn text_contains(hay: &str, needle: &str) -> (found: bool)
    ensures
        found == contains_text(hay@, needle@),
{
    let h = chars_of(hay);
    let n = chars_of(needle);
    if n.len() > h.len() {
        return false;
    }
    let last: usize = h.len() - n.len();
    let mut at: usize = 0;
    loop
        invariant
            at <= last,
            last == h.len() - n.len(),
            h@ == hay@,
            n@ == needle@,
            forall|j: int| 0 <= j < at ==> !occurs_at(h@, n@, j),
        decreases last - at,
    {
        if occurs_at_index(&h, &n, at) {
            return true;
        }
        if at == last {
            return false;
        }
        at += 1;
    }
}

/// The Unicode lower-case form of a text, as `str::to_lowercase` computes it.
pub uninterp spec fn lowercase(s: Seq<char>) -> Seq<char>;

/// Calls `str::to_lowercase`. Nothing is proved of the mapping itself: the
/// contract only gives the result the name [`lowercase`], a function of the
/// characters of `s` alone.
#[verifier::external_body]
pub(crate) fn to_lowercase(s: &str) -> (lower: String)
    ensures
        lower@ == lowercase(s@),
{
    s.to_lowercase()
}

/// The one-character text of the decimal digit `d`.
fn digit_str(d: u64) -> (text: &'static str)
    requires
        d < 10,
    ensures
        text@ == seq![digit_char(d as nat)],
{
    proof {
        reveal_strlit("0");
        reveal_strlit("1");
        reveal_strlit("2");
        reveal_strlit("3");
        reveal_strlit("4");
        reveal_strlit("5");
        reveal_strlit("6");
        reveal_strlit("7");
        reveal_strlit("8");
        reveal_strlit("9");
    }
    let text = if d == 0 {
        "0"
    } else if d == 1 {
        "1"
    } else if d == 2 {
        "2"
    } else if d == 3 {
        "3"
    } else if d == 4 {
        "4"
    } else if d == 5 {
        "5"
    } else if d == 6 {
        "6"
    } else if d == 7 {
        "7"
    } else if d == 8 {
        "8"
    } else {
        "9"
    };
    assert(text@ =~= seq![digit_char(d as nat)]);
    text
}

/// Writes `n` in decimal notation.
pub fn decimal_string(n: u64) -> (text: String)
    ensures
        text@ == decimal_text(n as nat),
    decreases n,
{
    if n < 10 {
        String::from_str(digit_str(n))
    } else {
        let mut text = decimal_string(n / 10);
        text.append(digit_str(n % 10));
        assert(text@ =~= decimal_text(n as nat / 10).push(digit_char(n as nat % 10)));
        text
    }
}

/// Writes a socket address as `host:port`.
pub fn format_endpoint(host: &str, port: u16) -> (text: String)
    ensures
        text@ == endpoint_text(host@, port),
{
    proof {
        reveal_strlit(":");
    }
    let mut text = String::from_str(host);
    text.append(":");
    let digits = decimal_string(port as u64);
    text.append(digits.as_str());
    assert(text@ =~= endpoint_text(host@, port));
    text
}

/// Writes `n` in decimal notation, with a minus sign if it is negative.
pub fn integer_string(n: i32) -> (text: String)
    ensures
        text@ == integer_text(n as int),
{
    if n < 0 {
        proof {
            reveal_strlit("-");
        }
        let magnitude: u64 = (-(n as i64)) as u64;
        let mut text = String::from_str("-");
        let digits = decimal_string(magnitude);
        text.append(digits.as_str());
        assert(text@ =~= integer_text(n as int));
        text
    } else {
        decimal_string(n as u64)
    }
}

} // verus!
