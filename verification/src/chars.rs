//! Character-level helpers over `str`.
use vstd::prelude::*;

verus! {

broadcast use vstd::string::group_string_axioms;

/// The characters of `s`, in order.
pub fn chars_of(s: &str) -> (r: Vec<char>)
    ensures
        r@ == s@,
{
    let mut r: Vec<char> = Vec::new();
    for c in it: s.chars()
        invariant
            r@ == it.seq().take(it.index() as int),
            it.seq() == s@,
    {
        r.push(c);
    }
    r
}

} // verus!

verus! {

/// ASCII lower-casing of one character; other characters are unchanged.
pub open spec fn ascii_lower(c: char) -> char {
    if 'A' <= c <= 'Z' {
        ((c as u32) + 32) as char
    } else {
        c
    }
}

/// The code of a character after ASCII lower-casing.
pub open spec fn lower_code(c: char) -> int {
    if 'A' <= c <= 'Z' {
        (c as u32) + 32
    } else {
        c as u32 as int
    }
}

/// `a` and `b` are equal up to ASCII case.
pub open spec fn eq_ascii_ci(a: Seq<char>, b: Seq<char>) -> bool {
    a.len() == b.len() && forall|i: int| 0 <= i < a.len() ==> lower_code(#[trigger] a[i]) == lower_code(b[i])
}

/// Character-wise `ascii_lower`.
pub open spec fn lower_ascii_seq(s: Seq<char>) -> Seq<char> {
    s.map_values(|c: char| ascii_lower(c))
}

/// String equality.
pub fn str_equals(a: &str, b: &str) -> (r: bool)
    ensures
        r == (a@ == b@),
{
    let x = chars_of(a);
    let y = chars_of(b);
    if x.len() != y.len() {
        return false;
    }
    let mut i: usize = 0;
    while i < x.len()
        invariant
            x.len() == y.len(),
            x@ == a@,
            y@ == b@,
            i <= x.len(),
            forall|j: int| 0 <= j < i ==> x@[j] == y@[j],
        decreases x.len() - i,
    {
        if x[i] != y[i] {
            return false;
        }
        i += 1;
    }
    assert(x@ =~= y@);
    true
}

fn lower_char_code(c: char) -> (r: u32)
    ensures
        r as int == lower_code(c),
{
    if 'A' <= c && c <= 'Z' {
        (c as u32) + 32
    } else {
        c as u32
    }
}

/// `str::eq_ignore_ascii_case`.
pub fn eq_ignore_ascii_case(a: &str, b: &str) -> (r: bool)
    ensures
        r == eq_ascii_ci(a@, b@),
{
    let x = chars_of(a);
    let y = chars_of(b);
    if x.len() != y.len() {
        return false;
    }
    let mut i: usize = 0;
    while i < x.len()
        invariant
            x.len() == y.len(),
            x@ == a@,
            y@ == b@,
            i <= x.len(),
            forall|j: int| 0 <= j < i ==> lower_code(x@[j]) == lower_code(y@[j]),
        decreases x.len() - i,
    {
        if lower_char_code(x[i]) != lower_char_code(y[i]) {
            return false;
        }
        i += 1;
    }
    true
}

/// `str::to_ascii_lowercase`, whose documentation says: ASCII letters 'A' to
/// 'Z' are mapped to 'a' to 'z', other characters are unchanged.
#[verifier::external_body]
pub fn to_ascii_lowercase(s: &str) -> (r: String)
    ensures
        r@ == lower_ascii_seq(s@),
{
    s.to_ascii_lowercase()
}

} // verus!
