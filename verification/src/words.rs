//! Whitespace-separated words, as `str::split_whitespace` yields them.
use vstd::prelude::*;

verus! {

/// The characters with the Unicode `White_Space` property, which is the set
/// that `char::is_whitespace` accepts.
pub open spec fn is_ws(c: char) -> bool {
    let u = c as u32;
    ||| 0x9 <= u <= 0xD
    ||| u == 0x20
    ||| u == 0x85
    ||| u == 0xA0
    ||| u == 0x1680
    ||| 0x2000 <= u <= 0x200A
    ||| u == 0x2028
    ||| u == 0x2029
    ||| u == 0x202F
    ||| u == 0x205F
    ||| u == 0x3000
}

/// `t` holds no whitespace.
pub open spec fn no_ws(t: Seq<char>) -> bool {
    forall|k: int| 0 <= k < t.len() ==> !is_ws(#[trigger] t[k])
}

/// `t` occurs in `s` at `i` as a whole word: delimited on both sides by
/// whitespace or by the ends of `s`.
pub open spec fn word_at(s: Seq<char>, i: int, t: Seq<char>) -> bool {
    &&& 0 <= i
    &&& i + t.len() <= s.len()
    &&& s.subrange(i, i + t.len()) == t
    &&& (i == 0 || is_ws(s[i - 1]))
    &&& (i + t.len() == s.len() || is_ws(s[i + t.len()]))
}

/// `t` is one of the words that `split_whitespace` yields for `s`.
pub open spec fn has_word(s: Seq<char>, t: Seq<char>) -> bool {
    &&& t.len() > 0
    &&& no_ws(t)
    &&& exists|i: int| word_at(s, i, t)
}

/// `char::is_whitespace`.
pub fn is_whitespace_char(c: char) -> (r: bool)
    ensures
        r == is_ws(c),
{
    let u = c as u32;
    (0x9 <= u && u <= 0xD) || u == 0x20 || u == 0x85 || u == 0xA0 || u == 0x1680 || (0x2000 <= u
        && u <= 0x200A) || u == 0x2028 || u == 0x2029 || u == 0x202F || u == 0x205F || u == 0x3000
}

/// `s[start..start + t.len()] == t`.
fn segment_equals(s: &Vec<char>, start: usize, t: &Vec<char>) -> (r: bool)
    requires
        start + t.len() <= s.len(),
    ensures
        r == (s@.subrange(start as int, start + t.len()) == t@),
{
    let mut k: usize = 0;
    while k < t.len()
        invariant
            start + t.len() <= s.len(),
            k <= t.len(),
            forall|j: int| 0 <= j < k ==> s@[start + j] == t@[j],
        decreases t.len() - k,
    {
        if s[start + k] != t[k] {
            assert(s@.subrange(start as int, start + t.len())[k as int] != t@[k as int]);
            return false;
        }
        k += 1;
    }
    assert(s@.subrange(start as int, start + t.len()) =~= t@);
    true
}

/// Whether `t` is one of the whitespace-separated words of `s`.
pub fn contains_word(s: &Vec<char>, t: &Vec<char>) -> (r: bool)
    ensures
        r == has_word(s@, t@),
{
    let m = t.len();
    if m == 0 {
        return false;
    }
    let mut k: usize = 0;
    while k < m
        invariant
            m == t.len(),
            k <= m,
            forall|j: int| 0 <= j < k ==> !is_ws(#[trigger] t@[j]),
        decreases m - k,
    {
        if is_whitespace_char(t[k]) {
            assert(!no_ws(t@));
            return false;
        }
        k += 1;
    }
    let n = s.len();
    if m > n {
        assert forall|i: int| !word_at(s@, i, t@) by {}
        return false;
    }
    let mut i: usize = 0;
    while i <= n - m
        invariant
            m == t.len(),
            n == s.len(),
            0 < m <= n,
            no_ws(t@),
            forall|j: int| 0 <= j < i ==> !word_at(s@, j, t@),
        decreases n - i,
    {
        let mut before_ok = true;
        if i > 0 {
            before_ok = is_whitespace_char(s[i - 1]);
        }
        let mut after_ok = true;
        if i + m < n {
            after_ok = is_whitespace_char(s[i + m]);
        }
        if before_ok && after_ok {
            if segment_equals(s, i, t) {
                assert(word_at(s@, i as int, t@));
                return true;
            }
        }
        i += 1;
    }
    assert forall|j: int| !word_at(s@, j, t@) by {}
    false
}

} // verus!

verus! {

/// The number of leading whitespace characters.
pub open spec fn ws_prefix_len(s: Seq<char>) -> nat
    decreases s.len(),
{
    if s.len() > 0 && is_ws(s[0]) {
        1 + ws_prefix_len(s.drop_first())
    } else {
        0
    }
}

/// The number of leading non-whitespace characters.
pub open spec fn word_prefix_len(s: Seq<char>) -> nat
    decreases s.len(),
{
    if s.len() > 0 && !is_ws(s[0]) {
        1 + word_prefix_len(s.drop_first())
    } else {
        0
    }
}

proof fn lemma_ws_prefix_bound(s: Seq<char>)
    ensures
        ws_prefix_len(s) <= s.len(),
        ws_prefix_len(s) < s.len() ==> !is_ws(s[ws_prefix_len(s) as int]),
        forall|k: int| 0 <= k < ws_prefix_len(s) ==> is_ws(#[trigger] s[k]),
    decreases s.len(),
{
    if s.len() > 0 && is_ws(s[0]) {
        lemma_ws_prefix_bound(s.drop_first());
        assert forall|k: int| 0 <= k < ws_prefix_len(s) implies is_ws(#[trigger] s[k]) by {
            if k > 0 {
                assert(s[k] == s.drop_first()[k - 1]);
            }
        }
    }
}

proof fn lemma_word_prefix_bound(s: Seq<char>)
    ensures
        word_prefix_len(s) <= s.len(),
        word_prefix_len(s) < s.len() ==> is_ws(s[word_prefix_len(s) as int]),
        forall|k: int| 0 <= k < word_prefix_len(s) ==> !is_ws(#[trigger] s[k]),
        s.len() > 0 && !is_ws(s[0]) ==> word_prefix_len(s) > 0,
    decreases s.len(),
{
    if s.len() > 0 && !is_ws(s[0]) {
        lemma_word_prefix_bound(s.drop_first());
        assert forall|k: int| 0 <= k < word_prefix_len(s) implies !is_ws(#[trigger] s[k]) by {
            if k > 0 {
                assert(s[k] == s.drop_first()[k - 1]);
            }
        }
    }
}

/// The words of `s`, in order, as `split_whitespace` yields them.
pub open spec fn words(s: Seq<char>) -> Seq<Seq<char>>
    decreases s.len(),
{
    let rest = s.skip(ws_prefix_len(s) as int);
    if ws_prefix_len(s) > s.len() || rest.len() == 0 {
        Seq::empty()
    } else {
        let w = word_prefix_len(rest);
        if w == 0 || w > rest.len() {
            Seq::empty()
        } else {
            seq![rest.take(w as int)] + words(rest.skip(w as int))
        }
    }
}

proof fn lemma_ws_prefix_exact(s: Seq<char>, k: int)
    requires
        0 <= k <= s.len(),
        forall|j: int| 0 <= j < k ==> is_ws(#[trigger] s[j]),
        k == s.len() || !is_ws(s[k]),
    ensures
        ws_prefix_len(s) == k,
    decreases k,
{
    if k > 0 {
        assert forall|j: int| 0 <= j < k - 1 implies is_ws(#[trigger] s.drop_first()[j]) by {
            assert(s.drop_first()[j] == s[j + 1]);
        }
        lemma_ws_prefix_exact(s.drop_first(), k - 1);
    }
}

proof fn lemma_word_prefix_exact(s: Seq<char>, k: int)
    requires
        0 <= k <= s.len(),
        forall|j: int| 0 <= j < k ==> !is_ws(#[trigger] s[j]),
        k == s.len() || is_ws(s[k]),
    ensures
        word_prefix_len(s) == k,
    decreases k,
{
    if k > 0 {
        assert forall|j: int| 0 <= j < k - 1 implies !is_ws(#[trigger] s.drop_first()[j]) by {
            assert(s.drop_first()[j] == s[j + 1]);
        }
        lemma_word_prefix_exact(s.drop_first(), k - 1);
    }
}

/// Scanning step: `words` of a suffix starting with a whole word.
proof fn lemma_words_step(s: Seq<char>, i: int, k: int, j: int)
    requires
        0 <= i <= k < j <= s.len(),
        forall|m: int| i <= m < k ==> is_ws(#[trigger] s[m]),
        forall|m: int| k <= m < j ==> !is_ws(#[trigger] s[m]),
        j == s.len() || is_ws(s[j]),
    ensures
        words(s.skip(i)) == seq![s.subrange(k, j)] + words(s.skip(j)),
{
    let t = s.skip(i);
    lemma_ws_prefix_exact(t, k - i);
    let rest = t.skip(k - i);
    assert(rest =~= s.skip(k));
    lemma_word_prefix_exact(rest, j - k);
    assert(rest.take(j - k) =~= s.subrange(k, j));
    assert(rest.skip(j - k) =~= s.skip(j));
}

/// Scanning end: a suffix of whitespace only has no words.
proof fn lemma_words_end(s: Seq<char>, i: int)
    requires
        0 <= i <= s.len(),
        forall|m: int| i <= m < s.len() ==> is_ws(#[trigger] s[m]),
    ensures
        words(s.skip(i)) == Seq::<Seq<char>>::empty(),
{
    lemma_ws_prefix_exact(s.skip(i), s.len() - i);
}

/// `str::split_whitespace`, as character sequences.
pub fn split_words(s: &Vec<char>) -> (r: Vec<Vec<char>>)
    ensures
        r@.map_values(|w: Vec<char>| w@) == words(s@),
{
    let n = s.len();
    let mut r: Vec<Vec<char>> = Vec::new();
    let mut i: usize = 0;
    assert(s@.skip(0) =~= s@);
    while i < n
        invariant
            n == s.len(),
            i <= n,
            words(s@) == r@.map_values(|w: Vec<char>| w@) + words(s@.skip(i as int)),
        decreases n - i,
    {
        let start = i;
        let mut k = i;
        while k < n && is_whitespace_char(s[k])
            invariant
                n == s.len(),
                start <= k <= n,
                forall|m: int| start <= m < k ==> is_ws(#[trigger] s@[m]),
            decreases n - k,
        {
            k += 1;
        }
        if k == n {
            proof {
                lemma_words_end(s@, start as int);
                assert(r@.map_values(|w: Vec<char>| w@) + Seq::<Seq<char>>::empty() =~= r@.map_values(
                    |w: Vec<char>| w@,
                ));
                assert(s@.skip(n as int) =~= Seq::<char>::empty());
                assert(words(s@.skip(n as int)) == Seq::<Seq<char>>::empty()) by {
                    lemma_words_end(s@, n as int);
                }
            }
            i = n;
        } else {
            let mut j = k;
            let mut word: Vec<char> = Vec::new();
            while j < n && !is_whitespace_char(s[j])
                invariant
                    n == s.len(),
                    k <= j <= n,
                    forall|m: int| k <= m < j ==> !is_ws(#[trigger] s@[m]),
                    word@ == s@.subrange(k as int, j as int),
                decreases n - j,
            {
                word.push(s[j]);
                assert(word@ =~= s@.subrange(k as int, j + 1));
                j += 1;
            }
            proof {
                lemma_words_step(s@, start as int, k as int, j as int);
            }
            let ghost before = r@.map_values(|w: Vec<char>| w@);
            r.push(word);
            assert(r@.map_values(|w: Vec<char>| w@) =~= before.push(s@.subrange(k as int, j as int)));
            assert(before + (seq![s@.subrange(k as int, j as int)] + words(s@.skip(j as int)))
                =~= before.push(s@.subrange(k as int, j as int)) + words(s@.skip(j as int)));
            i = j;
        }
    }
    assert(s@.skip(n as int) =~= Seq::<char>::empty());
    proof {
        lemma_words_end(s@, n as int);
    }
    assert(r@.map_values(|w: Vec<char>| w@) + Seq::<Seq<char>>::empty() =~= r@.map_values(
        |w: Vec<char>| w@,
    ));
    r
}

} // verus!

verus! {

proof fn lemma_word_at_shift(s: Seq<char>, d: int, i: int, t: Seq<char>)
    requires
        0 <= d <= s.len(),
        0 <= i,
        t.len() > 0,
        no_ws(t),
    ensures
        (i > 0 || d == 0 || is_ws(s[d - 1])) ==> (word_at(s.skip(d), i, t) ==> word_at(s, d + i, t)),
        word_at(s, d + i, t) ==> word_at(s.skip(d), i, t),
{
    let u = s.skip(d);
    if word_at(u, i, t) {
        assert(s.subrange(d + i, d + i + t.len()) =~= u.subrange(i, i + t.len()));
        if i > 0 {
            assert(s[d + i - 1] == u[i - 1]);
        }
        if i + t.len() < u.len() {
            assert(s[d + i + t.len()] == u[i + t.len()]);
        }
    }
    if word_at(s, d + i, t) {
        assert(s.subrange(d + i, d + i + t.len()) =~= u.subrange(i, i + t.len()));
        if i > 0 {
            assert(s[d + i - 1] == u[i - 1]);
        }
        if i + t.len() < u.len() {
            assert(s[d + i + t.len()] == u[i + t.len()]);
        }
    }
}

/// Class matching by position agrees with `split_whitespace`: `t` is a
/// whole word of `s` exactly when it is one of the words that
/// `split_whitespace` yields.
pub proof fn lemma_has_word_iff_in_words(s: Seq<char>, t: Seq<char>)
    ensures
        has_word(s, t) <==> words(s).contains(t),
    decreases s.len(),
{
    lemma_ws_prefix_bound(s);
    let a = ws_prefix_len(s) as int;
    let rest = s.skip(a);
    if rest.len() == 0 {
        if has_word(s, t) {
            let i = choose|i: int| word_at(s, i, t);
            assert(is_ws(s[i]));
            assert(t[0] == s.subrange(i, i + t.len())[0]);
        }
        assert(words(s) =~= Seq::<Seq<char>>::empty());
    } else {
        lemma_word_prefix_bound(rest);
        let w = word_prefix_len(rest) as int;
        let word = rest.take(w);
        let u = rest.skip(w);
        assert(u =~= s.skip(a + w));
        lemma_has_word_iff_in_words(u, t);
        assert(words(s) == seq![word] + words(u));
        if words(s).contains(t) {
            if t == word {
                assert(s.subrange(a, a + w) =~= word);
                assert forall|k: int| 0 <= k < t.len() implies !is_ws(#[trigger] t[k]) by {
                    assert(t[k] == rest[k]);
                }
                if a > 0 {
                    assert(is_ws(s[a - 1]));
                }
                if a + w < s.len() {
                    assert(s[a + w] == rest[w]);
                }
                assert(word_at(s, a, t));
            } else {
                let j = choose|j: int| 0 <= j < words(s).len() && words(s)[j] == t;
                assert(j > 0);
                assert(words(u)[j - 1] == t);
                assert(words(u).contains(t));
                let i = choose|i: int| word_at(u, i, t);
                if i == 0 {
                    // u starts with whitespace, so a word cannot start there.
                    assert(u[0] == rest[w]);
                    assert(t[0] == u.subrange(0, t.len() as int)[0]);
                }
                lemma_word_at_shift(s, a + w, i, t);
            }
        }
        if has_word(s, t) {
            let i = choose|i: int| word_at(s, i, t);
            assert(t[0] == s.subrange(i, i + t.len())[0]);
            if i < a {
                assert(is_ws(s[i]));
            }
            assert(i >= a);
            if i == a {
                // The word at `a` extends exactly to the end of the run.
                assert forall|k: int| 0 <= k < t.len() implies !is_ws(#[trigger] rest[k]) by {
                    assert(rest[k] == s.subrange(i, i + t.len())[k]);
                }
                if t.len() < w {
                    assert(rest[t.len() as int] == s[i + t.len()]);
                }
                if t.len() > w {
                    assert(rest[w] == s.subrange(i, i + t.len())[w]);
                }
                assert(t.len() == w);
                assert(word =~= t);
                assert(words(s)[0] == t);
            } else {
                assert(is_ws(s[i - 1]));
                if i - 1 < a + w {
                    assert(s[i - 1] == rest[i - 1 - a]);
                }
                assert(i - (a + w) > 0);
                lemma_word_at_shift(s, a + w, i - (a + w), t);
                assert(word_at(u, i - (a + w), t));
                assert(words(u).contains(t));
                let j = choose|j: int| 0 <= j < words(u).len() && words(u)[j] == t;
                assert(words(s)[j + 1] == t);
            }
        }
    }
}

} // verus!
