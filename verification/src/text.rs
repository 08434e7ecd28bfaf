//! Verified text helpers: line splitting, whitespace splitting, trimming
//! and number formatting, each proved against a direct specification.

use vstd::prelude::*;

verus! {

/// Holds for the characters treated as blank inside a line.
pub open spec fn is_space_char(c: char) -> bool {
    c == ' ' || c == '\t' || c == '\r'
}

/// Returns `true` for a character treated as blank inside a line.
pub fn is_space(c: char) -> (r: bool)
    ensures
        r == is_space_char(c),
{
    c == ' ' || c == '\t' || c == '\r'
}

/// The length of the longest prefix of `s` that holds no blank character.
pub open spec fn word_len(s: Seq<char>) -> int
    decreases s.len(),
{
    if s.len() == 0 || is_space_char(s[0]) {
        0
    } else {
        1 + word_len(s.drop_first())
    }
}

proof fn lemma_word_len_bound(s: Seq<char>)
    ensures
        0 <= word_len(s) <= s.len(),
    decreases s.len(),
{
    if s.len() > 0 && !is_space_char(s[0]) {
        lemma_word_len_bound(s.drop_first());
    }
}

proof fn lemma_word_len_is(s: Seq<char>, k: int)
    requires
        0 <= k <= s.len(),
        forall|m: int| 0 <= m < k ==> !is_space_char(#[trigger] s[m]),
        k < s.len() ==> is_space_char(s[k]),
    ensures
        word_len(s) == k,
    decreases k,
{
    if k > 0 {
        assert(!is_space_char(s[0]));
        let t = s.drop_first();
        assert forall|m: int| 0 <= m < k - 1 implies !is_space_char(#[trigger] t[m]) by {
            assert(t[m] == s[m + 1]);
        }
        if k - 1 < t.len() {
            assert(t[k - 1] == s[k]);
        }
        lemma_word_len_is(t, k - 1);
    }
}

/// The words of `s`: the maximal runs of non-blank characters, in order.
pub open spec fn split_words_spec(s: Seq<char>) -> Seq<Seq<char>>
    decreases s.len(),
    when s.len() >= 0
    via split_words_spec_decreases
{
    if s.len() == 0 {
        Seq::empty()
    } else if is_space_char(s[0]) {
        split_words_spec(s.drop_first())
    } else {
        seq![s.subrange(0, word_len(s))] + split_words_spec(s.skip(word_len(s)))
    }
}

#[via_fn]
proof fn split_words_spec_decreases(s: Seq<char>) {
    if s.len() > 0 && !is_space_char(s[0]) {
        lemma_word_len_bound(s.drop_first());
        assert(word_len(s) >= 1);
    }
}

/// The views of a sequence of owned strings.
pub open spec fn views_of(v: Seq<String>) -> Seq<Seq<char>> {
    v.map_values(|x: String| x@)
}

/// Splits `s` into its words: the maximal runs of non-blank characters,
/// in order. A string of blanks alone yields no words.
pub fn split_words(s: &str) -> (r: Vec<String>)
    ensures
        views_of(r@) == split_words_spec(s@),
{
    let n = s.unicode_len();
    let r = split_words_from(s, n, 0);
    proof {
        assert(s@.skip(0) =~= s@);
    }
    r
}

fn split_words_from(s: &str, n: usize, i: usize) -> (r: Vec<String>)
    requires
        n == s@.len(),
        i <= n,
    ensures
        views_of(r@) == split_words_spec(s@.skip(i as int)),
    decreases n - i,
{
    if i == n {
        let r: Vec<String> = Vec::new();
        proof {
            assert(s@.skip(i as int).len() == 0);
            assert(views_of(r@) =~= split_words_spec(s@.skip(i as int)));
        }
        return r;
    }
    let c = s.get_char(i);
    proof {
        assert(s@.skip(i as int)[0] == s@[i as int]);
    }
    if is_space(c) {
        let r = split_words_from(s, n, i + 1);
        proof {
            assert(s@.skip(i as int).drop_first() =~= s@.skip(i + 1));
        }
        return r;
    }
    // Scan to the end of the word that starts at `i`.
    let mut j: usize = i + 1;
    while j < n && !is_space(s.get_char(j))
        invariant
            n == s@.len(),
            i < j <= n,
            forall|m: int| i <= m < j ==> !is_space_char(#[trigger] s@[m]),
        decreases n - j,
    {
        j = j + 1;
    }
    let word = s.substring_char(i, j).to_owned();
    let rest = split_words_from(s, n, j);
    let mut r = rest;
    r.insert(0, word);
    proof {
        let tail = s@.skip(i as int);
        assert forall|m: int| 0 <= m < j - i implies !is_space_char(#[trigger] tail[m]) by {
            assert(tail[m] == s@[i + m]);
        }
        if j < n {
            assert(tail[j - i] == s@[j as int]);
        }
        lemma_word_len_is(tail, j - i);
        assert(tail.subrange(0, j - i) =~= s@.subrange(i as int, j as int));
        assert(tail.skip(j - i) =~= s@.skip(j as int));
        assert(views_of(r@) =~= seq![word@] + views_of(rest@));
        assert(views_of(r@) =~= split_words_spec(tail));
    }
    r
}

/// `s` with its leading and trailing blank characters removed.
pub open spec fn trim_spec(s: Seq<char>) -> Seq<char>
    decreases s.len(),
{
    if s.len() == 0 {
        s
    } else if is_space_char(s[0]) {
        trim_spec(s.drop_first())
    } else if is_space_char(s.last()) {
        trim_spec(s.drop_last())
    } else {
        s
    }
}

/// Returns `s` without its leading and trailing blank characters.
pub fn trim(s: &str) -> (r: String)
    ensures
        r@ == trim_spec(s@),
    decreases s@.len(),
{
    let n = s.unicode_len();
    if n == 0 {
        return String::new();
    }
    if is_space(s.get_char(0)) {
        let rest = s.substring_char(1, n);
        proof {
            assert(rest@ =~= s@.drop_first());
        }
        return trim(rest);
    }
    if is_space(s.get_char(n - 1)) {
        proof {
            assert(s@[n - 1] == s@.last());
        }
        let rest = s.substring_char(0, n - 1);
        proof {
            assert(rest@ =~= s@.drop_last());
        }
        return trim(rest);
    }
    s.to_owned()
}

/// Returns `true` when `s` begins with `prefix`.
pub fn str_starts_with(s: &str, prefix: &str) -> (r: bool)
    ensures
        r == (s@.len() >= prefix@.len() && s@.subrange(0, prefix@.len() as int) == prefix@),
{
    let n = s.unicode_len();
    let p = prefix.unicode_len();
    if n < p {
        return false;
    }
    let mut i: usize = 0;
    while i < p
        invariant
            n == s@.len(),
            p == prefix@.len(),
            p <= n,
            0 <= i <= p,
            forall|j: int| 0 <= j < i ==> s@[j] == prefix@[j],
        decreases p - i,
    {
        if s.get_char(i) != prefix.get_char(i) {
            proof {
                assert(s@.subrange(0, p as int)[i as int] != prefix@[i as int]);
            }
            return false;
        }
        i = i + 1;
    }
    proof {
        assert(s@.subrange(0, p as int) =~= prefix@);
    }
    true
}

/// Returns the first position of `c` in `s`, or `None` when `s` does not
/// hold it.
pub fn index_of_char(s: &str, c: char) -> (r: Option<usize>)
    ensures
        match r {
            Some(i) => i < s@.len() && s@[i as int] == c && forall|j: int|
                0 <= j < i ==> s@[j] != c,
            None => forall|j: int| 0 <= j < s@.len() ==> s@[j] != c,
        },
{
    let n = s.unicode_len();
    let mut i: usize = 0;
    while i < n
        invariant
            n == s@.len(),
            0 <= i <= n,
            forall|j: int| 0 <= j < i ==> s@[j] != c,
        decreases n - i,
    {
        if s.get_char(i) == c {
            return Some(i);
        }
        i = i + 1;
    }
    None
}

/// The decimal digits of `n`, most significant first.
pub open spec fn decimal_digits(n: int) -> Seq<char>
    decreases n,
{
    if n < 10 {
        seq![digit_char(n)]
    } else {
        decimal_digits(n / 10).push(digit_char(n % 10))
    }
}

/// The character for one decimal digit.
pub open spec fn digit_char(d: int) -> char {
    if d == 0 {
        '0'
    } else if d == 1 {
        '1'
    } else if d == 2 {
        '2'
    } else if d == 3 {
        '3'
    } else if d == 4 {
        '4'
    } else if d == 5 {
        '5'
    } else if d == 6 {
        '6'
    } else if d == 7 {
        '7'
    } else if d == 8 {
        '8'
    } else {
        '9'
    }
}

/// Appends the decimal digits of `n` to `out`.
pub fn push_decimal(out: &mut String, n: usize)
    ensures
        final(out)@ == old(out)@ + decimal_digits(n as int),
    decreases n,
{
    if n >= 10 {
        push_decimal(out, n / 10);
    }
    let d = n % 10;
    if d == 0 {
        out.append("0");
    } else if d == 1 {
        out.append("1");
    } else if d == 2 {
        out.append("2");
    } else if d == 3 {
        out.append("3");
    } else if d == 4 {
        out.append("4");
    } else if d == 5 {
        out.append("5");
    } else if d == 6 {
        out.append("6");
    } else if d == 7 {
        out.append("7");
    } else if d == 8 {
        out.append("8");
    } else {
        out.append("9");
    }
    proof {
        reveal_strlit("0");
        reveal_strlit("1");
        reveal_strlit("2");
        reveal_strlit("3");
        reveal_strlit("4");
        reveal_strlit("5");
        reveal_strlit("6");
        reveal_strlit("7");
        reveal_strlit("8");
        reveal_strlit("9");
        if n < 10 {
            assert(decimal_digits(n as int) =~= seq![digit_char(n as int)]);
            assert(final(out)@ =~= old(out)@ + decimal_digits(n as int));
        } else {
            assert(final(out)@ =~= old(out)@ + decimal_digits(n as int));
        }
    }
}

} // verus!
