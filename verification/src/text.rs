//! Character-level helpers shared by the widgets: decimal formatting,
//! white-space separated words, substring search and splitting at a
//! separator.
use vstd::prelude::*;

verus! {

// ---------------------------------------------------------------------
// Decimal formatting
// ---------------------------------------------------------------------

/// The ASCII digit for `d` (`0 <= d < 10`).
pub open spec fn digit_char(d: int) -> char {
    (d + 48) as char
}

/// Decimal representation of a natural number, without leading zeros.
pub open spec fn decimal(n: nat) -> Seq<char>
    decreases n,
{
    if n < 10 {
        seq![digit_char(n as int)]
    } else {
        decimal(n / 10).push(digit_char((n % 10) as int))
    }
}

/// Decimal representation of an integer, with a leading `-` when negative
/// (what `{}` prints for an integer).
pub open spec fn signed_decimal(i: int) -> Seq<char> {
    if i < 0 {
        seq!['-'] + decimal((-i) as nat)
    } else {
        decimal(i as nat)
    }
}

/// A natural number printed with at least two digits, zero-padded
/// (what `{:02}` prints for a non-negative integer).
pub open spec fn pad2(n: nat) -> Seq<char> {
    if n < 10 {
        seq!['0'] + decimal(n)
    } else {
        decimal(n)
    }
}

/// Appends one character to a string: `String::push`.
#[verifier::external_body]
pub(crate) fn push_char(s: &mut String, c: char)
    ensures
        final(s)@ == old(s)@.push(c),
{
    s.push(c);
}

fn digit(d: u64) -> (c: char)
    requires
        d < 10,
    ensures
        c == digit_char(d as int),
{
    let b: u8 = 48u8 + d as u8;
    b as char
}

/// Appends the decimal digits of `n`.
pub(crate) fn push_decimal(s: &mut String, n: u64)
    ensures
        final(s)@ == old(s)@ + decimal(n as nat),
    decreases n,
{
    if n >= 10 {
        push_decimal(s, n / 10);
    }
    let c = digit(n % 10);
    push_char(s, c);
    proof {
        if n >= 10 {
            assert(decimal(n as nat) == decimal((n / 10) as nat).push(digit_char((n % 10) as int)));
        }
    }
}

/// Appends `i` as `{}` prints it.
pub(crate) fn push_signed(s: &mut String, i: i64)
    ensures
        final(s)@ == old(s)@ + signed_decimal(i as int),
{
    if i < 0 {
        push_char(s, '-');
        let magnitude: u64 = (0i128 - i as i128) as u64;
        push_decimal(s, magnitude);
        assert(final(s)@ =~= old(s)@ + signed_decimal(i as int)) by {
            assert(magnitude as nat == (-(i as int)) as nat);
        }
    } else {
        push_decimal(s, i as u64);
    }
}

/// Appends `n` as `{:02}` prints it.
pub(crate) fn push_pad2(s: &mut String, n: u64)
    ensures
        final(s)@ == old(s)@ + pad2(n as nat),
{
    if n < 10 {
        push_char(s, '0');
    }
    push_decimal(s, n);
    assert(final(s)@ =~= old(s)@ + pad2(n as nat));
}

// ---------------------------------------------------------------------
// Characters of a string
// ---------------------------------------------------------------------

/// The characters of `s`, one per element.
pub(crate) fn chars_of(s: &str) -> (v: Vec<char>)
    ensures
        v@ == s@,
{
    let n = s.unicode_len();
    let mut v: Vec<char> = Vec::new();
    for i in 0..n
        invariant
            n == s@.len(),
            v@ == s@.take(i as int),
    {
        v.push(s.get_char(i));
        assert(v@ =~= s@.take(i + 1));
    }
    assert(s@.take(n as int) =~= s@);
    v
}

/// A string holding exactly the characters `cs[from..to]`.
pub(crate) fn string_of(cs: &[char], from: usize, to: usize) -> (r: String)
    requires
        from <= to <= cs@.len(),
    ensures
        r@ == cs@.subrange(from as int, to as int),
{
    let mut r = String::new();
    let mut i = from;
    while i < to
        invariant
            from <= i <= to <= cs@.len(),
            r@ == cs@.subrange(from as int, i as int),
        decreases to - i,
    {
        push_char(&mut r, cs[i]);
        i = i + 1;
        assert(r@ =~= cs@.subrange(from as int, i as int));
    }
    r
}

// ---------------------------------------------------------------------
// White space and words
// ---------------------------------------------------------------------

/// The Unicode `White_Space` property, the set that `char::is_whitespace`
/// tests.
pub open spec fn is_white_space(c: char) -> bool {
    ||| ('\t' <= c && c <= '\r')
    ||| c == ' '
    ||| c == '\u{85}'
    ||| c == '\u{a0}'
    ||| c == '\u{1680}'
    ||| ('\u{2000}' <= c && c <= '\u{200a}')
    ||| c == '\u{2028}'
    ||| c == '\u{2029}'
    ||| c == '\u{202f}'
    ||| c == '\u{205f}'
    ||| c == '\u{3000}'
}

pub(crate) fn white_space(c: char) -> (r: bool)
    ensures
        r == is_white_space(c),
{
    ('\t' <= c && c <= '\r') || c == ' ' || c == '\u{85}' || c == '\u{a0}' || c == '\u{1680}'
        || ('\u{2000}' <= c && c <= '\u{200a}') || c == '\u{2028}' || c == '\u{2029}'
        || c == '\u{202f}' || c == '\u{205f}' || c == '\u{3000}'
}

/// Length of the run of non-white-space characters that starts `s`.
pub open spec fn word_len(s: Seq<char>) -> nat
    decreases s.len(),
{
    if s.len() == 0 || is_white_space(s[0]) {
        0
    } else {
        1 + word_len(s.drop_first())
    }
}

pub proof fn lemma_word_len_bound(s: Seq<char>)
    ensures
        word_len(s) <= s.len(),
        s.len() > 0 && !is_white_space(s[0]) ==> word_len(s) >= 1,
    decreases s.len(),
{
    if s.len() > 0 && !is_white_space(s[0]) {
        lemma_word_len_bound(s.drop_first());
    }
}

/// The maximal runs of non-white-space characters of `s`, in order: the
/// items that `str::split_whitespace` yields.
pub open spec fn words(s: Seq<char>) -> Seq<Seq<char>>
    decreases s.len(),
{
    if s.len() == 0 {
        seq![]
    } else if is_white_space(s[0]) {
        words(s.drop_first())
    } else {
        proof {
            lemma_word_len_bound(s);
        }
        seq![s.take(word_len(s) as int)] + words(s.skip(word_len(s) as int))
    }
}

/// Skipping white space at the front does not change the words.
proof fn lemma_words_skip_space(s: Seq<char>, from: int, to: int)
    requires
        0 <= from <= to <= s.len(),
        forall|k: int| from <= k < to ==> is_white_space(#[trigger] s[k]),
    ensures
        words(s.skip(from)) == words(s.skip(to)),
    decreases to - from,
{
    if from < to {
        assert(s.skip(from).drop_first() =~= s.skip(from + 1));
        assert(s.skip(from)[0] == s[from]);
        lemma_words_skip_space(s, from + 1, to);
    }
}

/// The length of the word starting at `from`, when it ends at `to`.
proof fn lemma_word_len_at(s: Seq<char>, from: int, to: int)
    requires
        0 <= from <= to <= s.len(),
        forall|k: int| from <= k < to ==> !is_white_space(#[trigger] s[k]),
        to == s.len() || is_white_space(s[to]),
    ensures
        word_len(s.skip(from)) == to - from,
    decreases to - from,
{
    if from < to {
        assert(s.skip(from).drop_first() =~= s.skip(from + 1));
        assert(s.skip(from)[0] == s[from]);
        lemma_word_len_at(s, from + 1, to);
    } else {
        if to < s.len() {
            assert(s.skip(from)[0] == s[to]);
        }
    }
}

/// Finds the next word at or after `from`: returns `(begin, end)` with
/// `begin == cs.len()` when there is none.
fn next_word(cs: &[char], from: usize) -> (r: (usize, usize))
    requires
        from <= cs@.len(),
    ensures
        from <= r.0 <= r.1 <= cs@.len(),
        r.0 == cs@.len() ==> words(cs@.skip(from as int)) =~= Seq::<Seq<char>>::empty(),
        r.0 < cs@.len() ==> words(cs@.skip(from as int)) =~= seq![
            cs@.subrange(r.0 as int, r.1 as int),
        ] + words(cs@.skip(r.1 as int)),
        r.0 < cs@.len() ==> r.0 < r.1,
{
    let n = cs.len();
    let mut b = from;
    while b < n && white_space(cs[b])
        invariant
            from <= b <= n == cs@.len(),
            forall|k: int| from <= k < b ==> is_white_space(#[trigger] cs@[k]),
        decreases n - b,
    {
        b = b + 1;
    }
    proof {
        lemma_words_skip_space(cs@, from as int, b as int);
    }
    let mut e = b;
    while e < n && !white_space(cs[e])
        invariant
            b <= e <= n == cs@.len(),
            forall|k: int| b <= k < e ==> !is_white_space(#[trigger] cs@[k]),
        decreases n - e,
    {
        e = e + 1;
    }
    proof {
        let t = cs@.skip(b as int);
        if b == n {
            assert(t.len() == 0);
        } else {
            lemma_word_len_at(cs@, b as int, e as int);
            assert(t[0] == cs@[b as int]);
            assert(e > b) by {
                if e == b {
                    assert(e < n);
                }
            }
            assert(t.take(word_len(t) as int) =~= cs@.subrange(b as int, e as int));
            assert(t.skip(word_len(t) as int) =~= cs@.skip(e as int));
        }
    }
    (b, e)
}

/// The `index`-th white-space separated word of `s`, if it has that many:
/// `s.split_whitespace().nth(index)`.
pub fn nth_word(s: &str, index: usize) -> (r: Option<String>)
    ensures
        match r {
            Some(w) => index < words(s@).len() && w@ == words(s@)[index as int],
            None => words(s@).len() <= index,
        },
{
    let cs = chars_of(s);
    let mut pos: usize = 0;
    let mut k: usize = 0;
    assert(cs@.skip(0) =~= cs@);
    loop
        invariant
            pos <= cs@.len(),
            cs@ == s@,
            k <= index,
            words(s@).len() == k + words(cs@.skip(pos as int)).len(),
            forall|j: int|
                k <= j < words(s@).len() ==> #[trigger] words(s@)[j] == words(
                    cs@.skip(pos as int),
                )[j - k],
        decreases index - k,
    {
        let (b, e) = next_word(cs.as_slice(), pos);
        if b == cs.len() {
            return None;
        }
        if k == index {
            let w = string_of(cs.as_slice(), b, e);
            return Some(w);
        }
        proof {
            let ghost rest = words(cs@.skip(e as int));
            assert forall|j: int| k + 1 <= j < words(s@).len() implies #[trigger] words(s@)[j]
                == rest[j - (k + 1)] by {
                assert(words(s@)[j] == words(cs@.skip(pos as int))[j - k]);
            }
        }
        pos = e;
        k = k + 1;
    }
}

// ---------------------------------------------------------------------
// Substrings
// ---------------------------------------------------------------------

/// `needle` occurs in `hay` at position `i`.
pub open spec fn occurs_at(hay: Seq<char>, needle: Seq<char>, i: int) -> bool {
    0 <= i && i + needle.len() <= hay.len() && hay.subrange(i, i + needle.len()) == needle
}

/// `needle` occurs somewhere in `hay`: `str::contains`.
pub open spec fn has_substring(hay: Seq<char>, needle: Seq<char>) -> bool {
    exists|i: int| occurs_at(hay, needle, i)
}

fn occurs_at_exec(hay: &[char], needle: &[char], i: usize) -> (r: bool)
    requires
        i + needle@.len() <= hay@.len(),
    ensures
        r == occurs_at(hay@, needle@, i as int),
{
    let m = needle.len();
    let hl = hay.len();
    let mut j: usize = 0;
    while j < m
        invariant
            m == needle@.len(),
            hl == hay@.len(),
            i + m <= hay@.len(),
            j <= m,
            forall|t: int| 0 <= t < j ==> hay@[i + t] == needle@[t],
        decreases m - j,
    {
        if hay[i + j] != needle[j] {
            assert(hay@.subrange(i as int, i + m)[j as int] != needle@[j as int]);
            return false;
        }
        j = j + 1;
    }
    assert(hay@.subrange(i as int, i + m) =~= needle@);
    true
}

/// Whether `needle` occurs in `hay`.
pub fn contains_str(hay: &str, needle: &str) -> (r: bool)
    ensures
        r == has_substring(hay@, needle@),
{
    let h = chars_of(hay);
    let n = chars_of(needle);
    if n.len() > h.len() {
        assert forall|i: int| !occurs_at(hay@, needle@, i) by {}
        return false;
    }
    let last = h.len() - n.len();
    let mut i: usize = 0;
    loop
        invariant
            h@ == hay@,
            n@ == needle@,
            last + n@.len() == h@.len(),
            i <= last,
            forall|t: int| 0 <= t < i ==> !occurs_at(hay@, needle@, t),
        decreases last - i,
    {
        if occurs_at_exec(h.as_slice(), n.as_slice(), i) {
            return true;
        }
        if i == last {
            assert forall|t: int| !occurs_at(hay@, needle@, t) by {
                if 0 <= t < i {
                }
            }
            return false;
        }
        i = i + 1;
    }
}

// ---------------------------------------------------------------------
// Splitting at a separator
// ---------------------------------------------------------------------

/// `i` is the position of the first `sep` in `s`.
pub open spec fn is_first_index(s: Seq<char>, sep: char, i: int) -> bool {
    &&& 0 <= i < s.len()
    &&& s[i] == sep
    &&& forall|j: int| 0 <= j < i ==> s[j] != sep
}

/// The parts of `s` before and after its first `sep`, if it has one:
/// `str::split_once` with a character pattern.
pub open spec fn split_once_spec(s: Seq<char>, sep: char) -> Option<(Seq<char>, Seq<char>)> {
    if s.contains(sep) {
        let i = choose|i: int| is_first_index(s, sep, i);
        Some((s.take(i), s.skip(i + 1)))
    } else {
        None
    }
}

proof fn lemma_first_index_unique(s: Seq<char>, sep: char, i: int, j: int)
    requires
        is_first_index(s, sep, i),
        is_first_index(s, sep, j),
    ensures
        i == j,
{
}

/// Splits `s` at its first `sep`.
pub fn split_once_char(s: &str, sep: char) -> (r: Option<(String, String)>)
    ensures
        match (r, split_once_spec(s@, sep)) {
            (Some((a, b)), Some((x, y))) => a@ == x && b@ == y,
            (None, None) => true,
            _ => false,
        },
{
    let cs = chars_of(s);
    let n = cs.len();
    let mut i: usize = 0;
    while i < n
        invariant
            n == cs@.len(),
            cs@ == s@,
            i <= n,
            forall|j: int| 0 <= j < i ==> cs@[j] != sep,
        decreases n - i,
    {
        if cs[i] == sep {
            let before = string_of(cs.as_slice(), 0, i);
            let after = string_of(cs.as_slice(), i + 1, n);
            proof {
                assert(is_first_index(s@, sep, i as int));
                assert(s@.contains(sep));
                let c = choose|c: int| is_first_index(s@, sep, c);
                lemma_first_index_unique(s@, sep, c, i as int);
                assert(before@ =~= s@.take(i as int));
                assert(after@ =~= s@.skip(i + 1));
            }
            return Some((before, after));
        }
        i = i + 1;
    }
    proof {
        assert(!s@.contains(sep));
    }
    None
}

} // verus!

verus! {

// ---------------------------------------------------------------------
// Integer division as Rust computes it
// ---------------------------------------------------------------------

/// Quotient rounded toward zero, as Rust's `/` on signed integers
/// (for `b > 0`).
pub open spec fn trunc_div(a: int, b: int) -> int {
    if a >= 0 {
        a / b
    } else {
        -((-a) / b)
    }
}

/// Remainder with the sign of the dividend, as Rust's `%` on signed
/// integers (for `b > 0`).
pub open spec fn trunc_rem(a: int, b: int) -> int {
    a - b * trunc_div(a, b)
}

} // verus!
