//! Characters, words and lines: the text handling that the command console
//! and the device's replies need.

use vstd::prelude::*;

verus! {

/// Appends one character to a string (std's `String::push`); the contract
/// claims that the string's characters grow by exactly that character.
#[verifier::external_body]
pub(crate) fn string_push(s: &mut String, c: char)
    ensures
        final(s)@ == old(s)@.push(c),
{
    s.push(c);
}

/// Unicode `White_Space`, the set that `char::is_whitespace` tests.
pub open spec fn is_whitespace(c: char) -> bool {
    let n = c as u32;
    ||| 9 <= n <= 13
    ||| n == 32
    ||| n == 0x85
    ||| n == 0xa0
    ||| n == 0x1680
    ||| 0x2000 <= n <= 0x200a
    ||| n == 0x2028
    ||| n == 0x2029
    ||| n == 0x202f
    ||| n == 0x205f
    ||| n == 0x3000
}

pub fn char_is_whitespace(c: char) -> (b: bool)
    ensures
        b == is_whitespace(c),
{
    let n = c as u32;
    (9 <= n && n <= 13) || n == 32 || n == 0x85 || n == 0xa0 || n == 0x1680 || (0x2000 <= n && n
        <= 0x200a) || n == 0x2028 || n == 0x2029 || n == 0x202f || n == 0x205f || n == 0x3000
}

/// Length of the run of non-whitespace characters that starts `s`.
pub open spec fn word_len(s: Seq<char>) -> nat
    decreases s.len(),
{
    if s.len() > 0 && !is_whitespace(s[0]) {
        1 + word_len(s.drop_first())
    } else {
        0
    }
}

pub proof fn lemma_word_len_bound(s: Seq<char>)
    ensures
        word_len(s) <= s.len(),
        s.len() > 0 && !is_whitespace(s[0]) ==> word_len(s) >= 1,
    decreases s.len(),
{
    if s.len() > 0 && !is_whitespace(s[0]) {
        lemma_word_len_bound(s.drop_first());
    }
}

/// A run of `k` non-whitespace characters that ends at the end of `s` or
/// before whitespace is the word that starts `s`.
pub proof fn lemma_word_len_exact(s: Seq<char>, k: nat)
    requires
        k <= s.len(),
        forall|m: int| 0 <= m < k ==> !is_whitespace(#[trigger] s[m]),
        k == s.len() || is_whitespace(s[k as int]),
    ensures
        word_len(s) == k,
    decreases k,
{
    if k > 0 {
        assert forall|m: int| 0 <= m < k - 1 implies !is_whitespace(#[trigger] s.drop_first()[m]) by {
            assert(s.drop_first()[m] == s[m + 1]);
        }
        lemma_word_len_exact(s.drop_first(), (k - 1) as nat);
    }
}

/// The whitespace-separated words of `s`, as `str::split_whitespace` yields
/// them: maximal runs of non-whitespace characters, never empty.
pub open spec fn words(s: Seq<char>) -> Seq<Seq<char>>
    decreases s.len(),
{
    if s.len() == 0 {
        seq![]
    } else if is_whitespace(s[0]) {
        words(s.drop_first())
    } else {
        let n = word_len(s);
        proof {
            lemma_word_len_bound(s);
        }
        seq![s.take(n as int)] + words(s.skip(n as int))
    }
}

/// The characters of a string slice, in order.
pub fn chars_of(s: &str) -> (r: Vec<char>)
    ensures
        r@ == s@,
{
    let mut r: Vec<char> = Vec::new();
    for c in it: s.chars()
        invariant
            r@ == it.seq().take(it.index() as int),
    {
        r.push(c);
    }
    r
}

/// A string made of the given characters.
pub fn string_from_chars(cs: &[char]) -> (r: String)
    ensures
        r@ == cs@,
{
    let mut r = String::new();
    let mut i: usize = 0;
    while i < cs.len()
        invariant
            i <= cs@.len(),
            r@ == cs@.take(i as int),
        decreases cs@.len() - i,
    {
        string_push(&mut r, cs[i]);
        assert(cs@.take(i + 1) =~= cs@.take(i as int).push(cs@[i as int]));
        i += 1;
    }
    assert(cs@.take(cs@.len() as int) =~= cs@);
    r
}

pub open spec fn string_views(v: Seq<String>) -> Seq<Seq<char>> {
    v.map_values(|w: String| w@)
}

/// Splits a string into its whitespace-separated words.
pub fn split_words(s: &str) -> (r: Vec<String>)
    ensures
        string_views(r@) == words(s@),
{
    let cs = chars_of(s);
    let n = cs.len();
    let mut out: Vec<String> = Vec::new();
    let mut i: usize = 0;
    assert(cs@.skip(0) =~= cs@);
    while i < n
        invariant
            n == cs@.len(),
            i <= n,
            string_views(out@) + words(cs@.skip(i as int)) == words(cs@),
        decreases n - i,
    {
        let ghost rest = cs@.skip(i as int);
        if char_is_whitespace(cs[i]) {
            assert(rest.drop_first() =~= cs@.skip(i + 1));
            i += 1;
        } else {
            let start = i;
            let mut w = String::new();
            while i < n && !char_is_whitespace(cs[i])
                invariant
                    n == cs@.len(),
                    start < n,
                    rest == cs@.skip(start as int),
                    start <= i <= n,
                    w@ == cs@.subrange(start as int, i as int),
                    forall|m: int| start <= m < i ==> !is_whitespace(#[trigger] cs@[m]),
                decreases n - i,
            {
                string_push(&mut w, cs[i]);
                assert(cs@.subrange(start as int, i + 1) =~= cs@.subrange(start as int, i as int).push(cs@[i as int]));
                i += 1;
            }
            assert forall|m: int| 0 <= m < i - start implies !is_whitespace(#[trigger] rest[m]) by {
                assert(rest[m] == cs@[start + m]);
            }
            proof {
                lemma_word_len_exact(rest, (i - start) as nat);
            }
            assert(rest.take((i - start) as int) =~= w@);
            assert(rest.skip((i - start) as int) =~= cs@.skip(i as int));
            let ghost before = string_views(out@);
            out.push(w);
            assert(string_views(out@) =~= before.push(w@));
            assert(string_views(out@) + words(cs@.skip(i as int)) =~= before + (seq![w@] + words(cs@.skip(i as int))));
        }
    }
    assert(cs@.skip(n as int) =~= Seq::<char>::empty());
    assert(string_views(out@) + words(cs@.skip(n as int)) =~= string_views(out@));
    out
}


// ---------------------------------------------------------------------
// Trimming
// ---------------------------------------------------------------------

/// Number of whitespace characters that start `s`.
pub open spec fn leading_space(s: Seq<char>) -> nat
    decreases s.len(),
{
    if s.len() > 0 && is_whitespace(s[0]) {
        1 + leading_space(s.drop_first())
    } else {
        0
    }
}

/// Number of whitespace characters that end `s`.
pub open spec fn trailing_space(s: Seq<char>) -> nat
    decreases s.len(),
{
    if s.len() > 0 && is_whitespace(s.last()) {
        1 + trailing_space(s.drop_last())
    } else {
        0
    }
}

/// `str::trim`: `s` without its leading and trailing whitespace.
pub open spec fn trim(s: Seq<char>) -> Seq<char> {
    let t = s.skip(leading_space(s) as int);
    t.take(t.len() - trailing_space(t))
}

proof fn lemma_leading_space_exact(s: Seq<char>, k: nat)
    requires
        k <= s.len(),
        forall|m: int| 0 <= m < k ==> is_whitespace(#[trigger] s[m]),
        k == s.len() || !is_whitespace(s[k as int]),
    ensures
        leading_space(s) == k,
    decreases k,
{
    if k > 0 {
        assert forall|m: int| 0 <= m < k - 1 implies is_whitespace(#[trigger] s.drop_first()[m]) by {
            assert(s.drop_first()[m] == s[m + 1]);
        }
        lemma_leading_space_exact(s.drop_first(), (k - 1) as nat);
    }
}

proof fn lemma_trailing_space_exact(s: Seq<char>, k: nat)
    requires
        k <= s.len(),
        forall|m: int| s.len() - k <= m < s.len() ==> is_whitespace(#[trigger] s[m]),
        k == s.len() || !is_whitespace(s[s.len() - k - 1]),
    ensures
        trailing_space(s) == k,
    decreases k,
{
    if k > 0 {
        let d = s.drop_last();
        assert forall|m: int| d.len() - (k - 1) <= m < d.len() implies is_whitespace(#[trigger] d[m]) by {
            assert(d[m] == s[m]);
        }
        if k - 1 < d.len() {
            assert(d[d.len() - (k - 1) - 1] == s[s.len() - k - 1]);
        }
        lemma_trailing_space_exact(d, (k - 1) as nat);
    }
}

/// `s` without its leading and trailing whitespace.
pub fn trim_chars(s: &[char]) -> (r: Vec<char>)
    ensures
        r@ == trim(s@),
{
    let n = s.len();
    let mut a: usize = 0;
    while a < n && char_is_whitespace(s[a])
        invariant
            n == s@.len(),
            a <= n,
            forall|m: int| 0 <= m < a ==> is_whitespace(#[trigger] s@[m]),
        decreases n - a,
    {
        a += 1;
    }
    proof {
        lemma_leading_space_exact(s@, a as nat);
    }
    let ghost t = s@.skip(a as int);
    let mut b: usize = 0;
    while b < n - a && char_is_whitespace(s[n - 1 - b])
        invariant
            n == s@.len(),
            a <= n,
            t == s@.skip(a as int),
            b <= n - a,
            forall|m: int| t.len() - b <= m < t.len() ==> is_whitespace(#[trigger] t[m]),
        decreases n - a - b,
    {
        assert(t[t.len() - b - 1] == s@[n - 1 - b]);
        b += 1;
    }
    if b < n - a {
        assert(t[t.len() - b - 1] == s@[n - 1 - b]);
    }
    proof {
        lemma_trailing_space_exact(t, b as nat);
    }
    let r = vstd::slice::slice_to_vec(vstd::slice::slice_subrange(s, a, n - b));
    assert(r@ =~= t.take(t.len() - b));
    r
}

// ---------------------------------------------------------------------
// Lines
// ---------------------------------------------------------------------

/// Position of the first `\n` in `s`, or its length when there is none.
pub open spec fn newline_pos(s: Seq<char>) -> nat
    decreases s.len(),
{
    if s.len() == 0 || s[0] == '\n' {
        0
    } else {
        1 + newline_pos(s.drop_first())
    }
}

proof fn lemma_newline_pos(s: Seq<char>, k: nat)
    requires
        k <= s.len(),
        forall|m: int| 0 <= m < k ==> #[trigger] s[m] != '\n',
        k == s.len() || s[k as int] == '\n',
    ensures
        newline_pos(s) == k,
    decreases k,
{
    if k > 0 {
        assert forall|m: int| 0 <= m < k - 1 implies #[trigger] s.drop_first()[m] != '\n' by {
            assert(s.drop_first()[m] == s[m + 1]);
        }
        lemma_newline_pos(s.drop_first(), (k - 1) as nat);
    }
}

pub proof fn lemma_newline_pos_bound(s: Seq<char>)
    ensures
        newline_pos(s) <= s.len(),
        newline_pos(s) < s.len() ==> s[newline_pos(s) as int] == '\n',
    decreases s.len(),
{
    if s.len() > 0 && s[0] != '\n' {
        lemma_newline_pos_bound(s.drop_first());
    }
}

/// A line without the `\r` of a `\r\n` ending.
pub open spec fn strip_cr(line: Seq<char>) -> Seq<char> {
    if line.len() > 0 && line.last() == '\r' {
        line.drop_last()
    } else {
        line
    }
}

/// `str::lines`: the pieces between `\n`s, each without a `\r` just before
/// its `\n`; a final `\n` ends the last line rather than starting an empty
/// one.
pub open spec fn lines(s: Seq<char>) -> Seq<Seq<char>>
    decreases s.len(),
{
    if s.len() == 0 {
        seq![]
    } else {
        let k = newline_pos(s);
        proof {
            lemma_newline_pos_bound(s);
        }
        if k >= s.len() {
            seq![s]
        } else {
            seq![strip_cr(s.take(k as int))] + lines(s.skip(k + 1 as int))
        }
    }
}

pub open spec fn char_views(v: Seq<Vec<char>>) -> Seq<Seq<char>> {
    v.map_values(|x: Vec<char>| x@)
}

/// Splits text into its lines.
pub fn split_lines(text: &[char]) -> (r: Vec<Vec<char>>)
    ensures
        char_views(r@) == lines(text@),
{
    let n = text.len();
    let mut out: Vec<Vec<char>> = Vec::new();
    let mut i: usize = 0;
    assert(text@.skip(0) =~= text@);
    while i < n
        invariant
            n == text@.len(),
            i <= n,
            char_views(out@) + lines(text@.skip(i as int)) == lines(text@),
        decreases n - i,
    {
        let ghost rest = text@.skip(i as int);
        let mut j = i;
        while j < n && text[j] != '\n'
            invariant
                n == text@.len(),
                i <= j <= n,
                forall|m: int| i <= m < j ==> #[trigger] text@[m] != '\n',
            decreases n - j,
        {
            j += 1;
        }
        assert forall|m: int| 0 <= m < j - i implies #[trigger] rest[m] != '\n' by {
            assert(rest[m] == text@[i + m]);
        }
        proof {
            lemma_newline_pos(rest, (j - i) as nat);
        }
        let ghost before = char_views(out@);
        if j == n {
            let line = vstd::slice::slice_to_vec(vstd::slice::slice_subrange(text, i, n));
            assert(line@ =~= rest);
            out.push(line);
            assert(char_views(out@) =~= before.push(line@));
            assert(text@.skip(n as int) =~= Seq::<char>::empty());
            assert(char_views(out@) + lines(text@.skip(n as int)) =~= before + lines(rest));
            i = n;
        } else {
            let end = if j > i && text[j - 1] == '\r' {
                j - 1
            } else {
                j
            };
            let line = vstd::slice::slice_to_vec(vstd::slice::slice_subrange(text, i, end));
            assert(line@ =~= strip_cr(rest.take((j - i) as int)));
            assert(rest.skip(j - i + 1) =~= text@.skip(j + 1));
            out.push(line);
            assert(char_views(out@) =~= before.push(line@));
            assert(char_views(out@) + lines(text@.skip(j + 1)) =~= before + lines(rest));
            i = j + 1;
        }
    }
    assert(text@.skip(n as int) =~= Seq::<char>::empty());
    assert(char_views(out@) + lines(text@.skip(n as int)) =~= char_views(out@));
    out
}

/// `needle` occurs in `haystack` (an empty needle everywhere).
pub open spec fn contains(haystack: Seq<char>, needle: Seq<char>) -> bool {
    exists|i: int|
        0 <= i && i + needle.len() <= haystack.len() && #[trigger] haystack.subrange(
            i,
            i + needle.len(),
        ) == needle
}

pub fn contains_chars(haystack: &[char], needle: &[char]) -> (b: bool)
    ensures
        b == contains(haystack@, needle@),
{
    let n = haystack.len();
    let k = needle.len();
    if k > n {
        assert forall|i: int| 0 <= i && i + k <= n implies #[trigger] haystack@.subrange(i, i + k) != needle@ by {}
        return false;
    }
    let mut i: usize = 0;
    loop
        invariant
            n == haystack@.len(),
            k == needle@.len(),
            k <= n,
            i <= n - k,
            forall|q: int| 0 <= q < i ==> #[trigger] haystack@.subrange(q, q + k) != needle@,
        decreases n - k - i,
    {
        let mut m: usize = 0;
        while m < k && haystack[i + m] == needle[m]
            invariant
                n == haystack@.len(),
                k == needle@.len(),
                i + k <= n,
                m <= k,
                forall|p: int| 0 <= p < m ==> haystack@[i + p] == needle@[p],
            decreases k - m,
        {
            m += 1;
        }
        if m == k {
            assert(haystack@.subrange(i as int, i + k) =~= needle@);
            return true;
        }
        assert(haystack@.subrange(i as int, i + k)[m as int] != needle@[m as int]);
        if i == n - k {
            return false;
        }
        i += 1;
    }
}

/// Lines joined with `\n` between them.
pub open spec fn join_lines(ls: Seq<Seq<char>>) -> Seq<char>
    decreases ls.len(),
{
    if ls.len() == 0 {
        seq![]
    } else if ls.len() == 1 {
        ls[0]
    } else {
        join_lines(ls.drop_last()) + seq!['\n'] + ls.last()
    }
}

// ---------------------------------------------------------------------
// Numbers as text
// ---------------------------------------------------------------------

pub open spec fn decimal_digit(d: nat) -> char {
    (48 + d) as char
}

/// The decimal representation of `n`, as `{}` formats an unsigned integer.
pub open spec fn decimal(n: nat) -> Seq<char>
    decreases n,
{
    if n < 10 {
        seq![decimal_digit(n)]
    } else {
        decimal(n / 10).push(decimal_digit(n % 10))
    }
}

/// Appends the decimal representation of `n`.
pub fn push_decimal(s: &mut String, n: u64)
    ensures
        final(s)@ == old(s)@ + decimal(n as nat),
    decreases n,
{
    if n >= 10 {
        push_decimal(s, n / 10);
    }
    let d = (n % 10) as u8;
    let c = (48 + d) as char;
    assert(c == decimal_digit((n % 10) as nat));
    string_push(s, c);
    if n >= 10 {
        assert(s@ =~= old(s)@ + decimal(n as nat));
    } else {
        assert(s@ =~= old(s)@ + decimal(n as nat));
    }
}

pub open spec fn hex_digit(d: nat) -> char {
    if d < 10 {
        (48 + d) as char
    } else {
        (87 + d) as char
    }
}


pub open spec fn hex_digit_upper(d: nat) -> char {
    if d < 10 {
        (48 + d) as char
    } else {
        (55 + d) as char
    }
}

/// The last `width` hexadecimal digits of `n`, uppercase, zero-padded: what
/// `{:0width$X}` writes for a value below `16^width`.
pub open spec fn hex_upper_fixed(n: nat, width: nat) -> Seq<char>
    decreases width,
{
    if width == 0 {
        seq![]
    } else {
        hex_upper_fixed(n / 16, (width - 1) as nat).push(hex_digit_upper(n % 16))
    }
}

/// The last `width` hexadecimal digits of `n`, lowercase, zero-padded.
pub open spec fn hex_lower_fixed(n: nat, width: nat) -> Seq<char>
    decreases width,
{
    if width == 0 {
        seq![]
    } else {
        hex_lower_fixed(n / 16, (width - 1) as nat).push(hex_digit(n % 16))
    }
}

/// Appends the last `width` hexadecimal digits of `n`.
pub fn push_hex_fixed(s: &mut String, n: u64, width: u32, upper: bool)
    ensures
        upper ==> final(s)@ == old(s)@ + hex_upper_fixed(n as nat, width as nat),
        !upper ==> final(s)@ == old(s)@ + hex_lower_fixed(n as nat, width as nat),
    decreases width,
{
    if width == 0 {
        assert(s@ =~= old(s)@ + hex_upper_fixed(n as nat, 0));
        assert(s@ =~= old(s)@ + hex_lower_fixed(n as nat, 0));
        return;
    }
    push_hex_fixed(s, n / 16, width - 1, upper);
    let d = (n % 16) as u8;
    let c = if d < 10 {
        (48 + d) as char
    } else if upper {
        (55 + d) as char
    } else {
        (87 + d) as char
    };
    string_push(s, c);
    if upper {
        assert(s@ =~= old(s)@ + hex_upper_fixed(n as nat, width as nat));
    } else {
        assert(s@ =~= old(s)@ + hex_lower_fixed(n as nat, width as nat));
    }
}

/// Appends a string slice.
pub fn push_str(s: &mut String, t: &str)
    ensures
        final(s)@ == old(s)@ + t@,
{
    s.append(t);
}


/// `n` in uppercase hexadecimal without padding, as `{:X}` writes it.
pub open spec fn hex_upper(n: nat) -> Seq<char>
    decreases n,
{
    if n < 16 {
        seq![hex_digit_upper(n)]
    } else {
        hex_upper(n / 16).push(hex_digit_upper(n % 16))
    }
}

/// `n` in lowercase hexadecimal without padding, as `{:x}` writes it.
pub open spec fn hex_lower(n: nat) -> Seq<char>
    decreases n,
{
    if n < 16 {
        seq![hex_digit(n)]
    } else {
        hex_lower(n / 16).push(hex_digit(n % 16))
    }
}

/// Appends `n` in uppercase hexadecimal without padding.
pub fn push_hex_upper(s: &mut String, n: u64)
    ensures
        final(s)@ == old(s)@ + hex_upper(n as nat),
    decreases n,
{
    if n >= 16 {
        push_hex_upper(s, n / 16);
    }
    let d = (n % 16) as u8;
    let c = if d < 10 {
        (48 + d) as char
    } else {
        (55 + d) as char
    };
    string_push(s, c);
    assert(s@ =~= old(s)@ + hex_upper(n as nat));
}


// ---------------------------------------------------------------------
// Words and surrounding whitespace
// ---------------------------------------------------------------------

pub open spec fn all_whitespace(w: Seq<char>) -> bool {
    forall|m: int| 0 <= m < w.len() ==> is_whitespace(#[trigger] w[m])
}

proof fn lemma_words_of_space(w: Seq<char>)
    requires
        all_whitespace(w),
    ensures
        words(w) == Seq::<Seq<char>>::empty(),
    decreases w.len(),
{
    if w.len() > 0 {
        assert(is_whitespace(w[0]));
        assert(all_whitespace(w.drop_first())) by {
            assert forall|m: int| 0 <= m < w.drop_first().len() implies is_whitespace(
                #[trigger] w.drop_first()[m],
            ) by {
                assert(w.drop_first()[m] == w[m + 1]);
            }
        }
        lemma_words_of_space(w.drop_first());
    }
}

proof fn lemma_word_len_append_space(s: Seq<char>, w: Seq<char>)
    requires
        all_whitespace(w),
    ensures
        word_len(s + w) == word_len(s),
    decreases s.len(),
{
    if s.len() == 0 {
        assert(s + w =~= w);
        if w.len() > 0 {
            assert(is_whitespace(w[0]));
        }
    } else {
        assert((s + w)[0] == s[0]);
        if !is_whitespace(s[0]) {
            assert((s + w).drop_first() =~= s.drop_first() + w);
            lemma_word_len_append_space(s.drop_first(), w);
        }
    }
}

proof fn lemma_words_append_space(s: Seq<char>, w: Seq<char>)
    requires
        all_whitespace(w),
    ensures
        words(s + w) == words(s),
    decreases s.len(),
{
    if s.len() == 0 {
        assert(s + w =~= w);
        lemma_words_of_space(w);
    } else if is_whitespace(s[0]) {
        assert((s + w)[0] == s[0]);
        assert((s + w).drop_first() =~= s.drop_first() + w);
        lemma_words_append_space(s.drop_first(), w);
    } else {
        assert((s + w)[0] == s[0]);
        lemma_word_len_append_space(s, w);
        lemma_word_len_bound(s);
        let n = word_len(s);
        assert((s + w).take(n as int) =~= s.take(n as int));
        assert((s + w).skip(n as int) =~= s.skip(n as int) + w);
        lemma_words_append_space(s.skip(n as int), w);
    }
}

proof fn lemma_words_skip_space(s: Seq<char>, k: nat)
    requires
        k <= s.len(),
        forall|m: int| 0 <= m < k ==> is_whitespace(#[trigger] s[m]),
    ensures
        words(s.skip(k as int)) == words(s),
    decreases k,
{
    if k > 0 {
        assert(is_whitespace(s[0]));
        assert forall|m: int| 0 <= m < k - 1 implies is_whitespace(#[trigger] s.drop_first()[m]) by {
            assert(s.drop_first()[m] == s[m + 1]);
        }
        lemma_words_skip_space(s.drop_first(), (k - 1) as nat);
        assert(s.drop_first().skip(k - 1) =~= s.skip(k as int));
    } else {
        assert(s.skip(0) =~= s);
    }
}

proof fn lemma_leading_space_facts(s: Seq<char>)
    ensures
        leading_space(s) <= s.len(),
        forall|m: int| 0 <= m < leading_space(s) ==> is_whitespace(#[trigger] s[m]),
    decreases s.len(),
{
    if s.len() > 0 && is_whitespace(s[0]) {
        lemma_leading_space_facts(s.drop_first());
        assert forall|m: int| 0 <= m < leading_space(s) implies is_whitespace(#[trigger] s[m]) by {
            if m > 0 {
                assert(s[m] == s.drop_first()[m - 1]);
            }
        }
    }
}

proof fn lemma_trailing_space_facts(s: Seq<char>)
    ensures
        trailing_space(s) <= s.len(),
        forall|m: int| s.len() - trailing_space(s) <= m < s.len() ==> is_whitespace(#[trigger] s[m]),
    decreases s.len(),
{
    if s.len() > 0 && is_whitespace(s.last()) {
        lemma_trailing_space_facts(s.drop_last());
        assert forall|m: int| s.len() - trailing_space(s) <= m < s.len() implies is_whitespace(
            #[trigger] s[m],
        ) by {
            if m < s.len() - 1 {
                assert(s[m] == s.drop_last()[m]);
            }
        }
    }
}

/// `w` is one word: not empty, without whitespace.
pub open spec fn is_word(w: Seq<char>) -> bool {
    w.len() > 0 && forall|m: int| 0 <= m < w.len() ==> !is_whitespace(#[trigger] w[m])
}

/// A single word is its own only word.
pub proof fn lemma_words_single(w: Seq<char>)
    requires
        is_word(w),
    ensures
        words(w) == seq![w],
{
    lemma_word_len_exact(w, w.len());
    assert(!is_whitespace(w[0]));
    assert(w.take(w.len() as int) =~= w);
    assert(w.skip(w.len() as int) =~= Seq::<char>::empty());
    assert(words(w.skip(w.len() as int)) == Seq::<Seq<char>>::empty());
    assert(words(w) == seq![w.take(w.len() as int)] + words(w.skip(w.len() as int)));
    assert(seq![w] + Seq::<Seq<char>>::empty() =~= seq![w]);
}

/// A word, a space and more text: the word, then the words of the rest.
pub proof fn lemma_words_cons(w: Seq<char>, rest: Seq<char>)
    requires
        is_word(w),
    ensures
        words(w + seq![' '] + rest) == seq![w] + words(rest),
{
    let s = w + seq![' '] + rest;
    assert forall|m: int| 0 <= m < w.len() implies !is_whitespace(#[trigger] s[m]) by {
        assert(s[m] == w[m]);
    }
    assert(s[w.len() as int] == ' ');
    lemma_word_len_exact(s, w.len());
    assert(s[0] == w[0]);
    assert(s.take(w.len() as int) =~= w);
    let t = s.skip(w.len() as int);
    assert(t =~= seq![' '] + rest);
    assert(t.drop_first() =~= rest);
    assert(is_whitespace(t[0]));
    assert(words(t) == words(rest));
    assert(!is_whitespace(s[0]));
    assert(words(s) == seq![s.take(w.len() as int)] + words(t));
}

/// The words `ws` written one after another with a single space between.
pub open spec fn spaced(ws: Seq<Seq<char>>) -> Seq<char>
    decreases ws.len(),
{
    if ws.len() == 0 {
        seq![]
    } else if ws.len() == 1 {
        ws[0]
    } else {
        ws[0] + seq![' '] + spaced(ws.drop_first())
    }
}

/// Words written with single spaces between them split back into the same
/// words.
pub proof fn lemma_words_spaced(ws: Seq<Seq<char>>)
    requires
        forall|i: int| 0 <= i < ws.len() ==> is_word(#[trigger] ws[i]),
    ensures
        words(spaced(ws)) == ws,
    decreases ws.len(),
{
    if ws.len() == 0 {
        assert(words(spaced(ws)) == Seq::<Seq<char>>::empty());
        assert(ws =~= Seq::<Seq<char>>::empty());
    } else if ws.len() == 1 {
        assert(is_word(ws[0]));
        lemma_words_single(ws[0]);
        assert(ws =~= seq![ws[0]]);
    } else {
        assert(is_word(ws[0]));
        assert forall|i: int| 0 <= i < ws.drop_first().len() implies is_word(#[trigger] ws.drop_first()[i]) by {
            assert(ws.drop_first()[i] == ws[i + 1]);
        }
        lemma_words_spaced(ws.drop_first());
        lemma_words_cons(ws[0], spaced(ws.drop_first()));
        assert(seq![ws[0]] + ws.drop_first() =~= ws);
    }
}

/// The decimal digits of a number form one word.
pub proof fn lemma_decimal_is_word(n: nat)
    ensures
        is_word(decimal(n)),
    decreases n,
{
    if n >= 10 {
        lemma_decimal_is_word(n / 10);
        let d = decimal(n);
        assert forall|m: int| 0 <= m < d.len() implies !is_whitespace(#[trigger] d[m]) by {
            if m < d.len() - 1 {
                assert(d[m] == decimal(n / 10)[m]);
            } else {
                assert(d[m] == decimal_digit(n % 10));
            }
        }
    }
}

/// Trimming a text keeps its words: whitespace around them separates
/// nothing.
pub proof fn law_trim_keeps_words(s: Seq<char>)
    ensures
        words(trim(s)) == words(s),
{
    lemma_leading_space_facts(s);
    let t = s.skip(leading_space(s) as int);
    assert forall|m: int| 0 <= m < leading_space(s) implies is_whitespace(#[trigger] s[m]) by {}
    lemma_words_skip_space(s, leading_space(s));
    lemma_trailing_space_facts(t);
    let k = trailing_space(t);
    let core = t.take(t.len() - k);
    let tail = t.skip(t.len() - k);
    assert(core + tail =~= t);
    assert(all_whitespace(tail)) by {
        assert forall|m: int| 0 <= m < tail.len() implies is_whitespace(#[trigger] tail[m]) by {
            assert(tail[m] == t[t.len() - k + m]);
        }
    }
    lemma_words_append_space(core, tail);
}

} // verus!
