//! The GX serial protocol: numbers on the command line, the loader's
//! checksum, and the byte patterns that the host looks for in what the
//! device sends.

use vstd::prelude::*;
use crate::loader::{payload_end, stage1_header_bytes, BootImage};
use crate::text::{
    decimal, decimal_digit, hex_digit_upper, hex_lower, hex_upper,
    char_views, chars_of, contains, contains_chars, hex_digit, join_lines, lines, split_lines,
    push_str, string_from_chars, string_push, trim, trim_chars,
};

verus! {

// ---------------------------------------------------------------------
// Numbers
// ---------------------------------------------------------------------

/// Value of `c` as a digit in base `radix` (10 or 16), if it is one.
pub open spec fn digit_value(c: char, radix: nat) -> Option<nat> {
    let n = c as u32;
    if 48 <= n <= 57 {
        Some((n - 48) as nat)
    } else if radix == 16 && 97 <= n <= 102 {
        Some((n - 87) as nat)
    } else if radix == 16 && 65 <= n <= 70 {
        Some((n - 55) as nat)
    } else {
        None
    }
}

/// Value of a digit string in base `radix`; `None` if a character is not a
/// digit of that base.
pub open spec fn digits_value(ds: Seq<char>, radix: nat) -> Option<nat>
    decreases ds.len(),
{
    if ds.len() == 0 {
        Some(0)
    } else {
        match (digits_value(ds.drop_last(), radix), digit_value(ds.last(), radix)) {
            (Some(v), Some(d)) => Some(v * radix + d),
            _ => None,
        }
    }
}

/// `u64::from_str_radix`: an optional `+` and at least one digit, with a
/// value that fits in 64 bits.
pub open spec fn unsigned_value(s: Seq<char>, radix: nat) -> Option<nat> {
    let body = if s.len() > 0 && s[0] == '+' {
        s.drop_first()
    } else {
        s
    };
    if body.len() == 0 {
        None
    } else {
        match digits_value(body, radix) {
            Some(v) => if v <= u64::MAX {
                Some(v)
            } else {
                None
            },
            None => None,
        }
    }
}

pub open spec fn has_hex_prefix(s: Seq<char>) -> bool {
    s.len() >= 2 && s[0] == '0' && (s[1] == 'x' || s[1] == 'X')
}

/// Why a command-line number was refused.
#[derive(Clone, Copy, Debug, PartialEq, Eq)]
pub enum NumberFault {
    /// Not decimal, nor hexadecimal behind `0x`, or above 64 bits.
    Invalid,
    /// A 64-bit value that this platform's `usize` cannot hold.
    TooLarge,
}

/// What `parse_number` gives for the text `s`.
pub open spec fn spec_parse_number(s: Seq<char>) -> Result<usize, NumberFault> {
    let v = if has_hex_prefix(s) {
        unsigned_value(s.skip(2), 16)
    } else {
        unsigned_value(s, 10)
    };
    match v {
        None => Err(NumberFault::Invalid),
        Some(n) => if n <= usize::MAX {
            Ok(n as usize)
        } else {
            Err(NumberFault::TooLarge)
        },
    }
}

/// A command-line number that could not be used, with the text given.
#[derive(Clone, Debug, PartialEq, Eq)]
pub struct NumberError {
    pub fault: NumberFault,
    pub value: String,
}

proof fn lemma_digits_prefix(ds: Seq<char>, radix: nat, j: int)
    requires
        0 <= j <= ds.len(),
        radix >= 1,
    ensures
        digits_value(ds, radix) matches Some(v) ==> (digits_value(ds.take(j), radix) matches Some(
            u,
        ) && u <= v),
    decreases ds.len(),
{
    if j < ds.len() {
        lemma_digits_prefix(ds.drop_last(), radix, j);
        assert(ds.drop_last().take(j) =~= ds.take(j));
        if let Some(v) = digits_value(ds, radix) {
            let w = digits_value(ds.drop_last(), radix)->0;
            let d = digit_value(ds.last(), radix)->0;
            assert(w * radix + d >= w) by (nonlinear_arith)
                requires
                    radix >= 1,
            ;
        }
    } else {
        assert(ds.take(j) =~= ds);
    }
}

fn char_digit(c: char, radix: u64) -> (r: Option<u64>)
    requires
        radix == 10 || radix == 16,
    ensures
        r matches Some(d) ==> digit_value(c, radix as nat) == Some(d as nat),
        r is None ==> digit_value(c, radix as nat) is None,
        r matches Some(d) ==> d < radix,
{
    let n = c as u32;
    if 48 <= n && n <= 57 {
        Some((n - 48) as u64)
    } else if radix == 16 && 97 <= n && n <= 102 {
        Some((n - 87) as u64)
    } else if radix == 16 && 65 <= n && n <= 70 {
        Some((n - 55) as u64)
    } else {
        None
    }
}

/// Reads `cs[start..]` as `u64::from_str_radix` does.
fn parse_unsigned(cs: &Vec<char>, start: usize, radix: u64) -> (r: Option<u64>)
    requires
        start <= cs@.len(),
        radix == 10 || radix == 16,
    ensures
        r matches Some(v) ==> unsigned_value(cs@.skip(start as int), radix as nat) == Some(v as nat),
        r is None ==> unsigned_value(cs@.skip(start as int), radix as nat) is None,
{
    let ghost s = cs@.skip(start as int);
    let n = cs.len();
    let mut i = start;
    if i < n && cs[i] == '+' {
        i += 1;
    }
    let ghost body = cs@.skip(i as int);
    assert(body =~= (if s.len() > 0 && s[0] == '+' {
        s.drop_first()
    } else {
        s
    }));
    if i == n {
        return None;
    }
    let body_start = i;
    let mut acc: u64 = 0;
    assert(body.take(0) =~= Seq::<char>::empty());
    while i < n
        invariant
            n == cs@.len(),
            body == cs@.skip(body_start as int),
            body.len() > 0,
            s == cs@.skip(start as int),
            body == (if s.len() > 0 && s[0] == '+' {
                s.drop_first()
            } else {
                s
            }),
            body_start <= i <= n,
            radix == 10 || radix == 16,
            digits_value(body.take(i - body_start), radix as nat) == Some(acc as nat),
        decreases n - i,
    {
        let ghost k = i - body_start;
        assert(body.take(k + 1).drop_last() =~= body.take(k));
        assert(body.take(k + 1).last() == cs@[i as int]);
        match char_digit(cs[i], radix) {
            None => {
                proof {
                    lemma_digits_prefix(body, radix as nat, k + 1);
                }
                return None;
            },
            Some(d) => {
                let next = match acc.checked_mul(radix) {
                    Some(m) => m.checked_add(d),
                    None => None,
                };
                match next {
                    None => {
                        proof {
                            assert(acc * radix + d > u64::MAX) by (nonlinear_arith)
                                requires
                                    acc * radix > u64::MAX || acc * radix + d > u64::MAX,
                            ;
                            lemma_digits_prefix(body, radix as nat, k + 1);
                        }
                        return None;
                    },
                    Some(v) => {
                        acc = v;
                    },
                }
            },
        }
        i += 1;
    }
    assert(body.take(n - body_start) =~= body);
    Some(acc)
}

/// Reads a command-line number: decimal, or hexadecimal behind `0x` or `0X`.
pub fn parse_number(value: &str) -> (r: Result<usize, NumberError>)
    ensures
        r matches Ok(n) ==> spec_parse_number(value@) == Ok::<usize, NumberFault>(n),
        r matches Err(e) ==> spec_parse_number(value@) == Err::<usize, NumberFault>(e.fault)
            && e.value@ == value@,
{
    let cs = chars_of(value);
    let hex = cs.len() >= 2 && cs[0] == '0' && (cs[1] == 'x' || cs[1] == 'X');
    let parsed = if hex {
        parse_unsigned(&cs, 2, 16)
    } else {
        assert(cs@.skip(0) =~= cs@);
        parse_unsigned(&cs, 0, 10)
    };
    match parsed {
        None => Err(NumberError { fault: NumberFault::Invalid, value: String::from_str(value) }),
        Some(v) => {
            if v <= usize::MAX as u64 {
                Ok(v as usize)
            } else {
                Err(NumberError { fault: NumberFault::TooLarge, value: String::from_str(value) })
            }
        },
    }
}


// ---------------------------------------------------------------------
// The loader's checksum
// ---------------------------------------------------------------------

/// The repeating key that the loader XORs into each byte before summing.
pub open spec fn gx_key(i: int) -> u8 {
    let m = i % 4;
    if m == 0 {
        0x12
    } else if m == 1 {
        0x34
    } else if m == 2 {
        0x56
    } else {
        0x78
    }
}

/// Sum, without wrapping, of `key[i % 4] ^ data[i]` over the whole buffer.
pub open spec fn gx_sum(data: Seq<u8>) -> nat
    decreases data.len(),
{
    if data.len() == 0 {
        0
    } else {
        gx_sum(data.drop_last()) + (gx_key(data.len() - 1) ^ data.last()) as nat
    }
}

/// The GX checksum: `gx_sum` modulo 2^32.
pub open spec fn spec_gx_checksum(data: Seq<u8>) -> u32 {
    (gx_sum(data) % 0x1_0000_0000) as u32
}

fn gx_key_at(i: usize) -> (k: u8)
    ensures
        k == gx_key(i as int),
{
    let m = i % 4;
    if m == 0 {
        0x12
    } else if m == 1 {
        0x34
    } else if m == 2 {
        0x56
    } else {
        0x78
    }
}

pub(crate) proof fn lemma_wrapping_step(a: nat, t: nat)
    requires
        t < 0x1_0000_0000,
    ensures
        vstd::wrapping::u32_specs::wrapping_add(
            (a % 0x1_0000_0000) as u32,
            t as u32,
        ) == ((a + t) % 0x1_0000_0000) as u32,
{
    let m: int = 0x1_0000_0000;
    let x = a as int % m;
    vstd::arithmetic::div_mod::lemma_add_mod_noop(a as int, t as int, m);
    vstd::arithmetic::div_mod::lemma_small_mod(t, m as nat);
    if x + t < m {
        vstd::arithmetic::div_mod::lemma_small_mod((x + t) as nat, m as nat);
    } else {
        vstd::arithmetic::div_mod::lemma_small_mod((x + t - m) as nat, m as nat);
        vstd::arithmetic::div_mod::lemma_mod_sub_multiples_vanish(x + t, m);
    }
}

/// The checksum that a loader expects after a serial write: each byte XORed
/// with the key `12 34 56 78` (repeating from the buffer's first byte), summed
/// with wrapping into 32 bits.
pub fn gx_checksum(data: &[u8]) -> (r: u32)
    ensures
        r == spec_gx_checksum(data@),
{
    let mut sum: u32 = 0;
    let mut i: usize = 0;
    assert(data@.take(0) =~= Seq::<u8>::empty());
    while i < data.len()
        invariant
            i <= data@.len(),
            sum == spec_gx_checksum(data@.take(i as int)),
        decreases data@.len() - i,
    {
        let term = (gx_key_at(i) ^ data[i]) as u32;
        let ghost before = data@.take(i as int);
        assert(data@.take(i + 1).drop_last() =~= before);
        proof {
            lemma_wrapping_step(gx_sum(before), term as nat);
        }
        sum = sum.wrapping_add(term);
        i += 1;
    }
    assert(data@.take(data@.len() as int) =~= data@);
    sum
}

proof fn lemma_gx_sum_concat(a: Seq<u8>, b: Seq<u8>)
    requires
        a.len() % 4 == 0,
    ensures
        gx_sum(a + b) == gx_sum(a) + gx_sum(b),
    decreases b.len(),
{
    if b.len() == 0 {
        assert(a + b =~= a);
    } else {
        assert((a + b).drop_last() =~= a + b.drop_last());
        lemma_gx_sum_concat(a, b.drop_last());
        let k = b.len() - 1;
        vstd::arithmetic::div_mod::lemma_fundamental_div_mod(a.len() as int, 4);
        vstd::arithmetic::div_mod::lemma_mod_multiples_vanish(a.len() as int / 4, k, 4);
        assert(gx_key(a.len() + k) == gx_key(k));
    }
}

/// Chunking law of the GX checksum: a buffer sent in pieces whose lengths are
/// multiples of four has the checksum of the wrapping sum of its pieces'
/// checksums, so the 1024-byte chunks of a serial write need no running state.
pub proof fn law_gx_checksum_chunks(a: Seq<u8>, b: Seq<u8>)
    requires
        a.len() % 4 == 0,
    ensures
        spec_gx_checksum(a + b) == vstd::wrapping::u32_specs::wrapping_add(
            spec_gx_checksum(a),
            spec_gx_checksum(b),
        ),
{
    let m: int = 0x1_0000_0000;
    lemma_gx_sum_concat(a, b);
    let x = gx_sum(a) as int;
    let y = gx_sum(b) as int;
    vstd::arithmetic::div_mod::lemma_add_mod_noop(x, y, m);
    let xm = x % m;
    let ym = y % m;
    if xm + ym < m {
        vstd::arithmetic::div_mod::lemma_small_mod((xm + ym) as nat, m as nat);
    } else {
        vstd::arithmetic::div_mod::lemma_small_mod((xm + ym - m) as nat, m as nat);
        vstd::arithmetic::div_mod::lemma_mod_sub_multiples_vanish(xm + ym, m);
    }
}


// ---------------------------------------------------------------------
// Byte patterns in the receive stream
// ---------------------------------------------------------------------

/// `needle` occurs in `haystack` at `i`.
pub open spec fn matches_at(haystack: Seq<u8>, needle: Seq<u8>, i: int) -> bool {
    0 <= i && i + needle.len() <= haystack.len() && haystack.subrange(i, i + needle.len())
        == needle
}

/// The first position of `needle` in `haystack` (an empty needle at 0).
pub open spec fn is_first_match(haystack: Seq<u8>, needle: Seq<u8>, i: int) -> bool {
    matches_at(haystack, needle, i) && forall|j: int| 0 <= j < i ==> !matches_at(haystack, needle, j)
}

fn equal_at(haystack: &[u8], needle: &[u8], i: usize) -> (b: bool)
    requires
        i + needle@.len() <= haystack@.len(),
    ensures
        b == matches_at(haystack@, needle@, i as int),
{
    let n: usize = haystack.len();
    let mut k: usize = 0;
    while k < needle.len()
        invariant
            i + needle@.len() <= haystack@.len(),
            n == haystack@.len(),
            k <= needle@.len(),
            forall|m: int| 0 <= m < k ==> haystack@[i + m] == needle@[m],
        decreases needle@.len() - k,
    {
        if haystack[i + k] != needle[k] {
            assert(haystack@.subrange(i as int, i + needle@.len())[k as int] != needle@[k as int]);
            return false;
        }
        k += 1;
    }
    assert(haystack@.subrange(i as int, i + needle@.len()) =~= needle@);
    true
}

/// First position of `needle` in `haystack`.
pub fn find_bytes(haystack: &[u8], needle: &[u8]) -> (r: Option<usize>)
    ensures
        r matches Some(i) ==> is_first_match(haystack@, needle@, i as int),
        r is None ==> forall|j: int| !matches_at(haystack@, needle@, j),
{
    if needle.len() > haystack.len() {
        return None;
    }
    let last = haystack.len() - needle.len();
    let mut i: usize = 0;
    loop
        invariant
            last == haystack@.len() - needle@.len(),
            i <= last,
            forall|j: int| 0 <= j < i ==> !matches_at(haystack@, needle@, j),
        decreases last - i,
    {
        if equal_at(haystack, needle, i) {
            return Some(i);
        }
        if i == last {
            return None;
        }
        i += 1;
    }
}

pub open spec fn ascii_lower(b: u8) -> u8 {
    if 65 <= b <= 90 {
        (b + 32) as u8
    } else {
        b
    }
}

pub open spec fn ascii_upper(b: u8) -> u8 {
    if 97 <= b <= 122 {
        (b - 32) as u8
    } else {
        b
    }
}

pub open spec fn is_ascii_alphanumeric(b: u8) -> bool {
    (48 <= b <= 57) || (65 <= b <= 90) || (97 <= b <= 122)
}

pub open spec fn is_ascii_whitespace(b: u8) -> bool {
    b == 9 || b == 10 || b == 12 || b == 13 || b == 32
}

fn lower(b: u8) -> (r: u8)
    ensures
        r == ascii_lower(b),
{
    if 65 <= b && b <= 90 {
        b + 32
    } else {
        b
    }
}

fn upper(b: u8) -> (r: u8)
    ensures
        r == ascii_upper(b),
{
    if 97 <= b && b <= 122 {
        b - 32
    } else {
        b
    }
}

fn alphanumeric(b: u8) -> (r: bool)
    ensures
        r == is_ascii_alphanumeric(b),
{
    (48 <= b && b <= 57) || (65 <= b && b <= 90) || (97 <= b && b <= 122)
}

/// `needle` occurs at `i`, ignoring ASCII case.
pub open spec fn matches_at_ignore_case(haystack: Seq<u8>, needle: Seq<u8>, i: int) -> bool {
    &&& 0 <= i
    &&& i + needle.len() <= haystack.len()
    &&& forall|k: int|
        0 <= k < needle.len() ==> ascii_lower(#[trigger] haystack[i + k]) == ascii_lower(needle[k])
}

fn equal_at_ignore_case(haystack: &[u8], needle: &[u8], i: usize) -> (b: bool)
    requires
        i + needle@.len() <= haystack@.len(),
    ensures
        b == matches_at_ignore_case(haystack@, needle@, i as int),
{
    let n: usize = haystack.len();
    let mut k: usize = 0;
    while k < needle.len()
        invariant
            i + needle@.len() <= haystack@.len(),
            n == haystack@.len(),
            k <= needle@.len(),
            forall|m: int| 0 <= m < k ==> ascii_lower(#[trigger] haystack@[i + m]) == ascii_lower(needle@[m]),
        decreases needle@.len() - k,
    {
        if lower(haystack[i + k]) != lower(needle[k]) {
            return false;
        }
        k += 1;
    }
    true
}

/// First position of `needle` in `haystack`, ignoring ASCII case.
pub fn find_case_insensitive(haystack: &[u8], needle: &[u8]) -> (r: Option<usize>)
    requires
        needle@.len() > 0,
    ensures
        r matches Some(i) ==> matches_at_ignore_case(haystack@, needle@, i as int) && forall|j: int|
            0 <= j < i ==> !matches_at_ignore_case(haystack@, needle@, j),
        r is None ==> forall|j: int| !matches_at_ignore_case(haystack@, needle@, j),
{
    if needle.len() > haystack.len() {
        return None;
    }
    let last = haystack.len() - needle.len();
    let mut i: usize = 0;
    loop
        invariant
            last == haystack@.len() - needle@.len(),
            i <= last,
            forall|j: int| 0 <= j < i ==> !matches_at_ignore_case(haystack@, needle@, j),
        decreases last - i,
    {
        if equal_at_ignore_case(haystack, needle, i) {
            return Some(i);
        }
        if i == last {
            return None;
        }
        i += 1;
    }
}

/// Whether `needle` occurs in `haystack`, ignoring ASCII case.
pub fn find_ascii_case_insensitive(haystack: &[u8], needle: &[u8]) -> (b: bool)
    requires
        needle@.len() > 0,
    ensures
        b == exists|j: int| matches_at_ignore_case(haystack@, needle@, j),
{
    find_case_insensitive(haystack, needle).is_some()
}

/// `token` occurs at `i`, ignoring ASCII case, with no letter or digit
/// directly before or after it.
pub open spec fn token_at(haystack: Seq<u8>, token: Seq<u8>, i: int) -> bool {
    &&& matches_at_ignore_case(haystack, token, i)
    &&& (i == 0 || !is_ascii_alphanumeric(haystack[i - 1]))
    &&& (i + token.len() == haystack.len() || !is_ascii_alphanumeric(haystack[i + token.len()]))
}

/// First position of `token` as a word of its own in `haystack`.
pub fn find_token(haystack: &[u8], token: &[u8]) -> (r: Option<usize>)
    requires
        token@.len() > 0,
    ensures
        r matches Some(i) ==> token_at(haystack@, token@, i as int) && forall|j: int|
            0 <= j < i ==> !token_at(haystack@, token@, j),
        r is None ==> forall|j: int| !token_at(haystack@, token@, j),
{
    if token.len() > haystack.len() {
        return None;
    }
    let last = haystack.len() - token.len();
    let mut i: usize = 0;
    loop
        invariant
            last == haystack@.len() - token@.len(),
            i <= last,
            forall|j: int| 0 <= j < i ==> !token_at(haystack@, token@, j),
        decreases last - i,
    {
        if equal_at_ignore_case(haystack, token, i) {
            let before = i == 0 || !alphanumeric(haystack[i - 1]);
            let end = i + token.len();
            let after = end == haystack.len() || !alphanumeric(haystack[end]);
            if before && after {
                return Some(i);
            }
        }
        if i == last {
            return None;
        }
        i += 1;
    }
}

/// The BootROM's handshake ends in `0x58` at `i` (at least the third byte),
/// and the byte three places earlier (or the first byte) is `00`, `b0` or
/// `b8`.
pub open spec fn handshake_at(data: Seq<u8>, i: int) -> bool {
    let start = if i >= 3 {
        i - 3
    } else {
        0
    };
    &&& 2 <= i < data.len()
    &&& data[i] == 0x58
    &&& (data[start] == 0x00 || data[start] == 0xb0 || data[start] == 0xb8)
}

/// Locates the BootROM handshake: the range from the prefix byte to the
/// first `0x58` that has a valid prefix.
pub fn find_handshake(data: &[u8]) -> (r: Option<(usize, usize)>)
    ensures
        r matches Some((start, end)) ==> {
            &&& handshake_at(data@, end - 1)
            &&& start == if end - 1 >= 3 {
                end - 4
            } else {
                0
            }
            &&& forall|j: int| 0 <= j < end - 1 ==> !handshake_at(data@, j)
        },
        r is None ==> forall|j: int| !handshake_at(data@, j),
{
    let mut i: usize = 0;
    while i < data.len()
        invariant
            i <= data@.len(),
            forall|j: int| 0 <= j < i ==> !handshake_at(data@, j),
        decreases data@.len() - i,
    {
        if data[i] == 0x58 && i >= 2 {
            let start = if i >= 3 {
                i - 3
            } else {
                0
            };
            let b = data[start];
            if b == 0x00 || b == 0xb0 || b == 0xb8 {
                return Some((start, i + 1));
            }
        }
        i += 1;
    }
    None
}


/// The `k`-th letter of `RUNGET`.
pub open spec fn runget_letter(k: nat) -> u8 {
    if k == 0 {
        82
    } else if k == 1 {
        85
    } else if k == 2 {
        78
    } else if k == 3 {
        71
    } else if k == 4 {
        69
    } else {
        84
    }
}

fn runget_letter_at(k: usize) -> (b: u8)
    ensures
        b == runget_letter(k as nat),
{
    if k == 0 {
        82
    } else if k == 1 {
        85
    } else if k == 2 {
        78
    } else if k == 3 {
        71
    } else if k == 4 {
        69
    } else {
        84
    }
}

pub open spec fn has_alphanumeric(data: Seq<u8>, from: int, to: int) -> bool {
    exists|m: int| from <= m < to && is_ascii_alphanumeric(#[trigger] data[m])
}

/// The tolerant `RUNGET` detector, from position `index` on, having matched
/// `matched` letters, the last of them at `last`. Each letter of `RUNGET`
/// (any case) is taken greedily; a gap longer than `max_gap`, or one holding
/// a letter or digit, starts the match over (the offending byte is dropped).
/// The result is the position of the final `T`.
pub open spec fn tolerant_scan(
    data: Seq<u8>,
    max_gap: nat,
    index: nat,
    matched: nat,
    last: Option<nat>,
) -> Option<nat>
    decreases data.len() - index,
{
    if index >= data.len() {
        None
    } else if ascii_upper(data[index as int]) != runget_letter(matched) {
        tolerant_scan(data, max_gap, index + 1, matched, last)
    } else if last matches Some(prev) && (index - prev - 1 > max_gap || has_alphanumeric(
        data,
        (prev + 1) as int,
        index as int,
    )) {
        tolerant_scan(data, max_gap, index + 1, 0, None)
    } else if matched + 1 == 6 {
        Some(index)
    } else {
        tolerant_scan(data, max_gap, index + 1, matched + 1, Some(index))
    }
}

fn any_alphanumeric(data: &[u8], from: usize, to: usize) -> (b: bool)
    requires
        from <= to <= data@.len(),
    ensures
        b == has_alphanumeric(data@, from as int, to as int),
{
    let mut m = from;
    while m < to
        invariant
            from <= m <= to,
            to <= data@.len(),
            forall|q: int| from <= q < m ==> !is_ascii_alphanumeric(#[trigger] data@[q]),
        decreases to - m,
    {
        if alphanumeric(data[m]) {
            return true;
        }
        m += 1;
    }
    false
}

/// Finds `RUNGET` spread over IPL noise: letters in order, each gap at most
/// `max_gap` bytes and free of letters and digits. Gives the final letter's
/// position.
pub fn find_tolerant_runget(data: &[u8], max_gap: usize) -> (r: Option<usize>)
    ensures
        r matches Some(i) ==> tolerant_scan(data@, max_gap as nat, 0, 0, None) == Some(i as nat),
        r is None ==> tolerant_scan(data@, max_gap as nat, 0, 0, None) is None,
{
    let mut matched: usize = 0;
    let mut last: Option<usize> = None;
    let mut index: usize = 0;
    while index < data.len()
        invariant
            index <= data@.len(),
            matched < 6,
            last matches Some(p) ==> p < index,
            tolerant_scan(data@, max_gap as nat, 0, 0, None) == tolerant_scan(
                data@,
                max_gap as nat,
                index as nat,
                matched as nat,
                match last {
                    Some(p) => Some(p as nat),
                    None => None,
                },
            ),
        decreases data@.len() - index,
    {
        if upper(data[index]) == runget_letter_at(matched) {
            let restart = match last {
                Some(previous) => index - previous - 1 > max_gap || any_alphanumeric(
                    data,
                    previous + 1,
                    index,
                ),
                None => false,
            };
            if restart {
                matched = 0;
                last = None;
            } else {
                if matched + 1 == 6 {
                    return Some(index);
                }
                last = Some(index);
                matched += 1;
            }
        }
        index += 1;
    }
    None
}

/// The ordered `RUNGET` detector, from position `index` on: letters in order
/// (any case), taken greedily, each within `max_gap` bytes of the one before;
/// a larger distance starts over (the offending byte is dropped). The result
/// is the position of the `R`.
pub open spec fn ordered_scan(
    data: Seq<u8>,
    max_gap: nat,
    index: nat,
    matched: nat,
    first: Option<nat>,
    last: Option<nat>,
) -> Option<nat>
    decreases data.len() - index,
{
    if index >= data.len() {
        None
    } else if ascii_upper(data[index as int]) != runget_letter(matched) {
        ordered_scan(data, max_gap, index + 1, matched, first, last)
    } else if last matches Some(prev) && index - prev > max_gap {
        ordered_scan(data, max_gap, index + 1, 0, None, None)
    } else {
        let start = if last is None {
            Some(index)
        } else {
            first
        };
        if matched + 1 == 6 {
            start
        } else {
            ordered_scan(data, max_gap, index + 1, matched + 1, start, Some(index))
        }
    }
}

pub open spec fn opt_nat(o: Option<usize>) -> Option<nat> {
    match o {
        Some(p) => Some(p as nat),
        None => None,
    }
}

/// Finds `RUNGET` with its letters in order through IPL noise, each within
/// `max_gap` bytes of the one before. Gives the first letter's position.
pub fn find_ordered_runget(data: &[u8], max_gap: usize) -> (r: Option<usize>)
    ensures
        opt_nat(r) == ordered_scan(data@, max_gap as nat, 0, 0, None, None),
{
    let mut matched: usize = 0;
    let mut first: Option<usize> = None;
    let mut last: Option<usize> = None;
    let mut index: usize = 0;
    while index < data.len()
        invariant
            index <= data@.len(),
            matched < 6,
            last matches Some(p) ==> p < index,
            ordered_scan(data@, max_gap as nat, 0, 0, None, None) == ordered_scan(
                data@,
                max_gap as nat,
                index as nat,
                matched as nat,
                opt_nat(first),
                opt_nat(last),
            ),
        decreases data@.len() - index,
    {
        if upper(data[index]) == runget_letter_at(matched) {
            let restart = match last {
                Some(previous) => index - previous > max_gap,
                None => false,
            };
            if restart {
                matched = 0;
                first = None;
                last = None;
            } else {
                if last.is_none() {
                    first = Some(index);
                }
                if matched + 1 == 6 {
                    return first;
                }
                last = Some(index);
                matched += 1;
            }
        }
        index += 1;
    }
    None
}


// ---------------------------------------------------------------------
// Markers of the loader's console
// ---------------------------------------------------------------------

/// `boot>`, the loader's prompt.
pub open spec fn prompt_marker() -> Seq<u8> {
    seq![98u8, 111, 111, 116, 62]
}

/// `~sta~`, sent before a binary transfer's payload.
pub open spec fn start_marker() -> Seq<u8> {
    seq![126u8, 115, 116, 97, 126]
}

/// `~crc~`, sent where a checksum follows or is expected.
pub open spec fn crc_marker() -> Seq<u8> {
    seq![126u8, 99, 114, 99, 126]
}

/// `~fin~`, sent when a binary transfer is over.
pub open spec fn fin_marker() -> Seq<u8> {
    seq![126u8, 102, 105, 110, 126]
}

/// `Partition Version`, printed by a loader that has rebooted after a write.
pub open spec fn partition_marker() -> Seq<u8> {
    seq![80u8, 97, 114, 116, 105, 116, 105, 111, 110, 32, 86, 101, 114, 115, 105, 111, 110]
}

/// `boot`, the word that closes Stage 1.
pub open spec fn stage1_terminator() -> Seq<u8> {
    seq![98u8, 111, 111, 116]
}

pub open spec fn runget_word() -> Seq<u8> {
    seq![82u8, 85, 78, 71, 69, 84]
}

pub open spec fn run_word() -> Seq<u8> {
    seq![82u8, 85, 78]
}

pub open spec fn get_word() -> Seq<u8> {
    seq![71u8, 69, 84]
}

pub open spec fn err_word() -> Seq<u8> {
    seq![101u8, 114, 114]
}

pub open spec fn crc_word() -> Seq<u8> {
    seq![99u8, 114, 99]
}

fn bytes_of(values: &[u8]) -> (r: Vec<u8>)
    ensures
        r@ == values@,
{
    vstd::slice::slice_to_vec(values)
}

pub fn prompt_bytes() -> (r: Vec<u8>)
    ensures
        r@ == prompt_marker(),
{
    let r = bytes_of(&[98u8, 111, 111, 116, 62]);
    assert(r@ =~= prompt_marker());
    r
}

pub fn start_bytes() -> (r: Vec<u8>)
    ensures
        r@ == start_marker(),
{
    let r = bytes_of(&[126u8, 115, 116, 97, 126]);
    assert(r@ =~= start_marker());
    r
}

pub fn crc_bytes() -> (r: Vec<u8>)
    ensures
        r@ == crc_marker(),
{
    let r = bytes_of(&[126u8, 99, 114, 99, 126]);
    assert(r@ =~= crc_marker());
    r
}

pub fn fin_bytes() -> (r: Vec<u8>)
    ensures
        r@ == fin_marker(),
{
    let r = bytes_of(&[126u8, 102, 105, 110, 126]);
    assert(r@ =~= fin_marker());
    r
}


fn partition_bytes() -> (r: Vec<u8>)
    ensures
        r@ == partition_marker(),
{
    let r = bytes_of(&[80u8, 97, 114, 116, 105, 116, 105, 111, 110, 32, 86, 101, 114, 115, 105, 111, 110]);
    assert(r@ =~= partition_marker());
    r
}

pub(crate) fn append_bytes(v: &mut Vec<u8>, data: &[u8])
    ensures
        final(v)@ == old(v)@ + data@,
{
    let mut i: usize = 0;
    while i < data.len()
        invariant
            i <= data@.len(),
            v@ == old(v)@ + data@.take(i as int),
        decreases data@.len() - i,
    {
        v.push(data[i]);
        assert(data@.take(i + 1) =~= data@.take(i as int).push(data@[i as int]));
        i += 1;
    }
    assert(data@.take(data@.len() as int) =~= data@);
}

/// Number of ASCII whitespace bytes that start `s`.
pub open spec fn ascii_space_prefix(s: Seq<u8>) -> nat
    decreases s.len(),
{
    if s.len() > 0 && is_ascii_whitespace(s[0]) {
        1 + ascii_space_prefix(s.drop_first())
    } else {
        0
    }
}

proof fn lemma_ascii_space_prefix(s: Seq<u8>, k: nat)
    requires
        k <= s.len(),
        forall|m: int| 0 <= m < k ==> is_ascii_whitespace(#[trigger] s[m]),
        k == s.len() || !is_ascii_whitespace(s[k as int]),
    ensures
        ascii_space_prefix(s) == k,
    decreases k,
{
    if k > 0 {
        assert forall|m: int| 0 <= m < k - 1 implies is_ascii_whitespace(#[trigger] s.drop_first()[m]) by {
            assert(s.drop_first()[m] == s[m + 1]);
        }
        lemma_ascii_space_prefix(s.drop_first(), (k - 1) as nat);
    }
}

/// How the wait for `RUNGET` after Stage 1 ended.
#[derive(Clone, Copy, Debug, PartialEq, Eq)]
pub enum RungetMatch {
    /// `RUNGET` itself, in any case.
    Exact,
    /// Its letters with short, letter-free gaps.
    Tolerant,
    /// Its letters in order, each close to the one before.
    Ordered,
    /// `RUN` and later `GET`, each as a word of its own.
    RunThenGet,
    /// `RUN` was seen a second ago and `GET` never came.
    RunTimeout,
}

/// One look at the receive buffer while waiting for `RUNGET`.
#[derive(Clone, Copy, Debug, PartialEq, Eq)]
pub struct RungetStep {
    /// `RUN` appeared as a word for the first time in this look.
    pub run_detected: bool,
    /// The wait is over, and why.
    pub outcome: Option<RungetMatch>,
}

/// How the wait for `RUNGET` decides on `pending`, given whether `RUN` was
/// seen before and whether a second has passed since.
pub open spec fn runget_outcome(pending: Seq<u8>, run_seen: bool, run_expired: bool) -> Option<
    RungetMatch,
> {
    if exists|i: int| matches_at_ignore_case(pending, runget_word(), i) {
        Some(RungetMatch::Exact)
    } else if tolerant_scan(pending, 4, 0, 0, None) is Some {
        Some(RungetMatch::Tolerant)
    } else if ordered_scan(pending, 40, 0, 0, None, None) is Some {
        Some(RungetMatch::Ordered)
    } else if (run_seen || exists|j: int| token_at(pending, run_word(), j)) && exists|j: int|
        token_at(pending, get_word(), j) {
        Some(RungetMatch::RunThenGet)
    } else if run_seen && run_expired {
        Some(RungetMatch::RunTimeout)
    } else {
        None
    }
}

/// Bytes received from the device and not yet consumed by the protocol.
///
/// Every wait of the protocol is a loop of the caller's: read what the
/// device sent, hand it to [`Session::receive`], and ask the step that the
/// wait stands for whether it is over.
pub struct Session {
    pending: Vec<u8>,
    verbose: bool,
}

impl Session {
    /// The unconsumed bytes.
    pub closed spec fn buffered(&self) -> Seq<u8> {
        self.pending@
    }

    pub closed spec fn spec_verbose(&self) -> bool {
        self.verbose
    }

    pub fn new(verbose: bool) -> (s: Session)
        ensures
            s.buffered() == Seq::<u8>::empty(),
            s.spec_verbose() == verbose,
    {
        Session { pending: Vec::new(), verbose }
    }

    pub fn is_verbose(&self) -> (b: bool)
        ensures
            b == self.spec_verbose(),
    {
        self.verbose
    }

    pub fn pending(&self) -> (r: &[u8])
        ensures
            r@ == self.buffered(),
    {
        self.pending.as_slice()
    }

    /// Adds bytes read from the device.
    pub fn receive(&mut self, data: &[u8])
        ensures
            final(self).buffered() == old(self).buffered() + data@,
            final(self).spec_verbose() == old(self).spec_verbose(),
    {
        append_bytes(&mut self.pending, data);
    }

    /// Drops everything received so far.
    pub fn clear(&mut self)
        ensures
            final(self).buffered() == Seq::<u8>::empty(),
            final(self).spec_verbose() == old(self).spec_verbose(),
    {
        self.pending.clear();
    }

    /// Removes the first `n` bytes and gives them back.
    fn split_front(&mut self, n: usize) -> (front: Vec<u8>)
        requires
            n <= old(self).buffered().len(),
        ensures
            front@ == old(self).buffered().take(n as int),
            final(self).buffered() == old(self).buffered().skip(n as int),
            final(self).spec_verbose() == old(self).spec_verbose(),
    {
        let mut rest = self.pending.split_off(n);
        std::mem::swap(&mut self.pending, &mut rest);
        rest
    }

    /// One step of reading up to a marker: when `marker` has arrived, the
    /// bytes before its first occurrence are returned and everything up to
    /// its end is consumed; the bytes after it stay for the next step.
    pub fn take_until(&mut self, marker: &[u8]) -> (r: Option<Vec<u8>>)
        ensures
            final(self).spec_verbose() == old(self).spec_verbose(),
            r matches Some(before) ==> {
                &&& is_first_match(old(self).buffered(), marker@, before@.len() as int)
                &&& before@ == old(self).buffered().take(before@.len() as int)
                &&& final(self).buffered() == old(self).buffered().skip(
                    (before@.len() + marker@.len()) as int,
                )
            },
            r is None ==> {
                &&& forall|j: int| !matches_at(old(self).buffered(), marker@, j)
                &&& final(self).buffered() == old(self).buffered()
            },
    {
        match find_bytes(self.pending.as_slice(), marker) {
            Some(index) => {
                let before = self.split_front(index);
                let _ = self.split_front(marker.len());
                assert(old(self).buffered().skip(index as int).skip(marker@.len() as int)
                    =~= old(self).buffered().skip(index + marker@.len()));
                Some(before)
            },
            None => None,
        }
    }

    /// One step of waiting for the prompt: when `boot>` has arrived, it is
    /// consumed up to its end together with the ASCII whitespace after it.
    pub fn take_prompt(&mut self) -> (found: bool)
        ensures
            final(self).spec_verbose() == old(self).spec_verbose(),
            found ==> exists|i: int|
                {
                    &&& #[trigger] is_first_match(old(self).buffered(), prompt_marker(), i)
                    &&& final(self).buffered() == old(self).buffered().skip(i + 5).skip(
                        ascii_space_prefix(old(self).buffered().skip(i + 5)) as int,
                    )
                },
            !found ==> {
                &&& forall|j: int| !matches_at(old(self).buffered(), prompt_marker(), j)
                &&& final(self).buffered() == old(self).buffered()
            },
    {
        let marker = prompt_bytes();
        match find_bytes(self.pending.as_slice(), marker.as_slice()) {
            Some(index) => {
                let n = self.pending.len();
                assert(index + 5 <= n);
                let _ = self.split_front(index + 5);
                let ghost after = self.pending@;
                let mut k: usize = 0;
                while k < self.pending.len() && is_space(self.pending[k])
                    invariant
                        after == self.pending@,
                        k <= after.len(),
                        forall|m: int| 0 <= m < k ==> is_ascii_whitespace(#[trigger] after[m]),
                    decreases after.len() - k,
                {
                    k += 1;
                }
                proof {
                    lemma_ascii_space_prefix(after, k as nat);
                }
                let _ = self.split_front(k);
                assert(is_first_match(old(self).buffered(), prompt_marker(), index as int));
                true
            },
            None => false,
        }
    }

    /// One step of reading a fixed number of bytes.
    pub fn take_exact(&mut self, size: usize) -> (r: Option<Vec<u8>>)
        ensures
            final(self).spec_verbose() == old(self).spec_verbose(),
            r matches Some(data) ==> size <= old(self).buffered().len() && data@ == old(
                self,
            ).buffered().take(size as int) && final(self).buffered() == old(self).buffered().skip(
                size as int,
            ),
            r is None ==> size > old(self).buffered().len() && final(self).buffered() == old(
                self,
            ).buffered(),
    {
        if self.pending.len() >= size {
            Some(self.split_front(size))
        } else {
            None
        }
    }

    /// One step of waiting for the BootROM handshake: when it has arrived it
    /// is returned and the buffer emptied; otherwise only the last 32 bytes
    /// are kept, since a handshake spans at most four.
    pub fn take_handshake(&mut self) -> (r: Option<Vec<u8>>)
        ensures
            final(self).spec_verbose() == old(self).spec_verbose(),
            r is Some ==> final(self).buffered() == Seq::<u8>::empty(),
            r matches Some(h) ==> exists|last: int|
                {
                    &&& #[trigger] handshake_at(old(self).buffered(), last)
                    &&& forall|j: int| 0 <= j < last ==> !handshake_at(old(self).buffered(), j)
                    &&& h@ == old(self).buffered().subrange(
                        if last >= 3 {
                            last - 3
                        } else {
                            0
                        },
                        last + 1,
                    )
                },
            r is None ==> {
                &&& forall|j: int| !handshake_at(old(self).buffered(), j)
                &&& final(self).buffered() == if old(self).buffered().len() > 32 {
                    old(self).buffered().skip(old(self).buffered().len() - 32)
                } else {
                    old(self).buffered()
                }
            },
    {
        match find_handshake(self.pending.as_slice()) {
            Some((start, end)) => {
                let h = vstd::slice::slice_to_vec(
                    vstd::slice::slice_subrange(self.pending.as_slice(), start, end),
                );
                assert(handshake_at(old(self).buffered(), end - 1));
                self.pending.clear();
                Some(h)
            },
            None => {
                if self.pending.len() > 32 {
                    let remove = self.pending.len() - 32;
                    let _ = self.split_front(remove);
                }
                None
            },
        }
    }

    /// One step of waiting for `RUNGET` after Stage 1. `run_seen` tells
    /// whether an earlier step detected `RUN`, `run_expired` whether a
    /// second has passed since. When the wait is over the buffer is emptied.
    pub fn runget_step(&mut self, run_seen: bool, run_expired: bool) -> (r: RungetStep)
        ensures
            final(self).spec_verbose() == old(self).spec_verbose(),
            r.outcome == runget_outcome(old(self).buffered(), run_seen, run_expired),
            r.run_detected == (!run_seen && !(r.outcome matches Some(RungetMatch::Exact))
                && !(r.outcome matches Some(RungetMatch::Tolerant)) && !(r.outcome matches Some(
                RungetMatch::Ordered,
            )) && exists|j: int| token_at(old(self).buffered(), run_word(), j)),
            r.outcome is Some ==> final(self).buffered() == Seq::<u8>::empty(),
            r.outcome is None ==> final(self).buffered() == old(self).buffered(),
    {
        let p = self.pending.as_slice();
        let runget = bytes_of(&[82u8, 85, 78, 71, 69, 84]);
        assert(runget@ =~= runget_word());
        let outcome = if find_case_insensitive(p, runget.as_slice()).is_some() {
            (false, Some(RungetMatch::Exact))
        } else if find_tolerant_runget(p, 4).is_some() {
            (false, Some(RungetMatch::Tolerant))
        } else if find_ordered_runget(p, 40).is_some() {
            (false, Some(RungetMatch::Ordered))
        } else {
            let run = bytes_of(&[82u8, 85, 78]);
            let get = bytes_of(&[71u8, 69, 84]);
            assert(run@ =~= run_word());
            assert(get@ =~= get_word());
            let detected = !run_seen && find_token(p, run.as_slice()).is_some();
            let seen = run_seen || detected;
            if seen && find_token(p, get.as_slice()).is_some() {
                (detected, Some(RungetMatch::RunThenGet))
            } else if run_seen && run_expired {
                (detected, Some(RungetMatch::RunTimeout))
            } else {
                (detected, None)
            }
        };
        if outcome.1.is_some() {
            self.pending.clear();
        }
        RungetStep { run_detected: outcome.0, outcome: outcome.1 }
    }

    /// One step of waiting for a write to complete: what has arrived moves
    /// to `response`; the wait is over on an error, the prompt, a rebooted
    /// loader's partition banner, or `~fin~` when no reboot is awaited.
    /// Returns whether `~fin~` has been seen and whether the wait is over.
    pub fn completion_step(
        &mut self,
        response: &mut Vec<u8>,
        saw_fin: bool,
        wait_for_reboot: bool,
    ) -> (r: (bool, bool))
        ensures
            final(self).spec_verbose() == old(self).spec_verbose(),
            final(self).buffered() == Seq::<u8>::empty(),
            final(response)@ == old(response)@ + old(self).buffered(),
            old(self).buffered().len() == 0 ==> r == (saw_fin, false),
            old(self).buffered().len() > 0 ==> {
                let all = final(response)@;
                let fin = saw_fin || exists|j: int| matches_at(all, fin_marker(), j);
                &&& r.0 == fin
                &&& r.1 == ((exists|j: int| matches_at_ignore_case(all, err_word(), j)) || (exists|
                    j: int,
                | matches_at(all, prompt_marker(), j)) || (exists|j: int|
                    matches_at(all, partition_marker(), j)) || (fin && !wait_for_reboot))
            },
    {
        if self.pending.len() == 0 {
            return (saw_fin, false);
        }
        append_bytes(response, self.pending.as_slice());
        self.pending.clear();
        let fin = saw_fin || find_bytes(response.as_slice(), fin_bytes().as_slice()).is_some();
        let prompt = find_bytes(response.as_slice(), prompt_bytes().as_slice()).is_some();
        let partition = find_bytes(response.as_slice(), partition_bytes().as_slice()).is_some();
        let err = bytes_of(&[101u8, 114, 114]);
        assert(err@ =~= err_word());
        let error = find_ascii_case_insensitive(response.as_slice(), err.as_slice());
        (fin, error || prompt || partition || (fin && !wait_for_reboot))
    }

    /// One step of reading the loader's start-up output: what has arrived is
    /// appended to `output` and returned, with whether `output` now holds the
    /// prompt. `None` when nothing has arrived.
    pub fn output_step(&mut self, output: &mut Vec<u8>) -> (r: Option<(Vec<u8>, bool)>)
        ensures
            final(self).spec_verbose() == old(self).spec_verbose(),
            final(self).buffered() == Seq::<u8>::empty(),
            final(output)@ == old(output)@ + old(self).buffered(),
            r is None <==> old(self).buffered().len() == 0,
            r matches Some((received, prompt)) ==> received@ == old(self).buffered() && prompt
                == exists|j: int| matches_at(final(output)@, prompt_marker(), j),
    {
        if self.pending.len() == 0 {
            return None;
        }
        let mut received: Vec<u8> = Vec::new();
        std::mem::swap(&mut received, &mut self.pending);
        append_bytes(output, received.as_slice());
        let prompt = find_bytes(output.as_slice(), prompt_bytes().as_slice()).is_some();
        Some((received, prompt))
    }
}

fn is_space(b: u8) -> (r: bool)
    ensures
        r == is_ascii_whitespace(b),
{
    b == 9 || b == 10 || b == 12 || b == 13 || b == 32
}

/// A loader's answer to a write says that it refused the checksum: it holds
/// both `err` and `crc`, in any case.
pub open spec fn rejects_checksum(response: Seq<u8>) -> bool {
    &&& exists|j: int| matches_at_ignore_case(response, err_word(), j)
    &&& exists|j: int| matches_at_ignore_case(response, crc_word(), j)
}

/// Whether a loader's answer to a write refuses the checksum.
pub fn checksum_rejected(response: &[u8]) -> (b: bool)
    ensures
        b == rejects_checksum(response@),
{
    let err = bytes_of(&[101u8, 114, 114]);
    let crc = bytes_of(&[99u8, 114, 99]);
    assert(err@ =~= err_word());
    assert(crc@ =~= crc_word());
    find_ascii_case_insensitive(response, err.as_slice()) && find_ascii_case_insensitive(
        response,
        crc.as_slice(),
    )
}


// ---------------------------------------------------------------------
// Device text
// ---------------------------------------------------------------------

/// Bytes read as ISO 8859-1: each byte is the character with its value.
pub open spec fn latin1(data: Seq<u8>) -> Seq<char> {
    data.map_values(|b: u8| b as char)
}

fn latin1_chars(data: &[u8]) -> (r: Vec<char>)
    ensures
        r@ == latin1(data@),
{
    let mut r: Vec<char> = Vec::new();
    let mut i: usize = 0;
    while i < data.len()
        invariant
            i <= data@.len(),
            r@ == latin1(data@.take(i as int)),
        decreases data@.len() - i,
    {
        r.push(data[i] as char);
        assert(latin1(data@.take(i + 1)) =~= latin1(data@.take(i as int)).push(data@[i as int] as char));
        i += 1;
    }
    assert(data@.take(data@.len() as int) =~= data@);
    r
}

/// The device's bytes as text, one character per byte.
pub fn latin1_string(data: &[u8]) -> (r: String)
    ensures
        r@ == latin1(data@),
{
    let cs = latin1_chars(data);
    string_from_chars(cs.as_slice())
}

/// Two lowercase hexadecimal digits per byte.
pub open spec fn hex_text(data: Seq<u8>) -> Seq<char>
    decreases data.len(),
{
    if data.len() == 0 {
        seq![]
    } else {
        hex_text(data.drop_last()) + seq![
            hex_digit((data.last() / 16) as nat),
            hex_digit((data.last() % 16) as nat),
        ]
    }
}

fn hex_char(d: u8) -> (c: char)
    requires
        d < 16,
    ensures
        c == hex_digit(d as nat),
{
    if d < 10 {
        (48 + d) as char
    } else {
        (87 + d) as char
    }
}

/// Bytes as lowercase hexadecimal, two digits each, for diagnostics.
pub fn hex(data: &[u8]) -> (r: String)
    ensures
        r@ == hex_text(data@),
{
    let mut r = String::new();
    let mut i: usize = 0;
    while i < data.len()
        invariant
            i <= data@.len(),
            r@ == hex_text(data@.take(i as int)),
        decreases data@.len() - i,
    {
        let b = data[i];
        string_push(&mut r, hex_char(b / 16));
        string_push(&mut r, hex_char(b % 16));
        assert(data@.take(i + 1).drop_last() =~= data@.take(i as int));
        i += 1;
    }
    assert(data@.take(data@.len() as int) =~= data@);
    r
}

/// Index of the first line that contains `needle`.
pub open spec fn first_containing(ls: Seq<Seq<char>>, needle: Seq<char>) -> Option<nat>
    decreases ls.len(),
{
    if ls.len() == 0 {
        None
    } else if contains(ls[0], needle) {
        Some(0)
    } else {
        match first_containing(ls.drop_first(), needle) {
            Some(k) => Some(k + 1),
            None => None,
        }
    }
}

/// What a text command answered: the lines after the first one that echoes
/// `command`, each trimmed, joined with `\n` and trimmed as a whole; the
/// whole text trimmed when no line echoes it.
pub open spec fn clean_response(command: Seq<char>, text: Seq<char>) -> Seq<char> {
    let ls = lines(text);
    match first_containing(ls, command) {
        Some(k) => trim(join_lines(ls.skip(k + 1 as int).map_values(|l: Seq<char>| trim(l)))),
        None => trim(text),
    }
}

proof fn lemma_first_containing(ls: Seq<Seq<char>>, needle: Seq<char>, k: int)
    requires
        0 <= k <= ls.len(),
        forall|j: int| 0 <= j < k ==> !contains(#[trigger] ls[j], needle),
    ensures
        k < ls.len() && contains(ls[k], needle) ==> first_containing(ls, needle) == Some(k as nat),
        k == ls.len() ==> first_containing(ls, needle) is None,
    decreases k,
{
    if k > 0 {
        assert forall|j: int| 0 <= j < k - 1 implies !contains(#[trigger] ls.drop_first()[j], needle) by {
            assert(ls.drop_first()[j] == ls[j + 1]);
        }
        lemma_first_containing(ls.drop_first(), needle, k - 1);
    }
}

/// The lines `ls[from..]`, each trimmed, joined with `\n`.
fn join_trimmed(ls: &Vec<Vec<char>>, from: usize) -> (r: Vec<char>)
    requires
        from <= ls@.len(),
    ensures
        r@ == join_lines(char_views(ls@).skip(from as int).map_values(|l: Seq<char>| trim(l))),
{
    let ghost target = char_views(ls@).skip(from as int).map_values(|l: Seq<char>| trim(l));
    let mut r: Vec<char> = Vec::new();
    let mut i = from;
    assert(target.take(0) =~= Seq::<Seq<char>>::empty());
    while i < ls.len()
        invariant
            from <= i <= ls@.len(),
            target == char_views(ls@).skip(from as int).map_values(|l: Seq<char>| trim(l)),
            target.len() == ls@.len() - from,
            r@ == join_lines(target.take(i - from)),
        decreases ls@.len() - i,
    {
        let line = trim_chars(ls[i].as_slice());
        let ghost m = i - from;
        assert(target[m] == trim(ls@[i as int]@));
        assert(target.take(m + 1).drop_last() =~= target.take(m));
        if i > from {
            r.push('\n');
        }
        let mut k: usize = 0;
        let ghost base = r@;
        while k < line.len()
            invariant
                k <= line@.len(),
                r@ == base + line@.take(k as int),
            decreases line@.len() - k,
        {
            r.push(line[k]);
            assert(line@.take(k + 1) =~= line@.take(k as int).push(line@[k as int]));
            k += 1;
        }
        assert(line@.take(line@.len() as int) =~= line@);
        proof {
            if m == 0 {
                assert(target.take(1) =~= seq![target[0]]);
            }
        }
        i += 1;
    }
    assert(target.take(ls@.len() - from) =~= target);
    r
}

/// The answer to a text command, without the echoed command line and the
/// surrounding whitespace.
pub fn clean_text_response(command: &str, response: &[u8]) -> (r: String)
    ensures
        r@ == clean_response(command@, latin1(response@)),
{
    let text = latin1_chars(response);
    let cmd = chars_of(command);
    let ls = split_lines(text.as_slice());
    let ghost views = char_views(ls@);
    let mut k: usize = 0;
    while k < ls.len() && !contains_chars(ls[k].as_slice(), cmd.as_slice())
        invariant
            k <= ls@.len(),
            views == char_views(ls@),
            forall|j: int| 0 <= j < k ==> !contains(#[trigger] views[j], cmd@),
        decreases ls@.len() - k,
    {
        assert(views[k as int] == ls@[k as int]@);
        k += 1;
    }
    proof {
        lemma_first_containing(views, cmd@, k as int);
    }
    if k < ls.len() {
        assert(views[k as int] == ls@[k as int]@);
        let joined = join_trimmed(&ls, k + 1);
        let trimmed = trim_chars(joined.as_slice());
        string_from_chars(trimmed.as_slice())
    } else {
        let trimmed = trim_chars(text.as_slice());
        string_from_chars(trimmed.as_slice())
    }
}


impl NumberError {
    pub open spec fn spec_message(&self) -> Seq<char> {
        match self.fault {
            NumberFault::Invalid => "invalid number '"@ + self.value@
                + "' (expected decimal or 0x-prefixed hexadecimal)"@,
            NumberFault::TooLarge => "number '"@ + self.value@ + "' is too large for this platform"@,
        }
    }

    /// The text that reports the error.
    pub fn message(&self) -> (r: String)
        ensures
            r@ == self.spec_message(),
    {
        let mut s = String::new();
        match self.fault {
            NumberFault::Invalid => {
                push_str(&mut s, "invalid number '");
                push_str(&mut s, self.value.as_str());
                push_str(&mut s, "' (expected decimal or 0x-prefixed hexadecimal)");
            },
            NumberFault::TooLarge => {
                push_str(&mut s, "number '");
                push_str(&mut s, self.value.as_str());
                push_str(&mut s, "' is too large for this platform");
            },
        }
        assert(s@ =~= self.spec_message());
        s
    }
}


// ---------------------------------------------------------------------
// Stage 1
// ---------------------------------------------------------------------

/// The bytes of Stage 1: header, payload, then `boot`.
pub fn stage1_frame(image: &BootImage) -> (r: Vec<u8>)
    requires
        image.well_formed(),
        image.bytes().len() >= payload_end(image.spec_chip()),
    ensures
        r@ == stage1_header_bytes(image.spec_chip()) + image.bytes().subrange(
            0x20,
            payload_end(image.spec_chip()) as int,
        ) + stage1_terminator(),
{
    let header = image.stage1_header();
    let mut frame: Vec<u8> = Vec::new();
    append_bytes(&mut frame, &header);
    append_bytes(&mut frame, image.stage1_payload());
    let terminator = [98u8, 111, 111, 116];
    append_bytes(&mut frame, &terminator);
    assert(terminator@ =~= stage1_terminator());
    frame
}

// ---------------------------------------------------------------------
// Laws
// ---------------------------------------------------------------------

proof fn lemma_decimal_digits(n: nat)
    ensures
        decimal(n).len() >= 1,
        forall|i: int| 0 <= i < decimal(n).len() ==> 48 <= #[trigger] (decimal(n)[i] as u32) <= 57,
        n >= 10 ==> decimal(n).len() >= 2,
        digits_value(decimal(n), 10) == Some(n),
    decreases n,
{
    let d = decimal_digit(n % 10);
    assert(d as u32 == 48 + n % 10);
    assert(decimal(n).last() == d);
    assert(digit_value(d, 10) == Some((n % 10) as nat));
    if n >= 10 {
        lemma_decimal_digits(n / 10);
        let s = decimal(n);
        assert(s.drop_last() =~= decimal(n / 10));
        assert forall|i: int| 0 <= i < s.len() implies 48 <= #[trigger] (s[i] as u32) <= 57 by {
            if i < s.len() - 1 {
                assert(s[i] == decimal(n / 10)[i]);
            }
        }
        assert(digits_value(s, 10) == Some((n / 10) * 10 + n % 10));
        assert((n / 10) * 10 + n % 10 == n) by (nonlinear_arith);
    } else {
        assert(decimal(n).drop_last() =~= Seq::<char>::empty());
        assert(digits_value(decimal(n).drop_last(), 10) == Some(0nat));
    }
}

/// Every number the host writes in decimal, as on the wire, reads back as
/// itself.
pub proof fn law_decimal_reads_back(n: usize)
    ensures
        spec_parse_number(decimal(n as nat)) == Ok::<usize, NumberFault>(n),
{
    let s = decimal(n as nat);
    lemma_decimal_digits(n as nat);
    assert(s[0] as u32 >= 48);
    if s.len() >= 2 {
        assert(s[1] as u32 >= 48);
    }
    assert(!has_hex_prefix(s));
    assert(s[0] != '+');
}


proof fn lemma_hex_digits(n: nat)
    ensures
        hex_upper(n).len() >= 1,
        forall|i: int| 0 <= i < hex_upper(n).len() ==> #[trigger] digit_value(hex_upper(n)[i], 16) is Some,
        forall|i: int| 0 <= i < hex_upper(n).len() ==> #[trigger] hex_upper(n)[i] != '+',
        digits_value(hex_upper(n), 16) == Some(n),
    decreases n,
{
    let d = hex_digit_upper(n % 16);
    if n % 16 < 10 {
        assert(d as u32 == 48 + n % 16);
    } else {
        assert(d as u32 == 55 + n % 16);
    }
    assert(hex_upper(n).last() == d);
    assert(digit_value(d, 16) == Some((n % 16) as nat));
    if n >= 16 {
        lemma_hex_digits(n / 16);
        let s = hex_upper(n);
        assert(s.drop_last() =~= hex_upper(n / 16));
        assert forall|i: int| 0 <= i < s.len() implies #[trigger] digit_value(s[i], 16) is Some by {
            if i < s.len() - 1 {
                assert(s[i] == hex_upper(n / 16)[i]);
            }
        }
        assert forall|i: int| 0 <= i < s.len() implies #[trigger] s[i] != '+' by {
            if i < s.len() - 1 {
                assert(s[i] == hex_upper(n / 16)[i]);
            }
        }
        assert(digits_value(s, 16) == Some((n / 16) * 16 + n % 16));
        assert((n / 16) * 16 + n % 16 == n) by (nonlinear_arith);
    } else {
        assert(hex_upper(n).drop_last() =~= Seq::<char>::empty());
        assert(digits_value(hex_upper(n).drop_last(), 16) == Some(0nat));
    }
}

proof fn lemma_hex_lower_digits(n: nat)
    ensures
        hex_lower(n).len() >= 1,
        hex_lower(n)[0] != '+',
        digits_value(hex_lower(n), 16) == Some(n),
    decreases n,
{
    let d = hex_digit(n % 16);
    if n % 16 < 10 {
        assert(d as u32 == 48 + n % 16);
    } else {
        assert(d as u32 == 87 + n % 16);
    }
    assert(hex_lower(n).last() == d);
    assert(digit_value(d, 16) == Some((n % 16) as nat));
    if n >= 16 {
        lemma_hex_lower_digits(n / 16);
        let s = hex_lower(n);
        assert(s.drop_last() =~= hex_lower(n / 16));
        assert(s[0] == hex_lower(n / 16)[0]);
        assert(digits_value(s, 16) == Some((n / 16) * 16 + n % 16));
        assert((n / 16) * 16 + n % 16 == n) by (nonlinear_arith);
    } else {
        assert(hex_lower(n).drop_last() =~= Seq::<char>::empty());
        assert(digits_value(hex_lower(n).drop_last(), 16) == Some(0nat));
    }
}

/// Every number written in lowercase hexadecimal behind `0x` or `0X` reads
/// back as itself.
pub proof fn law_lower_hex_reads_back(n: usize, upper_x: bool)
    ensures
        spec_parse_number(seq!['0', if upper_x {
            'X'
        } else {
            'x'
        }] + hex_lower(n as nat)) == Ok::<usize, NumberFault>(n),
{
    let x = if upper_x {
        'X'
    } else {
        'x'
    };
    let s = seq!['0', x] + hex_lower(n as nat);
    lemma_hex_lower_digits(n as nat);
    assert(has_hex_prefix(s));
    assert(s.skip(2) =~= hex_lower(n as nat));
}

proof fn lemma_digits_invalid_first(ds: Seq<char>, radix: nat)
    requires
        ds.len() > 0,
        digit_value(ds[0], radix) is None,
    ensures
        digits_value(ds, radix) is None,
    decreases ds.len(),
{
    if ds.len() > 1 {
        assert(ds.drop_last()[0] == ds[0]);
        lemma_digits_invalid_first(ds.drop_last(), radix);
    }
}

/// A number is refused when it is empty, when `0x` or `0X` has no digits
/// after it, when it carries a minus sign, and when its decimal value is
/// beyond 64 bits.
pub proof fn law_parse_number_refusals(s: Seq<char>, upper_x: bool)
    ensures
        spec_parse_number(Seq::<char>::empty()) is Err,
        spec_parse_number(seq!['0', if upper_x {
            'X'
        } else {
            'x'
        }]) is Err,
        spec_parse_number(seq!['-'] + s) is Err,
        (digits_value(s, 10) matches Some(v) && v > u64::MAX) ==> spec_parse_number(s) is Err,
{
    let x = if upper_x {
        'X'
    } else {
        'x'
    };
    assert(seq!['0', x].skip(2) =~= Seq::<char>::empty());
    let m = seq!['-'] + s;
    assert(m[0] == '-');
    lemma_digits_invalid_first(m, 10);
    if digits_value(s, 10) is Some && s.len() > 0 {
        if has_hex_prefix(s) {
            lemma_digits_after_invalid(s, 10, 1);
        }
        if s[0] == '+' {
            lemma_digits_invalid_first(s, 10);
        }
    }
}

proof fn lemma_digits_after_invalid(ds: Seq<char>, radix: nat, k: int)
    requires
        0 <= k < ds.len(),
        digit_value(ds[k], radix) is None,
    ensures
        digits_value(ds, radix) is None,
    decreases ds.len(),
{
    if k < ds.len() - 1 {
        assert(ds.drop_last()[k] == ds[k]);
        lemma_digits_after_invalid(ds.drop_last(), radix, k);
    }
}

/// Every number written in hexadecimal behind `0x` or `0X` reads back as
/// itself.
pub proof fn law_hex_reads_back(n: usize, upper_x: bool)
    ensures
        spec_parse_number(seq!['0', if upper_x {
            'X'
        } else {
            'x'
        }] + hex_upper(n as nat)) == Ok::<usize, NumberFault>(n),
{
    let x = if upper_x {
        'X'
    } else {
        'x'
    };
    let s = seq!['0', x] + hex_upper(n as nat);
    lemma_hex_digits(n as nat);
    assert(has_hex_prefix(s));
    assert(s.skip(2) =~= hex_upper(n as nat));
    assert(s.skip(2)[0] != '+');
}


/// What the wait for the handshake keeps of a buffer without one: its last
/// 32 bytes.
pub open spec fn handshake_window(p: Seq<u8>) -> Seq<u8> {
    if p.len() > 32 {
        p.skip(p.len() - 32)
    } else {
        p
    }
}

/// Once `RUN` has come, the upload waits for `GET`: while the buffer holds
/// no `RUNGET` in any form the detectors accept and no `GET` word, the wait
/// goes on until a second has passed since `RUN`, and then it goes on
/// without `GET`. Before `RUN`, such a buffer without a `RUN` word is no
/// reason to stop waiting at all.
pub proof fn law_run_waits_a_second_for_get(p: Seq<u8>)
    requires
        !exists|i: int| matches_at_ignore_case(p, runget_word(), i),
        tolerant_scan(p, 4, 0, 0, None) is None,
        ordered_scan(p, 40, 0, 0, None, None) is None,
        !exists|j: int| token_at(p, get_word(), j),
    ensures
        runget_outcome(p, true, false) is None,
        runget_outcome(p, true, true) == Some(RungetMatch::RunTimeout),
        !(exists|j: int| token_at(p, run_word(), j)) ==> runget_outcome(p, false, false) is None,
{
}

/// Trimming the buffer while waiting for the handshake loses none: a
/// handshake that the bytes received so far and those still to come would
/// hold, at any position, is there in the kept window followed by the
/// bytes to come.
pub proof fn law_handshake_survives_trimming(p: Seq<u8>, d: Seq<u8>, i: int)
    requires
        forall|j: int| !handshake_at(p, j),
        handshake_at(p + d, i),
    ensures
        handshake_at(
            handshake_window(p) + d,
            i - (p.len() - handshake_window(p).len()),
        ),
{
    let w = handshake_window(p);
    let shift = p.len() - w.len();
    let s = p + d;
    let t = w + d;
    let start = if i >= 3 {
        i - 3
    } else {
        0
    };
    if i < p.len() {
        assert(s[i] == p[i]);
        assert(s[start] == p[start]);
        assert(handshake_at(p, i));
    } else if p.len() <= 32 {
        assert(t =~= s);
    } else {
        let k = i - shift;
        assert(k >= 32);
        assert(t[k] == s[i]);
        assert(t[k - 3] == s[i - 3]);
    }
}

} // verus!
