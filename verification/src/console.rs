//! What the tool shows the user and how it reads an answer: the progress
//! bar of a transfer, a command's report, the confirmation of a dangerous
//! command.

use vstd::prelude::*;
use crate::text::{chars_of, push_str, string_from_chars, string_push, trim, trim_chars};

verus! {

/// Width of the progress bar, in characters.
pub const BAR_WIDTH: usize = 28;

/// `a * b`, or `usize::MAX` when the product does not fit.
pub open spec fn saturating_product(a: usize, b: usize) -> nat {
    if a * b > usize::MAX {
        usize::MAX as nat
    } else {
        (a * b) as nat
    }
}

/// The share of a transfer done, in percent: `done * 100` (saturating)
/// over `total`, a total of zero counting as one.
pub open spec fn percent_done(done: usize, total: usize) -> nat {
    saturating_product(done, 100) / (if total == 0 { 1 } else { total as nat })
}

/// How many of the bar's cells are filled.
pub open spec fn filled_cells(done: usize, total: usize) -> nat {
    saturating_product(done, BAR_WIDTH) / (if total == 0 { 1 } else { total as nat })
}

/// The bar: `=` for each filled cell, then spaces up to its width.
pub open spec fn bar_text(filled: nat) -> Seq<char> {
    Seq::new(filled, |i: int| '=') + Seq::new((BAR_WIDTH - filled) as nat, |i: int| ' ')
}

fn saturating_times(a: usize, b: usize) -> (r: usize)
    ensures
        r == saturating_product(a, b),
{
    match a.checked_mul(b) {
        Some(p) => p,
        None => usize::MAX,
    }
}

/// The percentage and the bar of a transfer's progress line. A bar that
/// would overflow its width is left out by `requires`.
pub fn progress_bar(done: usize, total: usize) -> (r: (usize, String))
    requires
        filled_cells(done, total) <= BAR_WIDTH,
    ensures
        r.0 == percent_done(done, total),
        r.1@ == bar_text(filled_cells(done, total)),
{
    let divisor = if total == 0 {
        1
    } else {
        total
    };
    let percent = saturating_times(done, 100) / divisor;
    let filled = saturating_times(done, BAR_WIDTH) / divisor;
    let mut bar = String::new();
    let mut i: usize = 0;
    while i < BAR_WIDTH
        invariant
            filled <= BAR_WIDTH,
            i <= BAR_WIDTH,
            bar@.len() == i,
            forall|k: int| 0 <= k < i ==> bar@[k] == if k < filled {
                '='
            } else {
                ' '
            },
        decreases BAR_WIDTH - i,
    {
        let c = if i < filled {
            '='
        } else {
            ' '
        };
        string_push(&mut bar, c);
        i += 1;
    }
    assert(bar@ =~= bar_text(filled as nat));
    (percent, bar)
}

/// The report of a finished command: `[+] <label> command completed` when
/// the loader answered nothing but whitespace, else `[+] <label>:`, a line
/// break and the trimmed answer.
pub open spec fn report_text(label: Seq<char>, response: Seq<char>) -> Seq<char> {
    if trim(response).len() == 0 {
        "[+] "@ + label + " command completed"@
    } else {
        "[+] "@ + label + ":\n"@ + trim(response)
    }
}

pub fn report(label: &str, response: &str) -> (r: String)
    ensures
        r@ == report_text(label@, response@),
{
    let body = trim_chars(chars_of(response).as_slice());
    let mut r = String::new();
    push_str(&mut r, "[+] ");
    push_str(&mut r, label);
    if body.len() == 0 {
        push_str(&mut r, " command completed");
    } else {
        push_str(&mut r, ":\n");
        let t = string_from_chars(body.as_slice());
        push_str(&mut r, t.as_str());
    }
    r
}

/// `char::to_ascii_lowercase`.
pub open spec fn lower_char(c: char) -> char {
    if 'A' <= c <= 'Z' {
        ((c as u32) + 32) as char
    } else {
        c
    }
}

/// An answer that agrees: `y` or `yes` in any ASCII case, with whitespace
/// around it.
pub open spec fn affirmative(answer: Seq<char>) -> bool {
    let t = trim(answer).map_values(|c: char| lower_char(c));
    t == seq!['y'] || t == seq!['y', 'e', 's']
}

fn to_lower(c: char) -> (r: char)
    ensures
        r == lower_char(c),
{
    if 'A' <= c && c <= 'Z' {
        ((c as u8) + 32) as char
    } else {
        c
    }
}

/// Whether the user's answer to a confirmation agrees.
pub fn is_affirmative(answer: &str) -> (b: bool)
    ensures
        b == affirmative(answer@),
{
    let t = trim_chars(chars_of(answer).as_slice());
    let ghost lowered = t@.map_values(|c: char| lower_char(c));
    if t.len() == 1 {
        let b = to_lower(t[0]) == 'y';
        assert(b ==> lowered =~= seq!['y']);
        assert(lowered =~= seq!['y'] ==> lowered[0] == 'y');
        b
    } else if t.len() == 3 {
        let b = to_lower(t[0]) == 'y' && to_lower(t[1]) == 'e' && to_lower(t[2]) == 's';
        assert(b ==> lowered =~= seq!['y', 'e', 's']);
        assert(lowered =~= seq!['y', 'e', 's'] ==> lowered[0] == 'y' && lowered[1] == 'e'
            && lowered[2] == 's');
        b
    } else {
        assert(lowered.len() != 1 && lowered.len() != 3);
        false
    }
}

} // verus!
