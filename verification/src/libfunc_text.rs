//! Texts of library functions, and the numbers in them.
//!
//! In the text of a library function, `[7]` stands for the id with the number 7, and `[felt252; 3]`
//! for an array of three elements. Such numbers have 64 bits. The number of a user type, as in
//! `ut@[7]`, is a natural number of any size. The name of a user function may end in brackets and
//! braces with any numbers in them, as in `user@foo[expr7]`.
use vstd::prelude::*;

use crate::search::{first_where, lemma_first_where};
use crate::text::{decimal, digit_char};

verus! {

pub open spec fn is_space(c: char) -> bool {
    c == ' ' || ('\t' <= c && c <= '\r')
}

pub open spec fn is_digit(c: char) -> bool {
    '0' <= c && c <= '9'
}

/// Whether the character can be the last one of a name.
pub open spec fn ends_name(c: char) -> bool {
    ||| is_digit(c)
    ||| ('a' <= c && c <= 'z')
    ||| ('A' <= c && c <= 'Z')
    ||| c == '_'
    ||| c == '>'
    ||| c == ')'
    ||| c == ']'
    ||| c == '}'
}

pub open spec fn opens(c: char) -> bool {
    c == '[' || c == '{' || c == '('
}

pub open spec fn closes(c: char) -> bool {
    c == ']' || c == '}' || c == ')'
}

pub open spec fn ends_line() -> spec_fn(char) -> bool {
    |c: char| c == '\n' || c == '\r'
}

/// The place after the comment that starts at the place `at`, if one does: it ends with its line.
pub open spec fn comment_end(text: Seq<char>, at: int) -> Option<int> {
    if 0 <= at < text.len() - 1 && text[at] == '/' && text[at + 1] == '/' {
        match first_where(text, ends_line(), at + 2) {
            Some(end) => Some(end + 1),
            None => None,
        }
    } else {
        None
    }
}

/// The place of the first character at or after `at` that is neither a space nor part of a comment.
pub open spec fn next_token(text: Seq<char>, at: int) -> int
    decreases text.len() - at,
{
    proof {
        if at >= 0 {
            lemma_first_where(text, ends_line(), at + 2);
        }
    }
    if at < 0 || at >= text.len() {
        at
    } else if is_space(text[at]) {
        next_token(text, at + 1)
    } else {
        match comment_end(text, at) {
            Some(end) => next_token(text, end),
            None => at,
        }
    }
}

/// The number whose digits so far are those of `value`, and go on at the place `at`.
pub open spec fn number_at(text: Seq<char>, at: int, value: nat) -> nat
    decreases text.len() - at,
{
    if 0 <= at < text.len() && is_digit(text[at]) {
        number_at(text, at + 1, value * 10 + (text[at] as nat - '0' as nat) as nat)
    } else {
        value
    }
}

/// The number that follows the place `at`, if one does, is not negative, and fits into 64 bits
/// unless it may have any size.
pub open spec fn number_fits(text: Seq<char>, at: int, any_size: bool) -> bool {
    let start = next_token(text, at);
    if start < 0 || start >= text.len() {
        true
    } else if text[start] == '-' {
        !(start + 1 < text.len() && '1' <= text[start + 1] && text[start + 1] <= '9')
    } else {
        any_size || text[start] == '0' || number_at(text, start, 0) <= u64::MAX
    }
}

/// Whether the character at the place `last` is the last one of `ut@`.
pub open spec fn is_user_type_mark(text: Seq<char>, last: int) -> bool {
    2 <= last < text.len() && text[last] == '@' && text[last - 1] == 't' && text[last - 2] == 'u'
}

/// The numbers from the place `at` on fit. Before it, `last` is the place of the last character
/// that is neither a space nor part of a comment, and `depth` brackets of the name of a user
/// function or a user type are open.
pub open spec fn numbers_fit_from(text: Seq<char>, at: int, last: int, depth: nat) -> bool
    decreases text.len() - at,
{
    proof {
        if at >= 0 {
            lemma_first_where(text, ends_line(), at + 2);
        }
    }
    if at < 0 || at >= text.len() {
        true
    } else if is_space(text[at]) {
        numbers_fit_from(text, at + 1, last, depth)
    } else if let Some(end) = comment_end(text, at) {
        numbers_fit_from(text, end, last, depth)
    } else if depth > 0 {
        if opens(text[at]) {
            numbers_fit_from(text, at + 1, at, depth + 1)
        } else if closes(text[at]) {
            numbers_fit_from(text, at + 1, at, (depth - 1) as nat)
        } else {
            numbers_fit_from(text, at + 1, at, depth)
        }
    } else if text[at] == '{' || (text[at] == '[' && 0 <= last < text.len() && ends_name(
        text[last],
    )) {
        numbers_fit_from(text, at + 1, at, 1)
    } else if text[at] == '[' {
        number_fits(text, at + 1, is_user_type_mark(text, last)) && numbers_fit_from(
            text,
            at + 1,
            at,
            0,
        )
    } else if text[at] == ';' {
        number_fits(text, at + 1, false) && numbers_fit_from(text, at + 1, at, 0)
    } else {
        numbers_fit_from(text, at + 1, at, 0)
    }
}

/// The numbers of the ids and the sizes of the arrays in the text of a library function fit.
pub open spec fn numbers_fit(text: Seq<char>) -> bool {
    numbers_fit_from(text, 0, -1, 0)
}

fn ends_name_exec(c: char) -> (r: bool)
    ensures
        r == ends_name(c),
{
    ('0' <= c && c <= '9') || ('a' <= c && c <= 'z') || ('A' <= c && c <= 'Z') || c == '_' || c
        == '>' || c == ')' || c == ']' || c == '}'
}

/// The place after the comment that starts at the place `at`, if one does.
fn skip_comment(text: &str, len: usize, at: usize) -> (r: Option<usize>)
    requires
        len == text@.len(),
        at < len,
    ensures
        match r {
            Some(end) => comment_end(text@, at as int) == Some(end as int) && at < end <= len,
            None => comment_end(text@, at as int) is None,
        },
{
    if !(text.get_char(at) == '/' && at < len - 1 && text.get_char(at + 1) == '/') {
        return None;
    }
    let ghost p = ends_line();
    let mut i: usize = at + 2;
    while i < len
        invariant
            at + 2 <= i <= len,
            len == text@.len(),
            p == ends_line(),
            text@[at as int] == '/',
            text@[at + 1] == '/',
            first_where(text@, p, at + 2) == first_where(text@, p, i as int),
        decreases len - i,
    {
        let c = text.get_char(i);
        if c == '\n' || c == '\r' {
            return Some(i + 1);
        }
        i += 1;
    }
    None
}

/// The place of the first character at or after `from` that is neither a space nor part of a
/// comment.
fn find_token(text: &str, len: usize, from: usize) -> (r: usize)
    requires
        len == text@.len(),
        from <= len,
    ensures
        r <= len,
        r == next_token(text@, from as int),
{
    let mut at: usize = from;
    while at < len
        invariant
            len == text@.len(),
            at <= len,
            next_token(text@, from as int) == next_token(text@, at as int),
        decreases len - at,
    {
        let c = text.get_char(at);
        if c == ' ' || ('\t' <= c && c <= '\r') {
            at += 1;
        } else {
            match skip_comment(text, len, at) {
                Some(end) => {
                    at = end;
                },
                None => {
                    return at;
                },
            }
        }
    }
    at
}

proof fn lemma_number_grows(text: Seq<char>, at: int, value: nat)
    ensures
        number_at(text, at, value) >= value,
    decreases text.len() - at,
{
    if 0 <= at < text.len() && is_digit(text[at]) {
        lemma_number_grows(text, at + 1, value * 10 + (text[at] as nat - '0' as nat) as nat);
    }
}

/// Tests that the number that follows the place `from` fits.
fn test_number(text: &str, len: usize, from: usize, any_size: bool) -> (r: bool)
    requires
        len == text@.len(),
        from <= len,
    ensures
        r == number_fits(text@, from as int, any_size),
{
    let start: usize = find_token(text, len, from);
    if start >= len {
        return true;
    }
    let first = text.get_char(start);
    if first == '-' {
        if start >= len - 1 {
            return true;
        }
        let digit = text.get_char(start + 1);
        return !('1' <= digit && digit <= '9');
    }
    if any_size || first == '0' {
        return true;
    }
    let mut value: u128 = 0;
    let mut at: usize = start;
    while at < len
        invariant
            len == text@.len(),
            start <= at <= len,
            start < len,
            start == next_token(text@, from as int),
            text@[start as int] != '-',
            text@[start as int] != '0',
            !any_size,
            value <= u64::MAX,
            number_at(text@, start as int, 0) == number_at(text@, at as int, value as nat),
        ensures
            value <= u64::MAX,
            number_at(text@, start as int, 0) == value,
        decreases len - at,
    {
        let c = text.get_char(at);
        if !('0' <= c && c <= '9') {
            break;
        }
        value = value * 10 + (c as u32 - '0' as u32) as u128;
        at += 1;
        if value > u64::MAX as u128 {
            proof {
                lemma_number_grows(text@, at as int, value as nat);
            }
            return false;
        }
    }
    true
}

/// Tests that the numbers of the ids and the sizes of the arrays in the text of a library function
/// fit.
pub fn text_numbers_fit(text: &str) -> (r: bool)
    ensures
        r == numbers_fit(text@),
{
    let len: usize = text.unicode_len();
    let mut at: usize = 0;
    let mut last: Option<usize> = None;
    let mut depth: usize = 0;
    while at < len
        invariant
            len == text@.len(),
            at <= len,
            depth <= at,
            last matches Some(place) ==> place < at,
            numbers_fit(text@) == numbers_fit_from(
                text@,
                at as int,
                match last {
                    Some(place) => place as int,
                    None => -1,
                },
                depth as nat,
            ),
        decreases len - at,
    {
        let c = text.get_char(at);
        if c == ' ' || ('\t' <= c && c <= '\r') {
            at += 1;
            continue;
        }
        if let Some(end) = skip_comment(text, len, at) {
            at = end;
            continue;
        }
        if depth > 0 {
            if c == '[' || c == '{' || c == '(' {
                depth += 1;
            } else if c == ']' || c == '}' || c == ')' {
                depth -= 1;
            }
        } else if c == '{' {
            depth = 1;
        } else if c == '[' {
            let (after_name, user_type) = match last {
                Some(place) => (
                    ends_name_exec(text.get_char(place)),
                    place >= 2 && text.get_char(place) == '@' && text.get_char(place - 1) == 't'
                        && text.get_char(place - 2) == 'u',
                ),
                None => (false, false),
            };
            if after_name {
                depth = 1;
            } else if !test_number(text, len, at + 1, user_type) {
                return false;
            }
        } else if c == ';' {
            if !test_number(text, len, at + 1, false) {
                return false;
            }
        }
        last = Some(at);
        at += 1;
    }
    true
}

// Laws.

/// Whether the character neither opens a bracket, nor announces a size, nor may be part of a space
/// or a comment.
pub open spec fn is_plain(c: char) -> bool {
    !is_space(c) && c != '/' && c != '[' && c != '{' && c != ';'
}

proof fn lemma_plain(text: Seq<char>, at: int, last: int, to: int)
    requires
        0 <= at < to <= text.len(),
        forall|i: int| at <= i < to ==> is_plain(#[trigger] text[i]),
    ensures
        numbers_fit_from(text, at, last, 0) == numbers_fit_from(text, to, to - 1, 0),
    decreases to - at,
{
    assert(is_plain(text[at]));
    assert(comment_end(text, at) is None);
    assert(numbers_fit_from(text, at, last, 0) == numbers_fit_from(text, at + 1, at, 0));
    if at + 1 < to {
        lemma_plain(text, at + 1, at, to);
    }
}

/// A text without brackets and sizes has no numbers that could not fit.
pub proof fn texts_without_ids_fit(text: Seq<char>)
    requires
        forall|i: int| 0 <= i < text.len() ==> is_plain(#[trigger] text[i]),
    ensures
        numbers_fit(text),
{
    if text.len() > 0 {
        lemma_plain(text, 0, -1, text.len() as int);
    }
}

/// The number whose digits so far are those of `value`, and go on with `k` digits at the place
/// `at`.
spec fn read(text: Seq<char>, at: int, value: nat, k: nat) -> nat
    decreases k,
{
    if k == 0 {
        value
    } else {
        read(text, at, value, (k - 1) as nat) * 10 + (text[at + k - 1] as nat - '0' as nat) as nat
    }
}

proof fn lemma_read(text: Seq<char>, at: int, k: nat)
    requires
        0 <= at,
        at + k <= text.len(),
        forall|i: int| at <= i < at + k ==> is_digit(#[trigger] text[i]),
    ensures
        number_at(text, at, 0) == number_at(text, at + k, read(text, at, 0, k)),
    decreases k,
{
    if k > 0 {
        lemma_read(text, at, (k - 1) as nat);
        assert(is_digit(text[at + k - 1]));
    }
}

proof fn lemma_decimal(text: Seq<char>, at: int, n: nat)
    requires
        0 <= at,
        at + decimal(n).len() <= text.len(),
        forall|i: int| 0 <= i < decimal(n).len() ==> #[trigger] decimal(n)[i] == text[at + i],
    ensures
        decimal(n).len() > 0,
        read(text, at, 0, decimal(n).len()) == n,
        forall|i: int| at <= i < at + decimal(n).len() ==> is_digit(#[trigger] text[i]),
        n > 0 ==> text[at] != '0',
    decreases n,
{
    let d = decimal(n);
    let k = d.len();
    if n < 10 {
        assert(d[0] == text[at + 0]);
        assert(read(text, at, 0, 0) == 0);
        reveal_with_fuel(read, 2);
        assert forall|i: int| at <= i < at + d.len() implies is_digit(#[trigger] text[i]) by {
            assert(i == at);
        }
    } else {
        let before = decimal(n / 10);
        assert(d == before.push(digit_char(n as int % 10)));
        assert forall|i: int| 0 <= i < before.len() implies #[trigger] before[i] == text[at
            + i] by {
            assert(d[i] == before[i]);
        }
        lemma_decimal(text, at, n / 10);
        assert(d[k - 1] == text[at + (k - 1)]);
        assert forall|i: int| at <= i < at + d.len() implies is_digit(#[trigger] text[i]) by {
            if i == at + k - 1 {
                assert(text[i] == digit_char(n as int % 10));
            }
        }
    }
}

/// The number of an id in brackets fits exactly where it has no more than 64 bits: `f<[6]>`.
pub proof fn ids_fit_where_they_have_64_bits(name: Seq<char>, n: nat)
    requires
        forall|i: int| 0 <= i < name.len() ==> is_plain(#[trigger] name[i]),
    ensures
        numbers_fit(name + seq!['<', '['] + decimal(n) + seq![']', '>']) == (n <= u64::MAX),
{
    let text = name + seq!['<', '['] + decimal(n) + seq![']', '>'];
    let open = name.len() + 1;
    lemma_bracketed(text, open as int, n);
    assert forall|i: int| 0 <= i < open implies is_plain(#[trigger] text[i]) by {
        if i < name.len() {
            assert(text[i] == name[i]);
        }
    }
    lemma_plain(text, 0, -1, open as int);
    assert(text[open - 1] == '<');
}

/// A bracketed number, and what follows it.
proof fn lemma_bracketed(text: Seq<char>, open: int, n: nat)
    requires
        1 <= open,
        open + decimal(n).len() + 3 == text.len(),
        text[open] == '[',
        forall|i: int|
            0 <= i < decimal(n).len() ==> #[trigger] decimal(n)[i] == text[open + 1 + i],
        text[open + 1 + decimal(n).len()] == ']',
        text[open + 2 + decimal(n).len()] == '>',
        !ends_name(text[open - 1]),
    ensures
        numbers_fit_from(text, open, open - 1, 0) == (n <= u64::MAX || is_user_type_mark(
            text,
            open - 1,
        )),
{
    let start = open + 1;
    let k = decimal(n).len();
    lemma_decimal(text, start, n);
    assert(is_digit(text[start]));
    assert(comment_end(text, start) is None);
    assert(next_token(text, start) == start);
    lemma_read(text, start, k);
    assert(number_at(text, start, 0) == n);
    assert(text[start] == '0' ==> n == 0);
    assert forall|i: int| start <= i < text.len() implies is_plain(#[trigger] text[i]) by {
        if i < start + k {
            assert(is_digit(text[i]));
        }
    }
    lemma_plain(text, start, open, text.len() as int);
    assert(numbers_fit_from(text, start, open, 0));
    assert(comment_end(text, open) is None);
    assert(number_fits(text, start, is_user_type_mark(text, open - 1)) == (n <= u64::MAX
        || is_user_type_mark(text, open - 1)));
}

/// The number of a user type may have any size: `f<ut@[6]>`.
pub proof fn user_types_always_fit(name: Seq<char>, n: nat)
    requires
        forall|i: int| 0 <= i < name.len() ==> is_plain(#[trigger] name[i]),
    ensures
        numbers_fit(name + seq!['<', 'u', 't', '@', '['] + decimal(n) + seq![']', '>']),
{
    let text = name + seq!['<', 'u', 't', '@', '['] + decimal(n) + seq![']', '>'];
    let open = name.len() + 4;
    assert(text[open - 1] == '@' && text[open - 2] == 't' && text[open - 3] == 'u');
    lemma_bracketed(text, open as int, n);
    assert forall|i: int| 0 <= i < open implies is_plain(#[trigger] text[i]) by {
        if i < name.len() {
            assert(text[i] == name[i]);
        }
    }
    lemma_plain(text, 0, -1, open as int);
}

} // verus!
