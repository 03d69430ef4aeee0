//! Text handling over characters: trimming, prefixes, searching, and decimal
//! numbers.

use vstd::prelude::*;
use vstd::string::*;
use vstd::utf8::{decode_utf8, valid_utf8};

verus! {

broadcast use vstd::string::group_string_axioms;

/// The characters of `s`, in order.
pub fn characters(s: &str) -> (chars: Vec<char>)
    ensures
        chars@ == s@,
{
    let mut chars: Vec<char> = Vec::new();
    for c in it: s.chars()
        invariant
            it.seq() == s@,
            chars@ == it.seq().take(it.index() as int),
    {
        chars.push(c);
        assert(chars@ =~= it.seq().take(it.index() + 1));
    }
    assert(s@.take(s@.len() as int) =~= s@);
    chars
}

/// The text that `bytes` encode, if they are UTF-8, read with
/// `std::str::from_utf8`.
#[verifier::external_body]
pub(crate) fn utf8_text(bytes: &[u8]) -> (text: Option<String>)
    ensures
        match text {
            Some(text) => valid_utf8(bytes@) && text@ == decode_utf8(bytes@),
            None => !valid_utf8(bytes@),
        },
{
    match std::str::from_utf8(bytes) {
        Ok(text) => Some(text.to_owned()),
        Err(_) => None,
    }
}

/// `s` in lowercase, as Unicode maps it and `str::to_lowercase` computes it.
pub uninterp spec fn lowercase(s: Seq<char>) -> Seq<char>;

/// Maps `s` to lowercase with `str::to_lowercase`, a function of the text alone.
#[verifier::external_body]
pub(crate) fn to_lowercase(s: &str) -> (lower: String)
    ensures
        lower@ == lowercase(s@),
{
    s.to_lowercase()
}

/// `s` in double quotes with its special characters escaped, as `str`'s `Debug`
/// writes it.
pub uninterp spec fn quoted(s: Seq<char>) -> Seq<char>;

/// Quotes `s` with `str`'s `Debug`, a function of the text alone.
#[verifier::external_body]
pub(crate) fn quote(s: &str) -> (literal: String)
    ensures
        literal@ == quoted(s@),
{
    format!("{:?}", s)
}

/// True when `a` and `b` hold the same characters.
pub fn same(a: &str, b: &str) -> (equal: bool)
    ensures
        equal == (a@ == b@),
{
    a.to_owned() == b.to_owned()
}

/// A character with Unicode's `White_Space` property.
pub open spec fn white_space(c: char) -> bool {
    ||| '\u{9}' <= c <= '\u{d}'
    ||| c == ' '
    ||| c == '\u{85}'
    ||| c == '\u{a0}'
    ||| c == '\u{1680}'
    ||| '\u{2000}' <= c <= '\u{200a}'
    ||| c == '\u{2028}'
    ||| c == '\u{2029}'
    ||| c == '\u{202f}'
    ||| c == '\u{205f}'
    ||| c == '\u{3000}'
}

/// Decides [`white_space`].
pub fn is_white_space(c: char) -> (white: bool)
    ensures
        white == white_space(c),
{
    ('\u{9}' <= c && c <= '\u{d}') || c == ' ' || c == '\u{85}' || c == '\u{a0}' || c == '\u{1680}'
        || ('\u{2000}' <= c && c <= '\u{200a}') || c == '\u{2028}' || c == '\u{2029}'
        || c == '\u{202f}' || c == '\u{205f}' || c == '\u{3000}'
}

/// `s` without its leading white space.
pub open spec fn trimmed_start(s: Seq<char>) -> Seq<char>
    decreases s.len(),
{
    if s.len() > 0 && white_space(s[0]) {
        trimmed_start(s.skip(1))
    } else {
        s
    }
}

/// `s` without its trailing white space.
pub open spec fn trimmed_end(s: Seq<char>) -> Seq<char>
    decreases s.len(),
{
    if s.len() > 0 && white_space(s.last()) {
        trimmed_end(s.drop_last())
    } else {
        s
    }
}

/// `s` without white space at either end.
pub open spec fn trimmed(s: Seq<char>) -> Seq<char> {
    trimmed_end(trimmed_start(s))
}

/// `s` without white space at either end.
pub fn trim<'a>(s: &'a str) -> (inner: &'a str)
    ensures
        inner@ == trimmed(s@),
{
    let chars: Vec<char> = characters(s);
    let mut from: usize = 0;
    assert(s@.skip(0) =~= s@);
    while from < chars.len() && is_white_space(chars[from])
        invariant
            chars@ == s@,
            from <= chars.len(),
            trimmed_start(s@) == trimmed_start(s@.skip(from as int)),
        decreases chars.len() - from,
    {
        assert(s@.skip(from as int).skip(1) =~= s@.skip(from + 1));
        from = from + 1;
    }
    let mut to: usize = chars.len();
    assert(s@.subrange(from as int, to as int) =~= s@.skip(from as int));
    while to > from && is_white_space(chars[to - 1])
        invariant
            chars@ == s@,
            from <= to <= chars.len(),
            trimmed(s@) == trimmed_end(s@.subrange(from as int, to as int)),
        decreases to,
    {
        assert(s@.subrange(from as int, to as int).drop_last() =~= s@.subrange(
            from as int,
            to - 1,
        ));
        to = to - 1;
    }
    s.substring_char(from, to)
}

/// True when `s` holds nothing but white space.
pub fn is_blank(s: &str) -> (blank: bool)
    ensures
        blank == (trimmed(s@).len() == 0),
{
    trim(s).is_empty()
}

/// `s` without the run of `c` that ends it.
pub open spec fn without_trailing(s: Seq<char>, c: char) -> Seq<char>
    decreases s.len(),
{
    if s.len() > 0 && s.last() == c {
        without_trailing(s.drop_last(), c)
    } else {
        s
    }
}

/// `s` without the run of `c` that ends it.
pub fn trim_end_of<'a>(s: &'a str, c: char) -> (head: &'a str)
    ensures
        head@ == without_trailing(s@, c),
{
    let chars: Vec<char> = characters(s);
    let mut to: usize = chars.len();
    assert(s@.take(to as int) =~= s@);
    while to > 0 && chars[to - 1] == c
        invariant
            chars@ == s@,
            to <= chars.len(),
            without_trailing(s@, c) == without_trailing(s@.take(to as int), c),
        decreases to,
    {
        assert(s@.take(to as int).drop_last() =~= s@.take(to - 1));
        to = to - 1;
    }
    assert(s@.take(to as int) =~= s@.subrange(0, to as int));
    s.substring_char(0, to)
}

/// What follows `prefix` in `s`, when `s` starts with it.
pub fn strip_prefix<'a>(s: &'a str, prefix: &str) -> (rest: Option<&'a str>)
    ensures
        match rest {
            Some(rest) => prefix@.is_prefix_of(s@) && rest@ == s@.skip(prefix@.len() as int),
            None => !prefix@.is_prefix_of(s@),
        },
{
    let count: usize = prefix.unicode_len();
    let total: usize = s.unicode_len();
    if count > total {
        return None;
    }
    let head: &str = s.substring_char(0, count);
    if same(head, prefix) {
        assert(s@.subrange(count as int, total as int) =~= s@.skip(count as int));
        Some(s.substring_char(count, total))
    } else {
        None
    }
}

/// True when `needle` occurs somewhere in `s`.
pub open spec fn holds(s: Seq<char>, needle: Seq<char>) -> bool {
    exists|at: int| 0 <= at <= s.len() - needle.len() && #[trigger] s.subrange(at, at + needle.len()) == needle
}

/// Decides [`holds`].
pub fn contains(s: &str, needle: &str) -> (found: bool)
    ensures
        found == holds(s@, needle@),
{
    let total: usize = s.unicode_len();
    let count: usize = needle.unicode_len();
    let mut at: usize = 0;
    while count <= total && at <= total - count
        invariant
            total == s@.len(),
            count == needle@.len(),
            count <= total ==> at <= total - count + 1,
            forall|k: int| 0 <= k < at && k <= total - count ==> #[trigger] s@.subrange(k, k + count) != needle@,
        decreases total + 1 - at,
    {
        if same(s.substring_char(at, at + count), needle) {
            return true;
        }
        if at == total - count {
            return false;
        }
        at = at + 1;
    }
    false
}

/// The position of the first `c` in `chars`.
pub fn first_position(chars: &Vec<char>, c: char) -> (at: Option<usize>)
    ensures
        match at {
            Some(at) => at < chars.len() && chars@[at as int] == c && forall|k: int|
                0 <= k < at ==> chars@[k] != c,
            None => !chars@.contains(c),
        },
{
    let mut at: usize = 0;
    while at < chars.len()
        invariant
            at <= chars.len(),
            forall|k: int| 0 <= k < at ==> chars@[k] != c,
        decreases chars.len() - at,
    {
        if chars[at] == c {
            return Some(at);
        }
        at = at + 1;
    }
    None
}

/// The position of the last `c` in `chars`.
pub fn last_position(chars: &Vec<char>, c: char) -> (at: Option<usize>)
    ensures
        match at {
            Some(at) => at < chars.len() && chars@[at as int] == c && forall|k: int|
                at < k < chars.len() ==> chars@[k] != c,
            None => !chars@.contains(c),
        },
{
    let mut left: usize = chars.len();
    while left > 0
        invariant
            left <= chars.len(),
            forall|k: int| left <= k < chars.len() ==> chars@[k] != c,
        decreases left,
    {
        left = left - 1;
        if chars[left] == c {
            return Some(left);
        }
    }
    None
}

/// The character that writes the digit `d`.
pub open spec fn digit(d: nat) -> char {
    "0123456789"@[d as int]
}

/// `n` in decimal, without leading zeros.
pub open spec fn decimal(n: nat) -> Seq<char>
    decreases n,
{
    if n < 10 {
        seq![digit(n)]
    } else {
        decimal(n / 10).push(digit(n % 10))
    }
}

/// `n` in decimal, without leading zeros.
pub fn decimal_text(n: u64) -> (s: String)
    ensures
        s@ == decimal(n as nat),
    decreases n,
{
    let digits: &str = "0123456789";
    proof {
        reveal_strlit("0123456789");
    }
    let last: usize = (n % 10) as usize;
    let mut s: String = if n < 10 {
        String::new()
    } else {
        decimal_text(n / 10)
    };
    s.append(digits.substring_char(last, last + 1));
    assert(s@ =~= decimal(n as nat));
    s
}

/// An ASCII decimal digit.
pub open spec fn is_digit(c: char) -> bool {
    '0' <= c <= '9'
}

/// Every character of `s` is an ASCII decimal digit.
pub open spec fn all_digits(s: Seq<char>) -> bool {
    forall|k: int| 0 <= k < s.len() ==> is_digit(#[trigger] s[k])
}

/// The number that a run of decimal digits writes.
pub open spec fn digits_value(s: Seq<char>) -> nat
    decreases s.len(),
{
    if s.len() == 0 {
        0
    } else {
        digits_value(s.drop_last()) * 10 + (s.last() as nat - '0' as nat) as nat
    }
}

/// The digits of a number that may carry a plus sign.
pub open spec fn unsigned_digits(s: Seq<char>) -> Seq<char> {
    if s.len() > 0 && s[0] == '+' {
        s.skip(1)
    } else {
        s
    }
}

/// The `u64` that `s` writes: an optional plus sign, then at least one decimal
/// digit and nothing else, with a value that fits.
pub open spec fn parsed_u64(s: Seq<char>) -> Option<u64> {
    let digits = unsigned_digits(s);
    if digits.len() > 0 && all_digits(digits) && digits_value(digits) <= u64::MAX {
        Some(digits_value(digits) as u64)
    } else {
        None
    }
}

proof fn lemma_digits_value_grows(s: Seq<char>, from: int)
    requires
        0 <= from <= s.len(),
    ensures
        digits_value(s.take(from)) <= digits_value(s),
    decreases s.len() - from,
{
    if from == s.len() {
        assert(s.take(from) =~= s);
    } else {
        lemma_digits_value_grows(s, from + 1);
        assert(s.take(from + 1).drop_last() =~= s.take(from));
    }
}

/// The `u64` that `s` writes, if it writes one.
pub fn parse_u64(s: &str) -> (n: Option<u64>)
    ensures
        n == parsed_u64(s@),
{
    let chars: Vec<char> = characters(s);
    let mut at: usize = 0;
    if chars.len() > 0 && chars[0] == '+' {
        at = 1;
    }
    let ghost start = at as int;
    let ghost digits = unsigned_digits(s@);
    assert(digits =~= s@.skip(start));
    if at == chars.len() {
        return None;
    }
    let mut value: u64 = 0;
    assert(digits.take(0) =~= Seq::<char>::empty());
    while at < chars.len()
        invariant
            chars@ == s@,
            start <= at <= chars.len(),
            0 <= start <= chars.len(),
            digits == s@.skip(start),
            digits == unsigned_digits(s@),
            value == digits_value(digits.take(at - start)),
            forall|k: int| 0 <= k < at - start ==> is_digit(digits[k]),
        decreases chars.len() - at,
    {
        let c: char = chars[at];
        assert(digits[at - start] == c);
        if !('0' <= c && c <= '9') {
            assert(!is_digit(digits[at - start]));
            return None;
        }
        let d: u64 = (c as u64) - ('0' as u64);
        assert(digits.take(at - start + 1).drop_last() =~= digits.take(at - start));
        proof {
            lemma_digits_value_grows(digits, at - start + 1);
        }
        if value > (u64::MAX - d) / 10 {
            assert(digits_value(digits) > u64::MAX);
            return None;
        }
        value = value * 10 + d;
        at = at + 1;
    }
    assert(digits.take(at - start) =~= digits);
    Some(value)
}

/// A number written in decimal reads back as itself.
pub proof fn decimal_reads_back(n: u64)
    ensures
        parsed_u64(decimal(n as nat)) == Some(n),
{
    lemma_decimal(n as nat);
    let s = decimal(n as nat);
    assert(is_digit(s[0]));
    assert(unsigned_digits(s) == s);
}

/// A decimal number has no white space around it.
pub proof fn decimal_is_trimmed(n: nat)
    ensures
        trimmed(decimal(n)) == decimal(n),
{
    lemma_decimal(n);
    let s = decimal(n);
    assert(is_digit(s[0]) && is_digit(s[s.len() - 1]));
}

proof fn lemma_decimal(n: nat)
    ensures
        decimal(n).len() > 0,
        forall|k: int| 0 <= k < decimal(n).len() ==> is_digit(decimal(n)[k]),
        digits_value(decimal(n)) == n,
    decreases n,
{
    reveal_strlit("0123456789");
    reveal_with_fuel(digits_value, 2);
    if n < 10 {
        assert(decimal(n).drop_last() =~= Seq::<char>::empty());
    } else {
        lemma_decimal(n / 10);
        assert(decimal(n).drop_last() =~= decimal(n / 10));
    }
}

/// Trimming takes white space away at both ends, all of it, and nothing else: `s` is
/// what remains with white space around it, and what remains is empty or has none at
/// its ends.
pub proof fn trimming_takes_only_the_ends(s: Seq<char>) -> (ends: (Seq<char>, Seq<char>))
    ensures
        s == ends.0 + trimmed(s) + ends.1,
        forall|i: int| 0 <= i < ends.0.len() ==> white_space(#[trigger] ends.0[i]),
        forall|i: int| 0 <= i < ends.1.len() ==> white_space(#[trigger] ends.1[i]),
        trimmed(s).len() > 0 ==> !white_space(trimmed(s)[0]) && !white_space(trimmed(s).last()),
{
    let before = lemma_trimmed_start(s);
    let after = lemma_trimmed_end(trimmed_start(s));
    assert(s =~= before + trimmed(s) + after);
    (before, after)
}

proof fn lemma_trimmed_start(s: Seq<char>) -> (before: Seq<char>)
    ensures
        s == before + trimmed_start(s),
        forall|i: int| 0 <= i < before.len() ==> white_space(#[trigger] before[i]),
        trimmed_start(s).len() > 0 ==> !white_space(trimmed_start(s)[0]),
    decreases s.len(),
{
    if s.len() > 0 && white_space(s[0]) {
        let rest = lemma_trimmed_start(s.skip(1));
        let before = seq![s[0]] + rest;
        assert(s =~= seq![s[0]] + s.skip(1));
        assert(trimmed_start(s) == trimmed_start(s.skip(1)));
        assert(s =~= before + trimmed_start(s));
        before
    } else {
        assert(s =~= Seq::<char>::empty() + s);
        Seq::empty()
    }
}

proof fn lemma_trimmed_end(s: Seq<char>) -> (after: Seq<char>)
    ensures
        s == trimmed_end(s) + after,
        forall|i: int| 0 <= i < after.len() ==> white_space(#[trigger] after[i]),
        trimmed_end(s).len() > 0 ==> !white_space(trimmed_end(s).last()),
        trimmed_end(s).len() > 0 ==> trimmed_end(s)[0] == s[0],
    decreases s.len(),
{
    if s.len() > 0 && white_space(s.last()) {
        let rest = lemma_trimmed_end(s.drop_last());
        let after = rest.push(s.last());
        assert(s =~= s.drop_last().push(s.last()));
        assert(trimmed_end(s) == trimmed_end(s.drop_last()));
        assert(s =~= trimmed_end(s) + after);
        after
    } else {
        assert(s =~= s + Seq::<char>::empty());
        Seq::empty()
    }
}

/// White space is the 25 characters that Unicode gives the property.
pub proof fn white_space_of_unicode(c: char)
    ensures
        white_space(c) <==> {
            ||| 9 <= c as u32 <= 13
            ||| c as u32 == 32 || c as u32 == 133 || c as u32 == 160 || c as u32 == 5760
            ||| 8192 <= c as u32 <= 8202
            ||| c as u32 == 8232 || c as u32 == 8233 || c as u32 == 8239 || c as u32 == 8287
            ||| c as u32 == 12288
        },
{
}

/// Taking a character off the end takes the whole run of it, and nothing else.
pub proof fn trailing_run_is_taken(s: Seq<char>, c: char)
    ensures
        without_trailing(s, c).is_prefix_of(s),
        forall|i: int| without_trailing(s, c).len() <= i < s.len() ==> #[trigger] s[i] == c,
        without_trailing(s, c).len() > 0 ==> without_trailing(s, c).last() != c,
    decreases s.len(),
{
    if s.len() > 0 && s.last() == c {
        trailing_run_is_taken(s.drop_last(), c);
        let rest = without_trailing(s, c);
        assert(rest == without_trailing(s.drop_last(), c));
        assert(rest =~= s.subrange(0, rest.len() as int));
        assert forall|i: int| rest.len() <= i < s.len() implies #[trigger] s[i] == c by {
            if i < s.len() - 1 {
                assert(s.drop_last()[i] == s[i]);
            }
        }
    }
}

/// A text occurs in all that it is put into.
pub proof fn occurrences_are_found(before: Seq<char>, needle: Seq<char>, after: Seq<char>)
    ensures
        holds(before + needle + after, needle),
{
    let s = before + needle + after;
    let at = before.len() as int;
    assert(s.subrange(at, at + needle.len()) =~= needle);
}

/// A digit counts ten times what the one behind it counts: one more digit at the end adds
/// itself to ten times the value.
pub proof fn digits_have_places(a: Seq<char>, c: char)
    requires
        is_digit(c),
    ensures
        digits_value(a.push(c)) == 10 * digits_value(a) + (c as u32 - 48),
        digits_value(Seq::empty()) == 0,
        is_digit(c) <==> 48 <= c as u32 <= 57,
{
    assert(a.push(c).drop_last() =~= a);
}

/// A number is read only from digits, at least one of them and perhaps behind a plus
/// sign, whose value fits.
pub proof fn only_numbers_are_read(s: Seq<char>, n: u64)
    requires
        parsed_u64(s) == Some(n),
    ensures
        ({
            let digits = if s.len() > 0 && s[0] == '+' {
                s.skip(1)
            } else {
                s
            };
            &&& digits.len() > 0
            &&& forall|i: int| 0 <= i < digits.len() ==> '0' <= #[trigger] digits[i] <= '9'
            &&& digits_value(digits) == n
        }),
{
    let digits = unsigned_digits(s);
    assert forall|i: int| 0 <= i < digits.len() implies '0' <= #[trigger] digits[i] <= '9' by {
        assert(is_digit(digits[i]));
    }
}

/// Digits whose value fits are read, with and without a plus sign.
pub proof fn numbers_are_read(digits: Seq<char>)
    requires
        digits.len() > 0,
        forall|i: int| 0 <= i < digits.len() ==> '0' <= #[trigger] digits[i] <= '9',
        digits_value(digits) <= u64::MAX,
    ensures
        parsed_u64(digits) == Some(digits_value(digits) as u64),
        parsed_u64(seq!['+'] + digits) == Some(digits_value(digits) as u64),
{
    assert(digits[0] != '+');
    assert((seq!['+'] + digits).skip(1) =~= digits);
    assert forall|k: int| 0 <= k < digits.len() implies is_digit(#[trigger] digits[k]) by {
        assert('0' <= digits[k] <= '9');
    }
}

/// A number is written with as many digits as it needs: none but zero starts with one.
pub proof fn decimals_have_no_leading_zeros(n: nat)
    ensures
        decimal(n).len() > 0,
        forall|i: int| 0 <= i < decimal(n).len() ==> 48 <= (#[trigger] decimal(n)[i]) as u32 <= 57,
        digits_value(decimal(n)) == n,
        n > 0 ==> decimal(n)[0] != '0',
    decreases n,
{
    lemma_decimal(n);
    assert forall|i: int| 0 <= i < decimal(n).len() implies 48 <= (#[trigger] decimal(n)[i]) as u32
        <= 57 by {
        assert(is_digit(decimal(n)[i]));
    }
    reveal_strlit("0123456789");
    if n >= 10 {
        decimals_have_no_leading_zeros(n / 10);
        assert(decimal(n)[0] == decimal(n / 10)[0]);
    }
}

/// A text occurs only where something stands before it and something behind it.
pub proof fn occurrences_split(s: Seq<char>, needle: Seq<char>) -> (around: (Seq<char>, Seq<char>))
    requires
        holds(s, needle),
    ensures
        s == around.0 + needle + around.1,
{
    let at = choose|at: int|
        0 <= at <= s.len() - needle.len() && #[trigger] s.subrange(at, at + needle.len()) == needle;
    let around = (s.take(at), s.skip(at + needle.len()));
    assert(s =~= s.take(at) + s.subrange(at, at + needle.len()) + s.skip(at + needle.len()));
    around
}

}
