//! Character classes, comparison of words and decimal numbers.

use vstd::prelude::*;
use vstd::string::*;

verus! {

/// Unicode's `White_Space` characters.
pub open spec fn whitespace(c: char) -> bool {
    let n = c as u32;
    ||| 0x09 <= n <= 0x0D
    ||| n == 0x20
    ||| n == 0x85
    ||| n == 0xA0
    ||| n == 0x1680
    ||| 0x2000 <= n <= 0x200A
    ||| n == 0x2028
    ||| n == 0x2029
    ||| n == 0x202F
    ||| n == 0x205F
    ||| n == 0x3000
}

/// A space or a horizontal tab.
pub open spec fn blank(c: char) -> bool {
    c == ' ' || c == '\t'
}

/// The delimiters that end a word: `( ) < > [ ] : ; @ \ , . "`.
pub open spec fn special(c: char) -> bool {
    ||| c == '('
    ||| c == ')'
    ||| c == '<'
    ||| c == '>'
    ||| c == '['
    ||| c == ']'
    ||| c == ':'
    ||| c == ';'
    ||| c == '@'
    ||| c == '\\'
    ||| c == ','
    ||| c == '.'
    ||| c == '"'
}

/// A character of a word: visible ASCII that is no delimiter.
pub open spec fn atext(c: char) -> bool {
    0x21 <= c as u32 <= 0x7E && !special(c)
}

/// An ASCII decimal digit.
pub open spec fn digit(c: char) -> bool {
    0x30 <= c as u32 <= 0x39
}

/// The value of a digit; zero for any other character.
pub open spec fn digit_value(c: char) -> nat {
    if digit(c) {
        (c as u32 - 0x30) as nat
    } else {
        0
    }
}

/// The code of a character after ASCII upper-case letters are lowered.
pub open spec fn lowered(c: char) -> u32 {
    if 0x41 <= c as u32 <= 0x5A {
        (c as u32 + 0x20) as u32
    } else {
        c as u32
    }
}

/// `word`, with its ASCII letters lowered, reads `name`.
pub open spec fn reads_as(word: Seq<char>, name: Seq<char>) -> bool {
    &&& word.len() == name.len()
    &&& forall|i: int| 0 <= i < word.len() ==> lowered(#[trigger] word[i]) == name[i] as u32
}

pub open spec fn all_digits(s: Seq<char>) -> bool {
    forall|i: int| 0 <= i < s.len() ==> digit(#[trigger] s[i])
}

/// The number that a sequence of digits writes in base ten.
pub open spec fn decimal(s: Seq<char>) -> nat
    decreases s.len(),
{
    if s.len() == 0 {
        0
    } else {
        decimal(s.drop_last()) * 10 + digit_value(s.last())
    }
}

/// The digits of `s` and no more: at least one digit, and a value of at most
/// `max`.
pub open spec fn parse_digits(s: Seq<char>, max: nat) -> Option<nat> {
    if s.len() > 0 && all_digits(s) && decimal(s) <= max {
        Some(decimal(s))
    } else {
        None
    }
}

/// `s` without one leading `+`, if it has one.
pub open spec fn without_plus(s: Seq<char>) -> Seq<char> {
    if s.len() > 0 && s[0] == '+' {
        s.skip(1)
    } else {
        s
    }
}

/// An unsigned 32-bit number in base ten: an optional `+`, then digits.
pub open spec fn parse_unsigned(s: Seq<char>) -> Option<nat> {
    parse_digits(without_plus(s), 0xFFFF_FFFF)
}

/// A signed 32-bit number in base ten: an optional `+` or `-`, then digits.
pub open spec fn parse_signed(s: Seq<char>) -> Option<int> {
    if s.len() > 0 && s[0] == '-' {
        match parse_digits(s.skip(1), 0x8000_0000) {
            Some(v) => Some(-(v as int)),
            None => None,
        }
    } else {
        match parse_digits(without_plus(s), 0x7FFF_FFFF) {
            Some(v) => Some(v as int),
            None => None,
        }
    }
}

pub fn is_whitespace(c: char) -> (r: bool)
    ensures
        r == whitespace(c),
{
    let n: u32 = c as u32;
    (0x09 <= n && n <= 0x0D) || n == 0x20 || n == 0x85 || n == 0xA0 || n == 0x1680 || (0x2000 <= n
        && n <= 0x200A) || n == 0x2028 || n == 0x2029 || n == 0x202F || n == 0x205F || n == 0x3000
}

pub fn is_blank(c: char) -> (r: bool)
    ensures
        r == blank(c),
{
    c == ' ' || c == '\t'
}

pub fn is_atext(c: char) -> (r: bool)
    ensures
        r == atext(c),
{
    let n: u32 = c as u32;
    0x21 <= n && n <= 0x7E && !(c == '(' || c == ')' || c == '<' || c == '>' || c == '[' || c == ']'
        || c == ':' || c == ';' || c == '@' || c == '\\' || c == ',' || c == '.' || c == '"')
}

pub fn is_digit(c: char) -> (r: bool)
    ensures
        r == digit(c),
{
    let n: u32 = c as u32;
    0x30 <= n && n <= 0x39
}

fn lower_code(c: char) -> (r: u32)
    ensures
        r == lowered(c),
{
    let n: u32 = c as u32;
    if 0x41 <= n && n <= 0x5A {
        n + 0x20
    } else {
        n
    }
}

/// Whether `word` reads `name` once its ASCII letters are lowered.
pub fn matches_name(word: &str, name: &str) -> (r: bool)
    ensures
        r == reads_as(word@, name@),
{
    let n: usize = word.unicode_len();
    if name.unicode_len() != n {
        return false;
    }
    let mut i: usize = 0;
    while i < n
        invariant
            n == word@.len(),
            n == name@.len(),
            i <= n,
            forall|j: int| 0 <= j < i ==> lowered(#[trigger] word@[j]) == name@[j] as u32,
        decreases n - i,
    {
        if lower_code(word.get_char(i)) != name.get_char(i) as u32 {
            return false;
        }
        i += 1;
    }
    true
}

/// Whether two texts hold the same characters.
pub fn same_text(a: &str, b: &str) -> (r: bool)
    ensures
        r == (a@ == b@),
{
    let n: usize = a.unicode_len();
    if b.unicode_len() != n {
        return false;
    }
    let mut i: usize = 0;
    while i < n
        invariant
            n == a@.len(),
            n == b@.len(),
            i <= n,
            forall|j: int| 0 <= j < i ==> a@[j] == b@[j],
        decreases n - i,
    {
        if a.get_char(i) != b.get_char(i) {
            return false;
        }
        i += 1;
    }
    proof {
        assert(a@ =~= b@);
    }
    true
}

/// A prefix of a digit string writes no larger a number than the whole.
pub proof fn lemma_decimal_prefix(s: Seq<char>, k: int)
    requires
        0 <= k <= s.len(),
    ensures
        decimal(s.take(k)) <= decimal(s),
    decreases s.len() - k,
{
    if k == s.len() {
        assert(s.take(k) =~= s);
    } else {
        lemma_decimal_prefix(s.drop_last(), k);
        assert(s.drop_last().take(k) =~= s.take(k));
    }
}

/// Reads the characters of `s` from `start` on as digits.
pub fn read_digits(s: &str, start: usize, max: u64) -> (r: Option<u64>)
    requires
        start <= s@.len(),
        max <= 0xFFFF_FFFF,
    ensures
        match parse_digits(s@.skip(start as int), max as nat) {
            Some(v) => r == Some(v as u64),
            None => r is None,
        },
{
    let n: usize = s.unicode_len();
    let ghost whole = s@.skip(start as int);
    if start == n {
        return None;
    }
    let mut acc: u64 = 0;
    let mut i: usize = start;
    while i < n
        invariant
            start <= i <= n,
            n == s@.len(),
            whole == s@.skip(start as int),
            all_digits(whole.take(i - start)),
            acc == decimal(whole.take(i - start)),
            acc <= max <= 0xFFFF_FFFF,
        decreases n - i,
    {
        let c = s.get_char(i);
        proof {
            assert(whole[i - start] == c);
            assert(whole.take(i - start + 1).drop_last() =~= whole.take(i - start));
            assert(whole.take(i - start + 1).last() == c);
        }
        if !is_digit(c) {
            return None;
        }
        let next: u64 = acc * 10 + (c as u32 - 0x30) as u64;
        if next > max {
            proof {
                lemma_decimal_prefix(whole, i - start + 1);
            }
            return None;
        }
        acc = next;
        i += 1;
    }
    proof {
        assert(whole.take(n - start) =~= whole);
    }
    Some(acc)
}

/// Reads `s` as an unsigned 32-bit number in base ten.
pub fn read_unsigned(s: &str) -> (r: Option<u32>)
    ensures
        match parse_unsigned(s@) {
            Some(v) => r == Some(v as u32),
            None => r is None,
        },
{
    let start: usize = if s.unicode_len() > 0 && s.get_char(0) == '+' {
        1
    } else {
        0
    };
    proof {
        assert(s@.skip(0) =~= s@);
    }
    match read_digits(s, start, 0xFFFF_FFFF) {
        Some(v) => Some(v as u32),
        None => None,
    }
}

/// Reads `s` as a signed 32-bit number in base ten.
pub fn read_signed(s: &str) -> (r: Option<i32>)
    ensures
        match parse_signed(s@) {
            Some(v) => r == Some(v as i32),
            None => r is None,
        },
{
    proof {
        assert(s@.skip(0) =~= s@);
    }
    let n: usize = s.unicode_len();
    if n > 0 && s.get_char(0) == '-' {
        match read_digits(s, 1, 0x8000_0000) {
            Some(v) => Some((0 - v as i64) as i32),
            None => None,
        }
    } else {
        let start: usize = if n > 0 && s.get_char(0) == '+' {
            1
        } else {
            0
        };
        match read_digits(s, start, 0x7FFF_FFFF) {
            Some(v) => Some(v as i32),
            None => None,
        }
    }
}

} // verus!
