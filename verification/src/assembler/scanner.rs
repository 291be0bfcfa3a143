//! Characters, runs of characters and decimal numbers: what every parser of
//! the assembler is built from.

use vstd::prelude::*;

verus! {

/// `String::push` of the standard library: the string afterwards is the
/// string before with the character `c` appended at its end.
pub assume_specification[ String::push ](s: &mut String, c: char)
    ensures
        final(s)@ == old(s)@.push(c),
;

/// The classes of characters that the grammar tells apart.
#[derive(Debug, PartialEq, Eq, Structural, Clone, Copy)]
pub enum CharClass {
    /// Space, tab, carriage return and line feed.
    Space,
    /// `0` to `9`.
    Digit,
    /// `a` to `z` and `A` to `Z`.
    Alpha,
    /// A letter or a digit.
    Alphanumeric,
}

/// Whether `c` is a space, a tab, a carriage return or a line feed.
pub open spec fn is_space(c: char) -> bool {
    c == ' ' || c == '\t' || c == '\r' || c == '\n'
}

/// Whether `c` is one of `0` to `9`.
pub open spec fn is_digit(c: char) -> bool {
    '0' <= c <= '9'
}

/// Whether `c` is one of `a` to `z` or of `A` to `Z`.
pub open spec fn is_alpha(c: char) -> bool {
    ('a' <= c <= 'z') || ('A' <= c <= 'Z')
}

impl CharClass {
    /// Whether `c` belongs to the class.
    pub open spec fn spec_contains(self, c: char) -> bool {
        match self {
            CharClass::Space => is_space(c),
            CharClass::Digit => is_digit(c),
            CharClass::Alpha => is_alpha(c),
            CharClass::Alphanumeric => is_alpha(c) || is_digit(c),
        }
    }

    /// Whether `c` belongs to the class.
    pub fn contains(self, c: char) -> (b: bool)
        ensures
            b == self.spec_contains(c),
    {
        match self {
            CharClass::Space => c == ' ' || c == '\t' || c == '\r' || c == '\n',
            CharClass::Digit => '0' <= c && c <= '9',
            CharClass::Alpha => ('a' <= c && c <= 'z') || ('A' <= c && c <= 'Z'),
            CharClass::Alphanumeric => ('a' <= c && c <= 'z') || ('A' <= c && c <= 'Z') || ('0'
                <= c && c <= '9'),
        }
    }
}

/// Where the longest run of characters of `class` that starts at `i` ends:
/// the first position at or after `i` that holds no character of the class.
pub open spec fn run_end(s: Seq<char>, i: int, class: CharClass) -> int
    decreases s.len() - i,
{
    if 0 <= i < s.len() && class.spec_contains(s[i]) {
        run_end(s, i + 1, class)
    } else {
        i
    }
}

/// A run ends inside the text, holds only characters of its class, and
/// cannot be extended.
pub proof fn lemma_run_end(s: Seq<char>, i: int, class: CharClass)
    requires
        0 <= i <= s.len(),
    ensures
        i <= run_end(s, i, class) <= s.len(),
        forall|k: int| i <= k < run_end(s, i, class) ==> class.spec_contains(#[trigger] s[k]),
        run_end(s, i, class) < s.len() ==> !class.spec_contains(s[run_end(s, i, class)]),
    decreases s.len() - i,
{
    if i < s.len() && class.spec_contains(s[i]) {
        lemma_run_end(s, i + 1, class);
    }
}

/// Where the first `quote` at or after `i` stands, or the length of the
/// text if there is none.
pub open spec fn find_char(s: Seq<char>, i: int, quote: char) -> int
    decreases s.len() - i,
{
    if 0 <= i < s.len() && s[i] != quote {
        find_char(s, i + 1, quote)
    } else {
        i
    }
}

/// The first `quote` at or after `i` is found inside the text, or nowhere.
pub proof fn lemma_find_char(s: Seq<char>, i: int, quote: char)
    requires
        0 <= i <= s.len(),
    ensures
        i <= find_char(s, i, quote) <= s.len(),
        forall|k: int| i <= k < find_char(s, i, quote) ==> #[trigger] s[k] != quote,
        find_char(s, i, quote) < s.len() ==> s[find_char(s, i, quote)] == quote,
    decreases s.len() - i,
{
    if i < s.len() && s[i] != quote {
        lemma_find_char(s, i + 1, quote);
    }
}

/// The number that a digit stands for.
pub open spec fn digit_value(c: char) -> nat {
    (c as int - '0' as int) as nat
}

/// The number that a sequence of digits writes in base ten.
pub open spec fn decimal_value(digits: Seq<char>) -> nat
    decreases digits.len(),
{
    if digits.len() == 0 {
        0
    } else {
        decimal_value(digits.drop_last()) * 10 + digit_value(digits.last())
    }
}

/// A number is at least the number that any of its leading digits write.
pub proof fn lemma_decimal_value_grows(digits: Seq<char>, n: int)
    requires
        0 <= n <= digits.len(),
    ensures
        decimal_value(digits.take(n)) <= decimal_value(digits),
    decreases digits.len(),
{
    if n == digits.len() {
        assert(digits.take(n) =~= digits);
    } else {
        lemma_decimal_value_grows(digits.drop_last(), n);
        assert(digits.drop_last().take(n) =~= digits.take(n));
    }
}

/// The characters of a string, in order.
pub fn to_chars(s: &str) -> (v: Vec<char>)
    ensures
        v@ == s@,
{
    let mut v: Vec<char> = Vec::new();
    let it = s.chars();
    for c in iter: it
        invariant
            v@ == iter.seq().take(iter.index()),
    {
        v.push(c);
    }
    v
}

/// The string made of the characters `text[from..to]`.
pub(crate) fn string_of(text: &[char], from: usize, to: usize) -> (s: String)
    requires
        from <= to <= text@.len(),
    ensures
        s@ == text@.subrange(from as int, to as int),
{
    let mut s = String::new();
    let mut i: usize = from;
    while i < to
        invariant
            from <= i <= to <= text@.len(),
            s@ == text@.subrange(from as int, i as int),
        decreases to - i,
    {
        s.push(text[i]);
        i += 1;
        assert(text@.subrange(from as int, i as int) =~= text@.subrange(from as int, i - 1).push(
            text@[i - 1],
        ));
    }
    s
}

/// Finds the end of the longest run of characters of `class` that starts at
/// `from`.
pub(crate) fn scan(text: &[char], from: usize, class: CharClass) -> (end: usize)
    requires
        from <= text@.len(),
    ensures
        end == run_end(text@, from as int, class),
        from <= end <= text@.len(),
{
    let mut i: usize = from;
    while i < text.len() && class.contains(text[i])
        invariant
            from <= i <= text@.len(),
            run_end(text@, from as int, class) == run_end(text@, i as int, class),
        decreases text@.len() - i,
    {
        i += 1;
    }
    i
}

/// Finds the first `quote` at or after `from`.
pub(crate) fn find(text: &[char], from: usize, quote: char) -> (end: usize)
    requires
        from <= text@.len(),
    ensures
        end == find_char(text@, from as int, quote),
        from <= end <= text@.len(),
        end < text@.len() ==> text@[end as int] == quote,
{
    let mut i: usize = from;
    while i < text.len() && text[i] != quote
        invariant
            from <= i <= text@.len(),
            find_char(text@, from as int, quote) == find_char(text@, i as int, quote),
        decreases text@.len() - i,
    {
        i += 1;
    }
    i
}

/// Reads the digits `text[from..to]` as a decimal number, if it is at most
/// `limit`.
pub(crate) fn parse_decimal(text: &[char], from: usize, to: usize, limit: u32) -> (r: Option<u32>)
    requires
        from <= to <= text@.len(),
        forall|k: int| from <= k < to ==> is_digit(#[trigger] text@[k]),
    ensures
        r == (if decimal_value(text@.subrange(from as int, to as int)) <= limit {
            Some(decimal_value(text@.subrange(from as int, to as int)) as u32)
        } else {
            None
        }),
{
    let ghost digits = text@.subrange(from as int, to as int);
    let mut acc: u64 = 0;
    let mut i: usize = from;
    while i < to
        invariant
            from <= i <= to <= text@.len(),
            digits == text@.subrange(from as int, to as int),
            forall|k: int| from <= k < to ==> is_digit(#[trigger] text@[k]),
            acc == decimal_value(digits.take(i - from)),
            acc <= limit,
        decreases to - i,
    {
        let c: char = text[i];
        let d: u64 = (c as u32 - '0' as u32) as u64;
        assert(is_digit(text@[i as int]));
        assert(digits.take(i + 1 - from).drop_last() =~= digits.take(i - from));
        assert(digits.take(i + 1 - from).last() == c);
        acc = acc * 10 + d;
        i += 1;
        if acc > limit as u64 {
            proof {
                lemma_decimal_value_grows(digits, i - from);
            }
            return None;
        }
    }
    assert(digits.take(to - from) =~= digits);
    Some(acc as u32)
}

/// The span of the body of a token that is written as `sigil` and then a
/// run of at least one character of `class`, where the token starts at the
/// first character at or after `i` that is no space.
pub open spec fn sigil_run(s: Seq<char>, i: int, sigil: char, class: CharClass) -> Option<
    (int, int),
> {
    let p = run_end(s, i, CharClass::Space);
    let e = run_end(s, p + 1, class);
    if p < s.len() && s[p] == sigil && e > p + 1 {
        Some((p + 1, e))
    } else {
        None
    }
}

/// Finds the body of a token written as `sigil` and a run of `class`.
pub(crate) fn scan_sigil_run(
    text: &[char],
    pos: usize,
    sigil: char,
    class: CharClass,
) -> (r: Option<(usize, usize)>)
    requires
        pos <= text@.len(),
    ensures
        match r {
            Some((a, e)) => {
                &&& sigil_run(text@, pos as int, sigil, class) == Some((a as int, e as int))
                &&& pos < a < e <= text@.len()
                &&& forall|k: int| a <= k < e ==> class.spec_contains(#[trigger] text@[k])
            },
            None => sigil_run(text@, pos as int, sigil, class) is None,
        },
{
    let p: usize = scan(text, pos, CharClass::Space);
    if p < text.len() && text[p] == sigil {
        let e: usize = scan(text, p + 1, class);
        if e > p + 1 {
            proof {
                lemma_run_end(text@, p + 1, class);
            }
            Some((p + 1, e))
        } else {
            None
        }
    } else {
        None
    }
}

/// Skips the spaces at and after `pos`.
pub(crate) fn skip_spaces(text: &[char], pos: usize) -> (end: usize)
    requires
        pos <= text@.len(),
    ensures
        end == run_end(text@, pos as int, CharClass::Space),
        pos <= end <= text@.len(),
{
    scan(text, pos, CharClass::Space)
}

/// Whether two strings hold the same characters.
pub fn str_equal(a: &str, b: &str) -> (same: bool)
    ensures
        same == (a@ == b@),
{
    let x = a.to_owned();
    let y = b.to_owned();
    x == y
}

} // verus!
