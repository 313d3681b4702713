//! Text as sequences of characters: the small string operations that the rest
//! of the library builds on.

use vstd::prelude::*;
use vstd::string::StringExecFns;

verus! {

/// `std::string::String::push` appends one character.
pub assume_specification[ String::push ](s: &mut String, c: char)
    ensures
        final(s)@ == old(s)@.push(c),
;

/// `str` equality compares the characters.
pub assume_specification[ <str as PartialEq>::eq ](a: &str, b: &str) -> (r: bool)
    ensures
        r == (a@ == b@),
;

/// The characters of `s`, in order.
pub fn chars_of(s: &str) -> (r: Vec<char>)
    ensures
        r@ == s@,
{
    let mut out: Vec<char> = Vec::new();
    for c in it: s.chars()
        invariant
            it.seq() == s@,
            out@ == s@.take(it.index()),
    {
        assert(s@.take(it.index() + 1) =~= s@.take(it.index()).push(c));
        out.push(c);
    }
    assert(s@.take(s@.len() as int) =~= s@);
    out
}

pub fn join2(a: &str, b: &str) -> (r: String)
    ensures
        r@ == a@ + b@,
{
    let mut out = a.to_owned();
    out.append(b);
    out
}

pub fn is_same(a: &str, b: &str) -> (r: bool)
    ensures
        r == (a@ == b@),
{
    *a == *b
}

/// Whether `s` begins with `prefix`.
pub fn starts_with(s: &str, prefix: &str) -> (r: bool)
    ensures
        r == prefix@.is_prefix_of(s@),
{
    let text = chars_of(s);
    let head = chars_of(prefix);
    if head.len() > text.len() {
        return false;
    }
    let mut i: usize = 0;
    while i < head.len()
        invariant
            i <= head@.len() <= text@.len(),
            text@ == s@,
            head@ == prefix@,
            forall|j: int| 0 <= j < i ==> text@[j] == head@[j],
        decreases head.len() - i,
    {
        if text[i] != head[i] {
            assert(s@.subrange(0, prefix@.len() as int)[i as int] != prefix@[i as int]);
            return false;
        }
        i += 1;
    }
    assert(s@.subrange(0, prefix@.len() as int) =~= prefix@);
    true
}

/// Whether `s` ends with `suffix`.
pub fn ends_with(s: &str, suffix: &str) -> (r: bool)
    ensures
        r == suffix@.is_suffix_of(s@),
{
    let text = chars_of(s);
    let tail = chars_of(suffix);
    if tail.len() > text.len() {
        return false;
    }
    let skip: usize = text.len() - tail.len();
    let mut i: usize = 0;
    while i < tail.len()
        invariant
            i <= tail@.len() <= text@.len(),
            skip + tail.len() == text.len(),
            text@ == s@,
            tail@ == suffix@,
            forall|j: int| 0 <= j < i ==> text@[skip + j] == tail@[j],
        decreases tail.len() - i,
    {
        if text[skip + i] != tail[i] {
            assert(s@.subrange(skip as int, s@.len() as int)[i as int] != suffix@[i as int]);
            return false;
        }
        i += 1;
    }
    assert(s@.subrange(skip as int, s@.len() as int) =~= suffix@);
    true
}

/// The characters of `chars` from `from` up to, but not at, `to`.
pub fn slice_text(chars: &Vec<char>, from: usize, to: usize) -> (r: String)
    requires
        from <= to <= chars@.len(),
    ensures
        r@ == chars@.subrange(from as int, to as int),
{
    let mut out = String::new();
    let mut i: usize = from;
    while i < to
        invariant
            from <= i <= to <= chars@.len(),
            out@ == chars@.subrange(from as int, i as int),
        decreases to - i,
    {
        out.push(chars[i]);
        assert(chars@.subrange(from as int, i + 1) =~= chars@.subrange(from as int, i as int).push(
            chars@[i as int],
        ));
        i += 1;
    }
    out
}

pub open spec fn digit(d: nat) -> char {
    ((48 + d) as u8) as char
}

/// The decimal notation of `n`, without leading zeros.
pub open spec fn decimal(n: nat) -> Seq<char>
    decreases n,
{
    if n < 10 {
        seq![digit(n)]
    } else {
        decimal(n / 10).push(digit(n % 10))
    }
}

/// The decimal notation of `n`, with a minus sign where it is negative.
pub open spec fn decimal_signed(n: int) -> Seq<char> {
    if n < 0 {
        seq!['-'] + decimal((-n) as nat)
    } else {
        decimal(n as nat)
    }
}

/// The decimal notation of a number is made of digits, at least one.
pub proof fn lemma_decimal_digits(n: nat)
    ensures
        decimal(n).len() > 0,
        forall|i: int| 0 <= i < decimal(n).len() ==> '0' <= #[trigger] decimal(n)[i] <= '9',
    decreases n,
{
    if n >= 10 {
        lemma_decimal_digits(n / 10);
    }
}

/// No two numbers have the same decimal notation.
pub proof fn law_decimal_is_unique(a: nat, b: nat)
    requires
        decimal(a) == decimal(b),
    ensures
        a == b,
    decreases a,
{
    lemma_decimal_digits(a / 10);
    lemma_decimal_digits(b / 10);
    assert(decimal(a).last() == digit(a % 10));
    assert(decimal(b).last() == digit(b % 10));
    assert(digit(a % 10) as u32 == 48 + a % 10);
    assert(digit(b % 10) as u32 == 48 + b % 10);
    if a >= 10 && b >= 10 {
        assert(decimal(a).drop_last() =~= decimal(a / 10));
        assert(decimal(b).drop_last() =~= decimal(b / 10));
        law_decimal_is_unique(a / 10, b / 10);
    } else if a >= 10 {
        assert(decimal(a).len() > 1);
    } else if b >= 10 {
        assert(decimal(b).len() > 1);
    }
}

/// What stands before the first separator is told by the whole.
pub proof fn lemma_cut_at(a: Seq<char>, b: Seq<char>, sep: char, rest_a: Seq<char>, rest_b: Seq<char>)
    requires
        a + seq![sep] + rest_a == b + seq![sep] + rest_b,
        !a.contains(sep),
        !b.contains(sep),
    ensures
        a == b,
        rest_a == rest_b,
{
    let x = a + seq![sep] + rest_a;
    let y = b + seq![sep] + rest_b;
    if a.len() < b.len() {
        assert(x[a.len() as int] == sep);
        assert(y[a.len() as int] == b[a.len() as int]);
    } else if b.len() < a.len() {
        assert(y[b.len() as int] == sep);
        assert(x[b.len() as int] == a[b.len() as int]);
    }
    assert(a =~= x.take(a.len() as int));
    assert(b =~= y.take(b.len() as int));
    assert(rest_a =~= x.skip(a.len() as int + 1));
    assert(rest_b =~= y.skip(b.len() as int + 1));
}

pub fn decimal_text(n: u64) -> (r: String)
    ensures
        r@ == decimal(n as nat),
    decreases n,
{
    if n < 10 {
        let mut out = String::new();
        out.push((48u8 + n as u8) as char);
        assert(out@ =~= seq![digit(n as nat)]);
        out
    } else {
        let mut out = decimal_text(n / 10);
        out.push((48u8 + (n % 10) as u8) as char);
        out
    }
}

pub fn decimal_signed_text(n: i64) -> (r: String)
    ensures
        r@ == decimal_signed(n as int),
{
    if n < 0 {
        let magnitude: u64 = (-(n + 1)) as u64 + 1;
        let mut out = String::new();
        out.push('-');
        assert(out@ =~= seq!['-']);
        let digits = decimal_text(magnitude);
        out.append(digits.as_str());
        out
    } else {
        decimal_text(n as u64)
    }
}

/// Whether Unicode gives a character the property White_Space.
pub open spec fn white_space(c: char) -> bool {
    ||| '\t' <= c <= '\r'
    ||| c == ' '
    ||| c == '\u{85}'
    ||| c == '\u{a0}'
    ||| c == '\u{1680}'
    ||| '\u{2000}' <= c <= '\u{200a}'
    ||| c == '\u{2028}'
    ||| c == '\u{2029}'
    ||| c == '\u{202f}'
    ||| c == '\u{205f}'
    ||| c == '\u{3000}'
}

pub fn is_white_space(c: char) -> (r: bool)
    ensures
        r == white_space(c),
{
    match c {
        '\t'..='\r' | ' ' | '\u{85}' | '\u{a0}' | '\u{1680}' => true,
        '\u{2000}'..='\u{200a}' => true,
        '\u{2028}' | '\u{2029}' | '\u{202f}' | '\u{205f}' | '\u{3000}' => true,
        _ => false,
    }
}

/// Whether Unicode counts a character among the control codes, its category Cc.
pub open spec fn control(c: char) -> bool {
    c <= '\u{1f}' || '\u{7f}' <= c <= '\u{9f}'
}

pub fn is_control(c: char) -> (r: bool)
    ensures
        r == control(c),
{
    c <= '\u{1f}' || ('\u{7f}' <= c && c <= '\u{9f}')
}

/// A text that may be missing.
pub open spec fn optional_text(s: Option<String>) -> Option<Seq<char>> {
    match s {
        Some(t) => Some(t@),
        None => None,
    }
}

/// Digits stand for their values, and in a number the last digit counts ones.
pub proof fn law_decimal_notation(n: nat, d: nat)
    requires
        d < 10,
    ensures
        digit(0) == '0',
        digit(1) == '1',
        digit(9) == '9',
        decimal(d) == seq![digit(d)],
        n > 0 ==> decimal(10 * n + d) == decimal(n).push(digit(d)),
        n > 0 ==> decimal_signed(-(n as int)) == seq!['-'] + decimal(n),
        decimal_signed(n as int) == decimal(n),
{
    assert((10 * n + d) / 10 == n && (10 * n + d) % 10 == d);
}

/// Characters that are white space, and some that are not.
pub proof fn law_white_space()
    ensures
        white_space(' '),
        white_space('\t'),
        white_space('\n'),
        white_space('\r'),
        !white_space('a'),
        !white_space('-'),
        !white_space('.'),
        control('\n'),
        control('\u{7f}'),
        !control(' '),
        !control('a'),
{
}

/// The control characters, by their numbers.
pub proof fn law_control_characters(c: char)
    ensures
        control(c) <==> (c as u32) < 0x20 || 0x7f <= (c as u32) < 0xa0,
{
}

} // verus!
