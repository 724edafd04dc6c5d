//! The text form of token claims: its building blocks, each with a reader that accepts
//! exactly the texts the writer makes.
//!
//! A reader takes a text and gives the value it read and the rest of the text. For every
//! block two things are proved: reading what was written gives the value back, with the
//! rest untouched; and whatever a reader accepts is what the writer makes of the value
//! read, followed by the rest.
use vstd::prelude::*;
use crate::text::to_chars;

verus! {

/// What a reader found: the value and the rest of the text.
pub struct Read<T> {
    pub value: T,
    pub rest: Seq<char>,
}

/// What a reader gives: what it found, or nothing.
pub type Parsed<T> = Option<Read<T>>;

/// The rest of `s` behind `lit`, where `s` begins with `lit`.
pub open spec fn read_literal(s: Seq<char>, lit: Seq<char>) -> Option<Seq<char>> {
    if lit.len() <= s.len() && s.take(lit.len() as int) == lit {
        Some(s.skip(lit.len() as int))
    } else {
        None
    }
}

/// A literal is read from the front of what begins with it.
pub proof fn lemma_literal_read(lit: Seq<char>, rest: Seq<char>)
    ensures
        read_literal(lit + rest, lit) == Some(rest),
{
    let s = lit + rest;
    assert(s.take(lit.len() as int) =~= lit);
    assert(s.skip(lit.len() as int) =~= rest);
}

/// What begins with a literal is the literal followed by the rest that was read.
pub proof fn lemma_literal_sound(s: Seq<char>, lit: Seq<char>)
    requires
        read_literal(s, lit) is Some,
    ensures
        s == lit + read_literal(s, lit)->0,
{
    assert(s =~= s.take(lit.len() as int) + s.skip(lit.len() as int));
}

/// The lower-case hexadecimal digit of a number below 16.
pub open spec fn hex_digit(n: int) -> char {
    if n < 10 {
        (('0' as int) + n) as char
    } else {
        (('a' as int) + n - 10) as char
    }
}

/// The number below 16 that a lower-case hexadecimal digit stands for.
pub open spec fn hex_value(c: char) -> Option<int> {
    if '0' <= c <= '9' {
        Some(c as int - '0' as int)
    } else if 'a' <= c <= 'f' {
        Some(c as int - 'a' as int + 10)
    } else {
        None
    }
}

/// The character that a short escape stands for: the character behind the backslash in
/// `\"`, `\\`, `\b`, `\f`, `\n`, `\r` and `\t`.
pub open spec fn short_escape(c: char) -> Option<char> {
    if c == '"' {
        Some('"')
    } else if c == '\\' {
        Some('\\')
    } else if c == 'b' {
        Some('\u{8}')
    } else if c == 'f' {
        Some('\u{c}')
    } else if c == 'n' {
        Some('\n')
    } else if c == 'r' {
        Some('\r')
    } else if c == 't' {
        Some('\t')
    } else {
        None
    }
}

/// The letter of the short escape of a character, for the seven characters that have one.
pub open spec fn short_letter(c: char) -> Option<char> {
    if c == '"' {
        Some('"')
    } else if c == '\\' {
        Some('\\')
    } else if c == '\u{8}' {
        Some('b')
    } else if c == '\u{c}' {
        Some('f')
    } else if c == '\n' {
        Some('n')
    } else if c == '\r' {
        Some('r')
    } else if c == '\t' {
        Some('t')
    } else {
        None
    }
}

/// A control character: one below the space.
pub open spec fn is_control(c: char) -> bool {
    c < ' '
}

/// How a character stands inside a quoted text: a quote, a backslash and the control
/// characters are escaped, the short way where there is one and as `\u00` with two
/// hexadecimal digits where there is none; every other character stands for itself.
pub open spec fn escaped_char(c: char) -> Seq<char> {
    match short_letter(c) {
        Some(letter) => seq!['\\', letter],
        None => if is_control(c) {
            seq!['\\', 'u', '0', '0', hex_digit((c as int) / 16), hex_digit((c as int) % 16)]
        } else {
            seq![c]
        },
    }
}

/// How a text stands inside quotes.
pub open spec fn escaped(s: Seq<char>) -> Seq<char>
    decreases s.len(),
{
    if s.len() == 0 {
        Seq::empty()
    } else {
        escaped_char(s[0]) + escaped(s.drop_first())
    }
}

/// A text in quotes.
pub open spec fn quoted(s: Seq<char>) -> Seq<char> {
    seq!['"'] + (escaped(s) + seq!['"'])
}

/// A parsed text with a character put in front.
pub open spec fn led_by(c: char, parsed: Parsed<Seq<char>>) -> Parsed<Seq<char>> {
    match parsed {
        Some(found) => Some(Read { value: seq![c] + found.value, rest: found.rest }),
        None => None,
    }
}

/// Reads the inside of a quoted text up to and with the closing quote.
pub open spec fn read_body(s: Seq<char>) -> Parsed<Seq<char>>
    decreases s.len(),
{
    if s.len() == 0 {
        None
    } else if s[0] == '"' {
        Some(Read { value: Seq::empty(), rest: s.skip(1) })
    } else if s[0] == '\\' {
        if s.len() < 2 {
            None
        } else if short_escape(s[1]) is Some {
            led_by(short_escape(s[1])->0, read_body(s.skip(2)))
        } else if s[1] == 'u' && s.len() >= 6 && s[2] == '0' && s[3] == '0' && hex_value(s[4])
            is Some && hex_value(s[5]) is Some {
            let code = hex_value(s[4])->0 * 16 + hex_value(s[5])->0;
            if code < 0x20 && short_letter(code as char) is None {
                led_by(code as char, read_body(s.skip(6)))
            } else {
                None
            }
        } else {
            None
        }
    } else if is_control(s[0]) {
        None
    } else {
        led_by(s[0], read_body(s.skip(1)))
    }
}

/// Reads a quoted text.
pub open spec fn read_quoted(s: Seq<char>) -> Parsed<Seq<char>> {
    if s.len() > 0 && s[0] == '"' {
        read_body(s.skip(1))
    } else {
        None
    }
}

/// The hexadecimal digit of a number below 16 stands for that number.
pub proof fn lemma_hex_digit(n: int)
    requires
        0 <= n < 16,
    ensures
        hex_value(hex_digit(n)) == Some(n),
{
}

/// A hexadecimal digit is the digit of the number it stands for.
pub proof fn lemma_hex_value(c: char)
    requires
        hex_value(c) is Some,
    ensures
        0 <= hex_value(c)->0 < 16,
        hex_digit(hex_value(c)->0) == c,
{
}

/// What stands for one character is read as that character.
pub proof fn lemma_escaped_char_read(c: char, rest: Seq<char>)
    ensures
        read_body(escaped_char(c) + rest) == led_by(c, read_body(rest)),
{
    let s = escaped_char(c) + rest;
    if short_letter(c) is Some {
        assert(s.skip(2) =~= rest);
    } else if is_control(c) {
        let hi = (c as int) / 16;
        let lo = (c as int) % 16;
        lemma_hex_digit(hi);
        lemma_hex_digit(lo);
        assert(s[1] == 'u');
        assert(s[4] == hex_digit(hi));
        assert(s[5] == hex_digit(lo));
        assert(hi * 16 + lo == c as int);
        assert(((hi * 16 + lo) as char) == c);
        assert(s.skip(6) =~= rest);
    } else {
        assert(s[0] == c);
        assert(s.skip(1) =~= rest);
    }
}

/// The inside of a quoted text and its closing quote are read as the text.
pub proof fn lemma_body_read(text: Seq<char>, rest: Seq<char>)
    ensures
        read_body(escaped(text) + (seq!['"'] + rest)) == Some(Read { value: text, rest }),
    decreases text.len(),
{
    let tail = seq!['"'] + rest;
    if text.len() == 0 {
        assert(escaped(text) + tail =~= tail);
        assert(tail[0] == '"');
        assert(tail.skip(1) =~= rest);
        assert(text =~= Seq::empty());
    } else {
        let after = escaped(text.drop_first()) + tail;
        assert(escaped(text) + tail =~= escaped_char(text[0]) + after);
        lemma_escaped_char_read(text[0], after);
        lemma_body_read(text.drop_first(), rest);
        assert(seq![text[0]] + text.drop_first() =~= text);
    }
}

/// A quoted text is read as the text.
pub proof fn lemma_quoted_read(text: Seq<char>, rest: Seq<char>)
    ensures
        read_quoted(quoted(text) + rest) == Some(Read { value: text, rest }),
{
    let s = quoted(text) + rest;
    assert(s.skip(1) =~= escaped(text) + (seq!['"'] + rest));
    lemma_body_read(text, rest);
}

/// What is read as the inside of a quoted text is what stands for the text, its closing
/// quote, and the rest.
pub proof fn lemma_body_sound(s: Seq<char>)
    requires
        read_body(s) is Some,
    ensures
        s == escaped(read_body(s)->0.value) + (seq!['"'] + read_body(s)->0.rest),
    decreases s.len(),
{
    let text = read_body(s)->0.value;
    let rest = read_body(s)->0.rest;
    if s[0] == '"' {
        assert(s =~= escaped(text) + (seq!['"'] + rest));
    } else if s[0] == '\\' {
        if short_escape(s[1]) is Some {
            let c = short_escape(s[1])->0;
            let inner = read_body(s.skip(2));
            lemma_body_sound(s.skip(2));
            assert(text.drop_first() =~= inner->0.value);
            assert(text[0] == c);
            assert(escaped_char(c) =~= seq![s[0], s[1]]);
            assert(s =~= escaped_char(c) + s.skip(2));
            assert(s =~= (escaped_char(c) + escaped(text.drop_first())) + (seq!['"'] + rest));
        } else {
            let hi = hex_value(s[4])->0;
            let lo = hex_value(s[5])->0;
            let code = hi * 16 + lo;
            let c = code as char;
            lemma_hex_value(s[4]);
            lemma_hex_value(s[5]);
            let inner = read_body(s.skip(6));
            lemma_body_sound(s.skip(6));
            assert(text.drop_first() =~= inner->0.value);
            assert(text[0] == c);
            assert(c as int == code);
            assert(code / 16 == hi && code % 16 == lo);
            assert(escaped_char(c) =~= seq![s[0], s[1], s[2], s[3], s[4], s[5]]);
            assert(s =~= escaped_char(c) + s.skip(6));
            assert(s =~= (escaped_char(c) + escaped(text.drop_first())) + (seq!['"'] + rest));
        }
    } else {
        let inner = read_body(s.skip(1));
        lemma_body_sound(s.skip(1));
        assert(text.drop_first() =~= inner->0.value);
        assert(text[0] == s[0]);
        assert(escaped_char(s[0]) =~= seq![s[0]]);
        assert(s =~= escaped_char(s[0]) + s.skip(1));
        assert(s =~= (escaped_char(s[0]) + escaped(text.drop_first())) + (seq!['"'] + rest));
    }
}

/// What is read as a quoted text is the text in quotes, followed by the rest.
pub proof fn lemma_quoted_sound(s: Seq<char>)
    requires
        read_quoted(s) is Some,
    ensures
        s == quoted(read_quoted(s)->0.value) + read_quoted(s)->0.rest,
{
    lemma_body_sound(s.skip(1));
    let text = read_quoted(s)->0.value;
    let rest = read_quoted(s)->0.rest;
    assert(s =~= seq!['"'] + s.skip(1));
    assert(s =~= quoted(text) + rest);
}

/// What stands for a text with one more character at its end.
pub proof fn lemma_escaped_push(text: Seq<char>, c: char)
    ensures
        escaped(text.push(c)) == escaped(text) + escaped_char(c),
    decreases text.len(),
{
    if text.len() == 0 {
        assert(text.push(c).drop_first() =~= Seq::empty());
        assert(escaped(text.push(c).drop_first()) =~= Seq::empty());
        assert(text.push(c)[0] == c);
        assert(escaped(text.push(c)) =~= escaped_char(c));
        assert(escaped(text) + escaped_char(c) =~= escaped_char(c));
    } else {
        lemma_escaped_push(text.drop_first(), c);
        assert(text.push(c).drop_first() =~= text.drop_first().push(c));
        assert(escaped(text.push(c)) =~= escaped(text) + escaped_char(c));
    }
}

/// A decimal digit.
pub open spec fn is_digit(c: char) -> bool {
    '0' <= c <= '9'
}

/// The digit of a number below ten.
pub open spec fn digit_char(d: int) -> char {
    (('0' as int) + d) as char
}

/// The number that a digit stands for.
pub open spec fn digit_value(c: char) -> int {
    c as int - '0' as int
}

/// The decimal digits of a natural number, without leading zeros.
pub open spec fn natural_text(n: nat) -> Seq<char>
    decreases n,
{
    if n < 10 {
        seq![digit_char(n as int)]
    } else {
        natural_text(n / 10).push(digit_char((n % 10) as int))
    }
}

/// The decimal text of an integer: a minus sign for a negative one, then its digits.
pub open spec fn decimal(n: int) -> Seq<char> {
    if n < 0 {
        seq!['-'] + natural_text((-n) as nat)
    } else {
        natural_text(n as nat)
    }
}

/// How many digits a text begins with.
pub open spec fn digit_run(s: Seq<char>) -> nat
    decreases s.len(),
{
    if s.len() > 0 && is_digit(s[0]) {
        1 + digit_run(s.skip(1))
    } else {
        0
    }
}

/// The number that a run of digits stands for.
pub open spec fn digits_value(digits: Seq<char>) -> nat
    decreases digits.len(),
{
    if digits.len() == 0 {
        0
    } else {
        (digits_value(digits.drop_last()) * 10 + digit_value(digits.last())) as nat
    }
}

/// Reads a natural number: the digits a text begins with, which must not begin with a
/// zero unless the zero is all of them.
pub open spec fn read_natural(s: Seq<char>) -> Parsed<nat> {
    let run = digit_run(s);
    if run == 0 {
        None
    } else if s[0] == '0' && run > 1 {
        None
    } else {
        Some(Read { value: digits_value(s.take(run as int)), rest: s.skip(run as int) })
    }
}

/// Reads an integer of 64 bits: a natural number, or a minus sign and a natural number
/// that is not zero.
pub open spec fn read_decimal(s: Seq<char>) -> Parsed<int> {
    if s.len() > 0 && s[0] == '-' {
        match read_natural(s.skip(1)) {
            Some(found) => if found.value == 0 || found.value > 0x8000_0000_0000_0000 {
                None
            } else {
                Some(Read { value: -(found.value as int), rest: found.rest })
            },
            None => None,
        }
    } else {
        match read_natural(s) {
            Some(found) => if found.value > 0x7fff_ffff_ffff_ffff {
                None
            } else {
                Some(Read { value: found.value as int, rest: found.rest })
            },
            None => None,
        }
    }
}

/// Whether every character of a text is a digit.
pub open spec fn all_digits(s: Seq<char>) -> bool {
    forall|i: int| 0 <= i < s.len() ==> is_digit(#[trigger] s[i])
}

/// The digit run of a text is within the text, is made of digits, and ends where the text
/// ends or a character is no digit.
pub proof fn lemma_digit_run(s: Seq<char>)
    ensures
        digit_run(s) <= s.len(),
        all_digits(s.take(digit_run(s) as int)),
        digit_run(s) < s.len() ==> !is_digit(s[digit_run(s) as int]),
    decreases s.len(),
{
    if s.len() > 0 && is_digit(s[0]) {
        lemma_digit_run(s.skip(1));
        let run = digit_run(s);
        assert forall|i: int| 0 <= i < run implies is_digit(#[trigger] s.take(run as int)[i]) by {
            if i > 0 {
                assert(s.take(run as int)[i] == s.skip(1).take(run - 1)[i - 1]);
            }
        }
    }
}

/// Digits followed by something that does not begin with a digit are the digit run of
/// the whole.
pub proof fn lemma_digit_run_of(digits: Seq<char>, rest: Seq<char>)
    requires
        all_digits(digits),
        rest.len() > 0 ==> !is_digit(rest[0]),
    ensures
        digit_run(digits + rest) == digits.len(),
    decreases digits.len(),
{
    let s = digits + rest;
    if digits.len() == 0 {
        assert(s =~= rest);
    } else {
        assert(s[0] == digits[0]);
        assert(s.skip(1) =~= digits.drop_first() + rest);
        assert forall|i: int| 0 <= i < digits.drop_first().len() implies is_digit(
            #[trigger] digits.drop_first()[i],
        ) by {
            assert(digits.drop_first()[i] == digits[i + 1]);
        }
        lemma_digit_run_of(digits.drop_first(), rest);
    }
}

/// The text of a natural number is made of digits, begins with a zero only if the number
/// is zero, and stands for the number.
pub proof fn lemma_natural_text(n: nat)
    ensures
        natural_text(n).len() >= 1,
        all_digits(natural_text(n)),
        natural_text(n)[0] == '0' ==> n == 0,
        n == 0 ==> natural_text(n) == seq!['0'],
        digits_value(natural_text(n)) == n,
    decreases n,
{
    if n < 10 {
        let t = natural_text(n);
        assert(t.drop_last() =~= Seq::empty());
        assert(digits_value(t.drop_last()) == 0);
        assert(t.last() == digit_char(n as int));
    } else {
        lemma_natural_text(n / 10);
        let shorter = natural_text(n / 10);
        let t = shorter.push(digit_char((n % 10) as int));
        assert(t.drop_last() =~= shorter);
        assert(t[0] == shorter[0]);
        assert forall|i: int| 0 <= i < t.len() implies is_digit(#[trigger] t[i]) by {
            if i < shorter.len() {
                assert(t[i] == shorter[i]);
            }
        }
    }
}

/// A natural number is read from its text, where what follows begins with no digit.
pub proof fn lemma_natural_read(n: nat, rest: Seq<char>)
    requires
        rest.len() > 0 ==> !is_digit(rest[0]),
    ensures
        read_natural(natural_text(n) + rest) == Some(Read { value: n, rest }),
{
    let t = natural_text(n);
    let s = t + rest;
    lemma_natural_text(n);
    lemma_digit_run_of(t, rest);
    assert(s.take(t.len() as int) =~= t);
    assert(s.skip(t.len() as int) =~= rest);
    assert(s[0] == t[0]);
    if t[0] == '0' {
        assert(t.len() == 1);
    }
}

/// An integer of 64 bits is read from its text, where what follows begins with no digit.
pub proof fn lemma_decimal_read(n: int, rest: Seq<char>)
    requires
        i64::MIN <= n <= i64::MAX,
        rest.len() > 0 ==> !is_digit(rest[0]),
    ensures
        read_decimal(decimal(n) + rest) == Some(Read { value: n, rest }),
{
    if n < 0 {
        let s = decimal(n) + rest;
        assert(s[0] == '-');
        assert(s.skip(1) =~= natural_text((-n) as nat) + rest);
        lemma_natural_read((-n) as nat, rest);
    } else {
        lemma_natural_text(n as nat);
        let s = decimal(n) + rest;
        assert(s[0] == natural_text(n as nat)[0]);
        lemma_natural_read(n as nat, rest);
    }
}

/// A run of digits that begins with no zero stands for a number that is not zero.
pub proof fn lemma_digits_value_positive(digits: Seq<char>)
    requires
        digits.len() >= 1,
        all_digits(digits),
        digits[0] != '0',
    ensures
        digits_value(digits) >= 1,
    decreases digits.len(),
{
    if digits.len() == 1 {
        assert(digits.drop_last() =~= Seq::empty());
        assert(digits_value(digits.drop_last()) == 0);
    } else {
        let shorter = digits.drop_last();
        assert(shorter[0] == digits[0]);
        assert forall|i: int| 0 <= i < shorter.len() implies is_digit(#[trigger] shorter[i]) by {
            assert(shorter[i] == digits[i]);
        }
        lemma_digits_value_positive(shorter);
    }
}

/// A run of digits without a leading zero is the text of the number it stands for.
pub proof fn lemma_digits_canonical(digits: Seq<char>)
    requires
        digits.len() >= 1,
        all_digits(digits),
        digits[0] == '0' ==> digits.len() == 1,
    ensures
        natural_text(digits_value(digits)) == digits,
    decreases digits.len(),
{
    let last = digits.last();
    assert(is_digit(digits[digits.len() - 1]));
    if digits.len() == 1 {
        assert(digits.drop_last() =~= Seq::empty());
        assert(digits_value(digits.drop_last()) == 0);
        assert(natural_text(digits_value(digits)) =~= digits);
    } else {
        let shorter = digits.drop_last();
        assert(shorter[0] == digits[0]);
        assert forall|i: int| 0 <= i < shorter.len() implies is_digit(#[trigger] shorter[i]) by {
            assert(shorter[i] == digits[i]);
        }
        lemma_digits_value_positive(shorter);
        if shorter.len() == 1 {
        } else {
        }
        lemma_digits_canonical(shorter);
        let high = digits_value(shorter);
        let n = digits_value(digits);
        assert(n == high * 10 + digit_value(last));
        assert(n / 10 == high && n % 10 == digit_value(last)) by (nonlinear_arith)
            requires
                n == high * 10 + digit_value(last),
                0 <= digit_value(last) < 10,
                high >= 1,
        ;
        assert(natural_text(n) =~= digits);
    }
}

/// What is read as a natural number is the text of the number, followed by the rest.
pub proof fn lemma_natural_sound(s: Seq<char>)
    requires
        read_natural(s) is Some,
    ensures
        s == natural_text(read_natural(s)->0.value) + read_natural(s)->0.rest,
        read_natural(s)->0.rest.len() > 0 ==> !is_digit(read_natural(s)->0.rest[0]),
{
    let run = digit_run(s);
    lemma_digit_run(s);
    let digits = s.take(run as int);
    assert(digits[0] == s[0]);
    lemma_digits_canonical(digits);
    assert(s =~= digits + s.skip(run as int));
}

/// What is read as an integer is the text of the integer, followed by the rest; and the
/// integer fits 64 bits.
pub proof fn lemma_decimal_sound(s: Seq<char>)
    requires
        read_decimal(s) is Some,
    ensures
        s == decimal(read_decimal(s)->0.value) + read_decimal(s)->0.rest,
        i64::MIN <= read_decimal(s)->0.value <= i64::MAX,
        read_decimal(s)->0.rest.len() > 0 ==> !is_digit(read_decimal(s)->0.rest[0]),
{
    if s.len() > 0 && s[0] == '-' {
        lemma_natural_sound(s.skip(1));
        let found = read_natural(s.skip(1))->0;
        assert(s =~= seq!['-'] + s.skip(1));
        assert(s =~= (seq!['-'] + natural_text(found.value)) + found.rest);
    } else {
        lemma_natural_sound(s);
    }
}

/// What a reader took from a text: the value and the position behind it.
pub struct Taken<T> {
    pub value: T,
    pub end: usize,
}

/// A parsed text with a text put in front.
pub open spec fn prefixed(front: Seq<char>, parsed: Parsed<Seq<char>>) -> Parsed<Seq<char>> {
    match parsed {
        Some(found) => Some(Read { value: front + found.value, rest: found.rest }),
        None => None,
    }
}

/// Takes a literal at a position of a text.
pub fn take_literal(chars: &Vec<char>, at: usize, lit: &str) -> (end: Option<usize>)
    requires
        at <= chars.len(),
    ensures
        match read_literal(chars@.skip(at as int), lit@) {
            Some(rest) => end matches Some(e) && at <= e <= chars.len() && chars@.skip(e as int)
                == rest,
            None => end is None,
        },
{
    let want = to_chars(lit);
    let ghost s = chars@.skip(at as int);
    if want.len() > chars.len() - at {
        return None;
    }
    let mut i: usize = 0;
    while i < want.len()
        invariant
            i <= want.len(),
            at + want.len() <= chars.len(),
            want@ == lit@,
            s == chars@.skip(at as int),
            forall|j: int| 0 <= j < i ==> s[j] == want@[j],
        decreases want.len() - i,
    {
        if chars[at + i] != want[i] {
            assert(s[i as int] == chars@[at + i]);
            assert(s.take(want.len() as int)[i as int] != want@[i as int]);
            return None;
        }
        assert(s[i as int] == chars@[at + i]);
        i = i + 1;
    }
    proof {
        assert(s.take(want.len() as int) =~= want@);
        assert(s.skip(want.len() as int) =~= chars@.skip(at + want.len()));
    }
    Some(at + want.len())
}

/// The letter of the short escape of a character.
fn short_letter_of(c: char) -> (letter: Option<char>)
    ensures
        letter == short_letter(c),
{
    if c == '"' {
        Some('"')
    } else if c == '\\' {
        Some('\\')
    } else if c == '\u{8}' {
        Some('b')
    } else if c == '\u{c}' {
        Some('f')
    } else if c == '\n' {
        Some('n')
    } else if c == '\r' {
        Some('r')
    } else if c == '\t' {
        Some('t')
    } else {
        None
    }
}

/// The character that a short escape stands for.
fn short_escape_of(c: char) -> (escape: Option<char>)
    ensures
        escape == short_escape(c),
{
    if c == '"' {
        Some('"')
    } else if c == '\\' {
        Some('\\')
    } else if c == 'b' {
        Some('\u{8}')
    } else if c == 'f' {
        Some('\u{c}')
    } else if c == 'n' {
        Some('\n')
    } else if c == 'r' {
        Some('\r')
    } else if c == 't' {
        Some('\t')
    } else {
        None
    }
}

/// The sixteen hexadecimal digits in order.
fn hex_digit_of(n: u8) -> (c: char)
    requires
        n < 16,
    ensures
        c == hex_digit(n as int),
{
    if n == 0 {
        '0'
    } else if n == 1 {
        '1'
    } else if n == 2 {
        '2'
    } else if n == 3 {
        '3'
    } else if n == 4 {
        '4'
    } else if n == 5 {
        '5'
    } else if n == 6 {
        '6'
    } else if n == 7 {
        '7'
    } else if n == 8 {
        '8'
    } else if n == 9 {
        '9'
    } else if n == 10 {
        'a'
    } else if n == 11 {
        'b'
    } else if n == 12 {
        'c'
    } else if n == 13 {
        'd'
    } else if n == 14 {
        'e'
    } else {
        'f'
    }
}

/// The number that a hexadecimal digit stands for.
fn hex_value_of(c: char) -> (n: Option<u8>)
    ensures
        match hex_value(c) {
            Some(v) => n == Some(v as u8),
            None => n is None,
        },
{
    if '0' <= c && c <= '9' {
        Some((c as u32 - '0' as u32) as u8)
    } else if 'a' <= c && c <= 'f' {
        Some((c as u32 - 'a' as u32 + 10) as u8)
    } else {
        None
    }
}

/// Writes a character as it stands inside quotes.
pub fn write_escaped_char(out: &mut String, c: char)
    ensures
        final(out)@ == old(out)@ + escaped_char(c),
{
    match short_letter_of(c) {
        Some(letter) => {
            out.push('\\');
            out.push(letter);
            assert(out@ =~= old(out)@ + escaped_char(c));
        },
        None => {
            if ' ' > c {
                let code = c as u8;
                out.push('\\');
                out.push('u');
                out.push('0');
                out.push('0');
                out.push(hex_digit_of(code / 16));
                out.push(hex_digit_of(code % 16));
                assert(out@ =~= old(out)@ + escaped_char(c));
            } else {
                out.push(c);
                assert(out@ =~= old(out)@ + escaped_char(c));
            }
        },
    }
}

/// Writes a text in quotes.
pub fn write_quoted(out: &mut String, text: &str)
    ensures
        final(out)@ == old(out)@ + quoted(text@),
{
    let chars = to_chars(text);
    out.push('"');
    let mut i: usize = 0;
    assert(chars@.take(0) =~= Seq::empty());
    assert(out@ =~= old(out)@ + (seq!['"'] + escaped(chars@.take(0))));
    while i < chars.len()
        invariant
            i <= chars.len(),
            chars@ == text@,
            out@ == old(out)@ + (seq!['"'] + escaped(chars@.take(i as int))),
        decreases chars.len() - i,
    {
        let ghost before = out@;
        write_escaped_char(out, chars[i]);
        proof {
            lemma_escaped_push(chars@.take(i as int), chars@[i as int]);
            assert(chars@.take(i as int).push(chars@[i as int]) =~= chars@.take(i + 1));
            assert(out@ =~= old(out)@ + (seq!['"'] + escaped(chars@.take(i + 1))));
        }
        i = i + 1;
    }
    out.push('"');
    proof {
        assert(chars@.take(chars.len() as int) =~= chars@);
        assert(out@ =~= old(out)@ + quoted(text@));
    }
}

/// Putting a character in front of a parsed text that has a text in front is putting
/// the character at the end of that text.
pub proof fn lemma_prefixed_led_by(front: Seq<char>, c: char, parsed: Parsed<Seq<char>>)
    ensures
        prefixed(front, led_by(c, parsed)) == prefixed(front.push(c), parsed),
{
    if parsed is Some {
        assert(front + (seq![c] + parsed->0.value) =~= front.push(c) + parsed->0.value);
    }
}

/// Takes a quoted text at a position of a text.
pub fn take_quoted(chars: &Vec<char>, at: usize) -> (taken: Option<Taken<String>>)
    requires
        at <= chars.len(),
    ensures
        match read_quoted(chars@.skip(at as int)) {
            Some(found) => taken matches Some(t) && t.value@ == found.value && at <= t.end
                <= chars.len() && chars@.skip(t.end as int) == found.rest,
            None => taken is None,
        },
{
    if at >= chars.len() {
        return None;
    }
    if chars[at] != '"' {
        return None;
    }
    let ghost whole = read_body(chars@.skip(at as int).skip(1));
    let mut text = String::new();
    let mut i: usize = at + 1;
    proof {
        assert(chars@.skip(at as int).skip(1) =~= chars@.skip(at + 1));
        let inner = read_body(chars@.skip(at + 1));
        if inner is Some {
            assert(text@ + inner->0.value =~= inner->0.value);
        }
    }
    while i < chars.len()
        invariant
            at < i <= chars.len(),
            whole == read_quoted(chars@.skip(at as int)),
            whole == prefixed(text@, read_body(chars@.skip(i as int))),
        decreases chars.len() - i,
    {
        let ghost s = chars@.skip(i as int);
        let c = chars[i];
        assert(s[0] == c);
        if c == '"' {
            proof {
                assert(s.skip(1) =~= chars@.skip(i + 1));
                assert(text@ + Seq::<char>::empty() =~= text@);
            }
            return Some(Taken { value: text, end: i + 1 });
        } else if c == '\\' {
            if i + 1 >= chars.len() {
                return None;
            }
            let next = chars[i + 1];
            assert(s[1] == next);
            match short_escape_of(next) {
                Some(plain) => {
                    proof {
                        assert(s.skip(2) =~= chars@.skip(i + 2));
                        lemma_prefixed_led_by(text@, plain, read_body(chars@.skip(i + 2)));
                    }
                    text.push(plain);
                    i = i + 2;
                },
                None => {
                    if next != 'u' || chars.len() - i < 6 {
                        return None;
                    }
                    assert(s[2] == chars@[i + 2]);
                    assert(s[3] == chars@[i + 3]);
                    assert(s[4] == chars@[i + 4]);
                    assert(s[5] == chars@[i + 5]);
                    if chars[i + 2] != '0' || chars[i + 3] != '0' {
                        return None;
                    }
                    let high = match hex_value_of(chars[i + 4]) {
                        Some(v) => v,
                        None => {
                            return None;
                        },
                    };
                    let low = match hex_value_of(chars[i + 5]) {
                        Some(v) => v,
                        None => {
                            return None;
                        },
                    };
                    let code: u8 = high * 16 + low;
                    if code >= 0x20 {
                        return None;
                    }
                    let plain = code as char;
                    if short_letter_of(plain).is_some() {
                        return None;
                    }
                    proof {
                        assert(s.skip(6) =~= chars@.skip(i + 6));
                        lemma_prefixed_led_by(text@, plain, read_body(chars@.skip(i + 6)));
                    }
                    text.push(plain);
                    i = i + 6;
                },
            }
        } else if ' ' > c {
            return None;
        } else {
            proof {
                assert(s.skip(1) =~= chars@.skip(i + 1));
                lemma_prefixed_led_by(text@, c, read_body(chars@.skip(i + 1)));
            }
            text.push(c);
            i = i + 1;
        }
    }
    None
}

/// Writes the digits of a natural number.
pub fn write_natural(out: &mut String, n: u64)
    ensures
        final(out)@ == old(out)@ + natural_text(n as nat),
    decreases n,
{
    if n >= 10 {
        write_natural(out, n / 10);
    }
    let digit = hex_digit_of((n % 10) as u8);
    out.push(digit);
    proof {
        if n < 10 {
            assert(out@ =~= old(out)@ + natural_text(n as nat));
        } else {
            assert(out@ =~= old(out)@ + natural_text(n as nat));
        }
    }
}

/// Writes the decimal text of an integer.
pub fn write_decimal(out: &mut String, n: i64)
    ensures
        final(out)@ == old(out)@ + decimal(n as int),
{
    if n < 0 {
        out.push('-');
        let magnitude: u64 = if n == i64::MIN {
            0x8000_0000_0000_0000
        } else {
            (-n) as u64
        };
        write_natural(out, magnitude);
        assert(out@ =~= old(out)@ + decimal(n as int));
    } else {
        write_natural(out, n as u64);
    }
}

/// Takes a natural number at a position of a text. A number beyond 2^63 is reported as
/// too large, without its value.
fn take_natural(chars: &Vec<char>, at: usize) -> (taken: Option<Taken<Option<u64>>>)
    requires
        at <= chars.len(),
    ensures
        match read_natural(chars@.skip(at as int)) {
            Some(found) => taken matches Some(t) && at <= t.end <= chars.len() && chars@.skip(
                t.end as int,
            ) == found.rest && match t.value {
                Some(v) => v == found.value,
                None => found.value > 0x8000_0000_0000_0000,
            },
            None => taken is None,
        },
{
    let ghost s = chars@.skip(at as int);
    let mut i: usize = at;
    let mut value: u64 = 0;
    let mut big = false;
    assert(chars@.subrange(at as int, at as int) =~= Seq::empty());
    while i < chars.len() && '0' <= chars[i] && chars[i] <= '9'
        invariant
            at <= i <= chars.len(),
            s == chars@.skip(at as int),
            all_digits(chars@.subrange(at as int, i as int)),
            big ==> digits_value(chars@.subrange(at as int, i as int)) > 0x8000_0000_0000_0000,
            !big ==> value == digits_value(chars@.subrange(at as int, i as int)),
        decreases chars.len() - i,
    {
        let ghost before = chars@.subrange(at as int, i as int);
        let ghost grown = chars@.subrange(at as int, i + 1);
        let digit = (chars[i] as u32 - '0' as u32) as u64;
        proof {
            assert(grown.drop_last() =~= before);
            assert(grown.last() == chars@[i as int]);
            assert forall|j: int| 0 <= j < grown.len() implies is_digit(#[trigger] grown[j]) by {
                if j < before.len() {
                    assert(grown[j] == before[j]);
                }
            }
            assert(digits_value(grown) == digits_value(before) * 10 + digit);
        }
        if !big {
            if value > 1_000_000_000_000_000_000 {
                big = true;
            } else {
                value = value * 10 + digit;
            }
        }
        i = i + 1;
    }
    let run = i - at;
    proof {
        let digits = chars@.subrange(at as int, i as int);
        let rest = chars@.skip(i as int);
        assert(s =~= digits + rest);
        if rest.len() > 0 {
            assert(rest[0] == chars@[i as int]);
        }
        lemma_digit_run_of(digits, rest);
        assert(s.take(run as int) =~= digits);
        assert(s.skip(run as int) =~= rest);
    }
    if run == 0 {
        return None;
    }
    assert(s[0] == chars@[at as int]);
    if chars[at] == '0' && run > 1 {
        return None;
    }
    if big {
        Some(Taken { value: None, end: i })
    } else {
        Some(Taken { value: Some(value), end: i })
    }
}

/// Takes an integer of 64 bits at a position of a text.
pub fn take_decimal(chars: &Vec<char>, at: usize) -> (taken: Option<Taken<i64>>)
    requires
        at <= chars.len(),
    ensures
        match read_decimal(chars@.skip(at as int)) {
            Some(found) => taken matches Some(t) && t.value == found.value && at <= t.end
                <= chars.len() && chars@.skip(t.end as int) == found.rest,
            None => taken is None,
        },
{
    let ghost s = chars@.skip(at as int);
    if at < chars.len() && chars[at] == '-' {
        assert(s[0] == '-');
        assert(s.skip(1) =~= chars@.skip(at + 1));
        match take_natural(chars, at + 1) {
            Some(taken) => match taken.value {
                Some(v) => {
                    if v == 0 || v > 0x8000_0000_0000_0000 {
                        None
                    } else if v == 0x8000_0000_0000_0000 {
                        Some(Taken { value: i64::MIN, end: taken.end })
                    } else {
                        Some(Taken { value: -(v as i64), end: taken.end })
                    }
                },
                None => None,
            },
            None => None,
        }
    } else {
        proof {
            if at < chars.len() {
                assert(s[0] == chars@[at as int]);
            }
        }
        match take_natural(chars, at) {
            Some(taken) => match taken.value {
                Some(v) => {
                    if v > 0x7fff_ffff_ffff_ffff {
                        None
                    } else {
                        Some(Taken { value: v as i64, end: taken.end })
                    }
                },
                None => None,
            },
            None => None,
        }
    }
}

/// The rest that a reader leaves is never longer than the text it read from.
pub proof fn lemma_body_rest_shorter(s: Seq<char>)
    requires
        read_body(s) is Some,
    ensures
        read_body(s)->0.rest.len() < s.len(),
    decreases s.len(),
{
    if s[0] == '"' {
    } else if s[0] == '\\' {
        if short_escape(s[1]) is Some {
            lemma_body_rest_shorter(s.skip(2));
        } else {
            lemma_body_rest_shorter(s.skip(6));
        }
    } else {
        lemma_body_rest_shorter(s.skip(1));
    }
}

/// An optional text: the text in quotes, or `null`.
pub open spec fn opt_text(value: Option<Seq<char>>) -> Seq<char> {
    match value {
        Some(text) => quoted(text),
        None => "null"@,
    }
}

/// Reads an optional text.
pub open spec fn read_opt(s: Seq<char>) -> Parsed<Option<Seq<char>>> {
    match read_literal(s, "null"@) {
        Some(rest) => Some(Read { value: None, rest }),
        None => match read_quoted(s) {
            Some(found) => Some(Read { value: Some(found.value), rest: found.rest }),
            None => None,
        },
    }
}

/// An optional text is read as itself.
pub proof fn lemma_opt_read(value: Option<Seq<char>>, rest: Seq<char>)
    ensures
        read_opt(opt_text(value) + rest) == Some(Read { value, rest }),
{
    match value {
        Some(text) => {
            let s = quoted(text) + rest;
            reveal_strlit("null");
            assert("null"@[0] == 'n');
            assert(s[0] == '"');
            if "null"@.len() <= s.len() {
                assert(s.take("null"@.len() as int)[0] != "null"@[0]);
            }
            lemma_quoted_read(text, rest);
        },
        None => {
            lemma_literal_read("null"@, rest);
        },
    }
}

/// What is read as an optional text is that optional text, followed by the rest.
pub proof fn lemma_opt_sound(s: Seq<char>)
    requires
        read_opt(s) is Some,
    ensures
        s == opt_text(read_opt(s)->0.value) + read_opt(s)->0.rest,
{
    if read_literal(s, "null"@) is Some {
        lemma_literal_sound(s, "null"@);
    } else {
        lemma_quoted_sound(s);
    }
}

/// The texts of a list behind its first, each led by a comma, and the closing bracket.
pub open spec fn list_tail_text(items: Seq<Seq<char>>) -> Seq<char>
    decreases items.len(),
{
    if items.len() == 0 {
        seq![']']
    } else {
        seq![','] + (quoted(items[0]) + list_tail_text(items.drop_first()))
    }
}

/// A list of texts: the texts in quotes, separated by commas, in brackets.
pub open spec fn list_text(items: Seq<Seq<char>>) -> Seq<char> {
    if items.len() == 0 {
        seq!['[', ']']
    } else {
        seq!['['] + (quoted(items[0]) + list_tail_text(items.drop_first()))
    }
}

/// A parsed list with a text put in front.
pub open spec fn item_led(item: Seq<char>, parsed: Parsed<Seq<Seq<char>>>) -> Parsed<
    Seq<Seq<char>>,
> {
    match parsed {
        Some(found) => Some(Read { value: seq![item] + found.value, rest: found.rest }),
        None => None,
    }
}

/// Reads what follows the first text of a list.
pub open spec fn read_list_tail(s: Seq<char>) -> Parsed<Seq<Seq<char>>>
    decreases s.len(),
{
    if s.len() == 0 {
        None
    } else if s[0] == ']' {
        Some(Read { value: Seq::empty(), rest: s.skip(1) })
    } else if s[0] == ',' {
        match read_quoted(s.skip(1)) {
            Some(found) => if found.rest.len() < s.len() {
                item_led(found.value, read_list_tail(found.rest))
            } else {
                None
            },
            None => None,
        }
    } else {
        None
    }
}

/// Reads a list of texts.
pub open spec fn read_list(s: Seq<char>) -> Parsed<Seq<Seq<char>>> {
    if s.len() == 0 || s[0] != '[' {
        None
    } else if s.len() > 1 && s[1] == ']' {
        Some(Read { value: Seq::empty(), rest: s.skip(2) })
    } else {
        match read_quoted(s.skip(1)) {
            Some(found) => item_led(found.value, read_list_tail(found.rest)),
            None => None,
        }
    }
}

/// What follows the first text of a list is read as the other texts.
pub proof fn lemma_list_tail_read(items: Seq<Seq<char>>, rest: Seq<char>)
    ensures
        read_list_tail(list_tail_text(items) + rest) == Some(Read { value: items, rest }),
    decreases items.len(),
{
    let s = list_tail_text(items) + rest;
    if items.len() == 0 {
        assert(s[0] == ']');
        assert(s.skip(1) =~= rest);
        assert(items =~= Seq::empty());
    } else {
        let after = list_tail_text(items.drop_first()) + rest;
        assert(s[0] == ',');
        assert(s.skip(1) =~= quoted(items[0]) + after);
        lemma_quoted_read(items[0], after);
        lemma_list_tail_read(items.drop_first(), rest);
        assert(seq![items[0]] + items.drop_first() =~= items);
    }
}

/// A list of texts is read as itself.
pub proof fn lemma_list_read(items: Seq<Seq<char>>, rest: Seq<char>)
    ensures
        read_list(list_text(items) + rest) == Some(Read { value: items, rest }),
{
    let s = list_text(items) + rest;
    if items.len() == 0 {
        assert(s[0] == '[' && s[1] == ']');
        assert(s.skip(2) =~= rest);
        assert(items =~= Seq::empty());
    } else {
        let after = list_tail_text(items.drop_first()) + rest;
        assert(s[0] == '[');
        assert(s.skip(1) =~= quoted(items[0]) + after);
        assert(s[1] == '"');
        lemma_quoted_read(items[0], after);
        lemma_list_tail_read(items.drop_first(), rest);
        assert(seq![items[0]] + items.drop_first() =~= items);
    }
}

/// What is read as the tail of a list is the text of that tail, followed by the rest.
pub proof fn lemma_list_tail_sound(s: Seq<char>)
    requires
        read_list_tail(s) is Some,
    ensures
        s == list_tail_text(read_list_tail(s)->0.value) + read_list_tail(s)->0.rest,
    decreases s.len(),
{
    let items = read_list_tail(s)->0.value;
    let rest = read_list_tail(s)->0.rest;
    if s[0] == ']' {
        assert(s =~= seq![']'] + s.skip(1));
    } else {
        let found = read_quoted(s.skip(1))->0;
        lemma_quoted_sound(s.skip(1));
        lemma_list_tail_sound(found.rest);
        let inner = read_list_tail(found.rest)->0;
        assert(items[0] == found.value);
        assert(items.drop_first() =~= inner.value);
        assert(s =~= seq![','] + s.skip(1));
        assert(s =~= (seq![','] + (quoted(items[0]) + list_tail_text(items.drop_first())))
            + rest);
    }
}

/// What is read as a list is the text of the list, followed by the rest.
pub proof fn lemma_list_sound(s: Seq<char>)
    requires
        read_list(s) is Some,
    ensures
        s == list_text(read_list(s)->0.value) + read_list(s)->0.rest,
{
    let items = read_list(s)->0.value;
    let rest = read_list(s)->0.rest;
    if s.len() > 1 && s[1] == ']' {
        assert(s =~= seq!['[', ']'] + s.skip(2));
    } else {
        let found = read_quoted(s.skip(1))->0;
        lemma_quoted_sound(s.skip(1));
        lemma_list_tail_sound(found.rest);
        let inner = read_list_tail(found.rest)->0;
        assert(items[0] == found.value);
        assert(items.drop_first() =~= inner.value);
        assert(s =~= seq!['['] + s.skip(1));
        assert(s =~= (seq!['['] + (quoted(items[0]) + list_tail_text(items.drop_first())))
            + rest);
    }
}

/// Writes an optional text.
pub fn write_opt(out: &mut String, value: &Option<String>)
    ensures
        final(out)@ == old(out)@ + opt_text(value.deep_view()),
{
    match value {
        Some(text) => write_quoted(out, text.as_str()),
        None => {
            vstd::string::StringExecFns::append(out, "null");
        },
    }
}

/// Takes an optional text at a position of a text.
pub fn take_opt(chars: &Vec<char>, at: usize) -> (taken: Option<Taken<Option<String>>>)
    requires
        at <= chars.len(),
    ensures
        match read_opt(chars@.skip(at as int)) {
            Some(found) => taken matches Some(t) && t.value.deep_view() == found.value && at
                <= t.end <= chars.len() && chars@.skip(t.end as int) == found.rest,
            None => taken is None,
        },
{
    match take_literal(chars, at, "null") {
        Some(end) => Some(Taken { value: None, end }),
        None => match take_quoted(chars, at) {
            Some(t) => Some(Taken { value: Some(t.value), end: t.end }),
            None => None,
        },
    }
}

/// Writes a list of texts.
pub fn write_list(out: &mut String, items: &Vec<String>)
    ensures
        final(out)@ == old(out)@ + list_text(items.deep_view()),
{
    let ghost views = items.deep_view();
    out.push('[');
    if items.len() == 0 {
        out.push(']');
        assert(out@ =~= old(out)@ + list_text(views));
        return;
    }
    assert(views[0] == items@[0]@);
    write_quoted(out, items[0].as_str());
    let mut i: usize = 1;
    let ghost head = old(out)@ + seq!['['] + quoted(views[0]);
    assert(out@ =~= head);
    // What is written so far and what is still to come make up the whole list.
    while i < items.len()
        invariant
            1 <= i <= items.len(),
            views == items.deep_view(),
            out@ + list_tail_text(views.skip(i as int)) == old(out)@ + list_text(views),
        decreases items.len() - i,
    {
        let ghost before = out@;
        let ghost left = views.skip(i as int);
        assert(left[0] == items@[i as int]@);
        out.push(',');
        write_quoted(out, items[i].as_str());
        proof {
            assert(left.drop_first() =~= views.skip(i + 1));
            assert(out@ + list_tail_text(views.skip(i + 1)) =~= before + list_tail_text(left));
        }
        i = i + 1;
    }
    proof {
        assert(views.skip(items.len() as int) =~= Seq::empty());
    }
    let ghost whole = old(out)@ + list_text(views);
    let ghost written = out@;
    assert(written + seq![']'] == whole);
    out.push(']');
    assert(out@ =~= written + seq![']']);
}

/// Takes a list of texts at a position of a text.
pub fn take_list(chars: &Vec<char>, at: usize) -> (taken: Option<Taken<Vec<String>>>)
    requires
        at <= chars.len(),
    ensures
        match read_list(chars@.skip(at as int)) {
            Some(found) => taken matches Some(t) && t.value.deep_view() == found.value && at
                <= t.end <= chars.len() && chars@.skip(t.end as int) == found.rest,
            None => taken is None,
        },
{
    let ghost s = chars@.skip(at as int);
    if at >= chars.len() || chars[at] != '[' {
        proof {
            if at < chars.len() {
                assert(s[0] == chars@[at as int]);
            }
        }
        return None;
    }
    assert(s[0] == '[');
    let mut items: Vec<String> = Vec::new();
    assert(items.deep_view() =~= Seq::empty());
    if at + 1 < chars.len() && chars[at + 1] == ']' {
        assert(s[1] == ']');
        assert(s.skip(2) =~= chars@.skip(at + 2));
        return Some(Taken { value: items, end: at + 2 });
    }
    proof {
        if s.len() > 1 {
            assert(s[1] == chars@[at + 1]);
        }
        assert(s.skip(1) =~= chars@.skip(at + 1));
    }
    let first = match take_quoted(chars, at + 1) {
        Some(t) => t,
        None => {
            return None;
        },
    };
    let ghost first_text = first.value@;
    items.push(first.value);
    let mut i: usize = first.end;
    let ghost whole = read_list(s);
    proof {
        assert(items.deep_view() =~= seq![first_text]);
        let tail = read_list_tail(chars@.skip(i as int));
        if tail is Some {
            assert(seq![first_text] + tail->0.value =~= items.deep_view() + tail->0.value);
        }
    }
    loop
        invariant
            at < i <= chars.len(),
            whole == read_list(chars@.skip(at as int)),
            whole == many_led(items.deep_view(), read_list_tail(chars@.skip(i as int))),
        decreases chars.len() - i,
    {
        let ghost t = chars@.skip(i as int);
        if i >= chars.len() {
            return None;
        }
        assert(t[0] == chars@[i as int]);
        if chars[i] == ']' {
            proof {
                assert(t.skip(1) =~= chars@.skip(i + 1));
                assert(items.deep_view() + Seq::<Seq<char>>::empty() =~= items.deep_view());
            }
            return Some(Taken { value: items, end: i + 1 });
        }
        if chars[i] != ',' {
            return None;
        }
        assert(t.skip(1) =~= chars@.skip(i + 1));
        let next = match take_quoted(chars, i + 1) {
            Some(t) => t,
            None => {
                return None;
            },
        };
        proof {
            lemma_body_rest_shorter(t.skip(1).skip(1));
            let found = read_quoted(t.skip(1))->0;
            let tail = read_list_tail(found.rest);
            let before = items.deep_view();
            if tail is Some {
                assert(before + (seq![found.value] + tail->0.value) =~= before.push(found.value)
                    + tail->0.value);
            }
        }
        let ghost before = items.deep_view();
        let ghost added = next.value@;
        items.push(next.value);
        assert(items.deep_view() =~= before.push(added));
        i = next.end;
    }
}

/// A parsed list with texts put in front.
pub open spec fn many_led(front: Seq<Seq<char>>, parsed: Parsed<Seq<Seq<char>>>) -> Parsed<
    Seq<Seq<char>>,
> {
    match parsed {
        Some(found) => Some(Read { value: front + found.value, rest: found.rest }),
        None => None,
    }
}

} // verus!
