//! Text: decimal numbers, prefixes, words, UTF-16, and how texts are put together.

use vstd::prelude::*;
use vstd::string::StringExecFns;

verus! {

/// `String::push` appends the character to the end of the text.
pub assume_specification[ String::push ](s: &mut String, c: char)
    ensures
        final(s)@ == old(s)@.push(c),
;

/// What a list of texts holds.
pub open spec fn texts_model(list: Seq<String>) -> Seq<Seq<char>> {
    list.map_values(|s: String| s@)
}

/// The characters of a text, one by one.
pub fn chars_of(s: &str) -> (v: Vec<char>)
    ensures
        v@ == s@,
{
    let mut v: Vec<char> = Vec::new();
    for c in it: s.chars()
        invariant
            it.seq() == s@,
            v@ == s@.take(it.index() as int),
    {
        v.push(c);
        assert(v@ =~= s@.take(it.index() as int + 1));
    }
    assert(s@.take(s@.len() as int) =~= s@);
    v
}

/// One text behind the other.
pub fn joined(a: &str, b: &str) -> (s: String)
    ensures
        s@ == a@ + b@,
{
    let mut s = String::new();
    s.append(a);
    s.append(b);
    assert(s@ =~= a@ + b@);
    s
}

/// Appends characters.
pub fn append_chars(s: &mut String, chars: &[char])
    ensures
        final(s)@ == old(s)@ + chars@,
{
    let mut i: usize = 0;
    while i < chars.len()
        invariant
            i <= chars@.len(),
            s@ == old(s)@ + chars@.take(i as int),
        decreases chars@.len() - i,
    {
        s.push(chars[i]);
        i += 1;
        assert(s@ =~= old(s)@ + chars@.take(i as int));
    }
    assert(chars@.take(i as int) =~= chars@);
}

// ---------------------------------------------------------------------------
// Decimal numbers
// ---------------------------------------------------------------------------

/// The digit character of a number below ten.
pub open spec fn digit(n: nat) -> char {
    (n + 48) as char
}

/// The decimal notation of a number, without leading zeros.
pub open spec fn decimal(n: nat) -> Seq<char>
    decreases n,
{
    if n < 10 {
        seq![digit(n)]
    } else {
        decimal(n / 10).push(digit(n % 10))
    }
}

/// Appends the decimal notation of a number.
pub fn append_decimal(s: &mut String, n: u64)
    ensures
        final(s)@ == old(s)@ + decimal(n as nat),
    decreases n,
{
    if n >= 10 {
        append_decimal(s, n / 10);
    }
    let d: u8 = (n % 10) as u8 + 48;
    s.push(d as char);
    assert(s@ =~= old(s)@ + decimal(n as nat));
}

/// The value of a decimal digit.
pub open spec fn digit_value(c: char) -> nat {
    (c as int - 48) as nat
}

/// The characters '0' to '9'.
pub open spec fn is_digit(c: char) -> bool {
    48 <= c as int <= 57
}

/// A row of digits.
pub open spec fn all_digits(s: Seq<char>) -> bool {
    forall|i: int| 0 <= i < s.len() ==> is_digit(#[trigger] s[i])
}

/// The number that a row of digits writes.
pub open spec fn digits_value(s: Seq<char>) -> nat
    decreases s.len(),
{
    if s.len() == 0 {
        0
    } else {
        10 * digits_value(s.drop_last()) + digit_value(s.last())
    }
}

/// A text without the plus sign in front of it; a lone plus sign stays.
pub open spec fn without_plus(s: Seq<char>) -> Seq<char> {
    if s.len() > 1 && s[0] == '+' {
        s.skip(1)
    } else {
        s
    }
}

/// The 16-bit number that a text writes: digits, and perhaps a plus sign in front.
pub open spec fn number_u16(s: Seq<char>) -> Option<u16> {
    let digits = without_plus(s);
    if digits.len() > 0 && all_digits(digits) && digits_value(digits) <= u16::MAX {
        Some(digits_value(digits) as u16)
    } else {
        None
    }
}

proof fn lemma_value_grows(s: Seq<char>, n: int)
    requires
        0 <= n <= s.len(),
    ensures
        digits_value(s.take(n)) <= digits_value(s),
    decreases s.len(),
{
    if n == s.len() {
        assert(s.take(n) =~= s);
    } else {
        assert(s.drop_last().take(n) =~= s.take(n));
        lemma_value_grows(s.drop_last(), n);
    }
}

/// Reads a 16-bit number.
pub fn parse_u16(chars: &[char]) -> (n: Option<u16>)
    ensures
        n == number_u16(chars@),
{
    let start: usize = if chars.len() > 1 && chars[0] == '+' {
        1
    } else {
        0
    };
    let ghost digits = without_plus(chars@);
    assert(digits =~= chars@.skip(start as int));
    if start == chars.len() {
        return None;
    }
    let mut value: u32 = 0;
    let mut i: usize = start;
    while i < chars.len()
        invariant
            start <= i <= chars@.len(),
            start < chars@.len(),
            digits == chars@.skip(start as int),
            digits == without_plus(chars@),
            value == digits_value(digits.take(i - start)),
            value <= u16::MAX,
            forall|k: int| 0 <= k < i - start ==> is_digit(#[trigger] digits[k]),
        decreases chars@.len() - i,
    {
        let c: u32 = chars[i] as u32;
        proof {
            vstd::utf8::char_is_scalar(chars@[i as int]);
            vstd::utf8::char_u32_cast(chars@[i as int], c);
        }
        assert(digits[i - start] == chars@[i as int]);
        if c < 48 || c > 57 {
            assert(!is_digit(digits[i - start]));
            return None;
        }
        value = value * 10 + (c - 48);
        i += 1;
        proof {
            let done = digits.take(i - start);
            assert(done.drop_last() =~= digits.take(i - 1 - start));
            assert(done.last() == digits[i - 1 - start]);
            lemma_value_grows(digits, i - start);
        }
        if value > 65535 {
            return None;
        }
    }
    assert(digits.take(i - start) =~= digits);
    Some(value as u16)
}

// ---------------------------------------------------------------------------
// Words
// ---------------------------------------------------------------------------

/// The characters with the Unicode property White_Space.
pub open spec fn is_white(c: char) -> bool {
    let n = c as int;
    ||| 0x09 <= n <= 0x0D
    ||| n == 0x20
    ||| n == 0x85
    ||| n == 0xA0
    ||| n == 0x1680
    ||| 0x2000 <= n <= 0x200A
    ||| n == 0x2028
    ||| n == 0x2029
    ||| n == 0x202F
    ||| n == 0x205F
    ||| n == 0x3000
}

/// Where the next character that is not white, or the end of the text, stands.
pub open spec fn white_end(s: Seq<char>, from: int) -> int
    decreases s.len() - from,
{
    if 0 <= from < s.len() && is_white(s[from]) {
        white_end(s, from + 1)
    } else {
        from
    }
}

/// Where the next white character, or the end of the text, stands.
pub open spec fn word_end(s: Seq<char>, from: int) -> int
    decreases s.len() - from,
{
    if 0 <= from < s.len() && !is_white(s[from]) {
        word_end(s, from + 1)
    } else {
        from
    }
}

/// The second of the words that white characters part.
pub open spec fn second_word(s: Seq<char>) -> Option<Seq<char>> {
    let first = word_end(s, white_end(s, 0));
    let start = white_end(s, first);
    if start < s.len() {
        Some(s.subrange(start, word_end(s, start)))
    } else {
        None
    }
}

proof fn lemma_word_end(s: Seq<char>, from: int, to: int)
    requires
        0 <= from <= to <= s.len(),
        forall|i: int| from <= i < to ==> !is_white(#[trigger] s[i]),
        to < s.len() ==> is_white(s[to]),
    ensures
        word_end(s, from) == to,
    decreases to - from,
{
    if from < to {
        lemma_word_end(s, from + 1, to);
    }
}

pub(crate) proof fn lemma_decimal(n: nat)
    ensures
        decimal(n).len() > 0,
        all_digits(decimal(n)),
        digits_value(decimal(n)) == n,
        forall|i: int| 0 <= i < decimal(n).len() ==> !is_white(#[trigger] decimal(n)[i]),
    decreases n,
{
    if n < 10 {
        assert(decimal(n).drop_last() =~= Seq::empty());
        assert(digits_value(Seq::empty()) == 0);
    } else {
        lemma_decimal(n / 10);
        let front = decimal(n / 10);
        assert(decimal(n).drop_last() =~= front);
        assert forall|i: int| 0 <= i < decimal(n).len() implies is_digit(
            #[trigger] decimal(n)[i],
        ) by {
            if i < front.len() {
                assert(decimal(n)[i] == front[i]);
            }
        }
        assert forall|i: int| 0 <= i < decimal(n).len() implies !is_white(
            #[trigger] decimal(n)[i],
        ) by {
            assert(is_digit(decimal(n)[i]));
        }
    }
}

/// What decimal notation writes is read back, with a plus sign in front as well.
pub proof fn law_numbers_are_read_back(n: u16)
    ensures
        number_u16(decimal(n as nat)) == Some(n),
        number_u16(seq!['+'] + decimal(n as nat)) == Some(n),
{
    let d = decimal(n as nat);
    lemma_decimal(n as nat);
    assert(is_digit(d[0]));
    assert(without_plus(d) =~= d);
    assert(without_plus(seq!['+'] + d) =~= d);
}

/// Behind a word and a space, a number is the second word.
pub proof fn law_number_behind_a_word(word: Seq<char>, n: nat, rest: Seq<char>)
    requires
        word.len() > 0,
        forall|i: int| 0 <= i < word.len() ==> !is_white(#[trigger] word[i]),
        rest.len() > 0 ==> is_white(rest[0]),
    ensures
        second_word(word + seq![' '] + decimal(n) + rest) == Some(decimal(n)),
{
    let d = decimal(n);
    let s = word + seq![' '] + d + rest;
    let start = word.len() + 1;
    lemma_decimal(n);
    assert forall|i: int| 0 <= i < word.len() implies !is_white(#[trigger] s[i]) by {
        assert(s[i] == word[i]);
    }
    assert(s[word.len() as int] == ' ');
    lemma_word_end(s, 0, word.len() as int);
    assert(!is_white(s[0]));
    assert forall|i: int| start <= i < start + d.len() implies !is_white(#[trigger] s[i]) by {
        assert(s[i] == d[i - start]);
    }
    assert(s[start as int] == d[0]);
    assert(white_end(s, word.len() as int) == start) by {
        reveal_with_fuel(white_end, 3);
    }
    if rest.len() > 0 {
        assert(s[(start + d.len()) as int] == rest[0]);
    }
    lemma_word_end(s, start as int, (start + d.len()) as int);
    assert(s.subrange(start as int, (start + d.len()) as int) =~= d);
}

/// Tests a character for the Unicode property White_Space.
pub fn white(c: char) -> (b: bool)
    ensures
        b == is_white(c),
{
    let n: u32 = c as u32;
    (0x09 <= n && n <= 0x0D) || n == 0x20 || n == 0x85 || n == 0xA0 || n == 0x1680 || (0x2000 <= n
        && n <= 0x200A) || n == 0x2028 || n == 0x2029 || n == 0x202F || n == 0x205F || n == 0x3000
}

/// Skips the characters that are white, or those that are not.
fn skip(chars: &[char], from: usize, whites: bool) -> (end: usize)
    requires
        from <= chars@.len(),
    ensures
        end == if whites {
            white_end(chars@, from as int)
        } else {
            word_end(chars@, from as int)
        },
        from <= end <= chars@.len(),
{
    let mut i: usize = from;
    while i < chars.len() && white(chars[i]) == whites
        invariant
            from <= i <= chars@.len(),
            whites ==> white_end(chars@, from as int) == white_end(chars@, i as int),
            !whites ==> word_end(chars@, from as int) == word_end(chars@, i as int),
        decreases chars@.len() - i,
    {
        i += 1;
    }
    i
}

/// Finds the second of the words that white characters part.
pub fn find_second_word(chars: &[char]) -> (word: Option<(usize, usize)>)
    ensures
        word is Some == second_word(chars@) is Some,
        word matches Some(w) ==> w.0 <= w.1 <= chars@.len() && second_word(chars@) == Some(
            chars@.subrange(w.0 as int, w.1 as int),
        ),
{
    let a = skip(chars, 0, true);
    let b = skip(chars, a, false);
    let start = skip(chars, b, true);
    if start < chars.len() {
        let end = skip(chars, start, false);
        Some((start, end))
    } else {
        None
    }
}

// ---------------------------------------------------------------------------
// Prefixes and parts
// ---------------------------------------------------------------------------

/// The character, an ASCII capital as the small letter.
pub open spec fn lower(c: char) -> char {
    if 65 <= c as int <= 90 {
        (c as int + 32) as char
    } else {
        c
    }
}

/// The text, ASCII capitals as small letters.
pub open spec fn lowercase(s: Seq<char>) -> Seq<char> {
    s.map_values(|c: char| lower(c))
}

/// The text, ASCII capitals as small letters.
pub fn ascii_lowercase(s: &str) -> (chars: Vec<char>)
    ensures
        chars@ == lowercase(s@),
{
    let all = chars_of(s);
    let mut chars: Vec<char> = Vec::new();
    let mut i: usize = 0;
    while i < all.len()
        invariant
            i <= all@.len(),
            all@ == s@,
            chars@ == lowercase(s@.take(i as int)),
        decreases all@.len() - i,
    {
        let c: u32 = all[i] as u32;
        if 65 <= c && c <= 90 {
            chars.push((c as u8 + 32) as char);
        } else {
            chars.push(all[i]);
        }
        i += 1;
        assert(chars@ =~= lowercase(s@.take(i as int)));
    }
    assert(s@.take(i as int) =~= s@);
    chars
}

/// Tests whether a part stands in the text at a given place.
pub open spec fn stands_at(text: Seq<char>, part: Seq<char>, at: int) -> bool {
    0 <= at && at + part.len() <= text.len() && text.subrange(at, at + part.len()) == part
}

/// Tests whether a part stands anywhere in the text.
pub open spec fn has_part(text: Seq<char>, part: Seq<char>) -> bool {
    exists|at: int| stands_at(text, part, at)
}

/// Tests whether a text stands in another one at a given place.
pub fn part_at(text: &[char], part: &[char], at: usize) -> (b: bool)
    requires
        at <= text@.len(),
    ensures
        b == stands_at(text@, part@, at as int),
{
    let n: usize = text.len();
    if part.len() > n - at {
        return false;
    }
    let mut i: usize = 0;
    while i < part.len()
        invariant
            i <= part@.len(),
            at + part@.len() <= text@.len(),
            n == text@.len(),
            forall|k: int| 0 <= k < i ==> text@[at + k] == part@[k],
        decreases part@.len() - i,
    {
        if text[at + i] != part[i] {
            assert(text@.subrange(at as int, at + part@.len())[i as int] != part@[i as int]);
            return false;
        }
        i += 1;
    }
    assert(text@.subrange(at as int, at + part@.len()) =~= part@);
    true
}

/// Tests whether a text begins with another one.
pub fn begins_with(text: &[char], start: &str) -> (b: bool)
    ensures
        b == start@.is_prefix_of(text@),
{
    let start_chars = chars_of(start);
    let b = part_at(text, start_chars.as_slice(), 0);
    assert(b ==> text@.subrange(0, start@.len() as int) == start@);
    b
}

/// Tests whether a text stands in another one.
pub fn contains_part(text: &str, part: &str) -> (b: bool)
    ensures
        b == has_part(text@, part@),
{
    let text_chars = chars_of(text);
    let part_chars = chars_of(part);
    let mut at: usize = 0;
    while at < text_chars.len()
        invariant
            at <= text_chars@.len(),
            text_chars@ == text@,
            part_chars@ == part@,
            forall|k: int| 0 <= k < at ==> !stands_at(text@, part@, k),
        decreases text_chars@.len() - at,
    {
        if part_at(text_chars.as_slice(), part_chars.as_slice(), at) {
            return true;
        }
        at += 1;
    }
    part_at(text_chars.as_slice(), part_chars.as_slice(), at)
}

// ---------------------------------------------------------------------------
// UTF-16
// ---------------------------------------------------------------------------

/// The UTF-16 code units of one character.
pub open spec fn utf16_of_char(c: char) -> Seq<u16> {
    if (c as int) < 0x1_0000 {
        seq![c as u16]
    } else {
        seq![
            (0xD800 + (c as int - 0x1_0000) / 0x400) as u16,
            (0xDC00 + (c as int - 0x1_0000) % 0x400) as u16,
        ]
    }
}

/// The UTF-16 code units of a text.
pub open spec fn utf16(s: Seq<char>) -> Seq<u16>
    decreases s.len(),
{
    if s.len() == 0 {
        Seq::empty()
    } else {
        utf16(s.drop_last()) + utf16_of_char(s.last())
    }
}

/// The UTF-16 code units of a text.
pub fn utf16_units(s: &str) -> (units: Vec<u16>)
    ensures
        units@ == utf16(s@),
{
    let chars = chars_of(s);
    let mut units: Vec<u16> = Vec::new();
    let mut i: usize = 0;
    while i < chars.len()
        invariant
            i <= chars@.len(),
            chars@ == s@,
            units@ == utf16(s@.take(i as int)),
        decreases chars@.len() - i,
    {
        let c: u32 = chars[i] as u32;
        proof {
            vstd::utf8::char_is_scalar(chars@[i as int]);
            vstd::utf8::char_u32_cast(chars@[i as int], c);
        }
        if c < 0x1_0000 {
            units.push(c as u16);
        } else {
            let v: u32 = c - 0x1_0000;
            units.push((0xD800 + v / 0x400) as u16);
            units.push((0xDC00 + v % 0x400) as u16);
        }
        i += 1;
        proof {
            assert(s@.take(i as int).drop_last() =~= s@.take(i - 1));
            assert(units@ =~= utf16(s@.take(i as int)));
        }
    }
    assert(s@.take(i as int) =~= s@);
    units
}

} // verus!
