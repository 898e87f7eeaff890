//! What texts come to, said of the characters themselves.

use crate::text::decimal;
use crate::text::has_part;
use crate::text::is_white;
use crate::text::lowercase;
use crate::text::number_u16;
use crate::text::second_word;
use crate::text::stands_at;
use crate::text::utf16;
use crate::text::utf16_of_char;
use crate::text::white_end;
use crate::text::word_end;
use vstd::prelude::*;

verus! {

// ---------------------------------------------------------------------------
// Numbers
// ---------------------------------------------------------------------------

/// Decimal notation: a number below ten is one digit, and one digit behind a number
/// makes it ten times as large and adds the digit. No number begins with a zero that
/// could be left out.
pub proof fn law_decimals_are_written_digit_by_digit(n: nat, d: nat)
    requires
        d < 10,
    ensures
        decimal(d).len() == 1,
        decimal(d)[0] as int == 48 + d,
        n > 0 ==> decimal(10 * n + d).len() == decimal(n).len() + 1,
        n > 0 ==> decimal(10 * n + d).drop_last() == decimal(n),
        n > 0 ==> decimal(10 * n + d).last() as int == 48 + d,
        n > 0 ==> decimal(n)[0] as int != 48,
    decreases n,
{
    if n > 0 {
        let m = 10 * n + d;
        assert(m / 10 == n && m % 10 == d);
        assert(decimal(m).drop_last() =~= decimal(n));
        if n >= 10 {
            law_decimals_are_written_digit_by_digit(n / 10, n % 10);
            assert(n == 10 * (n / 10) + n % 10);
            let front = decimal(n / 10);
            assert(decimal(n) == front.push(crate::text::digit(n % 10)));
            assert(front.len() > 0) by {
                lemma_decimal_is_not_empty(n / 10);
            }
            assert(decimal(n)[0] == front[0]);
        }
    }
}

proof fn lemma_decimal_is_not_empty(n: nat)
    ensures
        decimal(n).len() > 0,
    decreases n,
{
    if n >= 10 {
        lemma_decimal_is_not_empty(n / 10);
    }
}

/// A number is read as it is written, and a zero before it does not matter.
pub proof fn law_numbers_are_read(n: u16, zeros: nat)
    ensures
        number_u16(Seq::new(zeros, |i: int| '0') + decimal(n as nat)) == Some(n),
        number_u16(seq!['+'] + decimal(n as nat)) == Some(n),
    decreases zeros,
{
    let d = decimal(n as nat);
    let s = Seq::new(zeros, |i: int| '0') + d;
    crate::text::law_numbers_are_read_back(n);
    if zeros == 0 {
        assert(s =~= d);
    } else {
        let less = Seq::new((zeros - 1) as nat, |i: int| '0') + d;
        law_numbers_are_read(n, (zeros - 1) as nat);
        assert(s =~= seq!['0'] + less);
        lemma_decimal_is_not_empty(n as nat);
        assert(less[0] != '+') by {
            if zeros == 1 {
                assert(less =~= d);
                crate::text::lemma_decimal(n as nat);
                assert(crate::text::is_digit(d[0]));
            }
        }
        assert(crate::text::without_plus(less) =~= less);
        assert(crate::text::without_plus(s) =~= s);
        lemma_zero_in_front(less);
        assert forall|i: int| 0 <= i < s.len() implies crate::text::is_digit(#[trigger] s[i]) by {
            if i > 0 {
                assert(s[i] == less[i - 1]);
            }
        }
    }
}

proof fn lemma_zero_in_front(s: Seq<char>)
    ensures
        crate::text::digits_value(seq!['0'] + s) == crate::text::digits_value(s),
    decreases s.len(),
{
    let t = seq!['0'] + s;
    if s.len() == 0 {
        assert(t.drop_last() =~= Seq::empty());
        assert(crate::text::digits_value(Seq::empty()) == 0);
    } else {
        assert(t.drop_last() =~= seq!['0'] + s.drop_last());
        lemma_zero_in_front(s.drop_last());
    }
}

/// What is no number is not read: an empty text, and one with anything but digits behind
/// its first character, or anything but a digit or a plus sign there.
pub proof fn law_only_numbers_are_read(s: Seq<char>, i: int)
    requires
        s.len() == 0 || (0 <= i < s.len() && !(48 <= s[i] as int <= 57) && (i > 0 || s[i] as int
            != 43 || s.len() == 1)),
    ensures
        number_u16(s) is None,
{
    if s.len() > 0 {
        let digits = crate::text::without_plus(s);
        if s.len() > 1 && s[0] == '+' {
            assert(digits[i - 1] == s[i]);
        } else {
            assert(digits[i] == s[i]);
        }
    }
}

/// What is too large is not read.
pub proof fn law_large_numbers_are_not_read(n: nat)
    requires
        n > 65535,
    ensures
        number_u16(decimal(n)) is None,
{
    crate::text::lemma_decimal(n);
    let d = decimal(n);
    assert(crate::text::is_digit(d[0]));
    assert(crate::text::without_plus(d) =~= d);
}

// ---------------------------------------------------------------------------
// Words
// ---------------------------------------------------------------------------

/// The characters that part words: tab, the line ends, the space, and those spaces and
/// separators of Unicode that count as white; no other.
pub proof fn law_what_is_white(c: char)
    ensures
        (c as int) < 128 ==> (is_white(c) <==> c as int == 32 || 9 <= c as int <= 13),
        c as int >= 128 ==> (is_white(c) <==> c as int == 0x85 || c as int == 0xA0 || c as int
            == 0x1680 || 0x2000 <= c as int <= 0x200A || c as int == 0x2028 || c as int == 0x2029
            || c as int == 0x202F || c as int == 0x205F || c as int == 0x3000),
{
}

/// Nothing but white.
pub open spec fn blank(s: Seq<char>) -> bool {
    forall|i: int| 0 <= i < s.len() ==> is_white(#[trigger] s[i])
}

/// Nothing white.
pub open spec fn solid(s: Seq<char>) -> bool {
    forall|i: int| 0 <= i < s.len() ==> !is_white(#[trigger] s[i])
}

proof fn lemma_white_end(s: Seq<char>, from: int, to: int)
    requires
        0 <= from <= to <= s.len(),
        forall|i: int| from <= i < to ==> is_white(#[trigger] s[i]),
        to < s.len() ==> !is_white(s[to]),
    ensures
        white_end(s, from) == to,
    decreases to - from,
{
    if from < to {
        lemma_white_end(s, from + 1, to);
    }
}

proof fn lemma_word_end(s: Seq<char>, from: int, to: int)
    requires
        0 <= from <= to <= s.len(),
        forall|i: int| from <= i < to ==> !is_white(#[trigger] s[i]),
        to < s.len() ==> is_white(s[to]),
    ensures
        word_end(s, from) == to,
    decreases to - from,
{
    if from < to {
        lemma_word_end(s, from + 1, to);
    }
}

/// The second word is found, whatever white stands before and between, and whatever
/// stands behind white after it.
pub proof fn law_the_second_word_is_found(
    lead: Seq<char>,
    first: Seq<char>,
    gap: Seq<char>,
    second: Seq<char>,
    rest: Seq<char>,
)
    requires
        blank(lead),
        solid(first),
        first.len() > 0,
        blank(gap),
        gap.len() > 0,
        solid(second),
        second.len() > 0,
        rest.len() > 0 ==> is_white(rest[0]),
    ensures
        second_word(lead + first + gap + second + rest) == Some(second),
{
    let s = lead + first + gap + second + rest;
    let a = lead.len() as int;
    let b = a + first.len();
    let c = b + gap.len();
    let d = c + second.len();
    assert forall|i: int| 0 <= i < a implies is_white(#[trigger] s[i]) by {
        assert(s[i] == lead[i]);
    }
    assert forall|i: int| a <= i < b implies !is_white(#[trigger] s[i]) by {
        assert(s[i] == first[i - a]);
    }
    assert forall|i: int| b <= i < c implies is_white(#[trigger] s[i]) by {
        assert(s[i] == gap[i - b]);
    }
    assert forall|i: int| c <= i < d implies !is_white(#[trigger] s[i]) by {
        assert(s[i] == second[i - c]);
    }
    if rest.len() > 0 {
        assert(s[d] == rest[0]);
    }
    lemma_white_end(s, 0, a);
    lemma_word_end(s, a, b);
    lemma_white_end(s, b, c);
    lemma_word_end(s, c, d);
    assert(s.subrange(c, d) =~= second);
}

/// A text with fewer than two words has no second one.
pub proof fn law_fewer_words_have_no_second(lead: Seq<char>, first: Seq<char>, rest: Seq<char>)
    requires
        blank(lead),
        solid(first),
        blank(rest),
    ensures
        second_word(lead + first + rest) is None,
{
    let s = lead + first + rest;
    let a = lead.len() as int;
    let b = a + first.len();
    let n = s.len() as int;
    assert forall|i: int| 0 <= i < a implies is_white(#[trigger] s[i]) by {
        assert(s[i] == lead[i]);
    }
    assert forall|i: int| a <= i < b implies !is_white(#[trigger] s[i]) by {
        assert(s[i] == first[i - a]);
    }
    assert forall|i: int| b <= i < n implies is_white(#[trigger] s[i]) by {
        assert(s[i] == rest[i - b]);
    }
    if first.len() == 0 {
        assert forall|i: int| 0 <= i < n implies is_white(#[trigger] s[i]) by {}
        lemma_white_end(s, 0, n);
        lemma_word_end(s, n, n);
        lemma_white_end(s, n, n);
    } else {
        lemma_white_end(s, 0, a);
        lemma_word_end(s, a, b);
        lemma_white_end(s, b, n);
    }
}

// ---------------------------------------------------------------------------
// Letters and parts
// ---------------------------------------------------------------------------

/// Capitals of ASCII become the letters 32 behind them; nothing else changes, and
/// nothing is left out.
pub proof fn law_only_capitals_are_made_small(s: Seq<char>, i: int)
    requires
        0 <= i < s.len(),
    ensures
        lowercase(s).len() == s.len(),
        65 <= s[i] as int <= 90 ==> lowercase(s)[i] as int == s[i] as int + 32,
        !(65 <= s[i] as int <= 90) ==> lowercase(s)[i] == s[i],
{
}

/// A part is found exactly if the text is something, the part, and something.
pub proof fn law_parts_are_found(before: Seq<char>, part: Seq<char>, behind: Seq<char>)
    ensures
        has_part(before + part + behind, part),
{
    let text = before + part + behind;
    let at = before.len() as int;
    assert(text.subrange(at, at + part.len()) =~= part);
    assert(stands_at(text, part, at));
}

/// A part that is found stands somewhere in the text.
pub proof fn law_found_parts_are_there(text: Seq<char>, part: Seq<char>)
    requires
        has_part(text, part),
    ensures
        exists|before: Seq<char>, behind: Seq<char>| text == #[trigger] (before + part + behind),
{
    let at = choose|at: int| stands_at(text, part, at);
    let before = text.take(at);
    let behind = text.skip(at + part.len());
    assert(text =~= (before + part + behind));
}

// ---------------------------------------------------------------------------
// UTF-16
// ---------------------------------------------------------------------------

/// A character of the basic plane is one unit, its own number; any other is a pair of
/// surrogates, from which its number comes back.
pub proof fn law_characters_come_back_from_utf16(c: char)
    ensures
        (c as int) < 0x10000 ==> utf16_of_char(c).len() == 1 && utf16_of_char(c)[0] as int
            == c as int,
        c as int >= 0x10000 ==> {
            let units = utf16_of_char(c);
            &&& units.len() == 2
            &&& 0xD800 <= units[0] < 0xDC00
            &&& 0xDC00 <= units[1] < 0xE000
            &&& 0x10000 + (units[0] - 0xD800) * 0x400 + (units[1] - 0xDC00) == c as int
        },
{
}

/// Texts are encoded character by character, in order.
pub proof fn law_texts_are_encoded_in_order(a: Seq<char>, b: Seq<char>, c: char)
    ensures
        utf16(a + b) == utf16(a) + utf16(b),
        utf16(seq![c]) == utf16_of_char(c),
        utf16(Seq::empty()).len() == 0,
    decreases b.len(),
{
    assert(seq![c].drop_last() =~= Seq::empty());
    assert(utf16(Seq::empty()) + utf16_of_char(c) =~= utf16_of_char(c));
    if b.len() == 0 {
        assert(a + b =~= a);
        assert(utf16(a) + utf16(b) =~= utf16(a));
    } else {
        law_texts_are_encoded_in_order(a, b.drop_last(), c);
        assert((a + b).drop_last() =~= a + b.drop_last());
        assert((a + b).last() == b.last());
        assert(utf16(a) + utf16(b) =~= utf16(a) + utf16(b.drop_last()) + utf16_of_char(b.last()));
    }
}

} // verus!
