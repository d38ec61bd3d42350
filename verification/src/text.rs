//! Text handling shared by the decoders: characters, separators and decimal numbers.
use vstd::prelude::*;
use vstd::string::*;
use crate::model::views;

verus! {

/// The parts of `text` between occurrences of `sep`, in order. A text without
/// separator is its own single part; `n` separators always give `n + 1` parts,
/// some of which may be empty.
pub open spec fn split_on(text: Seq<char>, sep: char) -> Seq<Seq<char>>
    decreases text.len(),
{
    if text.len() == 0 {
        seq![Seq::<char>::empty()]
    } else {
        let before = split_on(text.drop_last(), sep);
        if text.last() == sep {
            before.push(Seq::<char>::empty())
        } else {
            before.drop_last().push(before.last().push(text.last()))
        }
    }
}

/// The parts put together again, with `sep` between each two.
pub open spec fn joined(parts: Seq<Seq<char>>, sep: char) -> Seq<char>
    decreases parts.len(),
{
    if parts.len() == 0 {
        Seq::empty()
    } else if parts.len() == 1 {
        parts[0]
    } else {
        joined(parts.drop_last(), sep) + seq![sep] + parts.last()
    }
}

/// Whether `c` is one of the ten decimal digits.
pub open spec fn is_digit(c: char) -> bool {
    '0' <= c <= '9'
}

/// The number a decimal digit stands for.
pub open spec fn digit_value(c: char) -> int {
    c as int - '0' as int
}

/// The decimal digit that stands for `d`, for `d` below ten.
pub open spec fn digit_char(d: int) -> char {
    if d == 0 {
        '0'
    } else if d == 1 {
        '1'
    } else if d == 2 {
        '2'
    } else if d == 3 {
        '3'
    } else if d == 4 {
        '4'
    } else if d == 5 {
        '5'
    } else if d == 6 {
        '6'
    } else if d == 7 {
        '7'
    } else if d == 8 {
        '8'
    } else {
        '9'
    }
}

/// Whether `text` is a non-empty run of decimal digits.
pub open spec fn is_number(text: Seq<char>) -> bool {
    text.len() > 0 && forall|i: int| 0 <= i < text.len() ==> is_digit(#[trigger] text[i])
}

/// The number written by a run of decimal digits, most significant first.
pub open spec fn number_value(text: Seq<char>) -> int
    decreases text.len(),
{
    if text.len() == 0 {
        0
    } else {
        number_value(text.drop_last()) * 10 + digit_value(text.last())
    }
}

/// `text` without a leading `+`.
pub open spec fn without_plus(text: Seq<char>) -> Seq<char> {
    if text.len() > 0 && text[0] == '+' {
        text.subrange(1, text.len() as int)
    } else {
        text
    }
}

/// `text` without a leading `+` or `-`.
pub open spec fn without_sign(text: Seq<char>) -> Seq<char> {
    if text.len() > 0 && (text[0] == '+' || text[0] == '-') {
        text.subrange(1, text.len() as int)
    } else {
        text
    }
}

/// The unsigned 32-bit number that `text` writes: an optional `+`, then at
/// least one digit, with a value that fits. `None` for any other text.
pub open spec fn unsigned_of(text: Seq<char>) -> Option<u32> {
    let digits = without_plus(text);
    if is_number(digits) && number_value(digits) <= u32::MAX {
        Some(number_value(digits) as u32)
    } else {
        None
    }
}

/// The signed 32-bit number that `text` writes: an optional `+` or `-`, then
/// at least one digit, with a value that fits. `None` for any other text.
pub open spec fn signed_of(text: Seq<char>) -> Option<i32> {
    let digits = without_sign(text);
    let value = if text.len() > 0 && text[0] == '-' {
        -number_value(digits)
    } else {
        number_value(digits)
    };
    if is_number(digits) && i32::MIN <= value <= i32::MAX {
        Some(value as i32)
    } else {
        None
    }
}

/// The digits of a natural number, most significant first, without leading zeros.
pub open spec fn digits_of(n: nat) -> Seq<char>
    decreases n,
{
    if n < 10 {
        seq![digit_char(n as int)]
    } else {
        digits_of(n / 10).push(digit_char((n % 10) as int))
    }
}

/// The decimal notation of an integer: a `-` for a negative one, then its digits.
pub open spec fn decimal_of(n: int) -> Seq<char> {
    if n < 0 {
        seq!['-'] + digits_of((-n) as nat)
    } else {
        digits_of(n as nat)
    }
}

/// A run of digits never writes a negative number, and a longer run that
/// starts with it writes no smaller one.
pub proof fn lemma_number_value_grows(text: Seq<char>, k: int)
    requires
        0 <= k <= text.len(),
        forall|i: int| 0 <= i < text.len() ==> is_digit(#[trigger] text[i]),
    ensures
        0 <= number_value(text.take(k)) <= number_value(text),
    decreases text.len(),
{
    if k == text.len() {
        assert(text.take(k) == text);
        if text.len() > 0 {
            lemma_number_value_grows(text.drop_last(), k - 1);
            assert(is_digit(text[text.len() - 1]));
        }
    } else {
        lemma_number_value_grows(text.drop_last(), k);
        assert(text.drop_last().take(k) == text.take(k));
        assert(is_digit(text[text.len() - 1]));
    }
}

/// What a split is: at least one part, no part holds the separator, and the
/// parts put together again with the separator between them are the text.
pub proof fn lemma_split_then_join(text: Seq<char>, sep: char)
    ensures
        split_on(text, sep).len() >= 1,
        forall|i: int, j: int|
            0 <= i < split_on(text, sep).len() && 0 <= j < split_on(text, sep)[i].len()
                ==> split_on(text, sep)[i][j] != sep,
        joined(split_on(text, sep), sep) == text,
    decreases text.len(),
{
    let parts = split_on(text, sep);
    if text.len() == 0 {
        assert(joined(parts, sep) == text);
    } else {
        let before = split_on(text.drop_last(), sep);
        lemma_split_then_join(text.drop_last(), sep);
        assert(text.drop_last().push(text.last()) == text);
        if text.last() == sep {
            assert(parts.drop_last() == before);
            assert(joined(parts, sep) == text);
        } else {
            let grown = before.last().push(text.last());
            assert(parts.drop_last() == before.drop_last());
            assert(parts.last() == grown);
            if before.len() == 1 {
                assert(joined(parts, sep) == text);
            } else {
                assert(joined(parts, sep) == (joined(before.drop_last(), sep) + seq![sep]
                    + before.last()).push(text.last()));
            }
            assert forall|i: int, j: int|
                0 <= i < parts.len() && 0 <= j < parts[i].len() implies parts[i][j] != sep by {
                if i < parts.len() - 1 {
                    assert(parts[i] == before[i]);
                } else if j < before.last().len() {
                    assert(parts[i][j] == before.last()[j]);
                }
            }
        }
    }
}

/// A text that does not hold the separator is split into itself alone.
pub proof fn lemma_split_without_separator(text: Seq<char>, sep: char)
    requires
        forall|i: int| 0 <= i < text.len() ==> text[i] != sep,
    ensures
        split_on(text, sep) == seq![text],
    decreases text.len(),
{
    if text.len() > 0 {
        lemma_split_without_separator(text.drop_last(), sep);
        assert(text.drop_last().push(text.last()) == text);
        assert(seq![text.drop_last()].drop_last() == Seq::<Seq<char>>::empty());
        assert(Seq::<Seq<char>>::empty().push(text) == seq![text]);
    } else {
        assert(text == Seq::<char>::empty());
    }
}

/// What follows the last separator of a text is the last part of its split,
/// and what precedes that separator is split as it would be alone.
pub proof fn lemma_split_at_last_separator(head: Seq<char>, tail: Seq<char>, sep: char)
    requires
        forall|i: int| 0 <= i < tail.len() ==> tail[i] != sep,
    ensures
        split_on(head + seq![sep] + tail, sep) == split_on(head, sep).push(tail),
    decreases tail.len(),
{
    let text = head + seq![sep] + tail;
    if tail.len() == 0 {
        assert(text.drop_last() == head);
        assert(tail == Seq::<char>::empty());
    } else {
        lemma_split_at_last_separator(head, tail.drop_last(), sep);
        assert(text.drop_last() == head + seq![sep] + tail.drop_last());
        assert(text.last() == tail.last());
        let before = split_on(head, sep).push(tail.drop_last());
        assert(before.drop_last() == split_on(head, sep));
        assert(tail.drop_last().push(tail.last()) == tail);
    }
}

/// A run of digits that fits into 32 bits is read as the number it writes.
pub proof fn lemma_unsigned_of_number(text: Seq<char>)
    requires
        is_number(text),
        number_value(text) <= u32::MAX,
    ensures
        unsigned_of(text) == Some(number_value(text) as u32),
        number_value(text) >= 0,
{
    assert(is_digit(text[0]));
    lemma_number_value_grows(text, 0);
}

/// Each number below ten has its digit, and the digit stands for it.
pub proof fn lemma_digit_char(d: int)
    requires
        0 <= d < 10,
    ensures
        is_digit(digit_char(d)),
        digit_value(digit_char(d)) == d,
{
}

/// The digits of a number write that number.
pub proof fn lemma_digits_write_the_number(n: nat)
    ensures
        is_number(digits_of(n)),
        number_value(digits_of(n)) == n,
    decreases n,
{
    let text = digits_of(n);
    if n < 10 {
        lemma_digit_char(n as int);
        assert(text.drop_last() == Seq::<char>::empty());
        assert(number_value(text.drop_last()) == 0);
    } else {
        lemma_digits_write_the_number(n / 10);
        lemma_digit_char((n % 10) as int);
        assert(text.drop_last() == digits_of(n / 10));
        assert forall|i: int| 0 <= i < text.len() implies is_digit(#[trigger] text[i]) by {
            if i < text.len() - 1 {
                assert(text[i] == digits_of(n / 10)[i]);
            }
        }
    }
}

/// What is written is read back: the decimal notation of a 32-bit integer
/// is read as that integer.
pub proof fn lemma_decimal_is_read_back(n: int)
    requires
        i32::MIN <= n <= i32::MAX,
    ensures
        signed_of(decimal_of(n)) == Some(n as i32),
{
    if n < 0 {
        let digits = digits_of((-n) as nat);
        lemma_digits_write_the_number((-n) as nat);
        let text = decimal_of(n);
        assert(text[0] == '-');
        assert(text.subrange(1, text.len() as int) == digits);
    } else {
        let digits = digits_of(n as nat);
        lemma_digits_write_the_number(n as nat);
        assert(is_digit(digits[0]));
    }
}

/// The characters of a string slice, in order.
pub fn chars_of(text: &str) -> (chars: Vec<char>)
    ensures
        chars@ == text@,
{
    let mut chars: Vec<char> = Vec::new();
    for c in it: text.chars()
        invariant
            it.seq() == text@,
            chars@ == it.seq().take(it.index()),
    {
        chars.push(c);
    }
    chars
}

/// Splits `text` at every occurrence of `sep`.
pub fn split(text: &Vec<char>, sep: char) -> (parts: Vec<Vec<char>>)
    ensures
        views(parts@) == split_on(text@, sep),
        parts@.len() >= 1,
{
    let mut parts: Vec<Vec<char>> = Vec::new();
    let mut current: Vec<char> = Vec::new();
    let mut i: usize = 0;
    while i < text.len()
        invariant
            i <= text.len(),
            views(parts@).push(current@) == split_on(text@.take(i as int), sep),
        decreases text.len() - i,
    {
        let c = text[i];
        proof {
            let seen = text@.take(i as int);
            let next = text@.take(i as int + 1);
            assert(next.drop_last() == seen);
            assert(next.last() == c);
            assert(views(parts@).push(current@).drop_last() == views(parts@));
        }
        if c == sep {
            proof {
                assert(views(parts@.push(current)) == views(parts@).push(current@));
            }
            parts.push(current);
            current = Vec::new();
        } else {
            current.push(c);
        }
        i += 1;
    }
    proof {
        assert(text@.take(i as int) == text@);
        assert(views(parts@.push(current)) == views(parts@).push(current@));
    }
    parts.push(current);
    parts
}

/// The value of the digits of `text` from `start` on, if that tail is a
/// number no larger than `limit`.
fn magnitude(text: &Vec<char>, start: usize, limit: u64) -> (value: Option<u64>)
    requires
        start <= text.len(),
        limit <= 0x1_0000_0000,
    ensures
        match value {
            Some(v) => {
                &&& is_number(text@.subrange(start as int, text.len() as int))
                &&& number_value(text@.subrange(start as int, text.len() as int)) == v
                &&& v <= limit
            },
            None => !(is_number(text@.subrange(start as int, text.len() as int)) && number_value(
                text@.subrange(start as int, text.len() as int),
            ) <= limit),
        },
{
    let ghost tail = text@.subrange(start as int, text.len() as int);
    if start == text.len() {
        return None;
    }
    let mut value: u64 = 0;
    let mut i: usize = start;
    while i < text.len()
        invariant
            start <= i <= text.len(),
            limit <= 0x1_0000_0000,
            tail == text@.subrange(start as int, text.len() as int),
            forall|j: int| 0 <= j < i - start ==> is_digit(#[trigger] tail[j]),
            value == number_value(tail.take(i - start)),
            value <= limit,
        decreases text.len() - i,
    {
        let c = text[i];
        assert(tail[i - start] == c);
        if !('0' <= c && c <= '9') {
            return None;
        }
        let d: u64 = (c as u32 - '0' as u32) as u64;
        proof {
            let next = tail.take(i - start + 1);
            assert(next.drop_last() == tail.take(i - start));
            assert(next.last() == c);
        }
        value = value * 10 + d;
        if value > limit {
            proof {
                if is_number(tail) {
                    lemma_number_value_grows(tail, i - start + 1);
                }
            }
            return None;
        }
        i += 1;
    }
    proof {
        assert(tail.take(i - start) == tail);
    }
    Some(value)
}

/// Reads an unsigned 32-bit decimal number.
pub fn parse_u32(text: &Vec<char>) -> (number: Option<u32>)
    ensures
        number == unsigned_of(text@),
{
    let start: usize = if text.len() > 0 && text[0] == '+' {
        1
    } else {
        0
    };
    assert(text@.subrange(start as int, text.len() as int) == without_plus(text@));
    match magnitude(text, start, 0xffff_ffff) {
        Some(value) => Some(value as u32),
        None => None,
    }
}

/// Reads a signed 32-bit decimal number.
pub fn parse_i32(text: &Vec<char>) -> (number: Option<i32>)
    ensures
        number == signed_of(text@),
{
    let negative = text.len() > 0 && text[0] == '-';
    let start: usize = if text.len() > 0 && (text[0] == '+' || text[0] == '-') {
        1
    } else {
        0
    };
    assert(text@.subrange(start as int, text.len() as int) == without_sign(text@));
    if negative {
        match magnitude(text, start, 0x8000_0000) {
            Some(value) => Some((-(value as i64)) as i32),
            None => None,
        }
    } else {
        match magnitude(text, start, 0x7fff_ffff) {
            Some(value) => Some(value as i32),
            None => None,
        }
    }
}

/// The one-character text of a digit.
fn digit_text(d: u64) -> (text: &'static str)
    requires
        d < 10,
    ensures
        text@ == seq![digit_char(d as int)],
{
    proof {
        reveal_strlit("0");
        reveal_strlit("1");
        reveal_strlit("2");
        reveal_strlit("3");
        reveal_strlit("4");
        reveal_strlit("5");
        reveal_strlit("6");
        reveal_strlit("7");
        reveal_strlit("8");
        reveal_strlit("9");
    }
    let text = if d == 0 {
        "0"
    } else if d == 1 {
        "1"
    } else if d == 2 {
        "2"
    } else if d == 3 {
        "3"
    } else if d == 4 {
        "4"
    } else if d == 5 {
        "5"
    } else if d == 6 {
        "6"
    } else if d == 7 {
        "7"
    } else if d == 8 {
        "8"
    } else {
        "9"
    };
    assert(text@ =~= seq![digit_char(d as int)]);
    text
}

/// Appends the digits of `n` to `out`.
fn push_digits(out: &mut String, n: u64)
    ensures
        final(out)@ == old(out)@ + digits_of(n as nat),
    decreases n,
{
    if n >= 10 {
        push_digits(out, n / 10);
    }
    out.append(digit_text(n % 10));
}

/// Writes an integer in decimal notation.
pub fn decimal(n: i32) -> (text: String)
    ensures
        text@ == decimal_of(n as int),
{
    let mut text = String::new();
    if n < 0 {
        proof {
            reveal_strlit("-");
        }
        text.append("-");
        push_digits(&mut text, (-(n as i64)) as u64);
    } else {
        push_digits(&mut text, n as u64);
    }
    text
}

} // verus!
