//! The texts that the cache writes and compares.
use vstd::prelude::*;

verus! {

/// `String::push` appends one character to the end of the string.
pub assume_specification[ String::push ](text: &mut String, character: char)
    ensures
        final(text)@ == old(text)@.push(character),
;

/// The character of a decimal digit.
pub open spec fn digit(value: nat) -> char {
    (0x30 + value) as char
}

/// A number in decimal, without leading zeros.
pub open spec fn decimal_text(value: nat) -> Seq<char>
    decreases value,
{
    if value < 10 {
        seq![digit(value)]
    } else {
        decimal_text(value / 10).push(digit(value % 10))
    }
}

/// Writes a number in decimal.
pub fn decimal(value: u64) -> (text: String)
    ensures
        text@ == decimal_text(value as nat),
    decreases value,
{
    let mut text = if value < 10 {
        String::new()
    } else {
        decimal(value / 10)
    };
    let last: u8 = 0x30 + (value % 10) as u8;
    text.push(last as char);
    assert(value < 10 ==> text@ =~= seq![digit(value as nat)]);
    text
}

/// Two numbers with the same decimal text are the same number.
pub proof fn decimal_text_tells_numbers_apart(left: nat, right: nat)
    requires
        decimal_text(left) == decimal_text(right),
    ensures
        left == right,
    decreases left,
{
    decimal_text_is_not_empty(left / 10);
    decimal_text_is_not_empty(right / 10);
    assert(decimal_text(left).last() == digit(left % 10));
    assert(decimal_text(right).last() == digit(right % 10));
    assert(left % 10 == right % 10);
    if left >= 10 && right >= 10 {
        assert(decimal_text(left).drop_last() =~= decimal_text(left / 10));
        assert(decimal_text(right).drop_last() =~= decimal_text(right / 10));
        decimal_text_tells_numbers_apart(left / 10, right / 10);
    }
}

/// No number has an empty text, and every character of a number's text is a digit.
pub proof fn decimal_text_is_not_empty(value: nat)
    ensures
        decimal_text(value).len() > 0,
        forall|i: int|
            0 <= i < decimal_text(value).len() ==> '0' <= #[trigger] decimal_text(value)[i] <= '9',
    decreases value,
{
    if value >= 10 {
        decimal_text_is_not_empty(value / 10);
    }
}

/// The text of a number of 64 bits has at most twenty digits.
pub proof fn decimal_text_is_short(value: u64)
    ensures
        decimal_text(value as nat).len() <= 20,
{
    reveal_with_fuel(decimal_text, 21);
}

/// The lower-case character of a hexadecimal digit.
pub open spec fn hex_digit(value: int) -> char {
    if value < 10 {
        (0x30 + value) as char
    } else {
        (0x57 + value) as char
    }
}

/// Bytes in lower-case hexadecimal, two digits each.
pub open spec fn lower_hex_text(bytes: Seq<u8>) -> Seq<char>
    decreases bytes.len(),
{
    if bytes.len() == 0 {
        Seq::empty()
    } else {
        lower_hex_text(bytes.drop_last()).push(hex_digit(bytes.last() as int / 16)).push(
            hex_digit(bytes.last() as int % 16),
        )
    }
}

fn hex_character(value: u8) -> (character: char)
    requires
        value < 16,
    ensures
        character == hex_digit(value as int),
{
    if value < 10 {
        (0x30 + value) as char
    } else {
        (0x57 + value) as char
    }
}

/// Writes bytes in lower-case hexadecimal.
pub fn lower_hex(bytes: &[u8]) -> (text: String)
    ensures
        text@ == lower_hex_text(bytes@),
{
    let mut text = String::new();
    let mut next: usize = 0;
    while next < bytes.len()
        invariant
            next <= bytes@.len(),
            text@ == lower_hex_text(bytes@.take(next as int)),
        decreases bytes@.len() - next,
    {
        assert(bytes@.take(next + 1).drop_last() =~= bytes@.take(next as int));
        let byte: u8 = bytes[next];
        text.push(hex_character(byte / 16));
        text.push(hex_character(byte % 16));
        next += 1;
    }
    assert(bytes@.take(next as int) =~= bytes@);
    text
}

/// Hexadecimal text has two characters per byte, each of them a digit or one of `a` to `f`.
pub proof fn lower_hex_text_is_hexadecimal(bytes: Seq<u8>)
    ensures
        lower_hex_text(bytes).len() == 2 * bytes.len(),
        forall|i: int|
            0 <= i < lower_hex_text(bytes).len() ==> {
                ||| '0' <= #[trigger] lower_hex_text(bytes)[i] <= '9'
                ||| 'a' <= lower_hex_text(bytes)[i] <= 'f'
            },
    decreases bytes.len(),
{
    if bytes.len() > 0 {
        lower_hex_text_is_hexadecimal(bytes.drop_last());
    }
}

/// What stands for a character once square brackets are percent encoded.
pub open spec fn escaped_character(character: char) -> Seq<char> {
    if character == '[' {
        seq!['%', '5', 'B']
    } else if character == ']' {
        seq!['%', '5', 'D']
    } else {
        seq![character]
    }
}

/// `text` with its square brackets percent encoded.
pub open spec fn escaped_text(text: Seq<char>) -> Seq<char>
    decreases text.len(),
{
    if text.len() == 0 {
        Seq::empty()
    } else {
        escaped_text(text.drop_last()) + escaped_character(text.last())
    }
}

/// Percent encodes the square brackets of a text, and nothing else.
pub fn escape_square_brackets(text: &str) -> (escaped: String)
    ensures
        escaped@ == escaped_text(text@),
{
    let length: usize = text.unicode_len();
    let mut escaped = String::new();
    let mut next: usize = 0;
    while next < length
        invariant
            next <= length == text@.len(),
            escaped@ == escaped_text(text@.take(next as int)),
        decreases length - next,
    {
        assert(text@.take(next + 1).drop_last() =~= text@.take(next as int));
        let ghost before = escaped@;
        let character = text.get_char(next);
        if character == '[' {
            escaped.push('%');
            escaped.push('5');
            escaped.push('B');
        } else if character == ']' {
            escaped.push('%');
            escaped.push('5');
            escaped.push('D');
        } else {
            escaped.push(character);
        }
        assert(escaped@ =~= before + escaped_character(character));
        next += 1;
    }
    assert(text@.take(next as int) =~= text@);
    escaped
}

/// An escaped text holds no square bracket, and escaping it again changes nothing.
pub proof fn escaped_text_holds_no_bracket(text: Seq<char>)
    ensures
        !escaped_text(text).contains('['),
        !escaped_text(text).contains(']'),
        escaped_text(escaped_text(text)) == escaped_text(text),
    decreases text.len(),
{
    let escaped = escaped_text(text);
    if text.len() > 0 {
        escaped_text_holds_no_bracket(text.drop_last());
        let before = escaped_text(text.drop_last());
        assert forall|i: int| 0 <= i < escaped.len() implies escaped[i] != '[' && escaped[i] != ']' by {
            if i < before.len() {
                assert(before.contains(before[i]));
            }
        }
    }
    escaped_text_keeps_the_rest(escaped);
}

/// A text without square brackets is its own escaped text.
pub proof fn escaped_text_keeps_the_rest(text: Seq<char>)
    requires
        !text.contains('['),
        !text.contains(']'),
    ensures
        escaped_text(text) == text,
    decreases text.len(),
{
    if text.len() > 0 {
        let shorter = text.drop_last();
        assert forall|i: int| 0 <= i < shorter.len() implies shorter[i] != '[' && shorter[i] != ']' by {
            assert(text.contains(text[i]));
        }
        escaped_text_keeps_the_rest(shorter);
        assert(text.contains(text.last()));
        assert(shorter + seq![text.last()] =~= text);
    }
}

/// Escaping an ASCII text gives an ASCII text that is at least as long and at most three times.
pub proof fn escaped_text_stays_ascii(text: Seq<char>)
    requires
        vstd::utf8::is_ascii_chars(text),
    ensures
        vstd::utf8::is_ascii_chars(escaped_text(text)),
        text.len() <= escaped_text(text).len() <= 3 * text.len(),
    decreases text.len(),
{
    if text.len() > 0 {
        escaped_text_stays_ascii(text.drop_last());
    }
}

/// The number that decimal digits stand for.
pub open spec fn decimal_value(digits: Seq<char>) -> int
    decreases digits.len(),
{
    if digits.len() == 0 {
        0
    } else {
        10 * decimal_value(digits.drop_last()) + (digits.last() as int - 0x30)
    }
}

/// The text of a number is made of digits that stand for the number, and has no leading zero but
/// for the number zero.
pub proof fn decimal_text_stands_for_number(value: nat)
    ensures
        decimal_value(decimal_text(value)) == value,
        decimal_text(value).len() > 0,
        forall|i: int|
            0 <= i < decimal_text(value).len() ==> '0' <= #[trigger] decimal_text(value)[i] <= '9',
        decimal_text(value)[0] == '0' ==> value == 0 && decimal_text(value).len() == 1,
    decreases value,
{
    decimal_text_is_not_empty(value);
    if value < 10 {
        assert(decimal_text(value).drop_last() =~= Seq::<char>::empty());
        reveal_with_fuel(decimal_value, 2);
    } else {
        decimal_text_stands_for_number(value / 10);
        assert(decimal_text(value).drop_last() =~= decimal_text(value / 10));
        assert(decimal_text(value)[0] == decimal_text(value / 10)[0]);
    }
}

/// The two digits of each byte stand for that byte, the higher half first.
pub proof fn lower_hex_text_stands_for_bytes(bytes: Seq<u8>, index: int)
    requires
        0 <= index < bytes.len(),
    ensures
        ({
            let high = lower_hex_text(bytes)[2 * index] as int;
            let low = lower_hex_text(bytes)[2 * index + 1] as int;
            let high_value = if high <= 0x39 {
                high - 0x30
            } else {
                high - 0x57
            };
            let low_value = if low <= 0x39 {
                low - 0x30
            } else {
                low - 0x57
            };
            &&& 0x30 <= high <= 0x39 || 0x61 <= high <= 0x66
            &&& 0x30 <= low <= 0x39 || 0x61 <= low <= 0x66
            &&& 16 * high_value + low_value == bytes[index]
        }),
    decreases bytes.len(),
{
    let shorter = bytes.drop_last();
    lower_hex_text_is_hexadecimal(shorter);
    if index < shorter.len() {
        lower_hex_text_stands_for_bytes(shorter, index);
        assert(lower_hex_text(bytes)[2 * index] == lower_hex_text(shorter)[2 * index]);
        assert(lower_hex_text(bytes)[2 * index + 1] == lower_hex_text(shorter)[2 * index + 1]);
    }
}

/// Different bytes have different hexadecimal texts.
pub proof fn lower_hex_text_tells_bytes_apart(left: Seq<u8>, right: Seq<u8>)
    requires
        lower_hex_text(left) == lower_hex_text(right),
    ensures
        left == right,
{
    lower_hex_text_is_hexadecimal(left);
    lower_hex_text_is_hexadecimal(right);
    assert forall|i: int| 0 <= i < left.len() implies left[i] == right[i] by {
        lower_hex_text_stands_for_bytes(left, i);
        lower_hex_text_stands_for_bytes(right, i);
    }
    assert(left =~= right);
}

/// Escaping goes character by character.
pub proof fn escaped_text_of_sum(left: Seq<char>, right: Seq<char>)
    ensures
        escaped_text(left + right) == escaped_text(left) + escaped_text(right),
    decreases right.len(),
{
    if right.len() == 0 {
        assert(left + right =~= left);
        assert(escaped_text(left) + escaped_text(right) =~= escaped_text(left));
    } else {
        assert((left + right).drop_last() =~= left + right.drop_last());
        escaped_text_of_sum(left, right.drop_last());
        assert(escaped_text(left + right) =~= escaped_text(left) + escaped_text(right));
    }
}

/// A bracket becomes its percent encoding, and every other character stays.
pub proof fn escaped_text_of_character(character: char)
    ensures
        character == '[' ==> escaped_text(seq![character]) == "%5B"@,
        character == ']' ==> escaped_text(seq![character]) == "%5D"@,
        character != '[' && character != ']' ==> escaped_text(seq![character]) == seq![character],
{
    reveal_strlit("%5B");
    reveal_strlit("%5D");
    reveal_with_fuel(escaped_text, 2);
    assert(seq![character].drop_last() =~= Seq::<char>::empty());
    assert(escaped_text(seq![character]) =~= escaped_character(character));
    assert(character == '[' ==> escaped_character(character) =~= "%5B"@);
    assert(character == ']' ==> escaped_character(character) =~= "%5D"@);
}

} // verus!
