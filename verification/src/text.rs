//! Text: decimal numbers, trimming, comparing and joining.
use vstd::prelude::*;

verus! {

/// The character of a decimal digit.
pub open spec fn digit_char(digit: int) -> char {
    if digit == 0 {
        '0'
    } else if digit == 1 {
        '1'
    } else if digit == 2 {
        '2'
    } else if digit == 3 {
        '3'
    } else if digit == 4 {
        '4'
    } else if digit == 5 {
        '5'
    } else if digit == 6 {
        '6'
    } else if digit == 7 {
        '7'
    } else if digit == 8 {
        '8'
    } else {
        '9'
    }
}

/// A number in decimal notation, without leading zeros.
pub open spec fn decimal(number: nat) -> Seq<char>
    decreases number,
{
    if number < 10 {
        seq![digit_char(number as int)]
    } else {
        decimal(number / 10).push(digit_char((number % 10) as int))
    }
}

/// Writes a decimal digit.
pub(crate) fn digit_text(digit: u64) -> (res: &'static str)
    requires
        digit < 10,
    ensures
        res@ == seq![digit_char(digit as int)],
{
    proof {
        reveal_strlit("0");
        reveal_strlit("1");
        reveal_strlit("2");
        reveal_strlit("3");
        reveal_strlit("4");
        reveal_strlit("5");
        reveal_strlit("6");
        reveal_strlit("7");
        reveal_strlit("8");
        reveal_strlit("9");
    }
    if digit == 0 {
        "0"
    } else if digit == 1 {
        "1"
    } else if digit == 2 {
        "2"
    } else if digit == 3 {
        "3"
    } else if digit == 4 {
        "4"
    } else if digit == 5 {
        "5"
    } else if digit == 6 {
        "6"
    } else if digit == 7 {
        "7"
    } else if digit == 8 {
        "8"
    } else {
        "9"
    }
}

/// Writes a number in decimal notation.
pub fn decimal_text(number: u64) -> (res: String)
    ensures
        res@ == decimal(number as nat),
    decreases number,
{
    if number < 10 {
        let res = digit_text(number).to_owned();
        assert(res@ =~= decimal(number as nat));
        res
    } else {
        let mut res = decimal_text(number / 10);
        res.append(digit_text(number % 10));
        assert(res@ =~= decimal(number as nat));
        res
    }
}

/// The number of digits of a number in decimal notation.
pub fn decimal_digits(number: u64) -> (res: usize)
    ensures
        res == decimal(number as nat).len(),
        1 <= res <= 20,
{
    let mut rest: u64 = number;
    let mut count: usize = 1;
    proof {
        decimal_length_is_bounded(number as nat, 20);
    }
    while rest >= 10
        invariant
            1 <= count <= 20,
            decimal(number as nat).len() == count - 1 + decimal(rest as nat).len(),
            decimal(number as nat).len() <= 20,
        decreases rest,
    {
        proof {
            decimal_is_nonempty((rest / 10) as nat);
        }
        rest = rest / 10;
        count += 1;
    }
    count
}

proof fn decimal_is_nonempty(number: nat)
    ensures
        decimal(number).len() >= 1,
    decreases number,
{
    if number >= 10 {
        decimal_is_nonempty(number / 10);
    }
}

/// Ten to a power.
pub open spec fn ten_to(exponent: nat) -> nat
    decreases exponent,
{
    if exponent == 0 {
        1
    } else {
        10 * ten_to((exponent - 1) as nat)
    }
}

/// A number below ten to `digits` has at most that many digits.
pub proof fn decimal_length_is_bounded(number: nat, digits: nat)
    requires
        digits >= 1,
        number < ten_to(digits) || digits == 20 && number <= u64::MAX,
    ensures
        1 <= decimal(number).len() <= digits,
    decreases digits,
{
    reveal_with_fuel(ten_to, 21);
    if number >= 10 {
        assert(digits >= 2);
        assert(number / 10 < ten_to((digits - 1) as nat));
        decimal_length_is_bounded(number / 10, (digits - 1) as nat);
    }
}

/// A number of at least ten to `digits` has more digits than that.
pub proof fn decimal_length_grows(number: nat, digits: nat)
    requires
        number >= ten_to(digits),
    ensures
        decimal(number).len() > digits,
    decreases digits,
{
    decimal_is_nonempty(number);
    if digits >= 1 {
        reveal_with_fuel(ten_to, 2);
        ten_to_is_positive((digits - 1) as nat);
        assert(number >= 10);
        assert(number / 10 >= ten_to((digits - 1) as nat));
        decimal_length_grows(number / 10, (digits - 1) as nat);
    }
}

proof fn ten_to_is_positive(exponent: nat)
    ensures
        ten_to(exponent) >= 1,
    decreases exponent,
{
    if exponent > 0 {
        ten_to_is_positive((exponent - 1) as nat);
    }
}

/// Whether a character counts as white space.
pub open spec fn is_white_space(c: char) -> bool {
    ||| 0x9 <= c as u32 <= 0xD
    ||| c as u32 == 0x20
    ||| c as u32 == 0x85
    ||| c as u32 == 0xA0
    ||| c as u32 == 0x1680
    ||| 0x2000 <= c as u32 <= 0x200A
    ||| c as u32 == 0x2028
    ||| c as u32 == 0x2029
    ||| c as u32 == 0x202F
    ||| c as u32 == 0x205F
    ||| c as u32 == 0x3000
}

/// Whether a character counts as white space.
pub fn is_space(c: char) -> (res: bool)
    ensures
        res == is_white_space(c),
{
    let code: u32 = c as u32;
    (0x9 <= code && code <= 0xD) || code == 0x20 || code == 0x85 || code == 0xA0 || code == 0x1680
        || (0x2000 <= code && code <= 0x200A) || code == 0x2028 || code == 0x2029 || code == 0x202F
        || code == 0x205F || code == 0x3000
}

/// The number of leading white space characters.
pub open spec fn leading_space(text: Seq<char>) -> int
    decreases text.len(),
{
    if text.len() == 0 || !is_white_space(text[0]) {
        0
    } else {
        1 + leading_space(text.drop_first())
    }
}

/// The number of trailing white space characters.
pub open spec fn trailing_space(text: Seq<char>) -> int
    decreases text.len(),
{
    if text.len() == 0 || !is_white_space(text.last()) {
        0
    } else {
        1 + trailing_space(text.drop_last())
    }
}

/// The text without white space around it.
pub open spec fn trimmed(text: Seq<char>) -> Seq<char> {
    let rest = text.skip(leading_space(text));
    rest.take(rest.len() - trailing_space(rest))
}

/// Whether a text holds nothing but white space.
pub open spec fn is_blank(text: Seq<char>) -> bool {
    forall|i: int| 0 <= i < text.len() ==> is_white_space(#[trigger] text[i])
}

proof fn leading_space_is(text: Seq<char>, count: int)
    requires
        0 <= count <= text.len(),
        forall|i: int| 0 <= i < count ==> is_white_space(#[trigger] text[i]),
        count < text.len() ==> !is_white_space(text[count]),
    ensures
        leading_space(text) == count,
    decreases count,
{
    if count > 0 {
        let rest = text.drop_first();
        assert forall|i: int| 0 <= i < count - 1 implies is_white_space(#[trigger] rest[i]) by {
            assert(rest[i] == text[i + 1]);
        }
        leading_space_is(rest, count - 1);
        assert(is_white_space(text[0]));
    }
}

proof fn trailing_space_is(text: Seq<char>, count: int)
    requires
        0 <= count <= text.len(),
        forall|i: int|
            text.len() - count <= i < text.len() ==> is_white_space(#[trigger] text[i]),
        count < text.len() ==> !is_white_space(text[text.len() - count - 1]),
    ensures
        trailing_space(text) == count,
    decreases count,
{
    if count > 0 {
        let rest = text.drop_last();
        assert forall|i: int| rest.len() - (count - 1) <= i < rest.len() implies is_white_space(
            #[trigger] rest[i],
        ) by {
            assert(rest[i] == text[i]);
        }
        trailing_space_is(rest, count - 1);
        assert(is_white_space(text[text.len() - 1]));
    }
}

/// A text is blank exactly when trimming leaves nothing.
pub proof fn blank_texts_trim_to_nothing(text: Seq<char>)
    ensures
        is_blank(text) == (trimmed(text).len() == 0),
{
    if is_blank(text) {
        leading_space_is(text, text.len() as int);
        assert(text.skip(text.len() as int).len() == 0);
    } else {
        let start = first_solid(text, 0);
        leading_space_is(text, start);
        let rest = text.skip(start);
        assert(!is_white_space(rest[0]));
        trailing_space_leaves_solid(rest, 0);
    }
}

proof fn first_solid(text: Seq<char>, from: int) -> (at: int)
    requires
        0 <= from <= text.len(),
        forall|i: int| 0 <= i < from ==> is_white_space(#[trigger] text[i]),
        !is_blank(text),
    ensures
        from <= at < text.len(),
        !is_white_space(text[at]),
        forall|i: int| 0 <= i < at ==> is_white_space(#[trigger] text[i]),
    decreases text.len() - from,
{
    if from < text.len() && !is_white_space(text[from]) {
        from
    } else {
        assert(from < text.len());
        first_solid(text, from + 1)
    }
}

proof fn trailing_space_leaves_solid(text: Seq<char>, at: int)
    requires
        0 <= at < text.len(),
        !is_white_space(text[at]),
    ensures
        0 <= trailing_space(text) < text.len() - at,
    decreases text.len(),
{
    if is_white_space(text.last()) {
        trailing_space_leaves_solid(text.drop_last(), at);
    }
}

/// Takes the white space around a text away.
pub fn trim(text: &str) -> (res: &str)
    ensures
        res@ == trimmed(text@),
{
    let length: usize = text.unicode_len();
    let mut start: usize = 0;
    while start < length && is_space(text.get_char(start))
        invariant
            start <= length,
            length == text@.len(),
            forall|i: int| 0 <= i < start ==> is_white_space(#[trigger] text@[i]),
        decreases length - start,
    {
        start += 1;
    }
    let mut end: usize = length;
    while end > start && is_space(text.get_char(end - 1))
        invariant
            start <= end <= length,
            length == text@.len(),
            forall|i: int| end <= i < length ==> is_white_space(#[trigger] text@[i]),
        decreases end,
    {
        end -= 1;
    }
    proof {
        leading_space_is(text@, start as int);
        let rest = text@.skip(start as int);
        assert forall|i: int| rest.len() - (length - end) <= i < rest.len() implies is_white_space(
            #[trigger] rest[i],
        ) by {
            assert(rest[i] == text@[i + start]);
        }
        if end > start {
            assert(rest[end - start - 1] == text@[end - 1]);
        }
        trailing_space_is(rest, length - end);
        assert(text@.subrange(start as int, end as int) =~= trimmed(text@));
    }
    text.substring_char(start, end)
}

/// Whether trimming leaves nothing of a text.
pub fn is_blank_text(text: &str) -> (res: bool)
    ensures
        res == is_blank(text@),
{
    proof {
        blank_texts_trim_to_nothing(text@);
    }
    trim(text).unicode_len() == 0
}

/// Whether two texts are equal.
pub fn text_eq(a: &str, b: &str) -> (res: bool)
    ensures
        res == (a@ == b@),
{
    a.to_owned() == b.to_owned()
}

/// Whether a text begins with a prefix.
pub fn begins_with(text: &str, prefix: &str) -> (res: bool)
    ensures
        res == (prefix@.len() <= text@.len() && text@.take(prefix@.len() as int) == prefix@),
{
    let length: usize = prefix.unicode_len();
    if length > text.unicode_len() {
        return false;
    }
    text_eq(text.substring_char(0, length), prefix)
}

/// The value of a run of decimal digits; nothing for an empty run or another character.
pub open spec fn digits_value(text: Seq<char>) -> Option<nat>
    decreases text.len(),
{
    if text.len() == 0 {
        None
    } else if !('0' <= text.last() <= '9') {
        None
    } else if text.len() == 1 {
        Some((text[0] as u32 - '0' as u32) as nat)
    } else {
        match digits_value(text.drop_last()) {
            None => None,
            Some(value) => Some(10 * value + (text.last() as u32 - '0' as u32) as nat),
        }
    }
}

/// The number that a text writes: digits, with a plus sign in front or without.
pub open spec fn written_number(text: Seq<char>) -> Option<nat> {
    if text.len() > 0 && text[0] == '+' {
        digits_value(text.skip(1))
    } else {
        digits_value(text)
    }
}

proof fn longer_digits_are_larger(text: Seq<char>, count: int)
    requires
        0 < count <= text.len(),
        digits_value(text) is Some,
    ensures
        digits_value(text.take(count)) is Some,
        digits_value(text.take(count))->0 <= digits_value(text)->0,
    decreases text.len(),
{
    if count == text.len() {
        assert(text.take(count) =~= text);
    } else {
        longer_digits_are_larger(text.drop_last(), count);
        assert(text.drop_last().take(count) =~= text.take(count));
    }
}

proof fn bad_digit_spoils_all(text: Seq<char>, at: int)
    requires
        0 <= at < text.len(),
        !('0' <= text[at] <= '9'),
    ensures
        digits_value(text) is None,
    decreases text.len(),
{
    if at < text.len() - 1 {
        bad_digit_spoils_all(text.drop_last(), at);
    }
}

/// Reads a number that fits in a machine word.
pub fn parse_number(text: &str) -> (res: Option<usize>)
    ensures
        match res {
            Some(number) => written_number(text@) == Some(number as nat),
            None => written_number(text@) is None || written_number(text@)->0 > usize::MAX,
        },
{
    let length: usize = text.unicode_len();
    if length == 0 {
        return None;
    }
    let start: usize = if text.get_char(0) == '+' {
        1
    } else {
        0
    };
    let ghost digits = text@.skip(start as int);
    assert(start == 0 ==> digits =~= text@);
    assert(written_number(text@) == digits_value(digits));
    if start == length {
        return None;
    }
    let mut value: usize = 0;
    let mut i: usize = start;
    while i < length
        invariant
            start <= i <= length,
            start < length,
            length == text@.len(),
            digits == text@.skip(start as int),
            written_number(text@) == digits_value(digits),
            i > start ==> digits_value(digits.take(i - start)) == Some(value as nat),
            i == start ==> value == 0,
        decreases length - i,
    {
        let c: char = text.get_char(i);
        assert(digits[i - start] == c);
        if !('0' <= c && c <= '9') {
            proof {
                bad_digit_spoils_all(digits, i - start);
            }
            return None;
        }
        let digit: usize = (c as u32 - '0' as u32) as usize;
        let ghost next = digits.take(i - start + 1);
        proof {
            assert(next.drop_last() =~= digits.take(i - start));
            assert(next.last() == c);
            if i == start {
                assert(next[0] == c);
            }
            assert(digits_value(next) == Some((10 * value + digit) as nat));
        }
        let scaled: usize = match value.checked_mul(10) {
            None => {
                proof {
                    if digits_value(digits) is Some {
                        longer_digits_are_larger(digits, i - start + 1);
                    }
                }
                return None;
            },
            Some(scaled) => scaled,
        };
        value = match scaled.checked_add(digit) {
            None => {
                proof {
                    if digits_value(digits) is Some {
                        longer_digits_are_larger(digits, i - start + 1);
                    }
                }
                return None;
            },
            Some(sum) => sum,
        };
        i += 1;
    }
    assert(digits.take(i - start) =~= digits);
    Some(value)
}

/// The texts one after another, with a separator between them.
pub open spec fn joined(parts: Seq<Seq<char>>, separator: Seq<char>) -> Seq<char>
    decreases parts.len(),
{
    if parts.len() == 0 {
        seq![]
    } else if parts.len() == 1 {
        parts[0]
    } else {
        joined(parts.drop_last(), separator) + separator + parts.last()
    }
}

/// What a list of strings holds.
pub open spec fn string_views(strings: Seq<String>) -> Seq<Seq<char>> {
    Seq::new(strings.len(), |i: int| strings[i]@)
}

/// Joins texts with a separator between them.
pub fn join(parts: &Vec<String>, separator: &str) -> (res: String)
    ensures
        res@ == joined(string_views(parts@), separator@),
{
    let ghost all = string_views(parts@);
    let mut res = String::new();
    let mut i: usize = 0;
    assert(res@ =~= joined(all.take(0), separator@));
    while i < parts.len()
        invariant
            i <= parts.len(),
            all == string_views(parts@),
            res@ == joined(all.take(i as int), separator@),
        decreases parts.len() - i,
    {
        let ghost before = res@;
        let ghost next = all.take(i + 1);
        proof {
            assert(next.drop_last() =~= all.take(i as int));
            assert(next.last() == parts@[i as int]@);
        }
        if i > 0 {
            res.append(separator);
        } else {
            assert(before.len() == 0);
        }
        res.append(parts[i].as_str());
        assert(res@ =~= joined(next, separator@));
        i += 1;
    }
    assert(all.take(i as int) =~= all);
    res
}

/// Appends a text.
pub fn with_text(prefix: &str, detail: &str) -> (res: String)
    ensures
        res@ == prefix@ + detail@,
{
    let mut res = prefix.to_owned();
    res.append(detail);
    res
}

/// The digits of a number read back as the number.
pub proof fn written_numbers_read_back(number: nat)
    ensures
        digits_value(decimal(number)) == Some(number),
        written_number(decimal(number)) == Some(number),
        number > 0 ==> decimal(number)[0] != '0',
        decimal(number).len() > 0,
        forall|i: int| 0 <= i < decimal(number).len() ==> '0' <= #[trigger] decimal(number)[i] <= '9',
    decreases number,
{
    reveal_with_fuel(digits_value, 2);
    if number >= 10 {
        written_numbers_read_back(number / 10);
        let front = decimal(number / 10);
        assert(decimal(number).drop_last() =~= front);
        assert(decimal(number)[0] == front[0]);
    }
}

/// Each further digit counts ten times less than the one before it.
pub proof fn digits_count_in_tens(text: Seq<char>, digit: char)
    requires
        '0' <= digit <= '9',
    ensures
        digits_value(seq![digit]) == Some((digit as u32 - '0' as u32) as nat),
        digits_value(text) is Some ==> digits_value(text.push(digit)) == Some(
            10 * digits_value(text)->0 + (digit as u32 - '0' as u32) as nat,
        ),
{
    reveal_with_fuel(digits_value, 2);
    assert(text.push(digit).drop_last() =~= text);
}

/// A text is a number exactly if it is made of digits, of which there is at least one.
pub proof fn numbers_are_made_of_digits(text: Seq<char>)
    ensures
        digits_value(text) is Some <==> text.len() > 0 && forall|i: int|
            0 <= i < text.len() ==> '0' <= #[trigger] text[i] <= '9',
    decreases text.len(),
{
    if text.len() > 0 {
        let front = text.drop_last();
        let last = text[text.len() - 1];
        numbers_are_made_of_digits(front);
        assert forall|i: int| 0 <= i < front.len() implies #[trigger] front[i] == text[i] by {}
        if forall|i: int| 0 <= i < text.len() ==> '0' <= #[trigger] text[i] <= '9' {
            assert('0' <= last <= '9');
        }
        if digits_value(text) is Some {
            assert forall|i: int| 0 <= i < text.len() implies '0' <= #[trigger] text[i] <= '9' by {
                if i < front.len() {
                    assert('0' <= front[i] <= '9');
                }
            }
        }
    }
}

/// One plus sign in front of a number changes nothing.
pub proof fn a_plus_sign_changes_nothing(text: Seq<char>)
    requires
        digits_value(text) is Some,
    ensures
        written_number(seq!['+'] + text) == digits_value(text),
        written_number(text) == digits_value(text),
{
    numbers_are_made_of_digits(text);
    assert((seq!['+'] + text).skip(1) =~= text);
    assert('0' <= text[0] <= '9');
}

/// Trimming takes white space away at both ends and nothing else: what is left stands in the text
/// as it was, between white space, and starts and ends with something visible.
pub proof fn trimming_takes_only_outer_space(text: Seq<char>)
    ensures
        ({
            let start = leading_space(text);
            let end = start + trimmed(text).len();
            &&& 0 <= start <= end <= text.len()
            &&& trimmed(text) == text.subrange(start, end)
            &&& is_blank(text.take(start))
            &&& is_blank(text.skip(end))
            &&& trimmed(text).len() > 0 ==> !is_white_space(trimmed(text)[0]) && !is_white_space(
                trimmed(text).last(),
            )
        }),
{
    leading_space_ends(text);
    let start = leading_space(text);
    let rest = text.skip(start);
    trailing_space_ends(rest);
    let behind = trailing_space(rest);
    let end = start + trimmed(text).len();
    assert(trimmed(text) =~= text.subrange(start, end));
    assert forall|i: int| 0 <= i < text.take(start).len() implies is_white_space(
        #[trigger] text.take(start)[i],
    ) by {
        assert(is_white_space(text[i]));
    }
    assert forall|i: int| 0 <= i < text.skip(end).len() implies is_white_space(
        #[trigger] text.skip(end)[i],
    ) by {
        assert(text.skip(end)[i] == rest[end - start + i]);
        assert(is_white_space(rest[end - start + i]));
    }
    if trimmed(text).len() > 0 {
        assert(trimmed(text)[0] == text[start]);
        assert(trimmed(text).last() == rest[rest.len() - behind - 1]);
    }
}

proof fn leading_space_ends(text: Seq<char>)
    ensures
        0 <= leading_space(text) <= text.len(),
        forall|i: int| 0 <= i < leading_space(text) ==> is_white_space(#[trigger] text[i]),
        leading_space(text) < text.len() ==> !is_white_space(text[leading_space(text)]),
    decreases text.len(),
{
    if text.len() > 0 && is_white_space(text[0]) {
        let rest = text.drop_first();
        leading_space_ends(rest);
        assert forall|i: int| 0 <= i < leading_space(text) implies is_white_space(
            #[trigger] text[i],
        ) by {
            if i > 0 {
                assert(rest[i - 1] == text[i]);
            }
        }
        if leading_space(text) < text.len() {
            assert(rest[leading_space(rest)] == text[leading_space(text)]);
        }
    }
}

proof fn trailing_space_ends(text: Seq<char>)
    ensures
        0 <= trailing_space(text) <= text.len(),
        forall|i: int|
            text.len() - trailing_space(text) <= i < text.len() ==> is_white_space(
                #[trigger] text[i],
            ),
        trailing_space(text) < text.len() ==> !is_white_space(
            text[text.len() - trailing_space(text) - 1],
        ),
    decreases text.len(),
{
    if text.len() > 0 && is_white_space(text.last()) {
        let front = text.drop_last();
        trailing_space_ends(front);
        assert forall|i: int|
            text.len() - trailing_space(text) <= i < text.len() implies is_white_space(
            #[trigger] text[i],
        ) by {
            if i < front.len() {
                assert(front[i] == text[i]);
            }
        }
        if trailing_space(text) < text.len() {
            assert(front[front.len() - trailing_space(front) - 1] == text[text.len()
                - trailing_space(text) - 1]);
        }
    }
}

/// Joined texts stand one behind the other, with the separator between any two of them.
pub proof fn joining_puts_separators_between(
    first: Seq<Seq<char>>,
    rest: Seq<Seq<char>>,
    separator: Seq<char>,
)
    requires
        first.len() > 0,
        rest.len() > 0,
    ensures
        joined(first + rest, separator) == joined(first, separator) + separator + joined(
            rest,
            separator,
        ),
        rest.len() == 1 ==> joined(rest, separator) == rest[0],
    decreases rest.len(),
{
    assert((first + rest).drop_last() =~= first + rest.drop_last());
    if rest.len() == 1 {
        assert(first + rest.drop_last() =~= first);
    } else {
        joining_puts_separators_between(first, rest.drop_last(), separator);
        assert(joined(first + rest, separator) =~= joined(first, separator) + separator + joined(
            rest,
            separator,
        ));
    }
}

/// Blanks, tabs and line breaks are white space; letters, digits and marks of the first alphabet are
/// not.
pub proof fn visible_characters_are_no_white_space(c: char)
    ensures
        c == ' ' || c == '\t' || c == '\n' || c == '\r' ==> is_white_space(c),
        '!' <= c <= '~' ==> !is_white_space(c),
        c as u32 == 0x3000 || c as u32 == 0xA0 ==> is_white_space(c),
        0x3001 <= c as u32 ==> !is_white_space(c),
{
}

/// Different digits look different.
pub proof fn digits_differ(a: int, b: int)
    requires
        0 <= a < 10,
        0 <= b < 10,
    ensures
        (digit_char(a) == digit_char(b)) == (a == b),
        digit_char(a) as u32 == '0' as u32 + a,
{
}

} // verus!
