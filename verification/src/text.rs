//! Text: decimal numerals, prefixes, and searches.
use vstd::arithmetic::power::{lemma_pow0, pow};
use vstd::prelude::*;
use vstd::utf8::{decode_utf8, valid_utf8};

verus! {

/// The character of a decimal digit.
pub open spec fn digit(value: int) -> char {
    (48 + value) as char
}

/// The decimal numeral of a number.
pub open spec fn decimal(number: nat) -> Seq<char>
    decreases number,
{
    if number < 10 {
        seq![digit(number as int)]
    } else {
        decimal(number / 10).push(digit((number % 10) as int))
    }
}

/// Whether a character is a decimal digit.
pub open spec fn is_digit(c: char) -> bool {
    '0' <= c <= '9'
}

/// Whether every character is a decimal digit.
pub open spec fn all_digits(text: Seq<char>) -> bool {
    forall|i: int| 0 <= i < text.len() ==> is_digit(#[trigger] text[i])
}

/// The number that a sequence of decimal digits stands for.
pub open spec fn numeral_value(digits: Seq<char>) -> nat
    decreases digits.len(),
{
    if digits.len() == 0 {
        0
    } else {
        10 * numeral_value(digits.drop_last()) + (digits.last() as nat - 48) as nat
    }
}

/// A numeral without the sign that may stand before it.
pub open spec fn unsigned(text: Seq<char>) -> Seq<char> {
    if text.len() > 0 && text[0] == '+' {
        text.skip(1)
    } else {
        text
    }
}

/// The number that a numeral stands for, if it is one and the number is at most `max`. A numeral is
/// one or more decimal digits, with an optional `+` before them.
pub open spec fn parsed(text: Seq<char>, max: nat) -> Option<nat> {
    let digits = unsigned(text);
    if digits.len() > 0 && all_digits(digits) && numeral_value(digits) <= max {
        Some(numeral_value(digits))
    } else {
        None
    }
}

/// Whether a text occurs in another.
pub open spec fn occurs(text: Seq<char>, part: Seq<char>) -> bool {
    exists|start: int|
        0 <= start <= text.len() - part.len() && #[trigger] text.subrange(
            start,
            start + part.len(),
        ) == part
}

/// The text without the trailing occurrences of a character.
pub open spec fn trimmed_end(text: Seq<char>, c: char) -> Seq<char>
    decreases text.len(),
{
    if text.len() > 0 && text.last() == c {
        trimmed_end(text.drop_last(), c)
    } else {
        text
    }
}

/// Whether a character is white space, by the Unicode property `White_Space`.
pub open spec fn is_space(c: char) -> bool {
    ||| '\u{9}' <= c <= '\u{d}'
    ||| c == ' ' || c == '\u{85}' || c == '\u{a0}' || c == '\u{1680}'
    ||| '\u{2000}' <= c <= '\u{200a}'
    ||| c == '\u{2028}' || c == '\u{2029}' || c == '\u{202f}' || c == '\u{205f}' || c == '\u{3000}'
}

/// The text without the white space before it.
pub open spec fn trimmed_front(text: Seq<char>) -> Seq<char>
    decreases text.len(),
{
    if text.len() > 0 && is_space(text[0]) {
        trimmed_front(text.skip(1))
    } else {
        text
    }
}

/// The text without the white space behind it.
pub open spec fn trimmed_back(text: Seq<char>) -> Seq<char>
    decreases text.len(),
{
    if text.len() > 0 && is_space(text.last()) {
        trimmed_back(text.drop_last())
    } else {
        text
    }
}

/// The text without the white space around it.
pub open spec fn trimmed(text: Seq<char>) -> Seq<char> {
    trimmed_back(trimmed_front(text))
}

/// What stands between the occurrences of a separator.
pub open spec fn split<A>(text: Seq<A>, separator: A) -> Seq<Seq<A>>
    decreases text.len(),
{
    if text.len() == 0 {
        seq![Seq::empty()]
    } else if text.last() == separator {
        split(text.drop_last(), separator).push(Seq::empty())
    } else {
        let front = split(text.drop_last(), separator);
        front.drop_last().push(front.last().push(text.last()))
    }
}

/// The texts of a list with a separator between each two of them.
pub open spec fn joined(texts: Seq<Seq<char>>, separator: Seq<char>) -> Seq<char>
    decreases texts.len(),
{
    if texts.len() == 0 {
        Seq::empty()
    } else if texts.len() == 1 {
        texts[0]
    } else {
        joined(texts.drop_last(), separator) + separator + texts.last()
    }
}

/// The texts of a list of strings.
pub open spec fn texts(strings: Seq<String>) -> Seq<Seq<char>> {
    strings.map_values(|s: String| s@)
}

/// The text of the given bytes, with the replacement character where they are no UTF-8.
pub uninterp spec fn lossy(bytes: Seq<u8>) -> Seq<char>;

/// `std::str::from_utf8`: the text whose UTF-8 encoding the given bytes are, `None` if they are not
/// the encoding of a text.
#[verifier::external_body]
pub(crate) fn utf8_text(bytes: &[u8]) -> (text: Option<&str>)
    ensures
        match text {
            Some(text) => valid_utf8(bytes@) && text@ == decode_utf8(bytes@),
            None => !valid_utf8(bytes@),
        },
{
    std::str::from_utf8(bytes).ok()
}

/// `String::from_utf8_lossy`: the text whose UTF-8 encoding the given bytes are. Where they are not
/// the encoding of a text, invalid sequences are replaced.
#[verifier::external_body]
pub(crate) fn lossy_text(bytes: &[u8]) -> (text: String)
    ensures
        text@ == lossy(bytes@),
        valid_utf8(bytes@) ==> text@ == decode_utf8(bytes@),
{
    String::from_utf8_lossy(bytes).into_owned()
}

/// Returns whether two texts are equal.
pub fn equal(left: &str, right: &str) -> (result: bool)
    ensures
        result == (left@ == right@),
{
    left.to_owned() == right.to_owned()
}

fn digit_text(value: u64) -> (text: &'static str)
    requires
        value < 10,
    ensures
        text@ == seq![digit(value as int)],
{
    proof {
        reveal_strlit("0");
        reveal_strlit("1");
        reveal_strlit("2");
        reveal_strlit("3");
        reveal_strlit("4");
        reveal_strlit("5");
        reveal_strlit("6");
        reveal_strlit("7");
        reveal_strlit("8");
        reveal_strlit("9");
    }
    let text = if value == 0 {
        "0"
    } else if value == 1 {
        "1"
    } else if value == 2 {
        "2"
    } else if value == 3 {
        "3"
    } else if value == 4 {
        "4"
    } else if value == 5 {
        "5"
    } else if value == 6 {
        "6"
    } else if value == 7 {
        "7"
    } else if value == 8 {
        "8"
    } else {
        "9"
    };
    assert(text@ =~= seq![digit(value as int)]);
    text
}

/// Returns the decimal numeral of a number.
pub fn decimal_text(number: u64) -> (text: String)
    ensures
        text@ == decimal(number as nat),
    decreases number,
{
    if number < 10 {
        digit_text(number).to_owned()
    } else {
        let mut text = decimal_text(number / 10);
        let last = digit_text(number % 10);
        text.append(last);
        assert(text@ =~= decimal(number as nat / 10).push(digit((number % 10) as int)));
        text
    }
}

/// Returns whether a text starts with another.
pub fn starts_with(text: &str, prefix: &str) -> (result: bool)
    ensures
        result == prefix@.is_prefix_of(text@),
{
    let len: usize = prefix.unicode_len();
    if text.unicode_len() < len {
        false
    } else {
        equal(text.substring_char(0, len), prefix)
    }
}

/// Returns whether a text ends with another.
pub fn ends_with(text: &str, suffix: &str) -> (result: bool)
    ensures
        result == suffix@.is_suffix_of(text@),
{
    let len: usize = suffix.unicode_len();
    let text_len: usize = text.unicode_len();
    if text_len < len {
        false
    } else {
        equal(text.substring_char(text_len - len, text_len), suffix)
    }
}

/// Returns whether a text occurs in another.
pub fn contains(text: &str, part: &str) -> (result: bool)
    ensures
        result == occurs(text@, part@),
{
    let text_len: usize = text.unicode_len();
    let part_len: usize = part.unicode_len();
    if text_len < part_len {
        return false;
    }
    let mut start: usize = 0;
    loop
        invariant
            text_len == text@.len(),
            part_len == part@.len(),
            start <= text_len - part_len,
            forall|i: int|
                0 <= i < start ==> #[trigger] text@.subrange(i, i + part_len) != part@,
        decreases text_len - start,
    {
        if equal(text.substring_char(start, start + part_len), part) {
            return true;
        }
        if start == text_len - part_len {
            return false;
        }
        start = start + 1;
    }
}

/// Returns a text without the trailing occurrences of a character.
pub fn trim_end(text: &str, c: char) -> (result: String)
    ensures
        result@ == trimmed_end(text@, c),
{
    let mut len: usize = text.unicode_len();
    assert(text@.take(len as int) =~= text@);
    while len > 0 && text.get_char(len - 1) == c
        invariant
            len <= text@.len(),
            trimmed_end(text@.take(len as int), c) == trimmed_end(text@, c),
        decreases len,
    {
        assert(text@.take(len as int).drop_last() =~= text@.take(len - 1));
        len = len - 1;
    }
    text.substring_char(0, len).to_owned()
}

/// Returns whether a character is white space.
pub fn is_white_space(c: char) -> (result: bool)
    ensures
        result == is_space(c),
{
    ('\u{9}' <= c && c <= '\u{d}') || c == ' ' || c == '\u{85}' || c == '\u{a0}' || c == '\u{1680}'
        || ('\u{2000}' <= c && c <= '\u{200a}') || c == '\u{2028}' || c == '\u{2029}' || c
        == '\u{202f}' || c == '\u{205f}' || c == '\u{3000}'
}

/// Returns a text without the white space around it.
pub fn trim(text: &str) -> (result: String)
    ensures
        result@ == trimmed(text@),
{
    let len: usize = text.unicode_len();
    let mut start: usize = 0;
    assert(text@.skip(0) =~= text@);
    while start < len && is_white_space(text.get_char(start))
        invariant
            start <= len,
            len == text@.len(),
            trimmed_front(text@.skip(start as int)) == trimmed_front(text@),
        decreases len - start,
    {
        assert(text@.skip(start as int).skip(1) =~= text@.skip(start + 1));
        start = start + 1;
    }
    let ghost front = text@.skip(start as int);
    assert(trimmed_front(text@) == front);
    let mut end: usize = len;
    assert(text@.subrange(start as int, end as int) =~= front);
    while start < end && is_white_space(text.get_char(end - 1))
        invariant
            start <= end <= len,
            len == text@.len(),
            trimmed_back(text@.subrange(start as int, end as int)) == trimmed_back(front),
        decreases end,
    {
        assert(text@.subrange(start as int, end as int).drop_last() =~= text@.subrange(
            start as int,
            end - 1,
        ));
        end = end - 1;
    }
    text.substring_char(start, end).to_owned()
}

/// Returns the texts between the occurrences of a separator.
pub fn split_text(text: &str, separator: char) -> (parts: Vec<String>)
    ensures
        texts(parts@) == split(text@, separator),
{
    let len: usize = text.unicode_len();
    let mut parts: Vec<String> = Vec::new();
    let mut start: usize = 0;
    let mut end: usize = 0;
    assert(text@.subrange(0, 0) =~= Seq::<char>::empty());
    assert(texts(parts@).push(text@.subrange(0, 0)) =~= split(text@.take(0), separator));
    while end < len
        invariant
            start <= end <= len,
            len == text@.len(),
            texts(parts@).push(text@.subrange(start as int, end as int)) == split(
                text@.take(end as int),
                separator,
            ),
        decreases len - end,
    {
        let ghost before = texts(parts@).push(text@.subrange(start as int, end as int));
        assert(text@.take(end + 1).drop_last() =~= text@.take(end as int));
        if text.get_char(end) == separator {
            parts.push(text.substring_char(start, end).to_owned());
            start = end + 1;
            assert(texts(parts@) =~= before);
            assert(text@.subrange(end + 1, end + 1) =~= Seq::<char>::empty());
        } else {
            assert(before.drop_last() =~= texts(parts@));
            assert(text@.subrange(start as int, end as int).push(text@[end as int])
                =~= text@.subrange(start as int, end + 1));
        }
        end = end + 1;
    }
    parts.push(text.substring_char(start, end).to_owned());
    assert(text@.take(end as int) =~= text@);
    assert(texts(parts@) =~= split(text@, separator));
    parts
}

/// Returns the texts of a list with a separator between each two of them.
pub fn join_texts(parts: &Vec<String>, separator: &str) -> (text: String)
    ensures
        text@ == joined(texts(parts@), separator@),
{
    let mut text = String::new();
    for index in 0..parts.len()
        invariant
            text@ == joined(texts(parts@).take(index as int), separator@),
    {
        let ghost done = texts(parts@).take(index as int);
        let ghost next = texts(parts@).take(index + 1);
        if index > 0 {
            text.append(separator);
        }
        text.append(parts[index].as_str());
        assert(next.drop_last() =~= done);
        assert(text@ =~= joined(next, separator@));
    }
    assert(texts(parts@).take(parts.len() as int) =~= texts(parts@));
    text
}

/// Returns the number that a numeral stands for, if it is one and fits.
pub fn parse_u32(text: &str) -> (number: Option<u32>)
    ensures
        match number {
            Some(number) => parsed(text@, u32::MAX as nat) == Some(number as nat),
            None => parsed(text@, u32::MAX as nat) is None,
        },
{
    let len: usize = text.unicode_len();
    let start: usize = if len > 0 && text.get_char(0) == '+' {
        1
    } else {
        0
    };
    let ghost digits = unsigned(text@);
    assert(digits =~= text@.skip(start as int));
    if start == len {
        return None;
    }
    let mut value: u64 = 0;
    let mut index: usize = start;
    while index < len
        invariant
            start <= index <= len,
            len == text@.len(),
            digits == text@.skip(start as int),
            digits == unsigned(text@),
            value == numeral_value(digits.take(index - start)),
            value <= u32::MAX,
            forall|i: int| 0 <= i < index - start ==> is_digit(#[trigger] digits[i]),
        decreases len - index,
    {
        let c = text.get_char(index);
        assert(c == digits[index - start]);
        if !('0' <= c && c <= '9') {
            assert(!is_digit(digits[index - start]));
            return None;
        }
        let ghost next = digits.take(index - start + 1);
        assert(next.drop_last() =~= digits.take(index - start));
        value = value * 10 + (c as u64 - 48);
        assert(value == numeral_value(next));
        if value > u32::MAX as u64 {
            proof {
                lemma_numeral_grows(digits, index - start + 1);
            }
            return None;
        }
        index = index + 1;
    }
    assert(digits.take(len - start) =~= digits);
    Some(value as u32)
}

/// The numeral of a number is made of digits, of which there is at least one, and is worth the number.
pub proof fn lemma_decimal_digits(number: nat)
    ensures
        decimal(number).len() > 0,
        all_digits(decimal(number)),
        numeral_value(decimal(number)) == number,
    decreases number,
{
    if number < 10 {
        let text = seq![digit(number as int)];
        assert(text.drop_last() =~= Seq::<char>::empty());
        assert(decimal(number) == text);
        assert(numeral_value(text.drop_last()) == 0);
    } else {
        let front = decimal(number / 10);
        let text = front.push(digit((number % 10) as int));
        lemma_decimal_digits(number / 10);
        assert(text.drop_last() =~= front);
        assert(decimal(number) == text);
    }
}

/// A number is read back from its numeral.
pub proof fn a_numeral_is_read_back(number: nat, max: nat)
    requires
        number <= max,
    ensures
        parsed(decimal(number), max) == Some(number),
{
    lemma_decimal_digits(number);
    assert(is_digit(decimal(number)[0]));
    assert(unsigned(decimal(number)) == decimal(number));
}

/// Different numbers have different numerals.
pub proof fn lemma_decimal_injective(left: nat, right: nat)
    requires
        decimal(left) == decimal(right),
    ensures
        left == right,
{
    lemma_decimal_digits(left);
    lemma_decimal_digits(right);
}

/// What follows a common beginning is equal if the whole is.
pub proof fn lemma_prefix_cancels(prefix: Seq<char>, left: Seq<char>, right: Seq<char>)
    requires
        prefix + left == prefix + right,
    ensures
        left == right,
{
    assert((prefix + left).skip(prefix.len() as int) =~= left);
    assert((prefix + right).skip(prefix.len() as int) =~= right);
}

/// A numeral is worth at least what each of its beginnings is worth.
proof fn lemma_numeral_grows(digits: Seq<char>, len: int)
    requires
        0 <= len <= digits.len(),
    ensures
        numeral_value(digits.take(len)) <= numeral_value(digits),
    decreases digits.len() - len,
{
    if len == digits.len() {
        assert(digits.take(len) =~= digits);
    } else {
        assert(digits.take(len + 1).drop_last() =~= digits.take(len));
        lemma_numeral_grows(digits, len + 1);
    }
}

/// The numeral of a number has no digit to spare: it starts with a zero only if it is that of zero,
/// which is a single one.
pub proof fn a_numeral_has_no_leading_zero(number: nat)
    ensures
        decimal(number)[0] == '0' <==> number == 0,
        number == 0 ==> decimal(number).len() == 1,
    decreases number,
{
    if number >= 10 {
        a_numeral_has_no_leading_zero(number / 10);
        lemma_decimal_digits(number / 10);
    }
}

/// A digit is worth its distance from zero, and a numeral that is written behind another shifts it
/// by as many places as it has digits.
pub proof fn a_numeral_is_worth_the_sum_of_its_places(left: Seq<char>, right: Seq<char>, c: char)
    ensures
        is_digit(c) ==> numeral_value(seq![c]) == c as nat - '0' as nat,
        numeral_value(left + right) == numeral_value(left) * pow(10, right.len())
            + numeral_value(right),
    decreases right.len(),
{
    assert(numeral_value(seq![c].drop_last()) == 0);
    if right.len() == 0 {
        assert(left + right =~= left);
        lemma_pow0(10);
    } else {
        let front = right.drop_last();
        a_numeral_is_worth_the_sum_of_its_places(left, front, c);
        assert((left + right).drop_last() =~= left + front);
        reveal(pow);
        let high = numeral_value(left) as int;
        let shift = pow(10, front.len());
        assert(10 * (high * shift) == high * (10 * shift)) by (nonlinear_arith);
    }
}

/// A text is read as a number exactly if it is made of digits, at least one, behind an optional `+`,
/// and the number is not too large; what it is read as does not depend on the `+`.
pub proof fn a_numeral_may_have_a_sign(digits: Seq<char>, max: nat)
    requires
        digits.len() > 0 ==> digits[0] != '+',
    ensures
        parsed(digits, max) is Some <==> {
            &&& digits.len() > 0
            &&& forall|i: int| 0 <= i < digits.len() ==> '0' <= #[trigger] digits[i] <= '9'
            &&& numeral_value(digits) <= max
        },
        parsed(digits, max) matches Some(number) ==> number == numeral_value(digits),
        parsed(seq!['+'] + digits, max) == parsed(digits, max),
        parsed(seq!['+', '+'] + digits, max) is None,
{
    assert((seq!['+'] + digits).skip(1) =~= digits);
    let twice = seq!['+', '+'] + digits;
    assert(twice.skip(1)[0] == '+');
    assert(!is_digit(twice.skip(1)[0]));
    if forall|i: int| 0 <= i < digits.len() ==> '0' <= #[trigger] digits[i] <= '9' {
        assert(all_digits(digits));
    }
}

/// A text occurs in another exactly if the other is made of something, the text, and something more.
pub proof fn a_text_occurs_where_it_stands(before: Seq<char>, part: Seq<char>, after: Seq<char>)
    ensures
        occurs(before + part + after, part),
{
    let text = before + part + after;
    let start = before.len() as int;
    assert(text.subrange(start, start + part.len()) =~= part);
}

/// Where a text occurs in another, it stands between a beginning and an end of the other.
pub proof fn what_occurs_stands_somewhere(text: Seq<char>, part: Seq<char>) -> (parts: (
    Seq<char>,
    Seq<char>,
))
    requires
        occurs(text, part),
    ensures
        text == parts.0 + part + parts.1,
{
    let start = choose|start: int|
        0 <= start <= text.len() - part.len() && #[trigger] text.subrange(
            start,
            start + part.len(),
        ) == part;
    let before = text.take(start);
    let after = text.skip(start + part.len());
    assert forall|i: int| 0 <= i < text.len() implies text[i] == (before + part + after)[i] by {
        if start <= i < start + part.len() {
            assert(text.subrange(start, start + part.len())[i - start] == text[i]);
        }
    }
    assert(text =~= before + part + after);
    (before, after)
}

/// Trimming the end of a text leaves its longest beginning that does not end with the character.
pub proof fn trimming_removes_every_trailing_occurrence(text: Seq<char>, c: char)
    ensures
        ({
            let kept = trimmed_end(text, c);
            &&& kept.len() <= text.len()
            &&& kept == text.take(kept.len() as int)
            &&& forall|i: int| kept.len() <= i < text.len() ==> #[trigger] text[i] == c
            &&& kept.len() > 0 ==> kept.last() != c
        }),
    decreases text.len(),
{
    let kept = trimmed_end(text, c);
    if text.len() > 0 && text.last() == c {
        let front = text.drop_last();
        trimming_removes_every_trailing_occurrence(front, c);
        assert(kept =~= text.take(kept.len() as int));
        assert forall|i: int| kept.len() <= i < text.len() implies #[trigger] text[i] == c by {
            if i < front.len() {
                assert(front[i] == text[i]);
            }
        }
    } else {
        assert(text.take(text.len() as int) =~= text);
    }
}

/// White space is the characters that have the Unicode property, one by one.
pub proof fn white_space_is_that_of_unicode(c: char)
    ensures
        is_space(c) <==> seq![
            '\u{9}',
            '\u{a}',
            '\u{b}',
            '\u{c}',
            '\u{d}',
            '\u{20}',
            '\u{85}',
            '\u{a0}',
            '\u{1680}',
            '\u{2000}',
            '\u{2001}',
            '\u{2002}',
            '\u{2003}',
            '\u{2004}',
            '\u{2005}',
            '\u{2006}',
            '\u{2007}',
            '\u{2008}',
            '\u{2009}',
            '\u{200a}',
            '\u{2028}',
            '\u{2029}',
            '\u{202f}',
            '\u{205f}',
            '\u{3000}',
        ].contains(c),
{
    let spaces = seq![
        '\u{9}',
        '\u{a}',
        '\u{b}',
        '\u{c}',
        '\u{d}',
        '\u{20}',
        '\u{85}',
        '\u{a0}',
        '\u{1680}',
        '\u{2000}',
        '\u{2001}',
        '\u{2002}',
        '\u{2003}',
        '\u{2004}',
        '\u{2005}',
        '\u{2006}',
        '\u{2007}',
        '\u{2008}',
        '\u{2009}',
        '\u{200a}',
        '\u{2028}',
        '\u{2029}',
        '\u{202f}',
        '\u{205f}',
        '\u{3000}',
    ];
    assert(forall|i: int| 0 <= i < spaces.len() ==> is_space(#[trigger] spaces[i]));
    if '\u{9}' <= c <= '\u{d}' {
        assert(spaces[c as int - 9] == c);
    }
    if '\u{2000}' <= c <= '\u{200a}' {
        assert(spaces[c as int - 0x2000 + 9] == c);
    }
    assert(spaces[5] == '\u{20}' && spaces[6] == '\u{85}' && spaces[7] == '\u{a0}' && spaces[8]
        == '\u{1680}');
    assert(spaces[20] == '\u{2028}' && spaces[21] == '\u{2029}' && spaces[22] == '\u{202f}'
        && spaces[23] == '\u{205f}' && spaces[24] == '\u{3000}');
}

/// What trimming the front leaves is an end of the text, with nothing but white space before it.
proof fn lemma_trimmed_front(text: Seq<char>)
    ensures
        ({
            let kept = trimmed_front(text);
            let start = text.len() - kept.len();
            &&& 0 <= start
            &&& kept == text.skip(start)
            &&& forall|i: int| 0 <= i < start ==> is_space(#[trigger] text[i])
            &&& kept.len() > 0 ==> !is_space(kept[0])
        }),
    decreases text.len(),
{
    let kept = trimmed_front(text);
    if text.len() > 0 && is_space(text[0]) {
        let rest = text.skip(1);
        lemma_trimmed_front(rest);
        assert(kept =~= text.skip(text.len() - kept.len()));
        assert forall|i: int| 0 <= i < text.len() - kept.len() implies is_space(#[trigger] text[i]) by {
            if i > 0 {
                assert(rest[i - 1] == text[i]);
            }
        }
    } else {
        assert(text.skip(0) =~= text);
    }
}

/// What trimming the back leaves is a beginning of the text, with nothing but white space behind it.
proof fn lemma_trimmed_back(text: Seq<char>)
    ensures
        ({
            let kept = trimmed_back(text);
            &&& kept.len() <= text.len()
            &&& kept == text.take(kept.len() as int)
            &&& forall|i: int| kept.len() <= i < text.len() ==> is_space(#[trigger] text[i])
            &&& kept.len() > 0 ==> !is_space(kept.last())
        }),
    decreases text.len(),
{
    let kept = trimmed_back(text);
    if text.len() > 0 && is_space(text.last()) {
        let front = text.drop_last();
        lemma_trimmed_back(front);
        assert(kept =~= text.take(kept.len() as int));
        assert forall|i: int| kept.len() <= i < text.len() implies is_space(#[trigger] text[i]) by {
            if i < front.len() {
                assert(front[i] == text[i]);
            }
        }
    } else {
        assert(text.take(text.len() as int) =~= text);
    }
}

/// Trimming a text removes the white space around it, all of it and nothing else.
pub proof fn trimming_removes_the_white_space_around(text: Seq<char>) -> (bounds: (int, int))
    ensures
        ({
            let (start, end) = bounds;
            &&& 0 <= start <= end <= text.len()
            &&& trimmed(text) == text.subrange(start, end)
            &&& forall|i: int|
                (0 <= i < start || end <= i < text.len()) ==> is_space(#[trigger] text[i])
            &&& start < end ==> !is_space(text[start]) && !is_space(text[end - 1])
        }),
{
    let rest = trimmed_front(text);
    let kept = trimmed(text);
    lemma_trimmed_front(text);
    lemma_trimmed_back(rest);
    let start = text.len() - rest.len();
    let end = start + kept.len();
    assert(kept =~= text.subrange(start, end));
    assert forall|i: int| (0 <= i < start || end <= i < text.len()) implies is_space(
        #[trigger] text[i],
    ) by {
        if i >= end {
            assert(rest[i - start] == text[i]);
        }
    }
    if start < end {
        assert(kept.last() == text[end - 1]);
        assert(rest[0] == text[start]);
    }
    (start, end)
}

/// There is always something to split a text into.
proof fn lemma_split_len<A>(text: Seq<A>, separator: A)
    ensures
        split(text, separator).len() > 0,
    decreases text.len(),
{
    if text.len() > 0 {
        lemma_split_len(text.drop_last(), separator);
    }
}

/// A text without the separator is not split.
pub proof fn a_text_without_the_separator_is_not_split<A>(text: Seq<A>, separator: A)
    requires
        !text.contains(separator),
    ensures
        split(text, separator) == seq![text],
    decreases text.len(),
{
    if text.len() == 0 {
        assert(text =~= Seq::<A>::empty());
    } else {
        let front = text.drop_last();
        assert forall|i: int| 0 <= i < front.len() implies front[i] != separator by {
            assert(text[i] == front[i]);
        }
        a_text_without_the_separator_is_not_split(front, separator);
        assert(text[text.len() - 1] != separator);
        assert(front.push(text.last()) =~= text);
        assert(split(text, separator) =~= seq![text]);
    }
}

/// A text is split at every separator: what stands before one and what stands behind it are split on
/// their own.
pub proof fn a_text_is_split_at_every_separator<A>(left: Seq<A>, right: Seq<A>, separator: A)
    ensures
        split(left.push(separator) + right, separator) == split(left, separator) + split(
            right,
            separator,
        ),
    decreases right.len(),
{
    let text = left.push(separator) + right;
    if right.len() == 0 {
        assert(text =~= left.push(separator));
        assert(text.drop_last() =~= left);
        assert(split(text, separator) =~= split(left, separator) + split(right, separator));
    } else {
        let front = right.drop_last();
        a_text_is_split_at_every_separator(left, front, separator);
        lemma_split_len(front, separator);
        assert(text.drop_last() =~= left.push(separator) + front);
        assert(text.last() == right.last());
        assert(split(text, separator) =~= split(left, separator) + split(right, separator));
    }
}

/// Joining one text gives that text, and joining two lists gives what each of them gives, with the
/// separator between.
pub proof fn joining_lists_joins_what_they_give(
    left: Seq<Seq<char>>,
    right: Seq<Seq<char>>,
    text: Seq<char>,
    separator: Seq<char>,
)
    ensures
        joined(Seq::empty(), separator) == Seq::<char>::empty(),
        joined(seq![text], separator) == text,
        left.len() > 0 && right.len() > 0 ==> joined(left + right, separator) == joined(
            left,
            separator,
        ) + separator + joined(right, separator),
    decreases right.len(),
{
    if left.len() > 0 && right.len() > 0 {
        let all = left + right;
        let front = right.drop_last();
        assert(all.drop_last() =~= left + front);
        if right.len() == 1 {
            assert(left + front =~= left);
        } else {
            joining_lists_joins_what_they_give(left, front, text, separator);
            assert(joined(all, separator) =~= joined(left, separator) + separator + joined(
                right,
                separator,
            ));
        }
    }
}

/// The text of each string of a list stands at its place.
pub proof fn texts_are_those_of_the_strings(strings: Seq<String>)
    ensures
        texts(strings).len() == strings.len(),
        forall|i: int| 0 <= i < strings.len() ==> #[trigger] texts(strings)[i] == strings[i]@,
{
}

} // verus!
