//! Text as sequences of characters: decimal numerals, white space, splitting,
//! joining and ordering.

use vstd::prelude::*;
use vstd::relations::*;
use vstd::seq_lib::*;

verus! {

broadcast use vstd::string::group_string_axioms;

/// The view of an optional text.
pub open spec fn opt_text(value: Option<String>) -> Option<Seq<char>> {
    match value {
        Some(text) => Some(text@),
        None => None,
    }
}

/// The view of an optional borrowed text.
pub open spec fn opt_str(value: Option<&str>) -> Option<Seq<char>> {
    match value {
        Some(text) => Some(text@),
        None => None,
    }
}

/// The views of a sequence of texts.
pub open spec fn texts(values: Seq<String>) -> Seq<Seq<char>> {
    values.map_values(|text: String| text@)
}

/// The views of a sequence of borrowed texts.
pub open spec fn strs(values: Seq<&str>) -> Seq<Seq<char>> {
    values.map_values(|text: &str| text@)
}

/// Whether two texts hold the same characters.
pub fn same_text(left: &str, right: &str) -> (same: bool)
    ensures
        same == (left@ == right@),
{
    left.to_owned() == right.to_owned()
}

/// The characters of a text.
pub fn chars_of(value: &str) -> (chars: Vec<char>)
    ensures
        chars@ == value@,
{
    let mut chars: Vec<char> = Vec::new();
    for c in iter: value.chars()
        invariant
            iter.seq() == value@,
            chars@ == value@.take(iter.index() as int),
    {
        chars.push(c);
    }
    assert(value@.take(value@.len() as int) == value@);
    chars
}

/// Two texts, one after the other.
pub fn concat(left: &str, right: &str) -> (joined: String)
    ensures
        joined@ == left@ + right@,
{
    left.to_owned().concat(right)
}

/// Three texts, one after the other.
pub fn concat3(first: &str, second: &str, third: &str) -> (joined: String)
    ensures
        joined@ == first@ + second@ + third@,
{
    concat(first, second).concat(third)
}

/// The value of an optional text, or the empty text where there is none.
pub open spec fn text_or_empty(value: Option<Seq<char>>) -> Seq<char> {
    match value {
        Some(text) => text,
        None => Seq::empty(),
    }
}

/// An optional text, borrowed.
pub fn as_deref(value: &Option<String>) -> (borrowed: Option<&str>)
    ensures
        opt_str(borrowed) == opt_text(*value),
{
    match value {
        Some(text) => Some(text.as_str()),
        None => None,
    }
}

/// A copy of an optional text.
pub fn copy_optional(value: &Option<String>) -> (copy: Option<String>)
    ensures
        copy == *value,
{
    match value {
        Some(text) => Some(text.clone()),
        None => None,
    }
}

/// An optional text, borrowed; the empty text where there is none.
pub fn as_deref_or_empty(value: &Option<String>) -> (borrowed: &str)
    ensures
        borrowed@ == text_or_empty(opt_text(*value)),
{
    match value {
        Some(text) => text.as_str(),
        None => {
            proof {
                reveal_strlit("");
            }
            ""
        },
    }
}

/// How a text is shown to a programmer: in double quotes, with what cannot be
/// seen or would be misread written as escapes.
pub uninterp spec fn debug_form(s: Seq<char>) -> Seq<char>;

/// Calls std's `Debug` formatting of a `str`, through `format!` with `{:?}`.
/// What comes out depends on the text alone; its escapes are left unsaid.
#[verifier::external_body]
pub(crate) fn debug_text(value: &str) -> (shown: String)
    ensures
        shown@ == debug_form(value@),
{
    format!("{:?}", value)
}

/// The character of a decimal digit.
pub open spec fn digit_char(digit: int) -> char {
    ('0' as int + digit) as char
}

/// Whether a character is one of `0` to `9`.
pub open spec fn is_digit(c: char) -> bool {
    '0' <= c && c <= '9'
}

/// Whether a text is made of the digits `0` to `9` alone.
pub open spec fn all_digits(s: Seq<char>) -> bool {
    forall|i: int| 0 <= i < s.len() ==> is_digit(#[trigger] s[i])
}

/// The number that a run of decimal digits stands for.
pub open spec fn digits_value(s: Seq<char>) -> nat
    decreases s.len(),
{
    if s.len() == 0 {
        0
    } else {
        digits_value(s.drop_last()) * 10 + (s.last() as nat - '0' as nat) as nat
    }
}

/// The decimal numeral of a natural number, without leading zeros.
pub open spec fn decimal(n: nat) -> Seq<char>
    decreases n,
{
    if n < 10 {
        seq![digit_char(n as int)]
    } else {
        decimal(n / 10).push(digit_char((n % 10) as int))
    }
}

/// The decimal numeral of an integer: a `-` in front of a negative one.
pub open spec fn signed_decimal(i: int) -> Seq<char> {
    if i < 0 {
        seq!['-'] + decimal((-i) as nat)
    } else {
        decimal(i as nat)
    }
}

/// The numeral of a number is made of digits and stands for that number.
pub proof fn lemma_decimal_value(n: nat)
    ensures
        decimal(n).len() > 0,
        all_digits(decimal(n)),
        digits_value(decimal(n)) == n,
    decreases n,
{
    reveal_with_fuel(digits_value, 2);
    if n < 10 {
        let s = decimal(n);
        assert(s.drop_last() =~= Seq::<char>::empty());
        assert(s.last() == digit_char(n as int));
    } else {
        lemma_decimal_value(n / 10);
        let s = decimal(n);
        assert(s.drop_last() =~= decimal(n / 10));
        assert(s.last() == digit_char((n % 10) as int));
    }
}

/// The text of one decimal digit.
fn digit_text(digit: u8) -> (text: &'static str)
    requires
        digit < 10,
    ensures
        text@ == seq![digit_char(digit as int)],
{
    proof {
        reveal_strlit("0");
        reveal_strlit("1");
        reveal_strlit("2");
        reveal_strlit("3");
        reveal_strlit("4");
        reveal_strlit("5");
        reveal_strlit("6");
        reveal_strlit("7");
        reveal_strlit("8");
        reveal_strlit("9");
    }
    match digit {
        0 => "0",
        1 => "1",
        2 => "2",
        3 => "3",
        4 => "4",
        5 => "5",
        6 => "6",
        7 => "7",
        8 => "8",
        _ => "9",
    }
}

/// The decimal numeral of a natural number.
pub fn decimal_text(n: u128) -> (text: String)
    ensures
        text@ == decimal(n as nat),
    decreases n,
{
    if n < 10 {
        digit_text(n as u8).to_owned()
    } else {
        let text = decimal_text(n / 10).concat(digit_text((n % 10) as u8));
        assert(text@ == decimal(n as nat));
        text
    }
}

/// The decimal numeral of an integer.
pub fn signed_decimal_text(i: i64) -> (text: String)
    ensures
        text@ == signed_decimal(i as int),
{
    if i < 0 {
        let magnitude: i128 = -(i as i128);
        proof {
            reveal_strlit("-");
            assert("-"@ =~= seq!['-']);
        }
        concat("-", decimal_text(magnitude as u128).as_str())
    } else {
        decimal_text(i as u128)
    }
}

/// A number between two texts.
pub open spec fn around(before: Seq<char>, i: int, after: Seq<char>) -> Seq<char> {
    before + signed_decimal(i) + after
}

/// A number between two texts.
pub fn around_number(before: &str, i: i64, after: &str) -> (text: String)
    ensures
        text@ == around(before@, i as int, after@),
{
    concat3(before, signed_decimal_text(i).as_str(), after)
}

/// The integer that a text stands for: an optional sign and one or more
/// digits, with a value in the range of `i32`.
pub open spec fn i32_value(s: Seq<char>) -> Option<int> {
    let signed = s.len() > 0 && (s[0] == '-' || s[0] == '+');
    let digits = if signed {
        s.drop_first()
    } else {
        s
    };
    if digits.len() == 0 || !all_digits(digits) {
        None
    } else {
        let value: int = if signed && s[0] == '-' {
            -(digits_value(digits) as int)
        } else {
            digits_value(digits) as int
        };
        if i32::MIN <= value <= i32::MAX {
            Some(value)
        } else {
            None
        }
    }
}

/// The numeral of an `i32` reads back as that number.
pub proof fn lemma_i32_round_trip(i: i32)
    ensures
        i32_value(signed_decimal(i as int)) == Some(i as int),
        signed_decimal(i as int).len() > 0,
        forall|k: int|
            0 <= k < signed_decimal(i as int).len() ==> is_digit(
                #[trigger] signed_decimal(i as int)[k],
            ) || (k == 0 && i < 0 && signed_decimal(i as int)[k] == '-'),
{
    let s = signed_decimal(i as int);
    if i < 0 {
        let magnitude = (-(i as int)) as nat;
        lemma_decimal_value(magnitude);
        assert(s.drop_first() =~= decimal(magnitude));
        assert forall|k: int| 0 < k < s.len() implies is_digit(#[trigger] s[k]) by {
            assert(s[k] == decimal(magnitude)[k - 1]);
        }
    } else {
        lemma_decimal_value(i as nat);
        assert(is_digit(s[0]));
    }
}

/// Reads an integer as `i32::from_str` does.
pub fn parse_i32(value: &str) -> (parsed: Option<i32>)
    ensures
        match parsed {
            Some(number) => i32_value(value@) == Some(number as int),
            None => i32_value(value@) is None,
        },
{
    let chars = chars_of(value);
    if chars.len() == 0 {
        return None;
    }
    let negative = chars[0] == '-';
    let signed = negative || chars[0] == '+';
    let start: usize = if signed {
        1
    } else {
        0
    };
    let ghost digits = if signed {
        value@.drop_first()
    } else {
        value@
    };
    if start == chars.len() {
        return None;
    }
    let mut magnitude: u64 = 0;
    let mut i: usize = start;
    let mut oversized = false;
    while i < chars.len()
        invariant
            start <= i <= chars.len(),
            start <= 1,
            start == (if signed { 1int } else { 0int }),
            chars@ == value@,
            value@.len() > 0,
            signed == (value@[0] == '-' || value@[0] == '+'),
            digits == (if signed { value@.drop_first() } else { value@ }),
            forall|j: int| 0 <= j < i - start ==> is_digit(#[trigger] digits[j]),
            !oversized ==> magnitude == digits_value(digits.take(i - start)) && magnitude
                <= 0x8000_0000,
            oversized ==> digits_value(digits.take(i - start)) > 0x8000_0000,
        decreases chars.len() - i,
    {
        let c = chars[i];
        assert(c == digits[i - start]);
        if !('0' <= c && c <= '9') {
            assert(!is_digit(digits[i - start]));
            return None;
        }
        assert(digits.take(i + 1 - start).drop_last() =~= digits.take(i - start));
        assert(digits.take(i + 1 - start).last() == c);
        if !oversized {
            magnitude = magnitude * 10 + (c as u64 - '0' as u64);
            if magnitude > 0x8000_0000 {
                oversized = true;
            }
        }
        i += 1;
    }
    assert(digits.take(i - start) =~= digits);
    assert(all_digits(digits));
    if oversized {
        return None;
    }
    if negative {
        Some((-(magnitude as i64)) as i32)
    } else if magnitude <= 0x7fff_ffff {
        Some(magnitude as i32)
    } else {
        None
    }
}

/// Whether a character is white space, as Unicode has it.
pub open spec fn is_white_space(c: char) -> bool {
    ||| '\u{9}' <= c && c <= '\u{d}'
    ||| c == '\u{20}'
    ||| c == '\u{85}'
    ||| c == '\u{a0}'
    ||| c == '\u{1680}'
    ||| '\u{2000}' <= c && c <= '\u{200a}'
    ||| c == '\u{2028}'
    ||| c == '\u{2029}'
    ||| c == '\u{202f}'
    ||| c == '\u{205f}'
    ||| c == '\u{3000}'
}

/// Whether a text is empty or white space throughout.
pub open spec fn blank(s: Seq<char>) -> bool {
    forall|i: int| 0 <= i < s.len() ==> is_white_space(#[trigger] s[i])
}

/// A text without its leading white space.
pub open spec fn trimmed_start(s: Seq<char>) -> Seq<char>
    decreases s.len(),
{
    if s.len() > 0 && is_white_space(s[0]) {
        trimmed_start(s.drop_first())
    } else {
        s
    }
}

/// A text without its trailing white space.
pub open spec fn trimmed_end(s: Seq<char>) -> Seq<char>
    decreases s.len(),
{
    if s.len() > 0 && is_white_space(s.last()) {
        trimmed_end(s.drop_last())
    } else {
        s
    }
}

/// A text without its leading and trailing white space.
pub open spec fn trimmed(s: Seq<char>) -> Seq<char> {
    trimmed_end(trimmed_start(s))
}

/// Dropping white space one character at a time ends where the rest begins.
proof fn lemma_trimmed_start(s: Seq<char>, i: int)
    requires
        0 <= i <= s.len(),
        forall|j: int| 0 <= j < i ==> is_white_space(#[trigger] s[j]),
    ensures
        trimmed_start(s) == trimmed_start(s.skip(i)),
    decreases i,
{
    if i == 0 {
        assert(s.skip(0) =~= s);
    } else {
        assert(is_white_space(s[0]));
        lemma_trimmed_start(s.drop_first(), i - 1);
        assert(s.drop_first().skip(i - 1) =~= s.skip(i));
    }
}

/// As `lemma_trimmed_start`, from the other end.
proof fn lemma_trimmed_end(s: Seq<char>, i: int)
    requires
        0 <= i <= s.len(),
        forall|j: int| i <= j < s.len() ==> is_white_space(#[trigger] s[j]),
    ensures
        trimmed_end(s) == trimmed_end(s.take(i)),
    decreases s.len() - i,
{
    if i == s.len() {
        assert(s.take(i) =~= s);
    } else {
        assert(is_white_space(s.last()));
        lemma_trimmed_end(s.drop_last(), i);
        assert(s.drop_last().take(i) =~= s.take(i));
    }
}

/// What is left of a text after trimming is empty exactly where the text is
/// blank.
pub proof fn lemma_blank_is_trimmed_to_nothing(s: Seq<char>)
    ensures
        blank(s) <==> trimmed(s).len() == 0,
{
    if blank(s) {
        lemma_trimmed_start(s, s.len() as int);
        assert(s.skip(s.len() as int) =~= Seq::<char>::empty());
    } else {
        lemma_trimmed_keeps_text(s);
    }
}

/// Trimming a text with something in it leaves something that neither starts
/// nor ends with white space.
proof fn lemma_trimmed_keeps_text(s: Seq<char>)
    requires
        !blank(s),
    ensures
        trimmed(s).len() > 0,
        !is_white_space(trimmed(s)[0]),
        !is_white_space(trimmed(s).last()),
    decreases s.len(),
{
    if is_white_space(s[0]) {
        let witness = choose|i: int| 0 <= i < s.len() && !is_white_space(#[trigger] s[i]);
        assert(s.drop_first()[witness - 1] == s[witness]);
        lemma_trimmed_keeps_text(s.drop_first());
    } else {
        lemma_trimmed_end_keeps_text(s);
    }
}

proof fn lemma_trimmed_end_keeps_text(s: Seq<char>)
    requires
        s.len() > 0,
        !is_white_space(s[0]),
    ensures
        trimmed_end(s).len() > 0,
        trimmed_end(s)[0] == s[0],
        !is_white_space(trimmed_end(s).last()),
    decreases s.len(),
{
    if is_white_space(s.last()) {
        lemma_trimmed_end_keeps_text(s.drop_last());
    }
}

/// What trimming leaves is not blank, unless it is empty.
pub proof fn lemma_trimmed_is_not_blank(s: Seq<char>)
    requires
        trimmed(s).len() > 0,
    ensures
        !blank(trimmed(s)),
{
    lemma_blank_is_trimmed_to_nothing(s);
    lemma_trimmed_keeps_text(s);
}

/// Whether a character is white space, as Unicode has it.
pub fn is_white_space_char(c: char) -> (white: bool)
    ensures
        white == is_white_space(c),
{
    ('\u{9}' <= c && c <= '\u{d}') || c == '\u{20}' || c == '\u{85}' || c == '\u{a0}' || c
        == '\u{1680}' || ('\u{2000}' <= c && c <= '\u{200a}') || c == '\u{2028}' || c == '\u{2029}'
        || c == '\u{202f}' || c == '\u{205f}' || c == '\u{3000}'
}

/// Whether a text is empty or white space throughout.
pub fn is_blank(value: &str) -> (result: bool)
    ensures
        result == blank(value@),
{
    let chars = chars_of(value);
    let mut i: usize = 0;
    while i < chars.len()
        invariant
            i <= chars.len(),
            chars@ == value@,
            forall|j: int| 0 <= j < i ==> is_white_space(#[trigger] value@[j]),
        decreases chars.len() - i,
    {
        if !is_white_space_char(chars[i]) {
            assert(!is_white_space(value@[i as int]));
            return false;
        }
        i += 1;
    }
    true
}

/// A text without its leading and trailing white space.
pub fn trim(value: &str) -> (result: &str)
    ensures
        result@ == trimmed(value@),
{
    let chars = chars_of(value);
    let mut start: usize = 0;
    while start < chars.len() && is_white_space_char(chars[start])
        invariant
            start <= chars.len(),
            chars@ == value@,
            forall|j: int| 0 <= j < start ==> is_white_space(#[trigger] value@[j]),
        decreases chars.len() - start,
    {
        start += 1;
    }
    proof {
        lemma_trimmed_start(value@, start as int);
    }
    let ghost rest = value@.skip(start as int);
    assert(trimmed_start(value@) == rest);
    let mut end: usize = chars.len();
    while end > start && is_white_space_char(chars[end - 1])
        invariant
            start <= end <= chars.len(),
            chars@ == value@,
            rest == value@.skip(start as int),
            forall|j: int| end - start <= j < rest.len() ==> is_white_space(#[trigger] rest[j]),
        decreases end,
    {
        end -= 1;
    }
    proof {
        lemma_trimmed_end(rest, end - start);
        assert(rest.take(end - start) =~= value@.subrange(start as int, end as int));
        if end > start {
            assert(rest.take(end - start).last() == value@[end - 1]);
        }
    }
    value.substring_char(start, end)
}

/// The parts of a text between the occurrences of a separator.
pub open spec fn split_on(s: Seq<char>, separator: char) -> Seq<Seq<char>>
    decreases s.len(),
{
    if s.len() == 0 {
        seq![Seq::empty()]
    } else {
        let parts = split_on(s.drop_last(), separator);
        if s.last() == separator {
            parts.push(Seq::empty())
        } else {
            parts.drop_last().push(parts.last().push(s.last()))
        }
    }
}

/// Texts one after the other, with a separator between neighbours.
pub open spec fn joined(parts: Seq<Seq<char>>, separator: Seq<char>) -> Seq<char>
    decreases parts.len(),
{
    if parts.len() == 0 {
        Seq::empty()
    } else if parts.len() == 1 {
        parts[0]
    } else {
        joined(parts.drop_last(), separator) + separator + parts.last()
    }
}

/// Splitting a text yields parts without the separator, and joining them gives
/// the text back.
pub proof fn lemma_split_on(s: Seq<char>, separator: char)
    ensures
        split_on(s, separator).len() > 0,
        joined(split_on(s, separator), seq![separator]) == s,
        forall|i: int|
            0 <= i < split_on(s, separator).len() ==> !(#[trigger] split_on(
                s,
                separator,
            )[i]).contains(separator),
    decreases s.len(),
{
    let parts = split_on(s, separator);
    if s.len() > 0 {
        let init = s.drop_last();
        let before = split_on(init, separator);
        lemma_split_on(init, separator);
        if s.last() == separator {
            assert(parts.drop_last() =~= before);
            assert(joined(parts, seq![separator]) =~= s);
        } else {
            assert(parts.drop_last() =~= before.drop_last());
            assert(parts.last() == before.last().push(s.last()));
            assert(joined(parts, seq![separator]) =~= joined(before, seq![separator]).push(
                s.last(),
            ));
            assert(init.push(s.last()) =~= s);
            assert forall|i: int| 0 <= i < parts.len() implies !(#[trigger] parts[i]).contains(
                separator,
            ) by {
                if i < before.len() - 1 {
                    assert(parts[i] == before[i]);
                } else {
                    assert(!before[before.len() - 1].contains(separator));
                    let last = parts[i];
                    if last.contains(separator) {
                        let k = choose|k: int| 0 <= k < last.len() && last[k] == separator;
                        assert(before.last()[k] == separator);
                    }
                }
            }
        }
    }
}

/// A text without the separator in it is its own only part.
pub proof fn lemma_split_on_absent(s: Seq<char>, separator: char)
    requires
        !s.contains(separator),
    ensures
        split_on(s, separator) == seq![s],
    decreases s.len(),
{
    if s.len() > 0 {
        let init = s.drop_last();
        assert forall|i: int| 0 <= i < init.len() implies init[i] != separator by {
            assert(s[i] != separator);
        }
        lemma_split_on_absent(init, separator);
        assert(s[s.len() - 1] != separator);
        assert(init.push(s.last()) =~= s);
        assert(split_on(s, separator) =~= seq![s]);
    } else {
        assert(s =~= Seq::<char>::empty());
    }
}

/// Two texts without the separator in them are the parts of what they make
/// with the separator between them.
pub proof fn lemma_split_on_pair(x: Seq<char>, y: Seq<char>, separator: char)
    requires
        !x.contains(separator),
        !y.contains(separator),
    ensures
        split_on(x + seq![separator] + y, separator) == seq![x, y],
    decreases y.len(),
{
    let s = x + seq![separator] + y;
    if y.len() == 0 {
        lemma_split_on_absent(x, separator);
        assert(s.drop_last() =~= x);
        assert(y =~= Seq::<char>::empty());
        assert(split_on(s, separator) =~= seq![x, y]);
    } else {
        let init = y.drop_last();
        assert forall|i: int| 0 <= i < init.len() implies init[i] != separator by {
            assert(y[i] != separator);
        }
        lemma_split_on_pair(x, init, separator);
        assert(y[y.len() - 1] != separator);
        assert(s.drop_last() =~= x + seq![separator] + init);
        assert(init.push(y.last()) =~= y);
        assert(split_on(s, separator) =~= seq![x, y]);
    }
}

/// The parts of a text between the occurrences of a separator.
pub fn split(value: &str, separator: char) -> (parts: Vec<&str>)
    ensures
        strs(parts@) == split_on(value@, separator),
{
    let chars = chars_of(value);
    let mut parts: Vec<&str> = Vec::new();
    let mut start: usize = 0;
    let mut i: usize = 0;
    proof {
        assert(value@.take(0) =~= Seq::<char>::empty());
        assert(value@.subrange(0, 0) =~= Seq::<char>::empty());
        assert(strs(parts@).push(Seq::<char>::empty()) =~= seq![Seq::<char>::empty()]);
    }
    while i < chars.len()
        invariant
            start <= i <= chars.len(),
            chars@ == value@,
            strs(parts@).push(value@.subrange(start as int, i as int)) == split_on(
                value@.take(i as int),
                separator,
            ),
        decreases chars.len() - i,
    {
        let ghost before = split_on(value@.take(i as int), separator);
        assert(value@.take(i + 1).drop_last() =~= value@.take(i as int));
        assert(value@.take(i + 1).last() == chars@[i as int]);
        if chars[i] == separator {
            let ghost earlier = parts@;
            let part = value.substring_char(start, i);
            parts.push(part);
            start = i + 1;
            proof {
                assert(strs(parts@) =~= strs(earlier).push(part@));
                assert(value@.subrange(start as int, i + 1) =~= Seq::<char>::empty());
            }
        } else {
            proof {
                assert(value@.subrange(start as int, i + 1) =~= value@.subrange(
                    start as int,
                    i as int,
                ).push(chars@[i as int]));
                assert(before.drop_last() =~= strs(parts@));
            }
        }
        i += 1;
    }
    let ghost earlier = parts@;
    let part = value.substring_char(start, i);
    parts.push(part);
    proof {
        assert(value@.take(i as int) =~= value@);
        assert(strs(parts@) =~= strs(earlier).push(part@));
    }
    parts
}

/// Texts one after the other, with a separator between neighbours.
pub fn join(parts: &Vec<&str>, separator: &str) -> (text: String)
    ensures
        text@ == joined(strs(parts@), separator@),
{
    let mut text = String::new();
    let mut i: usize = 0;
    proof {
        assert(strs(parts@).take(0) =~= Seq::<Seq<char>>::empty());
    }
    while i < parts.len()
        invariant
            i <= parts.len(),
            text@ == joined(strs(parts@).take(i as int), separator@),
        decreases parts.len() - i,
    {
        proof {
            assert(strs(parts@).take(i + 1).drop_last() =~= strs(parts@).take(i as int));
            assert(strs(parts@).take(i + 1).last() == parts@[i as int]@);
        }
        if i > 0 {
            text.append(separator);
        }
        text.append(parts[i]);
        proof {
            assert(text@ =~= joined(strs(parts@).take(i + 1), separator@));
        }
        i += 1;
    }
    assert(strs(parts@).take(i as int) =~= strs(parts@));
    text
}

/// The numerals of some integers, separated by a comma and a space.
pub open spec fn numerals(ids: Seq<i64>) -> Seq<char> {
    joined(ids.map_values(|id: i64| signed_decimal(id as int)), ", "@)
}

/// The numerals of some integers, separated by a comma and a space.
pub fn numerals_text(ids: &Vec<i64>) -> (text: String)
    ensures
        text@ == numerals(ids@),
{
    let ghost parts = ids@.map_values(|id: i64| signed_decimal(id as int));
    let mut text = String::new();
    let mut i: usize = 0;
    proof {
        assert(parts.take(0) =~= Seq::<Seq<char>>::empty());
    }
    while i < ids.len()
        invariant
            i <= ids.len(),
            parts == ids@.map_values(|id: i64| signed_decimal(id as int)),
            text@ == joined(parts.take(i as int), ", "@),
        decreases ids.len() - i,
    {
        proof {
            assert(parts.take(i + 1).drop_last() =~= parts.take(i as int));
            assert(parts.take(i + 1).last() == signed_decimal(ids@[i as int] as int));
        }
        if i > 0 {
            text.append(", ");
        }
        text.append(signed_decimal_text(ids[i]).as_str());
        proof {
            assert(text@ =~= joined(parts.take(i + 1), ", "@));
        }
        i += 1;
    }
    assert(parts.take(i as int) =~= parts);
    text
}

/// Copies of some texts.
pub fn copy_texts(values: &Vec<String>) -> (copies: Vec<String>)
    ensures
        copies@ == values@,
{
    let mut copies: Vec<String> = Vec::new();
    let mut i: usize = 0;
    while i < values.len()
        invariant
            i <= values.len(),
            copies@ == values@.take(i as int),
        decreases values.len() - i,
    {
        copies.push(values[i].clone());
        i += 1;
    }
    copies
}

/// What is left of a sequence after filtering was in it.
pub proof fn lemma_filter_members<A>(values: Seq<A>, condition: spec_fn(A) -> bool)
    ensures
        forall|i: int|
            0 <= i < values.filter(condition).len() ==> values.contains(
                #[trigger] values.filter(condition)[i],
            ),
    decreases values.len(),
{
    reveal(Seq::filter);
    if values.len() > 0 {
        let init = values.drop_last();
        lemma_filter_members(init, condition);
        let kept = values.filter(condition);
        assert forall|i: int| 0 <= i < kept.len() implies values.contains(#[trigger] kept[i]) by {
            if i < init.filter(condition).len() {
                assert(kept[i] == init.filter(condition)[i]);
                let j = choose|j: int| 0 <= j < init.len() && init[j] == kept[i];
                assert(values[j] == kept[i]);
            } else {
                assert(values[values.len() - 1] == kept[i]);
            }
        }
    }
}

/// Whether a text comes before another, or is the same: character by
/// character, by code point, a prefix before what it is a prefix of. The bytes
/// of the two texts compare in the same way.
pub open spec fn text_le(a: Seq<char>, b: Seq<char>) -> bool
    decreases a.len(),
{
    if a.len() == 0 {
        true
    } else if b.len() == 0 {
        false
    } else if a[0] == b[0] {
        text_le(a.drop_first(), b.drop_first())
    } else {
        a[0] < b[0]
    }
}

/// The order of texts, as a relation.
pub open spec fn text_order() -> spec_fn(Seq<char>, Seq<char>) -> bool {
    |a: Seq<char>, b: Seq<char>| text_le(a, b)
}

proof fn lemma_text_le_reflexive(a: Seq<char>)
    ensures
        text_le(a, a),
    decreases a.len(),
{
    if a.len() > 0 {
        lemma_text_le_reflexive(a.drop_first());
    }
}

proof fn lemma_text_le_antisymmetric(a: Seq<char>, b: Seq<char>)
    requires
        text_le(a, b),
        text_le(b, a),
    ensures
        a == b,
    decreases a.len(),
{
    if a.len() > 0 && b.len() > 0 {
        assert(a[0] == b[0]);
        let (c, d) = (a.drop_first(), b.drop_first());
        lemma_text_le_antisymmetric(c, d);
        assert(c.len() == d.len());
        assert forall|i: int| 0 <= i < a.len() implies a[i] == b[i] by {
            if i > 0 {
                assert(a[i] == c[i - 1]);
                assert(b[i] == d[i - 1]);
            }
        }
    }
    assert(a =~= b);
}

proof fn lemma_text_le_transitive(a: Seq<char>, b: Seq<char>, c: Seq<char>)
    requires
        text_le(a, b),
        text_le(b, c),
    ensures
        text_le(a, c),
    decreases a.len(),
{
    if a.len() > 0 && b.len() > 0 && c.len() > 0 && a[0] == b[0] && b[0] == c[0] {
        lemma_text_le_transitive(a.drop_first(), b.drop_first(), c.drop_first());
    }
}

proof fn lemma_text_le_total(a: Seq<char>, b: Seq<char>)
    ensures
        text_le(a, b) || text_le(b, a),
    decreases a.len(),
{
    if a.len() > 0 && b.len() > 0 && a[0] == b[0] {
        lemma_text_le_total(a.drop_first(), b.drop_first());
    }
}

/// Texts are totally ordered.
pub proof fn lemma_text_order()
    ensures
        total_ordering(text_order()),
{
    let order = text_order();
    assert forall|a: Seq<char>| #[trigger] order(a, a) by {
        lemma_text_le_reflexive(a);
    }
    assert forall|a: Seq<char>, b: Seq<char>|
        #[trigger] order(a, b) && #[trigger] order(b, a) implies a == b by {
        lemma_text_le_antisymmetric(a, b);
    }
    assert forall|a: Seq<char>, b: Seq<char>, c: Seq<char>|
        #[trigger] order(a, b) && #[trigger] order(b, c) implies order(a, c) by {
        lemma_text_le_transitive(a, b, c);
    }
    assert forall|a: Seq<char>, b: Seq<char>| #[trigger] order(a, b) || order(b, a) by {
        lemma_text_le_total(a, b);
    }
}

/// Whether a text comes before another, or is the same.
pub fn text_at_most(left: &str, right: &str) -> (at_most: bool)
    ensures
        at_most == text_le(left@, right@),
{
    let a = chars_of(left);
    let b = chars_of(right);
    let mut i: usize = 0;
    proof {
        assert(left@.skip(0) =~= left@);
        assert(right@.skip(0) =~= right@);
    }
    while i < a.len() && i < b.len() && a[i] == b[i]
        invariant
            i <= a.len(),
            i <= b.len(),
            a@ == left@,
            b@ == right@,
            text_le(left@, right@) == text_le(left@.skip(i as int), right@.skip(i as int)),
        decreases a.len() - i,
    {
        proof {
            assert(left@.skip(i as int).drop_first() =~= left@.skip(i + 1));
            assert(right@.skip(i as int).drop_first() =~= right@.skip(i + 1));
        }
        i += 1;
    }
    i == a.len() || (i < b.len() && a[i] < b[i])
}

/// Texts in order, each as often as it was given.
pub fn sort(values: Vec<&str>) -> (sorted: Vec<&str>)
    ensures
        strs(sorted@) == strs(values@).sort_by(text_order()),
{
    let mut sorted: Vec<&str> = Vec::new();
    let mut i: usize = 0;
    proof {
        lemma_text_order();
        assert(strs(sorted@) =~= strs(values@).take(0));
    }
    while i < values.len()
        invariant
            i <= values.len(),
            total_ordering(text_order()),
            sorted_by(strs(sorted@), text_order()),
            strs(sorted@).to_multiset() == strs(values@).take(i as int).to_multiset(),
        decreases values.len() - i,
    {
        let value = values[i];
        let mut at: usize = sorted.len();
        let ghost order = text_order();
        while at > 0 && !text_at_most(sorted[at - 1], value)
            invariant
                at <= sorted.len(),
                total_ordering(text_order()),
                order == text_order(),
                sorted_by(strs(sorted@), order),
                forall|j: int| at <= j < sorted.len() ==> order(value@, #[trigger] strs(sorted@)[j]),
            decreases at,
        {
            proof {
                assert(!order(strs(sorted@)[at - 1], value@));
            }
            at -= 1;
        }
        let ghost earlier = strs(sorted@);
        proof {
            if at > 0 {
                assert(order(earlier[at - 1], value@));
                assert forall|j: int| 0 <= j < at implies order(#[trigger] earlier[j], value@) by {
                    if j < at - 1 {
                        assert(order(earlier[j], earlier[at - 1]));
                    }
                }
            }
        }
        sorted.insert(at, value);
        proof {
            broadcast use group_to_multiset_ensures;

            assert(strs(sorted@) =~= earlier.insert(at as int, value@));
            assert(earlier.insert(at as int, value@).to_multiset() == earlier.to_multiset().insert(
                value@,
            ));
            let taken = strs(values@).take(i as int);
            assert(strs(values@).take(i + 1) =~= taken.push(value@));
            assert(taken.push(value@).to_multiset() =~= taken.to_multiset().insert(value@));
            assert forall|j: int, k: int| 0 <= j < k < sorted.len() implies #[trigger] order(
                strs(sorted@)[j],
                strs(sorted@)[k],
            ) by {
                let a = strs(sorted@)[j];
                let b = strs(sorted@)[k];
                if j < at && k < at {
                    assert(order(earlier[j], earlier[k]));
                } else if j < at && k == at {
                    assert(order(earlier[j], value@));
                } else if j < at {
                    assert(order(earlier[j], earlier[k - 1]));
                } else if j == at {
                    assert(order(value@, earlier[k - 1]));
                } else {
                    assert(order(earlier[j - 1], earlier[k - 1]));
                }
            }
        }
        i += 1;
    }
    proof {
        assert(strs(values@).take(i as int) =~= strs(values@));
        strs(values@).lemma_sort_by_ensures(text_order());
        lemma_sorted_unique(strs(sorted@), strs(values@).sort_by(text_order()), text_order());
    }
    sorted
}

/// A numeral is made of digits, has no zero in front of others, and stands for
/// its number; a digit behind it makes it stand for ten times the number and the
/// digit. That of a negative number is that of the number without its sign, with
/// a `-` in front.
pub proof fn law_a_numeral_stands_for_its_number(n: nat)
    ensures
        decimal(n).len() > 0,
        forall|i: int| 0 <= i < decimal(n).len() ==> '0' <= (#[trigger] decimal(n)[i]) <= '9',
        n == 0 ==> decimal(n) == seq!['0'],
        n > 0 ==> decimal(n)[0] != '0',
        digits_value(decimal(n)) == n,
        forall|digit: nat|
            digit <= 9 && n > 0 ==> #[trigger] decimal(10 * n + digit) == decimal(n).push(
                ('0' as nat + digit) as char,
            ),
        n > 0 ==> signed_decimal(-(n as int)) == seq!['-'] + decimal(n),
        signed_decimal(n as int) == decimal(n),
{
    lemma_decimal_value(n);
    lemma_no_leading_zero(n);
    assert forall|i: int| 0 <= i < decimal(n).len() implies '0' <= (#[trigger] decimal(n)[i])
        <= '9' by {
        assert(is_digit(decimal(n)[i]));
    }
}

proof fn lemma_no_leading_zero(n: nat)
    ensures
        n > 0 ==> decimal(n)[0] != '0',
    decreases n,
{
    lemma_decimal_value(n);
    if n >= 10 {
        lemma_no_leading_zero(n / 10);
        lemma_decimal_value(n / 10);
        assert(decimal(n)[0] == decimal(n / 10)[0]);
    }
}

/// What a run of digits stands for: nothing for none, and with one more digit
/// behind it ten times as much and the digit.
pub proof fn law_digits_count_by_ten(s: Seq<char>, digit: nat)
    requires
        digit <= 9,
    ensures
        digits_value(Seq::empty()) == 0,
        digits_value(s.push(('0' as nat + digit) as char)) == 10 * digits_value(s) + digit,
{
    let c = ('0' as nat + digit) as char;
    assert(s.push(c).drop_last() =~= s);
    assert(s.push(c).last() == c);
}

/// Two numbers have the same numeral only where they are the same number.
pub proof fn law_numerals_are_distinct(a: int, b: int)
    requires
        signed_decimal(a) == signed_decimal(b),
    ensures
        a == b,
{
    let m = if a < 0 {
        (-a) as nat
    } else {
        a as nat
    };
    let n = if b < 0 {
        (-b) as nat
    } else {
        b as nat
    };
    lemma_decimal_value(m);
    lemma_decimal_value(n);
    assert(is_digit(decimal(m)[0]));
    assert(is_digit(decimal(n)[0]));
    assert(signed_decimal(a)[0] == signed_decimal(b)[0]);
    if a < 0 {
        assert(signed_decimal(a).drop_first() =~= decimal(m));
        assert(signed_decimal(b).drop_first() =~= decimal(n));
    }
}

/// A text stands for a number in the range of `i32` exactly where it is digits,
/// with an optional sign in front, and for that number.
pub proof fn law_a_text_stands_for_the_number_of_its_digits(digits: Seq<char>)
    requires
        digits.len() > 0,
        forall|i: int| 0 <= i < digits.len() ==> '0' <= (#[trigger] digits[i]) <= '9',
    ensures
        i32_value(digits) == if digits_value(digits) <= 0x7fff_ffff {
            Some(digits_value(digits) as int)
        } else {
            None
        },
        i32_value(seq!['+'] + digits) == i32_value(digits),
        i32_value(seq!['-'] + digits) == if digits_value(digits) <= 0x8000_0000 {
            Some(-(digits_value(digits) as int))
        } else {
            None
        },
{
    assert('0' <= digits[0] <= '9');
    assert(all_digits(digits));
    assert((seq!['+'] + digits).drop_first() =~= digits);
    assert((seq!['-'] + digits).drop_first() =~= digits);
}

/// What is trimmed off a text is white space, all of it: what is left is a part
/// of the text, with nothing but white space in front of it and behind it, and
/// neither starts nor ends with any.
pub proof fn law_trimming_takes_the_white_space_off_both_ends(s: Seq<char>)
    ensures
        exists|start: int, end: int|
            0 <= start <= end <= s.len() && trimmed(s) == #[trigger] s.subrange(start, end)
                && blank(s.take(start)) && blank(s.skip(end)),
        trimmed(s).len() > 0 ==> !is_white_space(trimmed(s)[0]) && !is_white_space(
            trimmed(s).last(),
        ),
{
    let start = lemma_trimmed_start_at(s);
    let rest = s.skip(start);
    let length = lemma_trimmed_end_at(rest);
    let end = start + length;
    assert(rest.take(length) =~= s.subrange(start, end));
    assert(rest.skip(length) =~= s.skip(end));
    lemma_blank_is_trimmed_to_nothing(s);
    if trimmed(s).len() > 0 {
        lemma_trimmed_keeps_text(s);
    }
}

proof fn lemma_trimmed_start_at(s: Seq<char>) -> (start: int)
    ensures
        0 <= start <= s.len(),
        trimmed_start(s) == s.skip(start),
        blank(s.take(start)),
    decreases s.len(),
{
    if s.len() > 0 && is_white_space(s[0]) {
        let start = lemma_trimmed_start_at(s.drop_first());
        assert(s.drop_first().skip(start) =~= s.skip(start + 1));
        assert forall|i: int| 0 <= i < s.take(start + 1).len() implies is_white_space(
            #[trigger] s.take(start + 1)[i],
        ) by {
            if i > 0 {
                assert(s.take(start + 1)[i] == s.drop_first().take(start)[i - 1]);
            }
        }
        start + 1
    } else {
        assert(s.skip(0) =~= s);
        0
    }
}

proof fn lemma_trimmed_end_at(s: Seq<char>) -> (end: int)
    ensures
        0 <= end <= s.len(),
        trimmed_end(s) == s.take(end),
        blank(s.skip(end)),
    decreases s.len(),
{
    if s.len() > 0 && is_white_space(s.last()) {
        let init = s.drop_last();
        let end = lemma_trimmed_end_at(init);
        assert(init.take(end) =~= s.take(end));
        assert forall|i: int| 0 <= i < s.skip(end).len() implies is_white_space(
            #[trigger] s.skip(end)[i],
        ) by {
            if i < init.len() - end {
                assert(s.skip(end)[i] == init.skip(end)[i]);
            }
        }
        end
    } else {
        assert(s.take(s.len() as int) =~= s);
        s.len() as int
    }
}

/// A text is blank exactly where every character of it is white space. Spaces,
/// tabs and line ends are white space; no visible ASCII character is.
pub proof fn law_what_is_blank(s: Seq<char>, c: char)
    ensures
        blank(s) <==> forall|i: int| 0 <= i < s.len() ==> is_white_space(#[trigger] s[i]),
        is_white_space(' '),
        is_white_space('\t'),
        is_white_space('\n'),
        is_white_space('\r'),
        is_white_space('\u{a0}'),
        is_white_space('\u{3000}'),
        '!' <= c <= '~' ==> !is_white_space(c),
{
}

/// Texts are joined one after the other, in their order, with the separator
/// between neighbours and nowhere else.
pub proof fn law_joining_puts_the_separator_between(
    parts: Seq<Seq<char>>,
    last: Seq<char>,
    separator: Seq<char>,
)
    ensures
        joined(Seq::empty(), separator) == Seq::<char>::empty(),
        joined(seq![last], separator) == last,
        parts.len() > 0 ==> joined(parts.push(last), separator) == joined(parts, separator)
            + separator + last,
{
    assert(parts.push(last).drop_last() =~= parts);
}

proof fn lemma_text_le(a: Seq<char>, b: Seq<char>, i: int)
    requires
        0 <= i < a.len(),
        i < b.len(),
        a[i] != b[i],
        forall|j: int| 0 <= j < i ==> a[j] == b[j],
    ensures
        text_le(a, b) <==> a[i] < b[i],
    decreases i,
{
    if i > 0 {
        assert(a[0] == b[0]);
        assert forall|j: int| 0 <= j < i - 1 implies a.drop_first()[j] == b.drop_first()[j] by {
            assert(a[j + 1] == b[j + 1]);
        }
        lemma_text_le(a.drop_first(), b.drop_first(), i - 1);
    }
}

proof fn lemma_text_le_prefix(a: Seq<char>, b: Seq<char>)
    requires
        a.len() <= b.len(),
        forall|j: int| 0 <= j < a.len() ==> a[j] == b[j],
    ensures
        text_le(a, b),
        a.len() < b.len() ==> !text_le(b, a),
    decreases a.len(),
{
    if a.len() > 0 {
        assert(a[0] == b[0]);
        assert forall|j: int| 0 <= j < a.len() - 1 implies a.drop_first()[j]
            == b.drop_first()[j] by {
            assert(a[j + 1] == b[j + 1]);
        }
        lemma_text_le_prefix(a.drop_first(), b.drop_first());
    }
}

/// Texts are ordered by the first character in which they differ; where they
/// differ in none, the shorter one comes first.
pub proof fn law_texts_are_ordered_by_their_first_difference(a: Seq<char>, b: Seq<char>, i: int)
    requires
        0 <= i <= a.len(),
        i <= b.len(),
        forall|j: int| 0 <= j < i ==> a[j] == b[j],
        i < a.len() && i < b.len() ==> a[i] != b[i],
    ensures
        i < a.len() && i < b.len() ==> (text_le(a, b) <==> a[i] < b[i]),
        i == a.len() ==> text_le(a, b),
        i == b.len() && i < a.len() ==> !text_le(a, b),
{
    if i < a.len() && i < b.len() {
        lemma_text_le(a, b, i);
    } else if i == a.len() {
        lemma_text_le_prefix(a, b);
    } else {
        lemma_text_le_prefix(b, a);
    }
}

/// An optional text is seen as the text that it is, and as no text where there
/// is none.
pub proof fn law_optional_texts_are_seen_as_they_are(owned: Option<String>, borrowed: Option<&str>)
    ensures
        owned matches Some(text) ==> opt_text(owned) == Some(text@),
        owned is None ==> opt_text(owned) is None,
        borrowed matches Some(text) ==> opt_str(borrowed) == Some(text@),
        borrowed is None ==> opt_str(borrowed) is None,
        text_or_empty(opt_text(owned)) == if owned is Some {
            owned->0@
        } else {
            Seq::empty()
        },
{
}

/// The characters that are white space, each of them.
pub proof fn law_which_characters_are_white_space(c: char)
    ensures
        is_white_space(c) <==> {
            ||| c == '\u{9}'
            ||| c == '\u{a}'
            ||| c == '\u{b}'
            ||| c == '\u{c}'
            ||| c == '\u{d}'
            ||| c == '\u{20}'
            ||| c == '\u{85}'
            ||| c == '\u{a0}'
            ||| c == '\u{1680}'
            ||| c == '\u{2000}'
            ||| c == '\u{2001}'
            ||| c == '\u{2002}'
            ||| c == '\u{2003}'
            ||| c == '\u{2004}'
            ||| c == '\u{2005}'
            ||| c == '\u{2006}'
            ||| c == '\u{2007}'
            ||| c == '\u{2008}'
            ||| c == '\u{2009}'
            ||| c == '\u{200a}'
            ||| c == '\u{2028}'
            ||| c == '\u{2029}'
            ||| c == '\u{202f}'
            ||| c == '\u{205f}'
            ||| c == '\u{3000}'
        },
{
}

/// Only digits with an optional sign in front stand for a number.
pub proof fn law_only_digits_stand_for_a_number(s: Seq<char>)
    requires
        i32_value(s) is Some,
    ensures
        s.len() > 0,
        forall|i: int|
            0 <= i < s.len() ==> ('0' <= (#[trigger] s[i]) <= '9') || (i == 0 && s.len() > 1 && (
            s[i] == '-' || s[i] == '+')),
        -0x8000_0000 <= i32_value(s)->0 <= 0x7fff_ffff,
{
    let signed = s[0] == '-' || s[0] == '+';
    let digits = if signed {
        s.drop_first()
    } else {
        s
    };
    assert forall|i: int| 0 <= i < s.len() implies ('0' <= (#[trigger] s[i]) <= '9') || (i == 0
        && s.len() > 1 && (s[i] == '-' || s[i] == '+')) by {
        if signed && i > 0 {
            assert(is_digit(digits[i - 1]));
        } else if !signed {
            assert(is_digit(digits[i]));
        }
    }
}

} // verus!
