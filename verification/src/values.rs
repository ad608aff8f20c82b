//! The values that the command line and the layout files hand in, and the
//! checks that let them in. A flag and a file field of the same kind are
//! accepted or rejected by the same function here. The `parse_*` functions
//! read what the matching `validate_*` function has accepted.

use crate::text;
use vstd::prelude::*;

verus! {

broadcast use vstd::string::group_string_axioms;

/// The direction in which a container is split.
#[derive(Copy, Clone, Debug, PartialEq, Eq, Structural)]
pub enum Split {
    V,
    H,
}

/// A height or a width, in pixels or in percent.
#[derive(Copy, Clone, Debug, PartialEq, Eq, Structural)]
pub enum Size {
    Pixels(i32),
    Percent(i32),
}

/// Where a window is put: at the centre of its output, or at coordinates of
/// the global space that all outputs share.
#[derive(Copy, Clone, Debug, PartialEq, Eq, Structural)]
pub enum Position {
    Center,
    Coordinates { x: i32, y: i32 },
}

impl Split {
    /// The name of this direction.
    pub open spec fn display(self) -> Seq<char> {
        match self {
            Split::V => "Vertical"@,
            Split::H => "Horizontal"@,
        }
    }

    /// The name of this direction.
    pub fn to_string(&self) -> (text: String)
        ensures
            text@ == self.display(),
    {
        match self {
            Split::V => "Vertical".to_owned(),
            Split::H => "Horizontal".to_owned(),
        }
    }
}

impl Size {
    /// This size as `<n>px` or `<n>ppt`.
    pub open spec fn display(self) -> Seq<char> {
        match self {
            Size::Pixels(pixels) => text::signed_decimal(pixels as int) + "px"@,
            Size::Percent(percent) => text::signed_decimal(percent as int) + "ppt"@,
        }
    }

    /// This size as `<n>px` or `<n>ppt`.
    pub fn to_string(&self) -> (text: String)
        ensures
            text@ == self.display(),
    {
        match self {
            Size::Pixels(pixels) => text::signed_decimal_text(*pixels as i64).concat("px"),
            Size::Percent(percent) => text::signed_decimal_text(*percent as i64).concat("ppt"),
        }
    }
}

impl Position {
    /// This position as `center` or `<x>,<y>`.
    pub open spec fn display(self) -> Seq<char> {
        match self {
            Position::Center => "center"@,
            Position::Coordinates { x, y } => text::signed_decimal(x as int) + ","@ + text::signed_decimal(
                y as int,
            ),
        }
    }

    /// This position as `center` or `<x>,<y>`.
    pub fn to_string(&self) -> (text: String)
        ensures
            text@ == self.display(),
    {
        match self {
            Position::Center => "center".to_owned(),
            Position::Coordinates { x, y } => text::concat3(
                text::signed_decimal_text(*x as i64).as_str(),
                ",",
                text::signed_decimal_text(*y as i64).as_str(),
            ),
        }
    }
}

/// Whether a text ends with another.
pub open spec fn ends_with(s: Seq<char>, suffix: Seq<char>) -> bool {
    s.len() >= suffix.len() && s.skip(s.len() - suffix.len()) == suffix
}

/// A text without its last `n` characters.
pub open spec fn without_last(s: Seq<char>, n: int) -> Seq<char> {
    s.take(s.len() - n)
}

/// The size that a text stands for: a number in the range of `i32` and the
/// unit `px` or `ppt`.
pub open spec fn parsed_size(s: Seq<char>) -> Option<Size> {
    if ends_with(s, "px"@) {
        match text::i32_value(without_last(s, 2)) {
            Some(pixels) => Some(Size::Pixels(pixels as i32)),
            None => None,
        }
    } else if ends_with(s, "ppt"@) {
        match text::i32_value(without_last(s, 3)) {
            Some(percent) => Some(Size::Percent(percent as i32)),
            None => None,
        }
    } else {
        None
    }
}

/// Whether a text is an acceptable size: one whose number has no sign.
pub open spec fn valid_size(s: Seq<char>) -> bool {
    parsed_size(s) is Some && text::is_digit(s[0])
}

/// The position that a text stands for: `center`, or two numbers in the range
/// of `i32` with a comma between them.
pub open spec fn parsed_position(s: Seq<char>) -> Option<Position> {
    let parts = text::split_on(s, ',');
    if s == "center"@ {
        Some(Position::Center)
    } else if parts.len() == 2 {
        match (text::i32_value(parts[0]), text::i32_value(parts[1])) {
            (Some(x), Some(y)) => Some(Position::Coordinates { x: x as i32, y: y as i32 }),
            _ => None,
        }
    } else {
        None
    }
}

/// Whether a text is an acceptable position: one whose numbers have no sign
/// but a `-`.
pub open spec fn valid_position(s: Seq<char>) -> bool {
    parsed_position(s) is Some && !s.contains('+')
}

/// What an unacceptable size is answered.
pub const SIZE_FORMAT_ERROR: &'static str =
    "Must be in format <HEIGHT>px|ppt. E.g. 300px/20ppt. ppt = percent";

/// What an unacceptable position is answered.
pub const POSITION_FORMAT_ERROR: &'static str =
    "Must be \"center\" or \"<X>,<Y>\" in pixels (X/Y may be negative). E.g. center/100,200/-100,200";

/// What a blank value is answered.
pub const BLANK_ERROR: &'static str = "Must not be empty or whitespace-only";

/// What a value with a double quote in it is answered.
pub const QUOTE_ERROR: &'static str =
    "Must not contain '\"' — Sway stores it literally rather than unescaping it, so the value would not round-trip";

/// What a value with a backslash in it is answered.
pub const BACKSLASH_ERROR: &'static str =
    "Must not contain '\\\\' — Sway stores it literally rather than unescaping it, so the value would not round-trip";

/// What a value with a newline in it is answered.
pub const NEWLINE_ERROR: &'static str =
    "Must not contain a newline — Sway rewrites it to \";\" when storing the value, so the value would not round-trip";

/// A pattern for a size: digits, then a unit. Its one group holds the digits.
pub const SIZE_PATTERN: &'static str = "^(\\d+)(?:px|ppt)$";

/// A pattern for coordinates: two runs of digits, each with an optional `-`,
/// and a comma between them. Its two groups hold the two numbers.
pub const POSITION_PATTERN: &'static str = "^(-?\\d+),(-?\\d+)$";

/// The texts that the groups of a match captured, the whole match first.
pub open spec fn captured(groups: Option<Vec<Option<String>>>) -> Option<Seq<Option<Seq<char>>>> {
    match groups {
        Some(groups) => Some(groups@.map_values(|group: Option<String>| text::opt_text(group))),
        None => None,
    }
}

/// Whether the characters of a text are digits wherever they are ASCII.
pub open spec fn digits_where_ascii(s: Seq<char>) -> bool {
    forall|i: int| 0 <= i < s.len() && (#[trigger] s[i]) < '\u{80}' ==> text::is_digit(s[i])
}

/// Whether a text is a number and a unit.
pub open spec fn number_with_unit(s: Seq<char>, number: Seq<char>) -> bool {
    number.len() > 0 && (s == number + "px"@ || s == number + "ppt"@)
}

/// A text without the `-` in front of it, where there is one.
pub open spec fn unsigned_part(s: Seq<char>) -> Seq<char> {
    if s.len() > 0 && s[0] == '-' {
        s.drop_first()
    } else {
        s
    }
}

/// Whether a text is two texts with a comma between them.
pub open spec fn comma_pair(s: Seq<char>, x: Seq<char>, y: Seq<char>) -> bool {
    s == x + ","@ + y
}

/// What the regular expression `pattern` captures in `haystack`: `None` where
/// it does not match, else the text of each group, the whole match first.
pub uninterp spec fn regex_captures(pattern: Seq<char>, haystack: Seq<char>) -> Option<
    Seq<Option<Seq<char>>>,
>;

/// Calls `regex::Regex::new` on one of this module's two patterns, both of
/// which are valid, and `regex::Regex::captures` with the result. What comes
/// back depends on the pattern and the haystack alone.
///
/// `^` and `$` anchor both patterns to the whole haystack, and `\d` stands for
/// any decimal digit of Unicode, of which `0` to `9` are the ASCII ones. So a
/// match of the size pattern shows the haystack to be a non-empty number, with
/// no ASCII character in it but digits, and a unit; and a non-empty run of the
/// digits `0` to `9` with a unit behind it does match. Likewise for the
/// position pattern: two such numbers, each with an optional `-`, and a comma.
#[verifier::external_body]
fn captures(pattern: &str, haystack: &str) -> (groups: Option<Vec<Option<String>>>)
    requires
        pattern@ == SIZE_PATTERN@ || pattern@ == POSITION_PATTERN@,
    ensures
        captured(groups) == regex_captures(pattern@, haystack@),
        pattern@ == SIZE_PATTERN@ && groups is Some ==> {
            &&& groups->0.len() == 2
            &&& groups->0[1] is Some
            &&& number_with_unit(haystack@, groups->0[1]->0@)
            &&& digits_where_ascii(groups->0[1]->0@)
        },
        pattern@ == SIZE_PATTERN@ && (exists|number: Seq<char>| #[trigger]
            number_with_unit(haystack@, number) && text::all_digits(number)) ==> groups is Some,
        pattern@ == POSITION_PATTERN@ && groups is Some ==> {
            &&& groups->0.len() == 3
            &&& groups->0[1] is Some
            &&& groups->0[2] is Some
            &&& comma_pair(haystack@, groups->0[1]->0@, groups->0[2]->0@)
            &&& unsigned_part(groups->0[1]->0@).len() > 0
            &&& unsigned_part(groups->0[2]->0@).len() > 0
            &&& digits_where_ascii(unsigned_part(groups->0[1]->0@))
            &&& digits_where_ascii(unsigned_part(groups->0[2]->0@))
        },
        pattern@ == POSITION_PATTERN@ && (exists|x: Seq<char>, y: Seq<char>| #[trigger]
            comma_pair(haystack@, x, y) && unsigned_part(x).len() > 0 && unsigned_part(y).len() > 0
                && text::all_digits(unsigned_part(x)) && text::all_digits(unsigned_part(y)))
            ==> groups is Some,
{
    let regex = regex::Regex::new(pattern).unwrap();
    let found = regex.captures(haystack)?;
    Some(found.iter().map(|group| group.map(|part| part.as_str().to_owned())).collect())
}

/// A number with a unit behind it parses as a size exactly where the number
/// parses.
proof fn lemma_number_with_unit(s: Seq<char>, number: Seq<char>)
    requires
        number_with_unit(s, number),
    ensures
        parsed_size(s) is Some <==> text::i32_value(number) is Some,
        s[0] == number[0],
{
    reveal_strlit("px");
    reveal_strlit("ppt");
    if s == number + "px"@ {
        assert(without_last(s, 2) =~= number);
        assert(s.skip(s.len() - 2) =~= "px"@);
    } else {
        assert(without_last(s, 3) =~= number);
        assert(s.skip(s.len() - 3) =~= "ppt"@);
        if ends_with(s, "px"@) {
            assert(s.skip(s.len() - 2).last() == s.last());
            assert("px"@.last() == 'x');
        }
    }
}

/// Checks a height or a width: a number without a sign that fits in an `i32`,
/// and the unit `px` or `ppt`.
pub fn validate_size_argument(value: &str) -> (result: Result<String, String>)
    ensures
        match result {
            Ok(accepted) => valid_size(value@) && accepted@ == value@,
            Err(error) => !valid_size(value@) && error@ == SIZE_FORMAT_ERROR@,
        },
{
    let groups = captures(SIZE_PATTERN, value);
    if let Some(groups) = groups {
        if let Some(number) = &groups[1] {
            proof {
                lemma_number_with_unit(value@, number@);
                assert(value@[0] == number@[0]);
            }
            if text::parse_i32(number.as_str()).is_some() {
                proof {
                    assert(number@[0] < '\u{80}');
                }
                return Ok(value.to_owned());
            }
        }
    } else {
        proof {
            if valid_size(value@) {
                let number = if ends_with(value@, "px"@) {
                    without_last(value@, 2)
                } else {
                    without_last(value@, 3)
                };
                reveal_strlit("px");
                reveal_strlit("ppt");
                if ends_with(value@, "px"@) {
                    assert(value@ =~= number + "px"@);
                } else {
                    assert(value@ =~= number + "ppt"@);
                }
                assert(number[0] == value@[0]);
                assert(number_with_unit(value@, number) && text::all_digits(number));
            }
        }
    }
    Err(SIZE_FORMAT_ERROR.to_owned())
}

/// A signed number without a `+` is an optional `-` and digits.
proof fn lemma_unsigned_part(s: Seq<char>)
    requires
        unsigned_part(s).len() > 0,
        digits_where_ascii(unsigned_part(s)),
    ensures
        text::i32_value(s) is Some ==> text::all_digits(unsigned_part(s)),
        !s.contains(','),
        !s.contains('+'),
{
    let rest = unsigned_part(s);
    assert(rest[0] < '\u{80}' ==> text::is_digit(rest[0]));
    assert forall|i: int| 0 <= i < s.len() implies s[i] != ',' && s[i] != '+' by {
        if s[0] == '-' && i > 0 {
            assert(s[i] == rest[i - 1]);
        } else if s[0] != '-' {
            assert(s[i] == rest[i]);
        }
    }
}

/// Checks a position: `center`, or two numbers that fit in an `i32` with a
/// comma between them, each with an optional `-` in front of it.
pub fn validate_position_argument(value: &str) -> (result: Result<String, String>)
    ensures
        match result {
            Ok(accepted) => valid_position(value@) && accepted@ == value@,
            Err(error) => !valid_position(value@) && error@ == POSITION_FORMAT_ERROR@,
        },
{
    if text::same_text(value, "center") {
        proof {
            reveal_strlit("center");
        }
        return Ok(value.to_owned());
    }
    proof {
        reveal_strlit(",");
        assert(","@ =~= seq![',']);
    }
    let groups = captures(POSITION_PATTERN, value);
    if let Some(groups) = groups {
        if let (Some(x), Some(y)) = (&groups[1], &groups[2]) {
            proof {
                lemma_unsigned_part(x@);
                lemma_unsigned_part(y@);
                text::lemma_split_on_pair(x@, y@, ',');
                assert(!value@.contains('+')) by {
                    if value@.contains('+') {
                        let i = choose|i: int| 0 <= i < value@.len() && value@[i] == '+';
                        if i < x@.len() {
                            assert(x@[i] == '+');
                        } else if i > x@.len() {
                            assert(y@[i - x@.len() - 1] == '+');
                        }
                    }
                }
            }
            if text::parse_i32(x.as_str()).is_some() && text::parse_i32(y.as_str()).is_some() {
                return Ok(value.to_owned());
            }
        }
    } else {
        proof {
            if valid_position(value@) {
                let parts = text::split_on(value@, ',');
                let x = parts[0];
                let y = parts[1];
                text::lemma_split_on(value@, ',');
                reveal_with_fuel(text::joined, 2);
                assert(parts.drop_last() =~= seq![x]);
                assert(value@ == x + seq![','] + y);
                assert forall|c: char| x.contains(c) || y.contains(c) implies value@.contains(c) by {
                    if x.contains(c) {
                        let i = choose|i: int| 0 <= i < x.len() && x[i] == c;
                        assert(value@[i] == c);
                    } else {
                        let i = choose|i: int| 0 <= i < y.len() && y[i] == c;
                        assert(value@[x.len() + 1 + i] == c);
                    }
                }
                assert(x[0] != '+') by {
                    assert(x.contains(x[0]));
                }
                assert(y[0] != '+') by {
                    assert(y.contains(y[0]));
                }
                assert(comma_pair(value@, x, y));
            }
        }
    }
    Err(POSITION_FORMAT_ERROR.to_owned())
}

/// Reads a size.
pub fn parse_size(value: &str) -> (size: Size)
    requires
        parsed_size(value@) is Some,
    ensures
        Some(size) == parsed_size(value@),
{
    proof {
        reveal_strlit("px");
        reveal_strlit("ppt");
    }
    let length: usize = value.unicode_len();
    if text::same_text(value.substring_char(length - 2, length), "px") {
        proof {
            assert(value@.subrange(length - 2, length as int) =~= value@.skip(length - 2));
            assert(value@.subrange(0, length - 2) =~= without_last(value@, 2));
        }
        Size::Pixels(text::parse_i32(value.substring_char(0, length - 2)).unwrap())
    } else {
        proof {
            assert(value@.subrange(length - 2, length as int) =~= value@.skip(length - 2));
            assert(value@.subrange(0, length - 3) =~= without_last(value@, 3));
        }
        Size::Percent(text::parse_i32(value.substring_char(0, length - 3)).unwrap())
    }
}

/// Reads a position.
pub fn parse_position(value: &str) -> (position: Position)
    requires
        parsed_position(value@) is Some,
    ensures
        Some(position) == parsed_position(value@),
{
    if text::same_text(value, "center") {
        return Position::Center;
    }
    let parts = text::split(value, ',');
    assert(text::strs(parts@)[0] == parts@[0]@);
    assert(text::strs(parts@)[1] == parts@[1]@);
    Position::Coordinates {
        x: text::parse_i32(parts[0]).unwrap(),
        y: text::parse_i32(parts[1]).unwrap(),
    }
}

/// Whether a text can stand in a Sway command as a quoted string and be stored
/// as it is: not blank, and without a double quote, a backslash or a newline.
pub open spec fn valid_sway_string(s: Seq<char>) -> bool {
    !text::blank(s) && !s.contains('"') && !s.contains('\\') && !s.contains('\n')
}

/// Whether the first of the double quotes and backslashes in a text is the
/// given one.
pub open spec fn first_quote_or_backslash(s: Seq<char>, c: char) -> bool {
    exists|i: int|
        0 <= i < s.len() && #[trigger] s[i] == c && (c == '"' || c == '\\') && forall|j: int|
            0 <= j < i ==> #[trigger] s[j] != '"' && s[j] != '\\'
}

/// Why a text cannot stand in a Sway command as a quoted string.
pub open spec fn sway_string_error(s: Seq<char>) -> Seq<char> {
    if text::blank(s) {
        BLANK_ERROR@
    } else if first_quote_or_backslash(s, '"') {
        QUOTE_ERROR@
    } else if first_quote_or_backslash(s, '\\') {
        BACKSLASH_ERROR@
    } else {
        NEWLINE_ERROR@
    }
}

/// Checks a value that goes into a Sway command as a quoted string: a mark, a
/// workspace or an output.
pub fn validate_sway_string_argument(value: &str) -> (result: Result<String, String>)
    ensures
        match result {
            Ok(accepted) => valid_sway_string(value@) && accepted@ == value@,
            Err(error) => !valid_sway_string(value@) && error@ == sway_string_error(value@),
        },
{
    if text::is_blank(value) {
        return Err(BLANK_ERROR.to_owned());
    }
    let chars = text::chars_of(value);
    let mut newline = false;
    let mut i: usize = 0;
    while i < chars.len()
        invariant
            i <= chars.len(),
            chars@ == value@,
            !text::blank(value@),
            newline == value@.take(i as int).contains('\n'),
            forall|j: int| 0 <= j < i ==> #[trigger] value@[j] != '"' && value@[j] != '\\',
        decreases chars.len() - i,
    {
        let c = chars[i];
        if c == '"' {
            assert(value@[i as int] == '"');
            assert(first_quote_or_backslash(value@, '"'));
            return Err(QUOTE_ERROR.to_owned());
        }
        if c == '\\' {
            assert(value@[i as int] == '\\');
            assert(first_quote_or_backslash(value@, '\\'));
            return Err(BACKSLASH_ERROR.to_owned());
        }
        if c == '\n' {
            newline = true;
            assert(value@.take(i + 1)[i as int] == '\n');
        }
        proof {
            let before = value@.take(i as int);
            let after = value@.take(i + 1);
            if before.contains('\n') {
                let k = choose|k: int| 0 <= k < before.len() && before[k] == '\n';
                assert(after[k] == '\n');
            }
            if after.contains('\n') && c != '\n' {
                let k = choose|k: int| 0 <= k < after.len() && after[k] == '\n';
                assert(before[k] == '\n');
            }
        }
        i += 1;
    }
    assert(value@.take(i as int) =~= value@);
    if newline {
        return Err(NEWLINE_ERROR.to_owned());
    }
    Ok(value.to_owned())
}

/// Checks a value whose only constraint is that it is not blank.
pub fn validate_non_blank_argument(value: &str) -> (result: Result<String, String>)
    ensures
        match result {
            Ok(accepted) => !text::blank(value@) && accepted@ == value@,
            Err(error) => text::blank(value@) && error@ == BLANK_ERROR@,
        },
{
    if text::is_blank(value) {
        return Err(BLANK_ERROR.to_owned());
    }
    Ok(value.to_owned())
}

/// What a blank field is answered.
pub open spec fn blank_field_error(field: Seq<char>) -> Seq<char> {
    field + " must not be empty or whitespace-only"@
}

/// Checks that a named field is not blank.
pub fn require_non_blank(field: &str, value: &str) -> (result: Result<(), String>)
    ensures
        match result {
            Ok(()) => !text::blank(value@),
            Err(error) => text::blank(value@) && error@ == blank_field_error(field@),
        },
{
    if text::is_blank(value) {
        Err(text::concat(field, " must not be empty or whitespace-only"))
    } else {
        Ok(())
    }
}

/// What is shown for a size parses back to it, and is an acceptable size
/// exactly where the size is not negative.
pub proof fn law_size_round_trip(size: Size)
    ensures
        parsed_size(size.display()) == Some(size),
        valid_size(size.display()) <==> match size {
            Size::Pixels(n) | Size::Percent(n) => n >= 0,
        },
{
    reveal_strlit("px");
    reveal_strlit("ppt");
    let s = size.display();
    match size {
        Size::Pixels(n) => {
            text::lemma_i32_round_trip(n);
            let numeral = text::signed_decimal(n as int);
            assert(without_last(s, 2) =~= numeral);
            assert(s.skip(s.len() - 2) =~= "px"@);
            assert(s[0] == numeral[0]);
        },
        Size::Percent(n) => {
            text::lemma_i32_round_trip(n);
            let numeral = text::signed_decimal(n as int);
            assert(without_last(s, 3) =~= numeral);
            assert(s.skip(s.len() - 3) =~= "ppt"@);
            assert(s[0] == numeral[0]);
            if ends_with(s, "px"@) {
                assert(s.skip(s.len() - 2).last() == s.last());
                assert("px"@.last() == 'x');
            }
        },
    }
}

/// What is shown for a position is an acceptable position and parses back to
/// it.
pub proof fn law_position_round_trip(position: Position)
    ensures
        parsed_position(position.display()) == Some(position),
        valid_position(position.display()),
{
    reveal_strlit("center");
    reveal_strlit(",");
    assert(","@ =~= seq![',']);
    if let Position::Coordinates { x, y } = position {
        text::lemma_i32_round_trip(x);
        text::lemma_i32_round_trip(y);
        let left = text::signed_decimal(x as int);
        let right = text::signed_decimal(y as int);
        let s = position.display();
        text::lemma_split_on_pair(left, right, ',');
        assert(s[0] == left[0]);
        assert("center"@[0] == 'c');
        assert forall|i: int| 0 <= i < s.len() implies s[i] != '+' by {
            if i < left.len() {
                assert(s[i] == left[i]);
            } else if i > left.len() {
                assert(s[i] == right[i - left.len() - 1]);
            }
        }
    }
}

/// Every size that passes the check is one that can be read, and is not
/// negative.
pub proof fn law_valid_size_parses(s: Seq<char>)
    requires
        valid_size(s),
    ensures
        match parsed_size(s) {
            Some(Size::Pixels(n)) | Some(Size::Percent(n)) => n >= 0,
            None => false,
        },
{
    reveal_strlit("px");
    reveal_strlit("ppt");
}

/// A number without a sign, in the range of `i32`, and a unit are an acceptable
/// size, of just that number: of pixels with `px` behind it, of percent with
/// `ppt`.
pub proof fn law_a_size_is_a_number_and_a_unit(number: Seq<char>)
    requires
        number.len() > 0,
        text::all_digits(number),
        text::digits_value(number) <= 0x7fff_ffff,
    ensures
        valid_size(number + "px"@),
        parsed_size(number + "px"@) == Some(Size::Pixels(text::digits_value(number) as i32)),
        valid_size(number + "ppt"@),
        parsed_size(number + "ppt"@) == Some(Size::Percent(text::digits_value(number) as i32)),
{
    reveal_strlit("px");
    reveal_strlit("ppt");
    assert(text::is_digit(number[0]));
    let px = number + "px"@;
    let ppt = number + "ppt"@;
    assert(without_last(px, 2) =~= number);
    assert(px.skip(px.len() - 2) =~= "px"@);
    assert(without_last(ppt, 3) =~= number);
    assert(ppt.skip(ppt.len() - 3) =~= "ppt"@);
    assert(!ends_with(ppt, "px"@)) by {
        assert(ppt.skip(ppt.len() - 2).last() == 't');
        assert("px"@.last() == 'x');
    }
    assert(px[0] == number[0] && ppt[0] == number[0]);
}

/// Nothing else is an acceptable size.
pub proof fn law_nothing_else_is_a_size(s: Seq<char>)
    requires
        valid_size(s),
    ensures
        exists|number: Seq<char>| #[trigger]
            number_with_unit(s, number) && text::all_digits(number) && text::digits_value(number)
                <= 0x7fff_ffff,
{
    reveal_strlit("px");
    reveal_strlit("ppt");
    let number = if ends_with(s, "px"@) {
        without_last(s, 2)
    } else {
        without_last(s, 3)
    };
    if ends_with(s, "px"@) {
        assert(s =~= number + "px"@);
    } else {
        assert(s =~= number + "ppt"@);
    }
    assert(number[0] == s[0]);
    assert(number_with_unit(s, number) && text::all_digits(number));
}

/// Two numbers in the range of `i32` with a comma between them, each with an
/// optional `-`, are an acceptable position, of just those numbers in that
/// order; `center` is the centre.
pub proof fn law_a_position_is_two_numbers_or_the_centre(x: Seq<char>, y: Seq<char>)
    requires
        unsigned_part(x).len() > 0,
        unsigned_part(y).len() > 0,
        text::all_digits(unsigned_part(x)),
        text::all_digits(unsigned_part(y)),
        text::i32_value(x) is Some,
        text::i32_value(y) is Some,
    ensures
        valid_position(x + ","@ + y),
        parsed_position(x + ","@ + y) == Some(
            Position::Coordinates {
                x: text::i32_value(x)->0 as i32,
                y: text::i32_value(y)->0 as i32,
            },
        ),
        valid_position("center"@),
        parsed_position("center"@) == Some(Position::Center),
{
    reveal_strlit(",");
    reveal_strlit("center");
    assert(","@ =~= seq![',']);
    lemma_plain_number(x);
    lemma_plain_number(y);
    let s = x + ","@ + y;
    text::lemma_split_on_pair(x, y, ',');
    assert(s[0] == x[0]);
    assert("center"@[0] == 'c');
    assert forall|i: int| 0 <= i < s.len() implies s[i] != '+' by {
        if i < x.len() {
            assert(s[i] == x[i]);
        } else if i > x.len() {
            assert(s[i] == y[i - x.len() - 1]);
        }
    }
}

proof fn lemma_plain_number(s: Seq<char>)
    requires
        unsigned_part(s).len() > 0,
        text::all_digits(unsigned_part(s)),
    ensures
        s.len() > 0,
        s[0] != 'c',
        !s.contains(','),
        !s.contains('+'),
{
    let rest = unsigned_part(s);
    assert(text::is_digit(rest[0]));
    assert forall|i: int| 0 <= i < s.len() implies s[i] != ',' && s[i] != '+' by {
        if s[0] == '-' && i > 0 {
            assert(text::is_digit(rest[i - 1]));
        } else if s[0] != '-' {
            assert(text::is_digit(rest[i]));
        }
    }
}

/// Nothing else is an acceptable position.
pub proof fn law_nothing_else_is_a_position(s: Seq<char>)
    requires
        valid_position(s),
    ensures
        s == "center"@ || exists|x: Seq<char>, y: Seq<char>| #[trigger]
            comma_pair(s, x, y) && text::i32_value(x) is Some && text::i32_value(y) is Some
                && text::all_digits(unsigned_part(x)) && text::all_digits(unsigned_part(y)),
{
    if s != "center"@ {
        reveal_strlit(",");
        assert(","@ =~= seq![',']);
        let parts = text::split_on(s, ',');
        let x = parts[0];
        let y = parts[1];
        text::lemma_split_on(s, ',');
        reveal_with_fuel(text::joined, 2);
        assert(parts.drop_last() =~= seq![x]);
        assert(s == x + seq![','] + y);
        assert(x[0] != '+') by {
            assert(s[0] == x[0]);
            assert(s.contains(s[0]));
        }
        assert(y[0] != '+') by {
            assert(s[x.len() as int + 1] == y[0]);
            assert(s.contains(s[x.len() as int + 1]));
        }
        assert(comma_pair(s, x, y));
    }
}

/// A text can be stored as it is exactly where some character of it is not
/// white space, and none is a double quote, a backslash or a newline.
pub proof fn law_which_texts_can_be_stored(s: Seq<char>)
    ensures
        valid_sway_string(s) <==> (exists|i: int|
            0 <= i < s.len() && !text::is_white_space(#[trigger] s[i])) && forall|i: int|
            0 <= i < s.len() ==> (#[trigger] s[i]) != '"' && s[i] != '\\' && s[i] != '\n',
{
    if valid_sway_string(s) {
        assert forall|i: int| 0 <= i < s.len() implies (#[trigger] s[i]) != '"' && s[i] != '\\'
            && s[i] != '\n' by {
            assert(s.contains(s[i]));
        }
    }
    if forall|i: int|
        0 <= i < s.len() ==> (#[trigger] s[i]) != '"' && s[i] != '\\' && s[i] != '\n' {
        if s.contains('"') {
            let i = choose|i: int| 0 <= i < s.len() && s[i] == '"';
            assert(s[i] != '"');
        }
        if s.contains('\\') {
            let i = choose|i: int| 0 <= i < s.len() && s[i] == '\\';
            assert(s[i] != '\\');
        }
        if s.contains('\n') {
            let i = choose|i: int| 0 <= i < s.len() && s[i] == '\n';
            assert(s[i] != '\n');
        }
    }
}

/// Why a text cannot be stored: that it is blank, or else the first double quote
/// or backslash in it, or else a newline.
pub proof fn law_why_a_text_cannot_be_stored(s: Seq<char>, i: int)
    ensures
        text::blank(s) ==> sway_string_error(s) == "Must not be empty or whitespace-only"@,
        !text::blank(s) && 0 <= i < s.len() && s[i] == '"' && (forall|j: int|
            0 <= j < i ==> (#[trigger] s[j]) != '"' && s[j] != '\\') ==> sway_string_error(s)
            == QUOTE_ERROR@,
        !text::blank(s) && 0 <= i < s.len() && s[i] == '\\' && (forall|j: int|
            0 <= j < i ==> (#[trigger] s[j]) != '"' && s[j] != '\\') ==> sway_string_error(s)
            == BACKSLASH_ERROR@,
        !text::blank(s) && !s.contains('"') && !s.contains('\\') ==> sway_string_error(s)
            == NEWLINE_ERROR@,
{
    assert(BLANK_ERROR@ == "Must not be empty or whitespace-only"@);
    if 0 <= i < s.len() && s[i] == '\\' && (forall|j: int|
        0 <= j < i ==> (#[trigger] s[j]) != '"' && s[j] != '\\') {
        if first_quote_or_backslash(s, '"') {
            let k = choose|k: int|
                0 <= k < s.len() && #[trigger] s[k] == '"' && forall|j: int|
                    0 <= j < k ==> #[trigger] s[j] != '"' && s[j] != '\\';
            assert(k >= i);
            if k > i {
                assert(s[i] != '\\');
            }
        }
        assert(first_quote_or_backslash(s, '\\'));
    }
    if 0 <= i < s.len() && s[i] == '"' && (forall|j: int|
        0 <= j < i ==> (#[trigger] s[j]) != '"' && s[j] != '\\') {
        assert(first_quote_or_backslash(s, '"'));
    }
}

/// A blank field is named in its report.
pub proof fn law_a_blank_field_is_named(field: Seq<char>)
    ensures
        blank_field_error(field) == field + " must not be empty or whitespace-only"@,
{
}

/// What each value that cannot be used is answered.
pub proof fn law_what_unusable_values_are_answered()
    ensures
        SIZE_FORMAT_ERROR@ == "Must be in format <HEIGHT>px|ppt. E.g. 300px/20ppt. ppt = percent"@,
        POSITION_FORMAT_ERROR@
            == "Must be \"center\" or \"<X>,<Y>\" in pixels (X/Y may be negative). E.g. center/100,200/-100,200"@,
        BLANK_ERROR@ == "Must not be empty or whitespace-only"@,
        QUOTE_ERROR@
            == "Must not contain '\"' — Sway stores it literally rather than unescaping it, so the value would not round-trip"@,
        BACKSLASH_ERROR@
            == "Must not contain '\\\\' — Sway stores it literally rather than unescaping it, so the value would not round-trip"@,
        NEWLINE_ERROR@
            == "Must not contain a newline — Sway rewrites it to \";\" when storing the value, so the value would not round-trip"@,
{
}

/// What is shown for a direction, a size and a position.
pub proof fn law_what_is_shown_for_a_value(n: i32, x: i32, y: i32)
    ensures
        Split::V.display() == "Vertical"@,
        Split::H.display() == "Horizontal"@,
        Size::Pixels(n).display() == text::signed_decimal(n as int) + "px"@,
        Size::Percent(n).display() == text::signed_decimal(n as int) + "ppt"@,
        Position::Center.display() == "center"@,
        (Position::Coordinates { x, y }).display() == text::signed_decimal(x as int) + ","@
            + text::signed_decimal(y as int),
{
}

} // verus!
