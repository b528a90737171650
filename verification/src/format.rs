//! Formats: items that are read from a text one behind the other, each a
//! component of a timestamp or a literal byte.

use crate::calendar::Month;
use crate::error::FormatError;
use vstd::prelude::*;

verus! {

/// The byte `-`.
pub const HYPHEN: u8 = 45;

/// The byte `+`.
pub const PLUS: u8 = 43;

/// The byte `:`.
pub const COLON: u8 = 58;

/// The byte of a space.
pub const SPACE: u8 = 32;

/// The byte `T`.
pub const LETTER_T: u8 = 84;

/// The byte `0`; the other digits follow it.
pub const DIGIT_ZERO: u8 = 48;

/// A field of a timestamp.
#[derive(Copy, Clone, Debug, PartialEq, Eq, Structural)]
pub enum Component {
    /// A sign, which may be left out, and four digits.
    Year,
    /// Two digits, from `01` to `12`.
    Month,
    /// Two digits, from `01` to `31`.
    Day,
    /// One or two digits, from `0` to `23`.
    Hour,
    /// Two digits, from `00` to `59`.
    Minute,
    /// Two digits, from `00` to `59`.
    Second,
}

impl Component {
    /// The name of the component.
    pub open spec fn spec_name(&self) -> Seq<char> {
        match self {
            Component::Year => "year"@,
            Component::Month => "month"@,
            Component::Day => "day"@,
            Component::Hour => "hour"@,
            Component::Minute => "minute"@,
            Component::Second => "second"@,
        }
    }

    /// The name of the component.
    pub fn name(&self) -> (name: &'static str)
        ensures
            name@ == self.spec_name(),
    {
        match self {
            Component::Year => "year",
            Component::Month => "month",
            Component::Day => "day",
            Component::Hour => "hour",
            Component::Minute => "minute",
            Component::Second => "second",
        }
    }
}

/// One item of a format.
#[derive(Copy, Clone, Debug, PartialEq, Eq, Structural)]
pub enum FormatItem {
    /// The value of a component.
    Component(Component),
    /// One given byte.
    Literal(u8),
    /// One of two given bytes.
    First(u8, u8),
}

/// The fields that were read from a text.
#[derive(Copy, Clone, Debug, PartialEq, Eq, Structural)]
pub struct Parsed {
    pub year: Option<i32>,
    pub month: Option<Month>,
    pub day: Option<u8>,
    pub hour_24: Option<u8>,
    pub minute: Option<u8>,
    pub second: Option<u8>,
}

/// Whether `byte` is a decimal digit.
pub open spec fn is_digit(byte: u8) -> bool {
    DIGIT_ZERO <= byte <= DIGIT_ZERO + 9
}

/// The value of the digit at `pos`, where there is one.
pub open spec fn digit_at(s: Seq<u8>, pos: int) -> Option<int> {
    if 0 <= pos < s.len() && is_digit(s[pos]) {
        Some(s[pos] - DIGIT_ZERO)
    } else {
        None
    }
}

/// The value of the two digits at `pos`, where there are two.
pub open spec fn two_digits_at(s: Seq<u8>, pos: int) -> Option<int> {
    match (digit_at(s, pos), digit_at(s, pos + 1)) {
        (Some(tens), Some(ones)) => Some(10 * tens + ones),
        _ => None,
    }
}

/// The value of the four digits at `pos`, where there are four.
pub open spec fn four_digits_at(s: Seq<u8>, pos: int) -> Option<int> {
    match (two_digits_at(s, pos), two_digits_at(s, pos + 2)) {
        (Some(hundreds), Some(units)) => Some(100 * hundreds + units),
        _ => None,
    }
}

/// The year that `s` holds at `pos`, together with the position behind it: a
/// `-` or a `+`, which may be left out, and four digits.
pub open spec fn year_at(s: Seq<u8>, pos: int) -> Option<(int, int)> {
    if 0 <= pos < s.len() && s[pos] == HYPHEN {
        match four_digits_at(s, pos + 1) {
            Some(year) => Some((-year, pos + 5)),
            None => None,
        }
    } else if 0 <= pos < s.len() && s[pos] == PLUS {
        match four_digits_at(s, pos + 1) {
            Some(year) => Some((year, pos + 5)),
            None => None,
        }
    } else {
        match four_digits_at(s, pos) {
            Some(year) => Some((year, pos + 4)),
            None => None,
        }
    }
}

/// The value from `low` to `high` that `s` holds at `pos` in two digits,
/// together with the position behind it.
pub open spec fn two_digit_field_at(s: Seq<u8>, pos: int, low: int, high: int) -> Option<
    (int, int),
> {
    match two_digits_at(s, pos) {
        Some(value) if low <= value <= high => Some((value, pos + 2)),
        _ => None,
    }
}

/// The hour that `s` holds at `pos`, together with the position behind it:
/// two digits where there are two, else one, and a value below 24.
pub open spec fn hour_at(s: Seq<u8>, pos: int) -> Option<(int, int)> {
    if digit_at(s, pos + 1) is Some {
        two_digit_field_at(s, pos, 0, 23)
    } else {
        match digit_at(s, pos) {
            Some(hour) => Some((hour, pos + 1)),
            None => None,
        }
    }
}

/// The value of `component` that `s` holds at `pos`, together with the
/// position behind it, or `None` where `s` holds no such value there.
pub open spec fn component_at(s: Seq<u8>, pos: int, component: Component) -> Option<(int, int)> {
    match component {
        Component::Year => year_at(s, pos),
        Component::Month => two_digit_field_at(s, pos, 1, 12),
        Component::Day => two_digit_field_at(s, pos, 1, 31),
        Component::Hour => hour_at(s, pos),
        Component::Minute => two_digit_field_at(s, pos, 0, 59),
        Component::Second => two_digit_field_at(s, pos, 0, 59),
    }
}

impl Parsed {
    /// No field is known.
    pub open spec fn empty() -> Parsed {
        Parsed { year: None, month: None, day: None, hour_24: None, minute: None, second: None }
    }

    /// `self` with the field of `component` set to `value`.
    pub open spec fn with(self, component: Component, value: int) -> Parsed {
        match component {
            Component::Year => Parsed { year: Some(value as i32), ..self },
            Component::Month => Parsed { month: Month::spec_from_number(value as u8), ..self },
            Component::Day => Parsed { day: Some(value as u8), ..self },
            Component::Hour => Parsed { hour_24: Some(value as u8), ..self },
            Component::Minute => Parsed { minute: Some(value as u8), ..self },
            Component::Second => Parsed { second: Some(value as u8), ..self },
        }
    }

    /// Whether the field of `component` is known.
    pub open spec fn knows(self, component: Component) -> bool {
        match component {
            Component::Year => self.year is Some,
            Component::Month => self.month is Some,
            Component::Day => self.day is Some,
            Component::Hour => self.hour_24 is Some,
            Component::Minute => self.minute is Some,
            Component::Second => self.second is Some,
        }
    }

    /// Whether each field that is known lies in the bounds of its component.
    pub open spec fn in_range(self) -> bool {
        &&& self.year matches Some(year) ==> -9999 <= year <= 9999
        &&& self.day matches Some(day) ==> 1 <= day <= 31
        &&& self.hour_24 matches Some(hour) ==> hour < 24
        &&& self.minute matches Some(minute) ==> minute < 60
        &&& self.second matches Some(second) ==> second < 60
    }

    /// A value in which no field is known.
    pub fn new() -> (parsed: Parsed)
        ensures
            parsed == Parsed::empty(),
    {
        Parsed { year: None, month: None, day: None, hour_24: None, minute: None, second: None }
    }
}

/// `parsed` with the field of `component` set to the value that `s` holds at
/// `pos`, together with the position behind the value, or `None` where `s`
/// holds no such value there.
pub open spec fn field_at(s: Seq<u8>, pos: int, component: Component, parsed: Parsed) -> Option<
    (Parsed, int),
> {
    match component_at(s, pos, component) {
        Some((value, next)) => Some((parsed.with(component, value), next)),
        None => None,
    }
}

/// What reading `item` at `pos` gives: the fields known so far with the one
/// that the item adds, and the position behind the item.
pub open spec fn item_at(s: Seq<u8>, pos: int, item: FormatItem, parsed: Parsed) -> Result<
    (Parsed, int),
    FormatError,
> {
    match item {
        FormatItem::Component(component) => match component_at(s, pos, component) {
            Some((value, next)) => Ok((parsed.with(component, value), next)),
            None => Err(FormatError::InvalidComponent(component)),
        },
        FormatItem::Literal(byte) => {
            if 0 <= pos < s.len() && s[pos] == byte {
                Ok((parsed, pos + 1))
            } else {
                Err(FormatError::InvalidLiteral)
            }
        },
        FormatItem::First(byte, other) => {
            if 0 <= pos < s.len() && (s[pos] == byte || s[pos] == other) {
                Ok((parsed, pos + 1))
            } else {
                Err(FormatError::InvalidLiteral)
            }
        },
    }
}

/// What reading the items from number `index` on gives, one behind the
/// other from `pos`: all the fields and the position behind the last item, or
/// the error of the first item that `s` does not hold.
pub open spec fn items_from(
    s: Seq<u8>,
    items: Seq<FormatItem>,
    index: int,
    pos: int,
    parsed: Parsed,
) -> Result<(Parsed, int), FormatError>
    decreases items.len() - index,
{
    if 0 <= index < items.len() {
        match item_at(s, pos, items[index], parsed) {
            Ok((known, next)) => items_from(s, items, index + 1, next, known),
            Err(e) => Err(e),
        }
    } else {
        Ok((parsed, pos))
    }
}

/// What reading all of `items` from the start of `s` gives.
pub open spec fn items_at_start(s: Seq<u8>, items: Seq<FormatItem>) -> Result<
    (Parsed, int),
    FormatError,
> {
    items_from(s, items, 0, 0, Parsed::empty())
}

/// An item that `s` holds at `pos` takes at least one byte, and none behind
/// the end of `s`.
pub proof fn lemma_item_takes_bytes(s: Seq<u8>, pos: int, item: FormatItem, parsed: Parsed)
    requires
        0 <= pos,
        item_at(s, pos, item, parsed) is Ok,
    ensures
        item_at(s, pos, item, parsed) matches Ok((_, next)) && pos < next <= s.len(),
{
}

/// Items that `s` holds one behind the other end at or behind the place
/// where they start, and behind it if there is an item at all.
pub proof fn lemma_items_take_bytes(
    s: Seq<u8>,
    items: Seq<FormatItem>,
    index: int,
    pos: int,
    parsed: Parsed,
)
    requires
        0 <= index <= items.len(),
        0 <= pos <= s.len(),
        items_from(s, items, index, pos, parsed) is Ok,
    ensures
        items_from(s, items, index, pos, parsed) matches Ok((_, end)) && pos <= end <= s.len()
            && (index < items.len() ==> pos < end),
    decreases items.len() - index,
{
    if index < items.len() {
        lemma_item_takes_bytes(s, pos, items[index], parsed);
        let (known, next) = item_at(s, pos, items[index], parsed)->Ok_0;
        lemma_items_take_bytes(s, items, index + 1, next, known);
    }
}

/// An item reads the same in a longer text, unless it is an hour at the very
/// end of the shorter one, behind which the longer text may have a digit.
pub proof fn lemma_item_in_longer_text(
    s: Seq<u8>,
    extra: Seq<u8>,
    pos: int,
    item: FormatItem,
    parsed: Parsed,
)
    requires
        0 <= pos,
        item_at(s, pos, item, parsed) matches Ok((_, next)) && (item
            == FormatItem::Component(Component::Hour) ==> next < s.len()),
    ensures
        item_at(s + extra, pos, item, parsed) == item_at(s, pos, item, parsed),
{
    let t = s + extra;
    assert forall|i: int| 0 <= i < s.len() implies t[i] == s[i] by {}
}

/// Items read the same in a longer text, unless the last of them is an hour.
pub proof fn lemma_items_in_longer_text(
    s: Seq<u8>,
    extra: Seq<u8>,
    items: Seq<FormatItem>,
    index: int,
    pos: int,
    parsed: Parsed,
)
    requires
        0 <= index <= items.len(),
        0 <= pos <= s.len(),
        items_from(s, items, index, pos, parsed) is Ok,
        items.len() > 0 ==> items.last() != FormatItem::Component(Component::Hour),
    ensures
        items_from(s + extra, items, index, pos, parsed) == items_from(
            s,
            items,
            index,
            pos,
            parsed,
        ),
    decreases items.len() - index,
{
    if index < items.len() {
        let item = items[index];
        lemma_item_takes_bytes(s, pos, item, parsed);
        let (known, next) = item_at(s, pos, item, parsed)->Ok_0;
        if index + 1 < items.len() {
            reveal_with_fuel(items_from, 2);
            lemma_item_takes_bytes(s, next, items[index + 1], known);
        }
        lemma_item_in_longer_text(s, extra, pos, item, parsed);
        lemma_items_in_longer_text(s, extra, items, index + 1, next, known);
    }
}

/// Where `s` holds all of `items`, it holds the first `count` of them too,
/// and they end no later, and earlier if they are fewer.
pub proof fn lemma_shorter_format(
    s: Seq<u8>,
    items: Seq<FormatItem>,
    count: int,
    index: int,
    pos: int,
    parsed: Parsed,
)
    requires
        0 <= index <= count <= items.len(),
        0 <= pos <= s.len(),
        items_from(s, items, index, pos, parsed) is Ok,
    ensures
        ({
            let all = items_from(s, items, index, pos, parsed)->Ok_0.1;
            &&& items_from(s, items.take(count), index, pos, parsed) matches Ok((_, end))
            &&& pos <= items_from(s, items.take(count), index, pos, parsed)->Ok_0.1 <= all
            &&& count < items.len() ==> items_from(s, items.take(count), index, pos, parsed)->Ok_0.1
                < all
        }),
    decreases count - index,
{
    lemma_items_take_bytes(s, items, index, pos, parsed);
    if index < count {
        let (known, next) = item_at(s, pos, items[index], parsed)->Ok_0;
        lemma_item_takes_bytes(s, pos, items[index], parsed);
        lemma_shorter_format(s, items, count, index + 1, next, known);
    }
}

/// What was read, with the position as a number without bound.
pub open spec fn with_int_position(read: Result<(Parsed, usize), FormatError>) -> Result<
    (Parsed, int),
    FormatError,
> {
    match read {
        Ok((parsed, pos)) => Ok((parsed, pos as int)),
        Err(e) => Err(e),
    }
}

/// What reading `item` gives behind what was read before: the error that was
/// met before, or else what the item gives at the place that was reached.
pub open spec fn followed_by(
    read: Result<(Parsed, int), FormatError>,
    s: Seq<u8>,
    item: FormatItem,
) -> Result<(Parsed, int), FormatError> {
    match read {
        Ok((parsed, pos)) => item_at(s, pos, item, parsed),
        Err(e) => Err(e),
    }
}

/// Reading one item more is reading that item behind the others.
pub proof fn lemma_one_more_item(
    s: Seq<u8>,
    items: Seq<FormatItem>,
    count: int,
    index: int,
    pos: int,
    parsed: Parsed,
)
    requires
        0 <= index <= count < items.len(),
    ensures
        items_from(s, items.take(count + 1), index, pos, parsed) == followed_by(
            items_from(s, items.take(count), index, pos, parsed),
            s,
            items[count],
        ),
    decreases count - index,
{
    let shorter = items.take(count);
    let longer = items.take(count + 1);
    if index < count {
        assert(shorter[index] == items[index]);
        assert(longer[index] == items[index]);
        if let Ok((known, next)) = item_at(s, pos, items[index], parsed) {
            lemma_one_more_item(s, items, count, index + 1, next, known);
        }
    } else {
        assert(longer[count] == items[count]);
        reveal_with_fuel(items_from, 2);
    }
}

/// The items that `s` holds leave the fields in the bounds of their
/// components, keep what was known before, and make known the field of each
/// component among them.
pub proof fn lemma_items_make_fields_known(
    s: Seq<u8>,
    items: Seq<FormatItem>,
    index: int,
    pos: int,
    parsed: Parsed,
)
    requires
        0 <= index <= items.len(),
        items_from(s, items, index, pos, parsed) is Ok,
        parsed.in_range(),
    ensures
        ({
            let known = items_from(s, items, index, pos, parsed)->Ok_0.0;
            &&& known.in_range()
            &&& forall|component: Component| #[trigger]
                parsed.knows(component) ==> known.knows(component)
            &&& forall|i: int|
                index <= i < items.len() && (#[trigger] items[i]) is Component ==> known.knows(
                    items[i]->Component_0,
                )
        }),
    decreases items.len() - index,
{
    if index < items.len() {
        let (read, next) = item_at(s, pos, items[index], parsed)->Ok_0;
        lemma_items_make_fields_known(s, items, index + 1, next, read);
        let known = items_from(s, items, index, pos, parsed)->Ok_0.0;
        assert forall|component: Component| #[trigger]
            parsed.knows(component) implies known.knows(component) by {
            assert(read.knows(component));
        }
        assert forall|i: int|
            index <= i < items.len() && (#[trigger] items[i]) is Component implies known.knows(
            items[i]->Component_0,
        ) by {
            if i == index {
                assert(read.knows(items[i]->Component_0));
            }
        }
    }
}

/// The digit of `input` at `pos`.
fn digit(input: &[u8], pos: usize) -> (res: Option<u8>)
    ensures
        match res {
            Some(value) => digit_at(input@, pos as int) == Some(value as int),
            None => digit_at(input@, pos as int) is None,
        },
        res is Some ==> pos < input@.len() <= usize::MAX,
{
    if pos < input.len() && DIGIT_ZERO <= input[pos] && input[pos] <= DIGIT_ZERO + 9 {
        Some(input[pos] - DIGIT_ZERO)
    } else {
        None
    }
}

/// The two digits of `input` at `pos`.
fn two_digits(input: &[u8], pos: usize) -> (res: Option<u8>)
    ensures
        match res {
            Some(value) => two_digits_at(input@, pos as int) == Some(value as int),
            None => two_digits_at(input@, pos as int) is None,
        },
        res is Some ==> pos + 1 < input@.len() <= usize::MAX,
{
    match digit(input, pos) {
        Some(tens) => match digit(input, pos + 1) {
            Some(ones) => Some(10 * tens + ones),
            None => None,
        },
        None => None,
    }
}

/// The four digits of `input` at `pos`.
fn four_digits(input: &[u8], pos: usize) -> (res: Option<i32>)
    ensures
        match res {
            Some(value) => four_digits_at(input@, pos as int) == Some(value as int),
            None => four_digits_at(input@, pos as int) is None,
        },
        res is Some ==> pos + 3 < input@.len() <= usize::MAX,
{
    match two_digits(input, pos) {
        Some(hundreds) => match two_digits(input, pos + 2) {
            Some(units) => {
                let value: i32 = 100 * (hundreds as i32) + (units as i32);
                Some(value)
            },
            None => None,
        },
        None => None,
    }
}

/// The two digits of `input` at `pos`, if their value is one from `low` to
/// `high`.
fn two_digit_field(input: &[u8], pos: usize, low: u8, high: u8) -> (res: Option<(u8, usize)>)
    ensures
        match res {
            Some((value, next)) => two_digit_field_at(input@, pos as int, low as int, high as int)
                == Some((value as int, next as int)),
            None => two_digit_field_at(input@, pos as int, low as int, high as int) is None,
        },
        res matches Some((_, next)) ==> next <= input@.len() <= usize::MAX,
{
    match two_digits(input, pos) {
        Some(value) => if low <= value && value <= high {
            Some((value, pos + 2))
        } else {
            None
        },
        None => None,
    }
}

/// Reads the value of `component` at `pos`: returns `parsed` with the field
/// of the component set to the value, and the position behind the value, or
/// `None` where `input` holds no such value at `pos`.
pub fn parse_component(input: &[u8], pos: usize, component: Component, parsed: Parsed) -> (res:
    Option<(Parsed, usize)>)
    ensures
        match res {
            Some((known, next)) => field_at(input@, pos as int, component, parsed) == Some(
                (known, next as int),
            ) && next <= input@.len(),
            None => field_at(input@, pos as int, component, parsed) is None,
        },
{
    match component {
        Component::Year => {
            if pos < input.len() && (input[pos] == HYPHEN || input[pos] == PLUS) {
                match four_digits(input, pos + 1) {
                    Some(year) => {
                        let year: i32 = if input[pos] == HYPHEN {
                            -year
                        } else {
                            year
                        };
                        Some((Parsed { year: Some(year), ..parsed }, pos + 5))
                    },
                    None => None,
                }
            } else {
                match four_digits(input, pos) {
                    Some(year) => Some((Parsed { year: Some(year), ..parsed }, pos + 4)),
                    None => None,
                }
            }
        },
        Component::Month => match two_digit_field(input, pos, 1, 12) {
            Some((month, next)) => Some(
                (Parsed { month: Month::from_number(month), ..parsed }, next),
            ),
            None => None,
        },
        Component::Day => match two_digit_field(input, pos, 1, 31) {
            Some((day, next)) => Some((Parsed { day: Some(day), ..parsed }, next)),
            None => None,
        },
        Component::Hour => {
            let hour = match digit(input, pos) {
                Some(first) => match digit(input, pos + 1) {
                    Some(_) => two_digit_field(input, pos, 0, 23),
                    None => Some((first, pos + 1)),
                },
                None => None,
            };
            match hour {
                Some((hour, next)) => Some((Parsed { hour_24: Some(hour), ..parsed }, next)),
                None => None,
            }
        },
        Component::Minute => match two_digit_field(input, pos, 0, 59) {
            Some((minute, next)) => Some((Parsed { minute: Some(minute), ..parsed }, next)),
            None => None,
        },
        Component::Second => match two_digit_field(input, pos, 0, 59) {
            Some((second, next)) => Some((Parsed { second: Some(second), ..parsed }, next)),
            None => None,
        },
    }
}

/// Reads `item` at `pos`: returns `parsed` with the field that the item
/// adds, and the position behind the item, or the error of the item where
/// `input` does not hold it at `pos`.
pub fn parse_item(input: &[u8], pos: usize, item: FormatItem, parsed: Parsed) -> (res: Result<
    (Parsed, usize),
    FormatError,
>)
    ensures
        with_int_position(res) == item_at(input@, pos as int, item, parsed),
        res matches Ok((_, next)) ==> next <= input@.len(),
{
    match item {
        FormatItem::Component(component) => match parse_component(input, pos, component, parsed) {
            Some(read) => Ok(read),
            None => Err(FormatError::InvalidComponent(component)),
        },
        FormatItem::Literal(byte) => {
            if pos < input.len() && input[pos] == byte {
                Ok((parsed, pos + 1))
            } else {
                Err(FormatError::InvalidLiteral)
            }
        },
        FormatItem::First(byte, other) => {
            if pos < input.len() && (input[pos] == byte || input[pos] == other) {
                Ok((parsed, pos + 1))
            } else {
                Err(FormatError::InvalidLiteral)
            }
        },
    }
}

/// Reads `items` one behind the other from the start of `input`, and returns
/// the fields that they hold and the number of bytes that they take.
pub fn parse_items(input: &[u8], items: &[FormatItem]) -> (res: Result<
    (Parsed, usize),
    FormatError,
>)
    ensures
        with_int_position(res) == items_at_start(input@, items@),
        res matches Ok((_, used)) ==> used <= input@.len(),
{
    let mut parsed = Parsed::new();
    let mut pos: usize = 0;
    let mut index: usize = 0;
    while index < items.len()
        invariant
            index <= items@.len(),
            pos <= input@.len(),
            items_at_start(input@, items@) == items_from(
                input@,
                items@,
                index as int,
                pos as int,
                parsed,
            ),
        decreases items@.len() - index,
    {
        match parse_item(input, pos, items[index], parsed) {
            Ok((known, next)) => {
                parsed = known;
                pos = next;
            },
            Err(e) => {
                return Err(e);
            },
        }
        index += 1;
    }
    Ok((parsed, pos))
}

} // verus!
