//! JSON documents, as the `json` crate holds them.

use vstd::prelude::*;
use crate::text::{chars_of, decimal_value, is_decimal, text_between};

verus! {

/// What a JSON document holds.
///
/// The members of an object stand in the order in which they were added, and no key occurs twice.
pub enum Json {
    Null,
    Text(Seq<char>),
    /// A finite number, `mantissa` times ten to the `exponent`, below zero unless `positive`.
    Number { positive: bool, mantissa: u64, exponent: i16 },
    NotANumber,
    Boolean(bool),
    Array(Seq<Json>),
    Object(Seq<(Seq<char>, Json)>),
}

/// Where `key` stands among the members of an object, or their number where it does not occur.
pub open spec fn place_of(members: Seq<(Seq<char>, Json)>, key: Seq<char>) -> nat
    decreases members.len(),
{
    if members.len() == 0 {
        0
    } else if members[0].0 == key {
        0
    } else {
        1 + place_of(members.drop_first(), key)
    }
}

impl Json {
    /// The member under `key`: null where there is none, or where this is no object.
    pub open spec fn member(self, key: Seq<char>) -> Json {
        match self {
            Json::Object(members) => {
                let place = place_of(members, key);
                if place < members.len() {
                    members[place as int].1
                } else {
                    Json::Null
                }
            },
            _ => Json::Null,
        }
    }

    /// The text, where this is one.
    pub open spec fn text(self) -> Option<Seq<char>> {
        match self {
            Json::Text(text) => Some(text),
            _ => None,
        }
    }

    /// The number, where this is a whole one that is written without an exponent, not below zero.
    pub open spec fn whole(self) -> Option<u64> {
        match self {
            Json::Number { positive, mantissa, exponent } => if positive && exponent == 0 {
                Some(mantissa)
            } else {
                None
            },
            _ => None,
        }
    }

    /// The object with `value` under `key`: in place of what stood there, or else as the last member.
    pub open spec fn with(self, key: Seq<char>, value: Json) -> Json {
        match self {
            Json::Object(members) => {
                let place = place_of(members, key);
                if place < members.len() {
                    Json::Object(members.update(place as int, (key, value)))
                } else {
                    Json::Object(members.push((key, value)))
                }
            },
            _ => self,
        }
    }
}

proof fn place_found(members: Seq<(Seq<char>, Json)>, key: Seq<char>)
    ensures
        place_of(members, key) <= members.len(),
        place_of(members, key) < members.len() ==> members[place_of(members, key) as int].0 == key,
        forall|i: int| 0 <= i < place_of(members, key) ==> (#[trigger] members[i]).0 != key,
    decreases members.len(),
{
    if members.len() > 0 && members[0].0 != key {
        let rest = members.drop_first();
        place_found(rest, key);
        assert forall|i: int| 0 <= i < place_of(members, key) implies (#[trigger] members[i]).0
            != key by {
            if i > 0 {
                assert(members[i] == rest[i - 1]);
            }
        }
    }
}

/// What is put under a key is found there, and what stands under other keys stays.
pub proof fn member_put_and_found(object: Json, key: Seq<char>, value: Json, other: Seq<char>)
    requires
        object is Object,
    ensures
        object.with(key, value) is Object,
        object.with(key, value).member(key) == value,
        other != key ==> object.with(key, value).member(other) == object.member(other),
{
    let before = object->Object_0;
    let after = object.with(key, value)->Object_0;
    place_found(before, key);
    place_found(before, other);
    place_found(after, key);
    place_found(after, other);
    let put = place_of(before, key) as int;
    let found = place_of(after, key) as int;
    assert(after[put] == (key, value));
    if found < put {
        assert(before[found].0 != key);
    }
    if other != key {
        let a = place_of(before, other) as int;
        let b = place_of(after, other) as int;
        if b < a && b < before.len() {
            assert(before[b].0 != other);
        }
        if a < b && a < before.len() {
            assert(after[a] == before[a]);
        }
    }
}

/// The object without members.
pub open spec fn empty_object() -> Json {
    Json::Object(Seq::empty())
}

/// The whole number `n`.
pub open spec fn number(n: u64) -> Json {
    Json::Number { positive: true, mantissa: n, exponent: 0 }
}

/// `json::JsonValue`, a JSON document.
#[verifier::external_type_specification]
#[verifier::external_body]
pub struct ExJsonValue(json::JsonValue);

/// What a `json::JsonValue` holds.
pub uninterp spec fn content(value: json::JsonValue) -> Json;

/// Why a text is no JSON document, in the words of `json::Error`.
#[derive(Debug)]
pub enum Fault {
    UnexpectedCharacter { ch: char, line: usize, column: usize },
    /// The text ends before the document does.
    UnexpectedEndOfJson,
    ExceededDepthLimit,
    FailedUtf8Parsing,
    WrongType(String),
}

/// Why a text is no JSON document, with texts as sequences of characters.
pub enum FaultModel {
    UnexpectedCharacter { ch: char, line: nat, column: nat },
    UnexpectedEndOfJson,
    ExceededDepthLimit,
    FailedUtf8Parsing,
    WrongType(Seq<char>),
}

impl DeepView for Fault {
    type V = FaultModel;

    open spec fn deep_view(&self) -> FaultModel {
        match self {
            Fault::UnexpectedCharacter { ch, line, column } => FaultModel::UnexpectedCharacter {
                ch: *ch,
                line: *line as nat,
                column: *column as nat,
            },
            Fault::UnexpectedEndOfJson => FaultModel::UnexpectedEndOfJson,
            Fault::ExceededDepthLimit => FaultModel::ExceededDepthLimit,
            Fault::FailedUtf8Parsing => FaultModel::FailedUtf8Parsing,
            Fault::WrongType(expected) => FaultModel::WrongType(expected@),
        }
    }
}

/// What `json::parse` reads from a text: a document, or why the text is none.
pub uninterp spec fn parsed(text: Seq<char>) -> Result<Json, FaultModel>;

/// What `json::JsonValue::dump` writes for a document.
pub uninterp spec fn dumped(document: Json) -> Seq<char>;

/// Where the end of a text stands, as far as strings and numbers that are zero up to the point go.
pub enum Place {
    /// Outside of strings, and not behind a digit.
    Between,
    /// Behind a single zero.
    Zero,
    /// Behind any other digit.
    Digits,
    /// Behind a single zero, a point, and digits. So many of them are counted, those that the mantissa
    /// has room for.
    Fraction { mantissa: nat, counted: nat },
    /// In a string.
    Inside,
    /// In a string, behind a backslash.
    Escaped,
}

/// Whether the character is a digit behind which the mantissa of the fraction still has room.
pub open spec fn is_counted(place: Place, c: char) -> bool {
    place matches Place::Fraction { mantissa, .. } && is_decimal(c) && mantissa * 10 + decimal_value(c)
        <= u64::MAX
}

/// The place behind one more character.
pub open spec fn next_place(place: Place, c: char) -> Place {
    match place {
        Place::Inside => if c == '"' {
            Place::Between
        } else if c == '\\' {
            Place::Escaped
        } else {
            Place::Inside
        },
        Place::Escaped => Place::Inside,
        Place::Fraction { mantissa, counted } if is_decimal(c) => if is_counted(place, c) {
            Place::Fraction { mantissa: mantissa * 10 + decimal_value(c), counted: counted + 1 }
        } else {
            place
        },
        _ => if c == '"' {
            Place::Inside
        } else if c == '.' && place is Zero {
            Place::Fraction { mantissa: 0, counted: 0 }
        } else if c == '0' && place is Between {
            Place::Zero
        } else if is_decimal(c) {
            Place::Digits
        } else {
            Place::Between
        },
    }
}

/// The place behind a text.
pub open spec fn place_behind(text: Seq<char>) -> Place
    decreases text.len(),
{
    if text.len() == 0 {
        Place::Between
    } else {
        next_place(place_behind(text.drop_last()), text.last())
    }
}

/// How many digits of a fraction `json::parse` can count: it counts them down in an `i16`.
pub const COUNTABLE: u32 = 32_768;

/// Whether the character is a digit that is one too many to be counted.
pub open spec fn is_beyond(place: Place, c: char) -> bool {
    place matches Place::Fraction { counted, .. } && counted == COUNTABLE && is_counted(place, c)
}

/// Where the first digit of a text stands that is one too many to be counted, if there is one.
pub open spec fn first_beyond(text: Seq<char>) -> Option<nat>
    decreases text.len(),
{
    if text.len() == 0 {
        None
    } else {
        let before = text.drop_last();
        match first_beyond(before) {
            Some(n) => Some(n),
            None => if is_beyond(place_behind(before), text.last()) {
                Some(before.len())
            } else {
                None
            },
        }
    }
}

/// Whether a text is found to be no document before its end is reached.
pub open spec fn stops_early(r: Result<Json, FaultModel>) -> bool {
    r matches Err(fault) && !(fault is UnexpectedEndOfJson)
}

/// Whether `json::parse` reads a text without meeting a digit that it cannot count: there is none, or
/// the text is found to be no document before that digit is reached.
pub open spec fn readable(text: Seq<char>) -> bool {
    match first_beyond(text) {
        Some(n) => stops_early(parsed(text.take(n as int))),
        None => true,
    }
}

/// A place, as far as its digits can be counted.
enum Scan {
    Between,
    Zero,
    Digits,
    Fraction { mantissa: u64, counted: u32 },
    Inside,
    Escaped,
}

impl Scan {
    spec fn place(&self) -> Place {
        match self {
            Scan::Between => Place::Between,
            Scan::Zero => Place::Zero,
            Scan::Digits => Place::Digits,
            Scan::Fraction { mantissa, counted } => Place::Fraction {
                mantissa: *mantissa as nat,
                counted: *counted as nat,
            },
            Scan::Inside => Place::Inside,
            Scan::Escaped => Place::Escaped,
        }
    }

    spec fn is_countable(&self) -> bool {
        self matches Scan::Fraction { counted, .. } ==> *counted <= COUNTABLE
    }
}

/// Goes on by one digit of a fraction, unless it is one too many.
fn scan_digit(mantissa: u64, counted: u32, c: char) -> (r: Option<Scan>)
    requires
        counted <= COUNTABLE,
        is_decimal(c),
    ensures
        ({
            let place = Place::Fraction { mantissa: mantissa as nat, counted: counted as nat };
            match r {
                Some(next) => {
                    &&& !is_beyond(place, c)
                    &&& next.place() == next_place(place, c)
                    &&& next.is_countable()
                },
                None => is_beyond(place, c),
            }
        }),
{
    let d: u64 = (c as u32 - 48) as u64;
    let grown: Option<u64> = match mantissa.checked_mul(10) {
        Some(tens) => tens.checked_add(d),
        None => None,
    };
    match grown {
        Some(mantissa) => if counted == COUNTABLE {
            None
        } else {
            Some(Scan::Fraction { mantissa, counted: counted + 1 })
        },
        None => Some(Scan::Fraction { mantissa, counted }),
    }
}

/// Goes on by one character, unless it is a digit too many.
fn scan(place: Scan, c: char) -> (r: Option<Scan>)
    requires
        place.is_countable(),
    ensures
        (match r {
            Some(next) => {
                &&& !is_beyond(place.place(), c)
                &&& next.place() == next_place(place.place(), c)
                &&& next.is_countable()
            },
            None => is_beyond(place.place(), c),
        }),
{
    let decimal = '0' <= c && c <= '9';
    match place {
        Scan::Inside => Some(
            if c == '"' {
                Scan::Between
            } else if c == '\\' {
                Scan::Escaped
            } else {
                Scan::Inside
            },
        ),
        Scan::Escaped => Some(Scan::Inside),
        Scan::Fraction { mantissa, counted } if decimal => scan_digit(mantissa, counted, c),
        _ => {
            if c == '"' {
                return Some(Scan::Inside);
            }
            match (place, c) {
                (Scan::Zero, '.') => Some(Scan::Fraction { mantissa: 0, counted: 0 }),
                (Scan::Between, '0') => Some(Scan::Zero),
                _ => if decimal {
                    Some(Scan::Digits)
                } else {
                    Some(Scan::Between)
                },
            }
        },
    }
}

/// The first digit too many stays the first one where the text goes on.
proof fn first_beyond_stays(text: Seq<char>, n: int)
    requires
        0 <= n <= text.len(),
        first_beyond(text.take(n)) is Some,
    ensures
        first_beyond(text) == first_beyond(text.take(n)),
    decreases text.len(),
{
    if n == text.len() {
        assert(text.take(n) =~= text);
    } else {
        assert(text.drop_last().take(n) =~= text.take(n));
        first_beyond_stays(text.drop_last(), n);
    }
}

/// Tells whether `parse` may be given the text.
pub fn is_readable(text: &str) -> (r: bool)
    ensures
        r == readable(text@),
{
    let chars = chars_of(text);
    let mut place = Scan::Between;
    let mut i: usize = 0;
    while i < chars.len()
        invariant
            i <= chars@.len(),
            chars@ == text@,
            place.place() == place_behind(text@.take(i as int)),
            place.is_countable(),
            first_beyond(text@.take(i as int)) is None,
        decreases chars@.len() - i,
    {
        proof {
            assert(text@.take(i + 1).drop_last() =~= text@.take(i as int));
            assert(text@.take(i + 1).last() == chars@[i as int]);
        }
        match scan(place, chars[i]) {
            Some(next) => {
                place = next;
            },
            None => {
                proof {
                    first_beyond_stays(text@, i + 1);
                    assert(text@.subrange(0, i as int) =~= text@.take(i as int));
                }
                return match parse(text_between(&chars, 0, i).as_str()) {
                    Ok(_) => false,
                    Err(Fault::UnexpectedEndOfJson) => false,
                    Err(_) => true,
                };
            },
        }
        i = i + 1;
    }
    assert(text@.take(text@.len() as int) =~= text@);
    true
}

/// `json::parse`: the document that a text spells, or the error that says why it spells none. Which
/// texts spell which documents, and which errors come, is named and not spelt out. A text that is not
/// `readable` overflows the counter for the digits of a fraction.
#[verifier::external_body]
pub(crate) fn parse(text: &str) -> (r: Result<json::JsonValue, Fault>)
    requires
        readable(text@),
    ensures
        (match r {
            Ok(value) => parsed(text@) == Ok::<Json, FaultModel>(content(value)),
            Err(fault) => parsed(text@) == Err::<Json, FaultModel>(fault.deep_view()),
        }),
{
    match json::parse(text) {
        Ok(value) => Ok(value),
        Err(json::Error::UnexpectedCharacter { ch, line, column }) => Err(
            Fault::UnexpectedCharacter { ch, line, column },
        ),
        Err(json::Error::UnexpectedEndOfJson) => Err(Fault::UnexpectedEndOfJson),
        Err(json::Error::ExceededDepthLimit) => Err(Fault::ExceededDepthLimit),
        Err(json::Error::FailedUtf8Parsing) => Err(Fault::FailedUtf8Parsing),
        Err(json::Error::WrongType(expected)) => Err(Fault::WrongType(expected)),
    }
}

/// Indexing a `json::JsonValue` by a key: the member under that key, or null.
#[verifier::external_body]
pub(crate) fn member<'a>(value: &'a json::JsonValue, key: &str) -> (r: &'a json::JsonValue)
    ensures
        content(*r) == content(*value).member(key@),
{
    &value[key]
}

/// `json::JsonValue::as_str`: the text of a document that is one.
#[verifier::external_body]
pub(crate) fn text_of(value: &json::JsonValue) -> (r: Option<&str>)
    ensures
        r.deep_view() == content(*value).text(),
{
    value.as_str()
}

/// `json::JsonValue::as_u64`: the number of a document that is a whole one, not below zero.
#[verifier::external_body]
pub(crate) fn whole_of(value: &json::JsonValue) -> (r: Option<u64>)
    ensures
        r == content(*value).whole(),
{
    value.as_u64()
}

/// `json::JsonValue::new_object`: the object without members.
#[verifier::external_body]
pub(crate) fn new_object() -> (r: json::JsonValue)
    ensures
        content(r) == empty_object(),
{
    json::JsonValue::new_object()
}

/// `json::JsonValue::insert` on an object: puts a member in place of the one under the same key, or
/// behind the others. It fails on nothing but an object, so what it returns tells nothing.
#[verifier::external_body]
pub(crate) fn insert(object: &mut json::JsonValue, key: &str, value: json::JsonValue)
    requires
        content(*old(object)) is Object,
    ensures
        content(*final(object)) == content(*old(object)).with(key@, content(value)),
{
    let _ = object.insert(key, value);
}

/// `json::JsonValue::new_array`: the array without items.
#[verifier::external_body]
pub(crate) fn new_array() -> (r: json::JsonValue)
    ensures
        content(r) == Json::Array(Seq::empty()),
{
    json::JsonValue::new_array()
}

/// `json::JsonValue::push` on an array: puts an item behind the others. It fails on nothing but an
/// array, so what it returns tells nothing.
#[verifier::external_body]
pub(crate) fn push(array: &mut json::JsonValue, item: json::JsonValue)
    requires
        content(*old(array)) is Array,
    ensures
        content(*final(array)) == Json::Array(content(*old(array))->Array_0.push(content(item))),
{
    let _ = array.push(item);
}

/// `json::JsonValue::from` of a string slice: that text.
#[verifier::external_body]
pub(crate) fn from_text(text: &str) -> (r: json::JsonValue)
    ensures
        content(r) == Json::Text(text@),
{
    json::JsonValue::from(text)
}

/// `json::JsonValue::from` of a `u64`: that number.
#[verifier::external_body]
pub(crate) fn from_whole(n: u64) -> (r: json::JsonValue)
    ensures
        content(r) == number(n),
{
    json::JsonValue::from(n)
}

/// `json::JsonValue::from` of a `bool`: that truth value.
#[verifier::external_body]
pub(crate) fn from_truth(b: bool) -> (r: json::JsonValue)
    ensures
        content(r) == Json::Boolean(b),
{
    json::JsonValue::from(b)
}

/// `json::JsonValue::Null`.
#[verifier::external_body]
pub(crate) fn null() -> (r: json::JsonValue)
    ensures
        content(r) == Json::Null,
{
    json::JsonValue::Null
}

/// `json::JsonValue::dump`: the text of a document, which nothing but its content decides.
#[verifier::external_body]
pub(crate) fn dump(value: &json::JsonValue) -> (r: String)
    ensures
        r@ == dumped(content(*value)),
{
    value.dump()
}

} // verus!
