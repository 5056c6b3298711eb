//! Texts as sequences of characters.

use vstd::prelude::*;
use vstd::utf8::{decode_utf8, is_ascii_chars, valid_utf8};

verus! {

/// `String::push`: puts a character behind the others.
pub assume_specification[ String::push ](s: &mut String, c: char)
    ensures
        final(s)@ == old(s)@.push(c),
;

/// Equality of string slices: that they hold the same characters.
pub assume_specification[ <str as PartialEq>::eq ](a: &str, b: &str) -> (r: bool)
    ensures
        r == (a@ == b@),
;

/// What `str::to_lowercase` makes of a text that is not all ASCII.
pub uninterp spec fn unicode_lowercased(text: Seq<char>) -> Seq<char>;

/// What `char::is_whitespace` says of a character beyond ASCII.
pub uninterp spec fn is_unicode_space(c: char) -> bool;

/// The small letter of an ASCII capital; any other character as it is.
pub open spec fn ascii_small(c: char) -> char {
    if 'A' <= c <= 'Z' {
        (c as u8 + 32) as char
    } else {
        c
    }
}

/// The text in small letters. Of ASCII text nothing but the capitals changes.
pub open spec fn lowercased(text: Seq<char>) -> Seq<char> {
    if is_ascii_chars(text) {
        text.map_values(|c: char| ascii_small(c))
    } else {
        unicode_lowercased(text)
    }
}

/// `str::to_lowercase`: the text in small letters. Of ASCII text nothing but the capitals changes;
/// what becomes of other text is named and not spelt out.
#[verifier::external_body]
pub(crate) fn lowercase(text: &str) -> (r: String)
    ensures
        r@ == (if is_ascii_chars(text@) {
            text@.map_values(|c: char| ascii_small(c))
        } else {
            unicode_lowercased(text@)
        }),
{
    text.to_lowercase()
}

/// Whether the character is whitespace: in ASCII the space, and the characters from the tabulator to
/// the carriage return.
pub open spec fn is_space(c: char) -> bool {
    if c <= '\u{7f}' {
        c == ' ' || '\t' <= c <= '\r'
    } else {
        is_unicode_space(c)
    }
}

/// `char::is_whitespace`: whether the character has Unicode's property White_Space. Which ASCII
/// characters have it is spelt out, and for the others named.
pub assume_specification[ char::is_whitespace ](c: char) -> (r: bool)
    ensures
        r == (if c <= '\u{7f}' {
            c == ' ' || '\t' <= c <= '\r'
        } else {
            is_unicode_space(c)
        }),
;

/// `std::str::from_utf8`: the text that the bytes encode, where they are valid UTF-8.
#[verifier::external_body]
pub(crate) fn decode(bytes: &[u8]) -> (r: Option<&str>)
    ensures
        r.deep_view() == (if valid_utf8(bytes@) {
            Some(decode_utf8(bytes@))
        } else {
            None
        }),
{
    std::str::from_utf8(bytes).ok()
}

/// The characters of a text.
pub fn chars_of(text: &str) -> (r: Vec<char>)
    ensures
        r@ == text@,
{
    let mut r: Vec<char> = Vec::new();
    for c in it: text.chars()
        invariant
            it.seq() == text@,
            r@ == text@.take(it.index()),
    {
        proof {
            assert(text@.take(it.index() + 1) =~= text@.take(it.index()).push(c));
        }
        r.push(c);
    }
    assert(text@.take(text@.len() as int) =~= text@);
    r
}

/// The text of the characters from one place to another.
pub fn text_between(chars: &Vec<char>, from: usize, to: usize) -> (r: String)
    requires
        from <= to <= chars@.len(),
    ensures
        r@ == chars@.subrange(from as int, to as int),
{
    let mut r = String::new();
    let mut i: usize = from;
    assert(chars@.subrange(from as int, from as int) =~= Seq::<char>::empty());
    while i < to
        invariant
            from <= i <= to <= chars@.len(),
            r@ == chars@.subrange(from as int, i as int),
        decreases to - i,
    {
        r.push(chars[i]);
        i = i + 1;
        assert(chars@.subrange(from as int, i as int) =~= chars@.subrange(
            from as int,
            i - 1,
        ).push(chars@[i - 1]));
    }
    r
}

/// Tells whether a text is among others.
pub(crate) fn contains_text(texts: &Vec<String>, text: &str) -> (r: bool)
    ensures
        r == texts.deep_view().contains(text@),
{
    let mut i: usize = 0;
    while i < texts.len()
        invariant
            i <= texts@.len(),
            forall|j: int| 0 <= j < i ==> texts.deep_view()[j] != text@,
        decreases texts@.len() - i,
    {
        if *texts[i].as_str() == *text {
            assert(texts.deep_view()[i as int] == text@);
            return true;
        }
        i = i + 1;
    }
    false
}

/// The text without the whitespace at its start.
pub open spec fn without_leading_space(text: Seq<char>) -> Seq<char>
    decreases text.len(),
{
    if text.len() > 0 && is_space(text[0]) {
        without_leading_space(text.drop_first())
    } else {
        text
    }
}

/// The text without the whitespace at its end.
pub open spec fn without_trailing_space(text: Seq<char>) -> Seq<char>
    decreases text.len(),
{
    if text.len() > 0 && is_space(text.last()) {
        without_trailing_space(text.drop_last())
    } else {
        text
    }
}

/// The text without the whitespace at its start and at its end.
pub open spec fn trimmed(text: Seq<char>) -> Seq<char> {
    without_trailing_space(without_leading_space(text))
}

/// Takes the whitespace off both ends.
pub fn trim(text: &str) -> (r: String)
    ensures
        r@ == trimmed(text@),
{
    let chars = chars_of(text);
    let mut from: usize = 0;
    assert(chars@.skip(0) =~= chars@);
    while from < chars.len() && chars[from].is_whitespace()
        invariant
            from <= chars@.len(),
            without_leading_space(chars@) == without_leading_space(chars@.skip(from as int)),
        decreases chars@.len() - from,
    {
        assert(chars@.skip(from as int).drop_first() =~= chars@.skip(from + 1));
        from = from + 1;
    }
    let mut to: usize = chars.len();
    assert(chars@.skip(from as int) =~= chars@.subrange(from as int, to as int));
    while to > from && chars[to - 1].is_whitespace()
        invariant
            from <= to <= chars@.len(),
            trimmed(chars@) == without_trailing_space(chars@.subrange(from as int, to as int)),
        decreases to,
    {
        assert(chars@.subrange(from as int, to as int).drop_last() =~= chars@.subrange(
            from as int,
            to - 1,
        ));
        to = to - 1;
    }
    text_between(&chars, from, to)
}

/// What follows the prefix, where the text starts with it.
pub open spec fn after(text: Seq<char>, prefix: Seq<char>) -> Option<Seq<char>> {
    if prefix.len() <= text.len() && text.take(prefix.len() as int) == prefix {
        Some(text.skip(prefix.len() as int))
    } else {
        None
    }
}

/// Takes the prefix off a text that starts with it.
pub fn strip_prefix(text: &str, prefix: &str) -> (r: Option<String>)
    ensures
        r.deep_view() == after(text@, prefix@),
{
    let chars = chars_of(text);
    let head = chars_of(prefix);
    if chars.len() < head.len() {
        return None;
    }
    let mut i: usize = 0;
    while i < head.len()
        invariant
            i <= head@.len() <= chars@.len(),
            head@ == prefix@,
            chars@ == text@,
            chars@.take(i as int) == head@.take(i as int),
        decreases head@.len() - i,
    {
        if chars[i] != head[i] {
            assert(chars@.take(head@.len() as int)[i as int] == chars@[i as int]);
            return None;
        }
        i = i + 1;
        assert(chars@.take(i as int) =~= chars@.take(i - 1).push(chars@[i - 1]));
        assert(head@.take(i as int) =~= head@.take(i - 1).push(head@[i - 1]));
    }
    assert(head@.take(head@.len() as int) =~= head@);
    let rest = text_between(&chars, head.len(), chars.len());
    assert(chars@.subrange(head@.len() as int, chars@.len() as int) =~= chars@.skip(
        head@.len() as int,
    ));
    Some(rest)
}

/// The text without the marks `0x` at its start, however many there are.
pub open spec fn bare(text: Seq<char>) -> Seq<char>
    decreases text.len(),
{
    if text.len() >= 2 && text[0] == '0' && text[1] == 'x' {
        bare(text.skip(2))
    } else {
        text
    }
}

/// Takes every mark `0x` off the start.
pub fn strip_marks(text: &str) -> (r: String)
    ensures
        r@ == bare(text@),
{
    let chars = chars_of(text);
    let mut from: usize = 0;
    assert(chars@.skip(0) =~= chars@);
    while chars.len() - from >= 2 && chars[from] == '0' && chars[from + 1] == 'x'
        invariant
            from <= chars@.len(),
            bare(chars@) == bare(chars@.skip(from as int)),
        decreases chars@.len() - from,
    {
        assert(chars@.skip(from as int).skip(2) =~= chars@.skip(from + 2));
        from = from + 2;
    }
    assert(chars@.skip(from as int) =~= chars@.subrange(from as int, chars@.len() as int));
    text_between(&chars, from, chars.len())
}

/// A text of zeros.
pub open spec fn zeros(n: nat) -> Seq<char> {
    Seq::new(n, |i: int| '0')
}

/// The text with as many zeros before it as make it `width` characters long; a longer one as it is.
pub open spec fn padded(text: Seq<char>, width: nat) -> Seq<char> {
    if text.len() < width {
        zeros((width - text.len()) as nat) + text
    } else {
        text
    }
}

/// Puts zeros before a text up to the given width.
pub fn pad(text: &str, width: usize) -> (r: String)
    ensures
        r@ == padded(text@, width as nat),
{
    let length = chars_of(text).len();
    let mut r = String::new();
    if length < width {
        let missing: usize = width - length;
        let mut i: usize = 0;
        while i < missing
            invariant
                i <= missing,
                r@ == zeros(i as nat),
            decreases missing - i,
        {
            assert(zeros((i + 1) as nat) =~= zeros(i as nat).push('0'));
            r.push('0');
            i = i + 1;
        }
        r.append(text);
        r
    } else {
        text.to_owned()
    }
}

/// The digit of a value below sixteen.
pub open spec fn digit(value: nat) -> char {
    if value < 10 {
        (48 + value) as char
    } else {
        (87 + value) as char
    }
}

/// Writes a value below sixteen as one digit.
pub fn digit_of(value: u8) -> (r: char)
    requires
        value < 16,
    ensures
        r == digit(value as nat),
{
    if value < 10 {
        (48 + value) as char
    } else {
        (87 + value) as char
    }
}

/// The number in decimal digits, without leading zeros.
pub open spec fn decimal(n: nat) -> Seq<char>
    decreases n,
{
    if n < 10 {
        seq![digit(n)]
    } else {
        decimal(n / 10).push(digit(n % 10))
    }
}

/// Writes a number in decimal digits.
pub fn decimal_of(n: u128) -> (r: String)
    ensures
        r@ == decimal(n as nat),
    decreases n,
{
    let mut r = if n < 10 {
        String::new()
    } else {
        decimal_of(n / 10)
    };
    r.push(digit_of((n % 10) as u8));
    assert(n < 10 ==> r@ =~= seq![digit(n as nat)]);
    r
}

/// Whether the character is a decimal digit.
pub open spec fn is_decimal(c: char) -> bool {
    '0' <= c <= '9'
}

/// The value of a decimal digit.
pub open spec fn decimal_value(c: char) -> nat {
    if is_decimal(c) {
        (c as nat - 48) as nat
    } else {
        0
    }
}

/// The number that a run of decimal digits spells.
pub open spec fn spelt(digits: Seq<char>) -> nat
    decreases digits.len(),
{
    if digits.len() == 0 {
        0
    } else {
        spelt(digits.drop_last()) * 10 + decimal_value(digits.last())
    }
}

/// The text without a plus sign at its start.
pub open spec fn unsigned(text: Seq<char>) -> Seq<char> {
    if text.len() > 0 && text[0] == '+' {
        text.drop_first()
    } else {
        text
    }
}

/// Whether the text holds nothing but decimal digits.
pub open spec fn all_decimal(text: Seq<char>) -> bool {
    forall|i: int| 0 <= i < text.len() ==> is_decimal(#[trigger] text[i])
}

/// The amount that a text spells: decimal digits, at least one, perhaps behind a plus sign, and a
/// number that a `u128` can hold.
pub open spec fn amount(text: Seq<char>) -> Option<u128> {
    let digits = unsigned(text);
    if digits.len() > 0 && all_decimal(digits) && spelt(digits) <= u128::MAX {
        Some(spelt(digits) as u128)
    } else {
        None
    }
}

/// The first digits of a number spell no more than all of them.
proof fn spelt_grows(digits: Seq<char>, n: int)
    requires
        0 <= n <= digits.len(),
    ensures
        spelt(digits.take(n)) <= spelt(digits),
    decreases digits.len(),
{
    if n == digits.len() {
        assert(digits.take(n) =~= digits);
    } else {
        spelt_grows(digits.drop_last(), n);
        assert(digits.drop_last().take(n) =~= digits.take(n));
    }
}

/// Reads an amount.
pub fn parse_amount(text: &str) -> (r: Option<u128>)
    ensures
        r == amount(text@),
{
    let chars = chars_of(text);
    let start: usize = if chars.len() > 0 && chars[0] == '+' {
        1
    } else {
        0
    };
    if start == chars.len() {
        return None;
    }
    let ghost digits = chars@.skip(start as int);
    assert(digits =~= unsigned(text@));
    let mut value: u128 = 0;
    let mut i: usize = start;
    while i < chars.len()
        invariant
            start <= i <= chars@.len(),
            digits == chars@.skip(start as int),
            value == spelt(digits.take(i - start)),
            forall|j: int| 0 <= j < i - start ==> is_decimal(#[trigger] digits[j]),
            digits.len() > 0,
            digits == unsigned(text@),
        decreases chars@.len() - i,
    {
        let c = chars[i];
        assert(digits[i - start] == c);
        if c < '0' || c > '9' {
            assert(!is_decimal(digits[i - start]));
            return None;
        }
        let d: u128 = (c as u32 - 48) as u128;
        proof {
            let next = digits.take(i - start + 1);
            assert(next.drop_last() =~= digits.take(i - start));
            assert(next.last() == c);
            assert(spelt(next) == value * 10 + d);
            spelt_grows(digits, i - start + 1);
        }
        match value.checked_mul(10) {
            Some(tens) => match tens.checked_add(d) {
                Some(sum) => {
                    value = sum;
                },
                None => {
                    return None;
                },
            },
            None => {
                return None;
            },
        }
        i = i + 1;
    }
    assert(digits.take(digits.len() as int) =~= digits);
    Some(value)
}

/// The text with a backslash before each quotation mark.
pub open spec fn quotes_marked(text: Seq<char>) -> Seq<char>
    decreases text.len(),
{
    if text.len() == 0 {
        Seq::empty()
    } else if text.last() == '"' {
        quotes_marked(text.drop_last()).push('\\').push('"')
    } else {
        quotes_marked(text.drop_last()).push(text.last())
    }
}

/// How many characters of a refused text are repeated to the sender.
pub const EXCERPT: usize = 120;

/// The start of a text, with its quotation marks marked.
pub open spec fn excerpt(text: Seq<char>) -> Seq<char> {
    quotes_marked(
        text.take(
            if text.len() < EXCERPT {
                text.len() as int
            } else {
                EXCERPT as int
            },
        ),
    )
}

/// Takes the start of a text and marks its quotation marks.
pub fn excerpt_of(text: &str) -> (r: String)
    ensures
        r@ == excerpt(text@),
{
    let chars = chars_of(text);
    let length: usize = if chars.len() < EXCERPT {
        chars.len()
    } else {
        EXCERPT
    };
    let mut r = String::new();
    let mut i: usize = 0;
    while i < length
        invariant
            i <= length <= chars@.len(),
            r@ == quotes_marked(chars@.take(i as int)),
        decreases length - i,
    {
        assert(chars@.take(i + 1).drop_last() =~= chars@.take(i as int));
        if chars[i] == '"' {
            r.push('\\');
        }
        r.push(chars[i]);
        i = i + 1;
    }
    r
}

} // verus!
