//! Identifiers: 128-bit values and their canonical text.
//!
//! An identifier is written as 32 hexadecimal digits, most significant digit
//! first, either in one run or in groups of 8, 4, 4, 4 and 12 digits with a
//! hyphen between neighbouring groups. Text of any other shape is rejected
//! before a store is asked anything.

use vstd::prelude::*;
use vstd::string::{StrSliceExecFns, StringExecFns};

use crate::errors::{DBError, DBErrorView};

verus! {

/// Whether `c` is a hexadecimal digit of either case.
pub open spec fn is_hex_char(c: char) -> bool {
    ('0' <= c <= '9') || ('a' <= c <= 'f') || ('A' <= c <= 'F')
}

/// The number that the hexadecimal digit `c` stands for.
pub open spec fn hex_char_value(c: char) -> nat
    recommends
        is_hex_char(c),
{
    if '0' <= c <= '9' {
        (c as int - '0' as int) as nat
    } else if 'a' <= c <= 'f' {
        (c as int - 'a' as int + 10) as nat
    } else {
        (c as int - 'A' as int + 10) as nat
    }
}

/// The lower-case hexadecimal digit that stands for `digit`.
pub open spec fn lower_hex_char(digit: nat) -> char
    recommends
        digit < 16,
{
    if digit < 10 {
        ('0' as int + digit) as char
    } else {
        ('a' as int + digit - 10) as char
    }
}

/// The number written by a run of hexadecimal digits, most significant first.
pub open spec fn hex_value(digits: Seq<char>) -> nat
    decreases digits.len(),
{
    if digits.len() == 0 {
        0
    } else {
        hex_value(digits.drop_last()) * 16 + hex_char_value(digits.last())
    }
}

/// The last `count` hexadecimal digits of `value`, most significant first.
pub open spec fn hex_digits(value: nat, count: nat) -> Seq<char>
    decreases count,
{
    if count == 0 {
        Seq::empty()
    } else {
        hex_digits(value / 16, (count - 1) as nat).push(lower_hex_char(value % 16))
    }
}

/// The 32 digits of a grouped text: the text without its four hyphens.
pub open spec fn strip_hyphens(text: Seq<char>) -> Seq<char>
    recommends
        text.len() == 36,
{
    text.subrange(0, 8) + text.subrange(9, 13) + text.subrange(14, 18) + text.subrange(19, 23)
        + text.subrange(24, 36)
}

/// The grouped text of 32 digits: a hyphen after the digits 8, 12, 16 and 20.
pub open spec fn insert_hyphens(digits: Seq<char>) -> Seq<char>
    recommends
        digits.len() == 32,
{
    digits.subrange(0, 8) + seq!['-'] + digits.subrange(8, 12) + seq!['-'] + digits.subrange(
        12,
        16,
    ) + seq!['-'] + digits.subrange(16, 20) + seq!['-'] + digits.subrange(20, 32)
}

/// Text made of exactly 32 hexadecimal digits.
pub open spec fn is_simple_text(text: Seq<char>) -> bool {
    &&& text.len() == 32
    &&& forall|i: int| 0 <= i < 32 ==> is_hex_char(#[trigger] text[i])
}

/// Text made of 32 hexadecimal digits in groups of 8, 4, 4, 4 and 12, with a
/// hyphen between neighbouring groups.
pub open spec fn is_hyphenated_text(text: Seq<char>) -> bool {
    &&& text.len() == 36
    &&& text[8] == '-'
    &&& text[13] == '-'
    &&& text[18] == '-'
    &&& text[23] == '-'
    &&& is_simple_text(strip_hyphens(text))
}

/// Whether the first 36 characters of `text` are hyphens at the positions 8,
/// 13, 18 and 23 and hexadecimal digits everywhere else.
pub open spec fn is_grouped_by_position(text: Seq<char>) -> bool {
    forall|i: int|
        0 <= i < 36 ==> if i == 8 || i == 13 || i == 18 || i == 23 {
            #[trigger] text[i] == '-'
        } else {
            is_hex_char(text[i])
        }
}

/// Text in one of the two canonical forms of an identifier.
pub open spec fn is_canonical_text(text: Seq<char>) -> bool {
    is_simple_text(text) || is_hyphenated_text(text)
}

/// The number that a canonical text writes.
pub open spec fn text_value(text: Seq<char>) -> nat
    recommends
        is_canonical_text(text),
{
    if text.len() == 36 {
        hex_value(strip_hyphens(text))
    } else {
        hex_value(text)
    }
}

/// The identifier that `text` names, if it names one.
pub open spec fn parsed_text(text: Seq<char>) -> Option<u128> {
    if is_canonical_text(text) {
        Some(text_value(text) as u128)
    } else {
        None
    }
}

/// The text that an identifier is rendered as: grouped, in lower case.
pub open spec fn rendered_text(value: u128) -> Seq<char> {
    insert_hyphens(hex_digits(value as nat, 32))
}

/// 16 to the power of `exponent`.
pub open spec fn pow16(exponent: nat) -> nat
    decreases exponent,
{
    if exponent == 0 {
        1
    } else {
        16 * pow16((exponent - 1) as nat)
    }
}

/// A lower-case digit is a hexadecimal digit and stands for its number.
pub proof fn lemma_lower_hex_char(digit: nat)
    requires
        digit < 16,
    ensures
        is_hex_char(lower_hex_char(digit)),
        hex_char_value(lower_hex_char(digit)) == digit,
        lower_hex_char(digit) != '-',
{
}

/// `hex_digits` gives as many digits as asked for, all hexadecimal.
pub proof fn lemma_hex_digits_shape(value: nat, count: nat)
    ensures
        hex_digits(value, count).len() == count,
        forall|i: int| 0 <= i < count ==> is_hex_char(#[trigger] hex_digits(value, count)[i]),
    decreases count,
{
    if count > 0 {
        lemma_hex_digits_shape(value / 16, (count - 1) as nat);
        lemma_lower_hex_char(value % 16);
    }
}

/// Reading back the digits of a value that fits in them gives the value.
pub proof fn lemma_hex_value_of_digits(value: nat, count: nat)
    requires
        value < pow16(count),
    ensures
        hex_value(hex_digits(value, count)) == value,
    decreases count,
{
    if count > 0 {
        let rest = hex_digits(value / 16, (count - 1) as nat);
        let last = lower_hex_char(value % 16);
        lemma_hex_value_of_digits(value / 16, (count - 1) as nat);
        lemma_lower_hex_char(value % 16);
        assert(rest.push(last).drop_last() =~= rest);
        assert(rest.push(last).last() == last);
    }
}

/// A run of `count` digits writes a number below 16 to the `count`.
pub proof fn lemma_hex_value_bound(digits: Seq<char>)
    requires
        forall|i: int| 0 <= i < digits.len() ==> is_hex_char(#[trigger] digits[i]),
    ensures
        hex_value(digits) < pow16(digits.len()),
    decreases digits.len(),
{
    if digits.len() > 0 {
        lemma_hex_value_bound(digits.drop_last());
        assert(is_hex_char(digits[digits.len() - 1]));
    }
}

/// 32 hexadecimal digits hold exactly the 128-bit values.
pub proof fn lemma_pow16_32()
    ensures
        pow16(32) == 0x1_0000_0000_0000_0000_0000_0000_0000_0000,
{
    reveal_with_fuel(pow16, 33);
}

/// Taking the hyphens out of a grouped text gives back its digits.
pub proof fn lemma_strip_insert_hyphens(digits: Seq<char>)
    requires
        digits.len() == 32,
    ensures
        insert_hyphens(digits).len() == 36,
        insert_hyphens(digits)[8] == '-',
        insert_hyphens(digits)[13] == '-',
        insert_hyphens(digits)[18] == '-',
        insert_hyphens(digits)[23] == '-',
        strip_hyphens(insert_hyphens(digits)) == digits,
{
    assert(strip_hyphens(insert_hyphens(digits)) =~= digits);
}

/// The rendering of an identifier is grouped canonical text.
pub proof fn lemma_rendered_text_is_canonical(value: u128)
    ensures
        is_hyphenated_text(rendered_text(value)),
        is_canonical_text(rendered_text(value)),
{
    lemma_hex_digits_shape(value as nat, 32);
    lemma_strip_insert_hyphens(hex_digits(value as nat, 32));
}

/// Every canonical text names a 128-bit value.
pub proof fn lemma_text_value_fits(text: Seq<char>)
    requires
        is_canonical_text(text),
    ensures
        text_value(text) <= u128::MAX,
{
    lemma_pow16_32();
    if text.len() == 36 {
        lemma_hex_value_bound(strip_hyphens(text));
    } else {
        lemma_hex_value_bound(text);
    }
}

/// Parsing the rendering of an identifier gives the identifier back.
pub proof fn lemma_parse_render_round_trip(value: u128)
    ensures
        parsed_text(rendered_text(value)) == Some(value),
{
    lemma_rendered_text_is_canonical(value);
    lemma_hex_digits_shape(value as nat, 32);
    lemma_strip_insert_hyphens(hex_digits(value as nat, 32));
    lemma_pow16_32();
    lemma_hex_value_of_digits(value as nat, 32);
}

/// Two identifiers with the same rendering are the same identifier.
pub proof fn lemma_rendered_text_injective(first: u128, second: u128)
    requires
        rendered_text(first) == rendered_text(second),
    ensures
        first == second,
{
    lemma_parse_render_round_trip(first);
    lemma_parse_render_round_trip(second);
}

/// Text that is not 32 hexadecimal digits, in one run or grouped by hyphens
/// as 8-4-4-4-12, names no identifier.
pub proof fn lemma_other_text_names_nothing(text: Seq<char>)
    requires
        !(text.len() == 32 && forall|i: int| 0 <= i < 32 ==> is_hex_char(#[trigger] text[i])),
        !(text.len() == 36 && is_grouped_by_position(text)),
    ensures
        parsed_text(text) is None,
{
    if is_hyphenated_text(text) {
        lemma_grouped_positions(text);
    }
}

/// Position by position: a grouped text has hyphens at 8, 13, 18 and 23 and
/// hexadecimal digits everywhere else.
pub proof fn lemma_grouped_positions(text: Seq<char>)
    requires
        text.len() == 36,
    ensures
        is_hyphenated_text(text) <==> is_grouped_by_position(text),
{
    let digits = strip_hyphens(text);
    assert(digits.len() == 32);
    if is_hyphenated_text(text) {
        assert forall|i: int| 0 <= i < 36 implies if i == 8 || i == 13 || i == 18 || i == 23 {
            #[trigger] text[i] == '-'
        } else {
            is_hex_char(text[i])
        } by {
            if i < 8 {
                assert(text[i] == digits[i]);
            } else if 8 < i < 13 {
                assert(text[i] == digits[i - 1]);
            } else if 13 < i < 18 {
                assert(text[i] == digits[i - 2]);
            } else if 18 < i < 23 {
                assert(text[i] == digits[i - 3]);
            } else if 23 < i {
                assert(text[i] == digits[i - 4]);
            }
        }
    }
    if is_grouped_by_position(text) {
        assert(text[8] == '-' && text[13] == '-' && text[18] == '-' && text[23] == '-');
        assert forall|j: int| 0 <= j < 32 implies is_hex_char(#[trigger] digits[j]) by {
            if j < 8 {
                assert(digits[j] == text[j]);
            } else if j < 12 {
                assert(digits[j] == text[j + 1]);
            } else if j < 16 {
                assert(digits[j] == text[j + 2]);
            } else if j < 20 {
                assert(digits[j] == text[j + 3]);
            } else {
                assert(digits[j] == text[j + 4]);
            }
        }
    }
}

/// A 128-bit identifier of a question or of an answer.
#[derive(Debug, Clone, Copy, PartialEq, Eq, Structural, Hash)]
pub struct Identifier {
    pub value: u128,
}

impl View for Identifier {
    type V = u128;

    open spec fn view(&self) -> u128 {
        self.value
    }
}

/// Reads a canonical text with `Uuid::parse_str` and takes the result as a
/// number with `Uuid::as_u128`.
///
/// Trusted: on text of 32 hexadecimal digits, in one run or grouped as
/// 8-4-4-4-12, the parser succeeds and gives the 16 bytes that the digits
/// write, two digits a byte in the order of the text; `as_u128` reads those
/// bytes most significant first.
#[verifier::external_body]
fn uuid_parse_str(raw: &str) -> (value: Option<u128>)
    requires
        is_canonical_text(raw@),
    ensures
        value == Some(text_value(raw@) as u128),
{
    match sqlx::types::Uuid::parse_str(raw) {
        Ok(uuid) => Some(uuid.as_u128()),
        Err(_) => None,
    }
}

/// Builds the value with `Uuid::from_u128` and renders it with its `Display`
/// impl, through `to_string`.
///
/// Trusted: `Display` writes the hyphenated form in lower case, that is the
/// 32 hexadecimal digits of the value, most significant first, with a hyphen
/// after the digits 8, 12, 16 and 20.
#[verifier::external_body]
fn uuid_to_string(value: u128) -> (text: String)
    ensures
        text@ == rendered_text(value),
{
    sqlx::types::Uuid::from_u128(value).to_string()
}

/// Whether `c` is a hexadecimal digit of either case.
fn is_hex(c: char) -> (hex: bool)
    ensures
        hex == is_hex_char(c),
{
    ('0' <= c && c <= '9') || ('a' <= c && c <= 'f') || ('A' <= c && c <= 'F')
}

/// Whether `raw` is in one of the two canonical forms.
pub fn is_canonical(raw: &str) -> (canonical: bool)
    ensures
        canonical == is_canonical_text(raw@),
{
    let len = raw.unicode_len();
    if len == 32 {
        let mut i: usize = 0;
        while i < 32
            invariant
                i <= 32,
                raw@.len() == 32,
                forall|k: int| 0 <= k < i ==> is_hex_char(#[trigger] raw@[k]),
            decreases 32 - i,
        {
            if !is_hex(raw.get_char(i)) {
                return false;
            }
            i = i + 1;
        }
        true
    } else if len == 36 {
        let mut i: usize = 0;
        while i < 36
            invariant
                i <= 36,
                raw@.len() == 36,
                forall|k: int|
                    0 <= k < i ==> if k == 8 || k == 13 || k == 18 || k == 23 {
                        #[trigger] raw@[k] == '-'
                    } else {
                        is_hex_char(raw@[k])
                    },
            decreases 36 - i,
        {
            let c = raw.get_char(i);
            if i == 8 || i == 13 || i == 18 || i == 23 {
                if c != '-' {
                    return false;
                }
            } else if !is_hex(c) {
                proof {
                    lemma_grouped_positions(raw@);
                }
                return false;
            }
            i = i + 1;
        }
        proof {
            lemma_grouped_positions(raw@);
        }
        true
    } else {
        false
    }
}

impl Identifier {
    /// The identifier with the given value.
    pub fn from_u128(value: u128) -> (id: Identifier)
        ensures
            id@ == value,
    {
        Identifier { value }
    }

    /// The value of the identifier.
    pub fn as_u128(&self) -> (value: u128)
        ensures
            value == self@,
    {
        self.value
    }

    /// Reads an identifier from text supplied from outside.
    ///
    /// Succeeds exactly on canonical text, with the value that the digits
    /// write. Any other text is refused with [`DBError::InvalidUUID`], which
    /// carries the text as it was given.
    pub fn parse(raw: &str) -> (parsed: Result<Identifier, DBError>)
        ensures
            parsed_text(raw@) matches Some(value) ==> parsed == Ok::<Identifier, DBError>(
                Identifier { value },
            ),
            parsed_text(raw@) is None ==> (parsed matches Err(error) && error@
                == DBErrorView::InvalidUUID(raw@)),
    {
        if is_canonical(raw) {
            match uuid_parse_str(raw) {
                Some(value) => Ok(Identifier { value }),
                None => Err(DBError::InvalidUUID(String::from_str(raw))),
            }
        } else {
            Err(DBError::InvalidUUID(String::from_str(raw)))
        }
    }

    /// The canonical text of the identifier: grouped, in lower case.
    pub fn render(&self) -> (text: String)
        ensures
            text@ == rendered_text(self@),
    {
        uuid_to_string(self.value)
    }
}

} // verus!
