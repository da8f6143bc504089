//! The 128-bit identifier of a service, a characteristic or a descriptor.

use vstd::prelude::*;

verus! {

/// The digit of lower-case hexadecimal for a number below sixteen.
pub open spec fn lower_hex(d: u128) -> char {
    if d == 0 {
        '0'
    } else if d == 1 {
        '1'
    } else if d == 2 {
        '2'
    } else if d == 3 {
        '3'
    } else if d == 4 {
        '4'
    } else if d == 5 {
        '5'
    } else if d == 6 {
        '6'
    } else if d == 7 {
        '7'
    } else if d == 8 {
        '8'
    } else if d == 9 {
        '9'
    } else if d == 10 {
        'a'
    } else if d == 11 {
        'b'
    } else if d == 12 {
        'c'
    } else if d == 13 {
        'd'
    } else if d == 14 {
        'e'
    } else {
        'f'
    }
}

/// The `k`-th group of four bits of `value`, counted from the most
/// significant, which is group zero.
pub open spec fn nibble(value: u128, k: int) -> u128 {
    (value >> ((4 * (31 - k)) as u128)) & 0xfu128
}

/// How many hyphens stand before position `i` of a hyphenated identifier.
pub open spec fn hyphens_before(i: int) -> int {
    if i < 8 {
        0
    } else if i < 13 {
        1
    } else if i < 18 {
        2
    } else if i < 23 {
        3
    } else {
        4
    }
}

/// The hyphenated lower-case text of a 128-bit identifier: its 32 groups
/// of four bits as hexadecimal digits, most significant first, with a
/// hyphen after 8, 12, 16 and 20 digits.
pub open spec fn hyphenated_text(value: u128) -> Seq<char> {
    Seq::new(
        36,
        |i: int|
            if i == 8 || i == 13 || i == 18 || i == 23 {
                '-'
            } else {
                lower_hex(nibble(value, i - hyphens_before(i)))
            },
    )
}

/// Whether `c` is a digit of lower-case hexadecimal.
pub open spec fn is_lower_hex(c: char) -> bool {
    ('0' <= c && c <= '9') || ('a' <= c && c <= 'f')
}

/// The form of a hyphenated identifier: 36 characters, a hyphen after the
/// groups of 8, 4, 4 and 4, and lower-case hexadecimal digits elsewhere.
pub open spec fn is_hyphenated_form(text: Seq<char>) -> bool {
    &&& text.len() == 36
    &&& forall|i: int|
        0 <= i < 36 ==> if i == 8 || i == 13 || i == 18 || i == 23 {
            #[trigger] text[i] == '-'
        } else {
            is_lower_hex(text[i])
        }
}

/// Every hyphenated text has the hyphenated form.
pub proof fn lemma_hyphenated_form(value: u128)
    ensures
        is_hyphenated_form(hyphenated_text(value)),
{
}

/// Calls `uuid::Uuid::from_u128(value).hyphenated()` and renders it. Trusted:
/// the text is the one that `hyphenated_text` spells out.
#[verifier::external_body]
fn hyphenated(value: u128) -> (text: String)
    ensures
        text@ == hyphenated_text(value),
{
    ::uuid::Uuid::from_u128(value).hyphenated().to_string()
}

/// A 128-bit identifier. Two attributes under one parent are the same
/// attribute exactly when their identifiers are equal.
#[derive(Clone, Copy, Debug, PartialEq, Eq, Hash, Structural)]
pub struct Uuid {
    value: u128,
}

impl View for Uuid {
    type V = u128;

    closed spec fn view(&self) -> u128 {
        self.value
    }
}

impl Uuid {
    /// Two identifiers with the same number are the same identifier.
    pub proof fn lemma_view_injective(a: Self, b: Self)
        requires
            a@ == b@,
        ensures
            a == b,
    {
    }

    /// The identifier whose 128 bits are `value`, most significant first.
    pub fn from_u128(value: u128) -> (uuid: Self)
        ensures
            uuid@ == value,
    {
        Uuid { value }
    }

    /// The 128 bits of the identifier.
    pub fn as_u128(&self) -> (value: u128)
        ensures
            value == self@,
    {
        self.value
    }

    /// The identifier as the host stack reads it: hyphenated, lower case.
    pub fn to_hyphenated_string(&self) -> (text: String)
        ensures
            text@ == hyphenated_text(self@),
            is_hyphenated_form(text@),
    {
        proof {
            lemma_hyphenated_form(self.value);
        }
        hyphenated(self.value)
    }
}

} // verus!
