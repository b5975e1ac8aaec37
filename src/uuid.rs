//! Record identifiers.

use crate::bytes::{
    array_from_vec, le_bytes, le_value, lemma_le_bytes_of_value, u128_from_le_bytes,
    u128_to_le_bytes,
};
use crate::crypto::system_random_fill;
use crate::security::UnspecifiedError;
use vstd::prelude::*;

verus! {

/// A universal identifier.
#[derive(Debug, Copy, Clone, PartialEq, Eq, Hash, Structural)]
pub struct Uuid(u128);

impl View for Uuid {
    type V = u128;

    closed spec fn view(&self) -> u128 {
        self.0
    }
}

/// The 16 bytes that stand for identifier value `v`, least significant first.
pub open spec fn uuid_bytes(v: u128) -> Seq<u8> {
    le_bytes(v as nat, 16)
}

/// Whether `c` is a hexadecimal digit, in either case.
pub open spec fn is_hex_digit(c: char) -> bool {
    ('0' <= c && c <= '9') || ('a' <= c && c <= 'f') || ('A' <= c && c <= 'F')
}

/// The value of the hexadecimal digit `c` (0 for any other character).
pub open spec fn hex_digit_value(c: char) -> nat {
    if '0' <= c && c <= '9' {
        (c as u32 - '0' as u32) as nat
    } else if 'a' <= c && c <= 'f' {
        (c as u32 - 'a' as u32 + 10) as nat
    } else if 'A' <= c && c <= 'F' {
        (c as u32 - 'A' as u32 + 10) as nat
    } else {
        0
    }
}

/// The number that the hexadecimal digits `s` spell, most significant first.
pub open spec fn hex_value(s: Seq<char>) -> nat
    decreases s.len(),
{
    if s.len() == 0 {
        0
    } else {
        16 * hex_value(s.drop_last()) + hex_digit_value(s.last())
    }
}

/// The digits of a textual identifier: the text after one optional leading `+`.
pub open spec fn id_digits(s: Seq<char>) -> Seq<char> {
    if s.len() > 0 && s[0] == '+' {
        s.drop_first()
    } else {
        s
    }
}

/// The identifier value that text `s` spells in hexadecimal, if it is one: at least one
/// digit, nothing but digits after an optional `+`, and a value that fits 128 bits.
pub open spec fn parsed_id(s: Seq<char>) -> Option<u128> {
    let d = id_digits(s);
    if d.len() > 0 && (forall|i: int| 0 <= i < d.len() ==> is_hex_digit(#[trigger] d[i]))
        && hex_value(d) <= u128::MAX {
        Some(hex_value(d) as u128)
    } else {
        None
    }
}

/// Whether `c` is a hexadecimal digit, in either case.
fn is_hex(c: char) -> (r: bool)
    ensures
        r == is_hex_digit(c),
{
    ('0' <= c && c <= '9') || ('a' <= c && c <= 'f') || ('A' <= c && c <= 'F')
}

/// The value of a hexadecimal digit character, which must be one.
fn digit_value(c: char) -> (r: u128)
    requires
        is_hex_digit(c),
    ensures
        r == hex_digit_value(c),
        r < 16,
{
    let code = c as u32;
    if '0' <= c && c <= '9' {
        (code - '0' as u32) as u128
    } else if 'a' <= c && c <= 'f' {
        (code - 'a' as u32 + 10) as u128
    } else {
        (code - 'A' as u32 + 10) as u128
    }
}

impl Uuid {
    /// Draws a new identifier from the system's secure random generator.
    pub fn random() -> (r: Result<Self, UnspecifiedError>) {
        let mut buf: Vec<u8> = vec![0u8; 16];
        match system_random_fill(&mut buf) {
            Ok(()) => Ok(Uuid::from_bytes(array_from_vec(&buf))),
            Err(e) => Err(UnspecifiedError::from(e)),
        }
    }

    /// Reads an identifier written in hexadecimal, as `u128::from_str_radix` with radix
    /// 16 reads it: an optional `+`, then one or more digits of either case.
    pub fn parse_hex(text: &str) -> (r: Option<Self>)
        ensures
            r matches Some(u) ==> parsed_id(text@) == Some(u@),
            r is None ==> parsed_id(text@) is None,
    {
        let ghost s = text@;
        let total = text.unicode_len();
        let mut acc: u128 = 0;
        let mut valid = true;
        let mut overflow = false;
        let mut count: usize = 0;
        let mut signed = false;
        let mut pos: usize = 0;
        for c in it: text.chars()
            invariant
                it.seq() == s,
                pos == it.index(),
                total == s.len(),
                pos <= s.len(),
                signed == (it.index() > 0 && s[0] == '+'),
                count as int == if signed { it.index() - 1 } else { it.index() as int },
                valid == (forall|i: int|
                    0 <= i < count ==> is_hex_digit(#[trigger] id_digits(s)[i])),
                overflow == (hex_value(id_digits(s).subrange(0, count as int)) > u128::MAX),
                !overflow ==> acc == hex_value(id_digits(s).subrange(0, count as int)),
                count <= id_digits(s).len(),
        {
            let ghost before = id_digits(s).subrange(0, count as int);
            if pos == 0 && c == '+' {
                signed = true;
                assert(id_digits(s) == s.drop_first());
            } else {
                let ghost digits = id_digits(s);
                assert(digits[count as int] == c) by {
                    if s[0] == '+' {
                        assert(digits == s.drop_first());
                    }
                }
                let ghost after = digits.subrange(0, count + 1);
                assert(after.drop_last() =~= before);
                if is_hex(c) {
                    let d = digit_value(c);
                    if !overflow {
                        match acc.checked_mul(16) {
                            Some(m) => match m.checked_add(d) {
                                Some(v) => acc = v,
                                None => overflow = true,
                            },
                            None => overflow = true,
                        }
                    }
                } else {
                    valid = false;
                    if !overflow && acc > u128::MAX / 16 {
                        overflow = true;
                    } else if !overflow {
                        acc = acc * 16;
                    }
                }
                count = count + 1;
            }
            pos = pos + 1;
        }
        proof {
            assert(id_digits(s).subrange(0, count as int) =~= id_digits(s));
        }
        if valid && !overflow && count > 0 {
            Some(Uuid(acc))
        } else {
            None
        }
    }

    /// The identifier's 16 bytes, least significant first.
    pub fn to_bytes(self) -> (r: [u8; 16])
        ensures
            r@ == uuid_bytes(self@),
    {
        u128_to_le_bytes(self.0)
    }

    /// The identifier that `bytes` stand for, least significant first.
    pub fn from_bytes(bytes: [u8; 16]) -> (r: Self)
        ensures
            r@ == le_value(bytes@),
            uuid_bytes(r@) == bytes@,
    {
        proof {
            lemma_le_bytes_of_value(bytes@);
        }
        Uuid(u128_from_le_bytes(bytes))
    }
}

/// Text that does not spell an identifier in hexadecimal.
#[derive(Debug, PartialEq, Eq, Structural)]
pub struct ParseIdError {}

impl std::str::FromStr for Uuid {
    type Err = ParseIdError;

    fn from_str(s: &str) -> (r: Result<Uuid, ParseIdError>)
        ensures
            r matches Ok(u) ==> parsed_id(s@) == Some(u@),
            r is Err ==> parsed_id(s@) is None,
    {
        match Uuid::parse_hex(s) {
            Some(u) => Ok(u),
            None => Err(ParseIdError {  }),
        }
    }
}

/// A record together with its identifier.
#[derive(Debug)]
pub struct Ided<T> {
    pub uuid: Uuid,
    pub data: T,
}

} // verus!
