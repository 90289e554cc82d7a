//! Universally unique identifiers in their canonical text form.
//!
//! An identifier is sixteen bytes. Its canonical text is 36
//! characters: 32 hexadecimal digits with hyphens after the eighth,
//! twelfth, sixteenth and twentieth digit. Parsing accepts both digit
//! cases; formatting emits lowercase.

use vstd::prelude::*;
use vstd::string::StrSliceExecFns;
use vstd::string::StringExecFns;

use crate::errors::UuidParseError;
use crate::utils::{digit_val, is_digit, spec_digit_char};

verus! {

/// The hexadecimal digit characters, either case.
pub open spec fn is_hex_digit(c: char) -> bool {
    is_digit(c) || ('a' <= c && c <= 'f') || ('A' <= c && c <= 'F')
}

/// Value of a hexadecimal digit character.
pub open spec fn hex_val(c: char) -> int {
    if is_digit(c) {
        digit_val(c)
    } else if 'a' <= c && c <= 'f' {
        c as int - 'a' as int + 10
    } else {
        c as int - 'A' as int + 10
    }
}

/// The lowercase character of a hexadecimal digit value.
pub open spec fn spec_hex_char(v: int) -> char {
    if v < 10 {
        spec_digit_char(v)
    } else if v == 10 {
        'a'
    } else if v == 11 {
        'b'
    } else if v == 12 {
        'c'
    } else if v == 13 {
        'd'
    } else if v == 14 {
        'e'
    } else {
        'f'
    }
}

/// The canonical text has hyphens at these four positions.
pub open spec fn hyphen_at(i: int) -> bool {
    i == 8 || i == 13 || i == 18 || i == 23
}

/// Text position of hexadecimal digit `k` of 32.
pub open spec fn spec_nib_pos(k: int) -> int {
    if k < 8 {
        k
    } else if k < 12 {
        k + 1
    } else if k < 16 {
        k + 2
    } else if k < 20 {
        k + 3
    } else {
        k + 4
    }
}

/// Digit index of non-hyphen text position `i`.
pub open spec fn spec_nib_of_pos(i: int) -> int {
    i - (if i < 8 {
        0int
    } else if i < 13 {
        1int
    } else if i < 18 {
        2int
    } else if i < 23 {
        3int
    } else {
        4int
    })
}

/// Hexadecimal digit `k` of a byte sequence: high halves at even
/// positions, low halves at odd ones.
pub open spec fn nibble(bytes: Seq<u8>, k: int) -> int {
    if k % 2 == 0 {
        bytes[k / 2] as int / 16
    } else {
        bytes[k / 2] as int % 16
    }
}

/// Shape of a canonical identifier text: 36 characters, hyphens at
/// their four positions, hexadecimal digits everywhere else.
pub open spec fn uuid_text_wf(s: Seq<char>) -> bool {
    &&& s.len() == 36
    &&& s[8] == '-'
    &&& s[13] == '-'
    &&& s[18] == '-'
    &&& s[23] == '-'
    &&& forall|i: int| 0 <= i < 36 && !hyphen_at(i) ==> is_hex_digit(#[trigger] s[i])
}

/// The bytes denoted by a canonical identifier text, if the text has
/// that shape.
pub open spec fn spec_parse_uuid(s: Seq<char>) -> Option<Seq<u8>> {
    if uuid_text_wf(s) {
        Some(
            Seq::new(
                16,
                |b: int|
                    (hex_val(s[spec_nib_pos(2 * b)]) * 16 + hex_val(
                        s[spec_nib_pos(2 * b + 1)],
                    )) as u8,
            ),
        )
    } else {
        None
    }
}

/// The canonical lowercase text of sixteen bytes.
pub open spec fn spec_canonical(bytes: Seq<u8>) -> Seq<char> {
    Seq::new(
        36,
        |i: int|
            if hyphen_at(i) {
                '-'
            } else {
                spec_hex_char(nibble(bytes, spec_nib_of_pos(i)))
            },
    )
}

/// A universally unique identifier: sixteen bytes.
#[derive(Debug, Clone, PartialEq, Eq)]
pub struct Uuid {
    pub bytes: Vec<u8>,
}

/// The lowercase character of a hexadecimal digit value, as a
/// one-character text.
fn hex_str(v: u8) -> (r: &'static str)
    requires
        v < 16,
    ensures
        r@ =~= seq![spec_hex_char(v as int)],
{
    proof {
        reveal_strlit("0");
        reveal_strlit("1");
        reveal_strlit("2");
        reveal_strlit("3");
        reveal_strlit("4");
        reveal_strlit("5");
        reveal_strlit("6");
        reveal_strlit("7");
        reveal_strlit("8");
        reveal_strlit("9");
        reveal_strlit("a");
        reveal_strlit("b");
        reveal_strlit("c");
        reveal_strlit("d");
        reveal_strlit("e");
        reveal_strlit("f");
    }
    match v {
        0 => "0",
        1 => "1",
        2 => "2",
        3 => "3",
        4 => "4",
        5 => "5",
        6 => "6",
        7 => "7",
        8 => "8",
        9 => "9",
        10 => "a",
        11 => "b",
        12 => "c",
        13 => "d",
        14 => "e",
        _ => "f",
    }
}

/// Value of a hexadecimal digit character, for such characters only.
fn hex_of(c: char) -> (r: Option<u8>)
    ensures
        r is Some <==> is_hex_digit(c),
        r is Some ==> r->Some_0 == hex_val(c) && r->Some_0 < 16,
{
    if '0' <= c && c <= '9' {
        Some((c as u32 - 48) as u8)
    } else if 'a' <= c && c <= 'f' {
        Some((c as u32 - 97 + 10) as u8)
    } else if 'A' <= c && c <= 'F' {
        Some((c as u32 - 65 + 10) as u8)
    } else {
        None
    }
}

/// Text position of hexadecimal digit `k` of 32.
fn nib_pos(k: usize) -> (r: usize)
    requires
        k < 32,
    ensures
        r == spec_nib_pos(k as int),
        r < 36,
        !hyphen_at(r as int),
        spec_nib_of_pos(r as int) == k,
{
    if k < 8 {
        k
    } else if k < 12 {
        k + 1
    } else if k < 16 {
        k + 2
    } else if k < 20 {
        k + 3
    } else {
        k + 4
    }
}

impl Uuid {
    /// Sixteen bytes exactly.
    pub open spec fn wf(self) -> bool {
        self.bytes@.len() == 16
    }

    /// Parse a canonical 36-character hyphenated identifier text.
    /// Fails exactly on text of any other shape.
    pub fn parse_str(input: &str) -> (r: Result<Uuid, UuidParseError>)
        ensures
            spec_parse_uuid(input@) is Some ==> r is Ok && r->Ok_0.wf() && r->Ok_0.bytes@
                == spec_parse_uuid(input@)->Some_0,
            spec_parse_uuid(input@) is None ==> r == Err::<Uuid, UuidParseError>(
                UuidParseError::Invalid,
            ),
    {
        if input.unicode_len() != 36 {
            return Err(UuidParseError::Invalid);
        }
        if input.get_char(8) != '-' || input.get_char(13) != '-' || input.get_char(18) != '-'
            || input.get_char(23) != '-' {
            return Err(UuidParseError::Invalid);
        }
        let mut bytes: Vec<u8> = Vec::new();
        let mut b: usize = 0;
        while b < 16
            invariant
                input@.len() == 36,
                0 <= b <= 16,
                bytes@.len() == b,
                forall|k: int|
                    0 <= k < 2 * b ==> is_hex_digit(#[trigger] input@[spec_nib_pos(k)]),
                forall|j: int|
                    0 <= j < b ==> bytes@[j] == (hex_val(input@[spec_nib_pos(2 * j)]) * 16
                        + hex_val(input@[spec_nib_pos(2 * j + 1)])) as u8,
            decreases 16 - b,
        {
            let hi = match hex_of(input.get_char(nib_pos(2 * b))) {
                Some(v) => v,
                None => {
                    return Err(UuidParseError::Invalid);
                },
            };
            let lo = match hex_of(input.get_char(nib_pos(2 * b + 1))) {
                Some(v) => v,
                None => {
                    return Err(UuidParseError::Invalid);
                },
            };
            bytes.push(hi * 16 + lo);
            b = b + 1;
        }
        proof {
            assert forall|i: int| 0 <= i < 36 && !hyphen_at(i) implies is_hex_digit(
                #[trigger] input@[i],
            ) by {
                let k = spec_nib_of_pos(i);
                assert(0 <= k < 32);
                assert(spec_nib_pos(k) == i);
                assert(is_hex_digit(input@[spec_nib_pos(k)]));
            }
            assert(uuid_text_wf(input@));
            assert(bytes@ =~= spec_parse_uuid(input@)->Some_0);
        }
        Ok(Uuid { bytes })
    }

    /// The canonical lowercase text of this identifier.
    pub fn to_string(&self) -> (r: String)
        requires
            self.wf(),
        ensures
            r@ == spec_canonical(self.bytes@),
    {
        let mut s = String::new();
        let mut i: usize = 0;
        while i < 36
            invariant
                self.bytes@.len() == 16,
                0 <= i <= 36,
                s@ =~= spec_canonical(self.bytes@).subrange(0, i as int),
            decreases 36 - i,
        {
            if i == 8 || i == 13 || i == 18 || i == 23 {
                s.append("-");
                proof {
                    reveal_strlit("-");
                }
            } else {
                let ghost gi = i as int;
                let k = if i < 8 {
                    i
                } else if i < 13 {
                    i - 1
                } else if i < 18 {
                    i - 2
                } else if i < 23 {
                    i - 3
                } else {
                    i - 4
                };
                proof {
                    assert(k == spec_nib_of_pos(gi));
                    assert(0 <= k < 32);
                }
                let byte = self.bytes[k / 2];
                let v: u8 = if k % 2 == 0 {
                    byte / 16
                } else {
                    byte % 16
                };
                s.append(hex_str(v));
            }
            proof {
                assert(s@ =~= spec_canonical(self.bytes@).subrange(0, i + 1));
            }
            i = i + 1;
        }
        proof {
            assert(spec_canonical(self.bytes@).subrange(0, 36) =~= spec_canonical(self.bytes@));
        }
        s
    }
}

/// Parsing the canonical text of sixteen bytes gives those bytes
/// back: formatting loses nothing.
pub proof fn lemma_uuid_round_trip(bytes: Seq<u8>)
    requires
        bytes.len() == 16,
    ensures
        spec_parse_uuid(spec_canonical(bytes)) == Some(bytes),
{
    let s = spec_canonical(bytes);
    assert forall|i: int| 0 <= i < 36 && !hyphen_at(i) implies is_hex_digit(#[trigger] s[i]) by {
        let k = spec_nib_of_pos(i);
        assert(0 <= k < 32);
        vstd::arithmetic::div_mod::lemma_fundamental_div_mod(bytes[k / 2] as int, 16);
        assert(0 <= nibble(bytes, k) < 16);
    }
    assert(uuid_text_wf(s));
    let parsed = spec_parse_uuid(s)->Some_0;
    assert forall|b: int| 0 <= b < 16 implies parsed[b] == bytes[b] by {
        let pe = spec_nib_pos(2 * b);
        let po = spec_nib_pos(2 * b + 1);
        assert(!hyphen_at(pe) && spec_nib_of_pos(pe) == 2 * b);
        assert(!hyphen_at(po) && spec_nib_of_pos(po) == 2 * b + 1);
        vstd::arithmetic::div_mod::lemma_fundamental_div_mod(bytes[b] as int, 16);
        assert(0 <= nibble(bytes, 2 * b) < 16);
        assert(0 <= nibble(bytes, 2 * b + 1) < 16);
        assert(hex_val(spec_hex_char(nibble(bytes, 2 * b))) == nibble(bytes, 2 * b));
        assert(hex_val(spec_hex_char(nibble(bytes, 2 * b + 1))) == nibble(bytes, 2 * b + 1));
    }
    assert(parsed =~= bytes);
}

} // verus!
