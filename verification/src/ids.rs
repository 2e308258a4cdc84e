use vstd::prelude::*;

use crate::text::{spec_is_hex_digit, spec_hex_val, hex_val};

verus! {

/// Opaque unique identifier of a strategy document: sixteen bytes. Sources
/// may write it in any of the four usual text forms — hyphenated
/// 8-4-4-4-12, plain 32 digits, the hyphenated form in braces, or the
/// hyphenated form behind a `urn:uuid:` prefix.
#[derive(Debug)]
pub struct StrategyId {
    bytes: Vec<u8>,
}

/// An identifier value is all zero exactly when it is the nil sentinel.
pub open spec fn spec_id_is_nil(b: Seq<u8>) -> bool {
    forall|k: int| 0 <= k < b.len() ==> b[k] == 0
}

/// Index of the first hexadecimal digit of byte `j` within the hyphenated
/// text form.
pub open spec fn spec_id_hex_pos(j: int) -> int {
    2 * j + if j < 4 {
        0int
    } else if j < 6 {
        1int
    } else if j < 8 {
        2int
    } else if j < 10 {
        3int
    } else {
        4int
    }
}

/// Whether the thirty-six characters starting at `off` spell a hyphenated
/// identifier.
pub open spec fn spec_valid_hyphenated_at(s: Seq<char>, off: int) -> bool {
    &&& s[off + 8] == '-'
    &&& s[off + 13] == '-'
    &&& s[off + 18] == '-'
    &&& s[off + 23] == '-'
    &&& forall|j: int|
        0 <= j < 16 ==> #[trigger] spec_is_hex_digit(s[off + spec_id_hex_pos(j)])
            && spec_is_hex_digit(s[off + spec_id_hex_pos(j) + 1])
}

/// The sixteen bytes the hyphenated form starting at `off` denotes.
pub open spec fn spec_hyphenated_bytes_at(s: Seq<char>, off: int) -> Seq<u8> {
    Seq::new(
        16,
        |j: int|
            (16 * spec_hex_val(s[off + spec_id_hex_pos(j)]) + spec_hex_val(
                s[off + spec_id_hex_pos(j) + 1],
            )) as u8,
    )
}

/// Whether a thirty-two character sequence is all hexadecimal digits.
pub open spec fn spec_valid_simple(s: Seq<char>) -> bool {
    forall|j: int|
        0 <= j < 16 ==> #[trigger] spec_is_hex_digit(s[2 * j]) && spec_is_hex_digit(s[2 * j + 1])
}

/// The sixteen bytes the plain 32-digit form denotes.
pub open spec fn spec_simple_bytes(s: Seq<char>) -> Seq<u8> {
    Seq::new(16, |j: int| (16 * spec_hex_val(s[2 * j]) + spec_hex_val(s[2 * j + 1])) as u8)
}

/// Whether the first nine characters spell `urn:uuid:`, letters in either
/// case.
pub open spec fn spec_urn_prefix(s: Seq<char>) -> bool {
    &&& (s[0] == 'u' || s[0] == 'U')
    &&& (s[1] == 'r' || s[1] == 'R')
    &&& (s[2] == 'n' || s[2] == 'N')
    &&& s[3] == ':'
    &&& (s[4] == 'u' || s[4] == 'U')
    &&& (s[5] == 'u' || s[5] == 'U')
    &&& (s[6] == 'i' || s[6] == 'I')
    &&& (s[7] == 'd' || s[7] == 'D')
    &&& s[8] == ':'
}

/// Whether a character sequence is a well-formed identifier text: the
/// hyphenated, plain, braced or URN form, told apart by length.
pub open spec fn spec_valid_id_text(s: Seq<char>) -> bool {
    if s.len() == 36 {
        spec_valid_hyphenated_at(s, 0)
    } else if s.len() == 32 {
        spec_valid_simple(s)
    } else if s.len() == 38 {
        s[0] == '{' && s[37] == '}' && spec_valid_hyphenated_at(s, 1)
    } else if s.len() == 45 {
        spec_urn_prefix(s) && spec_valid_hyphenated_at(s, 9)
    } else {
        false
    }
}

/// The sixteen bytes a well-formed identifier text denotes.
pub open spec fn spec_id_bytes(s: Seq<char>) -> Seq<u8> {
    if s.len() == 32 {
        spec_simple_bytes(s)
    } else if s.len() == 38 {
        spec_hyphenated_bytes_at(s, 1)
    } else if s.len() == 45 {
        spec_hyphenated_bytes_at(s, 9)
    } else {
        spec_hyphenated_bytes_at(s, 0)
    }
}

/// Relies on `uuid::Uuid::new_v4`: yields the sixteen big-endian bytes of a
/// random version-4 identifier, whose version and variant bits are always set.
#[verifier::external_body]
fn fresh_id_bytes() -> (r: Vec<u8>)
    ensures
        r@.len() == 16,
        r@[6] & 0xF0 == 0x40,
        r@[8] & 0xC0 == 0x80,
{
    uuid::Uuid::new_v4().as_bytes().to_vec()
}

fn parse_hyphenated_at(s: &str, off: usize) -> (r: Option<Vec<u8>>)
    requires
        off + 36 <= s@.len(),
        off + 36 <= usize::MAX,
    ensures
        r is Some <==> spec_valid_hyphenated_at(s@, off as int),
        r matches Some(b) ==> b@ == spec_hyphenated_bytes_at(s@, off as int),
{
    if s.get_char(off + 8) != '-' || s.get_char(off + 13) != '-' || s.get_char(off + 18) != '-'
        || s.get_char(off + 23) != '-' {
        return None;
    }
    let mut bytes: Vec<u8> = Vec::new();
    let mut j: usize = 0;
    while j < 16
        invariant
            j <= 16,
            bytes@.len() == j,
            off + 36 <= s@.len(),
            off + 36 <= usize::MAX,
            s@[off + 8] == '-',
            s@[off + 13] == '-',
            s@[off + 18] == '-',
            s@[off + 23] == '-',
            forall|k: int|
                0 <= k < j ==> #[trigger] spec_is_hex_digit(s@[off + spec_id_hex_pos(k)])
                    && spec_is_hex_digit(s@[off + spec_id_hex_pos(k) + 1]),
            forall|k: int| 0 <= k < j ==> bytes@[k] == spec_hyphenated_bytes_at(s@, off as int)[k],
        decreases 16 - j,
    {
        let p: usize = off + 2 * j + if j < 4 {
            0
        } else if j < 6 {
            1
        } else if j < 8 {
            2
        } else if j < 10 {
            3
        } else {
            4
        };
        proof {
            assert(p == off + spec_id_hex_pos(j as int));
        }
        let h1 = match hex_val(s.get_char(p)) {
            Some(v) => v,
            None => {
                return None;
            },
        };
        let h2 = match hex_val(s.get_char(p + 1)) {
            Some(v) => v,
            None => {
                return None;
            },
        };
        proof {
            assert(spec_is_hex_digit(s@[off + spec_id_hex_pos(j as int)]));
            assert(spec_is_hex_digit(s@[off + spec_id_hex_pos(j as int) + 1]));
        }
        bytes.push(16 * h1 + h2);
        j += 1;
    }
    proof {
        assert(bytes@ =~= spec_hyphenated_bytes_at(s@, off as int));
    }
    Some(bytes)
}

fn parse_simple(s: &str) -> (r: Option<Vec<u8>>)
    requires
        s@.len() == 32,
    ensures
        r is Some <==> spec_valid_simple(s@),
        r matches Some(b) ==> b@ == spec_simple_bytes(s@),
{
    let mut bytes: Vec<u8> = Vec::new();
    let mut j: usize = 0;
    while j < 16
        invariant
            j <= 16,
            bytes@.len() == j,
            s@.len() == 32,
            forall|k: int|
                0 <= k < j ==> #[trigger] spec_is_hex_digit(s@[2 * k]) && spec_is_hex_digit(
                    s@[2 * k + 1],
                ),
            forall|k: int| 0 <= k < j ==> bytes@[k] == spec_simple_bytes(s@)[k],
        decreases 16 - j,
    {
        let h1 = match hex_val(s.get_char(2 * j)) {
            Some(v) => v,
            None => {
                return None;
            },
        };
        let h2 = match hex_val(s.get_char(2 * j + 1)) {
            Some(v) => v,
            None => {
                return None;
            },
        };
        bytes.push(16 * h1 + h2);
        j += 1;
    }
    proof {
        assert(bytes@ =~= spec_simple_bytes(s@));
    }
    Some(bytes)
}

fn has_urn_prefix(s: &str) -> (r: bool)
    requires
        9 <= s@.len(),
    ensures
        r == spec_urn_prefix(s@),
{
    let c0 = s.get_char(0);
    let c1 = s.get_char(1);
    let c2 = s.get_char(2);
    let c4 = s.get_char(4);
    let c5 = s.get_char(5);
    let c6 = s.get_char(6);
    let c7 = s.get_char(7);
    (c0 == 'u' || c0 == 'U') && (c1 == 'r' || c1 == 'R') && (c2 == 'n' || c2 == 'N')
        && s.get_char(3) == ':' && (c4 == 'u' || c4 == 'U') && (c5 == 'u' || c5 == 'U') && (c6
        == 'i' || c6 == 'I') && (c7 == 'd' || c7 == 'D') && s.get_char(8) == ':'
}

impl View for StrategyId {
    type V = Seq<u8>;

    closed spec fn view(&self) -> Seq<u8> {
        self.bytes@
    }
}

impl StrategyId {
    /// A well-formed identifier holds exactly sixteen bytes.
    pub open spec fn wf(&self) -> bool {
        self@.len() == 16
    }

    /// The nil sentinel identifier.
    pub fn nil() -> (r: StrategyId)
        ensures
            r.wf(),
            spec_id_is_nil(r@),
    {
        let mut bytes: Vec<u8> = Vec::new();
        let mut i: usize = 0;
        while i < 16
            invariant
                bytes@.len() == i,
                i <= 16,
                forall|k: int| 0 <= k < i ==> bytes@[k] == 0,
            decreases 16 - i,
        {
            bytes.push(0);
            i += 1;
        }
        StrategyId { bytes }
    }

    /// A freshly generated identifier; never the nil sentinel.
    pub fn fresh() -> (r: StrategyId)
        ensures
            r.wf(),
            !spec_id_is_nil(r@),
    {
        let bytes = fresh_id_bytes();
        proof {
            assert(bytes@[6] != 0) by {
                let b = bytes@[6];
                assert(b & 0xF0 == 0x40 ==> b != 0) by (bit_vector);
            }
        }
        StrategyId { bytes }
    }

    /// Whether this identifier is the nil sentinel.
    pub fn is_nil(&self) -> (r: bool)
        ensures
            r == spec_id_is_nil(self@),
    {
        let mut i: usize = 0;
        while i < self.bytes.len()
            invariant
                i <= self.bytes.len(),
                forall|k: int| 0 <= k < i ==> self.bytes@[k] == 0,
            decreases self.bytes.len() - i,
        {
            if self.bytes[i] != 0 {
                return false;
            }
            i += 1;
        }
        true
    }

    /// An identical copy of this identifier.
    pub fn duplicate(&self) -> (r: StrategyId)
        ensures
            r@ == self@,
    {
        let mut bytes: Vec<u8> = Vec::new();
        let mut i: usize = 0;
        while i < self.bytes.len()
            invariant
                i <= self.bytes.len(),
                bytes@ =~= self.bytes@.subrange(0, i as int),
            decreases self.bytes.len() - i,
        {
            bytes.push(self.bytes[i]);
            i += 1;
        }
        proof {
            assert(bytes@ =~= self.bytes@);
        }
        StrategyId { bytes }
    }

    /// Parses any of the four text forms — hyphenated, plain 32-digit,
    /// braced, or URN; fails exactly on malformed text.
    pub fn parse(s: &str) -> (r: Option<StrategyId>)
        ensures
            r is Some <==> spec_valid_id_text(s@),
            r matches Some(id) ==> id@ == spec_id_bytes(s@) && id.wf(),
    {
        let n = s.unicode_len();
        let body = if n == 36 {
            parse_hyphenated_at(s, 0)
        } else if n == 32 {
            parse_simple(s)
        } else if n == 38 {
            if s.get_char(0) == '{' && s.get_char(37) == '}' {
                parse_hyphenated_at(s, 1)
            } else {
                None
            }
        } else if n == 45 {
            if has_urn_prefix(s) {
                parse_hyphenated_at(s, 9)
            } else {
                None
            }
        } else {
            None
        };
        match body {
            Some(bytes) => Some(StrategyId { bytes }),
            None => None,
        }
    }
}

} // verus!
