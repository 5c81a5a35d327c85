use vstd::prelude::*;

use crate::errors::UuidError;
use crate::ident::Identifier;

verus! {

broadcast use crate::ident::lemma_identifier_len;

/// The value of a hexadecimal digit character, with both letter cases
/// accepted; 16 for any character that is not a hexadecimal digit.
pub open spec fn hex_val_of(c: char) -> int {
    if c == '0' {
        0
    } else if c == '1' {
        1
    } else if c == '2' {
        2
    } else if c == '3' {
        3
    } else if c == '4' {
        4
    } else if c == '5' {
        5
    } else if c == '6' {
        6
    } else if c == '7' {
        7
    } else if c == '8' {
        8
    } else if c == '9' {
        9
    } else if c == 'a' || c == 'A' {
        10
    } else if c == 'b' || c == 'B' {
        11
    } else if c == 'c' || c == 'C' {
        12
    } else if c == 'd' || c == 'D' {
        13
    } else if c == 'e' || c == 'E' {
        14
    } else if c == 'f' || c == 'F' {
        15
    } else {
        16
    }
}

/// Whether a character is a hexadecimal digit, in either letter case.
pub open spec fn is_hex_char(c: char) -> bool {
    hex_val_of(c) < 16
}

/// The lowercase hexadecimal digit character for a value below 16.
pub open spec fn hex_char_of(d: int) -> char
    recommends
        0 <= d < 16,
{
    if d == 0 {
        '0'
    } else if d == 1 {
        '1'
    } else if d == 2 {
        '2'
    } else if d == 3 {
        '3'
    } else if d == 4 {
        '4'
    } else if d == 5 {
        '5'
    } else if d == 6 {
        '6'
    } else if d == 7 {
        '7'
    } else if d == 8 {
        '8'
    } else if d == 9 {
        '9'
    } else if d == 10 {
        'a'
    } else if d == 11 {
        'b'
    } else if d == 12 {
        'c'
    } else if d == 13 {
        'd'
    } else if d == 14 {
        'e'
    } else {
        'f'
    }
}

/// Whether a position in the 36-character canonical string holds a hyphen.
pub open spec fn is_hyphen_pos(p: int) -> bool {
    p == 8 || p == 13 || p == 18 || p == 23
}

/// The position in the canonical string of hexadecimal digit number `d`,
/// counting digits from the most significant.
pub open spec fn digit_pos(d: int) -> int
    recommends
        0 <= d < 32,
{
    if d < 8 {
        d
    } else if d < 12 {
        d + 1
    } else if d < 16 {
        d + 2
    } else if d < 20 {
        d + 3
    } else {
        d + 4
    }
}

/// The hexadecimal digit number rendered at a non-hyphen position of the
/// canonical string.
pub open spec fn hex_index(p: int) -> int
    recommends
        0 <= p < 36 && !is_hyphen_pos(p),
{
    if p < 8 {
        p
    } else if p < 13 {
        p - 1
    } else if p < 18 {
        p - 2
    } else if p < 23 {
        p - 3
    } else {
        p - 4
    }
}

/// Hexadecimal digit number `d` of a 16-byte value: the high nibble of byte
/// `d / 2` for even `d`, the low nibble for odd `d`.
pub open spec fn nibble_of(b: Seq<u8>, d: int) -> int
    recommends
        b.len() == 16 && 0 <= d < 32,
{
    if d % 2 == 0 {
        (b[d / 2] as int) / 16
    } else {
        (b[d / 2] as int) % 16
    }
}

/// The character at a position of the canonical rendering of a 16-byte value.
pub open spec fn format_char(b: Seq<u8>, p: int) -> char
    recommends
        b.len() == 16 && 0 <= p < 36,
{
    if is_hyphen_pos(p) {
        '-'
    } else {
        hex_char_of(nibble_of(b, hex_index(p)))
    }
}

/// The canonical lowercase hyphenated rendering of a 16-byte value: 36
/// characters, hex digits grouped 8-4-4-4-12.
pub open spec fn format_spec(b: Seq<u8>) -> Seq<char>
    recommends
        b.len() == 16,
{
    Seq::new(36, |p: int| format_char(b, p))
}

/// Whether the character at a position of a candidate canonical string is
/// acceptable: a hyphen at the hyphen positions, a hex digit elsewhere.
pub open spec fn char_ok(s: Seq<char>, p: int) -> bool {
    if is_hyphen_pos(p) {
        s[p] == '-'
    } else {
        is_hex_char(s[p])
    }
}

/// Whether a string is a canonical identifier rendering: exactly 36
/// characters, hyphens exactly at positions 8, 13, 18 and 23, hexadecimal
/// digits of either case everywhere else.
pub open spec fn is_canonical(s: Seq<char>) -> bool {
    s.len() == 36 && forall|p: int| 0 <= p < 36 ==> #[trigger] char_ok(s, p)
}

/// The 16 bytes read back from a canonical string: byte `i` from the pair of
/// hexadecimal digits numbered `2 * i` and `2 * i + 1`.
pub open spec fn parse_spec(s: Seq<char>) -> Seq<u8>
    recommends
        is_canonical(s),
{
    Seq::new(
        16,
        |i: int| (hex_val_of(s[digit_pos(2 * i)]) * 16 + hex_val_of(s[digit_pos(2 * i + 1)])) as u8,
    )
}

/// Digit positions lie inside the string, never on a hyphen, and `hex_index`
/// inverts `digit_pos`.
proof fn lemma_digit_pos_props(d: int)
    requires
        0 <= d < 32,
    ensures
        0 <= digit_pos(d) < 36,
        !is_hyphen_pos(digit_pos(d)),
        hex_index(digit_pos(d)) == d,
{
}

/// Every non-hyphen position carries a digit number, and `digit_pos` inverts
/// `hex_index`.
proof fn lemma_hex_index_props(p: int)
    requires
        0 <= p < 36,
        !is_hyphen_pos(p),
    ensures
        0 <= hex_index(p) < 32,
        digit_pos(hex_index(p)) == p,
{
}

/// Reading back the lowercase digit character of a nibble gives the nibble.
proof fn lemma_hex_char_val(v: int)
    requires
        0 <= v < 16,
    ensures
        hex_val_of(hex_char_of(v)) == v,
        is_hex_char(hex_char_of(v)),
{
}

/// Formatting then parsing is the identity on 16-byte values: the canonical
/// rendering of any 16-byte value is itself canonical, and parsing it back
/// yields exactly the original bytes.
pub proof fn lemma_format_parse_round_trip(b: Seq<u8>)
    requires
        b.len() == 16,
    ensures
        is_canonical(format_spec(b)),
        parse_spec(format_spec(b)) == b,
{
    let s = format_spec(b);
    assert forall|p: int| 0 <= p < 36 implies #[trigger] char_ok(s, p) by {
        if !is_hyphen_pos(p) {
            lemma_hex_index_props(p);
            let d = hex_index(p);
            vstd::arithmetic::div_mod::lemma_fundamental_div_mod(b[d / 2] as int, 16);
            lemma_hex_char_val(nibble_of(b, d));
        }
    }
    assert forall|i: int| 0 <= i < 16 implies parse_spec(s)[i] == b[i] by {
        lemma_digit_pos_props(2 * i);
        lemma_digit_pos_props(2 * i + 1);
        let hi = nibble_of(b, 2 * i);
        let lo = nibble_of(b, 2 * i + 1);
        vstd::arithmetic::div_mod::lemma_fundamental_div_mod(b[i] as int, 16);
        lemma_hex_char_val(hi);
        lemma_hex_char_val(lo);
        assert(s[digit_pos(2 * i)] == hex_char_of(hi));
        assert(s[digit_pos(2 * i + 1)] == hex_char_of(lo));
        assert(hi * 16 + lo == b[i] as int);
    }
    assert(parse_spec(s) =~= b);
}

/// Whether char sequence `a` is below `b` with the first difference at index
/// `i`, comparing characters by code point.
pub open spec fn lex_less_chars_at(a: Seq<char>, b: Seq<char>, i: int) -> bool {
    &&& 0 <= i < a.len()
    &&& i < b.len()
    &&& (a[i] as u32) < (b[i] as u32)
    &&& forall|j: int| 0 <= j < i ==> a[j] == b[j]
}

/// Whether char sequence `a` sorts strictly before `b` in code-point order.
pub open spec fn lex_less_chars(a: Seq<char>, b: Seq<char>) -> bool {
    exists|i: int| lex_less_chars_at(a, b, i)
}

/// Lowercase hexadecimal digit characters order as their values do.
proof fn lemma_hex_char_monotone(v1: int, v2: int)
    requires
        0 <= v1 < v2 < 16,
    ensures
        (hex_char_of(v1) as u32) < (hex_char_of(v2) as u32),
{
}

/// `digit_pos` is strictly increasing, so a position below `digit_pos(d0)`
/// carries a digit number below `d0`.
proof fn lemma_digit_pos_monotone(d: int, d0: int)
    requires
        0 <= d < 32,
        0 <= d0 < 32,
        digit_pos(d) < digit_pos(d0),
    ensures
        d < d0,
{
}

/// While every nibble before number `d0` agrees, every rendered character
/// before position `digit_pos(d0)` agrees too.
proof fn lemma_chars_equal_before(a: Seq<u8>, b: Seq<u8>, d0: int, q: int)
    requires
        a.len() == 16,
        b.len() == 16,
        0 <= d0 < 32,
        forall|j: int| 0 <= j < d0 ==> #[trigger] nibble_of(a, j) == nibble_of(b, j),
        0 <= q < digit_pos(d0),
    ensures
        format_char(a, q) == format_char(b, q),
{
    lemma_digit_pos_props(d0);
    if !is_hyphen_pos(q) {
        lemma_hex_index_props(q);
        lemma_digit_pos_monotone(hex_index(q), d0);
    }
}

/// Formatting preserves strict lexicographic order: identifiers that sort by
/// raw bytes sort the same way as canonical strings.
pub proof fn lemma_format_preserves_order(a: Seq<u8>, b: Seq<u8>)
    requires
        a.len() == 16,
        b.len() == 16,
        crate::ident::lex_less(a, b),
    ensures
        lex_less_chars(format_spec(a), format_spec(b)),
{
    let i = choose|i: int| crate::ident::lex_less_at(a, b, i);
    let sa = format_spec(a);
    let sb = format_spec(b);
    let hi_a = (a[i] as int) / 16;
    let hi_b = (b[i] as int) / 16;
    let lo_a = (a[i] as int) % 16;
    let lo_b = (b[i] as int) % 16;
    vstd::arithmetic::div_mod::lemma_fundamental_div_mod(a[i] as int, 16);
    vstd::arithmetic::div_mod::lemma_fundamental_div_mod(b[i] as int, 16);
    assert forall|j: int| 0 <= j < 2 * i implies #[trigger] nibble_of(a, j) == nibble_of(b, j) by {
        assert(j / 2 < i) by {
            vstd::arithmetic::div_mod::lemma_fundamental_div_mod(j, 2);
        }
        assert(a[j / 2] == b[j / 2]);
    }
    if hi_a < hi_b {
        let p = digit_pos(2 * i);
        lemma_digit_pos_props(2 * i);
        assert forall|q: int| 0 <= q < p implies sa[q] == sb[q] by {
            lemma_chars_equal_before(a, b, 2 * i, q);
        }
        lemma_hex_char_monotone(hi_a, hi_b);
        assert(lex_less_chars_at(sa, sb, p));
    } else {
        assert(hi_a == hi_b && lo_a < lo_b);
        let p = digit_pos(2 * i + 1);
        lemma_digit_pos_props(2 * i + 1);
        assert(nibble_of(a, 2 * i) == nibble_of(b, 2 * i));
        assert forall|q: int| 0 <= q < p implies sa[q] == sb[q] by {
            lemma_chars_equal_before(a, b, 2 * i + 1, q);
        }
        lemma_hex_char_monotone(lo_a, lo_b);
        assert(lex_less_chars_at(sa, sb, p));
    }
}

/// An identifier with a strictly smaller timestamp field renders to a
/// canonical string that sorts strictly before the other's: string order
/// agrees with generation order, just as byte order does.
pub proof fn lemma_ts_order_implies_string_order(a: Seq<u8>, b: Seq<u8>)
    requires
        a.len() == 16,
        b.len() == 16,
        crate::ident::ts_of(a) < crate::ident::ts_of(b),
    ensures
        lex_less_chars(format_spec(a), format_spec(b)),
{
    crate::ident::lemma_ts_order_implies_lex_order(a, b);
    lemma_format_preserves_order(a, b);
}

/// Relies on `String::push`: appends the given character to the end of the
/// string, changing nothing else.
#[verifier::external_body]
fn push_char(s: &mut String, c: char)
    ensures
        final(s)@ == old(s)@.push(c),
{
    s.push(c);
}

/// The lowercase hexadecimal digit character for a nibble.
fn hex_char(d: u8) -> (c: char)
    requires
        d < 16,
    ensures
        c == hex_char_of(d as int),
{
    match d {
        0 => '0',
        1 => '1',
        2 => '2',
        3 => '3',
        4 => '4',
        5 => '5',
        6 => '6',
        7 => '7',
        8 => '8',
        9 => '9',
        10 => 'a',
        11 => 'b',
        12 => 'c',
        13 => 'd',
        14 => 'e',
        _ => 'f',
    }
}

/// The value of a hexadecimal digit character, or nothing for any other
/// character.
fn hex_val(c: char) -> (r: Option<u8>)
    ensures
        r matches Some(v) ==> v == hex_val_of(c) && v < 16,
        r is Some <==> is_hex_char(c),
{
    match c {
        '0' => Some(0),
        '1' => Some(1),
        '2' => Some(2),
        '3' => Some(3),
        '4' => Some(4),
        '5' => Some(5),
        '6' => Some(6),
        '7' => Some(7),
        '8' => Some(8),
        '9' => Some(9),
        'a' | 'A' => Some(10),
        'b' | 'B' => Some(11),
        'c' | 'C' => Some(12),
        'd' | 'D' => Some(13),
        'e' | 'E' => Some(14),
        'f' | 'F' => Some(15),
        _ => None,
    }
}

/// The position in the canonical string of a hexadecimal digit number.
fn digit_pos_exec(d: usize) -> (p: usize)
    requires
        d < 32,
    ensures
        p == digit_pos(d as int),
        p < 36,
{
    if d < 8 {
        d
    } else if d < 12 {
        d + 1
    } else if d < 16 {
        d + 2
    } else if d < 20 {
        d + 3
    } else {
        d + 4
    }
}

impl Identifier {
    /// Renders the identifier as its canonical lowercase hyphenated
    /// 36-character string.
    pub fn format(&self) -> (s: String)
        ensures
            s@ == format_spec(self@),
            is_canonical(s@),
    {
        let bytes = self.encode();
        let mut s = String::new();
        let mut p: usize = 0;
        while p < 36
            invariant
                p <= 36,
                bytes@ == self@,
                s@.len() == p,
                forall|q: int| 0 <= q < p ==> s@[q] == format_char(self@, q),
            decreases 36 - p,
        {
            if p == 8 || p == 13 || p == 18 || p == 23 {
                push_char(&mut s, '-');
            } else {
                let d: usize = if p < 8 {
                    p
                } else if p < 13 {
                    p - 1
                } else if p < 18 {
                    p - 2
                } else if p < 23 {
                    p - 3
                } else {
                    p - 4
                };
                let byte = bytes[d / 2];
                let nib = if d % 2 == 0 {
                    byte / 16
                } else {
                    byte % 16
                };
                let c = hex_char(nib);
                push_char(&mut s, c);
            }
            p += 1;
        }
        proof {
            assert(s@ =~= format_spec(self@));
            lemma_format_parse_round_trip(self@);
        }
        s
    }

    /// Parses a canonical 36-character hyphenated string, of either letter
    /// case, back into an identifier; any other string is rejected.
    pub fn parse(input: &str) -> (r: Result<Identifier, UuidError>)
        ensures
            is_canonical(input@) <==> r is Ok,
            r matches Ok(id) ==> id@ == parse_spec(input@),
            !is_canonical(input@) ==> r == Err::<Identifier, UuidError>(UuidError::InvalidFormat),
    {
        let n = input.unicode_len();
        if n != 36 {
            return Err(UuidError::InvalidFormat);
        }
        if input.get_char(8) != '-' {
            proof {
                assert(!char_ok(input@, 8));
            }
            return Err(UuidError::InvalidFormat);
        }
        if input.get_char(13) != '-' {
            proof {
                assert(!char_ok(input@, 13));
            }
            return Err(UuidError::InvalidFormat);
        }
        if input.get_char(18) != '-' {
            proof {
                assert(!char_ok(input@, 18));
            }
            return Err(UuidError::InvalidFormat);
        }
        if input.get_char(23) != '-' {
            proof {
                assert(!char_ok(input@, 23));
            }
            return Err(UuidError::InvalidFormat);
        }
        let mut bytes: [u8; 16] = [0; 16];
        let mut i: usize = 0;
        while i < 16
            invariant
                i <= 16,
                input@.len() == 36,
                forall|k: int| 0 <= k < i ==> bytes@[k] == parse_spec(input@)[k],
                forall|k: int| 0 <= k < 2 * i ==> is_hex_char(
                    #[trigger] input@[digit_pos(k)],
                ),
            decreases 16 - i,
        {
            proof {
                lemma_digit_pos_props(2 * i as int);
                lemma_digit_pos_props(2 * i as int + 1);
            }
            let p0 = digit_pos_exec(2 * i);
            let p1 = digit_pos_exec(2 * i + 1);
            let c0 = input.get_char(p0);
            let c1 = input.get_char(p1);
            let v0 = match hex_val(c0) {
                Some(v) => v,
                None => {
                    proof {
                        assert(!char_ok(input@, p0 as int));
                    }
                    return Err(UuidError::InvalidFormat);
                },
            };
            let v1 = match hex_val(c1) {
                Some(v) => v,
                None => {
                    proof {
                        assert(!char_ok(input@, p1 as int));
                    }
                    return Err(UuidError::InvalidFormat);
                },
            };
            bytes[i] = v0 * 16 + v1;
            i += 1;
        }
        proof {
            assert forall|p: int| 0 <= p < 36 implies #[trigger] char_ok(input@, p) by {
                if !is_hyphen_pos(p) {
                    lemma_hex_index_props(p);
                    let d = hex_index(p);
                    assert(is_hex_char(input@[digit_pos(d)]));
                }
            }
            assert(bytes@ =~= parse_spec(input@));
        }
        Ok(Identifier::from_bytes(bytes))
    }
}

} // verus!
