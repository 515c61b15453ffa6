//! Lexical layer of the wire protocol.
//!
//! The envelopes travel as compact JSON-shaped text. This module defines,
//! over byte sequences, the exact grammar of the pieces the protocol
//! uses — quoted strings with escapes, arrays of strings, and the `null`
//! literal — and executable scanners and writers proved equal to those
//! definitions.
//!
//! Strings support the escapes `\"`, `\\`, `\/`, `\b`, `\t`, `\n`, `\f`,
//! `\r`, and `\u00XX` for control bytes; raw bytes at or above 0x20 pass
//! through unchanged (multi-byte UTF-8 sequences are carried as raw
//! bytes). The writer emits the compact form: short escapes for the five
//! named control bytes, `\u00XX` for the rest.

use vstd::prelude::*;
use crate::text::{QUOTE, BACKSLASH, LBRACKET, RBRACKET, COMMA};

verus! {

/// The character for a hex digit value below 16, lower case.
pub open spec fn hex_digit(n: u8) -> u8
    recommends
        n < 16,
{
    if n < 10 {
        (48 + n) as u8
    } else {
        (87 + n) as u8
    }
}

/// The value of a hex digit character, upper or lower case.
pub open spec fn hex_val(b: u8) -> Option<u8> {
    if 48 <= b && b <= 57 {
        Some((b - 48) as u8)
    } else if 97 <= b && b <= 102 {
        Some((b - 87) as u8)
    } else if 65 <= b && b <= 70 {
        Some((b - 55) as u8)
    } else {
        None
    }
}

/// How one byte of string content is written on the wire.
pub open spec fn esc_byte(b: u8) -> Seq<u8> {
    if b == QUOTE {
        seq![BACKSLASH, QUOTE]
    } else if b == BACKSLASH {
        seq![BACKSLASH, BACKSLASH]
    } else if b == 8 {
        seq![BACKSLASH, 98]
    } else if b == 9 {
        seq![BACKSLASH, 116]
    } else if b == 10 {
        seq![BACKSLASH, 110]
    } else if b == 12 {
        seq![BACKSLASH, 102]
    } else if b == 13 {
        seq![BACKSLASH, 114]
    } else if b < 32 {
        seq![BACKSLASH, 117, 48, 48, hex_digit(b / 16), hex_digit(b % 16)]
    } else {
        seq![b]
    }
}

/// The wire form of a string's content, byte by byte.
pub open spec fn escape_bytes(s: Seq<u8>) -> Seq<u8>
    decreases s.len(),
{
    if s.len() == 0 {
        seq![]
    } else {
        esc_byte(s[0]) + escape_bytes(s.drop_first())
    }
}

/// The wire form of a whole string: quoted and escaped.
pub open spec fn quoted(s: Seq<u8>) -> Seq<u8> {
    seq![QUOTE] + escape_bytes(s) + seq![QUOTE]
}

/// Escaping distributes over appending one byte.
pub proof fn lemma_escape_bytes_snoc(s: Seq<u8>, b: u8)
    ensures
        escape_bytes(s.push(b)) == escape_bytes(s) + esc_byte(b),
    decreases s.len(),
{
    if s.len() == 0 {
        reveal_with_fuel(escape_bytes, 3);
        assert(s.push(b).drop_first() =~= Seq::<u8>::empty());
        assert(escape_bytes(s.push(b)) =~= escape_bytes(s) + esc_byte(b));
    } else {
        assert(s.push(b).drop_first() =~= s.drop_first().push(b));
        lemma_escape_bytes_snoc(s.drop_first(), b);
        assert(escape_bytes(s.push(b)) =~= escape_bytes(s) + esc_byte(b));
    }
}

/// A hex digit character reads back to its value.
pub proof fn lemma_hex_digit_val(n: u8)
    requires
        n < 16,
    ensures
        hex_val(hex_digit(n)) == Some(n),
{
}

/// Law: the writer and the scanner are inverse on string content —
/// text that starts, at `i`, with the written form of `s` followed by
/// the closing quote scans back to exactly `s`, ending just past that
/// quote, whatever follows.
pub proof fn lemma_scan_of_escaped(t: Seq<u8>, i: int, s: Seq<u8>, rest: Seq<u8>)
    requires
        0 <= i <= t.len(),
        t.skip(i) == escape_bytes(s) + seq![QUOTE] + rest,
    ensures
        parse_str_body(t, i) == Some((s, i + escape_bytes(s).len() + 1)),
    decreases s.len(),
{
    broadcast use vstd::seq_lib::group_seq_properties;

    if s.len() == 0 {
        assert(t.skip(i).len() == t.len() - i);
        assert(t[i] == t.skip(i)[0]);
        assert(t[i] == QUOTE);
        assert(s =~= Seq::<u8>::empty());
    } else {
        let b = s[0];
        let e = esc_byte(b);
        assert(escape_bytes(s) == e + escape_bytes(s.drop_first()));
        let i2 = i + e.len() as int;
        assert(t.skip(i).len() == t.len() - i);
        assert forall|k: int| 0 <= k < e.len() implies t[i + k] == e[k] by {
            assert(t[i + k] == t.skip(i)[k]);
        }
        assert(t.skip(i2) =~= escape_bytes(s.drop_first()) + seq![QUOTE] + rest) by {
            assert forall|m: int| 0 <= m < t.len() - i2 implies t.skip(i2)[m] == (escape_bytes(
                s.drop_first(),
            ) + seq![QUOTE] + rest)[m] by {
                assert(t.skip(i2)[m] == t.skip(i)[e.len() + m]);
            }
        }
        lemma_scan_of_escaped(t, i2, s.drop_first(), rest);
        assert(seq![b] + s.drop_first() =~= s);
        if b == QUOTE || b == BACKSLASH || b == 8 || b == 9 || b == 10 || b == 12 || b == 13 {
            assert(t[i] == BACKSLASH);
            assert(t[i + 1] != 117);
            assert(unescape(t[i + 1]) == Some(b));
        } else if b < 32 {
            assert(t[i] == BACKSLASH && t[i + 1] == 117);
            assert(t[i + 2] == 48 && t[i + 3] == 48);
            lemma_hex_digit_val(b / 16);
            lemma_hex_digit_val(b % 16);
            assert(hex_val(t[i + 4]) == Some(b / 16));
            assert(hex_val(t[i + 5]) == Some(b % 16));
            assert((b / 16) * 16 + b % 16 == b);
            assert(parse_u_escape(t, i + 2) == Some((b, i + 6)));
        } else {
            assert(t[i] == b);
            assert(b != QUOTE && b != BACKSLASH && b >= 32);
        }
    }
}

/// Law: a written string scans back whole — the quoted form of `s`,
/// followed by anything, reads as exactly `s`.
pub proof fn lemma_scan_of_quoted(t: Seq<u8>, i: int, s: Seq<u8>, rest: Seq<u8>)
    requires
        0 <= i <= t.len(),
        t.skip(i) == quoted(s) + rest,
    ensures
        parse_string(t, i) == Some((s, i + quoted(s).len() as int)),
{
    broadcast use vstd::seq_lib::group_seq_properties;

    assert(t.skip(i).len() == t.len() - i);
    assert(t[i] == t.skip(i)[0]);
    assert(t[i] == QUOTE);
    assert(t.skip(i + 1).len() == t.len() - (i + 1));
    assert(t.skip(i + 1) =~= escape_bytes(s) + seq![QUOTE] + rest) by {
        assert forall|m: int| 0 <= m < t.len() - (i + 1) implies t.skip(i + 1)[m] == (escape_bytes(
            s,
        ) + seq![QUOTE] + rest)[m] by {
            assert(t.skip(i + 1)[m] == t.skip(i)[1 + m]);
        }
    }
    lemma_scan_of_escaped(t, i + 1, s, rest);
}

/// The hex digit character for a value below 16.
pub fn hex_digit_x(n: u8) -> (r: u8)
    requires
        n < 16,
    ensures
        r == hex_digit(n),
{
    if n < 10 {
        48 + n
    } else {
        87 + n
    }
}

/// Appends the wire form of a string's content.
pub fn append_escaped(out: &mut Vec<u8>, s: &Vec<u8>)
    ensures
        final(out)@ == old(out)@ + escape_bytes(s@),
{
    let mut i: usize = 0;
    while i < s.len()
        invariant
            i <= s.len(),
            out@ == old(out)@ + escape_bytes(s@.take(i as int)),
        decreases s.len() - i,
    {
        let b = s[i];
        if b == QUOTE {
            out.push(BACKSLASH);
            out.push(QUOTE);
        } else if b == BACKSLASH {
            out.push(BACKSLASH);
            out.push(BACKSLASH);
        } else if b == 8 {
            out.push(BACKSLASH);
            out.push(98);
        } else if b == 9 {
            out.push(BACKSLASH);
            out.push(116);
        } else if b == 10 {
            out.push(BACKSLASH);
            out.push(110);
        } else if b == 12 {
            out.push(BACKSLASH);
            out.push(102);
        } else if b == 13 {
            out.push(BACKSLASH);
            out.push(114);
        } else if b < 32 {
            out.push(BACKSLASH);
            out.push(117);
            out.push(48);
            out.push(48);
            out.push(hex_digit_x(b / 16));
            out.push(hex_digit_x(b % 16));
        } else {
            out.push(b);
        }
        proof {
            lemma_escape_bytes_snoc(s@.take(i as int), s@[i as int]);
            assert(s@.take(i as int).push(s@[i as int]) =~= s@.take(i as int + 1));
            assert(out@ =~= old(out)@ + escape_bytes(s@.take(i as int + 1)));
        }
        i += 1;
    }
    proof {
        assert(s@.take(s@.len() as int) =~= s@);
    }
}

/// Appends the wire form of a whole string.
pub fn append_quoted(out: &mut Vec<u8>, s: &Vec<u8>)
    ensures
        final(out)@ == old(out)@ + quoted(s@),
{
    out.push(QUOTE);
    append_escaped(out, s);
    out.push(QUOTE);
    proof {
        assert(out@ =~= old(out)@ + quoted(s@));
    }
}

/// Reads `\u00XX` hex digits right after the `\u`: exactly four digits,
/// the first two `0`, the value below 0x80 so it is one byte of content.
pub open spec fn parse_u_escape(s: Seq<u8>, i: int) -> Option<(u8, int)> {
    if 0 <= i && i + 3 < s.len() && s[i] == 48 && s[i + 1] == 48 {
        match (hex_val(s[i + 2]), hex_val(s[i + 3])) {
            (Some(h), Some(l)) => {
                let v = h * 16 + l;
                if v < 128 {
                    Some((v as u8, i + 4))
                } else {
                    None
                }
            },
            _ => None,
        }
    } else {
        None
    }
}

/// The content byte named by a single-character escape.
pub open spec fn unescape(b: u8) -> Option<u8> {
    if b == QUOTE {
        Some(QUOTE)
    } else if b == BACKSLASH {
        Some(BACKSLASH)
    } else if b == 47 {
        Some(47u8)
    } else if b == 98 {
        Some(8u8)
    } else if b == 116 {
        Some(9u8)
    } else if b == 110 {
        Some(10u8)
    } else if b == 102 {
        Some(12u8)
    } else if b == 114 {
        Some(13u8)
    } else {
        None
    }
}

/// Reads string content from position `i` (just past the opening quote)
/// up to and including the closing quote: the content and the position
/// after the quote.
pub open spec fn parse_str_body(s: Seq<u8>, i: int) -> Option<(Seq<u8>, int)>
    decreases s.len() - i,
{
    if i < 0 || i >= s.len() {
        None
    } else if s[i] == QUOTE {
        Some((seq![], i + 1))
    } else if s[i] == BACKSLASH {
        if i + 1 < s.len() && s[i + 1] == 117 {
            match parse_u_escape(s, i + 2) {
                Some((c, j)) => match parse_str_body(s, j) {
                    Some((t, k)) => Some((seq![c] + t, k)),
                    None => None,
                },
                None => None,
            }
        } else if i + 1 < s.len() {
            match unescape(s[i + 1]) {
                Some(c) => match parse_str_body(s, i + 2) {
                    Some((t, k)) => Some((seq![c] + t, k)),
                    None => None,
                },
                None => None,
            }
        } else {
            None
        }
    } else if s[i] < 32 {
        None
    } else {
        match parse_str_body(s, i + 1) {
            Some((t, k)) => Some((seq![s[i]] + t, k)),
            None => None,
        }
    }
}

/// Reads a whole quoted string starting at `i`.
pub open spec fn parse_string(s: Seq<u8>, i: int) -> Option<(Seq<u8>, int)> {
    if 0 <= i && i < s.len() && s[i] == QUOTE {
        parse_str_body(s, i + 1)
    } else {
        None
    }
}

/// Reads the `null` literal starting at `i`.
pub open spec fn parse_null(s: Seq<u8>, i: int) -> Option<int> {
    if 0 <= i && i + 3 < s.len() && s[i] == 110 && s[i + 1] == 117 && s[i + 2] == 108 && s[i + 3]
        == 108 {
        Some(i + 4)
    } else {
        None
    }
}

/// Reads the items of a non-empty string array from `i` (just past the
/// opening bracket) through the closing bracket. `fuel` only bounds the
/// recursion; any value at least the item count gives the same answer.
pub open spec fn parse_items(s: Seq<u8>, i: int, fuel: nat) -> Option<(Seq<Seq<u8>>, int)>
    decreases fuel,
{
    if fuel == 0 {
        None
    } else {
        match parse_string(s, i) {
            None => None,
            Some((v, j)) => {
                if 0 <= j && j < s.len() && s[j] == COMMA {
                    match parse_items(s, j + 1, (fuel - 1) as nat) {
                        Some((vs, k)) => Some((seq![v] + vs, k)),
                        None => None,
                    }
                } else if 0 <= j && j < s.len() && s[j] == RBRACKET {
                    Some((seq![v], j + 1))
                } else {
                    None
                }
            },
        }
    }
}

/// Reads a whole array of strings starting at `i`.
pub open spec fn parse_str_array(s: Seq<u8>, i: int, fuel: nat) -> Option<(Seq<Seq<u8>>, int)> {
    if 0 <= i && i < s.len() && s[i] == LBRACKET {
        if i + 1 < s.len() && s[i + 1] == RBRACKET {
            Some((seq![], i + 2))
        } else {
            parse_items(s, i + 1, fuel)
        }
    } else {
        None
    }
}

/// An executable scan result agrees with a spec read of bytes.
pub open spec fn bytes_pos_matches(r: Option<(Vec<u8>, usize)>, m: Option<(Seq<u8>, int)>) -> bool {
    match (r, m) {
        (Some(p), Some(q)) => p.0@ == q.0 && p.1 as int == q.1,
        (None, None) => true,
        _ => false,
    }
}

/// An executable scan result agrees with a spec read of string items.
pub open spec fn items_pos_matches(
    r: Option<(Vec<Vec<u8>>, usize)>,
    m: Option<(Seq<Seq<u8>>, int)>,
) -> bool {
    match (r, m) {
        (Some(p), Some(q)) => p.0.deep_view() == q.0 && p.1 as int == q.1,
        (None, None) => true,
        _ => false,
    }
}

/// An executable position agrees with a spec position.
pub open spec fn pos_matches(r: Option<usize>, m: Option<int>) -> bool {
    match (r, m) {
        (Some(p), Some(q)) => p as int == q,
        (None, None) => true,
        _ => false,
    }
}

/// The value of a hex digit character.
pub fn hex_val_x(b: u8) -> (r: Option<u8>)
    ensures
        r == hex_val(b),
{
    if 48 <= b && b <= 57 {
        Some(b - 48)
    } else if 97 <= b && b <= 102 {
        Some(b - 87)
    } else if 65 <= b && b <= 70 {
        Some(b - 55)
    } else {
        None
    }
}

/// The content byte named by a single-character escape.
pub fn unescape_x(b: u8) -> (r: Option<u8>)
    ensures
        r == unescape(b),
{
    if b == QUOTE {
        Some(QUOTE)
    } else if b == BACKSLASH {
        Some(BACKSLASH)
    } else if b == 47 {
        Some(47)
    } else if b == 98 {
        Some(8)
    } else if b == 116 {
        Some(9)
    } else if b == 110 {
        Some(10)
    } else if b == 102 {
        Some(12)
    } else if b == 114 {
        Some(13)
    } else {
        None
    }
}

/// Scans a `\u00XX` escape's digits.
pub fn scan_u_escape(v: &Vec<u8>, i: usize) -> (r: Option<(u8, usize)>)
    ensures
        match (r, parse_u_escape(v@, i as int)) {
            (Some(p), Some(q)) => p.0 == q.0 && p.1 as int == q.1,
            (None, None) => true,
            _ => false,
        },
{
    if i < v.len() && v.len() - i >= 4 && v[i] == 48 && v[i + 1] == 48 {
        match (hex_val_x(v[i + 2]), hex_val_x(v[i + 3])) {
            (Some(h), Some(l)) => {
                let val: u8 = h * 16 + l;
                if val < 128 {
                    Some((val, i + 4))
                } else {
                    None
                }
            },
            _ => None,
        }
    } else {
        None
    }
}

/// Scans string content up to and past the closing quote.
pub fn scan_str_body(v: &Vec<u8>, i: usize) -> (r: Option<(Vec<u8>, usize)>)
    ensures
        bytes_pos_matches(r, parse_str_body(v@, i as int)),
    decreases v.len() - i,
{
    if i >= v.len() {
        return None;
    }
    let b = v[i];
    if b == QUOTE {
        Some((Vec::new(), i + 1))
    } else if b == BACKSLASH {
        if i + 1 < v.len() && v[i + 1] == 117 {
            match scan_u_escape(v, i + 2) {
                Some((c, j)) => match scan_str_body(v, j) {
                    Some((t, k)) => {
                        let mut t2 = t;
                        t2.insert(0, c);
                        proof {
                            assert(t2@ =~= seq![c] + t@);
                        }
                        Some((t2, k))
                    },
                    None => None,
                },
                None => None,
            }
        } else if i + 1 < v.len() {
            match unescape_x(v[i + 1]) {
                Some(c) => match scan_str_body(v, i + 2) {
                    Some((t, k)) => {
                        let mut t2 = t;
                        t2.insert(0, c);
                        proof {
                            assert(t2@ =~= seq![c] + t@);
                        }
                        Some((t2, k))
                    },
                    None => None,
                },
                None => None,
            }
        } else {
            None
        }
    } else if b < 32 {
        None
    } else {
        match scan_str_body(v, i + 1) {
            Some((t, k)) => {
                let mut t2 = t;
                t2.insert(0, b);
                proof {
                    assert(t2@ =~= seq![b] + t@);
                }
                Some((t2, k))
            },
            None => None,
        }
    }
}

/// Scans a whole quoted string.
pub fn scan_string(v: &Vec<u8>, i: usize) -> (r: Option<(Vec<u8>, usize)>)
    ensures
        bytes_pos_matches(r, parse_string(v@, i as int)),
{
    if i < v.len() && v[i] == QUOTE {
        scan_str_body(v, i + 1)
    } else {
        None
    }
}

/// Scans the `null` literal.
pub fn scan_null(v: &Vec<u8>, i: usize) -> (r: Option<usize>)
    ensures
        pos_matches(r, parse_null(v@, i as int)),
{
    if i < v.len() && v.len() - i >= 4 && v[i] == 110 && v[i + 1] == 117 && v[i + 2] == 108 && v[i
        + 3] == 108 {
        Some(i + 4)
    } else {
        None
    }
}

/// Scans the items of a non-empty string array.
pub fn scan_items(v: &Vec<u8>, i: usize, fuel: usize) -> (r: Option<(Vec<Vec<u8>>, usize)>)
    ensures
        items_pos_matches(r, parse_items(v@, i as int, fuel as nat)),
    decreases fuel,
{
    if fuel == 0 {
        return None;
    }
    match scan_string(v, i) {
        None => None,
        Some((s, j)) => {
            if j < v.len() && v[j] == COMMA {
                match scan_items(v, j + 1, fuel - 1) {
                    Some((items, k)) => {
                        let mut items2 = items;
                        items2.insert(0, s);
                        proof {
                            assert(items2.deep_view() =~~= seq![s@] + items.deep_view());
                        }
                        Some((items2, k))
                    },
                    None => None,
                }
            } else if j < v.len() && v[j] == RBRACKET {
                let mut one: Vec<Vec<u8>> = Vec::new();
                one.push(s);
                proof {
                    assert(one.deep_view() =~~= seq![s@]);
                }
                Some((one, j + 1))
            } else {
                None
            }
        },
    }
}

/// Scans a whole array of strings.
pub fn scan_str_array(v: &Vec<u8>, i: usize, fuel: usize) -> (r: Option<(Vec<Vec<u8>>, usize)>)
    ensures
        items_pos_matches(r, parse_str_array(v@, i as int, fuel as nat)),
{
    if i < v.len() && v[i] == LBRACKET {
        if i + 1 < v.len() && v[i + 1] == RBRACKET {
            let none: Vec<Vec<u8>> = Vec::new();
            proof {
                assert(none.deep_view() =~~= Seq::<Seq<u8>>::empty());
            }
            Some((none, i + 2))
        } else {
            scan_items(v, i + 1, fuel)
        }
    } else {
        None
    }
}

} // verus!
