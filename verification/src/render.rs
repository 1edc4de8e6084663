//! Verified rendering of diagnostics: decimal and hexadecimal numbers and
//! the protocol-error line.
//!
//! Every rendering function carries an exact contract over a spec-level
//! character sequence, so the diagnostic a caller sees is pinned down to
//! the character.

use vstd::prelude::*;
use vstd::string::StringExecFns;

use crate::hits::MossHit;
use crate::hits::MossPacket;

verus! {

/// The character for one digit value 0..=15 (decimal digits, then
/// uppercase hexadecimal letters).
pub open spec fn digit_char(n: u8) -> char {
    if n == 0 {
        '0'
    } else if n == 1 {
        '1'
    } else if n == 2 {
        '2'
    } else if n == 3 {
        '3'
    } else if n == 4 {
        '4'
    } else if n == 5 {
        '5'
    } else if n == 6 {
        '6'
    } else if n == 7 {
        '7'
    } else if n == 8 {
        '8'
    } else if n == 9 {
        '9'
    } else if n == 10 {
        'A'
    } else if n == 11 {
        'B'
    } else if n == 12 {
        'C'
    } else if n == 13 {
        'D'
    } else if n == 14 {
        'E'
    } else {
        'F'
    }
}

/// Appends the single digit character for `n`.
fn append_digit(s: &mut String, n: u8)
    requires
        n <= 15,
    ensures
        final(s)@ == old(s)@.push(digit_char(n)),
{
    let lit: &str = if n == 0 {
        "0"
    } else if n == 1 {
        "1"
    } else if n == 2 {
        "2"
    } else if n == 3 {
        "3"
    } else if n == 4 {
        "4"
    } else if n == 5 {
        "5"
    } else if n == 6 {
        "6"
    } else if n == 7 {
        "7"
    } else if n == 8 {
        "8"
    } else if n == 9 {
        "9"
    } else if n == 10 {
        "A"
    } else if n == 11 {
        "B"
    } else if n == 12 {
        "C"
    } else if n == 13 {
        "D"
    } else if n == 14 {
        "E"
    } else {
        "F"
    };
    proof {
        reveal_strlit("0");
        reveal_strlit("1");
        reveal_strlit("2");
        reveal_strlit("3");
        reveal_strlit("4");
        reveal_strlit("5");
        reveal_strlit("6");
        reveal_strlit("7");
        reveal_strlit("8");
        reveal_strlit("9");
        reveal_strlit("A");
        reveal_strlit("B");
        reveal_strlit("C");
        reveal_strlit("D");
        reveal_strlit("E");
        reveal_strlit("F");
    }
    s.append(lit);
    proof {
        assert(s@ =~= old(s)@.push(digit_char(n)));
    }
}

/// The decimal rendering of a non-negative number, most significant digit
/// first.
pub open spec fn spec_decimal(n: int) -> Seq<char>
    decreases n,
{
    if n < 10 {
        seq![digit_char((n % 10) as u8)]
    } else {
        spec_decimal(n / 10).push(digit_char((n % 10) as u8))
    }
}

/// Appends the decimal rendering of `n`.
fn append_decimal(s: &mut String, n: usize)
    ensures
        final(s)@ == old(s)@ + spec_decimal(n as int),
    decreases n,
{
    if n >= 10 {
        append_decimal(s, n / 10);
    }
    append_digit(s, (n % 10) as u8);
    proof {
        assert(s@ =~= old(s)@ + spec_decimal(n as int));
    }
}

/// The hexadecimal rendering `0xHH` of one byte.
pub open spec fn spec_hex_byte(b: u8) -> Seq<char> {
    seq!['0', 'x', digit_char(b / 16), digit_char(b % 16)]
}

/// Appends `0xHH` for one byte.
fn append_hex_byte(s: &mut String, b: u8)
    ensures
        final(s)@ == old(s)@ + spec_hex_byte(b),
{
    s.append("0x");
    append_digit(s, b / 16);
    append_digit(s, b % 16);
    proof {
        reveal_strlit("0x");
        assert(s@ =~= old(s)@ + spec_hex_byte(b));
    }
}

/// The rendering of a byte list as comma-separated `0xHH` words.
pub open spec fn spec_hex_list(bytes: Seq<u8>) -> Seq<char>
    decreases bytes.len(),
{
    if bytes.len() <= 0 {
        Seq::empty()
    } else if bytes.len() == 1 {
        spec_hex_byte(bytes[0])
    } else {
        spec_hex_byte(bytes[0]) + seq![',', ' '] + spec_hex_list(bytes.drop_first())
    }
}

/// Extending a byte list appends one rendered word (with a separator when
/// the list was not empty).
proof fn lemma_hex_list_snoc(bytes: Seq<u8>, x: u8)
    ensures
        spec_hex_list(bytes.push(x)) == if bytes.len() == 0 {
            spec_hex_byte(x)
        } else {
            spec_hex_list(bytes) + seq![',', ' '] + spec_hex_byte(x)
        },
    decreases bytes.len(),
{
    if bytes.len() == 0 {
        assert(bytes.push(x) =~= seq![x]);
    } else {
        lemma_hex_list_snoc(bytes.drop_first(), x);
        assert(bytes.push(x).drop_first() =~= bytes.drop_first().push(x));
        assert(bytes.push(x)[0] == bytes[0]);
        if bytes.len() == 1 {
            assert(spec_hex_list(bytes.push(x)) =~= spec_hex_list(bytes) + seq![',', ' ']
                + spec_hex_byte(x));
        } else {
            assert(spec_hex_list(bytes.push(x)) =~= spec_hex_list(bytes) + seq![',', ' ']
                + spec_hex_byte(x));
        }
    }
}

/// Appends the comma-separated hex words of `list`.
fn append_hex_list(s: &mut String, list: &[u8])
    ensures
        final(s)@ == old(s)@ + spec_hex_list(list@),
{
    let n = list.len();
    let mut i: usize = 0;
    while i < n
        invariant
            n == list@.len(),
            i <= n,
            s@ == old(s)@ + spec_hex_list(list@.take(i as int)),
        decreases n - i,
    {
        if i > 0 {
            s.append(", ");
        }
        append_hex_byte(s, list[i]);
        proof {
            reveal_strlit(", ");
            lemma_hex_list_snoc(list@.take(i as int), list@[i as int]);
            assert(list@.take(i as int + 1) =~= list@.take(i as int).push(list@[i as int]));
            assert(s@ =~= old(s)@ + spec_hex_list(list@.take(i as int + 1)));
        }
        i = i + 1;
    }
    proof {
        assert(list@.take(n as int) =~= list@);
    }
}

/// The diagnostic line for a protocol error: the classes that were legal
/// in the state, the offending byte (twice: once after `got:` and once as
/// the marker before the snippet), and up to ten bytes of lookahead.
pub open spec fn spec_error_message(expected: Seq<char>, b: u8, look: Seq<u8>) -> Seq<char> {
    "Protocol error: expected "@ + expected + ", got: "@ + spec_hex_byte(b) + " | "@
        + spec_hex_byte(b) + " <-- ["@ + spec_hex_list(look) + "]"@
}

/// Builds the protocol-error diagnostic for an offending byte with its
/// lookahead context.
pub fn format_error_msg(valid: &str, err_b: u8, lookahead: &[u8]) -> (s: String)
    ensures
        s@ == spec_error_message(valid@, err_b, lookahead@),
{
    let mut s = String::new();
    s.append("Protocol error: expected ");
    s.append(valid);
    s.append(", got: ");
    append_hex_byte(&mut s, err_b);
    s.append(" | ");
    append_hex_byte(&mut s, err_b);
    s.append(" <-- [");
    append_hex_list(&mut s, lookahead);
    s.append("]");
    proof {
        assert(s@ =~= spec_error_message(valid@, err_b, lookahead@));
    }
    s
}

/// The display line of a hit: `reg: R row: X col: Y`.
pub open spec fn spec_hit_display(h: MossHit) -> Seq<char> {
    "reg: "@ + spec_decimal(h.region as int) + " row: "@ + spec_decimal(h.row as int) + " col: "@
        + spec_decimal(h.column as int)
}

/// The display line of a packet: `Unit ID: U Hits: N`.
pub open spec fn spec_packet_display(unit_id: u8, n_hits: int) -> Seq<char> {
    "Unit ID: "@ + spec_decimal(unit_id as int) + " Hits: "@ + spec_decimal(n_hits)
}

impl MossHit {
    /// Renders the hit as `reg: R row: X col: Y`.
    pub fn to_display_string(&self) -> (s: String)
        ensures
            s@ == spec_hit_display(*self),
    {
        let mut s = String::new();
        s.append("reg: ");
        append_decimal(&mut s, self.region as usize);
        s.append(" row: ");
        append_decimal(&mut s, self.row as usize);
        s.append(" col: ");
        append_decimal(&mut s, self.column as usize);
        proof {
            assert(s@ =~= spec_hit_display(*self));
        }
        s
    }
}

impl MossPacket {
    /// Renders the packet as `Unit ID: U Hits: N`.
    pub fn to_display_string(&self) -> (s: String)
        ensures
            s@ == spec_packet_display(self.unit_id, self.hits@.len() as int),
    {
        let mut s = String::new();
        s.append("Unit ID: ");
        append_decimal(&mut s, self.unit_id as usize);
        s.append(" Hits: ");
        let n = self.hits.len();
        append_decimal(&mut s, n);
        proof {
            assert(s@ =~= spec_packet_display(self.unit_id, self.hits@.len() as int));
        }
        s
    }
}

} // verus!
