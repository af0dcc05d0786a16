//! Text for a person at a terminal: the hex dump of a program and the
//! diagnostic for an opcode outside the dispatch table.

use vstd::prelude::*;
use vstd::string::StringExecFns;

verus! {

/// Bytes shown on one line of a hex dump.
pub const BYTES_PER_LINE: usize = 10;

/// The digits of base 16, upper case; base 10 uses the first ten.
pub open spec fn digits() -> Seq<char> {
    seq!['0', '1', '2', '3', '4', '5', '6', '7', '8', '9', 'A', 'B', 'C', 'D', 'E', 'F']
}

/// A byte as two hex digits, upper case.
pub open spec fn hex_byte(b: u8) -> Seq<char> {
    seq![digits()[b as int / 16], digits()[b as int % 16]]
}

/// A 16-bit word as four hex digits, upper case.
pub open spec fn hex_word(w: u16) -> Seq<char> {
    hex_byte((w / 256) as u8) + hex_byte((w % 256) as u8)
}

/// A number in base 10, without leading zeros.
pub open spec fn decimal(n: nat) -> Seq<char>
    decreases n,
{
    if n < 10 {
        seq![digits()[n as int]]
    } else {
        decimal(n / 10).push(digits()[n as int % 10])
    }
}

/// A number in base 10, with zeros in front up to `width` characters; a
/// longer number is not cut.
pub open spec fn zero_padded(n: nat, width: nat) -> Seq<char> {
    if decimal(n).len() >= width {
        decimal(n)
    } else {
        Seq::new((width - decimal(n).len()) as nat, |k: int| '0') + decimal(n)
    }
}

/// The bytes of one line: two hex digits each, and a space after every
/// second byte.
pub open spec fn hex_pairs(chunk: Seq<u8>) -> Seq<char>
    decreases chunk.len(),
{
    if chunk.len() == 0 {
        Seq::empty()
    } else if chunk.len() % 2 == 0 {
        hex_pairs(chunk.drop_last()) + hex_byte(chunk.last()) + seq![' ']
    } else {
        hex_pairs(chunk.drop_last()) + hex_byte(chunk.last())
    }
}

/// How many lines a dump of `len` bytes has.
pub open spec fn line_count(len: nat) -> nat {
    (len + 9) / 10
}

/// Line `line` of a dump: the offset of its first byte in base 10, padded to
/// four digits, a colon and a space, up to ten bytes, and a line feed.
pub open spec fn hexdump_line(bytes: Seq<u8>, line: nat) -> Seq<char> {
    let start = line * 10;
    let end = if start + 10 <= bytes.len() {
        start + 10
    } else {
        bytes.len()
    };
    zero_padded(start, 4) + seq![':', ' '] + hex_pairs(bytes.subrange(start as int, end as int))
        + seq!['\n']
}

/// The first `count` lines of a dump.
pub open spec fn hexdump_lines(bytes: Seq<u8>, count: nat) -> Seq<char>
    decreases count,
{
    if count == 0 {
        Seq::empty()
    } else {
        hexdump_lines(bytes, (count - 1) as nat) + hexdump_line(bytes, (count - 1) as nat)
    }
}

/// The whole dump of a byte sequence.
pub open spec fn hexdump(bytes: Seq<u8>) -> Seq<char> {
    hexdump_lines(bytes, line_count(bytes.len()))
}

/// The diagnostic for an opcode outside the dispatch table.
pub open spec fn unknown_opcode_text(opcode: u16) -> Seq<char> {
    "unknown opcode: "@ + hex_word(opcode)
}

/// One digit as a string.
fn digit_str(d: u8) -> (s: &'static str)
    requires
        d < 16,
    ensures
        s@ == seq![digits()[d as int]],
{
    proof {
        reveal_strlit("0");
        reveal_strlit("1");
        reveal_strlit("2");
        reveal_strlit("3");
        reveal_strlit("4");
        reveal_strlit("5");
        reveal_strlit("6");
        reveal_strlit("7");
        reveal_strlit("8");
        reveal_strlit("9");
        reveal_strlit("A");
        reveal_strlit("B");
        reveal_strlit("C");
        reveal_strlit("D");
        reveal_strlit("E");
        reveal_strlit("F");
    }
    let s: &'static str = match d {
        0 => "0",
        1 => "1",
        2 => "2",
        3 => "3",
        4 => "4",
        5 => "5",
        6 => "6",
        7 => "7",
        8 => "8",
        9 => "9",
        10 => "A",
        11 => "B",
        12 => "C",
        13 => "D",
        14 => "E",
        _ => "F",
    };
    assert(s@ =~= seq![digits()[d as int]]);
    s
}

/// Appends a byte as two hex digits.
fn push_hex_byte(out: &mut String, b: u8)
    ensures
        final(out)@ == old(out)@ + hex_byte(b),
{
    out.append(digit_str(b / 16));
    out.append(digit_str(b % 16));
    assert(out@ =~= old(out)@ + hex_byte(b));
}

/// Appends a number in base 10.
fn push_decimal(out: &mut String, n: usize)
    ensures
        final(out)@ == old(out)@ + decimal(n as nat),
    decreases n,
{
    if n >= 10 {
        push_decimal(out, n / 10);
    }
    out.append(digit_str((n % 10) as u8));
    assert(out@ =~= old(out)@ + decimal(n as nat));
}

/// The length of a decimal numeral, as far as padding to four needs it.
proof fn lemma_decimal_len(n: nat)
    ensures
        n < 10 ==> decimal(n).len() == 1,
        10 <= n < 100 ==> decimal(n).len() == 2,
        100 <= n < 1000 ==> decimal(n).len() == 3,
        1000 <= n ==> decimal(n).len() >= 4,
    decreases n,
{
    if n >= 10 {
        lemma_decimal_len(n / 10);
    }
}

/// Appends a number in base 10, padded with zeros to four digits.
fn push_offset(out: &mut String, n: usize)
    ensures
        final(out)@ == old(out)@ + zero_padded(n as nat, 4),
{
    proof {
        lemma_decimal_len(n as nat);
        reveal_strlit("000");
        reveal_strlit("00");
        reveal_strlit("0");
    }
    let ghost start = out@;
    if n < 10 {
        out.append("000");
        assert(out@ =~= start + Seq::new(3, |k: int| '0'));
    } else if n < 100 {
        out.append("00");
        assert(out@ =~= start + Seq::new(2, |k: int| '0'));
    } else if n < 1000 {
        out.append("0");
        assert(out@ =~= start + Seq::new(1, |k: int| '0'));
    }
    push_decimal(out, n);
    assert(out@ =~= start + zero_padded(n as nat, 4));
}

/// A hex dump of a program: ten bytes to a line, each line headed by the
/// decimal offset of its first byte, the bytes in pairs.
pub fn get_hexdump(bytes: &[u8]) -> (output: String)
    ensures
        output@ == hexdump(bytes@),
{
    let len: usize = bytes.len();
    let mut output = String::new();
    let mut start: usize = 0;
    let ghost mut line: nat = 0;
    proof {
        reveal_strlit(": ");
        reveal_strlit(" ");
        reveal_strlit("\n");
    }
    while start < len
        invariant
            len == bytes@.len(),
            start <= len,
            start < len ==> start == line * 10,
            start == len ==> line == line_count(len as nat),
            output@ == hexdump_lines(bytes@, line),
            ": "@ == seq![':', ' '],
            " "@ == seq![' '],
            "\n"@ == seq!['\n'],
        decreases len - start,
    {
        let count: usize = if len - start >= BYTES_PER_LINE {
            BYTES_PER_LINE
        } else {
            len - start
        };
        let ghost head = output@;
        let ghost chunk = bytes@.subrange(start as int, start + count);
        push_offset(&mut output, start);
        output.append(": ");
        let ghost label = output@;
        let mut j: usize = 0;
        while j < count
            invariant
                j <= count,
                start + count <= len,
                len == bytes@.len(),
                chunk == bytes@.subrange(start as int, start + count),
                output@ == label + hex_pairs(chunk.take(j as int)),
                " "@ == seq![' '],
            decreases count - j,
        {
            let ghost shown = output@;
            push_hex_byte(&mut output, bytes[start + j]);
            if j % 2 != 0 {
                output.append(" ");
            }
            proof {
                let next = chunk.take(j + 1);
                assert(next.drop_last() =~= chunk.take(j as int));
                assert(next.last() == bytes@[start + j]);
                assert(output@ =~= label + hex_pairs(next));
            }
            j += 1;
        }
        output.append("\n");
        proof {
            assert(chunk.take(count as int) =~= chunk);
            assert(output@ =~= head + hexdump_line(bytes@, line));
            line = line + 1;
        }
        start += count;
    }
    output
}

/// The report of an opcode outside the dispatch table: the raw word as four
/// hex digits.
pub fn unknown_opcode_message(opcode: u16) -> (message: String)
    ensures
        message@ == unknown_opcode_text(opcode),
{
    let mut message = String::new();
    message.append("unknown opcode: ");
    push_hex_byte(&mut message, (opcode / 256) as u8);
    push_hex_byte(&mut message, (opcode % 256) as u8);
    assert(message@ =~= unknown_opcode_text(opcode));
    message
}

} // verus!
