//! Assembly text for instruction words, one mnemonic per entry of the decode
//! table that the engine executes.

use vstd::prelude::*;
use vstd::string::StringExecFns;

use crate::semantics::{op_family, op_kk, op_n, op_nnn, op_x, op_y};

verus! {

/// Upper-case hexadecimal digit of `d`, for `0 <= d < 16`.
pub open spec fn hex_digit(d: int) -> char {
    seq!['0', '1', '2', '3', '4', '5', '6', '7', '8', '9', 'A', 'B', 'C', 'D', 'E', 'F'][d]
}

/// The last `width` hexadecimal digits of `value`, zero-padded.
pub open spec fn hex(value: int, width: nat) -> Seq<char>
    decreases width,
{
    if width == 0 {
        Seq::empty()
    } else {
        hex(value / 16, (width - 1) as nat).push(hex_digit(value % 16))
    }
}

/// Decimal digits of `value`, for `0 <= value < 16`.
pub open spec fn decimal(value: int) -> Seq<char> {
    if value < 10 {
        seq![hex_digit(value)]
    } else {
        seq!['1', hex_digit(value - 10)]
    }
}

/// `pre`, register number `x`, `post`: as in `LD V3, DT`.
pub open spec fn around_reg(pre: Seq<char>, x: int, post: Seq<char>) -> Seq<char> {
    pre + hex(x, 1) + post
}

/// A register and a byte: `SE V5, 0x42`.
pub open spec fn reg_byte(name: Seq<char>, x: int, kk: int) -> Seq<char> {
    name + " V"@ + hex(x, 1) + ", 0x"@ + hex(kk, 2)
}

/// Two registers: `LD VA, VB`.
pub open spec fn reg_reg(name: Seq<char>, x: int, y: int) -> Seq<char> {
    name + " V"@ + hex(x, 1) + ", V"@ + hex(y, 1)
}

/// An address: `JP 0x234`.
pub open spec fn with_addr(name: Seq<char>, nnn: int) -> Seq<char> {
    name + " 0x"@ + hex(nnn, 3)
}

/// A word that no instruction matches.
pub open spec fn unknown_text(op: u16) -> Seq<char> {
    "UNKNOWN 0x"@ + hex(op as int, 4)
}

/// Assembly text of `op`. Words that the engine refuses read as unknown.
pub open spec fn mnemonic(op: u16) -> Seq<char> {
    let f = op_family(op);
    let x = op_x(op);
    let y = op_y(op);
    let n = op_n(op);
    let kk = op_kk(op) as int;
    let nnn = op_nnn(op) as int;
    if f == 0 {
        if op == 0x00E0 {
            "CLS"@
        } else if op == 0x00EE {
            "RET"@
        } else {
            unknown_text(op)
        }
    } else if f == 1 {
        with_addr("JP"@, nnn)
    } else if f == 2 {
        with_addr("CALL"@, nnn)
    } else if f == 3 {
        reg_byte("SE"@, x, kk)
    } else if f == 4 {
        reg_byte("SNE"@, x, kk)
    } else if f == 5 && n == 0 {
        reg_reg("SE"@, x, y)
    } else if f == 6 {
        reg_byte("LD"@, x, kk)
    } else if f == 7 {
        reg_byte("ADD"@, x, kk)
    } else if f == 8 && n == 0 {
        reg_reg("LD"@, x, y)
    } else if f == 8 && n == 1 {
        reg_reg("OR"@, x, y)
    } else if f == 8 && n == 2 {
        reg_reg("AND"@, x, y)
    } else if f == 8 && n == 3 {
        reg_reg("XOR"@, x, y)
    } else if f == 8 && n == 4 {
        reg_reg("ADD"@, x, y)
    } else if f == 8 && n == 5 {
        reg_reg("SUB"@, x, y)
    } else if f == 8 && n == 6 {
        around_reg("SHR V"@, x, ""@)
    } else if f == 8 && n == 7 {
        reg_reg("SUBN"@, x, y)
    } else if f == 8 && n == 14 {
        around_reg("SHL V"@, x, ""@)
    } else if f == 9 && n == 0 {
        reg_reg("SNE"@, x, y)
    } else if f == 0xA {
        with_addr("LD I,"@, nnn)
    } else if f == 0xB {
        with_addr("JP V0,"@, nnn)
    } else if f == 0xC {
        reg_byte("RND"@, x, kk)
    } else if f == 0xD {
        reg_reg("DRW"@, x, y) + ", "@ + decimal(n)
    } else if f == 0xE && kk == 0x9E {
        around_reg("SKP V"@, x, ""@)
    } else if f == 0xE && kk == 0xA1 {
        around_reg("SKNP V"@, x, ""@)
    } else if f == 0xF && kk == 0x07 {
        around_reg("LD V"@, x, ", DT"@)
    } else if f == 0xF && kk == 0x0A {
        around_reg("LD V"@, x, ", K"@)
    } else if f == 0xF && kk == 0x15 {
        around_reg("LD DT, V"@, x, ""@)
    } else if f == 0xF && kk == 0x18 {
        around_reg("LD ST, V"@, x, ""@)
    } else if f == 0xF && kk == 0x1E {
        around_reg("ADD I, V"@, x, ""@)
    } else if f == 0xF && kk == 0x29 {
        around_reg("LD F, V"@, x, ""@)
    } else if f == 0xF && kk == 0x33 {
        around_reg("LD B, V"@, x, ""@)
    } else if f == 0xF && kk == 0x55 {
        around_reg("LD [I], V"@, x, ""@)
    } else if f == 0xF && kk == 0x65 {
        around_reg("LD V"@, x, ", [I]"@)
    } else {
        unknown_text(op)
    }
}

fn append_hex_digit(s: &mut String, d: u16)
    requires
        d < 16,
    ensures
        final(s)@ == old(s)@.push(hex_digit(d as int)),
{
    let digits = "0123456789ABCDEF";
    proof {
        reveal_strlit("0123456789ABCDEF");
    }
    let one = digits.substring_char(d as usize, d as usize + 1);
    assert(one@ =~= seq![hex_digit(d as int)]);
    s.append(one);
}

fn append_hex(s: &mut String, value: u16, width: u8)
    ensures
        final(s)@ == old(s)@ + hex(value as int, width as nat),
    decreases width,
{
    if width > 0 {
        append_hex(s, value / 16, width - 1);
        append_hex_digit(s, value % 16);
        assert(final(s)@ =~= old(s)@ + hex(value as int, width as nat)) by {
            assert(hex(value as int, width as nat) == hex((value / 16) as int, (width - 1) as nat).push(
                hex_digit((value % 16) as int),
            ));
        }
    } else {
        assert(old(s)@ + hex(value as int, 0) =~= old(s)@);
    }
}

fn text_around_reg(pre: &str, x: u16, post: &str) -> (r: String)
    ensures
        r@ == around_reg(pre@, x as int, post@),
{
    let mut s = String::from_str(pre);
    append_hex(&mut s, x, 1);
    s.append(post);
    s
}

fn text_reg_byte(name: &str, x: u16, kk: u16) -> (r: String)
    ensures
        r@ == reg_byte(name@, x as int, kk as int),
{
    let mut s = String::from_str(name);
    s.append(" V");
    append_hex(&mut s, x, 1);
    s.append(", 0x");
    append_hex(&mut s, kk, 2);
    s
}

fn text_reg_reg(name: &str, x: u16, y: u16) -> (r: String)
    ensures
        r@ == reg_reg(name@, x as int, y as int),
{
    let mut s = String::from_str(name);
    s.append(" V");
    append_hex(&mut s, x, 1);
    s.append(", V");
    append_hex(&mut s, y, 1);
    s
}

fn text_with_addr(name: &str, nnn: u16) -> (r: String)
    ensures
        r@ == with_addr(name@, nnn as int),
{
    let mut s = String::from_str(name);
    s.append(" 0x");
    append_hex(&mut s, nnn, 3);
    s
}

fn text_unknown(op: u16) -> (r: String)
    ensures
        r@ == unknown_text(op),
{
    let mut s = String::from_str("UNKNOWN 0x");
    append_hex(&mut s, op, 4);
    s
}

/// Assembly text of one instruction word.
pub fn disassemble(opcode: u16) -> (r: String)
    ensures
        r@ == mnemonic(opcode),
{
    let f = opcode / 4096;
    let x = (opcode / 256) % 16;
    let y = (opcode / 16) % 16;
    let n = opcode % 16;
    let kk = opcode % 256;
    let nnn = opcode % 4096;
    if f == 0 {
        if opcode == 0x00E0 {
            String::from_str("CLS")
        } else if opcode == 0x00EE {
            String::from_str("RET")
        } else {
            text_unknown(opcode)
        }
    } else if f == 1 {
        text_with_addr("JP", nnn)
    } else if f == 2 {
        text_with_addr("CALL", nnn)
    } else if f == 3 {
        text_reg_byte("SE", x, kk)
    } else if f == 4 {
        text_reg_byte("SNE", x, kk)
    } else if f == 5 && n == 0 {
        text_reg_reg("SE", x, y)
    } else if f == 6 {
        text_reg_byte("LD", x, kk)
    } else if f == 7 {
        text_reg_byte("ADD", x, kk)
    } else if f == 8 && n == 0 {
        text_reg_reg("LD", x, y)
    } else if f == 8 && n == 1 {
        text_reg_reg("OR", x, y)
    } else if f == 8 && n == 2 {
        text_reg_reg("AND", x, y)
    } else if f == 8 && n == 3 {
        text_reg_reg("XOR", x, y)
    } else if f == 8 && n == 4 {
        text_reg_reg("ADD", x, y)
    } else if f == 8 && n == 5 {
        text_reg_reg("SUB", x, y)
    } else if f == 8 && n == 6 {
        text_around_reg("SHR V", x, "")
    } else if f == 8 && n == 7 {
        text_reg_reg("SUBN", x, y)
    } else if f == 8 && n == 14 {
        text_around_reg("SHL V", x, "")
    } else if f == 9 && n == 0 {
        text_reg_reg("SNE", x, y)
    } else if f == 0xA {
        text_with_addr("LD I,", nnn)
    } else if f == 0xB {
        text_with_addr("JP V0,", nnn)
    } else if f == 0xC {
        text_reg_byte("RND", x, kk)
    } else if f == 0xD {
        let mut s = text_reg_reg("DRW", x, y);
        s.append(", ");
        if n < 10 {
            append_hex_digit(&mut s, n);
        } else {
            s.append("1");
            append_hex_digit(&mut s, n - 10);
        }
        proof {
            reveal_strlit("1");
        }
        assert(s@ =~= mnemonic(opcode));
        s
    } else if f == 0xE && kk == 0x9E {
        text_around_reg("SKP V", x, "")
    } else if f == 0xE && kk == 0xA1 {
        text_around_reg("SKNP V", x, "")
    } else if f == 0xF && kk == 0x07 {
        text_around_reg("LD V", x, ", DT")
    } else if f == 0xF && kk == 0x0A {
        text_around_reg("LD V", x, ", K")
    } else if f == 0xF && kk == 0x15 {
        text_around_reg("LD DT, V", x, "")
    } else if f == 0xF && kk == 0x18 {
        text_around_reg("LD ST, V", x, "")
    } else if f == 0xF && kk == 0x1E {
        text_around_reg("ADD I, V", x, "")
    } else if f == 0xF && kk == 0x29 {
        text_around_reg("LD F, V", x, "")
    } else if f == 0xF && kk == 0x33 {
        text_around_reg("LD B, V", x, "")
    } else if f == 0xF && kk == 0x55 {
        text_around_reg("LD [I], V", x, "")
    } else if f == 0xF && kk == 0x65 {
        text_around_reg("LD V", x, ", [I]")
    } else {
        text_unknown(opcode)
    }
}

} // verus!
