//! Instruction decoding: splitting a 16-bit CHIP-8 instruction word into
//! its nibble fields and derived operands.

use vstd::prelude::*;

verus! {

/// Opcode category: the top 4 bits of the instruction word.
pub open spec fn op_cat(w: u16) -> u16 {
    w / 4096
}

/// The `x` field (bits 11-8), a register index.
pub open spec fn op_x(w: u16) -> u16 {
    (w / 256) % 16
}

/// The `y` field (bits 7-4), a register index.
pub open spec fn op_y(w: u16) -> u16 {
    (w / 16) % 16
}

/// The `n` field (bits 3-0), a 4-bit immediate.
pub open spec fn op_n(w: u16) -> u16 {
    w % 16
}

/// The `nn` field (bits 7-0), an 8-bit immediate.
pub open spec fn op_nn(w: u16) -> u16 {
    w % 256
}

/// The `nnn` field (bits 11-0), a 12-bit address.
pub open spec fn op_nnn(w: u16) -> u16 {
    w % 4096
}

pub fn first_nibble(num: u16) -> (r: u16)
    ensures
        r == op_cat(num),
        r < 16,
{
    proof {
        assert((num & 0xF000) >> 12 == num / 4096 && num / 4096 < 16) by (bit_vector);
    }
    (num & 0xF000) >> 12
}

pub fn second_nibble(num: u16) -> (r: u16)
    ensures
        r == op_x(num),
        r < 16,
{
    proof {
        assert((num & 0x0F00) >> 8 == (num / 256) % 16 && (num / 256) % 16 < 16) by (bit_vector);
    }
    (num & 0x0F00) >> 8
}

pub fn third_nibble(num: u16) -> (r: u16)
    ensures
        r == op_y(num),
        r < 16,
{
    proof {
        assert((num & 0x00F0) >> 4 == (num / 16) % 16 && (num / 16) % 16 < 16) by (bit_vector);
    }
    (num & 0x00F0) >> 4
}

pub fn fourth_nibble(num: u16) -> (r: u16)
    ensures
        r == op_n(num),
        r < 16,
{
    proof {
        assert(num & 0x000F == num % 16 && num % 16 < 16) by (bit_vector);
    }
    num & 0x000F
}

/// A decoded instruction word: the four nibbles and the composed operands.
pub struct Instr {
    pub category: u16,
    pub x: u16,
    pub y: u16,
    pub n: u16,
    pub nn: u16,
    pub nnn: u16,
}

/// Splits an instruction word into nibble fields and derived operands.
/// Every one of the 65536 possible words decodes; semantic validity is
/// judged by the executor.
pub fn decode(w: u16) -> (ins: Instr)
    ensures
        ins.category == op_cat(w),
        ins.x == op_x(w),
        ins.y == op_y(w),
        ins.n == op_n(w),
        ins.nn == op_nn(w),
        ins.nnn == op_nnn(w),
        ins.category < 16,
        ins.x < 16,
        ins.y < 16,
        ins.n < 16,
        ins.nn < 256,
        ins.nnn < 4096,
        ins.nn == ins.y * 16 + ins.n,
        ins.nnn == ins.x * 256 + ins.nn,
{
    let category = first_nibble(w);
    let x = second_nibble(w);
    let y = third_nibble(w);
    let n = fourth_nibble(w);
    let nn = (y << 4) | n;
    let nnn = (x << 8) | nn;
    proof {
        assert((((w / 16) % 16) << 4 | w % 16) == w % 256 && w % 256 == ((w / 16) % 16) * 16 + w
            % 16) by (bit_vector);
        assert((((w / 256) % 16) << 8 | w % 256) == w % 4096 && w % 4096 == ((w / 256) % 16) * 256
            + w % 256) by (bit_vector);
    }
    Instr { category, x, y, n, nn, nnn }
}

} // verus!
