//! The bytecode format: one-byte opcodes with little-endian fixed-width
//! immediates.

use vstd::prelude::*;

verus! {

pub const END: u8 = 0x00;
pub const CREATE_CONTEXT: u8 = 0x01;
pub const CONSTRUCT: u8 = 0x02;
pub const CREATE_OBJECT: u8 = 0x03;
pub const CREATE_ARRAY: u8 = 0x04;
pub const PUSH_INT8: u8 = 0x05;
pub const PUSH_INT32: u8 = 0x06;
pub const PUSH_FALSE: u8 = 0x07;
pub const PUSH_TRUE: u8 = 0x08;
pub const PUSH_CONST: u8 = 0x09;
pub const PUSH_THIS: u8 = 0x0a;
pub const PUSH_ARGUMENTS: u8 = 0x0b;
pub const PUSH_UNDEFINED: u8 = 0x0c;
pub const LNOT: u8 = 0x0d;
pub const POSI: u8 = 0x0e;
pub const NEG: u8 = 0x0f;
pub const ADD: u8 = 0x10;
pub const SUB: u8 = 0x11;
pub const MUL: u8 = 0x12;
pub const DIV: u8 = 0x13;
pub const REM: u8 = 0x14;
pub const LT: u8 = 0x15;
pub const GT: u8 = 0x16;
pub const LE: u8 = 0x17;
pub const GE: u8 = 0x18;
pub const EQ: u8 = 0x19;
pub const NE: u8 = 0x1a;
pub const SEQ: u8 = 0x1b;
pub const SNE: u8 = 0x1c;
pub const AND: u8 = 0x1d;
pub const OR: u8 = 0x1e;
pub const XOR: u8 = 0x1f;
pub const SHL: u8 = 0x20;
pub const SHR: u8 = 0x21;
pub const ZFSHR: u8 = 0x22;
pub const GET_MEMBER: u8 = 0x23;
pub const SET_MEMBER: u8 = 0x24;
pub const JMP_IF_FALSE: u8 = 0x25;
pub const JMP: u8 = 0x26;
pub const CALL: u8 = 0x27;
pub const RETURN: u8 = 0x28;
pub const DOUBLE: u8 = 0x29;
pub const POP: u8 = 0x2a;
pub const LAND: u8 = 0x2b;
pub const LOR: u8 = 0x2c;
pub const SET_CUR_CALLOBJ: u8 = 0x2d;
pub const GET_NAME: u8 = 0x2e;
pub const SET_NAME: u8 = 0x2f;
pub const DECL_VAR: u8 = 0x30;
pub const COND_OP: u8 = 0x31;
pub const LOOP_START: u8 = 0x32;

/// The 32-bit little-endian immediate at `pc`.
pub open spec fn imm32(code: Seq<u8>, pc: int) -> u32 {
    (code[pc] as u32) | ((code[pc + 1] as u32) << 8) | ((code[pc + 2] as u32) << 16) | ((code[pc
        + 3] as u32) << 24)
}

/// Reads the 32-bit little-endian immediate at `pc`.
pub fn read_u32(code: &Vec<u8>, pc: usize) -> (r: u32)
    requires
        pc + 4 <= code@.len(),
    ensures
        r == imm32(code@, pc as int),
{
    let n = code.len();
    proof {
        assert(pc + 4 <= n);
    }
    (code[pc] as u32) | ((code[pc + 1] as u32) << 8) | ((code[pc + 2] as u32) << 16) | ((code[pc
        + 3] as u32) << 24)
}

} // verus!
