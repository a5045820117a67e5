//! Encoders of single AArch64 instructions.
//!
//! Each encoder checks its operands and returns the instruction word. The
//! `spec_*` functions state, per instruction, which error comes for which
//! operands and which word comes otherwise; the `*_word` functions give the
//! bit layout of the word.
use vstd::prelude::*;

use super::reg;
use super::Code;
use crate::err::Error;

verus! {

/// Register numbers 0 to 31 address the general purpose register file.
pub open spec fn valid_register(r: u8) -> bool {
    r <= 31
}

/// What an encoder returns, with the code taken by its word.
pub open spec fn code_result(r: Result<Code, Error>) -> Result<u32, Error> {
    match r {
        Ok(c) => Ok(c@),
        Err(e) => Err(e),
    }
}

/// `movz Xd, #imm16`: 1101_0010_100_[imm16]_[Rd].
pub open spec fn mov_val_word(dist: u8, val: i32) -> u32 {
    0xd2800000u32 | ((val as u32) << 5u32) | (dist as u32)
}

/// `orr Xd, XZR, Xm`: 1010_1010_000_[Rm]_0000_00_11111_[Rd].
pub open spec fn orr_mov_word(dist: u8, src: u8) -> u32 {
    0xaa0003e0u32 | ((src as u32) << 16u32) | (dist as u32)
}

/// `add Xd, Xn, #0`, the move that can read the stack pointer: 1001_0001_00_[0; 12]_[Rn]_[Rd].
pub open spec fn add_mov_word(dist: u8, src: u8) -> u32 {
    0x91000000u32 | ((src as u32) << 5u32) | (dist as u32)
}

/// `add Xd, Xn, Xm`: 1000_1011_000_[Rm]_000000_[Rn]_[Rd].
pub open spec fn add_reg_word(dist: u8, src_n: u8, src_m: u8) -> u32 {
    0x8b000000u32 | ((src_m as u32) << 16u32) | ((src_n as u32) << 5u32) | (dist as u32)
}

/// `add Xd, Xn, #imm12`: 1001_0001_00_[imm12]_[Rn]_[Rd].
pub open spec fn add_imm_word(dist: u8, src: u8, val: u32) -> u32 {
    0x91000000u32 | (val << 10u32) | ((src as u32) << 5u32) | (dist as u32)
}

/// `sub Xd, Xn, #imm12`: 1101_0001_00_[imm12]_[Rn]_[Rd].
pub open spec fn sub_imm_word(dist: u8, src: u8, val: i32) -> u32 {
    0xd1000000u32 | ((val as u32) << 10u32) | ((src as u32) << 5u32) | (dist as u32)
}

/// `str Xt, [SP, #-8]!`: 1111_1000_000_[imm9 = -8]_11_[SP]_[Rt].
pub open spec fn push_word(src: u8) -> u32 {
    0xf81f8fe0u32 | ((reg::SP as u32) << 5u32) | (src as u32)
}

/// `ldr Xt, [SP], #8`: 1111_1000_010_[imm9 = 8]_01_[SP]_[Rt].
pub open spec fn pop_word(dist: u8) -> u32 {
    0xf84087e0u32 | ((reg::SP as u32) << 5u32) | (dist as u32)
}

/// `str Xt, [Xn, #offset]`: 1111_1001_00_[offset / 8; 12]_[Rn]_[Rt].
pub open spec fn store_word(src: u8, target: u8, offset: u32) -> u32 {
    0xf9000000u32 | ((offset / 8) << 10u32) | ((target as u32) << 5u32) | (src as u32)
}

/// `ldr Xt, [Xn, #offset]`: 1111_1001_01_[offset / 8; 12]_[Rn]_[Rt].
pub open spec fn load_word(dist: u8, target: u8, offset: u32) -> u32 {
    0xf9400000u32 | ((offset / 8) << 10u32) | ((target as u32) << 5u32) | (dist as u32)
}

/// `ret`.
pub open spec fn ret_word() -> u32 {
    0xd65f03c0u32
}

pub open spec fn spec_mov_val(dist: u8, val: i32) -> Result<u32, Error> {
    if !valid_register(dist) {
        Err(Error::InvalidRegister(dist))
    } else if val >= 0x8000 {
        Err(Error::TooLargeI32(val))
    } else {
        Ok(mov_val_word(dist, val))
    }
}

pub open spec fn spec_mov_reg(dist: u8, src: u8) -> Result<u32, Error> {
    if !valid_register(dist) {
        Err(Error::InvalidRegister(dist))
    } else if !valid_register(src) {
        Err(Error::InvalidRegister(src))
    } else if src == reg::SP {
        Ok(add_mov_word(dist, src))
    } else {
        Ok(orr_mov_word(dist, src))
    }
}

pub open spec fn spec_mov_reg_sp(dist: u8, src: u8) -> Result<u32, Error> {
    if !valid_register(dist) {
        Err(Error::InvalidRegister(dist))
    } else if !valid_register(src) {
        Err(Error::InvalidRegister(src))
    } else {
        Ok(add_mov_word(dist, src))
    }
}

pub open spec fn spec_add_reg(dist: u8, src_n: u8, src_m: u8) -> Result<u32, Error> {
    if !valid_register(dist) {
        Err(Error::InvalidRegister(dist))
    } else if !valid_register(src_n) {
        Err(Error::InvalidRegister(src_n))
    } else if !valid_register(src_m) {
        Err(Error::InvalidRegister(src_m))
    } else {
        Ok(add_reg_word(dist, src_n, src_m))
    }
}

pub open spec fn spec_add_imm(dist: u8, src: u8, val: u32) -> Result<u32, Error> {
    if !valid_register(dist) {
        Err(Error::InvalidRegister(dist))
    } else if !valid_register(src) {
        Err(Error::InvalidRegister(src))
    } else {
        Ok(add_imm_word(dist, src, val))
    }
}

pub open spec fn spec_sub_imm(dist: u8, src: u8, val: i32) -> Result<u32, Error> {
    if !valid_register(dist) {
        Err(Error::InvalidRegister(dist))
    } else if !valid_register(src) {
        Err(Error::InvalidRegister(src))
    } else if val >= 0x2000 {
        Err(Error::TooLargeI32(val))
    } else {
        Ok(sub_imm_word(dist, src, val))
    }
}

pub open spec fn spec_push(src: u8) -> Result<u32, Error> {
    if !valid_register(src) {
        Err(Error::InvalidRegister(src))
    } else {
        Ok(push_word(src))
    }
}

pub open spec fn spec_pop(dist: u8) -> Result<u32, Error> {
    if !valid_register(dist) {
        Err(Error::InvalidRegister(dist))
    } else {
        Ok(pop_word(dist))
    }
}

pub open spec fn spec_store(src: u8, target: u8, offset: u32) -> Result<u32, Error> {
    if !valid_register(target) {
        Err(Error::InvalidRegister(target))
    } else if !valid_register(src) {
        Err(Error::InvalidRegister(src))
    } else if offset % 8 != 0 {
        Err(Error::InvalidOffsetAlignment(offset, 8))
    } else {
        Ok(store_word(src, target, offset))
    }
}

pub open spec fn spec_load(dist: u8, target: u8, offset: u32) -> Result<u32, Error> {
    if !valid_register(target) {
        Err(Error::InvalidRegister(target))
    } else if !valid_register(dist) {
        Err(Error::InvalidRegister(dist))
    } else if offset % 8 != 0 {
        Err(Error::InvalidOffsetAlignment(offset, 8))
    } else {
        Ok(load_word(dist, target, offset))
    }
}

/// Moves the immediate `val` into `dist`; the immediate must stay below 2^15.
pub fn mov_val(dist: u8, val: i32) -> (r: Result<Code, Error>)
    ensures
        code_result(r) == spec_mov_val(dist, val),
{
    if let Err(e) = validate_register(dist) {
        return Err(e);
    }
    if val >= 0x8000 {
        Err(Error::TooLargeI32(val))
    } else {
        Ok(Code::from_word(0xd2800000u32 | ((val as u32) << 5u32) | (dist as u32)))
    }
}

/// Moves register `src` into `dist`. Register 31 as the source is the stack
/// pointer, which the `orr` form cannot read: that move is encoded as
/// `add Xd, SP, #0`.
pub fn mov_reg(dist: u8, src: u8) -> (r: Result<Code, Error>)
    ensures
        code_result(r) == spec_mov_reg(dist, src),
{
    if let Err(e) = validate_register(dist) {
        return Err(e);
    }
    if let Err(e) = validate_register(src) {
        return Err(e);
    }
    if src == reg::SP {
        mov_reg_sp(dist, src)
    } else {
        Ok(Code::from_word(0xaa0003e0u32 | shl32(src as u32, 16) | (dist as u32)))
    }
}

/// Moves register `src` into `dist` where either may be the stack pointer.
pub fn mov_reg_sp(dist: u8, src: u8) -> (r: Result<Code, Error>)
    ensures
        code_result(r) == spec_mov_reg_sp(dist, src),
{
    if let Err(e) = validate_register(dist) {
        return Err(e);
    }
    if let Err(e) = validate_register(src) {
        return Err(e);
    }
    Ok(Code::from_word(0x91000000u32 | shl32(src as u32, 5) | (dist as u32)))
}

/// `dist = src_n + src_m`.
pub fn add_reg(dist: u8, src_n: u8, src_m: u8) -> (r: Result<Code, Error>)
    ensures
        code_result(r) == spec_add_reg(dist, src_n, src_m),
{
    if let Err(e) = validate_register(dist) {
        return Err(e);
    }
    if let Err(e) = validate_register(src_n) {
        return Err(e);
    }
    if let Err(e) = validate_register(src_m) {
        return Err(e);
    }
    Ok(Code::from_word(0x8b000000u32 | shl32(src_m as u32, 16) | shl32(src_n as u32, 5) | (dist as u32)))
}

/// `dist = src + val`. The immediate is placed at bit 10 without a range check.
pub fn add_imm(dist: u8, src: u8, val: u32) -> (r: Result<Code, Error>)
    ensures
        code_result(r) == spec_add_imm(dist, src, val),
{
    if let Err(e) = validate_register(dist) {
        return Err(e);
    }
    if let Err(e) = validate_register(src) {
        return Err(e);
    }
    Ok(Code::from_word(0x91000000u32 | shl32(val, 10) | shl32(src as u32, 5) | (dist as u32)))
}

/// `dist = src - val`; the immediate must stay below 2^13 and, once the
/// registers are valid, must not be negative.
pub fn sub_imm(dist: u8, src: u8, val: i32) -> (r: Result<Code, Error>)
    requires
        valid_register(dist) && valid_register(src) ==> val >= 0,
    ensures
        code_result(r) == spec_sub_imm(dist, src, val),
{
    if let Err(e) = validate_register(dist) {
        return Err(e);
    }
    if let Err(e) = validate_register(src) {
        return Err(e);
    }
    if val >= 0x2000 {
        return Err(Error::TooLargeI32(val));
    }
    Ok(Code::from_word(0xd1000000u32 | shl32(val as u32, 10) | shl32(src as u32, 5) | (dist as u32)))
}

/// Pushes `src` onto the stack.
pub fn push(src: u8) -> (r: Result<Code, Error>)
    ensures
        code_result(r) == spec_push(src),
{
    if let Err(e) = validate_register(src) {
        return Err(e);
    }
    Ok(Code::from_word(0xf81f8fe0u32 | shl32(reg::SP as u32, 5) | (src as u32)))
}

/// Pops the top of the stack into `dist`.
pub fn pop(dist: u8) -> (r: Result<Code, Error>)
    ensures
        code_result(r) == spec_pop(dist),
{
    if let Err(e) = validate_register(dist) {
        return Err(e);
    }
    Ok(Code::from_word(0xf84087e0u32 | shl32(reg::SP as u32, 5) | (dist as u32)))
}

/// Stores `src` at `target + offset`; the offset must be a multiple of 8.
pub fn store(src: u8, target: u8, offset: u32) -> (r: Result<Code, Error>)
    ensures
        code_result(r) == spec_store(src, target, offset),
{
    if let Err(e) = validate_register(target) {
        return Err(e);
    }
    if let Err(e) = validate_register(src) {
        return Err(e);
    }
    if offset % 8 != 0 {
        return Err(Error::InvalidOffsetAlignment(offset, 8));
    }
    Ok(Code::from_word(0xf9000000u32 | shl32(offset / 8, 10) | shl32(target as u32, 5) | (src as u32)))
}

/// Loads `dist` from `target + offset`; the offset must be a multiple of 8.
pub fn load(dist: u8, target: u8, offset: u32) -> (r: Result<Code, Error>)
    ensures
        code_result(r) == spec_load(dist, target, offset),
{
    if let Err(e) = validate_register(target) {
        return Err(e);
    }
    if let Err(e) = validate_register(dist) {
        return Err(e);
    }
    if offset % 8 != 0 {
        return Err(Error::InvalidOffsetAlignment(offset, 8));
    }
    Ok(Code::from_word(0xf9400000u32 | shl32(offset / 8, 10) | shl32(target as u32, 5) | (dist as u32)))
}

/// Returns from the function.
pub fn ret() -> (c: Code)
    ensures
        c@ == ret_word(),
{
    Code::from_word(0xd65f03c0u32)
}

/// The frame offset of local number `l`: every local takes 8 bytes.
pub fn local_offset(l: u32) -> (r: u32)
    requires
        l * 8 <= u32::MAX,
    ensures
        r == l * 8,
{
    l * 8
}

/// The bytes reserved on the stack for `num_local` locals: the next multiple
/// of 16 above `num_local`.
pub fn local_size_aligned(num_local: u32) -> (r: u32)
    requires
        16 * (num_local / 16 + 1) <= u32::MAX,
    ensures
        r == 16 * (num_local / 16 + 1),
        r % 16 == 0,
        num_local < r <= num_local + 16,
{
    16 * (num_local / 16 + 1)
}

/// Accepts the register numbers of the general purpose register file.
pub fn validate_register(reg: u8) -> (r: Result<(), Error>)
    ensures
        r is Ok <==> valid_register(reg),
        r matches Err(e) ==> e == Error::InvalidRegister(reg),
{
    if reg > 31 {
        Err(Error::InvalidRegister(reg))
    } else {
        Ok(())
    }
}

/// `x` shifted left by `rhs` modulo 32, bits above bit 31 dropped.
pub fn shl32(x: u32, rhs: u32) -> (r: u32)
    ensures
        r == x << (rhs % 32),
{
    x.wrapping_shl(rhs)
}

} // verus!
