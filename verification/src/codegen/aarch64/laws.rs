//! Properties of the generated code that span several functions.
use vstd::prelude::*;
use vstd::relations::*;
use vstd::seq_lib::*;

use super::native::{
    add_imm_word, add_reg_word, load_word, mov_val_word, orr_mov_word, add_mov_word, pop_word,
    push_word, spec_pop, spec_push, store_word, sub_imm_word, valid_register,
};
use super::order::{ascending, dedup, descending, lemma_descending_is_reverse};
use super::reg;
use super::{
    encode_all, frame_registers_spec, frame_size, load_registers_spec, locals_total,
    pop_encoder, push_encoder, save_registers_spec, stack_effect, wasm2bin_spec, word_bytes,
};
use crate::err::Error;
use crate::wasm::{Instr, Local};

verus! {

broadcast use group_to_multiset_ensures;

/// The epilogue restores the registers that the prologue saved, in the
/// reverse order.
pub proof fn lemma_frame_symmetry(registers: Seq<u8>)
    ensures
        frame_registers_spec(registers, true) == frame_registers_spec(registers, false).reverse(),
{
    lemma_descending_is_reverse(dedup(seq![reg::FP, reg::LR] + registers));
}

pub proof fn lemma_dedup_contains(s: Seq<u8>, x: u8)
    ensures
        dedup(s).contains(x) <==> s.contains(x),
    decreases s.len(),
{
    if s.len() > 1 {
        let t = s.drop_last();
        lemma_dedup_contains(t, x);
        assert(s =~= t.push(s.last()));
        if s.contains(x) && !t.contains(x) {
            let i = choose|i: int| 0 <= i < s.len() && s[i] == x;
            if i < t.len() {
                assert(t[i] == x);
            }
            assert(x == s.last());
        }
        if s[s.len() - 1] == s[s.len() - 2] {
            if x == s.last() {
                assert(t[t.len() - 1] == x);
            }
        } else {
            let d = dedup(t);
            if d.push(s.last()).contains(x) && !d.contains(x) {
                let i = choose|i: int| 0 <= i < d.len() + 1 && d.push(s.last())[i] == x;
                assert(i == d.len());
                assert(s[s.len() - 1] == x);
            }
            if d.contains(x) {
                let i = choose|i: int| 0 <= i < d.len() && d[i] == x;
                assert(d.push(s.last())[i] == x);
            }
            if x == s.last() {
                assert(d.push(s.last())[d.len() as int] == x);
            }
        }
        if t.contains(x) {
            let i = choose|i: int| 0 <= i < t.len() && t[i] == x;
            assert(s[i] == x);
        }
    }
}

/// A frame saves the frame pointer, the link register and every register it
/// is given, and no other register; it restores the same registers.
pub proof fn lemma_frame_saves_all(registers: Seq<u8>, ascending_order: bool, x: u8)
    ensures
        frame_registers_spec(registers, ascending_order).contains(x) <==> (x == reg::FP || x == reg::LR
            || registers.contains(x)),
{
    let s = seq![reg::FP, reg::LR] + registers;
    let leq = if ascending_order { ascending() } else { descending() };
    dedup(s).lemma_sort_by_ensures(leq);
    lemma_dedup_contains(s, x);
    let f = dedup(s).sort_by(leq);
    assert(f.contains(x) <==> f.to_multiset().count(x) > 0);
    assert(dedup(s).contains(x) <==> dedup(s).to_multiset().count(x) > 0);
    if registers.contains(x) {
        let i = choose|i: int| 0 <= i < registers.len() && registers[i] == x;
        assert(s[i + 2] == x);
    }
    if s.contains(x) {
        let i = choose|i: int| 0 <= i < s.len() && s[i] == x;
        if i >= 2 {
            assert(registers[i - 2] == x);
        }
    }
    assert(s[0] == reg::FP && s[1] == reg::LR);
}

pub proof fn lemma_encode_all_ok(rs: Seq<u8>, enc: spec_fn(u8) -> Result<u32, Error>)
    requires
        forall|r: u8| (#[trigger] enc(r)) is Ok <==> valid_register(r),
    ensures
        encode_all(rs, enc) is Ok <==> (forall|i: int| 0 <= i < rs.len() ==> valid_register(#[trigger] rs[i])),
    decreases rs.len(),
{
    if rs.len() > 0 {
        lemma_encode_all_ok(rs.drop_last(), enc);
        if forall|i: int| 0 <= i < rs.drop_last().len() ==> valid_register(#[trigger] rs.drop_last()[i]) {
            if enc(rs.last()) is Ok {
                assert forall|i: int| 0 <= i < rs.len() implies valid_register(#[trigger] rs[i]) by {
                    if i < rs.len() - 1 {
                        assert(rs.drop_last()[i] == rs[i]);
                    }
                }
            }
        } else {
            let i = choose|i: int| 0 <= i < rs.drop_last().len() && !valid_register(#[trigger] rs.drop_last()[i]);
            assert(rs[i] == rs.drop_last()[i]);
        }
    }
}

/// Saving the registers of a frame succeeds exactly when restoring them
/// does, and exactly when every given register is a register of the machine.
pub proof fn lemma_save_load_agree(registers: Seq<u8>)
    ensures
        save_registers_spec(registers) is Ok <==> load_registers_spec(registers) is Ok,
        save_registers_spec(registers) is Ok <==> (forall|i: int| 0 <= i < registers.len() ==> valid_register(#[trigger] registers[i])),
{
    let up = frame_registers_spec(registers, true);
    let down = frame_registers_spec(registers, false);
    assert forall|r: u8| (#[trigger] (push_encoder())(r)) is Ok <==> valid_register(r) by {}
    assert forall|r: u8| (#[trigger] (pop_encoder())(r)) is Ok <==> valid_register(r) by {}
    lemma_encode_all_ok(down, push_encoder());
    lemma_encode_all_ok(up, pop_encoder());
    let all_valid = forall|i: int| 0 <= i < registers.len() ==> valid_register(#[trigger] registers[i]);
    if all_valid {
        assert forall|i: int| 0 <= i < down.len() implies valid_register(#[trigger] down[i]) by {
            lemma_frame_saves_all(registers, false, down[i]);
            assert(down.contains(down[i]));
            if registers.contains(down[i]) {
                let j = choose|j: int| 0 <= j < registers.len() && registers[j] == down[i];
            }
        }
        assert forall|i: int| 0 <= i < up.len() implies valid_register(#[trigger] up[i]) by {
            lemma_frame_saves_all(registers, true, up[i]);
            assert(up.contains(up[i]));
            if registers.contains(up[i]) {
                let j = choose|j: int| 0 <= j < registers.len() && registers[j] == up[i];
            }
        }
    }
    if !all_valid {
        let j = choose|j: int| 0 <= j < registers.len() && !valid_register(#[trigger] registers[j]);
        let x = registers[j];
        assert(registers.contains(x));
        lemma_frame_saves_all(registers, false, x);
        lemma_frame_saves_all(registers, true, x);
        let a = choose|i: int| 0 <= i < down.len() && down[i] == x;
        let b = choose|i: int| 0 <= i < up.len() && up[i] == x;
        assert(!valid_register(down[a]));
        assert(!valid_register(up[b]));
    }
}

/// The epilogue frees exactly the stack bytes that the prologue reserved
/// when, and only when, the number of declaration runs and the number of
/// locals fall into the same block of 16.
pub proof fn lemma_stack_balance(locals: Seq<Local>)
    ensures
        frame_size((locals.len() as u32) as int) == frame_size(locals_total(locals)) <==> (locals.len() as u32) as int / 16
            == locals_total(locals) / 16,
{
}

/// The encoders place every register operand in its 5-bit field: decoding
/// the field gives the operand back.
pub proof fn lemma_register_fields(d: u8, n: u8, m: u8, imm: u32)
    requires
        valid_register(d),
        valid_register(n),
        valid_register(m),
    ensures
        push_word(d) & 0x1f == d as u32,
        (push_word(d) >> 5u32) & 0x1f == reg::SP as u32,
        pop_word(d) & 0x1f == d as u32,
        (pop_word(d) >> 5u32) & 0x1f == reg::SP as u32,
        add_reg_word(d, n, m) & 0x1f == d as u32,
        (add_reg_word(d, n, m) >> 5u32) & 0x1f == n as u32,
        (add_reg_word(d, n, m) >> 16u32) & 0x1f == m as u32,
        orr_mov_word(d, m) & 0x1f == d as u32,
        (orr_mov_word(d, m) >> 16u32) & 0x1f == m as u32,
        add_mov_word(d, n) & 0x1f == d as u32,
        (add_mov_word(d, n) >> 5u32) & 0x1f == n as u32,
        add_imm_word(d, n, imm) & 0x1f == d as u32,
        (add_imm_word(d, n, imm) >> 5u32) & 0x1f == n as u32,
        store_word(d, n, imm) & 0x1f == d as u32,
        (store_word(d, n, imm) >> 5u32) & 0x1f == n as u32,
        load_word(d, n, imm) & 0x1f == d as u32,
        (load_word(d, n, imm) >> 5u32) & 0x1f == n as u32,
{
    let dd = d as u32;
    let nn = n as u32;
    let mm = m as u32;
    let q = imm / 8;
    assert(push_word(d) == 0xf81f8fe0u32 | (31u32 << 5u32) | dd);
    assert(pop_word(d) == 0xf84087e0u32 | (31u32 << 5u32) | dd);
    assert(dd <= 31 && nn <= 31 && mm <= 31 ==> {
        &&& (0xf81f8fe0u32 | (31u32 << 5u32) | dd) & 0x1f == dd
        &&& ((0xf81f8fe0u32 | (31u32 << 5u32) | dd) >> 5u32) & 0x1f == 31
        &&& (0xf84087e0u32 | (31u32 << 5u32) | dd) & 0x1f == dd
        &&& ((0xf84087e0u32 | (31u32 << 5u32) | dd) >> 5u32) & 0x1f == 31
        &&& (0x8b000000u32 | (mm << 16u32) | (nn << 5u32) | dd) & 0x1f == dd
        &&& ((0x8b000000u32 | (mm << 16u32) | (nn << 5u32) | dd) >> 5u32) & 0x1f == nn
        &&& ((0x8b000000u32 | (mm << 16u32) | (nn << 5u32) | dd) >> 16u32) & 0x1f == mm
        &&& (0xaa0003e0u32 | (mm << 16u32) | dd) & 0x1f == dd
        &&& ((0xaa0003e0u32 | (mm << 16u32) | dd) >> 16u32) & 0x1f == mm
        &&& (0x91000000u32 | (nn << 5u32) | dd) & 0x1f == dd
        &&& ((0x91000000u32 | (nn << 5u32) | dd) >> 5u32) & 0x1f == nn
        &&& (0x91000000u32 | (imm << 10u32) | (nn << 5u32) | dd) & 0x1f == dd
        &&& ((0x91000000u32 | (imm << 10u32) | (nn << 5u32) | dd) >> 5u32) & 0x1f == nn
        &&& (0xf9000000u32 | (q << 10u32) | (nn << 5u32) | dd) & 0x1f == dd
        &&& ((0xf9000000u32 | (q << 10u32) | (nn << 5u32) | dd) >> 5u32) & 0x1f == nn
        &&& (0xf9400000u32 | (q << 10u32) | (nn << 5u32) | dd) & 0x1f == dd
        &&& ((0xf9400000u32 | (q << 10u32) | (nn << 5u32) | dd) >> 5u32) & 0x1f == nn
    }) by (bit_vector);
}

/// The immediates that the encoders accept come back out of their fields:
/// the 16-bit field of a move, the 12-bit fields of an add or a subtract,
/// and the scaled 12-bit offset of a load or a store.
pub proof fn lemma_immediate_fields(d: u8, n: u8, val: i32, imm: u32, offset: u32)
    requires
        valid_register(d),
        valid_register(n),
        0 <= val < 0x8000,
        imm < 0x1000,
        offset % 8 == 0,
        offset / 8 < 0x1000,
    ensures
        (mov_val_word(d, val) >> 5u32) & 0xffff == val as u32,
        (add_imm_word(d, n, imm) >> 10u32) & 0xfff == imm,
        0 <= val < 0x1000 ==> (sub_imm_word(d, n, val) >> 10u32) & 0xfff == val as u32,
        (store_word(d, n, offset) >> 10u32) & 0xfff == offset / 8,
        (load_word(d, n, offset) >> 10u32) & 0xfff == offset / 8,
{
    let dd = d as u32;
    let nn = n as u32;
    let v = val as u32;
    let q = offset / 8;
    assert(dd <= 31 && nn <= 31 && v < 0x8000 && imm < 0x1000 && q < 0x1000 ==> {
        &&& ((0xd2800000u32 | (v << 5u32) | dd) >> 5u32) & 0xffff == v
        &&& ((0x91000000u32 | (imm << 10u32) | (nn << 5u32) | dd) >> 10u32) & 0xfff == imm
        &&& (v < 0x1000 ==> ((0xd1000000u32 | (v << 10u32) | (nn << 5u32) | dd) >> 10u32) & 0xfff == v)
        &&& ((0xf9000000u32 | (q << 10u32) | (nn << 5u32) | dd) >> 10u32) & 0xfff == q
        &&& ((0xf9400000u32 | (q << 10u32) | (nn << 5u32) | dd) >> 10u32) & 0xfff == q
    }) by (bit_vector);
}

/// The bytes of an instruction word, read back least significant first,
/// give the word.
pub proof fn lemma_word_bytes_roundtrip(w: u32)
    ensures
        word_bytes(w).len() == 4,
        (word_bytes(w)[0] as u32) | ((word_bytes(w)[1] as u32) << 8u32) | ((word_bytes(w)[2] as u32) << 16u32)
            | ((word_bytes(w)[3] as u32) << 24u32) == w,
{
    let b0 = (w & 0xff) as u8;
    let b1 = ((w >> 8u32) & 0xff) as u8;
    let b2 = ((w >> 16u32) & 0xff) as u8;
    let b3 = ((w >> 24u32) & 0xff) as u8;
    assert((b0 as u32) | ((b1 as u32) << 8u32) | ((b2 as u32) << 16u32) | ((b3 as u32) << 24u32) == w)
        by (bit_vector)
        requires
            b0 == (w & 0xff) as u8,
            b1 == ((w >> 8u32) & 0xff) as u8,
            b2 == ((w >> 16u32) & 0xff) as u8,
            b3 == ((w >> 24u32) & 0xff) as u8,
    ;
}

/// Whether `w` pushes a register onto the stack.
pub open spec fn is_push(w: u32) -> bool {
    w & 0xffffffe0u32 == 0xf81f8fe0u32
}

/// Whether `w` pops the top of the stack into a register.
pub open spec fn is_pop(w: u32) -> bool {
    w & 0xffffffe0u32 == 0xf84087e0u32
}

/// The pushes minus the pops of a sequence of instruction words.
pub open spec fn stack_change(ws: Seq<u32>) -> int
    decreases ws.len(),
{
    if ws.len() == 0 {
        0
    } else {
        stack_change(ws.drop_last()) + if is_push(ws.last()) {
            1int
        } else if is_pop(ws.last()) {
            -1int
        } else {
            0int
        }
    }
}

/// The change of the operand stack depth that the generator records for an
/// instruction is the number of pushes minus the number of pops in the
/// instruction's translation. `i32.add` is left out: two pops and one push
/// change the depth by -1, while -2 is recorded.
pub proof fn lemma_stack_effect_matches(inst: Instr)
    requires
        !(inst is I32Add),
        stack_effect(inst) is Some,
        wasm2bin_spec(inst) is Ok,
    ensures
        stack_change(wasm2bin_spec(inst)->Ok_0) == stack_effect(inst)->0 as int,
{
    let p9 = push_word(9);
    let q9 = pop_word(9);
    assert(p9 == 0xf81f8fe0u32 | (31u32 << 5u32) | 9u32);
    assert(q9 == 0xf84087e0u32 | (31u32 << 5u32) | 9u32);
    assert((0xf81f8fe0u32 | (31u32 << 5u32) | 9u32) & 0xffffffe0u32 == 0xf81f8fe0u32) by (bit_vector);
    assert((0xf84087e0u32 | (31u32 << 5u32) | 9u32) & 0xffffffe0u32 == 0xf84087e0u32) by (bit_vector);
    let ws = wasm2bin_spec(inst)->Ok_0;
    reveal_with_fuel(stack_change, 3);
    match inst {
        Instr::I32Const(x) => {
            let m = mov_val_word(9, x);
            let v = x as u32;
            assert(m == 0xd2800000u32 | (v << 5u32) | 9u32);
            assert((0xd2800000u32 | (v << 5u32) | 9u32) & 0x02000000u32 == 0x02000000u32) by (bit_vector);
            lemma_not_stack_op(m, 0x02000000u32);
            assert(ws =~= seq![m, p9]);
            assert(is_push(p9));
            assert(ws.drop_last() =~= seq![m]);
            assert(ws.drop_last().drop_last() =~= Seq::<u32>::empty());
        },
        Instr::GetLocal(l) => {
            let w = load_word(9, reg::FP, (l * 8) as u32);
            let q = ((l * 8) as u32) / 8;
            assert(w == 0xf9400000u32 | (q << 10u32) | (29u32 << 5u32) | 9u32);
            assert((0xf9400000u32 | (q << 10u32) | (29u32 << 5u32) | 9u32) & 0x01000000u32 == 0x01000000u32) by (bit_vector);
            lemma_not_stack_op(w, 0x01000000u32);
            assert(ws.drop_last() =~= seq![w]);
            assert(ws.drop_last().drop_last() =~= Seq::<u32>::empty());
        },
        Instr::SetLocal(l) => {
            let w = store_word(9, reg::FP, (l * 8) as u32);
            let q = ((l * 8) as u32) / 8;
            assert(w == 0xf9000000u32 | (q << 10u32) | (29u32 << 5u32) | 9u32);
            assert((0xf9000000u32 | (q << 10u32) | (29u32 << 5u32) | 9u32) & 0x01000000u32 == 0x01000000u32) by (bit_vector);
            lemma_not_stack_op(w, 0x01000000u32);
            assert(ws.drop_last() =~= seq![q9]);
            assert(ws.drop_last().drop_last() =~= Seq::<u32>::empty());
        },
        _ => {},
    }
}

/// A word with bit 25 or bit 24 set neither pushes nor pops.
pub proof fn lemma_not_stack_op(w: u32, bit: u32)
    requires
        bit == 0x02000000u32 || bit == 0x01000000u32,
        w & bit == bit,
    ensures
        !is_push(w),
        !is_pop(w),
{
    assert((w & bit == bit && (bit == 0x02000000u32 || bit == 0x01000000u32)) ==> (w & 0xffffffe0u32
        != 0xf81f8fe0u32 && w & 0xffffffe0u32 != 0xf84087e0u32)) by (bit_vector);
}

/// The stack area reserved for `n` locals holds an 8-byte slot for each of
/// them. This holds for at most two locals only: three locals take 24 bytes
/// while 16 are reserved.
pub proof fn lemma_slots_reserved(n: int)
    requires
        0 <= n <= 2,
    ensures
        8 * n <= frame_size(n),
{
}

} // verus!
