//! What the prologue, the epilogue and a whole generated function are, stated
//! over the instruction words themselves.
use vstd::prelude::*;

use super::laws::{is_pop, is_push, lemma_frame_symmetry, lemma_not_stack_op, stack_change};
use super::native::{add_imm_word, add_mov_word, load_word, pop_word, push_word, spec_pop, spec_push, store_word, sub_imm_word};
use super::{
    clear_frame_spec, create_frame_spec, encode_all, frame_registers_spec, generate_spec,
    init_locals_words, instrs_spec, lemma_locals_total_nonneg, load_registers_spec, locals_total, pop_encoder, push_encoder,
    save_registers_spec, setup_locals_spec, wasm2bin_spec, words_bytes, GeneratorModel,
};
use crate::err::Error;
use crate::wasm::{Instr, Local};

verus! {

pub proof fn lemma_stack_change_concat(a: Seq<u32>, b: Seq<u32>)
    ensures
        stack_change(a + b) == stack_change(a) + stack_change(b),
    decreases b.len(),
{
    if b.len() == 0 {
        assert(a + b =~= a);
    } else {
        assert((a + b).drop_last() =~= a + b.drop_last());
        lemma_stack_change_concat(a, b.drop_last());
    }
}

/// Words with bit 24 set neither push nor pop.
pub proof fn lemma_bit24_no_stack_change(ws: Seq<u32>)
    requires
        forall|i: int| 0 <= i < ws.len() ==> #[trigger] ws[i] & 0x01000000u32 == 0x01000000u32,
    ensures
        stack_change(ws) == 0,
    decreases ws.len(),
{
    if ws.len() > 0 {
        lemma_not_stack_op(ws.last(), 0x01000000u32);
        lemma_bit24_no_stack_change(ws.drop_last());
    }
}

/// Pushing every register of a frame pushes as many values as the frame has
/// registers.
pub proof fn lemma_push_all_change(rs: Seq<u8>)
    requires
        encode_all(rs, push_encoder()) is Ok,
    ensures
        stack_change(encode_all(rs, push_encoder())->Ok_0) == rs.len(),
    decreases rs.len(),
{
    if rs.len() > 0 {
        lemma_push_all_change(rs.drop_last());
        let ws = encode_all(rs.drop_last(), push_encoder())->Ok_0;
        let r = rs.last();
        let w = push_word(r);
        assert(spec_push(r) is Ok);
        let rr = r as u32;
        assert(w == 0xf81f8fe0u32 | (31u32 << 5u32) | rr);
        assert(rr <= 31 ==> (0xf81f8fe0u32 | (31u32 << 5u32) | rr) & 0xffffffe0u32 == 0xf81f8fe0u32) by (bit_vector);
        assert(ws.push(w).drop_last() =~= ws);
    }
}

/// Popping every register of a frame pops as many values as the frame has
/// registers.
pub proof fn lemma_pop_all_change(rs: Seq<u8>)
    requires
        encode_all(rs, pop_encoder()) is Ok,
    ensures
        stack_change(encode_all(rs, pop_encoder())->Ok_0) == -rs.len(),
    decreases rs.len(),
{
    if rs.len() > 0 {
        lemma_pop_all_change(rs.drop_last());
        let ws = encode_all(rs.drop_last(), pop_encoder())->Ok_0;
        let r = rs.last();
        let w = pop_word(r);
        assert(spec_pop(r) is Ok);
        let rr = r as u32;
        assert(w == 0xf84087e0u32 | (31u32 << 5u32) | rr);
        assert(rr <= 31 ==> (0xf84087e0u32 | (31u32 << 5u32) | rr) & 0xffffffe0u32 == 0xf84087e0u32) by (bit_vector);
        assert(ws.push(w).drop_last() =~= ws);
    }
}

/// The prologue pushes one value per saved register; the epilogue pops one
/// per restored register, and both handle the same number of registers.
pub proof fn lemma_frame_stack_changes(registers: Seq<u8>, locals: Seq<Local>)
    ensures
        create_frame_spec(registers, locals) matches Ok(p) ==> stack_change(p) == frame_registers_spec(registers, false).len(),
        clear_frame_spec(registers, locals) matches Ok(e) ==> stack_change(e) == -frame_registers_spec(registers, false).len(),
{
    lemma_frame_symmetry(registers);
    if create_frame_spec(registers, locals) is Ok {
        let a = save_registers_spec(registers)->Ok_0;
        let s = setup_locals_spec(locals)->Ok_0;
        lemma_push_all_change(frame_registers_spec(registers, false));
        lemma_setup_words_bit24(locals);
        lemma_bit24_no_stack_change(s);
        lemma_stack_change_concat(a, s);
    }
    if clear_frame_spec(registers, locals) is Ok {
        let b = load_registers_spec(registers)->Ok_0;
        let k = (16 * (locals_total(locals) / 16 + 1)) as u32;
        let w = add_imm_word(31, 31, k);
        assert(w == 0x91000000u32 | (k << 10u32) | (31u32 << 5u32) | 31u32);
        assert((0x91000000u32 | (k << 10u32) | (31u32 << 5u32) | 31u32) & 0x01000000u32 == 0x01000000u32) by (bit_vector);
        lemma_bit24_no_stack_change(seq![w]);
        lemma_pop_all_change(frame_registers_spec(registers, true));
        lemma_stack_change_concat(seq![w], b);
    }
}

/// Every word of a successful locals setup has bit 24 set.
pub proof fn lemma_setup_words_bit24(locals: Seq<Local>)
    ensures
        setup_locals_spec(locals) matches Ok(s) ==> forall|i: int| 0 <= i < s.len() ==> #[trigger] s[i] & 0x01000000u32 == 0x01000000u32,
{
    if setup_locals_spec(locals) is Ok {
        let s = setup_locals_spec(locals)->Ok_0;
        let v = ((16 * ((locals.len() as u32) as int / 16 + 1)) as i32) as u32;
        assert(sub_imm_word(31, 31, (16 * ((locals.len() as u32) as int / 16 + 1)) as i32) == 0xd1000000u32 | (v << 10u32) | (31u32 << 5u32) | 31u32);
        assert((0xd1000000u32 | (v << 10u32) | (31u32 << 5u32) | 31u32) & 0x01000000u32 == 0x01000000u32) by (bit_vector);
        assert(add_mov_word(29, 31) == 0x91000000u32 | (31u32 << 5u32) | 29u32);
        assert((0x91000000u32 | (31u32 << 5u32) | 29u32) & 0x01000000u32 == 0x01000000u32) by (bit_vector);
        assert forall|i: int| 0 <= i < s.len() implies #[trigger] s[i] & 0x01000000u32 == 0x01000000u32 by {
            if i >= 2 {
                let q = ((((i - 2) * 8) as u32) / 8) as u32;
                assert(s[i] == store_word(31, 29, ((i - 2) * 8) as u32));
                assert(s[i] == 0xf9000000u32 | (q << 10u32) | (29u32 << 5u32) | 31u32);
                assert((0xf9000000u32 | (q << 10u32) | (29u32 << 5u32) | 31u32) & 0x01000000u32 == 0x01000000u32) by (bit_vector);
            }
        }
    }
}

/// A generated function is its prologue, the translation of its
/// instructions, one pop of the result into x0 (`ldr x0, [sp], #8`), its
/// epilogue and `ret`, whatever its locals. The whole function pops one value
/// more than the instructions push, so a body that leaves one value on the
/// stack returns it in x0 with the stack balanced.
pub proof fn lemma_generate_shape(g: GeneratorModel)
    ensures
        generate_spec(g) is Ok ==> {
            &&& create_frame_spec(g.registers, g.locals) is Ok
            &&& instrs_spec(g.body.code) is Ok
            &&& clear_frame_spec(g.registers, g.locals) is Ok
        },
        create_frame_spec(g.registers, g.locals) matches Ok(p) ==> (instrs_spec(g.body.code) matches Ok(m) ==> (
        clear_frame_spec(g.registers, g.locals) matches Ok(e) ==> {
            &&& generate_spec(g) == Ok::<Seq<u8>, Error>(
                words_bytes(p + m + seq![0xf84087e0u32] + e + seq![0xd65f03c0u32]),
            )
            &&& stack_change(p + m + seq![0xf84087e0u32] + e + seq![0xd65f03c0u32]) == stack_change(m) - 1
        })),
{
    assert(pop_word(0) == 0xf84087e0u32) by {
        assert(0xf84087e0u32 | (31u32 << 5u32) | 0u32 == 0xf84087e0u32) by (bit_vector);
    }
    if create_frame_spec(g.registers, g.locals) is Ok && instrs_spec(g.body.code) is Ok
        && clear_frame_spec(g.registers, g.locals) is Ok {
        let p = create_frame_spec(g.registers, g.locals)->Ok_0;
        let m = instrs_spec(g.body.code)->Ok_0;
        let e = clear_frame_spec(g.registers, g.locals)->Ok_0;
        let x0 = seq![0xf84087e0u32];
        let rt = seq![0xd65f03c0u32];
        lemma_frame_stack_changes(g.registers, g.locals);
        lemma_stack_change_concat(p, m);
        lemma_stack_change_concat(p + m, x0);
        lemma_stack_change_concat(p + m + x0, e);
        lemma_stack_change_concat(p + m + x0 + e, rt);
        assert(is_pop(0xf84087e0u32) && !is_push(0xf84087e0u32)) by {
            assert(0xf84087e0u32 & 0xffffffe0u32 == 0xf84087e0u32) by (bit_vector);
        }
        assert(!is_pop(0xd65f03c0u32) && !is_push(0xd65f03c0u32)) by {
            assert(0xd65f03c0u32 & 0xffffffe0u32 == 0xd65f03c0u32) by (bit_vector);
        }
        assert(x0.drop_last() =~= Seq::<u32>::empty());
        assert(rt.drop_last() =~= Seq::<u32>::empty());
        assert(stack_change(Seq::<u32>::empty()) == 0);
        assert(stack_change(x0) == -1);
        assert(stack_change(rt) == 0);
        assert(stack_change(p) + stack_change(e) == 0);
        assert(generate_spec(g) == Ok::<Seq<u8>, Error>(words_bytes(p + m + x0 + e + rt)));
    }
}

/// `get_local l` loads x9 from the frame slot `x29 + 8 * l` and pushes it;
/// `set_local l` pops x9 and stores it to the same slot. The scaled offset
/// field of both words decodes to `l`, so distinct locals use distinct slots
/// and the slot read by `get_local l` is the one written by `set_local l`.
pub proof fn lemma_local_slots(l: u32)
    requires
        l < 0x1000,
    ensures
        wasm2bin_spec(Instr::GetLocal(l)) matches Ok(g) && {
            &&& g.len() == 2
            &&& g[0] & 0xffc00000u32 == 0xf9400000u32
            &&& g[0] & 0x1f == 9
            &&& (g[0] >> 5u32) & 0x1f == 29
            &&& (g[0] >> 10u32) & 0xfff == l
            &&& g[1] == 0xf81f8fe9u32
        },
        wasm2bin_spec(Instr::SetLocal(l)) matches Ok(t) && {
            &&& t.len() == 2
            &&& t[0] == 0xf84087e9u32
            &&& t[1] & 0xffc00000u32 == 0xf9000000u32
            &&& t[1] & 0x1f == 9
            &&& (t[1] >> 5u32) & 0x1f == 29
            &&& (t[1] >> 10u32) & 0xfff == l
        },
{
    let off = (l * 8) as u32;
    assert(off / 8 == l);
    let lw = load_word(9, 29, off);
    let sw = store_word(9, 29, off);
    assert(lw == 0xf9400000u32 | (l << 10u32) | (29u32 << 5u32) | 9u32);
    assert(sw == 0xf9000000u32 | (l << 10u32) | (29u32 << 5u32) | 9u32);
    assert(l < 0x1000 ==> {
        &&& (0xf9400000u32 | (l << 10u32) | (29u32 << 5u32) | 9u32) & 0xffc00000u32 == 0xf9400000u32
        &&& (0xf9400000u32 | (l << 10u32) | (29u32 << 5u32) | 9u32) & 0x1f == 9
        &&& ((0xf9400000u32 | (l << 10u32) | (29u32 << 5u32) | 9u32) >> 5u32) & 0x1f == 29
        &&& ((0xf9400000u32 | (l << 10u32) | (29u32 << 5u32) | 9u32) >> 10u32) & 0xfff == l
        &&& (0xf9000000u32 | (l << 10u32) | (29u32 << 5u32) | 9u32) & 0xffc00000u32 == 0xf9000000u32
        &&& (0xf9000000u32 | (l << 10u32) | (29u32 << 5u32) | 9u32) & 0x1f == 9
        &&& ((0xf9000000u32 | (l << 10u32) | (29u32 << 5u32) | 9u32) >> 5u32) & 0x1f == 29
        &&& ((0xf9000000u32 | (l << 10u32) | (29u32 << 5u32) | 9u32) >> 10u32) & 0xfff == l
    }) by (bit_vector);
    assert(push_word(9) == 0xf81f8fe9u32) by {
        assert(0xf81f8fe0u32 | (31u32 << 5u32) | 9u32 == 0xf81f8fe9u32) by (bit_vector);
    }
    assert(pop_word(9) == 0xf84087e9u32) by {
        assert(0xf84087e0u32 | (31u32 << 5u32) | 9u32 == 0xf84087e9u32) by (bit_vector);
    }
}

/// The locals setup always reserves the frame and sets the frame pointer,
/// also for a function without locals: it is `sub sp, sp, #k` with `k` the
/// multiple of 16 above the number of declaration runs, then
/// `mov x29, sp`, then one `str xzr, [x29, #8 * i]` for every local `i`. It
/// succeeds exactly when `k` stays below 2^13.
pub proof fn lemma_setup_locals_shape(locals: Seq<Local>)
    requires
        16 * ((locals.len() as u32) / 16 + 1) <= i32::MAX,
        locals_total(locals) <= 0x2000_0000,
    ensures
        ({
            let k = 16 * ((locals.len() as u32) / 16 + 1);
            &&& setup_locals_spec(locals) is Ok <==> k < 0x2000
            &&& setup_locals_spec(locals) matches Ok(s) ==> {
                &&& s.len() == 2 + locals_total(locals)
                &&& s[0] == 0xd10003ffu32 | ((k as u32) << 10u32)
                &&& s[1] == 0x910003fdu32
                &&& forall|i: int| 0 <= i < locals_total(locals) ==> #[trigger] s[2 + i] == 0xf90003bfu32 | ((i as u32) << 10u32)
            }
        }),
{
    let k = 16 * ((locals.len() as u32) / 16 + 1);
    let kk = k as u32;
    lemma_locals_total_nonneg(locals);
    assert((k as i32) as u32 == kk);
    assert(sub_imm_word(31, 31, k as i32) == 0xd1000000u32 | (kk << 10u32) | (31u32 << 5u32) | 31u32);
    assert(0xd1000000u32 | (kk << 10u32) | (31u32 << 5u32) | 31u32 == 0xd10003ffu32 | (kk << 10u32)) by (bit_vector);
    assert(add_mov_word(29, 31) == 0x910003fdu32) by {
        assert(0x91000000u32 | (31u32 << 5u32) | 29u32 == 0x910003fdu32) by (bit_vector);
    }
    if setup_locals_spec(locals) is Ok {
        let s = setup_locals_spec(locals)->Ok_0;
        let t = locals_total(locals);
        assert forall|i: int| 0 <= i < t implies #[trigger] s[2 + i] == 0xf90003bfu32 | ((i as u32) << 10u32) by {
            let off = (i * 8) as u32;
            let ii = i as u32;
            assert(off / 8 == ii);
            assert(s[2 + i] == init_locals_words(t)[i]);
            assert(s[2 + i] == 0xf9000000u32 | (ii << 10u32) | (29u32 << 5u32) | 31u32);
            assert(0xf9000000u32 | (ii << 10u32) | (29u32 << 5u32) | 31u32 == 0xf90003bfu32 | (ii << 10u32)) by (bit_vector);
        }
    }
}

/// The epilogue first frees the locals' stack area with `add sp, sp, #k`,
/// where `k` is the multiple of 16 above the number of locals: never 0, at
/// most 16 above the number of locals. It then pops one value per saved
/// register.
pub proof fn lemma_clear_frame_shape(registers: Seq<u8>, locals: Seq<Local>)
    requires
        16 * (locals_total(locals) / 16 + 1) <= u32::MAX,
    ensures
        ({
            let k = 16 * (locals_total(locals) / 16 + 1);
            &&& k % 16 == 0
            &&& locals_total(locals) < k <= locals_total(locals) + 16
            &&& clear_frame_spec(registers, locals) is Ok <==> load_registers_spec(registers) is Ok
            &&& clear_frame_spec(registers, locals) matches Ok(e) ==> {
                &&& e.len() == 1 + frame_registers_spec(registers, false).len()
                &&& e[0] == 0x910003ffu32 | ((k as u32) << 10u32)
                &&& stack_change(e) == -frame_registers_spec(registers, false).len()
            }
        }),
{
    let k = 16 * (locals_total(locals) / 16 + 1);
    let kk = k as u32;
    assert(add_imm_word(31, 31, kk) == 0x91000000u32 | (kk << 10u32) | (31u32 << 5u32) | 31u32);
    assert(0x91000000u32 | (kk << 10u32) | (31u32 << 5u32) | 31u32 == 0x910003ffu32 | (kk << 10u32)) by (bit_vector);
    lemma_frame_stack_changes(registers, locals);
    lemma_frame_symmetry(registers);
    if load_registers_spec(registers) is Ok {
        lemma_encode_all_len(frame_registers_spec(registers, true), pop_encoder());
    }
}

pub proof fn lemma_encode_all_len(rs: Seq<u8>, enc: spec_fn(u8) -> Result<u32, Error>)
    requires
        encode_all(rs, enc) is Ok,
    ensures
        (encode_all(rs, enc)->Ok_0).len() == rs.len(),
    decreases rs.len(),
{
    if rs.len() > 0 {
        lemma_encode_all_len(rs.drop_last(), enc);
    }
}

/// The epilogue frees the bytes that the prologue reserved when the number of
/// declaration runs and the number of locals fall into the same block of 16,
/// in particular when there are no locals: the immediates of the two words
/// are equal.
pub proof fn lemma_frame_balance(registers: Seq<u8>, locals: Seq<Local>)
    requires
        16 * ((locals.len() as u32) / 16 + 1) <= i32::MAX,
        locals_total(locals) <= 0x2000_0000,
        (locals.len() as u32) / 16 == locals_total(locals) / 16,
    ensures
        setup_locals_spec(locals) matches Ok(s) ==> (clear_frame_spec(registers, locals) matches Ok(e) ==> s[0]
            & 0x007ffc00u32 == e[0] & 0x007ffc00u32),
{
    lemma_setup_locals_shape(locals);
    lemma_clear_frame_shape(registers, locals);
    let k = (16 * ((locals.len() as u32) / 16 + 1)) as u32;
    assert((0xd10003ffu32 | (k << 10u32)) & 0x007ffc00u32 == (0x910003ffu32 | (k << 10u32)) & 0x007ffc00u32) by (bit_vector);
}

} // verus!
