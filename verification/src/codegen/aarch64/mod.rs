//! AArch64 back end: instruction words and the translation of function bodies.
use vstd::prelude::*;

pub mod native;
pub mod function_laws;
pub mod laws;
pub mod order;
pub mod reg;

use self::native::{
    add_imm, add_imm_word, add_mov_word, add_reg, add_reg_word, load, load_word, local_offset,
    local_size_aligned, mov_reg_sp, mov_val, pop, pop_word, push, push_word, ret, ret_word,
    spec_mov_val, spec_pop, spec_push, spec_sub_imm, store, store_word, sub_imm,
};
use self::order::{
    ascending, dedup, dedup_registers, descending, lemma_descending_is_reverse,
    lemma_sorted_rearrangement, reverse_registers, sort_ascending,
};
use crate::err::Error;
use crate::wasm::{BodyModel, FunctionBody, Instr, Local};

verus! {

/// One AArch64 instruction: a 32-bit word, emitted in little-endian byte order.
#[derive(Debug, Clone, Copy, PartialEq, Eq, Structural)]
pub struct Code {
    word: u32,
}

/// The four bytes of the word `w`, least significant byte first.
pub open spec fn word_bytes(w: u32) -> Seq<u8> {
    seq![
        (w & 0xff) as u8,
        ((w >> 8u32) & 0xff) as u8,
        ((w >> 16u32) & 0xff) as u8,
        ((w >> 24u32) & 0xff) as u8,
    ]
}

impl View for Code {
    type V = u32;

    /// The instruction word.
    closed spec fn view(&self) -> u32 {
        self.word
    }
}

impl Code {
    /// Two codes with the same word are the same code.
    pub proof fn lemma_view_injective(a: Code, b: Code)
        requires
            a@ == b@,
        ensures
            a == b,
    {
    }

    /// The code of the instruction word `word`.
    pub fn from_word(word: u32) -> (c: Code)
        ensures
            c@ == word,
    {
        Code { word }
    }

    /// The instruction word.
    pub fn word(&self) -> (w: u32)
        ensures
            w == self@,
    {
        self.word
    }

    /// The bytes of the instruction as they are laid out in memory.
    pub fn bytes(&self) -> (b: [u8; 4])
        ensures
            b@ == word_bytes(self@),
    {
        let w = self.word;
        let b: [u8; 4] = [
            (w & 0xff) as u8,
            ((w >> 8u32) & 0xff) as u8,
            ((w >> 16u32) & 0xff) as u8,
            ((w >> 24u32) & 0xff) as u8,
        ];
        assert(b@ =~= word_bytes(w));
        b
    }
}

impl From<u32> for Code {
    fn from(word: u32) -> (c: Code)
        ensures
            c@ == word,
    {
        Code { word }
    }
}

/// The code made from a word by `From` has that word.
pub proof fn lemma_from_word(v: u32)
    ensures
        <Code as vstd::std_specs::convert::FromSpec<u32>>::from_spec(v)@ == v,
{
}

impl vstd::std_specs::convert::FromSpecImpl<u32> for Code {
    open spec fn obeys_from_spec() -> bool {
        true
    }

    closed spec fn from_spec(v: u32) -> Code {
        Code { word: v }
    }
}

impl PartialEq<[u8; 4]> for Code {
    fn eq(&self, other: &[u8; 4]) -> (r: bool) {
        let b = self.bytes();
        let r = b[0] == other[0] && b[1] == other[1] && b[2] == other[2] && b[3] == other[3];
        proof {
            if r {
                assert(b@ =~= other@);
            } else if b@ == other@ {
                assert(b@[0] == other@[0] && b@[1] == other@[1]);
                assert(b@[2] == other@[2] && b@[3] == other@[3]);
            }
        }
        r
    }
}

impl vstd::std_specs::cmp::PartialEqSpecImpl<[u8; 4]> for Code {
    open spec fn obeys_eq_spec() -> bool {
        true
    }

    open spec fn eq_spec(&self, other: &[u8; 4]) -> bool {
        word_bytes(self@) == other@
    }
}


/// The words of a sequence of codes.
pub open spec fn words_of(cs: Seq<Code>) -> Seq<u32> {
    cs.map_values(|c: Code| c@)
}

/// What a function that emits several instructions returns, with the codes
/// taken by their words.
pub open spec fn codes_result(r: Result<Vec<Code>, Error>) -> Result<Seq<u32>, Error> {
    match r {
        Ok(v) => Ok(words_of(v@)),
        Err(e) => Err(e),
    }
}

/// The bytes of a sequence of instruction words, each word least significant
/// byte first.
pub open spec fn words_bytes(ws: Seq<u32>) -> Seq<u8>
    decreases ws.len(),
{
    if ws.len() == 0 {
        Seq::empty()
    } else {
        words_bytes(ws.drop_last()) + word_bytes(ws.last())
    }
}

/// Encodes every register of `rs` in turn; the first error wins.
pub open spec fn encode_all(rs: Seq<u8>, enc: spec_fn(u8) -> Result<u32, Error>) -> Result<Seq<u32>, Error>
    decreases rs.len(),
{
    if rs.len() == 0 {
        Ok(Seq::empty())
    } else {
        match encode_all(rs.drop_last(), enc) {
            Err(e) => Err(e),
            Ok(ws) => match enc(rs.last()) {
                Err(e) => Err(e),
                Ok(w) => Ok(ws.push(w)),
            },
        }
    }
}

pub open spec fn push_encoder() -> spec_fn(u8) -> Result<u32, Error> {
    |r: u8| spec_push(r)
}

pub open spec fn pop_encoder() -> spec_fn(u8) -> Result<u32, Error> {
    |r: u8| spec_pop(r)
}

/// The registers a frame saves: the frame pointer, the link register and
/// `registers`, runs of equal neighbours cut to one, in descending order for
/// saving and ascending order for restoring.
pub open spec fn frame_registers_spec(registers: Seq<u8>, ascending_order: bool) -> Seq<u8> {
    dedup(seq![reg::FP, reg::LR] + registers).sort_by(
        if ascending_order {
            ascending()
        } else {
            descending()
        },
    )
}

pub open spec fn save_registers_spec(registers: Seq<u8>) -> Result<Seq<u32>, Error> {
    encode_all(frame_registers_spec(registers, false), push_encoder())
}

pub open spec fn load_registers_spec(registers: Seq<u8>) -> Result<Seq<u32>, Error> {
    encode_all(frame_registers_spec(registers, true), pop_encoder())
}

/// The number of locals declared by `locals`.
pub open spec fn locals_total(locals: Seq<Local>) -> int
    decreases locals.len(),
{
    if locals.len() == 0 {
        0
    } else {
        locals_total(locals.drop_last()) + locals.last().count
    }
}

/// The stack bytes reserved for `n` locals: the next multiple of 16 above `n`.
pub open spec fn frame_size(n: int) -> int {
    16 * (n / 16 + 1)
}

/// Zeroes `count` locals, one 8-byte slot each above the frame pointer.
pub open spec fn init_locals_words(count: int) -> Seq<u32> {
    Seq::new(count as nat, |i: int| store_word(reg::XZR, reg::FP, (i * 8) as u32))
}

pub open spec fn setup_locals_spec(locals: Seq<Local>) -> Result<Seq<u32>, Error> {
    match spec_sub_imm(reg::SP, reg::SP, frame_size((locals.len() as u32) as int) as i32) {
        Err(e) => Err(e),
        Ok(w) => Ok(seq![w, add_mov_word(reg::FP, reg::SP)] + init_locals_words(locals_total(locals))),
    }
}

/// The declarations on which setting up locals runs without an arithmetic
/// overflow: the count fits in 32 bits, the reserved size in an `i32`, and,
/// where the reservation can be encoded, every local's offset in 32 bits.
pub open spec fn setup_locals_defined(locals: Seq<Local>) -> bool {
    &&& locals_total(locals) <= u32::MAX
    &&& frame_size((locals.len() as u32) as int) <= i32::MAX
    &&& frame_size((locals.len() as u32) as int) < 0x2000 ==> locals_total(locals) <= 0x2000_0000
}

pub open spec fn create_frame_spec(registers: Seq<u8>, locals: Seq<Local>) -> Result<Seq<u32>, Error> {
    match save_registers_spec(registers) {
        Err(e) => Err(e),
        Ok(a) => match setup_locals_spec(locals) {
            Err(e) => Err(e),
            Ok(b) => Ok(a + b),
        },
    }
}

pub open spec fn create_frame_defined(registers: Seq<u8>, locals: Seq<Local>) -> bool {
    save_registers_spec(registers) is Ok ==> setup_locals_defined(locals)
}

pub open spec fn clear_frame_spec(registers: Seq<u8>, locals: Seq<Local>) -> Result<Seq<u32>, Error> {
    match load_registers_spec(registers) {
        Err(e) => Err(e),
        Ok(b) => Ok(seq![add_imm_word(reg::SP, reg::SP, frame_size(locals_total(locals)) as u32)] + b),
    }
}

pub open spec fn clear_frame_defined(locals: Seq<Local>) -> bool {
    &&& locals_total(locals) <= u32::MAX
    &&& frame_size(locals_total(locals)) <= u32::MAX
}

/// The words that one WebAssembly instruction becomes. Values live on the
/// machine stack; x9 and x10 are scratch registers; local `l` lives at
/// `FP + 8 * l`.
pub open spec fn wasm2bin_spec(inst: Instr) -> Result<Seq<u32>, Error> {
    match inst {
        Instr::I32Const(x) => match spec_mov_val(9, x) {
            Err(e) => Err(e),
            Ok(w) => Ok(seq![w, push_word(9)]),
        },
        Instr::I32Add => Ok(seq![pop_word(9), pop_word(10), add_reg_word(9, 9, 10), push_word(9)]),
        Instr::GetLocal(l) => Ok(seq![load_word(9, reg::FP, (l * 8) as u32), push_word(9)]),
        Instr::SetLocal(l) => Ok(seq![pop_word(9), store_word(9, reg::FP, (l * 8) as u32)]),
        Instr::End => Ok(Seq::empty()),
        Instr::Other(s) => Err(Error::NotImplemented("instruction", Some(s))),
    }
}

/// The instructions whose translation runs without an arithmetic overflow:
/// a local's offset must fit in 32 bits.
pub open spec fn wasm2bin_defined(inst: Instr) -> bool {
    match inst {
        Instr::GetLocal(l) => l * 8 <= u32::MAX,
        Instr::SetLocal(l) => l * 8 <= u32::MAX,
        _ => true,
    }
}

/// Translates the instructions in turn; the first error wins.
pub open spec fn instrs_spec(code: Seq<Instr>) -> Result<Seq<u32>, Error>
    decreases code.len(),
{
    if code.len() == 0 {
        Ok(Seq::empty())
    } else {
        match instrs_spec(code.drop_last()) {
            Err(e) => Err(e),
            Ok(ws) => match wasm2bin_spec(code.last()) {
                Err(e) => Err(e),
                Ok(w) => Ok(ws + w),
            },
        }
    }
}

/// Every instruction that translation reaches can be translated without an
/// arithmetic overflow.
pub open spec fn instrs_defined(code: Seq<Instr>) -> bool {
    forall|i: int|
        0 <= i < code.len() ==> (#[trigger] instrs_spec(code.take(i)) is Ok ==> wasm2bin_defined(code[i]))
}

pub proof fn lemma_encode_all_err(rs: Seq<u8>, i: int, enc: spec_fn(u8) -> Result<u32, Error>)
    requires
        0 <= i <= rs.len(),
        encode_all(rs.take(i), enc) is Err,
    ensures
        encode_all(rs, enc) == encode_all(rs.take(i), enc),
    decreases rs.len() - i,
{
    if i < rs.len() {
        assert(rs.drop_last().take(i) =~= rs.take(i));
        lemma_encode_all_err(rs.drop_last(), i, enc);
    } else {
        assert(rs.take(i) =~= rs);
    }
}

pub proof fn lemma_instrs_err(code: Seq<Instr>, i: int)
    requires
        0 <= i <= code.len(),
        instrs_spec(code.take(i)) is Err,
    ensures
        instrs_spec(code) == instrs_spec(code.take(i)),
    decreases code.len() - i,
{
    if i < code.len() {
        assert(code.drop_last().take(i) =~= code.take(i));
        lemma_instrs_err(code.drop_last(), i);
    } else {
        assert(code.take(i) =~= code);
    }
}

pub proof fn lemma_words_bytes_concat(a: Seq<u32>, b: Seq<u32>)
    ensures
        words_bytes(a + b) == words_bytes(a) + words_bytes(b),
    decreases b.len(),
{
    if b.len() == 0 {
        assert(a + b =~= a);
        assert(words_bytes(a) + words_bytes(b) =~= words_bytes(a));
    } else {
        assert((a + b).drop_last() =~= a + b.drop_last());
        lemma_words_bytes_concat(a, b.drop_last());
        assert(words_bytes(a) + words_bytes(b) =~= words_bytes(a) + words_bytes(b.drop_last()) + word_bytes(b.last()));
    }
}

pub proof fn lemma_locals_total_prefix(locals: Seq<Local>, i: int)
    requires
        0 <= i <= locals.len(),
    ensures
        0 <= locals_total(locals.take(i)) <= locals_total(locals),
    decreases locals.len() - i,
{
    if i < locals.len() {
        assert(locals.drop_last().take(i) =~= locals.take(i));
        lemma_locals_total_prefix(locals.drop_last(), i);
    } else {
        assert(locals.take(i) =~= locals);
        lemma_locals_total_nonneg(locals);
    }
}

pub proof fn lemma_locals_total_nonneg(locals: Seq<Local>)
    ensures
        locals_total(locals) >= 0,
    decreases locals.len(),
{
    if locals.len() > 0 {
        lemma_locals_total_nonneg(locals.drop_last());
    }
}

/// Appends the bytes of `codes` to `out`.
pub fn append_code_bytes(out: &mut Vec<u8>, codes: &Vec<Code>)
    ensures
        final(out)@ == old(out)@ + words_bytes(words_of(codes@)),
{
    let n = codes.len();
    for i in 0..n
        invariant
            n == codes@.len(),
            out@ == old(out)@ + words_bytes(words_of(codes@.take(i as int))),
    {
        let b = codes[i].bytes();
        let ghost prev = out@;
        out.push(b[0]);
        out.push(b[1]);
        out.push(b[2]);
        out.push(b[3]);
        proof {
            let ws = words_of(codes@.take(i + 1));
            assert(ws.drop_last() =~= words_of(codes@.take(i as int)));
            assert(ws.last() == codes@[i as int]@);
            assert(out@ =~= prev + b@);
        }
    }
    assert(codes@.take(n as int) =~= codes@);
}

/// The registers a frame saves, in descending order when `ascending` is
/// false (the order of the pushes) and ascending order otherwise (the order
/// of the pops).
pub fn frame_registers(registers: &[u8], ascending_order: bool) -> (r: Vec<u8>)
    ensures
        r@ == frame_registers_spec(registers@, ascending_order),
{
    let mut v: Vec<u8> = Vec::new();
    // frame pointer
    v.push(reg::FP);
    // link register; holds the return address
    v.push(reg::LR);
    let n = registers.len();
    for i in 0..n
        invariant
            n == registers@.len(),
            v@ == seq![reg::FP, reg::LR] + registers@.take(i as int),
    {
        v.push(registers[i]);
        assert(registers@.take(i + 1) =~= registers@.take(i as int).push(registers@[i as int]));
    }
    assert(registers@.take(n as int) =~= registers@);
    let d = dedup_registers(&v);
    let s = sort_ascending(&d);
    proof {
        lemma_sorted_rearrangement(d@, s@, ascending());
        lemma_descending_is_reverse(d@);
    }
    if ascending_order {
        s
    } else {
        let r = reverse_registers(&s);
        assert(r@ =~= d@.sort_by(descending()));
        r
    }
}

/// Pushes the frame's registers, highest number first.
pub fn save_registers(registers: &[u8]) -> (r: Result<Vec<Code>, Error>)
    ensures
        codes_result(r) == save_registers_spec(registers@),
{
    let to_push = frame_registers(registers, false);
    let mut out: Vec<Code> = Vec::new();
    let n = to_push.len();
    assert(to_push@.take(0) =~= Seq::<u8>::empty());
    assert(words_of(out@) =~= Seq::<u32>::empty());
    for i in 0..n
        invariant
            n == to_push@.len(),
            to_push@ == frame_registers_spec(registers@, false),
            encode_all(to_push@.take(i as int), push_encoder()) == Ok::<Seq<u32>, Error>(words_of(out@)),
    {
        let ghost prefix = to_push@.take(i + 1);
        assert(prefix.drop_last() =~= to_push@.take(i as int));
        match push(to_push[i]) {
            Err(e) => {
                proof {
                    lemma_encode_all_err(to_push@, i + 1, push_encoder());
                }
                return Err(e);
            },
            Ok(c) => {
                let ghost before = out@;
                out.push(c);
                assert(words_of(out@) =~= words_of(before).push(c@));
            },
        }
    }
    assert(to_push@.take(n as int) =~= to_push@);
    Ok(out)
}


/// Pops the frame's registers, lowest number first: the reverse of the
/// order in which `save_registers` pushed them.
pub fn load_registers(registers: &[u8]) -> (r: Result<Vec<Code>, Error>)
    ensures
        codes_result(r) == load_registers_spec(registers@),
{
    let to_pop = frame_registers(registers, true);
    let mut out: Vec<Code> = Vec::new();
    let n = to_pop.len();
    assert(to_pop@.take(0) =~= Seq::<u8>::empty());
    assert(words_of(out@) =~= Seq::<u32>::empty());
    for i in 0..n
        invariant
            n == to_pop@.len(),
            to_pop@ == frame_registers_spec(registers@, true),
            encode_all(to_pop@.take(i as int), pop_encoder()) == Ok::<Seq<u32>, Error>(words_of(out@)),
    {
        let ghost prefix = to_pop@.take(i + 1);
        assert(prefix.drop_last() =~= to_pop@.take(i as int));
        match pop(to_pop[i]) {
            Err(e) => {
                proof {
                    lemma_encode_all_err(to_pop@, i + 1, pop_encoder());
                }
                return Err(e);
            },
            Ok(c) => {
                let ghost before = out@;
                out.push(c);
                assert(words_of(out@) =~= words_of(before).push(c@));
            },
        }
    }
    assert(to_pop@.take(n as int) =~= to_pop@);
    Ok(out)
}

/// The number of locals declared by `l`.
pub fn locals_count(l: &[Local]) -> (r: u32)
    requires
        locals_total(l@) <= u32::MAX,
    ensures
        r == locals_total(l@),
{
    let mut sum: u32 = 0;
    let n = l.len();
    for i in 0..n
        invariant
            n == l@.len(),
            locals_total(l@) <= u32::MAX,
            sum == locals_total(l@.take(i as int)),
    {
        proof {
            assert(l@.take(i + 1).drop_last() =~= l@.take(i as int));
            lemma_locals_total_prefix(l@, i + 1);
        }
        sum = sum + l[i].count;
    }
    assert(l@.take(n as int) =~= l@);
    sum
}

/// Reserves the stack slots of the locals, points the frame pointer at them
/// and zeroes them.
pub fn setup_locals(variables: &[Local]) -> (r: Result<Vec<Code>, Error>)
    requires
        setup_locals_defined(variables@),
    ensures
        codes_result(r) == setup_locals_spec(variables@),
{
    let count = locals_count(variables);
    let aligned_bytes = local_size_aligned(variables.len() as u32);
    // reserve the slots of the locals
    let reserve_memory = match sub_imm(reg::SP, reg::SP, aligned_bytes as i32) {
        Ok(c) => c,
        Err(e) => return Err(e),
    };
    let make_frame = match mov_reg_sp(reg::FP, reg::SP) {
        Ok(c) => c,
        Err(e) => return Err(e),
    };
    let mut v: Vec<Code> = Vec::new();
    v.push(reserve_memory);
    v.push(make_frame);
    let ghost head = seq![reserve_memory@, make_frame@];
    assert(words_of(v@) =~= head + init_locals_words(0));
    for i in 0..count
        invariant
            count == locals_total(variables@),
            count <= 0x2000_0000,
            words_of(v@) == head + init_locals_words(i as int),
    {
        let c = match store(reg::XZR, reg::FP, local_offset(i)) {
            Ok(c) => c,
            Err(e) => return Err(e),
        };
        let ghost before = v@;
        v.push(c);
        assert(words_of(v@) =~= head + init_locals_words(i + 1)) by {
            assert(words_of(v@) =~= words_of(before).push(c@));
        }
    }
    Ok(v)
}

/// The prologue of a function: saves the registers, then sets up the locals.
pub fn create_frame(registers: &[u8], locals: &[Local]) -> (r: Result<Vec<Code>, Error>)
    requires
        create_frame_defined(registers@, locals@),
    ensures
        codes_result(r) == create_frame_spec(registers@, locals@),
{
    let mut v = match save_registers(registers) {
        Ok(v) => v,
        Err(e) => return Err(e),
    };
    let mut rest = match setup_locals(locals) {
        Ok(v) => v,
        Err(e) => return Err(e),
    };
    let ghost a = v@;
    let ghost b = rest@;
    v.append(&mut rest);
    assert(words_of(v@) =~= words_of(a) + words_of(b));
    Ok(v)
}

/// The epilogue of a function: frees the slots of the locals, then restores
/// the registers.
pub fn clear_frame(registers: &[u8], locals: &[Local]) -> (r: Result<Vec<Code>, Error>)
    requires
        clear_frame_defined(locals@),
    ensures
        codes_result(r) == clear_frame_spec(registers@, locals@),
{
    let count = locals_count(locals);
    let mem_size = local_size_aligned(count);
    let destroy_frame = match add_imm(reg::SP, reg::SP, mem_size) {
        Ok(c) => c,
        Err(e) => return Err(e),
    };
    assert(mem_size == frame_size(locals_total(locals@)) as u32);
    let mut v: Vec<Code> = Vec::new();
    v.push(destroy_frame);
    assert(words_of(v@) =~= seq![destroy_frame@]);
    let mut rest = match load_registers(registers) {
        Ok(v) => v,
        Err(e) => return Err(e),
    };
    let ghost a = v@;
    let ghost b = rest@;
    v.append(&mut rest);
    assert(words_of(v@) =~= words_of(a) + words_of(b));
    Ok(v)
}

/// Translates one WebAssembly instruction.
pub fn wasm2bin(inst: &Instr) -> (r: Result<Vec<Code>, Error>)
    requires
        wasm2bin_defined(*inst),
    ensures
        codes_result(r) == wasm2bin_spec(*inst),
{
    match inst {
        Instr::I32Const(x) => {
            let x = *x;
            let mov_r9 = match mov_val(9, x) {
                Ok(c) => c,
                Err(e) => return Err(e),
            };
            let push_r9 = match push(9) {
                Ok(c) => c,
                Err(e) => return Err(e),
            };
            let v = vec![mov_r9, push_r9];
            assert(words_of(v@) =~= seq![mov_r9@, push_r9@]);
            Ok(v)
        },
        Instr::I32Add => {
            let pop_1 = match pop(9) {
                Ok(c) => c,
                Err(e) => return Err(e),
            };
            let pop_2 = match pop(10) {
                Ok(c) => c,
                Err(e) => return Err(e),
            };
            let add_ = match add_reg(9, 9, 10) {
                Ok(c) => c,
                Err(e) => return Err(e),
            };
            let push_r9 = match push(9) {
                Ok(c) => c,
                Err(e) => return Err(e),
            };
            let v = vec![pop_1, pop_2, add_, push_r9];
            assert(words_of(v@) =~= seq![pop_1@, pop_2@, add_@, push_r9@]);
            Ok(v)
        },
        Instr::GetLocal(l) => {
            let load_local = match load(9, reg::FP, local_offset(*l)) {
                Ok(c) => c,
                Err(e) => return Err(e),
            };
            let push_local = match push(9) {
                Ok(c) => c,
                Err(e) => return Err(e),
            };
            let v = vec![load_local, push_local];
            assert(words_of(v@) =~= seq![load_local@, push_local@]);
            Ok(v)
        },
        Instr::SetLocal(l) => {
            let pop_value = match pop(9) {
                Ok(c) => c,
                Err(e) => return Err(e),
            };
            let store_value = match store(9, reg::FP, local_offset(*l)) {
                Ok(c) => c,
                Err(e) => return Err(e),
            };
            let v = vec![pop_value, store_value];
            assert(words_of(v@) =~= seq![pop_value@, store_value@]);
            Ok(v)
        },
        Instr::End => {
            let v: Vec<Code> = Vec::new();
            assert(words_of(v@) =~= Seq::<u32>::empty());
            Ok(v)
        },
        Instr::Other(s) => Err(Error::NotImplemented("instruction", Some(s.clone()))),
    }
}


/// What a function that emits bytes returns.
pub open spec fn bytes_result(r: Result<Vec<u8>, Error>) -> Result<Seq<u8>, Error> {
    match r {
        Ok(v) => Ok(v@),
        Err(e) => Err(e),
    }
}

/// The state of a generator.
pub struct GeneratorModel {
    pub registers: Seq<u8>,
    pub locals: Seq<Local>,
    pub body: BodyModel,
    pub block_stack: Seq<usize>,
}

/// The machine code of a function: prologue, the translated instructions,
/// the pop of the result into x0, epilogue and `ret`.
pub open spec fn generate_spec(g: GeneratorModel) -> Result<Seq<u8>, Error> {
    match create_frame_spec(g.registers, g.locals) {
        Err(e) => Err(e),
        Ok(prologue) => match instrs_spec(g.body.code) {
            Err(e) => Err(e),
            Ok(body) => match clear_frame_spec(g.registers, g.locals) {
                Err(e) => Err(e),
                Ok(epilogue) => Ok(
                    words_bytes(prologue + body + seq![pop_word(0)] + epilogue + seq![ret_word()]),
                ),
            },
        },
    }
}

/// The generators whose code generation runs without an arithmetic overflow
/// at every step that it reaches.
pub open spec fn generate_defined(g: GeneratorModel) -> bool {
    &&& create_frame_defined(g.registers, g.locals)
    &&& create_frame_spec(g.registers, g.locals) is Ok ==> {
        &&& instrs_defined(g.body.code)
        &&& instrs_spec(g.body.code) is Ok ==> clear_frame_defined(g.locals)
    }
}

/// The change of the stack depth by `count`; see `Generator::increment_stack`.
pub open spec fn increment_spec(stack: Seq<usize>, count: isize) -> Result<Seq<usize>, Error> {
    if stack.len() == 0 {
        Err(Error::StackEmpty)
    } else {
        let p = stack.last();
        if count < 0 {
            Ok(stack.update(stack.len() - 1, (p + (count as usize)) as usize))
        } else if (p as isize) < -count {
            Err(Error::TooLittleI32(p, count as i32))
        } else {
            Ok(stack.update(stack.len() - 1, (p - count) as usize))
        }
    }
}

pub open spec fn increment_defined(stack: Seq<usize>, count: isize) -> bool {
    stack.len() > 0 ==> {
        let p = stack.last();
        &&& count < 0 ==> p + (count as usize) <= usize::MAX
        &&& (count >= 0 && !((p as isize) < -count)) ==> p >= count
    }
}

/// How an instruction changes the depth of the operand stack, where it is known.
pub open spec fn stack_effect(inst: Instr) -> Option<isize> {
    match inst {
        Instr::I32Add => Some(-2isize),
        Instr::SetLocal(_) => Some(-1isize),
        Instr::End => Some(0isize),
        Instr::I32Const(_) => Some(1isize),
        Instr::GetLocal(_) => Some(1isize),
        Instr::Other(_) => None,
    }
}

/// Generates the machine code of one function body.
pub struct Generator {
    registers: Vec<u8>,
    locals: Vec<Local>,
    body: FunctionBody,
    block_stack: Vec<usize>,
}

impl View for Generator {
    type V = GeneratorModel;

    closed spec fn view(&self) -> GeneratorModel {
        GeneratorModel {
            registers: self.registers@,
            locals: self.locals@,
            body: self.body@,
            block_stack: self.block_stack@,
        }
    }
}

impl Generator {
    /// A generator for `body` that saves and restores x9 and x10, the
    /// registers that the translated instructions use.
    pub fn new(body: &FunctionBody) -> (g: Generator)
        ensures
            g@.registers == seq![9u8, 10u8],
            g@.locals == body@.locals,
            g@.body == body@,
            g@.block_stack == Seq::<usize>::empty(),
    {
        let registers: Vec<u8> = vec![9, 10];
        let body = body.copy();
        let mut locals: Vec<Local> = Vec::new();
        let n = body.locals.len();
        for i in 0..n
            invariant
                n == body.locals@.len(),
                locals@ == body.locals@.take(i as int),
        {
            locals.push(body.locals[i]);
            assert(body.locals@.take(i + 1) =~= body.locals@.take(i as int).push(body.locals@[i as int]));
        }
        assert(body.locals@.take(n as int) =~= body.locals@);
        let block_stack: Vec<usize> = Vec::new();
        assert(registers@ =~= seq![9u8, 10u8]);
        Generator { registers, locals, body, block_stack }
    }

    /// The machine code of the function body.
    pub fn generate(&self) -> (r: Result<Vec<u8>, Error>)
        requires
            generate_defined(self@),
        ensures
            bytes_result(r) == generate_spec(self@),
    {
        let mut v: Vec<u8> = Vec::new();
        // prologue; x0 returns the result
        let prologue = match create_frame(self.registers.as_slice(), self.locals.as_slice()) {
            Ok(c) => c,
            Err(e) => return Err(e),
        };
        append_code_bytes(&mut v, &prologue);
        let ghost pro = words_of(prologue@);
        assert(v@ =~= words_bytes(pro));
        let code = &self.body.code;
        let n = code.len();
        assert(code@.take(0) =~= Seq::<Instr>::empty());
        assert(pro + Seq::<u32>::empty() =~= pro);
        let ghost mut mid: Seq<u32> = Seq::empty();
        for i in 0..n
            invariant
                n == code@.len(),
                code@ == self@.body.code,
                create_frame_spec(self@.registers, self@.locals) == Ok::<Seq<u32>, Error>(pro),
                instrs_defined(code@),
                instrs_spec(code@.take(i as int)) == Ok::<Seq<u32>, Error>(mid),
                v@ == words_bytes(pro + mid),
        {
            let ghost prefix = code@.take(i + 1);
            assert(prefix.drop_last() =~= code@.take(i as int));
            assert(instrs_spec(code@.take(i as int)) is Ok);
            let codes = match wasm2bin(&code[i]) {
                Ok(c) => c,
                Err(e) => {
                    proof {
                        lemma_instrs_err(code@, i + 1);
                    }
                    return Err(e);
                },
            };
            proof {
                lemma_words_bytes_concat(pro + mid, words_of(codes@));
                assert(pro + mid + words_of(codes@) =~= pro + (mid + words_of(codes@)));
                mid = mid + words_of(codes@);
            }
            append_code_bytes(&mut v, &codes);
        }
        assert(code@.take(n as int) =~= code@);
        // epilogue: pop the result into x0
        let pop_result = match pop(0) {
            Ok(c) => c,
            Err(e) => return Err(e),
        };
        let epilogue = match clear_frame(self.registers.as_slice(), self.locals.as_slice()) {
            Ok(c) => c,
            Err(e) => return Err(e),
        };
        let ret_code = ret();
        let ghost before = pro + mid;
        let tail = vec![pop_result];
        append_code_bytes(&mut v, &tail);
        append_code_bytes(&mut v, &epilogue);
        let last = vec![ret_code];
        append_code_bytes(&mut v, &last);
        proof {
            let epi = words_of(epilogue@);
            assert(words_of(tail@) =~= seq![pop_word(0)]);
            assert(words_of(last@) =~= seq![ret_word()]);
            lemma_words_bytes_concat(before, seq![pop_word(0)]);
            lemma_words_bytes_concat(before + seq![pop_word(0)], epi);
            lemma_words_bytes_concat(before + seq![pop_word(0)] + epi, seq![ret_word()]);
        }
        Ok(v)
    }

    /// Records the stack effect of `inst` on the innermost block.
    fn update_stack(&mut self, inst: &Instr) -> (r: Result<(), Error>)
        requires
            stack_effect(*inst) matches Some(c) ==> increment_defined(old(self)@.block_stack, c),
        ensures
            final(self)@.registers == old(self)@.registers,
            final(self)@.locals == old(self)@.locals,
            final(self)@.body == old(self)@.body,
            match stack_effect(*inst) {
                None => r == Err::<(), Error>(Error::NotImplemented("update_stack", None))
                    && final(self)@.block_stack == old(self)@.block_stack,
                Some(c) => match increment_spec(old(self)@.block_stack, c) {
                    Ok(s) => r is Ok && final(self)@.block_stack == s,
                    Err(e) => r == Err::<(), Error>(e) && final(self)@.block_stack == old(self)@.block_stack,
                },
            },
    {
        let count: isize = match inst {
            Instr::I32Add => -2,
            Instr::SetLocal(_) => -1,
            Instr::End => 0,
            Instr::I32Const(_) | Instr::GetLocal(_) => 1,
            Instr::Other(_) => return Err(Error::NotImplemented("update_stack", None)),
        };
        self.increment_stack(count)
    }

    /// Changes the recorded depth of the innermost block by `count`.
    fn increment_stack(&mut self, count: isize) -> (r: Result<(), Error>)
        requires
            increment_defined(old(self)@.block_stack, count),
        ensures
            final(self)@.registers == old(self)@.registers,
            final(self)@.locals == old(self)@.locals,
            final(self)@.body == old(self)@.body,
            match increment_spec(old(self)@.block_stack, count) {
                Ok(s) => r is Ok && final(self)@.block_stack == s,
                Err(e) => r == Err::<(), Error>(e) && final(self)@.block_stack == old(self)@.block_stack,
            },
    {
        let n = self.block_stack.len();
        if n == 0 {
            return Err(Error::StackEmpty);
        }
        let p = self.block_stack[n - 1];
        if count < 0 {
            self.block_stack.set(n - 1, p + count as usize);
        } else if (p as isize) < -count {
            return Err(Error::TooLittleI32(p, count as i32));
        } else {
            self.block_stack.set(n - 1, p - count as usize);
        }
        Ok(())
    }
}

} // verus!
