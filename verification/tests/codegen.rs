use compile::codegen::aarch64::native::{
    add_imm, add_reg, load, mov_reg, mov_reg_sp, mov_val, pop, push, ret, store, sub_imm,
    local_offset, local_size_aligned,
};
use compile::codegen::aarch64::reg;
use compile::codegen::aarch64::{
    clear_frame, create_frame, frame_registers, load_registers, locals_count, save_registers,
    setup_locals, wasm2bin, Code, Generator,
};
use compile::err::Error;
use compile::wasm::{FunctionBody, Instr, Local};

fn to_le_code(bytes: &[u32]) -> Vec<Code> {
    bytes.iter().map(|x| (*x).into()).collect()
}

fn test_locals() -> Vec<Local> {
    vec![Local::new(2)]
}

#[test]
fn check_create_frame() {
    let expect_bytes = [
        0xf81f8ffeu32,
        0xf81f8ffd,
        0xf81f8fea,
        0xf81f8fe9,
        0xd10043ff,
        0x910003fd,
        0xf90003bf,
        0xf90007bf,
    ];
    let expect = to_le_code(&expect_bytes);
    let registers = &[9, 10];
    let locals = test_locals();
    let result = create_frame(registers, &locals).expect("failed to generate");

    assert_eq!(result, expect);
}

#[test]
fn check_clear_frame() {
    let expect_bytes = [0x910043ffu32, 0xf84087e9, 0xf84087ea, 0xf84087fd, 0xf84087fe];
    let expect = to_le_code(&expect_bytes);

    let registers = &[9, 10];
    let locals = test_locals();
    let result = clear_frame(registers, &locals).expect("failed to generate");

    assert_eq!(result, expect);
}

#[test]
fn i32_const() {
    // i32.const 10
    // push(r0)
    let inst = Instr::I32Const(10);
    let expect = {
        let mov10 = 0xd2800149u32.to_le_bytes();
        let push10 = 0xf81f8fe9u32.to_le_bytes();
        vec![mov10, push10]
    };
    let result = wasm2bin(&inst).expect("failed to convert");
    assert_eq!(result, expect);
}

#[test]
fn i32_const_failes_larger_int() {
    // arm can't mov x if x > 2^12
    let num = 123456;
    let inst = Instr::I32Const(num);
    let result = wasm2bin(&inst).expect_err("succeed to parse");
    match result {
        Error::TooLargeI32(n) => assert_eq!(n, num),
        _ => panic!("invalid error"),
    }
}

#[test]
fn i32_add() {
    // i32.add 10 20
    // r0 = r1 + r2
    let inst = Instr::I32Add;
    let expect = {
        let pop_n = 0xf84087e9u32.to_le_bytes();
        let pop_m = 0xf84087eau32.to_le_bytes();
        let add10_20 = 0x8b0a0129u32.to_le_bytes();
        let push_res = 0xf81f8fe9u32.to_le_bytes();

        vec![pop_n, pop_m, add10_20, push_res]
    };
    let result = wasm2bin(&inst).expect("failed to convert");
    assert_eq!(result, expect);
}

#[test]
fn get_and_set_local_use_frame_slots() {
    let get = wasm2bin(&Instr::GetLocal(2)).expect("failed to convert");
    assert_eq!(get, vec![0xf9400ba9u32.to_le_bytes(), 0xf81f8fe9u32.to_le_bytes()]);
    let set = wasm2bin(&Instr::SetLocal(2)).expect("failed to convert");
    assert_eq!(set, vec![0xf84087e9u32.to_le_bytes(), 0xf9000ba9u32.to_le_bytes()]);
    let end = wasm2bin(&Instr::End).expect("failed to convert");
    assert!(end.is_empty());
}

#[test]
fn unknown_instruction_is_not_implemented() {
    let result = wasm2bin(&Instr::Other(String::from("I32Sub"))).expect_err("translated");
    match result {
        Error::NotImplemented(what, Some(detail)) => {
            assert_eq!(what, "instruction");
            assert_eq!(detail, "I32Sub");
        }
        _ => panic!("invalid error"),
    }
}

#[test]
fn frame_registers_order() {
    assert_eq!(frame_registers(&[9, 10], false), vec![30, 29, 10, 9]);
    assert_eq!(frame_registers(&[9, 10], true), vec![9, 10, 29, 30]);
    // equal neighbours collapse, others stay
    assert_eq!(frame_registers(&[9, 9, 10], false), vec![30, 29, 10, 9]);
    assert_eq!(frame_registers(&[9, 10, 9], false), vec![30, 29, 10, 9, 9]);
    assert_eq!(frame_registers(&[30, 3], true), vec![3, 29, 30]);
}

#[test]
fn restore_order_reverses_save_order() {
    let regs = [4u8, 17, 9, 2];
    let mut saved = frame_registers(&regs, false);
    saved.reverse();
    assert_eq!(saved, frame_registers(&regs, true));
}

#[test]
fn invalid_register_in_frame() {
    match save_registers(&[9, 40, 33]).expect_err("saved") {
        Error::InvalidRegister(r) => assert_eq!(r, 40),
        _ => panic!("invalid error"),
    }
    match load_registers(&[9, 40, 33]).expect_err("loaded") {
        Error::InvalidRegister(r) => assert_eq!(r, 33),
        _ => panic!("invalid error"),
    }
}

#[test]
fn locals_and_frame_size() {
    let locals = vec![Local::new(3), Local::new(0), Local::new(14)];
    assert_eq!(locals_count(&locals), 17);
    assert_eq!(local_size_aligned(0), 16);
    assert_eq!(local_size_aligned(15), 16);
    assert_eq!(local_size_aligned(16), 32);
    assert_eq!(local_offset(3), 24);
    let setup = setup_locals(&locals).expect("failed to generate");
    // sub, mov, then one store per local
    assert_eq!(setup.len(), 2 + 17);
    assert_eq!(setup[0], 0xd10043ffu32.to_le_bytes());
    assert_eq!(setup[18], 0xf90043bfu32.to_le_bytes());
    let clear = clear_frame(&[], &locals).expect("failed to generate");
    // the epilogue frees 32 bytes: 17 locals fall into the second block of 16
    assert_eq!(clear[0], 0x910083ffu32.to_le_bytes());
}

#[test]
fn too_many_local_runs() {
    let locals: Vec<Local> = (0..8176).map(|_| Local::new(0)).collect();
    match setup_locals(&locals).expect_err("reserved") {
        Error::TooLargeI32(n) => assert_eq!(n, 8192),
        _ => panic!("invalid error"),
    }
}

fn sample_body() -> FunctionBody {
    FunctionBody::new(
        test_locals(),
        vec![
            Instr::I32Const(10),
            Instr::SetLocal(0),
            Instr::GetLocal(0),
            Instr::I32Const(20),
            Instr::I32Add,
            Instr::End,
        ],
    )
}

#[test]
fn generate_function() {
    let words: [u32; 26] = [
        0xf81f8ffe, 0xf81f8ffd, 0xf81f8fea, 0xf81f8fe9, 0xd10043ff, 0x910003fd, 0xf90003bf,
        0xf90007bf, // prologue
        0xd2800149, 0xf81f8fe9, // i32.const 10
        0xf84087e9, 0xf90003a9, // set_local 0
        0xf94003a9, 0xf81f8fe9, // get_local 0
        0xd2800289, 0xf81f8fe9, // i32.const 20
        0xf84087e9, 0xf84087ea, 0x8b0a0129, 0xf81f8fe9, // i32.add
        0xf84087e0, // pop x0
        0x910043ff, 0xf84087e9, 0xf84087ea, 0xf84087fd, 0xf84087fe, // epilogue
    ];
    let mut expect: Vec<u8> = words.iter().flat_map(|w| w.to_le_bytes()).collect();
    expect.extend(0xd65f03c0u32.to_le_bytes());
    let body = sample_body();
    let generator = Generator::new(&body);
    let result = generator.generate().expect("failed to generate");
    assert_eq!(result, expect);
}

#[test]
fn generate_stops_at_unknown_instruction() {
    let body = FunctionBody::new(test_locals(), vec![Instr::I32Const(1), Instr::Other(String::from("Drop"))]);
    let generator = Generator::new(&body);
    match generator.generate().expect_err("generated") {
        Error::NotImplemented(_, Some(detail)) => assert_eq!(detail, "Drop"),
        _ => panic!("invalid error"),
    }
}

#[test]
fn add_reg_correct() {
    // add x0, x1, x2
    let expect = 0x8b020020u32.to_le_bytes();
    let result = add_reg(0, 1, 2).expect("failed to generate");
    assert_eq!(result, expect);
}

#[test]
fn add_imm_correct() {
    // add x0, x1, x2
    let expect = 0x91000c41u32.to_le_bytes();
    let result = add_imm(1, 2, 3).expect("failed to generate");
    assert_eq!(result, expect);
}

#[test]
fn sub_imm_correct() {
    // add x0, x1, x2
    let expect = 0xd1000c41u32.to_le_bytes();
    let result = sub_imm(1, 2, 3).expect("failed to generate");
    assert_eq!(result, expect);
}

#[test]
fn push_correct() {
    // push x0
    let expect = 0xf81f8fe1u32.to_le_bytes();
    let result = push(1).expect("failed to generate");
    assert_eq!(result, expect);
}

#[test]
fn pop_correct() {
    // pop x0
    let expect = 0xf84087e0u32.to_le_bytes();
    let result = pop(0).expect("failed to generate");
    assert_eq!(result, expect);
}

#[test]
fn store_correct() {
    // str x1, [x2, #16]
    let expect = 0xf9000841u32.to_le_bytes();
    let result = store(1, 2, 16).expect("failed to generate");
    assert_eq!(result, expect);
}

#[test]
fn load_correct() {
    // load x1, [x2, #16]
    let expect = 0xf9400841u32.to_le_bytes();
    let result = load(1, 2, 16).expect("failed to generate");
    assert_eq!(result, expect);
}

#[test]
fn mov_val_correct() {
    // mov x0, #10
    let expect = 0xd2800140u32.to_le_bytes();
    let result = mov_val(0, 10).expect("failed to generate");
    assert_eq!(result, expect);
}

#[test]
fn mov_reg_correct() {
    // mov x1, x2
    let expect = 0xaa0203e1u32.to_le_bytes();
    let result = mov_reg(1, 2).expect("failed to generate");
    assert_eq!(result, expect);
}

#[test]
fn mov_reg_sp_correct() {
    // mov x1, x2
    let expect = 0x910003e1u32.to_le_bytes();
    let result = mov_reg(1, reg::SP).expect("failed to generate");
    assert_eq!(result, expect);
}

#[test]
fn mov_reg_sp_encodes_add() {
    assert_eq!(mov_reg_sp(reg::FP, reg::SP).expect("failed"), 0x910003fdu32.to_le_bytes());
    assert_eq!(ret(), 0xd65f03c0u32.to_le_bytes());
}

#[test]
fn encoder_errors() {
    assert!(matches!(push(32), Err(Error::InvalidRegister(32))));
    assert!(matches!(pop(255), Err(Error::InvalidRegister(255))));
    assert!(matches!(add_reg(1, 2, 40), Err(Error::InvalidRegister(40))));
    assert!(matches!(mov_val(0, 0x8000), Err(Error::TooLargeI32(0x8000))));
    assert!(matches!(mov_val(0, 0x7fff), Ok(_)));
    assert!(matches!(sub_imm(1, 2, 0x2000), Err(Error::TooLargeI32(0x2000))));
    assert!(matches!(store(1, 2, 12), Err(Error::InvalidOffsetAlignment(12, 8))));
    assert!(matches!(load(1, 2, 4), Err(Error::InvalidOffsetAlignment(4, 8))));
    assert!(matches!(load(1, 33, 4), Err(Error::InvalidRegister(33))));
}

#[test]
fn code_bytes_are_little_endian() {
    let c: Code = 0x11223344u32.into();
    assert_eq!(c.bytes(), [0x44, 0x33, 0x22, 0x11]);
    assert_eq!(c.word(), 0x11223344);
    assert_eq!(Code::from_word(0x11223344), c);
}
