use compile::compiler;
use compile::err::Error;
use compile::ir::Module;
use compile::parse::parse;
use compile::Compiler;

/// A module with one function `() -> i32` whose body declares two i32
/// locals and computes `local0 = 10; local0 + 20`.
fn wasm_binary() -> Vec<u8> {
    vec![
        0x00, 0x61, 0x73, 0x6d, 0x01, 0x00, 0x00, 0x00, // magic, version
        0x01, 0x05, 0x01, 0x60, 0x00, 0x01, 0x7f, // type section
        0x03, 0x02, 0x01, 0x00, // function section
        0x0a, 0x0f, 0x01, 0x0d, 0x01, 0x02, 0x7f, // code section, one body, locals
        0x41, 0x0a, 0x21, 0x00, 0x20, 0x00, 0x41, 0x14, 0x6a, 0x0b, // instructions
    ]
}

#[test]
fn parse_module() {
    let wasm_binary = wasm_binary();
    let module = Module::parse(&wasm_binary[..]);

    println!("module: {:#?}", module);

    module.expect("failed to parse module");
}

#[test]
fn parsed_body_holds_locals_and_instructions() {
    let module = parse(&wasm_binary()).expect("failed to parse module");
    let text = format!("{:?}", module);
    assert!(text.contains("I32Const(10)"));
    assert!(text.contains("count: 2"));
    assert!(text.contains("GetLocal(0)"));
}

#[test]
fn garbage_is_no_module() {
    assert!(matches!(Module::parse(&[1, 2, 3]), Err(Error::Failure)));
    assert!(matches!(Compiler::parse(&[0x00, 0x61, 0x73]), Err(Error::Failure)));
    assert!(compiler::Compiler::parse(&[9, 9]).is_err());
    assert!(compiler::ir::Module::parse_buffer(&[]).is_err());
}

#[test]
fn module_generation() {
    let compiler = Compiler::parse(&wasm_binary()).expect("failed to parse");
    // translating a whole function body is not available yet
    assert!(matches!(compiler.generate(), Err(Error::Failure)));

    // a module without code section
    let empty = vec![0x00, 0x61, 0x73, 0x6d, 0x01, 0x00, 0x00, 0x00];
    let compiler = Compiler::parse(&empty).expect("failed to parse");
    assert!(matches!(compiler.generate(), Err(Error::Failure)));

    let no_bodies = Compiler::new(Module::new(Some(Vec::new())));
    assert_eq!(no_bodies.generate().expect("failed to generate"), Vec::<u8>::new());
}

#[test]
fn first_compiler_version() {
    let c = compiler::Compiler::parse(&wasm_binary()).expect("failed to parse");
    assert!(c.generate().is_empty());
    assert!(compiler::parse::parse(&wasm_binary()).is_ok());
}
