use polkavm::program::{assemble, InstructionSetKind};
use polkavm::ProgramBlob;
use pvm::vm::{execute_blob, init_engine, load_and_run, load_module, run_export, VmRunner};

/// A minimal PolkaVM program that adds 666 to A0 and returns.
fn make_add_program() -> Vec<u8> {
    assemble(Some(InstructionSetKind::Latest64), "pub @main:\na0 = a0 + 666\nret\n").unwrap()
}

#[test]
fn test_init_engine() {
    let engine = init_engine().expect("engine init");
    assert!(engine.backend().to_string().len() > 0);
}

#[test]
fn test_vm_runner_new() {
    let runner = VmRunner::new().expect("VmRunner::new");
    let _ = runner;
}

#[test]
fn test_load_and_execute_bytecode() {
    let bytecode = make_add_program();
    let result = load_and_run(&bytecode).expect("load_and_run");
    assert_eq!(result, 666);
}

#[test]
fn test_run_export() {
    let bytecode = make_add_program();
    let engine = init_engine().expect("engine");
    let module = load_module(&engine, &bytecode).expect("load_module");
    let result = run_export(&module, "main", ()).expect("run_export");
    assert_eq!(result, 666);
}

#[test]
fn test_execute_blob() {
    let bytecode = make_add_program();
    let blob = ProgramBlob::parse(polkavm::ArcBytes::from(bytecode)).expect("parse blob");
    let result = execute_blob(blob).expect("execute_blob");
    assert_eq!(result, 666);
}

#[test]
fn unknown_export_is_an_error() {
    let bytecode = make_add_program();
    let runner = VmRunner::new().expect("runner");
    assert!(runner.load_and_run(&bytecode, "missing").is_err());
    assert!(runner.load(&[1, 2, 3]).is_err());
    assert!(load_and_run(&[0xff; 8]).is_err());
}
