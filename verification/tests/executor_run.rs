use polkavm_common::program::{Instruction, InstructionSetKind};
use polkavm_common::program::Reg::{A0, A1, A2, RA, S0, SP};
use polkavm_common::writer::ProgramBlobBuilder;
use pvm::executor::{finish_call, ExecOutcome, ModuleError, PolkaVmExecutor, GAS_LIMIT};
use pvm::polkavm_api::Backend;
use pvm::syscall::{SyscallDispatchTable, SyscallId};

/// A contract whose `call` copies its call data to the stack and returns it with `flags`.
fn echo_contract(flags: i32) -> Vec<u8> {
    let mut builder = ProgramBlobBuilder::new(InstructionSetKind::Latest64);
    builder.set_stack_size(4096);
    builder.add_import(b"call_data_size");
    builder.add_import(b"call_data_copy");
    builder.add_import(b"seal_return");
    builder.add_export_by_basic_block(0, b"call");
    builder.set_code(
        &[
            Instruction::ecalli(0),
            Instruction::move_reg(S0.into(), A0.into()),
            Instruction::add_imm_64(A0.into(), SP.into(), -64),
            Instruction::move_reg(A1.into(), S0.into()),
            Instruction::load_imm(A2.into(), 0),
            Instruction::ecalli(1),
            Instruction::load_imm(A0.into(), flags),
            Instruction::add_imm_64(A1.into(), SP.into(), -64),
            Instruction::move_reg(A2.into(), S0.into()),
            Instruction::ecalli(2),
            Instruction::trap,
        ],
        &[],
    );
    builder.into_vec().unwrap()
}

/// A contract whose `call` exports nothing but a trap.
fn trapping_contract() -> Vec<u8> {
    let mut builder = ProgramBlobBuilder::new(InstructionSetKind::Latest64);
    builder.add_export_by_basic_block(0, b"call");
    builder.set_code(&[Instruction::trap], &[]);
    builder.into_vec().unwrap()
}

/// A program with only a `main` export that returns.
fn main_only() -> Vec<u8> {
    let mut builder = ProgramBlobBuilder::new(InstructionSetKind::Latest64);
    builder.add_export_by_basic_block(0, b"main");
    builder.set_code(&[Instruction::jump_indirect(RA.into(), 0)], &[]);
    builder.into_vec().unwrap()
}

fn run_call(executor: &mut PolkaVmExecutor, blob: &[u8], calldata: &[u8]) -> Result<(i64, Vec<u8>), String> {
    let module = executor.load_module(blob).map_err(|e| format!("{:?}", e))?;
    let table = SyscallDispatchTable::from_module(&module);
    let mut instance = executor.start_call(&module, &PolkaVmExecutor::module_exports(&module)).map_err(|e| format!("{:?}", e))?;
    let outcome: ExecOutcome = loop {
        match executor.advance(&mut instance, &table, calldata).map_err(|e| format!("{:?}", e))? {
            Some(outcome) => break outcome,
            None => continue,
        }
    };
    let gas = PolkaVmExecutor::gas_left(&instance);
    finish_call(outcome, gas).map_err(|e| format!("{:?}", e))
}

#[test]
fn dispatch_table_from_module_imports() {
    let executor = PolkaVmExecutor::with_backend(Backend::Interpreter).expect("executor");
    let module = executor.load_module(&echo_contract(0)).expect("module");
    let table = SyscallDispatchTable::from_module(&module);
    assert_eq!(table.get(0), SyscallId::CallDataSize);
    assert_eq!(table.get(1), SyscallId::CallDataCopy);
    assert_eq!(table.get(2), SyscallId::SealReturn);
    assert_eq!(table.get(3), SyscallId::Unknown);
}

#[test]
fn executor_echoes_call_data() {
    let mut executor = PolkaVmExecutor::with_backend(Backend::Interpreter).expect("executor");
    let (gas_used, output) = run_call(&mut executor, &echo_contract(0), &[1, 2, 3, 4, 5]).expect("call");
    assert_eq!(output, vec![1, 2, 3, 4, 5]);
    assert!(gas_used > 0 && gas_used < GAS_LIMIT);
}

#[test]
fn executor_reports_reverts_traps_and_missing_entry() {
    let mut executor = PolkaVmExecutor::with_backend(Backend::Interpreter).expect("executor");
    let reverted = run_call(&mut executor, &echo_contract(1), &[9, 9]);
    assert_eq!(reverted, Err("Reverted { flags: 1, output_len: 2 }".to_string()));
    let trapped = run_call(&mut executor, &trapping_contract(), &[]);
    assert_eq!(trapped, Err("Trapped".to_string()));
    let missing = run_call(&mut executor, &main_only(), &[]);
    assert_eq!(missing, Err("NoCallExport".to_string()));
    assert!(executor.load_module(&[1, 2, 3]).is_err());
}

#[test]
fn executor_storage_starts_empty_and_resets() {
    let mut executor = PolkaVmExecutor::with_backend(Backend::Interpreter).expect("executor");
    assert!(!executor.storage().contains(&[0u8; 32]));
    executor.reset_storage();
    assert!(!executor.storage().contains(&[0u8; 32]));
}

#[test]
fn module_loading_reports_unparsable_bytes() {
    let executor = PolkaVmExecutor::with_backend(Backend::Interpreter).expect("executor");
    assert!(matches!(executor.load_module(&[1, 2, 3]), Err(ModuleError::Parse(_))));
    assert!(executor.load_module(&echo_contract(0)).is_ok());
}
