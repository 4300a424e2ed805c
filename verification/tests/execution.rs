use pvm::evm::{
    call_result, call_step, caller_address, contract_address, create_result, create_step, EvmError, EvmResult, RevmExecutor,
    EVM_GAS_LIMIT,
};
use pvm::executor::{find_call_entry, finish_call, CallFailure, ExecOutcome, GAS_LIMIT};

#[test]
fn finished_calls_report_gas_used() {
    match finish_call(ExecOutcome::Return { flags: 0, data: vec![1, 2] }, GAS_LIMIT - 500) {
        Ok((used, out)) => {
            assert_eq!(used, 500);
            assert_eq!(out, vec![1, 2]);
        }
        Err(e) => panic!("unexpected {:?}", e),
    }
    match finish_call(ExecOutcome::Finished, 0) {
        Ok((used, out)) => {
            assert_eq!(used, GAS_LIMIT);
            assert!(out.is_empty());
        }
        Err(e) => panic!("unexpected {:?}", e),
    }
    match finish_call(ExecOutcome::Return { flags: 2, data: vec![] }, GAS_LIMIT) {
        Ok((used, _)) => assert_eq!(used, 0),
        Err(e) => panic!("unexpected {:?}", e),
    }
}

#[test]
fn failed_calls_say_why() {
    assert!(matches!(
        finish_call(ExecOutcome::Return { flags: 1, data: vec![9; 5] }, 7),
        Err(CallFailure::Reverted { flags: 1, output_len: 5 })
    ));
    assert!(matches!(
        finish_call(ExecOutcome::Return { flags: 3, data: vec![] }, 7),
        Err(CallFailure::Reverted { flags: 3, output_len: 0 })
    ));
    assert!(matches!(finish_call(ExecOutcome::Trap, 7), Err(CallFailure::Trapped)));
    assert!(matches!(finish_call(ExecOutcome::OutOfGas, -1), Err(CallFailure::OutOfGas)));
}

#[test]
fn call_entry_is_the_first_call_export() {
    let exports = vec![(b"deploy".to_vec(), 0u32), (b"call".to_vec(), 12), (b"call".to_vec(), 40)];
    assert_eq!(find_call_entry(&exports), Some(12));
    let none = vec![(b"deploy".to_vec(), 0u32), (b"calls".to_vec(), 4)];
    assert_eq!(find_call_entry(&none), None);
    assert_eq!(find_call_entry(&vec![]), None);
}

#[test]
fn evm_call_results() {
    let ok = EvmResult::Success { gas_used: 21_000, output: vec![0x42], created: None };
    assert_eq!(call_result(ok), Ok((21_000, vec![0x42])));
    let revert = EvmResult::Revert { gas_used: 100, output: vec![1] };
    assert_eq!(call_result(revert), Err(EvmError::Reverted { gas_used: 100, output: vec![1] }));
    let halt = EvmResult::Halt { gas_used: 5, reason: "OutOfGas".to_string() };
    assert_eq!(call_result(halt), Err(EvmError::Halted { gas_used: 5, reason: "OutOfGas".to_string() }));
}

#[test]
fn evm_create_results() {
    let created = EvmResult::Success { gas_used: 1, output: vec![], created: Some([7; 20]) };
    assert_eq!(create_result(created), Ok([7; 20]));
    let missing = EvmResult::Success { gas_used: 1, output: vec![], created: None };
    assert_eq!(create_result(missing), Err(EvmError::NoCreatedAddress));
    let revert = EvmResult::Revert { gas_used: 2, output: vec![] };
    assert_eq!(create_result(revert), Err(EvmError::Reverted { gas_used: 2, output: vec![] }));
    assert_eq!(contract_address(), [0x42; 20]);
    assert_eq!(caller_address(), [0x01; 20]);
    assert_eq!(EVM_GAS_LIMIT, 300_000_000);
}

#[test]
fn evm_deploy_and_call() {
    let mut exec = RevmExecutor::new();
    // PUSH1 0x42, PUSH1 0, MSTORE, PUSH1 1, PUSH1 31, RETURN (returns 0x42)
    let bytecode = [0x60, 0x42, 0x60, 0x00, 0x52, 0x60, 0x01, 0x60, 0x1f, 0xf3];
    exec.deploy(&bytecode).unwrap();
    let (gas_used, output) = exec.call(&[]).unwrap();
    assert!(gas_used > 0);
    assert_eq!(output.as_slice(), &[0x42]);
}

#[test]
fn evm_create_then_call() {
    let mut exec = RevmExecutor::new();
    // Init code copying the 10-byte runtime above (at offset 12) and returning it.
    let mut init = vec![0x60, 0x0a, 0x60, 0x0c, 0x60, 0x00, 0x39, 0x60, 0x0a, 0x60, 0x00, 0xf3];
    init.extend_from_slice(&[0x60, 0x42, 0x60, 0x00, 0x52, 0x60, 0x01, 0x60, 0x1f, 0xf3]);
    let address = exec.deploy_create(&init).expect("create");
    assert_eq!(exec.contract_address(), address);
    assert_ne!(address, contract_address());
    // Every transaction is sent with nonce 0, so a second one from the caller is refused.
    assert!(matches!(exec.call(&[]), Err(EvmError::Transaction(_))));
    exec.reset_storage();
    assert_eq!(exec.contract_address(), address);
}

#[test]
fn evm_failed_transactions_keep_the_target() {
    let mut exec = RevmExecutor::new();
    exec.deploy(&[0x60, 0x00, 0x60, 0x00, 0xfd]).unwrap();
    assert!(matches!(exec.call(&[]), Err(EvmError::Reverted { .. })));
    assert_eq!(exec.contract_address(), contract_address());
    let mut fresh = RevmExecutor::new();
    assert!(matches!(fresh.deploy_create(&[0xfe]), Err(EvmError::Halted { .. })));
    assert_eq!(fresh.contract_address(), contract_address());
}

#[test]
fn evm_steps_pass_transaction_errors_on() {
    assert_eq!(call_step(Err("nonce".to_string())), Err(EvmError::Transaction("nonce".to_string())));
    assert_eq!(create_step(Err("nonce".to_string())), Err(EvmError::Transaction("nonce".to_string())));
    let ok = EvmResult::Success { gas_used: 3, output: vec![1], created: Some([9; 20]) };
    assert_eq!(call_step(Ok(ok.clone())), Ok((3, vec![1])));
    assert_eq!(create_step(Ok(ok)), Ok([9; 20]));
}
