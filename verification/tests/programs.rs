use pvm::bytecode::{
    load_contract_bytecode, polkavm_bytecode_path, WarpContract, load_polkavm_bytecode, load_raw_bytecode, parse_evm_bytecode, split_evm_bytecode, LoadError, POLKAVM_BYTECODE_PATH,
};
use pvm::fibonacci::{_fibonacci, fibonacci_call, CallOutcome};
use pvm::keccak::selector;
use pvm::uart::{print_str, report_panic, start, uart_write, Uart, EXIT_SUCCESS};

fn fib_calldata(n: u32) -> Vec<u8> {
    let mut data = selector("fibonacci(uint32)").to_vec();
    data.extend_from_slice(&[0u8; 28]);
    data.extend_from_slice(&n.to_be_bytes());
    data
}

#[test]
fn fibonacci_numbers() {
    assert_eq!(_fibonacci(0), 0);
    assert_eq!(_fibonacci(1), 1);
    assert_eq!(_fibonacci(2), 1);
    assert_eq!(_fibonacci(10), 55);
    assert_eq!(_fibonacci(20), 6765);
    assert_eq!(_fibonacci(47), 2_971_215_073);
}

#[test]
fn fibonacci_contract_returns_a_word() {
    match fibonacci_call(&fib_calldata(10)) {
        CallOutcome::Return(v) => {
            let mut expected = vec![0u8; 32];
            expected[31] = 55;
            assert_eq!(v, expected);
        }
        other => panic!("unexpected {:?}", other),
    }
    match fibonacci_call(&fib_calldata(47)) {
        CallOutcome::Return(v) => assert_eq!(&v[28..], &2_971_215_073u32.to_be_bytes()),
        other => panic!("unexpected {:?}", other),
    }
}

#[test]
fn fibonacci_contract_traps_on_bad_calls() {
    assert!(matches!(fibonacci_call(&fib_calldata(48)), CallOutcome::Trap));
    assert!(matches!(fibonacci_call(&[1, 2]), CallOutcome::Trap));
    assert!(matches!(fibonacci_call(&[0xde, 0xad, 0xbe, 0xef]), CallOutcome::Trap));
    let mut wide = fib_calldata(3);
    wide[5] = 1;
    assert!(matches!(fibonacci_call(&wide), CallOutcome::Trap));
    let short = &fib_calldata(3)[..20];
    assert!(matches!(fibonacci_call(short), CallOutcome::Trap));
}

#[test]
fn hello_world_on_the_uart() {
    let mut uart = Uart::new();
    assert_eq!(start(&mut uart), EXIT_SUCCESS);
    assert_eq!(uart.transmitted, b"Hello, world!\n".to_vec());
    report_panic(&mut uart);
    assert_eq!(uart.transmitted, b"Hello, world!\nPANIC!".to_vec());
    uart_write(&mut uart, b'x');
    print_str(&mut uart, "é");
    assert_eq!(&uart.transmitted[20..], &[b'x', 0xc3, 0xa9]);
}

#[test]
fn polkavm_bytecode_loading() {
    assert_eq!(load_polkavm_bytecode(Ok(vec![1, 2, 3])), Ok(vec![1, 2, 3]));
    assert_eq!(
        load_polkavm_bytecode(Err("missing".to_string())),
        Err(LoadError::Read { path: POLKAVM_BYTECODE_PATH.to_string(), reason: "missing".to_string() })
    );
    assert_eq!(
        load_raw_bytecode("a/b.polkavm", Err("denied".to_string())),
        Err(LoadError::Read { path: "a/b.polkavm".to_string(), reason: "denied".to_string() })
    );
}

#[test]
fn evm_bytecode_splits_after_return() {
    let full = [0x60, 0x80, 0xf3, 0x60, 0x20];
    assert_eq!(split_evm_bytecode(&full), (vec![0x60, 0x80, 0xf3], vec![0x60, 0x20]));
    let doubled = [0x60, 0xf3, 0xf3, 0x5b];
    assert_eq!(split_evm_bytecode(&doubled), (vec![0x60, 0xf3, 0xf3], vec![0x5b]));
    let swap = [0x60, 0xf3, 0x90, 0x5b];
    assert_eq!(split_evm_bytecode(&swap), (vec![0x60, 0xf3, 0x90], vec![0x5b]));
    let no_return = [0x60, 0x01, 0x60];
    assert_eq!(split_evm_bytecode(&no_return), (no_return.to_vec(), vec![]));
    let return_last = [0x60, 0x01, 0xf3];
    assert_eq!(split_evm_bytecode(&return_last), (return_last.to_vec(), vec![]));
    let return_then_fe = [0xf3, 0xf3];
    assert_eq!(split_evm_bytecode(&return_then_fe), (vec![0xf3, 0xf3], vec![]));
    for code in [&full[..], &doubled[..], &swap[..], &no_return[..], &return_last[..]] {
        let (init, runtime) = split_evm_bytecode(code);
        assert_eq!([init, runtime].concat(), code.to_vec());
    }
}

#[test]
fn evm_bytecode_parses_hex_text() {
    assert_eq!(parse_evm_bytecode("  0x6080f36020\n"), Ok((vec![0x60, 0x80, 0xf3], vec![0x60, 0x20])));
    assert_eq!(parse_evm_bytecode("6080F36020"), Ok((vec![0x60, 0x80, 0xf3], vec![0x60, 0x20])));
    assert_eq!(parse_evm_bytecode(""), Ok((vec![], vec![])));
    assert_eq!(parse_evm_bytecode("0X6080"), Ok((vec![0x60, 0x80], vec![])));
    assert_eq!(parse_evm_bytecode("0x0x6080"), Ok((vec![0x60, 0x80], vec![])));
    assert!(matches!(parse_evm_bytecode("0x6"), Err(LoadError::InvalidHex(_))));
    assert!(matches!(parse_evm_bytecode("zz"), Err(LoadError::InvalidHex(_))));
    assert_eq!(parse_evm_bytecode("0x6"), Err(LoadError::InvalidHex("odd number of digits".to_string())));
}

#[test]
fn contract_blobs_are_read_by_name() {
    assert_eq!(polkavm_bytecode_path(WarpContract::Arithmetic), POLKAVM_BYTECODE_PATH);
    assert_eq!(polkavm_bytecode_path(WarpContract::Keccak256), "bytecode/polkavm/keccak256.polkavm");
    assert_eq!(load_contract_bytecode(WarpContract::Loop, Ok(vec![7])), Ok(vec![7]));
    assert_eq!(
        load_contract_bytecode(WarpContract::Storage, Err("gone".to_string())),
        Err(LoadError::Read { path: "bytecode/polkavm/storage.polkavm".to_string(), reason: "gone".to_string() })
    );
}
