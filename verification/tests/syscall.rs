use pvm::syscall::{
    handle_syscall, handle_syscall_by_id, memory_reads, symbol_to_syscall_id, syscall_symbol, HostStorage,
    MemoryWrite, SyscallArgs, SyscallDispatchTable, SyscallId, SyscallResult,
};

fn args(a0: u64, a1: u64, a2: u64) -> SyscallArgs {
    SyscallArgs { a0, a1, a2 }
}

const ALL: [SyscallId; 17] = [
    SyscallId::CallDataSize,
    SyscallId::CallDataLoad,
    SyscallId::CallDataCopy,
    SyscallId::SealReturn,
    SyscallId::ConsumeAllGas,
    SyscallId::ValueTransferred,
    SyscallId::SetImmutableData,
    SyscallId::GetImmutableData,
    SyscallId::GetStorageOrZero,
    SyscallId::SetStorageOrClear,
    SyscallId::HashKeccak256,
    SyscallId::Address,
    SyscallId::Caller,
    SyscallId::Balance,
    SyscallId::BlockNumber,
    SyscallId::ReturnDataSize,
    SyscallId::RefTimeLeft,
];

#[test]
fn symbols_name_their_syscalls() {
    assert_eq!(symbol_to_syscall_id(b"call_data_size"), SyscallId::CallDataSize);
    assert_eq!(symbol_to_syscall_id(b"seal_return"), SyscallId::SealReturn);
    assert_eq!(symbol_to_syscall_id(b"hash_keccak_256"), SyscallId::HashKeccak256);
    assert_eq!(symbol_to_syscall_id(b"ref_time_left"), SyscallId::RefTimeLeft);
    for id in ALL {
        assert_eq!(symbol_to_syscall_id(syscall_symbol(id).as_bytes()), id);
    }
}

#[test]
fn unknown_symbols_are_unknown() {
    assert_eq!(symbol_to_syscall_id(b""), SyscallId::Unknown);
    assert_eq!(symbol_to_syscall_id(b"call_data"), SyscallId::Unknown);
    assert_eq!(symbol_to_syscall_id(b"call_data_size_"), SyscallId::Unknown);
    assert_eq!(symbol_to_syscall_id(b"CALLER"), SyscallId::Unknown);
}

#[test]
fn dispatch_table_maps_import_indices() {
    let symbols = vec![b"caller".to_vec(), b"nonsense".to_vec(), b"seal_return".to_vec()];
    let table = SyscallDispatchTable::from_symbols(&symbols);
    assert_eq!(table.get(0), SyscallId::Caller);
    assert_eq!(table.get(1), SyscallId::Unknown);
    assert_eq!(table.get(2), SyscallId::SealReturn);
    assert_eq!(table.get(3), SyscallId::Unknown);
    assert_eq!(table.get(u32::MAX), SyscallId::Unknown);
}

#[test]
fn call_data_size_returns_length() {
    let mut st = HostStorage::new();
    let step = handle_syscall_by_id(&mut st, SyscallId::CallDataSize, args(0, 0, 0), &[1, 2, 3], &[], 7);
    assert_eq!(step.result, SyscallResult::ReturnValue(3));
    assert!(step.writes.is_empty());
}

#[test]
fn call_data_load_reverses_the_word() {
    let mut st = HostStorage::new();
    let calldata: Vec<u8> = (0u8..40).collect();
    let step = handle_syscall_by_id(&mut st, SyscallId::CallDataLoad, args(0x2_0000, 4, 0), &calldata, &[], 0);
    let expected: Vec<u8> = (4u8..36).rev().collect();
    assert_eq!(step.writes, vec![MemoryWrite::Bytes { address: 0x2_0000, data: expected }]);
    assert_eq!(step.result, SyscallResult::Continue);
}

#[test]
fn call_data_load_pads_short_data_before_reversing() {
    let mut st = HostStorage::new();
    let step = handle_syscall_by_id(&mut st, SyscallId::CallDataLoad, args(0x3_0000, 1, 0), &[9, 8, 7], &[], 0);
    let mut expected = vec![0u8; 32];
    expected[30] = 7;
    expected[31] = 8;
    assert_eq!(step.writes, vec![MemoryWrite::Bytes { address: 0x3_0000, data: expected }]);
}

#[test]
fn call_data_load_past_the_end_is_zero() {
    let mut st = HostStorage::new();
    let step = handle_syscall_by_id(&mut st, SyscallId::CallDataLoad, args(0x3_0000, 3, 0), &[9, 8, 7], &[], 0);
    assert_eq!(step.writes, vec![MemoryWrite::Bytes { address: 0x3_0000, data: vec![0u8; 32] }]);
}

#[test]
fn call_data_load_uses_low_32_bits_of_registers() {
    let mut st = HostStorage::new();
    let step =
        handle_syscall_by_id(&mut st, SyscallId::CallDataLoad, args(0x1_0001_0000, 0x1_0000_0000, 0), &[5], &[], 0);
    let mut expected = vec![0u8; 32];
    expected[31] = 5;
    assert_eq!(step.writes, vec![MemoryWrite::Bytes { address: 0x1_0000, data: expected }]);
}

#[test]
fn call_data_copy_copies_and_zero_fills() {
    let mut st = HostStorage::new();
    let step = handle_syscall_by_id(&mut st, SyscallId::CallDataCopy, args(0x1_0000, 10, 2), &[1, 2, 3, 4, 5], &[], 0);
    assert_eq!(
        step.writes,
        vec![
            MemoryWrite::Bytes { address: 0x1_0000, data: vec![3, 4, 5] },
            MemoryWrite::Zero { address: 0x1_0003, length: 7 },
        ]
    );
    let full = handle_syscall_by_id(&mut st, SyscallId::CallDataCopy, args(0x1_0000, 2, 1), &[1, 2, 3, 4, 5], &[], 0);
    assert_eq!(full.writes, vec![MemoryWrite::Bytes { address: 0x1_0000, data: vec![2, 3] }]);
    let past = handle_syscall_by_id(&mut st, SyscallId::CallDataCopy, args(0x1_0000, 4, 5), &[1, 2, 3, 4, 5], &[], 0);
    assert_eq!(past.writes, vec![MemoryWrite::Zero { address: 0x1_0000, length: 4 }]);
    assert_eq!(past.result, SyscallResult::Continue);
}

#[test]
fn seal_return_ends_the_call_with_the_read_data() {
    let mut st = HostStorage::new();
    let a = args(1, 0x2_0000, 3);
    assert_eq!(memory_reads(SyscallId::SealReturn, a), vec![(0x2_0000, 3)]);
    let step = handle_syscall_by_id(&mut st, SyscallId::SealReturn, a, &[], &[vec![7, 8, 9]], 0);
    assert_eq!(step.result, SyscallResult::Terminate { flags: 1, data: vec![7, 8, 9] });
    assert!(step.writes.is_empty());
}

#[test]
fn consume_all_gas_reverts_without_data() {
    let mut st = HostStorage::new();
    let step = handle_syscall_by_id(&mut st, SyscallId::ConsumeAllGas, args(5, 5, 5), &[], &[], 0);
    assert_eq!(step.result, SyscallResult::Terminate { flags: 1, data: vec![] });
}

#[test]
fn context_syscalls_write_fixed_values() {
    let mut st = HostStorage::new();
    let a = args(0x4_0000, 0x5_0000, 0);
    let value = handle_syscall_by_id(&mut st, SyscallId::ValueTransferred, a, &[], &[], 0);
    assert_eq!(value.writes, vec![MemoryWrite::Bytes { address: 0x4_0000, data: vec![0; 32] }]);
    let balance = handle_syscall_by_id(&mut st, SyscallId::Balance, a, &[], &[], 0);
    assert_eq!(balance.writes, vec![MemoryWrite::Bytes { address: 0x4_0000, data: vec![0; 32] }]);
    let address = handle_syscall_by_id(&mut st, SyscallId::Address, a, &[], &[], 0);
    assert_eq!(address.writes, vec![MemoryWrite::Bytes { address: 0x4_0000, data: vec![0x42; 20] }]);
    let caller = handle_syscall_by_id(&mut st, SyscallId::Caller, a, &[], &[], 0);
    assert_eq!(caller.writes, vec![MemoryWrite::Bytes { address: 0x4_0000, data: vec![0x01; 20] }]);
    let block = handle_syscall_by_id(&mut st, SyscallId::BlockNumber, a, &[], &[], 0);
    let mut one = vec![0u8; 32];
    one[0] = 1;
    assert_eq!(block.writes, vec![MemoryWrite::Bytes { address: 0x4_0000, data: one }]);
    let immutable = handle_syscall_by_id(&mut st, SyscallId::GetImmutableData, a, &[], &[], 0);
    assert_eq!(immutable.writes, vec![MemoryWrite::Bytes { address: 0x5_0000, data: vec![0; 4] }]);
    let set_immutable = handle_syscall_by_id(&mut st, SyscallId::SetImmutableData, a, &[], &[], 0);
    assert!(set_immutable.writes.is_empty());
    assert_eq!(set_immutable.result, SyscallResult::Continue);
}

#[test]
fn return_data_size_and_ref_time_left() {
    let mut st = HostStorage::new();
    let size = handle_syscall_by_id(&mut st, SyscallId::ReturnDataSize, args(0, 0, 0), &[1], &[], 99);
    assert_eq!(size.result, SyscallResult::ReturnValue(0));
    let left = handle_syscall_by_id(&mut st, SyscallId::RefTimeLeft, args(0, 0, 0), &[], &[], 12345);
    assert_eq!(left.result, SyscallResult::ReturnValue(12345));
}

#[test]
fn unknown_syscall_continues() {
    let mut st = HostStorage::new();
    let step = handle_syscall_by_id(&mut st, SyscallId::Unknown, args(1, 2, 3), &[1], &[], 0);
    assert!(step.writes.is_empty());
    assert_eq!(step.result, SyscallResult::Continue);
}

#[test]
fn storage_write_then_read_gives_the_value_back() {
    let mut st = HostStorage::new();
    let key = vec![0xaa; 32];
    let mut value = vec![0u8; 32];
    value[31] = 7;
    let set = handle_syscall_by_id(&mut st, SyscallId::SetStorageOrClear, args(0, 0x1_0000, 0x1_1000), &[], &[key.clone(), value.clone()], 0);
    assert_eq!(set.result, SyscallResult::ReturnValue(u32::MAX as u64));
    let get = handle_syscall_by_id(&mut st, SyscallId::GetStorageOrZero, args(0, 0x1_0000, 0x2_0000), &[], &[key.clone()], 0);
    assert_eq!(get.writes, vec![MemoryWrite::Bytes { address: 0x2_0000, data: value.clone() }]);
    let again = handle_syscall_by_id(&mut st, SyscallId::SetStorageOrClear, args(0, 0x1_0000, 0x1_1000), &[], &[key.clone(), value], 0);
    assert_eq!(again.result, SyscallResult::ReturnValue(32));
}

#[test]
fn storage_zero_write_clears_the_key() {
    let mut st = HostStorage::new();
    let key = vec![0x11; 32];
    handle_syscall_by_id(&mut st, SyscallId::SetStorageOrClear, args(0, 1, 2), &[], &[key.clone(), vec![5; 32]], 0);
    assert!(st.contains(&key));
    let cleared = handle_syscall_by_id(&mut st, SyscallId::SetStorageOrClear, args(0, 1, 2), &[], &[key.clone(), vec![0; 32]], 0);
    assert_eq!(cleared.result, SyscallResult::ReturnValue(32));
    assert!(!st.contains(&key));
    let get = handle_syscall_by_id(&mut st, SyscallId::GetStorageOrZero, args(0, 1, 0x9_0000), &[], &[key], 0);
    assert_eq!(get.writes, vec![MemoryWrite::Bytes { address: 0x9_0000, data: vec![0; 32] }]);
}

#[test]
fn storage_keys_are_independent() {
    let mut st = HostStorage::new();
    st.store(&[1u8; 32], [2u8; 32]);
    st.store(&[3u8; 32], [4u8; 32]);
    assert_eq!(st.load(&[1u8; 32]), [2u8; 32]);
    assert_eq!(st.load(&[3u8; 32]), [4u8; 32]);
    assert_eq!(st.load(&[5u8; 32]), [0u8; 32]);
    st.clear();
    assert_eq!(st.load(&[1u8; 32]), [0u8; 32]);
}

#[test]
fn keccak_syscall_writes_the_digest() {
    let mut st = HostStorage::new();
    let a = args(0x1_0000, 3, 0x2_0000);
    assert_eq!(memory_reads(SyscallId::HashKeccak256, a), vec![(0x1_0000, 3)]);
    let step = handle_syscall_by_id(&mut st, SyscallId::HashKeccak256, a, &[], &[b"abc".to_vec()], 0);
    let digest = alloy_primitives::keccak256(b"abc").0.to_vec();
    assert_eq!(step.writes, vec![MemoryWrite::Bytes { address: 0x2_0000, data: digest }]);
}

#[test]
fn memory_reads_of_storage_syscalls() {
    assert_eq!(memory_reads(SyscallId::GetStorageOrZero, args(0, 0x10, 0x20)), vec![(0x10, 32)]);
    assert_eq!(memory_reads(SyscallId::SetStorageOrClear, args(0, 0x10, 0x20)), vec![(0x10, 32), (0x20, 32)]);
    assert!(memory_reads(SyscallId::CallDataCopy, args(1, 2, 3)).is_empty());
}

#[test]
fn symbol_dispatch_matches_id_dispatch() {
    let mut by_symbol = HostStorage::new();
    let mut by_id = HostStorage::new();
    let reads = vec![vec![0x33; 32], vec![0x44; 32]];
    let a = handle_syscall(&mut by_symbol, b"set_storage_or_clear", args(0, 1, 2), &[], &reads, 0);
    let b = handle_syscall_by_id(&mut by_id, SyscallId::SetStorageOrClear, args(0, 1, 2), &[], &reads, 0);
    assert_eq!(a, b);
    assert_eq!(by_symbol.load(&[0x33; 32]), by_id.load(&[0x33; 32]));
    let unknown = handle_syscall(&mut by_symbol, b"not_a_syscall", args(0, 0, 0), &[], &[], 0);
    assert_eq!(unknown.result, SyscallResult::Continue);
}
