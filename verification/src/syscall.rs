//! Host side of a PolkaVM contract call: the syscalls a revive-compiled contract imports,
//! the dispatch table built from a module's imports, the contract storage the host keeps,
//! and what each syscall does to that storage, to guest memory and to the call's course.

use vstd::prelude::*;
use vstd::string::StringSliceAdditionalSpecFns;
use crate::byte_map::{ByteMap, bytes_eq};
use crate::bytes::{zeros, bytes32_at};
use crate::keccak::{keccak256, keccak256_digest};

verus! {

/// The syscalls the host answers; `Unknown` for any other import.
#[derive(Clone, Copy, Debug, PartialEq, Eq)]
pub enum SyscallId {
    CallDataSize,
    CallDataLoad,
    CallDataCopy,
    SealReturn,
    ConsumeAllGas,
    ValueTransferred,
    SetImmutableData,
    GetImmutableData,
    GetStorageOrZero,
    SetStorageOrClear,
    HashKeccak256,
    Address,
    Caller,
    Balance,
    BlockNumber,
    ReturnDataSize,
    RefTimeLeft,
    Unknown,
}

/// The import symbol of a known syscall.
pub open spec fn syscall_symbol_spec(id: SyscallId) -> &'static str {
    match id {
        SyscallId::CallDataSize => "call_data_size",
        SyscallId::CallDataLoad => "call_data_load",
        SyscallId::CallDataCopy => "call_data_copy",
        SyscallId::SealReturn => "seal_return",
        SyscallId::ConsumeAllGas => "consume_all_gas",
        SyscallId::ValueTransferred => "value_transferred",
        SyscallId::SetImmutableData => "set_immutable_data",
        SyscallId::GetImmutableData => "get_immutable_data",
        SyscallId::GetStorageOrZero => "get_storage_or_zero",
        SyscallId::SetStorageOrClear => "set_storage_or_clear",
        SyscallId::HashKeccak256 => "hash_keccak_256",
        SyscallId::Address => "address",
        SyscallId::Caller => "caller",
        SyscallId::Balance => "balance",
        SyscallId::BlockNumber => "block_number",
        SyscallId::ReturnDataSize => "return_data_size",
        SyscallId::RefTimeLeft => "ref_time_left",
        SyscallId::Unknown => "",
    }
}

/// The import symbol of a known syscall (empty for `Unknown`).
pub fn syscall_symbol(id: SyscallId) -> (r: &'static str)
    ensures
        r == syscall_symbol_spec(id),
{
    match id {
        SyscallId::CallDataSize => "call_data_size",
        SyscallId::CallDataLoad => "call_data_load",
        SyscallId::CallDataCopy => "call_data_copy",
        SyscallId::SealReturn => "seal_return",
        SyscallId::ConsumeAllGas => "consume_all_gas",
        SyscallId::ValueTransferred => "value_transferred",
        SyscallId::SetImmutableData => "set_immutable_data",
        SyscallId::GetImmutableData => "get_immutable_data",
        SyscallId::GetStorageOrZero => "get_storage_or_zero",
        SyscallId::SetStorageOrClear => "set_storage_or_clear",
        SyscallId::HashKeccak256 => "hash_keccak_256",
        SyscallId::Address => "address",
        SyscallId::Caller => "caller",
        SyscallId::Balance => "balance",
        SyscallId::BlockNumber => "block_number",
        SyscallId::ReturnDataSize => "return_data_size",
        SyscallId::RefTimeLeft => "ref_time_left",
        SyscallId::Unknown => "",
    }
}

/// The known syscalls, in the order their symbols are compared.
pub open spec fn known_syscalls() -> Seq<SyscallId> {
    seq![
        SyscallId::CallDataSize, SyscallId::CallDataLoad, SyscallId::CallDataCopy,
        SyscallId::SealReturn, SyscallId::ConsumeAllGas, SyscallId::ValueTransferred,
        SyscallId::SetImmutableData, SyscallId::GetImmutableData, SyscallId::GetStorageOrZero,
        SyscallId::SetStorageOrClear, SyscallId::HashKeccak256, SyscallId::Address,
        SyscallId::Caller, SyscallId::Balance, SyscallId::BlockNumber,
        SyscallId::ReturnDataSize, SyscallId::RefTimeLeft,
    ]
}

/// The first syscall of `ids` whose symbol is `symbol`; `Unknown` when none is.
pub open spec fn first_with_symbol(symbol: Seq<u8>, ids: Seq<SyscallId>) -> SyscallId
    decreases ids.len(),
{
    if ids.len() == 0 {
        SyscallId::Unknown
    } else if symbol == syscall_symbol_spec(ids[0]).spec_bytes() {
        ids[0]
    } else {
        first_with_symbol(symbol, ids.drop_first())
    }
}

/// The syscall an import symbol names.
pub open spec fn symbol_syscall(symbol: Seq<u8>) -> SyscallId {
    first_with_symbol(symbol, known_syscalls())
}

/// The syscall each of the symbols names, in order.
pub open spec fn syscalls_of(symbols: Seq<Seq<u8>>) -> Seq<SyscallId> {
    symbols.map_values(|s: Seq<u8>| symbol_syscall(s))
}

/// The syscall an import symbol names: the known syscall with exactly that symbol,
/// else `Unknown`.
pub fn symbol_to_syscall_id(symbol: &[u8]) -> (r: SyscallId)
    ensures
        r == symbol_syscall(symbol@),
{
    let ids = [
        SyscallId::CallDataSize, SyscallId::CallDataLoad, SyscallId::CallDataCopy,
        SyscallId::SealReturn, SyscallId::ConsumeAllGas, SyscallId::ValueTransferred,
        SyscallId::SetImmutableData, SyscallId::GetImmutableData, SyscallId::GetStorageOrZero,
        SyscallId::SetStorageOrClear, SyscallId::HashKeccak256, SyscallId::Address,
        SyscallId::Caller, SyscallId::Balance, SyscallId::BlockNumber,
        SyscallId::ReturnDataSize, SyscallId::RefTimeLeft,
    ];
    proof {
        assert(ids@ =~= known_syscalls());
        assert(ids@.skip(0) =~= ids@);
    }
    let mut i: usize = 0;
    while i < 17
        invariant
            i <= 17,
            ids@ == known_syscalls(),
            symbol_syscall(symbol@) == first_with_symbol(symbol@, ids@.skip(i as int)),
        decreases 17 - i,
    {
        let id = ids[i];
        proof {
            assert(ids@.skip(i as int)[0] == id);
            assert(ids@.skip(i as int).drop_first() =~= ids@.skip(i + 1));
        }
        if bytes_eq(symbol, syscall_symbol(id).as_bytes()) {
            return id;
        }
        i = i + 1;
    }
    proof {
        assert(ids@.skip(17).len() == 0);
    }
    SyscallId::Unknown
}

/// Each known syscall is recognized by its own import symbol: the symbols differ in length,
/// first byte or eleventh byte, so the lookup finds no earlier syscall with the same symbol.
pub proof fn lemma_symbol_names_its_syscall(id: SyscallId)
    requires
        id != SyscallId::Unknown,
    ensures
        symbol_syscall(syscall_symbol_spec(id).spec_bytes()) == id,
{
    reveal_strlit("call_data_size");
    vstd::utf8::is_ascii_chars_encode_utf8("call_data_size"@);
    reveal_strlit("call_data_load");
    vstd::utf8::is_ascii_chars_encode_utf8("call_data_load"@);
    reveal_strlit("call_data_copy");
    vstd::utf8::is_ascii_chars_encode_utf8("call_data_copy"@);
    reveal_strlit("seal_return");
    vstd::utf8::is_ascii_chars_encode_utf8("seal_return"@);
    reveal_strlit("consume_all_gas");
    vstd::utf8::is_ascii_chars_encode_utf8("consume_all_gas"@);
    reveal_strlit("value_transferred");
    vstd::utf8::is_ascii_chars_encode_utf8("value_transferred"@);
    reveal_strlit("set_immutable_data");
    vstd::utf8::is_ascii_chars_encode_utf8("set_immutable_data"@);
    reveal_strlit("get_immutable_data");
    vstd::utf8::is_ascii_chars_encode_utf8("get_immutable_data"@);
    reveal_strlit("get_storage_or_zero");
    vstd::utf8::is_ascii_chars_encode_utf8("get_storage_or_zero"@);
    reveal_strlit("set_storage_or_clear");
    vstd::utf8::is_ascii_chars_encode_utf8("set_storage_or_clear"@);
    reveal_strlit("hash_keccak_256");
    vstd::utf8::is_ascii_chars_encode_utf8("hash_keccak_256"@);
    reveal_strlit("address");
    vstd::utf8::is_ascii_chars_encode_utf8("address"@);
    reveal_strlit("caller");
    vstd::utf8::is_ascii_chars_encode_utf8("caller"@);
    reveal_strlit("balance");
    vstd::utf8::is_ascii_chars_encode_utf8("balance"@);
    reveal_strlit("block_number");
    vstd::utf8::is_ascii_chars_encode_utf8("block_number"@);
    reveal_strlit("return_data_size");
    vstd::utf8::is_ascii_chars_encode_utf8("return_data_size"@);
    reveal_strlit("ref_time_left");
    vstd::utf8::is_ascii_chars_encode_utf8("ref_time_left"@);
    assert("call_data_size".spec_bytes().len() == 14 && "call_data_size".spec_bytes()[0] == 99 && "call_data_size".spec_bytes()[10] == 115);
    assert("call_data_load".spec_bytes().len() == 14 && "call_data_load".spec_bytes()[0] == 99 && "call_data_load".spec_bytes()[10] == 108);
    assert("call_data_copy".spec_bytes().len() == 14 && "call_data_copy".spec_bytes()[0] == 99 && "call_data_copy".spec_bytes()[10] == 99);
    assert("seal_return".spec_bytes().len() == 11 && "seal_return".spec_bytes()[0] == 115 && "seal_return".spec_bytes()[10] == 110);
    assert("consume_all_gas".spec_bytes().len() == 15 && "consume_all_gas".spec_bytes()[0] == 99 && "consume_all_gas".spec_bytes()[10] == 108);
    assert("value_transferred".spec_bytes().len() == 17 && "value_transferred".spec_bytes()[0] == 118 && "value_transferred".spec_bytes()[10] == 115);
    assert("set_immutable_data".spec_bytes().len() == 18 && "set_immutable_data".spec_bytes()[0] == 115 && "set_immutable_data".spec_bytes()[10] == 98);
    assert("get_immutable_data".spec_bytes().len() == 18 && "get_immutable_data".spec_bytes()[0] == 103 && "get_immutable_data".spec_bytes()[10] == 98);
    assert("get_storage_or_zero".spec_bytes().len() == 19 && "get_storage_or_zero".spec_bytes()[0] == 103 && "get_storage_or_zero".spec_bytes()[10] == 101);
    assert("set_storage_or_clear".spec_bytes().len() == 20 && "set_storage_or_clear".spec_bytes()[0] == 115 && "set_storage_or_clear".spec_bytes()[10] == 101);
    assert("hash_keccak_256".spec_bytes().len() == 15 && "hash_keccak_256".spec_bytes()[0] == 104 && "hash_keccak_256".spec_bytes()[10] == 107);
    assert("address".spec_bytes().len() == 7 && "address".spec_bytes()[0] == 97);
    assert("caller".spec_bytes().len() == 6 && "caller".spec_bytes()[0] == 99);
    assert("balance".spec_bytes().len() == 7 && "balance".spec_bytes()[0] == 98);
    assert("block_number".spec_bytes().len() == 12 && "block_number".spec_bytes()[0] == 98 && "block_number".spec_bytes()[10] == 101);
    assert("return_data_size".spec_bytes().len() == 16 && "return_data_size".spec_bytes()[0] == 114 && "return_data_size".spec_bytes()[10] == 97);
    assert("ref_time_left".spec_bytes().len() == 13 && "ref_time_left".spec_bytes()[0] == 114 && "ref_time_left".spec_bytes()[10] == 101);
    reveal_with_fuel(first_with_symbol, 18);
}

/// The syscall of each import of a module, by import index.
pub struct SyscallDispatchTable {
    table: Vec<SyscallId>,
}

impl SyscallDispatchTable {
    /// The syscall of each import, by index.
    pub closed spec fn view(&self) -> Seq<SyscallId> {
        self.table@
    }

    /// The table for a module whose imports have the given symbols, in index order.
    pub fn from_symbols(symbols: &[Vec<u8>]) -> (r: Self)
        ensures
            r.view().len() == symbols@.len(),
            forall|i: int| 0 <= i < symbols@.len() ==> r.view()[i] == symbol_syscall(#[trigger] symbols@[i]@),
    {
        let mut table: Vec<SyscallId> = Vec::new();
        let mut i: usize = 0;
        while i < symbols.len()
            invariant
                i <= symbols@.len(),
                table@.len() == i,
                forall|j: int| 0 <= j < i ==> table@[j] == symbol_syscall(#[trigger] symbols@[j]@),
            decreases symbols@.len() - i,
        {
            table.push(symbol_to_syscall_id(symbols[i].as_slice()));
            i = i + 1;
        }
        SyscallDispatchTable { table }
    }

    /// The syscall of import `idx`; `Unknown` past the last import.
    pub fn get(&self, idx: u32) -> (r: SyscallId)
        ensures
            r == (if (idx as int) < self.view().len() { self.view()[idx as int] } else { SyscallId::Unknown }),
    {
        let i = idx as usize;
        if i < self.table.len() {
            self.table[i]
        } else {
            SyscallId::Unknown
        }
    }
}

/// Whether every byte is zero.
pub open spec fn all_zero(s: Seq<u8>) -> bool {
    forall|i: int| 0 <= i < s.len() ==> s[i] == 0
}

/// The value stored under `key`; 32 zero bytes when nothing is.
pub open spec fn storage_value(st: Map<Seq<u8>, Seq<u8>>, key: Seq<u8>) -> Seq<u8> {
    if st.contains_key(key) {
        st[key]
    } else {
        zeros(32)
    }
}

/// Storage after writing `value` under `key`: an all-zero value clears the key.
pub open spec fn store_or_clear(st: Map<Seq<u8>, Seq<u8>>, key: Seq<u8>, value: Seq<u8>) -> Map<Seq<u8>, Seq<u8>> {
    if all_zero(value) {
        st.remove(key)
    } else {
        st.insert(key, value)
    }
}

/// The contract storage the host keeps across calls: 32-byte values under 32-byte keys.
pub struct HostStorage {
    slots: ByteMap<[u8; 32]>,
}

impl HostStorage {
    /// The stored values, by key.
    pub closed spec fn view(&self) -> Map<Seq<u8>, Seq<u8>> {
        self.slots.view().map_values(|v: [u8; 32]| v@)
    }

    /// Empty storage.
    pub fn new() -> (r: Self)
        ensures
            r.view() == Map::<Seq<u8>, Seq<u8>>::empty(),
    {
        let r = HostStorage { slots: ByteMap::new() };
        assert(r.view() =~= Map::<Seq<u8>, Seq<u8>>::empty());
        r
    }

    /// Forgets every stored value.
    pub fn clear(&mut self)
        ensures
            final(self).view() == Map::<Seq<u8>, Seq<u8>>::empty(),
    {
        self.slots.clear();
        assert(self.view() =~= Map::<Seq<u8>, Seq<u8>>::empty());
    }

    /// Whether a value is stored under `key`.
    pub fn contains(&self, key: &[u8]) -> (r: bool)
        ensures
            r == self.view().contains_key(key@),
    {
        self.slots.contains_key(key)
    }

    /// The value under `key`, zero when none is stored.
    pub fn load(&self, key: &[u8]) -> (r: [u8; 32])
        ensures
            r@ == storage_value(self.view(), key@),
    {
        match self.slots.get(key) {
            Some(v) => v,
            None => {
                let z = [0u8; 32];
                assert(z@ =~= zeros(32));
                z
            },
        }
    }

    /// Writes `value` under `key`, or clears `key` when `value` is all zero.
    pub fn store(&mut self, key: &[u8], value: [u8; 32])
        ensures
            final(self).view() == store_or_clear(old(self).view(), key@, value@),
    {
        let ghost before = self.view();
        let mut zero = true;
        let mut i: usize = 0;
        while i < 32
            invariant
                i <= 32,
                zero == (forall|j: int| 0 <= j < i ==> value@[j] == 0),
            decreases 32 - i,
        {
            if value[i] != 0 {
                zero = false;
            }
            i = i + 1;
        }
        if zero {
            self.slots.remove(key);
            assert(self.view() =~= before.remove(key@));
        } else {
            let k = vstd::slice::slice_to_vec(key);
            self.slots.insert(k, value);
            assert(self.view() =~= before.insert(key@, value@));
        }
    }
}

/// What a storage read gives back after a write: the value written, for a 32-byte value,
/// and every other key keeps its value.
pub proof fn lemma_storage_read_back(st: Map<Seq<u8>, Seq<u8>>, key: Seq<u8>, value: Seq<u8>, other: Seq<u8>)
    requires
        value.len() == 32,
        other != key,
    ensures
        storage_value(store_or_clear(st, key, value), key) == value,
        storage_value(store_or_clear(st, key, value), other) == storage_value(st, other),
{
    if all_zero(value) {
        assert(value =~= zeros(32));
    }
}

/// Register values a syscall reads its arguments from: A0, A1 and A2.
#[derive(Clone, Copy, Debug, PartialEq, Eq)]
pub struct SyscallArgs {
    pub a0: u64,
    pub a1: u64,
    pub a2: u64,
}

/// A write into guest memory, as a specification value.
#[verifier::ext_equal]
pub enum GuestWrite {
    Bytes(u32, Seq<u8>),
    Zero(u32, u32),
}

/// A write into guest memory the host makes for a syscall.
#[derive(Clone, Debug, PartialEq, Eq)]
pub enum MemoryWrite {
    /// `data` written at `address`.
    Bytes { address: u32, data: Vec<u8> },
    /// `length` zero bytes written at `address`.
    Zero { address: u32, length: u32 },
}

impl MemoryWrite {
    /// The write as a specification value.
    pub open spec fn view(&self) -> GuestWrite {
        match self {
            MemoryWrite::Bytes { address, data } => GuestWrite::Bytes(*address, data@),
            MemoryWrite::Zero { address, length } => GuestWrite::Zero(*address, *length),
        }
    }
}

/// Writes as specification values.
pub open spec fn write_views(ws: Seq<MemoryWrite>) -> Seq<GuestWrite> {
    ws.map_values(|w: MemoryWrite| w.view())
}

/// Byte buffers as sequences.
pub open spec fn read_views(rs: Seq<Vec<u8>>) -> Seq<Seq<u8>> {
    rs.map_values(|r: Vec<u8>| r@)
}

/// How a syscall leaves the call, as a specification value.
#[verifier::ext_equal]
pub enum SyscallReply {
    Continue,
    ReturnValue(u64),
    Terminate(u32, Seq<u8>),
}

/// How a syscall leaves the call.
#[derive(Clone, Debug, PartialEq, Eq)]
pub enum SyscallResult {
    /// The guest goes on.
    Continue,
    /// The guest goes on with this value in register A0.
    ReturnValue(u64),
    /// The call ends, returning `data` with `flags`.
    Terminate { flags: u32, data: Vec<u8> },
}

impl SyscallResult {
    /// The reply as a specification value.
    pub open spec fn view(&self) -> SyscallReply {
        match self {
            SyscallResult::Continue => SyscallReply::Continue,
            SyscallResult::ReturnValue(v) => SyscallReply::ReturnValue(*v),
            SyscallResult::Terminate { flags, data } => SyscallReply::Terminate(*flags, data@),
        }
    }
}

/// The guest memory a syscall writes, and how it leaves the call.
#[derive(Clone, Debug, PartialEq, Eq)]
pub struct SyscallStep {
    pub writes: Vec<MemoryWrite>,
    pub result: SyscallResult,
}

/// The guest memory regions (address, length) a syscall reads, in order.
pub open spec fn syscall_reads(id: SyscallId, args: SyscallArgs) -> Seq<(u32, u32)> {
    match id {
        SyscallId::SealReturn => seq![(args.a1 as u32, args.a2 as u32)],
        SyscallId::GetStorageOrZero => seq![(args.a1 as u32, 32u32)],
        SyscallId::SetStorageOrClear => seq![(args.a1 as u32, 32u32), (args.a2 as u32, 32u32)],
        SyscallId::HashKeccak256 => seq![(args.a0 as u32, args.a1 as u32)],
        _ => Seq::empty(),
    }
}

/// Whether `reads` holds one buffer of the right length for each region.
pub open spec fn reads_fit(regions: Seq<(u32, u32)>, reads: Seq<Seq<u8>>) -> bool {
    &&& reads.len() == regions.len()
    &&& forall|i: int| 0 <= i < reads.len() ==> #[trigger] reads[i].len() == regions[i].1
}

/// The 32 call-data bytes at `start` for `call_data_load`: padded with zeros past the end
/// and byte-reversed; all zero when `start` is past the end.
pub open spec fn call_data_word(calldata: Seq<u8>, start: nat) -> Seq<u8> {
    if start < calldata.len() {
        let end = if start + 32 <= calldata.len() { start + 32 } else { calldata.len() };
        let chunk = calldata.subrange(start as int, end as int);
        (chunk + zeros((32 - chunk.len()) as nat)).reverse()
    } else {
        zeros(32)
    }
}

/// Where a copy of `out_len` call-data bytes from `start` ends.
pub open spec fn copy_end(len: nat, start: nat, out_len: nat) -> nat {
    if start + out_len <= len {
        start + out_len
    } else {
        len
    }
}

/// The writes of `call_data_copy`: the call data from `start`, then zeros up to `out_len`.
pub open spec fn call_data_copy_writes(calldata: Seq<u8>, out_ptr: u32, out_len: u32, start: nat) -> Seq<GuestWrite> {
    if start >= calldata.len() {
        seq![GuestWrite::Zero(out_ptr, out_len)]
    } else {
        let end = copy_end(calldata.len(), start, out_len as nat);
        let written = (end - start) as nat;
        let copy = GuestWrite::Bytes(out_ptr, calldata.subrange(start as int, end as int));
        if written < out_len {
            seq![copy, GuestWrite::Zero(out_ptr.wrapping_add(written as u32), (out_len - written) as u32)]
        } else {
            seq![copy]
        }
    }
}

/// The block number the host reports: 1, as 32 little-endian bytes.
pub open spec fn block_one() -> Seq<u8> {
    zeros(32).update(0, 1u8)
}

/// `n` copies of `b`.
pub open spec fn filled(n: nat, b: u8) -> Seq<u8> {
    Seq::new(n, |i: int| b)
}

/// What a syscall does: the storage after it, the guest memory it writes, and how it
/// leaves the call, given the storage before, its arguments, the call data, the guest
/// memory it read (`syscall_reads`) and the gas left.
pub open spec fn syscall_outcome(
    st: Map<Seq<u8>, Seq<u8>>,
    id: SyscallId,
    args: SyscallArgs,
    calldata: Seq<u8>,
    reads: Seq<Seq<u8>>,
    gas: i64,
) -> (Map<Seq<u8>, Seq<u8>>, Seq<GuestWrite>, SyscallReply) {
    match id {
        SyscallId::CallDataSize => (st, Seq::empty(), SyscallReply::ReturnValue(calldata.len() as u64)),
        SyscallId::CallDataLoad => (
            st,
            seq![GuestWrite::Bytes(args.a0 as u32, call_data_word(calldata, (args.a1 as u32) as nat))],
            SyscallReply::Continue,
        ),
        SyscallId::CallDataCopy => (
            st,
            call_data_copy_writes(calldata, args.a0 as u32, args.a1 as u32, (args.a2 as u32) as nat),
            SyscallReply::Continue,
        ),
        SyscallId::SealReturn => (st, Seq::empty(), SyscallReply::Terminate(args.a0 as u32, reads[0])),
        SyscallId::ConsumeAllGas => (st, Seq::empty(), SyscallReply::Terminate(1, Seq::empty())),
        SyscallId::ValueTransferred => (st, seq![GuestWrite::Bytes(args.a0 as u32, zeros(32))], SyscallReply::Continue),
        SyscallId::SetImmutableData => (st, Seq::empty(), SyscallReply::Continue),
        SyscallId::GetImmutableData => (st, seq![GuestWrite::Bytes(args.a1 as u32, zeros(4))], SyscallReply::Continue),
        SyscallId::GetStorageOrZero => (
            st,
            seq![GuestWrite::Bytes(args.a2 as u32, storage_value(st, reads[0]))],
            SyscallReply::Continue,
        ),
        SyscallId::SetStorageOrClear => (
            store_or_clear(st, reads[0], reads[1]),
            Seq::empty(),
            SyscallReply::ReturnValue(if st.contains_key(reads[0]) { 32 } else { u32::MAX as u64 }),
        ),
        SyscallId::HashKeccak256 => (
            st,
            seq![GuestWrite::Bytes(args.a2 as u32, keccak256_digest(reads[0]))],
            SyscallReply::Continue,
        ),
        SyscallId::Address => (st, seq![GuestWrite::Bytes(args.a0 as u32, filled(20, 0x42))], SyscallReply::Continue),
        SyscallId::Caller => (st, seq![GuestWrite::Bytes(args.a0 as u32, filled(20, 0x01))], SyscallReply::Continue),
        SyscallId::Balance => (st, seq![GuestWrite::Bytes(args.a0 as u32, zeros(32))], SyscallReply::Continue),
        SyscallId::BlockNumber => (st, seq![GuestWrite::Bytes(args.a0 as u32, block_one())], SyscallReply::Continue),
        SyscallId::ReturnDataSize => (st, Seq::empty(), SyscallReply::ReturnValue(0)),
        SyscallId::RefTimeLeft => (st, Seq::empty(), SyscallReply::ReturnValue(gas as u64)),
        SyscallId::Unknown => (st, Seq::empty(), SyscallReply::Continue),
    }
}

/// The guest memory regions (address, length) a syscall reads, in order.
pub fn memory_reads(id: SyscallId, args: SyscallArgs) -> (r: Vec<(u32, u32)>)
    ensures
        r@ == syscall_reads(id, args),
{
    let r = match id {
        SyscallId::SealReturn => vec![(args.a1 as u32, args.a2 as u32)],
        SyscallId::GetStorageOrZero => vec![(args.a1 as u32, 32u32)],
        SyscallId::SetStorageOrClear => vec![(args.a1 as u32, 32u32), (args.a2 as u32, 32u32)],
        SyscallId::HashKeccak256 => vec![(args.a0 as u32, args.a1 as u32)],
        _ => Vec::new(),
    };
    assert(r@ =~= syscall_reads(id, args));
    r
}

/// The 32 bytes `call_data_load` writes for call data read at `offset`.
fn call_data_load_word(calldata: &[u8], offset: u32) -> (r: [u8; 32])
    ensures
        r@ == call_data_word(calldata@, offset as nat),
{
    let start = offset as usize;
    let n = calldata.len();
    if start < n {
        let end: usize = if n - start >= 32 { start + 32 } else { n };
        let ghost chunk = calldata@.subrange(start as int, end as int);
        let mut data = [0u8; 32];
        let mut i: usize = 0;
        while i < end - start
            invariant
                start < end <= n,
                end - start <= 32,
                n == calldata@.len(),
                i <= end - start,
                chunk == calldata@.subrange(start as int, end as int),
                forall|j: int| 0 <= j < i ==> data@[j] == chunk[j],
                forall|j: int| i <= j < 32 ==> data@[j] == 0,
            decreases end - start - i,
        {
            data[i] = calldata[start + i];
            i = i + 1;
        }
        let ghost padded = chunk + zeros((32 - chunk.len()) as nat);
        assert(data@ =~= padded);
        let mut out = [0u8; 32];
        let mut j: usize = 0;
        while j < 32
            invariant
                j <= 32,
                data@ == padded,
                padded.len() == 32,
                forall|k: int| 0 <= k < j ==> out@[k] == padded[31 - k],
            decreases 32 - j,
        {
            out[j] = data[31 - j];
            j = j + 1;
        }
        assert(out@ =~= padded.reverse());
        out
    } else {
        let z = [0u8; 32];
        assert(z@ =~= zeros(32));
        z
    }
}

/// The writes of `call_data_copy` for `out_len` bytes at `out_ptr` from call-data `offset`.
fn call_data_copy(calldata: &[u8], out_ptr: u32, out_len: u32, offset: u32) -> (r: Vec<MemoryWrite>)
    ensures
        write_views(r@) == call_data_copy_writes(calldata@, out_ptr, out_len, offset as nat),
{
    let start = offset as usize;
    let n = calldata.len();
    if start >= n {
        let r = vec![MemoryWrite::Zero { address: out_ptr, length: out_len }];
        assert(write_views(r@) =~= call_data_copy_writes(calldata@, out_ptr, out_len, offset as nat));
        r
    } else {
        let end: usize = if out_len as usize <= n - start { start + out_len as usize } else { n };
        let data = vstd::slice::slice_to_vec(vstd::slice::slice_subrange(calldata, start, end));
        let written = (end - start) as u32;
        let mut r = vec![MemoryWrite::Bytes { address: out_ptr, data }];
        if written < out_len {
            r.push(MemoryWrite::Zero { address: out_ptr.wrapping_add(written), length: out_len - written });
        }
        assert(write_views(r@) =~= call_data_copy_writes(calldata@, out_ptr, out_len, offset as nat));
        r
    }
}

/// A byte buffer of `n` copies of `b`.
fn filled_bytes(n: usize, b: u8) -> (r: Vec<u8>)
    ensures
        r@ == filled(n as nat, b),
{
    let mut r: Vec<u8> = Vec::new();
    let mut i: usize = 0;
    while i < n
        invariant
            i <= n,
            r@ == filled(i as nat, b),
        decreases n - i,
    {
        r.push(b);
        i = i + 1;
        assert(r@ =~= filled(i as nat, b));
    }
    r
}

/// Carries out a syscall: updates the storage and says which guest memory to write and
/// how the call goes on, given the syscall's register arguments, the call data, the guest
/// memory it reads (one buffer per region of `syscall_reads`) and the gas left.
pub fn handle_syscall_by_id(
    storage: &mut HostStorage,
    id: SyscallId,
    args: SyscallArgs,
    calldata: &[u8],
    reads: &[Vec<u8>],
    gas: i64,
) -> (r: SyscallStep)
    requires
        reads_fit(syscall_reads(id, args), read_views(reads@)),
    ensures
        final(storage).view() == syscall_outcome(old(storage).view(), id, args, calldata@, read_views(reads@), gas).0,
        write_views(r.writes@) == syscall_outcome(old(storage).view(), id, args, calldata@, read_views(reads@), gas).1,
        r.result.view() == syscall_outcome(old(storage).view(), id, args, calldata@, read_views(reads@), gas).2,
{
    let ghost st = storage.view();
    let ghost rv = read_views(reads@);
    let ghost outcome = syscall_outcome(st, id, args, calldata@, rv, gas);
    proof {
        assert(syscall_reads(id, args).len() == rv.len());
    }
    let step = match id {
        SyscallId::CallDataSize => SyscallStep {
            writes: Vec::new(),
            result: SyscallResult::ReturnValue(calldata.len() as u64),
        },
        SyscallId::CallDataLoad => {
            let word = call_data_load_word(calldata, args.a1 as u32);
            SyscallStep {
                writes: vec![MemoryWrite::Bytes { address: args.a0 as u32, data: vstd::slice::slice_to_vec(&word) }],
                result: SyscallResult::Continue,
            }
        },
        SyscallId::CallDataCopy => {
            let out_ptr = args.a0 as u32;
            let out_len = args.a1 as u32;
            let offset = args.a2 as u32;
            SyscallStep { writes: call_data_copy(calldata, out_ptr, out_len, offset), result: SyscallResult::Continue }
        },
        SyscallId::SealReturn => {
            proof {
                assert(rv[0] == reads@[0]@);
            }
            SyscallStep {
                writes: Vec::new(),
                result: SyscallResult::Terminate { flags: args.a0 as u32, data: reads[0].clone() },
            }
        },
        SyscallId::ConsumeAllGas => SyscallStep {
            writes: Vec::new(),
            result: SyscallResult::Terminate { flags: 1, data: Vec::new() },
        },
        SyscallId::ValueTransferred | SyscallId::Balance => {
            let z = [0u8; 32];
            assert(z@ =~= zeros(32));
            SyscallStep {
                writes: vec![MemoryWrite::Bytes { address: args.a0 as u32, data: vstd::slice::slice_to_vec(&z) }],
                result: SyscallResult::Continue,
            }
        },
        SyscallId::SetImmutableData | SyscallId::Unknown => SyscallStep {
            writes: Vec::new(),
            result: SyscallResult::Continue,
        },
        SyscallId::GetImmutableData => {
            let len = [0u8; 4];
            assert(len@ =~= zeros(4));
            SyscallStep {
                writes: vec![MemoryWrite::Bytes { address: args.a1 as u32, data: vstd::slice::slice_to_vec(&len) }],
                result: SyscallResult::Continue,
            }
        },
        SyscallId::GetStorageOrZero => {
            proof {
                assert(rv[0] == reads@[0]@);
            }
            let value = storage.load(reads[0].as_slice());
            SyscallStep {
                writes: vec![MemoryWrite::Bytes { address: args.a2 as u32, data: vstd::slice::slice_to_vec(&value) }],
                result: SyscallResult::Continue,
            }
        },
        SyscallId::SetStorageOrClear => {
            proof {
                assert(rv[0] == reads@[0]@);
                assert(rv[1] == reads@[1]@);
                assert(reads@[1]@.len() == 32);
            }
            let key = reads[0].as_slice();
            let value = bytes32_at(reads[1].as_slice(), 0);
            assert(value@ =~= reads@[1]@);
            let old_len: u32 = if storage.contains(key) { 32 } else { u32::MAX };
            storage.store(key, value);
            SyscallStep { writes: Vec::new(), result: SyscallResult::ReturnValue(old_len as u64) }
        },
        SyscallId::HashKeccak256 => {
            proof {
                assert(rv[0] == reads@[0]@);
            }
            let hash = keccak256(reads[0].as_slice());
            SyscallStep {
                writes: vec![MemoryWrite::Bytes { address: args.a2 as u32, data: vstd::slice::slice_to_vec(&hash) }],
                result: SyscallResult::Continue,
            }
        },
        SyscallId::Address => SyscallStep {
            writes: vec![MemoryWrite::Bytes { address: args.a0 as u32, data: filled_bytes(20, 0x42) }],
            result: SyscallResult::Continue,
        },
        SyscallId::Caller => SyscallStep {
            writes: vec![MemoryWrite::Bytes { address: args.a0 as u32, data: filled_bytes(20, 0x01) }],
            result: SyscallResult::Continue,
        },
        SyscallId::BlockNumber => {
            let mut buf = [0u8; 32];
            buf[0] = 1;
            assert(buf@ =~= block_one());
            SyscallStep {
                writes: vec![MemoryWrite::Bytes { address: args.a0 as u32, data: vstd::slice::slice_to_vec(&buf) }],
                result: SyscallResult::Continue,
            }
        },
        SyscallId::ReturnDataSize => SyscallStep { writes: Vec::new(), result: SyscallResult::ReturnValue(0) },
        SyscallId::RefTimeLeft => SyscallStep { writes: Vec::new(), result: SyscallResult::ReturnValue(gas as u64) },
    };
    assert(write_views(step.writes@) =~= outcome.1);
    step
}

/// Carries out the syscall an import symbol names, as `handle_syscall_by_id` does for
/// `symbol_to_syscall_id(symbol)`.
pub fn handle_syscall(
    storage: &mut HostStorage,
    symbol: &[u8],
    args: SyscallArgs,
    calldata: &[u8],
    reads: &[Vec<u8>],
    gas: i64,
) -> (r: SyscallStep)
    requires
        reads_fit(syscall_reads(symbol_syscall(symbol@), args), read_views(reads@)),
    ensures
        final(storage).view() == syscall_outcome(old(storage).view(), symbol_syscall(symbol@), args, calldata@, read_views(reads@), gas).0,
        write_views(r.writes@) == syscall_outcome(old(storage).view(), symbol_syscall(symbol@), args, calldata@, read_views(reads@), gas).1,
        r.result.view() == syscall_outcome(old(storage).view(), symbol_syscall(symbol@), args, calldata@, read_views(reads@), gas).2,
{
    let id = symbol_to_syscall_id(symbol);
    handle_syscall_by_id(storage, id, args, calldata, reads, gas)
}


/// One syscall as the host receives it: which one, its register arguments, the guest memory
/// it read and the gas left.
pub struct SyscallInput {
    pub id: SyscallId,
    pub args: SyscallArgs,
    pub reads: Seq<Seq<u8>>,
    pub gas: i64,
}

/// The storage after a run of syscalls of one call, in order.
pub open spec fn storage_after(st: Map<Seq<u8>, Seq<u8>>, calldata: Seq<u8>, steps: Seq<SyscallInput>) -> Map<Seq<u8>, Seq<u8>>
    decreases steps.len(),
{
    if steps.len() == 0 {
        st
    } else {
        let s = steps[0];
        storage_after(syscall_outcome(st, s.id, s.args, calldata, s.reads, s.gas).0, calldata, steps.drop_first())
    }
}

/// Whether no stored value is all zero: a zero value is never kept, it clears its key.
pub open spec fn holds_no_zero_value(st: Map<Seq<u8>, Seq<u8>>) -> bool {
    forall|k: Seq<u8>| #[trigger] st.contains_key(k) ==> !all_zero(st[k])
}

/// Over any run of syscalls, storage never comes to hold an all-zero value (empty storage,
/// as `new` and `clear` leave it, holds none), and a run without `set_storage_or_clear`
/// leaves storage as it was.
pub proof fn lemma_syscalls_keep_storage(st: Map<Seq<u8>, Seq<u8>>, calldata: Seq<u8>, steps: Seq<SyscallInput>)
    requires
        holds_no_zero_value(st),
    ensures
        holds_no_zero_value(storage_after(st, calldata, steps)),
        (forall|i: int| 0 <= i < steps.len() ==> #[trigger] steps[i].id != SyscallId::SetStorageOrClear)
            ==> storage_after(st, calldata, steps) == st,
        holds_no_zero_value(Map::<Seq<u8>, Seq<u8>>::empty()),
    decreases steps.len(),
{
    if steps.len() > 0 {
        let s = steps[0];
        let next = syscall_outcome(st, s.id, s.args, calldata, s.reads, s.gas).0;
        assert(holds_no_zero_value(next));
        lemma_syscalls_keep_storage(next, calldata, steps.drop_first());
        if forall|i: int| 0 <= i < steps.len() ==> #[trigger] steps[i].id != SyscallId::SetStorageOrClear {
            assert(steps[0].id != SyscallId::SetStorageOrClear);
            assert forall|i: int| 0 <= i < steps.drop_first().len() implies
                #[trigger] steps.drop_first()[i].id != SyscallId::SetStorageOrClear by {
                assert(steps.drop_first()[i] == steps[i + 1]);
            }
        }
    }
}

} // verus!
