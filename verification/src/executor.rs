//! Running revive-compiled contracts on PolkaVM the way pallet-revive does: a raw instance
//! driven interrupt by interrupt, each `ecalli` answered by the host's syscall handling.

use vstd::prelude::*;
use crate::byte_map::bytes_eq;
use crate::polkavm_api::{
    Backend, EngineSettings, GasMetering, ModuleSettings, new_engine, engine_settings, parse_blob, blob_parses,
    module_from_blob, module_gas_metering,
};
use crate::syscall::{
    syscalls_of,
    SyscallId, SyscallArgs, SyscallDispatchTable, SyscallResult, MemoryWrite, HostStorage,
    memory_reads, syscall_reads, reads_fit, read_views, syscall_outcome, handle_syscall_by_id,
    SyscallReply,
};

verus! {

/// Gas a contract call starts with.
pub const GAS_LIMIT: i64 = 300_000_000;

/// The import table of a module, by index: each import's symbol bytes, or `None` where the
/// table gives no symbol for the index.
pub uninterp spec fn module_imports(module: polkavm::Module) -> Seq<Option<Seq<u8>>>;

/// The bytes of a symbol read from an import table, if any.
pub open spec fn symbol_bytes(symbol: Option<Vec<u8>>) -> Option<Seq<u8>> {
    match symbol {
        Some(v) => Some(v@),
        None => None,
    }
}

/// `Imports::len` of `Module::imports`: how many imports the module declares.
#[verifier::external_body]
fn import_count(module: &polkavm::Module) -> (r: u32)
    ensures
        r as nat == module_imports(*module).len(),
{
    module.imports().len()
}

/// `Imports::get` of `Module::imports`: the symbol bytes of import `idx`, as the import
/// table holds them; `None` past its end.
#[verifier::external_body]
fn import_symbol(module: &polkavm::Module, idx: u32) -> (r: Option<Vec<u8>>)
    ensures
        symbol_bytes(r) == (if (idx as int) < module_imports(*module).len() {
            module_imports(*module)[idx as int]
        } else {
            None
        }),
{
    module.imports().get(idx).map(|symbol| symbol.as_bytes().to_vec())
}

/// `Module::exports`: each export's symbol bytes and program counter, in the module's order.
/// Nothing is claimed of them.
#[verifier::external_body]
fn export_list(module: &polkavm::Module) -> (r: Vec<(Vec<u8>, u32)>) {
    module.exports().map(|export| (export.symbol().as_bytes().to_vec(), export.program_counter().0)).collect()
}

/// `Module::instantiate`: a fresh raw instance, or why none could be made.
#[verifier::external_body]
fn instantiate(module: &polkavm::Module) -> (r: Result<polkavm::RawInstance, polkavm::Error>) {
    module.instantiate()
}

/// The gas an instance has left (`RawInstance::gas`).
pub uninterp spec fn instance_gas(instance: polkavm::RawInstance) -> i64;

/// Where an instance resumes when it next runs (`RawInstance::next_program_counter`).
pub uninterp spec fn instance_next_pc(instance: polkavm::RawInstance) -> Option<u32>;

/// `RawInstance::set_gas`: the instance then has `gas` left.
#[verifier::external_body]
fn set_gas(instance: &mut polkavm::RawInstance, gas: i64)
    ensures
        instance_gas(*final(instance)) == gas,
{
    instance.set_gas(gas)
}

/// `RawInstance::prepare_call_untyped` at program counter `pc`, with no arguments: the
/// registers are reset and the instance resumes at `pc`; its gas is not touched.
#[verifier::external_body]
fn prepare_call(instance: &mut polkavm::RawInstance, pc: u32)
    ensures
        instance_next_pc(*final(instance)) == Some(pc),
        instance_gas(*final(instance)) == instance_gas(*old(instance)),
{
    instance.prepare_call_untyped(polkavm::ProgramCounter(pc), &[])
}

/// `RawInstance::run`: resumes the guest until its next interrupt, mapped one for one to
/// `Interrupt`, or the execution error. Nothing is claimed of which comes.
#[verifier::external_body]
fn run(instance: &mut polkavm::RawInstance) -> (r: Result<Interrupt, polkavm::Error>) {
    match instance.run() {
        Ok(polkavm::InterruptKind::Finished) => Ok(Interrupt::Finished),
        Ok(polkavm::InterruptKind::Trap) => Ok(Interrupt::Trap),
        Ok(polkavm::InterruptKind::Ecalli(idx)) => Ok(Interrupt::Ecalli(idx)),
        Ok(polkavm::InterruptKind::Segfault(_)) => Ok(Interrupt::Segfault),
        Ok(polkavm::InterruptKind::NotEnoughGas) => Ok(Interrupt::NotEnoughGas),
        Ok(polkavm::InterruptKind::Step) => Ok(Interrupt::Step),
        Err(e) => Err(e),
    }
}

/// The argument registers of a syscall.
#[derive(Clone, Copy, Debug, PartialEq, Eq)]
pub enum ArgReg {
    A0,
    A1,
    A2,
}

/// `RawInstance::reg` for an argument register. Nothing is claimed of its value.
#[verifier::external_body]
fn read_reg(instance: &polkavm::RawInstance, reg: ArgReg) -> (r: u64) {
    match reg {
        ArgReg::A0 => instance.reg(polkavm::Reg::A0),
        ArgReg::A1 => instance.reg(polkavm::Reg::A1),
        ArgReg::A2 => instance.reg(polkavm::Reg::A2),
    }
}

/// `RawInstance::set_reg` of register A0.
#[verifier::external_body]
fn set_a0(instance: &mut polkavm::RawInstance, value: u64) {
    instance.set_reg(polkavm::Reg::A0, value)
}

/// `RawInstance::gas`: the gas left.
#[verifier::external_body]
fn gas_left(instance: &polkavm::RawInstance) -> (r: i64)
    ensures
        r == instance_gas(*instance),
{
    instance.gas()
}

/// `RawInstance::read_memory_into` a zeroed buffer of `length` bytes; a failed read is
/// ignored. The buffer has `length` bytes; nothing is claimed of their values.
#[verifier::external_body]
fn read_guest_memory(instance: &mut polkavm::RawInstance, address: u32, length: u32) -> (r: Vec<u8>)
    ensures
        r@.len() == length,
{
    let mut buffer = vec![0u8; length as usize];
    let _ = instance.read_memory_into(address, buffer.as_mut_slice());
    buffer
}

/// `RawInstance::write_memory`; a failed write is ignored.
#[verifier::external_body]
fn write_guest_memory(instance: &mut polkavm::RawInstance, address: u32, data: &[u8]) {
    let _ = instance.write_memory(address, data);
}

/// `RawInstance::zero_memory`; a failed write is ignored.
#[verifier::external_body]
fn zero_guest_memory(instance: &mut polkavm::RawInstance, address: u32, length: u32) {
    let _ = instance.zero_memory(address, length);
}

/// Why the guest stopped running, as `polkavm::InterruptKind` reports it.
#[derive(Clone, Copy, Debug, PartialEq, Eq)]
pub enum Interrupt {
    Finished,
    Trap,
    Ecalli(u32),
    Segfault,
    NotEnoughGas,
    Step,
}

/// How a contract call ended.
#[derive(Clone, Debug, PartialEq, Eq)]
pub enum ExecOutcome {
    /// The contract returned through `seal_return`.
    Return { flags: u32, data: Vec<u8> },
    /// The contract trapped or faulted.
    Trap,
    /// The contract ran out of gas.
    OutOfGas,
    /// The contract finished without returning.
    Finished,
}

/// Why bytecode could not be loaded as a module.
#[derive(Debug)]
pub enum ModuleError {
    /// The bytecode is not a program blob.
    Parse(polkavm::program::ProgramParseError),
    /// The program could not be compiled.
    Compile(polkavm::CompileError),
}

/// Why a contract call failed.
#[derive(Debug)]
pub enum CallFailure {
    /// The module exports no `call` entry point.
    NoCallExport,
    /// The module could not be instantiated.
    Instantiate(polkavm::Error),
    /// The guest could not be run.
    Execution(polkavm::Error),
    /// The contract returned with the revert flag set.
    Reverted { flags: u32, output_len: usize },
    /// The contract trapped.
    Trapped,
    /// The contract ran out of gas.
    OutOfGas,
}

/// The entry of a dispatch table at `idx`; `Unknown` past its end.
pub open spec fn table_entry(table: Seq<SyscallId>, idx: u32) -> SyscallId {
    if (idx as int) < table.len() {
        table[idx as int]
    } else {
        SyscallId::Unknown
    }
}

/// How a call goes on after a syscall's reply: it ends with the returned data on
/// `Terminate`, and goes on otherwise.
pub open spec fn continues_as(r: Option<ExecOutcome>, reply: SyscallReply) -> bool {
    match reply {
        SyscallReply::Terminate(flags, data) => r matches Some(ExecOutcome::Return { flags: f, data: d }) && f == flags && d@ == data,
        _ => r is None,
    }
}

/// Whether `after` and `r` are what syscall `id` gives from `before` for some register
/// arguments, guest memory read and gas left.
pub open spec fn dispatched(
    before: Map<Seq<u8>, Seq<u8>>,
    after: Map<Seq<u8>, Seq<u8>>,
    id: SyscallId,
    calldata: Seq<u8>,
    r: Option<ExecOutcome>,
) -> bool {
    exists|args: SyscallArgs, reads: Seq<Seq<u8>>, gas: i64|
        #![trigger syscall_outcome(before, id, args, calldata, reads, gas)]
        reads_fit(syscall_reads(id, args), reads)
            && after == syscall_outcome(before, id, args, calldata, reads, gas).0
            && continues_as(r, syscall_outcome(before, id, args, calldata, reads, gas).2)
}

/// Whether `after` and `r` are what syscall `id` with register arguments `args` gives from
/// `before`, for some guest memory read (one buffer per region `syscall_reads` names, of its
/// length) and gas left.
pub open spec fn dispatched_with(
    before: Map<Seq<u8>, Seq<u8>>,
    after: Map<Seq<u8>, Seq<u8>>,
    id: SyscallId,
    args: SyscallArgs,
    calldata: Seq<u8>,
    r: Option<ExecOutcome>,
) -> bool {
    exists|reads: Seq<Seq<u8>>, gas: i64|
        #![trigger syscall_outcome(before, id, args, calldata, reads, gas)]
        reads_fit(syscall_reads(id, args), reads)
            && after == syscall_outcome(before, id, args, calldata, reads, gas).0
            && continues_as(r, syscall_outcome(before, id, args, calldata, reads, gas).2)
}

/// A syscall the executor answered: which one, the register arguments it read, and the guest
/// memory regions (address, length) it read them from, in order.
#[derive(Clone, Debug, PartialEq, Eq)]
pub struct SyscallTrace {
    pub id: SyscallId,
    pub args: SyscallArgs,
    pub regions: Vec<(u32, u32)>,
}

/// Whether `after` and `r` answer `interrupt`: a finished, trapped, faulted or exhausted
/// guest ends the call accordingly with the storage kept, a step goes on with the storage
/// kept, and an `ecalli` does what the syscall the table names does.
pub open spec fn answers(
    before: Map<Seq<u8>, Seq<u8>>,
    after: Map<Seq<u8>, Seq<u8>>,
    table: Seq<SyscallId>,
    calldata: Seq<u8>,
    interrupt: Interrupt,
    r: Option<ExecOutcome>,
) -> bool {
    match interrupt {
        Interrupt::Finished => r == Some(ExecOutcome::Finished) && after == before,
        Interrupt::Trap | Interrupt::Segfault => r == Some(ExecOutcome::Trap) && after == before,
        Interrupt::NotEnoughGas => r == Some(ExecOutcome::OutOfGas) && after == before,
        Interrupt::Step => r is None && after == before,
        Interrupt::Ecalli(idx) => dispatched(before, after, table_entry(table, idx), calldata, r),
    }
}

/// The result of a call that ended with `outcome` and `gas` left: gas used and returned
/// data, or the failure. A return with the revert flag (bit 0) set is a failure.
pub fn finish_call(outcome: ExecOutcome, gas: i64) -> (r: Result<(i64, Vec<u8>), CallFailure>)
    requires
        GAS_LIMIT - gas <= i64::MAX,
    ensures
        match outcome {
            ExecOutcome::Return { flags, data } => if flags & 1 == 0 {
                r matches Ok((used, out)) && used == GAS_LIMIT - gas && out@ == data@
            } else {
                r matches Err(CallFailure::Reverted { flags: f, output_len: n }) && f == flags && n == data@.len()
            },
            ExecOutcome::Finished => r matches Ok((used, out)) && used == GAS_LIMIT - gas && out@.len() == 0,
            ExecOutcome::Trap => r matches Err(CallFailure::Trapped),
            ExecOutcome::OutOfGas => r matches Err(CallFailure::OutOfGas),
        },
{
    let gas_used = GAS_LIMIT - gas;
    match outcome {
        ExecOutcome::Return { flags, data } => {
            if flags & 1 != 0 {
                Err(CallFailure::Reverted { flags, output_len: data.len() })
            } else {
                Ok((gas_used, data))
            }
        },
        ExecOutcome::Finished => Ok((gas_used, Vec::new())),
        ExecOutcome::Trap => Err(CallFailure::Trapped),
        ExecOutcome::OutOfGas => Err(CallFailure::OutOfGas),
    }
}

/// The symbol of a contract's entry point: `call`.
pub open spec fn call_symbol() -> Seq<u8> {
    seq![0x63u8, 0x61, 0x6c, 0x6c]
}

/// The program counter of the first export named `call`.
pub open spec fn call_entry(exports: Seq<(Vec<u8>, u32)>) -> Option<u32>
    decreases exports.len(),
{
    if exports.len() == 0 {
        None
    } else if exports[0].0@ == call_symbol() {
        Some(exports[0].1)
    } else {
        call_entry(exports.drop_first())
    }
}

/// The program counter of the first export named `call`.
pub fn find_call_entry(exports: &Vec<(Vec<u8>, u32)>) -> (r: Option<u32>)
    ensures
        r == call_entry(exports@),
{
    let call: [u8; 4] = [0x63, 0x61, 0x6c, 0x6c];
    assert(call@ =~= call_symbol());
    let mut i: usize = 0;
    proof {
        assert(exports@.skip(0) =~= exports@);
    }
    while i < exports.len()
        invariant
            i <= exports@.len(),
            call@ == call_symbol(),
            call_entry(exports@) == call_entry(exports@.skip(i as int)),
        decreases exports@.len() - i,
    {
        proof {
            assert(exports@.skip(i as int).drop_first() =~= exports@.skip(i + 1));
        }
        if bytes_eq(exports[i].0.as_slice(), &call) {
            return Some(exports[i].1);
        }
        i = i + 1;
    }
    None
}

/// The symbols at the start of an import table, up to its first entry without one.
pub open spec fn leading_symbols(entries: Seq<Option<Seq<u8>>>) -> Seq<Seq<u8>>
    decreases entries.len(),
{
    if entries.len() == 0 {
        Seq::empty()
    } else {
        match entries[0] {
            Some(symbol) => seq![symbol] + leading_symbols(entries.drop_first()),
            None => Seq::empty(),
        }
    }
}

/// The bytes of each symbol read.
pub open spec fn symbol_views(symbols: Seq<Vec<u8>>) -> Seq<Seq<u8>> {
    symbols.map_values(|v: Vec<u8>| v@)
}

/// The symbols of a module's imports, in index order, up to the first index the module
/// gives no symbol for.
pub fn module_import_symbols(module: &polkavm::Module) -> (r: Vec<Vec<u8>>)
    ensures
        symbol_views(r@) == leading_symbols(module_imports(*module)),
{
    let ghost entries = module_imports(*module);
    let count = import_count(module);
    let mut symbols: Vec<Vec<u8>> = Vec::new();
    let mut idx: u32 = 0;
    proof {
        assert(entries.skip(0) =~= entries);
        assert(symbol_views(symbols@) =~= Seq::<Seq<u8>>::empty());
        assert(leading_symbols(entries) =~= symbol_views(symbols@) + leading_symbols(entries.skip(0)));
    }
    while idx < count
        invariant
            idx <= count,
            count as nat == entries.len(),
            entries == module_imports(*module),
            leading_symbols(entries) == symbol_views(symbols@) + leading_symbols(entries.skip(idx as int)),
        decreases count - idx,
    {
        let ghost rest = entries.skip(idx as int);
        proof {
            assert(rest[0] == entries[idx as int]);
            assert(rest.drop_first() =~= entries.skip(idx + 1));
        }
        match import_symbol(module, idx) {
            Some(symbol) => {
                let ghost before = symbol_views(symbols@);
                symbols.push(symbol);
                proof {
                    assert(symbol_views(symbols@) =~= before.push(symbol@));
                    assert(leading_symbols(rest) == seq![symbol@] + leading_symbols(entries.skip(idx + 1)));
                    assert(before + (seq![symbol@] + leading_symbols(entries.skip(idx + 1)))
                        =~= before.push(symbol@) + leading_symbols(entries.skip(idx + 1)));
                }
            },
            None => {
                proof {
                    assert(leading_symbols(rest) =~= Seq::<Seq<u8>>::empty());
                    assert(symbol_views(symbols@) + Seq::<Seq<u8>>::empty() =~= symbol_views(symbols@));
                }
                return symbols;
            },
        }
        idx = idx + 1;
    }
    proof {
        assert(entries.skip(idx as int).len() == 0);
        assert(symbol_views(symbols@) + leading_symbols(entries.skip(idx as int)) =~= symbol_views(symbols@));
    }
    symbols
}

impl SyscallDispatchTable {
    /// The dispatch table of a module: the syscall each of its imports names, in index
    /// order, up to the first import without a symbol.
    pub fn from_module(module: &polkavm::Module) -> (r: Self)
        ensures
            r.view() == syscalls_of(leading_symbols(module_imports(*module))),
    {
        let symbols = module_import_symbols(module);
        let r = SyscallDispatchTable::from_symbols(symbols.as_slice());
        assert(r.view() =~= syscalls_of(symbol_views(symbols@)));
        r
    }
}

/// The engine settings an executor asks for on `backend`: experimental features allowed and
/// sandboxing disabled.
pub open spec fn executor_settings(backend: Backend) -> EngineSettings {
    EngineSettings { backend: Some(backend), allow_experimental: true, sandboxing_enabled: false }
}

/// Runs revive-compiled contracts on PolkaVM, keeping contract storage across calls.
pub struct PolkaVmExecutor {
    engine: polkavm::Engine,
    storage: HostStorage,
    last_syscall: Option<SyscallTrace>,
}

impl PolkaVmExecutor {
    /// The contract storage, by key.
    pub closed spec fn storage_view(&self) -> Map<Seq<u8>, Seq<u8>> {
        self.storage.view()
    }

    /// The engine contracts run on.
    pub closed spec fn engine(&self) -> polkavm::Engine {
        self.engine
    }

    /// The settings the engine was made with.
    pub closed spec fn settings(&self) -> EngineSettings {
        engine_settings(self.engine)
    }

    /// The last syscall the executor answered, if any.
    pub closed spec fn last_syscall(&self) -> Option<SyscallTrace> {
        self.last_syscall
    }

    /// An executor on the compiler backend with experimental features allowed and sandboxing
    /// disabled, and empty storage; the engine error where the machine offers no such engine.
    pub fn new() -> (r: Result<Self, polkavm::Error>)
        ensures
            r matches Ok(e) ==> e.storage_view() == Map::<Seq<u8>, Seq<u8>>::empty()
                && e.settings() == executor_settings(Backend::Compiler),
    {
        Self::with_backend(Backend::Compiler)
    }

    /// An executor on the given backend with experimental features allowed and sandboxing
    /// disabled, and empty storage; the engine error where the machine offers no such engine.
    pub fn with_backend(backend: Backend) -> (r: Result<Self, polkavm::Error>)
        ensures
            r matches Ok(e) ==> e.storage_view() == Map::<Seq<u8>, Seq<u8>>::empty()
                && e.settings() == executor_settings(backend),
    {
        let settings = EngineSettings { backend: Some(backend), allow_experimental: true, sandboxing_enabled: false };
        match new_engine(&settings) {
            Ok(engine) => Ok(PolkaVmExecutor { engine, storage: HostStorage::new(), last_syscall: None }),
            Err(e) => Err(e),
        }
    }

    /// The contract storage.
    pub fn storage(&self) -> (r: &HostStorage)
        ensures
            r.view() == self.storage_view(),
    {
        &self.storage
    }

    /// Loads bytecode as a module with synchronous gas metering: a `Parse` failure exactly
    /// when the bytes are not a program blob, and otherwise the module or why compiling it
    /// failed. The executor is left as it was.
    pub fn load_module(&self, bytecode: &[u8]) -> (r: Result<polkavm::Module, ModuleError>)
        ensures
            !blob_parses(bytecode@) <==> r matches Err(ModuleError::Parse(_)),
            r matches Ok(m) ==> module_gas_metering(m) == Some(GasMetering::Sync),
    {
        match parse_blob(bytecode) {
            Err(e) => Err(ModuleError::Parse(e)),
            Ok(blob) => match module_from_blob(&self.engine, &Self::gas_metered_config(), blob) {
                Ok(module) => Ok(module),
                Err(e) => Err(ModuleError::Compile(e)),
            },
        }
    }

    /// The module settings contracts are compiled with: synchronous gas metering.
    fn gas_metered_config() -> (r: ModuleSettings)
        ensures
            r == (ModuleSettings { gas_metering: Some(GasMetering::Sync) }),
    {
        ModuleSettings { gas_metering: Some(GasMetering::Sync) }
    }

    /// Forgets all contract storage; the engine is kept.
    pub fn reset_storage(&mut self)
        ensures
            final(self).storage_view() == Map::<Seq<u8>, Seq<u8>>::empty(),
            final(self).engine() == old(self).engine(),
    {
        self.storage.clear();
    }

    /// The module's exports: each export's symbol bytes and program counter, in order.
    pub fn module_exports(module: &polkavm::Module) -> (r: Vec<(Vec<u8>, u32)>) {
        export_list(module)
    }

    /// An instance of the module ready to run the first `call` export of `exports` (the
    /// module's exports, as `module_exports` reads them) with `GAS_LIMIT` gas; `NoCallExport`,
    /// before anything is instantiated, exactly when `exports` has no `call`.
    pub fn start_call(&self, module: &polkavm::Module, exports: &Vec<(Vec<u8>, u32)>) -> (r: Result<polkavm::RawInstance, CallFailure>)
        ensures
            call_entry(exports@) is None <==> r matches Err(CallFailure::NoCallExport),
            r matches Err(e) ==> (e is NoCallExport || e is Instantiate),
            r matches Ok(instance) ==> instance_next_pc(instance) == call_entry(exports@)
                && instance_gas(instance) == GAS_LIMIT,
    {
        let pc = match find_call_entry(exports) {
            Some(pc) => pc,
            None => return Err(CallFailure::NoCallExport),
        };
        let mut instance = match instantiate(module) {
            Ok(instance) => instance,
            Err(e) => return Err(CallFailure::Instantiate(e)),
        };
        set_gas(&mut instance, GAS_LIMIT);
        prepare_call(&mut instance, pc);
        Ok(instance)
    }

    /// Answers an interrupt of a running call: `Some` outcome when the call has ended, `None`
    /// when the guest goes on. An `ecalli` runs the syscall the dispatch table names with
    /// the guest's registers and memory: its memory writes are made, a return value goes to
    /// register A0, and `seal_return` or `consume_all_gas` end the call.
    pub fn on_interrupt(
        &mut self,
        instance: &mut polkavm::RawInstance,
        table: &SyscallDispatchTable,
        calldata: &[u8],
        interrupt: Interrupt,
    ) -> (r: Option<ExecOutcome>)
        ensures
            answers(old(self).storage_view(), final(self).storage_view(), table.view(), calldata@, interrupt, r),
            interrupt matches Interrupt::Ecalli(idx) ==> (final(self).last_syscall() matches Some(t)
                && t.id == table_entry(table.view(), idx)
                && t.regions@ == syscall_reads(t.id, t.args)
                && dispatched_with(old(self).storage_view(), final(self).storage_view(), t.id, t.args, calldata@, r)),
            !(interrupt is Ecalli) ==> final(self).last_syscall() == old(self).last_syscall(),
    {
        match interrupt {
            Interrupt::Finished => Some(ExecOutcome::Finished),
            Interrupt::Trap | Interrupt::Segfault => Some(ExecOutcome::Trap),
            Interrupt::NotEnoughGas => Some(ExecOutcome::OutOfGas),
            Interrupt::Step => None,
            Interrupt::Ecalli(idx) => {
                let id = table.get(idx);
                let args = SyscallArgs {
                    a0: read_reg(instance, ArgReg::A0),
                    a1: read_reg(instance, ArgReg::A1),
                    a2: read_reg(instance, ArgReg::A2),
                };
                let regions = memory_reads(id, args);
                let mut reads: Vec<Vec<u8>> = Vec::new();
                let mut read_regions: Vec<(u32, u32)> = Vec::new();
                let mut i: usize = 0;
                while i < regions.len()
                    invariant
                        i <= regions@.len(),
                        reads@.len() == i,
                        read_regions@ == regions@.subrange(0, i as int),
                        forall|j: int| 0 <= j < i ==> #[trigger] reads@[j]@.len() == regions@[j].1,
                    decreases regions@.len() - i,
                {
                    let (address, length) = regions[i];
                    reads.push(read_guest_memory(instance, address, length));
                    read_regions.push((address, length));
                    proof {
                        assert(read_regions@ =~= regions@.subrange(0, i + 1));
                    }
                    i = i + 1;
                }
                proof {
                    assert(read_regions@ =~= regions@);
                }
                proof {
                    assert(read_views(reads@).len() == regions@.len());
                    assert forall|j: int| 0 <= j < read_views(reads@).len()
                        implies #[trigger] read_views(reads@)[j].len() == regions@[j].1 by {
                        assert(read_views(reads@)[j] == reads@[j]@);
                    }
                }
                let gas = gas_left(instance);
                let ghost before = self.storage.view();
                let step = handle_syscall_by_id(&mut self.storage, id, args, calldata, reads.as_slice(), gas);
                let ghost rv = read_views(reads@);
                let mut k: usize = 0;
                while k < step.writes.len()
                    decreases step.writes@.len() - k,
                {
                    match &step.writes[k] {
                        MemoryWrite::Bytes { address, data } => write_guest_memory(instance, *address, data.as_slice()),
                        MemoryWrite::Zero { address, length } => zero_guest_memory(instance, *address, *length),
                    }
                    k = k + 1;
                }
                self.last_syscall = Some(SyscallTrace { id, args, regions: read_regions });
                let r = match step.result {
                    SyscallResult::Continue => None,
                    SyscallResult::ReturnValue(value) => {
                        set_a0(instance, value);
                        None
                    },
                    SyscallResult::Terminate { flags, data } => Some(ExecOutcome::Return { flags, data }),
                };
                proof {
                    assert(reads_fit(syscall_reads(id, args), rv));
                    assert(continues_as(r, syscall_outcome(before, id, args, calldata@, rv, gas).2));
                    assert(dispatched(before, self.storage.view(), id, calldata@, r));
                    assert(dispatched_with(before, self.storage.view(), id, args, calldata@, r));
                }
                r
            },
        }
    }

    /// Runs the guest to its next interrupt and answers it, as `on_interrupt` does; the
    /// execution error when the guest cannot be run.
    pub fn advance(
        &mut self,
        instance: &mut polkavm::RawInstance,
        table: &SyscallDispatchTable,
        calldata: &[u8],
    ) -> (r: Result<Option<ExecOutcome>, CallFailure>)
        ensures
            r matches Err(e) ==> e is Execution && final(self).storage_view() == old(self).storage_view(),
            r matches Ok(o) ==> exists|interrupt: Interrupt|
                answers(old(self).storage_view(), final(self).storage_view(), table.view(), calldata@, interrupt, o),
    {
        match run(instance) {
            Err(e) => Err(CallFailure::Execution(e)),
            Ok(interrupt) => Ok(self.on_interrupt(instance, table, calldata, interrupt)),
        }
    }

    /// The gas left in a call's instance.
    pub fn gas_left(instance: &polkavm::RawInstance) -> (r: i64)
        ensures
            r == instance_gas(*instance),
    {
        gas_left(instance)
    }
}

} // verus!
