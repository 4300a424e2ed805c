//! Running plain PolkaVM programs: an interpreter engine, modules loaded from bytecode, and
//! calls of an exported function whose result is register A0.

use vstd::prelude::*;
use crate::polkavm_api::{
    Backend, EngineSettings, ModuleSettings, new_engine, engine_settings, module_new, module_from_blob,
    module_gas_metering, compile_error_into, blob_parses,
};

verus! {

#[verifier::external_type_specification]
#[verifier::external_body]
#[verifier::reject_recursive_types(UserData)]
#[verifier::reject_recursive_types(UserError)]
pub struct ExLinker<UserData, UserError>(polkavm::Linker<UserData, UserError>);

#[verifier::external_type_specification]
#[verifier::external_body]
#[verifier::reject_recursive_types(UserData)]
#[verifier::reject_recursive_types(UserError)]
pub struct ExInstancePre<UserData, UserError>(polkavm::InstancePre<UserData, UserError>);

#[verifier::external_type_specification]
#[verifier::external_body]
#[verifier::reject_recursive_types(UserData)]
#[verifier::reject_recursive_types(UserError)]
pub struct ExInstance<UserData, UserError>(polkavm::Instance<UserData, UserError>);

#[verifier::external_type_specification]
#[verifier::external_body]
#[verifier::reject_recursive_types(UserError)]
pub struct ExCallError<UserError>(polkavm::CallError<UserError>);

/// `polkavm::Linker::new`: a linker with no host functions.
#[verifier::external_body]
fn new_linker() -> (r: polkavm::Linker) {
    polkavm::Linker::new()
}

/// `Linker::instantiate_pre`: the module prepared for instantiation, or why it cannot be.
#[verifier::external_body]
fn instantiate_pre(linker: &polkavm::Linker, module: &polkavm::Module) -> (r: Result<polkavm::InstancePre, polkavm::Error>) {
    linker.instantiate_pre(module)
}

/// `InstancePre::instantiate`: a fresh instance, or why none could be made.
#[verifier::external_body]
fn instantiate_linked(pre: &polkavm::InstancePre) -> (r: Result<polkavm::Instance, polkavm::Error>) {
    pre.instantiate()
}

/// `RawInstance::set_gas` of the instance.
#[verifier::external_body]
fn set_instance_gas(instance: &mut polkavm::Instance, gas: i64) {
    instance.set_gas(gas)
}

/// `Instance::call_typed` of the export `name` with no arguments and no user data: how the
/// call ended. Nothing is claimed of it.
#[verifier::external_body]
fn call_export(instance: &mut polkavm::Instance, name: &str) -> (r: Result<(), polkavm::CallError>) {
    instance.call_typed(&mut (), name, ())
}

/// `RawInstance::reg` of register A0. Nothing is claimed of its value.
#[verifier::external_body]
fn instance_a0(instance: &polkavm::Instance) -> (r: u64) {
    instance.reg(polkavm::Reg::A0)
}

/// `polkavm::CallError::Error`: an execution error as a call error.
#[verifier::external_body]
fn call_error(error: polkavm::Error) -> (r: polkavm::CallError) {
    polkavm::CallError::Error(error)
}

/// The engine settings programs run with: the interpreter backend, which needs no sandbox,
/// and otherwise the defaults (no experimental features, sandboxing on).
pub open spec fn interpreter_settings() -> EngineSettings {
    EngineSettings { backend: Some(Backend::Interpreter), allow_experimental: false, sandboxing_enabled: true }
}

/// The engine settings programs run with: the interpreter backend, which needs no sandbox.
fn default_config() -> (r: EngineSettings)
    ensures
        r == interpreter_settings(),
{
    EngineSettings { backend: Some(Backend::Interpreter), allow_experimental: false, sandboxing_enabled: true }
}

/// The default module settings: no gas metering.
pub open spec fn plain_module_settings() -> ModuleSettings {
    ModuleSettings { gas_metering: None }
}

/// An engine on the interpreter backend, or why none could be made.
pub fn init_engine() -> (r: Result<polkavm::Engine, polkavm::Error>)
    ensures
        r matches Ok(e) ==> engine_settings(e) == interpreter_settings(),
{
    new_engine(&default_config())
}

/// Loads bytecode as a module with the default module settings (no gas metering).
pub fn load_module(engine: &polkavm::Engine, bytecode: &[u8]) -> (r: Result<polkavm::Module, polkavm::Error>)
    ensures
        !blob_parses(bytecode@) ==> r is Err,
        r matches Ok(m) ==> module_gas_metering(m) == plain_module_settings().gas_metering,
{
    let settings = ModuleSettings { gas_metering: None };
    match module_new(engine, &settings, bytecode) {
        Ok(module) => Ok(module),
        Err(e) => Err(compile_error_into(e)),
    }
}

/// Instantiates the module, calls its export `export_name` with no arguments and all the
/// gas there is, and returns register A0: the first return register.
pub fn run_export(module: &polkavm::Module, export_name: &str, args: ()) -> (r: Result<u64, polkavm::CallError>) {
    let linker = new_linker();
    let pre = match instantiate_pre(&linker, module) {
        Ok(pre) => pre,
        Err(e) => return Err(call_error(e)),
    };
    let mut instance = match instantiate_linked(&pre) {
        Ok(instance) => instance,
        Err(e) => return Err(call_error(e)),
    };
    set_instance_gas(&mut instance, i64::MAX);
    match call_export(&mut instance, export_name) {
        Ok(()) => Ok(instance_a0(&instance)),
        Err(e) => Err(e),
    }
}

/// Initializes an engine once and runs programs on it.
pub struct VmRunner {
    engine: polkavm::Engine,
}

impl VmRunner {
    /// The settings the runner's engine was made with.
    pub closed spec fn settings(&self) -> EngineSettings {
        engine_settings(self.engine)
    }

    /// A runner on a fresh interpreter engine.
    pub fn new() -> (r: Result<Self, polkavm::Error>)
        ensures
            r matches Ok(v) ==> v.settings() == interpreter_settings(),
    {
        match init_engine() {
            Ok(engine) => Ok(VmRunner { engine }),
            Err(e) => Err(e),
        }
    }

    /// Loads bytecode as a module with the default module settings, as `load_module` does on
    /// the runner's engine.
    pub fn load(&self, bytecode: &[u8]) -> (r: Result<polkavm::Module, polkavm::Error>)
        ensures
            !blob_parses(bytecode@) ==> r is Err,
            r matches Ok(m) ==> module_gas_metering(m) == plain_module_settings().gas_metering,
    {
        load_module(&self.engine, bytecode)
    }

    /// Loads bytecode and runs its export `export_name`.
    pub fn load_and_run(&self, bytecode: &[u8], export_name: &str) -> (r: Result<u64, polkavm::CallError>)
        ensures
            !blob_parses(bytecode@) ==> r is Err,
    {
        match self.load(bytecode) {
            Ok(module) => run_export(&module, export_name, ()),
            Err(e) => Err(call_error(e)),
        }
    }
}

/// Loads bytecode on a fresh engine and runs its `main` export.
pub fn load_and_run(bytecode: &[u8]) -> (r: Result<u64, polkavm::CallError>)
    ensures
        !blob_parses(bytecode@) ==> r is Err,
{
    match VmRunner::new() {
        Ok(runner) => runner.load_and_run(bytecode, "main"),
        Err(e) => Err(call_error(e)),
    }
}

/// Runs the `main` export of a parsed program on a fresh engine; the low 32 bits of
/// register A0.
pub fn execute_blob(blob: polkavm::ProgramBlob) -> (r: Result<u32, polkavm::CallError>) {
    let engine = match init_engine() {
        Ok(engine) => engine,
        Err(e) => return Err(call_error(e)),
    };
    let module = match module_from_blob(&engine, &ModuleSettings { gas_metering: None }, blob) {
        Ok(module) => module,
        Err(e) => return Err(call_error(compile_error_into(e))),
    };
    match run_export(&module, "main", ()) {
        Ok(a0) => Ok(a0 as u32),
        Err(e) => Err(e),
    }
}

} // verus!
