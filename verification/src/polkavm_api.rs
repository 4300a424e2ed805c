//! The PolkaVM types the library hands around, the settings it asks engines and modules
//! for, and the calls that make engines and compile modules.

use vstd::prelude::*;

verus! {

#[verifier::external_type_specification]
#[verifier::external_body]
pub struct ExEngine(polkavm::Engine);

#[verifier::external_type_specification]
#[verifier::external_body]
pub struct ExModule(polkavm::Module);

#[verifier::external_type_specification]
#[verifier::external_body]
pub struct ExRawInstance(polkavm::RawInstance);

#[verifier::external_type_specification]
#[verifier::external_body]
pub struct ExPolkaVmError(polkavm::Error);

#[verifier::external_type_specification]
#[verifier::external_body]
pub struct ExProgramBlob(polkavm::ProgramBlob);

#[verifier::external_type_specification]
#[verifier::external_body]
pub struct ExProgramParseError(polkavm::program::ProgramParseError);

#[verifier::external_type_specification]
#[verifier::external_body]
pub struct ExCompileError(polkavm::CompileError);

/// The execution backends the library asks for.
#[derive(Clone, Copy, Debug, PartialEq, Eq)]
pub enum Backend {
    Compiler,
    Interpreter,
}

/// How an engine is asked to be configured: the backend, whether experimental features are
/// allowed, and whether security sandboxing is on.
#[derive(Clone, Copy, Debug, PartialEq, Eq)]
pub struct EngineSettings {
    pub backend: Option<Backend>,
    pub allow_experimental: bool,
    pub sandboxing_enabled: bool,
}

/// The kinds of gas metering a module can be compiled with.
#[derive(Clone, Copy, Debug, PartialEq, Eq)]
pub enum GasMetering {
    /// Execution stops as soon as the gas runs out.
    Sync,
    /// The gas left is checked periodically.
    Async,
}

/// How a module is asked to be compiled: its gas metering, if any.
#[derive(Clone, Copy, Debug, PartialEq, Eq)]
pub struct ModuleSettings {
    pub gas_metering: Option<GasMetering>,
}

/// The settings an engine was made with.
pub uninterp spec fn engine_settings(engine: polkavm::Engine) -> EngineSettings;

/// The gas metering a module was compiled with.
pub uninterp spec fn module_gas_metering(module: polkavm::Module) -> Option<GasMetering>;

/// `polkavm::Engine::new` on a `Config::new()` whose backend, experimental flag and
/// sandboxing flag are set from `settings`: the engine, made with those settings, or why
/// none could be made (the backend may be unsupported on this machine).
#[verifier::external_body]
pub(crate) fn new_engine(settings: &EngineSettings) -> (r: Result<polkavm::Engine, polkavm::Error>)
    ensures
        r matches Ok(e) ==> engine_settings(e) == *settings,
{
    let mut config = polkavm::Config::new();
    let backend = match settings.backend {
        Some(Backend::Compiler) => Some(polkavm::BackendKind::Compiler),
        Some(Backend::Interpreter) => Some(polkavm::BackendKind::Interpreter),
        None => None,
    };
    config.set_backend(backend);
    config.set_allow_experimental(settings.allow_experimental);
    config.set_sandboxing_enabled(settings.sandboxing_enabled);
    polkavm::Engine::new(&config)
}

/// Whether `polkavm::ProgramBlob::parse` accepts these bytes as a program blob; it reads
/// nothing but the bytes.
pub uninterp spec fn blob_parses(bytecode: Seq<u8>) -> bool;

/// `polkavm::ProgramBlob::parse` on a copy of `bytecode`: the parsed program, or why it is
/// not one. The contract names whether it succeeds and claims nothing of the values.
#[verifier::external_body]
pub(crate) fn parse_blob(bytecode: &[u8]) -> (r: Result<polkavm::ProgramBlob, polkavm::program::ProgramParseError>)
    ensures
        r is Ok <==> blob_parses(bytecode@),
{
    polkavm::ProgramBlob::parse(bytecode.into())
}

/// `polkavm::Module::from_blob` with a `ModuleConfig::new()` whose gas metering is set from
/// `settings`: the compiled module, which keeps that gas metering, or why compiling failed.
#[verifier::external_body]
pub(crate) fn module_from_blob(
    engine: &polkavm::Engine,
    settings: &ModuleSettings,
    blob: polkavm::ProgramBlob,
) -> (r: Result<polkavm::Module, polkavm::CompileError>)
    ensures
        r matches Ok(m) ==> module_gas_metering(m) == settings.gas_metering,
{
    let mut config = polkavm::ModuleConfig::new();
    config.set_gas_metering(match settings.gas_metering {
        Some(GasMetering::Sync) => Some(polkavm::GasMeteringKind::Sync),
        Some(GasMetering::Async) => Some(polkavm::GasMeteringKind::Async),
        None => None,
    });
    polkavm::Module::from_blob(engine, &config, blob)
}

/// `polkavm::Module::new` on a copy of `bytecode`, with a `ModuleConfig::new()` whose gas
/// metering is set from `settings`: the parsed and compiled module, which keeps that gas
/// metering, or why that failed. It parses with `ProgramBlob::parse` first, so bytes that
/// do not parse fail.
#[verifier::external_body]
pub(crate) fn module_new(
    engine: &polkavm::Engine,
    settings: &ModuleSettings,
    bytecode: &[u8],
) -> (r: Result<polkavm::Module, polkavm::CompileError>)
    ensures
        !blob_parses(bytecode@) ==> r is Err,
        r matches Ok(m) ==> module_gas_metering(m) == settings.gas_metering,
{
    let mut config = polkavm::ModuleConfig::new();
    config.set_gas_metering(match settings.gas_metering {
        Some(GasMetering::Sync) => Some(polkavm::GasMeteringKind::Sync),
        Some(GasMetering::Async) => Some(polkavm::GasMeteringKind::Async),
        None => None,
    });
    polkavm::Module::new(engine, &config, polkavm::ArcBytes::from(bytecode))
}

/// `<polkavm::Error as From<CompileError>>::from`: the compile error as a general error.
#[verifier::external_body]
pub(crate) fn compile_error_into(error: polkavm::CompileError) -> (r: polkavm::Error) {
    polkavm::Error::from(error)
}

} // verus!
