//! Calls into the interpreter.
//!
//! What the interpreter answers depends on guest code, on the supervisor and on the machine. The
//! `..may..` predicates below relate a request to the answers that the interpreter can give to it,
//! and say nothing of which of them it gives.

use crate::capabilities::SandboxCapabilities;
use crate::guest::{wasmi_value, wasmi_values, GuestAnswers, GuestExternals};
use crate::host::{ImportKind, ImportView};
use crate::imports::{wasmi_memory_import, Imports, ImportsView};
use crate::names::{lookup, qualified};
use crate::value::Value;
use vstd::prelude::*;
use wasmi::Error as WasmiError;

verus! {

#[verifier::external_type_specification]
#[verifier::external_body]
pub struct ExWasmiModule(wasmi::Module);

#[verifier::external_type_specification]
#[verifier::external_body]
pub struct ExWasmiNotStarted<'a>(wasmi::NotStartedModuleRef<'a>);

/// Whether the interpreter accepts a binary as a valid module.
pub uninterp spec fn wasmi_accepts(wasm: Seq<u8>) -> bool;

/// The binary that a module of the interpreter was loaded from.
pub uninterp spec fn wasmi_module_code(module: wasmi::Module) -> Seq<u8>;

/// The instance that a not yet started instance becomes.
pub uninterp spec fn wasmi_instance_of(not_started: wasmi::NotStartedModuleRef<'_>) -> wasmi::ModuleRef;

/// The imports that a valid module asks for, in order.
pub uninterp spec fn wasmi_module_imports(wasm: Seq<u8>) -> Seq<ImportView<()>>;

/// Whether the interpreter may answer with `instance` when it is asked to instantiate the module
/// `wasm` with the given imports. It answers with nothing if it cannot.
pub uninterp spec fn wasmi_may_link(
    wasm: Seq<u8>,
    imports: ImportsView,
    instance: Option<wasmi::ModuleRef>,
) -> bool;

/// Whether the start function of an instance may end with `started`, where the functions that it
/// imports answer as given.
pub uninterp spec fn wasmi_may_start(
    instance: wasmi::ModuleRef,
    answers: GuestAnswers,
    started: bool,
) -> bool;

/// Whether a call of an exported function may end with `reply`, where the functions that the
/// instance imports answer as given.
pub uninterp spec fn wasmi_may_return(
    instance: wasmi::ModuleRef,
    export_name: Seq<char>,
    args: Seq<Value>,
    answers: GuestAnswers,
    reply: Result<Option<Value>, WasmiError>,
) -> bool;

/// Whether an instance exports a function under a name. The exports of an instance are fixed.
pub uninterp spec fn wasmi_exports_func(instance: wasmi::ModuleRef, name: Seq<char>) -> bool;

/// Whether an instance exports a global under a name. The exports of an instance are fixed.
pub uninterp spec fn wasmi_exports_global(instance: wasmi::ModuleRef, name: Seq<char>) -> bool;

/// Whether an instance may answer with `global` when it is asked for an exported global.
pub uninterp spec fn wasmi_may_hold(
    instance: wasmi::ModuleRef,
    name: Seq<char>,
    global: Option<Value>,
) -> bool;

/// Whether an import of a module is resolved: functions and memories of the interpreter are, by
/// name, and nothing else is.
pub open spec fn wasmi_resolves(imports: ImportsView, import: ImportView<()>) -> bool {
    let name = qualified(import.module, import.name);
    match import.kind {
        ImportKind::Function(_) => lookup(imports.funcs, name) is Some,
        ImportKind::Memory => wasmi_memory_import(imports.memories, name) is Some,
        ImportKind::Global | ImportKind::Table => false,
    }
}

/// Whether every import of a module is resolved.
pub open spec fn wasmi_resolves_all(
    imports: ImportsView,
    module_imports: Seq<ImportView<()>>,
) -> bool {
    forall|i: int|
        0 <= i < module_imports.len() ==> wasmi_resolves(imports, #[trigger] module_imports[i])
}

/// A reply of the interpreter, as a number.
pub open spec fn wasmi_reply(r: Result<Option<wasmi::RuntimeValue>, WasmiError>) -> Result<
    Option<Value>,
    WasmiError,
> {
    match r {
        Ok(Some(value)) => Ok(Some(wasmi_value(value))),
        Ok(None) => Ok(None),
        Err(error) => Err(error),
    }
}

/// Calls `wasmi::Module::from_buffer`, which decodes and validates a binary. Whether it accepts
/// the binary is a function of the bytes.
#[verifier::external_body]
pub(crate) fn load_module(wasm: &[u8]) -> (r: Option<wasmi::Module>)
    ensures
        r is Some == wasmi_accepts(wasm@),
        r matches Some(module) ==> wasmi_module_code(module) == wasm@,
{
    wasmi::Module::from_buffer(wasm).ok()
}

/// Calls `wasmi::ModuleInstance::new`, which resolves the imports of a module through
/// `wasmi::ImportResolver` and initializes its memories and tables. It fails if one of the imports
/// is not resolved. Whether it succeeds otherwise depends on the contents of the imported memories
/// and on the machine.
#[verifier::external_body]
pub(crate) fn link_module<'m>(module: &'m wasmi::Module, imports: &Imports) -> (r: Option<
    wasmi::NotStartedModuleRef<'m>,
>)
    ensures
        wasmi_may_link(
            wasmi_module_code(*module),
            imports@,
            match r {
                Some(not_started) => Some(wasmi_instance_of(not_started)),
                None => None,
            },
        ),
        !wasmi_resolves_all(imports@, wasmi_module_imports(wasmi_module_code(*module))) ==> r
            is None,
{
    wasmi::ModuleInstance::new(module, imports).ok()
}

/// Calls `NotStartedModuleRef::not_started_instance` and clones the reference that it gives.
#[verifier::external_body]
pub(crate) fn not_started_instance<'m>(not_started: &wasmi::NotStartedModuleRef<'m>) -> (r:
    wasmi::ModuleRef)
    ensures
        r == wasmi_instance_of(*not_started),
{
    not_started.not_started_instance().clone()
}

/// Calls `NotStartedModuleRef::run_start`, which runs the start function of a module if it has
/// one. It does not return if guest code does not.
#[verifier::external_body]
pub(crate) fn run_start<'m, 'a, FE: SandboxCapabilities>(
    not_started: wasmi::NotStartedModuleRef<'m>,
    externals: &mut GuestExternals<'a, FE>,
) -> (r: bool)
    ensures
        wasmi_may_start(wasmi_instance_of(not_started), old(externals).answers(), r),
{
    not_started.run_start(externals).is_ok()
}

/// Calls `ModuleInstance::invoke_export`, which finds an exported function and runs it. It fails if
/// there is no such function. It does not return if guest code does not.
#[verifier::external_body]
pub(crate) fn invoke_export<'a, FE: SandboxCapabilities>(
    instance: &wasmi::ModuleRef,
    export_name: &str,
    args: &[wasmi::RuntimeValue],
    externals: &mut GuestExternals<'a, FE>,
) -> (r: Result<Option<wasmi::RuntimeValue>, WasmiError>)
    ensures
        wasmi_may_return(
            *instance,
            export_name@,
            wasmi_values(args@),
            old(externals).answers(),
            wasmi_reply(r),
        ),
        !wasmi_exports_func(*instance, export_name@) ==> r is Err,
{
    instance.invoke_export(export_name, args, externals)
}

/// Calls `ModuleInstance::export_by_name`, `ExternVal::as_global` and `GlobalInstance::get`, which
/// give the present value of an exported global.
#[verifier::external_body]
pub(crate) fn exported_global(instance: &wasmi::ModuleRef, name: &str) -> (r: Option<
    wasmi::RuntimeValue,
>)
    ensures
        wasmi_may_hold(
            *instance,
            name@,
            match r {
                Some(value) => Some(wasmi_value(value)),
                None => None,
            },
        ),
        r is Some == wasmi_exports_global(*instance, name@),
{
    Some(instance.export_by_name(name)?.as_global()?.get())
}

} // verus!
