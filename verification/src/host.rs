//! Host functions of compiled guests.

use crate::capabilities::{SandboxCapabiliesHolder, SandboxCapabilities};
use crate::dispatch::{
    calls_between, dispatch_call, guest_run, numbers, numbers_of, DispatchError, Request,
};
use crate::environment::GuestEnvironment;
use crate::error::{InstantiationError, InvokeError};
use crate::guest::compiled_text;
use crate::imports::ImportsView;
use crate::mapping::{supervisor_func, SupervisorFuncIndex};
use crate::names::{lookup, qualified, QualifiedName};
use crate::state::StateCell;
use crate::value::{EngineValue, Value};
use vstd::prelude::*;

verus! {

/// What a module imports: a function of a given type, or something else.
pub enum ImportKind<FT> {
    /// A function.
    Function(FT),
    /// A memory.
    Memory,
    /// A global.
    Global,
    /// A table.
    Table,
}

/// An import that a module asks for. `FT` is the engine's type of function types.
pub struct Import<FT> {
    /// The name of the module that the import comes from.
    pub module: String,
    /// The name of the import in that module.
    pub name: String,
    /// What is imported.
    pub kind: ImportKind<FT>,
}

/// An import that a module asks for, with its names as sequences.
pub struct ImportView<FT> {
    pub module: Seq<char>,
    pub name: Seq<char>,
    pub kind: ImportKind<FT>,
}

impl<FT> View for Import<FT> {
    type V = ImportView<FT>;

    open spec fn view(&self) -> ImportView<FT> {
        ImportView { module: self.module@, name: self.name@, kind: self.kind }
    }
}

/// The imports of a list, with their names as sequences.
pub open spec fn import_views<FT>(imports: Seq<Import<FT>>) -> Seq<ImportView<FT>> {
    imports.map_values(|import: Import<FT>| import@)
}

/// What a call of a host function is for: the supervisor function that it calls, and the opaque
/// context of the call.
#[derive(Copy, Clone, Debug, PartialEq, Eq, Structural)]
pub struct HostFunc {
    pub func_idx: SupervisorFuncIndex,
    pub state: u32,
}

/// Whether a supervisor went from `before` to `after` by the calls that serve `request`, where the
/// guest gets `outcome` in the end.
pub open spec fn served<FR, FE: SandboxCapabilities<SupervisorFuncRef = FR>>(
    request: Request<FR>,
    before: FE,
    after: FE,
    outcome: Result<Option<Value>, DispatchError>,
) -> bool {
    &&& before.calls().is_prefix_of(after.calls())
    &&& guest_run(request, calls_between(before.calls(), after.calls()), outcome)
}

/// The request that a call of a host function stands for.
pub open spec fn host_request<FR>(
    dispatch_thunk: FR,
    func: HostFunc,
    values: Seq<Value>,
) -> Request<FR> {
    Request {
        dispatch_thunk,
        func_idx: func.func_idx,
        args_data: crate::codec::encoded_values(values),
        state: func.state,
    }
}

/// Whether a call of a host function with the given arguments may end with `outcome`.
///
/// The outcome is that of the calls that a supervisor got. A call whose arguments are not all
/// numbers, or are too many to be serialized, does not reach the supervisor.
pub open spec fn host_call<FR, FE: SandboxCapabilities<SupervisorFuncRef = FR>>(
    dispatch_thunk: FR,
    func: HostFunc,
    args: Seq<EngineValue>,
    outcome: Result<Option<Value>, DispatchError>,
) -> bool {
    match numbers_of(args) {
        Some(values) if values.len() <= u32::MAX => exists|before: FE, after: FE| #[trigger]
            served::<FR, FE>(
                host_request(dispatch_thunk, func, values),
                before,
                after,
                outcome,
            ),
        _ => outcome == Err::<Option<Value>, _>(DispatchError::UnsupportedArgument),
    }
}

/// Serves a call of a host function.
pub fn serve_host_call<FR, FE, SCH>(dispatch_thunk: &FR, func: HostFunc, args: &[EngineValue]) -> (r:
    Result<Option<Value>, DispatchError>) where
    FE: SandboxCapabilities<SupervisorFuncRef = FR>,
    SCH: SandboxCapabiliesHolder<SupervisorFuncRef = FR, SC = FE>,

    ensures
        host_call::<FR, FE>(*dispatch_thunk, func, args@, r),
        numbers_of(args@) is Some && numbers_of(args@)->Some_0.len() <= u32::MAX ==> exists|
            capabilities: &mut FE,
        |
            served::<FR, FE>(
                host_request(*dispatch_thunk, func, numbers_of(args@)->Some_0),
                *capabilities,
                *final(capabilities),
                r,
            ),
{
    let values = match numbers(args) {
        Some(values) => values,
        None => {
            return Err(DispatchError::UnsupportedArgument);
        },
    };
    if values.len() > u32::MAX as usize {
        return Err(DispatchError::UnsupportedArgument);
    }
    let ghost request = host_request(*dispatch_thunk, func, values@);
    SCH::with_sandbox_capabilities(
        |supervisor_externals: &mut FE| -> (outcome: Result<Option<Value>, DispatchError>)
            ensures
                served::<FR, FE>(
                    request,
                    *old(supervisor_externals),
                    *final(supervisor_externals),
                    outcome,
                )
            {
                dispatch_call(
                    supervisor_externals,
                    dispatch_thunk,
                    func.state,
                    func.func_idx,
                    values.as_slice(),
                )
            },
    )
}

/// What a compiled guest is told of a call of a host function: the value that it returns, if any,
/// or the text of the trap that it ends with.
pub open spec fn answer_of(outcome: Result<Option<Value>, DispatchError>) -> Result<
    Option<Value>,
    Seq<char>,
> {
    match outcome {
        Ok(value) => Ok(value),
        Err(error) => Err(compiled_text(error)),
    }
}

/// The outcome of a call of a host function that can return `slots` values.
pub open spec fn fitted(outcome: Result<Option<Value>, DispatchError>, slots: nat) -> Result<
    Option<Value>,
    DispatchError,
> {
    match outcome {
        Ok(Some(_)) if slots == 0 => Err(DispatchError::UnexpectedResult),
        _ => outcome,
    }
}

/// Turns a result that the guest does not expect into a failure.
pub fn fit_outcome(outcome: Result<Option<Value>, DispatchError>, slots: usize) -> (r: Result<
    Option<Value>,
    DispatchError,
>)
    ensures
        r == fitted(outcome, slots as nat),
{
    match outcome {
        Ok(Some(value)) => if slots == 0 {
            Err(DispatchError::UnexpectedResult)
        } else {
            Ok(Some(value))
        },
        _ => outcome,
    }
}

/// How a host function answers when the context of the call is given: which answer it may give to
/// which arguments, where the guest expects so many results.
pub type Answers = spec_fn(u32, Seq<EngineValue>, nat, Result<Option<Value>, Seq<char>>) -> bool;

/// Which context a host function may leave in its cell, when it found a given one there.
pub type Leaves = spec_fn(u32, u32) -> bool;

/// How a host function answers during one call of its instance.
pub type CallAnswers = spec_fn(Seq<EngineValue>, nat, Result<Option<Value>, Seq<char>>) -> bool;

/// A host function, as an engine sees it.
pub struct HostImport<FT> {
    /// Its type.
    pub ty: FT,
    /// The cell that it reads the context of a call from.
    pub cell: StateCell,
    /// How it answers.
    pub answers: Answers,
    /// Which context it may leave in the cell, when it found a given one there.
    pub leaves: Leaves,
}

/// Whether a host function leaves in its cell what it found there, so that guest code that goes on
/// finds the context of its call.
pub open spec fn restores(leaves: Leaves) -> bool {
    forall|found: u32, left: u32| #[trigger] leaves(found, left) ==> left == found
}

/// How a host function answers while the cell that it reads holds `state`.
pub open spec fn answers_while<FT>(import: HostImport<FT>, state: u32) -> CallAnswers {
    |args: Seq<EngineValue>, slots: nat, answer: Result<Option<Value>, Seq<char>>|
        (import.answers)(state, args, slots, answer)
}

/// Whether a host function may give `answer` to the given arguments.
pub open spec fn may_answer<FR, FE: SandboxCapabilities<SupervisorFuncRef = FR>>(
    dispatch_thunk: FR,
    func: HostFunc,
    args: Seq<EngineValue>,
    slots: nat,
    answer: Result<Option<Value>, Seq<char>>,
) -> bool {
    exists|outcome: Result<Option<Value>, DispatchError>| #[trigger]
        host_call::<FR, FE>(dispatch_thunk, func, args, outcome) && answer == answer_of(
            fitted(outcome, slots),
        )
}

/// Why an engine did not instantiate a module.
#[derive(Copy, Clone, Debug, PartialEq, Eq, Structural)]
pub enum EngineFailure {
    /// The imports of the module could not be satisfied, or the engine ran out of resources.
    Link,
    /// The start function of the module trapped.
    Start,
    /// What the host functions depend on could not be set up.
    HostEnvironment,
}

/// The error that a failure of an engine is reported as.
pub open spec fn failure_error(failure: EngineFailure) -> InstantiationError {
    match failure {
        EngineFailure::Start => InstantiationError::StartTrapped,
        EngineFailure::Link | EngineFailure::HostEnvironment => InstantiationError::Instantiation,
    }
}

/// What the reply of an engine that was asked to instantiate a module is reported as.
pub open spec fn reported<I>(reply: Result<I, EngineFailure>) -> Result<I, InstantiationError> {
    match reply {
        Ok(instance) => Ok(instance),
        Err(failure) => Err(failure_error(failure)),
    }
}

/// Reports the reply of an engine that was asked to instantiate a module.
pub fn report<I>(reply: Result<I, EngineFailure>) -> (r: Result<I, InstantiationError>)
    ensures
        r == reported(reply),
{
    match reply {
        Ok(instance) => Ok(instance),
        Err(EngineFailure::Start) => Err(InstantiationError::StartTrapped),
        Err(EngineFailure::Link) => Err(InstantiationError::Instantiation),
        Err(EngineFailure::HostEnvironment) => Err(InstantiationError::Instantiation),
    }
}

/// The supervisor function that stands behind what a guest imports under a name.
pub open spec fn func_named(
    environment: (ImportsView, Seq<SupervisorFuncIndex>),
    name: QualifiedName,
) -> Option<SupervisorFuncIndex> {
    match lookup(environment.0.funcs, name) {
        None => None,
        Some(index) => supervisor_func(environment.1, index),
    }
}

/// Finds the supervisor function that stands behind what a guest imports under a name.
pub fn find_func(guest_env: &GuestEnvironment, module: &str, name: &str) -> (r: Option<
    SupervisorFuncIndex,
>)
    ensures
        r == func_named(guest_env@, qualified(module@, name@)),
{
    match guest_env.imports.func_by_name(module, name) {
        None => None,
        Some(index) => guest_env.guest_to_supervisor_mapping.func_by_guest_index(index),
    }
}

/// Numbers as values of an engine.
pub open spec fn engine_values(args: Seq<Value>) -> Seq<EngineValue> {
    args.map_values(|value: Value| EngineValue::Number(value))
}

/// A reply of a compiled engine to a call: the values that the function returned, or the text of
/// the error.
pub open spec fn reply_view(reply: Result<Vec<EngineValue>, String>) -> Result<
    Seq<EngineValue>,
    Seq<char>,
> {
    match reply {
        Ok(results) => Ok(results@),
        Err(text) => Err(text@),
    }
}

/// Whether `r` is an error with the given text.
pub open spec fn fails_with(r: Result<Option<Value>, InvokeError>, text: Seq<char>) -> bool {
    r matches Err(InvokeError::Function(given)) && given@ == text
}

/// What the caller of an exported function gets when a compiled engine gives `reply`.
pub open spec fn compiled_result(
    reply: Result<Seq<EngineValue>, Seq<char>>,
    r: Result<Option<Value>, InvokeError>,
) -> bool {
    match reply {
        Err(text) => fails_with(r, text),
        Ok(results) => if results.len() == 0 {
            r == Ok::<Option<Value>, InvokeError>(None)
        } else if results.len() == 1 {
            match results[0] {
                EngineValue::Number(value) => r == Ok::<_, InvokeError>(Some(value)),
                EngineValue::Other => fails_with(r, "internal error: entered unreachable code"@),
            }
        } else {
            fails_with(r, "multiple return types are not supported yet"@)
        },
    }
}

/// Turns the reply of a compiled engine into what the caller of an exported function gets.
pub fn interpret_reply(reply: Result<Vec<EngineValue>, String>) -> (r: Result<
    Option<Value>,
    InvokeError,
>)
    ensures
        compiled_result(reply_view(reply), r),
{
    match reply {
        Err(text) => Err(InvokeError::Function(text)),
        Ok(results) => if results.len() == 0 {
            Ok(None)
        } else if results.len() == 1 {
            match results[0] {
                EngineValue::Number(value) => Ok(Some(value)),
                EngineValue::Other => Err(
                    InvokeError::Function("internal error: entered unreachable code".to_owned()),
                ),
            }
        } else {
            Err(InvokeError::Function("multiple return types are not supported yet".to_owned()))
        },
    }
}

/// The number that an exported global holds, if there is such a global and it holds a number.
pub open spec fn global_number(global: Option<EngineValue>) -> Option<Value> {
    match global {
        Some(value) => value.number(),
        None => None,
    }
}

/// Returns the number that an exported global holds.
pub fn interpret_global(global: Option<EngineValue>) -> (r: Option<Value>)
    ensures
        r == global_number(global),
{
    match global {
        Some(value) => value.as_number(),
        None => None,
    }
}

} // verus!
