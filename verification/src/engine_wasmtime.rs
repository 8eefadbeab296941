//! Calls into the wasmtime engine.
//!
//! What the engine answers depends on guest code, on the supervisor and on the machine. The
//! `..may..` predicates below relate a request to the answers that the engine can give to it, and
//! say nothing of which of them it gives.

use crate::capabilities::{SandboxCapabiliesHolder, SandboxCapabilities};
use crate::environment::GuestEnvironment;
use crate::error::{InstantiationError, InvokeError};
use crate::guest::compiled_message;
use crate::host::{
    answer_of, answers_while, compiled_result, engine_values, fails_with, find_func, fit_outcome,
    func_named, global_number, host_call, import_views, interpret_global, interpret_reply,
    may_answer, report, restores, reported, serve_host_call, Answers, CallAnswers, EngineFailure, HostFunc,
    HostImport, Import, ImportKind, ImportView,
};
use crate::imports::ImportsView;
use crate::mapping::SupervisorFuncIndex;
use crate::names::qualified;
use crate::state::{cell_may_hold, StateCell};
use crate::turn::{leaves_context, Left, Turn};
use crate::value::{EngineValue, Value};
use std::sync::atomic::Ordering;
use vstd::prelude::*;
use wasmtime::Store as WasmtimeStore;

verus! {

#[verifier::external_type_specification]
#[verifier::external_body]
pub struct ExWasmtimeEngine(wasmtime::Engine);

#[verifier::external_type_specification]
#[verifier::external_body]
pub struct ExWasmtimeStore(WasmtimeStore);

#[verifier::external_type_specification]
#[verifier::external_body]
pub struct ExWasmtimeModule(wasmtime::Module);

#[verifier::external_type_specification]
#[verifier::external_body]
pub struct ExWasmtimeFunc(wasmtime::Func);

#[verifier::external_type_specification]
#[verifier::external_body]
pub struct ExWasmtimeFuncType(wasmtime::FuncType);

#[verifier::external_type_specification]
#[verifier::external_body]
pub struct ExWasmtimeVal(wasmtime::Val);

#[verifier::external_type_specification]
#[verifier::external_body]
pub struct ExWasmtimeTrap(wasmtime::Trap);

/// The value that a value of the engine is.
pub uninterp spec fn wasmtime_value(value: wasmtime::Val) -> EngineValue;

/// The message of a trap that the host raised.
pub uninterp spec fn wasmtime_trap_message(trap: wasmtime::Trap) -> Seq<char>;

/// The binary that a module of the engine was compiled from.
pub uninterp spec fn wasmtime_module_code(module: wasmtime::Module) -> Seq<u8>;

/// The imports that a valid module asks for, in order.
pub uninterp spec fn wasmtime_module_imports(wasm: Seq<u8>) -> Seq<ImportView<wasmtime::FuncType>>;

/// What a host function of the engine is.
pub uninterp spec fn wasmtime_host_func(func: wasmtime::Func) -> HostImport<wasmtime::FuncType>;

/// Whether the modules that an engine compiles know numbers only: neither vectors nor references.
pub uninterp spec fn wasmtime_plain_engine(engine: wasmtime::Engine) -> bool;

/// Whether a module knows numbers only.
pub uninterp spec fn wasmtime_plain_module(module: wasmtime::Module) -> bool;

/// Whether the module of an instance knows numbers only.
pub uninterp spec fn wasmtime_plain_instance(instance: wasmtime::Instance) -> bool;

/// The host functions that an instance imports, in order. They are fixed when it is made.
pub uninterp spec fn wasmtime_instance_imports(instance: wasmtime::Instance) -> Seq<
    HostImport<wasmtime::FuncType>,
>;

/// Whether the engine may answer with `compiled` when it is asked to compile a binary.
pub uninterp spec fn wasmtime_may_compile(wasm: Seq<u8>, compiled: bool) -> bool;

/// Whether the engine may answer with `reply` when it is asked to instantiate the module `wasm`
/// with functions as its imports that answer as given.
pub uninterp spec fn wasmtime_may_instantiate(
    wasm: Seq<u8>,
    funcs: Seq<(wasmtime::FuncType, CallAnswers)>,
    reply: Result<wasmtime::Instance, EngineFailure>,
) -> bool;

/// The function that an instance exports under a name.
pub uninterp spec fn wasmtime_exported_func(
    instance: wasmtime::Instance,
    name: Seq<char>,
) -> Option<wasmtime::Func>;

/// Whether a call of a function may end with `reply`, where the functions that its instance imports
/// answer as given.
pub uninterp spec fn wasmtime_may_return(
    func: wasmtime::Func,
    args: Seq<EngineValue>,
    funcs: Seq<(wasmtime::FuncType, CallAnswers)>,
    reply: Result<Seq<EngineValue>, Seq<char>>,
) -> bool;

/// Whether an instance exports a global under a name that holds a number. The exports of an
/// instance and their types are fixed.
pub uninterp spec fn wasmtime_exports_number(instance: wasmtime::Instance, name: Seq<char>) -> bool;

/// Whether an instance may answer with `global` when it is asked for an exported global.
pub uninterp spec fn wasmtime_may_hold(
    instance: wasmtime::Instance,
    name: Seq<char>,
    global: Option<EngineValue>,
) -> bool;

/// The values that values of the engine are.
pub open spec fn wasmtime_values(values: Seq<wasmtime::Val>) -> Seq<EngineValue> {
    values.map_values(|value: wasmtime::Val| wasmtime_value(value))
}

/// What host functions of the engine are.
pub open spec fn wasmtime_host_funcs(funcs: Seq<wasmtime::Func>) -> Seq<
    HostImport<wasmtime::FuncType>,
> {
    funcs.map_values(|func: wasmtime::Func| wasmtime_host_func(func))
}

/// The types of host functions, and how they answer while the cells that they read hold `state`.
pub open spec fn wasmtime_while(
    imports: Seq<HostImport<wasmtime::FuncType>>,
    state: u32,
) -> Seq<(wasmtime::FuncType, CallAnswers)> {
    imports.map_values(
        |import: HostImport<wasmtime::FuncType>| (import.ty, answers_while(import, state)),
    )
}

/// Whether all host functions read the context of a call from `cell`, and leave it there.
pub open spec fn imports_read(
    imports: Seq<HostImport<wasmtime::FuncType>>,
    cell: StateCell,
) -> bool {
    forall|i: int| 0 <= i < imports.len() ==> (#[trigger] imports[i]).cell == cell && restores(
        imports[i].leaves,
    )
}

/// How a host function answers that serves its calls through `dispatch_thunk`.
pub open spec fn wasmtime_answers_of<FR, FE: SandboxCapabilities<SupervisorFuncRef = FR>>(
    dispatch_thunk: FR,
    func_idx: SupervisorFuncIndex,
) -> Answers {
    |state: u32, args: Seq<EngineValue>, slots: nat, answer: Result<Option<Value>, Seq<char>>|
        may_answer::<FR, FE>(dispatch_thunk, HostFunc { func_idx, state }, args, slots, answer)
}

/// Whether `import` is a host function for `func_idx` that serves its calls through a clone of
/// `dispatch_thunk`, in the context that `cell` holds.
pub open spec fn wasmtime_serves<FR: Clone, FE: SandboxCapabilities<SupervisorFuncRef = FR>>(
    dispatch_thunk: FR,
    func_idx: SupervisorFuncIndex,
    cell: StateCell,
    import: HostImport<wasmtime::FuncType>,
) -> bool {
    &&& import.cell == cell
    &&& restores(import.leaves)
    &&& exists|thunk: FR| #[trigger]
        cloned(dispatch_thunk, thunk) && import.answers == wasmtime_answers_of::<FR, FE>(
            thunk,
            func_idx,
        )
}

/// Tells the variants of `wasmtime::Val` apart. Floating-point numbers are bit patterns there too.
#[verifier::external_body]
fn plain_wasmtime_value(value: &wasmtime::Val) -> (r: EngineValue)
    ensures
        r == wasmtime_value(*value),
{
    match value {
        wasmtime::Val::I32(v) => EngineValue::Number(Value::I32(*v)),
        wasmtime::Val::I64(v) => EngineValue::Number(Value::I64(*v)),
        wasmtime::Val::F32(v) => EngineValue::Number(Value::F32(*v)),
        wasmtime::Val::F64(v) => EngineValue::Number(Value::F64(*v)),
        wasmtime::Val::ExternRef(_) => EngineValue::Other,
        wasmtime::Val::FuncRef(_) => EngineValue::Other,
        wasmtime::Val::V128(_) => EngineValue::Other,
    }
}

/// Makes a `wasmtime::Val` of a number.
#[verifier::external_body]
fn wasmtime_number(value: Value) -> (r: wasmtime::Val)
    ensures
        wasmtime_value(r) == EngineValue::Number(value),
{
    match value {
        Value::I32(v) => wasmtime::Val::I32(v),
        Value::I64(v) => wasmtime::Val::I64(v),
        Value::F32(v) => wasmtime::Val::F32(v),
        Value::F64(v) => wasmtime::Val::F64(v),
    }
}

/// Calls `wasmtime::Trap::new`, which makes a trap with the message it is given.
#[verifier::external_body]
fn wasmtime_trap(message: String) -> (r: wasmtime::Trap)
    ensures
        wasmtime_trap_message(r) == message@,
{
    wasmtime::Trap::new(message)
}

/// Calls `wasmtime::Config::new`, `cranelift_opt_level`, `strategy` and `wasmtime::Engine::new`,
/// which set up an engine that compiles with Cranelift and does not optimize. That strategy is
/// always available, so that selecting it never fails. A new configuration has vectors and
/// references switched off.
#[verifier::external_body]
fn wasmtime_engine() -> (r: wasmtime::Engine)
    ensures
        wasmtime_plain_engine(r),
{
    let mut config = wasmtime::Config::new();
    config.cranelift_opt_level(wasmtime::OptLevel::None);
    let _ = config.strategy(wasmtime::Strategy::Cranelift);
    wasmtime::Engine::new(&config)
}

/// Calls `wasmtime::Store::new`. The store is not inspected.
#[verifier::external_body]
fn wasmtime_store(engine: &wasmtime::Engine) -> WasmtimeStore {
    WasmtimeStore::new(engine)
}

/// Calls `wasmtime::Module::new`, which validates and compiles a binary. Whether it succeeds
/// depends on the machine too. A binary that uses what is switched off in the engine is not valid.
#[verifier::external_body]
fn compile_wasmtime_module(engine: &wasmtime::Engine, wasm: &[u8]) -> (r: Option<
    wasmtime::Module,
>)
    ensures
        wasmtime_may_compile(wasm@, r is Some),
        r matches Some(module) ==> wasmtime_module_code(module) == wasm@,
        wasmtime_plain_engine(*engine) && r is Some ==> wasmtime_plain_module(r->Some_0),
{
    wasmtime::Module::new(engine, wasm).ok()
}

/// Calls `wasmtime::Module::imports`, which lists the imports of a module in order. They are a
/// function of the binary.
#[verifier::external_body]
fn list_wasmtime_imports(module: &wasmtime::Module) -> (r: Vec<
    Import<wasmtime::FuncType>,
>)
    ensures
        import_views(r@) == wasmtime_module_imports(wasmtime_module_code(*module)),
{
    module.imports().map(|import| Import {
        module: import.module().to_string(),
        name: import.name().to_string(),
        kind: match import.ty() {
            wasmtime::ExternType::Func(ty) => ImportKind::Function(ty),
            wasmtime::ExternType::Global(_) => ImportKind::Global,
            wasmtime::ExternType::Table(_) => ImportKind::Table,
            wasmtime::ExternType::Memory(_) => ImportKind::Memory,
        },
    }).collect()
}

/// Converts numbers to values of the engine.
fn wasmtime_numbers(numbers: &[Value]) -> (r: Vec<wasmtime::Val>)
    ensures
        wasmtime_values(r@) == engine_values(numbers@),
{
    let mut r: Vec<wasmtime::Val> = Vec::new();
    let mut i: usize = 0;
    while i < numbers.len()
        invariant
            i <= numbers.len(),
            r@.len() == i,
            forall|j: int|
                0 <= j < i ==> wasmtime_value(#[trigger] r@[j]) == EngineValue::Number(numbers@[j]),
        decreases numbers.len() - i,
    {
        r.push(wasmtime_number(numbers[i]));
        i = i + 1;
    }
    assert(wasmtime_values(r@) =~= engine_values(numbers@));
    r
}

/// Converts values of the engine.
fn plain_wasmtime_values(values: &[wasmtime::Val]) -> (r: Vec<EngineValue>)
    ensures
        r@ == wasmtime_values(values@),
{
    let mut r: Vec<EngineValue> = Vec::new();
    let mut i: usize = 0;
    while i < values.len()
        invariant
            i <= values.len(),
            r@ == wasmtime_values(values@.take(i as int)),
        decreases values.len() - i,
    {
        r.push(plain_wasmtime_value(&values[i]));
        i = i + 1;
        assert(r@ =~= wasmtime_values(values@.take(i as int)));
    }
    assert(values@.take(i as int) =~= values@);
    r
}

/// Whether `r` and what stands in the places for results are `answer`, told to the engine.
pub open spec fn wasmtime_told(
    before: Seq<wasmtime::Val>,
    after: Seq<wasmtime::Val>,
    r: Result<(), wasmtime::Trap>,
    answer: Result<Option<Value>, Seq<char>>,
) -> bool {
    match answer {
        Ok(None) => r is Ok && after == before,
        Ok(Some(value)) => {
            &&& r is Ok
            &&& after.len() == before.len()
            &&& wasmtime_values(after) == wasmtime_values(before).update(
                0,
                EngineValue::Number(value),
            )
        },
        Err(text) => r matches Err(trap) && wasmtime_trap_message(trap) == text && after == before,
    }
}

/// Serves a call that a guest of the engine makes to a host function.
pub fn serve_wasmtime_call<FR, FE, SCH>(
    dispatch_thunk: &FR,
    func: HostFunc,
    params: &[wasmtime::Val],
    result: &mut [wasmtime::Val],
) -> (r: Result<(), wasmtime::Trap>) where
    FE: SandboxCapabilities<SupervisorFuncRef = FR>,
    SCH: SandboxCapabiliesHolder<SupervisorFuncRef = FR, SC = FE>,

    ensures
        exists|answer: Result<Option<Value>, Seq<char>>|
            #![trigger wasmtime_told(old(result)@, final(result)@, r, answer)]
            wasmtime_told(old(result)@, final(result)@, r, answer) && may_answer::<FR, FE>(
                *dispatch_thunk,
                func,
                wasmtime_values(params@),
                old(result)@.len(),
                answer,
            ),
{
    let ghost before = result@;
    let args = plain_wasmtime_values(params);
    let outcome = serve_host_call::<FR, FE, SCH>(dispatch_thunk, func, args.as_slice());
    let ghost given = outcome;
    let slots: usize = result.len();
    let fit = fit_outcome(outcome, slots);
    let ghost answer = answer_of(fit);
    assert(host_call::<FR, FE>(*dispatch_thunk, func, wasmtime_values(params@), given));
    assert(may_answer::<FR, FE>(*dispatch_thunk, func, wasmtime_values(params@), before.len(), answer));
    match fit {
        Ok(None) => {
            assert(wasmtime_told(before, result@, Ok(()), answer));
            Ok(())
        },
        Ok(Some(value)) => {
            result[0] = wasmtime_number(value);
            proof {
                assert(wasmtime_values(result@) =~= wasmtime_values(before).update(
                    0,
                    EngineValue::Number(value),
                ));
                assert(wasmtime_told(before, result@, Ok(()), answer));
            }
            Ok(())
        },
        Err(error) => {
            let trap = wasmtime_trap(compiled_message(&error));
            assert(wasmtime_told(before, result@, Err(trap), answer));
            Err(trap)
        },
    }
}

/// Serves a call that a guest of the engine makes to a host function, in the context that was found
/// at the beginning of its turn, and ends the turn.
pub fn take_wasmtime_turn<'c, FR, FE, SCH>(
    dispatch_thunk: &FR,
    func_idx: SupervisorFuncIndex,
    turn: Turn<'c>,
    params: &[wasmtime::Val],
    result: &mut [wasmtime::Val],
) -> (r: Left<'c, Result<(), wasmtime::Trap>>) where
    FE: SandboxCapabilities<SupervisorFuncRef = FR>,
    SCH: SandboxCapabiliesHolder<SupervisorFuncRef = FR, SC = FE>,

    ensures
        r.cell() == turn.cell(),
        leaves_context(turn.found(), r.left()),
        exists|answer: Result<Option<Value>, Seq<char>>|
            #![trigger wasmtime_told(old(result)@, final(result)@, r.outcome(), answer)]
            wasmtime_told(old(result)@, final(result)@, r.outcome(), answer) && (
            wasmtime_answers_of::<FR, FE>(*dispatch_thunk, func_idx))(
                turn.found(),
                wasmtime_values(params@),
                old(result)@.len(),
                answer,
            ),
{
    let state: u32 = turn.state();
    let outcome = serve_wasmtime_call::<FR, FE, SCH>(
        dispatch_thunk,
        HostFunc { func_idx, state },
        params,
        result,
    );
    turn.leave(outcome)
}

/// Serves a call that a guest of the engine makes to a host function, in the context that `cell`
/// holds, and puts this context back into `cell`.
pub fn answer_wasmtime_call<FR, FE, SCH>(
    dispatch_thunk: &FR,
    func_idx: SupervisorFuncIndex,
    cell: &StateCell,
    params: &[wasmtime::Val],
    result: &mut [wasmtime::Val],
) -> (r: Result<(), wasmtime::Trap>) where
    FE: SandboxCapabilities<SupervisorFuncRef = FR>,
    SCH: SandboxCapabiliesHolder<SupervisorFuncRef = FR, SC = FE>,

    ensures
        exists|state: u32, answer: Result<Option<Value>, Seq<char>>|
            #![trigger cell_may_hold(*cell, state), wasmtime_told(
                old(result)@,
                final(result)@,
                r,
                answer,
            )]
            cell_may_hold(*cell, state) && wasmtime_told(
                old(result)@,
                final(result)@,
                r,
                answer,
            ) && may_answer::<FR, FE>(
                *dispatch_thunk,
                HostFunc { func_idx, state },
                wasmtime_values(params@),
                old(result)@.len(),
                answer,
            ),
{
    take_wasmtime_turn::<FR, FE, SCH>(
        dispatch_thunk,
        func_idx,
        Turn::begin(cell),
        params,
        result,
    ).into_outcome()
}

/// Calls `wasmtime::Func::new`, which makes a host function of the given type. Whenever a guest
/// calls it, it begins a turn and runs [`take_wasmtime_turn`] on the arguments of the call, with one
/// place for each result that the type has, so that it answers as that function does and leaves the
/// cell as that function does. The engine itself refuses results that do not fit the type.
#[verifier::external_body]
fn new_wasmtime_func<FR, FE, SCH>(
    store: &WasmtimeStore,
    ty: &wasmtime::FuncType,
    dispatch_thunk: FR,
    func_idx: SupervisorFuncIndex,
    cell: StateCell,
) -> (r: wasmtime::Func) where
    FR: 'static,
    FE: SandboxCapabilities<SupervisorFuncRef = FR>,
    SCH: SandboxCapabiliesHolder<SupervisorFuncRef = FR, SC = FE>,

    ensures
        wasmtime_host_func(r) == (HostImport {
            ty: *ty,
            cell,
            answers: wasmtime_answers_of::<FR, FE>(dispatch_thunk, func_idx),
            leaves: |found: u32, left: u32| leaves_context(found, left),
        }),
{
    wasmtime::Func::new(store, ty.clone(), move |_caller, params, result| {
        let turn = Turn::begin(&cell);
        take_wasmtime_turn::<FR, FE, SCH>(&dispatch_thunk, func_idx, turn, params, result)
            .into_outcome()
    })
}

/// Calls `wasmtime::Instance::new`, which takes the imports of a module by their positions,
/// instantiates the module and runs its start function. It tells an error that is a
/// `wasmtime::Trap` from any other. It refuses a list of imports that is too short or too long
/// with an error that is no trap.
///
/// Before the call `AtomicU32::store` puts `state` into `cell`, where all functions that are handed
/// over read it. Nobody can call the instance yet, so that it stays there.
#[verifier::external_body]
fn new_wasmtime_instance(
    store: &WasmtimeStore,
    module: &wasmtime::Module,
    funcs: Vec<wasmtime::Func>,
    cell: &StateCell,
    state: u32,
) -> (r: Result<wasmtime::Instance, EngineFailure>)
    requires
        imports_read(wasmtime_host_funcs(funcs@), *cell),
    ensures
        wasmtime_may_instantiate(
            wasmtime_module_code(*module),
            wasmtime_while(wasmtime_host_funcs(funcs@), state),
            r,
        ),
        wasmtime_plain_module(*module) && r is Ok ==> wasmtime_plain_instance(r->Ok_0),
        r is Ok ==> wasmtime_instance_imports(r->Ok_0) == wasmtime_host_funcs(funcs@),
        funcs@.len() != wasmtime_module_imports(wasmtime_module_code(*module)).len() ==> r
            is Err && r->Err_0 is Link,
{
    let imports: Vec<wasmtime::Extern> = funcs.into_iter().map(wasmtime::Extern::Func).collect();
    cell.cell.store(state, Ordering::SeqCst);
    wasmtime::Instance::new(store, module, &imports).map_err(|error| match error.downcast::<wasmtime::Trap>() {
        Ok(_) => EngineFailure::Start,
        Err(_) => EngineFailure::Link,
    })
}

/// Calls `wasmtime::Instance::get_func`, which finds an exported function by its name. The exports
/// of an instance are fixed.
#[verifier::external_body]
fn find_wasmtime_func(instance: &wasmtime::Instance, name: &str) -> (r: Option<
    wasmtime::Func,
>)
    ensures
        r == wasmtime_exported_func(*instance, name@),
{
    instance.get_func(name)
}

/// Calls `wasmtime::Func::call` on a function that `instance` exports, and turns an error into its
/// text. It does not return if guest code does not.
///
/// Before the call `AtomicU32::store` puts `state` into `cell`, where all functions that the
/// instance imports read it. Only they can lead to further calls of the instance, and each of them
/// leaves in the cell what it found there before guest code goes on.
#[verifier::external_body]
fn call_wasmtime_func(
    _instance: &wasmtime::Instance,
    func: &wasmtime::Func,
    args: &[wasmtime::Val],
    cell: &StateCell,
    state: u32,
) -> (r: Result<Vec<wasmtime::Val>, String>)
    requires
        exists|name: Seq<char>| #[trigger]
            wasmtime_exported_func(*_instance, name) == Some(*func),
        imports_read(wasmtime_instance_imports(*_instance), *cell),
    ensures
        wasmtime_may_return(
            *func,
            wasmtime_values(args@),
            wasmtime_while(wasmtime_instance_imports(*_instance), state),
            match r {
                Ok(results) => Ok(wasmtime_values(results@)),
                Err(text) => Err(text@),
            },
        ),
{
    cell.cell.store(state, Ordering::SeqCst);
    func.call(args).map(|results| results.into_vec()).map_err(|error| error.to_string())
}

/// Calls `wasmtime::Instance::get_global` and `wasmtime::Global::get`, which give the present value
/// of an exported global. The latter panics on a global that holds a vector.
#[verifier::external_body]
fn wasmtime_global(instance: &wasmtime::Instance, name: &str) -> (r: Option<wasmtime::Val>)
    requires
        wasmtime_plain_instance(*instance),
    ensures
        wasmtime_may_hold(
            *instance,
            name@,
            match r {
                Some(value) => Some(wasmtime_value(value)),
                None => None,
            },
        ),
        (r is Some && wasmtime_value(r->Some_0) is Number) == wasmtime_exports_number(
            *instance,
            name@,
        ),
{
    Some(instance.get_global(name)?.get())
}

/// The functions that the imports of a module are given: those that the environment offers, in the
/// order in which the module asks for them.
pub open spec fn wanted_funcs(
    imports: Seq<ImportView<wasmtime::FuncType>>,
    environment: (ImportsView, Seq<SupervisorFuncIndex>),
) -> Seq<(wasmtime::FuncType, SupervisorFuncIndex)>
    decreases imports.len(),
{
    if imports.len() == 0 {
        Seq::empty()
    } else {
        let before = wanted_funcs(imports.drop_last(), environment);
        match wanted_func(imports.last(), environment) {
            Some(wanted) => before.push(wanted),
            None => before,
        }
    }
}

/// The function that an import is given, if it asks for a function that the environment offers.
pub open spec fn wanted_func(
    import: ImportView<wasmtime::FuncType>,
    environment: (ImportsView, Seq<SupervisorFuncIndex>),
) -> Option<(wasmtime::FuncType, SupervisorFuncIndex)> {
    match import.kind {
        ImportKind::Function(ty) => match func_named(
            environment,
            qualified(import.module, import.name),
        ) {
            Some(func_idx) => Some((ty, func_idx)),
            None => None,
        },
        _ => None,
    }
}

/// Whether `imports` are host functions for `wanted`, one for one.
pub open spec fn imports_serve<
    FR: Clone,
    FE: SandboxCapabilities<SupervisorFuncRef = FR>,
>(
    dispatch_thunk: FR,
    wanted: Seq<(wasmtime::FuncType, SupervisorFuncIndex)>,
    cell: StateCell,
    imports: Seq<HostImport<wasmtime::FuncType>>,
) -> bool {
    &&& imports.len() == wanted.len()
    &&& forall|i: int|
        0 <= i < imports.len() ==> (#[trigger] imports[i]).ty == wanted[i].0
            && wasmtime_serves::<FR, FE>(dispatch_thunk, wanted[i].1, cell, imports[i])
}

/// An instance of the wasmtime engine, and the cell that its host functions read.
pub struct WasmtimeGuest {
    instance: wasmtime::Instance,
    cell: StateCell,
}

impl WasmtimeGuest {
    /// The instance.
    pub closed spec fn instance(self) -> wasmtime::Instance {
        self.instance
    }

    /// The cell that its host functions read.
    pub closed spec fn cell(self) -> StateCell {
        self.cell
    }

    /// The module knows numbers only, and all its host functions read the cell.
    #[verifier::type_invariant]
    spec fn wf(self) -> bool {
        &&& wasmtime_plain_instance(self.instance)
        &&& imports_read(wasmtime_instance_imports(self.instance), self.cell)
    }

    /// Whether a call of an exported function may end with `r`.
    pub open spec fn may_return(
        self,
        export_name: Seq<char>,
        args: Seq<Value>,
        state: u32,
        r: Result<Option<Value>, InvokeError>,
    ) -> bool {
        match wasmtime_exported_func(self.instance(), export_name) {
            None => fails_with(r, "wasmtime function failed"@),
            Some(func) => exists|reply: Result<Seq<EngineValue>, Seq<char>>| #[trigger]
                wasmtime_may_return(
                    func,
                    engine_values(args),
                    wasmtime_while(wasmtime_instance_imports(self.instance()), state),
                    reply,
                ) && compiled_result(reply, r),
        }
    }

    /// Whether this instance may answer with `r` when it is asked for an exported global.
    pub open spec fn may_hold(self, name: Seq<char>, r: Option<Value>) -> bool {
        exists|global: Option<EngineValue>| #[trigger]
            wasmtime_may_hold(self.instance(), name, global) && r == global_number(global)
    }

    /// Invokes an exported function.
    pub(crate) fn invoke(&self, export_name: &str, args: &[Value], state: u32) -> (r: Result<
        Option<Value>,
        InvokeError,
    >)
        ensures
            self.may_return(export_name@, args@, state, r),
    {
        proof {
            use_type_invariant(self);
        }
        let func = match find_wasmtime_func(&self.instance, export_name) {
            Some(func) => func,
            None => {
                return Err(InvokeError::Function("wasmtime function failed".to_owned()));
            },
        };
        let values = wasmtime_numbers(args);
        let reply = match call_wasmtime_func(
            &self.instance,
            &func,
            values.as_slice(),
            &self.cell,
            state,
        ) {
            Ok(results) => Ok(plain_wasmtime_values(results.as_slice())),
            Err(text) => Err(text),
        };
        interpret_reply(reply)
    }

    /// Returns the number that an exported global holds.
    pub(crate) fn global_number(&self, name: &str) -> (r: Option<Value>)
        ensures
            self.may_hold(name@, r),
            r is Some == wasmtime_exports_number(self.instance(), name@),
    {
        proof {
            use_type_invariant(self);
        }
        let global = match wasmtime_global(&self.instance, name) {
            Some(value) => Some(plain_wasmtime_value(&value)),
            None => None,
        };
        assert(wasmtime_may_hold(self.instance(), name@, global));
        interpret_global(global)
    }
}

/// Whether `r` is what comes of the reply of the engine that was asked to instantiate a module
/// whose host functions read `cell`.
pub open spec fn wasmtime_concluded(
    reply: Result<wasmtime::Instance, EngineFailure>,
    cell: StateCell,
    r: Result<WasmtimeGuest, InstantiationError>,
) -> bool {
    match reported(reply) {
        Ok(instance) => r matches Ok(guest) && guest.instance() == instance && guest.cell() == cell,
        Err(error) => r == Err::<WasmtimeGuest, _>(error),
    }
}

/// Whether the instantiation of a module may end with `r`.
pub open spec fn wasmtime_instantiation<
    FR: Clone,
    FE: SandboxCapabilities<SupervisorFuncRef = FR>,
>(
    wasm: Seq<u8>,
    environment: (ImportsView, Seq<SupervisorFuncIndex>),
    dispatch_thunk: FR,
    state: u32,
    r: Result<WasmtimeGuest, InstantiationError>,
) -> bool {
    let module_imports = wasmtime_module_imports(wasm);
    let wanted = wanted_funcs(module_imports, environment);
    ||| wasmtime_may_compile(wasm, false) && r == Err::<WasmtimeGuest, _>(
        InstantiationError::ModuleDecoding,
    )
    ||| wasmtime_may_compile(wasm, true) && exists|
        imports: Seq<HostImport<wasmtime::FuncType>>,
        cell: StateCell,
        reply: Result<wasmtime::Instance, EngineFailure>,
    | #[trigger]
        wasmtime_may_instantiate(wasm, wasmtime_while(imports, state), reply)
            && imports_serve::<FR, FE>(dispatch_thunk, wanted, cell, imports) && (reply matches Ok(
            instance,
        ) ==> wasmtime_instance_imports(instance) == imports) && (wanted.len()
            != module_imports.len() ==> reply == Err::<wasmtime::Instance, _>(EngineFailure::Link))
            && #[trigger] wasmtime_concluded(reply, cell, r)
}

/// Makes the host functions that the imports of a module are given.
fn offer_wasmtime_funcs<FR, FE, SCH>(
    store: &WasmtimeStore,
    imports: &Vec<Import<wasmtime::FuncType>>,
    guest_env: &GuestEnvironment,
    dispatch_thunk: &FR,
    cell: &StateCell,
) -> (r: Vec<wasmtime::Func>) where
    FR: Clone + 'static,
    FE: SandboxCapabilities<SupervisorFuncRef = FR>,
    SCH: SandboxCapabiliesHolder<SupervisorFuncRef = FR, SC = FE>,

    ensures
        imports_serve::<FR, FE>(
            *dispatch_thunk,
            wanted_funcs(import_views(imports@), guest_env@),
            *cell,
            wasmtime_host_funcs(r@),
        ),
{
    let ghost all = import_views(imports@);
    let mut funcs: Vec<wasmtime::Func> = Vec::new();
    let mut i: usize = 0;
    assert(all.take(0) =~= Seq::empty());
    while i < imports.len()
        invariant
            i <= imports@.len(),
            all == import_views(imports@),
            imports_serve::<FR, FE>(
                *dispatch_thunk,
                wanted_funcs(all.take(i as int), guest_env@),
                *cell,
                wasmtime_host_funcs(funcs@),
            ),
        decreases imports@.len() - i,
    {
        let import = &imports[i];
        proof {
            assert(all.take(i + 1).drop_last() =~= all.take(i as int));
            assert(all.take(i + 1).last() == import@);
        }
        if let ImportKind::Function(ty) = &import.kind {
            if let Some(func_idx) = find_func(
                guest_env,
                import.module.as_str(),
                import.name.as_str(),
            ) {
                let ghost before = funcs@;
                let thunk = dispatch_thunk.clone();
                funcs.push(
                    new_wasmtime_func::<FR, FE, SCH>(store, ty, thunk, func_idx, cell.share()),
                );
                proof {
                    let made = wasmtime_host_func(funcs@.last());
                    assert(cloned(*dispatch_thunk, thunk));
                    assert(wasmtime_serves::<FR, FE>(*dispatch_thunk, func_idx, *cell, made));
                    assert(wasmtime_host_funcs(funcs@) =~= wasmtime_host_funcs(before).push(made));
                }
            }
        }
        i = i + 1;
    }
    assert(all.take(i as int) =~= all);
    funcs
}

/// Instantiates a module. Its host functions read the context of a call from the cell that comes
/// with the instance.
pub fn instantiate_wasmtime<FR, FE, SCH>(
    wasm: &[u8],
    guest_env: &GuestEnvironment,
    dispatch_thunk: &FR,
    state: u32,
) -> (r: Result<WasmtimeGuest, InstantiationError>) where
    FR: Clone + 'static,
    FE: SandboxCapabilities<SupervisorFuncRef = FR>,
    SCH: SandboxCapabiliesHolder<SupervisorFuncRef = FR, SC = FE>,

    ensures
        wasmtime_instantiation::<FR, FE>(wasm@, guest_env@, *dispatch_thunk, state, r),
{
    let engine = wasmtime_engine();
    let store = wasmtime_store(&engine);
    let module = match compile_wasmtime_module(&engine, wasm) {
        Some(module) => module,
        None => {
            return Err(InstantiationError::ModuleDecoding);
        },
    };
    let imports = list_wasmtime_imports(&module);
    let cell = StateCell::new();
    let funcs = offer_wasmtime_funcs::<FR, FE, SCH>(
        &store,
        &imports,
        guest_env,
        dispatch_thunk,
        &cell,
    );
    let reply = new_wasmtime_instance(&store, &module, funcs, &cell, state);
    let r = match report(reply) {
        Ok(instance) => Ok(WasmtimeGuest { instance, cell }),
        Err(error) => Err(error),
    };
    assert(wasmtime_concluded(reply, cell, r));
    r
}

} // verus!
