//! Calls into the wasmer engine.
//!
//! What the engine answers depends on guest code, on the supervisor and on the machine. The
//! `..may..` predicates below relate a request to the answers that the engine can give to it, and
//! say nothing of which of them it gives.

use crate::backend::{wasmer_plain_store, WasmerBackend};
use crate::capabilities::{SandboxCapabiliesHolder, SandboxCapabilities};
use crate::environment::GuestEnvironment;
use crate::error::{InstantiationError, InvokeError};
use crate::guest::compiled_message;
use crate::host::{
    answer_of, answers_while, compiled_result, engine_values, fails_with, find_func, fitted,
    func_named, global_number, host_call, import_views, interpret_global, interpret_reply,
    may_answer, reply_view, report, reported, restores, serve_host_call, Answers, CallAnswers,
    EngineFailure, HostFunc, HostImport, Import, ImportKind, ImportView,
};
use crate::imports::ImportsView;
use crate::mapping::SupervisorFuncIndex;
use crate::memory::{wasmer_plain_memory, Memory};
use crate::names::{lookup, qualified};
use crate::state::{cell_may_hold, StateCell};
use crate::turn::{leaves_context, Left, Turn};
use crate::value::{EngineValue, Value};
use std::sync::atomic::Ordering;
use vstd::prelude::*;
use wasmer::Memory as WasmerMemory;
use wasmer::Store as WasmerStore;
use wasmer_types::Value as WasmerValue;
use wasmi::nan_preserving_float;

verus! {

#[verifier::external_type_specification]
#[verifier::external_body]
#[verifier::reject_recursive_types(T)]
pub struct ExWasmerValue<T>(WasmerValue<T>);

#[verifier::external_type_specification]
#[verifier::external_body]
pub struct ExWasmerFunction(wasmer::Function);

#[verifier::external_type_specification]
#[verifier::external_body]
pub struct ExWasmerFunctionType(wasmer::FunctionType);

#[verifier::external_type_specification]
#[verifier::external_body]
pub struct ExWasmerModule(wasmer::Module);

#[verifier::external_type_specification]
#[verifier::external_body]
pub struct ExWasmerRuntimeError(wasmer::RuntimeError);

#[verifier::external_type_specification]
#[verifier::external_body]
pub struct ExWasmerExports(wasmer::Exports);

#[verifier::external_type_specification]
#[verifier::external_body]
pub struct ExWasmerImportObject(wasmer::ImportObject);

/// Something that a module can be given for an import.
pub enum Offer {
    /// A memory.
    Memory(WasmerMemory),
    /// A host function.
    Function(HostImport<wasmer::FunctionType>),
}

/// What an offer is during one call of the instance that was given it.
pub enum OfferWhile {
    /// A memory.
    Memory(WasmerMemory),
    /// A host function, by its type and by how it answers.
    Function(wasmer::FunctionType, CallAnswers),
}

/// The offers under the name of one module, by the name of a field.
pub type ModuleOffers = Map<Seq<char>, Offer>;

/// What modules are given for their imports: by the name of a module, and in it by the name of a
/// field.
pub type Offers = Map<Seq<char>, Map<Seq<char>, Offer>>;

/// The value that a value of the engine is.
pub uninterp spec fn wasmer_value(value: WasmerValue<wasmer::Function>) -> EngineValue;

/// The message of an error that the host raised.
pub uninterp spec fn wasmer_error_message(error: wasmer::RuntimeError) -> Seq<char>;

/// The binary that a module of the engine was compiled from.
pub uninterp spec fn wasmer_module_code(module: wasmer::Module) -> Seq<u8>;

/// The imports that a valid module asks for, in order.
pub uninterp spec fn wasmer_module_imports(wasm: Seq<u8>) -> Seq<ImportView<wasmer::FunctionType>>;

/// What a host function of the engine is.
pub uninterp spec fn wasmer_host_func(func: wasmer::Function) -> HostImport<wasmer::FunctionType>;

/// Whether a module was compiled in a store for numbers only.
pub uninterp spec fn wasmer_plain_module(module: wasmer::Module) -> bool;

/// Whether the module of an instance was compiled in a store for numbers only.
pub uninterp spec fn wasmer_plain_instance(instance: wasmer::Instance) -> bool;

/// The offers that an instance was made with. They are fixed when it is made.
pub uninterp spec fn wasmer_instance_offers(instance: wasmer::Instance) -> Offers;

/// What a collection of exports holds, by name.
pub uninterp spec fn wasmer_exports(exports: wasmer::Exports) -> ModuleOffers;

/// Whether a collection of exports is the only reference to what it holds.
pub uninterp spec fn wasmer_exports_unshared(exports: wasmer::Exports) -> bool;

/// What an import object holds.
pub uninterp spec fn wasmer_import_object(object: wasmer::ImportObject) -> Offers;

/// Whether the engine may answer with `compiled` when it is asked to compile a binary.
pub uninterp spec fn wasmer_may_compile(wasm: Seq<u8>, compiled: bool) -> bool;

/// Whether the engine may answer with `reply` when it is asked to instantiate the module `wasm`
/// with the given offers for its imports, where host functions answer as given.
pub uninterp spec fn wasmer_may_instantiate(
    wasm: Seq<u8>,
    offers: Map<Seq<char>, Map<Seq<char>, OfferWhile>>,
    reply: Result<wasmer::Instance, EngineFailure>,
) -> bool;

/// The function that an instance exports under a name.
pub uninterp spec fn wasmer_exported_func(
    instance: wasmer::Instance,
    name: Seq<char>,
) -> Option<wasmer::Function>;

/// Whether a call of a function may end with `reply`, where the functions that its instance imports
/// answer as given.
pub uninterp spec fn wasmer_may_return(
    func: wasmer::Function,
    args: Seq<EngineValue>,
    offers: Map<Seq<char>, Map<Seq<char>, OfferWhile>>,
    reply: Result<Seq<EngineValue>, Seq<char>>,
) -> bool;

/// Whether an instance exports a global under a name that holds a number. The exports of an
/// instance and their types are fixed.
pub uninterp spec fn wasmer_exports_number(instance: wasmer::Instance, name: Seq<char>) -> bool;

/// Whether an instance may answer with `global` when it is asked for an exported global.
pub uninterp spec fn wasmer_may_hold(
    instance: wasmer::Instance,
    name: Seq<char>,
    global: Option<EngineValue>,
) -> bool;

/// The values that values of the engine are.
pub open spec fn wasmer_values(values: Seq<WasmerValue<wasmer::Function>>) -> Seq<EngineValue> {
    values.map_values(|value: WasmerValue<wasmer::Function>| wasmer_value(value))
}

/// What an offer is while the cell that it reads, if it is a function, holds `state`.
pub open spec fn offer_while(offer: Offer, state: u32) -> OfferWhile {
    match offer {
        Offer::Memory(memory) => OfferWhile::Memory(memory),
        Offer::Function(import) => OfferWhile::Function(import.ty, answers_while(import, state)),
    }
}

/// What offers are while the cells that functions among them read hold `state`.
pub open spec fn wasmer_while(offers: Offers, state: u32) -> Map<
    Seq<char>,
    Map<Seq<char>, OfferWhile>,
> {
    offers.map_values(
        |module: ModuleOffers| module.map_values(|offer: Offer| offer_while(offer, state)),
    )
}

/// Whether a module that was compiled in a store for numbers only can be given an offer, where
/// `cell` is for the context of calls: a memory was created in such a store too, and a function
/// reads this cell and leaves it as it found it.
pub open spec fn is_usable(offer: Offer, cell: StateCell) -> bool {
    match offer {
        Offer::Memory(memory) => wasmer_plain_memory(memory),
        Offer::Function(import) => import.cell == cell && restores(import.leaves),
    }
}

/// Whether all offers are usable.
pub open spec fn all_usable(offers: Offers, cell: StateCell) -> bool {
    forall|module: Seq<char>, name: Seq<char>|
        offers.dom().contains(module) && offers[module].dom().contains(name) ==> is_usable(
            #[trigger] offers[module][name],
            cell,
        )
}

/// How a host function answers that serves its calls through `dispatch_thunk`. It returns the value
/// that it got, if any, whether or not the guest expects a result: the engine itself refuses
/// results that do not fit the type.
pub open spec fn wasmer_answers_of<FR, FE: SandboxCapabilities<SupervisorFuncRef = FR>>(
    dispatch_thunk: FR,
    func_idx: SupervisorFuncIndex,
) -> Answers {
    |state: u32, args: Seq<EngineValue>, slots: nat, answer: Result<Option<Value>, Seq<char>>|
        may_answer::<FR, FE>(dispatch_thunk, HostFunc { func_idx, state }, args, 1, answer)
}

/// Whether `import` is a host function for `func_idx` that serves its calls through a clone of
/// `dispatch_thunk`, in the context that `cell` holds.
pub open spec fn wasmer_serves<FR: Clone, FE: SandboxCapabilities<SupervisorFuncRef = FR>>(
    dispatch_thunk: FR,
    func_idx: SupervisorFuncIndex,
    cell: StateCell,
    import: HostImport<wasmer::FunctionType>,
) -> bool {
    &&& import.cell == cell
    &&& restores(import.leaves)
    &&& exists|thunk: FR| #[trigger]
        cloned(dispatch_thunk, thunk) && import.answers == wasmer_answers_of::<FR, FE>(
            thunk,
            func_idx,
        )
}

/// Whether there is an offer of the right kind for an import. There are none for globals and
/// tables.
pub open spec fn is_offered(offers: Offers, import: ImportView<wasmer::FunctionType>) -> bool {
    &&& offers.dom().contains(import.module)
    &&& offers[import.module].dom().contains(import.name)
    &&& match import.kind {
        ImportKind::Function(_) => offers[import.module][import.name] is Function,
        ImportKind::Memory => offers[import.module][import.name] is Memory,
        ImportKind::Global | ImportKind::Table => false,
    }
}

/// Whether there is an offer of the right kind for each import of a module.
pub open spec fn all_offered(
    offers: Offers,
    imports: Seq<ImportView<wasmer::FunctionType>>,
) -> bool {
    forall|i: int| 0 <= i < imports.len() ==> is_offered(offers, #[trigger] imports[i])
}

/// Tells the variants of `wasmer::Val` apart, and calls `to_bits` on floating-point numbers, which
/// gives their bit patterns.
#[verifier::external_body]
fn plain_wasmer_value(value: &WasmerValue<wasmer::Function>) -> (r: EngineValue)
    ensures
        r == wasmer_value(*value),
{
    match value {
        WasmerValue::I32(v) => EngineValue::Number(Value::I32(*v)),
        WasmerValue::I64(v) => EngineValue::Number(Value::I64(*v)),
        WasmerValue::F32(v) => EngineValue::Number(Value::F32(v.to_bits())),
        WasmerValue::F64(v) => EngineValue::Number(Value::F64(v.to_bits())),
        WasmerValue::ExternRef(_) => EngineValue::Other,
        WasmerValue::FuncRef(_) => EngineValue::Other,
        WasmerValue::V128(_) => EngineValue::Other,
    }
}

/// Makes a `wasmer::Val` of a number. The conversions of `wasmi::nan_preserving_float` make
/// floating-point numbers of their bit patterns.
#[verifier::external_body]
fn wasmer_number(value: Value) -> (r: WasmerValue<wasmer::Function>)
    ensures
        wasmer_value(r) == EngineValue::Number(value),
{
    match value {
        Value::I32(v) => WasmerValue::I32(v),
        Value::I64(v) => WasmerValue::I64(v),
        Value::F32(v) => WasmerValue::F32(nan_preserving_float::F32::from_bits(v).into()),
        Value::F64(v) => WasmerValue::F64(nan_preserving_float::F64::from_bits(v).into()),
    }
}

/// Calls `wasmer::RuntimeError::new`, which makes an error with the message it is given.
#[verifier::external_body]
fn wasmer_error(message: String) -> (r: wasmer::RuntimeError)
    ensures
        wasmer_error_message(r) == message@,
{
    wasmer::RuntimeError::new(message)
}

/// Calls `wasmer::Module::new`, which validates and compiles a binary. Whether it succeeds depends
/// on the machine too. A binary that uses what is switched off in the store is not valid. The
/// guards that the module expects of memories come from the tunables of the store.
#[verifier::external_body]
fn compile_wasmer_module(store: &WasmerStore, wasm: &[u8]) -> (r: Option<wasmer::Module>)
    ensures
        wasmer_may_compile(wasm@, r is Some),
        r matches Some(module) ==> wasmer_module_code(module) == wasm@,
        wasmer_plain_store(*store) && r is Some ==> wasmer_plain_module(r->Some_0),
{
    wasmer::Module::new(store, wasm).ok()
}

/// Calls `wasmer::Module::imports`, which lists the imports of a module in order. They are a
/// function of the binary.
#[verifier::external_body]
fn list_wasmer_imports(module: &wasmer::Module) -> (r: Vec<Import<wasmer::FunctionType>>)
    ensures
        import_views(r@) == wasmer_module_imports(wasmer_module_code(*module)),
{
    module.imports().map(|import| Import {
        module: import.module().to_string(),
        name: import.name().to_string(),
        kind: match import.ty() {
            wasmer::ExternType::Function(ty) => ImportKind::Function(ty.clone()),
            wasmer::ExternType::Global(_) => ImportKind::Global,
            wasmer::ExternType::Table(_) => ImportKind::Table,
            wasmer::ExternType::Memory(_) => ImportKind::Memory,
        },
    }).collect()
}

/// Converts numbers to values of the engine.
fn wasmer_numbers(numbers: &[Value]) -> (r: Vec<WasmerValue<wasmer::Function>>)
    ensures
        wasmer_values(r@) == engine_values(numbers@),
{
    let mut r: Vec<WasmerValue<wasmer::Function>> = Vec::new();
    let mut i: usize = 0;
    while i < numbers.len()
        invariant
            i <= numbers.len(),
            r@.len() == i,
            forall|j: int|
                0 <= j < i ==> wasmer_value(#[trigger] r@[j]) == EngineValue::Number(numbers@[j]),
        decreases numbers.len() - i,
    {
        r.push(wasmer_number(numbers[i]));
        i = i + 1;
    }
    assert(wasmer_values(r@) =~= engine_values(numbers@));
    r
}

/// Converts values of the engine.
fn plain_wasmer_values(values: &[WasmerValue<wasmer::Function>]) -> (r: Vec<EngineValue>)
    ensures
        r@ == wasmer_values(values@),
{
    let mut r: Vec<EngineValue> = Vec::new();
    let mut i: usize = 0;
    while i < values.len()
        invariant
            i <= values.len(),
            r@ == wasmer_values(values@.take(i as int)),
        decreases values.len() - i,
    {
        r.push(plain_wasmer_value(&values[i]));
        i = i + 1;
        assert(r@ =~= wasmer_values(values@.take(i as int)));
    }
    assert(values@.take(i as int) =~= values@);
    r
}

/// Whether `r` is `answer`, told to the engine.
pub open spec fn wasmer_told(
    r: Result<Vec<WasmerValue<wasmer::Function>>, wasmer::RuntimeError>,
    answer: Result<Option<Value>, Seq<char>>,
) -> bool {
    match answer {
        Ok(None) => r matches Ok(values) && values@.len() == 0,
        Ok(Some(value)) => r matches Ok(values) && wasmer_values(values@) == seq![
            EngineValue::Number(value),
        ],
        Err(text) => r matches Err(error) && wasmer_error_message(error) == text,
    }
}

/// Serves a call that a guest of the engine makes to a host function.
///
/// The engine itself refuses results that do not fit the type of the function.
pub fn serve_wasmer_call<FR, FE, SCH>(
    dispatch_thunk: &FR,
    func: HostFunc,
    params: &[WasmerValue<wasmer::Function>],
) -> (r: Result<Vec<WasmerValue<wasmer::Function>>, wasmer::RuntimeError>) where
    FE: SandboxCapabilities<SupervisorFuncRef = FR>,
    SCH: SandboxCapabiliesHolder<SupervisorFuncRef = FR, SC = FE>,

    ensures
        exists|answer: Result<Option<Value>, Seq<char>>|
            #![trigger wasmer_told(r, answer)]
            wasmer_told(r, answer) && may_answer::<FR, FE>(
                *dispatch_thunk,
                func,
                wasmer_values(params@),
                1,
                answer,
            ),
{
    let args = plain_wasmer_values(params);
    let outcome = serve_host_call::<FR, FE, SCH>(dispatch_thunk, func, args.as_slice());
    let ghost answer = answer_of(outcome);
    assert(host_call::<FR, FE>(*dispatch_thunk, func, wasmer_values(params@), outcome));
    assert(fitted(outcome, 1) == outcome);
    assert(may_answer::<FR, FE>(*dispatch_thunk, func, wasmer_values(params@), 1, answer));
    let r = match outcome {
        Ok(None) => Ok(Vec::new()),
        Ok(Some(value)) => {
            let mut values: Vec<WasmerValue<wasmer::Function>> = Vec::new();
            values.push(wasmer_number(value));
            assert(wasmer_values(values@) =~= seq![EngineValue::Number(value)]);
            Ok(values)
        },
        Err(error) => Err(wasmer_error(compiled_message(&error))),
    };
    assert(wasmer_told(r, answer));
    r
}

/// Serves a call that a guest of the engine makes to a host function, in the context that was found
/// at the beginning of its turn, and ends the turn.
pub fn take_wasmer_turn<'c, FR, FE, SCH>(
    dispatch_thunk: &FR,
    func_idx: SupervisorFuncIndex,
    turn: Turn<'c>,
    params: &[WasmerValue<wasmer::Function>],
) -> (r: Left<'c, Result<Vec<WasmerValue<wasmer::Function>>, wasmer::RuntimeError>>) where
    FE: SandboxCapabilities<SupervisorFuncRef = FR>,
    SCH: SandboxCapabiliesHolder<SupervisorFuncRef = FR, SC = FE>,

    ensures
        r.cell() == turn.cell(),
        leaves_context(turn.found(), r.left()),
        exists|answer: Result<Option<Value>, Seq<char>>|
            #![trigger wasmer_told(r.outcome(), answer)]
            wasmer_told(r.outcome(), answer) && (wasmer_answers_of::<FR, FE>(
                *dispatch_thunk,
                func_idx,
            ))(turn.found(), wasmer_values(params@), 1, answer),
{
    let state: u32 = turn.state();
    let outcome = serve_wasmer_call::<FR, FE, SCH>(
        dispatch_thunk,
        HostFunc { func_idx, state },
        params,
    );
    turn.leave(outcome)
}

/// Serves a call that a guest of the engine makes to a host function, in the context that `cell`
/// holds, and puts this context back into `cell`.
pub fn answer_wasmer_call<FR, FE, SCH>(
    dispatch_thunk: &FR,
    func_idx: SupervisorFuncIndex,
    cell: &StateCell,
    params: &[WasmerValue<wasmer::Function>],
) -> (r: Result<Vec<WasmerValue<wasmer::Function>>, wasmer::RuntimeError>) where
    FE: SandboxCapabilities<SupervisorFuncRef = FR>,
    SCH: SandboxCapabiliesHolder<SupervisorFuncRef = FR, SC = FE>,

    ensures
        exists|state: u32, answer: Result<Option<Value>, Seq<char>>|
            #![trigger cell_may_hold(*cell, state), wasmer_told(r, answer)]
            cell_may_hold(*cell, state) && wasmer_told(r, answer) && may_answer::<FR, FE>(
                *dispatch_thunk,
                HostFunc { func_idx, state },
                wasmer_values(params@),
                1,
                answer,
            ),
{
    take_wasmer_turn::<FR, FE, SCH>(
        dispatch_thunk,
        func_idx,
        Turn::begin(cell),
        params,
    ).into_outcome()
}

/// Calls `wasmer::Function::new`, which makes a host function of the given type. Whenever a guest
/// calls it, it begins a turn and runs [`take_wasmer_turn`] on the arguments of the call, so that it
/// answers as that function does and leaves the cell as that function does. The engine itself
/// refuses results that do not fit the type.
#[verifier::external_body]
fn new_wasmer_func<FR, FE, SCH>(
    store: &WasmerStore,
    ty: &wasmer::FunctionType,
    dispatch_thunk: FR,
    func_idx: SupervisorFuncIndex,
    cell: StateCell,
) -> (r: wasmer::Function) where
    FR: Send + Sync + 'static,
    FE: SandboxCapabilities<SupervisorFuncRef = FR>,
    SCH: SandboxCapabiliesHolder<SupervisorFuncRef = FR, SC = FE>,

    ensures
        wasmer_host_func(r) == (HostImport {
            ty: *ty,
            cell,
            answers: wasmer_answers_of::<FR, FE>(dispatch_thunk, func_idx),
            leaves: |found: u32, left: u32| leaves_context(found, left),
        }),
{
    wasmer::Function::new(store, ty, move |params| {
        let turn = Turn::begin(&cell);
        take_wasmer_turn::<FR, FE, SCH>(&dispatch_thunk, func_idx, turn, params).into_outcome()
    })
}

/// Something that a module is given for an import, before it is handed to the engine.
pub enum Supply {
    /// A memory.
    Memory(WasmerMemory),
    /// A host function.
    Function(wasmer::Function),
}

impl Supply {
    /// What the engine sees of this.
    pub open spec fn offer(self) -> Offer {
        match self {
            Supply::Memory(memory) => Offer::Memory(memory),
            Supply::Function(func) => Offer::Function(wasmer_host_func(func)),
        }
    }
}

/// Calls `wasmer::Exports::new`, which makes an empty collection.
#[verifier::external_body]
fn new_wasmer_exports() -> (r: wasmer::Exports)
    ensures
        wasmer_exports(r) == ModuleOffers::empty(),
        wasmer_exports_unshared(r),
{
    wasmer::Exports::new()
}

/// Calls `wasmer::Exports::insert`, which puts something under a name, in place of what stood
/// there. It panics on a collection of which a clone is still around.
#[verifier::external_body]
fn insert_wasmer_export(exports: &mut wasmer::Exports, name: &str, supply: Supply)
    requires
        wasmer_exports_unshared(*old(exports)),
    ensures
        wasmer_exports(*final(exports)) == wasmer_exports(*old(exports)).insert(
            name@,
            supply.offer(),
        ),
        wasmer_exports_unshared(*final(exports)),
{
    exports.insert(name, match supply {
        Supply::Memory(memory) => wasmer::Extern::Memory(memory),
        Supply::Function(func) => wasmer::Extern::Function(func),
    });
}

/// Calls `wasmer::ImportObject::new`, which makes an empty object.
#[verifier::external_body]
fn new_import_object() -> (r: wasmer::ImportObject)
    ensures
        wasmer_import_object(r) == Offers::empty(),
{
    wasmer::ImportObject::new()
}

/// Calls `wasmer::ImportObject::register`, which puts a collection under the name of a module, in
/// place of what stood there.
#[verifier::external_body]
fn register_exports(object: &mut wasmer::ImportObject, module: String, exports: wasmer::Exports)
    ensures
        wasmer_import_object(*final(object)) == wasmer_import_object(*old(object)).insert(
            module@,
            wasmer_exports(exports),
        ),
{
    object.register(module, exports);
}

/// Calls `wasmer::Instance::new`, which resolves the imports of a module by name, instantiates the
/// module and runs its start function. An import that is not resolved, or is resolved to something
/// of another kind, is an error of linking. It panics on a memory with smaller guards than the
/// module expects.
///
/// Before the call `AtomicU32::store` puts `state` into `cell`, where all functions that are handed
/// over read it. Nobody can call the instance yet, so that it stays there.
#[verifier::external_body]
fn new_wasmer_instance(
    module: &wasmer::Module,
    object: &wasmer::ImportObject,
    cell: &StateCell,
    state: u32,
) -> (r: Result<wasmer::Instance, EngineFailure>)
    requires
        wasmer_plain_module(*module),
        all_usable(wasmer_import_object(*object), *cell),
    ensures
        wasmer_may_instantiate(
            wasmer_module_code(*module),
            wasmer_while(wasmer_import_object(*object), state),
            r,
        ),
        r is Ok ==> wasmer_plain_instance(r->Ok_0),
        r is Ok ==> wasmer_instance_offers(r->Ok_0) == wasmer_import_object(*object),
        !all_offered(
            wasmer_import_object(*object),
            wasmer_module_imports(wasmer_module_code(*module)),
        ) ==> r is Err && r->Err_0 is Link,
{
    cell.cell.store(state, Ordering::SeqCst);
    wasmer::Instance::new(module, object).map_err(|error| match error {
        wasmer::InstantiationError::Link(_) => EngineFailure::Link,
        wasmer::InstantiationError::Start(_) => EngineFailure::Start,
        wasmer::InstantiationError::HostEnvInitialization(_) => EngineFailure::HostEnvironment,
    })
}

/// Calls `wasmer::Exports::get_function` on the exports of an instance, which finds an exported
/// function by its name. The exports of an instance are fixed.
#[verifier::external_body]
fn find_wasmer_func<'i>(instance: &'i wasmer::Instance, name: &str) -> (r: Option<
    &'i wasmer::Function,
>)
    ensures
        match r {
            Some(func) => wasmer_exported_func(*instance, name@) == Some(*func),
            None => wasmer_exported_func(*instance, name@) is None,
        },
{
    instance.exports.get_function(name).ok()
}

/// Calls `wasmer::Function::call` on a function that `instance` exports, and turns an error into
/// its text. It does not return if guest code does not. It panics on a function that returns a
/// reference.
///
/// Before the call `AtomicU32::store` puts `state` into `cell`, where all functions that the
/// instance imports read it. Only they can lead to further calls of the instance, and each of them
/// leaves in the cell what it found there before guest code goes on.
#[verifier::external_body]
fn call_wasmer_func(
    _instance: &wasmer::Instance,
    func: &wasmer::Function,
    args: &[WasmerValue<wasmer::Function>],
    cell: &StateCell,
    state: u32,
) -> (r: Result<Vec<WasmerValue<wasmer::Function>>, String>)
    requires
        exists|name: Seq<char>| #[trigger] wasmer_exported_func(*_instance, name) == Some(*func),
        wasmer_plain_instance(*_instance),
        all_usable(wasmer_instance_offers(*_instance), *cell),
    ensures
        wasmer_may_return(
            *func,
            wasmer_values(args@),
            wasmer_while(wasmer_instance_offers(*_instance), state),
            match r {
                Ok(results) => Ok(wasmer_values(results@)),
                Err(text) => Err(text@),
            },
        ),
{
    cell.cell.store(state, Ordering::SeqCst);
    func.call(args).map(|results| results.into_vec()).map_err(|error| error.to_string())
}

/// Calls `wasmer::Exports::get_global` and `wasmer::Global::get`, which give the present value of
/// an exported global. The latter panics on a global that holds a reference.
#[verifier::external_body]
fn wasmer_global(instance: &wasmer::Instance, name: &str) -> (r: Option<
    WasmerValue<wasmer::Function>,
>)
    requires
        wasmer_plain_instance(*instance),
    ensures
        wasmer_may_hold(
            *instance,
            name@,
            match r {
                Some(value) => Some(wasmer_value(value)),
                None => None,
            },
        ),
        (r is Some && wasmer_value(r->Some_0) is Number) == wasmer_exports_number(
            *instance,
            name@,
        ),
{
    Some(instance.exports.get_global(name).ok()?.get())
}

/// What an import is to be given.
pub enum Wanted {
    /// A memory.
    Memory(WasmerMemory),
    /// A host function of a type.
    Function(wasmer::FunctionType, SupervisorFuncIndex),
}

/// What imports are to be given: by the name of a module, and in it by the name of a field.
pub type WantedOffers = Map<Seq<char>, Map<Seq<char>, Wanted>>;

/// `offers` with one more offer, in place of what stood under its name.
pub open spec fn add_offer<T>(
    offers: Map<Seq<char>, Map<Seq<char>, T>>,
    module: Seq<char>,
    name: Seq<char>,
    offer: T,
) -> Map<Seq<char>, Map<Seq<char>, T>> {
    let before = if offers.dom().contains(module) {
        offers[module]
    } else {
        Map::empty()
    };
    offers.insert(module, before.insert(name, offer))
}

/// What an import is to be given. A function that the environment does not offer, a global and a
/// table are left out. A memory that the environment does not offer is an error.
pub open spec fn wanted_for(
    import: ImportView<wasmer::FunctionType>,
    environment: (ImportsView, Seq<SupervisorFuncIndex>),
) -> Result<Option<Wanted>, InstantiationError> {
    let name = qualified(import.module, import.name);
    match import.kind {
        ImportKind::Function(ty) => match func_named(environment, name) {
            Some(func_idx) => Ok(Some(Wanted::Function(ty, func_idx))),
            None => Ok(None),
        },
        ImportKind::Memory => match lookup(environment.0.memories, name) {
            Some(Memory::Wasmer(memory)) => Ok(Some(Wanted::Memory(memory@))),
            _ => Err(InstantiationError::Instantiation),
        },
        ImportKind::Global | ImportKind::Table => Ok(None),
    }
}

/// What the imports of a module are to be given. Of two imports under one name the later counts.
pub open spec fn wanted_offers(
    imports: Seq<ImportView<wasmer::FunctionType>>,
    environment: (ImportsView, Seq<SupervisorFuncIndex>),
) -> Result<WantedOffers, InstantiationError>
    decreases imports.len(),
{
    if imports.len() == 0 {
        Ok(Map::empty())
    } else {
        match wanted_offers(imports.drop_last(), environment) {
            Err(error) => Err(error),
            Ok(before) => match wanted_for(imports.last(), environment) {
                Err(error) => Err(error),
                Ok(None) => Ok(before),
                Ok(Some(wanted)) => Ok(
                    add_offer(before, imports.last().module, imports.last().name, wanted),
                ),
            },
        }
    }
}

/// Whether `offer` is what is wanted.
pub open spec fn offer_serves<
    FR: Clone,
    FE: SandboxCapabilities<SupervisorFuncRef = FR>,
>(
    dispatch_thunk: FR,
    wanted: Wanted,
    cell: StateCell,
    offer: Offer,
) -> bool {
    match (wanted, offer) {
        (Wanted::Memory(memory), Offer::Memory(given)) => given == memory,
        (Wanted::Function(ty, func_idx), Offer::Function(import)) => import.ty == ty
            && wasmer_serves::<FR, FE>(dispatch_thunk, func_idx, cell, import),
        _ => false,
    }
}

/// Whether there is an offer for everything that is wanted, and no other.
pub open spec fn offers_serve<
    FR: Clone,
    FE: SandboxCapabilities<SupervisorFuncRef = FR>,
>(
    dispatch_thunk: FR,
    wanted: WantedOffers,
    cell: StateCell,
    offers: Offers,
) -> bool {
    &&& offers.dom() == wanted.dom()
    &&& forall|module: Seq<char>| #[trigger]
        offers.dom().contains(module) ==> module_offers_serve::<FR, FE>(
            dispatch_thunk,
            wanted[module],
            cell,
            offers[module],
        )
}

/// Whether there is an offer for everything that is wanted under the name of one module, and no
/// other.
pub open spec fn module_offers_serve<
    FR: Clone,
    FE: SandboxCapabilities<SupervisorFuncRef = FR>,
>(
    dispatch_thunk: FR,
    wanted: Map<Seq<char>, Wanted>,
    cell: StateCell,
    offers: ModuleOffers,
) -> bool {
    &&& offers.dom() == wanted.dom()
    &&& forall|name: Seq<char>| #[trigger]
        offers.dom().contains(name) ==> offer_serves::<FR, FE>(
            dispatch_thunk,
            wanted[name],
            cell,
            offers[name],
        )
}

/// An instance of the wasmer engine, and the cell that its host functions read.
pub struct WasmerGuest {
    instance: wasmer::Instance,
    cell: StateCell,
}

impl WasmerGuest {
    /// The instance.
    pub closed spec fn instance(self) -> wasmer::Instance {
        self.instance
    }

    /// The cell that its host functions read.
    pub closed spec fn cell(self) -> StateCell {
        self.cell
    }

    /// The module was compiled in a store for numbers only, and all its host functions read the
    /// cell.
    #[verifier::type_invariant]
    spec fn wf(self) -> bool {
        &&& wasmer_plain_instance(self.instance)
        &&& all_usable(wasmer_instance_offers(self.instance), self.cell)
    }

    /// Whether a call of an exported function may end with `r`.
    pub open spec fn may_return(
        self,
        export_name: Seq<char>,
        args: Seq<Value>,
        state: u32,
        r: Result<Option<Value>, InvokeError>,
    ) -> bool {
        match wasmer_exported_func(self.instance(), export_name) {
            None => fails_with(r, "wasmer function failed"@),
            Some(func) => exists|reply: Result<Seq<EngineValue>, Seq<char>>| #[trigger]
                wasmer_may_return(
                    func,
                    engine_values(args),
                    wasmer_while(wasmer_instance_offers(self.instance()), state),
                    reply,
                ) && compiled_result(reply, r),
        }
    }

    /// Whether this instance may answer with `r` when it is asked for an exported global.
    pub open spec fn may_hold(self, name: Seq<char>, r: Option<Value>) -> bool {
        exists|global: Option<EngineValue>| #[trigger]
            wasmer_may_hold(self.instance(), name, global) && r == global_number(global)
    }

    /// Invokes an exported function.
    pub(crate) fn invoke(&self, export_name: &str, args: &[Value], state: u32) -> (r: Result<
        Option<Value>,
        InvokeError,
    >)
        ensures
            self.may_return(export_name@, args@, state, r),
    {
        proof {
            use_type_invariant(self);
        }
        let func = match find_wasmer_func(&self.instance, export_name) {
            Some(func) => func,
            None => {
                return Err(InvokeError::Function("wasmer function failed".to_owned()));
            },
        };
        let values = wasmer_numbers(args);
        let reply = match call_wasmer_func(
            &self.instance,
            func,
            values.as_slice(),
            &self.cell,
            state,
        ) {
            Ok(results) => Ok(plain_wasmer_values(results.as_slice())),
            Err(text) => Err(text),
        };
        assert(wasmer_may_return(
            wasmer_exported_func(self.instance(), export_name@)->Some_0,
            engine_values(args@),
            wasmer_while(wasmer_instance_offers(self.instance()), state),
            reply_view(reply),
        ));
        interpret_reply(reply)
    }

    /// Returns the number that an exported global holds.
    pub(crate) fn global_number(&self, name: &str) -> (r: Option<Value>)
        ensures
            self.may_hold(name@, r),
            r is Some == wasmer_exports_number(self.instance(), name@),
    {
        proof {
            use_type_invariant(self);
        }
        let global = match wasmer_global(&self.instance, name) {
            Some(value) => Some(plain_wasmer_value(&value)),
            None => None,
        };
        assert(wasmer_may_hold(self.instance(), name@, global));
        interpret_global(global)
    }
}

/// Whether `r` is what comes of the reply of the engine that was asked to instantiate a module
/// whose host functions read `cell`.
pub open spec fn wasmer_concluded(
    reply: Result<wasmer::Instance, EngineFailure>,
    cell: StateCell,
    r: Result<WasmerGuest, InstantiationError>,
) -> bool {
    match reported(reply) {
        Ok(instance) => r matches Ok(guest) && guest.instance() == instance && guest.cell() == cell,
        Err(error) => r == Err::<WasmerGuest, _>(error),
    }
}

/// Whether the instantiation of a module may end with `r`.
pub open spec fn wasmer_instantiation<
    FR: Clone,
    FE: SandboxCapabilities<SupervisorFuncRef = FR>,
>(
    wasm: Seq<u8>,
    environment: (ImportsView, Seq<SupervisorFuncIndex>),
    dispatch_thunk: FR,
    state: u32,
    r: Result<WasmerGuest, InstantiationError>,
) -> bool {
    let imports = wasmer_module_imports(wasm);
    ||| wasmer_may_compile(wasm, false) && r == Err::<WasmerGuest, _>(
        InstantiationError::ModuleDecoding,
    )
    ||| wasmer_may_compile(wasm, true) && match wanted_offers(imports, environment) {
        Err(error) => r == Err::<WasmerGuest, _>(error),
        Ok(wanted) => exists|
            offers: Offers,
            cell: StateCell,
            reply: Result<wasmer::Instance, EngineFailure>,
        | #[trigger]
            wasmer_may_instantiate(wasm, wasmer_while(offers, state), reply)
                && offers_serve::<FR, FE>(dispatch_thunk, wanted, cell, offers) && (
            reply matches Ok(instance) ==> wasmer_instance_offers(instance) == offers) && (
            !all_offered(offers, imports) ==> reply == Err::<wasmer::Instance, _>(
                EngineFailure::Link,
            )) && #[trigger] wasmer_concluded(reply, cell, r),
    }
}

proof fn lemma_add_offer_serves<FR: Clone, FE: SandboxCapabilities<SupervisorFuncRef = FR>>(
    dispatch_thunk: FR,
    wanted_before: WantedOffers,
    cell: StateCell,
    before: Offers,
    module: Seq<char>,
    name: Seq<char>,
    wanted: Wanted,
    offer: Offer,
)
    requires
        offers_serve::<FR, FE>(dispatch_thunk, wanted_before, cell, before),
        offer_serves::<FR, FE>(dispatch_thunk, wanted, cell, offer),
    ensures
        offers_serve::<FR, FE>(
            dispatch_thunk,
            add_offer(wanted_before, module, name, wanted),
            cell,
            add_offer(before, module, name, offer),
        ),
{
    let after = add_offer(before, module, name, offer);
    let wanted_after = add_offer(wanted_before, module, name, wanted);
    assert(after.dom() =~= wanted_after.dom());
    assert forall|m: Seq<char>| #[trigger] after.dom().contains(m) implies module_offers_serve::<
        FR,
        FE,
    >(dispatch_thunk, wanted_after[m], cell, after[m]) by {
        if m != module {
            assert(before.dom().contains(m));
        } else {
            assert(before.dom().contains(module) ==> module_offers_serve::<FR, FE>(
                dispatch_thunk,
                wanted_before[module],
                cell,
                before[module],
            ));
            assert(after[m].dom() =~= wanted_after[m].dom());
        }
    }
}

/// The exports that stand under the name of one module.
pub struct Namespace {
    pub module: String,
    pub exports: wasmer::Exports,
}

/// What a list of namespaces offers.
pub open spec fn namespaces_offer(namespaces: Seq<Namespace>) -> Offers
    decreases namespaces.len(),
{
    if namespaces.len() == 0 {
        Map::empty()
    } else {
        namespaces_offer(namespaces.drop_last()).insert(
            namespaces.last().module@,
            wasmer_exports(namespaces.last().exports),
        )
    }
}

/// No module has two namespaces, and no namespace is shared.
pub open spec fn namespaces_wf(namespaces: Seq<Namespace>) -> bool {
    &&& forall|i: int, j: int|
        0 <= i < j < namespaces.len() ==> (#[trigger] namespaces[i]).module@ != (
        #[trigger] namespaces[j]).module@
    &&& forall|i: int|
        0 <= i < namespaces.len() ==> wasmer_exports_unshared((#[trigger] namespaces[i]).exports)
}

proof fn lemma_namespace_offers(namespaces: Seq<Namespace>, module: Seq<char>)
    requires
        namespaces_wf(namespaces),
    ensures
        namespaces_offer(namespaces).dom().contains(module) <==> exists|i: int|
            0 <= i < namespaces.len() && (#[trigger] namespaces[i]).module@ == module,
        forall|i: int|
            0 <= i < namespaces.len() && (#[trigger] namespaces[i]).module@ == module
                ==> namespaces_offer(namespaces)[module] == wasmer_exports(namespaces[i].exports),
    decreases namespaces.len(),
{
    if namespaces.len() > 0 {
        let shorter = namespaces.drop_last();
        assert(namespaces_wf(shorter)) by {
            assert forall|i: int, j: int| 0 <= i < j < shorter.len() implies (
            #[trigger] shorter[i]).module@ != (#[trigger] shorter[j]).module@ by {
                assert(shorter[i] == namespaces[i] && shorter[j] == namespaces[j]);
            }
            assert forall|i: int| 0 <= i < shorter.len() implies wasmer_exports_unshared(
                (#[trigger] shorter[i]).exports,
            ) by {
                assert(shorter[i] == namespaces[i]);
            }
        }
        lemma_namespace_offers(shorter, module);
        assert(namespaces.last() == namespaces[namespaces.len() - 1]);
        assert forall|i: int|
            0 <= i < namespaces.len() && (#[trigger] namespaces[i]).module@
                == module implies namespaces_offer(namespaces)[module] == wasmer_exports(
            namespaces[i].exports,
        ) by {
            if i < namespaces.len() - 1 {
                assert(shorter[i] == namespaces[i]);
            }
        }
        if namespaces_offer(namespaces).dom().contains(module) && namespaces.last().module@
            != module {
            let i = choose|i: int| 0 <= i < shorter.len() && (#[trigger] shorter[i]).module@
                == module;
            assert(namespaces[i].module@ == module);
        }
        if exists|i: int| 0 <= i < namespaces.len() && (#[trigger] namespaces[i]).module@
            == module {
            let i = choose|i: int| 0 <= i < namespaces.len() && (
            #[trigger] namespaces[i]).module@ == module;
            if i < namespaces.len() - 1 {
                assert(shorter[i].module@ == module);
            }
        }
    }
}

proof fn lemma_same_modules(a: Seq<Namespace>, b: Seq<Namespace>, module: Seq<char>)
    requires
        namespaces_wf(a),
        namespaces_wf(b),
        a.len() == b.len(),
        forall|i: int| 0 <= i < a.len() ==> (#[trigger] a[i]).module@ == b[i].module@,
    ensures
        namespaces_offer(a).dom().contains(module) == namespaces_offer(b).dom().contains(module),
{
    lemma_namespace_offers(a, module);
    lemma_namespace_offers(b, module);
    if namespaces_offer(b).dom().contains(module) {
        let i = choose|i: int| 0 <= i < b.len() && (#[trigger] b[i]).module@ == module;
        assert(a[i].module@ == module);
    }
    if namespaces_offer(a).dom().contains(module) {
        let i = choose|i: int| 0 <= i < a.len() && (#[trigger] a[i]).module@ == module;
        assert(b[i].module@ == module);
    }
}

/// Finds the namespace of a module, or the number of namespaces if it has none.
fn find_namespace(namespaces: &Vec<Namespace>, module: &String) -> (r: usize)
    ensures
        r <= namespaces@.len(),
        r < namespaces@.len() ==> namespaces@[r as int].module@ == module@,
        r == namespaces@.len() ==> forall|j: int|
            0 <= j < namespaces@.len() ==> (#[trigger] namespaces@[j]).module@ != module@,
{
    let mut i: usize = 0;
    while i < namespaces.len()
        invariant
            i <= namespaces@.len(),
            forall|j: int| 0 <= j < i ==> (#[trigger] namespaces@[j]).module@ != module@,
        decreases namespaces@.len() - i,
    {
        if namespaces[i].module == *module {
            return i;
        }
        i = i + 1;
    }
    i
}

/// Puts something under a name, in the namespace of the module that the name gives.
fn add_supply(namespaces: &mut Vec<Namespace>, module: &String, name: &str, supply: Supply)
    requires
        namespaces_wf(old(namespaces)@),
    ensures
        namespaces_wf(final(namespaces)@),
        namespaces_offer(final(namespaces)@) == add_offer(
            namespaces_offer(old(namespaces)@),
            module@,
            name@,
            supply.offer(),
        ),
{
    let ghost before = namespaces@;
    let i: usize = find_namespace(namespaces, module);
    if i == namespaces.len() {
        namespaces.push(Namespace { module: module.clone(), exports: new_wasmer_exports() });
        proof {
            lemma_namespace_offers(before, module@);
            assert(namespaces@.drop_last() =~= before);
        }
    }
    let ghost ready = namespaces@;
    insert_wasmer_export(&mut namespaces[i].exports, name, supply);
    proof {
        let after = namespaces@;
        assert(namespaces_wf(ready));
        assert(after =~= ready.update(i as int, after[i as int]));
        assert(namespaces_wf(after));
        lemma_namespace_offers(ready, module@);
        lemma_namespace_offers(before, module@);
        assert forall|other: Seq<char>| #[trigger]
            namespaces_offer(after).dom().contains(other) == add_offer(
                namespaces_offer(before),
                module@,
                name@,
                supply.offer(),
            ).dom().contains(other) by {
            lemma_same_modules(ready, after, other);
        }
        assert forall|other: Seq<char>|
            namespaces_offer(after).dom().contains(other) implies #[trigger] namespaces_offer(
            after,
        )[other] == add_offer(namespaces_offer(before), module@, name@, supply.offer())[other] by {
            lemma_namespace_offers(after, other);
            lemma_namespace_offers(ready, other);
            let j = choose|j: int| 0 <= j < after.len() && (#[trigger] after[j]).module@ == other;
            assert(ready[j].module@ == other);
        }
        assert(namespaces_offer(after) =~= add_offer(
            namespaces_offer(before),
            module@,
            name@,
            supply.offer(),
        ));
    }
}

/// Registers all namespaces in an import object.
fn register_namespaces(namespaces: Vec<Namespace>) -> (r: wasmer::ImportObject)
    requires
        namespaces_wf(namespaces@),
    ensures
        wasmer_import_object(r) == namespaces_offer(namespaces@),
{
    let ghost all = namespaces_offer(namespaces@);
    let mut rest = namespaces;
    let mut object = new_import_object();
    assert(namespaces_offer(rest@).union_prefer_right(wasmer_import_object(object)) =~= all);
    while rest.len() > 0
        invariant
            namespaces_wf(rest@),
            namespaces_offer(rest@).dom().disjoint(wasmer_import_object(object).dom()),
            namespaces_offer(rest@).union_prefer_right(wasmer_import_object(object)) == all,
        decreases rest@.len(),
    {
        let ghost before = rest@;
        let ghost registered = wasmer_import_object(object);
        if let Some(namespace) = rest.pop() {
            proof {
                let module = namespace.module@;
                assert(rest@ =~= before.drop_last());
                assert(before.last() == namespace && before[before.len() - 1] == namespace);
                assert(namespaces_wf(rest@)) by {
                    assert forall|i: int, j: int| 0 <= i < j < rest@.len() implies (
                    #[trigger] rest@[i]).module@ != (#[trigger] rest@[j]).module@ by {
                        assert(rest@[i] == before[i] && rest@[j] == before[j]);
                    }
                    assert forall|i: int| 0 <= i < rest@.len() implies wasmer_exports_unshared(
                        (#[trigger] rest@[i]).exports,
                    ) by {
                        assert(rest@[i] == before[i]);
                    }
                }
                lemma_namespace_offers(rest@, module);
                if namespaces_offer(rest@).dom().contains(module) {
                    let i = choose|i: int|
                        0 <= i < rest@.len() && (#[trigger] rest@[i]).module@ == module;
                    assert(before[i].module@ == module);
                }
                assert(namespaces_offer(before).dom().contains(module));
                assert(!registered.dom().contains(module));
                assert(namespaces_offer(rest@).union_prefer_right(
                    registered.insert(module, wasmer_exports(namespace.exports)),
                ) =~= all);
            }
            register_exports(&mut object, namespace.module, namespace.exports);
        }
    }
    assert(wasmer_import_object(object) =~= all);
    object
}

/// Provides what an import is to be given.
fn supply_import<FR, FE, SCH>(
    store: &WasmerStore,
    import: &Import<wasmer::FunctionType>,
    guest_env: &GuestEnvironment,
    dispatch_thunk: &FR,
    cell: &StateCell,
) -> (r: Result<Option<Supply>, InstantiationError>) where
    FR: Clone + Send + Sync + 'static,
    FE: SandboxCapabilities<SupervisorFuncRef = FR>,
    SCH: SandboxCapabiliesHolder<SupervisorFuncRef = FR, SC = FE>,

    ensures
        match wanted_for(import@, guest_env@) {
            Err(error) => r == Err::<Option<Supply>, _>(error),
            Ok(None) => r == Ok::<Option<Supply>, InstantiationError>(None),
            Ok(Some(wanted)) => r matches Ok(Some(supply)) && offer_serves::<FR, FE>(
                *dispatch_thunk,
                wanted,
                *cell,
                supply.offer(),
            ),
        },
        r matches Ok(Some(supply)) ==> is_usable(supply.offer(), *cell),
{
    match &import.kind {
        ImportKind::Global => Ok(None),
        ImportKind::Table => Ok(None),
        ImportKind::Memory => match guest_env.imports.memory_by_name(
            import.module.as_str(),
            import.name.as_str(),
        ) {
            Some(memory) => match memory.as_wasmer() {
                Some(memory) => Ok(Some(Supply::Memory(memory))),
                None => Err(InstantiationError::Instantiation),
            },
            None => Err(InstantiationError::Instantiation),
        },
        ImportKind::Function(ty) => match find_func(
            guest_env,
            import.module.as_str(),
            import.name.as_str(),
        ) {
            Some(func_idx) => {
                let thunk = dispatch_thunk.clone();
                assert(cloned(*dispatch_thunk, thunk));
                let func = new_wasmer_func::<FR, FE, SCH>(store, ty, thunk, func_idx, cell.share());
                Ok(Some(Supply::Function(func)))
            },
            None => Ok(None),
        },
    }
}

/// Provides what the imports of a module are to be given.
fn supply_imports<FR, FE, SCH>(
    store: &WasmerStore,
    imports: &Vec<Import<wasmer::FunctionType>>,
    guest_env: &GuestEnvironment,
    dispatch_thunk: &FR,
    cell: &StateCell,
) -> (r: Result<wasmer::ImportObject, InstantiationError>) where
    FR: Clone + Send + Sync + 'static,
    FE: SandboxCapabilities<SupervisorFuncRef = FR>,
    SCH: SandboxCapabiliesHolder<SupervisorFuncRef = FR, SC = FE>,

    ensures
        match wanted_offers(import_views(imports@), guest_env@) {
            Err(error) => r == Err::<wasmer::ImportObject, _>(error),
            Ok(wanted) => r matches Ok(object) && offers_serve::<FR, FE>(
                *dispatch_thunk,
                wanted,
                *cell,
                wasmer_import_object(object),
            ),
        },
        r matches Ok(object) ==> all_usable(wasmer_import_object(object), *cell),
{
    let ghost all = import_views(imports@);
    let mut namespaces: Vec<Namespace> = Vec::new();
    let mut i: usize = 0;
    assert(all.take(0) =~= Seq::empty());
    while i < imports.len()
        invariant
            i <= imports@.len(),
            all == import_views(imports@),
            namespaces_wf(namespaces@),
            wanted_offers(all.take(i as int), guest_env@) matches Ok(wanted) && offers_serve::<FR, FE>(
                *dispatch_thunk,
                wanted,
                *cell,
                namespaces_offer(namespaces@),
            ),
            all_usable(namespaces_offer(namespaces@), *cell),
        decreases imports@.len() - i,
    {
        let import = &imports[i];
        let ghost before = namespaces_offer(namespaces@);
        let ghost wanted_before = wanted_offers(all.take(i as int), guest_env@)->Ok_0;
        proof {
            assert(all.take(i + 1).drop_last() =~= all.take(i as int));
            assert(all.take(i + 1).last() == import@);
        }
        match supply_import::<FR, FE, SCH>(store, import, guest_env, dispatch_thunk, cell) {
            Err(error) => {
                proof {
                    lemma_refusal_stays(all, guest_env@, i + 1);
                }
                return Err(error);
            },
            Ok(None) => {},
            Ok(Some(supply)) => {
                proof {
                    let wanted = wanted_for(import@, guest_env@)->Ok_0->Some_0;
                    lemma_add_offer_serves::<FR, FE>(
                        *dispatch_thunk,
                        wanted_before,
                        *cell,
                        before,
                        import@.module,
                        import@.name,
                        wanted,
                        supply.offer(),
                    );
                }
                add_supply(&mut namespaces, &import.module, import.name.as_str(), supply);
            },
        }
        i = i + 1;
    }
    assert(all.take(i as int) =~= all);
    Ok(register_namespaces(namespaces))
}

/// An import that is refused decides, whatever comes after it.
proof fn lemma_refusal_stays(
    imports: Seq<ImportView<wasmer::FunctionType>>,
    environment: (ImportsView, Seq<SupervisorFuncIndex>),
    i: int,
)
    requires
        0 <= i <= imports.len(),
        wanted_offers(imports.take(i), environment) is Err,
    ensures
        wanted_offers(imports, environment) == wanted_offers(
            imports.take(i),
            environment,
        ),
    decreases imports.len(),
{
    if i < imports.len() {
        assert(imports.drop_last().take(i) =~= imports.take(i));
        lemma_refusal_stays(imports.drop_last(), environment, i);
    } else {
        assert(imports.take(i) =~= imports);
    }
}

/// Instantiates a module. Its host functions read the context of a call from the cell that comes
/// with the instance.
pub fn instantiate_wasmer<FR, FE, SCH>(
    backend: &WasmerBackend,
    wasm: &[u8],
    guest_env: &GuestEnvironment,
    dispatch_thunk: &FR,
    state: u32,
) -> (r: Result<WasmerGuest, InstantiationError>) where
    FR: Clone + Send + Sync + 'static,
    FE: SandboxCapabilities<SupervisorFuncRef = FR>,
    SCH: SandboxCapabiliesHolder<SupervisorFuncRef = FR, SC = FE>,

    ensures
        wasmer_instantiation::<FR, FE>(wasm@, guest_env@, *dispatch_thunk, state, r),
{
    let store = backend.store();
    let module = match compile_wasmer_module(store, wasm) {
        Some(module) => module,
        None => {
            return Err(InstantiationError::ModuleDecoding);
        },
    };
    let imports = list_wasmer_imports(&module);
    let cell = StateCell::new();
    let object = match supply_imports::<FR, FE, SCH>(
        store,
        &imports,
        guest_env,
        dispatch_thunk,
        &cell,
    ) {
        Ok(object) => object,
        Err(error) => {
            return Err(error);
        },
    };
    let reply = new_wasmer_instance(&module, &object, &cell, state);
    let r = match report(reply) {
        Ok(instance) => Ok(WasmerGuest { instance, cell }),
        Err(error) => Err(error),
    };
    assert(wasmer_concluded(reply, cell, r));
    r
}

} // verus!
