//! Properties of the functions and memories that instances are linked with.
//!
//! They hold of whatever an engine makes of a guest: each call that it makes to an import reaches the
//! supervisor function that the environment definition gives, with the context of the call that the
//! supervisor made.

use crate::backend::{BackendInstance, SandboxBackend};
use crate::capabilities::{Call, SandboxCapabilities};
use crate::codec::EntryView;
use crate::dispatch::{calls_between, numbers_of, DispatchError};
use crate::dispatch_laws::{
    hands_back, hands_back_a_value, hands_on, law_calls_are_handed_on,
    law_numbers_are_the_arguments, succeeded, went_wrong,
};
use crate::engine_wasmer::{
    all_offered, is_offered, module_offers_serve, offer_serves, offers_serve, wanted_for,
    wanted_offers, wasmer_answers_of, wasmer_concluded, wasmer_error_message, wasmer_exported_func,
    wasmer_instance_offers, wasmer_instantiation, wasmer_may_compile, wasmer_may_hold,
    wasmer_may_instantiate, wasmer_may_return, wasmer_module_imports, wasmer_serves, wasmer_told,
    wasmer_value, wasmer_values, wasmer_while, Offer, OfferWhile, Offers, WasmerGuest,
};
use crate::engine_wasmi::{
    wasmi_accepts, wasmi_exports_func, wasmi_may_hold, wasmi_may_link, wasmi_may_return,
    wasmi_may_start,
};
use crate::engine_wasmtime::{
    imports_serve, wanted_func, wanted_funcs, wasmtime_answers_of, wasmtime_concluded,
    wasmtime_exported_func, wasmtime_instance_imports, wasmtime_instantiation, wasmtime_may_compile,
    wasmtime_may_hold, wasmtime_may_instantiate, wasmtime_may_return, wasmtime_module_imports,
    wasmtime_serves, wasmtime_told, wasmtime_trap_message, wasmtime_value, wasmtime_values,
    wasmtime_while, WasmtimeGuest,
};
use crate::environment::{
    environment_of, is_last_func, is_last_memory, law_environment_offers_defined_functions,
    law_import_gets_last_memory, law_import_reaches_last_definition, lemma_memory_is_defined,
};
use crate::error::{Error, InstantiationError, InvokeError};
use crate::guest::{
    guest_answers, guest_may_answer, guest_served, is_answer, wasmi_outcome, wasmi_trap_error,
    wasmi_value, GuestAnswers,
};
use crate::host::{
    answer_of, compiled_result, engine_values, fitted, func_named, host_call, host_request,
    may_answer, served, Answers, CallAnswers, EngineFailure, HostFunc, HostImport, ImportKind,
    ImportView,
};
use crate::imports::ImportsView;
use crate::instance::SandboxInstance;
use crate::instantiation::{comes_of, instantiation, wasmer_reply, wasmtime_reply};
use crate::mapping::SupervisorFuncIndex;
use crate::memory::Memory;
use crate::names::{lookup, qualified};
use crate::state::StateCell;
use crate::store_laws::{lemma_offered_is_wanted, lemma_wanted_funcs_bounded};
use crate::value::{EngineValue, Value};
use vstd::prelude::*;
use vstd::utf8::encode_utf8;
use wasmer_types::Value as WasmerValue;
use wasmi::Error as WasmiError;

verus! {

/// Whether the calls that took a supervisor from `before` to `after` hand a call of a guest on.
pub open spec fn delivered<FR, FE: SandboxCapabilities<SupervisorFuncRef = FR>>(
    dispatch_thunk: FR,
    func_idx: SupervisorFuncIndex,
    state: u32,
    values: Seq<Value>,
    before: FE,
    after: FE,
) -> bool {
    &&& before.calls().is_prefix_of(after.calls())
    &&& hands_on(
        after.calls().skip(before.calls().len() as int),
        dispatch_thunk,
        func_idx,
        state,
        values,
    )
}

/// Whether `calls` end with an invocation that failed with `error` and the release of its arguments.
pub open spec fn ends_with_error<FR>(calls: Seq<Call<FR>>, error: Error) -> bool {
    &&& calls.len() >= 2
    &&& calls[calls.len() - 2] is Invoke
    &&& calls[calls.len() - 2]->reply == Err::<i64, _>(error)
    &&& succeeded(calls.last())
}

/// Whether `args` are the numbers `values`.
pub open spec fn are_numbers(args: Seq<EngineValue>, values: Seq<Value>) -> bool {
    &&& values.len() == args.len()
    &&& forall|i: int| 0 <= i < args.len() ==> (#[trigger] args[i]) == EngineValue::Number(values[i])
}

/// Whether `answer` is one that a compiled guest may get when it calls a supervisor function: the
/// call was handed on and the answer is what came back, or it failed before since its arguments
/// cannot be handed on. A call that was handed on fails only if something went wrong on the way, or
/// if a value came back where the guest expects none.
pub open spec fn is_answered<FR, FE: SandboxCapabilities<SupervisorFuncRef = FR>>(
    dispatch_thunk: FR,
    func_idx: SupervisorFuncIndex,
    state: u32,
    args: Seq<EngineValue>,
    slots: nat,
    answer: Result<Option<Value>, Seq<char>>,
) -> bool {
    ||| exists|values: Seq<Value>, before: FE, after: FE| #[trigger]
        delivered::<FR, FE>(dispatch_thunk, func_idx, state, values, before, after) && are_numbers(
            args,
            values,
        ) && (answer matches Ok(value) ==> hands_back(
            after.calls().skip(before.calls().len() as int),
            value,
        )) && (answer is Err ==> went_wrong(after.calls().skip(before.calls().len() as int)) || (
        slots == 0 && hands_back_a_value(after.calls().skip(before.calls().len() as int)))) && (forall|
            error: Error,
        | #[trigger]
            ends_with_error(after.calls().skip(before.calls().len() as int), error) ==> answer
                == Err::<Option<Value>, _>(error.text()))
    ||| answer is Err && (args.len() > u32::MAX || exists|i: int|
        0 <= i < args.len() && !((#[trigger] args[i]) is Number))
}

/// Whether `answers` are those of a host function that calls a supervisor function, in whatever
/// context it is called.
pub open spec fn calls_func<FR, FE: SandboxCapabilities<SupervisorFuncRef = FR>>(
    answers: Answers,
    dispatch_thunk: FR,
    func_idx: SupervisorFuncIndex,
) -> bool {
    forall|
        state: u32,
        args: Seq<EngineValue>,
        slots: nat,
        answer: Result<Option<Value>, Seq<char>>,
    | #[trigger]
        answers(state, args, slots, answer) ==> is_answered::<FR, FE>(
            dispatch_thunk,
            func_idx,
            state,
            args,
            slots,
            answer,
        )
}

/// Whether `answers` are those of a host function for what is imported under a name: it calls the
/// supervisor function that the last entry under this name gives, through a clone of
/// `dispatch_thunk`.
pub open spec fn calls_defined_func<FR: Clone, FE: SandboxCapabilities<SupervisorFuncRef = FR>>(
    answers: Answers,
    dispatch_thunk: FR,
    entries: Seq<EntryView>,
    module: Seq<char>,
    name: Seq<char>,
) -> bool {
    exists|thunk: FR, i: int|
        #![trigger cloned(dispatch_thunk, thunk), entries[i]]
        cloned(dispatch_thunk, thunk) && is_last_func(entries, i) && entries[i].module_name
            == encode_utf8(module) && entries[i].field_name == encode_utf8(name) && calls_func::<
            FR,
            FE,
        >(answers, thunk, SupervisorFuncIndex(entries[i].entity->Function_0 as usize))
}

/// Whether a host function of a compiled guest reads the context of calls from `cell`, and leaves it
/// there for the guest code that goes on.
pub open spec fn keeps_context<FT>(import: HostImport<FT>, cell: StateCell) -> bool {
    &&& import.cell == cell
    &&& forall|found: u32, left: u32| #[trigger] (import.leaves)(found, left) ==> left == found
}

/// Whether `answers` are those of a host function while the context of calls is `state`.
pub open spec fn answers_during<FT>(
    answers: CallAnswers,
    import: HostImport<FT>,
    state: u32,
) -> bool {
    forall|args: Seq<EngineValue>, slots: nat, answer: Result<Option<Value>, Seq<char>>| #[trigger]
        answers(args, slots, answer) <==> (import.answers)(state, args, slots, answer)
}

/// Whether the caller of an exported function gets `r` when a compiled engine gives `reply`: the one
/// number that the function returned, nothing if it returned nothing, and an error otherwise.
pub open spec fn is_outcome(
    reply: Result<Seq<EngineValue>, Seq<char>>,
    r: Result<Option<Value>, InvokeError>,
) -> bool {
    match reply {
        Err(text) => r matches Err(InvokeError::Function(given)) && given@ == text,
        Ok(results) => match r {
            Ok(None) => results.len() == 0,
            Ok(Some(value)) => results == seq![EngineValue::Number(value)],
            Err(_) => results.len() > 1 || (results.len() == 1 && !(results[0] is Number)),
        },
    }
}

proof fn lemma_is_answered<FR, FE: SandboxCapabilities<SupervisorFuncRef = FR>>(
    dispatch_thunk: FR,
    func: HostFunc,
    args: Seq<EngineValue>,
    slots: nat,
    answer: Result<Option<Value>, Seq<char>>,
)
    requires
        may_answer::<FR, FE>(dispatch_thunk, func, args, slots, answer),
    ensures
        is_answered::<FR, FE>(dispatch_thunk, func.func_idx, func.state, args, slots, answer),
        slots == 0 ==> !(answer matches Ok(Some(_))),
{
    let outcome = choose|outcome: Result<Option<Value>, DispatchError>| #[trigger]
        host_call::<FR, FE>(dispatch_thunk, func, args, outcome) && answer == answer_of(
            fitted(outcome, slots),
        );
    if exists|values: Seq<Value>| #[trigger] are_numbers(args, values) && values.len() <= u32::MAX {
        let values = choose|values: Seq<Value>| #[trigger]
            are_numbers(args, values) && values.len() <= u32::MAX;
        law_numbers_are_the_arguments(args, values);
        let (before, after) = choose|before: FE, after: FE| #[trigger]
            served::<FR, FE>(
                host_request(dispatch_thunk, func, values),
                before,
                after,
                outcome,
            );
        let calls = calls_between(before.calls(), after.calls());
        law_calls_are_handed_on(
            dispatch_thunk,
            func.func_idx,
            func.state,
            values,
            calls,
            outcome,
        );
        assert(delivered::<FR, FE>(
            dispatch_thunk,
            func.func_idx,
            func.state,
            values,
            before,
            after,
        ));
        if let Ok(Some(value)) = outcome {
            assert(hands_back(calls, Some(value)));
        }
        if calls.len() > 4 {
            assert(calls.skip(4)[0] == calls[4] && calls.skip(4)[1] == calls[5]);
        }
        if calls.len() >= 4 {
            assert(calls.take(2)[0] == calls[0] && calls.take(2)[1] == calls[1]);
        }
    } else {
        if args.len() <= u32::MAX && forall|i: int|
            0 <= i < args.len() ==> (#[trigger] args[i]) is Number {
            let values = args.map_values(|arg: EngineValue| arg->Number_0);
            assert(are_numbers(args, values));
        }
        if let Some(values) = numbers_of(args) {
            law_numbers_are_the_arguments(args, values);
            assert(are_numbers(args, values));
        }
    }
}

/// The entry that gives the supervisor function behind an import.
proof fn lemma_calls_defined_func<FR: Clone, FE: SandboxCapabilities<SupervisorFuncRef = FR>>(
    answers: Answers,
    dispatch_thunk: FR,
    thunk: FR,
    entries: Seq<EntryView>,
    memories: Seq<Option<Memory>>,
    environment: (ImportsView, Seq<SupervisorFuncIndex>),
    module: Seq<char>,
    name: Seq<char>,
    func_idx: SupervisorFuncIndex,
)
    requires
        entries.len() <= usize::MAX,
        environment_of(entries, memories) == Ok::<_, InstantiationError>(environment),
        func_named(environment, qualified(module, name)) == Some(func_idx),
        cloned(dispatch_thunk, thunk),
        calls_func::<FR, FE>(answers, thunk, func_idx),
    ensures
        calls_defined_func::<FR, FE>(answers, dispatch_thunk, entries, module, name),
{
    let wanted = qualified(module, name);
    law_environment_offers_defined_functions(entries, memories, environment, wanted);
    let i = choose|i: int|
        is_last_func(entries, i) && (#[trigger] entries[i]).name() == wanted
            && environment.0.funcs[wanted].0 < environment.1.len()
            && environment.1[environment.0.funcs[wanted].0 as int] == SupervisorFuncIndex(
            entries[i].entity->Function_0 as usize,
        );
    assert(entries[i].name() == wanted);
}

/// How host functions of the wasmtime engine are seen while the context of calls is `state`.
pub open spec fn wasmtime_funcs_during(
    funcs: Seq<(wasmtime::FuncType, CallAnswers)>,
    imports: Seq<HostImport<wasmtime::FuncType>>,
    state: u32,
) -> bool {
    &&& funcs.len() == imports.len()
    &&& forall|i: int|
        0 <= i < imports.len() ==> (#[trigger] funcs[i]).0 == imports[i].ty && answers_during(
            funcs[i].1,
            imports[i],
            state,
        )
}

proof fn lemma_wanted_funcs_align(
    imports: Seq<ImportView<wasmtime::FuncType>>,
    environment: (ImportsView, Seq<SupervisorFuncIndex>),
    i: int,
)
    requires
        wanted_funcs(imports, environment).len() == imports.len(),
        0 <= i < imports.len(),
    ensures
        wanted_func(imports[i], environment) == Some(wanted_funcs(imports, environment)[i]),
    decreases imports.len(),
{
    let shorter = imports.drop_last();
    lemma_wanted_funcs_bounded(shorter, environment);
    if i < imports.len() - 1 {
        lemma_wanted_funcs_align(shorter, environment, i);
        assert(imports[i] == shorter[i]);
    }
}

/// Whether host function `import` of the wasmtime engine is the one for an import of a module.
pub open spec fn wasmtime_links<FR: Clone, FE: SandboxCapabilities<SupervisorFuncRef = FR>>(
    import: HostImport<wasmtime::FuncType>,
    wanted: ImportView<wasmtime::FuncType>,
    cell: StateCell,
    dispatch_thunk: FR,
    entries: Seq<EntryView>,
) -> bool {
    &&& wanted.kind == ImportKind::Function(import.ty)
    &&& keeps_context(import, cell)
    &&& calls_defined_func::<FR, FE>(
        import.answers,
        dispatch_thunk,
        entries,
        wanted.module,
        wanted.name,
    )
    &&& forall|state: u32, args: Seq<EngineValue>, answer: Result<Option<Value>, Seq<char>>|
        #[trigger] (import.answers)(state, args, 0, answer) ==> !(answer matches Ok(Some(_)))
}

/// Every import of a module that the wasmtime engine instantiated is a function, and is linked to a
/// host function of its type. Whenever this one is called, it calls the supervisor function that the
/// last entry under the name of the import gives, hands on the context that its cell holds, and
/// leaves this context there. It returns no value where the guest expects none.
pub proof fn law_wasmtime_imports_call_defined_functions<
    FR: Clone,
    FE: SandboxCapabilities<SupervisorFuncRef = FR>,
>(
    entries: Seq<EntryView>,
    memories: Seq<Option<Memory>>,
    environment: (ImportsView, Seq<SupervisorFuncIndex>),
    wasm: Seq<u8>,
    dispatch_thunk: FR,
    state: u32,
    instance: SandboxInstance<FR>,
    guest: WasmtimeGuest,
    i: int,
)
    requires
        entries.len() <= usize::MAX,
        environment_of(entries, memories) == Ok::<_, InstantiationError>(environment),
        instantiation::<FR, FE>(
            SandboxBackend::Wasmtime,
            wasm,
            environment,
            dispatch_thunk,
            state,
            Ok(instance),
        ),
        instance.backend_instance == BackendInstance::Wasmtime(guest),
        0 <= i < wasmtime_module_imports(wasm).len(),
    ensures
        wasmtime_instance_imports(guest.instance()).len() == wasmtime_module_imports(wasm).len(),
        wasmtime_links::<FR, FE>(
            wasmtime_instance_imports(guest.instance())[i],
            wasmtime_module_imports(wasm)[i],
            guest.cell(),
            dispatch_thunk,
            entries,
        ),
{
    let module_imports = wasmtime_module_imports(wasm);
    let wanted = wanted_funcs(module_imports, environment);
    let imports = wasmtime_instance_imports(guest.instance());
    assert(imports_serve::<FR, FE>(dispatch_thunk, wanted, guest.cell(), imports));
    lemma_wasmtime_links::<FR, FE>(
        entries,
        memories,
        environment,
        module_imports,
        dispatch_thunk,
        guest.cell(),
        imports,
        i,
    );
}

proof fn lemma_wasmtime_links<FR: Clone, FE: SandboxCapabilities<SupervisorFuncRef = FR>>(
    entries: Seq<EntryView>,
    memories: Seq<Option<Memory>>,
    environment: (ImportsView, Seq<SupervisorFuncIndex>),
    module_imports: Seq<ImportView<wasmtime::FuncType>>,
    dispatch_thunk: FR,
    cell: StateCell,
    imports: Seq<HostImport<wasmtime::FuncType>>,
    i: int,
)
    requires
        entries.len() <= usize::MAX,
        environment_of(entries, memories) == Ok::<_, InstantiationError>(environment),
        wanted_funcs(module_imports, environment).len() == module_imports.len(),
        imports_serve::<FR, FE>(
            dispatch_thunk,
            wanted_funcs(module_imports, environment),
            cell,
            imports,
        ),
        0 <= i < module_imports.len(),
    ensures
        imports.len() == module_imports.len(),
        wasmtime_links::<FR, FE>(imports[i], module_imports[i], cell, dispatch_thunk, entries),
{
    let wanted = wanted_funcs(module_imports, environment);
    lemma_wanted_funcs_align(module_imports, environment, i);
    let import = imports[i];
    let func_idx = wanted[i].1;
    assert(wasmtime_serves::<FR, FE>(dispatch_thunk, func_idx, cell, import));
    let thunk = choose|thunk: FR| #[trigger]
        cloned(dispatch_thunk, thunk) && import.answers
            == wasmtime_answers_of::<FR, FE>(thunk, func_idx);
    assert forall|
        state: u32,
        args: Seq<EngineValue>,
        slots: nat,
        answer: Result<Option<Value>, Seq<char>>,
    | #[trigger] (import.answers)(state, args, slots, answer) implies is_answered::<FR, FE>(
        thunk,
        func_idx,
        state,
        args,
        slots,
        answer,
    ) && (slots == 0 ==> !(answer matches Ok(Some(_)))) by {
        lemma_is_answered::<FR, FE>(thunk, HostFunc { func_idx, state }, args, slots, answer);
    }
    lemma_calls_defined_func::<FR, FE>(
        import.answers,
        dispatch_thunk,
        thunk,
        entries,
        memories,
        environment,
        module_imports[i].module,
        module_imports[i].name,
        func_idx,
    );
}

/// Whether an entry defines a function under a name.
pub open spec fn defines_func(entries: Seq<EntryView>, module: Seq<char>, name: Seq<char>) -> bool {
    exists|i: int|
        0 <= i < entries.len() && (#[trigger] entries[i]).entity is Function
            && entries[i].module_name == encode_utf8(module) && entries[i].field_name
            == encode_utf8(name)
}

/// Whether host functions of the wasmtime engine are those for all imports of a module, provided that
/// these are functions that `entries` define.
pub open spec fn wasmtime_supplies<FR: Clone, FE: SandboxCapabilities<SupervisorFuncRef = FR>>(
    imports: Seq<HostImport<wasmtime::FuncType>>,
    module_imports: Seq<ImportView<wasmtime::FuncType>>,
    cell: StateCell,
    dispatch_thunk: FR,
    entries: Seq<EntryView>,
) -> bool {
    (forall|i: int|
        0 <= i < module_imports.len() ==> (#[trigger] module_imports[i]).kind is Function
            && defines_func(entries, module_imports[i].module, module_imports[i].name)) ==> (
    imports.len() == module_imports.len() && forall|i: int|
        0 <= i < imports.len() ==> wasmtime_links::<FR, FE>(
            #[trigger] imports[i],
            module_imports[i],
            cell,
            dispatch_thunk,
            entries,
        ))
}

proof fn lemma_wanted_funcs_full(
    imports: Seq<ImportView<wasmtime::FuncType>>,
    environment: (ImportsView, Seq<SupervisorFuncIndex>),
)
    requires
        forall|i: int|
            0 <= i < imports.len() ==> wanted_func(#[trigger] imports[i], environment) is Some,
    ensures
        wanted_funcs(imports, environment).len() == imports.len(),
    decreases imports.len(),
{
    if imports.len() > 0 {
        let shorter = imports.drop_last();
        assert forall|i: int| 0 <= i < shorter.len() implies wanted_func(
            #[trigger] shorter[i],
            environment,
        ) is Some by {
            assert(shorter[i] == imports[i]);
        }
        lemma_wanted_funcs_full(shorter, environment);
        assert(imports.last() == imports[imports.len() - 1]);
    }
}

proof fn lemma_defined_func_is_named(
    entries: Seq<EntryView>,
    memories: Seq<Option<Memory>>,
    environment: (ImportsView, Seq<SupervisorFuncIndex>),
    module: Seq<char>,
    name: Seq<char>,
)
    requires
        entries.len() <= usize::MAX,
        environment_of(entries, memories) == Ok::<_, InstantiationError>(environment),
        defines_func(entries, module, name),
    ensures
        func_named(environment, qualified(module, name)) is Some,
{
    let wanted = qualified(module, name);
    law_environment_offers_defined_functions(entries, memories, environment, wanted);
    let i = choose|i: int|
        0 <= i < entries.len() && (#[trigger] entries[i]).entity is Function
            && entries[i].module_name == encode_utf8(module) && entries[i].field_name
            == encode_utf8(name);
    assert(entries[i].name() == wanted);
}

proof fn lemma_wasmtime_supplies<FR: Clone, FE: SandboxCapabilities<SupervisorFuncRef = FR>>(
    entries: Seq<EntryView>,
    memories: Seq<Option<Memory>>,
    environment: (ImportsView, Seq<SupervisorFuncIndex>),
    module_imports: Seq<ImportView<wasmtime::FuncType>>,
    dispatch_thunk: FR,
    cell: StateCell,
    imports: Seq<HostImport<wasmtime::FuncType>>,
)
    requires
        entries.len() <= usize::MAX,
        environment_of(entries, memories) == Ok::<_, InstantiationError>(environment),
        imports_serve::<FR, FE>(
            dispatch_thunk,
            wanted_funcs(module_imports, environment),
            cell,
            imports,
        ),
    ensures
        wasmtime_supplies::<FR, FE>(imports, module_imports, cell, dispatch_thunk, entries),
{
    if forall|i: int|
        0 <= i < module_imports.len() ==> (#[trigger] module_imports[i]).kind is Function
            && defines_func(entries, module_imports[i].module, module_imports[i].name) {
        assert forall|i: int| 0 <= i < module_imports.len() implies wanted_func(
            #[trigger] module_imports[i],
            environment,
        ) is Some by {
            lemma_defined_func_is_named(
                entries,
                memories,
                environment,
                module_imports[i].module,
                module_imports[i].name,
            );
        }
        lemma_wanted_funcs_full(module_imports, environment);
        assert forall|i: int| 0 <= i < imports.len() implies wasmtime_links::<FR, FE>(
            #[trigger] imports[i],
            module_imports[i],
            cell,
            dispatch_thunk,
            entries,
        ) by {
            lemma_wasmtime_links::<FR, FE>(
                entries,
                memories,
                environment,
                module_imports,
                dispatch_thunk,
                cell,
                imports,
                i,
            );
        }
    }
}

/// What comes of an attempt to instantiate a module on the wasmtime engine is what the engine makes
/// of it: a binary that it does not compile is reported as such. Otherwise the engine is asked to
/// instantiate the module in the context of the attempt, with the functions that it imports if they
/// are defined. The instance that the engine gives is the one that the caller gets, a start function
/// that traps is told from any other failure, and no other failure comes up.
pub proof fn law_wasmtime_decides<FR: Clone, FE: SandboxCapabilities<SupervisorFuncRef = FR>>(
    entries: Seq<EntryView>,
    memories: Seq<Option<Memory>>,
    wasm: Seq<u8>,
    environment: (ImportsView, Seq<SupervisorFuncIndex>),
    dispatch_thunk: FR,
    state: u32,
    r: Result<SandboxInstance<FR>, InstantiationError>,
)
    requires
        entries.len() <= usize::MAX,
        environment_of(entries, memories) == Ok::<_, InstantiationError>(environment),
        instantiation::<FR, FE>(
            SandboxBackend::Wasmtime,
            wasm,
            environment,
            dispatch_thunk,
            state,
            r,
        ),
    ensures
        (wasmtime_may_compile(wasm, false) && r == Err::<SandboxInstance<FR>, _>(
            InstantiationError::ModuleDecoding,
        )) || (wasmtime_may_compile(wasm, true) && exists|
            imports: Seq<HostImport<wasmtime::FuncType>>,
            cell: StateCell,
            funcs: Seq<(wasmtime::FuncType, CallAnswers)>,
            reply: Result<wasmtime::Instance, EngineFailure>,
        |
            #![trigger wasmtime_supplies::<FR, FE>(
                imports,
                wasmtime_module_imports(wasm),
                cell,
                dispatch_thunk,
                entries,
            ), wasmtime_may_instantiate(wasm, funcs, reply)]
            wasmtime_supplies::<FR, FE>(
                imports,
                wasmtime_module_imports(wasm),
                cell,
                dispatch_thunk,
                entries,
            ) && wasmtime_funcs_during(funcs, imports, state) && wasmtime_may_instantiate(
                wasm,
                funcs,
                reply,
            ) && match reply {
                Ok(made) => (r matches Ok(instance) && (
                instance.backend_instance matches BackendInstance::Wasmtime(guest)
                    && guest.instance() == made && guest.cell() == cell && wasmtime_instance_imports(made)
                    == imports)),
                Err(EngineFailure::Start) => r == Err::<SandboxInstance<FR>, _>(
                    InstantiationError::StartTrapped,
                ),
                Err(_) => r == Err::<SandboxInstance<FR>, _>(InstantiationError::Instantiation),
            }),
{
    if !(wasmtime_may_compile(wasm, false) && r == Err::<SandboxInstance<FR>, _>(
        InstantiationError::ModuleDecoding,
    )) {
        let given = choose|given: Result<WasmtimeGuest, InstantiationError>| #[trigger]
            wasmtime_instantiation::<FR, FE>(
                wasm,
                environment,
                dispatch_thunk,
                state,
                given,
            ) && comes_of(
                r,
                wasmtime_reply(given),
                dispatch_thunk,
                environment.1,
            );
        let module_imports = wasmtime_module_imports(wasm);
        let wanted = wanted_funcs(module_imports, environment);
        let (imports, cell, reply) = choose|
            imports: Seq<HostImport<wasmtime::FuncType>>,
            cell: StateCell,
            reply: Result<wasmtime::Instance, EngineFailure>,
        | #[trigger]
            wasmtime_may_instantiate(wasm, wasmtime_while(imports, state), reply)
                && imports_serve::<FR, FE>(dispatch_thunk, wanted, cell, imports) && (
            reply matches Ok(instance) ==> wasmtime_instance_imports(instance) == imports) && (
            wanted.len() != module_imports.len() ==> reply == Err::<wasmtime::Instance, _>(
                EngineFailure::Link,
            )) && #[trigger] wasmtime_concluded(reply, cell, given);
        assert(wasmtime_funcs_during(wasmtime_while(imports, state), imports, state));
        lemma_wasmtime_supplies::<FR, FE>(
            entries,
            memories,
            environment,
            module_imports,
            dispatch_thunk,
            cell,
            imports,
        );
    }
}

/// A call of an exported function of a wasmtime instance is a call of the function that the instance
/// exports under this name, with the given arguments. While it runs, the functions that the instance
/// imports are called in the context of this call. The caller gets what it returned.
pub proof fn law_wasmtime_calls_exports<FR, FE: SandboxCapabilities<SupervisorFuncRef = FR>>(
    instance: SandboxInstance<FR>,
    guest: WasmtimeGuest,
    export_name: Seq<char>,
    args: Seq<Value>,
    state: u32,
    r: Result<Option<Value>, InvokeError>,
)
    requires
        instance.backend_instance == BackendInstance::Wasmtime(guest),
        instance.may_return::<FE>(export_name, args, state, r),
    ensures
        match wasmtime_exported_func(guest.instance(), export_name) {
            None => r is Err,
            Some(func) => exists|
                given: Seq<EngineValue>,
                funcs: Seq<(wasmtime::FuncType, CallAnswers)>,
                reply: Result<Seq<EngineValue>, Seq<char>>,
            | #[trigger]
                wasmtime_may_return(func, given, funcs, reply) && are_numbers(given, args)
                    && wasmtime_funcs_during(
                    funcs,
                    wasmtime_instance_imports(guest.instance()),
                    state,
                ) && is_outcome(reply, r),
        },
{
    if let Some(func) = wasmtime_exported_func(guest.instance(), export_name) {
        let given = engine_values(args);
        let funcs = wasmtime_while(wasmtime_instance_imports(guest.instance()), state);
        let reply = choose|reply: Result<Seq<EngineValue>, Seq<char>>| #[trigger]
            wasmtime_may_return(func, given, funcs, reply) && compiled_result(reply, r);
        assert(are_numbers(given, args));
        assert(wasmtime_funcs_during(funcs, wasmtime_instance_imports(guest.instance()), state));
        lemma_is_outcome(reply, r);
    }
}

proof fn lemma_is_outcome(
    reply: Result<Seq<EngineValue>, Seq<char>>,
    r: Result<Option<Value>, InvokeError>,
)
    requires
        compiled_result(reply, r),
    ensures
        is_outcome(reply, r),
{
    if let Ok(results) = reply {
        if results.len() == 1 {
            assert(results =~= seq![results[0]]);
        }
    }
}

/// How offers of the wasmer engine are seen while the context of calls is `state`.
pub open spec fn wasmer_offers_during(
    seen: Map<Seq<char>, Map<Seq<char>, OfferWhile>>,
    offers: Offers,
    state: u32,
) -> bool {
    &&& seen.dom() == offers.dom()
    &&& forall|module: Seq<char>| #[trigger]
        offers.dom().contains(module) ==> seen[module].dom() == offers[module].dom()
    &&& forall|module: Seq<char>, name: Seq<char>|
        #![trigger offers[module][name]]
        offers.dom().contains(module) && offers[module].dom().contains(name) ==> match (
            offers[module][name],
            seen[module][name],
        ) {
            (Offer::Memory(memory), OfferWhile::Memory(given)) => given == memory,
            (Offer::Function(import), OfferWhile::Function(ty, answers)) => ty == import.ty
                && answers_during(answers, import, state),
            _ => false,
        }
}

proof fn lemma_offers_during(offers: Offers, state: u32)
    ensures
        wasmer_offers_during(wasmer_while(offers, state), offers, state),
{
    let seen = wasmer_while(offers, state);
    assert(seen.dom() =~= offers.dom());
    assert forall|module: Seq<char>| #[trigger] offers.dom().contains(module) implies seen[module].dom()
        == offers[module].dom() by {
        assert(seen[module].dom() =~= offers[module].dom());
    }
}

/// Whether an offer is what is defined under a name: a function calls the supervisor function that the
/// last entry under this name gives, and has the type that an import under this name asks for. A
/// memory is that of the store that the last entry under this name refers to.
pub open spec fn wasmer_offer_is_defined<
    FR: Clone,
    FE: SandboxCapabilities<SupervisorFuncRef = FR>,
>(
    offer: Offer,
    imports: Seq<ImportView<wasmer::FunctionType>>,
    module: Seq<char>,
    name: Seq<char>,
    cell: StateCell,
    dispatch_thunk: FR,
    entries: Seq<EntryView>,
    memories: Seq<Option<Memory>>,
) -> bool {
    match offer {
        Offer::Function(import) => {
            &&& keeps_context(import, cell)
            &&& calls_defined_func::<FR, FE>(
                import.answers,
                dispatch_thunk,
                entries,
                module,
                name,
            )
            &&& exists|j: int|
                0 <= j < imports.len() && (#[trigger] imports[j]).module == module
                    && imports[j].name == name && imports[j].kind == ImportKind::Function(import.ty)
        },
        Offer::Memory(memory) => {
            &&& exists|e: int|
                is_last_memory(entries, e) && (#[trigger] entries[e]).module_name == encode_utf8(
                    module,
                ) && entries[e].field_name == encode_utf8(name) && entries[e].entity->Memory_0
                    < memories.len() && (
                memories[entries[e].entity->Memory_0 as int] matches Some(Memory::Wasmer(given))
                    && given@ == memory)
            &&& exists|j: int|
                0 <= j < imports.len() && (#[trigger] imports[j]).module == module
                    && imports[j].name == name && imports[j].kind is Memory
        },
    }
}

/// Whether there are offers for all imports of a module that are functions which `entries` define,
/// and for all that are memories, and whether all offers are what is defined.
pub open spec fn wasmer_supplies<FR: Clone, FE: SandboxCapabilities<SupervisorFuncRef = FR>>(
    offers: Offers,
    imports: Seq<ImportView<wasmer::FunctionType>>,
    cell: StateCell,
    dispatch_thunk: FR,
    entries: Seq<EntryView>,
    memories: Seq<Option<Memory>>,
) -> bool {
    &&& forall|i: int|
        0 <= i < imports.len() && (((#[trigger] imports[i]).kind is Function && defines_func(
            entries,
            imports[i].module,
            imports[i].name,
        )) || imports[i].kind is Memory) ==> offers.dom().contains(imports[i].module)
            && offers[imports[i].module].dom().contains(imports[i].name)
    &&& forall|module: Seq<char>, name: Seq<char>|
        offers.dom().contains(module) && offers[module].dom().contains(name)
            ==> wasmer_offer_is_defined::<FR, FE>(
            #[trigger] offers[module][name],
            imports,
            module,
            name,
            cell,
            dispatch_thunk,
            entries,
            memories,
        )
}

proof fn lemma_wanted_is_offered(
    imports: Seq<ImportView<wasmer::FunctionType>>,
    environment: (ImportsView, Seq<SupervisorFuncIndex>),
    i: int,
)
    requires
        0 <= i < imports.len(),
        wanted_offers(imports, environment) is Ok,
        wanted_for(imports[i], environment) matches Ok(Some(_)),
    ensures
        wanted_offers(imports, environment)->Ok_0.dom().contains(imports[i].module),
        wanted_offers(imports, environment)->Ok_0[imports[i].module].dom().contains(
            imports[i].name,
        ),
    decreases imports.len(),
{
    let shorter = imports.drop_last();
    assert(imports.last() == imports[imports.len() - 1]);
    if i < imports.len() - 1 {
        assert(shorter[i] == imports[i]);
        lemma_wanted_is_offered(shorter, environment, i);
    }
}

proof fn lemma_memories_are_given(
    imports: Seq<ImportView<wasmer::FunctionType>>,
    environment: (ImportsView, Seq<SupervisorFuncIndex>),
    i: int,
)
    requires
        0 <= i < imports.len(),
        wanted_offers(imports, environment) is Ok,
    ensures
        wanted_for(imports[i], environment) is Ok,
    decreases imports.len(),
{
    assert(imports.last() == imports[imports.len() - 1]);
    if i < imports.len() - 1 {
        assert(imports.drop_last()[i] == imports[i]);
        lemma_memories_are_given(imports.drop_last(), environment, i);
    }
}

proof fn lemma_wasmer_supplies<FR: Clone, FE: SandboxCapabilities<SupervisorFuncRef = FR>>(
    entries: Seq<EntryView>,
    memories: Seq<Option<Memory>>,
    environment: (ImportsView, Seq<SupervisorFuncIndex>),
    imports: Seq<ImportView<wasmer::FunctionType>>,
    dispatch_thunk: FR,
    cell: StateCell,
    offers: Offers,
)
    requires
        entries.len() <= usize::MAX,
        environment_of(entries, memories) == Ok::<_, InstantiationError>(environment),
        wanted_offers(imports, environment) is Ok,
        offers_serve::<FR, FE>(
            dispatch_thunk,
            wanted_offers(imports, environment)->Ok_0,
            cell,
            offers,
        ),
    ensures
        wasmer_supplies::<FR, FE>(offers, imports, cell, dispatch_thunk, entries, memories),
{
    let wanted = wanted_offers(imports, environment)->Ok_0;
    assert forall|i: int|
        0 <= i < imports.len() && (((#[trigger] imports[i]).kind is Function && defines_func(
            entries,
            imports[i].module,
            imports[i].name,
        )) || imports[i].kind is Memory) implies offers.dom().contains(imports[i].module)
        && offers[imports[i].module].dom().contains(imports[i].name) by {
        lemma_memories_are_given(imports, environment, i);
        if imports[i].kind is Function {
            lemma_defined_func_is_named(
                entries,
                memories,
                environment,
                imports[i].module,
                imports[i].name,
            );
        }
        lemma_wanted_is_offered(imports, environment, i);
        assert(offers.dom().contains(imports[i].module));
        assert(module_offers_serve::<FR, FE>(
            dispatch_thunk,
            wanted[imports[i].module],
            cell,
            offers[imports[i].module],
        ));
    }
    assert forall|module: Seq<char>, name: Seq<char>|
        offers.dom().contains(module) && offers[module].dom().contains(
            name,
        ) implies wasmer_offer_is_defined::<FR, FE>(
        #[trigger] offers[module][name],
        imports,
        module,
        name,
        cell,
        dispatch_thunk,
        entries,
        memories,
    ) by {
        lemma_wasmer_offer::<FR, FE>(
            entries,
            memories,
            environment,
            imports,
            dispatch_thunk,
            cell,
            offers,
            module,
            name,
        );
    }
}

/// Whether an import of a module is linked to what `offers` hold under its name.
pub open spec fn wasmer_links<FR: Clone, FE: SandboxCapabilities<SupervisorFuncRef = FR>>(
    offers: Offers,
    imports: Seq<ImportView<wasmer::FunctionType>>,
    wanted: ImportView<wasmer::FunctionType>,
    cell: StateCell,
    dispatch_thunk: FR,
    entries: Seq<EntryView>,
    memories: Seq<Option<Memory>>,
) -> bool {
    &&& offers.dom().contains(wanted.module)
    &&& offers[wanted.module].dom().contains(wanted.name)
    &&& match wanted.kind {
        ImportKind::Function(_) => offers[wanted.module][wanted.name] is Function,
        ImportKind::Memory => offers[wanted.module][wanted.name] is Memory,
        ImportKind::Global | ImportKind::Table => false,
    }
    &&& wasmer_offer_is_defined::<FR, FE>(
        offers[wanted.module][wanted.name],
        imports,
        wanted.module,
        wanted.name,
        cell,
        dispatch_thunk,
        entries,
        memories,
    )
}

/// Every import of a module that the wasmer engine instantiated is a function or a memory, and is
/// linked by its name. A function is linked to a host function: whenever this one is called, it calls
/// the supervisor function that the last entry under this name gives, hands on the context that its
/// cell holds, and leaves this context there. A memory is linked to the memory of the store that the
/// last entry under this name refers to.
pub proof fn law_wasmer_imports_are_what_is_defined<
    FR: Clone,
    FE: SandboxCapabilities<SupervisorFuncRef = FR>,
>(
    entries: Seq<EntryView>,
    memories: Seq<Option<Memory>>,
    environment: (ImportsView, Seq<SupervisorFuncIndex>),
    wasm: Seq<u8>,
    dispatch_thunk: FR,
    state: u32,
    instance: SandboxInstance<FR>,
    guest: WasmerGuest,
    i: int,
)
    requires
        entries.len() <= usize::MAX,
        environment_of(entries, memories) == Ok::<_, InstantiationError>(environment),
        instantiation::<FR, FE>(
            SandboxBackend::Wasmer,
            wasm,
            environment,
            dispatch_thunk,
            state,
            Ok(instance),
        ),
        instance.backend_instance == BackendInstance::Wasmer(guest),
        0 <= i < wasmer_module_imports(wasm).len(),
    ensures
        wasmer_links::<FR, FE>(
            wasmer_instance_offers(guest.instance()),
            wasmer_module_imports(wasm),
            wasmer_module_imports(wasm)[i],
            guest.cell(),
            dispatch_thunk,
            entries,
            memories,
        ),
{
    let imports = wasmer_module_imports(wasm);
    let offers = wasmer_instance_offers(guest.instance());
    let wanted = wanted_offers(imports, environment)->Ok_0;
    assert(offers_serve::<FR, FE>(dispatch_thunk, wanted, guest.cell(), offers));
    assert(all_offered(offers, imports));
    assert(is_offered(offers, imports[i]));
    lemma_wasmer_offer::<FR, FE>(
        entries,
        memories,
        environment,
        imports,
        dispatch_thunk,
        guest.cell(),
        offers,
        imports[i].module,
        imports[i].name,
    );
}

proof fn lemma_wasmer_offer<FR: Clone, FE: SandboxCapabilities<SupervisorFuncRef = FR>>(
    entries: Seq<EntryView>,
    memories: Seq<Option<Memory>>,
    environment: (ImportsView, Seq<SupervisorFuncIndex>),
    imports: Seq<ImportView<wasmer::FunctionType>>,
    dispatch_thunk: FR,
    cell: StateCell,
    offers: Offers,
    module: Seq<char>,
    name: Seq<char>,
)
    requires
        entries.len() <= usize::MAX,
        environment_of(entries, memories) == Ok::<_, InstantiationError>(environment),
        wanted_offers(imports, environment) is Ok,
        offers_serve::<FR, FE>(
            dispatch_thunk,
            wanted_offers(imports, environment)->Ok_0,
            cell,
            offers,
        ),
        offers.dom().contains(module),
        offers[module].dom().contains(name),
    ensures
        wasmer_offer_is_defined::<FR, FE>(
            offers[module][name],
            imports,
            module,
            name,
            cell,
            dispatch_thunk,
            entries,
            memories,
        ),
{
    let wanted = wanted_offers(imports, environment)->Ok_0;
    assert(module_offers_serve::<FR, FE>(
        dispatch_thunk,
        wanted[module],
        cell,
        offers[module],
    ));
    let offer = offers[module][name];
    assert(offer_serves::<FR, FE>(
        dispatch_thunk,
        wanted[module][name],
        cell,
        offer,
    ));
    lemma_offered_is_wanted(imports, environment, wanted, module, name);
    let j = choose|j: int|
        0 <= j < imports.len() && (#[trigger] imports[j]).module == module && imports[j].name
            == name && wanted_for(imports[j], environment) == Ok::<_, InstantiationError>(
            Some(wanted[module][name]),
        );
    match offer {
        Offer::Function(host) => {
            let func_idx = wanted[module][name]->Function_1;
            assert(wasmer_serves::<FR, FE>(
                dispatch_thunk,
                func_idx,
                cell,
                host,
            ));
            let thunk = choose|thunk: FR| #[trigger]
                cloned(dispatch_thunk, thunk) && host.answers
                    == wasmer_answers_of::<FR, FE>(thunk, func_idx);
            assert forall|
                state: u32,
                args: Seq<EngineValue>,
                slots: nat,
                answer: Result<Option<Value>, Seq<char>>,
            | #[trigger] (host.answers)(state, args, slots, answer) implies is_answered::<FR, FE>(
                thunk,
                func_idx,
                state,
                args,
                slots,
                answer,
            ) by {
                lemma_is_answered::<FR, FE>(thunk, HostFunc { func_idx, state }, args, 1, answer);
            }
            lemma_calls_defined_func::<FR, FE>(
                host.answers,
                dispatch_thunk,
                thunk,
                entries,
                memories,
                environment,
                module,
                name,
                func_idx,
            );
            assert(imports[j].kind == ImportKind::Function(host.ty));
        },
        Offer::Memory(memory) => {
            let wanted_name = qualified(module, name);
            assert(lookup(environment.0.memories, wanted_name) is Some);
            lemma_memory_is_defined(entries, memories, wanted_name);
            let e = choose|e: int|
                is_last_memory(entries, e) && #[trigger] entries[e].name() == wanted_name;
            law_import_gets_last_memory(entries, memories, e);
            assert(entries[e].name() == wanted_name);
        },
    }
}

/// What comes of an attempt to instantiate a module on the wasmer engine is what the engine makes of
/// it: a binary that it does not compile is reported as such. A module that asks for a memory which
/// cannot be given is refused. Otherwise the engine is asked to instantiate the module in the context
/// of the attempt, with what it imports as far as it is defined. The instance that the engine gives
/// is the one that the caller gets, a start function that traps is told from any other failure, and
/// no other failure comes up.
pub proof fn law_wasmer_decides<FR: Clone, FE: SandboxCapabilities<SupervisorFuncRef = FR>>(
    entries: Seq<EntryView>,
    memories: Seq<Option<Memory>>,
    wasm: Seq<u8>,
    environment: (ImportsView, Seq<SupervisorFuncIndex>),
    dispatch_thunk: FR,
    state: u32,
    r: Result<SandboxInstance<FR>, InstantiationError>,
)
    requires
        entries.len() <= usize::MAX,
        environment_of(entries, memories) == Ok::<_, InstantiationError>(environment),
        instantiation::<FR, FE>(
            SandboxBackend::Wasmer,
            wasm,
            environment,
            dispatch_thunk,
            state,
            r,
        ),
    ensures
        (wasmer_may_compile(wasm, false) && r == Err::<SandboxInstance<FR>, _>(
            InstantiationError::ModuleDecoding,
        )) || (wasmer_may_compile(wasm, true) && r == Err::<SandboxInstance<FR>, _>(
            InstantiationError::Instantiation,
        ) && exists|i: int|
            0 <= i < wasmer_module_imports(wasm).len() && (
            #[trigger] wasmer_module_imports(wasm)[i]).kind is Memory && !(lookup(
                environment.0.memories,
                (
                    encode_utf8(wasmer_module_imports(wasm)[i].module),
                    encode_utf8(wasmer_module_imports(wasm)[i].name),
                ),
            ) matches Some(Memory::Wasmer(_)))) || (wasmer_may_compile(wasm, true) && exists|
            offers: Offers,
            cell: StateCell,
            seen: Map<Seq<char>, Map<Seq<char>, OfferWhile>>,
            reply: Result<wasmer::Instance, EngineFailure>,
        |
            #![trigger wasmer_supplies::<FR, FE>(
                offers,
                wasmer_module_imports(wasm),
                cell,
                dispatch_thunk,
                entries,
                memories,
            ), wasmer_may_instantiate(wasm, seen, reply)]
            wasmer_supplies::<FR, FE>(
                offers,
                wasmer_module_imports(wasm),
                cell,
                dispatch_thunk,
                entries,
                memories,
            ) && wasmer_offers_during(seen, offers, state) && wasmer_may_instantiate(wasm, seen, reply)
                && match reply {
                Ok(made) => (r matches Ok(instance) && (
                instance.backend_instance matches BackendInstance::Wasmer(guest)
                    && guest.instance() == made && guest.cell() == cell && wasmer_instance_offers(made)
                    == offers)),
                Err(EngineFailure::Start) => r == Err::<SandboxInstance<FR>, _>(
                    InstantiationError::StartTrapped,
                ),
                Err(_) => r == Err::<SandboxInstance<FR>, _>(InstantiationError::Instantiation),
            }),
{
    let imports = wasmer_module_imports(wasm);
    if !(wasmer_may_compile(wasm, false) && r == Err::<SandboxInstance<FR>, _>(
        InstantiationError::ModuleDecoding,
    )) {
        let given = choose|given: Result<WasmerGuest, InstantiationError>| #[trigger]
            wasmer_instantiation::<FR, FE>(
                wasm,
                environment,
                dispatch_thunk,
                state,
                given,
            ) && comes_of(
                r,
                wasmer_reply(given),
                dispatch_thunk,
                environment.1,
            );
        match wanted_offers(imports, environment) {
            Err(_) => {
                lemma_refusal_has_a_reason(imports, environment);
            },
            Ok(wanted) => {
                let (offers, cell, reply) = choose|
                    offers: Offers,
                    cell: StateCell,
                    reply: Result<wasmer::Instance, EngineFailure>,
                | #[trigger]
                    wasmer_may_instantiate(wasm, wasmer_while(offers, state), reply)
                        && offers_serve::<FR, FE>(dispatch_thunk, wanted, cell, offers) && (
                    reply matches Ok(instance) ==> wasmer_instance_offers(instance) == offers) && (
                    !all_offered(offers, imports) ==> reply == Err::<wasmer::Instance, _>(
                        EngineFailure::Link,
                    )) && #[trigger] wasmer_concluded(reply, cell, given);
                lemma_offers_during(offers, state);
                lemma_wasmer_supplies::<FR, FE>(
                    entries,
                    memories,
                    environment,
                    imports,
                    dispatch_thunk,
                    cell,
                    offers,
                );
            },
        }
    }
}

proof fn lemma_refusal_has_a_reason(
    imports: Seq<ImportView<wasmer::FunctionType>>,
    environment: (ImportsView, Seq<SupervisorFuncIndex>),
)
    requires
        wanted_offers(imports, environment) is Err,
    ensures
        wanted_offers(imports, environment)->Err_0 == InstantiationError::Instantiation,
        exists|i: int|
            0 <= i < imports.len() && (#[trigger] imports[i]).kind is Memory && !(lookup(
                environment.0.memories,
                (encode_utf8(imports[i].module), encode_utf8(imports[i].name)),
            ) matches Some(Memory::Wasmer(_))),
    decreases imports.len(),
{
    let shorter = imports.drop_last();
    let last = imports.len() - 1;
    assert(imports.last() == imports[last]);
    if wanted_offers(shorter, environment) is Err {
        lemma_refusal_has_a_reason(shorter, environment);
        let i = choose|i: int|
            0 <= i < shorter.len() && (#[trigger] shorter[i]).kind is Memory && !(lookup(
                environment.0.memories,
                (encode_utf8(shorter[i].module), encode_utf8(shorter[i].name)),
            ) matches Some(Memory::Wasmer(_)));
        assert(imports[i] == shorter[i]);
    } else {
        assert(imports[last].kind is Memory);
    }
}

/// A call of an exported function of a wasmer instance is a call of the function that the instance
/// exports under this name, with the given arguments. While it runs, the functions that the instance
/// imports are called in the context of this call. The caller gets what it returned.
pub proof fn law_wasmer_calls_exports<FR, FE: SandboxCapabilities<SupervisorFuncRef = FR>>(
    instance: SandboxInstance<FR>,
    guest: WasmerGuest,
    export_name: Seq<char>,
    args: Seq<Value>,
    state: u32,
    r: Result<Option<Value>, InvokeError>,
)
    requires
        instance.backend_instance == BackendInstance::Wasmer(guest),
        instance.may_return::<FE>(export_name, args, state, r),
    ensures
        match wasmer_exported_func(guest.instance(), export_name) {
            None => r is Err,
            Some(func) => exists|
                given: Seq<EngineValue>,
                seen: Map<Seq<char>, Map<Seq<char>, OfferWhile>>,
                reply: Result<Seq<EngineValue>, Seq<char>>,
            | #[trigger]
                wasmer_may_return(func, given, seen, reply) && are_numbers(given, args)
                    && wasmer_offers_during(seen, wasmer_instance_offers(guest.instance()), state)
                    && is_outcome(reply, r),
        },
{
    if let Some(func) = wasmer_exported_func(guest.instance(), export_name) {
        let given = engine_values(args);
        let seen = wasmer_while(wasmer_instance_offers(guest.instance()), state);
        let reply = choose|reply: Result<Seq<EngineValue>, Seq<char>>| #[trigger]
            wasmer_may_return(func, given, seen, reply) && compiled_result(reply, r);
        assert(are_numbers(given, args));
        lemma_offers_during(wasmer_instance_offers(guest.instance()), state);
        lemma_is_outcome(reply, r);
    }
}

/// Whether the guest function at `index` of an interpreted guest calls a supervisor function: its
/// calls are handed on, and its answers are what came back.
pub open spec fn interpreted_func<FR, FE: SandboxCapabilities<SupervisorFuncRef = FR>>(
    answers: GuestAnswers,
    index: usize,
    dispatch_thunk: FR,
    func_idx: SupervisorFuncIndex,
    state: u32,
) -> bool {
    forall|args: Seq<Value>, answer: Result<Option<Value>, Error>| #[trigger]
        answers(index, args, answer) ==> (args.len() > u32::MAX && answer is Err) || exists|
            before: FE,
            after: FE,
        | #[trigger]
            delivered::<FR, FE>(dispatch_thunk, func_idx, state, args, before, after) && (
            answer matches Ok(value) ==> hands_back(
                after.calls().skip(before.calls().len() as int),
                value,
            )) && (answer is Err ==> went_wrong(
                after.calls().skip(before.calls().len() as int),
            )) && (forall|error: Error| #[trigger]
                ends_with_error(after.calls().skip(before.calls().len() as int), error) ==> answer
                    == Err::<Option<Value>, _>(error))
}

/// Whether an interpreted guest that imports functions under the names of an environment definition
/// calls the supervisor functions that the last entries under these names give, in the context
/// `state`.
pub open spec fn calls_defined_funcs<FR, FE: SandboxCapabilities<SupervisorFuncRef = FR>>(
    answers: GuestAnswers,
    dispatch_thunk: FR,
    entries: Seq<EntryView>,
    imports: ImportsView,
    state: u32,
) -> bool {
    forall|i: int| #[trigger]
        is_last_func(entries, i) ==> imports.funcs.dom().contains(entries[i].name())
            && interpreted_func::<FR, FE>(
            answers,
            imports.funcs[entries[i].name()].0,
            dispatch_thunk,
            SupervisorFuncIndex(entries[i].entity->Function_0 as usize),
            state,
        )
}

proof fn lemma_calls_defined_funcs<FR, FE: SandboxCapabilities<SupervisorFuncRef = FR>>(
    entries: Seq<EntryView>,
    memories: Seq<Option<Memory>>,
    environment: (ImportsView, Seq<SupervisorFuncIndex>),
    dispatch_thunk: FR,
    state: u32,
)
    requires
        entries.len() <= usize::MAX,
        environment_of(entries, memories) == Ok::<_, InstantiationError>(environment),
    ensures
        calls_defined_funcs::<FR, FE>(
            guest_answers::<FR, FE>(dispatch_thunk, environment.1, state),
            dispatch_thunk,
            entries,
            environment.0,
            state,
        ),
{
    let answers = guest_answers::<FR, FE>(dispatch_thunk, environment.1, state);
    assert forall|i: int| #[trigger] is_last_func(entries, i) implies environment.0.funcs.dom().contains(
        entries[i].name(),
    ) && interpreted_func::<FR, FE>(
        answers,
        environment.0.funcs[entries[i].name()].0,
        dispatch_thunk,
        SupervisorFuncIndex(entries[i].entity->Function_0 as usize),
        state,
    ) by {
        let func_idx = SupervisorFuncIndex(entries[i].entity->Function_0 as usize);
        law_import_reaches_last_definition(entries, i);
        let index = environment.0.funcs[entries[i].name()].0;
        assert forall|args: Seq<Value>, answer: Result<Option<Value>, Error>| #[trigger]
            answers(index, args, answer) implies (args.len() > u32::MAX && answer is Err) || exists|
            before: FE,
            after: FE,
        | #[trigger]
            delivered::<FR, FE>(dispatch_thunk, func_idx, state, args, before, after) && (
            answer matches Ok(value) ==> hands_back(
                after.calls().skip(before.calls().len() as int),
                value,
            )) && (answer is Err ==> went_wrong(
                after.calls().skip(before.calls().len() as int),
            )) && (forall|error: Error| #[trigger]
                ends_with_error(after.calls().skip(before.calls().len() as int), error) ==> answer
                    == Err::<Option<Value>, _>(error)) by {
            lemma_interpreted_answer::<FR, FE>(
                dispatch_thunk,
                environment.1,
                state,
                index,
                func_idx,
                args,
                answer,
            );
        }
    }
}

proof fn lemma_interpreted_answer<FR, FE: SandboxCapabilities<SupervisorFuncRef = FR>>(
    dispatch_thunk: FR,
    funcs: Seq<SupervisorFuncIndex>,
    state: u32,
    index: usize,
    func_idx: SupervisorFuncIndex,
    args: Seq<Value>,
    answer: Result<Option<Value>, Error>,
)
    requires
        guest_may_answer::<FR, FE>(dispatch_thunk, funcs, state, index, args, answer),
        index < funcs.len(),
        funcs[index as int] == func_idx,
    ensures
        (args.len() > u32::MAX && answer is Err) || exists|before: FE, after: FE| #[trigger]
            delivered::<FR, FE>(dispatch_thunk, func_idx, state, args, before, after) && (
            answer matches Ok(value) ==> hands_back(
                after.calls().skip(before.calls().len() as int),
                value,
            )) && (answer is Err ==> went_wrong(
                after.calls().skip(before.calls().len() as int),
            )) && (forall|error: Error| #[trigger]
                ends_with_error(after.calls().skip(before.calls().len() as int), error) ==> answer
                    == Err::<Option<Value>, _>(error)),
{
    let (before, after, outcome) = choose|
        before: FE,
        after: FE,
        outcome: Result<Option<Value>, DispatchError>,
    | #[trigger]
        guest_served::<FR, FE>(dispatch_thunk, funcs, state, index, args, before, after, outcome)
            && is_answer(answer, outcome);
    if args.len() <= u32::MAX {
        let calls = calls_between(before.calls(), after.calls());
        law_calls_are_handed_on(dispatch_thunk, func_idx, state, args, calls, outcome);
        assert(delivered::<FR, FE>(dispatch_thunk, func_idx, state, args, before, after));
        if calls.len() > 4 {
            assert(calls.skip(4)[0] == calls[4] && calls.skip(4)[1] == calls[5]);
        }
        if calls.len() >= 4 {
            assert(calls.take(2)[0] == calls[0] && calls.take(2)[1] == calls[1]);
        }
    }
}

/// What comes of an attempt to instantiate a module on the interpreter is what the interpreter makes
/// of it: a binary that it does not accept, a module that it cannot link and a start function that
/// traps are told apart. While the start function runs, the functions that the module imports call
/// the supervisor functions that the environment definition gives, in the context of the attempt.
pub proof fn law_wasmi_decides<FR: Clone, FE: SandboxCapabilities<SupervisorFuncRef = FR>>(
    entries: Seq<EntryView>,
    memories: Seq<Option<Memory>>,
    environment: (ImportsView, Seq<SupervisorFuncIndex>),
    wasm: Seq<u8>,
    dispatch_thunk: FR,
    state: u32,
    r: Result<SandboxInstance<FR>, InstantiationError>,
)
    requires
        entries.len() <= usize::MAX,
        environment_of(entries, memories) == Ok::<_, InstantiationError>(environment),
        instantiation::<FR, FE>(SandboxBackend::Wasmi, wasm, environment, dispatch_thunk, state, r),
    ensures
        !wasmi_accepts(wasm) ==> r == Err::<SandboxInstance<FR>, _>(
            InstantiationError::ModuleDecoding,
        ),
        wasmi_accepts(wasm) ==> (wasmi_may_link(wasm, environment.0, None) && r == Err::<
            SandboxInstance<FR>,
            _,
        >(InstantiationError::Instantiation)) || exists|
            made: wasmi::ModuleRef,
            answers: GuestAnswers,
            started: bool,
        | #[trigger]
            wasmi_may_start(made, answers, started) && wasmi_may_link(
                wasm,
                environment.0,
                Some(made),
            ) && calls_defined_funcs::<FR, FE>(
                answers,
                dispatch_thunk,
                entries,
                environment.0,
                state,
            ) && if started {
                r matches Ok(instance) && instance.backend_instance == BackendInstance::Wasmi(made)
            } else {
                r == Err::<SandboxInstance<FR>, _>(InstantiationError::StartTrapped)
            },
{
    lemma_calls_defined_funcs::<FR, FE>(entries, memories, environment, dispatch_thunk, state);
}

/// A call of an exported function of an interpreted instance is a call of what the instance exports
/// under this name, with the given arguments. While it runs, the functions that the instance imports
/// call the supervisor functions that the environment definition gives, in the context of this call.
/// The caller gets what the interpreter gave.
pub proof fn law_wasmi_calls_exports<FR: Clone, FE: SandboxCapabilities<SupervisorFuncRef = FR>>(
    entries: Seq<EntryView>,
    memories: Seq<Option<Memory>>,
    environment: (ImportsView, Seq<SupervisorFuncIndex>),
    wasm: Seq<u8>,
    dispatch_thunk: FR,
    instantiated_with: u32,
    instance: SandboxInstance<FR>,
    made: wasmi::ModuleRef,
    export_name: Seq<char>,
    args: Seq<Value>,
    state: u32,
    r: Result<Option<Value>, InvokeError>,
)
    requires
        entries.len() <= usize::MAX,
        environment_of(entries, memories) == Ok::<_, InstantiationError>(environment),
        instantiation::<FR, FE>(
            SandboxBackend::Wasmi,
            wasm,
            environment,
            dispatch_thunk,
            instantiated_with,
            Ok(instance),
        ),
        instance.backend_instance == BackendInstance::Wasmi(made),
        instance.may_return::<FE>(export_name, args, state, r),
    ensures
        !wasmi_exports_func(made, export_name) ==> r is Err,
        exists|answers: GuestAnswers, reply: Result<Option<Value>, WasmiError>| #[trigger]
            wasmi_may_return(made, export_name, args, answers, reply) && calls_defined_funcs::<
                FR,
                FE,
            >(answers, dispatch_thunk, entries, environment.0, state) && match reply {
                Ok(value) => r == Ok::<_, InvokeError>(value),
                Err(error) => r == Err::<Option<Value>, _>(InvokeError::Wasmi(error)),
            },
{
    lemma_calls_defined_funcs::<FR, FE>(entries, memories, environment, dispatch_thunk, state);
}

/// The interpreter is told what a dispatched call came to: the value if there is one, nothing if
/// there is none, and the error of the supervisor as it is.
pub proof fn law_interpreter_is_told(
    r: Result<Option<wasmi::RuntimeValue>, wasmi::Trap>,
    answer: Result<Option<Value>, Error>,
    outcome: Result<Option<Value>, DispatchError>,
)
    requires
        wasmi_outcome(r, outcome),
        is_answer(answer, outcome),
    ensures
        match answer {
            Ok(None) => r == Ok::<Option<wasmi::RuntimeValue>, wasmi::Trap>(None),
            Ok(Some(value)) => r matches Ok(Some(given)) && wasmi_value(given) == value,
            Err(Error::Other(text)) => r matches Err(trap) && wasmi_trap_error(
                trap,
            ) matches Error::Other(given) && given@ == text@,
            Err(error) => r matches Err(trap) && wasmi_trap_error(trap) == error,
        },
        outcome is Ok <==> answer is Ok,
        outcome matches Ok(value) ==> answer == Ok::<_, Error>(value),
{
}

/// The wasmer engine is told the answer of a host function: the one value if there is one, no value
/// if there is none, and the text of the failure otherwise.
pub proof fn law_wasmer_is_told(
    r: Result<Vec<WasmerValue<wasmer::Function>>, wasmer::RuntimeError>,
    answer: Result<Option<Value>, Seq<char>>,
)
    requires
        wasmer_told(r, answer),
    ensures
        match r {
            Ok(values) => match answer {
                Ok(None) => values@.len() == 0,
                Ok(Some(value)) => values@.len() == 1 && wasmer_value(values@[0])
                    == EngineValue::Number(value),
                Err(_) => false,
            },
            Err(error) => answer == Err::<Option<Value>, _>(wasmer_error_message(error)),
        },
{
    if let (Ok(values), Ok(Some(value))) = (r, answer) {
        assert(wasmer_values(values@).len() == 1);
        assert(wasmer_values(values@)[0] == EngineValue::Number(value));
    }
}

/// The wasmtime engine is told the answer of a host function: the value in the first place for
/// results if there is one, and the text of the failure if it failed. Nothing else is changed.
pub proof fn law_wasmtime_is_told(
    before: Seq<wasmtime::Val>,
    after: Seq<wasmtime::Val>,
    r: Result<(), wasmtime::Trap>,
    answer: Result<Option<Value>, Seq<char>>,
)
    requires
        wasmtime_told(before, after, r, answer),
    ensures
        after.len() == before.len(),
        forall|i: int|
            0 < i < after.len() ==> wasmtime_value(#[trigger] after[i]) == wasmtime_value(
                before[i],
            ),
        match r {
            Ok(_) => match answer {
                Ok(None) => after == before,
                Ok(Some(value)) => after.len() > 0 ==> wasmtime_value(after[0])
                    == EngineValue::Number(value),
                Err(_) => false,
            },
            Err(trap) => answer == Err::<Option<Value>, _>(wasmtime_trap_message(trap)) && after
                == before,
        },
{
    if let Ok(Some(value)) = answer {
        let values = wasmtime_values(after);
        assert(values == wasmtime_values(before).update(0, EngineValue::Number(value)));
        assert forall|i: int| 0 < i < after.len() implies wasmtime_value(#[trigger] after[i])
            == wasmtime_value(before[i]) by {
            assert(values[i] == wasmtime_values(before)[i]);
        }
        if after.len() > 0 {
            assert(values[0] == EngineValue::Number(value));
        }
    }
}

/// The value of an exported global is the number that the engine reports of it. A global that holds
/// no number has none.
pub proof fn law_globals_are_what_engines_hold<FR>(
    instance: SandboxInstance<FR>,
    name: Seq<char>,
    r: Option<Value>,
)
    requires
        instance.may_hold(name, r),
    ensures
        match instance.backend_instance {
            BackendInstance::Wasmi(made) => wasmi_may_hold(made, name, r),
            BackendInstance::Wasmtime(guest) => exists|global: Option<EngineValue>| #[trigger]
                wasmtime_may_hold(guest.instance(), name, global) && is_global(global, r),
            BackendInstance::Wasmer(guest) => exists|global: Option<EngineValue>| #[trigger]
                wasmer_may_hold(guest.instance(), name, global) && is_global(global, r),
        },
{
}

/// Whether `r` is the number that `global` is, if it is one.
pub open spec fn is_global(global: Option<EngineValue>, r: Option<Value>) -> bool {
    match r {
        Some(value) => global == Some(EngineValue::Number(value)),
        None => !(global matches Some(EngineValue::Number(_))),
    }
}

} // verus!
