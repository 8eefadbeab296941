//! Properties of the store and of instantiation.

use crate::backend::{BackendInstance, SandboxBackend};
use crate::capabilities::SandboxCapabilities;
use crate::codec::EntryView;
use crate::dispatch::word_size_of;
use crate::engine_wasmer::{
    all_offered, is_offered, module_offers_serve, offer_serves, offers_serve, wanted_for,
    wanted_offers, wasmer_instance_offers, wasmer_may_compile, wasmer_module_imports, wasmer_while,
    Offers, WantedOffers, WasmerGuest,
};
use crate::engine_wasmi::{
    wasmi_accepts, wasmi_module_imports, wasmi_resolves, wasmi_resolves_all,
};
use crate::engine_wasmtime::{
    wanted_func, wanted_funcs, wasmtime_instance_imports, wasmtime_may_compile,
    wasmtime_module_imports, wasmtime_serves, wasmtime_while, WasmtimeGuest,
};
use crate::environment::{
    environment_of, lemma_shorter_is_live, live_memory, memories_are_live, memory_map_of,
    reached_func,
};
use crate::error::{Error, InstantiationError};
use crate::host::{func_named, may_answer, CallAnswers, HostFunc, ImportView};
use crate::imports::ImportsView;
use crate::instance::SandboxInstance;
use crate::instantiation::instantiation;
use crate::mapping::SupervisorFuncIndex;
use crate::memory::{limit_of, wasmer_may_allocate, wasmi_may_allocate, Memory, MAX_PAGES};
use crate::names::{lookup, QualifiedName};
use crate::state::StateCell;
use crate::store::{
    kept_memory, may_create, memories_belong, memories_with, slot, torn_down, Slot,
};
use crate::value::{EngineValue, Value};
use vstd::prelude::*;
use wasmer::Memory as WasmerMemory;
use wasmi::Error as WasmiError;

verus! {

/// What is put into a store is found under the index that was handed out for it, and every other
/// index finds what it found before.
///
/// Indices are wasm words, so that this holds of the first 2^32 things that are put into a store.
pub proof fn law_kept_is_found<T>(slots: Seq<Option<T>>, value: T, other: u32)
    requires
        slots.len() <= u32::MAX,
        other != word_size_of(slots.len()),
    ensures
        slot(slots.push(Some(value)), word_size_of(slots.len())) == Slot::Live(value),
        slot(slots.push(Some(value)), other) == slot(slots, other),
{
}

/// What was torn down is found as torn down, and a further attempt to tear it down changes
/// nothing. Every other index finds what it found before.
pub proof fn law_torn_down_is_gone<T>(slots: Seq<Option<T>>, idx: u32, other: u32)
    requires
        slot(slots, idx) is Live,
        other != idx,
    ensures
        slot(torn_down(slots, idx), idx) is TornDown,
        torn_down(torn_down(slots, idx), idx) == torn_down(slots, idx),
        slot(torn_down(slots, idx), other) == slot(slots, other),
{
}

/// An index is never used again: what was torn down stays so, whatever is put into the store or
/// torn down afterwards.
pub proof fn law_index_is_not_reused<T>(slots: Seq<Option<T>>, idx: u32, value: T, other: u32)
    requires
        slot(slots, idx) is TornDown,
    ensures
        slot(slots.push(Some(value)), idx) is TornDown,
        slot(torn_down(slots, other), idx) is TornDown,
{
}

/// Nothing appears in a store or changes there unless it is put there: tearing down leaves what is
/// alive as it was.
pub proof fn law_teardown_only_removes<T>(slots: Seq<Option<T>>, idx: u32, other: u32)
    ensures
        slot(torn_down(slots, idx), other) matches Slot::Live(value) ==> slot(slots, other)
            == Slot::Live(value),
        slot(torn_down(slots, idx), other) is Absent <==> slot(slots, other) is Absent,
{
}

/// A memory that was created is found under the index that was handed out for it. It belongs to the
/// engine of the store, has the limits that were asked for, and these are valid.
pub proof fn law_new_memory_is_as_asked_for(
    memories: Seq<Option<Memory>>,
    backend: SandboxBackend,
    initial: u32,
    maximum: u32,
    created: Result<Memory, Error>,
    index: u32,
    memory: Memory,
)
    requires
        memories.len() <= u32::MAX,
        may_create(backend, initial, maximum, created),
        kept_memory(memories, created) == Ok::<_, Error>((index, memory)),
    ensures
        slot(memories_with(memories, created), index) == Slot::Live(memory),
        memory.backend() == backend,
        memory is Wasmi <==> backend == SandboxBackend::Wasmi,
        memory.limits() == (initial, limit_of(maximum)),
        initial <= maximum,
        initial <= MAX_PAGES,
{
}

/// Whether a memory is created is up to the engine alone: it is asked for the initial number of
/// pages and the limit that were asked for, where the largest number stands for no limit. The very
/// memory that it gives is kept, under the next index. If it gives none, the attempt fails and
/// nothing is kept.
pub proof fn law_memory_is_created_if_the_engine_gives_one(
    memories: Seq<Option<Memory>>,
    backend: SandboxBackend,
    initial: u32,
    maximum: u32,
    created: Result<Memory, Error>,
)
    requires
        memories.len() <= u32::MAX,
        may_create(backend, initial, maximum, created),
    ensures
        backend == SandboxBackend::Wasmi ==> exists|reply: Result<wasmi::MemoryRef, WasmiError>|
         #[trigger]
            wasmi_may_allocate(initial, asked_limit(maximum), reply) && match reply {
                Ok(memory) => kept_memory(memories, created) == Ok::<_, Error>(
                    (memories.len() as u32, Memory::Wasmi(memory)),
                ) && memories_with(memories, created) == memories.push(
                    Some(Memory::Wasmi(memory)),
                ),
                Err(error) => kept_memory(memories, created) == Err::<(u32, Memory), _>(
                    Error::Wasmi(error),
                ) && memories_with(memories, created) == memories,
            },
        backend == SandboxBackend::Wasmer ==> exists|reply: Option<WasmerMemory>| #[trigger]
            wasmer_may_allocate(initial, asked_limit(maximum), reply) && match reply {
                Some(memory) => (kept_memory(memories, created) matches Ok((index, kept)) && index
                    == memories.len() && (kept matches Memory::Wasmer(given) && given@ == memory)
                    && memories_with(memories, created) == memories.push(Some(kept))),
                None => kept_memory(memories, created) == Err::<(u32, Memory), _>(
                    Error::InvalidMemoryReference,
                ) && memories_with(memories, created) == memories,
            },
        backend != SandboxBackend::Wasmtime,
{
}

/// The limit that an engine is asked for.
pub open spec fn asked_limit(maximum: u32) -> Option<u32> {
    if maximum == 0xffff_ffff {
        None
    } else {
        Some(maximum)
    }
}

/// A compiled guest reaches the same supervisor function through an import as an interpreted one:
/// the one that the last definition under its name gives.
pub proof fn law_engines_reach_the_same_functions(
    entries: Seq<EntryView>,
    memories: Seq<Option<Memory>>,
    environment: (ImportsView, Seq<SupervisorFuncIndex>),
    name: QualifiedName,
)
    requires
        environment_of(entries, memories) == Ok::<_, InstantiationError>(environment),
    ensures
        func_named(environment, name) == reached_func(entries, name),
{
}

/// An instance belongs to the engine of the store that it was instantiated in, and serves its
/// imports through the dispatch thunk and the functions that it was instantiated with.
pub proof fn law_instance_is_as_asked_for<
    FR: Clone,
    FE: SandboxCapabilities<SupervisorFuncRef = FR>,
>(
    backend: SandboxBackend,
    wasm: Seq<u8>,
    environment: (ImportsView, Seq<SupervisorFuncIndex>),
    dispatch_thunk: FR,
    state: u32,
    instance: SandboxInstance<FR>,
)
    requires
        instantiation::<FR, FE>(backend, wasm, environment, dispatch_thunk, state, Ok(instance)),
    ensures
        instance.backend_instance.backend() == backend,
        match backend {
            SandboxBackend::Wasmi => instance.backend_instance is Wasmi,
            SandboxBackend::Wasmtime => instance.backend_instance is Wasmtime,
            SandboxBackend::Wasmer => instance.backend_instance is Wasmer,
        },
        instance.dispatch_thunk == dispatch_thunk,
        instance.guest_to_supervisor_mapping@ == environment.1,
{
}

/// The memories that an environment definition makes available belong to the engine of the store
/// that it was decoded with.
pub proof fn law_environment_memories_belong(
    entries: Seq<EntryView>,
    memories: Seq<Option<Memory>>,
    backend: SandboxBackend,
    name: QualifiedName,
)
    requires
        memories_belong(memories, backend),
        memories_are_live(entries, memories),
    ensures
        lookup(memory_map_of(entries, memories), name) matches Some(memory) ==> memory.backend()
            == backend,
    decreases entries.len(),
{
    if entries.len() > 0 {
        let shorter = entries.drop_last();
        lemma_shorter_is_live(entries, memories);
        law_environment_memories_belong(shorter, memories, backend, name);
        assert(entries.last() == entries[entries.len() - 1]);
        if entries.last().entity is Memory {
            let memory_idx = entries.last().entity->Memory_0;
            assert(live_memory(memories, memory_idx) is Some);
            assert(memories[memory_idx as int] is Some);
        }
    }
}

/// A module that imports something which the environment does not provide cannot be instantiated
/// by the interpreter.
pub proof fn law_wasmi_refuses_missing_imports<
    FR: Clone,
    FE: SandboxCapabilities<SupervisorFuncRef = FR>,
>(
    wasm: Seq<u8>,
    environment: (ImportsView, Seq<SupervisorFuncIndex>),
    dispatch_thunk: FR,
    state: u32,
    r: Result<SandboxInstance<FR>, InstantiationError>,
    i: int,
)
    requires
        instantiation::<FR, FE>(SandboxBackend::Wasmi, wasm, environment, dispatch_thunk, state, r),
        wasmi_accepts(wasm),
        0 <= i < wasmi_module_imports(wasm).len(),
        !wasmi_resolves(environment.0, wasmi_module_imports(wasm)[i]),
    ensures
        r == Err::<SandboxInstance<FR>, _>(InstantiationError::Instantiation),
{
    assert(!wasmi_resolves_all(environment.0, wasmi_module_imports(wasm)));
}

/// A binary that the interpreter does not accept as a valid module is reported as such.
pub proof fn law_wasmi_refuses_invalid_modules<
    FR: Clone,
    FE: SandboxCapabilities<SupervisorFuncRef = FR>,
>(
    wasm: Seq<u8>,
    environment: (ImportsView, Seq<SupervisorFuncIndex>),
    dispatch_thunk: FR,
    state: u32,
    r: Result<SandboxInstance<FR>, InstantiationError>,
)
    requires
        instantiation::<FR, FE>(SandboxBackend::Wasmi, wasm, environment, dispatch_thunk, state, r),
    ensures
        r == Err::<SandboxInstance<FR>, _>(InstantiationError::ModuleDecoding) <==> !wasmi_accepts(
            wasm,
        ),
{
}

pub(crate) proof fn lemma_wanted_funcs_bounded(
    imports: Seq<ImportView<wasmtime::FuncType>>,
    environment: (ImportsView, Seq<SupervisorFuncIndex>),
)
    ensures
        wanted_funcs(imports, environment).len() <= imports.len(),
    decreases imports.len(),
{
    if imports.len() > 0 {
        lemma_wanted_funcs_bounded(imports.drop_last(), environment);
    }
}

proof fn lemma_wanted_funcs_short(
    imports: Seq<ImportView<wasmtime::FuncType>>,
    environment: (ImportsView, Seq<SupervisorFuncIndex>),
    i: int,
)
    requires
        0 <= i < imports.len(),
        wanted_func(imports[i], environment) is None,
    ensures
        wanted_funcs(imports, environment).len() < imports.len(),
    decreases imports.len(),
{
    lemma_wanted_funcs_bounded(imports.drop_last(), environment);
    if i < imports.len() - 1 {
        lemma_wanted_funcs_short(imports.drop_last(), environment, i);
    }
}

/// A module that imports something which the environment does not provide cannot be instantiated
/// by the wasmtime engine, which is given functions only.
pub proof fn law_wasmtime_refuses_missing_imports<
    FR: Clone,
    FE: SandboxCapabilities<SupervisorFuncRef = FR>,
>(
    wasm: Seq<u8>,
    environment: (ImportsView, Seq<SupervisorFuncIndex>),
    dispatch_thunk: FR,
    state: u32,
    r: Result<SandboxInstance<FR>, InstantiationError>,
    i: int,
)
    requires
        instantiation::<FR, FE>(SandboxBackend::Wasmtime, wasm, environment, dispatch_thunk, state, r),
        0 <= i < wasmtime_module_imports(wasm).len(),
        wanted_func(wasmtime_module_imports(wasm)[i], environment) is None,
    ensures
        r == Err::<SandboxInstance<FR>, _>(InstantiationError::Instantiation) || (
        wasmtime_may_compile(wasm, false) && r == Err::<SandboxInstance<FR>, _>(
            InstantiationError::ModuleDecoding,
        )),
{
    lemma_wanted_funcs_short(wasmtime_module_imports(wasm), environment, i);
}

pub(crate) proof fn lemma_offered_is_wanted(
    imports: Seq<ImportView<wasmer::FunctionType>>,
    environment: (ImportsView, Seq<SupervisorFuncIndex>),
    wanted: WantedOffers,
    module: Seq<char>,
    name: Seq<char>,
)
    requires
        wanted_offers(imports, environment) == Ok::<_, InstantiationError>(wanted),
        wanted.dom().contains(module),
        wanted[module].dom().contains(name),
    ensures
        exists|i: int|
            0 <= i < imports.len() && (#[trigger] imports[i]).module == module && imports[i].name
                == name && wanted_for(imports[i], environment) == Ok::<
                _,
                InstantiationError,
            >(Some(wanted[module][name])),
    decreases imports.len(),
{
    let shorter = imports.drop_last();
    let before = wanted_offers(shorter, environment)->Ok_0;
    let last = imports[imports.len() - 1];
    let given = wanted_for(last, environment)->Ok_0;
    assert(last == imports.last());
    if given is Some && last.module == module && last.name == name {
        assert(imports[imports.len() - 1].module == module);
    } else {
        assert(before.dom().contains(module) && before[module].dom().contains(name));
        assert(before[module][name] == wanted[module][name]);
        lemma_offered_is_wanted(shorter, environment, before, module, name);
        let i = choose|i: int|
            0 <= i < shorter.len() && (#[trigger] shorter[i]).module == module && shorter[i].name
                == name && wanted_for(shorter[i], environment) == Ok::<
                _,
                InstantiationError,
            >(Some(wanted[module][name]));
        assert(imports[i] == shorter[i]);
    }
}

/// An import that is refused decides the attempt.
proof fn lemma_refused_import(
    imports: Seq<ImportView<wasmer::FunctionType>>,
    environment: (ImportsView, Seq<SupervisorFuncIndex>),
    i: int,
)
    requires
        0 <= i < imports.len(),
        wanted_for(imports[i], environment) is Err,
    ensures
        wanted_offers(imports, environment) == Err::<WantedOffers, _>(
            InstantiationError::Instantiation,
        ),
    decreases imports.len(),
{
    lemma_refusals_are_alike(imports.drop_last(), environment);
    if i < imports.len() - 1 {
        lemma_refused_import(imports.drop_last(), environment, i);
    }
}

proof fn lemma_refusals_are_alike(
    imports: Seq<ImportView<wasmer::FunctionType>>,
    environment: (ImportsView, Seq<SupervisorFuncIndex>),
)
    ensures
        wanted_offers(imports, environment) matches Err(error) ==> error
            == InstantiationError::Instantiation,
    decreases imports.len(),
{
    if imports.len() > 0 {
        lemma_refusals_are_alike(imports.drop_last(), environment);
    }
}

/// A module that imports something which the environment does not provide cannot be instantiated
/// by the wasmer engine.
pub proof fn law_wasmer_refuses_missing_imports<
    FR: Clone,
    FE: SandboxCapabilities<SupervisorFuncRef = FR>,
>(
    wasm: Seq<u8>,
    environment: (ImportsView, Seq<SupervisorFuncIndex>),
    dispatch_thunk: FR,
    state: u32,
    r: Result<SandboxInstance<FR>, InstantiationError>,
    i: int,
)
    requires
        instantiation::<FR, FE>(SandboxBackend::Wasmer, wasm, environment, dispatch_thunk, state, r),
        0 <= i < wasmer_module_imports(wasm).len(),
        !(wanted_for(wasmer_module_imports(wasm)[i], environment) matches Ok(Some(_))),
    ensures
        r == Err::<SandboxInstance<FR>, _>(InstantiationError::Instantiation) || (
        wasmer_may_compile(wasm, false) && r == Err::<SandboxInstance<FR>, _>(
            InstantiationError::ModuleDecoding,
        )),
{
    let imports = wasmer_module_imports(wasm);
    let import = imports[i];
    if wanted_for(import, environment) is Err {
        lemma_refused_import(imports, environment, i);
    } else {
        lemma_refusals_are_alike(imports, environment);
        if wanted_offers(imports, environment) is Ok {
            let wanted = wanted_offers(imports, environment)->Ok_0;
            assert forall|offers: Offers, cell: StateCell| #[trigger]
                offers_serve::<FR, FE>(dispatch_thunk, wanted, cell, offers) implies !all_offered(
                offers,
                imports,
            ) by {
                if is_offered(offers, import) {
                    assert(wanted.dom().contains(import.module));
                    assert(wanted[import.module].dom().contains(import.name));
                    lemma_offered_is_wanted(
                        imports,
                        environment,
                        wanted,
                        import.module,
                        import.name,
                    );
                    assert(offer_serves::<FR, FE>(
                        dispatch_thunk,
                        wanted[import.module][import.name],
                        cell,
                        offers[import.module][import.name],
                    ));
                }
            }
        }
    }
}

/// Whether `answers` are those of a host function of the wasmtime engine for `func_idx` that hands
/// on `state`, through a clone of `dispatch_thunk`.
pub open spec fn wasmtime_answers_with<FR: Clone, FE: SandboxCapabilities<SupervisorFuncRef = FR>>(
    answers: CallAnswers,
    dispatch_thunk: FR,
    func_idx: SupervisorFuncIndex,
    state: u32,
) -> bool {
    exists|thunk: FR| #[trigger]
        cloned(dispatch_thunk, thunk) && forall|
            args: Seq<EngineValue>,
            slots: nat,
            answer: Result<Option<Value>, Seq<char>>,
        | #[trigger]
            answers(args, slots, answer) <==> may_answer::<FR, FE>(
                thunk,
                HostFunc { func_idx, state },
                args,
                slots,
                answer,
            )
}

/// Whether `answers` are those of a host function of the wasmer engine for `func_idx` that hands on
/// `state`, through a clone of `dispatch_thunk`. Such a function returns the value that it got,
/// whether or not the guest expects one.
pub open spec fn wasmer_answers_with<FR: Clone, FE: SandboxCapabilities<SupervisorFuncRef = FR>>(
    answers: CallAnswers,
    dispatch_thunk: FR,
    func_idx: SupervisorFuncIndex,
    state: u32,
) -> bool {
    exists|thunk: FR| #[trigger]
        cloned(dispatch_thunk, thunk) && forall|
            args: Seq<EngineValue>,
            slots: nat,
            answer: Result<Option<Value>, Seq<char>>,
        | #[trigger]
            answers(args, slots, answer) <==> may_answer::<FR, FE>(
                thunk,
                HostFunc { func_idx, state },
                args,
                1,
                answer,
            )
}

/// Whenever an exported function of a wasmtime instance is invoked, the functions that the instance
/// imports hand on the state of this call, whatever state it was instantiated with.
pub proof fn law_wasmtime_calls_hand_on_their_state<
    FR: Clone,
    FE: SandboxCapabilities<SupervisorFuncRef = FR>,
>(
    wasm: Seq<u8>,
    environment: (ImportsView, Seq<SupervisorFuncIndex>),
    dispatch_thunk: FR,
    instantiated_with: u32,
    sandbox_instance: SandboxInstance<FR>,
    guest: WasmtimeGuest,
    i: int,
    state: u32,
)
    requires
        instantiation::<FR, FE>(
            SandboxBackend::Wasmtime,
            wasm,
            environment,
            dispatch_thunk,
            instantiated_with,
            Ok(sandbox_instance),
        ),
        sandbox_instance.backend_instance == BackendInstance::Wasmtime(guest),
        0 <= i < wasmtime_instance_imports(guest.instance()).len(),
    ensures
        wasmtime_answers_with::<FR, FE>(
            wasmtime_while(wasmtime_instance_imports(guest.instance()), state)[i].1,
            dispatch_thunk,
            wanted_funcs(wasmtime_module_imports(wasm), environment)[i].1,
            state,
        ),
{
    let import = wasmtime_instance_imports(guest.instance())[i];
    let func_idx = wanted_funcs(wasmtime_module_imports(wasm), environment)[i].1;
    assert(wasmtime_serves::<FR, FE>(dispatch_thunk, func_idx, guest.cell(), import));
}

/// Whenever an exported function of a wasmer instance is invoked, the functions that the instance
/// imports hand on the state of this call, whatever state it was instantiated with.
pub proof fn law_wasmer_calls_hand_on_their_state<
    FR: Clone,
    FE: SandboxCapabilities<SupervisorFuncRef = FR>,
>(
    wasm: Seq<u8>,
    environment: (ImportsView, Seq<SupervisorFuncIndex>),
    dispatch_thunk: FR,
    instantiated_with: u32,
    sandbox_instance: SandboxInstance<FR>,
    guest: WasmerGuest,
    module: Seq<char>,
    name: Seq<char>,
    state: u32,
)
    requires
        instantiation::<FR, FE>(
            SandboxBackend::Wasmer,
            wasm,
            environment,
            dispatch_thunk,
            instantiated_with,
            Ok(sandbox_instance),
        ),
        sandbox_instance.backend_instance == BackendInstance::Wasmer(guest),
        wasmer_instance_offers(guest.instance()).dom().contains(module),
        wasmer_instance_offers(guest.instance())[module].dom().contains(name),
        wasmer_instance_offers(guest.instance())[module][name] is Function,
    ensures
        wanted_offers(wasmer_module_imports(wasm), environment) is Ok,
        wanted_offers(wasmer_module_imports(wasm), environment)->Ok_0[module][name] is Function,
        wasmer_while(wasmer_instance_offers(guest.instance()), state)[module][name] is Function,
        wasmer_answers_with::<FR, FE>(
            wasmer_while(
                wasmer_instance_offers(guest.instance()),
                state,
            )[module][name]->Function_1,
            dispatch_thunk,
            wanted_offers(
                wasmer_module_imports(wasm),
                environment,
            )->Ok_0[module][name]->Function_1,
            state,
        ),
{
    let wanted = wanted_offers(wasmer_module_imports(wasm), environment)->Ok_0;
    let offers = wasmer_instance_offers(guest.instance());
    assert(module_offers_serve::<FR, FE>(
        dispatch_thunk,
        wanted[module],
        guest.cell(),
        offers[module],
    ));
    assert(offer_serves::<FR, FE>(
        dispatch_thunk,
        wanted[module][name],
        guest.cell(),
        offers[module][name],
    ));
}

} // verus!
