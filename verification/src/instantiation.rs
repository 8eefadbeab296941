//! Instantiation of guest modules.

use crate::backend::{BackendContext, BackendInstance, SandboxBackend};
use crate::capabilities::{SandboxCapabiliesHolder, SandboxCapabilities};
use crate::engine_wasmer::{instantiate_wasmer, wasmer_instantiation, WasmerGuest};
use crate::engine_wasmi::{
    link_module, load_module, not_started_instance, run_start, wasmi_accepts, wasmi_may_link,
    wasmi_may_start, wasmi_module_imports, wasmi_resolves_all,
};
use crate::engine_wasmtime::{instantiate_wasmtime, wasmtime_instantiation, WasmtimeGuest};
use crate::environment::GuestEnvironment;
use crate::error::InstantiationError;
use crate::guest::{guest_answers, with_guest_externals, GuestExternals};
use crate::imports::ImportsView;
use crate::instance::SandboxInstance;
use crate::mapping::{GuestToSupervisorFunctionMapping, SupervisorFuncIndex};
use vstd::prelude::*;

verus! {

/// Whether `r` is an instance with the given parts.
pub open spec fn consists_of<FR>(
    r: Result<SandboxInstance<FR>, InstantiationError>,
    backend_instance: BackendInstance,
    dispatch_thunk: FR,
    funcs: Seq<SupervisorFuncIndex>,
) -> bool {
    &&& r matches Ok(instance)
    &&& instance.backend_instance == backend_instance
    &&& instance.dispatch_thunk == dispatch_thunk
    &&& instance.guest_to_supervisor_mapping@ == funcs
}

/// Whether `r` is what comes of the reply of an engine that was asked to instantiate a module.
pub open spec fn comes_of<FR>(
    r: Result<SandboxInstance<FR>, InstantiationError>,
    reply: Result<BackendInstance, InstantiationError>,
    dispatch_thunk: FR,
    funcs: Seq<SupervisorFuncIndex>,
) -> bool {
    match reply {
        Ok(backend_instance) => consists_of(r, backend_instance, dispatch_thunk, funcs),
        Err(error) => r matches Err(given) && given == error,
    }
}

/// A reply of the wasmtime engine as one of any engine.
pub open spec fn wasmtime_reply(
    reply: Result<WasmtimeGuest, InstantiationError>,
) -> Result<BackendInstance, InstantiationError> {
    match reply {
        Ok(guest) => Ok(BackendInstance::Wasmtime(guest)),
        Err(error) => Err(error),
    }
}

/// A reply of the wasmer engine as one of any engine.
pub open spec fn wasmer_reply(
    reply: Result<WasmerGuest, InstantiationError>,
) -> Result<BackendInstance, InstantiationError> {
    match reply {
        Ok(guest) => Ok(BackendInstance::Wasmer(guest)),
        Err(error) => Err(error),
    }
}

/// The reply that the interpreter gives when the start function of an instance ended with
/// `started`.
pub open spec fn wasmi_reply_of(instance: wasmi::ModuleRef, started: bool) -> Result<
    BackendInstance,
    InstantiationError,
> {
    if started {
        Ok(BackendInstance::Wasmi(instance))
    } else {
        Err(InstantiationError::StartTrapped)
    }
}

/// Whether the interpreter may reply with `reply` when it is asked to instantiate a module.
pub open spec fn wasmi_instantiation<FR, FE: SandboxCapabilities<SupervisorFuncRef = FR>>(
    wasm: Seq<u8>,
    environment: (ImportsView, Seq<SupervisorFuncIndex>),
    dispatch_thunk: FR,
    state: u32,
    reply: Result<BackendInstance, InstantiationError>,
) -> bool {
    if !wasmi_accepts(wasm) {
        reply == Err::<BackendInstance, _>(InstantiationError::ModuleDecoding)
    } else {
        ||| wasmi_may_link(wasm, environment.0, None) && reply == Err::<BackendInstance, _>(
            InstantiationError::Instantiation,
        )
        ||| wasmi_resolves_all(environment.0, wasmi_module_imports(wasm)) && exists|
            instance: wasmi::ModuleRef,
            started: bool,
        | #[trigger]
            wasmi_may_start(
                instance,
                guest_answers::<FR, FE>(dispatch_thunk, environment.1, state),
                started,
            ) && wasmi_may_link(wasm, environment.0, Some(instance)) && reply == wasmi_reply_of(
                instance,
                started,
            )
    }
}

/// Whether an attempt to instantiate a module may end with `r`.
pub open spec fn instantiation<
    FR: Clone,
    FE: SandboxCapabilities<SupervisorFuncRef = FR>,
>(
    backend: SandboxBackend,
    wasm: Seq<u8>,
    environment: (ImportsView, Seq<SupervisorFuncIndex>),
    dispatch_thunk: FR,
    state: u32,
    r: Result<SandboxInstance<FR>, InstantiationError>,
) -> bool {
    match backend {
        SandboxBackend::Wasmi => exists|reply: Result<BackendInstance, InstantiationError>|
         #[trigger]
            wasmi_instantiation::<FR, FE>(wasm, environment, dispatch_thunk, state, reply) && comes_of(
                r,
                reply,
                dispatch_thunk,
                environment.1,
            ),
        SandboxBackend::Wasmtime => exists|reply: Result<WasmtimeGuest, InstantiationError>|
         #[trigger]
            wasmtime_instantiation::<FR, FE>(wasm, environment, dispatch_thunk, state, reply) && comes_of(
                r,
                wasmtime_reply(reply),
                dispatch_thunk,
                environment.1,
            ),
        SandboxBackend::Wasmer => exists|reply: Result<WasmerGuest, InstantiationError>|
         #[trigger]
            wasmer_instantiation::<FR, FE>(wasm, environment, dispatch_thunk, state, reply) && comes_of(
                r,
                wasmer_reply(reply),
                dispatch_thunk,
                environment.1,
            ),
    }
}

/// Makes a sandboxed instance of the reply of an engine that was asked to instantiate a module.
pub fn conclude<FR>(
    reply: Result<BackendInstance, InstantiationError>,
    dispatch_thunk: FR,
    guest_to_supervisor_mapping: GuestToSupervisorFunctionMapping,
) -> (r: Result<SandboxInstance<FR>, InstantiationError>)
    ensures
        comes_of(r, reply, dispatch_thunk, guest_to_supervisor_mapping@),
{
    match reply {
        Ok(backend_instance) => Ok(
            SandboxInstance { backend_instance, dispatch_thunk, guest_to_supervisor_mapping },
        ),
        Err(error) => Err(error),
    }
}

/// Instantiates a module of the interpreter and runs its start function.
fn instantiate_wasmi<FR, FE, SCH>(
    wasm: &[u8],
    guest_env: GuestEnvironment,
    dispatch_thunk: FR,
    state: u32,
) -> (r: Result<SandboxInstance<FR>, InstantiationError>) where
    FR: Clone,
    FE: SandboxCapabilities<SupervisorFuncRef = FR>,
    SCH: SandboxCapabiliesHolder<SupervisorFuncRef = FR, SC = FE>,

    ensures
        instantiation::<FR, FE>(SandboxBackend::Wasmi, wasm@, guest_env@, dispatch_thunk, state, r),
{
    let ghost environment = guest_env@;
    let ghost thunk = dispatch_thunk;
    let module = match load_module(wasm) {
        Some(module) => module,
        None => {
            proof {
                assert(wasmi_instantiation::<FR, FE>(
                    wasm@,
                    environment,
                    dispatch_thunk,
                    state,
                    Err(InstantiationError::ModuleDecoding),
                ));
            }
            return Err(InstantiationError::ModuleDecoding);
        },
    };
    let not_started = match link_module(&module, &guest_env.imports) {
        Some(not_started) => not_started,
        None => {
            proof {
                assert(wasmi_instantiation::<FR, FE>(
                    wasm@,
                    environment,
                    dispatch_thunk,
                    state,
                    Err(InstantiationError::Instantiation),
                ));
            }
            return Err(InstantiationError::Instantiation);
        },
    };
    // The instance is taken out before it is started, so that its start function can already call
    // back into the supervisor.
    let instance = not_started_instance(&not_started);
    let ghost linked = instance;
    let sandbox_instance = SandboxInstance {
        backend_instance: BackendInstance::Wasmi(instance),
        dispatch_thunk,
        guest_to_supervisor_mapping: guest_env.guest_to_supervisor_mapping,
    };
    let ghost answers = guest_answers::<FR, FE>(thunk, environment.1, state);
    let sandbox = &sandbox_instance;
    let started = SCH::with_sandbox_capabilities(
        |supervisor_externals: &mut FE| -> (started: bool)
            ensures
                wasmi_may_start(linked, answers, started)
            {
                with_guest_externals(
                    supervisor_externals,
                    sandbox,
                    state,
                    |guest_externals: &mut GuestExternals<FE>| -> (started: bool)
                        requires
                            old(guest_externals).sandbox_instance == sandbox,
                            old(guest_externals).state == state
                        ensures
                            wasmi_may_start(linked, answers, started)
                        {
                            run_start(not_started, guest_externals)
                        },
                )
            },
    );
    assert(wasmi_instantiation::<FR, FE>(
        wasm@,
        environment,
        thunk,
        state,
        wasmi_reply_of(linked, started),
    ));
    if started {
        Ok(sandbox_instance)
    } else {
        Err(InstantiationError::StartTrapped)
    }
}

/// Instantiates a guest module on the engine that `backend_context` belongs to.
pub fn instantiate_guest<FR, FE, SCH>(
    backend_context: &BackendContext,
    wasm: &[u8],
    guest_env: GuestEnvironment,
    dispatch_thunk: FR,
    state: u32,
) -> (r: Result<SandboxInstance<FR>, InstantiationError>) where
    FR: Clone + Send + Sync + 'static,
    FE: SandboxCapabilities<SupervisorFuncRef = FR>,
    SCH: SandboxCapabiliesHolder<SupervisorFuncRef = FR, SC = FE>,

    ensures
        instantiation::<FR, FE>(
            backend_context.backend(),
            wasm@,
            guest_env@,
            dispatch_thunk,
            state,
            r,
        ),
{
    match backend_context {
        BackendContext::Wasmi => instantiate_wasmi::<FR, FE, SCH>(
            wasm,
            guest_env,
            dispatch_thunk,
            state,
        ),
        BackendContext::Wasmtime => {
            let reply = match instantiate_wasmtime::<FR, FE, SCH>(
                wasm,
                &guest_env,
                &dispatch_thunk,
                state,
            ) {
                Ok(guest) => Ok(BackendInstance::Wasmtime(guest)),
                Err(error) => Err(error),
            };
            conclude(reply, dispatch_thunk, guest_env.guest_to_supervisor_mapping)
        },
        BackendContext::Wasmer(context) => {
            let reply = match instantiate_wasmer::<FR, FE, SCH>(
                context,
                wasm,
                &guest_env,
                &dispatch_thunk,
                state,
            ) {
                Ok(guest) => Ok(BackendInstance::Wasmer(guest)),
                Err(error) => Err(error),
            };
            conclude(reply, dispatch_thunk, guest_env.guest_to_supervisor_mapping)
        },
    }
}

} // verus!
