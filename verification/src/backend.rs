//! The engines that run guest modules.

use crate::engine_wasmer::WasmerGuest;
use crate::engine_wasmtime::WasmtimeGuest;
use vstd::prelude::*;
use wasmer::Store as WasmerStore;
use wasmer_compiler_singlepass::Singlepass;

verus! {

#[verifier::external_type_specification]
#[verifier::external_body]
pub struct ExSinglepass(Singlepass);

#[verifier::external_type_specification]
#[verifier::external_body]
pub struct ExWasmiModuleRef(wasmi::ModuleRef);

#[verifier::external_type_specification]
#[verifier::external_body]
pub struct ExWasmtimeInstance(wasmtime::Instance);

#[verifier::external_type_specification]
#[verifier::external_body]
pub struct ExWasmerInstance(wasmer::Instance);

/// Sandbox backend to use.
#[derive(Copy, Clone, Debug, PartialEq, Eq, Structural)]
pub enum SandboxBackend {
    /// Wasm interpreter.
    Wasmi,
    /// Wasmtime environment.
    Wasmtime,
    /// Wasmer environment.
    Wasmer,
}

/// What the wasmer engine needs to create memories and modules.
pub struct WasmerBackend {
    /// The configuration of the compiler.
    #[allow(dead_code)]
    compiler: Singlepass,
    /// The store that owns memories and modules.
    store: WasmerStore,
}

/// Whether a store is set up for numbers only: the modules that it compiles know neither vectors
/// nor references, and its memories have the guards that are usual on this machine.
pub uninterp spec fn wasmer_plain_store(store: WasmerStore) -> bool;

/// What an engine needs to create memories and modules.
pub enum BackendContext {
    /// Wasm interpreter.
    Wasmi,
    /// Wasmtime environment.
    Wasmtime,
    /// Wasmer environment.
    Wasmer(WasmerBackend),
}

/// An instantiated module of one of the engines.
pub enum BackendInstance {
    /// A module of the interpreter.
    Wasmi(wasmi::ModuleRef),
    /// A module of the wasmtime engine.
    Wasmtime(WasmtimeGuest),
    /// A module of the wasmer engine.
    Wasmer(WasmerGuest),
}

/// Calls `Singlepass::default`. The configuration is not inspected.
#[verifier::external_body]
fn singlepass_compiler() -> Singlepass {
    Singlepass::default()
}

/// Calls `wasmer::JIT::new`, `JIT::engine` and `wasmer::Store::new`, which set up a store whose
/// engine compiles with the given configuration.
///
/// Whatever the configuration, the engine has the features that `CompilerConfig` gives for
/// `Singlepass`, with vectors and references switched off, and the store has `BaseTunables` for the
/// machine that it runs on.
#[verifier::external_body]
fn wasmer_store(compiler: &Singlepass) -> (r: WasmerStore)
    ensures
        wasmer_plain_store(r),
{
    WasmerStore::new(&wasmer::JIT::new(compiler.clone()).engine())
}

impl WasmerBackend {
    /// The store is one that this library has set up.
    #[verifier::type_invariant]
    spec fn wf(self) -> bool {
        wasmer_plain_store(self.store)
    }

    /// Returns the store that owns memories and modules.
    pub(crate) fn store(&self) -> (r: &WasmerStore)
        ensures
            wasmer_plain_store(*r),
    {
        proof {
            use_type_invariant(self);
        }
        &self.store
    }
}

impl BackendContext {
    /// The backend that this context belongs to.
    pub open spec fn backend(self) -> SandboxBackend {
        match self {
            BackendContext::Wasmi => SandboxBackend::Wasmi,
            BackendContext::Wasmtime => SandboxBackend::Wasmtime,
            BackendContext::Wasmer(_) => SandboxBackend::Wasmer,
        }
    }

    /// Sets up an engine. The wasmtime engine cannot be set up this way.
    pub fn new(backend: SandboxBackend) -> (r: BackendContext)
        requires
            backend != SandboxBackend::Wasmtime,
        ensures
            r.backend() == backend,
            backend == SandboxBackend::Wasmi <==> r is Wasmi,
            backend == SandboxBackend::Wasmer <==> r is Wasmer,
    {
        match backend {
            SandboxBackend::Wasmi => BackendContext::Wasmi,
            SandboxBackend::Wasmtime => BackendContext::Wasmtime,
            SandboxBackend::Wasmer => {
                let compiler = singlepass_compiler();
                let store = wasmer_store(&compiler);
                BackendContext::Wasmer(WasmerBackend { compiler, store })
            },
        }
    }
}

impl BackendInstance {
    /// The backend that this instance belongs to.
    pub open spec fn backend(self) -> SandboxBackend {
        match self {
            BackendInstance::Wasmi(_) => SandboxBackend::Wasmi,
            BackendInstance::Wasmtime(_) => SandboxBackend::Wasmtime,
            BackendInstance::Wasmer(_) => SandboxBackend::Wasmer,
        }
    }
}

} // verus!
