//! Sandboxed instances of guest modules.

use crate::backend::BackendInstance;
use crate::capabilities::{SandboxCapabiliesHolder, SandboxCapabilities};
use crate::engine_wasmer::wasmer_exports_number;
use crate::engine_wasmi::{
    exported_global, invoke_export, wasmi_exports_func, wasmi_exports_global, wasmi_may_hold,
    wasmi_may_return, wasmi_reply,
};
use crate::engine_wasmtime::wasmtime_exports_number;
use crate::error::InvokeError;
use crate::guest::{
    guest_answers, plain_value, runtime_values, with_guest_externals, GuestAnswers, GuestExternals,
};
use crate::mapping::GuestToSupervisorFunctionMapping;
use crate::value::Value;
use vstd::prelude::*;
use wasmi::Error as WasmiError;

verus! {

/// Sandboxed instance of a wasm module.
///
/// Its primary purpose is to invoke exported functions on it.
///
/// All imports of this instance are specified at the creation time and imports are implemented by
/// the supervisor.
///
/// Hence, in order to invoke an exported function on a sandboxed module instance, it's required to
/// provide supervisor externals: they will be used to execute code in the supervisor context.
///
/// This is generic over a supervisor function reference type.
pub struct SandboxInstance<FR> {
    pub backend_instance: BackendInstance,
    pub dispatch_thunk: FR,
    pub guest_to_supervisor_mapping: GuestToSupervisorFunctionMapping,
}

/// What the caller of an exported function gets when the interpreter gives `reply`.
pub open spec fn interpreted_result(reply: Result<Option<Value>, WasmiError>) -> Result<
    Option<Value>,
    InvokeError,
> {
    match reply {
        Ok(value) => Ok(value),
        Err(error) => Err(InvokeError::Wasmi(error)),
    }
}

/// Turns the reply of the interpreter into what the caller of an exported function gets.
pub fn interpret_wasmi_reply(reply: Result<Option<Value>, WasmiError>) -> (r: Result<
    Option<Value>,
    InvokeError,
>)
    ensures
        r == interpreted_result(reply),
{
    match reply {
        Ok(value) => Ok(value),
        Err(error) => Err(InvokeError::Wasmi(error)),
    }
}

/// Converts a reply of the interpreter.
fn plain_reply(r: Result<Option<wasmi::RuntimeValue>, WasmiError>) -> (reply: Result<
    Option<Value>,
    WasmiError,
>)
    ensures
        reply == wasmi_reply(r),
{
    match r {
        Ok(Some(value)) => Ok(Some(plain_value(&value))),
        Ok(None) => Ok(None),
        Err(error) => Err(error),
    }
}

impl<FR> SandboxInstance<FR> {
    /// How the host functions answer if this is an instance of the interpreter.
    pub open spec fn guest_answers<FE: SandboxCapabilities<SupervisorFuncRef = FR>>(
        self,
        state: u32,
    ) -> GuestAnswers {
        guest_answers::<FR, FE>(
            self.dispatch_thunk,
            self.guest_to_supervisor_mapping@,
            state,
        )
    }

    /// Whether a call of an exported function may end with `r`.
    pub open spec fn may_return<FE: SandboxCapabilities<SupervisorFuncRef = FR>>(
        self,
        export_name: Seq<char>,
        args: Seq<Value>,
        state: u32,
        r: Result<Option<Value>, InvokeError>,
    ) -> bool {
        match self.backend_instance {
            BackendInstance::Wasmi(instance) => {
                &&& !wasmi_exports_func(instance, export_name) ==> r is Err
                &&& exists|reply: Result<Option<Value>, WasmiError>| #[trigger]
                    wasmi_may_return(
                        instance,
                        export_name,
                        args,
                        self.guest_answers::<FE>(state),
                        reply,
                    ) && r == interpreted_result(reply)
            },
            BackendInstance::Wasmtime(guest) => guest.may_return(export_name, args, state, r),
            BackendInstance::Wasmer(guest) => guest.may_return(export_name, args, state, r),
        }
    }

    /// Invoke an exported function by a name.
    ///
    /// The capabilities that `SCH` provides are required to execute the implementations of the
    /// syscalls that are published to a sandboxed module instance.
    ///
    /// The `state` parameter can be used to provide custom data for these syscall implementations.
    pub fn invoke<FE, SCH>(&self, export_name: &str, args: &[Value], state: u32) -> (r: Result<
        Option<Value>,
        InvokeError,
    >) where
        FE: SandboxCapabilities<SupervisorFuncRef = FR>,
        SCH: SandboxCapabiliesHolder<SupervisorFuncRef = FR, SC = FE>,

        ensures
            self.may_return::<FE>(export_name@, args@, state, r),
    {
        SCH::with_sandbox_capabilities(
            |supervisor_externals: &mut FE| -> (r: Result<Option<Value>, InvokeError>)
                ensures
                    self.may_return::<FE>(export_name@, args@, state, r)
                {
                    with_guest_externals(
                        supervisor_externals,
                        self,
                        state,
                        |guest_externals: &mut GuestExternals<FE>| -> (r: Result<
                            Option<Value>,
                            InvokeError,
                        >)
                            requires
                                old(guest_externals).sandbox_instance == self,
                                old(guest_externals).state == state
                            ensures
                                self.may_return::<FE>(export_name@, args@, state, r)
                            {
                                self.invoke_with(export_name, args, guest_externals)
                            },
                    )
                },
        )
    }

    /// Invokes an exported function, with externals that serve the functions that it imports.
    fn invoke_with<'a, FE>(
        &self,
        export_name: &str,
        args: &[Value],
        guest_externals: &mut GuestExternals<'a, FE>,
    ) -> (r: Result<Option<Value>, InvokeError>) where
        FE: SandboxCapabilities<SupervisorFuncRef = FR>,

        requires
            old(guest_externals).sandbox_instance == self,
        ensures
            self.may_return::<FE>(export_name@, args@, old(guest_externals).state, r),
    {
        let ghost state = guest_externals.state;
        match &self.backend_instance {
            BackendInstance::Wasmi(instance) => {
                let values = runtime_values(args);
                let reply = plain_reply(
                    invoke_export(instance, export_name, values.as_slice(), guest_externals),
                );
                proof {
                    assert(wasmi_may_return(
                        *instance,
                        export_name@,
                        args@,
                        self.guest_answers::<FE>(state),
                        reply,
                    ));
                }
                interpret_wasmi_reply(reply)
            },
            BackendInstance::Wasmtime(guest) => guest.invoke(
                export_name,
                args,
                guest_externals.state,
            ),
            BackendInstance::Wasmer(guest) => guest.invoke(
                export_name,
                args,
                guest_externals.state,
            ),
        }
    }

    /// Whether this instance exports a global under a name that holds a number.
    pub open spec fn exports_number(self, name: Seq<char>) -> bool {
        match self.backend_instance {
            BackendInstance::Wasmi(instance) => wasmi_exports_global(instance, name),
            BackendInstance::Wasmtime(guest) => wasmtime_exports_number(guest.instance(), name),
            BackendInstance::Wasmer(guest) => wasmer_exports_number(guest.instance(), name),
        }
    }

    /// Whether this instance may answer with `r` when it is asked for an exported global.
    pub open spec fn may_hold(self, name: Seq<char>, r: Option<Value>) -> bool {
        match self.backend_instance {
            BackendInstance::Wasmi(instance) => wasmi_may_hold(instance, name, r),
            BackendInstance::Wasmtime(guest) => guest.may_hold(name, r),
            BackendInstance::Wasmer(guest) => guest.may_hold(name, r),
        }
    }

    /// Get the value from a global with the given `name`.
    ///
    /// Returns `Some(_)` if the global could be found.
    pub fn get_global_val(&self, name: &str) -> (r: Option<Value>)
        ensures
            self.may_hold(name@, r),
            r is Some == self.exports_number(name@),
    {
        match &self.backend_instance {
            BackendInstance::Wasmi(instance) => match exported_global(instance, name) {
                Some(value) => Some(plain_value(&value)),
                None => None,
            },
            BackendInstance::Wasmtime(guest) => guest.global_number(name),
            BackendInstance::Wasmer(guest) => guest.global_number(name),
        }
    }
}

} // verus!
