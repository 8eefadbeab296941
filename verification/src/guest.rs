//! The side of an interpreted guest that calls back into the supervisor.

use crate::capabilities::{Call, SandboxCapabilities};
use crate::dispatch::{calls_between, dispatch_call, guest_run, DispatchError, Request};
use crate::error::Error;
use crate::instance::SandboxInstance;
use crate::mapping::{supervisor_func, GuestFuncIndex, SupervisorFuncIndex};
use crate::value::Value;
use sp_wasm_interface::Value as InterfaceValue;
use vstd::prelude::*;

verus! {

#[verifier::external_type_specification]
#[verifier::external_body]
pub struct ExWasmiTrap(wasmi::Trap);

#[verifier::external_type_specification]
#[verifier::external_body]
pub struct ExWasmiRuntimeValue(wasmi::RuntimeValue);

#[verifier::external_type_specification]
#[verifier::external_body]
pub struct ExWasmiRuntimeArgs<'a>(wasmi::RuntimeArgs<'a>);

/// The number that a value of the interpreter is.
pub uninterp spec fn wasmi_value(value: wasmi::RuntimeValue) -> Value;

/// The values that an argument list of the interpreter holds, in order.
pub uninterp spec fn wasmi_args(args: wasmi::RuntimeArgs<'_>) -> Seq<wasmi::RuntimeValue>;

/// The error that a trap raised by the host carries.
pub uninterp spec fn wasmi_trap_error(trap: wasmi::Trap) -> Error;

/// The text that describes a trap which carries an [`Error::Other`] with the given message: what
/// `wasmi::Trap` displays as.
pub uninterp spec fn wasmi_trap_text(message: Seq<char>) -> Seq<char>;

/// Calls the conversion from `wasmi::RuntimeValue` to `sp_wasm_interface::Value`, which keeps the
/// number; floating-point numbers keep their bit patterns.
#[verifier::external_body]
pub(crate) fn plain_value(value: &wasmi::RuntimeValue) -> (r: Value)
    ensures
        r == wasmi_value(*value),
{
    match InterfaceValue::from(*value) {
        InterfaceValue::I32(v) => Value::I32(v),
        InterfaceValue::I64(v) => Value::I64(v),
        InterfaceValue::F32(v) => Value::F32(v),
        InterfaceValue::F64(v) => Value::F64(v),
    }
}

/// Calls the conversion from `sp_wasm_interface::Value` to `wasmi::RuntimeValue`, which keeps the
/// number; floating-point numbers keep their bit patterns.
#[verifier::external_body]
pub(crate) fn runtime_value(value: Value) -> (r: wasmi::RuntimeValue)
    ensures
        wasmi_value(r) == value,
{
    wasmi::RuntimeValue::from(match value {
        Value::I32(v) => InterfaceValue::I32(v),
        Value::I64(v) => InterfaceValue::I64(v),
        Value::F32(v) => InterfaceValue::F32(v),
        Value::F64(v) => InterfaceValue::F64(v),
    })
}

/// Calls `RuntimeArgs::as_ref`, which gives the values of an argument list in order.
#[verifier::external_body]
fn runtime_args<'a>(args: &'a wasmi::RuntimeArgs<'a>) -> (r: &'a [wasmi::RuntimeValue])
    ensures
        r@ == wasmi_args(*args),
{
    args.as_ref()
}

/// Makes a trap of kind `wasmi::TrapKind::Host`, which carries the error it is given.
#[verifier::external_body]
fn host_trap(error: Error) -> (r: wasmi::Trap)
    ensures
        wasmi_trap_error(r) == error,
{
    wasmi::TrapKind::Host(Box::new(error)).into()
}

/// Calls the `Display` implementation of `wasmi::Trap` on a trap that carries an
/// [`Error::Other`]. The text is a function of the message.
#[verifier::external_body]
fn describe_host_trap(message: String) -> (r: String)
    ensures
        r@ == wasmi_trap_text(message@),
{
    wasmi::Trap::from(Error::Other(message)).to_string()
}

/// Constructs a trap error from the specified message.
pub fn trap(msg: &str) -> (r: wasmi::Trap)
    ensures
        wasmi_trap_error(r) matches Error::Other(text) && text@ == msg@,
{
    host_trap(Error::Other(msg.to_owned()))
}

/// The numbers that values of the interpreter are.
pub open spec fn wasmi_values(values: Seq<wasmi::RuntimeValue>) -> Seq<Value> {
    values.map_values(|value: wasmi::RuntimeValue| wasmi_value(value))
}

/// Converts values of the interpreter to numbers.
fn plain_values(values: &[wasmi::RuntimeValue]) -> (r: Vec<Value>)
    ensures
        r@ == wasmi_values(values@),
{
    let mut r: Vec<Value> = Vec::new();
    let mut i: usize = 0;
    while i < values.len()
        invariant
            i <= values.len(),
            r@ == wasmi_values(values@.take(i as int)),
        decreases values.len() - i,
    {
        r.push(plain_value(&values[i]));
        i = i + 1;
        assert(r@ =~= wasmi_values(values@.take(i as int)));
    }
    assert(values@.take(i as int) =~= values@);
    r
}

/// Converts numbers to values of the interpreter.
pub fn runtime_values(values: &[Value]) -> (r: Vec<wasmi::RuntimeValue>)
    ensures
        wasmi_values(r@) == values@,
{
    let mut r: Vec<wasmi::RuntimeValue> = Vec::new();
    let mut i: usize = 0;
    while i < values.len()
        invariant
            i <= values.len(),
            wasmi_values(r@) == values@.take(i as int),
        decreases values.len() - i,
    {
        let ghost before = r@;
        r.push(runtime_value(values[i]));
        i = i + 1;
        proof {
            assert(wasmi_values(before) =~= wasmi_values(r@).drop_last());
            assert(wasmi_values(r@) =~= values@.take(i as int));
        }
    }
    assert(values@.take(i as int) =~= values@);
    r
}

/// What the interpreter is told of a dispatched call.
pub open spec fn wasmi_outcome(
    r: Result<Option<wasmi::RuntimeValue>, wasmi::Trap>,
    outcome: Result<Option<Value>, DispatchError>,
) -> bool {
    match outcome {
        Ok(None) => r == Ok::<Option<wasmi::RuntimeValue>, wasmi::Trap>(None),
        Ok(Some(value)) => r matches Ok(Some(given)) && wasmi_value(given) == value,
        Err(DispatchError::Invoke(error)) => r matches Err(trap) && wasmi_trap_error(trap) == error,
        Err(error) => r matches Err(trap) && wasmi_trap_error(trap) matches Error::Other(text)
            && text@ == error.text(),
    }
}

/// Tells the interpreter how a dispatched call ended.
pub fn answer_interpreter(outcome: Result<Option<Value>, DispatchError>) -> (r: Result<
    Option<wasmi::RuntimeValue>,
    wasmi::Trap,
>)
    ensures
        wasmi_outcome(r, outcome),
{
    match outcome {
        Ok(None) => Ok(None),
        Ok(Some(value)) => Ok(Some(runtime_value(value))),
        Err(DispatchError::Invoke(error)) => Err(host_trap(error)),
        Err(error) => {
            let text = error.message();
            Err(trap(text.as_str()))
        },
    }
}

/// The text of the trap that a compiled guest gets.
///
/// Failures of the result itself are first turned into traps of the interpreter.
pub open spec fn compiled_text(error: DispatchError) -> Seq<char> {
    match error {
        DispatchError::DecodeResult | DispatchError::Supervisor => wasmi_trap_text(error.text()),
        _ => error.text(),
    }
}

/// Describes a failure for the trap that a compiled guest gets.
pub fn compiled_message(error: &DispatchError) -> (r: String)
    ensures
        r@ == compiled_text(*error),
{
    let text = error.message();
    match error {
        DispatchError::DecodeResult | DispatchError::Supervisor => describe_host_trap(text),
        _ => text,
    }
}

/// Implementation of [`wasmi::Externals`] that allows execution of a guest module with externals
/// that might refer to functions defined by the supervisor.
pub struct GuestExternals<'a, FE: SandboxCapabilities> {
    /// Supervisor function environment.
    pub supervisor_externals: &'a mut FE,
    /// Instance of the sandboxed module to be dispatched.
    pub sandbox_instance: &'a SandboxInstance<FE::SupervisorFuncRef>,
    /// Opaque pointer to outer context, see the `instantiate` function.
    pub state: u32,
}

/// Whether a call of the guest function at `index` led to `calls` and ended with `outcome`, where
/// `funcs` are the supervisor functions that the guest can reach.
pub open spec fn interpreted_call<FR>(
    dispatch_thunk: FR,
    funcs: Seq<SupervisorFuncIndex>,
    state: u32,
    index: usize,
    args: Seq<Value>,
    calls: Seq<Call<FR>>,
    outcome: Result<Option<Value>, DispatchError>,
) -> bool {
    match supervisor_func(funcs, GuestFuncIndex(index)) {
        None => calls.len() == 0 && outcome == Err::<Option<Value>, _>(
            DispatchError::UnknownFunction,
        ),
        Some(func_idx) => if args.len() > u32::MAX {
            calls.len() == 0 && outcome == Err::<Option<Value>, _>(
                DispatchError::UnsupportedArgument,
            )
        } else {
            guest_run(
                Request {
                    dispatch_thunk,
                    func_idx,
                    args_data: crate::codec::encoded_values(args),
                    state,
                },
                calls,
                outcome,
            )
        },
    }
}

/// How the host functions of an interpreted guest answer: which answer the function at an index
/// may give to which arguments. A failure is the error that the trap carries.
pub type GuestAnswers = spec_fn(usize, Seq<Value>, Result<Option<Value>, Error>) -> bool;

/// Whether `answer` is what the interpreter is told of a call that ended with `outcome`.
pub open spec fn is_answer(
    answer: Result<Option<Value>, Error>,
    outcome: Result<Option<Value>, DispatchError>,
) -> bool {
    match outcome {
        Ok(value) => answer == Ok::<Option<Value>, Error>(value),
        Err(DispatchError::Invoke(error)) => answer == Err::<Option<Value>, Error>(error),
        Err(error) => answer matches Err(Error::Other(text)) && text@ == error.text(),
    }
}

/// Whether a supervisor went from `before` to `after` when it served a call of the guest function
/// at `index`, where the guest gets `outcome` in the end.
pub open spec fn guest_served<FR, FE: SandboxCapabilities<SupervisorFuncRef = FR>>(
    dispatch_thunk: FR,
    funcs: Seq<SupervisorFuncIndex>,
    state: u32,
    index: usize,
    args: Seq<Value>,
    before: FE,
    after: FE,
    outcome: Result<Option<Value>, DispatchError>,
) -> bool {
    &&& before.calls().is_prefix_of(after.calls())
    &&& interpreted_call(
        dispatch_thunk,
        funcs,
        state,
        index,
        args,
        calls_between(before.calls(), after.calls()),
        outcome,
    )
}

/// Whether the guest function at `index` may give `answer` to the given arguments.
pub open spec fn guest_may_answer<FR, FE: SandboxCapabilities<SupervisorFuncRef = FR>>(
    dispatch_thunk: FR,
    funcs: Seq<SupervisorFuncIndex>,
    state: u32,
    index: usize,
    args: Seq<Value>,
    answer: Result<Option<Value>, Error>,
) -> bool {
    exists|before: FE, after: FE, outcome: Result<Option<Value>, DispatchError>| #[trigger]
        guest_served::<FR, FE>(dispatch_thunk, funcs, state, index, args, before, after, outcome)
            && is_answer(answer, outcome)
}

/// How the host functions of an interpreted guest answer that serve their calls through
/// `dispatch_thunk`.
pub open spec fn guest_answers<FR, FE: SandboxCapabilities<SupervisorFuncRef = FR>>(
    dispatch_thunk: FR,
    funcs: Seq<SupervisorFuncIndex>,
    state: u32,
) -> GuestAnswers {
    |index: usize, args: Seq<Value>, answer: Result<Option<Value>, Error>|
        guest_may_answer::<FR, FE>(dispatch_thunk, funcs, state, index, args, answer)
}

impl<'a, FE: SandboxCapabilities> GuestExternals<'a, FE> {
    /// How the host functions of the guest answer.
    pub open spec fn answers(self) -> GuestAnswers {
        guest_answers::<FE::SupervisorFuncRef, FE>(
            self.sandbox_instance.dispatch_thunk,
            self.sandbox_instance.guest_to_supervisor_mapping@,
            self.state,
        )
    }
}

impl<'a, FE: SandboxCapabilities> GuestExternals<'a, FE> {
    /// Dispatches a call of the guest function at `index`.
    pub fn dispatch(&mut self, index: usize, args: &[Value]) -> (r: Result<
        Option<Value>,
        DispatchError,
    >)
        ensures
            final(self).sandbox_instance == old(self).sandbox_instance,
            final(self).state == old(self).state,
            old(self).supervisor_externals.calls().is_prefix_of(
                final(self).supervisor_externals.calls(),
            ),
            interpreted_call(
                old(self).sandbox_instance.dispatch_thunk,
                old(self).sandbox_instance.guest_to_supervisor_mapping@,
                old(self).state,
                index,
                args@,
                calls_between(
                    old(self).supervisor_externals.calls(),
                    final(self).supervisor_externals.calls(),
                ),
                r,
            ),
    {
        let func_idx = match self.sandbox_instance.guest_to_supervisor_mapping.func_by_guest_index(
            GuestFuncIndex(index),
        ) {
            Some(func_idx) => func_idx,
            None => {
                return Err(DispatchError::UnknownFunction);
            },
        };
        if args.len() > u32::MAX as usize {
            return Err(DispatchError::UnsupportedArgument);
        }
        dispatch_call(
            self.supervisor_externals,
            &self.sandbox_instance.dispatch_thunk,
            self.state,
            func_idx,
            args,
        )
    }
}

impl<'a, FE: SandboxCapabilities> wasmi::Externals for GuestExternals<'a, FE> {
    fn invoke_index(&mut self, index: usize, args: wasmi::RuntimeArgs) -> (r: Result<
        Option<wasmi::RuntimeValue>,
        wasmi::Trap,
    >)
        ensures
            final(self).sandbox_instance == old(self).sandbox_instance,
            final(self).state == old(self).state,
            old(self).supervisor_externals.calls().is_prefix_of(
                final(self).supervisor_externals.calls(),
            ),
            exists|outcome: Result<Option<Value>, DispatchError>|
                #![trigger wasmi_outcome(r, outcome)]
                wasmi_outcome(r, outcome) && interpreted_call(
                    old(self).sandbox_instance.dispatch_thunk,
                    old(self).sandbox_instance.guest_to_supervisor_mapping@,
                    old(self).state,
                    index,
                    wasmi_values(wasmi_args(args)),
                    calls_between(
                        old(self).supervisor_externals.calls(),
                        final(self).supervisor_externals.calls(),
                    ),
                    outcome,
                ),
    {
        let values = plain_values(runtime_args(&args));
        let outcome = self.dispatch(index, values.as_slice());
        answer_interpreter(outcome)
    }
}

/// Runs `f` on externals that serve the guest functions of `sandbox_instance`, through the given
/// supervisor.
pub fn with_guest_externals<FE, R, F>(
    supervisor_externals: &mut FE,
    sandbox_instance: &SandboxInstance<FE::SupervisorFuncRef>,
    state: u32,
    f: F,
) -> (r: R) where FE: SandboxCapabilities, F: FnOnce(&mut GuestExternals<FE>) -> R
    requires
        forall|externals: &mut GuestExternals<FE>|
            (*externals).sandbox_instance == sandbox_instance && (*externals).state == state
                ==> call_requires(f, (externals,)),
    ensures
        exists|externals: &mut GuestExternals<FE>|
            #![trigger call_ensures(f, (externals,), r)]
            (*externals).sandbox_instance == sandbox_instance && (*externals).state == state
                && *(*externals).supervisor_externals == *old(supervisor_externals)
                && *final((*externals).supervisor_externals) == *final(supervisor_externals)
                && call_ensures(f, (externals,), r),
{
    let mut guest_externals = GuestExternals { supervisor_externals, sandbox_instance, state };
    f(&mut guest_externals)
}

} // verus!
