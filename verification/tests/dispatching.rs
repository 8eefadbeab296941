//! Calls of guests on a supervisor whose replies are scripted.

use parity_scale_codec::Encode;
use sandbox::backend::BackendInstance;
use sandbox::capabilities::{Pointer, SandboxCapabilities, WordSize};
use sandbox::dispatch::{
    dispatch_call, fetch_result, place_arguments, DispatchError,
};
use sandbox::error::Error;
use sandbox::guest::{with_guest_externals, GuestExternals};
use sandbox::instance::SandboxInstance;
use sandbox::mapping::{GuestToSupervisorFunctionMapping, SupervisorFuncIndex};
use sandbox::value::Value;

const ARGS_PTR: u32 = 0x100;
const RESULT_PTR: u32 = 0x9000_0000;

#[derive(Clone, Debug, PartialEq)]
enum Event {
    Allocate(u32),
    Deallocate(u32),
    Write(u32, Vec<u8>),
    Read(u32, u32),
    Invoke(&'static str, u32, u32, u32, usize),
}

struct Supervisor {
    events: Vec<Event>,
    failing: usize,
    result: Vec<u8>,
}

impl Supervisor {
    /// A supervisor that leaves `result` behind. The call number `failing` fails.
    fn new(result: Vec<u8>, failing: usize) -> Supervisor {
        Supervisor { events: vec![], failing, result }
    }

    fn reply<T>(&mut self, event: Event, value: T) -> Result<T, String> {
        self.events.push(event);
        if self.events.len() - 1 == self.failing {
            Err("refused".to_string())
        } else {
            Ok(value)
        }
    }
}

impl SandboxCapabilities for Supervisor {
    type SupervisorFuncRef = &'static str;

    fn allocate_memory(&mut self, size: WordSize) -> Result<Pointer, String> {
        self.reply(Event::Allocate(size), ARGS_PTR)
    }

    fn deallocate_memory(&mut self, ptr: Pointer) -> Result<(), String> {
        self.reply(Event::Deallocate(ptr), ())
    }

    fn write_memory(&mut self, address: Pointer, data: &[u8]) -> Result<(), String> {
        self.reply(Event::Write(address, data.to_vec()), ())
    }

    fn read_memory(&mut self, address: Pointer, size: WordSize) -> Result<Vec<u8>, String> {
        let result = self.result.clone();
        self.reply(Event::Read(address, size), result)
    }

    fn invoke(
        &mut self,
        dispatch_thunk: &&'static str,
        invoke_args_ptr: Pointer,
        invoke_args_len: WordSize,
        state: u32,
        func_idx: SupervisorFuncIndex,
    ) -> Result<i64, Error> {
        let packed = ((RESULT_PTR as u64) << 32 | self.result.len() as u64) as i64;
        let event =
            Event::Invoke(*dispatch_thunk, invoke_args_ptr, invoke_args_len, state, func_idx.0);
        self.reply(event, packed).map_err(Error::Other)
    }
}

const NEVER: usize = 100;

fn answer() -> Vec<u8> {
    let value = sp_wasm_interface::ReturnValue::Value(sp_wasm_interface::Value::I32(77));
    Ok::<_, sp_core::sandbox::HostError>(value).encode()
}

/// The encodings of a list of one 32-bit and one 64-bit integer.
fn args_data() -> Vec<u8> {
    vec![8, 0, 5, 0, 0, 0, 1, 0xff, 0xff, 0xff, 0xff, 0xff, 0xff, 0xff, 0xff]
}

fn placed() -> Vec<Event> {
    vec![Event::Allocate(15), Event::Write(ARGS_PTR, args_data())]
}

fn invoked() -> Event {
    Event::Invoke("thunk", ARGS_PTR, 15, 3, 12)
}

fn run(supervisor: &mut Supervisor) -> Result<Option<Value>, DispatchError> {
    let args = [Value::I32(5), Value::I64(-1)];
    dispatch_call(supervisor, &"thunk", 3, SupervisorFuncIndex(12), &args)
}

#[test]
fn call_makes_six_calls_to_the_supervisor() {
    let mut supervisor = Supervisor::new(answer(), NEVER);
    assert!(matches!(run(&mut supervisor), Ok(Some(Value::I32(77)))));
    let mut events = placed();
    events.push(invoked());
    events.push(Event::Deallocate(ARGS_PTR));
    events.push(Event::Read(RESULT_PTR, 7));
    events.push(Event::Deallocate(RESULT_PTR));
    assert_eq!(supervisor.events, events);
}

#[test]
fn failed_allocation_ends_the_call() {
    let mut supervisor = Supervisor::new(answer(), 0);
    assert!(matches!(run(&mut supervisor), Err(DispatchError::AllocateArguments)));
    assert_eq!(supervisor.events, vec![Event::Allocate(15)]);
}

#[test]
fn buffer_is_released_after_a_failed_write() {
    let mut supervisor = Supervisor::new(answer(), 1);
    assert!(matches!(run(&mut supervisor), Err(DispatchError::WriteArguments)));
    let mut events = placed();
    events.push(Event::Deallocate(ARGS_PTR));
    assert_eq!(supervisor.events, events);
}

/// A supervisor on which writing and releasing fail.
struct Stubborn(Supervisor);

impl SandboxCapabilities for Stubborn {
    type SupervisorFuncRef = &'static str;

    fn allocate_memory(&mut self, size: WordSize) -> Result<Pointer, String> {
        self.0.allocate_memory(size)
    }

    fn deallocate_memory(&mut self, ptr: Pointer) -> Result<(), String> {
        self.0.deallocate_memory(ptr).and(Err("refused".to_string()))
    }

    fn write_memory(&mut self, address: Pointer, data: &[u8]) -> Result<(), String> {
        self.0.write_memory(address, data).and(Err("refused".to_string()))
    }

    fn read_memory(&mut self, address: Pointer, size: WordSize) -> Result<Vec<u8>, String> {
        self.0.read_memory(address, size)
    }

    fn invoke(
        &mut self,
        dispatch_thunk: &&'static str,
        invoke_args_ptr: Pointer,
        invoke_args_len: WordSize,
        state: u32,
        func_idx: SupervisorFuncIndex,
    ) -> Result<i64, Error> {
        self.0.invoke(dispatch_thunk, invoke_args_ptr, invoke_args_len, state, func_idx)
    }
}

#[test]
fn failed_release_after_a_failed_write_is_told_apart() {
    let mut supervisor = Stubborn(Supervisor::new(answer(), NEVER));
    let placed = place_arguments(&mut supervisor, &[1, 2, 3]);
    assert!(matches!(placed, Err(DispatchError::DeallocateAfterWrite)));
    assert_eq!(
        supervisor.0.events,
        vec![
            Event::Allocate(3),
            Event::Write(ARGS_PTR, vec![1, 2, 3]),
            Event::Deallocate(ARGS_PTR)
        ]
    );
}

#[test]
fn arguments_are_released_after_a_failed_thunk() {
    let mut supervisor = Supervisor::new(answer(), 2);
    let outcome = run(&mut supervisor);
    assert!(matches!(
        outcome,
        Err(DispatchError::Invoke(Error::Other(text))) if text == "refused"
    ));
    let mut events = placed();
    events.push(invoked());
    events.push(Event::Deallocate(ARGS_PTR));
    assert_eq!(supervisor.events, events);
}

#[test]
fn call_needs_its_arguments_released() {
    let mut supervisor = Supervisor::new(answer(), 3);
    assert!(matches!(run(&mut supervisor), Err(DispatchError::DeallocateArguments)));
    assert_eq!(supervisor.events.len(), 4);
}

#[test]
fn unread_result_is_released_all_the_same() {
    let mut supervisor = Supervisor::new(answer(), 4);
    assert!(matches!(run(&mut supervisor), Err(DispatchError::ReadResult)));
    assert_eq!(supervisor.events.len(), 6);
    assert_eq!(supervisor.events[5], Event::Deallocate(RESULT_PTR));
}

#[test]
fn result_counts_only_once_it_is_released() {
    let mut supervisor = Supervisor::new(answer(), 5);
    assert!(matches!(run(&mut supervisor), Err(DispatchError::DeallocateResult)));
}

#[test]
fn fetched_result_is_decoded() {
    let failure = Err::<sp_wasm_interface::ReturnValue, _>(sp_core::sandbox::HostError).encode();
    let mut supervisor = Supervisor::new(failure, NEVER);
    let fetched = fetch_result(&mut supervisor, 0x0000_0010_0000_0001);
    assert!(matches!(fetched, Err(DispatchError::Supervisor)));
    assert_eq!(supervisor.events, vec![Event::Read(0x10, 1), Event::Deallocate(0x10)]);
    let mut supervisor = Supervisor::new(vec![7], NEVER);
    assert!(matches!(fetch_result(&mut supervisor, 0), Err(DispatchError::DecodeResult)));
}

/// An instance of an empty module whose guest functions are given.
fn instance(funcs: &[usize]) -> SandboxInstance<&'static str> {
    let wasm = [0, 0x61, 0x73, 0x6d, 1, 0, 0, 0];
    let module = wasmi::Module::from_buffer(&wasm[..]).unwrap();
    let imports = wasmi::ImportsBuilder::default();
    let module = wasmi::ModuleInstance::new(&module, &imports).unwrap().assert_no_start();
    let mut mapping = GuestToSupervisorFunctionMapping::new();
    for func in funcs {
        mapping.define(SupervisorFuncIndex(*func));
    }
    SandboxInstance {
        backend_instance: BackendInstance::Wasmi(module),
        dispatch_thunk: "thunk",
        guest_to_supervisor_mapping: mapping,
    }
}

#[test]
fn externals_translate_guest_indices() {
    let mut supervisor = Supervisor::new(answer(), NEVER);
    let instance = instance(&[20, 12]);
    let outcome = with_guest_externals(
        &mut supervisor,
        &instance,
        3,
        |externals: &mut GuestExternals<Supervisor>| {
            externals.dispatch(1, &[Value::I32(5), Value::I64(-1)])
        },
    );
    assert!(matches!(outcome, Ok(Some(Value::I32(77)))));
    assert_eq!(supervisor.events[2], invoked());
}

#[test]
fn externals_refuse_unknown_guest_indices() {
    let mut supervisor = Supervisor::new(answer(), NEVER);
    let instance = instance(&[20, 12]);
    let outcome = with_guest_externals(
        &mut supervisor,
        &instance,
        3,
        |externals: &mut GuestExternals<Supervisor>| externals.dispatch(2, &[]),
    );
    assert!(matches!(outcome, Err(DispatchError::UnknownFunction)));
    assert!(supervisor.events.is_empty());
}

#[test]
fn interpreter_calls_externals() {
    let mut supervisor = Supervisor::new(answer(), NEVER);
    let instance = instance(&[12]);
    let args = [wasmi::RuntimeValue::I32(5), wasmi::RuntimeValue::I64(-1)];
    let outcome = with_guest_externals(
        &mut supervisor,
        &instance,
        3,
        |externals: &mut GuestExternals<Supervisor>| {
            wasmi::Externals::invoke_index(externals, 0, args[..].into())
        },
    );
    assert!(matches!(outcome, Ok(Some(wasmi::RuntimeValue::I32(77)))));
    assert_eq!(supervisor.events[1], Event::Write(ARGS_PTR, args_data()));
}
