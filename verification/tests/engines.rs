//! Guests that run on the interpreter, and the calls of guests of the other engines.

use parity_scale_codec::{Decode, Encode};
use sandbox::backend::{BackendContext, BackendInstance};
use sandbox::capabilities::{Pointer, SandboxCapabiliesHolder, SandboxCapabilities, WordSize};
use sandbox::engine_wasmer::{answer_wasmer_call, serve_wasmer_call};
use sandbox::engine_wasmtime::{answer_wasmtime_call, serve_wasmtime_call};
use sandbox::environment::GuestEnvironment;
use sandbox::error::{Error, InstantiationError, InvokeError};
use sandbox::host::HostFunc;
use sandbox::instance::SandboxInstance;
use sandbox::instantiation::conclude;
use sandbox::mapping::{GuestToSupervisorFunctionMapping, SupervisorFuncIndex};
use sandbox::memory::Memory;
use sandbox::state::StateCell;
use sandbox::store::Store;
use sandbox::value::Value;
use std::rc::Rc;

/// A supervisor with a memory of its own, which calls functions by their indices.
struct Supervisor {
    memory: Vec<u8>,
}

const ADD: u32 = 1;
const NOTHING: u32 = 2;
const HOST_ERROR: u32 = 3;
const TRAP: u32 = 4;
const STATE: u32 = 5;
const GARBAGE: u32 = 6;
const ECHO: u32 = 7;

#[derive(Clone)]
struct Thunk(i32);

impl SandboxCapabilities for Supervisor {
    type SupervisorFuncRef = Thunk;

    fn allocate_memory(&mut self, size: WordSize) -> Result<Pointer, String> {
        let ptr = self.memory.len() as u32;
        self.memory.resize(self.memory.len() + size as usize, 0);
        Ok(ptr)
    }

    fn deallocate_memory(&mut self, _ptr: Pointer) -> Result<(), String> {
        Ok(())
    }

    fn write_memory(&mut self, address: Pointer, data: &[u8]) -> Result<(), String> {
        let start = address as usize;
        self.memory[start..start + data.len()].copy_from_slice(data);
        Ok(())
    }

    fn read_memory(&mut self, address: Pointer, size: WordSize) -> Result<Vec<u8>, String> {
        let start = address as usize;
        Ok(self.memory[start..start + size as usize].to_vec())
    }

    fn invoke(
        &mut self,
        dispatch_thunk: &Thunk,
        invoke_args_ptr: Pointer,
        invoke_args_len: WordSize,
        state: u32,
        func_idx: SupervisorFuncIndex,
    ) -> Result<i64, Error> {
        let data = self.read_memory(invoke_args_ptr, invoke_args_len).unwrap();
        let args = Vec::<sp_wasm_interface::Value>::decode(&mut &data[..]).unwrap();
        let result = match (func_idx.0 as u32, &args[..]) {
            (ADD, [sp_wasm_interface::Value::I32(a), sp_wasm_interface::Value::I32(b)]) => {
                Ok(sp_wasm_interface::Value::I32(a + b + dispatch_thunk.0).into())
            },
            (NOTHING, []) => Ok(sp_wasm_interface::ReturnValue::Unit),
            (HOST_ERROR, []) => Err(sp_core::sandbox::HostError),
            (TRAP, []) => return Err(Error::Other("boom".to_string())),
            (STATE, []) => Ok(sp_wasm_interface::Value::I32(state as i32).into()),
            (GARBAGE, []) => return Ok(self.leave(vec![9, 9, 9])),
            (ECHO, [value]) => Ok((*value).into()),
            _ => panic!("unexpected call"),
        };
        Ok(self.leave(result.encode()))
    }
}

impl Supervisor {
    fn leave(&mut self, data: Vec<u8>) -> i64 {
        let ptr = self.allocate_memory(data.len() as u32).unwrap();
        self.write_memory(ptr, &data).unwrap();
        ((ptr as u64) << 32 | data.len() as u64) as i64
    }
}

struct Holder;

impl SandboxCapabiliesHolder for Holder {
    type SupervisorFuncRef = Thunk;
    type SC = Supervisor;

    fn with_sandbox_capabilities<R, F: FnOnce(&mut Supervisor) -> R>(f: F) -> R {
        f(&mut Supervisor { memory: vec![0; 64] })
    }
}

const I32: u8 = 0x7f;
const I64: u8 = 0x7e;
const F32: u8 = 0x7d;
const F64: u8 = 0x7c;

fn name(text: &str) -> Vec<u8> {
    let mut bytes = vec![text.len() as u8];
    bytes.extend_from_slice(text.as_bytes());
    bytes
}

/// A vector of items, as a binary has it.
fn list(items: Vec<Vec<u8>>) -> Vec<u8> {
    let mut bytes = vec![items.len() as u8];
    for item in items {
        bytes.extend(item);
    }
    bytes
}

fn func_type(params: &[u8], results: &[u8]) -> Vec<u8> {
    let mut bytes = vec![0x60, params.len() as u8];
    bytes.extend_from_slice(params);
    bytes.push(results.len() as u8);
    bytes.extend_from_slice(results);
    bytes
}

fn import(field: &str, kind: &[u8]) -> Vec<u8> {
    let mut bytes = name("env");
    bytes.extend(name(field));
    bytes.extend_from_slice(kind);
    bytes
}

fn export(field: &str, kind: u8, index: u8) -> Vec<u8> {
    let mut bytes = name(field);
    bytes.push(kind);
    bytes.push(index);
    bytes
}

/// The body of a function without locals.
fn body(code: &[u8]) -> Vec<u8> {
    let mut bytes = vec![code.len() as u8 + 2, 0];
    bytes.extend_from_slice(code);
    bytes.push(0x0b);
    bytes
}

fn binary(sections: Vec<(u8, Vec<u8>)>) -> Vec<u8> {
    let mut wasm = vec![0, 0x61, 0x73, 0x6d, 1, 0, 0, 0];
    for (id, content) in sections {
        assert!(content.len() < 128);
        wasm.push(id);
        wasm.push(content.len() as u8);
        wasm.extend(content);
    }
    wasm
}

/// A module that imports the function `field` and exports it through `run`, whose arguments it
/// passes on.
fn caller(field: &str, params: &[u8], results: &[u8]) -> Vec<u8> {
    let mut code = vec![];
    for i in 0..params.len() {
        code.push(0x20);
        code.push(i as u8);
    }
    code.extend_from_slice(&[0x10, 0]);
    binary(vec![
        (1, list(vec![func_type(params, results)])),
        (2, list(vec![import(field, &[0, 0])])),
        (3, list(vec![vec![0]])),
        (7, list(vec![export("run", 0, 1)])),
        (10, list(vec![body(&code)])),
    ])
}

fn store() -> Store<Thunk> {
    Store { instances: vec![], memories: vec![], backend_context: BackendContext::Wasmi }
}

fn environment(store: &Store<Thunk>, memories: &[(&str, u32)]) -> GuestEnvironment {
    let functions = [
        ("add", ADD),
        ("nothing", NOTHING),
        ("host_error", HOST_ERROR),
        ("trap", TRAP),
        ("state", STATE),
        ("garbage", GARBAGE),
        ("echo", ECHO),
    ];
    let entry = |field: &str, entity| sp_core::sandbox::Entry {
        module_name: b"env".to_vec(),
        field_name: field.as_bytes().to_vec(),
        entity,
    };
    let mut entries: Vec<_> = functions
        .iter()
        .map(|(field, index)| entry(field, sp_core::sandbox::ExternEntity::Function(*index)))
        .collect();
    for (field, index) in memories {
        entries.push(entry(field, sp_core::sandbox::ExternEntity::Memory(*index)));
    }
    let definition = sp_core::sandbox::EnvironmentDefinition { entries }.encode();
    match GuestEnvironment::decode(store, &definition) {
        Ok(environment) => environment,
        Err(_) => panic!("not decoded"),
    }
}

fn instantiate(
    store: &mut Store<Thunk>,
    wasm: &[u8],
    memories: &[(&str, u32)],
) -> Result<Rc<SandboxInstance<Thunk>>, InstantiationError> {
    let environment = environment(store, memories);
    let instance =
        store.instantiate::<Supervisor, Holder>(Thunk(100), wasm, environment, 55)?;
    let index = instance.register(store);
    Ok(store.instance(index).unwrap())
}

fn run(
    instance: &SandboxInstance<Thunk>,
    args: &[Value],
) -> Result<Option<Value>, InvokeError> {
    instance.invoke::<Supervisor, Holder>("run", args, 66)
}

/// The text of the failure of a call.
fn failure(result: Result<Option<Value>, InvokeError>) -> String {
    match result {
        Ok(_) => panic!("no failure"),
        Err(InvokeError::Function(text)) => text,
        Err(InvokeError::Wasmi(error)) => error.to_string(),
    }
}

#[test]
fn guest_calls_a_supervisor_function() {
    let mut store = store();
    let wasm = caller("add", &[I32, I32], &[I32]);
    let instance = instantiate(&mut store, &wasm, &[]).unwrap();
    let result = run(&instance, &[Value::I32(20), Value::I32(-3)]);
    assert!(matches!(result, Ok(Some(Value::I32(117)))));
}

#[test]
fn numbers_keep_their_bits() {
    let cases = [
        (I32, Value::I32(i32::MIN)),
        (I64, Value::I64(i64::MIN + 1)),
        (F32, Value::F32(0x7fc0_0001)),
        (F64, Value::F64(0x4004_0000_0000_0000)),
    ];
    let mut store = store();
    for (ty, value) in cases {
        let wasm = caller("echo", &[ty], &[ty]);
        let instance = instantiate(&mut store, &wasm, &[]).unwrap();
        assert_eq!(run(&instance, &[value]).unwrap(), Some(value));
    }
}

#[test]
fn function_without_result_returns_nothing() {
    let mut store = store();
    let wasm = caller("nothing", &[], &[]);
    let instance = instantiate(&mut store, &wasm, &[]).unwrap();
    assert!(matches!(run(&instance, &[]), Ok(None)));
}

#[test]
fn interpreted_guests_use_the_state_of_the_call() {
    let mut store = store();
    let wasm = caller("state", &[], &[I32]);
    let instance = instantiate(&mut store, &wasm, &[]).unwrap();
    assert!(matches!(run(&instance, &[]), Ok(Some(Value::I32(66)))));
}

#[test]
fn failures_of_supervisor_functions_reach_the_caller() {
    let mut store = store();
    for (field, text) in [
        ("host_error", "Supervisor function returned sandbox::HostError"),
        ("trap", "boom"),
        ("garbage", "Decoding Result<ReturnValue, HostError> failed!"),
    ] {
        let wasm = caller(field, &[], &[]);
        let instance = instantiate(&mut store, &wasm, &[]).unwrap();
        let given = failure(run(&instance, &[]));
        assert!(given.contains(text), "{}", given);
    }
}

#[test]
fn missing_exports_are_reported() {
    let wasm = caller("add", &[I32, I32], &[I32]);
    let mut store = store();
    let instance = instantiate(&mut store, &wasm, &[]).unwrap();
    let result = instance.invoke::<Supervisor, Holder>("walk", &[], 0);
    assert!(matches!(result, Err(InvokeError::Wasmi(wasmi::Error::Function(_)))));
}

#[test]
fn wrong_arguments_are_refused() {
    let mut store = store();
    let wasm = caller("add", &[I32, I32], &[I32]);
    let instance = instantiate(&mut store, &wasm, &[]).unwrap();
    assert!(run(&instance, &[Value::I32(1)]).is_err());
    assert!(run(&instance, &[Value::I32(1), Value::I64(1)]).is_err());
}

#[test]
fn invalid_binaries_are_not_decoded() {
    let mut store = store();
    for wasm in [&[][..], &[1, 2, 3], &[0, 0x61, 0x73, 0x6d, 1, 0, 0, 0, 77]] {
        let result = instantiate(&mut store, wasm, &[]);
        assert!(matches!(result, Err(InstantiationError::ModuleDecoding)));
    }
    assert!(store.instances.is_empty());
}

#[test]
fn missing_imports_are_refused() {
    let mut store = store();
    let function = caller("subtract", &[I32, I32], &[I32]);
    let memory = binary(vec![(2, list(vec![import("memory", &[2, 0, 1])]))]);
    let global = binary(vec![(2, list(vec![import("add", &[3, I32, 0])]))]);
    let table = binary(vec![(2, list(vec![import("add", &[1, 0x70, 0, 1])]))]);
    for wasm in [function, memory, global, table] {
        let result = instantiate(&mut store, &wasm, &[]);
        assert!(matches!(result, Err(InstantiationError::Instantiation)));
    }
}

/// A module whose start function calls `field`.
fn starter(field: &str) -> Vec<u8> {
    binary(vec![
        (1, list(vec![func_type(&[], &[])])),
        (2, list(vec![import(field, &[0, 0])])),
        (3, list(vec![vec![0]])),
        (8, vec![1]),
        (10, list(vec![body(&[0x10, 0])])),
    ])
}

#[test]
fn start_functions_are_run() {
    let mut store = store();
    assert!(instantiate(&mut store, &starter("nothing"), &[]).is_ok());
    let result = instantiate(&mut store, &starter("trap"), &[]);
    assert!(matches!(result, Err(InstantiationError::StartTrapped)));
}

#[test]
fn interpreted_guests_share_memories() {
    let mut store = store();
    let index = store.new_memory(1, 1).unwrap();
    // Stores 7 at address 3.
    let code = [0x41, 3, 0x41, 7, 0x3a, 0, 0];
    let wasm = binary(vec![
        (1, list(vec![func_type(&[], &[])])),
        (2, list(vec![import("memory", &[2, 0, 1])])),
        (3, list(vec![vec![0]])),
        (7, list(vec![export("run", 0, 0)])),
        (10, list(vec![body(&code)])),
    ]);
    let instance = instantiate(&mut store, &wasm, &[("memory", index)]).unwrap();
    assert!(matches!(run(&instance, &[]), Ok(None)));
    match store.memory(index).unwrap() {
        Memory::Wasmi(memory) => assert_eq!(memory.get(2, 3).unwrap(), vec![0, 7, 0]),
        Memory::Wasmer(_) => panic!("wrong engine"),
    }
}

#[test]
fn exported_globals_are_read() {
    let mut float = vec![F64, 0, 0x44];
    float.extend_from_slice(&2.5f64.to_le_bytes());
    float.push(0x0b);
    let wasm = binary(vec![
        (1, list(vec![func_type(&[], &[])])),
        (3, list(vec![vec![0]])),
        (
            6,
            list(vec![
                vec![I32, 0, 0x41, 42, 0x0b],
                vec![I64, 0, 0x42, 43, 0x0b],
                vec![F32, 0, 0x43, 0, 0, 0xc0, 0x3f, 0x0b],
                float,
            ]),
        ),
        (
            7,
            list(vec![
                export("a", 3, 0),
                export("b", 3, 1),
                export("c", 3, 2),
                export("d", 3, 3),
                export("run", 0, 0),
            ]),
        ),
        (10, list(vec![body(&[])])),
    ]);
    let mut store = store();
    let instance = instantiate(&mut store, &wasm, &[]).unwrap();
    assert_eq!(instance.get_global_val("a"), Some(Value::I32(42)));
    assert_eq!(instance.get_global_val("b"), Some(Value::I64(43)));
    assert_eq!(instance.get_global_val("c"), Some(Value::F32(1.5f32.to_bits())));
    assert_eq!(instance.get_global_val("d"), Some(Value::F64(2.5f64.to_bits())));
    assert_eq!(instance.get_global_val("e"), None);
    assert_eq!(instance.get_global_val("run"), None);
}

#[test]
fn instances_are_torn_down_once() {
    let mut store = store();
    let wasm = caller("nothing", &[], &[]);
    instantiate(&mut store, &wasm, &[]).unwrap();
    instantiate(&mut store, &wasm, &[]).unwrap();
    assert_eq!(store.instances.len(), 2);
    assert!(store.instance_teardown(0).is_ok());
    let words = |result: Result<(), Error>| result.unwrap_err().message();
    assert_eq!(words(store.instance_teardown(0)), "Double teardown of an instance");
    assert_eq!(
        words(store.instance(0).map(|_| ())),
        "Trying to access a torndown instance"
    );
    assert!(store.instance(1).is_ok());
    instantiate(&mut store, &wasm, &[]).unwrap();
    assert_eq!(store.instances.len(), 3);
    assert_eq!(
        words(store.instance(0).map(|_| ())),
        "Trying to access a torndown instance"
    );
}

#[test]
fn registered_instance_is_the_instance() {
    let mut store = store();
    let environment = environment(&store, &[]);
    let wasm = caller("nothing", &[], &[]);
    let instance =
        store.instantiate::<Supervisor, Holder>(Thunk(1), &wasm, environment, 0).ok().unwrap();
    let kept = instance.sandbox_instance.clone();
    assert!(store.instances.is_empty());
    assert_eq!(instance.register(&mut store), 0);
    let found = store.instance(0).unwrap();
    assert!(Rc::ptr_eq(&kept, &found));
    assert!(matches!(found.backend_instance, BackendInstance::Wasmi(_)));
    assert_eq!(found.dispatch_thunk.0, 1);
    assert_eq!(found.guest_to_supervisor_mapping.funcs.len(), 7);
}

#[test]
fn replies_of_engines_are_concluded() {
    let failed = conclude(
        Err(InstantiationError::StartTrapped),
        Thunk(1),
        GuestToSupervisorFunctionMapping::new(),
    );
    assert!(matches!(failed, Err(InstantiationError::StartTrapped)));
}

#[test]
fn wasmtime_calls_are_served() {
    let func = HostFunc { func_idx: SupervisorFuncIndex(ADD as usize), state: 0 };
    let params = [wasmtime::Val::I32(1), wasmtime::Val::I32(2)];
    let mut result = [wasmtime::Val::I32(0)];
    let served =
        serve_wasmtime_call::<Thunk, Supervisor, Holder>(&Thunk(10), func, &params, &mut result);
    assert!(served.is_ok());
    assert!(matches!(result[0], wasmtime::Val::I32(13)));
    let state = HostFunc { func_idx: SupervisorFuncIndex(STATE as usize), state: 44 };
    let served =
        serve_wasmtime_call::<Thunk, Supervisor, Holder>(&Thunk(10), state, &[], &mut []);
    assert_eq!(served.unwrap_err().to_string(), "Unexpected result of a supervisor function");
    let served =
        serve_wasmtime_call::<Thunk, Supervisor, Holder>(&Thunk(10), state, &[], &mut result);
    assert!(served.is_ok());
    assert!(matches!(result[0], wasmtime::Val::I32(44)));
    let params = [wasmtime::Val::V128(1)];
    let served =
        serve_wasmtime_call::<Thunk, Supervisor, Holder>(&Thunk(10), func, &params, &mut result);
    assert_eq!(served.unwrap_err().to_string(), "not implemented");
}

#[test]
fn wasmer_calls_are_served() {
    let func = HostFunc { func_idx: SupervisorFuncIndex(ADD as usize), state: 0 };
    let params = [wasmer::Val::I32(1), wasmer::Val::I32(2)];
    let served = serve_wasmer_call::<Thunk, Supervisor, Holder>(&Thunk(10), func, &params);
    assert_eq!(served.unwrap(), vec![wasmer::Val::I32(13)]);
    let echo = HostFunc { func_idx: SupervisorFuncIndex(ECHO as usize), state: 0 };
    for value in [wasmer::Val::I64(-8), wasmer::Val::F32(1.5), wasmer::Val::F64(-2.5)] {
        let params = [value.clone()];
        let served = serve_wasmer_call::<Thunk, Supervisor, Holder>(&Thunk(10), echo, &params);
        assert_eq!(served.unwrap(), vec![value]);
    }
    let nothing = HostFunc { func_idx: SupervisorFuncIndex(NOTHING as usize), state: 0 };
    let served = serve_wasmer_call::<Thunk, Supervisor, Holder>(&Thunk(10), nothing, &[]);
    assert_eq!(served.unwrap(), vec![]);
    let trap = HostFunc { func_idx: SupervisorFuncIndex(TRAP as usize), state: 0 };
    let served = serve_wasmer_call::<Thunk, Supervisor, Holder>(&Thunk(10), trap, &[]);
    assert_eq!(served.unwrap_err().message(), "boom");
    let params = [wasmer::Val::V128(1)];
    let served = serve_wasmer_call::<Thunk, Supervisor, Holder>(&Thunk(10), func, &params);
    assert_eq!(served.unwrap_err().message(), "not implemented");
}

#[test]
fn host_functions_read_their_cell() {
    let cell = StateCell::new();
    assert_eq!(cell.current(), 0);
    assert_eq!(cell.share().current(), 0);
    let func_idx = SupervisorFuncIndex(STATE as usize);
    let mut result = [wasmtime::Val::I32(9)];
    let served = answer_wasmtime_call::<Thunk, Supervisor, Holder>(
        &Thunk(10),
        func_idx,
        &cell,
        &[],
        &mut result,
    );
    assert!(served.is_ok());
    assert!(matches!(result[0], wasmtime::Val::I32(0)));
    let served =
        answer_wasmer_call::<Thunk, Supervisor, Holder>(&Thunk(10), func_idx, &cell, &[]);
    assert_eq!(served.unwrap(), vec![wasmer::Val::I32(0)]);
    let trap = SupervisorFuncIndex(TRAP as usize);
    let served = answer_wasmer_call::<Thunk, Supervisor, Holder>(&Thunk(10), trap, &cell, &[]);
    assert_eq!(served.unwrap_err().message(), "boom");
    assert_eq!(cell.current(), 0);
}

#[test]
fn host_functions_hand_on_the_state_of_a_call() {
    for state in [0, 7, u32::MAX] {
        let func = HostFunc { func_idx: SupervisorFuncIndex(STATE as usize), state };
        let mut result = [wasmtime::Val::I32(9)];
        let served =
            serve_wasmtime_call::<Thunk, Supervisor, Holder>(&Thunk(1), func, &[], &mut result);
        assert!(served.is_ok());
        assert!(matches!(result[0], wasmtime::Val::I32(given) if given == state as i32));
        let served = serve_wasmer_call::<Thunk, Supervisor, Holder>(&Thunk(1), func, &[]);
        assert_eq!(served.unwrap(), vec![wasmer::Val::I32(state as i32)]);
    }
}
