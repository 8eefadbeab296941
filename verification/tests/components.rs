//! Memories, environments and the store.

use parity_scale_codec::Encode;
use sandbox::backend::BackendContext;
use sandbox::codec::{Entry, ExternEntity};
use sandbox::environment::{define_entries, find_memory, GuestEnvironment};
use sandbox::error::{Error, InstantiationError};
use sandbox::host::find_func;
use sandbox::imports::Imports;
use sandbox::mapping::{GuestFuncIndex, SupervisorFuncIndex};
use sandbox::memory::{Memory, MAX_PAGES, MEM_UNLIMITED};
use sandbox::store::{keep_memory, Store};
use wasmi::ImportResolver;

fn store() -> Store<u32> {
    Store { instances: vec![], memories: vec![], backend_context: BackendContext::Wasmi }
}

fn words<T>(result: Result<T, Error>) -> String {
    match result {
        Err(Error::Other(text)) => text,
        Err(error) => format!("other: {}", error),
        Ok(_) => panic!("no failure"),
    }
}

fn entry(module: &str, field: &str, entity: sp_core::sandbox::ExternEntity) -> sp_core::sandbox::Entry {
    sp_core::sandbox::Entry {
        module_name: module.as_bytes().to_vec(),
        field_name: field.as_bytes().to_vec(),
        entity,
    }
}

fn raw(entries: Vec<sp_core::sandbox::Entry>) -> Vec<u8> {
    sp_core::sandbox::EnvironmentDefinition { entries }.encode()
}

fn function(index: u32) -> sp_core::sandbox::ExternEntity {
    sp_core::sandbox::ExternEntity::Function(index)
}

fn memory(index: u32) -> sp_core::sandbox::ExternEntity {
    sp_core::sandbox::ExternEntity::Memory(index)
}

#[test]
fn unlimited_is_the_constant_of_the_interface() {
    assert_eq!(MEM_UNLIMITED, sp_core::sandbox::MEM_UNLIMITED);
    assert_eq!(MAX_PAGES, 65536);
}

#[test]
fn memories_get_consecutive_indices() {
    let mut store = store();
    assert_eq!(store.new_memory(1, 2).unwrap(), 0);
    assert_eq!(store.new_memory(3, MEM_UNLIMITED).unwrap(), 1);
    assert_eq!(store.new_memory(0, 0).unwrap(), 2);
    assert_eq!(store.memories.len(), 3);
}

#[test]
fn interpreter_memories_have_the_limits_asked_for() {
    let mut store = store();
    let limited = store.new_memory(1, 2).unwrap();
    let unlimited = store.new_memory(3, MEM_UNLIMITED).unwrap();
    let limited = store.memory(limited).unwrap();
    assert!(limited.as_wasmer().is_none());
    let limited = limited.as_wasmi().unwrap();
    assert_eq!(limited.initial().0, 1);
    assert_eq!(limited.maximum().map(|pages| pages.0), Some(2));
    let unlimited = store.memory(unlimited).unwrap().as_wasmi().unwrap();
    assert_eq!(unlimited.initial().0, 3);
    assert_eq!(unlimited.maximum().map(|pages| pages.0), None);
}

#[test]
fn invalid_limits_are_refused() {
    let mut store = store();
    for (initial, maximum) in [(3, 2), (65537, MEM_UNLIMITED), (1, 65537), (65537, 65537)] {
        assert!(matches!(store.new_memory(initial, maximum), Err(Error::Wasmi(_))));
    }
    assert!(store.memories.is_empty());
}

#[test]
fn created_memory_is_kept() {
    let mut memories = vec![None, None];
    let created = keep_memory(&mut memories, Err(Error::InvalidMemoryReference));
    assert!(matches!(created, Err(Error::InvalidMemoryReference)));
    assert_eq!(memories.len(), 2);
    let memory = wasmi::MemoryInstance::alloc(wasmi::memory_units::Pages(1), None).unwrap();
    let created = keep_memory(&mut memories, Ok(Memory::Wasmi(memory)));
    assert!(matches!(created, Ok((2, Memory::Wasmi(_)))));
    assert_eq!(memories.len(), 3);
    assert!(memories[2].is_some());
}

#[test]
fn shared_memories_are_one_memory() {
    let mut store = store();
    let index = store.new_memory(1, 1).unwrap();
    let first = store.memory(index).unwrap().as_wasmi().unwrap();
    let second = store.memory(index).unwrap().clone().as_wasmi().unwrap();
    first.set(5, &[1, 2, 3]).unwrap();
    assert_eq!(second.get(5, 3).unwrap(), vec![1, 2, 3]);
}

#[test]
fn memories_are_torn_down_once() {
    let mut store = store();
    let first = store.new_memory(1, 1).unwrap();
    let second = store.new_memory(1, 1).unwrap();
    assert!(store.memory_teardown(first).is_ok());
    assert_eq!(
        words(store.memory_teardown(first)),
        "Double teardown of a sandboxed memory"
    );
    assert_eq!(words(store.memory(first)), "Trying to access a torndown sandboxed memory");
    assert!(store.memory(second).is_ok());
    assert_eq!(store.new_memory(1, 1).unwrap(), 2);
    assert_eq!(words(store.memory(first)), "Trying to access a torndown sandboxed memory");
}

#[test]
fn missing_memories_are_reported() {
    let mut store = store();
    assert_eq!(words(store.memory(0)), "Trying to access a non-existent sandboxed memory");
    assert_eq!(
        words(store.memory_teardown(0)),
        "Trying to teardown a non-existent sandboxed memory"
    );
    assert_eq!(
        words(store.memory(u32::MAX)),
        "Trying to access a non-existent sandboxed memory"
    );
}

#[test]
fn missing_instances_are_reported() {
    let mut store = store();
    assert_eq!(words(store.instance(0)), "Trying to access a non-existent instance");
    assert_eq!(
        words(store.instance_teardown(7)),
        "Trying to teardown a non-existent instance"
    );
}

#[test]
fn environment_gives_functions_their_indices() {
    let store = store();
    let definition = raw(vec![
        entry("env", "f", function(40)),
        entry("env", "g", function(41)),
        entry("env", "f", function(42)),
    ]);
    let environment = match GuestEnvironment::decode(&store, &definition) {
        Ok(environment) => environment,
        Err(_) => panic!("not decoded"),
    };
    let imports = &environment.imports;
    let mapping = &environment.guest_to_supervisor_mapping;
    assert_eq!(imports.func_by_name("env", "f"), Some(GuestFuncIndex(2)));
    assert_eq!(imports.func_by_name("env", "g"), Some(GuestFuncIndex(1)));
    assert_eq!(imports.func_by_name("env", "h"), None);
    assert_eq!(imports.func_by_name("", "f"), None);
    assert_eq!(mapping.func_by_guest_index(GuestFuncIndex(0)), Some(SupervisorFuncIndex(40)));
    assert_eq!(mapping.func_by_guest_index(GuestFuncIndex(1)), Some(SupervisorFuncIndex(41)));
    assert_eq!(mapping.func_by_guest_index(GuestFuncIndex(2)), Some(SupervisorFuncIndex(42)));
    assert_eq!(mapping.func_by_guest_index(GuestFuncIndex(3)), None);
    assert_eq!(find_func(&environment, "env", "f"), Some(SupervisorFuncIndex(42)));
    assert_eq!(find_func(&environment, "env", "h"), None);
}

#[test]
fn environment_gives_memories_of_the_store() {
    let mut store = store();
    store.new_memory(1, 1).unwrap();
    store.new_memory(2, 2).unwrap();
    let definition = raw(vec![
        entry("env", "memory", memory(0)),
        entry("env", "memory", memory(1)),
        entry("other", "memory", memory(0)),
    ]);
    let environment = match GuestEnvironment::decode(&store, &definition) {
        Ok(environment) => environment,
        Err(_) => panic!("not decoded"),
    };
    let pages = |module: &str| {
        let memory = environment.imports.memory_by_name(module, "memory").unwrap();
        memory.as_wasmi().unwrap().initial().0
    };
    assert_eq!(pages("env"), 2);
    assert_eq!(pages("other"), 1);
    assert!(environment.imports.memory_by_name("env", "f").is_none());
}

#[test]
fn broken_definitions_are_corrupted() {
    let mut store = store();
    store.new_memory(1, 1).unwrap();
    store.memory_teardown(0).unwrap();
    let corrupted = |definition: &[u8]| {
        matches!(
            GuestEnvironment::decode(&store, definition),
            Err(InstantiationError::EnvironmentDefinitionCorrupted)
        )
    };
    assert!(corrupted(&[1, 2, 3]));
    assert!(corrupted(&[]));
    assert!(corrupted(&raw(vec![entry("env", "memory", memory(0))])));
    assert!(corrupted(&raw(vec![entry("env", "memory", memory(1))])));
    assert!(corrupted(&raw(vec![
        entry("env", "memory", memory(1)),
        entry("env", "f", function(1)),
    ])));
    assert!(!corrupted(&raw(vec![])));
}

#[test]
fn entries_are_defined_in_order() {
    let entries = vec![
        Entry {
            module_name: b"m".to_vec(),
            field_name: b"a".to_vec(),
            entity: ExternEntity::Function(9),
        },
        Entry {
            module_name: b"m".to_vec(),
            field_name: b"a".to_vec(),
            entity: ExternEntity::Memory(0),
        },
    ];
    assert!(matches!(
        define_entries(&entries, &[]),
        Err(InstantiationError::EnvironmentDefinitionCorrupted)
    ));
    let memory = wasmi::MemoryInstance::alloc(wasmi::memory_units::Pages(1), None).unwrap();
    let memories = [Some(Memory::Wasmi(memory)), None];
    assert!(find_memory(&memories, 0).is_some());
    assert!(find_memory(&memories, 1).is_none());
    assert!(find_memory(&memories, 2).is_none());
    match define_entries(&entries, &memories) {
        Ok((imports, mapping)) => {
            assert_eq!(imports.func_by_name("m", "a"), Some(GuestFuncIndex(0)));
            assert!(imports.memory_by_name("m", "a").is_some());
            assert_eq!(mapping.funcs, vec![SupervisorFuncIndex(9)]);
        },
        Err(_) => panic!("not defined"),
    }
}

fn imports() -> Imports {
    let mut store = store();
    store.new_memory(4, 5).unwrap();
    let definition =
        raw(vec![entry("env", "f", function(40)), entry("env", "memory", memory(0))]);
    match GuestEnvironment::decode(&store, &definition) {
        Ok(environment) => environment.imports,
        Err(_) => panic!("not decoded"),
    }
}

fn signature() -> wasmi::Signature {
    wasmi::Signature::new(&[wasmi::ValueType::I32][..], None)
}

/// What the interpreter makes of a module that imports one thing, which `kind` describes.
fn link(imports: &Imports, module: &str, field: &str, kind: &[u8]) -> Result<(), String> {
    let mut import = vec![1, module.len() as u8];
    import.extend_from_slice(module.as_bytes());
    import.push(field.len() as u8);
    import.extend_from_slice(field.as_bytes());
    import.extend_from_slice(kind);
    let mut wasm = vec![0, 0x61, 0x73, 0x6d, 1, 0, 0, 0, 2, import.len() as u8];
    wasm.append(&mut import);
    let module = wasmi::Module::from_buffer(&wasm).unwrap();
    let linked = wasmi::ModuleInstance::new(&module, imports);
    linked.map(|_| ()).map_err(|error| error.to_string())
}

const ONE_PAGE: [u8; 3] = [2, 0, 1];
const IMMUTABLE_I32: [u8; 3] = [3, 0x7f, 0];
const ONE_ELEMENT: [u8; 4] = [1, 0x70, 0, 1];

#[test]
fn interpreter_resolves_functions_and_memories() {
    let imports = imports();
    let func = imports.resolve_func("env", "f", &signature()).unwrap();
    assert_eq!(*func.signature(), signature());
    assert_eq!(link(&imports, "env", "memory", &ONE_PAGE), Ok(()));
}

#[test]
fn interpreter_does_not_find_other_names() {
    let imports = imports();
    let error = imports.resolve_func("env", "g", &signature()).unwrap_err();
    assert_eq!(error.to_string(), "Instantiation: Export env:g not found");
    assert_eq!(
        link(&imports, "env", "f", &ONE_PAGE),
        Err("Instantiation: Export env:f not found".to_string())
    );
}

#[test]
fn interpreter_never_finds_globals_and_tables() {
    let imports = imports();
    assert_eq!(
        link(&imports, "env", "memory", &IMMUTABLE_I32),
        Err("Instantiation: Export env:memory not found".to_string())
    );
    assert_eq!(
        link(&imports, "env", "f", &ONE_ELEMENT),
        Err("Instantiation: Export env:f not found".to_string())
    );
}

