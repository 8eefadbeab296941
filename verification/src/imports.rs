//! Names under which a guest can import functions and memories.

use crate::mapping::GuestFuncIndex;
use crate::memory::Memory;
use crate::names::{lookup, qualified, NameTable, QualifiedName};
use vstd::prelude::*;
use wasmi::Error as WasmiError;

verus! {

#[verifier::external_type_specification]
#[verifier::external_body]
pub struct ExWasmiFunc(wasmi::FuncRef);

#[verifier::external_type_specification]
#[verifier::external_body]
pub struct ExWasmiGlobal(wasmi::GlobalRef);

#[verifier::external_type_specification]
#[verifier::external_body]
pub struct ExWasmiTable(wasmi::TableRef);

#[verifier::external_type_specification]
#[verifier::external_body]
pub struct ExWasmiSignature(wasmi::Signature);

#[verifier::external_type_specification]
#[verifier::external_body]
pub struct ExWasmiMemoryDescriptor(wasmi::MemoryDescriptor);

#[verifier::external_type_specification]
#[verifier::external_body]
pub struct ExWasmiGlobalDescriptor(wasmi::GlobalDescriptor);

#[verifier::external_type_specification]
#[verifier::external_body]
pub struct ExWasmiTableDescriptor(wasmi::TableDescriptor);

/// Holds sandbox function and memory imports and performs name resolution.
pub struct Imports {
    /// Maps a qualified function name to its guest function index.
    pub func_map: NameTable<GuestFuncIndex>,
    /// Maps a qualified field name to its memory reference.
    pub memories_map: NameTable<Memory>,
}

/// The functions and the memories that a guest can import, by name.
pub struct ImportsView {
    pub funcs: Map<QualifiedName, GuestFuncIndex>,
    pub memories: Map<QualifiedName, Memory>,
}

impl View for Imports {
    type V = ImportsView;

    open spec fn view(&self) -> ImportsView {
        ImportsView { funcs: self.func_map@, memories: self.memories_map@ }
    }
}

/// The signature of a host function of the interpreter, and the index by which the interpreter
/// asks for it.
pub uninterp spec fn wasmi_host_func(func: wasmi::FuncRef) -> (wasmi::Signature, usize);

/// The message of an instantiation error of the interpreter; nothing for any other error.
pub uninterp spec fn wasmi_instantiation_message(error: WasmiError) -> Option<Seq<char>>;

/// Calls `wasmi::FuncInstance::alloc_host`, which makes a host function of the given signature
/// that the interpreter calls by the given index.
#[verifier::external_body]
fn alloc_host_func(signature: &wasmi::Signature, index: usize) -> (r: wasmi::FuncRef)
    ensures
        wasmi_host_func(r) == (*signature, index),
{
    wasmi::FuncInstance::alloc_host(signature.clone(), index)
}

/// Makes a `wasmi::Error::Instantiation`, which holds the message it is given.
#[verifier::external_body]
fn instantiation_error(message: String) -> (r: WasmiError)
    ensures
        wasmi_instantiation_message(r) == Some(message@),
{
    WasmiError::Instantiation(message)
}

/// The message that says that there is nothing to import under a name.
pub open spec fn not_found_message(module_name: Seq<char>, field_name: Seq<char>) -> Seq<char> {
    "Export "@ + module_name + ":"@ + field_name + " not found"@
}

/// Says that there is nothing to import under a name.
fn not_found(module_name: &str, field_name: &str) -> (r: WasmiError)
    ensures
        wasmi_instantiation_message(r) == Some(not_found_message(module_name@, field_name@)),
{
    let mut message: String = "Export ".to_owned();
    message.append(module_name);
    message.append(":");
    message.append(field_name);
    message.append(" not found");
    instantiation_error(message)
}

impl Imports {
    /// No name occurs twice among the functions, nor among the memories.
    pub open spec fn wf(self) -> bool {
        self.func_map.wf() && self.memories_map.wf()
    }

    /// Finds the function that a guest imports under a name.
    pub fn func_by_name(&self, module_name: &str, func_name: &str) -> (r: Option<GuestFuncIndex>)
        ensures
            r == lookup(self@.funcs, qualified(module_name@, func_name@)),
    {
        match self.func_map.get(module_name.as_bytes(), func_name.as_bytes()) {
            Some(index) => Some(*index),
            None => None,
        }
    }

    /// Finds the memory that a guest imports under a name.
    pub fn memory_by_name(&self, module_name: &str, memory_name: &str) -> (r: Option<Memory>)
        ensures
            r == lookup(self@.memories, qualified(module_name@, memory_name@)),
    {
        match self.memories_map.get(module_name.as_bytes(), memory_name.as_bytes()) {
            Some(memory) => Some(memory.clone()),
            None => None,
        }
    }
}

/// The memory of the interpreter that a guest imports under a name.
pub open spec fn wasmi_memory_import(
    memories: Map<QualifiedName, Memory>,
    name: QualifiedName,
) -> Option<wasmi::MemoryRef> {
    match lookup(memories, name) {
        Some(Memory::Wasmi(memory)) => Some(memory),
        _ => None,
    }
}

/// An interpreted guest that imports a memory gets the one that stands under its name, provided that
/// it is one of the interpreter.
pub proof fn law_interpreter_gets_its_memories(
    memories: Map<QualifiedName, Memory>,
    name: QualifiedName,
    memory: wasmi::MemoryRef,
)
    ensures
        wasmi_memory_import(memories, name) == Some(memory) <==> memories.dom().contains(name)
            && memories[name] == Memory::Wasmi(memory),
{
}

impl wasmi::ImportResolver for Imports {
    fn resolve_func(
        &self,
        module_name: &str,
        field_name: &str,
        signature: &wasmi::Signature,
    ) -> (r: Result<wasmi::FuncRef, WasmiError>)
        ensures
            match lookup(self@.funcs, qualified(module_name@, field_name@)) {
                Some(index) => r matches Ok(func) && wasmi_host_func(func) == (*signature, index.0),
                None => r matches Err(error) && wasmi_instantiation_message(error) == Some(
                    not_found_message(module_name@, field_name@),
                ),
            },
    {
        match self.func_by_name(module_name, field_name) {
            Some(index) => Ok(alloc_host_func(signature, index.0)),
            None => Err(not_found(module_name, field_name)),
        }
    }

    fn resolve_memory(
        &self,
        module_name: &str,
        field_name: &str,
        _memory_type: &wasmi::MemoryDescriptor,
    ) -> (r: Result<wasmi::MemoryRef, WasmiError>)
        ensures
            match wasmi_memory_import(self@.memories, qualified(module_name@, field_name@)) {
                Some(memory) => r == Ok::<_, WasmiError>(memory),
                None => r matches Err(error) && wasmi_instantiation_message(error) == Some(
                    not_found_message(module_name@, field_name@),
                ),
            },
    {
        match self.memory_by_name(module_name, field_name) {
            Some(memory) => match memory.as_wasmi() {
                Some(memory) => Ok(memory),
                None => Err(not_found(module_name, field_name)),
            },
            None => Err(not_found(module_name, field_name)),
        }
    }

    fn resolve_global(
        &self,
        module_name: &str,
        field_name: &str,
        _global_type: &wasmi::GlobalDescriptor,
    ) -> (r: Result<wasmi::GlobalRef, WasmiError>)
        ensures
            r matches Err(error) && wasmi_instantiation_message(error) == Some(
                not_found_message(module_name@, field_name@),
            ),
    {
        Err(not_found(module_name, field_name))
    }

    fn resolve_table(
        &self,
        module_name: &str,
        field_name: &str,
        _table_type: &wasmi::TableDescriptor,
    ) -> (r: Result<wasmi::TableRef, WasmiError>)
        ensures
            r matches Err(error) && wasmi_instantiation_message(error) == Some(
                not_found_message(module_name@, field_name@),
            ),
    {
        Err(not_found(module_name, field_name))
    }
}

} // verus!
