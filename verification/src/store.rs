//! The store that keeps track of all sandboxed components.

use crate::backend::{BackendContext, SandboxBackend};
use crate::capabilities::{SandboxCapabiliesHolder, SandboxCapabilities};
use crate::dispatch::{word_size, word_size_of};
use crate::environment::GuestEnvironment;
use crate::error::{Error, InstantiationError};
use crate::instance::SandboxInstance;
use crate::instantiation::{instantiate_guest, instantiation};
use crate::memory::{
    alloc_wasmi_memory, limit_of, new_wasmer_memory, valid_limits, wasmer_may_allocate,
    wasmi_may_allocate, Memory, PlainMemory, MEM_UNLIMITED,
};
use std::rc::Rc;
use vstd::prelude::*;
use wasmer::Memory as WasmerMemory;
use wasmi::Error as WasmiError;

verus! {

/// What stands at an index of a store.
pub enum Slot<T> {
    /// Nothing was ever put there.
    Absent,
    /// What stood there has been torn down.
    TornDown,
    /// This.
    Live(T),
}

/// What stands at index `idx` of `slots`.
pub open spec fn slot<T>(slots: Seq<Option<T>>, idx: u32) -> Slot<T> {
    if idx >= slots.len() {
        Slot::Absent
    } else {
        match slots[idx as int] {
            None => Slot::TornDown,
            Some(value) => Slot::Live(value),
        }
    }
}

/// Whether `r` is a failure with the given text.
pub open spec fn fails<T>(r: Result<T, Error>, text: Seq<char>) -> bool {
    r matches Err(Error::Other(given)) && given@ == text
}

/// What is left of `slots` when what stands at index `idx`, if anything, is torn down.
pub open spec fn torn_down<T>(slots: Seq<Option<T>>, idx: u32) -> Seq<Option<T>> {
    match slot(slots, idx) {
        Slot::Live(_) => slots.update(idx as int, None),
        _ => slots,
    }
}

/// This struct keeps track of all sandboxed components.
///
/// This is generic over a supervisor function reference type.
pub struct Store<FR> {
    /// Instances are `Some` until torn down.
    pub instances: Vec<Option<Rc<SandboxInstance<FR>>>>,
    /// Memories are `Some` until torn down.
    pub memories: Vec<Option<Memory>>,
    /// The engine that runs the instances.
    pub backend_context: BackendContext,
}

/// An unregistered sandboxed instance.
///
/// To finish off the instantiation the user must call `register`.
#[must_use]
pub struct UnregisteredInstance<FR> {
    pub sandbox_instance: Rc<SandboxInstance<FR>>,
}

impl<FR> UnregisteredInstance<FR> {
    /// Finalizes instantiation of this module.
    pub fn register(self, store: &mut Store<FR>) -> (r: u32)
        ensures
            final(store).instances@ == old(store).instances@.push(Some(self.sandbox_instance)),
            final(store).memories == old(store).memories,
            final(store).backend_context == old(store).backend_context,
            r == word_size_of(old(store).instances@.len()),
    {
        // At last, register the instance.
        store.register_sandbox_instance(self.sandbox_instance)
    }
}

/// What an attempt to instantiate a module gave, without the reference around it.
pub open spec fn unregistered<FR>(r: Result<UnregisteredInstance<FR>, InstantiationError>) -> Result<
    SandboxInstance<FR>,
    InstantiationError,
> {
    match r {
        Ok(instance) => Ok(*instance.sandbox_instance),
        Err(error) => Err(error),
    }
}

/// Calls `Rc::clone`: both references denote the same instance.
#[verifier::external_body]
fn share_instance<FR>(instance: &Rc<SandboxInstance<FR>>) -> (r: Rc<SandboxInstance<FR>>)
    ensures
        r == *instance,
{
    Rc::clone(instance)
}

/// What comes of an attempt to create a memory: the index and the memory, or the error.
pub open spec fn kept_memory(
    memories: Seq<Option<Memory>>,
    created: Result<Memory, Error>,
) -> Result<(u32, Memory), Error> {
    match created {
        Ok(memory) => Ok((word_size_of(memories.len()), memory)),
        Err(error) => Err(error),
    }
}

/// The memories after an attempt to create one.
pub open spec fn memories_with(
    memories: Seq<Option<Memory>>,
    created: Result<Memory, Error>,
) -> Seq<Option<Memory>> {
    match created {
        Ok(memory) => memories.push(Some(memory)),
        Err(_) => memories,
    }
}

/// Keeps a memory that was created.
pub fn keep_memory(memories: &mut Vec<Option<Memory>>, created: Result<Memory, Error>) -> (r:
    Result<(u32, Memory), Error>)
    ensures
        r == kept_memory(old(memories)@, created),
        final(memories)@ == memories_with(old(memories)@, created),
{
    match created {
        Ok(memory) => {
            let mem_idx: u32 = word_size(memories.len());
            memories.push(Some(memory.clone()));
            Ok((mem_idx, memory))
        },
        Err(error) => Err(error),
    }
}

/// What the reply of the interpreter to a request for a memory stands for.
pub open spec fn wasmi_created(reply: Result<wasmi::MemoryRef, WasmiError>) -> Result<
    Memory,
    Error,
> {
    match reply {
        Ok(memory) => Ok(Memory::Wasmi(memory)),
        Err(error) => Err(Error::Wasmi(error)),
    }
}

/// Whether `created` is what the reply of the wasmer engine to a request for a memory stands for.
pub open spec fn wasmer_created(
    reply: Option<WasmerMemory>,
    created: Result<Memory, Error>,
) -> bool {
    match reply {
        Some(memory) => created matches Ok(Memory::Wasmer(given)) && given@ == memory,
        None => created == Err::<Memory, _>(Error::InvalidMemoryReference),
    }
}

/// Whether an attempt to create a memory may give `created`.
pub open spec fn may_create(
    backend: SandboxBackend,
    initial: u32,
    maximum: u32,
    created: Result<Memory, Error>,
) -> bool {
    let limit = limit_of(maximum);
    &&& created matches Ok(memory) ==> valid_limits(initial, limit) && memory.limits() == (
        initial,
        limit,
    )
    &&& match backend {
        SandboxBackend::Wasmi => exists|reply: Result<wasmi::MemoryRef, WasmiError>| #[trigger]
            wasmi_may_allocate(initial, limit, reply) && created == wasmi_created(reply),
        SandboxBackend::Wasmtime => false,
        SandboxBackend::Wasmer => exists|reply: Option<WasmerMemory>| #[trigger]
            wasmer_may_allocate(initial, limit, reply) && wasmer_created(reply, created),
    }
}

/// Creates a memory of the engine that `backend_context` belongs to.
fn create_memory(backend_context: &BackendContext, initial: u32, maximum: u32) -> (r: Result<
    Memory,
    Error,
>)
    requires
        backend_context.backend() != SandboxBackend::Wasmtime,
    ensures
        may_create(backend_context.backend(), initial, maximum, r),
{
    let limit: Option<u32> = if maximum == MEM_UNLIMITED {
        None
    } else {
        Some(maximum)
    };
    match backend_context {
        BackendContext::Wasmi => match alloc_wasmi_memory(initial, limit) {
            Ok(memory) => Ok(Memory::Wasmi(memory)),
            Err(error) => Err(Error::Wasmi(error)),
        },
        BackendContext::Wasmer(context) => match new_wasmer_memory(
            context.store(),
            initial,
            limit,
        ) {
            Some(memory) => Ok(Memory::Wasmer(PlainMemory::new(memory))),
            None => Err(Error::InvalidMemoryReference),
        },
        BackendContext::Wasmtime => Err(Error::InvalidMemoryReference),
    }
}

impl<FR> Store<FR> {
    /// The memories belong to the engine of this store.
    pub open spec fn wf(self) -> bool {
        memories_belong(self.memories@, self.backend_context.backend())
    }

    /// Creates a memory and keeps it.
    pub fn allocate_memory(
        memories: &mut Vec<Option<Memory>>,
        backend_context: &BackendContext,
        initial: u32,
        maximum: u32,
    ) -> (r: Result<(u32, Memory), Error>)
        requires
            backend_context.backend() != SandboxBackend::Wasmtime,
        ensures
            exists|created: Result<Memory, Error>| #[trigger]
                may_create(backend_context.backend(), initial, maximum, created) && r
                    == kept_memory(old(memories)@, created) && final(memories)@ == memories_with(
                    old(memories)@,
                    created,
                ),
            !valid_limits(initial, limit_of(maximum)) ==> r is Err,
    {
        let created = create_memory(backend_context, initial, maximum);
        keep_memory(memories, created)
    }

    /// Create a new empty sandbox store.
    pub fn new(backend: SandboxBackend) -> (r: Self)
        requires
            backend != SandboxBackend::Wasmtime,
        ensures
            r.instances@.len() == 0,
            r.memories@.len() == 0,
            r.backend_context.backend() == backend,
            r.wf(),
    {
        Store {
            instances: Vec::new(),
            memories: Vec::new(),
            backend_context: BackendContext::new(backend),
        }
    }

    /// Create a new memory instance and return its index.
    ///
    /// # Errors
    ///
    /// Returns `Err` if the memory couldn't be created.
    /// Typically happens if `initial` is more than `maximum`.
    pub fn new_memory(&mut self, initial: u32, maximum: u32) -> (r: Result<u32, Error>)
        requires
            old(self).backend_context.backend() != SandboxBackend::Wasmtime,
        ensures
            final(self).instances == old(self).instances,
            final(self).backend_context == old(self).backend_context,
            exists|created: Result<Memory, Error>| #[trigger]
                may_create(old(self).backend_context.backend(), initial, maximum, created) && (
                match created {
                    Ok(_) => r == Ok::<u32, Error>(word_size_of(old(self).memories@.len())),
                    Err(error) => r == Err::<u32, Error>(error),
                }) && final(self).memories@ == memories_with(old(self).memories@, created),
            initial > maximum ==> r is Err,
            old(self).wf() ==> final(self).wf(),
            old(self).backend_context is Wasmi ==> exists|
                reply: Result<wasmi::MemoryRef, WasmiError>,
            | #[trigger]
                wasmi_may_allocate(initial, limit_of(maximum), reply) && match reply {
                    Ok(memory) => r is Ok && final(self).memories@ == old(self).memories@.push(
                        Some(Memory::Wasmi(memory)),
                    ),
                    Err(error) => r == Err::<u32, _>(Error::Wasmi(error)) && final(self).memories@
                        == old(self).memories@,
                },
            old(self).backend_context is Wasmer ==> exists|reply: Option<WasmerMemory>| #[trigger]
                wasmer_may_allocate(initial, limit_of(maximum), reply) && match reply {
                    Some(memory) => r is Ok && final(self).memories@.len()
                        == old(self).memories@.len() + 1 && final(self).memories@.drop_last()
                        == old(self).memories@ && (final(self).memories@.last() matches Some(
                        Memory::Wasmer(given),
                    ) && given@ == memory),
                    None => r is Err && final(self).memories@ == old(self).memories@,
                },
    {
        let r = match Self::allocate_memory(
            &mut self.memories,
            &self.backend_context,
            initial,
            maximum,
        ) {
            Ok((index, _)) => Ok(index),
            Err(error) => Err(error),
        };
        proof {
            if self.memories@.len() > old(self).memories@.len() {
                assert(self.memories@.drop_last() =~= old(self).memories@);
            }
        }
        r
    }

    /// Returns `SandboxInstance` by `instance_idx`.
    ///
    /// # Errors
    ///
    /// Returns `Err` If `instance_idx` isn't a valid index of an instance or
    /// instance is already torndown.
    pub fn instance(&self, instance_idx: u32) -> (r: Result<Rc<SandboxInstance<FR>>, Error>)
        ensures
            match slot(self.instances@, instance_idx) {
                Slot::Absent => fails(r, "Trying to access a non-existent instance"@),
                Slot::TornDown => fails(r, "Trying to access a torndown instance"@),
                Slot::Live(instance) => r == Ok::<_, Error>(instance),
            },
    {
        let idx: usize = instance_idx as usize;
        if idx >= self.instances.len() {
            return Err(Error::Other("Trying to access a non-existent instance".to_owned()));
        }
        match &self.instances[idx] {
            Some(instance) => Ok(share_instance(instance)),
            None => Err(Error::Other("Trying to access a torndown instance".to_owned())),
        }
    }

    /// Returns reference to a memory instance by `memory_idx`.
    ///
    /// # Errors
    ///
    /// Returns `Err` If `memory_idx` isn't a valid index of an memory or
    /// if memory has been torn down.
    pub fn memory(&self, memory_idx: u32) -> (r: Result<Memory, Error>)
        ensures
            match slot(self.memories@, memory_idx) {
                Slot::Absent => fails(r, "Trying to access a non-existent sandboxed memory"@),
                Slot::TornDown => fails(r, "Trying to access a torndown sandboxed memory"@),
                Slot::Live(memory) => r == Ok::<_, Error>(memory),
            },
    {
        let idx: usize = memory_idx as usize;
        if idx >= self.memories.len() {
            return Err(Error::Other("Trying to access a non-existent sandboxed memory".to_owned()));
        }
        match &self.memories[idx] {
            Some(memory) => Ok(memory.clone()),
            None => Err(Error::Other("Trying to access a torndown sandboxed memory".to_owned())),
        }
    }

    /// Tear down the memory at the specified index.
    ///
    /// # Errors
    ///
    /// Returns `Err` if `memory_idx` isn't a valid index of an memory or
    /// if it has been torn down.
    pub fn memory_teardown(&mut self, memory_idx: u32) -> (r: Result<(), Error>)
        ensures
            final(self).instances == old(self).instances,
            final(self).backend_context == old(self).backend_context,
            final(self).memories@ == torn_down(old(self).memories@, memory_idx),
            match slot(old(self).memories@, memory_idx) {
                Slot::Absent => fails(r, "Trying to teardown a non-existent sandboxed memory"@),
                Slot::TornDown => fails(r, "Double teardown of a sandboxed memory"@),
                Slot::Live(_) => r is Ok,
            },
            old(self).wf() ==> final(self).wf(),
    {
        let idx: usize = memory_idx as usize;
        if idx >= self.memories.len() {
            return Err(
                Error::Other("Trying to teardown a non-existent sandboxed memory".to_owned()),
            );
        }
        if self.memories[idx].is_none() {
            return Err(Error::Other("Double teardown of a sandboxed memory".to_owned()));
        }
        self.memories.set(idx, None);
        Ok(())
    }

    /// Tear down the instance at the specified index.
    ///
    /// # Errors
    ///
    /// Returns `Err` if `instance_idx` isn't a valid index of an instance or
    /// if it has been torn down.
    pub fn instance_teardown(&mut self, instance_idx: u32) -> (r: Result<(), Error>)
        ensures
            final(self).memories == old(self).memories,
            final(self).backend_context == old(self).backend_context,
            final(self).instances@ == torn_down(old(self).instances@, instance_idx),
            match slot(old(self).instances@, instance_idx) {
                Slot::Absent => fails(r, "Trying to teardown a non-existent instance"@),
                Slot::TornDown => fails(r, "Double teardown of an instance"@),
                Slot::Live(_) => r is Ok,
            },
    {
        let idx: usize = instance_idx as usize;
        if idx >= self.instances.len() {
            return Err(Error::Other("Trying to teardown a non-existent instance".to_owned()));
        }
        if self.instances[idx].is_none() {
            return Err(Error::Other("Double teardown of an instance".to_owned()));
        }
        self.instances.set(idx, None);
        Ok(())
    }

    /// Puts an instance under the next index.
    pub fn register_sandbox_instance(&mut self, sandbox_instance: Rc<SandboxInstance<FR>>) -> (r:
        u32)
        ensures
            final(self).instances@ == old(self).instances@.push(Some(sandbox_instance)),
            final(self).memories == old(self).memories,
            final(self).backend_context == old(self).backend_context,
            r == word_size_of(old(self).instances@.len()),
    {
        let instance_idx: u32 = word_size(self.instances.len());
        self.instances.push(Some(sandbox_instance));
        instance_idx
    }

    /// Instantiate a guest module.
    ///
    /// The guest module's code is specified in `wasm`. Environment that will be available to
    /// guest module is specified in `guest_env`, `dispatch_thunk` is used as function that
    /// handle calls from guests. `state` is an opaque pointer to caller's arbitrary context.
    ///
    /// Returns the sandboxed module instance, which is not registered yet, or an instantiation
    /// error. The store stays as it is.
    pub fn instantiate<FE, SCH>(
        &mut self,
        dispatch_thunk: FR,
        wasm: &[u8],
        guest_env: GuestEnvironment,
        state: u32,
    ) -> (r: Result<UnregisteredInstance<FR>, InstantiationError>) where
        FR: Clone + Send + Sync + 'static,
        FE: SandboxCapabilities<SupervisorFuncRef = FR>,
        SCH: SandboxCapabiliesHolder<SupervisorFuncRef = FR, SC = FE>,

        ensures
            *final(self) == *old(self),
            instantiation::<FR, FE>(
                old(self).backend_context.backend(),
                wasm@,
                guest_env@,
                dispatch_thunk,
                state,
                unregistered(r),
            ),
    {
        match instantiate_guest::<FR, FE, SCH>(
            &self.backend_context,
            wasm,
            guest_env,
            dispatch_thunk,
            state,
        ) {
            Ok(instance) => Ok(UnregisteredInstance { sandbox_instance: Rc::new(instance) }),
            Err(error) => Err(error),
        }
    }
}

/// Whether all memories that have not been torn down belong to `backend`.
pub open spec fn memories_belong(
    memories: Seq<Option<Memory>>,
    backend: SandboxBackend,
) -> bool {
    forall|i: int|
        0 <= i < memories.len() ==> ((#[trigger] memories[i]) matches Some(memory)
            ==> memory.backend() == backend)
}

} // verus!
