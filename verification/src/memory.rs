//! Sandboxed linear memories.

use crate::backend::{wasmer_plain_store, SandboxBackend};
use vstd::prelude::*;
use wasmer::Memory as WasmerMemory;
use wasmer::Store as WasmerStore;
use wasmi::Error as WasmiError;

verus! {

#[verifier::external_type_specification]
#[verifier::external_body]
pub struct ExWasmiMemory(wasmi::MemoryRef);

#[verifier::external_type_specification]
#[verifier::external_body]
pub struct ExWasmerMemory(WasmerMemory);

#[verifier::external_type_specification]
#[verifier::external_body]
pub struct ExWasmerStore(WasmerStore);

/// The number of pages that a linear memory can have at most.
pub const MAX_PAGES: u32 = 65536;

/// The maximum that stands for no limit when a sandboxed memory is created.
pub const MEM_UNLIMITED: u32 = 0xffff_ffff;

/// The limit that `maximum` stands for.
pub open spec fn limit_of(maximum: u32) -> Option<u32> {
    if maximum == MEM_UNLIMITED {
        None
    } else {
        Some(maximum)
    }
}

/// Whether a memory of `initial` pages can exist that may grow to `limit` pages.
pub open spec fn valid_limits(initial: u32, limit: Option<u32>) -> bool {
    &&& initial <= MAX_PAGES
    &&& limit matches Some(most) ==> initial <= most && most <= MAX_PAGES
}

/// The number of pages that a memory of the interpreter was created with, and the number that it
/// may grow to. Both are fixed when the memory is created.
pub uninterp spec fn wasmi_memory_limits(memory: wasmi::MemoryRef) -> (u32, Option<u32>);

/// The number of pages that a wasmer memory was created with, and the number that it may grow to.
/// Both are fixed when the memory is created.
pub uninterp spec fn wasmer_memory_limits(memory: WasmerMemory) -> (u32, Option<u32>);

/// Whether a wasmer memory was created in a store for numbers only, and so has the guards that
/// modules of such stores expect.
pub uninterp spec fn wasmer_plain_memory(memory: WasmerMemory) -> bool;

/// Whether the interpreter may answer with `reply` when it is asked for a memory.
pub uninterp spec fn wasmi_may_allocate(
    initial: u32,
    limit: Option<u32>,
    reply: Result<wasmi::MemoryRef, WasmiError>,
) -> bool;

/// Whether the wasmer engine may answer with `reply` when it is asked for a memory.
pub uninterp spec fn wasmer_may_allocate(
    initial: u32,
    limit: Option<u32>,
    reply: Option<WasmerMemory>,
) -> bool;

/// Calls `wasmi::MemoryInstance::alloc`.
///
/// A memory is created only within valid limits, and with the limits asked for. Whether it is
/// created within valid limits depends on the machine.
#[verifier::external_body]
pub(crate) fn alloc_wasmi_memory(initial: u32, limit: Option<u32>) -> (r: Result<
    wasmi::MemoryRef,
    WasmiError,
>)
    ensures
        wasmi_may_allocate(initial, limit, r),
        r matches Ok(memory) ==> valid_limits(initial, limit) && wasmi_memory_limits(memory) == (
            initial,
            limit,
        ),
{
    wasmi::MemoryInstance::alloc(
        wasmi::memory_units::Pages(initial as usize),
        limit.map(|pages| wasmi::memory_units::Pages(pages as usize)),
    )
}

/// Calls `wasmer::Memory::new` for a memory that is not shared between threads.
///
/// A memory is created only within valid limits, and with the limits asked for. Whether it is
/// created within valid limits depends on the machine. It gets its guards from the tunables of the
/// store.
#[verifier::external_body]
pub(crate) fn new_wasmer_memory(store: &WasmerStore, initial: u32, limit: Option<u32>) -> (r:
    Option<WasmerMemory>)
    ensures
        wasmer_may_allocate(initial, limit, r),
        wasmer_plain_store(*store) && r is Some ==> wasmer_plain_memory(r->Some_0),
        r matches Some(memory) ==> valid_limits(initial, limit) && wasmer_memory_limits(memory)
            == (initial, limit),
{
    WasmerMemory::new(store, wasmer::MemoryType::new(initial, limit, false)).ok()
}

/// Calls `Clone::clone` of `wasmi::MemoryRef`, a counted reference: both references denote the
/// same memory.
#[verifier::external_body]
fn share_wasmi_memory(memory: &wasmi::MemoryRef) -> (r: wasmi::MemoryRef)
    ensures
        r == *memory,
{
    memory.clone()
}

/// Calls `Clone::clone` of `wasmer::Memory`, a counted reference: both references denote the same
/// memory.
#[verifier::external_body]
fn share_wasmer_memory(memory: &WasmerMemory) -> (r: WasmerMemory)
    ensures
        r == *memory,
{
    memory.clone()
}

/// A wasmer memory that modules of this library can import.
#[derive(Debug)]
pub struct PlainMemory {
    memory: WasmerMemory,
}

impl View for PlainMemory {
    type V = WasmerMemory;

    closed spec fn view(&self) -> WasmerMemory {
        self.memory
    }
}

impl PlainMemory {
    /// The memory was created in a store for numbers only.
    #[verifier::type_invariant]
    spec fn wf(self) -> bool {
        wasmer_plain_memory(self.memory)
    }

    /// Wraps a memory that was created in a store for numbers only.
    pub(crate) fn new(memory: WasmerMemory) -> (r: PlainMemory)
        requires
            wasmer_plain_memory(memory),
        ensures
            r@ == memory,
    {
        PlainMemory { memory }
    }

    /// Returns another reference to this memory.
    fn share(&self) -> (r: WasmerMemory)
        ensures
            r == self@,
            wasmer_plain_memory(r),
    {
        proof {
            use_type_invariant(self);
        }
        share_wasmer_memory(&self.memory)
    }
}

/// A linear memory of one of the engines.
#[derive(Debug)]
pub enum Memory {
    /// A memory of the interpreter.
    Wasmi(wasmi::MemoryRef),
    /// A memory of the wasmer engine.
    Wasmer(PlainMemory),
}

impl Clone for Memory {
    fn clone(&self) -> (r: Memory)
        ensures
            r == *self,
    {
        match self {
            Memory::Wasmi(memory) => Memory::Wasmi(share_wasmi_memory(memory)),
            Memory::Wasmer(memory) => Memory::Wasmer(PlainMemory::new(memory.share())),
        }
    }
}

impl Memory {
    /// The backend that this memory belongs to.
    pub open spec fn backend(self) -> SandboxBackend {
        match self {
            Memory::Wasmi(_) => SandboxBackend::Wasmi,
            Memory::Wasmer(_) => SandboxBackend::Wasmer,
        }
    }

    /// The number of pages that this memory was created with, and the number it may grow to.
    pub open spec fn limits(self) -> (u32, Option<u32>) {
        match self {
            Memory::Wasmi(memory) => wasmi_memory_limits(memory),
            Memory::Wasmer(memory) => wasmer_memory_limits(memory@),
        }
    }

    /// Returns the memory of the interpreter that this is, if it is one.
    pub fn as_wasmi(&self) -> (r: Option<wasmi::MemoryRef>)
        ensures
            r == (match *self {
                Memory::Wasmi(memory) => Some(memory),
                Memory::Wasmer(_) => None,
            }),
    {
        match self {
            Memory::Wasmi(memory) => Some(share_wasmi_memory(memory)),
            Memory::Wasmer(_) => None,
        }
    }

    /// Returns the wasmer memory that this is, if it is one.
    pub fn as_wasmer(&self) -> (r: Option<WasmerMemory>)
        ensures
            r == (match *self {
                Memory::Wasmi(_) => None,
                Memory::Wasmer(memory) => Some(memory@),
            }),
            r matches Some(memory) ==> wasmer_plain_memory(memory),
    {
        match self {
            Memory::Wasmi(_) => None,
            Memory::Wasmer(memory) => Some(memory.share()),
        }
    }
}

} // verus!
