//! What a supervisor offers to the sandbox.

use crate::error::Error;
use crate::mapping::SupervisorFuncIndex;
use vstd::prelude::*;

verus! {

/// The word size used in wasm. Normally known as `usize` in Rust.
pub type WordSize = u32;

/// An address in the linear memory of the supervisor.
pub type Pointer = u32;

/// One call of a supervisor capability, with the arguments it got and the reply it gave.
pub enum Call<FR> {
    /// `allocate_memory`; it gave the address of a buffer, or nothing on failure.
    Allocate { size: WordSize, buffer: Option<Pointer> },
    /// `deallocate_memory`; `done` tells whether it succeeded.
    Deallocate { ptr: Pointer, done: bool },
    /// `write_memory`; `done` tells whether it succeeded.
    Write { ptr: Pointer, data: Seq<u8>, done: bool },
    /// `read_memory`; it gave the bytes that were read, or nothing on failure.
    Read { ptr: Pointer, size: WordSize, bytes: Option<Seq<u8>> },
    /// `invoke`, with its result as the reply.
    Invoke {
        dispatch_thunk: FR,
        invoke_args_ptr: Pointer,
        invoke_args_len: WordSize,
        state: u32,
        func_idx: SupervisorFuncIndex,
        reply: Result<i64, Error>,
    },
}

/// What is left of a reply when its error text is dropped.
pub open spec fn reply_of<T>(result: Result<T, String>) -> Option<T> {
    match result {
        Ok(value) => Some(value),
        Err(_) => None,
    }
}

/// This trait encapsulates sandboxing capabilities.
///
/// Note that these functions are only called in the `supervisor` context.
///
/// Nothing is promised of the replies. Each function only says that the call joins the history
/// of calls, [`SandboxCapabilities::calls`], with its arguments and its reply.
pub trait SandboxCapabilities {
    /// Represents a function reference into the supervisor environment.
    /// Provides an abstraction over the execution environment.
    type SupervisorFuncRef;

    /// All calls of these capabilities so far, in order.
    ///
    /// A supervisor that is not verified need not provide it. A verified one has to: it cannot meet
    /// the clauses of the functions below with the default, which never changes.
    open spec fn calls(&self) -> Seq<Call<Self::SupervisorFuncRef>> {
        arbitrary()
    }

    /// Allocate a buffer of `size` bytes in the memory of the supervisor.
    fn allocate_memory(&mut self, size: WordSize) -> (r: Result<Pointer, String>)
        ensures
            final(self).calls() == old(self).calls().push(
                Call::Allocate { size, buffer: reply_of(r) },
            ),
    ;

    /// Deallocate a buffer.
    fn deallocate_memory(&mut self, ptr: Pointer) -> (r: Result<(), String>)
        ensures
            final(self).calls() == old(self).calls().push(
                Call::Deallocate { ptr, done: r is Ok },
            ),
    ;

    /// Write `data` at `address` into the memory of the supervisor.
    fn write_memory(&mut self, address: Pointer, data: &[u8]) -> (r: Result<(), String>)
        ensures
            final(self).calls() == old(self).calls().push(
                Call::Write { ptr: address, data: data@, done: r is Ok },
            ),
    ;

    /// Read `size` bytes at `address` of the memory of the supervisor.
    fn read_memory(&mut self, address: Pointer, size: WordSize) -> (r: Result<Vec<u8>, String>)
        ensures
            final(self).calls() == old(self).calls().push(
                Call::Read {
                    ptr: address,
                    size,
                    bytes: match r {
                        Ok(bytes) => Some(bytes@),
                        Err(_) => None,
                    },
                },
            ),
    ;

    /// Invoke a function in the supervisor environment.
    ///
    /// This first invokes the dispatch_thunk function, passing in the function index of the
    /// desired function to call and serialized arguments. The thunk calls the desired function
    /// with the deserialized arguments, then serializes the result into memory and returns
    /// reference. The pointer to and length of the result in linear memory is encoded into an
    /// `i64`, with the upper 32 bits representing the pointer and the lower 32 bits representing
    /// the length.
    ///
    /// # Errors
    ///
    /// Returns `Err` if the dispatch_thunk function has an incorrect signature or traps during
    /// execution.
    fn invoke(
        &mut self,
        dispatch_thunk: &Self::SupervisorFuncRef,
        invoke_args_ptr: Pointer,
        invoke_args_len: WordSize,
        state: u32,
        func_idx: SupervisorFuncIndex,
    ) -> (r: Result<i64, Error>)
        ensures
            final(self).calls() == old(self).calls().push(
                Call::Invoke {
                    dispatch_thunk: *dispatch_thunk,
                    invoke_args_ptr,
                    invoke_args_len,
                    state,
                    func_idx,
                    reply: r,
                },
            ),
    ;
}

/// Helper type to provide sandbox capabilities to the inner context.
pub trait SandboxCapabiliesHolder {
    /// Supervisor function reference.
    type SupervisorFuncRef;

    /// Capabilities trait.
    type SC: SandboxCapabilities<SupervisorFuncRef = Self::SupervisorFuncRef>;

    /// Wrapper that provides sandbox capabilities in a limited context.
    ///
    /// It runs `f` on the capabilities, whatever they are, and returns what `f` returned.
    fn with_sandbox_capabilities<R, F: FnOnce(&mut Self::SC) -> R>(f: F) -> (r: R)
        requires
            forall|capabilities: &mut Self::SC| call_requires(f, (capabilities,)),
        ensures
            exists|capabilities: &mut Self::SC| call_ensures(f, (capabilities,), r),
    ;
}

} // verus!
