//! How a call of a guest reaches the supervisor.
//!
//! The arguments of the call are serialized into a buffer that the supervisor allocates, the
//! dispatch thunk of the supervisor is invoked on that buffer, and the result that it leaves
//! behind is read, released and deserialized.

use crate::capabilities::{Call, Pointer, SandboxCapabilities, WordSize};
use crate::codec::{decode_result, encode_values};
use crate::error::Error;
use crate::mapping::SupervisorFuncIndex;
use crate::value::{EngineValue, HostError, ReturnValue, Value};
use vstd::prelude::*;

verus! {

/// Why a call of a guest did not reach its end.
#[derive(Debug)]
pub enum DispatchError {
    /// The guest function has no counterpart in the supervisor.
    UnknownFunction,
    /// An argument is not a number.
    UnsupportedArgument,
    /// The guest function returns nothing, yet the supervisor function returned a value.
    UnexpectedResult,
    /// No buffer could be allocated for the arguments.
    AllocateArguments,
    /// The arguments could not be written into their buffer.
    WriteArguments,
    /// The arguments could not be written into their buffer, which could not be released either.
    DeallocateAfterWrite,
    /// The buffer of the arguments could not be released.
    DeallocateArguments,
    /// The dispatch thunk failed.
    Invoke(Error),
    /// The serialized result could not be read.
    ReadResult,
    /// The buffer of the serialized result could not be released.
    DeallocateResult,
    /// The serialized result could not be decoded.
    DecodeResult,
    /// The supervisor function failed.
    Supervisor,
}

impl DispatchError {
    /// The words that describe this failure.
    pub open spec fn text(self) -> Seq<char> {
        match self {
            DispatchError::UnknownFunction => "missing guest to host mapping"@,
            DispatchError::UnsupportedArgument => "not implemented"@,
            DispatchError::UnexpectedResult => "Unexpected result of a supervisor function"@,
            DispatchError::AllocateArguments =>
                "Can't allocate memory in supervisor for the arguments"@,
            DispatchError::WriteArguments => "Can't write invoke args into memory"@,
            DispatchError::DeallocateAfterWrite =>
                "Failed dealloction after failed write of invoke arguments"@,
            DispatchError::DeallocateArguments =>
                "Can't deallocate memory for dispatch thunk's invoke arguments"@,
            DispatchError::Invoke(error) => error.text(),
            DispatchError::ReadResult => "Can't read the serialized result from dispatch thunk"@,
            DispatchError::DeallocateResult =>
                "Can't deallocate memory for dispatch thunk's result"@,
            DispatchError::DecodeResult => "Decoding Result<ReturnValue, HostError> failed!"@,
            DispatchError::Supervisor => "Supervisor function returned sandbox::HostError"@,
        }
    }

    /// Describes this failure in words.
    pub fn message(&self) -> (r: String)
        ensures
            r@ == self.text(),
    {
        match self {
            DispatchError::UnknownFunction => "missing guest to host mapping".to_owned(),
            DispatchError::UnsupportedArgument => "not implemented".to_owned(),
            DispatchError::UnexpectedResult =>
                "Unexpected result of a supervisor function".to_owned(),
            DispatchError::AllocateArguments =>
                "Can't allocate memory in supervisor for the arguments".to_owned(),
            DispatchError::WriteArguments => "Can't write invoke args into memory".to_owned(),
            DispatchError::DeallocateAfterWrite =>
                "Failed dealloction after failed write of invoke arguments".to_owned(),
            DispatchError::DeallocateArguments =>
                "Can't deallocate memory for dispatch thunk's invoke arguments".to_owned(),
            DispatchError::Invoke(error) => error.message(),
            DispatchError::ReadResult =>
                "Can't read the serialized result from dispatch thunk".to_owned(),
            DispatchError::DeallocateResult =>
                "Can't deallocate memory for dispatch thunk's result".to_owned(),
            DispatchError::DecodeResult =>
                "Decoding Result<ReturnValue, HostError> failed!".to_owned(),
            DispatchError::Supervisor =>
                "Supervisor function returned sandbox::HostError".to_owned(),
        }
    }
}

/// One call of a guest.
pub struct Request<FR> {
    /// The function of the supervisor that dispatches the call.
    pub dispatch_thunk: FR,
    /// The supervisor function that is called.
    pub func_idx: SupervisorFuncIndex,
    /// The serialized arguments.
    pub args_data: Seq<u8>,
    /// The opaque context of the call.
    pub state: u32,
}

/// A length as a wasm word, which keeps its low 32 bits.
pub open spec fn word_size_of(len: nat) -> WordSize {
    (len % 0x1_0000_0000) as u32
}

/// Converts a length to a wasm word, which keeps its low 32 bits.
pub fn word_size(len: usize) -> (r: WordSize)
    ensures
        r == word_size_of(len as nat),
{
    let wide: u64 = len as u64;
    let word: u32 = wide as u32;
    assert(word == wide % 0x1_0000_0000) by (bit_vector)
        requires
            word == wide as u32,
    ;
    word
}

/// The 64 bits of `packed` as an unsigned number.
pub open spec fn unsigned(packed: i64) -> int {
    if packed >= 0 {
        packed as int
    } else {
        packed + 0x1_0000_0000_0000_0000
    }
}

/// The upper 32 bits of `packed`: the address of a result.
pub open spec fn packed_ptr(packed: i64) -> Pointer {
    (unsigned(packed) / 0x1_0000_0000) as u32
}

/// The lower 32 bits of `packed`: the length of a result.
pub open spec fn packed_len(packed: i64) -> WordSize {
    (unsigned(packed) % 0x1_0000_0000) as u32
}

/// Unpacks the address and the length of a serialized result.
pub fn unpack(packed: i64) -> (r: (Pointer, WordSize))
    ensures
        r == (packed_ptr(packed), packed_len(packed)),
{
    // Cast to u64 to use zero-extension.
    let v: u64 = packed as u64;
    let ptr: u32 = (v >> 32) as u32;
    let len: u32 = (v & 0xFFFFFFFF) as u32;
    assert(v == if packed >= 0 {
        packed as int
    } else {
        packed + 0x1_0000_0000_0000_0000
    }) by (bit_vector)
        requires
            v == packed as u64,
    ;
    assert(ptr == v / 0x1_0000_0000 && len == v % 0x1_0000_0000) by (bit_vector)
        requires
            ptr == (v >> 32) as u32,
            len == (v & 0xFFFFFFFF) as u32,
    ;
    (ptr, len)
}

/// Every pair of an address and a length is the unpacked form of exactly one number: the one that
/// has the address in its upper and the length in its lower 32 bits.
pub proof fn law_unpack_inverts_packing(packed: i64, ptr: Pointer, len: WordSize)
    ensures
        (packed_ptr(packed) == ptr && packed_len(packed) == len) <==> unsigned(packed) == ptr
            * 0x1_0000_0000 + len,
        0 <= unsigned(packed) < 0x1_0000_0000_0000_0000,
        (unsigned(packed) - packed) % 0x1_0000_0000_0000_0000 == 0,
{
}

/// What a guest gets when the serialized result of a supervisor function decodes to `decoded`.
pub open spec fn guest_result(decoded: Option<Result<ReturnValue, HostError>>) -> Result<
    Option<Value>,
    DispatchError,
> {
    match decoded {
        None => Err(DispatchError::DecodeResult),
        Some(Err(_)) => Err(DispatchError::Supervisor),
        Some(Ok(ReturnValue::Unit)) => Ok(None),
        Some(Ok(ReturnValue::Value(value))) => Ok(Some(value)),
    }
}

/// Turns the decoded result of a supervisor function into what the guest gets.
pub fn interpret_result(decoded: Option<Result<ReturnValue, HostError>>) -> (r: Result<
    Option<Value>,
    DispatchError,
>)
    ensures
        r == guest_result(decoded),
{
    match decoded {
        None => Err(DispatchError::DecodeResult),
        Some(Err(_)) => Err(DispatchError::Supervisor),
        Some(Ok(ReturnValue::Unit)) => Ok(None),
        Some(Ok(ReturnValue::Value(value))) => Ok(Some(value)),
    }
}

/// Deserializes the result of a supervisor function.
pub fn deserialize_result(serialized_result: &[u8]) -> (r: Result<Option<Value>, DispatchError>)
    ensures
        r == guest_result(crate::codec::decoded_result(serialized_result@)),
{
    interpret_result(decode_result(serialized_result))
}

/// The numbers that the arguments of a call are, or nothing if one of them is not a number.
pub open spec fn numbers_of(args: Seq<EngineValue>) -> Option<Seq<Value>> {
    if forall|i: int| 0 <= i < args.len() ==> (#[trigger] args[i]) is Number {
        Some(args.map_values(|arg: EngineValue| arg->Number_0))
    } else {
        None
    }
}

/// Returns the numbers that the arguments of a call are, or nothing if one is not a number.
pub fn numbers(args: &[EngineValue]) -> (r: Option<Vec<Value>>)
    ensures
        match r {
            Some(values) => numbers_of(args@) == Some(values@),
            None => numbers_of(args@) is None,
        },
{
    let mut values: Vec<Value> = Vec::new();
    let mut i: usize = 0;
    while i < args.len()
        invariant
            i <= args.len(),
            values@.len() == i,
            forall|j: int|
                0 <= j < i ==> (#[trigger] args@[j]) is Number && values@[j] == args@[j]->Number_0,
        decreases args.len() - i,
    {
        match args[i].as_number() {
            Some(value) => values.push(value),
            None => {
                assert(!(args@[i as int] is Number));
                return None;
            },
        }
        i = i + 1;
    }
    assert(values@ =~= args@.map_values(|arg: EngineValue| arg->Number_0));
    Some(values)
}

/// The calls that were made between two points of a history.
pub open spec fn calls_between<FR>(before: Seq<Call<FR>>, after: Seq<Call<FR>>) -> Seq<Call<FR>> {
    after.skip(before.len() as int)
}

/// The calls that fetch a result, and what the guest gets in the end.
///
/// The result is read and its buffer is released, in this order and whatever the reading gave.
pub open spec fn fetch_run<FR>(
    packed: i64,
    calls: Seq<Call<FR>>,
    outcome: Result<Option<Value>, DispatchError>,
) -> bool {
    &&& calls.len() == 2
    &&& calls[0] matches Call::Read { ptr, size, bytes }
    &&& ptr == packed_ptr(packed)
    &&& size == packed_len(packed)
    &&& calls[1] matches Call::Deallocate { ptr: released, done }
    &&& released == ptr
    &&& outcome == if !done {
        Err(DispatchError::DeallocateResult)
    } else {
        match bytes {
            None => Err(DispatchError::ReadResult),
            Some(bytes) => guest_result(crate::codec::decoded_result(bytes)),
        }
    }
}

/// Whether `call` invokes the dispatch thunk for `request`, on arguments at `args_ptr`.
pub open spec fn invokes<FR>(request: Request<FR>, args_ptr: Pointer, call: Call<FR>) -> bool {
    &&& call matches Call::Invoke {
        dispatch_thunk,
        invoke_args_ptr,
        invoke_args_len,
        state,
        func_idx,
        reply: _,
    }
    &&& dispatch_thunk == request.dispatch_thunk
    &&& invoke_args_ptr == args_ptr
    &&& invoke_args_len == word_size_of(request.args_data.len())
    &&& state == request.state
    &&& func_idx == request.func_idx
}

/// The calls that place serialized arguments in the supervisor, with the address at which
/// they stand in the end, or the outcome if they could not be placed.
pub open spec fn placement_run<FR>(
    args_data: Seq<u8>,
    calls: Seq<Call<FR>>,
    placed: Result<Pointer, DispatchError>,
) -> bool {
    &&& calls.len() >= 1
    &&& calls[0] matches Call::Allocate { size, buffer }
    &&& size == word_size_of(args_data.len())
    &&& match buffer {
        None => calls.len() == 1 && placed == Err::<Pointer, DispatchError>(
            DispatchError::AllocateArguments,
        ),
        Some(args_ptr) => {
            &&& calls.len() >= 2
            &&& calls[1] matches Call::Write { ptr, data, done: written }
            &&& ptr == args_ptr
            &&& data == args_data
            &&& if written {
                calls.len() == 2 && placed == Ok::<Pointer, DispatchError>(args_ptr)
            } else {
                &&& calls.len() == 3
                &&& calls[2] matches Call::Deallocate { ptr: released, done }
                &&& released == args_ptr
                &&& placed == Err::<Pointer, DispatchError>(
                    if done {
                        DispatchError::WriteArguments
                    } else {
                        DispatchError::DeallocateAfterWrite
                    },
                )
            }
        },
    }
}

/// The calls by which a guest is served, and what it gets in the end.
///
/// The buffer of the arguments is released as soon as the dispatch thunk returns, whatever it
/// returned.
pub open spec fn guest_run<FR>(
    request: Request<FR>,
    calls: Seq<Call<FR>>,
    outcome: Result<Option<Value>, DispatchError>,
) -> bool {
    ||| outcome matches Err(error) && placement_run(request.args_data, calls, Err(error))
    ||| {
        &&& calls.len() >= 4
        &&& calls[0] matches Call::Allocate { size: _, buffer: Some(args_ptr) }
        &&& placement_run(request.args_data, calls.take(2), Ok(args_ptr))
        &&& invokes(request, args_ptr, calls[2])
        &&& calls[3] matches Call::Deallocate { ptr: released, done }
        &&& released == args_ptr
        &&& if !done {
            calls.len() == 4 && outcome == Err::<Option<Value>, _>(
                DispatchError::DeallocateArguments,
            )
        } else {
            match calls[2]->reply {
                Err(error) => calls.len() == 4 && outcome == Err::<Option<Value>, _>(
                    DispatchError::Invoke(error),
                ),
                Ok(packed) => fetch_run(packed, calls.skip(4), outcome),
            }
        }
    }
}

/// Places serialized arguments in a buffer of the supervisor.
pub fn place_arguments<FE: SandboxCapabilities>(
    supervisor_externals: &mut FE,
    args_data: &[u8],
) -> (r: Result<Pointer, DispatchError>)
    ensures
        old(supervisor_externals).calls().is_prefix_of(final(supervisor_externals).calls()),
        placement_run(
            args_data@,
            calls_between(old(supervisor_externals).calls(), final(supervisor_externals).calls()),
            r,
        ),
{
    let ghost before = supervisor_externals.calls();
    let args_ptr: u32 = match supervisor_externals.allocate_memory(word_size(args_data.len())) {
        Ok(ptr) => ptr,
        Err(_) => {
            return Err(DispatchError::AllocateArguments);
        },
    };
    if supervisor_externals.write_memory(args_ptr, args_data).is_err() {
        if supervisor_externals.deallocate_memory(args_ptr).is_err() {
            return Err(DispatchError::DeallocateAfterWrite);
        }
        return Err(DispatchError::WriteArguments);
    }
    Ok(args_ptr)
}

/// Reads, releases and deserializes the result that a dispatch thunk left behind.
pub fn fetch_result<FE: SandboxCapabilities>(supervisor_externals: &mut FE, packed: i64) -> (r:
    Result<Option<Value>, DispatchError>)
    ensures
        old(supervisor_externals).calls().is_prefix_of(final(supervisor_externals).calls()),
        fetch_run(
            packed,
            calls_between(old(supervisor_externals).calls(), final(supervisor_externals).calls()),
            r,
        ),
{
    let (ptr, len): (u32, u32) = unpack(packed);
    let serialized_result = supervisor_externals.read_memory(ptr, len);
    if supervisor_externals.deallocate_memory(ptr).is_err() {
        return Err(DispatchError::DeallocateResult);
    }
    match serialized_result {
        Ok(bytes) => deserialize_result(bytes.as_slice()),
        Err(_) => Err(DispatchError::ReadResult),
    }
}

/// Serves a call of a guest.
pub fn dispatch_call<FE: SandboxCapabilities>(
    supervisor_externals: &mut FE,
    dispatch_thunk: &FE::SupervisorFuncRef,
    state: u32,
    func_idx: SupervisorFuncIndex,
    args: &[Value],
) -> (r: Result<Option<Value>, DispatchError>)
    requires
        args@.len() <= u32::MAX,
    ensures
        old(supervisor_externals).calls().is_prefix_of(final(supervisor_externals).calls()),
        guest_run(
            Request {
                dispatch_thunk: *dispatch_thunk,
                func_idx,
                args_data: crate::codec::encoded_values(args@),
                state,
            },
            calls_between(old(supervisor_externals).calls(), final(supervisor_externals).calls()),
            r,
        ),
{
    let ghost before = supervisor_externals.calls();
    let args_data = encode_values(args);
    let args_ptr: u32 = place_arguments(supervisor_externals, args_data.as_slice())?;
    let ghost placed = supervisor_externals.calls();
    let result = supervisor_externals.invoke(
        dispatch_thunk,
        args_ptr,
        word_size(args_data.len()),
        state,
        func_idx,
    );
    if supervisor_externals.deallocate_memory(args_ptr).is_err() {
        proof {
            assert(calls_between(before, supervisor_externals.calls()).take(2) =~= calls_between(
                before,
                placed,
            ));
        }
        return Err(DispatchError::DeallocateArguments);
    }
    let ghost released = supervisor_externals.calls();
    proof {
        assert(calls_between(before, released).take(2) =~= calls_between(before, placed));
    }
    let packed: i64 = match result {
        Ok(packed) => packed,
        Err(error) => {
            return Err(DispatchError::Invoke(error));
        },
    };
    let outcome = fetch_result(supervisor_externals, packed);
    proof {
        let calls = calls_between(before, supervisor_externals.calls());
        assert(calls.take(4) =~= calls_between(before, released));
        assert(calls.take(2) =~= calls_between(before, placed));
        assert(calls.skip(4) =~= calls_between(released, supervisor_externals.calls()));
        assert(calls[2] == calls.take(4)[2] && calls[3] == calls.take(4)[3]);
    }
    outcome
}

} // verus!
