//! Properties of the calls by which guests are served.

use crate::capabilities::{Call, Pointer};
use crate::codec::{decoded_result, encoded_values};
use crate::dispatch::{
    fetch_run, guest_result, guest_run, numbers_of, unsigned, word_size_of, DispatchError, Request,
};
use crate::mapping::SupervisorFuncIndex;
use crate::value::{EngineValue, HostError, ReturnValue, Value};
use vstd::prelude::*;

verus! {

/// Whether the supervisor gave the same reply to two calls of the same capability.
///
/// Calls of different capabilities are not compared.
pub open spec fn same_reply<FR>(a: Call<FR>, b: Call<FR>) -> bool {
    match (a, b) {
        (
            Call::Allocate { size: _, buffer: x },
            Call::Allocate { size: _, buffer: y },
        ) => x == y,
        (
            Call::Deallocate { ptr: _, done: x },
            Call::Deallocate { ptr: _, done: y },
        ) => x == y,
        (
            Call::Write { ptr: _, data: _, done: x },
            Call::Write { ptr: _, data: _, done: y },
        ) => x == y,
        (
            Call::Read { ptr: _, size: _, bytes: x },
            Call::Read { ptr: _, size: _, bytes: y },
        ) => x == y,
        (
            Call::Invoke {
                dispatch_thunk: _,
                invoke_args_ptr: _,
                invoke_args_len: _,
                state: _,
                func_idx: _,
                reply: x,
            },
            Call::Invoke {
                dispatch_thunk: _,
                invoke_args_ptr: _,
                invoke_args_len: _,
                state: _,
                func_idx: _,
                reply: y,
            },
        ) => x == y,
        _ => true,
    }
}

/// Whether the supervisor gave the same replies in two runs, as far as both go.
pub open spec fn same_replies<FR>(a: Seq<Call<FR>>, b: Seq<Call<FR>>) -> bool {
    forall|i: int| 0 <= i < a.len() && i < b.len() ==> same_reply(#[trigger] a[i], #[trigger] b[i])
}

/// Whether the supervisor did what a call asked for.
pub open spec fn succeeded<FR>(call: Call<FR>) -> bool {
    match call {
        Call::Allocate { size: _, buffer } => buffer is Some,
        Call::Deallocate { ptr: _, done } => done,
        Call::Write { ptr: _, data: _, done } => done,
        Call::Read { ptr: _, size: _, bytes } => bytes is Some,
        Call::Invoke {
            dispatch_thunk: _,
            invoke_args_ptr: _,
            invoke_args_len: _,
            state: _,
            func_idx: _,
            reply,
        } => reply is Ok,
    }
}

/// The replies of the supervisor determine which calls a guest causes and what it gets in the end.
pub proof fn law_run_follows_replies<FR>(
    request: Request<FR>,
    calls: Seq<Call<FR>>,
    outcome: Result<Option<Value>, DispatchError>,
    other_calls: Seq<Call<FR>>,
    other_outcome: Result<Option<Value>, DispatchError>,
)
    requires
        guest_run(request, calls, outcome),
        guest_run(request, other_calls, other_outcome),
        same_replies(calls, other_calls),
    ensures
        calls == other_calls,
        outcome == other_outcome,
{
    assert(same_reply(calls[0], other_calls[0]));
    if calls.len() >= 2 && other_calls.len() >= 2 {
        assert(same_reply(calls[1], other_calls[1]));
    }
    if calls.len() >= 3 && other_calls.len() >= 3 {
        assert(same_reply(calls[2], other_calls[2]));
    }
    if calls.len() >= 4 && other_calls.len() >= 4 {
        assert(same_reply(calls[3], other_calls[3]));
    }
    if calls.len() > 4 {
        assert(calls.skip(4)[0] == calls[4] && calls.skip(4)[1] == calls[5]);
    }
    if other_calls.len() > 4 {
        assert(other_calls.skip(4)[0] == other_calls[4] && other_calls.skip(4)[1]
            == other_calls[5]);
    }
    if calls.len() > 4 && other_calls.len() > 4 {
        assert(same_reply(calls[4], other_calls[4]));
        assert(same_reply(calls[5], other_calls[5]));
    }
    assert(calls =~= other_calls);
}

/// Whenever a guest got a buffer for its arguments, that buffer is released: right
/// after a failed write, and otherwise right after the dispatch thunk was invoked.
pub proof fn law_argument_buffer_is_released<FR>(
    request: Request<FR>,
    calls: Seq<Call<FR>>,
    outcome: Result<Option<Value>, DispatchError>,
    buffer: Pointer,
)
    requires
        guest_run(request, calls, outcome),
        calls[0] matches Call::Allocate { size: _, buffer: given } && given == Some(buffer),
    ensures
        calls.len() >= 3,
        calls[1] matches Call::Write { ptr: _, data: _, done: written } && {
            let at: int = if written {
                3
            } else {
                2
            };
            &&& at < calls.len()
            &&& calls[at] matches Call::Deallocate { ptr, done: _ }
            &&& ptr == buffer
            &&& written ==> calls[2] is Invoke
        },
{
}

/// Whenever a dispatch thunk left a result behind and a guest went on to fetch it, the buffer of
/// the result is read and then released, and nothing else is done with it.
pub proof fn law_result_buffer_is_released<FR>(
    packed: i64,
    calls: Seq<Call<FR>>,
    outcome: Result<Option<Value>, DispatchError>,
)
    requires
        fetch_run(packed, calls, outcome),
    ensures
        calls.len() == 2,
        calls[0] matches Call::Read { ptr, size: _, bytes: _ } && calls[1] matches Call::Deallocate {
            ptr: released,
            done: _,
        } && ptr == released,
{
}

/// A guest gets a result only if every single call to the supervisor succeeded.
pub proof fn law_result_needs_every_call<FR>(
    request: Request<FR>,
    calls: Seq<Call<FR>>,
    outcome: Result<Option<Value>, DispatchError>,
    i: int,
)
    requires
        guest_run(request, calls, outcome),
        outcome is Ok,
        0 <= i < calls.len(),
    ensures
        succeeded(calls[i]),
{
    assert(calls.skip(4)[0] == calls[4] && calls.skip(4)[1] == calls[5]);
}

/// What a guest gets, once its result was read and released, is what the serialized result says.
pub proof fn law_guest_gets_the_serialized_result<FR>(
    request: Request<FR>,
    calls: Seq<Call<FR>>,
    outcome: Result<Option<Value>, DispatchError>,
    serialized_result: Seq<u8>,
)
    requires
        guest_run(request, calls, outcome),
        calls.len() >= 2,
        calls[calls.len() - 2] matches Call::Read { ptr: _, size: _, bytes } && bytes == Some(
            serialized_result,
        ),
        succeeded(calls.last()),
    ensures
        outcome == guest_result(decoded_result(serialized_result)),
        match decoded_result(serialized_result) {
            Some(Ok(ReturnValue::Unit)) => outcome == Ok::<_, DispatchError>(None::<Value>),
            Some(Ok(ReturnValue::Value(value))) => outcome == Ok::<_, DispatchError>(Some(value)),
            Some(Err(_)) => outcome == Err::<Option<Value>, _>(DispatchError::Supervisor),
            None => outcome == Err::<Option<Value>, _>(DispatchError::DecodeResult),
        },
{
    assert(calls.skip(4)[0] == calls[4] && calls.skip(4)[1] == calls[5]);
}

/// Whether every invocation among `calls` is one of the given supervisor function, through the
/// given thunk and with the given context, on the given arguments: they are written, in their
/// serialized form, right before and where the invocation is told to find them.
pub open spec fn hands_on<FR>(
    calls: Seq<Call<FR>>,
    dispatch_thunk: FR,
    func_idx: SupervisorFuncIndex,
    state: u32,
    values: Seq<Value>,
) -> bool {
    forall|i: int|
        0 <= i < calls.len() && (#[trigger] calls[i]) is Invoke ==> {
            &&& i >= 1
            &&& calls[i]->dispatch_thunk == dispatch_thunk
            &&& calls[i]->func_idx == func_idx
            &&& calls[i]->state == state
            &&& calls[i - 1] == Call::<FR>::Write {
                ptr: calls[i]->invoke_args_ptr,
                data: encoded_values(values),
                done: true,
            }
            &&& encoded_values(values).len() <= u32::MAX ==> calls[i]->invoke_args_len
                == encoded_values(values).len()
        }
}

/// Whether an invocation among `calls` left a result behind that was read and says `value`.
pub open spec fn hands_back<FR>(calls: Seq<Call<FR>>, value: Option<Value>) -> bool {
    exists|i: int, j: int|
        #![trigger calls[i], calls[j]]
        0 <= i < j < calls.len() && calls[i] is Invoke && (calls[i]->reply matches Ok(packed)
            && calls[j] matches Call::Read { ptr, size, bytes: Some(bytes) } && ptr * 0x1_0000_0000
            + size == unsigned(packed) && decoded_result(bytes) == Some(
            Ok::<_, HostError>(
                match value {
                    Some(value) => ReturnValue::Value(value),
                    None => ReturnValue::Unit,
                },
            ),
        ))
}

/// Whether an invocation among `calls` left a result behind that was read and says some value.
pub open spec fn hands_back_a_value<FR>(calls: Seq<Call<FR>>) -> bool {
    exists|value: Value| #[trigger] hands_back(calls, Some(value))
}

/// Whether the supervisor did not do what one of `calls` asked for, or returned something else than a
/// value or nothing.
pub open spec fn went_wrong<FR>(calls: Seq<Call<FR>>) -> bool {
    exists|i: int|
        0 <= i < calls.len() && (!succeeded(#[trigger] calls[i]) || (calls[i] matches Call::Read {
            ptr: _,
            size: _,
            bytes: Some(bytes),
        } && !(decoded_result(bytes) matches Some(Ok(_)))))
}

/// A call of a guest reaches the supervisor function that it is for, through the thunk, with the
/// context and on the arguments that it came with, and no other. A guest that gets a value gets
/// what this function returned, and it gets none only if something went wrong on the way.
pub proof fn law_calls_are_handed_on<FR>(
    dispatch_thunk: FR,
    func_idx: SupervisorFuncIndex,
    state: u32,
    values: Seq<Value>,
    calls: Seq<Call<FR>>,
    outcome: Result<Option<Value>, DispatchError>,
)
    requires
        guest_run(
            Request { dispatch_thunk, func_idx, args_data: encoded_values(values), state },
            calls,
            outcome,
        ),
    ensures
        hands_on(calls, dispatch_thunk, func_idx, state, values),
        outcome matches Ok(value) ==> hands_back(calls, value),
        outcome is Err <==> went_wrong(calls),
{
    if calls.len() >= 4 {
        assert(calls.take(2)[0] == calls[0] && calls.take(2)[1] == calls[1]);
    }
    if calls.len() > 4 {
        assert(calls.skip(4)[0] == calls[4] && calls.skip(4)[1] == calls[5]);
    }
    if let Ok(value) = outcome {
        assert(calls[2] is Invoke && calls[4] is Read);
    } else {
        assert(!succeeded(calls[0]) || !succeeded(calls[1]) || !succeeded(calls[2]) || !succeeded(
            calls[3],
        ) || !succeeded(calls[4]) || !succeeded(calls[5]) || calls[4] is Read);
    }
}

/// A call of a guest goes on as long as the supervisor does what it is asked for: it asks for a
/// buffer of the size of the serialized arguments, fills it, invokes the thunk, and reads the result
/// that this leaves behind.
pub proof fn law_calls_go_on<FR>(
    request: Request<FR>,
    calls: Seq<Call<FR>>,
    outcome: Result<Option<Value>, DispatchError>,
)
    requires
        guest_run(request, calls, outcome),
    ensures
        calls.len() >= 1 && calls[0] is Allocate,
        request.args_data.len() <= u32::MAX ==> calls[0]->Allocate_size == request.args_data.len(),
        succeeded(calls[0]) ==> calls.len() >= 2 && (calls[1] matches Call::Write {
            ptr,
            data,
            done: _,
        } && Some(ptr) == calls[0]->buffer && data == request.args_data),
        succeeded(calls[0]) && succeeded(calls[1]) ==> calls.len() >= 4 && calls[2] is Invoke,
        succeeded(calls[0]) && succeeded(calls[1]) && succeeded(calls[2]) && succeeded(calls[3])
            ==> calls.len() == 6 && calls[4] is Read && calls[5] is Deallocate,
{
    if calls.len() >= 4 {
        assert(calls.take(2)[0] == calls[0] && calls.take(2)[1] == calls[1]);
    }
    if calls.len() > 4 {
        assert(calls.skip(4)[0] == calls[4] && calls.skip(4)[1] == calls[5]);
    }
}

/// A guest is told which call to the supervisor failed. That a buffer could not be released counts
/// more than what happened before; the error of an invocation is handed on as it is.
pub proof fn law_failures_are_told<FR>(
    request: Request<FR>,
    calls: Seq<Call<FR>>,
    outcome: Result<Option<Value>, DispatchError>,
)
    requires
        guest_run(request, calls, outcome),
    ensures
        !succeeded(calls[0]) ==> outcome == Err::<Option<Value>, _>(
            DispatchError::AllocateArguments,
        ),
        succeeded(calls[0]) && !succeeded(calls[1]) ==> outcome == Err::<Option<Value>, _>(
            (if succeeded(calls[2]) {
                DispatchError::WriteArguments
            } else {
                DispatchError::DeallocateAfterWrite
            }),
        ),
        calls.len() >= 4 && !succeeded(calls[3]) ==> outcome == Err::<Option<Value>, _>(
            DispatchError::DeallocateArguments,
        ),
        calls.len() >= 4 && succeeded(calls[3]) ==> (calls[2]->reply matches Err(error) ==> outcome
            == Err::<Option<Value>, _>(DispatchError::Invoke(error))),
        calls.len() == 6 && !succeeded(calls[5]) ==> outcome == Err::<Option<Value>, _>(
            DispatchError::DeallocateResult,
        ),
        calls.len() == 6 && succeeded(calls[5]) && !succeeded(calls[4]) ==> outcome == Err::<
            Option<Value>,
            _,
        >(DispatchError::ReadResult),
{
    if calls.len() >= 4 {
        assert(calls.take(2)[0] == calls[0] && calls.take(2)[1] == calls[1]);
    }
    if calls.len() > 4 {
        assert(calls.skip(4)[0] == calls[4] && calls.skip(4)[1] == calls[5]);
    }
}

/// The words for a failure tell it from every other failure that has words of its own.
pub proof fn law_words_tell_failures_apart(a: DispatchError, b: DispatchError)
    requires
        !(a is Invoke),
        !(b is Invoke),
        a.text() == b.text(),
    ensures
        a == b,
{
    reveal_strlit("missing guest to host mapping");
    reveal_strlit("not implemented");
    reveal_strlit("Unexpected result of a supervisor function");
    reveal_strlit("Can't allocate memory in supervisor for the arguments");
    reveal_strlit("Can't write invoke args into memory");
    reveal_strlit("Failed dealloction after failed write of invoke arguments");
    reveal_strlit("Can't deallocate memory for dispatch thunk's invoke arguments");
    reveal_strlit("Can't read the serialized result from dispatch thunk");
    reveal_strlit("Can't deallocate memory for dispatch thunk's result");
    reveal_strlit("Decoding Result<ReturnValue, HostError> failed!");
    reveal_strlit("Supervisor function returned sandbox::HostError");
    assert("missing guest to host mapping"@.len() == 29);
    assert("not implemented"@.len() == 15);
    assert("Unexpected result of a supervisor function"@.len() == 42);
    assert("Can't allocate memory in supervisor for the arguments"@.len() == 53);
    assert("Can't write invoke args into memory"@.len() == 35);
    assert("Failed dealloction after failed write of invoke arguments"@.len() == 57);
    assert("Can't deallocate memory for dispatch thunk's invoke arguments"@.len() == 61);
    assert("Can't read the serialized result from dispatch thunk"@.len() == 52);
    assert("Can't deallocate memory for dispatch thunk's result"@.len() == 51);
    assert("Decoding Result<ReturnValue, HostError> failed!"@[0] == 'D');
    assert("Supervisor function returned sandbox::HostError"@[0] == 'S');
    assert("Decoding Result<ReturnValue, HostError> failed!"@.len() == 47);
    assert("Supervisor function returned sandbox::HostError"@.len() == 47);
}

/// The arguments of a call are numbers if each of them is one, and stay in their order.
pub proof fn law_numbers_are_the_arguments(args: Seq<EngineValue>, values: Seq<Value>)
    ensures
        numbers_of(args) == Some(values) <==> (values.len() == args.len() && forall|i: int|
            0 <= i < args.len() ==> (#[trigger] args[i]) == EngineValue::Number(values[i])),
{
    if values.len() == args.len() && forall|i: int|
        0 <= i < args.len() ==> (#[trigger] args[i]) == EngineValue::Number(values[i]) {
        assert(args.map_values(|arg: EngineValue| arg->Number_0) =~= values);
    }
    if numbers_of(args) == Some(values) {
        assert forall|i: int| 0 <= i < args.len() implies (#[trigger] args[i])
            == EngineValue::Number(values[i]) by {
            assert(args[i] is Number);
        }
    }
}

/// A wasm word keeps a length that fits, and does not tell lengths apart that differ by 2^32.
pub proof fn law_words_keep_lengths(len: nat)
    ensures
        len <= u32::MAX ==> word_size_of(len) == len,
        word_size_of(len + 0x1_0000_0000) == word_size_of(len),
{
    assert((len + 0x1_0000_0000) % 0x1_0000_0000 == len % 0x1_0000_0000);
}

} // verus!
