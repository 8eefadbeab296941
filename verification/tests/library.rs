//! Parts of the library that need no engine.

use sandbox::dispatch::{
    deserialize_result, interpret_result, numbers, unpack, word_size, DispatchError,
};
use sandbox::error::{Error, InstantiationError, InvokeError};
use sandbox::guest::{answer_interpreter, compiled_message, runtime_values};
use sandbox::host::{
    fit_outcome, interpret_global, interpret_reply, report, EngineFailure,
};
use sandbox::instance::interpret_wasmi_reply;
use sandbox::mapping::{GuestFuncIndex, GuestToSupervisorFunctionMapping, SupervisorFuncIndex};
use sandbox::names::{same_bytes, NameTable};
use sandbox::value::{EngineValue, HostError, ReturnValue, Value};
use parity_scale_codec::Encode;

fn text(error: DispatchError) -> String {
    error.message()
}

#[test]
fn guest_indices_are_handed_out_in_order() {
    let mut mapping = GuestToSupervisorFunctionMapping::new();
    assert_eq!(mapping.func_by_guest_index(GuestFuncIndex(0)), None);
    assert_eq!(mapping.define(SupervisorFuncIndex(7)), GuestFuncIndex(0));
    assert_eq!(mapping.define(SupervisorFuncIndex(7)), GuestFuncIndex(1));
    assert_eq!(mapping.define(SupervisorFuncIndex(9)), GuestFuncIndex(2));
    assert_eq!(mapping.func_by_guest_index(GuestFuncIndex(0)), Some(SupervisorFuncIndex(7)));
    assert_eq!(mapping.func_by_guest_index(GuestFuncIndex(1)), Some(SupervisorFuncIndex(7)));
    assert_eq!(mapping.func_by_guest_index(GuestFuncIndex(2)), Some(SupervisorFuncIndex(9)));
    assert_eq!(mapping.func_by_guest_index(GuestFuncIndex(3)), None);
}

#[test]
fn supervisor_index_is_a_number() {
    assert_eq!(usize::from(SupervisorFuncIndex(42)), 42);
}

#[test]
fn later_entry_replaces_earlier_one() {
    let mut table: NameTable<u32> = NameTable::new();
    assert!(table.get(b"env", b"f").is_none());
    table.insert(b"env".to_vec(), b"f".to_vec(), 1);
    table.insert(b"env".to_vec(), b"g".to_vec(), 2);
    table.insert(b"en".to_vec(), b"vf".to_vec(), 3);
    table.insert(b"env".to_vec(), b"f".to_vec(), 4);
    assert_eq!(table.get(b"env", b"f"), Some(&4));
    assert_eq!(table.get(b"env", b"g"), Some(&2));
    assert_eq!(table.get(b"en", b"vf"), Some(&3));
    assert!(table.get(b"e", b"nvf").is_none());
    assert_eq!(table.entries.len(), 3);
}

#[test]
fn byte_strings_are_compared_whole() {
    assert!(same_bytes(b"", b""));
    assert!(same_bytes(b"abc", b"abc"));
    assert!(!same_bytes(b"abc", b"abd"));
    assert!(!same_bytes(b"abc", b"ab"));
}

#[test]
fn lengths_keep_their_low_bits() {
    assert_eq!(word_size(0), 0);
    assert_eq!(word_size(5), 5);
    assert_eq!(word_size(0xffff_ffff), 0xffff_ffff);
    assert_eq!(word_size(0x1_0000_0003), 3);
}

#[test]
fn packed_results_are_split_in_the_middle() {
    assert_eq!(unpack(0), (0, 0));
    assert_eq!(unpack(0x0000_0012_0000_0034), (0x12, 0x34));
    assert_eq!(unpack(-1), (0xffff_ffff, 0xffff_ffff));
    assert_eq!(unpack(i64::MIN), (0x8000_0000, 0));
    assert_eq!(unpack(i64::MIN + 3), (0x8000_0000, 3));
    assert_eq!(unpack(0xffff_ffff), (0, 0xffff_ffff));
}

#[test]
fn decoded_results_are_interpreted() {
    assert!(matches!(interpret_result(None), Err(DispatchError::DecodeResult)));
    assert!(matches!(interpret_result(Some(Err(HostError))), Err(DispatchError::Supervisor)));
    assert!(matches!(interpret_result(Some(Ok(ReturnValue::Unit))), Ok(None)));
    assert!(matches!(
        interpret_result(Some(Ok(ReturnValue::Value(Value::I64(-9))))),
        Ok(Some(Value::I64(-9)))
    ));
}

fn serialized(
    result: Result<sp_wasm_interface::ReturnValue, sp_core::sandbox::HostError>,
) -> Vec<u8> {
    result.encode()
}

#[test]
fn serialized_results_are_read() {
    let number = |value: sp_wasm_interface::Value| {
        deserialize_result(&serialized(Ok(sp_wasm_interface::ReturnValue::Value(value))))
    };
    assert!(matches!(
        deserialize_result(&serialized(Ok(sp_wasm_interface::ReturnValue::Unit))),
        Ok(None)
    ));
    assert!(matches!(number(sp_wasm_interface::Value::I32(-5)), Ok(Some(Value::I32(-5)))));
    assert!(matches!(
        number(sp_wasm_interface::Value::I64(1 << 40)),
        Ok(Some(Value::I64(0x100_0000_0000)))
    ));
    assert!(matches!(
        number(sp_wasm_interface::Value::F32(0x7fc0_0001)),
        Ok(Some(Value::F32(0x7fc0_0001)))
    ));
    assert!(matches!(
        number(sp_wasm_interface::Value::F64(0x7ff8_0000_0000_0001)),
        Ok(Some(Value::F64(0x7ff8_0000_0000_0001)))
    ));
    assert!(matches!(
        deserialize_result(&serialized(Err(sp_core::sandbox::HostError))),
        Err(DispatchError::Supervisor)
    ));
    assert!(matches!(deserialize_result(&[]), Err(DispatchError::DecodeResult)));
    assert!(matches!(deserialize_result(&[9, 9]), Err(DispatchError::DecodeResult)));
}

#[test]
fn only_numbers_cross_the_boundary() {
    let args = [EngineValue::Number(Value::I32(1)), EngineValue::Number(Value::F64(2))];
    assert_eq!(numbers(&args), Some(vec![Value::I32(1), Value::F64(2)]));
    assert_eq!(numbers(&[]), Some(vec![]));
    assert_eq!(numbers(&[EngineValue::Number(Value::I32(1)), EngineValue::Other]), None);
    assert_eq!(EngineValue::Other.as_number(), None);
    assert_eq!(EngineValue::Number(Value::I32(3)).as_number(), Some(Value::I32(3)));
}

#[test]
fn failures_have_their_texts() {
    assert_eq!(
        text(DispatchError::AllocateArguments),
        "Can't allocate memory in supervisor for the arguments"
    );
    assert_eq!(text(DispatchError::WriteArguments), "Can't write invoke args into memory");
    assert_eq!(
        text(DispatchError::DeallocateAfterWrite),
        "Failed dealloction after failed write of invoke arguments"
    );
    assert_eq!(
        text(DispatchError::DeallocateArguments),
        "Can't deallocate memory for dispatch thunk's invoke arguments"
    );
    assert_eq!(
        text(DispatchError::ReadResult),
        "Can't read the serialized result from dispatch thunk"
    );
    assert_eq!(
        text(DispatchError::DeallocateResult),
        "Can't deallocate memory for dispatch thunk's result"
    );
    assert_eq!(
        text(DispatchError::DecodeResult),
        "Decoding Result<ReturnValue, HostError> failed!"
    );
    assert_eq!(
        text(DispatchError::Supervisor),
        "Supervisor function returned sandbox::HostError"
    );
    assert_eq!(text(DispatchError::UnknownFunction), "missing guest to host mapping");
    assert_eq!(text(DispatchError::UnsupportedArgument), "not implemented");
    assert_eq!(
        text(DispatchError::UnexpectedResult),
        "Unexpected result of a supervisor function"
    );
    assert_eq!(text(DispatchError::Invoke(Error::Other("boom".to_string()))), "boom");
}

#[test]
fn errors_display_their_messages() {
    let error = Error::Other("something".to_string());
    assert_eq!(error.message(), "something");
    assert_eq!(error.to_string(), "something");
    assert_eq!(Error::InvalidMemoryReference.to_string(), "Invalid memory reference");
    let error = Error::Wasmi(wasmi::Error::Memory("too large".to_string()));
    assert_eq!(error.to_string(), "Memory: too large");
}

#[test]
fn compiled_guests_see_traps_of_bad_results() {
    assert_eq!(
        compiled_message(&DispatchError::DecodeResult),
        "Trap: Host(Other(\"Decoding Result<ReturnValue, HostError> failed!\"))"
    );
    assert_eq!(
        compiled_message(&DispatchError::Supervisor),
        "Trap: Host(Other(\"Supervisor function returned sandbox::HostError\"))"
    );
    assert_eq!(
        compiled_message(&DispatchError::ReadResult),
        "Can't read the serialized result from dispatch thunk"
    );
    assert_eq!(
        compiled_message(&DispatchError::Invoke(Error::Other("boom".to_string()))),
        "boom"
    );
}

#[test]
fn interpreter_is_told_the_outcome() {
    assert!(matches!(answer_interpreter(Ok(None)), Ok(None)));
    assert!(matches!(
        answer_interpreter(Ok(Some(Value::I64(-2)))),
        Ok(Some(wasmi::RuntimeValue::I64(-2)))
    ));
    let trap = answer_interpreter(Err(DispatchError::ReadResult)).unwrap_err();
    assert_eq!(
        trap.to_string(),
        "Trap: Host(Other(\"Can't read the serialized result from dispatch thunk\"))"
    );
    let trap = answer_interpreter(Err(DispatchError::Invoke(Error::InvalidMemoryReference)))
        .unwrap_err();
    assert_eq!(trap.to_string(), "Trap: Host(InvalidMemoryReference)");
}

#[test]
fn numbers_become_values_of_the_interpreter() {
    let values = runtime_values(&[
        Value::I32(-1),
        Value::I64(2),
        Value::F32(0x7fc0_0001),
        Value::F64(0x4004_0000_0000_0000),
    ]);
    assert_eq!(values.len(), 4);
    assert_eq!(values[0], wasmi::RuntimeValue::I32(-1));
    assert_eq!(values[1], wasmi::RuntimeValue::I64(2));
    assert!(matches!(values[2], wasmi::RuntimeValue::F32(v) if v.to_bits() == 0x7fc0_0001));
    assert_eq!(values[3], wasmi::RuntimeValue::F64(2.5.into()));
}

#[test]
fn replies_of_compiled_engines_are_interpreted() {
    assert!(matches!(interpret_reply(Ok(vec![])), Ok(None)));
    assert!(matches!(
        interpret_reply(Ok(vec![EngineValue::Number(Value::F32(7))])),
        Ok(Some(Value::F32(7)))
    ));
    let two = vec![EngineValue::Number(Value::I32(1)), EngineValue::Number(Value::I32(2))];
    assert!(matches!(
        interpret_reply(Ok(two)),
        Err(InvokeError::Function(text)) if text == "multiple return types are not supported yet"
    ));
    assert!(matches!(
        interpret_reply(Ok(vec![EngineValue::Other])),
        Err(InvokeError::Function(text)) if text == "internal error: entered unreachable code"
    ));
    assert!(matches!(
        interpret_reply(Err("wasm trap".to_string())),
        Err(InvokeError::Function(text)) if text == "wasm trap"
    ));
}

#[test]
fn replies_of_the_interpreter_are_interpreted() {
    assert!(matches!(interpret_wasmi_reply(Ok(None)), Ok(None)));
    assert!(matches!(interpret_wasmi_reply(Ok(Some(Value::I32(3)))), Ok(Some(Value::I32(3)))));
    assert!(matches!(
        interpret_wasmi_reply(Err(wasmi::Error::Function("no".to_string()))),
        Err(InvokeError::Wasmi(wasmi::Error::Function(text))) if text == "no"
    ));
}

#[test]
fn only_globals_that_are_numbers_are_reported() {
    assert_eq!(interpret_global(None), None);
    assert_eq!(interpret_global(Some(EngineValue::Other)), None);
    assert_eq!(interpret_global(Some(EngineValue::Number(Value::I64(8)))), Some(Value::I64(8)));
}

#[test]
fn unexpected_results_are_failures() {
    assert!(matches!(fit_outcome(Ok(None), 0), Ok(None)));
    assert!(matches!(fit_outcome(Ok(None), 1), Ok(None)));
    assert!(matches!(fit_outcome(Ok(Some(Value::I32(1))), 1), Ok(Some(Value::I32(1)))));
    assert!(matches!(
        fit_outcome(Ok(Some(Value::I32(1))), 0),
        Err(DispatchError::UnexpectedResult)
    ));
    assert!(matches!(
        fit_outcome(Err(DispatchError::Supervisor), 0),
        Err(DispatchError::Supervisor)
    ));
}

#[test]
fn failures_of_engines_are_reported() {
    assert_eq!(report(Ok::<u32, EngineFailure>(5)), Ok(5));
    assert_eq!(
        report(Err::<u32, _>(EngineFailure::Link)),
        Err(InstantiationError::Instantiation)
    );
    assert_eq!(
        report(Err::<u32, _>(EngineFailure::Start)),
        Err(InstantiationError::StartTrapped)
    );
    assert_eq!(
        report(Err::<u32, _>(EngineFailure::HostEnvironment)),
        Err(InstantiationError::Instantiation)
    );
}
