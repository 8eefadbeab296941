//! Serialized forms in which a supervisor and the sandbox exchange data.
//!
//! All of them are SCALE encodings. The outside codec produces and reads the bytes; what it
//! makes of given bytes is referred to by name.

use crate::value::{HostError, ReturnValue, Value};
use sp_wasm_interface::ReturnValue as InterfaceReturnValue;
use sp_wasm_interface::Value as InterfaceValue;
use vstd::prelude::*;

verus! {

/// What an entry of an environment definition stands for.
#[derive(Copy, Clone, Debug, PartialEq, Eq, Structural)]
pub enum ExternEntity {
    /// Function that is specified by an index in a default table of a module that creates the
    /// sandbox.
    Function(u32),
    /// Linear memory that is specified by the index under which the sandbox store holds it.
    Memory(u32),
}

/// An entry in an environment definition.
///
/// Each entry has a two-level name and a description of the entity being defined.
pub struct Entry {
    /// Module name of which the corresponding entity is being defined.
    pub module_name: Vec<u8>,
    /// Field name in which the corresponding entity is being defined.
    pub field_name: Vec<u8>,
    /// External entity being defined.
    pub entity: ExternEntity,
}

/// An entry in an environment definition, with its names as sequences.
pub struct EntryView {
    pub module_name: Seq<u8>,
    pub field_name: Seq<u8>,
    pub entity: ExternEntity,
}

impl View for Entry {
    type V = EntryView;

    open spec fn view(&self) -> EntryView {
        EntryView {
            module_name: self.module_name@,
            field_name: self.field_name@,
            entity: self.entity,
        }
    }
}

/// The entries of a list, with their names as sequences.
pub open spec fn entry_views(entries: Seq<Entry>) -> Seq<EntryView> {
    entries.map_values(|entry: Entry| entry@)
}

/// The entries that `raw_env_def` decodes to as an `EnvironmentDefinition`, or nothing if it
/// does not decode.
pub uninterp spec fn decoded_environment(raw_env_def: Seq<u8>) -> Option<Seq<EntryView>>;

/// What `serialized_result` decodes to as a `Result<ReturnValue, HostError>`, or nothing if it
/// does not decode.
pub uninterp spec fn decoded_result(serialized_result: Seq<u8>) -> Option<
    Result<ReturnValue, HostError>,
>;

/// The encoding of a list of values.
pub uninterp spec fn encoded_values(values: Seq<Value>) -> Seq<u8>;

/// Calls `EnvironmentDefinition::decode` of `sp_core::sandbox`, the `Decode` implementation that
/// `parity_scale_codec` derives.
///
/// Its outcome is a function of the bytes. The entries come out in the order in which the
/// definition lists them.
#[verifier::external_body]
pub(crate) fn decode_environment(raw_env_def: &[u8]) -> (r: Option<Vec<Entry>>)
    ensures
        match r {
            Some(entries) => decoded_environment(raw_env_def@) == Some(entry_views(entries@)),
            None => decoded_environment(raw_env_def@) is None,
        },
{
    let definition: Result<sp_core::sandbox::EnvironmentDefinition, parity_scale_codec::Error> =
        parity_scale_codec::Decode::decode(&mut &raw_env_def[..]);
    Some(definition.ok()?.entries.into_iter().map(|entry| Entry {
        module_name: entry.module_name,
        field_name: entry.field_name,
        entity: match entry.entity {
            sp_core::sandbox::ExternEntity::Function(index) => ExternEntity::Function(index),
            sp_core::sandbox::ExternEntity::Memory(index) => ExternEntity::Memory(index),
        },
    }).collect())
}

/// Calls `decode` on `Result<sp_wasm_interface::ReturnValue, sp_core::sandbox::HostError>`, whose
/// `Decode` implementations come from `parity_scale_codec`.
///
/// Its outcome is a function of the bytes.
#[verifier::external_body]
pub(crate) fn decode_result(serialized_result: &[u8]) -> (r: Option<
    Result<ReturnValue, HostError>,
>)
    ensures
        r == decoded_result(serialized_result@),
{
    let result: Result<Result<InterfaceReturnValue, sp_core::sandbox::HostError>, parity_scale_codec::Error> =
        parity_scale_codec::Decode::decode(&mut &serialized_result[..]);
    Some(match result.ok()? {
        Ok(InterfaceReturnValue::Unit) => Ok(ReturnValue::Unit),
        Ok(InterfaceReturnValue::Value(InterfaceValue::I32(v))) => Ok(ReturnValue::Value(Value::I32(v))),
        Ok(InterfaceReturnValue::Value(InterfaceValue::I64(v))) => Ok(ReturnValue::Value(Value::I64(v))),
        Ok(InterfaceReturnValue::Value(InterfaceValue::F32(v))) => Ok(ReturnValue::Value(Value::F32(v))),
        Ok(InterfaceReturnValue::Value(InterfaceValue::F64(v))) => Ok(ReturnValue::Value(Value::F64(v))),
        Err(sp_core::sandbox::HostError) => Err(HostError),
    })
}

/// Calls `encode` on a vector of `sp_wasm_interface::Value`, whose `Encode` implementation comes
/// from `parity_scale_codec`.
///
/// The bytes are a function of the values. The codec panics on a list of more than `u32::MAX`
/// values.
#[verifier::external_body]
pub(crate) fn encode_values(values: &[Value]) -> (r: Vec<u8>)
    requires
        values@.len() <= u32::MAX,
    ensures
        r@ == encoded_values(values@),
{
    let values: Vec<InterfaceValue> = values.iter().map(|value| match value {
        Value::I32(v) => InterfaceValue::I32(*v),
        Value::I64(v) => InterfaceValue::I64(*v),
        Value::F32(v) => InterfaceValue::F32(*v),
        Value::F64(v) => InterfaceValue::F64(*v),
    }).collect();
    parity_scale_codec::Encode::encode(&values)
}

} // verus!
