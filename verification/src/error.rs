//! Failures of sandbox operations.

use vstd::prelude::*;
use wasmi::Error as WasmiError;

verus! {

#[verifier::external_type_specification]
#[verifier::external_body]
pub struct ExWasmiError(WasmiError);

#[verifier::external_type_specification]
#[verifier::external_body]
pub struct ExFormatter<'a>(core::fmt::Formatter<'a>);

#[verifier::external_type_specification]
#[verifier::external_body]
pub struct ExFmtError(core::fmt::Error);

/// Failure of an operation on the sandbox store or of a supervisor function.
#[derive(Debug)]
pub enum Error {
    /// The interpreter refused.
    Wasmi(WasmiError),
    /// A memory could not be provided.
    InvalidMemoryReference,
    /// Any other failure, described in words.
    Other(String),
}

/// Error occurred during instantiation of a sandboxed module.
#[derive(Copy, Clone, Debug, PartialEq, Eq, Structural)]
pub enum InstantiationError {
    /// Something is wrong with the environment definition. It either can't be decoded or has a
    /// reference to a non-existent or torn down memory instance.
    EnvironmentDefinitionCorrupted,
    /// Provided module isn't recognized as a valid webassembly binary.
    ModuleDecoding,
    /// Module is a well-formed webassembly binary but could not be instantiated. This could
    /// happen because, e.g. the module imports entries not provided by the environment.
    Instantiation,
    /// Module is well-formed, instantiated and linked, but while executing the start function
    /// a trap was generated.
    StartTrapped,
}

/// Failure of a call of an exported guest function.
#[derive(Debug)]
pub enum InvokeError {
    /// The interpreter reported this.
    Wasmi(WasmiError),
    /// The function could not be called or did not return a value, for the reason given.
    Function(String),
}

/// The text that describes an error of the interpreter: what `wasmi::Error` displays as.
pub uninterp spec fn wasmi_error_text(error: WasmiError) -> Seq<char>;

/// Calls the `Display` implementation of `wasmi::Error`.
///
/// The text is a function of the error.
#[verifier::external_body]
fn describe_wasmi_error(error: &WasmiError) -> (r: String)
    ensures
        r@ == wasmi_error_text(*error),
{
    error.to_string()
}

/// Calls `Formatter::write_str`. What the formatter does with the text is not stated.
#[verifier::external_body]
fn write_text(f: &mut core::fmt::Formatter<'_>, text: &str) -> Result<(), core::fmt::Error> {
    f.write_str(text)
}

impl Error {
    /// The words that describe this failure.
    pub open spec fn text(self) -> Seq<char> {
        match self {
            Error::Wasmi(error) => wasmi_error_text(error),
            Error::InvalidMemoryReference => "Invalid memory reference"@,
            Error::Other(text) => text@,
        }
    }

    /// Describes this failure in words.
    pub fn message(&self) -> (r: String)
        ensures
            r@ == self.text(),
    {
        match self {
            Error::Wasmi(error) => describe_wasmi_error(error),
            Error::InvalidMemoryReference => "Invalid memory reference".to_owned(),
            Error::Other(text) => text.clone(),
        }
    }
}

impl core::fmt::Display for Error {
    fn fmt(&self, f: &mut core::fmt::Formatter<'_>) -> Result<(), core::fmt::Error> {
        let text = self.message();
        write_text(f, text.as_str())
    }
}

impl wasmi::HostError for Error {

}

} // verus!
