//! Error types raised while building a process model from parsed input.

use vstd::prelude::*;
use crate::process::ProcessError;

verus! {

/// Error raised when a string does not name any variant of an enumeration.
#[derive(Debug, PartialEq, Eq)]
pub struct EnumParseError {
    pub message: String,
}

impl EnumParseError {
    /// Renders the error as text.
    pub fn message(&self) -> (r: String)
        ensures
            r@ == "Enum parse error: "@ + self.message@,
    {
        String::from_str("Enum parse error: ").concat(self.message.as_str())
    }
}

/// Error raised when bytes are not valid UTF-8, either while converting an
/// owned buffer or while borrowing one.
#[derive(Debug)]
pub enum Utf8ConversionError {
    FromUtf8(std::string::FromUtf8Error),
    Utf8(std::str::Utf8Error),
}

#[verifier::external_type_specification]
#[verifier::external_body]
pub struct ExFromUtf8Error(std::string::FromUtf8Error);

#[verifier::external_type_specification]
#[verifier::external_body]
pub struct ExUtf8Error(std::str::Utf8Error);

/// Relies on the `Display` implementation of `std::string::FromUtf8Error`
/// for the diagnostic text.
#[verifier::external_body]
fn from_utf8_error_text(e: &std::string::FromUtf8Error) -> String {
    e.to_string()
}

/// Relies on the `Display` implementation of `std::str::Utf8Error` for the
/// diagnostic text.
#[verifier::external_body]
fn utf8_error_text(e: &std::str::Utf8Error) -> String {
    e.to_string()
}

impl Utf8ConversionError {
    /// Renders the error as text: the variant's prefix, then the
    /// diagnostic the trusted formatter hands over.
    pub fn message(&self) -> (r: String)
        ensures
            match *self {
                Utf8ConversionError::FromUtf8(_) => exists|rest: Seq<char>|
                    r@ == "UTF-8 conversion error: "@ + rest,
                Utf8ConversionError::Utf8(_) => exists|rest: Seq<char>|
                    r@ == "UTF-8 error: "@ + rest,
            },
    {
        match self {
            Utf8ConversionError::FromUtf8(e) => {
                let inner = from_utf8_error_text(e);
                let r = String::from_str("UTF-8 conversion error: ").concat(inner.as_str());
                proof {
                    assert(r@ == "UTF-8 conversion error: "@ + inner@);
                }
                r
            }
            Utf8ConversionError::Utf8(e) => {
                let inner = utf8_error_text(e);
                let r = String::from_str("UTF-8 error: ").concat(inner.as_str());
                proof {
                    assert(r@ == "UTF-8 error: "@ + inner@);
                }
                r
            }
        }
    }
}

/// The error raised while interpreting a process definition: a bad
/// enumeration value, a process-model fault, an element the model does not
/// support, bad byte content, or malformed surrounding input.
#[derive(Debug)]
pub enum BPMNParseError {
    EnumParseError(EnumParseError),
    ProcessError(ProcessError),
    UnsupportedElement(String),
    Utf8ConversionError(Utf8ConversionError),
    XmlParseError(String),
    XmlContentError(String),
}

impl From<EnumParseError> for BPMNParseError {
    fn from(error: EnumParseError) -> (r: Self) {
        BPMNParseError::EnumParseError(error)
    }
}

impl vstd::std_specs::convert::FromSpecImpl<EnumParseError> for BPMNParseError {
    open spec fn obeys_from_spec() -> bool {
        true
    }

    open spec fn from_spec(error: EnumParseError) -> Self {
        BPMNParseError::EnumParseError(error)
    }
}

impl From<ProcessError> for BPMNParseError {
    fn from(err: ProcessError) -> (r: Self) {
        BPMNParseError::ProcessError(err)
    }
}

impl vstd::std_specs::convert::FromSpecImpl<ProcessError> for BPMNParseError {
    open spec fn obeys_from_spec() -> bool {
        true
    }

    open spec fn from_spec(err: ProcessError) -> Self {
        BPMNParseError::ProcessError(err)
    }
}

impl From<std::string::FromUtf8Error> for BPMNParseError {
    fn from(error: std::string::FromUtf8Error) -> (r: Self) {
        BPMNParseError::Utf8ConversionError(Utf8ConversionError::FromUtf8(error))
    }
}

impl vstd::std_specs::convert::FromSpecImpl<std::string::FromUtf8Error> for BPMNParseError {
    open spec fn obeys_from_spec() -> bool {
        true
    }

    open spec fn from_spec(error: std::string::FromUtf8Error) -> Self {
        BPMNParseError::Utf8ConversionError(Utf8ConversionError::FromUtf8(error))
    }
}

impl From<std::str::Utf8Error> for BPMNParseError {
    fn from(error: std::str::Utf8Error) -> (r: Self) {
        BPMNParseError::Utf8ConversionError(Utf8ConversionError::Utf8(error))
    }
}

impl vstd::std_specs::convert::FromSpecImpl<std::str::Utf8Error> for BPMNParseError {
    open spec fn obeys_from_spec() -> bool {
        true
    }

    open spec fn from_spec(error: std::str::Utf8Error) -> Self {
        BPMNParseError::Utf8ConversionError(Utf8ConversionError::Utf8(error))
    }
}

impl BPMNParseError {
    /// Renders the error as text: each variant's prefix followed by its
    /// payload; only the text of a wrapped byte-content error is left to
    /// the trusted formatter.
    pub fn message(&self) -> (r: String)
        ensures
            match *self {
                BPMNParseError::EnumParseError(e) => r@ == "Enum parse error: "@ + e.message@,
                BPMNParseError::ProcessError(e) => r@ == "Process error: "@ + (match e {
                    ProcessError::FlowObjectAlreadyExists(_) => "FlowObjectAlreadyExists"@,
                    ProcessError::FlowObjectNotFound(_) => "FlowObjectNotFound"@,
                    ProcessError::SequenceFlowNotFound(_) => "SequenceFlowNotFound"@,
                }),
                BPMNParseError::UnsupportedElement(node) => r@ == "Unsupported node: "@ + node@,
                BPMNParseError::Utf8ConversionError(_) => exists|rest: Seq<char>|
                    r@ == "UTF-8 conversion error: "@ + rest,
                BPMNParseError::XmlParseError(e) => r@ == "XML parsing error: "@ + e@,
                BPMNParseError::XmlContentError(e) => r@ == "XML content error: "@ + e@,
            },
    {
        match self {
            BPMNParseError::EnumParseError(e) => String::from_str("Enum parse error: ").concat(
                e.message.as_str(),
            ),
            BPMNParseError::ProcessError(e) => String::from_str("Process error: ").concat(
                e.name(),
            ),
            BPMNParseError::UnsupportedElement(node) => String::from_str(
                "Unsupported node: ",
            ).concat(node.as_str()),
            BPMNParseError::Utf8ConversionError(e) => {
                let inner = e.message();
                let r = String::from_str("UTF-8 conversion error: ").concat(inner.as_str());
                proof {
                    assert(r@ == "UTF-8 conversion error: "@ + inner@);
                }
                r
            }
            BPMNParseError::XmlParseError(e) => String::from_str("XML parsing error: ").concat(
                e.as_str(),
            ),
            BPMNParseError::XmlContentError(e) => String::from_str("XML content error: ").concat(
                e.as_str(),
            ),
        }
    }
}

} // verus!
