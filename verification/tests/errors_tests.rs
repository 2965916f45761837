use bpmn_engine::errors::{BPMNParseError, EnumParseError, Utf8ConversionError};
use bpmn_engine::process::ProcessError;

#[test]
fn test_enum_parse_error_conversion() {
    let enum_error = EnumParseError {
        message: "VariantNotFound".to_string(),
    };
    assert_eq!(enum_error.message, "VariantNotFound");

    let bpmn_error: BPMNParseError = enum_error.into();
    match bpmn_error {
        BPMNParseError::EnumParseError(e) => {
            assert_eq!(e.message, "VariantNotFound")
        }
        _ => panic!("Expected EnumParseError"),
    }
}

#[test]
fn test_utf8_conversion_error_from_utf8() {
    let utf8_error = String::from_utf8(vec![0, 159, 146, 150]).unwrap_err();
    let bpmn_error: BPMNParseError = utf8_error.into();
    match bpmn_error {
        BPMNParseError::Utf8ConversionError(Utf8ConversionError::FromUtf8(_)) => (),
        _ => panic!("Expected Utf8ConversionError::FromUtf8"),
    }
}

#[test]
fn test_utf8_conversion_error_utf8() {
    let utf8_error = std::str::from_utf8(&vec![0, 159, 146, 150]).unwrap_err();
    let bpmn_error: BPMNParseError = utf8_error.into();
    match bpmn_error {
        BPMNParseError::Utf8ConversionError(Utf8ConversionError::Utf8(_)) => (),
        _ => panic!("Expected Utf8ConversionError::Utf8"),
    }
}

#[test]
fn test_process_error_conversion() {
    let process_error = ProcessError::SequenceFlowNotFound("test process error".to_string());
    let bpmn_error: BPMNParseError = process_error.into();
    match bpmn_error {
        BPMNParseError::ProcessError(_) => (),
        _ => panic!("Expected ProcessError"),
    }
}

#[test]
fn test_display_enum_parse_error() {
    let error = EnumParseError {
        message: "test error".to_string(),
    };
    assert_eq!(error.message(), "Enum parse error: test error");
}

#[test]
fn test_display_utf8_conversion_error() {
    let from_utf8_error =
        Utf8ConversionError::FromUtf8(String::from_utf8(vec![0, 159, 146, 150]).unwrap_err());
    assert_eq!(
        from_utf8_error.message(),
        "UTF-8 conversion error: invalid utf-8 sequence of 1 bytes from index 1"
    );

    let utf8_error =
        Utf8ConversionError::Utf8(std::str::from_utf8(&vec![0, 159, 146, 150]).unwrap_err());
    assert_eq!(
        utf8_error.message(),
        "UTF-8 error: invalid utf-8 sequence of 1 bytes from index 1"
    );
}

#[test]
fn test_display_bpmn_parse_error() {
    let enum_error = BPMNParseError::EnumParseError(EnumParseError {
        message: "enum error".to_string(),
    });
    assert_eq!(enum_error.message(), "Enum parse error: enum error");

    let process_error = BPMNParseError::ProcessError(ProcessError::FlowObjectAlreadyExists(
        "process error".to_string(),
    ));
    assert_eq!(process_error.message(), "Process error: FlowObjectAlreadyExists");

    let unsupported_element = BPMNParseError::UnsupportedElement("unsupported".to_string());
    assert_eq!(unsupported_element.message(), "Unsupported node: unsupported");

    let utf8_conversion_error = BPMNParseError::Utf8ConversionError(
        Utf8ConversionError::FromUtf8(String::from_utf8(vec![0, 159, 146, 150]).unwrap_err()),
    );
    assert_eq!(
        utf8_conversion_error.message(),
        "UTF-8 conversion error: UTF-8 conversion error: invalid utf-8 sequence of 1 bytes from index 1"
    );

    let xml_parse_error = BPMNParseError::XmlParseError("xml parse error".to_string());
    assert_eq!(xml_parse_error.message(), "XML parsing error: xml parse error");

    let xml_content_error = BPMNParseError::XmlContentError("xml content error".to_string());
    assert_eq!(xml_content_error.message(), "XML content error: xml content error");
}
