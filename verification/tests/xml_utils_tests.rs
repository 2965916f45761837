use bpmn_engine::errors::BPMNParseError;
use bpmn_engine::xml_parser::{extract_attribute, extract_bool_attribute,
    extract_optional_attribute, extract_optional_bool_attribute};

fn element_attributes() -> Vec<(String, String)> {
    vec![
        ("attribute1".to_string(), "value1".to_string()),
        ("attribute2".to_string(), "true".to_string()),
        ("attribute3".to_string(), "42".to_string()),
    ]
}

#[test]
fn test_extract_attribute() {
    let attrs = element_attributes();

    let value = extract_attribute(&attrs, "attribute1").unwrap();
    assert_eq!(value, "value1");

    let result = extract_attribute(&attrs, "nonExistentAttr");
    assert!(result.is_err());
}

#[test]
fn test_extract_attribute_error_message() {
    let attrs = element_attributes();
    match extract_attribute(&attrs, "missing") {
        Err(BPMNParseError::XmlParseError(m)) => {
            assert_eq!(m, "Attribute missing not found");
        }
        _ => panic!("Expected XmlParseError"),
    }
}

#[test]
fn test_extract_optional_attribute() {
    let attrs = element_attributes();

    let value = extract_optional_attribute(&attrs, "attribute1").unwrap();
    assert_eq!(value, Some("value1".to_string()));

    let missing_value = extract_optional_attribute(&attrs, "nonExistentAttr").unwrap();
    assert_eq!(missing_value, None);
}

#[test]
fn test_extract_bool_attribute() {
    let attrs = element_attributes();

    let value = extract_bool_attribute(&attrs, "attribute2").unwrap();
    assert!(value);

    let element_invalid_bool = vec![("attribute".to_string(), "not_a_bool".to_string())];
    let result = extract_bool_attribute(&element_invalid_bool, "attribute");
    assert!(result.is_err());
}

#[test]
fn test_extract_optional_bool_attribute() {
    let attrs = element_attributes();

    let value = extract_optional_bool_attribute(&attrs, "attribute2").unwrap();
    assert_eq!(value, Some(true));

    let missing_value = extract_optional_bool_attribute(&attrs, "nonExistentAttr").unwrap();
    assert_eq!(missing_value, None);

    let element_invalid_bool = vec![("attribute".to_string(), "not_a_bool".to_string())];
    let invalid_value = extract_optional_bool_attribute(&element_invalid_bool, "attribute").unwrap();
    assert_eq!(invalid_value, None);
}

#[test]
fn test_extract_bool_attribute_ignores_ascii_case() {
    let attrs = vec![
        ("flag1".to_string(), "TRUE".to_string()),
        ("flag2".to_string(), "False".to_string()),
    ];
    assert_eq!(extract_bool_attribute(&attrs, "flag1").unwrap(), true);
    assert_eq!(extract_bool_attribute(&attrs, "flag2").unwrap(), false);
}
