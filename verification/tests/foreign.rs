use lorecore::errors::LoreCoreError;
use lorecore::foreign::{
    char_pointer_to_optional_string, char_pointer_to_string, optional_string_to_char_pointer,
    string_to_char_pointer, ForeignText,
};

#[test]
fn test_char_pointer_to_string() {
    let string = "Eyjafjallajökull!";
    let char_pointer = string_to_char_pointer(string).unwrap();
    let result = char_pointer_to_string(&char_pointer);
    assert_eq!(result.unwrap(), string);
}

#[test]
fn test_null_pointer_to_string_error() {
    let null_pointer = ForeignText::Null;
    let result = char_pointer_to_string(&null_pointer);
    assert!(
        result.is_err(),
        "Expected an error when converting a null pointer to a string"
    );
}

#[test]
fn test_null_pointer_to_string() {
    let char_pointer = ForeignText::Null;
    let result = char_pointer_to_string(&char_pointer);
    assert!(result.is_err());
}

#[test]
fn test_empty_string_to_char_pointer() {
    let string = "";
    let char_pointer = string_to_char_pointer(string).unwrap();
    let result = char_pointer_to_string(&char_pointer);
    assert_eq!(result.unwrap(), string);
}

#[test]
fn test_char_pointer_to_optional_string() {
    let string = "Eyjafjallajökull!";
    let char_pointer = string_to_char_pointer(string).unwrap();
    let result = char_pointer_to_optional_string(&char_pointer);
    assert_eq!(result.unwrap(), Some(string.to_string()));
}

#[test]
fn test_null_pointer_to_optional_string() {
    let char_pointer = ForeignText::Null;
    let result = char_pointer_to_optional_string(&char_pointer);
    assert!(result.is_err());
}

#[test]
fn test_string_to_char_pointer() {
    let string = "Eyjafjallajökull!";
    let char_pointer = string_to_char_pointer(string).unwrap();
    let result = char_pointer_to_string(&char_pointer);
    assert_eq!(result.unwrap(), string);
}

#[test]
fn test_optional_string_to_char_pointer() {
    let string_opt = Some("Eyjafjallajökull!".to_string());
    let char_pointer = optional_string_to_char_pointer(&string_opt).unwrap();
    let result = char_pointer_to_optional_string(&char_pointer);
    assert_eq!(result.unwrap(), string_opt);
}

#[test]
fn test_empty_optional_string_to_char_pointer() {
    let string_opt = Some("".to_string());
    let char_pointer = optional_string_to_char_pointer(&string_opt).unwrap();
    let result = char_pointer_to_optional_string(&char_pointer);
    assert_eq!(result.unwrap(), None);
}

#[test]
fn test_none_optional_string_to_char_pointer() {
    let string_opt = None;
    let char_pointer = optional_string_to_char_pointer(&string_opt).unwrap();
    let result = char_pointer_to_optional_string(&char_pointer);
    assert_eq!(result.unwrap(), None);
}

#[test]
fn test_invalid_encoding_rejected() {
    let bad = ForeignText::Invalid;
    let result = char_pointer_to_string(&bad);
    assert!(matches!(result, Err(LoreCoreError::InputError(_))));
}

#[test]
fn test_null_pointer_error_kind() {
    let result = char_pointer_to_string(&ForeignText::Null);
    assert!(matches!(result, Err(LoreCoreError::InputError(_))));
}

#[test]
fn test_embedded_terminator_rejected() {
    let result = string_to_char_pointer("broken\0text");
    assert!(matches!(result, Err(LoreCoreError::EncodingError(_))));
}

#[test]
fn test_optional_embedded_terminator_rejected() {
    let string_opt = Some("broken\0text".to_string());
    let result = optional_string_to_char_pointer(&string_opt);
    assert!(matches!(result, Err(LoreCoreError::EncodingError(_))));
}

#[test]
fn test_error_message_retrievable() {
    let error = LoreCoreError::SqlError("writing to the storage layer failed".to_string());
    assert_eq!(error.message(), "writing to the storage layer failed");
}
