use rswinthings::errors::{decimal_string, ErrorType, WinThingError};

#[test]
fn decimal_rendering_is_exact() {
    assert_eq!(decimal_string(0), "0");
    assert_eq!(decimal_string(7), "7");
    assert_eq!(decimal_string(10), "10");
    assert_eq!(decimal_string(12345), "12345");
    assert_eq!(decimal_string(u64::MAX), "18446744073709551615");
}

#[test]
fn constructors_carry_message_and_kind() {
    let e = WinThingError::cli_error("bad flag".to_string());
    assert_eq!(e.kind, ErrorType::CliError);
    assert_eq!(e.message, "bad flag");
    let e = WinThingError::unhandled_variant("variant".to_string());
    assert_eq!(e.kind, ErrorType::UnhandledVariant);
    let e = WinThingError::utf16_error("utf16".to_string());
    assert_eq!(e.kind, ErrorType::Utf16Error);
    let e = WinThingError::winapi_error("api".to_string());
    assert_eq!(e.kind, ErrorType::WinApiError);
    let e = WinThingError::xml_error("xml".to_string());
    assert_eq!(e.kind, ErrorType::XmlError);
    let e = WinThingError::unhandled("logic".to_string());
    assert_eq!(e.kind, ErrorType::UnhandledLogic);
}

#[test]
fn windows_error_code_is_named_in_the_message() {
    let e = WinThingError::from_windows_error_code(5);
    assert_eq!(e.kind, ErrorType::WindowsError);
    assert_eq!(e.message, "Windows error code: 5");
}

#[test]
fn os_error_keeps_the_sign_of_the_code() {
    let e = WinThingError::os_error(2);
    assert_eq!(e.kind, ErrorType::OsError);
    assert_eq!(e.message, "OS error code: 2");
    let e = WinThingError::os_error(-11);
    assert_eq!(e.message, "OS error code: -11");
}

#[test]
fn invalid_journal_data_names_the_size() {
    let e = WinThingError::invalid_usn_journal_data(64);
    assert_eq!(e.kind, ErrorType::InvalidUsnJournalData);
    assert_eq!(e.message, "Unknown size for UsnJournalData structure: 64");
}
