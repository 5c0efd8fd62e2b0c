use rox::diagnostics::{error, push_decimal, report, Diagnostic, DiagnosticKind};

#[test]
fn error_has_an_empty_location() {
    assert_eq!(
        error(3, String::from("Unexpected character")),
        "[line 3] Error : Unexpected character"
    );
    assert_eq!(error(1, String::new()), "[line 1] Error : ");
}

#[test]
fn report_names_line_location_and_message() {
    assert_eq!(
        report(12, String::from("at end"), String::from("Expect expression.")),
        "[line 12] Error at end: Expect expression."
    );
    assert_eq!(
        report(0, String::from("\u{e9}"), String::from("\u{4eac}")),
        "[line 0] Error \u{e9}: \u{4eac}"
    );
}

#[test]
fn line_numbers_are_written_in_decimal() {
    for n in [0u32, 1, 9, 10, 11, 99, 100, 101, 1234567890, 4294967295] {
        let mut s = String::from("n=");
        push_decimal(&mut s, n);
        assert_eq!(s, format!("n={}", n));
    }
    assert_eq!(error(4294967295, String::from("m")), "[line 4294967295] Error : m");
    assert_eq!(error(1000, String::from("m")), "[line 1000] Error : m");
}

#[test]
fn diagnostic_messages() {
    assert_eq!(DiagnosticKind::UnexpectedCharacter.message(), "Unexpected character");
    assert_eq!(DiagnosticKind::UnterminatedString.message(), "Unterminated string");
}

#[test]
fn diagnostic_renders_as_an_error_line() {
    let d = Diagnostic { kind: DiagnosticKind::UnexpectedCharacter, line: 42 };
    assert_eq!(d.to_string(), "[line 42] Error : Unexpected character");
    let d = Diagnostic { kind: DiagnosticKind::UnterminatedString, line: 1 };
    assert_eq!(d.to_string(), "[line 1] Error : Unterminated string");
}
