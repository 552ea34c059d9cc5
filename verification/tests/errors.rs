use asm16::error::{AsmError, Diagnostic};

#[test]
fn exit_codes_of_the_conditions_that_have_one() {
    assert_eq!(AsmError::InvalidRegister.exit_code(), Some(2));
    assert_eq!(AsmError::InvalidInstruction.exit_code(), Some(0x1111));
    assert_eq!(AsmError::InvalidInstruction.exit_code(), Some(4369));
    assert_eq!(AsmError::MissingArgument.exit_code(), Some(256));
}

#[test]
fn the_other_conditions_have_no_exit_code_of_their_own() {
    assert_eq!(AsmError::UnresolvedLabel.exit_code(), None);
    assert_eq!(AsmError::MalformedImmediate.exit_code(), None);
    assert_eq!(AsmError::SourceFileUnreadable.exit_code(), None);
    assert_eq!(AsmError::ProgramTooLarge.exit_code(), None);
}

#[test]
fn messages_of_the_conditions() {
    assert_eq!(AsmError::MissingArgument.message(), "argument expected please give argument.");
    assert_eq!(AsmError::InvalidRegister.message(), "Invalid input");
    assert_eq!(AsmError::InvalidInstruction.message(), "Invalid instruction");
    assert_eq!(AsmError::SourceFileUnreadable.message(), "could not open file");
    assert_eq!(AsmError::UnresolvedLabel.message(), "unresolved label");
    assert_eq!(AsmError::MalformedImmediate.message(), "malformed immediate");
    assert_eq!(AsmError::ProgramTooLarge.message(), "program too large");
}

#[test]
fn diagnostics_compare_by_line_and_error() {
    let first = Diagnostic { line: 3, error: AsmError::InvalidRegister };
    assert_eq!(first, Diagnostic { line: 3, error: AsmError::InvalidRegister });
    assert_ne!(first, Diagnostic { line: 4, error: AsmError::InvalidRegister });
    assert_ne!(first, Diagnostic { line: 3, error: AsmError::InvalidInstruction });
}
