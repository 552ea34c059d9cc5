//! The ways in which an assembly run can fail.

use vstd::prelude::*;

verus! {

/// Every condition that ends an assembly run. None of them is recoverable.
#[derive(Clone, Copy, Debug, PartialEq, Eq, Structural)]
pub enum AsmError {
    /// A register operand is not one of `R0` to `R15`.
    InvalidRegister,
    /// The first token of a line is neither a mnemonic nor a label definition.
    InvalidInstruction,
    /// A jump names a label that the source never defines.
    UnresolvedLabel,
    /// An immediate operand is not a number.
    MalformedImmediate,
    /// No input path was given on the command line.
    MissingArgument,
    /// The source file could not be read.
    SourceFileUnreadable,
    /// The source holds more instructions than the image has room for.
    ProgramTooLarge,
}

/// An error together with the source line on which it was found. Lines are
/// counted from one.
#[derive(Clone, Copy, Debug, PartialEq, Eq, Structural)]
pub struct Diagnostic {
    pub line: usize,
    pub error: AsmError,
}

impl AsmError {
    /// The exit code that the condition has, where it has one of its own.
    pub open spec fn spec_exit_code(self) -> Option<i32> {
        match self {
            AsmError::InvalidRegister => Some(2i32),
            AsmError::InvalidInstruction => Some(0x1111i32),
            AsmError::MissingArgument => Some(0x0100i32),
            _ => None,
        }
    }

    /// The exit code with which a run that met this condition ends, or
    /// `None` where the condition has no code of its own.
    #[verifier::when_used_as_spec(spec_exit_code)]
    pub fn exit_code(self) -> (code: Option<i32>)
        ensures
            code == self.spec_exit_code(),
    {
        match self {
            AsmError::InvalidRegister => Some(2),
            AsmError::InvalidInstruction => Some(0x1111),
            AsmError::MissingArgument => Some(0x0100),
            _ => None,
        }
    }

    /// What is said of the condition when it ends a run.
    pub open spec fn spec_message(self) -> Seq<char> {
        match self {
            AsmError::InvalidRegister => "Invalid input"@,
            AsmError::InvalidInstruction => "Invalid instruction"@,
            AsmError::UnresolvedLabel => "unresolved label"@,
            AsmError::MalformedImmediate => "malformed immediate"@,
            AsmError::MissingArgument => "argument expected please give argument."@,
            AsmError::SourceFileUnreadable => "could not open file"@,
            AsmError::ProgramTooLarge => "program too large"@,
        }
    }

    /// The message that is printed when the condition ends a run.
    pub fn message(self) -> (text: &'static str)
        ensures
            text@ == self.spec_message(),
    {
        match self {
            AsmError::InvalidRegister => "Invalid input",
            AsmError::InvalidInstruction => "Invalid instruction",
            AsmError::UnresolvedLabel => "unresolved label",
            AsmError::MalformedImmediate => "malformed immediate",
            AsmError::MissingArgument => "argument expected please give argument.",
            AsmError::SourceFileUnreadable => "could not open file",
            AsmError::ProgramTooLarge => "program too large",
        }
    }
}

} // verus!
