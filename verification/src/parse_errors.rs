//! Errors reported while parsing a migration source file.  Every error is
//! fatal to the parse that raised it: the parser stops at the first one.

use vstd::prelude::*;

verus! {

/// What went wrong, with the offending token where one is involved.
#[derive(Debug, Clone, PartialEq, Eq)]
pub enum ParseErrorKind {
    UnexpectedMigrationStart,
    UnexpectedMigrationEnd,
    UnexpectedMacroStart,
    UnexpectedMacroEnd,
    UnexpectedFunctionStart,
    UnexpectedFunctionEnd,
    UnexpectedMigrationGroupStart,
    UnexpectedMigrationGroupEnd,
    MissingMigrationName,
    MissingMacroName,
    MissingFunctionName,
    MissingMigrationGroupName,
    MissingTags,
    MissingParameters,
    MissingReturnType,
    MissingArgument(String),
    MissingArgumentType,
    UnknownTag(String),
    InvalidDependencyFormat(String),
    TagsWithoutContext,
    ParametersWithoutContext,
    ReturnsWithoutContext,
    NuclearWithoutContext,
    DependsWithoutContext,
    RollbackWithoutContext,
    MacroCallWithoutContext,
    DescriptionWithoutContext,
    SqlWithoutContext,
    UnexpectedEndOfFile(usize),
    MigrationNotClosed,
    MacroNotClosed,
    FunctionNotClosed,
    MigrationGroupNotClosed,
}

/// Mathematical image of a `ParseErrorKind`.
pub enum KindV {
    UnexpectedMigrationStart,
    UnexpectedMigrationEnd,
    UnexpectedMacroStart,
    UnexpectedMacroEnd,
    UnexpectedFunctionStart,
    UnexpectedFunctionEnd,
    UnexpectedMigrationGroupStart,
    UnexpectedMigrationGroupEnd,
    MissingMigrationName,
    MissingMacroName,
    MissingFunctionName,
    MissingMigrationGroupName,
    MissingTags,
    MissingParameters,
    MissingReturnType,
    MissingArgument(Seq<char>),
    MissingArgumentType,
    UnknownTag(Seq<char>),
    InvalidDependencyFormat(Seq<char>),
    TagsWithoutContext,
    ParametersWithoutContext,
    ReturnsWithoutContext,
    NuclearWithoutContext,
    DependsWithoutContext,
    RollbackWithoutContext,
    MacroCallWithoutContext,
    DescriptionWithoutContext,
    SqlWithoutContext,
    UnexpectedEndOfFile(int),
    MigrationNotClosed,
    MacroNotClosed,
    FunctionNotClosed,
    MigrationGroupNotClosed,
}

impl View for ParseErrorKind {
    type V = KindV;

    open spec fn view(&self) -> KindV {
        match self {
            ParseErrorKind::UnexpectedMigrationStart => KindV::UnexpectedMigrationStart,
            ParseErrorKind::UnexpectedMigrationEnd => KindV::UnexpectedMigrationEnd,
            ParseErrorKind::UnexpectedMacroStart => KindV::UnexpectedMacroStart,
            ParseErrorKind::UnexpectedMacroEnd => KindV::UnexpectedMacroEnd,
            ParseErrorKind::UnexpectedFunctionStart => KindV::UnexpectedFunctionStart,
            ParseErrorKind::UnexpectedFunctionEnd => KindV::UnexpectedFunctionEnd,
            ParseErrorKind::UnexpectedMigrationGroupStart => KindV::UnexpectedMigrationGroupStart,
            ParseErrorKind::UnexpectedMigrationGroupEnd => KindV::UnexpectedMigrationGroupEnd,
            ParseErrorKind::MissingMigrationName => KindV::MissingMigrationName,
            ParseErrorKind::MissingMacroName => KindV::MissingMacroName,
            ParseErrorKind::MissingFunctionName => KindV::MissingFunctionName,
            ParseErrorKind::MissingMigrationGroupName => KindV::MissingMigrationGroupName,
            ParseErrorKind::MissingTags => KindV::MissingTags,
            ParseErrorKind::MissingParameters => KindV::MissingParameters,
            ParseErrorKind::MissingReturnType => KindV::MissingReturnType,
            ParseErrorKind::MissingArgument(s) => KindV::MissingArgument(s@),
            ParseErrorKind::MissingArgumentType => KindV::MissingArgumentType,
            ParseErrorKind::UnknownTag(s) => KindV::UnknownTag(s@),
            ParseErrorKind::InvalidDependencyFormat(s) => KindV::InvalidDependencyFormat(s@),
            ParseErrorKind::TagsWithoutContext => KindV::TagsWithoutContext,
            ParseErrorKind::ParametersWithoutContext => KindV::ParametersWithoutContext,
            ParseErrorKind::ReturnsWithoutContext => KindV::ReturnsWithoutContext,
            ParseErrorKind::NuclearWithoutContext => KindV::NuclearWithoutContext,
            ParseErrorKind::DependsWithoutContext => KindV::DependsWithoutContext,
            ParseErrorKind::RollbackWithoutContext => KindV::RollbackWithoutContext,
            ParseErrorKind::MacroCallWithoutContext => KindV::MacroCallWithoutContext,
            ParseErrorKind::DescriptionWithoutContext => KindV::DescriptionWithoutContext,
            ParseErrorKind::SqlWithoutContext => KindV::SqlWithoutContext,
            ParseErrorKind::UnexpectedEndOfFile(n) => KindV::UnexpectedEndOfFile(*n as int),
            ParseErrorKind::MigrationNotClosed => KindV::MigrationNotClosed,
            ParseErrorKind::MacroNotClosed => KindV::MacroNotClosed,
            ParseErrorKind::FunctionNotClosed => KindV::FunctionNotClosed,
            ParseErrorKind::MigrationGroupNotClosed => KindV::MigrationGroupNotClosed,
        }
    }
}

/// A parse error: its kind, the 1-based source line it was raised at, the
/// column (always 1, since directives are matched from the start of a line),
/// and a human-readable restatement.
#[derive(Debug, Clone)]
pub struct ParseError {
    pub kind: ParseErrorKind,
    pub line: usize,
    pub column: usize,
    pub message: String,
}

/// Mathematical image of a `ParseError`.
pub struct ErrV {
    pub kind: KindV,
    pub line: int,
    pub column: int,
    pub message: Seq<char>,
}

impl View for ParseError {
    type V = ErrV;

    open spec fn view(&self) -> ErrV {
        ErrV {
            kind: self.kind@,
            line: self.line as int,
            column: self.column as int,
            message: self.message@,
        }
    }
}

/// An `ErrV` at column 1, as the parser always reports.
pub open spec fn err_v(kind: KindV, line: int, message: Seq<char>) -> ErrV {
    ErrV { kind, line, column: 1, message }
}

impl ParseError {
    /// Build an error whose message is a single literal.
    pub fn at(kind: ParseErrorKind, line: usize, message: &str) -> (r: ParseError)
        ensures
            r@ == err_v(kind@, line as int, message@),
    {
        ParseError { kind, line, column: 1, message: message.to_owned() }
    }

    /// Build an error whose message is the concatenation of two parts.
    pub fn at2(kind: ParseErrorKind, line: usize, m1: &str, m2: &str) -> (r: ParseError)
        ensures
            r@ == err_v(kind@, line as int, m1@ + m2@),
    {
        let mut message = m1.to_owned();
        message.append(m2);
        ParseError { kind, line, column: 1, message }
    }

    /// Build an error whose message is the concatenation of three parts.
    pub fn at3(kind: ParseErrorKind, line: usize, m1: &str, m2: &str, m3: &str) -> (r: ParseError)
        ensures
            r@ == err_v(kind@, line as int, m1@ + m2@ + m3@),
    {
        let mut message = m1.to_owned();
        message.append(m2);
        message.append(m3);
        ParseError { kind, line, column: 1, message }
    }
}

} // verus!
