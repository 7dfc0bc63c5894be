//! What the assembler reports when it refuses a program.

use vstd::prelude::*;

verus! {

/// One reason for which a program is refused.
#[derive(Debug, PartialEq)]
pub enum AssemblerError {
    /// A label is declared before any section has been opened. `instruction`
    /// counts the instructions of the program from zero.
    NoSegmentDeclarationFound { instruction: u32 },
    /// A string constant is declared without a label to reach it by.
    StringConstantDeclaredWithoutLabel { instruction: u32 },
    /// A label is declared a second time.
    SymbolAlreadyDeclared,
    /// A directive with operands that is not known.
    UnknownDirectiveFound { directive: String },
    /// Fewer than two sections are declared.
    InsufficientSections,
    /// The text is not a program.
    ParseError { error: String },
}

/// An error as a mathematical value.
pub enum AssemblerErrorView {
    NoSegmentDeclarationFound { instruction: u32 },
    StringConstantDeclaredWithoutLabel { instruction: u32 },
    SymbolAlreadyDeclared,
    UnknownDirectiveFound { directive: Seq<char> },
    InsufficientSections,
    ParseError { error: Seq<char> },
}

impl View for AssemblerError {
    type V = AssemblerErrorView;

    open spec fn view(&self) -> AssemblerErrorView {
        match self {
            AssemblerError::NoSegmentDeclarationFound { instruction } => {
                AssemblerErrorView::NoSegmentDeclarationFound { instruction: *instruction }
            },
            AssemblerError::StringConstantDeclaredWithoutLabel { instruction } => {
                AssemblerErrorView::StringConstantDeclaredWithoutLabel { instruction: *instruction }
            },
            AssemblerError::SymbolAlreadyDeclared => AssemblerErrorView::SymbolAlreadyDeclared,
            AssemblerError::UnknownDirectiveFound { directive } => {
                AssemblerErrorView::UnknownDirectiveFound { directive: directive@ }
            },
            AssemblerError::InsufficientSections => AssemblerErrorView::InsufficientSections,
            AssemblerError::ParseError { error } => {
                AssemblerErrorView::ParseError { error: error@ }
            },
        }
    }
}

impl Clone for AssemblerError {
    fn clone(&self) -> (copy: AssemblerError)
        ensures
            copy@ == self@,
    {
        match self {
            AssemblerError::NoSegmentDeclarationFound { instruction } => {
                AssemblerError::NoSegmentDeclarationFound { instruction: *instruction }
            },
            AssemblerError::StringConstantDeclaredWithoutLabel { instruction } => {
                AssemblerError::StringConstantDeclaredWithoutLabel { instruction: *instruction }
            },
            AssemblerError::SymbolAlreadyDeclared => AssemblerError::SymbolAlreadyDeclared,
            AssemblerError::UnknownDirectiveFound { directive } => {
                AssemblerError::UnknownDirectiveFound { directive: directive.clone() }
            },
            AssemblerError::InsufficientSections => AssemblerError::InsufficientSections,
            AssemblerError::ParseError { error } => {
                AssemblerError::ParseError { error: error.clone() }
            },
        }
    }
}

/// The errors of a list, each as a mathematical value.
pub open spec fn errors_view(errors: Seq<AssemblerError>) -> Seq<AssemblerErrorView> {
    errors.map_values(|e: AssemblerError| e@)
}

} // verus!
