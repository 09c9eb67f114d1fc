//! Data model for shell-function traces: the operations a startup file can
//! perform on a function, one recorded change, and the whole trace.

use vstd::prelude::*;

use crate::variable::Context;

verus! {

/// The kind of operation one construct performs on a shell function.
#[derive(Clone, Copy, Debug, PartialEq, Eq, Structural)]
pub enum FunctionOperation {
    /// Function defined with a body (POSIX, keyword, or hybrid syntax)
    Define,
    /// Zsh autoload declaration
    Autoload,
    /// `unset -f name`
    Unset,
}

/// Mathematical model of a [`FunctionChange`].
#[verifier::ext_equal]
pub ghost struct FnChangeModel {
    pub file: Seq<char>,
    pub line_number: int,
    pub line_content: Seq<char>,
    pub operation: FunctionOperation,
    pub body: Option<Seq<char>>,
    pub body_lines: int,
}

/// One recorded modification of a shell function.
#[derive(Debug)]
pub struct FunctionChange {
    pub file: String,
    /// 1-based line index of the construct.
    pub line_number: usize,
    pub line_content: String,
    pub operation: FunctionOperation,
    /// A bounded preview of the body; present only for a definition.
    pub body: Option<String>,
    /// Total line count of the body, the opening and closing lines included.
    pub body_lines: usize,
}

impl View for FunctionChange {
    type V = FnChangeModel;

    open spec fn view(&self) -> FnChangeModel {
        FnChangeModel {
            file: self.file@,
            line_number: self.line_number as int,
            line_content: self.line_content@,
            operation: self.operation,
            body: match self.body {
                Some(s) => Some(s@),
                None => None,
            },
            body_lines: self.body_lines as int,
        }
    }
}

impl DeepView for FunctionChange {
    type V = FnChangeModel;

    open spec fn deep_view(&self) -> FnChangeModel {
        self.view()
    }
}

/// The full trace of a shell function through one startup context.
#[derive(Debug)]
pub struct FunctionTrace {
    pub name: String,
    pub is_defined: bool,
    pub changes: Vec<FunctionChange>,
    pub context: Context,
}

} // verus!
