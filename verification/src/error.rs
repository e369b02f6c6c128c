//! The error taxonomy of the evaluator.

use vstd::prelude::*;
use vstd::string::StringExecFns;

verus! {

/// Spec-level mirror of [`Error`], with text as character sequences.
pub enum ErrorModel {
    Fatal { msg: Seq<char> },
    InvalidCharacter { character: char, position: int },
    UnexpectedToken { token: Seq<char>, start: int, end: int },
    UnexpectedEndOfInput,
    Runtime { msg: Seq<char> },
    VariableNotFound { var: Seq<char>, start: int, end: int },
}

/// This type represents all possible errors that can occur when evaluating
/// an expression.  Positions are character offsets into the original input,
/// inclusive on both ends, suitable for caret underlines.
#[derive(Debug, PartialEq)]
pub enum Error {
    Fatal(&'static str),
    InvalidCharacter(char, usize),
    UnexpectedToken { token: String, start: usize, end: usize },
    UnexpectedEndOfInput,
    Runtime(&'static str),
    VariableNotFound { var: String, start: usize, end: usize },
}

impl View for Error {
    type V = ErrorModel;

    open spec fn view(&self) -> ErrorModel {
        match self {
            Error::Fatal(msg) => ErrorModel::Fatal { msg: msg@ },
            Error::InvalidCharacter(c, pos) => ErrorModel::InvalidCharacter {
                character: *c,
                position: *pos as int,
            },
            Error::UnexpectedToken { token, start, end } => ErrorModel::UnexpectedToken {
                token: token@,
                start: *start as int,
                end: *end as int,
            },
            Error::UnexpectedEndOfInput => ErrorModel::UnexpectedEndOfInput,
            Error::Runtime(msg) => ErrorModel::Runtime { msg: msg@ },
            Error::VariableNotFound { var, start, end } => ErrorModel::VariableNotFound {
                var: var@,
                start: *start as int,
                end: *end as int,
            },
        }
    }
}

/// The human-readable description of an error, as the host prints it.
pub open spec fn spec_message(e: ErrorModel) -> Seq<char> {
    match e {
        ErrorModel::Fatal { msg } => msg,
        ErrorModel::InvalidCharacter { character, position } => "Invalid character `"@ + seq![
            character,
        ] + "` found!"@,
        ErrorModel::UnexpectedToken { token, start, end } => "Unexpected token `"@ + token
            + "` found!"@,
        ErrorModel::UnexpectedEndOfInput => "Unexpected end of input!"@,
        ErrorModel::Runtime { msg } => msg,
        ErrorModel::VariableNotFound { var, start, end } => "Variable `"@ + var + "` not found!"@,
    }
}

/// Relies on `char::to_string`: the text of one character.
#[verifier::external_body]
fn char_text(c: char) -> (s: String)
    ensures
        s@ == seq![c],
{
    c.to_string()
}

impl Error {
    /// The human-readable description of this error.
    pub fn message(&self) -> (msg: String)
        ensures
            msg@ == spec_message(self@),
    {
        match self {
            Error::Fatal(m) => (*m).to_owned(),
            Error::InvalidCharacter(c, _) => {
                let mut s = "Invalid character `".to_owned();
                s.append(char_text(*c).as_str());
                s.append("` found!");
                s
            },
            Error::UnexpectedToken { token, .. } => {
                let mut s = "Unexpected token `".to_owned();
                s.append(token.as_str());
                s.append("` found!");
                s
            },
            Error::UnexpectedEndOfInput => "Unexpected end of input!".to_owned(),
            Error::Runtime(m) => (*m).to_owned(),
            Error::VariableNotFound { var, .. } => {
                let mut s = "Variable `".to_owned();
                s.append(var.as_str());
                s.append("` not found!");
                s
            },
        }
    }
}

} // verus!
