//! The structured error shared by every part of the library.

use vstd::prelude::*;
use crate::text::copy_str;

verus! {

/// Structured error carried through every operation; rendered as JSON by the
/// command-line front end in `--json` mode.
#[derive(Debug)]
pub struct RotivError {
    pub code: String,
    pub message: String,
    pub file: Option<String>,
    pub line: Option<u32>,
    pub expected: Option<String>,
    pub got: Option<String>,
    pub suggestion: Option<String>,
    pub corrected_code: Option<String>,
}

/// Copy of an optional string.
pub fn copy_opt(s: &Option<String>) -> (r: Option<String>)
    ensures
        r == *s,
{
    match s {
        Some(x) => Some(x.clone()),
        None => None,
    }
}

impl Clone for RotivError {
    fn clone(&self) -> (r: Self)
        ensures
            r == *self,
    {
        RotivError {
            code: self.code.clone(),
            message: self.message.clone(),
            file: copy_opt(&self.file),
            line: self.line,
            expected: copy_opt(&self.expected),
            got: copy_opt(&self.got),
            suggestion: copy_opt(&self.suggestion),
            corrected_code: copy_opt(&self.corrected_code),
        }
    }
}

impl RotivError {
    /// An error holding `code` and `message` and nothing else.
    pub fn new(code: &str, message: &str) -> (r: Self)
        ensures
            r.code@ == code@,
            r.message@ == message@,
            r.file is None,
            r.line is None,
            r.expected is None,
            r.got is None,
            r.suggestion is None,
            r.corrected_code is None,
    {
        RotivError {
            code: copy_str(code),
            message: copy_str(message),
            file: None,
            line: None,
            expected: None,
            got: None,
            suggestion: None,
            corrected_code: None,
        }
    }

    /// Sets the suggestion, leaving every other field as it was.
    pub fn with_suggestion(self, suggestion: &str) -> (r: Self)
        ensures
            r == (RotivError { suggestion: Some(r.suggestion->0), ..self }),
            r.suggestion matches Some(s) && s@ == suggestion@,
    {
        RotivError { suggestion: Some(copy_str(suggestion)), ..self }
    }

    /// Sets the file and the line, leaving every other field as it was.
    pub fn with_file(self, file: &str, line: Option<u32>) -> (r: Self)
        ensures
            r == (RotivError { file: Some(r.file->0), line: line, ..self }),
            r.file matches Some(f) && f@ == file@,
    {
        RotivError { file: Some(copy_str(file)), line: line, ..self }
    }

    /// Sets what was expected and what was found, leaving every other field as it was.
    pub fn with_expected(self, expected: &str, got: &str) -> (r: Self)
        ensures
            r == (RotivError { expected: Some(r.expected->0), got: Some(r.got->0), ..self }),
            r.expected matches Some(e) && e@ == expected@,
            r.got matches Some(g) && g@ == got@,
    {
        RotivError { expected: Some(copy_str(expected)), got: Some(copy_str(got)), ..self }
    }

    /// Sets the corrected code, leaving every other field as it was.
    pub fn with_corrected_code(self, corrected: &str) -> (r: Self)
        ensures
            r == (RotivError { corrected_code: Some(r.corrected_code->0), ..self }),
            r.corrected_code matches Some(c) && c@ == corrected@,
    {
        RotivError { corrected_code: Some(copy_str(corrected)), ..self }
    }

    /// The one-line rendering `"{code}: {message}"`.
    pub fn display(&self) -> (r: String)
        ensures
            r@ == self.code@ + ": "@ + self.message@,
    {
        let mut s = self.code.clone();
        s.append(": ");
        s.append(self.message.as_str());
        s
    }
}


/// The error for a command run outside any project (`E_NOT_A_PROJECT`).
pub fn not_a_project_error() -> (r: RotivError)
    ensures
        r.code@ == "E_NOT_A_PROJECT"@,
        r.message@ == "not inside a Rotiv project"@,
        r.suggestion matches Some(s) && s@ == "Run `rotiv new <name>` to create a project, then `cd <name> && rotiv dev`"@,
        r.file is None && r.line is None && r.expected is None && r.got is None && r.corrected_code is None,
{
    RotivError::new("E_NOT_A_PROJECT", "not inside a Rotiv project").with_suggestion(
        "Run `rotiv new <name>` to create a project, then `cd <name> && rotiv dev`",
    )
}

} // verus!
