//! The editor-facing value types: cursor positions, selections, and the
//! language identifier with its name lookup.  The text buffer itself is a
//! separate, unverified collaborator; it only needs these plain values.

use vstd::prelude::*;
use vstd::string::StringExecFns;
use crate::chars::{lower_of, to_lowercase_string};

verus! {

/// Cursor position in the editor, 0-indexed in lines and characters.
#[derive(Debug, Clone, Copy, PartialEq, Eq, Structural)]
pub struct Position {
    pub line: usize,
    pub column: usize,
}

impl Position {
    pub fn new(line: usize, column: usize) -> (r: Position)
        ensures
            r == (Position { line, column }),
    {
        Position { line, column }
    }
}

/// A position comes before another when it is on an earlier line, or on
/// the same line in an earlier or equal column.
pub open spec fn pos_le(a: Position, b: Position) -> bool {
    a.line < b.line || (a.line == b.line && a.column <= b.column)
}

/// Text selection range between two cursor positions.
#[derive(Debug, Clone, Copy, PartialEq, Eq, Structural)]
pub struct Selection {
    pub start: Position,
    pub end: Position,
}

impl Selection {
    pub fn new(start: Position, end: Position) -> (r: Selection)
        ensures
            r == (Selection { start, end }),
    {
        Selection { start, end }
    }

    /// A selection is empty when its two ends coincide.
    pub fn is_empty(&self) -> (r: bool)
        ensures
            r == (self.start == self.end),
    {
        self.start == self.end
    }

    /// Orders the two ends so that the start does not come after the end;
    /// the set of ends is unchanged.
    pub fn normalize(&self) -> (r: Selection)
        ensures
            r == if pos_le(self.start, self.end) {
                *self
            } else {
                Selection { start: self.end, end: self.start }
            },
            pos_le(r.start, r.end),
    {
        if self.start.line < self.end.line || (self.start.line == self.end.line
            && self.start.column <= self.end.column) {
            *self
        } else {
            Selection { start: self.end, end: self.start }
        }
    }
}

/// Identifier of the language a buffer is edited in.
#[derive(Debug, Clone, PartialEq, Eq, Hash)]
pub enum LanguageId {
    Rust,
    JavaScript,
    TypeScript,
    Python,
    Java,
    Go,
    Dart,
    PlainText,
}

/// The language a lowercased name or file extension denotes; any
/// unrecognized name means plain text.
pub open spec fn spec_language_for(t: Seq<char>) -> LanguageId {
    if t == "rust"@ || t == "rs"@ {
        LanguageId::Rust
    } else if t == "javascript"@ || t == "js"@ {
        LanguageId::JavaScript
    } else if t == "typescript"@ || t == "ts"@ {
        LanguageId::TypeScript
    } else if t == "python"@ || t == "py"@ {
        LanguageId::Python
    } else if t == "java"@ {
        LanguageId::Java
    } else if t == "go"@ {
        LanguageId::Go
    } else if t == "dart"@ {
        LanguageId::Dart
    } else {
        LanguageId::PlainText
    }
}

impl LanguageId {
    /// Looks a language up by name or file extension, without regard to
    /// case.
    pub fn from_str(s: &str) -> (r: LanguageId)
        ensures
            r == spec_language_for(lower_of(s@)),
    {
        let lowered = to_lowercase_string(s);
        if string_is(&lowered, "rust") || string_is(&lowered, "rs") {
            LanguageId::Rust
        } else if string_is(&lowered, "javascript") || string_is(&lowered, "js") {
            LanguageId::JavaScript
        } else if string_is(&lowered, "typescript") || string_is(&lowered, "ts") {
            LanguageId::TypeScript
        } else if string_is(&lowered, "python") || string_is(&lowered, "py") {
            LanguageId::Python
        } else if string_is(&lowered, "java") {
            LanguageId::Java
        } else if string_is(&lowered, "go") {
            LanguageId::Go
        } else if string_is(&lowered, "dart") {
            LanguageId::Dart
        } else {
            LanguageId::PlainText
        }
    }
}

/// Whether a string equals a literal, by characters.
fn string_is(a: &String, lit: &str) -> (r: bool)
    ensures
        r == (a@ == lit@),
{
    let other = String::from_str(lit);
    *a == other
}

} // verus!
