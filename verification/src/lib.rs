//! A multi-backend LSP orchestration library: a cached, pattern-filtered
//! workspace document store with line/character range extraction, a
//! structural (AST-pattern) matcher front end, a per-backend LSP client
//! state machine, and a manager that routes requests by language.

use vstd::prelude::*;

pub mod ast_grep;
pub mod codec;
pub mod documents;
pub mod errors;
pub mod glob_match;
pub mod languages;
pub mod lsp_client;
pub mod manager;
pub mod text;

verus! {

/// A 0-based line/character position. `character` counts code units
/// within the line and may exceed the line's length; readers clamp it.
#[derive(Clone, Copy, PartialEq, Eq, Structural, Debug)]
pub struct Position {
    pub line: u32,
    pub character: u32,
}

/// A line/character region of a document, `start` inclusive, `end` exclusive
/// at the character level.
#[derive(Clone, Copy, PartialEq, Eq, Structural, Debug)]
pub struct TextRange {
    pub start: Position,
    pub end: Position,
}

impl Position {
    pub fn new(line: u32, character: u32) -> (r: Position)
        ensures
            r.line == line,
            r.character == character,
    {
        Position { line, character }
    }
}

impl TextRange {
    pub fn new(start: Position, end: Position) -> (r: TextRange)
        ensures
            r.start == start,
            r.end == end,
    {
        TextRange { start, end }
    }
}

/// A position within a named workspace file.
#[derive(Clone, Debug, PartialEq, Eq)]
pub struct FilePosition {
    pub path: String,
    pub position: Position,
}

/// A line/character span within a named workspace file.
#[derive(Clone, Debug, PartialEq, Eq)]
pub struct FileRange {
    pub path: String,
    pub start: Position,
    pub end: Position,
}

/// A normalized symbol: its name, a lowercase kind token, the position of
/// the identifier's first character, and the symbol's full span.
#[derive(Clone, Debug, PartialEq, Eq)]
pub struct Symbol {
    pub name: String,
    pub kind: String,
    pub identifier_position: FilePosition,
    pub range: FileRange,
}

} // verus!
