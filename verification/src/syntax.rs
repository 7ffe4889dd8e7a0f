//! The editor's syntax support under one path: file types, highlighting and indentation.
pub use crate::file_type::{comment_prefix_for_file_type, FileType};
pub use crate::highlight::{HighlightedText, SyntaxHighlighter};
pub use crate::indent::{IndentRule, SmartIndenter};
