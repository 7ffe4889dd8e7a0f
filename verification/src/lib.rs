//! Core logic of a terminal text editor: file-type detection, syntax
//! selection, smart indentation, the document list and the tab bar.
pub mod file_type;
pub mod text;
pub mod goto;
pub mod paths;
pub mod indent;
pub mod syntect_api;
pub mod highlight;
pub mod documents;
pub mod tabs;
pub mod syntax;
