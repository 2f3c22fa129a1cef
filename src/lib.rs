//! Reading of package-repository databases: a line-oriented record grammar,
//! the typed package record built from it, and the pull sequence over the
//! entries of a database archive.

pub mod db;
pub mod error;
pub mod package;
pub mod parser;
pub mod text;
