//! Reads the signatures of stored functions from source text that defines them with
//! `DEFINE FUNCTION fn::path::name($arg: kind, ..) { .. };`, and resolves `$NAME`
//! placeholders in the paths of such files.
pub mod alias;
pub mod comment;
pub mod common;
pub mod ident;
pub mod kind;
pub mod laws;
pub mod path;
pub mod statement;
pub mod table;
pub mod text;
pub mod whitespace;
