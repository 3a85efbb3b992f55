//! Verified components of the Mojito compiler.
pub mod ast;
pub mod checked;
pub mod ct;
pub mod ct_laws;
pub mod data;
pub mod debug;
pub mod literal;
pub mod mir;
pub mod native;
pub mod order;
pub mod origin;
pub mod outcome;
pub mod parser;
pub mod runtime;
pub mod symbol;
pub mod symbol_laws;
pub mod table;
pub mod text;
pub mod token;
pub mod types;
