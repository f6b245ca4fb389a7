//! The scanning engine and the tokens it produces.

pub mod laws;
pub mod lexer;
pub mod model;
pub mod text;
pub mod token;
