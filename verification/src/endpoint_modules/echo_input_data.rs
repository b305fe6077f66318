//! The endpoint module that echoes the request body back.

pub mod input_enum;
pub mod module;
pub mod module_data;
pub mod output_enum;
pub mod parse;
