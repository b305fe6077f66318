//! The endpoint module that hands a prompt to a text-generation program.

pub mod input_enum;
pub mod module;
pub mod module_data;
pub mod output_enum;
pub mod parse;
