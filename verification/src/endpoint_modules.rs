//! The endpoint modules: each one parses a request body into its typed input
//! and processes that input into its typed output.

pub mod echo_input_data;
pub mod llamacpp;
