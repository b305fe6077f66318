use super::input_enum::EchoInputDataFields;
use super::module_data::{EchoInputDataModuleData, EchoInputDataModuleDataView};
use super::output_enum::EchoInputDataOutputFields;
use vstd::prelude::*;

verus! {

/// What parsing a request body for the echo endpoint gives: the whole body is
/// the input, and the output starts empty. Every body parses.
pub open spec fn parsed_echo_input(request_body: Seq<char>) -> Result<
    EchoInputDataModuleDataView,
    Seq<char>,
> {
    Ok(EchoInputDataModuleDataView { input: request_body, output: Seq::empty() })
}

/// Echo module data, or the error message in its place, as plain texts.
pub open spec fn echo_result_view(result: Result<EchoInputDataModuleData, String>) -> Result<
    EchoInputDataModuleDataView,
    Seq<char>,
> {
    match result {
        Ok(data) => Ok(data@),
        Err(message) => Err(message@),
    }
}

/// Parses a raw request body into echo module data.
pub fn parse_echo_input_data(request_body: &str) -> (parsed: Result<EchoInputDataModuleData, String>)
    ensures
        echo_result_view(parsed) == parsed_echo_input(request_body@),
{
    let input_fields = EchoInputDataFields::InputString(request_body.to_string());
    let output_fields = EchoInputDataOutputFields::EchoedString(String::new());
    Ok(EchoInputDataModuleData { input: input_fields, output: output_fields })
}

} // verus!
