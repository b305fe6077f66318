use super::input_enum::EchoInputDataFields;
use super::module_data::{EchoInputDataModuleData, EchoInputDataModuleDataView};
use super::output_enum::EchoInputDataOutputFields;
use super::parse::echo_result_view;
use vstd::prelude::*;

verus! {

/// What processing echo module data gives: the output becomes a copy of the
/// input, and the input stays. Processing never fails.
pub open spec fn processed_echo(module_data: EchoInputDataModuleDataView) -> Result<
    EchoInputDataModuleDataView,
    Seq<char>,
> {
    Ok(EchoInputDataModuleDataView { input: module_data.input, output: module_data.input })
}

/// Processes an echo request by echoing the input back as the output.
pub fn process_echo_request(module_data: EchoInputDataModuleData) -> (processed: Result<
    EchoInputDataModuleData,
    String,
>)
    ensures
        echo_result_view(processed) == processed_echo(module_data@),
{
    let mut module_data = module_data;
    let input_string = match &module_data.input {
        EchoInputDataFields::InputString(s) => s.clone(),
    };
    module_data.output = EchoInputDataOutputFields::EchoedString(input_string);
    Ok(module_data)
}

} // verus!
