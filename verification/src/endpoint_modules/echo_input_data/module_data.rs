use super::input_enum::EchoInputDataFields;
use super::output_enum::EchoInputDataOutputFields;
use vstd::prelude::*;

verus! {

/// The input received and the output to be sent for one echo request.
#[derive(Debug, Clone, PartialEq, Eq)]
pub struct EchoInputDataModuleData {
    /// The input received from the request.
    pub input: EchoInputDataFields,
    /// The output to be sent in the response.
    pub output: EchoInputDataOutputFields,
}

/// Echo module data as plain texts.
pub ghost struct EchoInputDataModuleDataView {
    pub input: Seq<char>,
    pub output: Seq<char>,
}

impl View for EchoInputDataModuleData {
    type V = EchoInputDataModuleDataView;

    open spec fn view(&self) -> EchoInputDataModuleDataView {
        EchoInputDataModuleDataView { input: self.input@, output: self.output@ }
    }
}

} // verus!
