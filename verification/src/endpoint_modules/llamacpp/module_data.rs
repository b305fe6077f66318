use super::input_enum::LlamacppInputFields;
use super::output_enum::LlamacppOutputFields;
use vstd::prelude::*;

verus! {

/// The input received and the output to be sent for one text-generation
/// request.
#[derive(Debug, Clone, PartialEq, Eq)]
pub struct LlamacppModuleData {
    /// The input received from the request.
    pub input: LlamacppInputFields,
    /// The output to be sent in the response.
    pub output: LlamacppOutputFields,
}

/// Text-generation module data as plain texts.
pub ghost struct LlamacppModuleDataView {
    pub input: Seq<char>,
    pub output: Seq<char>,
}

impl View for LlamacppModuleData {
    type V = LlamacppModuleDataView;

    open spec fn view(&self) -> LlamacppModuleDataView {
        LlamacppModuleDataView { input: self.input@, output: self.output@ }
    }
}

} // verus!
