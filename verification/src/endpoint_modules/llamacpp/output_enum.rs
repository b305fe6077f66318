use vstd::prelude::*;

verus! {

/// The outputs that the text-generation endpoint returns.
#[derive(Debug, Clone, PartialEq, Eq)]
pub enum LlamacppOutputFields {
    /// The generated text.
    OutputText(String),
}

impl View for LlamacppOutputFields {
    type V = Seq<char>;

    /// The generated text.
    open spec fn view(&self) -> Seq<char> {
        match self {
            LlamacppOutputFields::OutputText(s) => s@,
        }
    }
}

} // verus!
