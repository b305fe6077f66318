use vstd::prelude::*;

verus! {

/// The inputs that the text-generation endpoint accepts.
#[derive(Debug, Clone, PartialEq, Eq)]
pub enum LlamacppInputFields {
    /// The prompt to generate from.
    Prompt(String),
}

impl View for LlamacppInputFields {
    type V = Seq<char>;

    /// The prompt text.
    open spec fn view(&self) -> Seq<char> {
        match self {
            LlamacppInputFields::Prompt(s) => s@,
        }
    }
}

} // verus!
