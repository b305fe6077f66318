use vstd::prelude::*;

verus! {

/// The inputs that the echo endpoint accepts.
#[derive(Debug, Clone, PartialEq, Eq)]
pub enum EchoInputDataFields {
    /// String data to be echoed back.
    InputString(String),
}

impl View for EchoInputDataFields {
    type V = Seq<char>;

    /// The text to be echoed.
    open spec fn view(&self) -> Seq<char> {
        match self {
            EchoInputDataFields::InputString(s) => s@,
        }
    }
}

} // verus!
