use vstd::prelude::*;

verus! {

/// The outputs that the echo endpoint returns.
#[derive(Debug, Clone, PartialEq, Eq)]
pub enum EchoInputDataOutputFields {
    /// The echoed string data.
    EchoedString(String),
}

impl View for EchoInputDataOutputFields {
    type V = Seq<char>;

    /// The echoed text.
    open spec fn view(&self) -> Seq<char> {
        match self {
            EchoInputDataOutputFields::EchoedString(s) => s@,
        }
    }
}

} // verus!
