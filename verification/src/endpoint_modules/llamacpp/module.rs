use crate::request_unit::{RequestUnit, RequestUnitView};
use crate::text::{bytes_to_debug_text, debug_bytes, joined};
use crate::worker::outcome_view;
use vstd::prelude::*;

verus! {

/// The outcome of `request` once the text-generation program
/// has exited and its output has been decoded to `output`.
///
/// - Success: the request answered with `output`.
/// - Failure: an error that lists the bytes written to standard error.
pub open spec fn llamacpp_outcome(
    request: RequestUnitView,
    success: bool,
    output: Seq<char>,
    stderr: Seq<u8>,
) -> Result<RequestUnitView, Seq<char>> {
    if success {
        Ok(request.answered(output))
    } else {
        Err("Llama.cpp execution error: "@ + debug_bytes(stderr))
    }
}

/// Turns the exit of the text-generation program into the outcome of the
/// request that waited for it.
pub fn finish_llamacpp_request(
    request_unit: RequestUnit,
    success: bool,
    output_text: String,
    stderr: &Vec<u8>,
) -> (outcome: Result<RequestUnit, String>)
    ensures
        outcome_view(outcome) == llamacpp_outcome(request_unit@, success, output_text@, stderr@),
{
    if success {
        Ok(request_unit.answer(output_text))
    } else {
        let listed = bytes_to_debug_text(stderr);
        Err(joined("Llama.cpp execution error: ", listed.as_str()))
    }
}

} // verus!
