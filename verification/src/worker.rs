//! What the worker does with one request: it looks the endpoint module up in
//! the registry, parses the body, and processes the input. A module that needs
//! work from outside the program is run in two halves: the first half says
//! which call to make, the second half takes what the call reported.

use crate::endpoint_modules::echo_input_data::module::{process_echo_request, processed_echo};
use crate::endpoint_modules::echo_input_data::output_enum::EchoInputDataOutputFields;
use crate::endpoint_modules::echo_input_data::parse::{parse_echo_input_data, parsed_echo_input};
use crate::endpoint_modules::llamacpp::input_enum::LlamacppInputFields;
use crate::endpoint_modules::llamacpp::module::{finish_llamacpp_request, llamacpp_outcome};
use crate::endpoint_modules::llamacpp::parse::{parse_llamacpp_request, parsed_llamacpp_request};
use crate::registry::{find_module_at, module_at, EndpointModule};
use crate::request_unit::{RequestUnit, RequestUnitView};
use crate::text::{decode_utf8_lossy, joined, utf8_lossy_text};
use vstd::prelude::*;

verus! {

/// Work that a module needs done outside the program.
#[derive(Clone, Debug, PartialEq, Eq)]
pub enum ModuleCall {
    /// Run the text-generation program on `prompt`.
    LlamaCli { prompt: String },
}

/// A module call as plain values.
pub ghost enum ModuleCallView {
    LlamaCli { prompt: Seq<char> },
}

impl View for ModuleCall {
    type V = ModuleCallView;

    open spec fn view(&self) -> ModuleCallView {
        match self {
            ModuleCall::LlamaCli { prompt } => ModuleCallView::LlamaCli { prompt: prompt@ },
        }
    }
}

/// What a module call reported.
#[derive(Clone, Debug, PartialEq, Eq)]
pub enum ModuleReport {
    /// The program ran and exited; `success` tells how.
    Exited { success: bool, stdout: Vec<u8>, stderr: Vec<u8> },
    /// The call broke off with a fault before it could report.
    Fault,
}

/// A module report as plain values.
pub ghost enum ModuleReportView {
    Exited { success: bool, stdout: Seq<u8>, stderr: Seq<u8> },
    Fault,
}

impl View for ModuleReport {
    type V = ModuleReportView;

    open spec fn view(&self) -> ModuleReportView {
        match self {
            ModuleReport::Exited { success, stdout, stderr } => ModuleReportView::Exited {
                success: *success,
                stdout: stdout@,
                stderr: stderr@,
            },
            ModuleReport::Fault => ModuleReportView::Fault,
        }
    }
}

/// The outcome of one request as plain values: the answered request, or the
/// error message.
pub open spec fn outcome_view(outcome: Result<RequestUnit, String>) -> Result<
    RequestUnitView,
    Seq<char>,
> {
    match outcome {
        Ok(unit) => Ok(unit@),
        Err(message) => Err(message@),
    }
}

/// Where a request stands after the first half of its processing.
#[derive(Debug, PartialEq, Eq)]
pub enum ModuleStep {
    /// The outcome is ready.
    Finished(Result<RequestUnit, String>),
    /// The module needs the call made; the request waits for the report.
    Call(RequestUnit, ModuleCall),
}

/// A module step as plain values.
pub ghost enum ModuleStepView {
    Finished(Result<RequestUnitView, Seq<char>>),
    Call(ModuleCallView),
}

impl View for ModuleStep {
    type V = ModuleStepView;

    open spec fn view(&self) -> ModuleStepView {
        match self {
            ModuleStep::Finished(outcome) => ModuleStepView::Finished(outcome_view(*outcome)),
            ModuleStep::Call(_, call) => ModuleStepView::Call(call@),
        }
    }
}

/// The error outcome for a body that the module could not parse.
pub open spec fn parse_failure(message: Seq<char>) -> ModuleStepView {
    ModuleStepView::Finished(Err("Failed to parse request: "@ + message))
}

/// The first half of processing `request` with the echo module: the body is
/// parsed and the input processed. A parse error and a processing error each
/// become the error outcome; otherwise the request is answered with the
/// module's output.
pub open spec fn echo_step(request: RequestUnitView) -> ModuleStepView {
    match parsed_echo_input(request.body) {
        Err(message) => parse_failure(message),
        Ok(module_data) => match processed_echo(module_data) {
            Err(message) => ModuleStepView::Finished(Err(message)),
            Ok(processed) => ModuleStepView::Finished(Ok(request.answered(processed.output))),
        },
    }
}

/// The first half of processing `request` with the text-generation module:
/// the body is parsed. A parse error becomes the error outcome; otherwise the
/// module asks for the program to be run on the prompt.
pub open spec fn llamacpp_step(request: RequestUnitView) -> ModuleStepView {
    match parsed_llamacpp_request(request.body) {
        Err(message) => parse_failure(message),
        Ok(module_data) => ModuleStepView::Call(
            ModuleCallView::LlamaCli { prompt: module_data.input },
        ),
    }
}

/// The first half of processing `request`.
///
/// - No endpoint module named: an error.
/// - A module path that the registry does not hold: an error that names the
///   path.
/// - Otherwise the first half of the module found at the path.
pub open spec fn first_half(request: RequestUnitView) -> ModuleStepView {
    match request.endpoint_module_name {
        None => ModuleStepView::Finished(Err("No endpoint module specified"@)),
        Some(path) => match module_at(path) {
            None => ModuleStepView::Finished(
                Err("Endpoint module not found among modules: "@ + path),
            ),
            Some(EndpointModule::EchoInputData) => echo_step(request),
            Some(EndpointModule::Llamacpp) => llamacpp_step(request),
        },
    }
}

/// The second half of processing `request`, for any report. A fault becomes
/// an error outcome of this one request.
pub open spec fn second_half(request: RequestUnitView, report: ModuleReportView) -> Result<
    RequestUnitView,
    Seq<char>,
> {
    match report {
        ModuleReportView::Exited { success, stdout, stderr } => llamacpp_outcome(
            request,
            success,
            utf8_lossy_text(stdout),
            stderr,
        ),
        ModuleReportView::Fault => Err("Endpoint module failed while processing the request"@),
    }
}

/// Routes a request to its endpoint module and runs the module as far as it
/// goes without outside work. A request that waits for a module call is
/// handed back unchanged beside the call.
pub fn process_request_with_module(request_unit_struct: RequestUnit) -> (step: ModuleStep)
    ensures
        step@ == first_half(request_unit_struct@),
        step matches ModuleStep::Call(unit, _) ==> unit == request_unit_struct,
{
    let module = match &request_unit_struct.endpoint_module_name {
        None => {
            return ModuleStep::Finished(Err("No endpoint module specified".to_string()));
        },
        Some(endpoint_module_name) => {
            let module = find_module_at(endpoint_module_name.as_str());
            if module.is_none() {
                return ModuleStep::Finished(
                    Err(
                        joined(
                            "Endpoint module not found among modules: ",
                            endpoint_module_name.as_str(),
                        ),
                    ),
                );
            }
            module.unwrap()
        },
    };
    match module {
        EndpointModule::EchoInputData => {
            let processed = match parse_echo_input_data(request_unit_struct.body.as_str()) {
                Ok(module_data) => process_echo_request(module_data),
                Err(e) => {
                    return ModuleStep::Finished(
                        Err(joined("Failed to parse request: ", e.as_str())),
                    );
                },
            };
            match processed {
                Ok(module_data) => {
                    let EchoInputDataOutputFields::EchoedString(output) = module_data.output;
                    ModuleStep::Finished(Ok(request_unit_struct.answer(output)))
                },
                Err(e) => ModuleStep::Finished(Err(e)),
            }
        },
        EndpointModule::Llamacpp => {
            match parse_llamacpp_request(request_unit_struct.body.clone()) {
                Ok(module_data) => {
                    let LlamacppInputFields::Prompt(prompt) = module_data.input;
                    ModuleStep::Call(request_unit_struct, ModuleCall::LlamaCli { prompt })
                },
                Err(e) => ModuleStep::Finished(
                    Err(joined("Failed to parse request: ", e.as_str())),
                ),
            }
        },
    }
}

/// Turns the report of a module call into the outcome of the request that
/// waited for it.
pub fn complete_request_with_report(request_unit: RequestUnit, report: ModuleReport) -> (outcome:
    Result<RequestUnit, String>)
    ensures
        outcome_view(outcome) == second_half(request_unit@, report@),
{
    match report {
        ModuleReport::Exited { success, stdout, stderr } => {
            let output_text = decode_utf8_lossy(stdout.as_slice());
            finish_llamacpp_request(request_unit, success, output_text, &stderr)
        },
        ModuleReport::Fault => Err(
            "Endpoint module failed while processing the request".to_string(),
        ),
    }
}

/// An echo request is answered with its own body, whatever the body is: the
/// outcome is the request itself with the body in its response, and no module
/// call is asked for.
pub proof fn lemma_echo_answers_with_the_body(request: RequestUnitView)
    requires
        request.endpoint_module_name.is_some(),
        module_at(request.endpoint_module_name.unwrap()) == Some(EndpointModule::EchoInputData),
    ensures
        first_half(request) == ModuleStepView::Finished(Ok(request.answered(request.body))),
        request.answered(request.body).response_body == Some(request.body),
        request.answered(request.body).id == request.id,
        request.answered(request.body).body == request.body,
{
}

} // verus!
