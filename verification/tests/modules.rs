use fiddler_crab::endpoint_modules::echo_input_data::input_enum::EchoInputDataFields;
use fiddler_crab::endpoint_modules::echo_input_data::module::process_echo_request;
use fiddler_crab::endpoint_modules::echo_input_data::module_data::EchoInputDataModuleData;
use fiddler_crab::endpoint_modules::echo_input_data::output_enum::EchoInputDataOutputFields;
use fiddler_crab::endpoint_modules::echo_input_data::parse::parse_echo_input_data;
use fiddler_crab::endpoint_modules::llamacpp::input_enum::LlamacppInputFields;
use fiddler_crab::endpoint_modules::llamacpp::module_data::LlamacppModuleData;
use fiddler_crab::endpoint_modules::llamacpp::output_enum::LlamacppOutputFields;
use fiddler_crab::endpoint_modules::llamacpp::parse::parse_llamacpp_request;
use fiddler_crab::registry::{
    endpoint_module_path, find_module, find_module_at, module_exists,
    validate_endpoint_module_exists, EndpointModule,
};
use fiddler_crab::request_unit::RequestUnit;
use fiddler_crab::endpoint_modules::llamacpp::module::finish_llamacpp_request;
use fiddler_crab::worker::{
    complete_request_with_report, process_request_with_module, ModuleCall, ModuleReport,
    ModuleStep,
};

fn request_for(endpoint: &str, body: &str) -> RequestUnit {
    RequestUnit::new(1, endpoint_module_path(endpoint), body.to_string())
}

#[test]
fn echo_parse_wraps_the_whole_body() {
    let parsed = parse_echo_input_data("/echo_input_data/hello").unwrap();
    assert_eq!(
        parsed,
        EchoInputDataModuleData {
            input: EchoInputDataFields::InputString("/echo_input_data/hello".to_string()),
            output: EchoInputDataOutputFields::EchoedString(String::new()),
        }
    );
}

#[test]
fn echo_parse_accepts_the_empty_body() {
    let parsed = parse_echo_input_data("").unwrap();
    assert_eq!(parsed.input, EchoInputDataFields::InputString(String::new()));
}

#[test]
fn echo_process_copies_input_to_output() {
    let data = EchoInputDataModuleData {
        input: EchoInputDataFields::InputString("caf\u{e9} \u{1f980}".to_string()),
        output: EchoInputDataOutputFields::EchoedString("stale".to_string()),
    };
    let processed = process_echo_request(data).unwrap();
    assert_eq!(processed.input, EchoInputDataFields::InputString("caf\u{e9} \u{1f980}".to_string()));
    assert_eq!(
        processed.output,
        EchoInputDataOutputFields::EchoedString("caf\u{e9} \u{1f980}".to_string())
    );
}

#[test]
fn echo_request_is_answered_with_its_body() {
    for body in ["", "x", "/echo_input_data/some text", "line\r\nbreak\0\0", "\u{4f60}\u{597d}"] {
        match process_request_with_module(request_for("echo_input_data", body)) {
            ModuleStep::Finished(Ok(unit)) => {
                assert_eq!(unit.id, 1);
                assert_eq!(unit.body, body);
                assert_eq!(unit.response_body, Some(body.to_string()));
                assert_eq!(unit.output_for_response, Some(body.to_string()));
                assert_eq!(unit.response_status, Some(200));
                assert_eq!(
                    unit.response_headers,
                    Some(vec![("Content-Type".to_string(), "text/plain".to_string())])
                );
            },
            other => panic!("unexpected step {:?}", other),
        }
    }
}

#[test]
fn llamacpp_parse_removes_nul_characters() {
    let parsed = parse_llamacpp_request("a\0b\0\0c\0".to_string()).unwrap();
    assert_eq!(
        parsed,
        LlamacppModuleData {
            input: LlamacppInputFields::Prompt("abc".to_string()),
            output: LlamacppOutputFields::OutputText(String::new()),
        }
    );
}

#[test]
fn llamacpp_parse_keeps_a_body_without_nul() {
    let parsed = parse_llamacpp_request("tell me \u{e9}".to_string()).unwrap();
    assert_eq!(parsed.input, LlamacppInputFields::Prompt("tell me \u{e9}".to_string()));
    let parsed = parse_llamacpp_request(String::new()).unwrap();
    assert_eq!(parsed.input, LlamacppInputFields::Prompt(String::new()));
    let parsed = parse_llamacpp_request("\0\0".to_string()).unwrap();
    assert_eq!(parsed.input, LlamacppInputFields::Prompt(String::new()));
}

#[test]
fn registry_holds_the_two_modules() {
    assert_eq!(find_module("echo_input_data"), Some(EndpointModule::EchoInputData));
    assert_eq!(find_module("llamacpp"), Some(EndpointModule::Llamacpp));
    assert_eq!(find_module("unknown_endpoint"), None);
    assert_eq!(find_module(""), None);
    assert_eq!(find_module("echo_input_dat"), None);
    assert_eq!(find_module("llamacpp "), None);
    assert_eq!(EndpointModule::EchoInputData.endpoint_name(), "echo_input_data");
    assert_eq!(EndpointModule::Llamacpp.endpoint_name(), "llamacpp");
}

#[test]
fn module_exists_by_endpoint_name() {
    assert!(module_exists("echo_input_data"));
    assert!(module_exists("llamacpp"));
    assert!(!module_exists("unknown_endpoint"));
    assert!(!module_exists("endpoint_modules/llamacpp/module.rs"));
}

#[test]
fn module_path_is_built_from_the_endpoint_name() {
    assert_eq!(endpoint_module_path("llamacpp"), "endpoint_modules/llamacpp/module.rs");
    assert_eq!(endpoint_module_path(""), "endpoint_modules//module.rs");
}

#[test]
fn validate_endpoint_module_exists_by_module_path() {
    assert!(validate_endpoint_module_exists("endpoint_modules/echo_input_data/module.rs"));
    assert!(validate_endpoint_module_exists("endpoint_modules/llamacpp/module.rs"));
    assert!(!validate_endpoint_module_exists("endpoint_modules/unknown_endpoint/module.rs"));
    assert!(!validate_endpoint_module_exists("llamacpp"));
    assert!(!validate_endpoint_module_exists("endpoint_modules/llamacpp/module.rs/"));
    assert_eq!(
        find_module_at("endpoint_modules/llamacpp/module.rs"),
        Some(EndpointModule::Llamacpp)
    );
    assert_eq!(find_module_at("endpoint_modules/llamacpp"), None);
}

#[test]
fn request_without_module_is_an_error() {
    let mut unit = request_for("echo_input_data", "body");
    unit.endpoint_module_name = None;
    assert_eq!(
        process_request_with_module(unit),
        ModuleStep::Finished(Err("No endpoint module specified".to_string()))
    );
}

#[test]
fn unknown_endpoint_is_not_found() {
    let step = process_request_with_module(request_for("unknown_endpoint", "/unknown_endpoint/x"));
    match step {
        ModuleStep::Finished(Err(message)) => {
            assert!(message.contains("not found"));
            assert_eq!(
                message,
                "Endpoint module not found among modules: endpoint_modules/unknown_endpoint/module.rs"
            );
        },
        other => panic!("unexpected step {:?}", other),
    }
}

#[test]
fn llamacpp_request_asks_for_the_call() {
    let unit = request_for("llamacpp", "why\0 is the sky blue\0\0");
    let expected = unit.clone();
    match process_request_with_module(unit) {
        ModuleStep::Call(waiting, ModuleCall::LlamaCli { prompt }) => {
            assert_eq!(prompt, "why is the sky blue");
            assert_eq!(waiting, expected);
        },
        other => panic!("unexpected step {:?}", other),
    }
}

#[test]
fn successful_exit_answers_with_decoded_output() {
    let unit = request_for("llamacpp", "p");
    let outcome = finish_llamacpp_request(unit, true, "the answer".to_string(), &vec![1, 2]);
    let unit = outcome.unwrap();
    assert_eq!(unit.response_body, Some("the answer".to_string()));
    assert_eq!(unit.output_for_response, Some("the answer".to_string()));
    assert_eq!(unit.response_status, Some(200));
    assert_eq!(unit.body, "p");
}

#[test]
fn failed_exit_lists_standard_error_bytes() {
    let unit = request_for("llamacpp", "p");
    let outcome = finish_llamacpp_request(unit, false, "ignored".to_string(), &vec![104, 105, 0, 255]);
    assert_eq!(outcome, Err("Llama.cpp execution error: [104, 105, 0, 255]".to_string()));
    let unit = request_for("llamacpp", "p");
    let outcome = finish_llamacpp_request(unit, false, String::new(), &Vec::new());
    assert_eq!(outcome, Err("Llama.cpp execution error: []".to_string()));
}

#[test]
fn report_output_is_decoded_lossily() {
    let report = ModuleReport::Exited {
        success: true,
        stdout: vec![b'o', b'k', 0xff, 0xc3, 0xa9],
        stderr: Vec::new(),
    };
    let unit = complete_request_with_report(request_for("llamacpp", "p"), report).unwrap();
    assert_eq!(unit.response_body, Some("ok\u{fffd}\u{e9}".to_string()));
}

#[test]
fn report_of_failed_exit_is_an_error() {
    let report = ModuleReport::Exited { success: false, stdout: b"partial".to_vec(), stderr: vec![7] };
    assert_eq!(
        complete_request_with_report(request_for("llamacpp", "p"), report),
        Err("Llama.cpp execution error: [7]".to_string())
    );
}

#[test]
fn fault_report_is_an_error() {
    assert_eq!(
        complete_request_with_report(request_for("llamacpp", "p"), ModuleReport::Fault),
        Err("Endpoint module failed while processing the request".to_string())
    );
}
