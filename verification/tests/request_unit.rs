use fiddler_crab::request_unit::RequestUnit;

#[test]
fn new_request_has_an_empty_response() {
    let unit = RequestUnit::new(
        12,
        "endpoint_modules/echo_input_data/module.rs".to_string(),
        "/echo_input_data/x".to_string(),
    );
    assert_eq!(
        unit,
        RequestUnit {
            id: 12,
            endpoint_module_name: Some("endpoint_modules/echo_input_data/module.rs".to_string()),
            body: "/echo_input_data/x".to_string(),
            output_for_response: None,
            response_status: None,
            response_headers: None,
            response_body: None,
        }
    );
}

#[test]
fn answer_fills_the_response_and_keeps_the_request() {
    let unit = RequestUnit::new(12, "m".to_string(), "in".to_string()).answer("out".to_string());
    assert_eq!(
        unit,
        RequestUnit {
            id: 12,
            endpoint_module_name: Some("m".to_string()),
            body: "in".to_string(),
            output_for_response: Some("out".to_string()),
            response_status: Some(200),
            response_headers: Some(vec![("Content-Type".to_string(), "text/plain".to_string())]),
            response_body: Some("out".to_string()),
        }
    );
}

#[test]
fn answer_replaces_an_earlier_answer() {
    let unit = RequestUnit::new(1, "m".to_string(), "in".to_string())
        .answer("first".to_string())
        .answer(String::new());
    assert_eq!(unit.response_body, Some(String::new()));
    assert_eq!(unit.output_for_response, Some(String::new()));
    assert_eq!(unit.response_status, Some(200));
}
