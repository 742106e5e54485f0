use yeetlight::connection::{BulbConnection, accept_line, correlate, pair_props, result_values};
use yeetlight::params::{Brightness, Color, Effect, Percentage, Temperature};
use yeetlight::response::parse_response;

#[test]
fn test_power() {
    let mut connection = BulbConnection::new();
    let request = connection.set_power(true, Effect::Smooth(400));
    let expected = r#"{"id":1,"method":"set_power","params":["on","smooth",400]}"#;
    assert_eq!(request.line, format!("{expected}\r\n"));
    assert_eq!(request.id, 1);

    let mut connection = BulbConnection::new();
    let request = connection.set_power(false, Effect::Sudden);
    let expected = r#"{"id":1,"method":"set_power","params":["off","sudden",0]}"#;
    assert_eq!(request.line, format!("{expected}\r\n"));
    assert_eq!(request.id, 1);
}

#[test]
fn correlation_ids_increase_per_connection() {
    let mut connection = BulbConnection::new();
    let first = connection.set_power(true, Effect::Smooth(500));
    let second = connection.set_brightness(Brightness(80), Effect::Smooth(500));
    assert_eq!(first.id, 1);
    assert_eq!(second.id, 2);
    assert!(second.line.starts_with(r#"{"id":2,"method":"set_bright""#));
}

#[test]
fn typed_commands_encode_exactly() {
    let mut connection = BulbConnection::new();
    let request = connection.set_brightness(Brightness(30), Effect::Smooth(500));
    assert_eq!(
        request.line,
        "{\"id\":1,\"method\":\"set_bright\",\"params\":[30,\"smooth\",500]}\r\n"
    );
    let request = connection.adjust_brightness(Percentage(-20), 60000);
    assert_eq!(
        request.line,
        "{\"id\":2,\"method\":\"adjust_bright\",\"params\":[-20,60000]}\r\n"
    );
    let request = connection.set_temperature(Temperature(4700), Effect::Sudden);
    assert_eq!(
        request.line,
        "{\"id\":3,\"method\":\"set_ct_abx\",\"params\":[4700,\"sudden\",0]}\r\n"
    );
    let request = connection.set_color(Color(0xff0000), Effect::Smooth(500));
    assert_eq!(
        request.line,
        "{\"id\":4,\"method\":\"set_rgb\",\"params\":[16711680,\"smooth\",500]}\r\n"
    );
}

#[test]
fn get_props_encodes_names_in_order() {
    let mut connection = BulbConnection::new();
    let props = vec!["power".to_string(), "bright".to_string(), "ct".to_string()];
    let request = connection.get_props(&props);
    assert_eq!(
        request.line,
        "{\"id\":1,\"method\":\"get_prop\",\"params\":[\"power\",\"bright\",\"ct\"]}\r\n"
    );
}

#[test]
fn method_strings_are_escaped() {
    let mut connection = BulbConnection::new();
    let props = vec!["po\"wer\\".to_string()];
    let request = connection.get_props(&props);
    assert_eq!(
        request.line,
        "{\"id\":1,\"method\":\"get_prop\",\"params\":[\"po\\\"wer\\\\\"]}\r\n"
    );
}

#[test]
fn parse_response_accepts_result_lines() {
    let response = parse_response(r#"{"id":7,"result":["on","100"]}"#).unwrap();
    assert_eq!(response.id, 7);
    let values = response.result.unwrap();
    assert_eq!(values, vec!["on".to_string(), "100".to_string()]);
    assert!(response.error.is_none());
}

#[test]
fn parse_response_accepts_empty_and_null_results() {
    let response = parse_response(r#"{"id":1,"result":[]}"#).unwrap();
    assert_eq!(response.result.unwrap().len(), 0);
    let response = parse_response(r#"{"id":1,"result":null}"#).unwrap();
    assert!(response.result.is_none());
    let response = parse_response(r#"{"id":3}"#).unwrap();
    assert_eq!(response.id, 3);
    assert!(response.result.is_none());
    assert!(response.error.is_none());
}

#[test]
fn parse_response_accepts_error_objects() {
    let response =
        parse_response(r#"{"id":2,"error":{"code":-1,"message":"method not supported"}}"#)
            .unwrap();
    assert_eq!(response.id, 2);
    let error = response.error.unwrap();
    assert_eq!(error.code, -1);
    assert_eq!(error.message, "method not supported");

    let response =
        parse_response(r#"{"id":2,"result":null,"error":{"code":42,"message":"x"}}"#).unwrap();
    assert_eq!(response.error.unwrap().code, 42);
}

#[test]
fn parse_response_rejects_malformed_lines() {
    assert!(parse_response("").is_none());
    assert!(parse_response("hello").is_none());
    assert!(parse_response(r#"{"id":}"#).is_none());
    assert!(parse_response(r#"{"id":1"#).is_none());
    assert!(parse_response(r#"{"id":70000}"#).is_none());
    assert!(parse_response(r#"{"id":1,"result":["unterminated}"#).is_none());
    assert!(parse_response(r#"{"method":"props","params":{"power":"on"}}"#).is_none());
    assert!(parse_response(r#"{"id":1,"result":["on"]} trailing"#).is_none());
}

#[test]
fn accept_line_requires_matching_id() {
    // A response under another id is discarded, not handed back.
    assert!(accept_line(5, "{\"id\":4,\"result\":[\"ok\"]}\r\n").is_none());
    let response = accept_line(5, "{\"id\":5,\"result\":[\"ok\"]}\r\n").unwrap();
    assert_eq!(response.id, 5);
}

#[test]
fn stray_response_before_real_one_is_skipped() {
    let lines = vec![
        "not json at all".to_string(),
        "{\"id\":9,\"result\":[\"stale\"]}\r\n".to_string(),
        "{\"id\":3,\"result\":[\"on\"]}\r\n".to_string(),
        "{\"id\":3,\"result\":[\"too-late\"]}\r\n".to_string(),
    ];
    let (position, response) = correlate(3, &lines).unwrap();
    assert_eq!(position, 2);
    assert_eq!(response.id, 3);
    assert_eq!(response.result.unwrap(), vec!["on".to_string()]);
}

#[test]
fn correlate_reports_nothing_without_a_match() {
    let lines = vec!["{\"id\":9,\"result\":[\"x\"]}".to_string(), "garbage".to_string()];
    assert!(correlate(3, &lines).is_none());
}

#[test]
fn result_values_keep_bulb_order() {
    let response = parse_response(r#"{"id":1,"result":["on","80","4700"]}"#).unwrap();
    let values = result_values(&response);
    assert_eq!(values, vec!["on".to_string(), "80".to_string(), "4700".to_string()]);
}

#[test]
fn pair_props_keeps_input_order_and_duplicates() {
    let props = vec!["bright".to_string(), "ct".to_string(), "bright".to_string()];
    let values = vec!["80".to_string(), "4700".to_string(), "80".to_string()];
    let pairs = pair_props(&props, &values);
    assert_eq!(pairs.len(), 3);
    assert_eq!(pairs[0], ("bright".to_string(), "80".to_string()));
    assert_eq!(pairs[1], ("ct".to_string(), "4700".to_string()));
    assert_eq!(pairs[2], ("bright".to_string(), "80".to_string()));
}

#[test]
fn bulb_address_uses_fixed_port() {
    let bulb = yeetlight::bulb::Bulb::new("192.168.2.162");
    assert_eq!(bulb.host(), "192.168.2.162");
    assert_eq!(bulb.port(), 55443);
}

#[test]
fn get_props_with_no_names_encodes_empty_params() {
    let mut connection = BulbConnection::new();
    let request = connection.get_props(&Vec::new());
    assert_eq!(request.line, "{\"id\":1,\"method\":\"get_prop\",\"params\":[]}\r\n");
}

#[test]
fn correlate_on_no_lines_reports_nothing() {
    let lines: Vec<String> = Vec::new();
    assert!(correlate(1, &lines).is_none());
}
