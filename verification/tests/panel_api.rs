use onepanel_cli::api::{
    check_api, check_api_code, composes_from_response, file_content, parse_response, unwrap_data,
    uploaded_path,
};
use onepanel_cli::error::CliError;
use onepanel_cli::json::{as_u64, get, JsonValue};
use onepanel_cli::panel::{api_base, auth_headers, auth_headers_at, clean_host, v2_base, ApiVersion, OnePanelConfig};

fn json(s: &str) -> JsonValue {
    parse_response(s).expect("valid json")
}

fn cfg(host: &str, port: u16, scheme: &str) -> OnePanelConfig {
    OnePanelConfig::new(host.to_string(), port, "key".to_string(), scheme.to_string(), false)
}

#[test]
fn config_new_keeps_fields() {
    let c = OnePanelConfig::new("h".into(), 1, "k".into(), "https".into(), true);
    assert_eq!((c.host.as_str(), c.port, c.api_key.as_str(), c.scheme.as_str(), c.insecure_skip_tls_verify), ("h", 1, "k", "https", true));
}

#[test]
fn host_is_cleaned() {
    assert_eq!(clean_host("  https://panel.example.com/// "), "panel.example.com");
    assert_eq!(clean_host("http://http://x/"), "x");
    assert_eq!(clean_host("https://http://x"), "http://x");
    assert_eq!(clean_host("10.0.0.1"), "10.0.0.1");
}

#[test]
fn base_address_has_scheme_host_port_and_version() {
    assert_eq!(v2_base(&cfg(" http://panel.local/ ", 9999, "http")), "http://panel.local:9999/api/v2");
    assert_eq!(api_base(&cfg("a", 0, "https"), ApiVersion::V1), "https://a:0/api/v1");
    assert_eq!(v2_base(&cfg("a", 65535, "https")), "https://a:65535/api/v2");
}

#[test]
fn signature_is_md5_of_prefix_key_and_time() {
    let (token, ts) = auth_headers_at("  key ", 1700000000);
    assert_eq!(token, "014836046d21f7ed63e57f265918ed2f");
    assert_eq!(ts, "1700000000");
    let (token, ts) = auth_headers_at("abc", -5);
    assert_eq!(token, "4199da165b1d55040d54bf48db93f63f");
    assert_eq!(ts, "-5");
}

#[test]
fn current_signature_matches_its_timestamp() {
    let (token, ts) = auth_headers("key");
    let t: i64 = ts.parse().unwrap();
    assert_eq!(auth_headers_at("key", t).0, token);
}

#[test]
fn response_with_html_prefix_is_read_from_first_brace() {
    let v = parse_response("<html>oops</html>{\"code\":200,\"data\":1}").unwrap();
    assert_eq!(get(&v, "code").and_then(as_u64), Some(200));
    assert_eq!(get(&v, "data").and_then(as_u64), Some(1));
    assert!(parse_response("<html>no json</html>").is_err());
    assert!(parse_response("").is_err());
}

#[test]
fn api_code_is_checked() {
    assert!(check_api(json("{\"code\":200}"), "x").is_ok());
    assert!(check_api(json("{\"message\":\"no code\"}"), "x").is_ok());
    assert!(check_api(json("{\"code\":\"500\"}"), "x").is_ok());
    match check_api(json("{\"code\":401,\"message\":\"denied\"}"), "login") {
        Err(CliError::Api { action, code, message }) => {
            assert_eq!((action.as_str(), code, message.as_str()), ("login", 401, "denied"));
        }
        _ => panic!("expected refusal"),
    }
    match check_api(json("{\"code\":-1}"), "x") {
        Err(CliError::Api { message, .. }) => assert_eq!(message, "Unknown error"),
        _ => panic!("expected refusal"),
    }
}

#[test]
fn raw_answers_are_checked_in_order() {
    assert!(matches!(check_api_code(false, "404 Not Found", "{}".into(), "a"), Err(CliError::HttpStatus { .. })));
    assert!(matches!(check_api_code(true, "200 OK", "nope".into(), "a"), Err(CliError::ResponseParse { .. })));
    assert!(matches!(check_api_code(true, "200 OK", "{\"code\":500}".into(), "a"), Err(CliError::Api { code: 500, .. })));
    assert!(check_api_code(true, "200 OK", "{\"code\":200,\"data\":{}}".into(), "a").is_ok());
}

#[test]
fn data_envelope_is_unwrapped() {
    let v = json("{\"data\":{\"x\":1}}");
    assert_eq!(get(unwrap_data(&v), "x").and_then(as_u64), Some(1));
    let w = json("{\"x\":2}");
    assert_eq!(get(unwrap_data(&w), "x").and_then(as_u64), Some(2));
}

#[test]
fn file_content_is_extracted() {
    assert_eq!(file_content(&json("{\"data\":{\"content\":\"a: 1\"}}")).unwrap(), "a: 1");
    assert!(matches!(file_content(&json("{\"data\":{}}")), Err(CliError::MissingFileContent)));
    assert!(matches!(file_content(&json("{\"content\":\"x\"}")), Err(CliError::MissingFileContent)));
}

#[test]
fn upload_path_comes_from_answer_or_directory() {
    assert_eq!(uploaded_path(&json("{\"data\":\"/srv/f.tar\"}"), "/tmp", "f.tar"), "/srv/f.tar");
    assert_eq!(uploaded_path(&json("{\"data\":null}"), "/opt/1panel/tmp//", "f.tar"), "/opt/1panel/tmp/f.tar");
}

#[test]
fn composes_are_listed_with_name_and_path() {
    let v = json("{\"data\":{\"items\":[{\"name\":\"wiki\",\"path\":\"/p/wiki.yml\",\"status\":\"Running\"},{\"name\":\"\",\"path\":\"/x\"},{\"name\":\"db\",\"path\":\"/p/db.yml\"}]}}");
    let list = composes_from_response(&v);
    assert_eq!(list.len(), 2);
    assert_eq!(list[0].name, "wiki");
    assert_eq!(list[0].status.as_deref(), Some("\"Running\""));
    assert_eq!(list[1].path, "/p/db.yml");
    assert_eq!(list[1].status, None);
    assert!(composes_from_response(&json("{\"data\":[]}")).is_empty());
}

#[test]
fn v1_is_tried_when_v2_is_missing_or_unreachable() {
    assert!(onepanel_cli::panel::retry_with_v1(None));
    assert!(onepanel_cli::panel::retry_with_v1(Some(404)));
    assert!(onepanel_cli::panel::retry_with_v1(Some(503)));
    assert!(onepanel_cli::panel::retry_with_v1(Some(502)));
    assert!(onepanel_cli::panel::retry_with_v1(Some(401)));
    assert!(!onepanel_cli::panel::retry_with_v1(Some(200)));
    assert!(!onepanel_cli::panel::retry_with_v1(Some(299)));
}

#[test]
fn answer_after_a_v1_retry() {
    assert!(onepanel_cli::panel::report_v1_answer(Some(503), Some(200)));
    assert!(!onepanel_cli::panel::report_v1_answer(Some(503), Some(404)));
    assert!(!onepanel_cli::panel::report_v1_answer(Some(503), None));
    assert!(onepanel_cli::panel::report_v1_answer(None, Some(500)));
    assert!(onepanel_cli::panel::report_v1_answer(None, None));
}

#[test]
fn clock_readings_round_down_to_whole_seconds() {
    assert_eq!(onepanel_cli::panel::timestamp_from(Ok(1700000000)), 1700000000);
    assert_eq!(onepanel_cli::panel::timestamp_from(Err((1, 500_000_000))), -2);
    assert_eq!(onepanel_cli::panel::timestamp_from(Err((3, 0))), -3);
    assert_eq!(onepanel_cli::panel::timestamp_from(Ok(u64::MAX)), i64::MAX);
    assert_eq!(onepanel_cli::panel::timestamp_from(Err((u64::MAX, 1))), i64::MIN);
}

#[test]
fn braces_before_the_json_are_skipped() {
    let v = parse_response("<style>a{color:red}</style>{\"code\":200,\"data\":7}").unwrap();
    assert_eq!(as_u64(get(&v, "data").unwrap()), Some(7));
    assert!(parse_response("<p>{broken</p>").is_err());
}
