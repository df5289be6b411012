use cfptime::conf::Conf;
use cfptime::error::CFPError;
use cfptime::response::{conf_response, confs_response};

fn record_json(id: i32, name: &str) -> String {
    format!(
        "{{\"id\": {}, \"name\": \"{}\", \"cfp_deadline\": \"2024-05-01\", \"conf_start_date\": \"2024-09-10\", \"city\": \"Portland\", \"province\": \"OR\", \"country\": \"USA\", \"twitter\": \"@conf\", \"website\": \"https://conf.example\", \"cfp_details\": \"30 minute talks\", \"speaker_benefits\": \"Travel covered\", \"code_of_conduct\": \"https://conf.example/coc\", \"created_at\": \"2024-01-01T00:00:00Z\", \"number_of_days\": 2}}",
        id, name
    )
}

fn assert_record(conf: &Conf, id: i32, name: &str) {
    assert_eq!(conf.id, id);
    assert_eq!(conf.name, name);
    assert_eq!(conf.cfp_deadline, "2024-05-01");
    assert_eq!(conf.conf_start_date, "2024-09-10");
    assert_eq!(conf.city, "Portland");
    assert_eq!(conf.province, "OR");
    assert_eq!(conf.country, "USA");
    assert_eq!(conf.twitter, "@conf");
    assert_eq!(conf.website, "https://conf.example");
    assert_eq!(conf.cfp_details, "30 minute talks");
    assert_eq!(conf.speaker_benefits, "Travel covered");
    assert_eq!(conf.code_of_conduct, "https://conf.example/coc");
    assert_eq!(conf.created_at, "2024-01-01T00:00:00Z");
    assert_eq!(conf.number_of_days, 2);
}

#[test]
fn record_round_trips_through_a_200_response() {
    let body = record_json(1729, "RustConf");
    let conf = conf_response(200, &body).unwrap();
    assert_record(&conf, 1729, "RustConf");
}

#[test]
fn record_list_round_trips_in_server_order() {
    let body = format!("[{}, {}]", record_json(1, "First"), record_json(2, "Second"));
    let confs = confs_response(200, &body).unwrap();
    assert_eq!(confs.len(), 2);
    assert_record(&confs[0], 1, "First");
    assert_record(&confs[1], 2, "Second");
}

#[test]
fn empty_list_decodes_to_no_records() {
    let confs = confs_response(200, "[]").unwrap();
    assert!(confs.is_empty());
}

#[test]
fn non_success_status_carries_code_and_body() {
    match conf_response(404, "not found") {
        Err(CFPError::Status { status_code, body }) => {
            assert_eq!(status_code, 404);
            assert_eq!(body, "not found");
        }
        other => panic!("expected a status error, got {:?}", other.is_ok()),
    }
    match confs_response(404, "not found") {
        Err(CFPError::Status { status_code, body }) => {
            assert_eq!(status_code, 404);
            assert_eq!(body, "not found");
        }
        other => panic!("expected a status error, got {:?}", other.is_ok()),
    }
}

#[test]
fn status_error_wins_over_body_shape() {
    let body = record_json(1, "Fine");
    let err = conf_response(500, &body).unwrap_err();
    assert!(err.is_status());
    assert!(!err.is_decode());
    assert!(!err.is_transport());
}

#[test]
fn invalid_json_on_200_is_a_decode_error() {
    let err = conf_response(200, "not json").unwrap_err();
    assert!(err.is_decode());
    assert!(!err.is_status());
    let err = confs_response(200, "not json").unwrap_err();
    assert!(err.is_decode());
}

#[test]
fn unknown_fields_are_ignored() {
    let body = record_json(7, "Extra").replace(
        "\"number_of_days\": 2}",
        "\"number_of_days\": 2, \"venue\": {\"rooms\": [1, 2.5, -3e2], \"open\": true, \"x\": null}}",
    );
    let conf = conf_response(200, &body).unwrap();
    assert_record(&conf, 7, "Extra");
}

#[test]
fn missing_field_is_a_decode_error() {
    let body = record_json(7, "NoDays").replace(", \"number_of_days\": 2", "");
    assert!(conf_response(200, &body).unwrap_err().is_decode());
}

#[test]
fn duplicate_field_is_a_decode_error() {
    let body = record_json(7, "Twice").replace(
        "\"number_of_days\": 2}",
        "\"number_of_days\": 2, \"id\": 7}",
    );
    assert!(conf_response(200, &body).unwrap_err().is_decode());
}

#[test]
fn wrong_field_type_is_a_decode_error() {
    let body = record_json(7, "BadId").replace("\"id\": 7", "\"id\": \"7\"");
    assert!(conf_response(200, &body).unwrap_err().is_decode());
}

#[test]
fn id_overflowing_i32_is_a_decode_error() {
    let body = record_json(7, "BigId").replace("\"id\": 7", "\"id\": 3000000000");
    assert!(conf_response(200, &body).unwrap_err().is_decode());
}

#[test]
fn negative_id_decodes() {
    let body = record_json(7, "NegId").replace("\"id\": 7", "\"id\": -12");
    assert_eq!(conf_response(200, &body).unwrap().id, -12);
}

#[test]
fn trailing_garbage_is_a_decode_error() {
    let body = format!("{} trailing", record_json(7, "Tail"));
    assert!(conf_response(200, &body).unwrap_err().is_decode());
}

#[test]
fn trailing_comma_is_a_decode_error() {
    let body = format!("[{},]", record_json(7, "Comma"));
    assert!(confs_response(200, &body).unwrap_err().is_decode());
}

#[test]
fn surrounding_whitespace_is_tolerated() {
    let body = format!("\n\t {} \r\n", record_json(9, "Spaced"));
    assert_eq!(conf_response(200, &body).unwrap().id, 9);
}

#[test]
fn string_escapes_decode() {
    let body = record_json(7, "A\\\"B\\\\C\\nD\\u0041E\\u00e9F");
    let conf = conf_response(200, &body).unwrap();
    assert_eq!(conf.name, "A\"B\\C\nDAE\u{e9}F");
}

#[test]
fn surrogate_pair_escape_decodes_to_one_character() {
    let body = record_json(7, "pair:\\uD83D\\uDE00");
    let conf = conf_response(200, &body).unwrap();
    assert_eq!(conf.name, "pair:\u{1F600}");
}

#[test]
fn lone_surrogate_escape_is_a_decode_error() {
    let body = record_json(7, "bad:\\uD83D");
    assert!(conf_response(200, &body).unwrap_err().is_decode());
}

#[test]
fn nesting_beyond_the_depth_bound_is_a_decode_error() {
    let deep = format!("{}true{}", "[".repeat(80), "]".repeat(80));
    let body = record_json(7, "Deep").replace(
        "\"number_of_days\": 2}",
        &format!("\"number_of_days\": 2, \"extra\": {}}}", deep),
    );
    assert!(conf_response(200, &body).unwrap_err().is_decode());
}

#[test]
fn moderate_nesting_in_unknown_fields_decodes() {
    let deep = format!("{}true{}", "[".repeat(20), "]".repeat(20));
    let body = record_json(7, "Shallow").replace(
        "\"number_of_days\": 2}",
        &format!("\"number_of_days\": 2, \"extra\": {}}}", deep),
    );
    assert_record(&conf_response(200, &body).unwrap(), 7, "Shallow");
}

#[test]
fn decoded_fields_agree_with_a_reference_json_parser() {
    let body = record_json(1729, "CrossCheck");
    let conf = conf_response(200, &body).unwrap();
    let value: serde_json::Value = serde_json::from_str(&body).unwrap();
    assert_eq!(i64::from(conf.id), value.get("id").unwrap().as_i64().unwrap());
    assert_eq!(conf.name, value.get("name").unwrap().as_str().unwrap());
    assert_eq!(conf.city, value.get("city").unwrap().as_str().unwrap());
    assert_eq!(
        i64::from(conf.number_of_days),
        value.get("number_of_days").unwrap().as_i64().unwrap()
    );
}

#[test]
fn transport_error_variant_is_distinguishable() {
    let err = CFPError::Transport {
        message: String::from("connection reset"),
    };
    assert!(err.is_transport());
    assert!(!err.is_status());
    assert!(!err.is_decode());
}

#[test]
fn status_error_message_names_code_and_body() {
    let err = conf_response(404, "not found").unwrap_err();
    assert_eq!(err.message(), "CFPError: status code -> 404, body -> not found");
}
