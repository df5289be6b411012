use cfptime::client::{ApiRequest, CFPTime, Method, MAX_TRANSIENT_RETRIES};

#[test]
fn default_base_url_is_production_endpoint() {
    let client = CFPTime::new();
    assert_eq!(client.base_url, "https://api.cfptime.org/api/");
}

#[test]
fn cfp_by_id_builds_exact_path() {
    let client = CFPTime::new();
    let req = client.get_cfp_request(1729);
    assert_eq!(req.url, "https://api.cfptime.org/api/cfps/1729/");
    assert!(matches!(req.method, Method::Get));
    assert!(req.body.is_none());
}

#[test]
fn conf_by_id_builds_exact_path() {
    let client = CFPTime::new();
    let req = client.get_conf_request(42);
    assert_eq!(req.url, "https://api.cfptime.org/api/conferences/42/");
    assert!(matches!(req.method, Method::Get));
    assert!(req.body.is_none());
}

#[test]
fn list_operations_build_exact_paths() {
    let client = CFPTime::new();
    assert_eq!(client.get_cfps_request().url, "https://api.cfptime.org/api/cfps");
    assert_eq!(
        client.get_confs_request().url,
        "https://api.cfptime.org/api/conferences"
    );
    assert_eq!(
        client.get_upcoming_request().url,
        "https://api.cfptime.org/api/upcoming"
    );
}

#[test]
fn negative_and_zero_ids_render_in_decimal() {
    let client = CFPTime::with_base_url(String::from("http://localhost:8080/api/"));
    assert_eq!(client.get_cfp_request(0).url, "http://localhost:8080/api/cfps/0/");
    assert_eq!(client.get_cfp_request(-5).url, "http://localhost:8080/api/cfps/-5/");
    assert_eq!(
        client.get_cfp_request(i32::MIN).url,
        "http://localhost:8080/api/cfps/-2147483648/"
    );
}

#[test]
fn url_join_composes_one_slash_between_base_and_path() {
    let slash_base = CFPTime::with_base_url(String::from("http://x/api/"));
    assert_eq!(slash_base.request(Method::Get, "cfps", None).url, "http://x/api/cfps");
    assert_eq!(slash_base.request(Method::Get, "/cfps", None).url, "http://x/api/cfps");
    let bare_base = CFPTime::with_base_url(String::from("http://x/api"));
    assert_eq!(bare_base.request(Method::Get, "cfps", None).url, "http://x/api/cfps");
    assert_eq!(bare_base.request(Method::Get, "/cfps", None).url, "http://x/api/cfps");
}

#[test]
fn get_and_delete_requests_never_carry_a_body() {
    let client = CFPTime::new();
    let body = Some(String::from("{}"));
    assert!(client.request(Method::Get, "cfps", body.clone()).body.is_none());
    assert!(client.request(Method::Delete, "cfps/1/", body.clone()).body.is_none());
    let posted = client.request(Method::Post, "cfps", body.clone());
    assert_eq!(posted.body, Some(String::from("{}")));
}

#[test]
fn every_request_carries_the_json_content_type() {
    let client = CFPTime::new();
    let req: ApiRequest = client.get_cfps_request();
    assert_eq!(req.content_type, "application/json; charset=utf-8");
    let req2 = client.request(Method::Put, "cfps", Some(String::from("{}")));
    assert_eq!(req2.content_type, "application/json; charset=utf-8");
}

#[test]
fn transport_retry_ceiling_is_three() {
    assert_eq!(MAX_TRANSIENT_RETRIES, 3);
}
