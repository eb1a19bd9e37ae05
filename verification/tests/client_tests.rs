use linkedin_ads::client::{
    normalize_response, next_link_href, tunnel_decision, unwrap_body, PlannedBody, RestliClient,
    TunnelMode,
};
use linkedin_ads::errors::RestError;
use linkedin_ads::json::JsonValue;

fn client(mode: TunnelMode) -> RestliClient {
    RestliClient::new(
        "https://api.example.com".to_string(),
        "202404".to_string(),
        "tok".to_string(),
        "2.0.0".to_string(),
        None,
        mode,
    )
}

fn header_value(headers: &[(String, String)], name: &str) -> Option<String> {
    headers.iter().find(|(k, _)| k == name).map(|(_, v)| v.clone())
}

#[test]
fn tunnel_mode_parse_accepts_the_three_modes() {
    assert!(matches!(TunnelMode::parse("auto"), Ok(TunnelMode::Auto)));
    assert!(matches!(TunnelMode::parse("always"), Ok(TunnelMode::Always)));
    assert!(matches!(TunnelMode::parse("never"), Ok(TunnelMode::Never)));
    assert!(TunnelMode::parse("sometimes").is_err());
    assert!(TunnelMode::parse("AUTO").is_err());
}

#[test]
fn tunnel_decision_thresholds() {
    assert!(!tunnel_decision(TunnelMode::Auto, true, 1, 3799));
    assert!(tunnel_decision(TunnelMode::Auto, true, 1, 3800));
    assert!(tunnel_decision(TunnelMode::Always, true, 1, 0));
    assert!(!tunnel_decision(TunnelMode::Always, true, 0, 0));
    assert!(!tunnel_decision(TunnelMode::Never, true, 5, 100000));
    assert!(!tunnel_decision(TunnelMode::Auto, false, 5, 100000));
    assert!(!tunnel_decision(TunnelMode::Always, false, 5, 100000));
}

#[test]
fn build_url_joins_with_one_slash() {
    let c = client(TunnelMode::Auto);
    assert_eq!(c.build_url("/assets"), "https://api.example.com/assets");
    let c2 = RestliClient::new(
        "https://api.example.com///".to_string(),
        "v".to_string(),
        "t".to_string(),
        "p".to_string(),
        Some(30),
        TunnelMode::Auto,
    );
    assert_eq!(c2.build_url("//assets"), "https://api.example.com/assets");
    assert_eq!(
        c.build_url("https://other.example.com/x?y=1"),
        "https://other.example.com/x?y=1"
    );
    assert_eq!(c.build_url("http://other/x"), "http://other/x");
}

// The assembled URL is "https://api.example.com/assets?q=" (33
// characters) plus the value, so a value of 3766 characters lands at
// 3799 and one of 3767 at exactly 3800.
#[test]
fn auto_mode_tunnels_exactly_at_the_url_length_threshold() {
    let c = client(TunnelMode::Auto);
    let query_short = vec![("q".to_string(), "a".repeat(3766))];
    let plan = c
        .plan_call("GET", "/assets", &query_short, &Vec::new(), None)
        .unwrap();
    assert_eq!(plan.method, "GET");
    assert_eq!(plan.query.len(), 1);
    assert!(matches!(plan.body, PlannedBody::NoBody));
    assert!(header_value(&plan.headers, "X-HTTP-Method-Override").is_none());

    let query_long = vec![("q".to_string(), "a".repeat(3767))];
    let plan = c
        .plan_call("GET", "/assets", &query_long, &Vec::new(), None)
        .unwrap();
    assert_eq!(plan.method, "POST");
    assert_eq!(plan.query.len(), 0);
    assert_eq!(
        header_value(&plan.headers, "X-HTTP-Method-Override"),
        Some("GET".to_string())
    );
    match &plan.body {
        PlannedBody::Form(pairs) => assert_eq!(pairs, &query_long),
        other => panic!("expected a form body, got {:?}", other),
    }
}

#[test]
fn always_mode_tunnels_any_get_with_query() {
    let c = client(TunnelMode::Always);
    let query = vec![("q".to_string(), "x".to_string())];
    let plan = c.plan_call("get", "/assets", &query, &Vec::new(), None).unwrap();
    assert_eq!(plan.method, "POST");
    assert_eq!(
        header_value(&plan.headers, "X-HTTP-Method-Override"),
        Some("GET".to_string())
    );
    let plan = c
        .plan_call("GET", "/assets", &Vec::new(), &Vec::new(), None)
        .unwrap();
    assert_eq!(plan.method, "GET");
}

#[test]
fn never_mode_and_post_never_tunnel() {
    let c = client(TunnelMode::Never);
    let query = vec![("q".to_string(), "a".repeat(10000))];
    let plan = c.plan_call("GET", "/assets", &query, &Vec::new(), None).unwrap();
    assert_eq!(plan.method, "GET");

    let c = client(TunnelMode::Always);
    let body = JsonValue::Bool(true);
    let plan = c.plan_call("POST", "/assets", &query, &Vec::new(), Some(body)).unwrap();
    assert_eq!(plan.method, "POST");
    assert!(matches!(plan.body, PlannedBody::Json(JsonValue::Bool(true))));
    assert!(header_value(&plan.headers, "X-HTTP-Method-Override").is_none());
}

#[test]
fn plan_call_attaches_protocol_headers_and_caller_overrides() {
    let c = client(TunnelMode::Auto);
    let plan = c
        .plan_call("GET", "/assets", &Vec::new(), &Vec::new(), None)
        .unwrap();
    assert_eq!(plan.url, "https://api.example.com/assets");
    assert_eq!(header_value(&plan.headers, "Authorization"), Some("Bearer tok".to_string()));
    assert_eq!(header_value(&plan.headers, "Linkedin-Version"), Some("202404".to_string()));
    assert_eq!(header_value(&plan.headers, "X-LinkedIn-Version"), Some("202404".to_string()));
    assert_eq!(header_value(&plan.headers, "X-Restli-Protocol-Version"), Some("2.0.0".to_string()));
    assert_eq!(header_value(&plan.headers, "Accept"), Some("application/json".to_string()));

    let caller = vec![("Accept".to_string(), "text/plain".to_string())];
    let plan = c.plan_call("GET", "/assets", &Vec::new(), &caller, None).unwrap();
    assert_eq!(header_value(&plan.headers, "Accept"), Some("text/plain".to_string()));
}

#[test]
fn plan_call_refuses_unsupported_methods() {
    let c = client(TunnelMode::Auto);
    let r = c.plan_call("PATCH", "/assets", &Vec::new(), &Vec::new(), None);
    assert!(matches!(r, Err(RestError::Input(_))));
}

#[test]
fn plan_put_shapes_a_byte_transfer() {
    let c = client(TunnelMode::Auto);
    let required = vec![("X-Part".to_string(), "1".to_string())];
    let plan = c.plan_put("https://up.example/part1", &required, false);
    assert_eq!(plan.method, "PUT");
    assert_eq!(plan.url, "https://up.example/part1");
    assert_eq!(
        header_value(&plan.headers, "Content-Type"),
        Some("application/octet-stream".to_string())
    );
    assert_eq!(header_value(&plan.headers, "Accept"), Some("application/json".to_string()));
    assert_eq!(header_value(&plan.headers, "X-Part"), Some("1".to_string()));
    assert!(header_value(&plan.headers, "Authorization").is_none());

    let plan = c.plan_put("https://up.example/whole", &Vec::new(), true);
    assert_eq!(header_value(&plan.headers, "Authorization"), Some("Bearer tok".to_string()));
}

#[test]
fn empty_or_blank_bodies_normalize_to_null() {
    let r = normalize_response(200, Vec::new(), "".to_string()).unwrap();
    assert_eq!(r.body, JsonValue::Null);
    let r = normalize_response(204, Vec::new(), " \t\r\n".to_string()).unwrap();
    assert_eq!(r.body, JsonValue::Null);
    let r = normalize_response(200, Vec::new(), "null".to_string()).unwrap();
    assert_eq!(r.body, JsonValue::Null);
}

#[test]
fn unparsable_bodies_fall_back_to_text_without_an_error() {
    let r = normalize_response(200, Vec::new(), "not json".to_string()).unwrap();
    assert_eq!(r.body, JsonValue::Str("not json".to_string()));
}

#[test]
fn json_bodies_parse_into_the_document() {
    let r = normalize_response(200, Vec::new(), "{\"a\":5,\"b\":[true,null]}".to_string()).unwrap();
    assert_eq!(
        r.body,
        JsonValue::Obj(vec![
            ("a".to_string(), JsonValue::Num(5)),
            (
                "b".to_string(),
                JsonValue::Arr(vec![JsonValue::Bool(true), JsonValue::Null])
            ),
        ])
    );
}

#[test]
fn non_success_statuses_carry_the_normalized_body_as_an_error() {
    let r = normalize_response(404, Vec::new(), "{\"message\":\"gone\"}".to_string());
    match r {
        Err(RestError::Protocol { status, body }) => {
            assert_eq!(status, 404);
            assert_eq!(
                body,
                JsonValue::Obj(vec![("message".to_string(), JsonValue::Str("gone".to_string()))])
            );
        }
        other => panic!("expected a protocol error, got {:?}", other),
    }
    assert!(normalize_response(199, Vec::new(), "".to_string()).is_err());
    assert!(normalize_response(300, Vec::new(), "".to_string()).is_err());
    assert!(normalize_response(299, Vec::new(), "".to_string()).is_ok());
}

#[test]
fn authorization_headers_are_withheld_from_responses() {
    let headers = vec![
        ("AUTHORIZATION".to_string(), "Bearer leak".to_string()),
        ("ETag".to_string(), "\"e1\"".to_string()),
    ];
    let r = normalize_response(200, headers, "".to_string()).unwrap();
    assert_eq!(r.headers, vec![("ETag".to_string(), "\"e1\"".to_string())]);
}

#[test]
fn unwrap_body_prefers_elements_then_value() {
    let body = JsonValue::Obj(vec![
        ("elements".to_string(), JsonValue::Arr(vec![JsonValue::Num(1)])),
        ("value".to_string(), JsonValue::Num(2)),
    ]);
    assert_eq!(
        unwrap_body(body, &Vec::new()),
        JsonValue::Arr(vec![JsonValue::Num(1)])
    );
    let body = JsonValue::Obj(vec![("value".to_string(), JsonValue::Num(2))]);
    assert_eq!(unwrap_body(body, &Vec::new()), JsonValue::Num(2));
    let body = JsonValue::Num(3);
    assert_eq!(unwrap_body(body, &Vec::new()), JsonValue::Num(3));
}

#[test]
fn unwrap_body_folds_in_the_restli_id_header() {
    let headers = vec![("X-RestLi-Id".to_string(), "urn:li:x:1".to_string())];
    let r = unwrap_body(JsonValue::Null, &headers);
    assert_eq!(
        r,
        JsonValue::Obj(vec![("id".to_string(), JsonValue::Str("urn:li:x:1".to_string()))])
    );
    let body = JsonValue::Obj(vec![(
        "value".to_string(),
        JsonValue::Obj(vec![("name".to_string(), JsonValue::Str("n".to_string()))]),
    )]);
    let r = unwrap_body(body, &headers);
    assert_eq!(
        r,
        JsonValue::Obj(vec![
            ("name".to_string(), JsonValue::Str("n".to_string())),
            ("id".to_string(), JsonValue::Str("urn:li:x:1".to_string())),
        ])
    );
    let body = JsonValue::Obj(vec![("id".to_string(), JsonValue::Num(7))]);
    let r = unwrap_body(body, &headers);
    assert_eq!(r, JsonValue::Obj(vec![("id".to_string(), JsonValue::Num(7))]));
}

#[test]
fn next_link_href_finds_the_next_relation() {
    let link = |rel: &str, href: &str| {
        JsonValue::Obj(vec![
            ("rel".to_string(), JsonValue::Str(rel.to_string())),
            ("href".to_string(), JsonValue::Str(href.to_string())),
        ])
    };
    let body = JsonValue::Obj(vec![(
        "paging".to_string(),
        JsonValue::Obj(vec![(
            "links".to_string(),
            JsonValue::Arr(vec![link("prev", "/p?page=0"), link("next", "/p?page=2")]),
        )]),
    )]);
    assert_eq!(next_link_href(&body), Some("/p?page=2".to_string()));
    assert_eq!(next_link_href(&JsonValue::Null), None);
}
