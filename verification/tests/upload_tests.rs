use linkedin_ads::asset_upload::{
    asset_id_from_urn, extract_etag, extract_http_upload, extract_multipart, finalize_request,
    image_register_request, poll_step, recipes_all_ready, video_register_request, PollDecision,
    DEFAULT_WAIT_TIMEOUT_SECS, MULTIPART_THRESHOLD, POLL_INTERVAL_SECS,
};
use linkedin_ads::errors::RestError;
use linkedin_ads::json::JsonValue;

fn s(v: &str) -> JsonValue {
    JsonValue::Str(v.to_string())
}

fn obj(entries: Vec<(&str, JsonValue)>) -> JsonValue {
    JsonValue::Obj(entries.into_iter().map(|(k, v)| (k.to_string(), v)).collect())
}

fn get<'a>(v: &'a JsonValue, key: &str) -> &'a JsonValue {
    v.get(key).unwrap()
}

#[test]
fn constants_match_the_protocol() {
    assert_eq!(MULTIPART_THRESHOLD, 200 * 1024 * 1024);
    assert_eq!(POLL_INTERVAL_SECS, 3);
    assert_eq!(DEFAULT_WAIT_TIMEOUT_SECS, 300);
}

#[test]
fn image_registration_declares_synchronous_upload_only() {
    let r = image_register_request("urn:li:organization:1", "urn:li:recipe:img");
    let ru = get(&r, "registerUploadRequest");
    assert_eq!(get(ru, "owner"), &s("urn:li:organization:1"));
    assert_eq!(
        get(ru, "recipes"),
        &JsonValue::Arr(vec![s("urn:li:recipe:img")])
    );
    assert_eq!(
        get(ru, "serviceRelationships"),
        &JsonValue::Arr(vec![obj(vec![
            ("identifier", s("urn:li:userGeneratedContent")),
            ("relationshipType", s("OWNER")),
        ])])
    );
    assert_eq!(
        get(ru, "supportedUploadMechanism"),
        &JsonValue::Arr(vec![s("SYNCHRONOUS_UPLOAD")])
    );
    assert!(ru.get("fileSize").is_none());
}

#[test]
fn small_videos_send_no_mechanism_hint_and_no_size() {
    let r = video_register_request("urn:li:organization:1", "urn:li:recipe:vid", 5 * 1024 * 1024);
    let ru = get(&r, "registerUploadRequest");
    assert!(ru.get("supportedUploadMechanism").is_none());
    assert!(ru.get("fileSize").is_none());
    let r = video_register_request("o", "r", MULTIPART_THRESHOLD);
    let ru = get(&r, "registerUploadRequest");
    assert!(ru.get("supportedUploadMechanism").is_none());
    assert!(ru.get("fileSize").is_none());
}

#[test]
fn large_videos_request_multipart_and_declare_their_size() {
    let size = 250 * 1024 * 1024;
    let r = video_register_request("urn:li:organization:1", "urn:li:recipe:vid", size);
    let ru = get(&r, "registerUploadRequest");
    assert_eq!(
        get(ru, "supportedUploadMechanism"),
        &JsonValue::Arr(vec![s("MULTIPART_UPLOAD")])
    );
    assert_eq!(get(ru, "fileSize"), &JsonValue::Num(size));
    let r = video_register_request("o", "r", MULTIPART_THRESHOLD + 1);
    let ru = get(&r, "registerUploadRequest");
    assert_eq!(get(ru, "fileSize"), &JsonValue::Num(MULTIPART_THRESHOLD + 1));
}

fn direct_value(url: &str) -> JsonValue {
    obj(vec![(
        "uploadMechanism",
        obj(vec![(
            "com.linkedin.digitalmedia.uploading.MediaUploadHttpRequest",
            obj(vec![
                ("uploadUrl", s(url)),
                ("headers", obj(vec![("Authorization-Hint", s("x"))])),
            ]),
        )]),
    )])
}

#[test]
fn extract_http_upload_reads_url_and_headers() {
    let value = direct_value("https://up.example/abc");
    let (url, headers) = extract_http_upload(&value).unwrap();
    assert_eq!(url, "https://up.example/abc");
    assert_eq!(
        headers,
        vec![("Authorization-Hint".to_string(), "x".to_string())]
    );
    assert!(matches!(
        extract_http_upload(&JsonValue::Null),
        Err(RestError::Schema(_))
    ));
    let no_url = obj(vec![(
        "uploadMechanism",
        obj(vec![(
            "com.linkedin.digitalmedia.uploading.MediaUploadHttpRequest",
            obj(vec![]),
        )]),
    )]);
    assert!(matches!(
        extract_http_upload(&no_url),
        Err(RestError::Schema(_))
    ));
}

fn part(url: &str, first: u64, last: u64) -> JsonValue {
    obj(vec![
        ("url", s(url)),
        (
            "byteRange",
            obj(vec![
                ("firstByte", JsonValue::Num(first)),
                ("lastByte", JsonValue::Num(last)),
            ]),
        ),
    ])
}

fn multipart_value(parts: Vec<JsonValue>) -> JsonValue {
    obj(vec![
        (
            "uploadMechanism",
            obj(vec![(
                "com.linkedin.digitalmedia.uploading.MultipartUpload",
                obj(vec![
                    ("metadata", s("meta-token")),
                    ("partUploadRequests", JsonValue::Arr(parts)),
                ]),
            )]),
        ),
        ("mediaArtifact", s("urn:li:artifact:9")),
    ])
}

#[test]
fn extract_multipart_decodes_the_whole_mechanism() {
    let value = multipart_value(vec![part("https://up/1", 0, 99), part("https://up/2", 100, 249)]);
    let mu = extract_multipart(&value).unwrap();
    assert_eq!(mu.metadata, "meta-token");
    assert_eq!(mu.media_artifact, "urn:li:artifact:9");
    assert_eq!(mu.parts.len(), 2);
    assert_eq!(mu.parts[0].url, "https://up/1");
    assert_eq!(mu.parts[0].range, Some((0, 99)));
    assert_eq!(mu.parts[1].range, Some((100, 249)));
}

#[test]
fn extract_multipart_refuses_missing_or_inverted_fields() {
    assert!(matches!(
        extract_multipart(&JsonValue::Null),
        Err(RestError::Schema(_))
    ));
    let no_metadata = obj(vec![
        (
            "uploadMechanism",
            obj(vec![(
                "com.linkedin.digitalmedia.uploading.MultipartUpload",
                obj(vec![("partUploadRequests", JsonValue::Arr(vec![]))]),
            )]),
        ),
        ("mediaArtifact", s("a")),
    ]);
    assert!(matches!(
        extract_multipart(&no_metadata),
        Err(RestError::Schema(_))
    ));
    let inverted = multipart_value(vec![part("https://up/1", 100, 99)]);
    assert!(matches!(
        extract_multipart(&inverted),
        Err(RestError::Schema(_))
    ));
}

#[test]
fn etags_are_found_case_insensitively_and_unquoted() {
    let headers = vec![("ETag".to_string(), "\"abc123\"".to_string())];
    assert_eq!(extract_etag(&headers).unwrap(), "abc123");
    let headers = vec![("ETAG".to_string(), "e2".to_string())];
    assert_eq!(extract_etag(&headers).unwrap(), "e2");
    let headers = vec![("Content-Length".to_string(), "0".to_string())];
    assert!(matches!(extract_etag(&headers), Err(RestError::Schema(_))));
}

#[test]
fn finalize_request_carries_one_entry_per_part_in_order() {
    let etags = vec!["e1".to_string(), "e2".to_string(), "e3".to_string()];
    let r = finalize_request("urn:li:artifact:9", "meta-token", &etags);
    let c = get(&r, "completeMultipartUploadRequest");
    assert_eq!(get(c, "mediaArtifact"), &s("urn:li:artifact:9"));
    assert_eq!(get(c, "metadata"), &s("meta-token"));
    let prs = match get(c, "partUploadResponses") {
        JsonValue::Arr(a) => a,
        other => panic!("expected an array, got {:?}", other),
    };
    assert_eq!(prs.len(), 3);
    for (i, expected) in ["e1", "e2", "e3"].iter().enumerate() {
        assert_eq!(get(get(&prs[i], "headers"), "ETag"), &s(expected));
        assert_eq!(get(&prs[i], "httpStatusCode"), &JsonValue::Num(200));
    }
}

fn status_body(statuses: &[&str]) -> JsonValue {
    let recipes: Vec<JsonValue> = statuses
        .iter()
        .map(|st| obj(vec![("recipe", s("urn:li:recipe:v")), ("status", s(st))]))
        .collect();
    obj(vec![("recipes", JsonValue::Arr(recipes)), ("status", s("x"))])
}

#[test]
fn readiness_requires_every_recipe_to_be_available() {
    assert!(recipes_all_ready(&status_body(&["AVAILABLE", "AVAILABLE"])));
    assert!(!recipes_all_ready(&status_body(&["AVAILABLE", "PROCESSING"])));
    assert!(recipes_all_ready(&status_body(&[])));
    assert!(!recipes_all_ready(&JsonValue::Null));
}

#[test]
fn a_ready_body_succeeds_at_once_even_past_the_deadline() {
    let ready = status_body(&["AVAILABLE"]);
    assert_eq!(poll_step(&ready, false), PollDecision::Ready);
    assert_eq!(poll_step(&ready, true), PollDecision::Ready);
    let busy = status_body(&["PROCESSING"]);
    assert_eq!(poll_step(&busy, false), PollDecision::Again);
    assert_eq!(poll_step(&busy, true), PollDecision::TimedOut);
}

#[test]
fn asset_handles_reduce_to_their_trailing_segment() {
    assert_eq!(
        asset_id_from_urn("urn:li:digitalmediaAsset:C5405AQEOFHXqeM2vRA"),
        Some("C5405AQEOFHXqeM2vRA".to_string())
    );
    assert_eq!(asset_id_from_urn("plainid"), None);
    assert_eq!(asset_id_from_urn("a:"), Some("".to_string()));
}
