use linkedin_ads::errors::RestError;
use linkedin_ads::flow::{
    image_step, video_step, ImageAction, ImageEvent, ImageState, VideoAction, VideoEvent,
    VideoState,
};
use linkedin_ads::json::JsonValue;

fn s(v: &str) -> JsonValue {
    JsonValue::Str(v.to_string())
}

fn obj(entries: Vec<(&str, JsonValue)>) -> JsonValue {
    JsonValue::Obj(entries.into_iter().map(|(k, v)| (k.to_string(), v)).collect())
}

fn get<'a>(v: &'a JsonValue, key: &str) -> &'a JsonValue {
    v.get(key).unwrap()
}

fn direct_value(url: &str) -> JsonValue {
    obj(vec![(
        "uploadMechanism",
        obj(vec![(
            "com.linkedin.digitalmedia.uploading.MediaUploadHttpRequest",
            obj(vec![
                ("uploadUrl", s(url)),
                ("headers", obj(vec![("Authorization-Hint", s("x"))])),
            ]),
        )]),
    )])
}

fn part(url: &str, first: u64, last: u64, etag_hint: &str) -> JsonValue {
    obj(vec![
        ("url", s(url)),
        (
            "byteRange",
            obj(vec![
                ("firstByte", JsonValue::Num(first)),
                ("lastByte", JsonValue::Num(last)),
            ]),
        ),
        ("headers", obj(vec![("X-Hint", s(etag_hint))])),
    ])
}

fn multipart_value(parts: Vec<JsonValue>) -> JsonValue {
    obj(vec![
        (
            "uploadMechanism",
            obj(vec![(
                "com.linkedin.digitalmedia.uploading.MultipartUpload",
                obj(vec![
                    ("metadata", s("meta-token")),
                    ("partUploadRequests", JsonValue::Arr(parts)),
                ]),
            )]),
        ),
        ("mediaArtifact", s("urn:li:artifact:9")),
        ("asset", s("urn:li:digitalmediaAsset:C54")),
    ])
}

fn etag_headers(v: &str) -> Vec<(String, String)> {
    vec![("ETag".to_string(), format!("\"{}\"", v))]
}

// A five-megabyte video takes the direct path: the registration asks
// for nothing special, the whole file is PUT with the bearer token to
// the returned URL with the returned headers, and the result is the
// registration value unchanged.
#[test]
fn small_video_uploads_directly_and_returns_the_value_unchanged() {
    let start = VideoState::Start {
        owner: "urn:li:organization:1".to_string(),
        recipe: "urn:li:recipe:vid".to_string(),
        file_size: 5 * 1024 * 1024,
        wait: false,
    };
    let (state, action) = video_step(start, VideoEvent::Begin).unwrap();
    let request = match action {
        VideoAction::SendRegister { request } => request,
        other => panic!("expected a register action, got {:?}", other),
    };
    let ru = get(&request, "registerUploadRequest");
    assert!(ru.get("supportedUploadMechanism").is_none());
    assert!(ru.get("fileSize").is_none());

    let value = direct_value("https://up.example/abc");
    let body = obj(vec![("value", direct_value("https://up.example/abc"))]);
    let (state, action) = video_step(state, VideoEvent::RegisterResponse { body }).unwrap();
    match &action {
        VideoAction::PutWhole { url, headers, include_auth } => {
            assert_eq!(url, "https://up.example/abc");
            assert_eq!(
                headers,
                &vec![("Authorization-Hint".to_string(), "x".to_string())]
            );
            assert!(include_auth);
        }
        other => panic!("expected a whole-file PUT, got {:?}", other),
    }

    let (state, action) = video_step(state, VideoEvent::WholeUploaded).unwrap();
    assert!(matches!(action, VideoAction::Finish));
    match state {
        VideoState::Finished { result } => assert_eq!(result, value),
        other => panic!("expected the finished state, got {:?}", other),
    }
}

// A 250-megabyte video takes the multipart path: three declared parts
// covering [0,99], [100,199] and [200,249] are PUT strictly in order,
// each read starting at its declared first byte, and the finalize
// request carries exactly three entries with the unquoted entity tags
// e1, e2, e3 in that order.
#[test]
fn large_video_uploads_three_parts_and_finalizes_in_order() {
    let size = 250 * 1024 * 1024;
    let start = VideoState::Start {
        owner: "urn:li:organization:1".to_string(),
        recipe: "urn:li:recipe:vid".to_string(),
        file_size: size,
        wait: false,
    };
    let (state, action) = video_step(start, VideoEvent::Begin).unwrap();
    let request = match action {
        VideoAction::SendRegister { request } => request,
        other => panic!("expected a register action, got {:?}", other),
    };
    let ru = get(&request, "registerUploadRequest");
    assert_eq!(
        get(ru, "supportedUploadMechanism"),
        &JsonValue::Arr(vec![s("MULTIPART_UPLOAD")])
    );
    assert_eq!(get(ru, "fileSize"), &JsonValue::Num(size));

    let body = obj(vec![(
        "value",
        multipart_value(vec![
            part("https://up/1", 0, 99, "h1"),
            part("https://up/2", 100, 199, "h2"),
            part("https://up/3", 200, 249, "h3"),
        ]),
    )]);
    let (state, action) = video_step(state, VideoEvent::RegisterResponse { body }).unwrap();
    match &action {
        VideoAction::PutPart { url, headers, offset, len } => {
            assert_eq!(url, "https://up/1");
            assert_eq!(headers, &vec![("X-Hint".to_string(), "h1".to_string())]);
            assert_eq!((*offset, *len), (0, 100));
        }
        other => panic!("expected the first part PUT, got {:?}", other),
    }

    let (state, action) = video_step(
        state,
        VideoEvent::PartUploaded { headers: etag_headers("e1") },
    )
    .unwrap();
    match &action {
        VideoAction::PutPart { url, offset, len, .. } => {
            assert_eq!(url, "https://up/2");
            assert_eq!((*offset, *len), (100, 100));
        }
        other => panic!("expected the second part PUT, got {:?}", other),
    }

    let (state, action) = video_step(
        state,
        VideoEvent::PartUploaded { headers: etag_headers("e2") },
    )
    .unwrap();
    match &action {
        VideoAction::PutPart { url, offset, len, .. } => {
            assert_eq!(url, "https://up/3");
            assert_eq!((*offset, *len), (200, 50));
        }
        other => panic!("expected the third part PUT, got {:?}", other),
    }

    let (state, action) = video_step(
        state,
        VideoEvent::PartUploaded { headers: etag_headers("e3") },
    )
    .unwrap();
    let request = match action {
        VideoAction::SendFinalize { request } => request,
        other => panic!("expected the finalize action, got {:?}", other),
    };
    let c = get(&request, "completeMultipartUploadRequest");
    assert_eq!(get(c, "mediaArtifact"), &s("urn:li:artifact:9"));
    assert_eq!(get(c, "metadata"), &s("meta-token"));
    let prs = match get(c, "partUploadResponses") {
        JsonValue::Arr(a) => a,
        other => panic!("expected an array, got {:?}", other),
    };
    assert_eq!(prs.len(), 3);
    for (i, expected) in ["e1", "e2", "e3"].iter().enumerate() {
        assert_eq!(get(get(&prs[i], "headers"), "ETag"), &s(expected));
        assert_eq!(get(&prs[i], "httpStatusCode"), &JsonValue::Num(200));
    }

    let (state, action) = video_step(
        state,
        VideoEvent::FinalizeResponse { body: obj(vec![("ok", JsonValue::Bool(true))]) },
    )
    .unwrap();
    assert!(matches!(action, VideoAction::Finish));
    match state {
        VideoState::Finished { result } => {
            assert!(get(&result, "register").get("mediaArtifact").is_some());
            assert_eq!(
                get(&result, "complete"),
                &obj(vec![("ok", JsonValue::Bool(true))])
            );
        }
        other => panic!("expected the finished state, got {:?}", other),
    }
}

// Waiting for a ready asset: the first poll response with every
// recipe available finishes without sleeping; an unready response
// after the deadline fails with a timeout.
#[test]
fn polling_succeeds_at_once_or_times_out() {
    let start = VideoState::Start {
        owner: "o".to_string(),
        recipe: "r".to_string(),
        file_size: 1024,
        wait: true,
    };
    let (state, _) = video_step(start, VideoEvent::Begin).unwrap();
    let body = obj(vec![("value", direct_value("https://up.example/v"))]);
    let (state, _) = video_step(state, VideoEvent::RegisterResponse { body }).unwrap();
    // The direct value carries no asset handle, so the flow finishes
    // without polling.
    let (state, action) = video_step(state, VideoEvent::WholeUploaded).unwrap();
    assert!(matches!(action, VideoAction::Finish));
    assert!(matches!(state, VideoState::Finished { .. }));

    // With an asset handle present, polling starts on its trailing id.
    let start = VideoState::Start {
        owner: "o".to_string(),
        recipe: "r".to_string(),
        file_size: 300 * 1024 * 1024,
        wait: true,
    };
    let (state, _) = video_step(start, VideoEvent::Begin).unwrap();
    let body = obj(vec![("value", multipart_value(vec![part("https://up/1", 0, 9, "h")]))]);
    let (state, _) = video_step(state, VideoEvent::RegisterResponse { body }).unwrap();
    let (state, _) = video_step(
        state,
        VideoEvent::PartUploaded { headers: etag_headers("e1") },
    )
    .unwrap();
    let (state, action) = video_step(
        state,
        VideoEvent::FinalizeResponse { body: JsonValue::Null },
    )
    .unwrap();
    match &action {
        VideoAction::PollStatus { asset_id } => assert_eq!(asset_id, "C54"),
        other => panic!("expected a poll action, got {:?}", other),
    }

    let busy = obj(vec![(
        "recipes",
        JsonValue::Arr(vec![obj(vec![("status", s("PROCESSING"))])]),
    )]);
    let (state, action) = video_step(
        state,
        VideoEvent::PollResponse { body: busy, timed_out: false },
    )
    .unwrap();
    match &action {
        VideoAction::SleepThenPoll { asset_id } => assert_eq!(asset_id, "C54"),
        other => panic!("expected a sleep-then-poll action, got {:?}", other),
    }

    let ready = obj(vec![(
        "recipes",
        JsonValue::Arr(vec![obj(vec![("status", s("AVAILABLE"))])]),
    )]);
    let (state, action) = video_step(
        state,
        VideoEvent::PollResponse { body: ready, timed_out: true },
    )
    .unwrap();
    assert!(matches!(action, VideoAction::Finish));
    assert!(matches!(state, VideoState::Finished { .. }));
}

#[test]
fn an_unready_poll_after_the_deadline_is_a_timeout() {
    let state = VideoState::AwaitPoll {
        result: JsonValue::Null,
        asset_id: "C54".to_string(),
    };
    let busy = obj(vec![(
        "recipes",
        JsonValue::Arr(vec![obj(vec![("status", s("PROCESSING"))])]),
    )]);
    let r = video_step(state, VideoEvent::PollResponse { body: busy, timed_out: true });
    assert!(matches!(r, Err(RestError::Timeout)));
}

#[test]
fn a_registration_without_any_mechanism_is_a_schema_failure() {
    let state = VideoState::AwaitRegister { wait: false };
    let body = obj(vec![("value", obj(vec![("asset", s("urn:li:a:1"))]))]);
    let r = video_step(state, VideoEvent::RegisterResponse { body });
    assert!(matches!(r, Err(RestError::Schema(_))));

    let state = VideoState::AwaitRegister { wait: false };
    let r = video_step(state, VideoEvent::RegisterResponse { body: JsonValue::Null });
    assert!(matches!(r, Err(RestError::Schema(_))));
}

#[test]
fn a_mismatched_event_is_refused() {
    let state = VideoState::AwaitRegister { wait: false };
    let r = video_step(state, VideoEvent::WholeUploaded);
    assert!(matches!(r, Err(RestError::Input(_))));
}

#[test]
fn image_flow_registers_puts_with_auth_and_finishes() {
    let start = ImageState::Start {
        owner: "urn:li:organization:1".to_string(),
        recipe: "urn:li:recipe:img".to_string(),
    };
    let (state, action) = image_step(start, ImageEvent::Begin).unwrap();
    let request = match action {
        ImageAction::SendRegister { request } => request,
        other => panic!("expected a register action, got {:?}", other),
    };
    let ru = get(&request, "registerUploadRequest");
    assert_eq!(
        get(ru, "supportedUploadMechanism"),
        &JsonValue::Arr(vec![s("SYNCHRONOUS_UPLOAD")])
    );

    let body = obj(vec![("value", direct_value("https://up.example/img"))]);
    let (state, action) = image_step(state, ImageEvent::RegisterResponse { body }).unwrap();
    match &action {
        ImageAction::PutWhole { url, include_auth, .. } => {
            assert_eq!(url, "https://up.example/img");
            assert!(include_auth);
        }
        other => panic!("expected a whole-file PUT, got {:?}", other),
    }

    let (state, action) = image_step(state, ImageEvent::WholeUploaded).unwrap();
    assert!(matches!(action, ImageAction::Finish));
    match state {
        ImageState::Finished { result } => {
            assert_eq!(result, direct_value("https://up.example/img"));
        }
        other => panic!("expected the finished state, got {:?}", other),
    }
}

#[test]
fn image_flow_requires_a_direct_mechanism() {
    let state = ImageState::AwaitRegister;
    let body = obj(vec![("value", multipart_value(vec![]))]);
    let r = image_step(state, ImageEvent::RegisterResponse { body });
    assert!(matches!(r, Err(RestError::Schema(_))));
}
