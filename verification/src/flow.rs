//! The upload flows as explicit state machines. Each step consumes
//! the current state and one event (a response, a completed transfer,
//! a poll outcome) and decides the next state and the one action the
//! surrounding transport must perform: image uploads register and PUT
//! once; video uploads branch on the mechanism the server actually
//! returned, transfer parts strictly in order, finalize, and poll
//! until every recipe is ready or the deadline passes.
use vstd::prelude::*;
use vstd::string::StringExecFns;
use crate::asset_upload::{
    extract_etag, extract_http_upload, extract_multipart, finalize_request, image_register_request,
    is_singleton_str_arr, poll_step, range_wf, spec_all_ready, spec_asset_id, spec_asset_of,
    spec_decoded_part, spec_finalize_request, spec_headers_of, spec_hint_field, spec_http_block,
    spec_http_headers, spec_http_ok, spec_http_url, spec_multipart_block, spec_multipart_ok,
    spec_multipart_parts, spec_multipart_requested, spec_part_first, spec_part_last,
    spec_register_common, spec_size_field, str_of, video_register_request, asset_id_from_urn,
    PollDecision, UploadTarget,
};
use crate::errors::RestError;
use crate::headers::{clone_pairs, spec_find_ci};
use crate::json::{spec_get, JsonValue};
use crate::strutil::spec_trim_char;

verus! {

/// Where one video upload stands.
#[derive(Debug, PartialEq, Eq)]
pub enum VideoState {
    /// Nothing sent yet.
    Start { owner: String, recipe: String, file_size: u64, wait: bool },
    /// The registration request is out.
    AwaitRegister { wait: bool },
    /// The whole file is being PUT to a direct-HTTP target.
    AwaitWhole { value: JsonValue, wait: bool },
    /// Part `etags.len()` of `parts` is being PUT; earlier parts'
    /// entity tags are collected in order.
    AwaitPart {
        value: JsonValue,
        metadata: String,
        media_artifact: String,
        parts: Vec<UploadTarget>,
        etags: Vec<String>,
        wait: bool,
    },
    /// The finalize request is out.
    AwaitFinalize { value: JsonValue, wait: bool },
    /// A status poll is out.
    AwaitPoll { result: JsonValue, asset_id: String },
    /// The flow is over; `result` is what the caller receives.
    Finished { result: JsonValue },
}

/// What the transport reports back to the flow.
#[derive(Debug, PartialEq, Eq)]
pub enum VideoEvent {
    Begin,
    RegisterResponse { body: JsonValue },
    WholeUploaded,
    PartUploaded { headers: Vec<(String, String)> },
    FinalizeResponse { body: JsonValue },
    PollResponse { body: JsonValue, timed_out: bool },
}

/// What the transport must do next.
#[derive(Debug, PartialEq, Eq)]
pub enum VideoAction {
    /// POST the registration request to the assets endpoint.
    SendRegister { request: JsonValue },
    /// Read the whole file and PUT it, with the bearer token exactly
    /// when `include_auth`.
    PutWhole { url: String, headers: Vec<(String, String)>, include_auth: bool },
    /// Seek to `offset`, read exactly `len` bytes, PUT them without
    /// the bearer token, and report the response headers.
    PutPart { url: String, headers: Vec<(String, String)>, offset: u64, len: u64 },
    /// POST the finalize request to the assets endpoint.
    SendFinalize { request: JsonValue },
    /// Query the asset's status.
    PollStatus { asset_id: String },
    /// Sleep one poll interval, then query the asset's status.
    SleepThenPoll { asset_id: String },
    /// Nothing left to do.
    Finish,
}

/// A part-upload state always has a part left to transfer, and every
/// declared range is present and well formed.
pub open spec fn video_state_wf(s: VideoState) -> bool {
    s matches VideoState::AwaitPart { parts, etags, .. } ==> {
        &&& etags@.len() < parts@.len()
        &&& forall|i: int| 0 <= i < parts@.len() ==> (#[trigger] parts@[i]).range is Some
        &&& forall|i: int| 0 <= i < parts@.len() ==> range_wf(#[trigger] parts@[i])
    }
}

/// The action that launches part `k` of `parts`: its URL and headers,
/// a read at exactly the declared first offset, of exactly the
/// declared range's length.
pub open spec fn spec_put_part_action(a: VideoAction, parts: Seq<UploadTarget>, k: int) -> bool {
    a matches VideoAction::PutPart { url, headers, offset, len } && {
        let rg = parts[k].range->0;
        &&& url@ == parts[k].url@
        &&& headers@ == parts[k].headers@
        &&& offset == rg.0
        &&& len as int == rg.1 - rg.0 + 1
    }
}

/// What a registration response owes: a direct-HTTP mechanism starts
/// the whole-file PUT with the bearer token; otherwise a usable
/// multipart mechanism starts the first part (or finalizes at once
/// with no parts); anything else is a schema failure.
pub open spec fn spec_video_register_outcome(
    body: JsonValue,
    wait: bool,
    r: Result<(VideoState, VideoAction), RestError>,
) -> bool {
    match spec_get(body, "value"@) {
        None => r matches Err(e) && e is Schema,
        Some(value) => {
            if spec_http_ok(value) {
                r matches Ok(p) && {
                    &&& p.0 == (VideoState::AwaitWhole { value, wait })
                    &&& p.1 matches VideoAction::PutWhole { url, headers, include_auth } && (url@
                        == spec_http_url(value) && headers@ == spec_http_headers(value)
                        && include_auth)
                }
            } else if spec_http_block(value) is Some {
                r matches Err(e) && e is Schema
            } else if spec_multipart_ok(value) {
                let mp = spec_multipart_block(value)->0;
                let ps = spec_multipart_parts(value);
                if ps.len() == 0 {
                    r matches Ok(p) && {
                        &&& p.0 == (VideoState::AwaitFinalize { value, wait })
                        &&& p.1 matches VideoAction::SendFinalize { request }
                            && spec_finalize_request(
                            request,
                            str_of(value, "mediaArtifact"@),
                            str_of(mp, "metadata"@),
                            Seq::empty(),
                        )
                    }
                } else {
                    r matches Ok(p) && {
                        &&& p.0 matches VideoState::AwaitPart {
                            value: v2,
                            metadata,
                            media_artifact,
                            parts,
                            etags,
                            wait: w2,
                        } && {
                            &&& v2 == value
                            &&& w2 == wait
                            &&& metadata@ == str_of(mp, "metadata"@)
                            &&& media_artifact@ == str_of(value, "mediaArtifact"@)
                            &&& etags@.len() == 0
                            &&& parts@.len() == ps.len()
                            &&& forall|i: int|
                                0 <= i < ps.len() ==> spec_decoded_part(
                                    ps[i],
                                    #[trigger] parts@[i],
                                )
                        }
                        &&& p.1 matches VideoAction::PutPart { url, headers, offset, len } && {
                            &&& url@ == str_of(ps[0], "url"@)
                            &&& headers@ == spec_headers_of(spec_get(ps[0], "headers"@))
                            &&& offset == spec_part_first(ps[0])
                            &&& len as int == spec_part_last(ps[0]) - spec_part_first(ps[0]) + 1
                        }
                    }
                }
            } else {
                r matches Err(e) && e is Schema
            }
        },
    }
}

/// What finishing the byte transfers owes: polling starts exactly
/// when it was asked for and the registration value names an asset
/// handle (reduced to its trailing segment); otherwise the flow ends
/// with `result`.
pub open spec fn spec_wait_outcome(
    result: JsonValue,
    asset: Option<Seq<char>>,
    wait: bool,
    r: Result<(VideoState, VideoAction), RestError>,
) -> bool {
    if wait && asset is Some {
        r matches Ok(p) && {
            &&& p.0 matches VideoState::AwaitPoll { result: r2, asset_id } && (r2 == result
                && asset_id@ == spec_asset_id(asset->0))
            &&& p.1 matches VideoAction::PollStatus { asset_id } && asset_id@ == spec_asset_id(
                asset->0,
            )
        }
    } else {
        r matches Ok(p) && (p.0 == (VideoState::Finished { result }) && p.1 is Finish)
    }
}

/// What one finished part PUT owes: its entity tag recovered (quotes
/// stripped) and appended in order, then either the next part's PUT,
/// or, after the last part, the finalize request carrying exactly one
/// entry per part.
pub open spec fn spec_part_uploaded_outcome(
    value: JsonValue,
    metadata: String,
    media_artifact: String,
    parts: Seq<UploadTarget>,
    etags: Seq<String>,
    wait: bool,
    headers: Seq<(String, String)>,
    r: Result<(VideoState, VideoAction), RestError>,
) -> bool {
    match spec_find_ci(headers, "etag"@) {
        None => r matches Err(e) && e is Schema,
        Some(raw) => {
            let e = spec_trim_char(raw, '"');
            let k = etags.len() as int;
            if k + 1 < parts.len() {
                r matches Ok(p) && {
                    &&& p.0 matches VideoState::AwaitPart {
                        value: v2,
                        metadata: m2,
                        media_artifact: a2,
                        parts: p2,
                        etags: e2,
                        wait: w2,
                    } && {
                        &&& v2 == value
                        &&& m2 == metadata
                        &&& a2 == media_artifact
                        &&& p2@ == parts
                        &&& w2 == wait
                        &&& e2@.len() == k + 1
                        &&& e2@.subrange(0, k) == etags
                        &&& e2@[k]@ == e
                    }
                    &&& spec_put_part_action(p.1, parts, k + 1)
                }
            } else {
                r matches Ok(p) && {
                    &&& p.0 == (VideoState::AwaitFinalize { value, wait })
                    &&& p.1 matches VideoAction::SendFinalize { request } && spec_finalize_request(
                        request,
                        media_artifact@,
                        metadata@,
                        etags.map_values(|s: String| s@).push(e),
                    )
                }
            }
        },
    }
}

/// What the finalize response owes: a composite result holding the
/// registration value and the finalize body, then polling exactly as
/// after a direct upload.
pub open spec fn spec_finalize_outcome(
    value: JsonValue,
    body: JsonValue,
    wait: bool,
    r: Result<(VideoState, VideoAction), RestError>,
) -> bool {
    if wait && spec_asset_of(value) is Some {
        r matches Ok(p) && {
            &&& p.0 matches VideoState::AwaitPoll { result, asset_id } && (spec_get(
                result,
                "register"@,
            ) == Some(value) && spec_get(result, "complete"@) == Some(body) && asset_id@
                == spec_asset_id(spec_asset_of(value)->0))
            &&& p.1 matches VideoAction::PollStatus { asset_id } && asset_id@ == spec_asset_id(
                spec_asset_of(value)->0,
            )
        }
    } else {
        r matches Ok(p) && {
            &&& p.0 matches VideoState::Finished { result } && (spec_get(result, "register"@)
                == Some(value) && spec_get(result, "complete"@) == Some(body))
            &&& p.1 is Finish
        }
    }
}

/// What one poll response owes: a ready body finishes at once,
/// deadline or not; an unready body fails with a timeout exactly when
/// the deadline has elapsed, and otherwise sleeps one interval and
/// polls again.
pub open spec fn spec_poll_outcome(
    result: JsonValue,
    asset_id: String,
    body: JsonValue,
    timed_out: bool,
    r: Result<(VideoState, VideoAction), RestError>,
) -> bool {
    if spec_all_ready(body) {
        r matches Ok(p) && (p.0 == (VideoState::Finished { result }) && p.1 is Finish)
    } else if timed_out {
        r matches Err(e) && e is Timeout
    } else {
        r matches Ok(p) && {
            &&& p.0 == (VideoState::AwaitPoll { result, asset_id })
            &&& p.1 matches VideoAction::SleepThenPoll { asset_id: a2 } && a2@ == asset_id@
        }
    }
}

/// The whole video flow, one transition per state and event.
pub open spec fn video_step_spec(
    state: VideoState,
    event: VideoEvent,
    r: Result<(VideoState, VideoAction), RestError>,
) -> bool {
    match state {
        VideoState::Start { owner, recipe, file_size, wait } => match event {
            VideoEvent::Begin => r matches Ok(p) && {
                &&& p.0 == (VideoState::AwaitRegister { wait })
                &&& p.1 matches VideoAction::SendRegister { request } && {
                    &&& spec_register_common(request, owner@, recipe@)
                    &&& spec_multipart_requested(file_size) ==> (spec_hint_field(request)
                        matches Some(v) && is_singleton_str_arr(v, "MULTIPART_UPLOAD"@))
                    &&& spec_multipart_requested(file_size) ==> spec_size_field(request) == Some(
                        JsonValue::Num(file_size),
                    )
                    &&& !spec_multipart_requested(file_size) ==> spec_hint_field(request) is None
                        && spec_size_field(request) is None
                }
            },
            _ => r is Err,
        },
        VideoState::AwaitRegister { wait } => match event {
            VideoEvent::RegisterResponse { body } => spec_video_register_outcome(body, wait, r),
            _ => r is Err,
        },
        VideoState::AwaitWhole { value, wait } => match event {
            VideoEvent::WholeUploaded => spec_wait_outcome(value, spec_asset_of(value), wait, r),
            _ => r is Err,
        },
        VideoState::AwaitPart { value, metadata, media_artifact, parts, etags, wait } => match event {
            VideoEvent::PartUploaded { headers } => spec_part_uploaded_outcome(
                value,
                metadata,
                media_artifact,
                parts@,
                etags@,
                wait,
                headers@,
                r,
            ),
            _ => r is Err,
        },
        VideoState::AwaitFinalize { value, wait } => match event {
            VideoEvent::FinalizeResponse { body } => spec_finalize_outcome(value, body, wait, r),
            _ => r is Err,
        },
        VideoState::AwaitPoll { result, asset_id } => match event {
            VideoEvent::PollResponse { body, timed_out } => spec_poll_outcome(
                result,
                asset_id,
                body,
                timed_out,
                r,
            ),
            _ => r is Err,
        },
        VideoState::Finished { .. } => r is Err,
    }
}

/// The asset handle of `value` as an owned string, when present.
fn asset_of(value: &JsonValue) -> (r: Option<String>)
    ensures
        r is Some <==> spec_asset_of(*value) is Some,
        r matches Some(s) ==> s@ == spec_asset_of(*value)->0,
{
    match value.get("asset") {
        Some(v) => match v.as_str() {
            Some(s) => Some(s.clone()),
            None => None,
        },
        None => None,
    }
}

/// The status-lookup identifier of a handle: its trailing segment, or
/// the handle itself when it has no colon.
fn asset_lookup_id(urn: String) -> (r: String)
    ensures
        r@ == spec_asset_id(urn@),
{
    match asset_id_from_urn(urn.as_str()) {
        Some(id) => id,
        None => urn,
    }
}

/// Continues a flow whose byte transfers are done: into polling when
/// asked and possible, else straight to the finished state.
fn wait_or_finish(result: JsonValue, asset: Option<String>, wait: bool) -> (r: Result<
    (VideoState, VideoAction),
    RestError,
>)
    ensures
        spec_wait_outcome(
            result,
            match asset {
                Some(s) => Some(s@),
                None => None,
            },
            wait,
            r,
        ),
        r matches Ok(p) ==> video_state_wf(p.0),
{
    if wait {
        match asset {
            Some(urn) => {
                let asset_id = asset_lookup_id(urn);
                let aid = asset_id.clone();
                return Ok(
                    (
                        VideoState::AwaitPoll { result, asset_id },
                        VideoAction::PollStatus { asset_id: aid },
                    ),
                );
            },
            None => {},
        }
    }
    Ok((VideoState::Finished { result }, VideoAction::Finish))
}

/// One transition of the video flow. A mismatched event is refused;
/// every schema defect in a response fails the flow at once.
pub fn video_step(state: VideoState, event: VideoEvent) -> (r: Result<
    (VideoState, VideoAction),
    RestError,
>)
    requires
        video_state_wf(state),
    ensures
        video_step_spec(state, event, r),
        r matches Ok(p) ==> video_state_wf(p.0),
{
    match (state, event) {
        (VideoState::Start { owner, recipe, file_size, wait }, VideoEvent::Begin) => {
            let request = video_register_request(owner.as_str(), recipe.as_str(), file_size);
            Ok((VideoState::AwaitRegister { wait }, VideoAction::SendRegister { request }))
        },
        (VideoState::AwaitRegister { wait }, VideoEvent::RegisterResponse { body }) => {
            let value = match body.take("value") {
                Some(v) => v,
                None => {
                    return Err(RestError::schema("value"));
                },
            };
            let has_http = match value.get("uploadMechanism") {
                Some(m) => m.get(
                    "com.linkedin.digitalmedia.uploading.MediaUploadHttpRequest",
                ).is_some(),
                None => false,
            };
            if has_http {
                match extract_http_upload(&value) {
                    Ok((url, headers)) => Ok(
                        (
                            VideoState::AwaitWhole { value, wait },
                            VideoAction::PutWhole { url, headers, include_auth: true },
                        ),
                    ),
                    Err(e) => Err(e),
                }
            } else {
                let mu = match extract_multipart(&value) {
                    Ok(mu) => mu,
                    Err(e) => {
                        return Err(e);
                    },
                };
                if mu.parts.len() == 0 {
                    let no_etags: Vec<String> = Vec::new();
                    let request = finalize_request(
                        mu.media_artifact.as_str(),
                        mu.metadata.as_str(),
                        &no_etags,
                    );
                    proof {
                        assert(no_etags@.map_values(|s: String| s@) =~= Seq::<Seq<char>>::empty());
                    }
                    Ok(
                        (
                            VideoState::AwaitFinalize { value, wait },
                            VideoAction::SendFinalize { request },
                        ),
                    )
                } else {
                    let url = mu.parts[0].url.clone();
                    let headers = clone_pairs(&mu.parts[0].headers);
                    let (offset, len) = match mu.parts[0].range {
                        Some((first, last)) => (first, last - first + 1),
                        None => {
                            return Err(RestError::schema("byteRange"));
                        },
                    };
                    Ok(
                        (
                            VideoState::AwaitPart {
                                value,
                                metadata: mu.metadata,
                                media_artifact: mu.media_artifact,
                                parts: mu.parts,
                                etags: Vec::new(),
                                wait,
                            },
                            VideoAction::PutPart { url, headers, offset, len },
                        ),
                    )
                }
            }
        },
        (VideoState::AwaitWhole { value, wait }, VideoEvent::WholeUploaded) => {
            let asset = asset_of(&value);
            wait_or_finish(value, asset, wait)
        },
        (
            VideoState::AwaitPart { value, metadata, media_artifact, parts, mut etags, wait },
            VideoEvent::PartUploaded { headers },
        ) => {
            let etag = match extract_etag(&headers) {
                Ok(e) => e,
                Err(e) => {
                    return Err(e);
                },
            };
            let ghost old_etags = etags@;
            etags.push(etag);
            proof {
                assert(etags@.subrange(0, old_etags.len() as int) =~= old_etags);
            }
            let k = etags.len();
            if k < parts.len() {
                let url = parts[k].url.clone();
                let hs = clone_pairs(&parts[k].headers);
                let (offset, len) = match parts[k].range {
                    Some((first, last)) => (first, last - first + 1),
                    None => {
                        return Err(RestError::schema("byteRange"));
                    },
                };
                Ok(
                    (
                        VideoState::AwaitPart {
                            value,
                            metadata,
                            media_artifact,
                            parts,
                            etags,
                            wait,
                        },
                        VideoAction::PutPart { url, headers: hs, offset, len },
                    ),
                )
            } else {
                let request = finalize_request(media_artifact.as_str(), metadata.as_str(), &etags);
                proof {
                    assert(etags@.map_values(|s: String| s@) =~= old_etags.map_values(
                        |s: String| s@,
                    ).push(etags@[old_etags.len() as int]@));
                }
                Ok(
                    (VideoState::AwaitFinalize { value, wait }, VideoAction::SendFinalize { request }),
                )
            }
        },
        (VideoState::AwaitFinalize { value, wait }, VideoEvent::FinalizeResponse { body }) => {
            proof {
                reveal_strlit("register");
                reveal_strlit("complete");
                assert("register"@[0] == 'r');
                assert("complete"@[0] == 'c');
            }
            let asset = asset_of(&value);
            let mut es: Vec<(String, JsonValue)> = Vec::new();
            es.push((String::from_str("register"), value));
            es.push((String::from_str("complete"), body));
            proof {
                crate::json::lemma_obj_get_at(es@, "register"@, 0);
                crate::json::lemma_obj_get_at(es@, "complete"@, 1);
            }
            let result = JsonValue::Obj(es);
            wait_or_finish(result, asset, wait)
        },
        (VideoState::AwaitPoll { result, asset_id }, VideoEvent::PollResponse { body, timed_out }) => {
            match poll_step(&body, timed_out) {
                PollDecision::Ready => Ok((VideoState::Finished { result }, VideoAction::Finish)),
                PollDecision::TimedOut => Err(RestError::Timeout),
                PollDecision::Again => {
                    let aid = asset_id.clone();
                    Ok(
                        (
                            VideoState::AwaitPoll { result, asset_id },
                            VideoAction::SleepThenPoll { asset_id: aid },
                        ),
                    )
                },
            }
        },
        (_, _) => Err(RestError::input("unexpected event")),
    }
}

/// Where one image upload stands. Images always upload directly and
/// never poll.
#[derive(Debug, PartialEq, Eq)]
pub enum ImageState {
    Start { owner: String, recipe: String },
    AwaitRegister,
    AwaitWhole { value: JsonValue },
    Finished { result: JsonValue },
}

/// What the transport reports back to the image flow.
#[derive(Debug, PartialEq, Eq)]
pub enum ImageEvent {
    Begin,
    RegisterResponse { body: JsonValue },
    WholeUploaded,
}

/// What the transport must do next for an image.
#[derive(Debug, PartialEq, Eq)]
pub enum ImageAction {
    /// POST the registration request to the assets endpoint.
    SendRegister { request: JsonValue },
    /// Read the whole file and PUT it, with the bearer token exactly
    /// when `include_auth`.
    PutWhole { url: String, headers: Vec<(String, String)>, include_auth: bool },
    /// Nothing left to do.
    Finish,
}

/// The whole image flow, one transition per state and event: register
/// declaring synchronous upload only, PUT the whole file with the
/// bearer token attached, and finish with the registration value; a
/// registration response without a usable direct-HTTP mechanism fails.
pub open spec fn image_step_spec(
    state: ImageState,
    event: ImageEvent,
    r: Result<(ImageState, ImageAction), RestError>,
) -> bool {
    match state {
        ImageState::Start { owner, recipe } => match event {
            ImageEvent::Begin => r matches Ok(p) && {
                &&& p.0 is AwaitRegister
                &&& p.1 matches ImageAction::SendRegister { request } && {
                    &&& spec_register_common(request, owner@, recipe@)
                    &&& spec_hint_field(request) matches Some(v) && is_singleton_str_arr(
                        v,
                        "SYNCHRONOUS_UPLOAD"@,
                    )
                    &&& spec_size_field(request) is None
                }
            },
            _ => r is Err,
        },
        ImageState::AwaitRegister => match event {
            ImageEvent::RegisterResponse { body } => match spec_get(body, "value"@) {
                None => r matches Err(e) && e is Schema,
                Some(value) => {
                    if spec_http_ok(value) {
                        r matches Ok(p) && {
                            &&& p.0 == (ImageState::AwaitWhole { value })
                            &&& p.1 matches ImageAction::PutWhole { url, headers, include_auth }
                                && (url@ == spec_http_url(value) && headers@ == spec_http_headers(
                                value,
                            ) && include_auth)
                        }
                    } else {
                        r matches Err(e) && e is Schema
                    }
                },
            },
            _ => r is Err,
        },
        ImageState::AwaitWhole { value } => match event {
            ImageEvent::WholeUploaded => r matches Ok(p) && (p.0 == (ImageState::Finished {
                result: value,
            }) && p.1 is Finish),
            _ => r is Err,
        },
        ImageState::Finished { .. } => r is Err,
    }
}

/// One transition of the image flow.
pub fn image_step(state: ImageState, event: ImageEvent) -> (r: Result<
    (ImageState, ImageAction),
    RestError,
>)
    ensures
        image_step_spec(state, event, r),
{
    match (state, event) {
        (ImageState::Start { owner, recipe }, ImageEvent::Begin) => {
            let request = image_register_request(owner.as_str(), recipe.as_str());
            Ok((ImageState::AwaitRegister, ImageAction::SendRegister { request }))
        },
        (ImageState::AwaitRegister, ImageEvent::RegisterResponse { body }) => {
            let value = match body.take("value") {
                Some(v) => v,
                None => {
                    return Err(RestError::schema("value"));
                },
            };
            match extract_http_upload(&value) {
                Ok((url, headers)) => Ok(
                    (
                        ImageState::AwaitWhole { value },
                        ImageAction::PutWhole { url, headers, include_auth: true },
                    ),
                ),
                Err(e) => Err(e),
            }
        },
        (ImageState::AwaitWhole { value }, ImageEvent::WholeUploaded) => {
            Ok((ImageState::Finished { result: value }, ImageAction::Finish))
        },
        (_, _) => Err(RestError::input("unexpected event")),
    }
}

} // verus!
