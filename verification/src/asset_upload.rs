//! Asset upload pipeline: registration payloads for images and
//! videos, decoding of the server's chosen upload mechanism, byte
//! range plans for multipart parts, ETag recovery, the finalize
//! payload, and the availability poller's decisions.
use vstd::prelude::*;
use vstd::string::StrSliceExecFns;
use vstd::string::StringExecFns;
use crate::errors::RestError;
use crate::headers::spec_find_ci;
use crate::json::{spec_get, JsonValue};
use crate::strutil::spec_trim_char;

verus! {

/// Files above this size ask for the multipart mechanism.
pub const MULTIPART_THRESHOLD: u64 = 209715200;

/// Seconds between availability polls.
pub const POLL_INTERVAL_SECS: u64 = 3;

/// Default overall polling deadline, in seconds.
pub const DEFAULT_WAIT_TIMEOUT_SECS: u64 = 300;

/// Whether a video of `file_size` bytes asks for multipart upload.
pub open spec fn spec_multipart_requested(file_size: u64) -> bool {
    file_size > MULTIPART_THRESHOLD
}

/// One destination that bytes must be PUT to: its URL, its required
/// headers, and, for a multipart part, the inclusive byte range.
#[derive(Debug, PartialEq, Eq)]
pub struct UploadTarget {
    pub url: String,
    pub headers: Vec<(String, String)>,
    pub range: Option<(u64, u64)>,
}

/// A byte range is well formed when it is non-empty, inclusive, and
/// its length fits a machine word.
pub open spec fn range_wf(t: UploadTarget) -> bool {
    t.range matches Some((first, last)) ==> first <= last && last - first < u64::MAX
}

/// `v` holds a string member `key` whose text is `s`.
pub open spec fn has_str(v: JsonValue, key: Seq<char>, s: Seq<char>) -> bool {
    spec_get(v, key) matches Some(w) && w matches JsonValue::Str(t) && t@ == s
}

/// The string member `key` of `v`.
pub open spec fn str_of(v: JsonValue, key: Seq<char>) -> Seq<char> {
    spec_get(v, key)->0->Str_0@
}

/// Header pairs read from the entries of a JSON object, keeping the
/// members whose values are strings, in order.
pub open spec fn headers_of_entries(es: Seq<(String, JsonValue)>, i: int) -> Seq<(String, String)>
    decreases es.len() - i,
{
    if i < 0 || i >= es.len() {
        Seq::empty()
    } else if es[i].1 is Str {
        seq![(es[i].0, es[i].1->Str_0)] + headers_of_entries(es, i + 1)
    } else {
        headers_of_entries(es, i + 1)
    }
}

/// Header pairs read from an optional JSON value: the string-valued
/// members of an object, nothing from anything else.
pub open spec fn spec_headers_of(v: Option<JsonValue>) -> Seq<(String, String)> {
    match v {
        Some(JsonValue::Obj(es)) => headers_of_entries(es@, 0),
        _ => Seq::empty(),
    }
}

/// Reads the string-valued members of `headers.get(..)`-style JSON
/// into header pairs; a missing value or a non-object yields none.
pub fn json_object_to_headers(value: Option<&JsonValue>) -> (r: Vec<(String, String)>)
    ensures
        r@ == spec_headers_of(match value {
            Some(v) => Some(*v),
            None => None,
        }),
{
    let mut out: Vec<(String, String)> = Vec::new();
    let es = match value {
        Some(v) => match v.as_object() {
            Some(es) => es,
            None => {
                proof {
                    assert(out@ =~= spec_headers_of(match value {
                        Some(v) => Some(*v),
                        None => None,
                    }));
                }
                return out;
            },
        },
        None => {
            proof {
                assert(out@ =~= Seq::<(String, String)>::empty());
            }
            return out;
        },
    };
    let n = es.len();
    let mut i: usize = 0;
    while i < n
        invariant
            n == es@.len(),
            i <= n,
            out@ + headers_of_entries(es@, i as int) == headers_of_entries(es@, 0),
        decreases n - i,
    {
        match &es[i].1 {
            JsonValue::Str(s) => {
                out.push((es[i].0.clone(), s.clone()));
                proof {
                    assert(headers_of_entries(es@, i as int) == seq![
                        (es@[i as int].0, es@[i as int].1->Str_0),
                    ] + headers_of_entries(es@, i + 1));
                    assert(out@ + headers_of_entries(es@, i + 1) =~= headers_of_entries(es@, 0));
                }
            },
            _ => {
                proof {
                    assert(headers_of_entries(es@, i as int) == headers_of_entries(es@, i + 1));
                }
            },
        }
        i = i + 1;
    }
    proof {
        assert(out@ =~= headers_of_entries(es@, 0));
    }
    out
}

/// The direct-HTTP mechanism block of a registration value, when the
/// server chose direct upload.
pub open spec fn spec_http_block(value: JsonValue) -> Option<JsonValue> {
    match spec_get(value, "uploadMechanism"@) {
        Some(m) => spec_get(m, "com.linkedin.digitalmedia.uploading.MediaUploadHttpRequest"@),
        None => None,
    }
}

/// The multipart mechanism block of a registration value, when the
/// server chose multipart upload.
pub open spec fn spec_multipart_block(value: JsonValue) -> Option<JsonValue> {
    match spec_get(value, "uploadMechanism"@) {
        Some(m) => spec_get(m, "com.linkedin.digitalmedia.uploading.MultipartUpload"@),
        None => None,
    }
}

/// A direct-HTTP block is usable when it names an upload URL.
pub open spec fn spec_http_ok(value: JsonValue) -> bool {
    spec_http_block(value) matches Some(h) && spec_get(h, "uploadUrl"@) matches Some(u) && u
        is Str
}

/// The upload URL of a usable direct-HTTP block.
pub open spec fn spec_http_url(value: JsonValue) -> Seq<char> {
    str_of(spec_http_block(value)->0, "uploadUrl"@)
}

/// The required headers of a direct-HTTP block.
pub open spec fn spec_http_headers(value: JsonValue) -> Seq<(String, String)> {
    spec_headers_of(spec_get(spec_http_block(value)->0, "headers"@))
}

/// Extracts the upload URL and required headers of the direct-HTTP
/// mechanism; fails when the block or its URL is missing.
pub fn extract_http_upload(value: &JsonValue) -> (r: Result<
    (String, Vec<(String, String)>),
    RestError,
>)
    ensures
        r is Ok <==> spec_http_ok(*value),
        r matches Ok((url, hdrs)) ==> url@ == spec_http_url(*value) && hdrs@ == spec_http_headers(
            *value,
        ),
        r matches Err(e) ==> e is Schema,
{
    let mech = match value.get("uploadMechanism") {
        Some(m) => m,
        None => {
            return Err(RestError::schema("uploadMechanism.MediaUploadHttpRequest"));
        },
    };
    let http = match mech.get("com.linkedin.digitalmedia.uploading.MediaUploadHttpRequest") {
        Some(h) => h,
        None => {
            return Err(RestError::schema("uploadMechanism.MediaUploadHttpRequest"));
        },
    };
    let url = match http.get("uploadUrl") {
        Some(u) => match u.as_str() {
            Some(s) => s.clone(),
            None => {
                return Err(RestError::schema("uploadUrl"));
            },
        },
        None => {
            return Err(RestError::schema("uploadUrl"));
        },
    };
    let hdrs = json_object_to_headers(http.get("headers"));
    Ok((url, hdrs))
}

/// The decoded multipart mechanism: the opaque metadata token, the
/// media artifact identifier, and the ordered part upload targets.
#[derive(Debug, PartialEq, Eq)]
pub struct MultipartUpload {
    pub metadata: String,
    pub media_artifact: String,
    pub parts: Vec<UploadTarget>,
}

/// A byte-range block declares usable first and last offsets.
pub open spec fn spec_range_ok(br: JsonValue) -> bool {
    spec_get(br, "firstByte"@) matches Some(f) && (f is Num && (spec_get(br, "lastByte"@)
        matches Some(l) && (l is Num && f->Num_0 <= l->Num_0 && l->Num_0 - f->Num_0
        < u64::MAX)))
}

/// One declared part is usable when it names a URL and an inclusive,
/// well-formed byte range.
pub open spec fn spec_part_ok(p: JsonValue) -> bool {
    &&& spec_get(p, "url"@) matches Some(u) && u is Str
    &&& spec_get(p, "byteRange"@) matches Some(br) && spec_range_ok(br)
}

/// First byte offset a usable part declares.
pub open spec fn spec_part_first(p: JsonValue) -> u64 {
    spec_get(spec_get(p, "byteRange"@)->0, "firstByte"@)->0->Num_0
}

/// Last byte offset a usable part declares.
pub open spec fn spec_part_last(p: JsonValue) -> u64 {
    spec_get(spec_get(p, "byteRange"@)->0, "lastByte"@)->0->Num_0
}

/// `t` is the faithful decoding of the declared part `p`.
pub open spec fn spec_decoded_part(p: JsonValue, t: UploadTarget) -> bool {
    &&& t.url@ == str_of(p, "url"@)
    &&& t.headers@ == spec_headers_of(spec_get(p, "headers"@))
    &&& t.range == Some((spec_part_first(p), spec_part_last(p)))
}

/// A registration value carries a usable multipart mechanism: the
/// block with its metadata token, the artifact id beside it, and a
/// part list whose every entry is usable.
pub open spec fn spec_multipart_ok(value: JsonValue) -> bool {
    spec_multipart_block(value) matches Some(mp) && {
        &&& spec_get(mp, "metadata"@) matches Some(md) && md is Str
        &&& spec_get(value, "mediaArtifact"@) matches Some(ma) && ma is Str
        &&& spec_get(mp, "partUploadRequests"@) matches Some(pv) && pv matches JsonValue::Arr(ps)
            && forall|i: int| 0 <= i < ps@.len() ==> spec_part_ok(#[trigger] ps@[i])
    }
}

/// The declared part list of a usable multipart mechanism.
pub open spec fn spec_multipart_parts(value: JsonValue) -> Seq<JsonValue> {
    spec_get(spec_multipart_block(value)->0, "partUploadRequests"@)->0->Arr_0@
}

/// Decodes the whole multipart mechanism at once; any missing or
/// ill-shaped field fails the decode with a schema error.
pub fn extract_multipart(value: &JsonValue) -> (r: Result<MultipartUpload, RestError>)
    ensures
        r is Ok <==> spec_multipart_ok(*value),
        r matches Ok(mu) ==> {
            let mp = spec_multipart_block(*value)->0;
            let ps = spec_multipart_parts(*value);
            &&& mu.metadata@ == str_of(mp, "metadata"@)
            &&& mu.media_artifact@ == str_of(*value, "mediaArtifact"@)
            &&& mu.parts@.len() == ps.len()
            &&& forall|i: int|
                0 <= i < ps.len() ==> spec_decoded_part(ps[i], #[trigger] mu.parts@[i])
            &&& forall|i: int| 0 <= i < ps.len() ==> range_wf(#[trigger] mu.parts@[i])
        },
        r matches Err(e) ==> e is Schema,
{
    let mech = match value.get("uploadMechanism") {
        Some(m) => m,
        None => {
            return Err(RestError::schema("uploadMechanism"));
        },
    };
    let mp = match mech.get("com.linkedin.digitalmedia.uploading.MultipartUpload") {
        Some(m) => m,
        None => {
            return Err(RestError::schema("uploadMechanism"));
        },
    };
    let metadata = match mp.get("metadata") {
        Some(v) => match v.as_str() {
            Some(s) => s.clone(),
            None => {
                return Err(RestError::schema("metadata"));
            },
        },
        None => {
            return Err(RestError::schema("metadata"));
        },
    };
    let media_artifact = match value.get("mediaArtifact") {
        Some(v) => match v.as_str() {
            Some(s) => s.clone(),
            None => {
                return Err(RestError::schema("mediaArtifact"));
            },
        },
        None => {
            return Err(RestError::schema("mediaArtifact"));
        },
    };
    let ps = match mp.get("partUploadRequests") {
        Some(v) => match v.as_array() {
            Some(a) => a,
            None => {
                return Err(RestError::schema("partUploadRequests"));
            },
        },
        None => {
            return Err(RestError::schema("partUploadRequests"));
        },
    };
    let n = ps.len();
    let mut parts: Vec<UploadTarget> = Vec::new();
    let mut i: usize = 0;
    proof {
        assert(spec_multipart_parts(*value) == ps@);
        assert(spec_multipart_ok(*value) <==> (forall|j: int|
            0 <= j < ps@.len() ==> spec_part_ok(#[trigger] ps@[j])));
    }
    while i < n
        invariant
            n == ps@.len(),
            i <= n,
            parts@.len() == i,
            spec_multipart_parts(*value) == ps@,
            metadata@ == str_of(spec_multipart_block(*value)->0, "metadata"@),
            media_artifact@ == str_of(*value, "mediaArtifact"@),
            spec_multipart_ok(*value) <==> (forall|j: int|
                0 <= j < ps@.len() ==> spec_part_ok(#[trigger] ps@[j])),
            forall|j: int| 0 <= j < i ==> spec_part_ok(#[trigger] ps@[j]),
            forall|j: int| 0 <= j < i ==> spec_decoded_part(ps@[j], #[trigger] parts@[j]),
            forall|j: int| 0 <= j < i ==> range_wf(#[trigger] parts@[j]),
        decreases n - i,
    {
        let p = &ps[i];
        let url = match p.get("url") {
            Some(v) => match v.as_str() {
                Some(s) => s.clone(),
                None => {
                    return Err(RestError::schema("url"));
                },
            },
            None => {
                return Err(RestError::schema("url"));
            },
        };
        let br = match p.get("byteRange") {
            Some(v) => v,
            None => {
                return Err(RestError::schema("byteRange"));
            },
        };
        let first = match br.get("firstByte") {
            Some(v) => match v.as_u64() {
                Some(x) => x,
                None => {
                    return Err(RestError::schema("firstByte"));
                },
            },
            None => {
                return Err(RestError::schema("firstByte"));
            },
        };
        let last = match br.get("lastByte") {
            Some(v) => match v.as_u64() {
                Some(x) => x,
                None => {
                    return Err(RestError::schema("lastByte"));
                },
            },
            None => {
                return Err(RestError::schema("lastByte"));
            },
        };
        if last < first || last - first == u64::MAX {
            return Err(RestError::schema("byteRange"));
        }
        let hdrs = json_object_to_headers(p.get("headers"));
        parts.push(UploadTarget { url, headers: hdrs, range: Some((first, last)) });
        i = i + 1;
    }
    Ok(MultipartUpload { metadata, media_artifact, parts })
}

/// `v` is a one-element array holding the string `s`.
pub open spec fn is_singleton_str_arr(v: JsonValue, s: Seq<char>) -> bool {
    v matches JsonValue::Arr(items) && (items@.len() == 1 && (items@[0] matches JsonValue::Str(t)
        && t@ == s))
}

/// `v` is the fixed one-element ownership relationship declaration.
pub open spec fn is_relationship_arr(v: JsonValue) -> bool {
    v matches JsonValue::Arr(rels) && (rels@.len() == 1 && has_str(
        rels@[0],
        "identifier"@,
        "urn:li:userGeneratedContent"@,
    ) && has_str(rels@[0], "relationshipType"@, "OWNER"@))
}

/// The entries shared by every registration request: the owner, the
/// one recipe, and the fixed ownership relationship declaration.
pub open spec fn spec_register_common(r: JsonValue, owner: Seq<char>, recipe: Seq<char>) -> bool {
    spec_get(r, "registerUploadRequest"@) matches Some(ru) && {
        &&& has_str(ru, "owner"@, owner)
        &&& spec_get(ru, "recipes"@) matches Some(a) && is_singleton_str_arr(a, recipe)
        &&& spec_get(ru, "serviceRelationships"@) matches Some(sv) && is_relationship_arr(sv)
    }
}

/// The `supportedUploadMechanism` member of a registration request.
pub open spec fn spec_hint_field(r: JsonValue) -> Option<JsonValue> {
    match spec_get(r, "registerUploadRequest"@) {
        Some(ru) => spec_get(ru, "supportedUploadMechanism"@),
        None => None,
    }
}

/// The `fileSize` member of a registration request.
pub open spec fn spec_size_field(r: JsonValue) -> Option<JsonValue> {
    match spec_get(r, "registerUploadRequest"@) {
        Some(ru) => spec_get(ru, "fileSize"@),
        None => None,
    }
}

/// The one relationship entry every registration declares.
fn service_relationship() -> (r: JsonValue)
    ensures
        has_str(r, "identifier"@, "urn:li:userGeneratedContent"@),
        has_str(r, "relationshipType"@, "OWNER"@),
{
    proof {
        reveal_strlit("identifier");
        reveal_strlit("relationshipType");
        assert("identifier"@.len() == 10);
        assert("relationshipType"@.len() == 16);
    }
    let mut es: Vec<(String, JsonValue)> = Vec::new();
    es.push(
        (
            String::from_str("identifier"),
            JsonValue::Str(String::from_str("urn:li:userGeneratedContent")),
        ),
    );
    es.push((String::from_str("relationshipType"), JsonValue::Str(String::from_str("OWNER"))));
    proof {
        crate::json::lemma_obj_get_at(es@, "identifier"@, 0);
        crate::json::lemma_obj_get_at(es@, "relationshipType"@, 1);
    }
    JsonValue::Obj(es)
}

/// The registration entries below `registerUploadRequest`, with the
/// mechanism hint and the file size included exactly when given.
fn register_entries(owner: &str, recipe: &str, hint: Option<&str>, file_size: Option<u64>) -> (es:
    Vec<(String, JsonValue)>)
    ensures
        ({
            let ru = JsonValue::Obj(es);
            &&& has_str(ru, "owner"@, owner@)
            &&& spec_get(ru, "recipes"@) matches Some(a) && is_singleton_str_arr(a, recipe@)
            &&& spec_get(ru, "serviceRelationships"@) matches Some(sv) && is_relationship_arr(sv)
            &&& hint matches Some(h) ==> (spec_get(ru, "supportedUploadMechanism"@) matches Some(
                v,
            ) && is_singleton_str_arr(v, h@))
            &&& hint is None ==> spec_get(ru, "supportedUploadMechanism"@) is None
            &&& file_size matches Some(nsz) ==> spec_get(ru, "fileSize"@) == Some(
                JsonValue::Num(nsz),
            )
            &&& file_size is None ==> spec_get(ru, "fileSize"@) is None
        }),
{
    proof {
        reveal_strlit("owner");
        reveal_strlit("recipes");
        reveal_strlit("serviceRelationships");
        reveal_strlit("supportedUploadMechanism");
        reveal_strlit("fileSize");
        assert("owner"@.len() == 5);
        assert("recipes"@.len() == 7);
        assert("serviceRelationships"@.len() == 20);
        assert("supportedUploadMechanism"@.len() == 24);
        assert("fileSize"@.len() == 8);
    }
    let mut es: Vec<(String, JsonValue)> = Vec::new();
    es.push((String::from_str("owner"), JsonValue::Str(String::from_str(owner))));
    let mut recipes: Vec<JsonValue> = Vec::new();
    recipes.push(JsonValue::Str(String::from_str(recipe)));
    es.push((String::from_str("recipes"), JsonValue::Arr(recipes)));
    let mut rels: Vec<JsonValue> = Vec::new();
    rels.push(service_relationship());
    es.push((String::from_str("serviceRelationships"), JsonValue::Arr(rels)));
    match hint {
        Some(h) => {
            let mut hints: Vec<JsonValue> = Vec::new();
            hints.push(JsonValue::Str(String::from_str(h)));
            es.push((String::from_str("supportedUploadMechanism"), JsonValue::Arr(hints)));
        },
        None => {},
    }
    match file_size {
        Some(nsz) => {
            es.push((String::from_str("fileSize"), JsonValue::Num(nsz)));
        },
        None => {},
    }
    proof {
        crate::json::lemma_obj_get_at(es@, "owner"@, 0);
        crate::json::lemma_obj_get_at(es@, "recipes"@, 1);
        crate::json::lemma_obj_get_at(es@, "serviceRelationships"@, 2);
        if hint is Some {
            crate::json::lemma_obj_get_at(es@, "supportedUploadMechanism"@, 3);
            if file_size is Some {
                crate::json::lemma_obj_get_at(es@, "fileSize"@, 4);
            } else {
                crate::json::lemma_obj_get_none(es@, "fileSize"@);
            }
        } else {
            crate::json::lemma_obj_get_none(es@, "supportedUploadMechanism"@);
            if file_size is Some {
                crate::json::lemma_obj_get_at(es@, "fileSize"@, 3);
            } else {
                crate::json::lemma_obj_get_none(es@, "fileSize"@);
            }
        }
    }
    es
}

/// Wraps registration entries under the `registerUploadRequest` key.
fn wrap_register(es: Vec<(String, JsonValue)>) -> (r: JsonValue)
    ensures
        spec_get(r, "registerUploadRequest"@) == Some(JsonValue::Obj(es)),
{
    let mut outer: Vec<(String, JsonValue)> = Vec::new();
    outer.push((String::from_str("registerUploadRequest"), JsonValue::Obj(es)));
    proof {
        crate::json::lemma_obj_get_at(outer@, "registerUploadRequest"@, 0);
    }
    JsonValue::Obj(outer)
}

/// The registration request an image upload sends: the common
/// declaration plus the synchronous-upload hint, and never a size.
pub fn image_register_request(owner: &str, recipe: &str) -> (r: JsonValue)
    ensures
        spec_register_common(r, owner@, recipe@),
        spec_hint_field(r) matches Some(v) && is_singleton_str_arr(v, "SYNCHRONOUS_UPLOAD"@),
        spec_size_field(r) is None,
{
    let es = register_entries(owner, recipe, Some("SYNCHRONOUS_UPLOAD"), None);
    wrap_register(es)
}

/// The registration request a video upload sends. The multipart
/// mechanism and the file size are requested exactly when the file
/// exceeds the multipart threshold; a smaller file sends neither and
/// leaves the choice to the server.
pub fn video_register_request(owner: &str, recipe: &str, file_size: u64) -> (r: JsonValue)
    ensures
        spec_register_common(r, owner@, recipe@),
        spec_multipart_requested(file_size) ==> (spec_hint_field(r) matches Some(v)
            && is_singleton_str_arr(v, "MULTIPART_UPLOAD"@)),
        spec_multipart_requested(file_size) ==> spec_size_field(r) == Some(
            JsonValue::Num(file_size),
        ),
        !spec_multipart_requested(file_size) ==> spec_hint_field(r) is None && spec_size_field(r)
            is None,
{
    let es = if file_size > MULTIPART_THRESHOLD {
        register_entries(owner, recipe, Some("MULTIPART_UPLOAD"), Some(file_size))
    } else {
        register_entries(owner, recipe, None, None)
    };
    wrap_register(es)
}

/// One finalize entry reports the part's recovered entity tag and the
/// fixed success status.
pub open spec fn spec_part_entry(e: JsonValue, etag: Seq<char>) -> bool {
    &&& spec_get(e, "headers"@) matches Some(h) && has_str(h, "ETag"@, etag)
    &&& spec_get(e, "httpStatusCode"@) == Some(JsonValue::Num(200))
}

/// The finalize payload correlates the artifact, the metadata token,
/// and one entry per registered part, in part order.
pub open spec fn spec_finalize_request(
    r: JsonValue,
    media_artifact: Seq<char>,
    metadata: Seq<char>,
    etags: Seq<Seq<char>>,
) -> bool {
    spec_get(r, "completeMultipartUploadRequest"@) matches Some(c) && {
        &&& has_str(c, "mediaArtifact"@, media_artifact)
        &&& has_str(c, "metadata"@, metadata)
        &&& spec_get(c, "partUploadResponses"@) matches Some(pv) && pv matches JsonValue::Arr(prs)
            && prs@.len() == etags.len() && forall|i: int|
            0 <= i < etags.len() ==> spec_part_entry(#[trigger] prs@[i], etags[i])
    }
}

/// One entry of the finalize payload's part list.
fn part_entry(etag: &str) -> (e: JsonValue)
    ensures
        spec_part_entry(e, etag@),
{
    proof {
        reveal_strlit("headers");
        reveal_strlit("httpStatusCode");
        reveal_strlit("ETag");
        assert("headers"@.len() == 7);
        assert("httpStatusCode"@.len() == 14);
    }
    let mut h: Vec<(String, JsonValue)> = Vec::new();
    h.push((String::from_str("ETag"), JsonValue::Str(String::from_str(etag))));
    proof {
        crate::json::lemma_obj_get_at(h@, "ETag"@, 0);
    }
    let mut es: Vec<(String, JsonValue)> = Vec::new();
    es.push((String::from_str("headers"), JsonValue::Obj(h)));
    es.push((String::from_str("httpStatusCode"), JsonValue::Num(200)));
    proof {
        crate::json::lemma_obj_get_at(es@, "headers"@, 0);
        crate::json::lemma_obj_get_at(es@, "httpStatusCode"@, 1);
    }
    JsonValue::Obj(es)
}

/// Builds the finalize payload: exactly one entry per recovered
/// entity tag, in the order the parts were uploaded.
pub fn finalize_request(media_artifact: &str, metadata: &str, etags: &Vec<String>) -> (r: JsonValue)
    ensures
        spec_finalize_request(r, media_artifact@, metadata@, etags@.map_values(|s: String| s@)),
{
    proof {
        reveal_strlit("completeMultipartUploadRequest");
        reveal_strlit("mediaArtifact");
        reveal_strlit("metadata");
        reveal_strlit("partUploadResponses");
        assert("completeMultipartUploadRequest"@.len() == 30);
        assert("mediaArtifact"@.len() == 13);
        assert("metadata"@.len() == 8);
        assert("partUploadResponses"@.len() == 19);
    }
    let n = etags.len();
    let mut prs: Vec<JsonValue> = Vec::new();
    let mut i: usize = 0;
    while i < n
        invariant
            n == etags@.len(),
            i <= n,
            prs@.len() == i,
            forall|j: int| 0 <= j < i ==> spec_part_entry(#[trigger] prs@[j], etags@[j]@),
        decreases n - i,
    {
        prs.push(part_entry(etags[i].as_str()));
        i = i + 1;
    }
    let mut c: Vec<(String, JsonValue)> = Vec::new();
    c.push((String::from_str("mediaArtifact"), JsonValue::Str(String::from_str(media_artifact))));
    c.push((String::from_str("metadata"), JsonValue::Str(String::from_str(metadata))));
    c.push((String::from_str("partUploadResponses"), JsonValue::Arr(prs)));
    proof {
        crate::json::lemma_obj_get_at(c@, "mediaArtifact"@, 0);
        crate::json::lemma_obj_get_at(c@, "metadata"@, 1);
        crate::json::lemma_obj_get_at(c@, "partUploadResponses"@, 2);
    }
    let mut outer: Vec<(String, JsonValue)> = Vec::new();
    outer.push((String::from_str("completeMultipartUploadRequest"), JsonValue::Obj(c)));
    proof {
        crate::json::lemma_obj_get_at(outer@, "completeMultipartUploadRequest"@, 0);
    }
    JsonValue::Obj(outer)
}

/// Recovers a part's entity tag from its PUT response headers: found
/// without regard to the header name's case, surrounding quotes
/// stripped; its absence fails the part.
pub fn extract_etag(headers: &Vec<(String, String)>) -> (r: Result<String, RestError>)
    ensures
        r is Ok <==> spec_find_ci(headers@, "etag"@) is Some,
        r matches Ok(e) ==> e@ == spec_trim_char(spec_find_ci(headers@, "etag"@)->0, '"'),
        r matches Err(x) ==> x is Schema,
{
    match crate::headers::find_header_ci(headers, "etag") {
        Some(v) => Ok(crate::strutil::trim_char(v.as_str(), '"')),
        None => Err(RestError::schema("ETag")),
    }
}

/// One recipe entry reports ready.
pub open spec fn spec_recipe_ready(r: JsonValue) -> bool {
    has_str(r, "status"@, "AVAILABLE"@)
}

/// A status body is ready when it has a recipes array and every entry
/// reports ready.
pub open spec fn spec_all_ready(body: JsonValue) -> bool {
    spec_get(body, "recipes"@) matches Some(v) && v matches JsonValue::Arr(rs) && forall|i: int|
        0 <= i < rs@.len() ==> spec_recipe_ready(#[trigger] rs@[i])
}

/// Whether every declared recipe of a status body reports ready.
pub fn recipes_all_ready(body: &JsonValue) -> (b: bool)
    ensures
        b == spec_all_ready(*body),
{
    let rs = match body.get("recipes") {
        Some(v) => match v.as_array() {
            Some(a) => a,
            None => {
                return false;
            },
        },
        None => {
            return false;
        },
    };
    let n = rs.len();
    let mut i: usize = 0;
    while i < n
        invariant
            n == rs@.len(),
            i <= n,
            spec_get(*body, "recipes"@) matches Some(v) && v matches JsonValue::Arr(a) && a@
                == rs@,
            forall|j: int| 0 <= j < i ==> spec_recipe_ready(#[trigger] rs@[j]),
        decreases n - i,
    {
        let ready = match rs[i].get("status") {
            Some(v) => match v.as_str() {
                Some(s) => crate::strutil::str_eq(s.as_str(), "AVAILABLE"),
                None => false,
            },
            None => false,
        };
        if !ready {
            return false;
        }
        i = i + 1;
    }
    true
}

/// What one polling round decides: succeed, give up, or sleep one
/// interval and ask again.
#[derive(Debug, PartialEq, Eq, Structural)]
pub enum PollDecision {
    Ready,
    TimedOut,
    Again,
}

/// Decides one polling round from the status body and whether the
/// deadline has elapsed. A ready body succeeds at once, deadline or
/// not, so a first ready response never sleeps; only a body that is
/// not ready consults the deadline.
pub fn poll_step(body: &JsonValue, timed_out: bool) -> (d: PollDecision)
    ensures
        spec_all_ready(*body) ==> d == PollDecision::Ready,
        !spec_all_ready(*body) && timed_out ==> d == PollDecision::TimedOut,
        !spec_all_ready(*body) && !timed_out ==> d == PollDecision::Again,
{
    if recipes_all_ready(body) {
        PollDecision::Ready
    } else if timed_out {
        PollDecision::TimedOut
    } else {
        PollDecision::Again
    }
}

/// `parts` declare contiguous, non-overlapping inclusive ranges that
/// cover `[start, total)` exactly: the first range starts at `start`,
/// each next range starts right after the previous one ends, and the
/// last ends at `total - 1`.
pub open spec fn parts_cover_from(parts: Seq<UploadTarget>, start: int, total: int) -> bool
    decreases parts.len(),
{
    if parts.len() == 0 {
        start == total
    } else {
        parts[0].range matches Some((first, last)) && (first as int == start && first <= last
            && parts_cover_from(parts.skip(1), last as int + 1, total))
    }
}

/// The number of bytes the uploader reads across `parts`: each part
/// with a declared range reads exactly its inclusive length, starting
/// at its declared first offset.
pub open spec fn total_read(parts: Seq<UploadTarget>) -> int
    decreases parts.len(),
{
    if parts.len() == 0 {
        0
    } else {
        (match parts[0].range {
            Some((first, last)) => last - first + 1,
            None => 0,
        }) + total_read(parts.skip(1))
    }
}

/// Parts with contiguous, non-overlapping ranges covering
/// `[start, total)` read exactly `total - start` bytes in all, each
/// read starting at its declared first offset.
pub proof fn lemma_parts_read_cover(parts: Seq<UploadTarget>, start: int, total: int)
    requires
        parts_cover_from(parts, start, total),
    ensures
        total_read(parts) == total - start,
        start <= total,
    decreases parts.len(),
{
    if parts.len() > 0 {
        let rg = parts[0].range->0;
        lemma_parts_read_cover(parts.skip(1), rg.1 as int + 1, total);
    }
}

/// For any set of declared parts with contiguous, non-overlapping
/// byte ranges covering `[0, file_size)`, the uploader reads exactly
/// `file_size` bytes in total across all parts.
pub proof fn lemma_parts_read_whole_file(parts: Seq<UploadTarget>, file_size: int)
    requires
        parts_cover_from(parts, 0, file_size),
    ensures
        total_read(parts) == file_size,
{
    lemma_parts_read_cover(parts, 0, file_size);
}

/// The identifier a URN-shaped handle reduces to for status lookup:
/// the text after the last colon, or the handle itself without one.
pub open spec fn spec_asset_id(urn: Seq<char>) -> Seq<char> {
    match crate::strutil::spec_after_last(urn, ':') {
        Some(t) => t,
        None => urn,
    }
}

/// The asset handle of a registration value, when present as a string.
pub open spec fn spec_asset_of(value: JsonValue) -> Option<Seq<char>> {
    match spec_get(value, "asset"@) {
        Some(JsonValue::Str(s)) => Some(s@),
        _ => None,
    }
}

/// The trailing segment of a URN-shaped handle: the text after the
/// last colon, or nothing when no colon occurs.
pub fn asset_id_from_urn(value: &str) -> (r: Option<String>)
    ensures
        r is Some <==> crate::strutil::spec_after_last(value@, ':') is Some,
        r matches Some(s) ==> s@ == crate::strutil::spec_after_last(value@, ':')->0,
{
    let id = crate::strutil::after_last(value, ':');
    let whole = crate::strutil::str_eq(id.as_str(), value);
    if whole {
        let n = value.unicode_len();
        let mut i: usize = 0;
        while i < n
            invariant
                n == value@.len(),
                i <= n,
                crate::strutil::spec_after_last(value@, ':') is Some ==> id@
                    == crate::strutil::spec_after_last(value@, ':')->0,
                forall|j: int| 0 <= j < i ==> value@[j] != ':',
            decreases n - i,
        {
            if value.get_char(i) == ':' {
                return Some(id);
            }
            i = i + 1;
        }
        None
    } else {
        Some(id)
    }
}

} // verus!

