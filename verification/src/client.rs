//! Dispatch layer: URL assembly, the query-tunneling decision, request
//! shaping with the protocol's mandatory headers, and normalization of
//! raw HTTP responses into a uniform result or failure. Sending the
//! shaped request over the network is the caller's business; everything
//! decided about a request or a response is decided here.
use vstd::prelude::*;
use vstd::string::StrSliceExecFns;
use vstd::string::StringExecFns;
use crate::errors::RestError;
use crate::headers::{map_set, map_set_all, spec_map_get, unique_keys};
use crate::json::{json_of, spec_get, JsonValue};
use crate::strutil::{eq_ignore_case, is_blank, leading_count, trailing_count};

verus! {

/// Query tunneling policy for `GET`/`DELETE` requests with query parameters.
#[derive(Debug, Clone, Copy, PartialEq, Eq, Structural)]
pub enum TunnelMode {
    Auto,
    Always,
    Never,
}

impl TunnelMode {
    /// Parses a command-line tunneling mode; accepts exactly
    /// `auto`, `always` and `never`.
    pub fn parse(value: &str) -> (r: Result<Self, RestError>)
        ensures
            value@ == "auto"@ ==> r == Ok::<Self, RestError>(TunnelMode::Auto),
            value@ == "always"@ ==> r == Ok::<Self, RestError>(TunnelMode::Always),
            value@ == "never"@ ==> r == Ok::<Self, RestError>(TunnelMode::Never),
            (value@ != "auto"@ && value@ != "always"@ && value@ != "never"@) ==> r is Err,
    {
        proof {
            reveal_strlit("auto");
            reveal_strlit("always");
            reveal_strlit("never");
            assert("auto"@.len() == 4);
            assert("always"@.len() == 6);
            assert("never"@.len() == 5);
        }
        if crate::strutil::str_eq(value, "auto") {
            Ok(TunnelMode::Auto)
        } else if crate::strutil::str_eq(value, "always") {
            Ok(TunnelMode::Always)
        } else if crate::strutil::str_eq(value, "never") {
            Ok(TunnelMode::Never)
        } else {
            Err(RestError::input(value))
        }
    }
}

/// A normalized response: status, headers with the authorization
/// header withheld, and the body as a JSON value.
#[derive(Debug, PartialEq, Eq)]
pub struct RestliResponse {
    pub status: u16,
    pub headers: Vec<(String, String)>,
    pub body: JsonValue,
}

/// The client's configuration. The HTTP transport that performs a
/// shaped request lives with the caller; the fields here decide what
/// every request contains.
#[derive(Debug)]
pub struct RestliClient {
    pub base_url: String,
    pub access_token: String,
    pub linkedin_version: String,
    pub restli_protocol_version: String,
    pub timeout_secs: Option<u64>,
    pub tunnel_mode: TunnelMode,
}

/// What a shaped request carries in place of a body.
#[derive(Debug, PartialEq, Eq)]
pub enum PlannedBody {
    /// No payload.
    NoBody,
    /// A JSON payload.
    Json(JsonValue),
    /// Form-encoded pairs, used by tunneled dispatch.
    Form(Vec<(String, String)>),
}

/// Everything a transport needs to issue one request: the method to
/// actually send, the absolute URL, the query string pairs, every
/// header, and the payload.
#[derive(Debug, PartialEq, Eq)]
pub struct RequestPlan {
    pub method: String,
    pub url: String,
    pub query: Vec<(String, String)>,
    pub headers: Vec<(String, String)>,
    pub body: PlannedBody,
}

/// An assembled URL is at least this long exactly when auto-mode
/// tunneling rewrites the request.
pub const TUNNEL_URL_THRESHOLD: usize = 3800;

/// Whether `path` is already absolute.
pub open spec fn is_absolute_url(p: Seq<char>) -> bool {
    (p.len() >= 7 && p.subrange(0, 7) == "http://"@) || (p.len() >= 8 && p.subrange(0, 8)
        == "https://"@)
}

/// The URL a relative path resolves to: an absolute path unchanged,
/// otherwise base and path joined by exactly one slash.
pub open spec fn spec_build_url(base: Seq<char>, path: Seq<char>) -> Seq<char> {
    if is_absolute_url(path) {
        path
    } else {
        base.take(base.len() - trailing_count(base, '/')) + "/"@ + path.skip(
            leading_count(path, '/'),
        )
    }
}

/// Canonical upper-case name of a supported method, compared without
/// regard to ASCII case; `None` for an unsupported method.
pub open spec fn spec_method_kind(m: Seq<char>) -> Option<Seq<char>> {
    if eq_ignore_case(m, "GET"@) {
        Some("GET"@)
    } else if eq_ignore_case(m, "DELETE"@) {
        Some("DELETE"@)
    } else if eq_ignore_case(m, "POST"@) {
        Some("POST"@)
    } else if eq_ignore_case(m, "PUT"@) {
        Some("PUT"@)
    } else {
        None
    }
}

/// Length of the URL obtained by parsing `base` and appending `pairs`
/// to its query string, or `None` when `base` does not parse as a URL.
pub uninterp spec fn assembled_url_len(base: Seq<char>, pairs: Seq<(String, String)>) -> Option<
    int,
>;

/// Relies on reqwest::Url::parse and Url::query_pairs_mut: the length
/// of the URL serialized after appending `pairs` is a function of the
/// URL text and the pairs alone, and parse failure likewise.
#[verifier::external_body]
fn measure_assembled_url(base: &str, pairs: &Vec<(String, String)>) -> (r: Option<usize>)
    ensures
        r is Some <==> assembled_url_len(base@, pairs@) is Some,
        r is Some ==> r->0 as int == assembled_url_len(base@, pairs@)->0,
{
    match reqwest::Url::parse(base) {
        Ok(mut u) => {
            u.query_pairs_mut().extend_pairs(pairs.iter().map(|p| (p.0.as_str(), p.1.as_str())));
            Some(u.as_str().len())
        },
        Err(_) => None,
    }
}

/// The tunneling rule on an already-measured URL: only `GET`/`DELETE`
/// with at least one query parameter ever tunnel; `always` then always
/// does, `never` never does, and `auto` does exactly at the threshold.
pub open spec fn spec_tunnel_decision(
    mode: TunnelMode,
    get_or_delete: bool,
    n_query: int,
    url_len: int,
) -> bool {
    get_or_delete && n_query > 0 && (mode is Always || (mode is Auto && url_len
        >= TUNNEL_URL_THRESHOLD))
}

/// Decides tunneling from the method class, the number of query
/// parameters, and the length the assembled URL would have.
pub fn tunnel_decision(mode: TunnelMode, get_or_delete: bool, n_query: usize, url_len: usize) -> (b:
    bool)
    ensures
        b == spec_tunnel_decision(mode, get_or_delete, n_query as int, url_len as int),
{
    if !get_or_delete || n_query == 0 {
        return false;
    }
    match mode {
        TunnelMode::Never => false,
        TunnelMode::Always => true,
        TunnelMode::Auto => url_len >= TUNNEL_URL_THRESHOLD,
    }
}

/// Whether a call with canonical method class `get_or_delete`, query
/// pairs `q` and target `url` is dispatched tunneled.
pub open spec fn spec_tunneled(
    mode: TunnelMode,
    get_or_delete: bool,
    q: Seq<(String, String)>,
    url: Seq<char>,
) -> bool {
    get_or_delete && q.len() > 0 && (mode is Always || (mode is Auto && assembled_url_len(url, q)
        is Some && assembled_url_len(url, q)->0 >= TUNNEL_URL_THRESHOLD))
}

/// The header a shaped request carries under `k`: a caller-supplied
/// header wins, then the protocol's mandatory headers, and the
/// method-override header exactly when the request is tunneled.
pub open spec fn spec_planned_header(
    c: RestliClient,
    method_up: Seq<char>,
    tunneled: bool,
    caller: Seq<(String, String)>,
    k: Seq<char>,
) -> Option<Seq<char>> {
    if spec_map_get(caller, k) is Some {
        spec_map_get(caller, k)
    } else if k == "Authorization"@ {
        Some("Bearer "@ + c.access_token@)
    } else if k == "Linkedin-Version"@ {
        Some(c.linkedin_version@)
    } else if k == "X-LinkedIn-Version"@ {
        Some(c.linkedin_version@)
    } else if k == "X-Restli-Protocol-Version"@ {
        Some(c.restli_protocol_version@)
    } else if k == "Accept"@ {
        Some("application/json"@)
    } else if tunneled && k == "X-HTTP-Method-Override"@ {
        Some(method_up)
    } else {
        None
    }
}

/// The header a raw byte PUT carries under `k`: a target-supplied
/// header wins, then the fixed content type and accept headers, and
/// the bearer token exactly when requested.
pub open spec fn spec_put_header(
    c: RestliClient,
    include_auth: bool,
    caller: Seq<(String, String)>,
    k: Seq<char>,
) -> Option<Seq<char>> {
    if spec_map_get(caller, k) is Some {
        spec_map_get(caller, k)
    } else if k == "Content-Type"@ {
        Some("application/octet-stream"@)
    } else if k == "Accept"@ {
        Some("application/json"@)
    } else if include_auth && k == "Authorization"@ {
        Some("Bearer "@ + c.access_token@)
    } else {
        None
    }
}

/// A status in the 2xx range is a success.
pub open spec fn spec_is_success(status: u16) -> bool {
    200 <= status < 300
}

/// The body a raw response text normalizes to: blank text becomes
/// null, JSON text its document, and anything else the text itself.
pub open spec fn spec_body(text: String) -> JsonValue {
    if is_blank(text@) {
        JsonValue::Null
    } else {
        match json_of(text@) {
            Some(v) => v,
            None => JsonValue::Str(text),
        }
    }
}

/// `h` from index `i` on, with headers named `authorization` (in any
/// case) removed.
pub open spec fn strip_auth_from(h: Seq<(String, String)>, i: int) -> Seq<(String, String)>
    decreases h.len() - i,
{
    if i < 0 || i >= h.len() {
        Seq::empty()
    } else if eq_ignore_case(h[i].0@, "authorization"@) {
        strip_auth_from(h, i + 1)
    } else {
        seq![h[i]] + strip_auth_from(h, i + 1)
    }
}

/// `h` with headers named `authorization` (in any case) removed.
pub open spec fn spec_strip_auth(h: Seq<(String, String)>) -> Seq<(String, String)> {
    strip_auth_from(h, 0)
}

/// "Bearer " followed by the token.
fn bearer(token: &str) -> (r: String)
    ensures
        r@ == "Bearer "@ + token@,
{
    let mut b = String::from_str("Bearer ");
    b.append(token);
    b
}

/// Canonical upper-case method, or `None` for an unsupported one.
fn canonical_method(m: &str) -> (r: Option<String>)
    ensures
        r is Some <==> spec_method_kind(m@) is Some,
        r is Some ==> r->0@ == spec_method_kind(m@)->0,
{
    if crate::strutil::str_eq_ignore_case(m, "GET") {
        Some(String::from_str("GET"))
    } else if crate::strutil::str_eq_ignore_case(m, "DELETE") {
        Some(String::from_str("DELETE"))
    } else if crate::strutil::str_eq_ignore_case(m, "POST") {
        Some(String::from_str("POST"))
    } else if crate::strutil::str_eq_ignore_case(m, "PUT") {
        Some(String::from_str("PUT"))
    } else {
        None
    }
}

impl RestliClient {
    /// A client with the given configuration.
    pub fn new(
        base_url: String,
        linkedin_version: String,
        access_token: String,
        restli_protocol_version: String,
        timeout_secs: Option<u64>,
        tunnel_mode: TunnelMode,
    ) -> (c: Self)
        ensures
            c.base_url == base_url,
            c.access_token == access_token,
            c.linkedin_version == linkedin_version,
            c.restli_protocol_version == restli_protocol_version,
            c.timeout_secs == timeout_secs,
            c.tunnel_mode == tunnel_mode,
    {
        RestliClient { base_url, access_token, linkedin_version, restli_protocol_version, timeout_secs, tunnel_mode }
    }

    /// Resolves `path` against the configured base URL; an absolute
    /// `http`/`https` path passes through unchanged.
    pub fn build_url(&self, path: &str) -> (r: String)
        ensures
            r@ == spec_build_url(self.base_url@, path@),
    {
        proof {
            reveal_strlit("http://");
            reveal_strlit("https://");
            assert("http://"@.len() == 7);
            assert("https://"@.len() == 8);
        }
        if crate::strutil::starts_with(path, "http://") || crate::strutil::starts_with(
            path,
            "https://",
        ) {
            return String::from_str(path);
        }
        let mut r = crate::strutil::trim_end_char(self.base_url.as_str(), '/');
        r.append("/");
        let tail = crate::strutil::trim_start_char(path, '/');
        r.append(tail.as_str());
        assert(r@ =~= spec_build_url(self.base_url@, path@));
        r
    }

    /// Shapes one REST call: resolves the URL, decides tunneling,
    /// attaches the protocol's headers with caller headers applied
    /// over them, and places query and body where the dispatch form
    /// requires. Fails only on an unsupported method, or in auto
    /// mode on a base URL that does not parse.
    pub fn plan_call(
        &self,
        method: &str,
        path: &str,
        query: &Vec<(String, String)>,
        headers: &Vec<(String, String)>,
        body: Option<JsonValue>,
    ) -> (r: Result<RequestPlan, RestError>)
        requires
            unique_keys(headers@),
        ensures
            spec_method_kind(method@) is None ==> (r matches Err(e) && e is Input),
            (spec_method_kind(method@) matches Some(mu) ==> {
                let gd = mu == "GET"@ || mu == "DELETE"@;
                let url = spec_build_url(self.base_url@, path@);
                &&& (gd && query@.len() > 0 && self.tunnel_mode is Auto && assembled_url_len(
                    url,
                    query@,
                ) is None) ==> (r matches Err(e) && e is Input)
                &&& !(gd && query@.len() > 0 && self.tunnel_mode is Auto && assembled_url_len(
                    url,
                    query@,
                ) is None) ==> (r matches Ok(plan) && {
                    let tun = spec_tunneled(self.tunnel_mode, gd, query@, url);
                    &&& plan.url@ == url
                    &&& forall|k: Seq<char>|
                        #[trigger] spec_map_get(plan.headers@, k) == spec_planned_header(
                            *self,
                            mu,
                            tun,
                            headers@,
                            k,
                        )
                    &&& tun ==> plan.method@ == "POST"@
                    &&& tun ==> plan.query@.len() == 0
                    &&& tun ==> (plan.body matches PlannedBody::Form(f) && f@ == query@)
                    &&& !tun ==> plan.method@ == mu && plan.query@ == query@
                    &&& !tun && (mu == "POST"@ || mu == "PUT"@) && body is Some ==> (plan.body
                        matches PlannedBody::Json(b) && b == body->0)
                    &&& !tun && !((mu == "POST"@ || mu == "PUT"@) && body is Some) ==> plan.body
                        is NoBody
                })
            }),
    {
        proof {
            reveal_strlit("GET");
            reveal_strlit("DELETE");
            reveal_strlit("POST");
            reveal_strlit("PUT");
        }
        let mname = match canonical_method(method) {
            Some(m) => m,
            None => {
                return Err(RestError::input("unsupported method"));
            },
        };
        let url = self.build_url(path);
        let gd = crate::strutil::str_eq(mname.as_str(), "GET") || crate::strutil::str_eq(
            mname.as_str(),
            "DELETE",
        );
        let tunneled: bool;
        if gd && query.len() > 0 {
            match self.tunnel_mode {
                TunnelMode::Never => {
                    tunneled = false;
                },
                TunnelMode::Always => {
                    tunneled = true;
                },
                TunnelMode::Auto => {
                    match measure_assembled_url(url.as_str(), query) {
                        Some(l) => {
                            tunneled = l >= TUNNEL_URL_THRESHOLD;
                        },
                        None => {
                            return Err(RestError::input("parse url"));
                        },
                    }
                },
            }
        } else {
            tunneled = false;
        }
        proof {
            reveal_strlit("Authorization");
            reveal_strlit("Linkedin-Version");
            reveal_strlit("X-LinkedIn-Version");
            reveal_strlit("X-Restli-Protocol-Version");
            reveal_strlit("Accept");
            reveal_strlit("X-HTTP-Method-Override");
            assert("Authorization"@.len() == 13);
            assert("Linkedin-Version"@.len() == 16);
            assert("X-LinkedIn-Version"@.len() == 18);
            assert("X-Restli-Protocol-Version"@.len() == 25);
            assert("Accept"@.len() == 6);
            assert("X-HTTP-Method-Override"@.len() == 22);
        }
        let mut hdrs: Vec<(String, String)> = Vec::new();
        if tunneled {
            map_set(&mut hdrs, String::from_str("X-HTTP-Method-Override"), mname.clone());
        }
        map_set(&mut hdrs, String::from_str("Authorization"), bearer(self.access_token.as_str()));
        map_set(&mut hdrs, String::from_str("Linkedin-Version"), self.linkedin_version.clone());
        map_set(&mut hdrs, String::from_str("X-LinkedIn-Version"), self.linkedin_version.clone());
        map_set(
            &mut hdrs,
            String::from_str("X-Restli-Protocol-Version"),
            self.restli_protocol_version.clone(),
        );
        map_set(&mut hdrs, String::from_str("Accept"), String::from_str("application/json"));
        map_set_all(&mut hdrs, headers);
        if tunneled {
            let mut form: Vec<(String, String)> = Vec::new();
            let n = query.len();
            let mut i: usize = 0;
            while i < n
                invariant
                    n == query@.len(),
                    i <= n,
                    form@ == query@.take(i as int),
                decreases n - i,
            {
                form.push((query[i].0.clone(), query[i].1.clone()));
                proof {
                    assert(form@ =~= query@.take(i + 1));
                }
                i = i + 1;
            }
            proof {
                assert(query@.take(n as int) =~= query@);
            }
            Ok(
                RequestPlan {
                    method: String::from_str("POST"),
                    url,
                    query: Vec::new(),
                    headers: hdrs,
                    body: PlannedBody::Form(form),
                },
            )
        } else {
            let is_post_or_put = crate::strutil::str_eq(mname.as_str(), "POST")
                || crate::strutil::str_eq(mname.as_str(), "PUT");
            let planned_body = if is_post_or_put {
                match body {
                    Some(b) => PlannedBody::Json(b),
                    None => PlannedBody::NoBody,
                }
            } else {
                PlannedBody::NoBody
            };
            let mut q: Vec<(String, String)> = Vec::new();
            let n = query.len();
            let mut i: usize = 0;
            while i < n
                invariant
                    n == query@.len(),
                    i <= n,
                    q@ == query@.take(i as int),
                decreases n - i,
            {
                q.push((query[i].0.clone(), query[i].1.clone()));
                proof {
                    assert(q@ =~= query@.take(i + 1));
                }
                i = i + 1;
            }
            proof {
                assert(query@.take(n as int) =~= query@);
            }
            Ok(RequestPlan { method: mname, url, query: q, headers: hdrs, body: planned_body })
        }
    }

    /// Shapes a raw byte PUT to an absolute URL: fixed content type,
    /// JSON accept header, the bearer token exactly when asked for,
    /// and the target's own required headers applied over all of them.
    /// The transfer's bytes travel beside the plan.
    pub fn plan_put(&self, url: &str, upload_headers: &Vec<(String, String)>, include_auth: bool)
        -> (r: RequestPlan)
        requires
            unique_keys(upload_headers@),
        ensures
            r.method@ == "PUT"@,
            r.url@ == url@,
            r.query@.len() == 0,
            r.body is NoBody,
            forall|k: Seq<char>|
                #[trigger] spec_map_get(r.headers@, k) == spec_put_header(
                    *self,
                    include_auth,
                    upload_headers@,
                    k,
                ),
    {
        proof {
            reveal_strlit("Content-Type");
            reveal_strlit("Accept");
            reveal_strlit("Authorization");
            assert("Content-Type"@.len() == 12);
            assert("Accept"@.len() == 6);
            assert("Authorization"@.len() == 13);
        }
        let mut hdrs: Vec<(String, String)> = Vec::new();
        if include_auth {
            map_set(
                &mut hdrs,
                String::from_str("Authorization"),
                bearer(self.access_token.as_str()),
            );
        }
        map_set(
            &mut hdrs,
            String::from_str("Content-Type"),
            String::from_str("application/octet-stream"),
        );
        map_set(&mut hdrs, String::from_str("Accept"), String::from_str("application/json"));
        map_set_all(&mut hdrs, upload_headers);
        RequestPlan {
            method: String::from_str("PUT"),
            url: String::from_str(url),
            query: Vec::new(),
            headers: hdrs,
            body: PlannedBody::NoBody,
        }
    }
}

/// Normalizes a raw response. The status decides success or failure
/// first; the body is normalized the same way either way: blank text
/// to null, JSON text to its document, other text to itself. A non-2xx
/// status never yields a response value, and an unparsable body never
/// raises an error of its own. The authorization header is withheld
/// from the returned header set.
pub fn normalize_response(status: u16, headers: Vec<(String, String)>, text: String) -> (r: Result<
    RestliResponse,
    RestError,
>)
    ensures
        r is Ok <==> spec_is_success(status),
        r matches Ok(resp) ==> resp.status == status && resp.headers@ == spec_strip_auth(headers@)
            && resp.body == spec_body(text),
        r matches Err(e) ==> e matches RestError::Protocol { status: st, body } && st == status
            && body == spec_body(text),
{
    let body = if crate::strutil::all_blank(text.as_str()) {
        JsonValue::Null
    } else {
        match crate::json::parse_json(text.as_str()) {
            Some(v) => v,
            None => JsonValue::Str(text),
        }
    };
    if !(200 <= status && status < 300) {
        return Err(RestError::Protocol { status, body });
    }
    let n = headers.len();
    let mut kept: Vec<(String, String)> = Vec::new();
    let mut i: usize = 0;
    while i < n
        invariant
            n == headers@.len(),
            i <= n,
            kept@ + strip_auth_from(headers@, i as int) == spec_strip_auth(headers@),
        decreases n - i,
    {
        if !crate::strutil::str_eq_ignore_case(headers[i].0.as_str(), "authorization") {
            kept.push((headers[i].0.clone(), headers[i].1.clone()));
            proof {
                assert(strip_auth_from(headers@, i as int) == seq![headers@[i as int]]
                    + strip_auth_from(headers@, i + 1));
                assert(kept@ + strip_auth_from(headers@, i + 1) =~= spec_strip_auth(headers@));
            }
        } else {
            proof {
                assert(strip_auth_from(headers@, i as int) == strip_auth_from(headers@, i + 1));
            }
        }
        i = i + 1;
    }
    proof {
        assert(kept@ =~= spec_strip_auth(headers@));
    }
    Ok(RestliResponse { status, headers: kept, body })
}

/// The payload a response body unwraps to: its `elements` member,
/// else its `value` member, else the body itself.
pub open spec fn spec_unwrap_base(body: JsonValue) -> JsonValue {
    if spec_get(body, "elements"@) is Some {
        spec_get(body, "elements"@)->0
    } else if spec_get(body, "value"@) is Some {
        spec_get(body, "value"@)->0
    } else {
        body
    }
}

/// Unwraps a response body for display: takes `elements` or `value`
/// when present, and folds the creation id header into the result: a
/// null base becomes an object holding only the id, an object without
/// an `id` member gets one appended, and anything else is unchanged.
pub fn unwrap_body(body: JsonValue, headers: &Vec<(String, String)>) -> (r: JsonValue)
    ensures
        ({
            let base = spec_unwrap_base(body);
            let ido = crate::headers::spec_find_ci(headers@, "x-restli-id"@);
            &&& ido is None ==> r == base
            &&& (ido is Some && base is Null) ==> (r matches JsonValue::Obj(es) && (es@.len() == 1
                && es@[0].0@ == "id"@ && (es@[0].1 matches JsonValue::Str(t) && t@ == ido->0)))
            &&& ido is Some ==> (base matches JsonValue::Obj(es) ==> (crate::json::spec_obj_get(
                es@,
                "id"@,
            ) is Some ==> r == base))
            &&& ido is Some ==> (base matches JsonValue::Obj(es) ==> (crate::json::spec_obj_get(
                es@,
                "id"@,
            ) is None ==> (r matches JsonValue::Obj(es2) && (es2@.len() == es@.len() + 1
                && es2@.subrange(0, es@.len() as int) == es@ && es2@[es@.len() as int].0@ == "id"@
                && (es2@[es@.len() as int].1 matches JsonValue::Str(t) && t@ == ido->0)))))
            &&& (ido is Some && !(base is Null) && !(base is Obj)) ==> r == base
        }),
{
    let has_elements = body.get("elements").is_some();
    let has_value = body.get("value").is_some();
    let base = if has_elements {
        match body.take("elements") {
            Some(v) => v,
            None => JsonValue::Null,
        }
    } else if has_value {
        match body.take("value") {
            Some(v) => v,
            None => JsonValue::Null,
        }
    } else {
        body
    };
    let id = match crate::headers::find_header_ci(headers, "x-restli-id") {
        Some(v) => v,
        None => {
            return base;
        },
    };
    let has_id = base.get("id").is_some();
    match base {
        JsonValue::Null => {
            let mut es: Vec<(String, JsonValue)> = Vec::new();
            es.push((String::from_str("id"), JsonValue::Str(id)));
            JsonValue::Obj(es)
        },
        JsonValue::Obj(mut es) => {
            if !has_id {
                es.push((String::from_str("id"), JsonValue::Str(id)));
            }
            JsonValue::Obj(es)
        },
        other => other,
    }
}

/// The first `next` link of a paging block, searching the links from
/// index `i`: a link without a string `rel` stops the whole search, a
/// `next` link without a string `href` is passed over.
pub open spec fn next_href_from(links: Seq<JsonValue>, i: int) -> Option<Seq<char>>
    decreases links.len() - i,
{
    if i < 0 || i >= links.len() {
        None
    } else {
        match spec_get(links[i], "rel"@) {
            Some(JsonValue::Str(rel)) => if rel@ == "next"@ {
                match spec_get(links[i], "href"@) {
                    Some(JsonValue::Str(h)) => Some(h@),
                    _ => next_href_from(links, i + 1),
                }
            } else {
                next_href_from(links, i + 1)
            },
            _ => None,
        }
    }
}

/// The URL of the `next` paging link, when the body carries one.
pub open spec fn spec_next_link(body: JsonValue) -> Option<Seq<char>> {
    match spec_get(body, "paging"@) {
        Some(p) => match spec_get(p, "links"@) {
            Some(JsonValue::Arr(links)) => next_href_from(links@, 0),
            _ => None,
        },
        _ => None,
    }
}

/// Finds the URL of the `next` paging link, if any.
pub fn next_link_href(body: &JsonValue) -> (r: Option<String>)
    ensures
        r is Some <==> spec_next_link(*body) is Some,
        r matches Some(h) ==> h@ == spec_next_link(*body)->0,
{
    let links = match body.get("paging") {
        Some(p) => match p.get("links") {
            Some(l) => match l.as_array() {
                Some(a) => a,
                None => {
                    return None;
                },
            },
            None => {
                return None;
            },
        },
        None => {
            return None;
        },
    };
    let n = links.len();
    let mut i: usize = 0;
    while i < n
        invariant
            n == links@.len(),
            i <= n,
            spec_next_link(*body) == next_href_from(links@, i as int),
        decreases n - i,
    {
        let rel = match links[i].get("rel") {
            Some(v) => match v.as_str() {
                Some(s) => s,
                None => {
                    return None;
                },
            },
            None => {
                return None;
            },
        };
        if crate::strutil::str_eq(rel.as_str(), "next") {
            match links[i].get("href") {
                Some(v) => match v.as_str() {
                    Some(h) => {
                        return Some(h.clone());
                    },
                    None => {},
                },
                None => {},
            }
        }
        i = i + 1;
    }
    None
}

} // verus!
