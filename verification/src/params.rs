//! Path-template rendering and the flag key under which a declared
//! parameter is registered. A template holds literal text and
//! `{name}` placeholders; rendering substitutes every placeholder
//! with its percent-encoded value and refuses a template with a
//! stray brace or an unknown placeholder.
use vstd::prelude::*;
use vstd::string::StrSliceExecFns;
use vstd::string::StringExecFns;
use crate::command_tree::ParamDef;
use crate::errors::RestError;
use crate::headers::{map_get, spec_map_get};

verus! {

/// The percent-encoding of `s`: unreserved characters kept, every
/// other byte of the UTF-8 form written as a `%XX` escape.
pub uninterp spec fn url_encoded(s: Seq<char>) -> Seq<char>;

/// Relies on urlencoding::encode: the percent-encoding of a text
/// depends on the text alone.
#[verifier::external_body]
fn url_encode(s: &str) -> (r: String)
    ensures
        r@ == url_encoded(s@),
{
    urlencoding::encode(s).into_owned()
}

/// The command-line key a declared parameter is registered under.
pub fn param_key(param: &ParamDef) -> (r: String)
    ensures
        r@ == "param__"@ + param.name@,
{
    let mut r = String::from_str("param__");
    r.append(param.name.as_str());
    r
}

/// Index of the first occurrence of `c` in `t` at or after `from`,
/// or `t.len()` when there is none.
pub open spec fn first_at(t: Seq<char>, c: char, from: int) -> int
    decreases t.len() - from,
{
    if from < 0 || from >= t.len() {
        t.len() as int
    } else if t[from] == c {
        from
    } else {
        first_at(t, c, from + 1)
    }
}

proof fn lemma_first_at(t: Seq<char>, c: char, from: int)
    requires
        0 <= from <= t.len(),
    ensures
        from <= first_at(t, c, from) <= t.len(),
        first_at(t, c, from) < t.len() ==> t[first_at(t, c, from)] == c,
        forall|k: int| from <= k < first_at(t, c, from) ==> t[k] != c,
    decreases t.len() - from,
{
    if from < t.len() && t[from] != c {
        lemma_first_at(t, c, from + 1);
    }
}

/// What the template from position `pos` on renders to: literal text
/// kept, each `{name}` replaced by the percent-encoded value that
/// `id` (for `id`) or `params` (for any other name) binds; `None` on
/// a stray closing brace, an unclosed placeholder, or a name with no
/// binding.
pub open spec fn spec_render_from(
    t: Seq<char>,
    id: Option<Seq<char>>,
    params: Seq<(String, String)>,
    pos: int,
) -> Option<Seq<char>>
    decreases t.len() - pos,
    via spec_render_from_dec
{
    if pos < 0 || pos >= t.len() {
        Some(Seq::empty())
    } else if t[pos] == '}' {
        None
    } else if t[pos] == '{' {
        let j = first_at(t, '}', pos + 1);
        if j >= t.len() {
            None
        } else {
            let name = t.subrange(pos + 1, j);
            let v = if name == "id"@ {
                id
            } else {
                spec_map_get(params, name)
            };
            match v {
                Some(val) => match spec_render_from(t, id, params, j + 1) {
                    Some(rest) => Some(url_encoded(val) + rest),
                    None => None,
                },
                None => None,
            }
        }
    } else {
        match spec_render_from(t, id, params, pos + 1) {
            Some(rest) => Some(seq![t[pos]] + rest),
            None => None,
        }
    }
}

#[via_fn]
proof fn spec_render_from_dec(
    t: Seq<char>,
    id: Option<Seq<char>>,
    params: Seq<(String, String)>,
    pos: int,
) {
    if 0 <= pos < t.len() && t[pos] == '{' {
        lemma_first_at(t, '}', pos + 1);
    }
}

/// What a whole template renders to.
pub open spec fn spec_render(t: Seq<char>, id: Option<Seq<char>>, params: Seq<(String, String)>)
    -> Option<Seq<char>> {
    spec_render_from(t, id, params, 0)
}

/// A run of literal characters renders to itself, followed by the
/// rendering of the rest.
proof fn lemma_render_literal_run(
    t: Seq<char>,
    id: Option<Seq<char>>,
    params: Seq<(String, String)>,
    pos: int,
    end: int,
)
    requires
        0 <= pos <= end <= t.len(),
        forall|k: int| pos <= k < end ==> t[k] != '{' && t[k] != '}',
    ensures
        spec_render_from(t, id, params, pos) == match spec_render_from(t, id, params, end) {
            Some(rest) => Some(t.subrange(pos, end) + rest),
            None => None::<Seq<char>>,
        },
    decreases end - pos,
{
    if pos < end {
        lemma_render_literal_run(t, id, params, pos + 1, end);
        match spec_render_from(t, id, params, end) {
            Some(rest) => {
                assert(spec_render_from(t, id, params, pos + 1) == Some(
                    t.subrange(pos + 1, end) + rest,
                ));
                assert(seq![t[pos]] + (t.subrange(pos + 1, end) + rest) =~= t.subrange(pos, end)
                    + rest);
            },
            None => {},
        }
    } else {
        match spec_render_from(t, id, params, end) {
            Some(rest) => {
                assert(t.subrange(pos, end) + rest =~= rest);
            },
            None => {},
        }
    }
}

/// Renders a path template: every `{name}` placeholder becomes the
/// percent-encoded value bound by the resource id (for `{id}`) or the
/// path parameters; a stray brace, an unclosed placeholder, or an
/// unbound name is refused.
pub fn render_path(
    template: &str,
    resource_id: Option<&str>,
    path_params: &Vec<(String, String)>,
) -> (r: Result<String, RestError>)
    ensures
        ({
            let idv = match resource_id {
                Some(s) => Some(s@),
                None => None::<Seq<char>>,
            };
            &&& r is Ok <==> spec_render(template@, idv, path_params@) is Some
            &&& r matches Ok(out) ==> out@ == spec_render(template@, idv, path_params@)->0
            &&& r matches Err(e) ==> e is Input
        }),
{
    let ghost idv = match resource_id {
        Some(s) => Some(s@),
        None => None::<Seq<char>>,
    };
    let n = template.unicode_len();
    let mut out = String::new();
    let mut pos: usize = 0;
    proof {
        if spec_render_from(template@, idv, path_params@, 0) is Some {
            assert(out@ + spec_render_from(template@, idv, path_params@, 0)->0 =~= spec_render_from(
                template@,
                idv,
                path_params@,
                0,
            )->0);
        }
    }
    while pos < n
        invariant
            n == template@.len(),
            pos <= n,
            idv == (match resource_id {
                Some(s) => Some(s@),
                None => None::<Seq<char>>,
            }),
            spec_render(template@, idv, path_params@) == (match spec_render_from(
                template@,
                idv,
                path_params@,
                pos as int,
            ) {
                Some(rest) => Some(out@ + rest),
                None => None::<Seq<char>>,
            }),
        decreases n - pos,
    {
        let c = template.get_char(pos);
        if c == '}' {
            return Err(RestError::input("missing path parameter for template"));
        } else if c == '{' {
            proof {
                lemma_first_at(template@, '}', pos + 1);
            }
            let mut j: usize = pos + 1;
            while j < n
                invariant
                    n == template@.len(),
                    pos + 1 <= j <= n,
                    forall|k: int| pos + 1 <= k < j ==> template@[k] != '}',
                ensures
                    pos + 1 <= j <= n,
                    forall|k: int| pos + 1 <= k < j ==> template@[k] != '}',
                    j < n ==> template@[j as int] == '}',
                decreases n - j,
            {
                if template.get_char(j) == '}' {
                    break ;
                }
                j = j + 1;
            }
            proof {
                lemma_first_at(template@, '}', pos + 1);
                let fa = first_at(template@, '}', pos + 1);
                if j < n {
                    if fa < j {
                        assert(template@[fa] != '}');
                    }
                    if fa > j {
                        assert(template@[j as int] != '}');
                    }
                    assert(fa == j);
                } else {
                    if fa < n {
                        assert(template@[fa] != '}');
                    }
                    assert(fa == n);
                }
            }
            if j == n {
                return Err(RestError::input("missing path parameter for template"));
            }
            let name = template.substring_char(pos + 1, j);
            let value: String = if crate::strutil::str_eq(name, "id") {
                match resource_id {
                    Some(s) => url_encode(s),
                    None => {
                        return Err(RestError::input("resource id required"));
                    },
                }
            } else {
                match map_get(path_params, name) {
                    Some(v) => url_encode(v.as_str()),
                    None => {
                        return Err(RestError::input("missing path parameter for template"));
                    },
                }
            };
            out.append(value.as_str());
            proof {
                if spec_render_from(template@, idv, path_params@, j + 1) is Some {
                    let rest = spec_render_from(template@, idv, path_params@, j + 1)->0;
                    assert(out@ + rest =~= (out@ + rest));
                    assert(spec_render_from(template@, idv, path_params@, pos as int) == Some(
                        url_encoded(value@) + rest,
                    ) ==> out@ + rest == out@ + rest);
                }
            }
            pos = j + 1;
        } else {
            let mut end: usize = pos + 1;
            while end < n
                invariant
                    n == template@.len(),
                    pos < n,
                    template@[pos as int] != '{' && template@[pos as int] != '}',
                    pos + 1 <= end <= n,
                    forall|k: int| pos + 1 <= k < end ==> template@[k] != '{' && template@[k]
                        != '}',
                ensures
                    pos + 1 <= end <= n,
                    forall|k: int| pos + 1 <= k < end ==> template@[k] != '{' && template@[k]
                        != '}',
                decreases n - end,
            {
                let d = template.get_char(end);
                if d == '{' || d == '}' {
                    break ;
                }
                end = end + 1;
            }
            proof {
                lemma_render_literal_run(template@, idv, path_params@, pos as int, end as int);
            }
            let run = template.substring_char(pos, end);
            let ghost old_out = out@;
            out.append(run);
            proof {
                if spec_render_from(template@, idv, path_params@, end as int) is Some {
                    let rest = spec_render_from(template@, idv, path_params@, end as int)->0;
                    assert(old_out + (template@.subrange(pos as int, end as int) + rest) =~= out@
                        + rest);
                }
            }
            pos = end;
        }
    }
    Ok(out)
}

} // verus!
