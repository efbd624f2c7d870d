//! Endpoint rules: HTTP methods, route-path conversion and how endpoints are
//! recorded in the OpenAPI document.

use vstd::prelude::*;
use crate::text::{char_is_alphanumeric, chars_of, decimal, is_alphanumeric, owned, push_char, push_str, same_text, spec_decimal};
use crate::maps::{insert_all, insert_entry, lookup, keys_distinct, lemma_insert_entry};
use crate::openapi::{insert_response, new_responses, response_entries, Operation, Parameter, PathItem, RequestBody, Response};

verus! {

/// A character that may appear in a `:name` route parameter.
pub open spec fn is_param_char(c: char) -> bool {
    char_is_alphanumeric(c) || c == '_'
}

/// The length of the longest prefix of `s` made of parameter characters.
pub open spec fn param_name_len(s: Seq<char>) -> nat
    decreases s.len(),
{
    if s.len() > 0 && is_param_char(s[0]) {
        1 + param_name_len(s.drop_first())
    } else {
        0
    }
}

/// `param_name_len` never runs past the end of the sequence.
pub proof fn lemma_param_name_len_bound(s: Seq<char>)
    ensures
        param_name_len(s) <= s.len(),
    decreases s.len(),
{
    if s.len() > 0 && is_param_char(s[0]) {
        lemma_param_name_len_bound(s.drop_first());
    }
}

/// A route path with each `:name` parameter written as `{name}`.
pub open spec fn spec_convert_path(s: Seq<char>) -> Seq<char>
    decreases s.len(),
{
    if s.len() == 0 {
        Seq::empty()
    } else if s[0] == ':' {
        let rest = s.drop_first();
        let n = param_name_len(rest);
        proof {
            lemma_param_name_len_bound(rest);
        }
        seq!['{'] + rest.take(n as int) + seq!['}'] + spec_convert_path(rest.skip(n as int))
    } else {
        seq![s[0]] + spec_convert_path(s.drop_first())
    }
}

/// A prefix of exactly `m` parameter characters, ended by the end of `s` or
/// by another character, has `param_name_len` equal to `m`.
proof fn lemma_param_name_len_exact(s: Seq<char>, m: int)
    requires
        0 <= m <= s.len(),
        forall|k: int| 0 <= k < m ==> is_param_char(#[trigger] s[k]),
        m == s.len() || !is_param_char(s[m]),
    ensures
        param_name_len(s) == m,
    decreases m,
{
    if m > 0 {
        let t = s.drop_first();
        assert forall|k: int| 0 <= k < m - 1 implies is_param_char(#[trigger] t[k]) by {
            assert(t[k] == s[k + 1]);
        }
        if m - 1 < t.len() {
            assert(t[m - 1] == s[m]);
        }
        lemma_param_name_len_exact(t, m - 1);
    }
}

/// Converting a path that has no `:` changes nothing.
pub proof fn lemma_convert_path_without_colon(s: Seq<char>)
    requires
        !s.contains(':'),
    ensures
        spec_convert_path(s) == s,
    decreases s.len(),
{
    if s.len() > 0 {
        assert(s[0] != ':') by {
            assert(s.contains(s[0]));
        }
        let t = s.drop_first();
        assert(!t.contains(':')) by {
            if t.contains(':') {
                let k = choose|k: int| 0 <= k < t.len() && t[k] == ':';
                assert(s[k + 1] == ':');
            }
        }
        lemma_convert_path_without_colon(t);
        assert(s == seq![s[0]] + t);
    }
}

/// How a route path is written in OpenAPI form: a `:` followed by a name of
/// parameter characters (ended by the end of the path or by any other
/// character) becomes the name in braces, any other character is kept, and
/// the rest of the path is converted in turn.
pub proof fn lemma_convert_path_steps(n: Seq<char>, rest: Seq<char>, c: char)
    requires
        forall|k: int| 0 <= k < n.len() ==> is_param_char(#[trigger] n[k]),
        rest.len() == 0 || !is_param_char(rest[0]),
    ensures
        spec_convert_path(seq![':'] + n + rest) == seq!['{'] + n + seq!['}'] + spec_convert_path(rest),
        c != ':' ==> spec_convert_path(seq![c] + rest) == seq![c] + spec_convert_path(rest),
        spec_convert_path(Seq::<char>::empty()) == Seq::<char>::empty(),
{
    let s = seq![':'] + n + rest;
    let t = n + rest;
    assert(s.drop_first() == t);
    assert forall|k: int| 0 <= k < n.len() implies is_param_char(#[trigger] t[k]) by {
        assert(t[k] == n[k]);
    }
    if n.len() < t.len() {
        assert(t[n.len() as int] == rest[0]);
    }
    lemma_param_name_len_exact(t, n.len() as int);
    assert(t.take(n.len() as int) == n);
    assert(t.skip(n.len() as int) == rest);
    let u = seq![c] + rest;
    assert(u.drop_first() == rest);
}

/// Converts `:param` route params to OpenAPI/axum `{param}` syntax.
///
/// The result holds no `:`, so converting it again changes nothing.
pub fn convert_path(path: &str) -> (out: String)
    ensures
        out@ == spec_convert_path(path@),
        !out@.contains(':'),
        spec_convert_path(out@) == out@,
{
    let cs = chars_of(path);
    let ghost s = path@;
    let mut out = String::new();
    let mut i: usize = 0;
    assert(s.skip(0) == s);
    while i < cs.len()
        invariant
            cs@ == s,
            i <= s.len(),
            spec_convert_path(s) == out@ + spec_convert_path(s.skip(i as int)),
            !out@.contains(':'),
        decreases s.len() - i,
    {
        let c = cs[i];
        let ghost t = s.skip(i as int);
        assert(t[0] == c);
        if c == ':' {
            let ghost out0 = out@;
            push_char(&mut out, '{');
            let mut j: usize = i + 1;
            loop
                invariant
                    cs@ == s,
                    i + 1 <= j <= s.len(),
                    forall|k: int| i + 1 <= k < j ==> is_param_char(#[trigger] s[k]),
                    out@ == out0 + seq!['{'] + s.subrange(i + 1, j as int),
                    !out@.contains(':'),
                ensures
                    j == s.len() || !is_param_char(s[j as int]),
                decreases s.len() - j,
            {
                if j >= cs.len() {
                    break;
                }
                let n = cs[j];
                let alnum = is_alphanumeric(n);
                if !(alnum || n == '_') {
                    break;
                }
                proof {
                    if n == ':' {
                        assert(!alnum);
                    }
                }
                let ghost before = out@;
                push_char(&mut out, n);
                assert(s.subrange(i + 1, j + 1) == s.subrange(i + 1, j as int).push(n));
                assert(!out@.contains(':')) by {
                    if out@.contains(':') {
                        let k = choose|k: int| 0 <= k < out@.len() && out@[k] == ':';
                        if k < before.len() {
                            assert(before.contains(':'));
                        }
                    }
                }
                j = j + 1;
            }
            let ghost before = out@;
            push_char(&mut out, '}');
            assert(!out@.contains(':')) by {
                if out@.contains(':') {
                    let k = choose|k: int| 0 <= k < out@.len() && out@[k] == ':';
                    if k < before.len() {
                        assert(before.contains(':'));
                    }
                }
            }
            proof {
                let rest = t.drop_first();
                let m = j - i - 1;
                assert forall|k: int| 0 <= k < m implies is_param_char(#[trigger] rest[k]) by {
                    assert(rest[k] == s[i + 1 + k]);
                }
                if m < rest.len() {
                    assert(rest[m] == s[j as int]);
                }
                lemma_param_name_len_exact(rest, m);
                assert(rest.take(m) == s.subrange(i + 1, j as int));
                assert(rest.skip(m) == s.skip(j as int));
            }
            i = j;
        } else {
            let ghost before = out@;
            push_char(&mut out, c);
            assert(!out@.contains(':')) by {
                if out@.contains(':') {
                    let k = choose|k: int| 0 <= k < out@.len() && out@[k] == ':';
                    if k < before.len() {
                        assert(before.contains(':'));
                    }
                }
            }
            assert(t.drop_first() == s.skip(i + 1));
            i = i + 1;
        }
    }
    assert(s.skip(s.len() as int) == Seq::<char>::empty());
    proof {
        lemma_convert_path_without_colon(out@);
    }
    out
}

/// The HTTP method of an endpoint.
#[derive(Debug, Clone, Copy, PartialEq, Eq, Structural)]
pub enum Method {
    Get,
    Post,
    Put,
    Delete,
    Patch,
    Options,
    Head,
    Any,
}

/// The method named `name` in `#[endpoint(method = ...)]`, if it is one.
pub open spec fn spec_method_named(name: Seq<char>) -> Option<Method> {
    if name == "get"@ {
        Some(Method::Get)
    } else if name == "post"@ {
        Some(Method::Post)
    } else if name == "put"@ {
        Some(Method::Put)
    } else if name == "delete"@ {
        Some(Method::Delete)
    } else if name == "patch"@ {
        Some(Method::Patch)
    } else if name == "options"@ {
        Some(Method::Options)
    } else if name == "head"@ {
        Some(Method::Head)
    } else if name == "any"@ {
        Some(Method::Any)
    } else {
        None
    }
}

/// The message for an unknown method name.
pub open spec fn unknown_method_message(name: Seq<char>) -> Seq<char> {
    "velton: unknown endpoint method `"@ + name
        + "`, expected `get`, `post`, `put`, `delete`, `patch`, `options`, `head` or `any`"@
}

impl Method {
    /// The method named `name`, or the message naming the methods there are.
    pub fn from_name(name: &str) -> (r: Result<Method, String>)
        ensures
            spec_method_named(name@) matches Some(m) ==> r == Ok::<Method, String>(m),
            spec_method_named(name@) is None ==> (r matches Err(e) && e@ == unknown_method_message(name@)),
    {
        if same_text(name, "get") {
            Ok(Method::Get)
        } else if same_text(name, "post") {
            Ok(Method::Post)
        } else if same_text(name, "put") {
            Ok(Method::Put)
        } else if same_text(name, "delete") {
            Ok(Method::Delete)
        } else if same_text(name, "patch") {
            Ok(Method::Patch)
        } else if same_text(name, "options") {
            Ok(Method::Options)
        } else if same_text(name, "head") {
            Ok(Method::Head)
        } else if same_text(name, "any") {
            Ok(Method::Any)
        } else {
            let mut e = String::new();
            push_str(&mut e, "velton: unknown endpoint method `");
            push_str(&mut e, name);
            push_str(
                &mut e,
                "`, expected `get`, `post`, `put`, `delete`, `patch`, `options`, `head` or `any`",
            );
            Err(e)
        }
    }
}

/// Each method name reads as the method of that name (`get` is GET, `post`
/// is POST, `put` is PUT, `delete` is DELETE, `patch` is PATCH, `options` is
/// OPTIONS, `head` is HEAD, `any` is any method), and no other name is read.
pub proof fn lemma_method_names(name: Seq<char>)
    ensures
        spec_method_named("get"@) == Some(Method::Get),
        spec_method_named("post"@) == Some(Method::Post),
        spec_method_named("put"@) == Some(Method::Put),
        spec_method_named("delete"@) == Some(Method::Delete),
        spec_method_named("patch"@) == Some(Method::Patch),
        spec_method_named("options"@) == Some(Method::Options),
        spec_method_named("head"@) == Some(Method::Head),
        spec_method_named("any"@) == Some(Method::Any),
        spec_method_named(name) is Some ==> (name == "get"@ || name == "post"@ || name == "put"@
            || name == "delete"@ || name == "patch"@ || name == "options"@ || name == "head"@
            || name == "any"@),
{
    reveal_strlit("get");
    reveal_strlit("post");
    reveal_strlit("put");
    reveal_strlit("delete");
    reveal_strlit("patch");
    reveal_strlit("options");
    reveal_strlit("head");
    reveal_strlit("any");
    assert("get"@.len() == 3 && "get"@[0] == 'g');
    assert("post"@.len() == 4 && "post"@[0] == 'p');
    assert("put"@.len() == 3 && "put"@[0] == 'p');
    assert("delete"@.len() == 6 && "delete"@[0] == 'd');
    assert("patch"@.len() == 5 && "patch"@[0] == 'p');
    assert("options"@.len() == 7 && "options"@[0] == 'o');
    assert("head"@.len() == 4 && "head"@[0] == 'h');
    assert("any"@.len() == 3 && "any"@[0] == 'a');
}

/// The path item holding `op` under `m`; an endpoint for any method is not
/// documented.
pub open spec fn spec_path_item_for(m: Method, op: Operation) -> Option<PathItem> {
    let e = PathItem::empty();
    match m {
        Method::Get => Some(PathItem { get: Some(op), ..e }),
        Method::Post => Some(PathItem { post: Some(op), ..e }),
        Method::Put => Some(PathItem { put: Some(op), ..e }),
        Method::Delete => Some(PathItem { delete: Some(op), ..e }),
        Method::Patch => Some(PathItem { patch: Some(op), ..e }),
        Method::Options => Some(PathItem { options: Some(op), ..e }),
        Method::Head => Some(PathItem { head: Some(op), ..e }),
        Method::Any => None,
    }
}

/// The path item holding `op` under the endpoint's method (`None` for an
/// endpoint that answers any method: it is routed but not documented).
pub fn path_item_for(m: Method, op: Operation) -> (p: Option<PathItem>)
    ensures
        p == spec_path_item_for(m, op),
{
    let mut e = PathItem::default();
    match m {
        Method::Get => {
            e.get = Some(op);
            Some(e)
        },
        Method::Post => {
            e.post = Some(op);
            Some(e)
        },
        Method::Put => {
            e.put = Some(op);
            Some(e)
        },
        Method::Delete => {
            e.delete = Some(op);
            Some(e)
        },
        Method::Patch => {
            e.patch = Some(op);
            Some(e)
        },
        Method::Options => {
            e.options = Some(op);
            Some(e)
        },
        Method::Head => {
            e.head = Some(op);
            Some(e)
        },
        Method::Any => None,
    }
}

/// An endpoint's operation lands in the slot of its own method, with every
/// other slot, the summary and the description left empty; an endpoint for
/// any method gives no path item.
pub proof fn lemma_path_item_slots(m: Method, op: Operation)
    ensures
        spec_path_item_for(m, op) is None <==> m == Method::Any,
        m == Method::Get ==> spec_path_item_for(m, op) == Some(PathItem {
            summary: None, description: None, get: Some(op), post: None, put: None,
            delete: None, patch: None, options: None, head: None,
        }),
        m == Method::Post ==> spec_path_item_for(m, op) == Some(PathItem {
            summary: None, description: None, get: None, post: Some(op), put: None,
            delete: None, patch: None, options: None, head: None,
        }),
        m == Method::Put ==> spec_path_item_for(m, op) == Some(PathItem {
            summary: None, description: None, get: None, post: None, put: Some(op),
            delete: None, patch: None, options: None, head: None,
        }),
        m == Method::Delete ==> spec_path_item_for(m, op) == Some(PathItem {
            summary: None, description: None, get: None, post: None, put: None,
            delete: Some(op), patch: None, options: None, head: None,
        }),
        m == Method::Patch ==> spec_path_item_for(m, op) == Some(PathItem {
            summary: None, description: None, get: None, post: None, put: None,
            delete: None, patch: Some(op), options: None, head: None,
        }),
        m == Method::Options ==> spec_path_item_for(m, op) == Some(PathItem {
            summary: None, description: None, get: None, post: None, put: None,
            delete: None, patch: None, options: Some(op), head: None,
        }),
        m == Method::Head ==> spec_path_item_for(m, op) == Some(PathItem {
            summary: None, description: None, get: None, post: None, put: None,
            delete: None, patch: None, options: None, head: Some(op),
        }),
{
}

/// The settings of an `#[endpoint(...)]` attribute; the error responses are
/// the response types as written.
pub struct EndpointAttr {
    pub method: Option<String>,
    pub path: Option<String>,
    pub description: Option<String>,
    pub error_responses: Vec<String>,
}

/// The message for an `#[endpoint(...)]` that lacks a setting.
pub open spec fn endpoint_error_message(what: Seq<char>) -> Seq<char> {
    "velton: `#[endpoint(...)]` "@ + what
}

impl EndpointAttr {
    /// The endpoint's method and its path in OpenAPI form (`:name` written
    /// `{name}`), or why the attribute is not usable: a missing `method`, an
    /// unknown method name or a missing `path`, checked in that order.
    pub fn resolve(&self) -> (r: Result<(Method, String), String>)
        ensures
            self.method is None ==> (r matches Err(e) && e@ == endpoint_error_message("missing `method`"@)),
            self.method matches Some(m) ==> (spec_method_named(m@) is None ==> (r matches Err(e) && e@ == unknown_method_message(m@))),
            self.method matches Some(m) ==> (spec_method_named(m@) is Some && self.path is None ==> (r matches Err(e) && e@ == endpoint_error_message("missing `path`"@))),
            self.method matches Some(m) ==> (self.path matches Some(p) ==> (spec_method_named(m@) matches Some(mm) ==> (r matches Ok(ok) && ok.0 == mm && ok.1@ == spec_convert_path(p@)))),
    {
        let method = match &self.method {
            Some(m) => m,
            None => {
                let mut e = String::new();
                push_str(&mut e, "velton: `#[endpoint(...)]` ");
                push_str(&mut e, "missing `method`");
                return Err(e);
            },
        };
        let m = match Method::from_name(method.as_str()) {
            Ok(m) => m,
            Err(e) => return Err(e),
        };
        match &self.path {
            Some(p) => Ok((m, convert_path(p.as_str()))),
            None => {
                let mut e = String::new();
                push_str(&mut e, "velton: `#[endpoint(...)]` ");
                push_str(&mut e, "missing `path`");
                Err(e)
            },
        }
    }
}

/// Status codes as decimal text, paired with their responses.
pub open spec fn response_pairs(rs: Seq<(u16, Response)>) -> Seq<(Seq<char>, Response)> {
    rs.map_values(|e: (u16, Response)| (spec_decimal(e.0 as nat), e.1))
}

/// The OpenAPI operation of an endpoint: its id is the handler's name, its
/// description is the endpoint's, the request type (if the handler takes one)
/// gives the parameters and request body, and the responses are keyed by
/// status code in the order given (the success response first, then the
/// error responses; a later response for the same code replaces the earlier
/// one in its place).
pub fn endpoint_operation(
    handler: &str,
    description: Option<String>,
    request: Option<(Vec<Parameter>, Option<RequestBody>)>,
    responses: Vec<(u16, Response)>,
) -> (op: Operation)
    ensures
        op.operation_id matches Some(id) && id@ == handler@,
        op.description == description,
        op.summary is None,
        op.tags@ == Seq::<String>::empty(),
        !op.deprecated,
        request matches Some(r) ==> op.parameters == r.0 && op.request_body == r.1,
        request is None ==> op.parameters@ == Seq::<Parameter>::empty() && op.request_body is None,
        response_entries(op.responses) == insert_all(Seq::<(Seq<char>, Response)>::empty(), response_pairs(responses@)),
        keys_distinct(response_entries(op.responses)),
{
    let mut op = Operation::default();
    op.operation_id = Some(owned(handler));
    op.description = description;
    match request {
        Some((params, body)) => {
            op.parameters = params;
            op.request_body = body;
        },
        None => {},
    }
    let ghost rs = response_pairs(responses@);
    let mut map = new_responses();
    assert(rs.take(0) == Seq::<(Seq<char>, Response)>::empty());
    for e in it: responses.into_iter()
        invariant
            rs == response_pairs(it.seq()),
            response_entries(map) == insert_all(Seq::<(Seq<char>, Response)>::empty(), rs.take(it.index() as int)),
            keys_distinct(response_entries(map)),
    {
        let ghost i = it.index();
        let (code, response) = e;
        insert_response(&mut map, decimal(code), response);
        assert(rs.take(i + 1).drop_last() == rs.take(i as int));
    }
    assert(rs.take(rs.len() as int) == rs);
    op.responses = map;
    op
}

/// The first position of key `k`.
pub open spec fn first_index_of<V>(s: Seq<(Seq<char>, V)>, k: Seq<char>) -> int {
    choose|i: int| 0 <= i < s.len() && s[i].0 == k && forall|j: int| 0 <= j < i ==> s[j].0 != k
}

/// Recording a path item for a path: merged into the first entry for that
/// path, or added last.
pub open spec fn record_path(s: Seq<(Seq<char>, PathItem)>, k: Seq<char>, item: PathItem) -> Seq<(Seq<char>, PathItem)> {
    if exists|i: int| 0 <= i < s.len() && s[i].0 == k {
        let ix = first_index_of(s, k);
        s.update(ix, (k, s[ix].1.merged(item)))
    } else {
        s.push((k, item))
    }
}

/// Recording the path items of endpoints in order; endpoints for any method
/// record nothing.
pub open spec fn record_endpoints(s: Seq<(Seq<char>, PathItem)>, eps: Seq<(Seq<char>, Method, Operation)>) -> Seq<(Seq<char>, PathItem)>
    decreases eps.len(),
{
    if eps.len() == 0 {
        s
    } else {
        let prev = record_endpoints(s, eps.drop_last());
        let (k, m, op) = eps.last();
        match spec_path_item_for(m, op) {
            Some(item) => record_path(prev, k, item),
            None => prev,
        }
    }
}

/// Recording a path item keeps each path listed once.
proof fn lemma_record_path_distinct(s: Seq<(Seq<char>, PathItem)>, k: Seq<char>, item: PathItem)
    requires
        keys_distinct(s),
    ensures
        keys_distinct(record_path(s, k, item)),
{
    let r = record_path(s, k, item);
    if exists|i: int| 0 <= i < s.len() && s[i].0 == k {
        let w = choose|i: int| 0 <= i < s.len() && s[i].0 == k;
        let ix = first_index_of(s, k);
        assert(0 <= ix < s.len() && s[ix].0 == k) by {
            assert forall|j: int| 0 <= j < w implies s[j].0 != k by {
                assert(s[w].0 == k);
            }
        }
        assert forall|i: int, j: int| 0 <= i < r.len() && 0 <= j < r.len() && i != j implies r[i].0 != r[j].0 by {
            assert(r[i].0 == s[i].0);
            assert(r[j].0 == s[j].0);
        }
    } else {
        assert forall|i: int, j: int| 0 <= i < r.len() && 0 <= j < r.len() && i != j implies r[i].0 != r[j].0 by {
            if i == s.len() {
                assert(r[j].0 == s[j].0);
            } else if j == s.len() {
                assert(r[i].0 == s[i].0);
            }
        }
    }
}

/// Records one endpoint's path item in the list of documented paths.
fn record_endpoint(paths: &mut Vec<(String, PathItem)>, path: String, item: PathItem)
    ensures
        final(paths)@.map_values(|e: (String, PathItem)| (e.0@, e.1))
            == record_path(old(paths)@.map_values(|e: (String, PathItem)| (e.0@, e.1)), path@, item),
{
    let ghost s = old(paths)@.map_values(|e: (String, PathItem)| (e.0@, e.1));
    let mut i: usize = 0;
    while i < paths.len()
        invariant
            paths@ == old(paths)@,
            s == paths@.map_values(|e: (String, PathItem)| (e.0@, e.1)),
            i <= paths@.len(),
            forall|j: int| 0 <= j < i ==> s[j].0 != path@,
        decreases paths@.len() - i,
    {
        if same_text(paths[i].0.as_str(), path.as_str()) {
            let ghost ix = first_index_of(s, path@);
            assert(s[i as int].0 == path@);
            assert(ix == i) by {
                if ix < i {
                    assert(s[ix].0 != path@);
                } else if ix > i {
                    assert(s[i as int].0 != path@);
                }
            }
            let (k, mut existing) = paths.remove(i);
            existing.merge(item);
            paths.insert(i, (k, existing));
            assert(paths@.map_values(|e: (String, PathItem)| (e.0@, e.1)) == record_path(s, path@, item));
            return;
        }
        i = i + 1;
    }
    paths.push((path, item));
    assert(paths@.map_values(|e: (String, PathItem)| (e.0@, e.1)) == record_path(s, path@, item));
}

/// The documented paths of a controller's endpoints, each given as its
/// OpenAPI path, method and operation: operations on the same path share one
/// path item (in the order the paths first appear), and endpoints for any
/// method are left out.
pub fn document_endpoints(endpoints: Vec<(String, Method, Operation)>) -> (paths: Vec<(String, PathItem)>)
    ensures
        paths@.map_values(|e: (String, PathItem)| (e.0@, e.1)) == record_endpoints(
            Seq::empty(),
            endpoints@.map_values(|e: (String, Method, Operation)| (e.0@, e.1, e.2)),
        ),
        keys_distinct(paths@.map_values(|e: (String, PathItem)| (e.0@, e.1))),
{
    let ghost eps = endpoints@.map_values(|e: (String, Method, Operation)| (e.0@, e.1, e.2));
    let mut paths: Vec<(String, PathItem)> = Vec::new();
    assert(eps.take(0) == Seq::<(Seq<char>, Method, Operation)>::empty());
    assert(paths@.map_values(|e: (String, PathItem)| (e.0@, e.1)) == Seq::<(Seq<char>, PathItem)>::empty());
    for e in it: endpoints.into_iter()
        invariant
            eps == it.seq().map_values(|e: (String, Method, Operation)| (e.0@, e.1, e.2)),
            paths@.map_values(|e: (String, PathItem)| (e.0@, e.1)) == record_endpoints(Seq::empty(), eps.take(it.index() as int)),
            keys_distinct(paths@.map_values(|e: (String, PathItem)| (e.0@, e.1))),
    {
        let ghost i = it.index();
        let (path, method, op) = e;
        assert(eps.take(i + 1).drop_last() == eps.take(i as int));
        assert(eps.take(i + 1).last() == (path@, method, op));
        let ghost before = paths@.map_values(|e: (String, PathItem)| (e.0@, e.1));
        match path_item_for(method, op) {
            Some(item) => {
                let ghost k = path@;
                proof {
                    lemma_record_path_distinct(before, k, item);
                }
                record_endpoint(&mut paths, path, item);
            },
            None => {},
        }
    }
    assert(eps.take(eps.len() as int) == eps);
    paths
}

} // verus!
