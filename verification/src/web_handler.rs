//! The web handler: resolves a request path to a safe file path under
//! the document root, decides the response for each method and file
//! outcome, and recognizes a complete header block.

use vstd::prelude::*;
use vstd::string::StringExecFns;
use vstd::utf8::encode_utf8;
use crate::content_type::{spec_extension, spec_type_of_extension, ContentType};
use crate::method::Method;
use crate::request::{ParseError, Request};
use crate::response::{spec_header_text, spec_status_line, spec_text_len, Response};
use crate::status_code::StatusCode;
use crate::text::{chars_eq_str, chars_of, spec_split, split_all, string_of, subvec};

verus! {

/// The characters that no served file name may hold.
pub open spec fn is_illegal_char(c: char) -> bool {
    c == '<' || c == '>' || c == ':' || c == '"' || c == '/' || c == '\\' || c == '|' || c == '?'
        || c == '*'
}

/// Whether a path component may name a served file: it is not empty,
/// does not begin with a dot, and holds no illegal character. Such a
/// name is in particular neither `.` nor `..` and holds no separator.
pub open spec fn valid_filename(s: Seq<char>) -> bool {
    s.len() > 0 && s[0] != '.' && forall|k: int| 0 <= k < s.len() ==> !is_illegal_char(#[trigger] s[k])
}

/// Whether `c` is an illegal file name character.
fn illegal_char(c: char) -> (r: bool)
    ensures
        r == is_illegal_char(c),
{
    c == '<' || c == '>' || c == ':' || c == '"' || c == '/' || c == '\\' || c == '|' || c == '?'
        || c == '*'
}

/// Whether `v` may name a served file.
pub fn check_filename(v: &Vec<char>) -> (r: bool)
    ensures
        r == valid_filename(v@),
{
    if v.len() == 0 {
        return false;
    }
    if v[0] == '.' {
        return false;
    }
    let mut i: usize = 0;
    while i < v.len()
        invariant
            i <= v.len(),
            forall|k: int| 0 <= k < i ==> !is_illegal_char(#[trigger] v@[k]),
        decreases v.len() - i,
    {
        if illegal_char(v[i]) {
            return false;
        }
        i = i + 1;
    }
    true
}

/// The path with every backslash separator written as a slash.
pub open spec fn spec_norm_seps(p: Seq<char>) -> Seq<char> {
    p.map_values(
        |c: char|
            if c == '\\' {
                '/'
            } else {
                c
            },
    )
}

/// The components of a request path: the pieces between separators,
/// where both `/` and `\` separate.
pub open spec fn spec_components(p: Seq<char>) -> Seq<Seq<char>> {
    spec_split(spec_norm_seps(p), '/')
}

/// One walk step over the components from `pos` on: empty components
/// and `.` are ignored, `..` pops the stack and fails on an empty
/// stack, a valid name is pushed, and anything else fails.
pub open spec fn spec_walk(comps: Seq<Seq<char>>, pos: int, stack: Seq<Seq<char>>) -> Option<
    Seq<Seq<char>>,
>
    decreases comps.len() - pos,
{
    if pos < 0 || pos >= comps.len() {
        Some(stack)
    } else {
        let c = comps[pos];
        if c.len() == 0 || c == seq!['.'] {
            spec_walk(comps, pos + 1, stack)
        } else if c == seq!['.', '.'] {
            if stack.len() == 0 {
                None
            } else {
                spec_walk(comps, pos + 1, stack.drop_last())
            }
        } else if valid_filename(c) {
            spec_walk(comps, pos + 1, stack.push(c))
        } else {
            None
        }
    }
}

/// The components of the safe relative path for a request path: the
/// walked stack, or the single component `index.html` where the stack
/// came out empty; nothing where the walk failed.
pub open spec fn spec_sanitize(p: Seq<char>) -> Option<Seq<Seq<char>>> {
    match spec_walk(spec_components(p), 0, Seq::empty()) {
        None => None,
        Some(stack) => if stack.len() == 0 {
            Some(seq!["index.html"@])
        } else {
            Some(stack)
        },
    }
}

/// The components joined with `/`.
pub open spec fn spec_join_from(comps: Seq<Seq<char>>, pos: int) -> Seq<char>
    decreases comps.len() - pos,
{
    if pos < 0 || pos >= comps.len() {
        Seq::empty()
    } else {
        seq!['/'] + comps[pos] + spec_join_from(comps, pos + 1)
    }
}

/// The components joined with `/`, without a leading separator.
pub open spec fn spec_join(comps: Seq<Seq<char>>) -> Seq<char> {
    if comps.len() == 0 {
        Seq::empty()
    } else {
        comps[0] + spec_join_from(comps, 1)
    }
}

/// Every component that a successful walk returns is a valid file
/// name, as long as every component already on the stack is.
proof fn lemma_walk_valid(comps: Seq<Seq<char>>, pos: int, stack: Seq<Seq<char>>)
    requires
        0 <= pos <= comps.len(),
        forall|k: int| 0 <= k < stack.len() ==> valid_filename(#[trigger] stack[k]),
        spec_walk(comps, pos, stack) is Some,
    ensures
        forall|k: int|
            0 <= k < spec_walk(comps, pos, stack).unwrap().len() ==> valid_filename(
                #[trigger] spec_walk(comps, pos, stack).unwrap()[k],
            ),
    decreases comps.len() - pos,
{
    if pos < comps.len() {
        let c = comps[pos];
        if c.len() == 0 || c == seq!['.'] {
            lemma_walk_valid(comps, pos + 1, stack);
        } else if c == seq!['.', '.'] {
            lemma_walk_valid(comps, pos + 1, stack.drop_last());
        } else if valid_filename(c) {
            lemma_walk_valid(comps, pos + 1, stack.push(c));
        }
    }
}

/// Every path the sanitizer accepts resolves to components that are
/// all valid file names, and there is at least one: joined under the
/// document root, such a path names a strict descendant of the root,
/// for no component is empty, `.` or `..`, and none holds a separator.
pub proof fn lemma_sanitize_descendant(p: Seq<char>)
    ensures
        match spec_sanitize(p) {
            Some(comps) => comps.len() > 0 && forall|k: int|
                0 <= k < comps.len() ==> valid_filename(#[trigger] comps[k]),
            None => true,
        },
{
    let comps = spec_components(p);
    if spec_walk(comps, 0, Seq::empty()) is Some {
        lemma_walk_valid(comps, 0, Seq::empty());
        let stack = spec_walk(comps, 0, Seq::empty()).unwrap();
        if stack.len() == 0 {
            reveal_strlit("index.html");
            assert(valid_filename("index.html"@));
        }
    }
}

/// The walk step of one component on the running depth: ignored
/// components keep it, `..` lowers it, and any other lifts it.
pub open spec fn spec_delta(c: Seq<char>) -> int {
    if c.len() == 0 || c == seq!['.'] {
        0
    } else if c == seq!['.', '.'] {
        -1
    } else {
        1
    }
}

/// The running depth change over the components in `[from, to)`.
pub open spec fn spec_height_between(comps: Seq<Seq<char>>, from: int, to: int) -> int
    decreases to - from,
{
    if from >= to {
        0
    } else {
        spec_delta(comps[from]) + spec_height_between(comps, from + 1, to)
    }
}

/// Wherever the walk succeeds, the depth of the stack never falls
/// under zero at any point of the walk.
proof fn lemma_walk_depth(comps: Seq<Seq<char>>, pos: int, stack: Seq<Seq<char>>)
    requires
        0 <= pos <= comps.len(),
        spec_walk(comps, pos, stack) is Some,
    ensures
        forall|k: int|
            pos <= k <= comps.len() ==> stack.len() + spec_height_between(comps, pos, k) >= 0,
    decreases comps.len() - pos,
{
    assert forall|k: int|
        pos <= k <= comps.len() implies stack.len() + spec_height_between(comps, pos, k)
        >= 0 by {
        if k == pos {
            assert(spec_height_between(comps, pos, k) == 0);
        } else {
            let c = comps[pos];
            if c.len() == 0 || c == seq!['.'] {
                lemma_walk_depth(comps, pos + 1, stack);
            } else if c == seq!['.', '.'] {
                lemma_walk_depth(comps, pos + 1, stack.drop_last());
            } else if valid_filename(c) {
                lemma_walk_depth(comps, pos + 1, stack.push(c));
            }
            lemma_height_step(comps, pos, k);
        }
    }
}

/// Unrolls the depth change at its first component.
proof fn lemma_height_step(comps: Seq<Seq<char>>, pos: int, k: int)
    requires
        pos < k,
    ensures
        spec_height_between(comps, pos, k) == spec_delta(comps[pos]) + spec_height_between(
            comps,
            pos + 1,
            k,
        ),
{
}

/// A request path whose traversal components would pop above the
/// document root at any point is rejected.
pub proof fn lemma_traversal_rejected(p: Seq<char>)
    ensures
        (exists|k: int|
            0 <= k <= spec_components(p).len() && spec_height_between(spec_components(p), 0, k)
                < 0) ==> spec_sanitize(p) is None,
{
    let comps = spec_components(p);
    if spec_walk(comps, 0, Seq::empty()) is Some {
        lemma_walk_depth(comps, 0, Seq::empty());
    }
}

/// Whether a component is a name that the walk refuses: not ignored,
/// not a traversal step, and not a valid file name.
pub open spec fn is_rejected_name(c: Seq<char>) -> bool {
    c.len() > 0 && c != seq!['.'] && c != seq!['.', '.'] && !valid_filename(c)
}

/// A successful walk passed no rejected name.
proof fn lemma_walk_no_rejected(comps: Seq<Seq<char>>, pos: int, stack: Seq<Seq<char>>)
    requires
        0 <= pos <= comps.len(),
        spec_walk(comps, pos, stack) is Some,
    ensures
        forall|k: int| pos <= k < comps.len() ==> !is_rejected_name(#[trigger] comps[k]),
    decreases comps.len() - pos,
{
    if pos < comps.len() {
        let c = comps[pos];
        if c.len() == 0 || c == seq!['.'] {
            lemma_walk_no_rejected(comps, pos + 1, stack);
        } else if c == seq!['.', '.'] {
            lemma_walk_no_rejected(comps, pos + 1, stack.drop_last());
        } else if valid_filename(c) {
            lemma_walk_no_rejected(comps, pos + 1, stack.push(c));
        }
    }
}

/// A request path with any component that begins with a dot, or that
/// holds an illegal character, is rejected.
pub proof fn lemma_illegal_rejected(p: Seq<char>)
    ensures
        (exists|k: int|
            0 <= k < spec_components(p).len() && is_rejected_name(
                #[trigger] spec_components(p)[k],
            )) ==> spec_sanitize(p) is None,
{
    let comps = spec_components(p);
    if spec_walk(comps, 0, Seq::empty()) is Some {
        lemma_walk_no_rejected(comps, 0, Seq::empty());
    }
}

/// Translates a request path into a safe relative path under the
/// document root: components are walked as `spec_walk` says, an empty
/// outcome serves `index.html`, and the result is joined with `/`.
pub fn sanitize_path(path_str: &str) -> (r: Option<String>)
    ensures
        match spec_sanitize(path_str@) {
            Some(comps) => r is Some && r.unwrap()@ == spec_join(comps),
            None => r is None,
        },
{
    let chars = chars_of(path_str);
    let mut normed: Vec<char> = Vec::new();
    let mut i: usize = 0;
    while i < chars.len()
        invariant
            i <= chars.len(),
            normed@ == spec_norm_seps(chars@.take(i as int)),
        decreases chars.len() - i,
    {
        let c = chars[i];
        normed.push(if c == '\\' { '/' } else { c });
        proof {
            assert(normed@ =~= spec_norm_seps(chars@.take(i + 1 as int)));
        }
        i = i + 1;
    }
    proof {
        assert(chars@.take(chars@.len() as int) =~= chars@);
    }
    let comps = split_all(&normed, '/');
    let ghost cs = comps.deep_view();
    let mut stack: Vec<Vec<char>> = Vec::new();
    proof {
        reveal_strlit(".");
        reveal_strlit("..");
        assert("."@ =~= seq!['.']);
        assert(".."@ =~= seq!['.', '.']);
        assert(stack.deep_view() =~~= Seq::<Seq<char>>::empty());
    }
    let mut pos: usize = 0;
    while pos < comps.len()
        invariant
            pos <= comps.len(),
            cs == comps.deep_view(),
            cs == spec_components(path_str@),
            spec_walk(cs, 0, Seq::empty()) == spec_walk(cs, pos as int, stack.deep_view()),
        decreases comps.len() - pos,
    {
        let c = &comps[pos];
        proof {
            assert(cs[pos as int] == comps@[pos as int]@);
        }
        proof {
            reveal_strlit(".");
            reveal_strlit("..");
            assert("."@ =~= seq!['.']);
            assert(".."@ =~= seq!['.', '.']);
        }
        if c.len() == 0 || chars_eq_str(c, ".") {
        } else if chars_eq_str(c, "..") {
            let ghost pre = stack.deep_view();
            if stack.pop().is_none() {
                proof {
                    assert(pre.len() == stack.deep_view().len());
                }
                return None;
            }
            proof {
                assert(stack.deep_view() =~= pre.drop_last());
            }
        } else {
            if !check_filename(c) {
                return None;
            }
            let ghost pre = stack.deep_view();
            let copy = subvec(c, 0, c.len());
            proof {
                assert(copy@ =~= c@);
            }
            stack.push(copy);
            proof {
                assert(stack.deep_view() =~~= pre.push(c@));
            }
        }
        pos = pos + 1;
    }
    if stack.len() == 0 {
        proof {
            assert(stack.deep_view() =~~= Seq::<Seq<char>>::empty());
        }
        let ghost pre = stack.deep_view();
        let idx = chars_of("index.html");
        stack.push(idx);
        proof {
            assert(stack.deep_view() =~~= seq!["index.html"@]);
        }
    }
    Some(join_components(&stack))
}

/// The fixed body of the `403 Forbidden` response.
pub open spec fn spec_forbidden_body() -> Seq<char> {
    "<!doctype html><title>Error 403</title><h1>403 Forbidden</h1><h3>You don't have permission to access the requested resource on this server.</h3>\n"@
}

/// The fixed body of the `404 Not Found` response.
pub open spec fn spec_not_found_body() -> Seq<char> {
    "<!doctype html><title>Error 404</title><h1>404 Not Found</h1><h3>The requested resource could not be found on this server, but may be available in the future.</h3>\n"@
}

/// The fixed body of the `405 Method Not Allowed` response.
pub open spec fn spec_method_not_allowed_body() -> Seq<char> {
    "<!doctype html><title>Error 405</title><h1>405 Method Not Allowed</h1><h3>The request method is known by the server, but is not supported by the target resource.</h3>\n"@
}

/// The fixed body of the `500 Internal Server Error` response.
pub open spec fn spec_internal_body() -> Seq<char> {
    "<!doctype html><title>Error 500</title><h1>500 Internal Server Error</h1><h3>The server encountered an internal error and was unable to complete your request.</h3>\n"@
}

/// The header and body of the fixed HTML response for an error status.
pub open spec fn spec_error_response(status: StatusCode, body: Seq<char>) -> (Seq<char>, Seq<u8>) {
    (
        spec_header_text(status, Some(spec_text_len(body)), Some(ContentType::HTML)),
        encode_utf8(body),
    )
}

/// Whether a response carries exactly the given header and body.
pub open spec fn response_is(r: Response, hb: (Seq<char>, Seq<u8>)) -> bool {
    r.spec_header() == hb.0 && r.spec_body() == hb.1
}

/// The `403 Forbidden` response: directory listing is refused.
pub fn error_forbidden() -> (r: Response)
    ensures
        response_is(r, spec_error_response(StatusCode::Forbidden, spec_forbidden_body())),
{
    Response::from_text(
        StatusCode::Forbidden,
        "<!doctype html><title>Error 403</title><h1>403 Forbidden</h1><h3>You don't have permission to access the requested resource on this server.</h3>\n",
        Some(ContentType::HTML),
    )
}

/// The `404 Not Found` response: the path was rejected or names no
/// file.
pub fn error_not_found() -> (r: Response)
    ensures
        response_is(r, spec_error_response(StatusCode::NotFound, spec_not_found_body())),
{
    Response::from_text(
        StatusCode::NotFound,
        "<!doctype html><title>Error 404</title><h1>404 Not Found</h1><h3>The requested resource could not be found on this server, but may be available in the future.</h3>\n",
        Some(ContentType::HTML),
    )
}

/// The `405 Method Not Allowed` response: only `GET` and `HEAD` serve
/// files.
pub fn error_method_not_allowed() -> (r: Response)
    ensures
        response_is(
            r,
            spec_error_response(StatusCode::MethodNotAllowed, spec_method_not_allowed_body()),
        ),
{
    Response::from_text(
        StatusCode::MethodNotAllowed,
        "<!doctype html><title>Error 405</title><h1>405 Method Not Allowed</h1><h3>The request method is known by the server, but is not supported by the target resource.</h3>\n",
        Some(ContentType::HTML),
    )
}

/// The `500 Internal Server Error` response: the file was there but
/// could not be opened.
pub fn error_internal() -> (r: Response)
    ensures
        response_is(
            r,
            spec_error_response(StatusCode::InternalServerError, spec_internal_body()),
        ),
{
    Response::from_text(
        StatusCode::InternalServerError,
        "<!doctype html><title>Error 500</title><h1>500 Internal Server Error</h1><h3>The server encountered an internal error and was unable to complete your request.</h3>\n",
        Some(ContentType::HTML),
    )
}

/// What the file system said of the resolved path; the caller stats
/// the path and tries to open it.
#[derive(Copy, Clone, Debug, PartialEq, Eq, Structural)]
pub enum FileProbe {
    Missing,
    Directory,
    OpenFailed,
    Opened(u64),
}

/// Where a request goes by its method: `GET` serves a file and
/// transmits its data, `HEAD` serves the same file without the data,
/// and every other method is refused.
#[derive(Copy, Clone, Debug, PartialEq, Eq, Structural)]
pub enum Dispatch {
    Serve(bool),
    NotAllowed,
}

/// The dispatch of one method.
pub open spec fn spec_dispatch(m: Method) -> Dispatch {
    match m {
        Method::GET => Dispatch::Serve(true),
        Method::HEAD => Dispatch::Serve(false),
        _ => Dispatch::NotAllowed,
    }
}

/// Decides where a request goes by its method.
pub fn dispatch(m: &Method) -> (r: Dispatch)
    ensures
        r == spec_dispatch(*m),
{
    match m {
        Method::GET => Dispatch::Serve(true),
        Method::HEAD => Dispatch::Serve(false),
        _ => Dispatch::NotAllowed,
    }
}

/// The handler: the canonical document root and the per-operation
/// I/O timeout in milliseconds, where one is set.
#[derive(Debug)]
pub struct WebHandler {
    pub root_path: String,
    pub timeout_ms: Option<u64>,
}

/// What the handler answers for a served path once the file system has
/// spoken: a missing path is `404`, a directory `403`, a file that
/// would not open `500`; an open file is `200` with its size as the
/// length and the type of its extension, and the body bytes stay with
/// the caller, who streams the file when the request transmits data.
pub open spec fn spec_probe_response(path: Seq<char>, probe: FileProbe) -> (Seq<char>, Seq<u8>) {
    match probe {
        FileProbe::Missing => spec_error_response(StatusCode::NotFound, spec_not_found_body()),
        FileProbe::Directory => spec_error_response(StatusCode::Forbidden, spec_forbidden_body()),
        FileProbe::OpenFailed => spec_error_response(
            StatusCode::InternalServerError,
            spec_internal_body(),
        ),
        FileProbe::Opened(size) => (
            spec_header_text(
                StatusCode::Okay,
                Some(size),
                match spec_extension(path) {
                    Some(e) => spec_type_of_extension(e),
                    None => None,
                },
            ),
            Seq::empty(),
        ),
    }
}

impl WebHandler {
    /// A handler over an already canonical document root.
    pub fn new(root_path: String, timeout_ms: Option<u64>) -> (r: WebHandler)
        ensures
            r.root_path == root_path,
            r.timeout_ms == timeout_ms,
    {
        WebHandler { root_path, timeout_ms }
    }

    /// Resolves a request path: the sanitized relative path joined
    /// under the document root, or nothing where the sanitizer refuses
    /// the path.
    pub fn resolve_target(&self, path: &str) -> (r: Option<String>)
        ensures
            match spec_sanitize(path@) {
                Some(comps) => r is Some && r.unwrap()@ == self.root_path@ + seq!['/'] + spec_join(
                    comps,
                ),
                None => r is None,
            },
    {
        match sanitize_path(path) {
            Some(rel) => {
                let mut full = self.root_path.clone();
                full.append("/");
                full.append(rel.as_str());
                proof {
                    reveal_strlit("/");
                    assert("/"@ =~= seq!['/']);
                }
                Some(full)
            },
            None => None,
        }
    }

    /// The response for a served path once the file system has spoken.
    pub fn response_for_probe(path: &str, probe: &FileProbe) -> (r: Response)
        ensures
            response_is(r, spec_probe_response(path@, *probe)),
    {
        match probe {
            FileProbe::Missing => error_not_found(),
            FileProbe::Directory => error_forbidden(),
            FileProbe::OpenFailed => error_internal(),
            FileProbe::Opened(size) => Response::new(
                StatusCode::Okay,
                Some(*size),
                ContentType::from_path(path),
            ),
        }
    }

    /// Routes one parsed connection: a parse failure answers `400` with
    /// the error's message; a method other than `GET` and `HEAD`
    /// answers `405`; a path the sanitizer refuses answers `404`; what
    /// is left names a file under the document root for the caller to
    /// probe.
    pub fn route_request(&self, parsed: Result<Request, ParseError>) -> (r: Routed)
        ensures
            match parsed {
                Err(e) => r matches Routed::Done(resp) && response_is(
                    resp,
                    spec_bad_request_response(e),
                ),
                Ok(req) => match spec_dispatch(req.method) {
                    Dispatch::NotAllowed => r matches Routed::Done(resp) && response_is(
                        resp,
                        spec_error_response(
                            StatusCode::MethodNotAllowed,
                            spec_method_not_allowed_body(),
                        ),
                    ),
                    Dispatch::Serve(transmit) => match spec_sanitize(req.path@) {
                        None => r matches Routed::Done(resp) && response_is(
                            resp,
                            spec_error_response(StatusCode::NotFound, spec_not_found_body()),
                        ),
                        Some(comps) => r matches Routed::ServeFile { full_path, transmit: t }
                            && full_path@ == self.root_path@ + seq!['/'] + spec_join(comps) && t
                            == transmit,
                    },
                },
            },
    {
        match parsed {
            Err(e) => Routed::Done(error_bad_request(&e)),
            Ok(req) => match dispatch(&req.method) {
                Dispatch::NotAllowed => Routed::Done(error_method_not_allowed()),
                Dispatch::Serve(transmit) => match self.resolve_target(req.path.as_str()) {
                    None => Routed::Done(error_not_found()),
                    Some(full_path) => Routed::ServeFile { full_path, transmit },
                },
            },
        }
    }
}

/// Where a routed request stands: a finished response, or a file to
/// probe and serve.
#[derive(Debug)]
pub enum Routed {
    Done(Response),
    ServeFile { full_path: String, transmit: bool },
}

/// The header and body of the `400 Bad Request` response for a parse
/// error: the error's message, sent as plain text.
pub open spec fn spec_bad_request_response(e: ParseError) -> (Seq<char>, Seq<u8>) {
    let msg = match e {
        ParseError::Request => "Invalid Request"@,
        ParseError::Encoding => "Invalid Encoding"@,
        ParseError::Protocol => "Invalid Protocol"@,
        ParseError::Method => "Invalid Method"@,
    };
    (
        spec_header_text(
            StatusCode::BadRequest,
            Some(spec_text_len(msg)),
            Some(ContentType::Text),
        ),
        encode_utf8(msg),
    )
}

/// The `400 Bad Request` response: the request could not be parsed.
pub fn error_bad_request(e: &ParseError) -> (r: Response)
    ensures
        response_is(r, spec_bad_request_response(*e)),
{
    Response::from_text(StatusCode::BadRequest, e.message(), None)
}

/// What one handled connection puts on the wire: the header block in
/// UTF-8, then the file bytes where the request transmits data. A
/// `HEAD` reply is the same bytes as the matching `GET` reply up to and
/// including the blank line that ends the header, and carries not one
/// body byte after it.
pub open spec fn spec_served_bytes(header: Seq<char>, file_bytes: Seq<u8>, transmit: bool) -> Seq<
    u8,
> {
    if transmit {
        encode_utf8(header) + file_bytes
    } else {
        encode_utf8(header)
    }
}

/// A probe is answered with the `200 Ok` status line exactly where
/// the file was opened: over any set of handled connections, the
/// number of `200` replies is the number of successful file opens.
pub proof fn lemma_ok_iff_opened(path: Seq<char>, probe: FileProbe)
    ensures
        (spec_probe_response(path, probe).0.take(spec_status_line(StatusCode::Okay).len() as int)
            == spec_status_line(StatusCode::Okay)) <==> probe matches FileProbe::Opened(_),
{
    reveal_strlit("HTTP/1.1 ");
    reveal_strlit(" ");
    reveal_strlit("\r\n");
    reveal_strlit("Ok");
    reveal_strlit("Not Found");
    reveal_strlit("Forbidden");
    reveal_strlit("Internal Server Error");
    let ok_line = spec_status_line(StatusCode::Okay);
    assert(crate::text::digit_char(0) == '0');
    assert(crate::text::digit_char(2) == '2');
    assert(crate::text::digit_char(3) == '3');
    assert(crate::text::digit_char(4) == '4');
    assert(crate::text::digit_char(5) == '5');
    assert(crate::text::spec_dec(2) =~= seq!['2']);
    assert(crate::text::spec_dec(20) =~= seq!['2', '0']);
    assert(crate::text::spec_dec(200) =~= seq!['2', '0', '0']);
    assert(crate::text::spec_dec(4) =~= seq!['4']);
    assert(crate::text::spec_dec(40) =~= seq!['4', '0']);
    assert(crate::text::spec_dec(403) =~= seq!['4', '0', '3']);
    assert(crate::text::spec_dec(404) =~= seq!['4', '0', '4']);
    assert(crate::text::spec_dec(5) =~= seq!['5']);
    assert(crate::text::spec_dec(50) =~= seq!['5', '0']);
    assert(crate::text::spec_dec(500) =~= seq!['5', '0', '0']);
    match probe {
        FileProbe::Opened(size) => {
            crate::response::lemma_status_line_prefix(
                StatusCode::Okay,
                Some(size),
                match spec_extension(path) {
                    Some(e) => spec_type_of_extension(e),
                    None => None,
                },
            );
        },
        FileProbe::Missing => {
            let h = spec_probe_response(path, probe).0;
            assert(h[9] == '4');
            assert(ok_line[9] == '2');
            assert(h.take(ok_line.len() as int)[9] == '4');
        },
        FileProbe::Directory => {
            let h = spec_probe_response(path, probe).0;
            assert(h[9] == '4');
            assert(ok_line[9] == '2');
            assert(h.take(ok_line.len() as int)[9] == '4');
        },
        FileProbe::OpenFailed => {
            let h = spec_probe_response(path, probe).0;
            assert(h[9] == '5');
            assert(ok_line[9] == '2');
            assert(h.take(ok_line.len() as int)[9] == '5');
        },
    }
}

/// A `HEAD` reply is exactly the header part of the matching `GET`
/// reply, and nothing follows its blank line.
pub proof fn lemma_head_prefix_of_get(header: Seq<char>, file_bytes: Seq<u8>)
    ensures
        spec_served_bytes(header, file_bytes, false) == spec_served_bytes(
            header,
            file_bytes,
            true,
        ).take(encode_utf8(header).len() as int),
        spec_served_bytes(header, file_bytes, false).len() == encode_utf8(header).len(),
{
    assert(spec_served_bytes(header, file_bytes, false) =~= spec_served_bytes(
        header,
        file_bytes,
        true,
    ).take(encode_utf8(header).len() as int));
}

/// Whether the buffer holds a complete header block: somewhere a line
/// end, optional horizontal whitespace, and a second line end.
pub open spec fn spec_header_complete(b: Seq<u8>) -> bool {
    exists|i: int, j: int|
        0 <= i && i + 2 <= j && j + 2 <= b.len() && #[trigger] is_terminator_at(b, i, j)
}

/// Whether a header terminator stands at `i` and `j`: line ends at
/// both, with nothing but horizontal whitespace between them.
pub open spec fn is_terminator_at(b: Seq<u8>, i: int, j: int) -> bool {
    b[i] == 13 && b[i + 1] == 10 && b[j] == 13 && b[j + 1] == 10 && forall|k: int|
        i + 2 <= k < j ==> is_gap_byte(#[trigger] b[k])
}

/// The bytes that may stand between the two line ends of the header
/// terminator: tab, vertical tab, form feed and space.
pub open spec fn is_gap_byte(c: u8) -> bool {
    c == 9 || c == 11 || c == 12 || c == 32
}

/// Whether the buffer holds a complete header block; the streaming
/// read stops when it does.
pub fn header_is_complete(buffer: &[u8]) -> (r: bool)
    ensures
        r == spec_header_complete(buffer@),
{
    let n = buffer.len();
    let mut i: usize = 0;
    loop
        invariant_except_break
            i <= n,
            n == buffer@.len(),
            forall|i0: int, j0: int|
                0 <= i0 < i && i0 + 2 <= j0 && j0 + 2 <= n ==> !is_terminator_at(buffer@, i0, j0),
        ensures
            (forall|i0: int, j0: int|
                0 <= i0 && i0 + 2 <= j0 && j0 + 2 <= n ==> !is_terminator_at(buffer@, i0, j0)),
        decreases n - i,
    {
        if n < 2 || i > n - 2 {
            proof {
                assert forall|i0: int, j0: int|
                    0 <= i0 && i0 + 2 <= j0 && j0 + 2 <= n implies !is_terminator_at(
                    buffer@,
                    i0,
                    j0,
                ) by {
                    if i0 >= i {
                        assert(j0 + 2 > n);
                    }
                }
            }
            break ;
        }
        if buffer[i] == 13 && buffer[i + 1] == 10 {
            let mut j: usize = i + 2;
            while j < n && (buffer[j] == 9 || buffer[j] == 11 || buffer[j] == 12 || buffer[j] == 32)
                invariant
                    i + 2 <= j <= n,
                    n == buffer@.len(),
                    forall|k: int| i + 2 <= k < j ==> is_gap_byte(#[trigger] buffer@[k]),
                decreases n - j,
            {
                j = j + 1;
            }
            if n - j >= 2 && buffer[j] == 13 && buffer[j + 1] == 10 {
                proof {
                    assert(is_terminator_at(buffer@, i as int, j as int));
                }
                return true;
            }
            proof {
                assert forall|j0: int| i + 2 <= j0 && j0 + 2 <= n implies !is_terminator_at(
                    buffer@,
                    i as int,
                    j0,
                ) by {
                    if j0 < j {
                        assert(is_gap_byte(buffer@[j0]));
                        assert(buffer@[j0] != 13);
                    } else if j0 == j {
                    } else {
                        if j < n {
                            assert(!is_gap_byte(buffer@[j as int]));
                        }
                    }
                }
            }
        }
        i = i + 1;
    }
    false
}

/// Joins path components with `/`.
fn join_components(comps: &Vec<Vec<char>>) -> (r: String)
    requires
        comps@.len() > 0,
    ensures
        r@ == spec_join(comps.deep_view()),
{
    let ghost cs = comps.deep_view();
    proof {
        assert(cs[0] == comps@[0]@);
    }
    let first = string_of(&comps[0]);
    let mut out = first;
    let mut pos: usize = 1;
    while pos < comps.len()
        invariant
            1 <= pos <= comps.len(),
            cs == comps.deep_view(),
            cs.len() == comps@.len(),
            spec_join(cs) == out@ + spec_join_from(cs, pos as int),
        decreases comps.len() - pos,
    {
        proof {
            assert(cs[pos as int] == comps@[pos as int]@);
        }
        out.append("/");
        let piece = string_of(&comps[pos]);
        out.append(piece.as_str());
        proof {
            reveal_strlit("/");
            assert("/"@ =~= seq!['/']);
            assert(spec_join_from(cs, pos as int) == seq!['/'] + cs[pos as int]
                + spec_join_from(cs, pos + 1 as int));
            assert(out@ + spec_join_from(cs, pos + 1 as int) =~= spec_join(cs));
        }
        pos = pos + 1;
    }
    proof {
        assert(spec_join_from(cs, pos as int) =~= Seq::<char>::empty());
        assert(out@ =~= spec_join(cs));
    }
    out
}

} // verus!
