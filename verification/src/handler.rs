use crate::ascii;
use crate::bytes::{
    bytes_eq, contains_byte, dec_of, delim_pos, find_delim, fmt_usize, has_byte,
    lemma_dec_roundtrip, lemma_delim_pos, starts_with,
};
use crate::request::{lookup, Method, Request, RequestView};
use crate::response::{Response, ResponseView, StatusCode};
use vstd::prelude::*;

verus! {

// The router and the handlers. A request is decided into an action: either
// a finished response, or a file read or exclusive file create under the
// serving directory. The connection loop performs the file operation and
// hands its outcome back to `file_get_response` or `file_post_response`;
// every decision and every response built here is verified, whatever the
// file system answered.

/// What the dispatcher must do for a request.
pub enum Action {
    /// Send this response as it stands.
    Respond(Response),
    /// Read the named file under the serving directory and answer with
    /// `file_get_response` applied to the outcome.
    ReadFile(Vec<u8>),
    /// Create the named file exclusively with the given contents and
    /// answer with `file_post_response` applied to the outcome.
    WriteFile(Vec<u8>, Vec<u8>),
}

/// The mathematical content of an action.
pub enum ActionView {
    Respond(ResponseView),
    ReadFile(Seq<u8>),
    WriteFile(Seq<u8>, Seq<u8>),
}

impl View for Action {
    type V = ActionView;

    open spec fn view(&self) -> ActionView {
        match self {
            Action::Respond(resp) => ActionView::Respond(resp@),
            Action::ReadFile(name) => ActionView::ReadFile(name@),
            Action::WriteFile(name, contents) => ActionView::WriteFile(name@, contents@),
        }
    }
}

/// A file name that cannot escape the serving directory: no path separator
/// of either kind, and not the parent-directory name itself. Anything else
/// is refused without touching the file system.
pub open spec fn safe_name(name: Seq<u8>) -> bool {
    &&& !contains_byte(name, ascii::SLASH)
    &&& !contains_byte(name, ascii::BACKSLASH)
    &&& name != ascii::dot_dot()
}

/// Decide whether a file name is safe to resolve under the directory.
pub fn is_safe_name(name: &[u8]) -> (r: bool)
    ensures
        r == safe_name(name@),
{
    let dd = ascii::dot_dot_vec();
    !has_byte(name, ascii::SLASH) && !has_byte(name, ascii::BACKSLASH) && !bytes_eq(
        name,
        dd.as_slice(),
    )
}

/// An empty response with the given status: no headers, no body.
pub open spec fn spec_empty_response(status: StatusCode) -> ResponseView {
    ResponseView {
        version: ascii::http_version(),
        status,
        headers: Seq::empty(),
        body: Seq::empty(),
    }
}

/// A response carrying a body: its content type, then its exact length,
/// then the body itself.
pub open spec fn spec_content_response(
    status: StatusCode,
    ctype: Seq<u8>,
    body: Seq<u8>,
) -> ResponseView {
    ResponseView {
        version: ascii::http_version(),
        status,
        headers: seq![
            (ascii::hn_content_type(), ctype),
            (ascii::hn_content_length(), dec_of(body.len())),
        ],
        body,
    }
}

/// Build a response carrying a body, with its content type and its exact
/// length as headers.
pub fn content_response(status: StatusCode, ctype: Vec<u8>, body: Vec<u8>) -> (resp: Response)
    ensures
        resp@ == spec_content_response(status, ctype@, body@),
        resp@.wf_framing(),
{
    let ghost c = ctype@;
    let ghost b = body@;
    let len = fmt_usize(body.len());
    let mut resp = Response::with_code(status);
    resp.headers.insert(ascii::hn_content_type_vec(), ctype);
    resp.headers.insert(ascii::hn_content_length_vec(), len);
    resp.body = body;
    proof {
        assert(resp@.headers =~= spec_content_response(status, c, b).headers);
        lemma_dec_roundtrip(b.len());
    }
    resp
}

/// The routing and handling decision for a request. Exact targets are
/// checked first, then the prefix routes in the fixed order `/echo/`,
/// `/files/`; anything unmatched is 404 with an empty body. A request for
/// `/user-agent` without a `User-Agent` header is answered 400 rather than
/// dropped. An unsafe `/files/` name is refused — 404 on a read, 400 on a
/// create — without any action against the file system.
pub open spec fn spec_route(rv: RequestView) -> ActionView {
    if rv.method == Method::Get && rv.target == ascii::path_root() {
        ActionView::Respond(spec_empty_response(StatusCode::Okay))
    } else if rv.method == Method::Get && rv.target == ascii::path_user_agent() {
        match lookup(rv.headers, ascii::hn_user_agent()) {
            Some(ua) => ActionView::Respond(
                spec_content_response(StatusCode::Okay, ascii::hv_text_plain(), ua),
            ),
            None => ActionView::Respond(spec_empty_response(StatusCode::BadRequest)),
        }
    } else if rv.method == Method::Get && ascii::prefix_echo().is_prefix_of(rv.target) {
        ActionView::Respond(
            spec_content_response(
                StatusCode::Okay,
                ascii::hv_text_plain(),
                rv.target.skip(ascii::prefix_echo().len() as int),
            ),
        )
    } else if rv.method == Method::Get && ascii::prefix_files().is_prefix_of(rv.target) {
        if safe_name(rv.target.skip(ascii::prefix_files().len() as int)) {
            ActionView::ReadFile(rv.target.skip(ascii::prefix_files().len() as int))
        } else {
            ActionView::Respond(spec_empty_response(StatusCode::NotFound))
        }
    } else if rv.method == Method::Post && ascii::prefix_files().is_prefix_of(rv.target) {
        if safe_name(rv.target.skip(ascii::prefix_files().len() as int)) {
            ActionView::WriteFile(rv.target.skip(ascii::prefix_files().len() as int), rv.body)
        } else {
            ActionView::Respond(spec_empty_response(StatusCode::BadRequest))
        }
    } else {
        ActionView::Respond(spec_empty_response(StatusCode::NotFound))
    }
}

/// Route a request and run its handler, as far as that goes without the
/// file system: the decision is exactly `spec_route`, and any response
/// decided here already satisfies the framing invariant.
pub fn route_request(req: &Request) -> (a: Action)
    ensures
        a@ == spec_route(req@),
        a@ matches ActionView::Respond(resp) ==> resp.wf_framing(),
{
    let root = ascii::path_root_vec();
    let ua_path = ascii::path_user_agent_vec();
    let echo = ascii::prefix_echo_vec();
    let files = ascii::prefix_files_vec();
    if req.method == Method::Get && bytes_eq(req.target.as_slice(), root.as_slice()) {
        Action::Respond(Response::with_code(StatusCode::Okay))
    } else if req.method == Method::Get && bytes_eq(req.target.as_slice(), ua_path.as_slice()) {
        let ua_name = ascii::hn_user_agent_vec();
        match req.headers.get(ua_name.as_slice()) {
            Some(v) => {
                let body = vstd::slice::slice_to_vec(v.as_slice());
                Action::Respond(content_response(StatusCode::Okay, ascii::hv_text_plain_vec(), body))
            },
            None => Action::Respond(Response::with_code(StatusCode::BadRequest)),
        }
    } else if req.method == Method::Get && starts_with(req.target.as_slice(), echo.as_slice()) {
        let msg = vstd::slice::slice_to_vec(&req.target.as_slice()[echo.len()..req.target.len()]);
        proof {
            assert(msg@ =~= req@.target.skip(ascii::prefix_echo().len() as int));
        }
        Action::Respond(content_response(StatusCode::Okay, ascii::hv_text_plain_vec(), msg))
    } else if req.method == Method::Get && starts_with(req.target.as_slice(), files.as_slice()) {
        let name = vstd::slice::slice_to_vec(
            &req.target.as_slice()[files.len()..req.target.len()],
        );
        proof {
            assert(name@ =~= req@.target.skip(ascii::prefix_files().len() as int));
        }
        if is_safe_name(name.as_slice()) {
            Action::ReadFile(name)
        } else {
            Action::Respond(Response::with_code(StatusCode::NotFound))
        }
    } else if req.method == Method::Post && starts_with(req.target.as_slice(), files.as_slice()) {
        let name = vstd::slice::slice_to_vec(
            &req.target.as_slice()[files.len()..req.target.len()],
        );
        proof {
            assert(name@ =~= req@.target.skip(ascii::prefix_files().len() as int));
        }
        if is_safe_name(name.as_slice()) {
            let contents = vstd::slice::slice_to_vec(req.body.as_slice());
            Action::WriteFile(name, contents)
        } else {
            Action::Respond(Response::with_code(StatusCode::BadRequest))
        }
    } else {
        Action::Respond(Response::with_code(StatusCode::NotFound))
    }
}

/// Answer a `/files/` read from what the serving directory gave: the
/// contents as an octet-stream with their exact length when the file was
/// there, and 404 with an empty body when it was not — which covers both a
/// missing file and no configured directory at all.
pub fn file_get_response(content: Option<Vec<u8>>) -> (resp: Response)
    ensures
        match content {
            Some(b) => resp@ == spec_content_response(
                StatusCode::Okay,
                ascii::hv_octet_stream(),
                b@,
            ),
            None => resp@ == spec_empty_response(StatusCode::NotFound),
        },
        resp@.wf_framing(),
{
    match content {
        Some(b) => content_response(StatusCode::Okay, ascii::hv_octet_stream_vec(), b),
        None => Response::with_code(StatusCode::NotFound),
    }
}

/// Answer a `/files/` create from its outcome: 201 with an empty body when
/// the file was newly created, 400 with an empty body when it already
/// existed, no directory is configured, or the write failed.
pub fn file_post_response(created: bool) -> (resp: Response)
    ensures
        created ==> resp@ == spec_empty_response(StatusCode::Created),
        !created ==> resp@ == spec_empty_response(StatusCode::BadRequest),
        resp@.wf_framing(),
{
    if created {
        Response::with_code(StatusCode::Created)
    } else {
        Response::with_code(StatusCode::BadRequest)
    }
}

/// An echo request is answered with its message, exactly: for a GET of
/// `/echo/` followed by a message that names no further path segment, the
/// routed response is 200, its body is the message byte for byte, its
/// `Content-Length` is the message's byte length, and its content type is
/// `text/plain`.
pub proof fn lemma_echo_exact(rv: RequestView, msg: Seq<u8>)
    requires
        rv.method == Method::Get,
        rv.target == ascii::prefix_echo() + msg,
        !contains_byte(msg, ascii::SLASH),
    ensures
        spec_route(rv) matches ActionView::Respond(resp) && resp.status == StatusCode::Okay
            && resp.body == msg && lookup(resp.headers, ascii::hn_content_length()) == Some(
            dec_of(msg.len()),
        ) && lookup(resp.headers, ascii::hn_content_type()) == Some(ascii::hv_text_plain()),
{
    assert(rv.target.len() == 6 + msg.len());
    assert(rv.target[1] == 101u8);
    assert(rv.target != ascii::path_root());
    assert(ascii::path_user_agent()[1] == 117u8);
    assert(rv.target != ascii::path_user_agent());
    assert(ascii::prefix_echo() =~= rv.target.subrange(0, 6));
    assert(ascii::prefix_echo().is_prefix_of(rv.target));
    assert(rv.target.skip(6) =~= msg);
    let resp = spec_content_response(StatusCode::Okay, ascii::hv_text_plain(), msg);
    assert(resp.headers.last() == (ascii::hn_content_length(), dec_of(msg.len())));
    assert(resp.headers.drop_last() =~= seq![(ascii::hn_content_type(), ascii::hv_text_plain())]);
    assert(ascii::hn_content_type().len() != ascii::hn_content_length().len());
    assert(lookup(
        seq![(ascii::hn_content_type(), ascii::hv_text_plain())],
        ascii::hn_content_type(),
    ) == Some(ascii::hv_text_plain()));
}

/// Storing a file and asking for it back round-trips: the POST of a safe
/// name not yet present decides to store exactly the request body under
/// that name, the exclusive create stores it, the GET of the same name
/// decides to read that name and so finds that body, and the response
/// built from it is 200 carrying it byte for byte as an octet-stream with
/// its exact length.
pub proof fn lemma_files_round_trip(
    store: Map<Seq<u8>, Seq<u8>>,
    post: RequestView,
    get: RequestView,
    name: Seq<u8>,
    b: Seq<u8>,
)
    requires
        post.method == Method::Post,
        post.target == ascii::prefix_files() + name,
        post.body == b,
        get.method == Method::Get,
        get.target == ascii::prefix_files() + name,
        safe_name(name),
        !store.dom().contains(name),
    ensures
        spec_route(post) == ActionView::WriteFile(name, b),
        fs_create_new(store, name, b) matches Some(stored) && stored[name] == b,
        spec_route(get) == ActionView::ReadFile(name),
        spec_content_response(StatusCode::Okay, ascii::hv_octet_stream(), b).body == b,
        lookup(
            spec_content_response(StatusCode::Okay, ascii::hv_octet_stream(), b).headers,
            ascii::hn_content_length(),
        ) == Some(dec_of(b.len())),
        lookup(
            spec_content_response(StatusCode::Okay, ascii::hv_octet_stream(), b).headers,
            ascii::hn_content_type(),
        ) == Some(ascii::hv_octet_stream()),
{
    assert(get.target.len() == 7 + name.len());
    assert(get.target[1] == 102u8);
    assert(get.target != ascii::path_root());
    assert(ascii::path_user_agent()[1] == 117u8);
    assert(get.target != ascii::path_user_agent());
    assert(ascii::prefix_echo()[1] == 101u8);
    assert(!ascii::prefix_echo().is_prefix_of(get.target)) by {
        if ascii::prefix_echo().is_prefix_of(get.target) {
            assert(get.target.subrange(0, 6)[1] == get.target[1]);
        }
    }
    assert(ascii::prefix_files() =~= get.target.subrange(0, 7));
    assert(ascii::prefix_files().is_prefix_of(get.target));
    assert(get.target.skip(7) =~= name);
    assert(post.target.skip(7) =~= name);
    let resp = spec_content_response(StatusCode::Okay, ascii::hv_octet_stream(), b);
    assert(resp.headers.last() == (ascii::hn_content_length(), dec_of(b.len())));
    assert(resp.headers.drop_last() =~= seq![(ascii::hn_content_type(), ascii::hv_octet_stream())]);
    assert(ascii::hn_content_type().len() != ascii::hn_content_length().len());
    assert(lookup(
        seq![(ascii::hn_content_type(), ascii::hv_octet_stream())],
        ascii::hn_content_type(),
    ) == Some(ascii::hv_octet_stream()));
}

/// The serving directory as the `/files/` routes see it: a mapping from
/// file names to contents, on which exclusive creation either stores the
/// contents under a name not yet present or refuses.
pub open spec fn fs_create_new(
    store: Map<Seq<u8>, Seq<u8>>,
    name: Seq<u8>,
    contents: Seq<u8>,
) -> Option<Map<Seq<u8>, Seq<u8>>> {
    if store.dom().contains(name) {
        None
    } else {
        Some(store.insert(name, contents))
    }
}

/// Creating the same name twice cannot succeed twice: after a first
/// exclusive create has stored contents under a name, a second create of
/// that name is refused — so `file_post_response` answers the first POST
/// 201 and the second 400, whatever either body held.
pub proof fn lemma_post_twice_exclusive(
    store: Map<Seq<u8>, Seq<u8>>,
    name: Seq<u8>,
    b1: Seq<u8>,
    b2: Seq<u8>,
)
    requires
        !store.dom().contains(name),
    ensures
        fs_create_new(store, name, b1) matches Some(s1) && s1[name] == b1 && fs_create_new(
            s1,
            name,
            b2,
        ) is None,
{
}

/// The tokens of an `Accept-Encoding` value: the value split on each
/// literal `", "`.
pub open spec fn split_commas(s: Seq<u8>) -> Seq<Seq<u8>>
    decreases s.len(),
{
    match delim_pos(s, ascii::COMMA, ascii::SP) {
        Some(i) => if 0 <= i && i + 2 <= s.len() {
            seq![s.take(i)] + split_commas(s.skip(i + 2))
        } else {
            seq![s]
        },
        None => seq![s],
    }
}

/// Does the `Accept-Encoding` value name `gzip` as one of its tokens?
pub open spec fn has_gzip(s: Seq<u8>) -> bool {
    split_commas(s).contains(ascii::hv_gzip())
}

/// Does the request ask for a gzip-encoded response?
pub open spec fn wants_gzip(rv: RequestView) -> bool {
    match lookup(rv.headers, ascii::hn_accept_encoding()) {
        Some(v) => has_gzip(v),
        None => false,
    }
}

/// An element is in a concatenation exactly when it is in one of the
/// parts.
proof fn lemma_tokens_contains(a: Seq<Seq<u8>>, b: Seq<Seq<u8>>, x: Seq<u8>)
    ensures
        (a + b).contains(x) <==> a.contains(x) || b.contains(x),
{
    if a.contains(x) {
        let i = choose|i: int| 0 <= i < a.len() && a[i] == x;
        assert((a + b)[i] == x);
    }
    if b.contains(x) {
        let i = choose|i: int| 0 <= i < b.len() && b[i] == x;
        assert((a + b)[a.len() + i] == x);
    }
    if (a + b).contains(x) {
        let i = choose|i: int| 0 <= i < (a + b).len() && (a + b)[i] == x;
        if i < a.len() {
            assert(a[i] == x);
        } else {
            assert(b[i - a.len()] == x);
        }
    }
}

/// A one-token list holds exactly that token.
proof fn lemma_singleton_contains(x: Seq<u8>, y: Seq<u8>)
    ensures
        seq![x].contains(y) <==> x == y,
{
    assert(seq![x][0] == x);
    if seq![x].contains(y) {
        let i = choose|i: int| 0 <= i < 1 && seq![x][i] == y;
        assert(i == 0);
    }
}

/// Scan the comma-separated tokens of `v` for the literal token `gzip`.
pub fn has_gzip_token(v: &[u8]) -> (r: bool)
    ensures
        r == has_gzip(v@),
{
    let gz = ascii::hv_gzip_vec();
    let n = v.len();
    let mut start: usize = 0;
    proof {
        assert(v@.skip(0) =~= v@);
    }
    loop
        invariant
            start <= n,
            n == v@.len(),
            gz@ == ascii::hv_gzip(),
            has_gzip(v@) == has_gzip(v@.skip(start as int)),
        decreases n - start,
    {
        let cur: &[u8] = &v[start..n];
        proof {
            assert(cur@ =~= v@.skip(start as int));
        }
        match find_delim(cur, ascii::COMMA, ascii::SP) {
            Some(i) => {
                proof {
                    lemma_delim_pos(cur@, ascii::COMMA, ascii::SP);
                }
                let tok: &[u8] = &cur[0..i];
                proof {
                    assert(tok@ =~= cur@.take(i as int));
                    lemma_tokens_contains(
                        seq![cur@.take(i as int)],
                        split_commas(cur@.skip(i + 2)),
                        ascii::hv_gzip(),
                    );
                    lemma_singleton_contains(cur@.take(i as int), ascii::hv_gzip());
                }
                if bytes_eq(tok, gz.as_slice()) {
                    return true;
                }
                proof {
                    assert(v@.skip(start as int).skip(i + 2) =~= v@.skip(start + i + 2));
                }
                start = start + i + 2;
            },
            None => {
                proof {
                    lemma_singleton_contains(cur@, ascii::hv_gzip());
                }
                return bytes_eq(cur, gz.as_slice());
            },
        }
    }
}

/// After any handler: when the request's `Accept-Encoding` names the
/// token `gzip`, advertise `Content-Encoding: gzip` on the response, and
/// change nothing else — the framing invariant survives untouched. The
/// encoding is advertised only: the body goes out uncompressed, a known
/// and deliberate incompleteness of this server.
pub fn apply_encoding(req: &Request, resp: &mut Response)
    ensures
        wants_gzip(req@) ==> final(resp)@.headers == old(resp)@.headers.push(
            (ascii::hn_content_encoding(), ascii::hv_gzip()),
        ),
        !wants_gzip(req@) ==> final(resp)@ == old(resp)@,
        final(resp)@.version == old(resp)@.version,
        final(resp)@.status == old(resp)@.status,
        final(resp)@.body == old(resp)@.body,
        old(resp)@.wf_framing() ==> final(resp)@.wf_framing(),
{
    let ae = ascii::hn_accept_encoding_vec();
    let wants = match req.headers.get(ae.as_slice()) {
        Some(v) => has_gzip_token(v.as_slice()),
        None => false,
    };
    if wants {
        resp.headers.insert(ascii::hn_content_encoding_vec(), ascii::hv_gzip_vec());
        proof {
            // the pushed entry is not named Content-Length — the names
            // differ in length alone — so the Content-Length lookup, and
            // with it the framing invariant, is undisturbed
            assert(ascii::hn_content_encoding().len() != ascii::hn_content_length().len());
            assert(final(resp)@.headers.drop_last() =~= old(resp)@.headers);
        }
    }
}

} // verus!
