use minihttp::handler::{
    apply_encoding, file_get_response, file_post_response, is_safe_name, route_request, Action,
};
use minihttp::parser::{read_from_stream, ParseError};
use minihttp::reader::{read_until, ByteReader};
use minihttp::request::{Headers, Method, Request};
use minihttp::bytes::{fmt_usize, parse_dec};
use minihttp::response::{Response, StatusCode};
use std::collections::HashMap;

fn parse(bytes: &[u8]) -> Result<Request, ParseError> {
    let mut r = ByteReader::new(bytes.to_vec());
    read_from_stream(&mut r)
}

fn respond(req: &Request, store: &mut HashMap<Vec<u8>, Vec<u8>>) -> Response {
    let mut resp = match route_request(req) {
        Action::Respond(resp) => resp,
        Action::ReadFile(name) => file_get_response(store.get(&name).cloned()),
        Action::WriteFile(name, contents) => {
            let created = !store.contains_key(&name);
            if created {
                store.insert(name, contents);
            }
            file_post_response(created)
        }
    };
    apply_encoding(req, &mut resp);
    resp
}

fn header<'a>(resp: &'a Response, name: &[u8]) -> Option<&'a Vec<u8>> {
    resp.headers.get(name)
}

#[test]
fn missing_content_length_means_empty_body_and_no_waiting() {
    // trailing bytes after the blank line are not touched: nothing waits
    // for a body that was never announced
    let bytes = b"GET / HTTP/1.1\r\nHost: x\r\n\r\nLEFTOVER";
    let mut r = ByteReader::new(bytes.to_vec());
    let req = read_from_stream(&mut r).unwrap();
    assert_eq!(req.body, Vec::<u8>::new());
    assert_eq!(r.pos, bytes.len() - "LEFTOVER".len());
}

#[test]
fn echo_body_is_the_suffix_byte_for_byte() {
    let req = parse(b"GET /echo/abc%20def HTTP/1.1\r\n\r\n").unwrap();
    let resp = respond(&req, &mut HashMap::new());
    assert_eq!(resp.status.code(), 200);
    assert_eq!(resp.body, b"abc%20def".to_vec());
    assert_eq!(header(&resp, b"Content-Type"), Some(&b"text/plain".to_vec()));
    assert_eq!(header(&resp, b"Content-Length"), Some(&b"9".to_vec()));
}

#[test]
fn files_round_trip_returns_the_stored_body() {
    let mut store = HashMap::new();
    let post = parse(b"POST /files/data.bin HTTP/1.1\r\nContent-Length: 5\r\n\r\n\x00\x01ab\xff")
        .unwrap();
    let created = respond(&post, &mut store);
    assert_eq!(created.status.code(), 201);
    let get = parse(b"GET /files/data.bin HTTP/1.1\r\n\r\n").unwrap();
    let got = respond(&get, &mut store);
    assert_eq!(got.status.code(), 200);
    assert_eq!(got.body, b"\x00\x01ab\xff".to_vec());
    assert_eq!(
        header(&got, b"Content-Type"),
        Some(&b"application/octet-stream".to_vec())
    );
    assert_eq!(header(&got, b"Content-Length"), Some(&b"5".to_vec()));
}

#[test]
fn posting_the_same_name_twice_fails_the_second_time() {
    let mut store = HashMap::new();
    let post = parse(b"POST /files/once HTTP/1.1\r\nContent-Length: 3\r\n\r\nold").unwrap();
    assert_eq!(respond(&post, &mut store).status.code(), 201);
    let again = parse(b"POST /files/once HTTP/1.1\r\nContent-Length: 3\r\n\r\nnew").unwrap();
    let second = respond(&again, &mut store);
    assert_eq!(second.status.code(), 400);
    assert!(second.body.is_empty());
    // the first write is kept, not overwritten
    assert_eq!(store.get(&b"once".to_vec()), Some(&b"old".to_vec()));
}

#[test]
fn missing_file_and_missing_directory_both_give_404() {
    // directory configured, file absent
    let get = parse(b"GET /files/nothing HTTP/1.1\r\n\r\n").unwrap();
    let resp = respond(&get, &mut HashMap::new());
    assert_eq!(resp.status.code(), 404);
    assert!(resp.body.is_empty());
    // no directory configured at all: the read hands back None as well
    let resp = file_get_response(None);
    assert_eq!(resp.status.code(), 404);
    assert!(resp.body.is_empty());
}

#[test]
fn gzip_is_advertised_only_for_the_exact_token() {
    let req = parse(b"GET / HTTP/1.1\r\nAccept-Encoding: gzip, deflate\r\n\r\n").unwrap();
    let resp = respond(&req, &mut HashMap::new());
    assert_eq!(header(&resp, b"Content-Encoding"), Some(&b"gzip".to_vec()));

    let req = parse(b"GET / HTTP/1.1\r\nAccept-Encoding: deflate\r\n\r\n").unwrap();
    let resp = respond(&req, &mut HashMap::new());
    assert_eq!(header(&resp, b"Content-Encoding"), None);

    let req = parse(b"GET / HTTP/1.1\r\nAccept-Encoding: deflate, gzip\r\n\r\n").unwrap();
    let resp = respond(&req, &mut HashMap::new());
    assert_eq!(header(&resp, b"Content-Encoding"), Some(&b"gzip".to_vec()));

    // `gzip` must be a whole token, not a fragment of one
    let req = parse(b"GET / HTTP/1.1\r\nAccept-Encoding: xgzip\r\n\r\n").unwrap();
    let resp = respond(&req, &mut HashMap::new());
    assert_eq!(header(&resp, b"Content-Encoding"), None);
}

#[test]
fn malformed_request_lines_are_fatal() {
    assert_eq!(
        parse(b"GET /abc\r\n\r\n").unwrap_err(),
        ParseError::BadRequestLine
    );
    assert_eq!(
        parse(b"GET /a b HTTP/1.1\r\n\r\n").unwrap_err(),
        ParseError::BadRequestLine
    );
    assert_eq!(
        parse(b"PATCH / HTTP/1.1\r\n\r\n").unwrap_err(),
        ParseError::UnknownMethod
    );
}

#[test]
fn concrete_echo_exchange_matches_byte_for_byte() {
    let req = parse(b"GET /echo/abc HTTP/1.1\r\nHost: x\r\n\r\n").unwrap();
    let mut resp = match route_request(&req) {
        Action::Respond(resp) => resp,
        _ => panic!("echo must be answered directly"),
    };
    apply_encoding(&req, &mut resp);
    let mut out = Vec::new();
    resp.write(&mut out);
    assert_eq!(
        out,
        b"HTTP/1.1 200 OK\r\nContent-Type: text/plain\r\nContent-Length: 3\r\n\r\nabc".to_vec()
    );
}

#[test]
fn truncated_messages_are_refused() {
    assert_eq!(parse(b"").unwrap_err(), ParseError::Truncated);
    assert_eq!(parse(b"GET / HTTP/1.1").unwrap_err(), ParseError::Truncated);
    assert_eq!(
        parse(b"GET / HTTP/1.1\r\nHost: x\r\n").unwrap_err(),
        ParseError::Truncated
    );
    assert_eq!(
        parse(b"GET / HTTP/1.1\r\nContent-Length: 10\r\n\r\nshort").unwrap_err(),
        ParseError::Truncated
    );
}

#[test]
fn bad_headers_and_bad_lengths_are_refused() {
    assert_eq!(
        parse(b"GET / HTTP/1.1\r\nNoSeparator\r\n\r\n").unwrap_err(),
        ParseError::BadHeader
    );
    assert_eq!(
        parse(b"GET / HTTP/1.1\r\nContent-Length: abc\r\n\r\n").unwrap_err(),
        ParseError::BadContentLength
    );
    assert_eq!(
        parse(b"GET / HTTP/1.1\r\nContent-Length: \r\n\r\n").unwrap_err(),
        ParseError::BadContentLength
    );
    assert_eq!(
        parse(b"GET / HTTP/1.1\r\nContent-Length: 99999999999999999999999\r\n\r\n").unwrap_err(),
        ParseError::BadContentLength
    );
}

#[test]
fn body_is_read_exactly_to_content_length() {
    let req = parse(b"POST /files/x HTTP/1.1\r\nContent-Length: 4\r\n\r\nabcdEXTRA").unwrap();
    assert_eq!(req.body, b"abcd".to_vec());
    assert_eq!(req.method, Method::Post);
    assert_eq!(req.target, b"/files/x".to_vec());
    assert_eq!(req.version, b"HTTP/1.1".to_vec());
}

#[test]
fn duplicate_headers_keep_the_last_value() {
    let req = parse(b"GET /user-agent HTTP/1.1\r\nUser-Agent: one\r\nUser-Agent: two\r\n\r\n")
        .unwrap();
    let resp = respond(&req, &mut HashMap::new());
    assert_eq!(resp.status.code(), 200);
    assert_eq!(resp.body, b"two".to_vec());
}

#[test]
fn user_agent_route_answers_with_the_header() {
    let req = parse(b"GET /user-agent HTTP/1.1\r\nUser-Agent: curl/8.0\r\n\r\n").unwrap();
    let resp = respond(&req, &mut HashMap::new());
    assert_eq!(resp.status.code(), 200);
    assert_eq!(resp.body, b"curl/8.0".to_vec());
    assert_eq!(header(&resp, b"Content-Length"), Some(&b"8".to_vec()));
    // without the header the request is refused, not dropped
    let req = parse(b"GET /user-agent HTTP/1.1\r\n\r\n").unwrap();
    let resp = respond(&req, &mut HashMap::new());
    assert_eq!(resp.status.code(), 400);
    assert!(resp.body.is_empty());
}

#[test]
fn unmatched_routes_fall_back_to_404() {
    for raw in [
        &b"GET /missing HTTP/1.1\r\n\r\n"[..],
        b"POST /echo/abc HTTP/1.1\r\n\r\n",
        b"POST / HTTP/1.1\r\n\r\n",
        b"GET /echo HTTP/1.1\r\n\r\n",
    ] {
        let req = parse(raw).unwrap();
        let resp = respond(&req, &mut HashMap::new());
        assert_eq!(resp.status.code(), 404);
        assert!(resp.body.is_empty());
    }
}

#[test]
fn unsafe_file_names_never_reach_the_store() {
    assert!(is_safe_name(b"plain.txt"));
    assert!(!is_safe_name(b".."));
    assert!(!is_safe_name(b"../secret"));
    assert!(!is_safe_name(b"a/b"));
    assert!(!is_safe_name(b"a\\b"));
    let mut store = HashMap::new();
    store.insert(b"secret".to_vec(), b"hidden".to_vec());
    let req = parse(b"GET /files/../secret HTTP/1.1\r\n\r\n").unwrap();
    assert_eq!(respond(&req, &mut store).status.code(), 404);
    let req = parse(b"POST /files/a/b HTTP/1.1\r\nContent-Length: 1\r\n\r\nz").unwrap();
    assert_eq!(respond(&req, &mut store).status.code(), 400);
    assert_eq!(store.len(), 1);
}

#[test]
fn read_until_splits_on_the_delimiter() {
    let mut r = ByteReader::new(b"alpha\r\nbeta\r\n".to_vec());
    let mut buf = Vec::new();
    let n = read_until(&mut r, [13, 10], &mut buf);
    assert_eq!(n, 7);
    assert_eq!(buf, b"alpha\r\n".to_vec());
    buf.clear();
    let n = read_until(&mut r, [13, 10], &mut buf);
    assert_eq!(n, 6);
    assert_eq!(buf, b"beta\r\n".to_vec());
}

#[test]
fn read_until_without_delimiter_consumes_everything() {
    let mut r = ByteReader::new(b"no end".to_vec());
    let mut buf = Vec::new();
    let n = read_until(&mut r, [13, 10], &mut buf);
    assert_eq!(n, 6);
    assert_eq!(buf, b"no end".to_vec());
    assert_eq!(r.pos, 6);
    // a lone CR at the very end is not a delimiter
    let mut r = ByteReader::new(b"half\r".to_vec());
    let mut buf = Vec::new();
    assert_eq!(read_until(&mut r, [13, 10], &mut buf), 5);
    assert_eq!(buf, b"half\r".to_vec());
}

#[test]
fn read_exact_takes_n_or_nothing() {
    let mut r = ByteReader::new(b"abcdef".to_vec());
    assert_eq!(r.read_exact(4), Some(b"abcd".to_vec()));
    assert_eq!(r.read_exact(3), None);
    assert_eq!(r.read_exact(2), Some(b"ef".to_vec()));
}

#[test]
fn status_codes_and_reasons_are_canonical() {
    assert_eq!(StatusCode::Okay.code(), 200);
    assert_eq!(StatusCode::Created.code(), 201);
    assert_eq!(StatusCode::BadRequest.code(), 400);
    assert_eq!(StatusCode::NotFound.code(), 404);
    assert_eq!(StatusCode::Okay.canonical_reason(), "OK");
    assert_eq!(StatusCode::Created.canonical_reason(), "Created");
    assert_eq!(StatusCode::BadRequest.canonical_reason(), "Bad Request");
    assert_eq!(StatusCode::NotFound.canonical_reason(), "Not Found");
}

#[test]
fn with_code_builds_an_empty_response() {
    let resp = Response::with_code(StatusCode::NotFound);
    assert_eq!(resp.version, b"HTTP/1.1".to_vec());
    assert!(resp.body.is_empty());
    let mut out = Vec::new();
    resp.write(&mut out);
    assert_eq!(out, b"HTTP/1.1 404 Not Found\r\n\r\n".to_vec());
}

#[test]
fn method_tokens_parse_exactly() {
    assert_eq!(Method::from_bytes(b"GET"), Some(Method::Get));
    assert_eq!(Method::from_bytes(b"POST"), Some(Method::Post));
    assert_eq!(Method::from_bytes(b"get"), None);
    assert_eq!(Method::from_bytes(b"PATCH"), None);
    assert_eq!(Method::from_bytes(b""), None);
}

#[test]
fn decimal_lengths_format_and_parse() {
    assert_eq!(fmt_usize(0), b"0".to_vec());
    assert_eq!(fmt_usize(3), b"3".to_vec());
    assert_eq!(fmt_usize(1024), b"1024".to_vec());
    assert_eq!(parse_dec(b"0"), Some(0));
    assert_eq!(parse_dec(b"1024"), Some(1024));
    assert_eq!(parse_dec(b""), None);
    assert_eq!(parse_dec(b"12a"), None);
    assert_eq!(parse_dec(b"99999999999999999999999999"), None);
}

#[test]
fn headers_insert_and_get() {
    let mut h = Headers::new();
    assert!(h.get(b"Host").is_none());
    h.insert(b"Host".to_vec(), b"first".to_vec());
    h.insert(b"Other".to_vec(), b"x".to_vec());
    h.insert(b"Host".to_vec(), b"second".to_vec());
    assert_eq!(h.get(b"Host"), Some(&b"second".to_vec()));
    assert_eq!(h.get(b"Other"), Some(&b"x".to_vec()));
    assert_eq!(h.get(b"host"), None);
}
