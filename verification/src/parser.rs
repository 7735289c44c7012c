use crate::ascii;
use crate::bytes::{
    byte_pos, delim_pos, dec_parse, find_byte, find_delim, lemma_byte_pos, lemma_delim_pos,
    parse_dec,
};
use crate::reader::{read_until, ByteReader};
use crate::request::{lookup, method_of, Headers, Method, Request, RequestView};
use vstd::prelude::*;

verus! {

// The message parser: reads one request off a reader, delimiter by
// delimiter — the request line, then header lines until the empty line,
// then exactly Content-Length bytes of body. Its contract ties the result,
// byte for byte, to the specification-level parse of the unconsumed data.

/// Why a connection's bytes failed to parse. Every one of these is fatal
/// for the connection: no response is sent back.
#[derive(PartialEq, Eq, Structural, Debug, Clone, Copy)]
pub enum ParseError {
    /// The data ended before a required delimiter, or before the full body.
    Truncated,
    /// The request line does not hold exactly three space-separated tokens.
    BadRequestLine,
    /// The method token is not a recognized method.
    UnknownMethod,
    /// A header line has no name-value separator.
    BadHeader,
    /// The `Content-Length` value is not a number, or does not fit.
    BadContentLength,
}

/// The first CRLF-terminated line of `s` (without its CRLF) and what
/// follows it; `None` when no CRLF remains, which truncates the message.
pub open spec fn split_line(s: Seq<u8>) -> Option<(Seq<u8>, Seq<u8>)> {
    match delim_pos(s, ascii::CR, ascii::LF) {
        Some(i) => if 0 <= i && i + 2 <= s.len() {
            Some((s.take(i), s.skip(i + 2)))
        } else {
            None
        },
        None => None,
    }
}

/// The three space-separated tokens of a request line; `None` unless the
/// line holds exactly two spaces, hence exactly three tokens.
pub open spec fn split3(line: Seq<u8>) -> Option<(Seq<u8>, Seq<u8>, Seq<u8>)> {
    match byte_pos(line, ascii::SP) {
        None => None,
        Some(i) => {
            let rest = line.skip(i + 1);
            match byte_pos(rest, ascii::SP) {
                None => None,
                Some(j) => if byte_pos(rest.skip(j + 1), ascii::SP) is Some {
                    None
                } else {
                    Some((line.take(i), rest.take(j), rest.skip(j + 1)))
                },
            }
        },
    }
}

/// A header line split at the first `": "` into name and value.
pub open spec fn split_header(line: Seq<u8>) -> Option<(Seq<u8>, Seq<u8>)> {
    match delim_pos(line, ascii::COLON, ascii::SP) {
        Some(i) => if 0 <= i && i + 2 <= line.len() {
            Some((line.take(i), line.skip(i + 2)))
        } else {
            None
        },
        None => None,
    }
}

/// Parse header lines off `s` until the empty line that ends them. Gives
/// the headers in order and how many bytes were consumed, blank line
/// included.
pub open spec fn spec_parse_headers(s: Seq<u8>) -> Result<
    (Seq<(Seq<u8>, Seq<u8>)>, int),
    ParseError,
>
    decreases s.len(),
{
    match split_line(s) {
        None => Err(ParseError::Truncated),
        Some((line, rest)) => {
            if line.len() == 0 {
                Ok((Seq::empty(), 2))
            } else {
                match split_header(line) {
                    None => Err(ParseError::BadHeader),
                    Some((name, value)) => match spec_parse_headers(rest) {
                        Err(e) => Err(e),
                        Ok((hs, n)) => Ok((seq![(name, value)] + hs, line.len() + 2 + n)),
                    },
                }
            }
        },
    }
}

/// A successful header parse consumes at least the blank line and at most
/// all of the data.
pub proof fn lemma_parse_headers_consumed(s: Seq<u8>)
    ensures
        spec_parse_headers(s) matches Ok(p) ==> 2 <= p.1 <= s.len(),
    decreases s.len(),
{
    match split_line(s) {
        Some((line, rest)) => {
            if line.len() != 0 {
                match split_header(line) {
                    Some(_) => {
                        lemma_parse_headers_consumed(rest);
                    },
                    None => {},
                }
            }
        },
        None => {},
    }
}

/// Parse one whole request off the front of `s`: request line, headers,
/// and, exactly when a `Content-Length` header is present, that many body
/// bytes. Gives the request and how many bytes of `s` it occupies.
pub open spec fn spec_parse_request(s: Seq<u8>) -> Result<(RequestView, int), ParseError> {
    match split_line(s) {
        None => Err(ParseError::Truncated),
        Some((line, rest)) => match split3(line) {
            None => Err(ParseError::BadRequestLine),
            Some((m, t, v)) => match method_of(m) {
                None => Err(ParseError::UnknownMethod),
                Some(method) => match spec_parse_headers(rest) {
                    Err(e) => Err(e),
                    Ok((hs, hn)) => {
                        let head = line.len() + 2 + hn;
                        match lookup(hs, ascii::hn_content_length()) {
                            None => Ok(
                                (
                                    RequestView {
                                        method,
                                        target: t,
                                        version: v,
                                        headers: hs,
                                        body: Seq::empty(),
                                    },
                                    head,
                                ),
                            ),
                            Some(cl) => match dec_parse(cl) {
                                None => Err(ParseError::BadContentLength),
                                Some(len) => if len > usize::MAX {
                                    Err(ParseError::BadContentLength)
                                } else if s.len() < head + len {
                                    Err(ParseError::Truncated)
                                } else {
                                    Ok(
                                        (
                                            RequestView {
                                                method,
                                                target: t,
                                                version: v,
                                                headers: hs,
                                                body: s.skip(head).take(len as int),
                                            },
                                            head + len,
                                        ),
                                    )
                                },
                            },
                        }
                    },
                },
            },
        },
    }
}

/// How many bytes the head of a message occupies: the request line and
/// the header lines through the terminating blank line; 0 when the head
/// never parses that far.
pub open spec fn spec_head_len(s: Seq<u8>) -> int {
    match split_line(s) {
        Some((line, rest)) => match spec_parse_headers(rest) {
            Ok((hs, n)) => line.len() + 2 + n,
            Err(_) => 0,
        },
        None => 0,
    }
}

/// A request without a `Content-Length` header has an empty body, and
/// parsing it consumes not one byte beyond the blank line that ends the
/// headers: nothing ever waits for a body that is not coming.
pub proof fn lemma_no_content_length_no_body(s: Seq<u8>)
    ensures
        spec_parse_request(s) matches Ok(p) ==> (lookup(p.0.headers, ascii::hn_content_length())
            is None ==> p.0.body == Seq::<u8>::empty() && p.1 == spec_head_len(s)),
{
}

/// A request line that does not hold exactly three space-separated
/// tokens, or whose method token is not a recognized method, fails the
/// whole parse with the matching error: no request comes out of it.
pub proof fn lemma_malformed_request_line(s: Seq<u8>, line: Seq<u8>, rest: Seq<u8>)
    requires
        split_line(s) == Some((line, rest)),
    ensures
        split3(line) is None ==> spec_parse_request(s) == Err::<(RequestView, int), ParseError>(
            ParseError::BadRequestLine,
        ),
        (split3(line) matches Some(t) && method_of(t.0) is None) ==> spec_parse_request(s)
            == Err::<(RequestView, int), ParseError>(ParseError::UnknownMethod),
{
}

/// Read one CRLF-terminated line, handing back the line without its CRLF;
/// `None` when the remaining data holds no CRLF, i.e. the message is
/// truncated.
pub fn read_line(r: &mut ByteReader) -> (res: Option<Vec<u8>>)
    requires
        old(r).wf(),
    ensures
        final(r).wf(),
        final(r).data == old(r).data,
        match split_line(old(r).rest()) {
            Some((line, rest)) => res matches Some(l) && l@ == line && final(r).rest() == rest
                && final(r).pos == old(r).pos + line.len() + 2,
            None => res is None,
        },
{
    let mut buf: Vec<u8> = Vec::new();
    let ghost prev = *r;
    let n = read_until(r, [ascii::CR, ascii::LF], &mut buf);
    proof {
        lemma_delim_pos(prev.rest(), ascii::CR, ascii::LF);
    }
    if n < 2 {
        return None;
    }
    if buf[n - 2] != ascii::CR || buf[n - 1] != ascii::LF {
        proof {
            // no delimiter was found, or the last two bytes read would be it
            if delim_pos(prev.rest(), ascii::CR, ascii::LF) is Some {
                assert(false);
            }
        }
        return None;
    }
    proof {
        // the delimiter was found: otherwise buf would be all of the rest,
        // whose bytes at n - 2 and n - 1 would themselves be a CRLF
        match delim_pos(prev.rest(), ascii::CR, ascii::LF) {
            Some(i) => {},
            None => {
                assert(prev.rest()[n - 2] == ascii::CR && prev.rest()[n - 1] == ascii::LF);
                assert(false);
            },
        }
    }
    buf.truncate(n - 2);
    proof {
        let i = delim_pos(prev.rest(), ascii::CR, ascii::LF)->Some_0;
        assert(buf@ =~= prev.rest().take(i));
        assert(final(r).rest() =~= prev.rest().skip(i + 2));
    }
    Some(buf)
}

/// Read header lines until the empty line, recording each under its name.
fn parse_headers(r: &mut ByteReader) -> (res: Result<Headers, ParseError>)
    requires
        old(r).wf(),
    ensures
        final(r).wf(),
        final(r).data == old(r).data,
        match spec_parse_headers(old(r).rest()) {
            Ok((hs, n)) => res matches Ok(h) && h@ == hs && final(r).pos == old(r).pos + n,
            Err(e) => res == Err::<Headers, ParseError>(e),
        },
{
    let mut headers = Headers::new();
    loop
        invariant
            r.wf(),
            r.data == old(r).data,
            old(r).pos <= r.pos,
            spec_parse_headers(old(r).rest()) == (match spec_parse_headers(r.rest()) {
                Ok((hs2, n2)) => Ok::<_, ParseError>(
                    (headers@ + hs2, r.pos - old(r).pos + n2),
                ),
                Err(e) => Err(e),
            }),
        decreases r.data@.len() - r.pos,
    {
        let ghost cur = *r;
        match read_line(r) {
            None => {
                return Err(ParseError::Truncated);
            },
            Some(line) => {
                let ghost rest = split_line(cur.rest())->Some_0.1;
                if line.len() == 0 {
                    proof {
                        assert(headers@ + Seq::<(Seq<u8>, Seq<u8>)>::empty() =~= headers@);
                    }
                    return Ok(headers);
                }
                match find_delim(line.as_slice(), ascii::COLON, ascii::SP) {
                    None => {
                        return Err(ParseError::BadHeader);
                    },
                    Some(i) => {
                        proof {
                            lemma_delim_pos(line@, ascii::COLON, ascii::SP);
                        }
                        let name = vstd::slice::slice_to_vec(&line.as_slice()[0..i]);
                        let value = vstd::slice::slice_to_vec(
                            &line.as_slice()[i + 2..line.len()],
                        );
                        proof {
                            assert(name@ =~= line@.take(i as int));
                            assert(value@ =~= line@.skip(i + 2));
                        }
                        let ghost before = headers@;
                        headers.insert(name, value);
                        proof {
                            let sh = split_header(line@)->Some_0;
                            if let Ok((hs2, n2)) = spec_parse_headers(r.rest()) {
                                assert(headers@ + hs2 =~= before + (seq![sh] + hs2));
                            }
                        }
                    },
                }
            },
        }
    }
}

/// Read one whole request off the reader: the request line, the headers,
/// and — exactly when a `Content-Length` header was given — that many body
/// bytes. The result is, byte for byte, the specification-level parse of
/// the unconsumed data; every malformed or truncated message is refused
/// with the matching error.
pub fn read_from_stream(r: &mut ByteReader) -> (res: Result<Request, ParseError>)
    requires
        old(r).wf(),
    ensures
        final(r).wf(),
        final(r).data == old(r).data,
        match spec_parse_request(old(r).rest()) {
            Ok((rv, n)) => res matches Ok(req) && req@ == rv && final(r).pos == old(r).pos + n,
            Err(e) => res matches Err(e2) && e2 == e,
        },
{
    let ghost start = *r;
    let line = match read_line(r) {
        None => {
            return Err(ParseError::Truncated);
        },
        Some(l) => l,
    };
    let i = match find_byte(line.as_slice(), ascii::SP) {
        None => {
            return Err(ParseError::BadRequestLine);
        },
        Some(i) => i,
    };
    proof {
        lemma_byte_pos(line@, ascii::SP);
    }
    let sl2: &[u8] = &line.as_slice()[i + 1..line.len()];
    proof {
        assert(sl2@ =~= line@.skip(i + 1));
    }
    let j = match find_byte(sl2, ascii::SP) {
        None => {
            return Err(ParseError::BadRequestLine);
        },
        Some(j) => j,
    };
    proof {
        lemma_byte_pos(sl2@, ascii::SP);
    }
    let sl3: &[u8] = &sl2[j + 1..sl2.len()];
    proof {
        assert(sl3@ =~= sl2@.skip(j + 1));
    }
    if let Some(_) = find_byte(sl3, ascii::SP) {
        return Err(ParseError::BadRequestLine);
    }
    let method = match Method::from_bytes(&line.as_slice()[0..i]) {
        None => {
            proof {
                assert(line@.take(i as int) =~= line@.subrange(0, i as int));
            }
            return Err(ParseError::UnknownMethod);
        },
        Some(m) => m,
    };
    proof {
        assert(line@.take(i as int) =~= line@.subrange(0, i as int));
    }
    let target = vstd::slice::slice_to_vec(&sl2[0..j]);
    let version = vstd::slice::slice_to_vec(sl3);
    proof {
        assert(target@ =~= sl2@.take(j as int));
    }
    let ghost s = start.rest();
    let ghost sline = split_line(s)->Some_0.0;
    let ghost srest = split_line(s)->Some_0.1;
    proof {
        assert(sline == line@);
        assert(sline.skip(i + 1) == sl2@);
        assert(split3(sline) == Some((line@.take(i as int), sl2@.take(j as int), sl3@)));
        assert(method_of(line@.take(i as int)) == Some(method));
    }
    let headers = match parse_headers(r) {
        Err(e) => {
            return Err(e);
        },
        Ok(h) => h,
    };
    let ghost hs = spec_parse_headers(srest)->Ok_0.0;
    let ghost hn = spec_parse_headers(srest)->Ok_0.1;
    let ghost head = sline.len() + 2 + hn;
    proof {
        lemma_parse_headers_consumed(srest);
        assert(headers@ == hs);
        assert(r.pos == start.pos + head);
        assert(r.rest() =~= s.skip(head));
    }
    let cl_name = ascii::hn_content_length_vec();
    let body = match headers.get(cl_name.as_slice()) {
        None => Vec::new(),
        Some(v) => {
            proof {
                assert(lookup(hs, ascii::hn_content_length()) == Some(v@));
            }
            let len = match parse_dec(v.as_slice()) {
                None => {
                    return Err(ParseError::BadContentLength);
                },
                Some(len) => len,
            };
            proof {
                assert(dec_parse(v@) == Some(len as nat));
                assert(s.skip(head).len() == s.len() - head);
            }
            match r.read_exact(len) {
                None => {
                    return Err(ParseError::Truncated);
                },
                Some(b) => {
                    proof {
                        assert(b@ =~= s.skip(head).take(len as int));
                    }
                    b
                },
            }
        },
    };
    let req = Request { method, target, version, headers, body };
    proof {
        let (rv, n) = spec_parse_request(s)->Ok_0;
        assert(req@.body =~= rv.body);
        assert(req@ == rv);
    }
    Ok(req)
}

} // verus!
