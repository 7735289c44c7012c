use crate::ascii;
use crate::bytes::{dec_of, dec_parse, fmt_usize};
use crate::reader::append_slice;
use crate::request::{lookup, Headers};
use vstd::prelude::*;

verus! {

// The response model: status codes with their numeric codes and canonical
// reason phrases, the response itself with its framing invariant, and the
// serializer that turns a response into the bytes put on the wire.

/// The status codes the server sends.
#[derive(PartialEq, Eq, Structural, Debug, Clone, Copy)]
pub enum StatusCode {
    Okay,
    Created,
    BadRequest,
    NotFound,
}

impl StatusCode {
    /// The numeric code of this status.
    pub open spec fn spec_code(self) -> int {
        match self {
            StatusCode::Okay => 200,
            StatusCode::Created => 201,
            StatusCode::BadRequest => 400,
            StatusCode::NotFound => 404,
        }
    }

    /// The canonical reason phrase of this status, as bytes.
    pub open spec fn spec_reason(self) -> Seq<u8> {
        match self {
            StatusCode::Okay => ascii::reason_ok(),
            StatusCode::Created => ascii::reason_created(),
            StatusCode::BadRequest => ascii::reason_bad_request(),
            StatusCode::NotFound => ascii::reason_not_found(),
        }
    }

    /// The numeric code of this status.
    pub fn code(&self) -> (r: usize)
        ensures
            r == self.spec_code(),
    {
        match self {
            StatusCode::Okay => 200,
            StatusCode::Created => 201,
            StatusCode::BadRequest => 400,
            StatusCode::NotFound => 404,
        }
    }

    /// The canonical reason phrase of this status.
    pub fn canonical_reason(&self) -> (r: &'static str)
        ensures
            self is Okay ==> r@ == "OK"@,
            self is Created ==> r@ == "Created"@,
            self is BadRequest ==> r@ == "Bad Request"@,
            self is NotFound ==> r@ == "Not Found"@,
    {
        match self {
            StatusCode::Okay => "OK",
            StatusCode::Created => "Created",
            StatusCode::BadRequest => "Bad Request",
            StatusCode::NotFound => "Not Found",
        }
    }

    /// The canonical reason phrase of this status, as bytes.
    pub fn reason_vec(&self) -> (r: Vec<u8>)
        ensures
            r@ == self.spec_reason(),
    {
        match self {
            StatusCode::Okay => ascii::reason_ok_vec(),
            StatusCode::Created => ascii::reason_created_vec(),
            StatusCode::BadRequest => ascii::reason_bad_request_vec(),
            StatusCode::NotFound => ascii::reason_not_found_vec(),
        }
    }
}

/// The textual reason phrases of `canonical_reason` and the byte phrases
/// the serializer writes spell the same ASCII characters.
pub proof fn lemma_reason_phrases_agree()
    ensures
        "OK"@.map_values(|c: char| c as u8) == StatusCode::Okay.spec_reason(),
        "Created"@.map_values(|c: char| c as u8) == StatusCode::Created.spec_reason(),
        "Bad Request"@.map_values(|c: char| c as u8) == StatusCode::BadRequest.spec_reason(),
        "Not Found"@.map_values(|c: char| c as u8) == StatusCode::NotFound.spec_reason(),
{
    reveal_strlit("OK");
    reveal_strlit("Created");
    reveal_strlit("Bad Request");
    reveal_strlit("Not Found");
    assert("OK"@.map_values(|c: char| c as u8) =~= StatusCode::Okay.spec_reason());
    assert("Created"@.map_values(|c: char| c as u8) =~= StatusCode::Created.spec_reason());
    assert("Bad Request"@.map_values(|c: char| c as u8)
        =~= StatusCode::BadRequest.spec_reason());
    assert("Not Found"@.map_values(|c: char| c as u8) =~= StatusCode::NotFound.spec_reason());
}

/// A response about to be serialized.
#[derive(Debug)]
pub struct Response {
    pub version: Vec<u8>,
    pub status: StatusCode,
    pub headers: Headers,
    pub body: Vec<u8>,
}

/// The mathematical content of a response.
pub struct ResponseView {
    pub version: Seq<u8>,
    pub status: StatusCode,
    pub headers: Seq<(Seq<u8>, Seq<u8>)>,
    pub body: Seq<u8>,
}

impl View for Response {
    type V = ResponseView;

    open spec fn view(&self) -> ResponseView {
        ResponseView {
            version: self.version@,
            status: self.status,
            headers: self.headers@,
            body: self.body@,
        }
    }
}

impl ResponseView {
    /// The framing invariant: a `Content-Length` header must read as
    /// exactly the body's length, and a body without one must be empty.
    /// Handlers establish this; the writer insists on it.
    pub open spec fn wf_framing(self) -> bool {
        match lookup(self.headers, ascii::hn_content_length()) {
            Some(v) => dec_parse(v) == Some(self.body.len()),
            None => self.body.len() == 0,
        }
    }
}

/// One serialized header line: `name: value` and CRLF.
pub open spec fn header_line_bytes(h: (Seq<u8>, Seq<u8>)) -> Seq<u8> {
    h.0 + seq![ascii::COLON, ascii::SP] + h.1 + seq![ascii::CR, ascii::LF]
}

/// All header lines, in order.
pub open spec fn headers_bytes(hs: Seq<(Seq<u8>, Seq<u8>)>) -> Seq<u8>
    decreases hs.len(),
{
    if hs.len() == 0 {
        Seq::empty()
    } else {
        headers_bytes(hs.drop_last()) + header_line_bytes(hs.last())
    }
}

/// The serialized response: status line, header lines, blank line, body.
pub open spec fn response_bytes(r: ResponseView) -> Seq<u8> {
    r.version + seq![ascii::SP] + dec_of(r.status.spec_code() as nat) + seq![ascii::SP]
        + r.status.spec_reason() + seq![ascii::CR, ascii::LF] + headers_bytes(r.headers)
        + seq![ascii::CR, ascii::LF] + r.body
}

impl Response {
    /// A response with the given status, the fixed version, and no headers
    /// and no body yet.
    pub fn with_code(status_code: StatusCode) -> (r: Response)
        ensures
            r@.version == ascii::http_version(),
            r@.status == status_code,
            r@.headers == Seq::<(Seq<u8>, Seq<u8>)>::empty(),
            r@.body == Seq::<u8>::empty(),
            r@.wf_framing(),
    {
        let r = Response {
            version: ascii::http_version_vec(),
            status: status_code,
            headers: Headers::new(),
            body: Vec::new(),
        };
        proof {
            assert(r@.body =~= Seq::<u8>::empty());
        }
        r
    }

    /// Serialize this response, appending its bytes to `out`. The framing
    /// invariant is demanded up front: a response that breaks it is a
    /// handler bug and is never written.
    pub fn write(&self, out: &mut Vec<u8>)
        requires
            self@.wf_framing(),
        ensures
            final(out)@ == old(out)@ + response_bytes(self@),
    {
        append_slice(out, self.version.as_slice());
        out.push(ascii::SP);
        let code = fmt_usize(self.status.code());
        append_slice(out, code.as_slice());
        out.push(ascii::SP);
        let reason = self.status.reason_vec();
        append_slice(out, reason.as_slice());
        out.push(ascii::CR);
        out.push(ascii::LF);
        let ghost status_line = self@.version + seq![ascii::SP] + dec_of(
            self@.status.spec_code() as nat,
        ) + seq![ascii::SP] + self@.status.spec_reason() + seq![ascii::CR, ascii::LF];
        proof {
            assert(out@ =~= old(out)@ + status_line);
        }
        let n = self.headers.entries.len();
        let mut i: usize = 0;
        proof {
            assert(self@.headers.take(0) =~= Seq::<(Seq<u8>, Seq<u8>)>::empty());
        }
        while i < n
            invariant
                n == self.headers.entries@.len(),
                self.headers.entries@.len() == self@.headers.len(),
                0 <= i <= n,
                out@ == old(out)@ + status_line + headers_bytes(self@.headers.take(i as int)),
            decreases n - i,
        {
            let h = &self.headers.entries[i];
            proof {
                assert(self@.headers[i as int] == h@);
            }
            append_slice(out, h.name.as_slice());
            out.push(ascii::COLON);
            out.push(ascii::SP);
            append_slice(out, h.value.as_slice());
            out.push(ascii::CR);
            out.push(ascii::LF);
            proof {
                assert(self@.headers.take(i + 1).drop_last() =~= self@.headers.take(i as int));
                assert(self@.headers.take(i + 1).last() == self@.headers[i as int]);
                assert(out@ =~= old(out)@ + status_line + headers_bytes(
                    self@.headers.take(i + 1),
                ));
            }
            i = i + 1;
        }
        proof {
            assert(self@.headers.take(n as int) =~= self@.headers);
        }
        out.push(ascii::CR);
        out.push(ascii::LF);
        append_slice(out, self.body.as_slice());
        proof {
            assert(out@ =~= old(out)@ + response_bytes(self@));
        }
    }
}

} // verus!
