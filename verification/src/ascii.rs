use vstd::prelude::*;

verus! {

// The protocol's literal tokens, as ASCII byte sequences. Verus has no
// byte-string literals, so each token is written out numerically, with the
// text it spells in the doc comment. Each token has a spec form (a `Seq<u8>`
// used in contracts) and an exec form (a `Vec<u8>` holding the same bytes).

/// Carriage return.
pub const CR: u8 = 13;

/// Line feed.
pub const LF: u8 = 10;

/// Space.
pub const SP: u8 = 32;

/// Colon.
pub const COLON: u8 = 58;

/// Comma.
pub const COMMA: u8 = 44;

/// Forward slash.
pub const SLASH: u8 = 47;

/// Backslash.
pub const BACKSLASH: u8 = 92;

/// "GET"
pub open spec fn method_get() -> Seq<u8> {
    seq![71u8, 69u8, 84u8]
}

/// "GET"
pub fn method_get_vec() -> (r: Vec<u8>)
    ensures
        r@ == method_get(),
{
    let r: Vec<u8> = vec![71u8, 69u8, 84u8];
    proof {
        assert(r@ =~= method_get());
    }
    r
}

/// "POST"
pub open spec fn method_post() -> Seq<u8> {
    seq![80u8, 79u8, 83u8, 84u8]
}

/// "POST"
pub fn method_post_vec() -> (r: Vec<u8>)
    ensures
        r@ == method_post(),
{
    let r: Vec<u8> = vec![80u8, 79u8, 83u8, 84u8];
    proof {
        assert(r@ =~= method_post());
    }
    r
}

/// "/"
pub open spec fn path_root() -> Seq<u8> {
    seq![47u8]
}

/// "/"
pub fn path_root_vec() -> (r: Vec<u8>)
    ensures
        r@ == path_root(),
{
    let r: Vec<u8> = vec![47u8];
    proof {
        assert(r@ =~= path_root());
    }
    r
}

/// "/user-agent"
pub open spec fn path_user_agent() -> Seq<u8> {
    seq![47u8, 117u8, 115u8, 101u8, 114u8, 45u8, 97u8, 103u8, 101u8, 110u8, 116u8]
}

/// "/user-agent"
pub fn path_user_agent_vec() -> (r: Vec<u8>)
    ensures
        r@ == path_user_agent(),
{
    let r: Vec<u8> = vec![47u8, 117u8, 115u8, 101u8, 114u8, 45u8, 97u8, 103u8, 101u8, 110u8, 116u8];
    proof {
        assert(r@ =~= path_user_agent());
    }
    r
}

/// "/echo/"
pub open spec fn prefix_echo() -> Seq<u8> {
    seq![47u8, 101u8, 99u8, 104u8, 111u8, 47u8]
}

/// "/echo/"
pub fn prefix_echo_vec() -> (r: Vec<u8>)
    ensures
        r@ == prefix_echo(),
{
    let r: Vec<u8> = vec![47u8, 101u8, 99u8, 104u8, 111u8, 47u8];
    proof {
        assert(r@ =~= prefix_echo());
    }
    r
}

/// "/files/"
pub open spec fn prefix_files() -> Seq<u8> {
    seq![47u8, 102u8, 105u8, 108u8, 101u8, 115u8, 47u8]
}

/// "/files/"
pub fn prefix_files_vec() -> (r: Vec<u8>)
    ensures
        r@ == prefix_files(),
{
    let r: Vec<u8> = vec![47u8, 102u8, 105u8, 108u8, 101u8, 115u8, 47u8];
    proof {
        assert(r@ =~= prefix_files());
    }
    r
}

/// "Content-Length"
pub open spec fn hn_content_length() -> Seq<u8> {
    seq![67u8, 111u8, 110u8, 116u8, 101u8, 110u8, 116u8, 45u8, 76u8, 101u8, 110u8, 103u8, 116u8, 104u8]
}

/// "Content-Length"
pub fn hn_content_length_vec() -> (r: Vec<u8>)
    ensures
        r@ == hn_content_length(),
{
    let r: Vec<u8> = vec![67u8, 111u8, 110u8, 116u8, 101u8, 110u8, 116u8, 45u8, 76u8, 101u8, 110u8, 103u8, 116u8, 104u8];
    proof {
        assert(r@ =~= hn_content_length());
    }
    r
}

/// "Content-Type"
pub open spec fn hn_content_type() -> Seq<u8> {
    seq![67u8, 111u8, 110u8, 116u8, 101u8, 110u8, 116u8, 45u8, 84u8, 121u8, 112u8, 101u8]
}

/// "Content-Type"
pub fn hn_content_type_vec() -> (r: Vec<u8>)
    ensures
        r@ == hn_content_type(),
{
    let r: Vec<u8> = vec![67u8, 111u8, 110u8, 116u8, 101u8, 110u8, 116u8, 45u8, 84u8, 121u8, 112u8, 101u8];
    proof {
        assert(r@ =~= hn_content_type());
    }
    r
}

/// "Content-Encoding"
pub open spec fn hn_content_encoding() -> Seq<u8> {
    seq![67u8, 111u8, 110u8, 116u8, 101u8, 110u8, 116u8, 45u8, 69u8, 110u8, 99u8, 111u8, 100u8, 105u8, 110u8, 103u8]
}

/// "Content-Encoding"
pub fn hn_content_encoding_vec() -> (r: Vec<u8>)
    ensures
        r@ == hn_content_encoding(),
{
    let r: Vec<u8> = vec![67u8, 111u8, 110u8, 116u8, 101u8, 110u8, 116u8, 45u8, 69u8, 110u8, 99u8, 111u8, 100u8, 105u8, 110u8, 103u8];
    proof {
        assert(r@ =~= hn_content_encoding());
    }
    r
}

/// "User-Agent"
pub open spec fn hn_user_agent() -> Seq<u8> {
    seq![85u8, 115u8, 101u8, 114u8, 45u8, 65u8, 103u8, 101u8, 110u8, 116u8]
}

/// "User-Agent"
pub fn hn_user_agent_vec() -> (r: Vec<u8>)
    ensures
        r@ == hn_user_agent(),
{
    let r: Vec<u8> = vec![85u8, 115u8, 101u8, 114u8, 45u8, 65u8, 103u8, 101u8, 110u8, 116u8];
    proof {
        assert(r@ =~= hn_user_agent());
    }
    r
}

/// "Accept-Encoding"
pub open spec fn hn_accept_encoding() -> Seq<u8> {
    seq![65u8, 99u8, 99u8, 101u8, 112u8, 116u8, 45u8, 69u8, 110u8, 99u8, 111u8, 100u8, 105u8, 110u8, 103u8]
}

/// "Accept-Encoding"
pub fn hn_accept_encoding_vec() -> (r: Vec<u8>)
    ensures
        r@ == hn_accept_encoding(),
{
    let r: Vec<u8> = vec![65u8, 99u8, 99u8, 101u8, 112u8, 116u8, 45u8, 69u8, 110u8, 99u8, 111u8, 100u8, 105u8, 110u8, 103u8];
    proof {
        assert(r@ =~= hn_accept_encoding());
    }
    r
}

/// "text/plain"
pub open spec fn hv_text_plain() -> Seq<u8> {
    seq![116u8, 101u8, 120u8, 116u8, 47u8, 112u8, 108u8, 97u8, 105u8, 110u8]
}

/// "text/plain"
pub fn hv_text_plain_vec() -> (r: Vec<u8>)
    ensures
        r@ == hv_text_plain(),
{
    let r: Vec<u8> = vec![116u8, 101u8, 120u8, 116u8, 47u8, 112u8, 108u8, 97u8, 105u8, 110u8];
    proof {
        assert(r@ =~= hv_text_plain());
    }
    r
}

/// "application/octet-stream"
pub open spec fn hv_octet_stream() -> Seq<u8> {
    seq![97u8, 112u8, 112u8, 108u8, 105u8, 99u8, 97u8, 116u8, 105u8, 111u8, 110u8, 47u8, 111u8, 99u8, 116u8, 101u8, 116u8, 45u8, 115u8, 116u8, 114u8, 101u8, 97u8, 109u8]
}

/// "application/octet-stream"
pub fn hv_octet_stream_vec() -> (r: Vec<u8>)
    ensures
        r@ == hv_octet_stream(),
{
    let r: Vec<u8> = vec![97u8, 112u8, 112u8, 108u8, 105u8, 99u8, 97u8, 116u8, 105u8, 111u8, 110u8, 47u8, 111u8, 99u8, 116u8, 101u8, 116u8, 45u8, 115u8, 116u8, 114u8, 101u8, 97u8, 109u8];
    proof {
        assert(r@ =~= hv_octet_stream());
    }
    r
}

/// "gzip"
pub open spec fn hv_gzip() -> Seq<u8> {
    seq![103u8, 122u8, 105u8, 112u8]
}

/// "gzip"
pub fn hv_gzip_vec() -> (r: Vec<u8>)
    ensures
        r@ == hv_gzip(),
{
    let r: Vec<u8> = vec![103u8, 122u8, 105u8, 112u8];
    proof {
        assert(r@ =~= hv_gzip());
    }
    r
}

/// "HTTP/1.1"
pub open spec fn http_version() -> Seq<u8> {
    seq![72u8, 84u8, 84u8, 80u8, 47u8, 49u8, 46u8, 49u8]
}

/// "HTTP/1.1"
pub fn http_version_vec() -> (r: Vec<u8>)
    ensures
        r@ == http_version(),
{
    let r: Vec<u8> = vec![72u8, 84u8, 84u8, 80u8, 47u8, 49u8, 46u8, 49u8];
    proof {
        assert(r@ =~= http_version());
    }
    r
}

/// "OK"
pub open spec fn reason_ok() -> Seq<u8> {
    seq![79u8, 75u8]
}

/// "OK"
pub fn reason_ok_vec() -> (r: Vec<u8>)
    ensures
        r@ == reason_ok(),
{
    let r: Vec<u8> = vec![79u8, 75u8];
    proof {
        assert(r@ =~= reason_ok());
    }
    r
}

/// "Created"
pub open spec fn reason_created() -> Seq<u8> {
    seq![67u8, 114u8, 101u8, 97u8, 116u8, 101u8, 100u8]
}

/// "Created"
pub fn reason_created_vec() -> (r: Vec<u8>)
    ensures
        r@ == reason_created(),
{
    let r: Vec<u8> = vec![67u8, 114u8, 101u8, 97u8, 116u8, 101u8, 100u8];
    proof {
        assert(r@ =~= reason_created());
    }
    r
}

/// "Bad Request"
pub open spec fn reason_bad_request() -> Seq<u8> {
    seq![66u8, 97u8, 100u8, 32u8, 82u8, 101u8, 113u8, 117u8, 101u8, 115u8, 116u8]
}

/// "Bad Request"
pub fn reason_bad_request_vec() -> (r: Vec<u8>)
    ensures
        r@ == reason_bad_request(),
{
    let r: Vec<u8> = vec![66u8, 97u8, 100u8, 32u8, 82u8, 101u8, 113u8, 117u8, 101u8, 115u8, 116u8];
    proof {
        assert(r@ =~= reason_bad_request());
    }
    r
}

/// "Not Found"
pub open spec fn reason_not_found() -> Seq<u8> {
    seq![78u8, 111u8, 116u8, 32u8, 70u8, 111u8, 117u8, 110u8, 100u8]
}

/// "Not Found"
pub fn reason_not_found_vec() -> (r: Vec<u8>)
    ensures
        r@ == reason_not_found(),
{
    let r: Vec<u8> = vec![78u8, 111u8, 116u8, 32u8, 70u8, 111u8, 117u8, 110u8, 100u8];
    proof {
        assert(r@ =~= reason_not_found());
    }
    r
}

/// ".."
pub open spec fn dot_dot() -> Seq<u8> {
    seq![46u8, 46u8]
}

/// ".."
pub fn dot_dot_vec() -> (r: Vec<u8>)
    ensures
        r@ == dot_dot(),
{
    let r: Vec<u8> = vec![46u8, 46u8];
    proof {
        assert(r@ =~= dot_dot());
    }
    r
}

} // verus!
