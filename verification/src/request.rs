use crate::ascii;
use crate::bytes::bytes_eq;
use vstd::prelude::*;

verus! {

// The request model: the two recognized methods, the header mapping with
// last-write-wins lookup, and the parsed request itself.

/// The methods the server recognizes; any other token is a parse failure,
/// never a silent default.
#[derive(PartialEq, Eq, Structural, Debug, Clone, Copy)]
pub enum Method {
    Get,
    Post,
}

/// What a method token denotes, if anything.
pub open spec fn method_of(tok: Seq<u8>) -> Option<Method> {
    if tok == ascii::method_get() {
        Some(Method::Get)
    } else if tok == ascii::method_post() {
        Some(Method::Post)
    } else {
        None
    }
}

impl Method {
    /// Parse a method token.
    pub fn from_bytes(tok: &[u8]) -> (r: Option<Method>)
        ensures
            r == method_of(tok@),
    {
        let get = ascii::method_get_vec();
        if bytes_eq(tok, get.as_slice()) {
            return Some(Method::Get);
        }
        let post = ascii::method_post_vec();
        if bytes_eq(tok, post.as_slice()) {
            return Some(Method::Post);
        }
        None
    }
}

/// One header: a name and a value.
#[derive(Debug)]
pub struct Header {
    pub name: Vec<u8>,
    pub value: Vec<u8>,
}

impl View for Header {
    type V = (Seq<u8>, Seq<u8>);

    open spec fn view(&self) -> (Seq<u8>, Seq<u8>) {
        (self.name@, self.value@)
    }
}

/// The value a header sequence gives to `name`: the value of the last entry
/// carrying that name, if any — repeated names are not folded, the last
/// write wins.
pub open spec fn lookup(hs: Seq<(Seq<u8>, Seq<u8>)>, name: Seq<u8>) -> Option<Seq<u8>>
    decreases hs.len(),
{
    if hs.len() == 0 {
        None
    } else if hs.last().0 == name {
        Some(hs.last().1)
    } else {
        lookup(hs.drop_last(), name)
    }
}

/// A message's headers, kept in insertion order.
#[derive(Debug)]
pub struct Headers {
    pub entries: Vec<Header>,
}

impl View for Headers {
    type V = Seq<(Seq<u8>, Seq<u8>)>;

    open spec fn view(&self) -> Seq<(Seq<u8>, Seq<u8>)> {
        self.entries@.map_values(|h: Header| h@)
    }
}

impl Headers {
    /// An empty mapping.
    pub fn new() -> (r: Headers)
        ensures
            r@ == Seq::<(Seq<u8>, Seq<u8>)>::empty(),
    {
        let r = Headers { entries: Vec::new() };
        proof {
            assert(r@ =~= Seq::<(Seq<u8>, Seq<u8>)>::empty());
        }
        r
    }

    /// Record one header after all present ones.
    pub fn insert(&mut self, name: Vec<u8>, value: Vec<u8>)
        ensures
            final(self)@ == old(self)@.push((name@, value@)),
    {
        let ghost n = name@;
        let ghost v = value@;
        self.entries.push(Header { name, value });
        proof {
            assert(self@ =~= old(self)@.push((n, v)));
        }
    }

    /// Look a name up, scanning from the most recent entry back.
    pub fn get(&self, name: &[u8]) -> (r: Option<&Vec<u8>>)
        ensures
            match r {
                Some(v) => lookup(self@, name@) == Some(v@),
                None => lookup(self@, name@) is None,
            },
    {
        let mut i: usize = self.entries.len();
        proof {
            assert(self@.take(i as int) =~= self@);
        }
        while i > 0
            invariant
                i <= self.entries@.len(),
                self.entries@.len() == self@.len(),
                lookup(self@, name@) == lookup(self@.take(i as int), name@),
            decreases i,
        {
            i = i - 1;
            let h = &self.entries[i];
            proof {
                assert(self@[i as int] == h@);
                assert(self@.take(i + 1).last() == self@[i as int]);
                assert(self@.take(i + 1).drop_last() =~= self@.take(i as int));
            }
            if bytes_eq(h.name.as_slice(), name) {
                return Some(&h.value);
            }
        }
        proof {
            assert(self@.take(0) =~= Seq::<(Seq<u8>, Seq<u8>)>::empty());
        }
        None
    }
}

/// A parsed request: method, raw target, version stored verbatim, headers,
/// and the body as read under `Content-Length`.
#[derive(Debug)]
pub struct Request {
    pub method: Method,
    pub target: Vec<u8>,
    pub version: Vec<u8>,
    pub headers: Headers,
    pub body: Vec<u8>,
}

/// The mathematical content of a request.
pub struct RequestView {
    pub method: Method,
    pub target: Seq<u8>,
    pub version: Seq<u8>,
    pub headers: Seq<(Seq<u8>, Seq<u8>)>,
    pub body: Seq<u8>,
}

impl View for Request {
    type V = RequestView;

    open spec fn view(&self) -> RequestView {
        RequestView {
            method: self.method,
            target: self.target@,
            version: self.version@,
            headers: self.headers@,
            body: self.body@,
        }
    }
}

} // verus!
