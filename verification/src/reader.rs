use crate::bytes::{delim_pos, find_delim, lemma_delim_pos};
use vstd::prelude::*;

verus! {

// The stream reader: a buffer of bytes received from a connection, with a
// cursor marking how far the parser has consumed them. Delimiter-driven
// reads and exact-length reads both work on the unconsumed remainder; the
// unverified connection loop appends newly received bytes and retries when a
// read runs out of data before its delimiter.

/// Buffered reader over the bytes a connection has produced so far.
pub struct ByteReader {
    /// The bytes received, in order.
    pub data: Vec<u8>,
    /// How many of them have been consumed.
    pub pos: usize,
}

/// Append every byte of `s` to `buf`.
pub fn append_slice(buf: &mut Vec<u8>, s: &[u8])
    ensures
        final(buf)@ == old(buf)@ + s@,
{
    let n = s.len();
    let mut i: usize = 0;
    while i < n
        invariant
            n == s@.len(),
            0 <= i <= n,
            buf@ == old(buf)@ + s@.take(i as int),
        decreases n - i,
    {
        buf.push(s[i]);
        proof {
            assert(old(buf)@ + s@.take(i + 1) =~= (old(buf)@ + s@.take(i as int)).push(
                s@[i as int]));
        }
        i = i + 1;
    }
    proof {
        assert(s@.take(n as int) =~= s@);
    }
}

impl ByteReader {
    /// The cursor stays inside the buffer.
    pub open spec fn wf(&self) -> bool {
        self.pos <= self.data@.len()
    }

    /// The bytes not yet consumed.
    pub open spec fn rest(&self) -> Seq<u8> {
        self.data@.skip(self.pos as int)
    }

    /// A reader over `data` with nothing consumed yet.
    pub fn new(data: Vec<u8>) -> (r: ByteReader)
        ensures
            r.wf(),
            r.pos == 0,
            r.rest() == data@,
    {
        let r = ByteReader { data, pos: 0 };
        proof {
            assert(r.rest() =~= r.data@);
        }
        r
    }

    /// Take exactly `n` of the remaining bytes, or `None`, changing
    /// nothing, if fewer than `n` remain.
    pub fn read_exact(&mut self, n: usize) -> (r: Option<Vec<u8>>)
        requires
            old(self).wf(),
        ensures
            final(self).wf(),
            final(self).data == old(self).data,
            match r {
                Some(v) => n <= old(self).rest().len() && v@ == old(self).rest().take(n as int)
                    && final(self).rest() == old(self).rest().skip(n as int) && final(self).pos
                    == old(self).pos + n,
                None => old(self).rest().len() < n && *final(self) == *old(self),
            },
    {
        if n > self.data.len() - self.pos {
            return None;
        }
        let sl: &[u8] = &self.data.as_slice()[self.pos..self.pos + n];
        let v = vstd::slice::slice_to_vec(sl);
        proof {
            assert(sl@ =~= self.rest().take(n as int));
            assert(self.data@.skip(self.pos + n) =~= self.rest().skip(n as int));
        }
        self.pos = self.pos + n;
        Some(v)
    }
}

/// Read from `r` up to and including the next occurrence of the two-byte
/// delimiter, appending what was read to `buf` and returning how many bytes
/// were consumed. If the delimiter does not occur in the remaining data, all
/// of it is consumed and appended: the caller sees that from the missing
/// delimiter at the end of `buf` and treats the message as truncated.
pub fn read_until(r: &mut ByteReader, delim: [u8; 2], buf: &mut Vec<u8>) -> (n: usize)
    requires
        old(r).wf(),
    ensures
        final(r).wf(),
        final(r).data == old(r).data,
        match delim_pos(old(r).rest(), delim[0], delim[1]) {
            Some(i) => n == i + 2 && final(r).pos == old(r).pos + i + 2 && final(buf)@
                == old(buf)@ + old(r).rest().take(i + 2),
            None => n == old(r).rest().len() && final(r).pos == final(r).data@.len()
                && final(buf)@ == old(buf)@ + old(r).rest(),
        },
{
    let sl: &[u8] = &r.data.as_slice()[r.pos..r.data.len()];
    proof {
        assert(sl@ =~= r.rest());
    }
    match find_delim(sl, delim[0], delim[1]) {
        Some(i) => {
            proof {
                lemma_delim_pos(sl@, delim[0], delim[1]);
            }
            let taken: &[u8] = &sl[0..i + 2];
            append_slice(buf, taken);
            proof {
                assert(taken@ =~= old(r).rest().take(i + 2));
            }
            r.pos = r.pos + i + 2;
            i + 2
        },
        None => {
            append_slice(buf, sl);
            let n = sl.len();
            r.pos = r.data.len();
            n
        },
    }
}

} // verus!
