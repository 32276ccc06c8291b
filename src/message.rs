//! What an exchange hands back to the caller that submitted it.

use vstd::prelude::*;

use vstd::slice::slice_to_vec;

use crate::foreign::{canonical_header_name, header_name_of};

verus! {

/// A captured response: status, headers in the transport's order (names in
/// canonical lower-case form, duplicates kept), and the body where it was
/// read whole.
pub struct Response {
    pub status: i64,
    pub headers: Vec<(String, Vec<u8>)>,
    pub body: Option<Vec<u8>>,
}

/// One message on a reply channel.
pub enum RespMsg {
    /// Status and headers; for a buffered exchange the body too.
    Headers(Response),
    /// The next piece of a streamed body.
    Chunk(Vec<u8>),
    /// The exchange failed; the text says why.
    Failed(String),
}

/// The value of the first header whose name is `name`.
pub open spec fn lookup(hs: Seq<(String, Vec<u8>)>, name: Seq<char>) -> Option<Seq<u8>>
    decreases hs.len(),
{
    if hs.len() == 0 {
        None
    } else if hs[0].0@ == name {
        Some(hs[0].1@)
    } else {
        lookup(hs.drop_first(), name)
    }
}

/// What a header query on `resp` answers for `key`: nothing where the key is
/// no valid header name.
pub open spec fn header_answer(resp: Response, key: Seq<char>) -> Option<Seq<u8>> {
    match header_name_of(key) {
        Some(n) => lookup(resp.headers@, n),
        None => None,
    }
}

pub open spec fn opt_bytes(o: Option<Vec<u8>>) -> Option<Seq<u8>> {
    match o {
        Some(v) => Some(v@),
        None => None,
    }
}

/// The body of a response, empty where none was read.
pub open spec fn body_bytes(resp: Response) -> Seq<u8> {
    match resp.body {
        Some(b) => b@,
        None => Seq::empty(),
    }
}

impl Response {
    /// The first value of the header named `key` (compared in canonical
    /// form), copied.
    pub fn header_value(&self, key: &str) -> (r: Option<Vec<u8>>)
        ensures
            opt_bytes(r) == header_answer(*self, key@),
    {
        let name = match canonical_header_name(key) {
            Some(n) => n,
            None => return None,
        };
        let mut i: usize = 0;
        assert(self.headers@.subrange(0, self.headers@.len() as int) =~= self.headers@);
        while i < self.headers.len()
            invariant
                i <= self.headers@.len(),
                header_name_of(key@) == Some(name@),
                lookup(self.headers@, name@) == lookup(self.headers@.subrange(i as int, self.headers@.len() as int), name@),
            decreases self.headers@.len() - i,
        {
            let hs = Ghost(self.headers@.subrange(i as int, self.headers@.len() as int));
            assert(hs@.drop_first() =~= self.headers@.subrange(i + 1, self.headers@.len() as int));
            if self.headers[i].0 == name {
                return Some(slice_to_vec(self.headers[i].1.as_slice()));
            }
            i = i + 1;
        }
        None
    }
}

} // verus!
