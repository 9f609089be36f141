//! The HTTP-observable outcome of a command: a status code, an ordered list
//! of headers, and a body of bytes. A completed idempotency record stores one
//! of these verbatim so that a replay is byte-for-byte identical.

use vstd::prelude::*;
use vstd::string::*;

verus! {

/// One response header: a name and its binary value.
pub struct HeaderPairRecord {
    pub name: String,
    pub value: Vec<u8>,
}

impl DeepView for HeaderPairRecord {
    type V = (Seq<char>, Seq<u8>);

    open spec fn deep_view(&self) -> (Seq<char>, Seq<u8>) {
        (self.name@, self.value@)
    }
}

/// A response as a client observes it.
pub struct Response {
    pub status_code: u16,
    pub headers: Vec<HeaderPairRecord>,
    pub body: Vec<u8>,
}

/// The mathematical content of a [`Response`].
#[verifier::ext_equal]
pub ghost struct ResponseView {
    pub status_code: u16,
    pub headers: Seq<(Seq<char>, Seq<u8>)>,
    pub body: Seq<u8>,
}

impl View for Response {
    type V = ResponseView;

    open spec fn view(&self) -> ResponseView {
        ResponseView {
            status_code: self.status_code,
            headers: self.headers.deep_view(),
            body: self.body@,
        }
    }
}

impl DeepView for Response {
    type V = ResponseView;

    open spec fn deep_view(&self) -> ResponseView {
        self@
    }
}

/// Copies a byte vector.
fn copy_bytes(v: &Vec<u8>) -> (r: Vec<u8>)
    ensures
        r@ == v@,
{
    let mut r: Vec<u8> = Vec::new();
    let mut i: usize = 0;
    while i < v.len()
        invariant
            i <= v.len(),
            r@ == v@.subrange(0, i as int),
        decreases v.len() - i,
    {
        r.push(v[i]);
        i = i + 1;
    }
    assert(r@ =~= v@);
    r
}

/// Copies a response field for field, so that a stored result can be handed
/// out while the record itself is kept.
pub fn copy_response(r: &Response) -> (c: Response)
    ensures
        c@ == r@,
{
    let mut headers: Vec<HeaderPairRecord> = Vec::new();
    let mut i: usize = 0;
    while i < r.headers.len()
        invariant
            i <= r.headers.len(),
            headers.deep_view() == r.headers.deep_view().subrange(0, i as int),
        decreases r.headers.len() - i,
    {
        let ghost pre = headers.deep_view();
        let pair = HeaderPairRecord {
            name: r.headers[i].name.clone(),
            value: copy_bytes(&r.headers[i].value),
        };
        proof {
            assert(pair.deep_view() == r.headers@[i as int].deep_view());
        }
        headers.push(pair);
        proof {
            assert(headers.deep_view() =~= pre.push(pair.deep_view()));
            assert(headers.deep_view() =~= r.headers.deep_view().subrange(0, i + 1 as int));
        }
        i = i + 1;
    }
    assert(headers.deep_view() =~~= r.headers.deep_view());
    let c = Response { status_code: r.status_code, headers, body: copy_bytes(&r.body) };
    assert(c@ =~~= r@);
    c
}

/// A redirect: status 303 with a single `location` header and an empty
/// body.
pub fn see_other(location: &str) -> (r: Response)
    ensures
        r@.status_code == 303,
        r@.headers =~= seq![("location"@, location.spec_bytes())],
        r@.body =~= Seq::<u8>::empty(),
{
    let name = "location".to_owned();
    let value = location.as_bytes_vec();
    let mut headers: Vec<HeaderPairRecord> = Vec::new();
    headers.push(HeaderPairRecord { name, value });
    let r = Response { status_code: 303, headers, body: Vec::new() };
    assert(r@.headers =~= seq![("location"@, location.spec_bytes())]);
    r
}

} // verus!
