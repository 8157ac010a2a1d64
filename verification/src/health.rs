use vstd::prelude::*;
use crate::bytes::copy_bytes;
use crate::httpmsg::Header;
use crate::httpmsg::HttpRequest;
use crate::httpmsg::headers_view;

verus! {

/// The bytes of `GET`.
pub open spec fn method_get() -> Seq<u8> {
    seq![71u8, 69u8, 84u8]
}

/// The bytes of `host`.
pub open spec fn host_header_name() -> Seq<u8> {
    seq![104u8, 111u8, 115u8, 116u8]
}

/// Whether one probe's outcome admits its upstream into the healthy
/// subset: only a response with status exactly 200 does.
pub fn probe_admits_upstream(status: u16) -> (r: bool)
    ensures
        r == (status == 200),
{
    status == 200
}

/// The probe sent to an upstream each cycle: a GET for the configured
/// health-check path, addressed to that upstream, with an empty body.
pub fn probe_request(path: &Vec<u8>, host: &Vec<u8>) -> (r: HttpRequest)
    ensures
        r.method@ == method_get(),
        r.uri@ == path@,
        headers_view(r.headers@) == seq![(host_header_name(), host@)],
        r.body@ == Seq::<u8>::empty(),
{
    let method: Vec<u8> = vec![71, 69, 84];
    let name: Vec<u8> = vec![104, 111, 115, 116];
    let mut headers: Vec<Header> = Vec::new();
    headers.push(Header { name, value: copy_bytes(host) });
    let r = HttpRequest { method, uri: copy_bytes(path), headers, body: Vec::new() };
    proof {
        assert(r.method@ =~= method_get());
        assert(headers_view(r.headers@) =~= seq![(host_header_name(), host@)]);
    }
    r
}

} // verus!
