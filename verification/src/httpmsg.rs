use vstd::prelude::*;
use crate::bytes::append_bytes;
use crate::bytes::bytes_eq;
use crate::bytes::copy_bytes;

verus! {

/// One header line of an HTTP/1.x message. Names are kept in lower case
/// by whoever builds the message.
pub struct Header {
    pub name: Vec<u8>,
    pub value: Vec<u8>,
}

/// An HTTP/1.x request as the proxy holds it: start-line pieces, header
/// lines in order, and a bounded body.
pub struct HttpRequest {
    pub method: Vec<u8>,
    pub uri: Vec<u8>,
    pub headers: Vec<Header>,
    pub body: Vec<u8>,
}

/// A header as a pair of byte strings.
pub open spec fn header_view(h: Header) -> (Seq<u8>, Seq<u8>) {
    (h.name@, h.value@)
}

/// The header lines as pairs of byte strings, in order.
pub open spec fn headers_view(hs: Seq<Header>) -> Seq<(Seq<u8>, Seq<u8>)> {
    hs.map_values(|h: Header| header_view(h))
}

/// Whether some header line carries `name`.
pub open spec fn has_header(hs: Seq<Header>, name: Seq<u8>) -> bool {
    exists|i: int| 0 <= i < hs.len() && hs[i].name@ == name
}

/// The position of the first header line carrying `name` (the length if
/// there is none).
pub open spec fn first_header(hs: Seq<Header>, name: Seq<u8>) -> int
    decreases hs.len(),
{
    if hs.len() == 0 {
        0
    } else if hs[0].name@ == name {
        0
    } else {
        1 + first_header(hs.drop_first(), name)
    }
}

/// What `first_header` names: a position in range holding `name`, with
/// no earlier line holding it; or the length when no line holds it.
pub proof fn lemma_first_header(hs: Seq<Header>, name: Seq<u8>)
    ensures
        has_header(hs, name) ==> {
            &&& 0 <= first_header(hs, name) < hs.len()
            &&& hs[first_header(hs, name)].name@ == name
            &&& forall|j: int| 0 <= j < first_header(hs, name) ==> hs[j].name@ != name
        },
        !has_header(hs, name) ==> first_header(hs, name) == hs.len(),
    decreases hs.len(),
{
    if hs.len() == 0 {
    } else if hs[0].name@ == name {
    } else {
        let rest = hs.drop_first();
        lemma_first_header(rest, name);
        assert(forall|i: int| 0 <= i < rest.len() ==> rest[i] == hs[i + 1]);
        if has_header(hs, name) {
            let w = choose|i: int| 0 <= i < hs.len() && hs[i].name@ == name;
            assert(rest[w - 1] == hs[w]);
            assert(has_header(rest, name));
            let f = first_header(rest, name);
            assert(hs[f + 1] == rest[f]);
            assert(forall|j: int| 1 <= j < f + 1 ==> hs[j].name@ == rest[j - 1].name@);
        } else {
            if has_header(rest, name) {
                let w = choose|i: int| 0 <= i < rest.len() && rest[i].name@ == name;
                assert(hs[w + 1] == rest[w]);
            }
        }
    }
}

/// The bytes of `HEAD`.
pub open spec fn method_head() -> Seq<u8> {
    seq![72u8, 69u8, 65u8, 68u8]
}

/// Whether a request's method is `HEAD`, whose responses carry no body
/// however their headers read.
pub fn method_is_head(method: &Vec<u8>) -> (r: bool)
    ensures
        r == (method@ == method_head()),
{
    let head: Vec<u8> = vec![72, 69, 65, 68];
    proof {
        assert(head@ =~= method_head());
    }
    bytes_eq(method, &head)
}

/// A header value with another hop appended after a comma and a space.
pub open spec fn extended_value(prior: Seq<u8>, more: Seq<u8>) -> Seq<u8> {
    prior + seq![44u8, 32u8] + more
}

/// Appends `value` to the first header line carrying `name`, separated
/// by a comma and a space, or adds the header line if no line carries
/// `name`. Everything else about the request stays as it was.
pub fn extend_header_value(req: &mut HttpRequest, name: &Vec<u8>, value: &Vec<u8>)
    ensures
        final(req).method@ == old(req).method@,
        final(req).uri@ == old(req).uri@,
        final(req).body@ == old(req).body@,
        !has_header(old(req).headers@, name@) ==> headers_view(final(req).headers@)
            == headers_view(old(req).headers@).push((name@, value@)),
        has_header(old(req).headers@, name@) ==> {
            let f = first_header(old(req).headers@, name@);
            headers_view(final(req).headers@) == headers_view(old(req).headers@).update(
                f,
                (name@, extended_value(old(req).headers@[f].value@, value@)),
            )
        },
{
    let n = req.headers.len();
    let mut k: usize = 0;
    while k < n
        invariant
            0 <= k <= n,
            n == req.headers@.len(),
            req == old(req),
            forall|j: int| 0 <= j < k ==> req.headers@[j].name@ != name@,
        decreases n - k,
    {
        if bytes_eq(&req.headers[k].name, name) {
            proof {
                assert(has_header(req.headers@, name@)) by {
                    assert(req.headers@[k as int].name@ == name@);
                }
                lemma_first_header(req.headers@, name@);
                let f = first_header(req.headers@, name@);
                if f < k {
                    assert(req.headers@[f].name@ != name@);
                }
                assert(f == k);
            }
            let new_name = copy_bytes(name);
            let mut new_value = copy_bytes(&req.headers[k].value);
            new_value.push(44);
            new_value.push(32);
            append_bytes(&mut new_value, value);
            proof {
                assert(new_value@ =~= extended_value(old(req).headers@[k as int].value@, value@));
            }
            req.headers.set(k, Header { name: new_name, value: new_value });
            proof {
                assert(headers_view(req.headers@) =~= headers_view(old(req).headers@).update(
                    k as int,
                    (name@, extended_value(old(req).headers@[k as int].value@, value@)),
                ));
            }
            return ;
        }
        k = k + 1;
    }
    let new_name = copy_bytes(name);
    let new_value = copy_bytes(value);
    req.headers.push(Header { name: new_name, value: new_value });
    proof {
        assert(headers_view(req.headers@) =~= headers_view(old(req).headers@).push(
            (name@, value@),
        ));
    }
}

/// The piece of `s` after its last comma (all of `s` when it has none).
pub open spec fn after_last_comma(s: Seq<u8>) -> Seq<u8>
    decreases s.len(),
{
    if s.len() == 0 {
        s
    } else if s.last() == 44u8 {
        Seq::empty()
    } else {
        after_last_comma(s.drop_last()).push(s.last())
    }
}

/// `s` without the spaces it starts with.
pub open spec fn strip_leading_spaces(s: Seq<u8>) -> Seq<u8>
    decreases s.len(),
{
    if s.len() > 0 && s[0] == 32u8 {
        strip_leading_spaces(s.drop_first())
    } else {
        s
    }
}

/// The last comma-separated token of a header value, as a reader of
/// `X-Forwarded-For` takes it: what follows the last comma, spaces
/// before it dropped.
pub open spec fn last_forwarded_token(s: Seq<u8>) -> Seq<u8> {
    strip_leading_spaces(after_last_comma(s))
}

/// Appending comma-free bytes moves them past the last comma whole.
proof fn lemma_after_last_comma_append(s: Seq<u8>, t: Seq<u8>)
    requires
        forall|i: int| 0 <= i < t.len() ==> t[i] != 44u8,
    ensures
        after_last_comma(s + t) == after_last_comma(s) + t,
    decreases t.len(),
{
    if t.len() == 0 {
        assert(s + t =~= s);
        assert(after_last_comma(s) + t =~= after_last_comma(s));
    } else {
        assert((s + t).last() == t.last());
        assert(t.contains(t.last()));
        assert((s + t).drop_last() =~= s + t.drop_last());
        lemma_after_last_comma_append(s, t.drop_last());
        assert(after_last_comma(s + t) == (after_last_comma(s) + t.drop_last()).push(t.last()));
        assert((after_last_comma(s) + t.drop_last()).push(t.last()) =~= after_last_comma(s) + t);
    }
}

/// A client IP as `X-Forwarded-For` carries one: no commas, and not
/// opening with a space.
pub open spec fn forwarded_ip_shaped(ip: Seq<u8>) -> bool {
    &&& forall|i: int| 0 <= i < ip.len() ==> ip[i] != 44u8
    &&& (ip.len() == 0 || ip[0] != 32u8)
}

/// The outbound `X-Forwarded-For` value ends with the client IP as its
/// last comma-separated token: whether the header existed and carried
/// prior hops, or is freshly created from the IP alone.
pub proof fn lemma_xff_ends_with_client_ip(prior: Seq<u8>, ip: Seq<u8>)
    requires
        forwarded_ip_shaped(ip),
    ensures
        last_forwarded_token(extended_value(prior, ip)) == ip,
        last_forwarded_token(ip) == ip,
{
    let comma = seq![44u8];
    let tail = seq![32u8] + ip;
    assert(forall|i: int| 0 <= i < tail.len() ==> (i == 0 || #[trigger] tail[i] == ip[i - 1]));
    assert(forall|i: int| 0 <= i < tail.len() ==> tail[i] != 44u8);
    assert(extended_value(prior, ip) =~= (prior + comma) + tail);
    lemma_after_last_comma_append(prior + comma, tail);
    assert((prior + comma).last() == 44u8);
    assert(after_last_comma(prior + comma) =~= Seq::<u8>::empty());
    assert(after_last_comma((prior + comma) + tail) =~= tail);
    assert(tail.drop_first() =~= ip);
    assert(strip_leading_spaces(tail) == strip_leading_spaces(ip));
    lemma_strip_nothing(ip);
    lemma_after_last_comma_append(Seq::<u8>::empty(), ip);
    assert(Seq::<u8>::empty() + ip =~= ip);
    assert(after_last_comma(Seq::<u8>::empty()) + ip =~= ip);
}

/// Bytes that do not open with a space keep themselves.
proof fn lemma_strip_nothing(s: Seq<u8>)
    requires
        s.len() == 0 || s[0] != 32u8,
    ensures
        strip_leading_spaces(s) == s,
{
}

} // verus!
