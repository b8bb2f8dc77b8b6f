//! Requests that are handed on as they are.

use crate::text;
use crate::text::same_text;
use crate::wire;
use vstd::prelude::*;

verus! {

/// Whether a header concerns a single connection only.
pub open spec fn hop_by_hop(name: Seq<char>) -> bool {
    ||| name == "connection"@
    ||| name == "proxy-authenticate"@
    ||| name == "proxy-authorization"@
    ||| name == "te"@
    ||| name == "trailer"@
    ||| name == "transfer-encoding"@
    ||| name == "upgrade"@
    ||| name == "keep-alive"@
    ||| name == "proxy-connection"@
}

/// Whether a header is handed on. Names are in lower case.
pub open spec fn forwarded(name: Seq<char>) -> bool {
    !hop_by_hop(name) && name != "host"@
}

/// Whether a header, given by its name in lower case, concerns a single connection only,
/// so that it must not be handed on in either direction.
pub fn is_hop_by_hop(name: &str) -> (r: bool)
    ensures
        r == hop_by_hop(name@),
{
    same_text(name, "connection") || same_text(name, "proxy-authenticate") || same_text(
        name,
        "proxy-authorization",
    ) || same_text(name, "te") || same_text(name, "trailer") || same_text(name, "transfer-encoding")
        || same_text(name, "upgrade") || same_text(name, "keep-alive") || same_text(
        name,
        "proxy-connection",
    )
}

/// The headers that are handed on, in order.
pub open spec fn kept_headers(headers: Seq<(Seq<char>, Seq<u8>)>) -> Seq<(Seq<char>, Seq<u8>)> {
    headers.filter(|h: (Seq<char>, Seq<u8>)| forwarded(h.0))
}

fn copy_bytes(v: &Vec<u8>) -> (r: Vec<u8>)
    ensures
        r@ == v@,
{
    let mut out: Vec<u8> = Vec::new();
    let mut i: usize = 0;
    while i < v.len()
        invariant
            i <= v@.len(),
            out@ == v@.take(i as int),
        decreases v@.len() - i,
    {
        out.push(v[i]);
        assert(v@.take(i + 1) =~= v@.take(i as int).push(v@[i as int]));
        i += 1;
    }
    assert(v@.take(i as int) =~= v@);
    out
}

/// Appends the headers that are handed on to others, in order.
pub fn copy_headers(src: &Vec<(String, Vec<u8>)>, dst: &mut Vec<(String, Vec<u8>)>)
    ensures
        wire::headers_view(final(dst)@) == wire::headers_view(old(dst)@) + kept_headers(
            wire::headers_view(src@),
        ),
{
    let ghost all = wire::headers_view(src@);
    let ghost start = wire::headers_view(dst@);
    let ghost pred = |h: (Seq<char>, Seq<u8>)| forwarded(h.0);
    let mut i: usize = 0;
    reveal(Seq::filter);
    assert(all.take(0) =~= Seq::empty());
    assert(start + all.take(0).filter(pred) =~= start);
    while i < src.len()
        invariant
            i <= src@.len(),
            all == wire::headers_view(src@),
            pred == (|h: (Seq<char>, Seq<u8>)| forwarded(h.0)),
            wire::headers_view(dst@) == start + all.take(i as int).filter(pred),
        decreases src@.len() - i,
    {
        reveal(Seq::filter);
        let h = &src[i];
        assert(all.take(i + 1).drop_last() =~= all.take(i as int));
        assert(all.take(i + 1).last() == (h.0@, h.1@));
        if !is_hop_by_hop(h.0.as_str()) && !same_text(h.0.as_str(), "host") {
            let ghost before = dst@;
            let item = (h.0.clone(), copy_bytes(&h.1));
            dst.push(item);
            assert(wire::headers_view(dst@) =~= wire::headers_view(before).push((h.0@, h.1@)));
        }
        i += 1;
    }
    assert(all.take(i as int) =~= all);
}

/// No header that concerns a single connection is handed on, and no other header but the
/// host is dropped.
pub proof fn only_hop_headers_are_dropped(
    headers: Seq<(Seq<char>, Seq<u8>)>,
    header: (Seq<char>, Seq<u8>),
)
    ensures
        kept_headers(headers).contains(header) <==> headers.contains(header) && !hop_by_hop(
            header.0,
        ) && header.0 != "host"@,
{
    let pred = |h: (Seq<char>, Seq<u8>)| forwarded(h.0);
    broadcast use vstd::seq_lib::group_filter_ensures;

    if headers.contains(header) && forwarded(header.0) {
        let i = choose|i: int| 0 <= i < headers.len() && headers[i] == header;
        assert(pred(headers[i]));
        headers.lemma_filter_contains(pred, i);
    }
    if kept_headers(headers).contains(header) {
        headers.lemma_filter_contains_rev(pred, header);
        let j = choose|j: int| 0 <= j < kept_headers(headers).len() && kept_headers(headers)[j]
            == header;
        assert(pred(headers.filter(pred)[j]));
    }
}

} // verus!
