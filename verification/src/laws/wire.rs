//! Laws of the requests and responses that pass through the proxy.

use vstd::prelude::*;
use crate::wire::{
    build_response, find_header, forwarded_headers, is_hop_by_hop, read_segment, returned_headers,
    should_strip_response_header, stays_behind, upstream_url, ClientRequest, Header, HeaderView,
    ProxyResponse, UpstreamRequest, UpstreamResponse,
};

verus! {

/// Whether a header is about one connection only.
pub open spec fn of_one_connection(name: Seq<char>) -> bool {
    seq![
        "connection"@,
        "keep-alive"@,
        "proxy-authenticate"@,
        "proxy-authorization"@,
        "te"@,
        "trailers"@,
        "transfer-encoding"@,
        "upgrade"@,
    ].contains(name)
}

/// Whether a header of a client goes to the homeserver.
pub open spec fn goes_up(name: Seq<char>, reframed: bool) -> bool {
    &&& !of_one_connection(name)
    &&& name != "host"@
    &&& name != "accept-encoding"@
    &&& !(reframed && name == "content-length"@)
}

/// Whether a header of the homeserver goes to a client.
pub open spec fn comes_down(name: Seq<char>) -> bool {
    &&& !of_one_connection(name)
    &&& name != "content-encoding"@
    &&& name != "content-length"@
}

/// The headers of one connection are those that are listed.
proof fn lemma_of_one_connection(name: Seq<char>)
    ensures
        of_one_connection(name) == crate::wire::hop_by_hop(name),
{
    let all = seq![
        "connection"@,
        "keep-alive"@,
        "proxy-authenticate"@,
        "proxy-authorization"@,
        "te"@,
        "trailers"@,
        "transfer-encoding"@,
        "upgrade"@,
    ];
    assert(all[0] == "connection"@ && all[1] == "keep-alive"@ && all[2] == "proxy-authenticate"@
        && all[3] == "proxy-authorization"@ && all[4] == "te"@ && all[5] == "trailers"@ && all[6]
        == "transfer-encoding"@ && all[7] == "upgrade"@);
}

/// The headers of a client that go up, in their order.
pub open spec fn going_up(headers: Seq<HeaderView>, reframed: bool) -> Seq<HeaderView> {
    headers.filter(|h: HeaderView| goes_up(h.0, reframed))
}

/// The headers of the homeserver that come down, in their order.
pub open spec fn coming_down(headers: Seq<HeaderView>) -> Seq<HeaderView> {
    headers.filter(|h: HeaderView| comes_down(h.0))
}

/// What goes up of a list of headers.
pub proof fn lemma_going_up(headers: Seq<HeaderView>, reframed: bool)
    ensures
        crate::wire::forwarded(headers, reframed) == going_up(headers, reframed),
    decreases headers.len(),
{
    reveal(Seq::filter);
    if headers.len() > 0 {
        lemma_going_up(headers.drop_last(), reframed);
        lemma_of_one_connection(headers.last().0);
    }
}

/// What comes down of a list of headers.
pub proof fn lemma_coming_down(headers: Seq<HeaderView>)
    ensures
        crate::wire::returned(headers) == coming_down(headers),
    decreases headers.len(),
{
    reveal(Seq::filter);
    if headers.len() > 0 {
        lemma_coming_down(headers.drop_last());
        lemma_of_one_connection(headers.last().0);
    }
}

/// Of the headers of a client go to the homeserver, unchanged and in their order, all but
/// those of one connection, the name of the host, the encodings that the client takes and,
/// where the body is framed anew, its length.
pub proof fn client_headers_go_up(headers: Vec<Header>, reframed: bool, r: Vec<Header>)
    requires
        call_ensures(forwarded_headers, (&headers, reframed), r),
    ensures
        crate::wire::header_views(r@) == going_up(crate::wire::header_views(headers@), reframed),
{
    lemma_going_up(crate::wire::header_views(headers@), reframed);
}

/// Of the headers of the homeserver go to a client, unchanged and in their order, all but
/// those of one connection and those of the body as it was packed.
pub proof fn homeserver_headers_come_down(headers: Vec<Header>, r: Vec<Header>)
    requires
        call_ensures(returned_headers, (&headers,), r),
    ensures
        crate::wire::header_views(r@) == coming_down(crate::wire::header_views(headers@)),
{
    lemma_coming_down(crate::wire::header_views(headers@));
}

/// A response to a client has the status of the homeserver, where HTTP knows it, the headers
/// that come down, and the body that it is given.
pub proof fn responses_are_passed_back(
    status: u16,
    headers: Vec<Header>,
    body: Vec<u8>,
    r: ProxyResponse,
)
    requires
        call_ensures(build_response, (status, &headers, body), r),
    ensures
        100 <= status < 1000 ==> r.status == status,
        !(100 <= status < 1000) ==> r.status == 500,
        crate::wire::header_views(r.headers@) == coming_down(
            crate::wire::header_views(headers@),
        ),
        r.body@ == body@,
{
    lemma_coming_down(crate::wire::header_views(headers@));
}

/// A response of the homeserver is a success where its status is in the two hundreds.
pub proof fn two_hundreds_are_success(response: UpstreamResponse, r: bool)
    requires
        call_ensures(UpstreamResponse::succeeded, (&response,), r),
    ensures
        r <==> 200 <= response.status <= 299,
{
}

/// The header that is found is the first with its name.
pub proof fn first_header_is_found(headers: Vec<Header>, name: &str, r: Option<&Vec<u8>>)
    requires
        call_ensures(find_header, (&headers, name), r),
    ensures
        match r {
            Some(v) => exists|i: int|
                0 <= i < headers@.len() && (#[trigger] headers@[i]).name@ == name@
                    && headers@[i].value@ == v@ && forall|j: int|
                    0 <= j < i ==> (#[trigger] headers@[j]).name@ != name@,
            None => forall|i: int|
                0 <= i < headers@.len() ==> (#[trigger] headers@[i]).name@ != name@,
        },
{
    lemma_first_header(headers@, name@);
}

/// The value of the first header with a name.
pub proof fn lemma_first_header(headers: Seq<Header>, name: Seq<char>)
    ensures
        match crate::wire::header_value(crate::wire::header_views(headers), name) {
            Some(v) => exists|i: int|
                0 <= i < headers.len() && (#[trigger] headers[i]).name@ == name
                    && headers[i].value@ == v && forall|j: int|
                    0 <= j < i ==> (#[trigger] headers[j]).name@ != name,
            None => forall|i: int|
                0 <= i < headers.len() ==> (#[trigger] headers[i]).name@ != name,
        },
    decreases headers.len(),
{
    let views = crate::wire::header_views(headers);
    if headers.len() > 0 {
        let rest = headers.drop_first();
        assert(views[0] == headers[0]@);
        assert(views.drop_first() =~= crate::wire::header_views(rest));
        lemma_first_header(rest, name);
        if headers[0].name@ != name {
            match crate::wire::header_value(views.drop_first(), name) {
                Some(v) => {
                    let i = choose|i: int|
                        0 <= i < rest.len() && (#[trigger] rest[i]).name@ == name
                            && rest[i].value@ == v && forall|j: int|
                            0 <= j < i ==> (#[trigger] rest[j]).name@ != name;
                    assert(headers[i + 1] == rest[i]);
                    assert forall|j: int| 0 <= j < i + 1 implies (#[trigger] headers[j]).name@
                        != name by {
                        if j > 0 {
                            assert(rest[j - 1] == headers[j]);
                        }
                    }
                },
                None => {
                    assert forall|i: int| 0 <= i < headers.len() implies (
                    #[trigger] headers[i]).name@ != name by {
                        if i > 0 {
                            assert(rest[i - 1] == headers[i]);
                        }
                    }
                },
            }
        }
    }
}

/// A target on the homeserver stands right behind the URL of the homeserver, whether that
/// ends in slashes or not.
pub proof fn targets_follow_the_homeserver(homeserver: &str, target: &str, r: String)
    requires
        call_ensures(upstream_url, (homeserver, target), r),
    ensures
        exists|n: nat|
            homeserver@ == (#[trigger] (r@.take(r@.len() - target@.len()) + slashes(n))),
        r@.len() >= target@.len(),
        r@.skip(r@.len() - target@.len()) == target@,
        r@.len() > target@.len() ==> r@[r@.len() - target@.len() - 1] != '/',
{
    let base = crate::text::strip_end(homeserver@, '/');
    lemma_slashes(homeserver@);
    assert(r@.take(r@.len() - target@.len()) =~= base);
    assert(r@.skip(r@.len() - target@.len()) =~= target@);
}

/// So many slashes.
pub open spec fn slashes(n: nat) -> Seq<char> {
    Seq::new(n, |i: int| '/')
}

/// A text is itself without the slashes at its end, and these.
proof fn lemma_slashes(s: Seq<char>)
    ensures
        exists|n: nat| s == #[trigger] (crate::text::strip_end(s, '/') + slashes(n)),
        crate::text::strip_end(s, '/').len() > 0 ==> crate::text::strip_end(s, '/').last() != '/',
    decreases s.len(),
{
    let base = crate::text::strip_end(s, '/');
    if s.len() > 0 && s.last() == '/' {
        lemma_slashes(s.drop_last());
        let n = choose|n: nat|
            s.drop_last() == #[trigger] (crate::text::strip_end(s.drop_last(), '/') + slashes(n));
        assert(s =~= s.drop_last().push('/'));
        assert((base + slashes(n)).push('/') =~= base + slashes(n + 1));
    } else {
        assert(s =~= base + slashes(0));
    }
}

/// A request of a client becomes one to the homeserver for the same target, with the headers
/// that go up and the body that it is given.
pub proof fn requests_keep_their_target(
    req: ClientRequest,
    homeserver: &str,
    method: &str,
    reframed: bool,
    body: Option<Vec<u8>>,
    r: UpstreamRequest,
)
    requires
        call_ensures(ClientRequest::upstream, (&req, homeserver, method, reframed, body), r),
    ensures
        r.method@ == method@,
        req.target matches Some(t) ==> r.url@ == crate::text::strip_end(homeserver@, '/') + t@,
        req.target is None ==> r.url@ == crate::text::strip_end(homeserver@, '/') + "/"@,
        crate::wire::header_views(r.headers@) == going_up(
            crate::wire::header_views(req.headers@),
            reframed,
        ),
        body is Some <==> r.body is Some,
        body matches Some(b) ==> r.body.unwrap()@ == b@,
{
    lemma_going_up(crate::wire::header_views(req.headers@), reframed);
}

/// Only a body that is not empty is sent on.
pub proof fn bodies_are_sent(req: ClientRequest, r: Option<Vec<u8>>)
    requires
        call_ensures(ClientRequest::body_to_send, (&req,), r),
    ensures
        r is None <==> req.body@.len() == 0,
        r matches Some(b) ==> b@ == req.body@,
{
}

/// A digit of a hexadecimal number, in small or capital letters.
pub open spec fn hex_digit(n: u8, capital: bool) -> u8 {
    if n < 10 {
        (0x30 + n) as u8
    } else if capital {
        (0x41 + (n - 10)) as u8
    } else {
        (0x61 + (n - 10)) as u8
    }
}

/// Bytes with each of them written as an escape.
pub open spec fn escaped(bytes: Seq<u8>, capital: bool) -> Seq<u8>
    decreases bytes.len(),
{
    if bytes.len() == 0 {
        Seq::empty()
    } else {
        seq![
            0x25u8,
            hex_digit((bytes[0] / 16) as u8, capital),
            hex_digit((bytes[0] % 16) as u8, capital),
        ] + escaped(bytes.drop_first(), capital)
    }
}

/// What was written in escapes is read again as it was, whatever follows it.
pub proof fn escapes_are_read(bytes: Seq<u8>, capital: bool, rest: Seq<u8>)
    ensures
        crate::wire::unescaped(escaped(bytes, capital) + rest) == bytes + crate::wire::unescaped(
            rest,
        ),
    decreases bytes.len(),
{
    if bytes.len() == 0 {
        assert(escaped(bytes, capital) + rest =~= rest);
        assert(bytes + crate::wire::unescaped(rest) =~= crate::wire::unescaped(rest));
    } else {
        let less = bytes.drop_first();
        escapes_are_read(less, capital, rest);
        let all = escaped(bytes, capital) + rest;
        let b = bytes[0];
        assert(all[0] == 0x25);
        assert(all[1] == hex_digit((b / 16) as u8, capital));
        assert(all[2] == hex_digit((b % 16) as u8, capital));
        assert(crate::wire::hex_value(all[1]) == Some((b / 16) as u8));
        assert(crate::wire::hex_value(all[2]) == Some((b % 16) as u8));
        assert((b / 16) * 16 + (b % 16) == b);
        assert(all.skip(3) =~= escaped(less, capital) + rest);
        assert(bytes + crate::wire::unescaped(rest) =~= seq![b] + (less
            + crate::wire::unescaped(rest)));
    }
}

/// Whether a byte is a digit of a hexadecimal number.
pub open spec fn is_hex(b: u8) -> bool {
    0x30 <= b <= 0x39 || 0x41 <= b <= 0x46 || 0x61 <= b <= 0x66
}

/// A byte that begins no escape stays, and what follows it is read on its own; a percent sign
/// begins one only in front of two hexadecimal digits.
pub proof fn broken_escapes_stay(bytes: Seq<u8>)
    requires
        bytes.len() > 0,
        bytes[0] != 0x25 || bytes.len() < 3 || !is_hex(bytes[1]) || !is_hex(bytes[2]),
    ensures
        crate::wire::unescaped(bytes) == seq![bytes[0]] + crate::wire::unescaped(bytes.skip(1)),
{
}

/// Bytes without a percent sign are read as they are.
pub proof fn plain_bytes_stay(bytes: Seq<u8>)
    requires
        !bytes.contains(0x25),
    ensures
        crate::wire::unescaped(bytes) == bytes,
    decreases bytes.len(),
{
    if bytes.len() > 0 {
        assert(bytes[0] != 0x25);
        assert(bytes.skip(1) =~= bytes.drop_first());
        assert forall|i: int| 0 <= i < bytes.skip(1).len() implies bytes.skip(1)[i] != 0x25 by {
            assert(bytes[i + 1] != 0x25);
        }
        plain_bytes_stay(bytes.skip(1));
        assert(bytes =~= seq![bytes[0]] + bytes.skip(1));
    }
}

/// A segment of a path says the text whose bytes its escapes stand for; one without a percent
/// sign says itself.
pub proof fn segments_are_read(segment: &str, r: String)
    requires
        call_ensures(read_segment, (segment,), r),
    ensures
        !segment@.contains('%') ==> r@ == segment@,
        segment@.contains('%') && vstd::utf8::valid_utf8(
            crate::wire::unescaped(vstd::utf8::encode_utf8(segment@)),
        ) ==> r@ == vstd::utf8::decode_utf8(
            crate::wire::unescaped(vstd::utf8::encode_utf8(segment@)),
        ),
        !vstd::utf8::valid_utf8(crate::wire::unescaped(vstd::utf8::encode_utf8(segment@)))
            ==> r@ == segment@,
{
}

/// A header stays behind on the way to the homeserver, or on the way to a client, exactly where
/// it is not one that goes that way.
pub proof fn headers_stay_behind(name: &str, reframed: bool, hop: bool, up: bool, down: bool)
    requires
        call_ensures(is_hop_by_hop, (name,), hop),
        call_ensures(stays_behind, (name, reframed), up),
        call_ensures(should_strip_response_header, (name,), down),
    ensures
        hop <==> of_one_connection(name@),
        up <==> !goes_up(name@, reframed),
        down <==> !comes_down(name@),
{
    lemma_of_one_connection(name@);
}

/// A value of visible characters of ASCII, spaces and tabs has these characters as its text.
pub proof fn visible_values_are_texts(text: Seq<char>)
    requires
        forall|i: int|
            0 <= i < text.len() ==> 32 <= (#[trigger] text[i]) as int <= 126 || text[i] as int == 9,
    ensures
        crate::wire::value_text(text.map_values(|c: char| c as u8)) == Some(text),
{
    let value = text.map_values(|c: char| c as u8);
    assert forall|i: int| 0 <= i < value.len() implies crate::wire::visible(#[trigger] value[i]) by {
        assert(value[i] == text[i] as u8);
    }
    let back = value.map_values(|b: u8| b as char);
    assert forall|i: int| 0 <= i < text.len() implies back[i] == text[i] by {
        assert(value[i] == text[i] as u8);
        assert(text[i] as int <= 126);
    }
    assert(back =~= text);
}

} // verus!
