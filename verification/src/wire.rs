//! HTTP requests and responses as plain values.

use vstd::prelude::*;
use crate::text::{find_char, same, trim_end_char};

verus! {

/// A header. Names are in lower case.
#[derive(Debug)]
pub struct Header {
    pub name: String,
    pub value: Vec<u8>,
}

/// What a header means.
pub type HeaderView = (Seq<char>, Seq<u8>);

impl View for Header {
    type V = HeaderView;

    open spec fn view(&self) -> HeaderView {
        (self.name@, self.value@)
    }
}

/// A request from a client of the proxy.
#[derive(Debug)]
pub struct ClientRequest {
    pub method: String,
    /// The path of the target.
    pub path: String,
    /// The query of the target, without the question mark.
    pub query: Option<String>,
    /// Path and query as they came.
    pub target: Option<String>,
    pub headers: Vec<Header>,
    pub body: Vec<u8>,
}

/// A request to the homeserver.
#[derive(Debug)]
pub struct UpstreamRequest {
    pub method: String,
    pub url: String,
    pub headers: Vec<Header>,
    pub body: Option<Vec<u8>>,
}

/// A response of the homeserver.
#[derive(Debug)]
pub struct UpstreamResponse {
    pub status: u16,
    pub headers: Vec<Header>,
    pub body: Vec<u8>,
}

/// A response to a client of the proxy.
#[derive(Debug)]
pub struct ProxyResponse {
    pub status: u16,
    pub headers: Vec<Header>,
    pub body: Vec<u8>,
}

/// What a request to the homeserver means.
#[verifier::ext_equal]
pub struct UpstreamView {
    pub method: Seq<char>,
    pub url: Seq<char>,
    pub headers: Seq<HeaderView>,
    pub body: Option<Seq<u8>>,
}

impl View for UpstreamRequest {
    type V = UpstreamView;

    open spec fn view(&self) -> UpstreamView {
        UpstreamView {
            method: self.method@,
            url: self.url@,
            headers: header_views(self.headers@),
            body: match self.body {
                Some(b) => Some(b@),
                None => None,
            },
        }
    }
}

/// What a response means.
#[verifier::ext_equal]
pub struct ResponseView {
    pub status: nat,
    pub headers: Seq<HeaderView>,
    pub body: Seq<u8>,
}

impl View for UpstreamResponse {
    type V = ResponseView;

    open spec fn view(&self) -> ResponseView {
        ResponseView {
            status: self.status as nat,
            headers: header_views(self.headers@),
            body: self.body@,
        }
    }
}

impl View for ProxyResponse {
    type V = ResponseView;

    open spec fn view(&self) -> ResponseView {
        ResponseView {
            status: self.status as nat,
            headers: header_views(self.headers@),
            body: self.body@,
        }
    }
}

/// What a list of headers means.
pub open spec fn header_views(headers: Seq<Header>) -> Seq<HeaderView> {
    headers.map_values(|h: Header| h@)
}

/// Whether a status stands for success.
pub open spec fn is_success(status: nat) -> bool {
    200 <= status < 300
}

impl UpstreamResponse {
    /// Whether the homeserver did what it was asked.
    pub fn succeeded(&self) -> (r: bool)
        ensures
            r == is_success(self@.status),
    {
        200 <= self.status && self.status < 300
    }
}

/// The names of the headers that concern one connection only.
pub open spec fn hop_by_hop(name: Seq<char>) -> bool {
    ||| name == "connection"@
    ||| name == "keep-alive"@
    ||| name == "proxy-authenticate"@
    ||| name == "proxy-authorization"@
    ||| name == "te"@
    ||| name == "trailers"@
    ||| name == "transfer-encoding"@
    ||| name == "upgrade"@
}

/// Whether a header concerns one connection only.
pub fn is_hop_by_hop(name: &str) -> (r: bool)
    ensures
        r == hop_by_hop(name@),
{
    same(name, "connection") || same(name, "keep-alive") || same(name, "proxy-authenticate")
        || same(name, "proxy-authorization") || same(name, "te") || same(name, "trailers") || same(
        name,
        "transfer-encoding",
    ) || same(name, "upgrade")
}

/// Whether a header of a client stays behind: those of one connection, the name of the
/// host, the encodings that the client takes, since answers reach it unpacked, and, where
/// the body is framed anew, its length.
pub open spec fn held_back(name: Seq<char>, reframed: bool) -> bool {
    ||| hop_by_hop(name)
    ||| name == "host"@
    ||| name == "accept-encoding"@
    ||| reframed && name == "content-length"@
}

/// Whether a header of a client stays behind.
pub fn stays_behind(name: &str, reframed: bool) -> (r: bool)
    ensures
        r == held_back(name@, reframed),
{
    is_hop_by_hop(name) || same(name, "host") || same(name, "accept-encoding") || (reframed && same(
        name,
        "content-length",
    ))
}

/// The digit that a byte stands for in a hexadecimal number.
pub open spec fn hex_value(b: u8) -> Option<u8> {
    if 0x30 <= b <= 0x39 {
        Some((b - 0x30) as u8)
    } else if 0x41 <= b <= 0x46 {
        Some((b - 0x37) as u8)
    } else if 0x61 <= b <= 0x66 {
        Some((b - 0x57) as u8)
    } else {
        None
    }
}

/// The byte that a percent sign and two hexadecimal digits in front of some bytes stand for.
pub open spec fn escape_in_front(bytes: Seq<u8>) -> Option<u8> {
    if bytes.len() >= 3 && bytes[0] == 0x25 {
        match (hex_value(bytes[1]), hex_value(bytes[2])) {
            (Some(high), Some(low)) => Some((high * 16 + low) as u8),
            _ => None,
        }
    } else {
        None
    }
}

/// Some bytes with the escapes in them replaced by what they stand for.
pub open spec fn unescaped(bytes: Seq<u8>) -> Seq<u8>
    decreases bytes.len(),
{
    if bytes.len() == 0 {
        Seq::empty()
    } else {
        match escape_in_front(bytes) {
            Some(b) => seq![b] + unescaped(bytes.skip(3)),
            None => seq![bytes[0]] + unescaped(bytes.skip(1)),
        }
    }
}

/// What a segment of a path says: its text without the escapes, where that is a text.
pub open spec fn segment_text(segment: Seq<char>) -> Seq<char> {
    let bytes = unescaped(vstd::utf8::encode_utf8(segment));
    if segment.contains('%') && vstd::utf8::valid_utf8(bytes) {
        vstd::utf8::decode_utf8(bytes)
    } else {
        segment
    }
}

/// `String::from_utf8`: it accepts bytes that are UTF-8, and gives the text that they
/// encode.
#[verifier::external_body]
fn text_of_bytes(bytes: Vec<u8>) -> (r: Option<String>)
    ensures
        r is Some <==> vstd::utf8::valid_utf8(bytes@),
        r matches Some(s) ==> s@ == vstd::utf8::decode_utf8(bytes@),
{
    String::from_utf8(bytes).ok()
}

/// The digit that a byte stands for in a hexadecimal number.
fn hex_digit(b: u8) -> (r: Option<u8>)
    ensures
        r == hex_value(b),
        r matches Some(d) ==> d < 16,
{
    if 0x30 <= b && b <= 0x39 {
        Some(b - 0x30)
    } else if 0x41 <= b && b <= 0x46 {
        Some(b - 0x37)
    } else if 0x61 <= b && b <= 0x66 {
        Some(b - 0x57)
    } else {
        None
    }
}

/// The byte that an escape at a place stands for.
fn escape_at(bytes: &Vec<u8>, i: usize) -> (r: Option<u8>)
    requires
        i <= bytes@.len(),
    ensures
        r == escape_in_front(bytes@.skip(i as int)),
{
    if bytes.len() - i >= 3 && bytes[i] == 0x25 {
        match (hex_digit(bytes[i + 1]), hex_digit(bytes[i + 2])) {
            (Some(high), Some(low)) => Some(high * 16 + low),
            _ => None,
        }
    } else {
        None
    }
}

/// What a segment of a path says.
pub fn read_segment(segment: &str) -> (r: String)
    ensures
        r@ == segment_text(segment@),
{
    if find_char(segment, '%').is_none() {
        return segment.to_owned();
    }
    let bytes = text_bytes(segment);
    let mut out: Vec<u8> = Vec::new();
    let mut i: usize = 0;
    assert(bytes@.skip(0) == bytes@);
    assert(out@ + unescaped(bytes@) =~= unescaped(bytes@));
    while i < bytes.len()
        invariant
            i <= bytes@.len(),
            out@ + unescaped(bytes@.skip(i as int)) == unescaped(bytes@),
        decreases bytes@.len() - i,
    {
        let ghost rest = bytes@.skip(i as int);
        let ghost before = out@;
        match escape_at(&bytes, i) {
            Some(b) => {
                out.push(b);
                assert(rest.skip(3) == bytes@.skip(i + 3));
                assert(out@ + unescaped(rest.skip(3)) =~= before + (seq![b] + unescaped(
                    rest.skip(3),
                )));
                i = i + 3;
            },
            None => {
                out.push(bytes[i]);
                assert(rest[0] == bytes@[i as int]);
                assert(rest.skip(1) == bytes@.skip(i + 1));
                assert(out@ + unescaped(rest.skip(1)) =~= before + (seq![rest[0]] + unescaped(
                    rest.skip(1),
                )));
                i = i + 1;
            },
        }
    }
    assert(out@ + unescaped(bytes@.skip(i as int)) =~= out@);
    match text_of_bytes(out) {
        Some(text) => text,
        None => segment.to_owned(),
    }
}

/// The headers of a client that go to the homeserver.
pub open spec fn forwarded(headers: Seq<HeaderView>, reframed: bool) -> Seq<HeaderView>
    decreases headers.len(),
{
    if headers.len() == 0 {
        Seq::empty()
    } else {
        let before = forwarded(headers.drop_last(), reframed);
        if held_back(headers.last().0, reframed) {
            before
        } else {
            before.push(headers.last())
        }
    }
}

/// The names of the headers of the homeserver that do not go to the client: those of
/// one connection, and those that describe a body as it was before it was unpacked.
pub open spec fn stripped(name: Seq<char>) -> bool {
    hop_by_hop(name) || name == "content-encoding"@ || name == "content-length"@
}

/// The headers of the homeserver that go to the client.
pub open spec fn returned(headers: Seq<HeaderView>) -> Seq<HeaderView>
    decreases headers.len(),
{
    if headers.len() == 0 {
        Seq::empty()
    } else {
        let before = returned(headers.drop_last());
        if stripped(headers.last().0) {
            before
        } else {
            before.push(headers.last())
        }
    }
}

/// A header that goes to the homeserver is one that came from the client and is not
/// held back; and every such header goes.
pub proof fn headers_forwarded(headers: Seq<HeaderView>, reframed: bool, header: HeaderView)
    ensures
        forwarded(headers, reframed).contains(header) <==> headers.contains(header) && !held_back(
            header.0,
            reframed,
        ),
    decreases headers.len(),
{
    if headers.len() > 0 {
        let before = headers.drop_last();
        let list = forwarded(before, reframed);
        let last = headers.last();
        headers_forwarded(before, reframed, header);
        lemma_pushed(list, last, header);
        lemma_pushed(before, last, header);
        assert(before.push(last) == headers);
    }
}

/// A header that goes to the client is one that came from the homeserver and is not
/// stripped; and every such header goes.
pub proof fn headers_returned(headers: Seq<HeaderView>, header: HeaderView)
    ensures
        returned(headers).contains(header) <==> headers.contains(header) && !stripped(header.0),
    decreases headers.len(),
{
    if headers.len() > 0 {
        let before = headers.drop_last();
        let list = returned(before);
        let last = headers.last();
        headers_returned(before, header);
        lemma_pushed(list, last, header);
        lemma_pushed(before, last, header);
        assert(before.push(last) == headers);
    }
}

/// What a longer list holds.
proof fn lemma_pushed(list: Seq<HeaderView>, last: HeaderView, header: HeaderView)
    ensures
        list.push(last).contains(header) <==> list.contains(header) || last == header,
{
    if list.contains(header) {
        let i = choose|i: int| 0 <= i < list.len() && list[i] == header;
        assert(list.push(last)[i] == header);
    }
    assert(list.push(last)[list.len() as int] == last);
}

/// Whether a header must not go to a client.
pub fn should_strip_response_header(name: &str) -> (r: bool)
    ensures
        r == stripped(name@),
{
    is_hop_by_hop(name) || same(name, "content-encoding") || same(name, "content-length")
}

/// A copy of a list of bytes.
pub fn copy_bytes(bytes: &Vec<u8>) -> (r: Vec<u8>)
    ensures
        r@ == bytes@,
{
    let mut out: Vec<u8> = Vec::new();
    let mut i: usize = 0;
    while i < bytes.len()
        invariant
            i <= bytes@.len(),
            out@ == bytes@.take(i as int),
        decreases bytes@.len() - i,
    {
        out.push(bytes[i]);
        assert(out@ =~= bytes@.take(i + 1));
        i = i + 1;
    }
    assert(bytes@.take(i as int) == bytes@);
    out
}

/// A header with a text as its value.
pub fn text_header(name: &str, value: &str) -> (r: Header)
    ensures
        r@ == (name@, vstd::utf8::encode_utf8(value@)),
{
    Header { name: name.to_owned(), value: text_bytes(value) }
}

/// The bytes of a text.
pub fn text_bytes(s: &str) -> (r: Vec<u8>)
    ensures
        r@ == vstd::utf8::encode_utf8(s@),
{
    let bytes = s.as_bytes();
    let mut out: Vec<u8> = Vec::new();
    let mut i: usize = 0;
    while i < bytes.len()
        invariant
            i <= bytes@.len(),
            out@ == bytes@.take(i as int),
        decreases bytes@.len() - i,
    {
        out.push(bytes[i]);
        assert(out@ =~= bytes@.take(i + 1));
        i = i + 1;
    }
    assert(bytes@.take(i as int) == bytes@);
    out
}

/// The headers of a client that go to the homeserver.
pub fn forwarded_headers(headers: &Vec<Header>, reframed: bool) -> (r: Vec<Header>)
    ensures
        header_views(r@) == forwarded(header_views(headers@), reframed),
{
    let mut out: Vec<Header> = Vec::new();
    let ghost all = header_views(headers@);
    let mut i: usize = 0;
    assert(header_views(out@) =~= forwarded(all.take(0), reframed));
    while i < headers.len()
        invariant
            i <= headers@.len(),
            all == header_views(headers@),
            header_views(out@) == forwarded(all.take(i as int), reframed),
        decreases headers@.len() - i,
    {
        let name = headers[i].name.as_str();
        assert(all.take(i + 1).drop_last() == all.take(i as int));
        assert(all.take(i + 1).last() == headers@[i as int]@);
        if !stays_behind(name, reframed) {
            let ghost before = header_views(out@);
            out.push(Header { name: name.to_owned(), value: copy_bytes(&headers[i].value) });
            assert(header_views(out@) =~= before.push(headers@[i as int]@));
        }
        i = i + 1;
    }
    assert(all.take(i as int) == all);
    out
}

/// The headers of the homeserver that go to the client.
pub fn returned_headers(headers: &Vec<Header>) -> (r: Vec<Header>)
    ensures
        header_views(r@) == returned(header_views(headers@)),
{
    let mut out: Vec<Header> = Vec::new();
    let ghost all = header_views(headers@);
    let mut i: usize = 0;
    assert(header_views(out@) =~= returned(all.take(0)));
    while i < headers.len()
        invariant
            i <= headers@.len(),
            all == header_views(headers@),
            header_views(out@) == returned(all.take(i as int)),
        decreases headers@.len() - i,
    {
        assert(all.take(i + 1).drop_last() == all.take(i as int));
        assert(all.take(i + 1).last() == headers@[i as int]@);
        if !should_strip_response_header(headers[i].name.as_str()) {
            let ghost before = header_views(out@);
            out.push(
                Header { name: headers[i].name.clone(), value: copy_bytes(&headers[i].value) },
            );
            assert(header_views(out@) =~= before.push(headers@[i as int]@));
        }
        i = i + 1;
    }
    assert(all.take(i as int) == all);
    out
}

/// A status that HTTP knows, or else 500.
pub open spec fn known_status(status: nat) -> nat {
    if 100 <= status < 1000 {
        status
    } else {
        500
    }
}

/// The response to a client for a response of the homeserver with a body of its own.
pub open spec fn answered(response: ResponseView, body: Seq<u8>) -> ResponseView {
    ResponseView {
        status: known_status(response.status),
        headers: returned(response.headers),
        body,
    }
}

/// The response to a client for a response of the homeserver.
pub fn build_response(status: u16, headers: &Vec<Header>, body: Vec<u8>) -> (r: ProxyResponse)
    ensures
        r@ == answered(
            (ResponseView { status: status as nat, headers: header_views(headers@), body: body@ }),
            body@,
        ),
{
    let known: u16 = if 100 <= status && status < 1000 { status } else { 500 };
    ProxyResponse { status: known, headers: returned_headers(headers), body }
}

/// The value of the first header with a name.
pub open spec fn header_value(headers: Seq<HeaderView>, name: Seq<char>) -> Option<Seq<u8>>
    decreases headers.len(),
{
    if headers.len() == 0 {
        None
    } else if headers[0].0 == name {
        Some(headers[0].1)
    } else {
        header_value(headers.drop_first(), name)
    }
}

/// The value of the first header with a name.
pub fn find_header<'a>(headers: &'a Vec<Header>, name: &str) -> (r: Option<&'a Vec<u8>>)
    ensures
        r is Some <==> header_value(header_views(headers@), name@) is Some,
        r matches Some(v) ==> header_value(header_views(headers@), name@) == Some(v@),
{
    let ghost all = header_views(headers@);
    let mut i: usize = 0;
    assert(all.skip(0) == all);
    while i < headers.len()
        invariant
            i <= headers@.len(),
            all == header_views(headers@),
            header_value(all.skip(i as int), name@) == header_value(all, name@),
        decreases headers@.len() - i,
    {
        assert(all.skip(i as int)[0] == headers@[i as int]@);
        assert(all.skip(i as int).drop_first() == all.skip(i + 1));
        if same(headers[i].name.as_str(), name) {
            return Some(&headers[i].value);
        }
        i = i + 1;
    }
    None
}

/// Whether a byte is a visible character of ASCII, a space or a tab.
pub open spec fn visible(b: u8) -> bool {
    (32 <= b && b < 127) || b == 9
}

/// The text of the value of a header, where all of it is visible.
pub open spec fn value_text(value: Seq<u8>) -> Option<Seq<char>> {
    if forall|i: int| 0 <= i < value.len() ==> visible(#[trigger] value[i]) {
        Some(value.map_values(|b: u8| b as char))
    } else {
        None
    }
}

/// `http::HeaderValue::to_str`: a value has a text where every byte is a visible
/// character of ASCII, a space or a tab, and the text is these characters.
#[verifier::external_body]
pub(crate) fn header_text(value: &Vec<u8>) -> (r: Option<String>)
    ensures
        r is Some <==> value_text(value@) is Some,
        r matches Some(s) ==> value_text(value@) == Some(s@),
{
    let value = http::HeaderValue::from_bytes(value).ok()?;
    value.to_str().ok().map(str::to_owned)
}

/// The URL of the homeserver without a slash at its end.
pub open spec fn base_of(homeserver: Seq<char>) -> Seq<char> {
    crate::text::strip_end(homeserver, '/')
}

/// The URL of a target on the homeserver.
pub fn upstream_url(homeserver: &str, target: &str) -> (r: String)
    ensures
        r@ == base_of(homeserver@) + target@,
{
    trim_end_char(homeserver, '/').to_owned().concat(target)
}

/// The target of a request, or `/` where it has none.
pub open spec fn target_of(target: Option<String>) -> Seq<char> {
    match target {
        Some(t) => t@,
        None => "/"@,
    }
}

impl ClientRequest {
    /// The request to the homeserver that this request becomes.
    pub open spec fn to_upstream(
        self,
        homeserver: Seq<char>,
        method: Seq<char>,
        reframed: bool,
        body: Option<Seq<u8>>,
    ) -> UpstreamView {
        UpstreamView {
            method,
            url: base_of(homeserver) + target_of(self.target),
            headers: forwarded(header_views(self.headers@), reframed),
            body,
        }
    }

    /// The target of the request, or `/` where it has none.
    pub fn target_or_root(&self) -> (r: &str)
        ensures
            r@ == target_of(self.target),
    {
        match &self.target {
            Some(t) => t.as_str(),
            None => "/",
        }
    }

    /// The request to the homeserver that this request becomes.
    pub fn upstream(
        &self,
        homeserver: &str,
        method: &str,
        reframed: bool,
        body: Option<Vec<u8>>,
    ) -> (r: UpstreamRequest)
        ensures
            r@ == self.to_upstream(
                homeserver@,
                method@,
                reframed,
                match body {
                    Some(b) => Some(b@),
                    None => None,
                },
            ),
    {
        UpstreamRequest {
            method: method.to_owned(),
            url: upstream_url(homeserver, self.target_or_root()),
            headers: forwarded_headers(&self.headers, reframed),
            body,
        }
    }

    /// The body, where it is not empty.
    pub open spec fn sent_body(self) -> Option<Seq<u8>> {
        if self.body@.len() == 0 {
            None
        } else {
            Some(self.body@)
        }
    }

    /// The body, where it is not empty.
    pub fn body_to_send(&self) -> (r: Option<Vec<u8>>)
        ensures
            r is Some <==> self.sent_body() is Some,
            r matches Some(b) ==> self.sent_body() == Some(b@),
    {
        if self.body.len() == 0 {
            None
        } else {
            Some(copy_bytes(&self.body))
        }
    }
}

} // verus!
