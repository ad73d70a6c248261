//! The document store and the answer to a request.

use crate::cli::{socket_address, Args};
use crate::codec::{gzip_best, gzip_best_of, gzip_decode, gzip_decoded, md5_digest, md5_of};
use crate::http::{header_pairs, header_value, Header};
use crate::lifecycle::ListenerMode;
use crate::metrics::Metrics;
use crate::text::{
    bytes_eq, contains_bytes, decimal, find_bytes, header_text, hex_lower, is_header_text,
    push_decimal, push_hex_lower,
};
use std::time::Instant;
use vstd::prelude::*;
use vstd::slice::slice_to_vec;
use vstd::string::*;
use vstd::utf8::encode_utf8;

verus! {

/// The validator of a document: the lowercase hexadecimal MD5 digest of its
/// bytes, between double quotes.
pub open spec fn etag_of(document: Seq<u8>) -> Seq<char> {
    seq!['"'] + hex_lower(md5_digest(document)) + seq!['"']
}

/// Every representation of the one document, computed once and never
/// changed afterwards.
pub struct AppState {
    pub etag: String,
    pub compressed_content_length: usize,
    pub uncompressed_content_length: usize,
    pub compressed_content: Vec<u8>,
    pub uncompressed_content: Vec<u8>,
}

/// An `AppState` as plain mathematical values.
pub struct AppStateView {
    pub etag: Seq<char>,
    pub compressed_length: nat,
    pub uncompressed_length: nat,
    pub compressed: Seq<u8>,
    pub uncompressed: Seq<u8>,
}

impl AppStateView {
    /// The store's fields belong together: validator and compressed
    /// representation are those of the document, the compressed one decodes
    /// back to it, and the two lengths are the true ones.
    pub open spec fn wf(self) -> bool {
        &&& self.etag == etag_of(self.uncompressed)
        &&& self.compressed == gzip_best(self.uncompressed)
        &&& gzip_decoded(self.compressed) == Some(self.uncompressed)
        &&& self.compressed_length == self.compressed.len()
        &&& self.uncompressed_length == self.uncompressed.len()
    }
}

impl View for AppState {
    type V = AppStateView;

    open spec fn view(&self) -> AppStateView {
        AppStateView {
            etag: self.etag@,
            compressed_length: self.compressed_content_length as nat,
            uncompressed_length: self.uncompressed_content_length as nat,
            compressed: self.compressed_content@,
            uncompressed: self.uncompressed_content@,
        }
    }
}

impl AppState {
    /// Builds the store of the document whose text is `content`.
    pub fn new(content: String) -> (state: AppState)
        ensures
            state@.wf(),
            state@.uncompressed == encode_utf8(content@),
            state@.etag == etag_of(encode_utf8(content@)),
            state@.etag.len() == 34,
            gzip_decoded(state@.compressed) == Some(encode_utf8(content@)),
    {
        let document: &[u8] = content.as_str().as_bytes();
        let digest: [u8; 16] = md5_of(document);
        let mut etag = String::new();
        proof {
            reveal_strlit("\"");
        }
        etag.append("\"");
        push_hex_lower(&mut etag, digest.as_slice());
        etag.append("\"");
        let compressed_content = gzip_best_of(document);
        let uncompressed_content = slice_to_vec(document);
        let state = AppState {
            compressed_content_length: compressed_content.len(),
            uncompressed_content_length: uncompressed_content.len(),
            etag,
            compressed_content,
            uncompressed_content,
        };
        proof {
            assert("\""@ =~= seq!['"']);
            assert(state@.etag =~= etag_of(state@.uncompressed));
        }
        state
    }
}

/// What the server reads of a request: the method, and the values of the
/// `If-None-Match` and `Accept-Encoding` headers as the bytes that came.
#[derive(Clone, Copy, Debug)]
pub struct Request<'a> {
    pub method: &'a str,
    pub if_none_match: Option<&'a [u8]>,
    pub accept_encoding: Option<&'a [u8]>,
}

/// A `Request` as plain mathematical values.
pub struct RequestView {
    pub method: Seq<char>,
    pub if_none_match: Option<Seq<u8>>,
    pub accept_encoding: Option<Seq<u8>>,
}

impl<'a> View for Request<'a> {
    type V = RequestView;

    open spec fn view(&self) -> RequestView {
        RequestView {
            method: self.method@,
            if_none_match: match self.if_none_match {
                Some(value) => Some(value@),
                None => None,
            },
            accept_encoding: match self.accept_encoding {
                Some(value) => Some(value@),
                None => None,
            },
        }
    }
}

/// Which representation of the document answers a request.
#[derive(Clone, Copy, Debug, PartialEq, Eq)]
pub enum Representation {
    /// None: the client's copy is current.
    NotModified,
    /// The document's own bytes.
    Identity,
    /// The gzip stream of the document.
    Gzip,
}

/// A response: status, headers in the order they are sent, and the body,
/// which is borrowed from the store and never copied.
#[derive(Debug)]
pub struct Response<'a> {
    pub status: u16,
    pub representation: Representation,
    pub headers: Vec<Header>,
    pub body: &'a [u8],
}

/// A `Response` as plain mathematical values; a header is a pair of name and
/// value.
pub struct ResponseView {
    pub status: u16,
    pub representation: Representation,
    pub headers: Seq<(Seq<char>, Seq<char>)>,
    pub body: Seq<u8>,
}

impl<'a> View for Response<'a> {
    type V = ResponseView;

    open spec fn view(&self) -> ResponseView {
        ResponseView {
            status: self.status,
            representation: self.representation,
            headers: header_pairs(self.headers@),
            body: self.body@,
        }
    }
}

/// The bytes `gzip`, the token looked for in `Accept-Encoding`.
pub open spec fn gzip_token() -> Seq<u8> {
    seq![0x67u8, 0x7au8, 0x69u8, 0x70u8]
}

/// The request carries a validator and it is, byte for byte, the store's.
pub open spec fn validator_matches(state: AppStateView, req: RequestView) -> bool {
    req.if_none_match == Some(encode_utf8(state.etag))
}

/// The request's `Accept-Encoding` is text and holds `gzip` somewhere.
pub open spec fn accepts_gzip(req: RequestView) -> bool {
    match req.accept_encoding {
        Some(value) => is_header_text(value) && contains_bytes(value, gzip_token()),
        None => false,
    }
}

/// The representation that answers `req`: none where the validator matches,
/// whatever the request accepts; else gzip where it is accepted; else the
/// document's own bytes.
pub open spec fn negotiated(state: AppStateView, req: RequestView) -> Representation {
    if validator_matches(state, req) {
        Representation::NotModified
    } else if accepts_gzip(req) {
        Representation::Gzip
    } else {
        Representation::Identity
    }
}

/// The headers of a response that carries the document.
pub open spec fn content_headers(etag: Seq<char>, length: nat, encoding: Seq<char>) -> Seq<
    (Seq<char>, Seq<char>),
> {
    seq![
        ("Content-Type"@, "text/html"@),
        ("Cache-Control"@, "public, max-age=3600, must-revalidate"@),
        ("ETag"@, etag),
        ("Content-Length"@, decimal(length)),
        ("Content-Encoding"@, encoding),
    ]
}

/// The response that carries `representation` of the store's document.
pub open spec fn response_of(state: AppStateView, representation: Representation) -> ResponseView {
    match representation {
        Representation::NotModified => ResponseView {
            status: 304,
            representation,
            headers: Seq::empty(),
            body: Seq::empty(),
        },
        Representation::Identity => ResponseView {
            status: 200,
            representation,
            headers: content_headers(state.etag, state.uncompressed_length, "identity"@),
            body: state.uncompressed,
        },
        Representation::Gzip => ResponseView {
            status: 200,
            representation,
            headers: content_headers(state.etag, state.compressed_length, "gzip"@),
            body: state.compressed,
        },
    }
}

/// Chooses the representation that answers `req`.
pub fn negotiate(req: &Request<'_>, state: &AppState) -> (representation: Representation)
    ensures
        representation == negotiated(state@, req@),
{
    if let Some(validator) = req.if_none_match {
        if bytes_eq(validator, state.etag.as_str().as_bytes()) {
            return Representation::NotModified;
        }
    }
    if let Some(value) = req.accept_encoding {
        let token: [u8; 4] = [0x67, 0x7a, 0x69, 0x70];
        assert(token@ =~= gzip_token());
        if header_text(value) && find_bytes(value, token.as_slice()) {
            return Representation::Gzip;
        }
    }
    Representation::Identity
}

/// The five headers of a response that carries the document.
fn make_content_headers(etag: &String, length: usize, encoding: &'static str) -> (headers: Vec<
    Header,
>)
    ensures
        header_pairs(headers@) == content_headers(etag@, length as nat, encoding@),
{
    let mut length_text = String::new();
    push_decimal(&mut length_text, length as u64);
    let mut headers: Vec<Header> = Vec::new();
    headers.push(Header { name: "Content-Type", value: "text/html".to_owned() });
    headers.push(
        Header {
            name: "Cache-Control",
            value: "public, max-age=3600, must-revalidate".to_owned(),
        },
    );
    headers.push(Header { name: "ETag", value: etag.clone() });
    headers.push(Header { name: "Content-Length", value: length_text });
    headers.push(Header { name: "Content-Encoding", value: encoding.to_owned() });
    proof {
        assert(length_text@ =~= decimal(length as nat));
        assert(header_pairs(headers@) =~= content_headers(etag@, length as nat, encoding@));
    }
    headers
}

/// Builds the response that carries `representation` of the document.
pub fn build_response<'a>(state: &'a AppState, representation: Representation) -> (response:
    Response<'a>)
    ensures
        response@ == response_of(state@, representation),
{
    match representation {
        Representation::NotModified => {
            let nothing: &'a [u8] = vstd::slice::slice_subrange(
                state.uncompressed_content.as_slice(),
                0,
                0,
            );
            let response = Response { status: 304, representation, headers: Vec::new(), body: nothing };
            assert(response@.headers =~= Seq::empty());
            assert(response@.body =~= Seq::empty());
            response
        },
        Representation::Identity => Response {
            status: 200,
            representation,
            headers: make_content_headers(
                &state.etag,
                state.uncompressed_content_length,
                "identity",
            ),
            body: state.uncompressed_content.as_slice(),
        },
        Representation::Gzip => Response {
            status: 200,
            representation,
            headers: make_content_headers(&state.etag, state.compressed_content_length, "gzip"),
            body: state.compressed_content.as_slice(),
        },
    }
}

/// Answers `req` from the store: the response of the negotiated
/// representation.
pub fn respond<'a>(req: &Request<'_>, state: &'a AppState) -> (response: Response<'a>)
    ensures
        response@ == response_of(state@, negotiated(state@, req@)),
{
    build_response(state, negotiate(req, state))
}

/// The document that a response hands to the client, as the client reads it:
/// the body itself, or what the body decodes to where it is gzip; nothing
/// where the response carries no representation or the body does not decode.
pub open spec fn carried_document(response: ResponseView) -> Option<Seq<u8>> {
    match response.representation {
        Representation::NotModified => None,
        Representation::Identity => Some(response.body),
        Representation::Gzip => gzip_decoded(response.body),
    }
}

impl<'a> Response<'a> {
    /// Reads the document out of the response as a client would.
    pub fn document(&self) -> (document: Option<Vec<u8>>)
        ensures
            match document {
                Some(bytes) => carried_document(self@) == Some(bytes@),
                None => carried_document(self@) is None,
            },
    {
        match self.representation {
            Representation::NotModified => None,
            Representation::Identity => Some(slice_to_vec(self.body)),
            Representation::Gzip => gzip_decode(self.body),
        }
    }
}

/// Handles one request: counts it, answers it from the store, and records
/// the answer's status with the time the handling took.
pub fn handle_request<'a>(req: &Request<'_>, state: &'a AppState, metrics: &mut Metrics) -> (response:
    Response<'a>)
    ensures
        response@ == response_of(state@, negotiated(state@, req@)),
        exists|nanos: nat|
            final(metrics)@ == #[trigger] old(metrics)@.begin(req.method@).end(
                req.method@,
                response.status,
                nanos,
            ),
{
    let start = Instant::now();
    metrics.record_request(req.method);
    let response = respond(req, state);
    metrics.record_response(req.method, response.status, start);
    response
}

/// Two stores of the same document have the same validator and the same
/// compressed representation.
pub proof fn lemma_same_document_same_store(a: AppStateView, b: AppStateView)
    requires
        a.wf(),
        b.wf(),
        a.uncompressed == b.uncompressed,
    ensures
        a == b,
{
}

/// The compressed representation of a store decodes to the uncompressed one.
pub proof fn lemma_compressed_decodes(state: AppStateView)
    requires
        state.wf(),
    ensures
        gzip_decoded(state.compressed) == Some(state.uncompressed),
{
}

/// What a response that carries the document says in its headers: the type
/// `text/html`, the caching rule, the validator, the length and the encoding.
pub proof fn lemma_content_headers(etag: Seq<char>, length: nat, encoding: Seq<char>)
    ensures
        ({
            let headers = content_headers(etag, length, encoding);
            &&& header_value(headers, "Content-Type"@) == Some("text/html"@)
            &&& header_value(headers, "Cache-Control"@) == Some(
                "public, max-age=3600, must-revalidate"@,
            )
            &&& header_value(headers, "ETag"@) == Some(etag)
            &&& header_value(headers, "Content-Length"@) == Some(decimal(length))
            &&& header_value(headers, "Content-Encoding"@) == Some(encoding)
        }),
{
    reveal_strlit("Content-Type");
    reveal_strlit("Cache-Control");
    reveal_strlit("ETag");
    reveal_strlit("Content-Length");
    reveal_strlit("Content-Encoding");
    let content_type = "Content-Type"@;
    let cache_control = "Cache-Control"@;
    let validator = "ETag"@;
    let content_length = "Content-Length"@;
    let content_encoding = "Content-Encoding"@;
    assert(content_type[1] != cache_control[1]);
    assert(content_type[0] != validator[0]);
    assert(cache_control[0] != validator[0]);
    assert(content_type[8] != content_length[8]);
    assert(cache_control[1] != content_length[1]);
    assert(content_type[8] != content_encoding[8]);
    assert(cache_control[1] != content_encoding[1]);
    assert(content_length[8] != content_encoding[8]);
    let h0 = content_headers(etag, length, encoding);
    let h1 = h0.drop_first();
    let h2 = h1.drop_first();
    let h3 = h2.drop_first();
    let h4 = h3.drop_first();
    assert(h0[0].0 == content_type);
    assert(h1[0] == h0[1] && h1[0].0 == cache_control);
    assert(h2[0] == h0[2] && h2[0].0 == validator);
    assert(h3[0] == h0[3] && h3[0].0 == content_length);
    assert(h4[0] == h0[4] && h4[0].0 == content_encoding);
    assert(header_value(h4, content_encoding) == Some(encoding));
    assert(header_value(h3, content_encoding) == Some(encoding));
    assert(header_value(h3, content_length) == Some(decimal(length)));
    assert(header_value(h2, content_encoding) == Some(encoding));
    assert(header_value(h2, content_length) == Some(decimal(length)));
    assert(header_value(h2, validator) == Some(etag));
    assert(header_value(h1, content_encoding) == Some(encoding));
    assert(header_value(h1, content_length) == Some(decimal(length)));
    assert(header_value(h1, validator) == Some(etag));
    assert(header_value(h1, cache_control) == Some(h0[1].1));
}

/// The validator of a store is header text: a quote, hexadecimal digits and a
/// quote. So a header value that is not text never matches it.
pub proof fn lemma_validator_is_text(state: AppStateView)
    requires
        state.wf(),
    ensures
        is_header_text(encode_utf8(state.etag)),
{
    let etag = state.etag;
    let hex = hex_lower(md5_digest(state.uncompressed));
    assert forall|i: int| 0 <= i < etag.len() implies ' ' <= #[trigger] etag[i] <= '~' by {
        if 0 < i < etag.len() - 1 {
            assert(etag[i] == hex[i - 1]);
        }
    }
    assert(vstd::utf8::is_ascii_chars(etag));
    vstd::utf8::is_ascii_chars_encode_utf8(etag);
    let bytes = encode_utf8(etag);
    assert forall|i: int| 0 <= i < bytes.len() implies crate::text::is_text_byte(
        #[trigger] bytes[i],
    ) by {
        assert(etag[i] as u8 == bytes[i]);
        assert(' ' <= etag[i] <= '~');
    }
}

/// A request without a validator is answered with status 200 and the
/// negotiated representation; `Content-Length` is the decimal length of the
/// body, and the client reads the document out of it.
pub proof fn lemma_without_validator(state: AppStateView, req: RequestView)
    requires
        state.wf(),
        req.if_none_match is None,
    ensures
        ({
            let response = response_of(state, negotiated(state, req));
            &&& response.status == 200
            &&& response.body == if accepts_gzip(req) {
                state.compressed
            } else {
                state.uncompressed
            }
            &&& header_value(response.headers, "Content-Length"@) == Some(
                decimal(response.body.len()),
            )
            &&& header_value(response.headers, "ETag"@) == Some(state.etag)
            &&& carried_document(response) == Some(state.uncompressed)
        }),
{
    lemma_content_headers(state.etag, state.uncompressed_length, "identity"@);
    lemma_content_headers(state.etag, state.compressed_length, "gzip"@);
}

/// A request whose validator is the store's is answered with status 304, no
/// header and no body, whatever encoding it accepts.
pub proof fn lemma_matching_validator(state: AppStateView, req: RequestView)
    requires
        req.if_none_match == Some(encode_utf8(state.etag)),
    ensures
        ({
            let response = response_of(state, negotiated(state, req));
            &&& response.status == 304
            &&& response.body.len() == 0
            &&& response.headers.len() == 0
        }),
{
}

/// A request whose validator is not the store's is answered as one without a
/// validator: status 200 and the full negotiated representation.
pub proof fn lemma_other_validator(state: AppStateView, req: RequestView, validator: Seq<u8>)
    requires
        state.wf(),
        req.if_none_match == Some(validator),
        validator != encode_utf8(state.etag),
    ensures
        ({
            let response = response_of(state, negotiated(state, req));
            &&& response.status == 200
            &&& response.body == if accepts_gzip(req) {
                state.compressed
            } else {
                state.uncompressed
            }
            &&& header_value(response.headers, "Content-Length"@) == Some(
                decimal(response.body.len()),
            )
            &&& header_value(response.headers, "ETag"@) == Some(state.etag)
            &&& carried_document(response) == Some(state.uncompressed)
        }),
{
    lemma_content_headers(state.etag, state.uncompressed_length, "identity"@);
    lemma_content_headers(state.etag, state.compressed_length, "gzip"@);
}

/// The smallest send buffer asked for: 32 KiB.
pub const MIN_SEND_BUFFER: u32 = 32 * 1024;

/// The largest send buffer asked for: 2 MiB.
pub const MAX_SEND_BUFFER: u32 = 2 * 1024 * 1024;

/// The receive buffer asked for: 32 KiB, since requests are small.
pub const RECV_BUFFER: u32 = 32 * 1024;

/// The send buffer for a document of `length` bytes: twice the length, held
/// between 32 KiB and 2 MiB.
pub open spec fn send_buffer_for(length: nat) -> nat {
    if 2 * length < MIN_SEND_BUFFER {
        MIN_SEND_BUFFER as nat
    } else if 2 * length > MAX_SEND_BUFFER {
        MAX_SEND_BUFFER as nat
    } else {
        2 * length
    }
}

/// The send buffer stays between its bounds and never shrinks as the
/// document grows.
pub proof fn lemma_send_buffer_bounds(length: nat, longer: nat)
    requires
        length <= longer,
    ensures
        MIN_SEND_BUFFER <= send_buffer_for(length) <= MAX_SEND_BUFFER,
        send_buffer_for(length) <= send_buffer_for(longer),
{
}

/// Computes the send buffer for a document of `length` bytes.
pub fn send_buffer_size(length: usize) -> (size: u32)
    ensures
        size == send_buffer_for(length as nat),
{
    if length >= 1024 * 1024 {
        MAX_SEND_BUFFER
    } else if length < 16 * 1024 {
        MIN_SEND_BUFFER
    } else {
        (length * 2) as u32
    }
}

/// How the HTTP layer is set up for the connections of a listener.
#[derive(Clone, Copy, Debug, PartialEq, Eq)]
pub struct HttpTuning {
    pub keep_alive: bool,
    pub http2_keep_alive_interval_secs: u64,
    pub http2_stream_window: u32,
    pub http2_connection_window: u32,
    pub http2_adaptive_window: bool,
}

/// What is settled before the listeners start.
#[derive(Debug)]
pub struct ServerPlan {
    /// The socket address the document is served on.
    pub address: String,
    /// The socket address the metrics are exposed on.
    pub metrics_address: String,
    /// How the document's listener treats its connections.
    pub mode: ListenerMode,
    /// How the metrics' listener treats its connections.
    pub metrics_mode: ListenerMode,
    pub send_buffer_size: u32,
    pub recv_buffer_size: u32,
    pub tuning: HttpTuning,
}

/// The set-up of the HTTP layer: connections are kept alive, and HTTP/2 gets
/// a keep-alive every five seconds and windows of 2 MiB for a stream and
/// 4 MiB for a connection, sized adaptively.
pub open spec fn tuning() -> HttpTuning {
    HttpTuning {
        keep_alive: true,
        http2_keep_alive_interval_secs: 5,
        http2_stream_window: 2097152,
        http2_connection_window: 4194304,
        http2_adaptive_window: true,
    }
}

/// Settles, from the configuration and the store, where the two listeners
/// bind, whether the document's listener speaks TLS (the metrics' listener
/// never does), and how the document's socket and the HTTP layer are set up.
pub fn plan_server(args: &Args, state: &AppState) -> (plan: ServerPlan)
    ensures
        plan.address@ == socket_address(args.addr@, args.port),
        plan.metrics_address@ == socket_address(args.addr@, args.metrics_port),
        plan.mode == if args.tls {
            ListenerMode::Tls
        } else {
            ListenerMode::Plain
        },
        plan.metrics_mode == ListenerMode::Plain,
        plan.send_buffer_size == send_buffer_for(state@.uncompressed_length),
        plan.recv_buffer_size == RECV_BUFFER,
        plan.tuning == tuning(),
{
    ServerPlan {
        address: args.address(),
        metrics_address: args.metrics_address(),
        mode: if args.tls {
            ListenerMode::Tls
        } else {
            ListenerMode::Plain
        },
        metrics_mode: ListenerMode::Plain,
        send_buffer_size: send_buffer_size(state.uncompressed_content_length),
        recv_buffer_size: RECV_BUFFER,
        tuning: HttpTuning {
            keep_alive: true,
            http2_keep_alive_interval_secs: 5,
            http2_stream_window: 2 * 1024 * 1024,
            http2_connection_window: 4 * 1024 * 1024,
            http2_adaptive_window: true,
        },
    }
}

} // verus!
