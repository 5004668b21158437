//! The response model: an HTTP/1.1 status line and header block built
//! eagerly, and a body held in memory. Streaming a file body over a
//! socket is the caller's part; the header for it comes from here.

use vstd::prelude::*;
use vstd::slice::slice_to_vec;
use vstd::string::{StringExecFns, StringSliceAdditionalSpecFns};
use vstd::utf8::encode_utf8;
use crate::content_type::ContentType;
use crate::status_code::StatusCode;
use crate::text::{dec_u64_string, spec_dec};

verus! {

/// A response body held in memory.
#[derive(Debug)]
pub enum Body {
    Text(&'static str),
    Owned(String),
    Buffer(Vec<u8>),
    Empty,
}

impl Body {
    /// The bytes that the body puts on the wire.
    pub open spec fn spec_bytes(self) -> Seq<u8> {
        match self {
            Body::Text(t) => encode_utf8(t@),
            Body::Owned(s) => encode_utf8(s@),
            Body::Buffer(b) => b@,
            Body::Empty => Seq::empty(),
        }
    }
}

/// The status line: `HTTP/1.1 <code> <reason>` and a line end.
pub open spec fn spec_status_line(status: StatusCode) -> Seq<char> {
    "HTTP/1.1 "@ + status.spec_code_str() + " "@ + status.spec_reason() + "\r\n"@
}

/// The server header line.
pub open spec fn spec_server_line() -> Seq<char> {
    "Server: Rusty HTTP Server 1.0.0\r\n"@
}

/// The `Content-Length` header line, written whenever the body size is
/// known.
pub open spec fn spec_length_line(length: Option<u64>) -> Seq<char> {
    match length {
        Some(n) => "Content-Length: "@ + spec_dec(n as nat) + "\r\n"@,
        None => Seq::empty(),
    }
}

/// The `Content-Type` header line, written whenever the type is known.
pub open spec fn spec_ctype_line(ctype: Option<ContentType>) -> Seq<char> {
    match ctype {
        Some(t) => "Content-Type: "@ + t.spec_str() + "\r\n"@,
        None => Seq::empty(),
    }
}

/// The whole header block: status line, server line, the optional
/// length and type lines, and the blank line that ends the block.
pub open spec fn spec_header_text(
    status: StatusCode,
    length: Option<u64>,
    ctype: Option<ContentType>,
) -> Seq<char> {
    spec_status_line(status) + spec_server_line() + spec_length_line(length) + spec_ctype_line(
        ctype,
    ) + "\r\n"@
}

/// The byte length of a text, as the length header writes it.
pub open spec fn spec_text_len(s: Seq<char>) -> u64 {
    (encode_utf8(s).len() as usize) as u64
}

/// The given type, or `text/plain` where none is given.
pub open spec fn spec_or_text(ctype: Option<ContentType>) -> Option<ContentType> {
    match ctype {
        None => Some(ContentType::Text),
        Some(t) => Some(t),
    }
}

/// Builds the header block.
fn create_header(status: StatusCode, length: Option<u64>, ctype: Option<ContentType>) -> (r:
    String)
    ensures
        r@ == spec_header_text(status, length, ctype),
{
    let mut h = String::from_str("HTTP/1.1 ");
    let code = dec_u64_string(status.code() as u64);
    h.append(code.as_str());
    h.append(" ");
    h.append(status.reason_phrase());
    h.append("\r\n");
    h.append("Server: Rusty HTTP Server 1.0.0\r\n");
    match length {
        Some(n) => {
            h.append("Content-Length: ");
            let len_str = dec_u64_string(n);
            h.append(len_str.as_str());
            h.append("\r\n");
        },
        None => {},
    }
    match ctype {
        Some(t) => {
            h.append("Content-Type: ");
            h.append(t.as_str());
            h.append("\r\n");
        },
        None => {},
    }
    h.append("\r\n");
    proof {
        assert(h@ =~= spec_header_text(status, length, ctype));
    }
    h
}

/// A response: its serialized header block and its body.
#[derive(Debug)]
pub struct Response {
    header: String,
    body: Body,
}

impl Response {
    /// The characters of the header block.
    pub closed spec fn spec_header(self) -> Seq<char> {
        self.header@
    }

    /// The bytes of the body.
    pub closed spec fn spec_body(self) -> Seq<u8> {
        self.body.spec_bytes()
    }

    /// Everything the response puts on the wire: the header block in
    /// UTF-8, then the body bytes.
    pub open spec fn wire_bytes(self) -> Seq<u8> {
        encode_utf8(self.spec_header()) + self.spec_body()
    }

    /// A response without a body; the size, where known, still names
    /// the length of the resource, as a `HEAD` response does.
    pub fn new(status: StatusCode, size: Option<u64>, content_type: Option<ContentType>) -> (r:
        Response)
        ensures
            r.spec_header() == spec_header_text(status, size, content_type),
            r.spec_body() == Seq::<u8>::empty(),
    {
        Response { header: create_header(status, size, content_type), body: Body::Empty }
    }

    /// A response whose body is a fixed text; its content type defaults
    /// to `text/plain`, and its length is the byte length of the text.
    pub fn from_text(status: StatusCode, text: &'static str, content_type: Option<ContentType>)
        -> (r: Response)
        ensures
            r.spec_header() == spec_header_text(
                status,
                Some(spec_text_len(text@)),
                spec_or_text(content_type),
            ),
            r.spec_body() == encode_utf8(text@),
    {
        let size = text.len() as u64;
        let ct = match content_type {
            None => Some(ContentType::Text),
            Some(t) => Some(t),
        };
        Response { header: create_header(status, Some(size), ct), body: Body::Text(text) }
    }

    /// A response whose body is an owned string; its content type
    /// defaults to `text/plain`, and its length is the byte length of
    /// the string.
    pub fn from_string(status: StatusCode, string: String, content_type: Option<ContentType>) -> (r:
        Response)
        ensures
            r.spec_header() == spec_header_text(
                status,
                Some(spec_text_len(string@)),
                spec_or_text(content_type),
            ),
            r.spec_body() == encode_utf8(string@),
    {
        let size = string.as_str().len() as u64;
        let ct = match content_type {
            None => Some(ContentType::Text),
            Some(t) => Some(t),
        };
        Response { header: create_header(status, Some(size), ct), body: Body::Owned(string) }
    }

    /// A response whose body is a byte buffer of known length.
    pub fn from_data(status: StatusCode, data: Vec<u8>, content_type: Option<ContentType>) -> (r:
        Response)
        ensures
            r.spec_header() == spec_header_text(
                status,
                Some(data@.len() as u64),
                content_type,
            ),
            r.spec_body() == data@,
    {
        let size = data.len() as u64;
        Response { header: create_header(status, Some(size), content_type), body: Body::Buffer(data) }
    }

    /// The header block, ready to be written before the body.
    pub fn header_str(&self) -> (r: &str)
        ensures
            r@ == self.spec_header(),
    {
        self.header.as_str()
    }

    /// The header block and the body, for a caller that writes them to
    /// a stream in turn.
    pub fn into_parts(self) -> (r: (String, Body))
        ensures
            r.0@ == self.spec_header(),
            r.1.spec_bytes() == self.spec_body(),
    {
        let Response { header, body } = self;
        (header, body)
    }

    /// The full wire form of the response.
    pub fn serialize(self) -> (r: Vec<u8>)
        ensures
            r@ == self.wire_bytes(),
    {
        let Response { header, body } = self;
        let ghost h = header@;
        let mut out: Vec<u8> = slice_to_vec(header.as_str().as_bytes());
        match body {
            Body::Text(t) => {
                let mut b: Vec<u8> = slice_to_vec(t.as_bytes());
                out.append(&mut b);
            },
            Body::Owned(s) => {
                let mut b: Vec<u8> = slice_to_vec(s.as_str().as_bytes());
                out.append(&mut b);
            },
            Body::Buffer(mut b) => {
                out.append(&mut b);
            },
            Body::Empty => {},
        }
        proof {
            assert(out@ =~= encode_utf8(h) + body.spec_bytes());
        }
        out
    }
}

/// The header block begins with the status line `HTTP/1.1 <code>
/// <reason>` for its status, whatever else it holds.
pub proof fn lemma_status_line_prefix(
    status: StatusCode,
    length: Option<u64>,
    ctype: Option<ContentType>,
)
    ensures
        spec_header_text(status, length, ctype).take(spec_status_line(status).len() as int)
            == spec_status_line(status),
{
    assert(spec_header_text(status, length, ctype).take(spec_status_line(status).len() as int)
        =~= spec_status_line(status));
}

/// The header block ends with an empty line: its last four characters
/// are a line end twice, so exactly the body follows the blank line.
pub proof fn lemma_header_blank_line(
    status: StatusCode,
    length: Option<u64>,
    ctype: Option<ContentType>,
)
    ensures
        spec_header_text(status, length, ctype).len() >= 4,
        spec_header_text(status, length, ctype).skip(
            spec_header_text(status, length, ctype).len() - 4,
        ) == "\r\n\r\n"@,
{
    reveal_strlit("\r\n");
    reveal_strlit("\r\n\r\n");
    reveal_strlit("Server: Rusty HTTP Server 1.0.0\r\n");
    let h = spec_header_text(status, length, ctype);
    match ctype {
        Some(t) => {
            assert(h.skip(h.len() - 4) =~= "\r\n\r\n"@);
        },
        None => {
            match length {
                Some(n) => {
                    assert(h.skip(h.len() - 4) =~= "\r\n\r\n"@);
                },
                None => {
                    assert(h.skip(h.len() - 4) =~= "\r\n\r\n"@);
                },
            }
        },
    }
}

} // verus!
