//! Structured responses and their serialization into the HTTP/1.1 wire
//! format: `HTTP/1.1 <code> <phrase>`, a `Content-Type` header, a
//! `Content-Length` header equal to the exact byte length of the body, a
//! blank line, and the body verbatim.
//!
//! Bodies that came from text are owned as `String`; a file served from
//! disk is carried as raw bytes and appended to the wire image untouched,
//! so binary contents survive the trip.

use vstd::prelude::*;
use vstd::utf8::encode_utf8;
use crate::digits::dec_string;
use crate::digits::spec_dec;

verus! {

/// The full wire image of a response, as characters: status line, the
/// two headers, a blank line, then the body.
pub open spec fn spec_http_response(
    code: nat,
    phrase: Seq<char>,
    ctype: Seq<char>,
    blen: nat,
    body: Seq<char>,
) -> Seq<char> {
    "HTTP/1.1 "@ + spec_dec(code) + " "@ + phrase + "\r\nContent-Type: "@ + ctype
        + "\r\nContent-Length: "@ + spec_dec(blen) + "\r\n\r\n"@ + body
}

/// The status line and headers for a response whose body is `content_length`
/// bytes long, ending with the blank line that separates headers from body.
fn http_header(
    status_code: u16,
    status: &str,
    content_type: &str,
    content_length: usize,
) -> (r: String)
    ensures
        r@ == spec_http_response(
            status_code as nat,
            status@,
            content_type@,
            content_length as nat,
            Seq::<char>::empty(),
        ),
{
    let mut s = String::new();
    s.append("HTTP/1.1 ");
    let code = dec_string(status_code as u64);
    s.append(code.as_str());
    s.append(" ");
    s.append(status);
    s.append("\r\nContent-Type: ");
    s.append(content_type);
    s.append("\r\nContent-Length: ");
    let len = dec_string(content_length as u64);
    s.append(len.as_str());
    s.append("\r\n\r\n");
    proof {
        assert(s@ =~= spec_http_response(
            status_code as nat,
            status@,
            content_type@,
            content_length as nat,
            Seq::<char>::empty(),
        ));
    }
    s
}

/// A whole response on the wire, as text. `Content-Length` is the byte
/// length of `body`, not its character count.
pub fn http_response(
    status_code: u16,
    status: &str,
    content_type: &str,
    body: &str,
) -> (r: String)
    requires
        encode_utf8(body@).len() <= usize::MAX,
    ensures
        r@ == spec_http_response(
            status_code as nat,
            status@,
            content_type@,
            encode_utf8(body@).len(),
            body@,
        ),
{
    let blen = body.len();
    proof {
        assert(blen == encode_utf8(body@).len());
    }
    let mut s = http_header(status_code, status, content_type, blen);
    s.append(body);
    proof {
        assert(s@ =~= spec_http_response(
            status_code as nat,
            status@,
            content_type@,
            encode_utf8(body@).len(),
            body@,
        ));
    }
    s
}

/// A response ready to be serialized. Text bodies are `OkText`; a file read
/// from disk keeps its raw bytes in `OkBytes`.
pub enum HttpResponse {
    /// 200 OK with a text body.
    OkText { content_type: String, body: String },
    /// 200 OK with an opaque byte body.
    OkBytes { content_type: String, bytes: Vec<u8> },
    /// 201 Created.
    Created,
    /// 404 Not Found.
    NotFound,
    /// 400 Bad Request with a reason.
    BadRequest(String),
}

/// The mathematical value of a response.
pub enum RespView {
    OkText { content_type: Seq<char>, body: Seq<char> },
    OkBytes { content_type: Seq<char>, bytes: Seq<u8> },
    Created,
    NotFound,
    BadRequest { reason: Seq<char> },
}

impl View for HttpResponse {
    type V = RespView;

    open spec fn view(&self) -> RespView {
        match self {
            HttpResponse::OkText { content_type, body } => RespView::OkText {
                content_type: content_type@,
                body: body@,
            },
            HttpResponse::OkBytes { content_type, bytes } => RespView::OkBytes {
                content_type: content_type@,
                bytes: bytes@,
            },
            HttpResponse::Created => RespView::Created,
            HttpResponse::NotFound => RespView::NotFound,
            HttpResponse::BadRequest(reason) => RespView::BadRequest {
                reason: reason@,
            },
        }
    }
}

/// Whether the text bodies of `v` are short enough for their byte
/// length to be counted in a `usize`; true of anything a machine holds.
pub open spec fn encodable(v: RespView) -> bool {
    match v {
        RespView::OkText { body, .. } => encode_utf8(body).len() <= usize::MAX,
        RespView::BadRequest { reason } => encode_utf8(reason).len() <= usize::MAX,
        _ => true,
    }
}

/// The wire text of a response with a text body. A byte body has no
/// character form and is left to [`spec_encode_bytes`].
pub open spec fn spec_encode_str(v: RespView) -> Seq<char> {
    match v {
        RespView::OkText { content_type, body } => spec_http_response(
            200,
            "OK"@,
            content_type,
            encode_utf8(body).len(),
            body,
        ),
        RespView::OkBytes { .. } => Seq::<char>::empty(),
        RespView::Created => spec_http_response(
            201,
            "Created"@,
            "text/plain"@,
            0,
            Seq::<char>::empty(),
        ),
        RespView::NotFound => spec_http_response(
            404,
            "Not Found"@,
            ""@,
            0,
            Seq::<char>::empty(),
        ),
        RespView::BadRequest { reason } => spec_http_response(
            400,
            "Bad Request"@,
            ""@,
            encode_utf8(reason).len(),
            reason,
        ),
    }
}

/// The wire bytes of a response: the UTF-8 bytes of the head, then the
/// body bytes appended verbatim.
pub open spec fn spec_encode_bytes(v: RespView) -> Seq<u8> {
    match v {
        RespView::OkBytes { content_type, bytes } => encode_utf8(
            spec_http_response(
                200,
                "OK"@,
                content_type,
                bytes.len(),
                Seq::<char>::empty(),
            ),
        ) + bytes,
        _ => encode_utf8(spec_encode_str(v)),
    }
}

impl HttpResponse {
    /// The response in wire form, as text, for responses whose body is
    /// text.
    pub fn to_http_string(&self) -> (r: String)
        requires
            !(self is OkBytes),
            encodable(self@),
        ensures
            r@ == spec_encode_str(self@),
    {
        match self {
            HttpResponse::OkText { content_type, body } => {
                let r = http_response(200, "OK", content_type.as_str(), body.as_str());
                r
            },
            HttpResponse::OkBytes { .. } => {
                proof {
                    assert(false);
                }
                String::new()
            },
            HttpResponse::Created => {
                proof {
                    reveal_strlit("");
                    assert(""@ =~= Seq::<char>::empty());
                    assert(encode_utf8(Seq::<char>::empty()).len() == 0);
                }
                http_response(201, "Created", "text/plain", "")
            },
            HttpResponse::NotFound => {
                proof {
                    reveal_strlit("");
                    assert(""@ =~= Seq::<char>::empty());
                    assert(encode_utf8(Seq::<char>::empty()).len() == 0);
                }
                http_response(404, "Not Found", "", "")
            },
            HttpResponse::BadRequest(reason) => {
                let r = http_response(400, "Bad Request", "", reason.as_str());
                r
            },
        }
    }

    /// The response in wire form, as bytes. Byte bodies are appended
    /// untouched after the head.
    pub fn to_http_bytes(&self) -> (r: Vec<u8>)
        requires
            encodable(self@),
        ensures
            r@ == spec_encode_bytes(self@),
    {
        match self {
            HttpResponse::OkBytes { content_type, bytes } => {
                let header = http_header(200, "OK", content_type.as_str(), bytes.len());
                let mut out = header.as_str().as_bytes_vec();
                let ghost head_bytes = out@;
                let mut i: usize = 0;
                while i < bytes.len()
                    invariant
                        i <= bytes@.len(),
                        out@ == head_bytes + bytes@.subrange(0, i as int),
                    decreases bytes@.len() - i,
                {
                    out.push(bytes[i]);
                    proof {
                        assert(out@ =~= head_bytes + bytes@.subrange(0, i as int + 1));
                    }
                    i = i + 1;
                }
                proof {
                    assert(bytes@.subrange(0, bytes@.len() as int) =~= bytes@);
                    assert(out@ =~= spec_encode_bytes(self@));
                }
                out
            },
            _ => {
                let s = self.to_http_string();
                s.as_str().as_bytes_vec()
            },
        }
    }
}

/// The outcome of serving a file read: the raw contents when the file
/// could be opened and read, a plain 404 otherwise.
pub fn file_read_response(contents: Option<Vec<u8>>) -> (r: HttpResponse)
    ensures
        match contents {
            Some(bytes) => r@ == (RespView::OkBytes {
                content_type: "application/octet-stream"@,
                bytes: bytes@,
            }),
            None => r@ == RespView::NotFound,
        },
{
    match contents {
        Some(bytes) => HttpResponse::OkBytes {
            content_type: "application/octet-stream".to_owned(),
            bytes,
        },
        None => HttpResponse::NotFound,
    }
}

/// The outcome of a file creation: 201 when the file was created and
/// written, a plain 404 otherwise.
pub fn file_write_response(created: bool) -> (r: HttpResponse)
    ensures
        created ==> r@ == RespView::Created,
        !created ==> r@ == RespView::NotFound,
{
    if created {
        HttpResponse::Created
    } else {
        HttpResponse::NotFound
    }
}

} // verus!
