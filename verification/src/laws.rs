//! Laws of the handler, proved once for all inputs: what echo reflects,
//! what the root returns, how a posted file comes back, what falls to
//! 404, and that handling is a pure function of the buffer.

use vstd::prelude::*;
use crate::handler::ActionView;
use crate::handler::spec_handle;
use crate::handler::spec_handle_get;
use crate::handler::spec_handle_post;
use crate::handler::spec_not_found;
use crate::handler::spec_ok_empty;
use crate::lines::lemma_lines_concat;
use crate::lines::lemma_lines_no_nl;
use crate::lines::spec_lines;
use crate::request::MethodView;
use crate::request::spec_method;
use crate::response::RespView;
use crate::response::spec_encode_bytes;
use crate::response::spec_encode_str;
use crate::response::spec_http_response;
use crate::router::Path;
use crate::router::spec_route;
use crate::segments::lemma_join_split;
use crate::segments::lemma_split_concat;
use crate::segments::lemma_split_no_sep;
use crate::segments::spec_split;
use crate::text::is_ws;
use crate::text::lemma_tokens_head;
use crate::text::lemma_tokens_skip_ws;
use crate::text::spec_tokens;
use crate::text::trim_nuls;

verus! {

/// A request line `<m> <p> HTTP/1.1` splits into exactly those three
/// tokens when method and path hold no whitespace.
proof fn lemma_request_line_tokens(line: Seq<char>, m: Seq<char>, p: Seq<char>)
    requires
        line == m + " "@ + p + " HTTP/1.1"@,
        m.len() > 0,
        forall|i: int| 0 <= i < m.len() ==> !is_ws(m[i]),
        p.len() > 0,
        forall|i: int| 0 <= i < p.len() ==> !is_ws(p[i]),
    ensures
        spec_tokens(line) == seq![m, p, "HTTP/1.1"@],
{
    reveal_strlit(" ");
    reveal_strlit(" HTTP/1.1");
    reveal_strlit("HTTP/1.1");
    let version = "HTTP/1.1"@;
    let rest1 = " "@ + p + " HTTP/1.1"@;
    assert(line =~= m + rest1);
    assert(rest1[0] == ' ');
    lemma_tokens_head(m, rest1);
    let rest2 = p + " HTTP/1.1"@;
    assert(rest1 =~= " "@ + rest2);
    assert(forall|i: int| 0 <= i < " "@.len() ==> is_ws(" "@[i]));
    lemma_tokens_skip_ws(" "@, rest2);
    let rest3 = " HTTP/1.1"@;
    assert(rest3[0] == ' ');
    lemma_tokens_head(p, rest3);
    let rest4 = version;
    assert(rest3 =~= " "@ + rest4);
    lemma_tokens_skip_ws(" "@, rest4);
    assert(forall|i: int| 0 <= i < version.len() ==> !is_ws(version[i]));
    assert(rest4 =~= version + Seq::<char>::empty());
    lemma_tokens_head(version, Seq::<char>::empty());
    assert(spec_tokens(Seq::<char>::empty()) =~= Seq::<Seq<char>>::empty());
    assert(spec_tokens(line) =~= seq![m, p, version]);
}

/// A whole one-line GET request stands alone as its only line and is
/// dispatched as a GET on its path.
proof fn lemma_get_request(path: Seq<char>)
    requires
        path.len() > 0,
        forall|i: int| 0 <= i < path.len() ==> !is_ws(path[i]),
    ensures
        ({
            let req = "GET "@ + path + " HTTP/1.1"@;
            spec_handle(req) == spec_handle_get(req, path)
        }),
{
    reveal_strlit("GET ");
    reveal_strlit("GET");
    reveal_strlit(" ");
    reveal_strlit(" HTTP/1.1");
    let req = "GET "@ + path + " HTTP/1.1"@;
    assert(forall|i: int| 0 <= i < req.len() ==> req[i] != '\n') by {
        assert(forall|i: int| 0 <= i < "GET "@.len() ==> "GET "@[i] != '\n');
        assert(forall|i: int| 0 <= i < " HTTP/1.1"@.len() ==> " HTTP/1.1"@[i] != '\n');
        assert(forall|i: int| 0 <= i < path.len() ==> path[i] != '\n');
    }
    lemma_lines_no_nl(req);
    assert(spec_lines(req)[0] == req);
    assert(req =~= "GET"@ + " "@ + path + " HTTP/1.1"@);
    lemma_request_line_tokens(req, "GET"@, path);
    assert(spec_tokens(spec_lines(req)[0]).len() == 3);
    assert(spec_tokens(spec_lines(req)[0])[1] == path);
    assert(spec_method(req) == MethodView::Get);
}

/// What the echo route reflects: for every path `/echo/<text>` whose
/// text holds no whitespace and no NUL, the response is a 200 whose
/// `text/plain` body is that text, exactly, and its wire form carries a
/// `Content-Length` equal to the text's UTF-8 byte length. Whitespace
/// would end the path token on the request line, and a NUL would not
/// survive a padded read buffer; neither is part of a valid echo path.
#[verifier::rlimit(50)]
pub proof fn lemma_echo_reflects(text: Seq<char>)
    requires
        forall|i: int| 0 <= i < text.len() ==> !is_ws(text[i]),
        forall|i: int| 0 <= i < text.len() ==> text[i] != '\0',
    ensures
        spec_handle("GET /echo/"@ + text + " HTTP/1.1"@) == ActionView::Respond(
            RespView::OkText { content_type: "text/plain"@, body: text },
        ),
        spec_encode_str(RespView::OkText { content_type: "text/plain"@, body: text })
            == spec_http_response(
            200,
            "OK"@,
            "text/plain"@,
            vstd::utf8::encode_utf8(text).len(),
            text,
        ),
{
    reveal_strlit("GET ");
    reveal_strlit("GET /echo/");
    reveal_strlit("/echo/");
    reveal_strlit("echo");
    reveal_strlit("/");
    let path = "/echo/"@ + text;
    assert(forall|i: int| 0 <= i < path.len() ==> !is_ws(path[i])) by {
        assert(forall|i: int| 0 <= i < "/echo/"@.len() ==> !is_ws("/echo/"@[i]));
    }
    let req = "GET "@ + path + " HTTP/1.1"@;
    assert(req =~= "GET /echo/"@ + text + " HTTP/1.1"@);
    lemma_get_request(path);
    assert(path != "/"@) by {
        assert(path.len() >= 6);
        assert("/"@.len() == 1);
    }
    let inner = "echo"@ + seq!['/'] + text;
    assert(path =~= Seq::<char>::empty() + seq!['/'] + inner);
    lemma_split_concat(Seq::<char>::empty(), inner);
    lemma_split_concat("echo"@, text);
    let segs = spec_split(path);
    assert(segs == seq![Seq::<char>::empty()] + (seq!["echo"@] + spec_split(text)));
    assert(segs.len() >= 2);
    assert(segs[1] == "echo"@);
    assert(spec_route(segs[1]) == Path::Echo);
    assert(segs.skip(2) =~= spec_split(text));
    lemma_join_split(text);
}

/// What the root returns: a GET for `/` is a 200 with an empty body,
/// whatever headers follow the request line — and, the handler being a
/// function of the buffer alone, whatever state the process is in.
pub proof fn lemma_root_always_ok(rest: Seq<char>)
    ensures
        spec_handle("GET / HTTP/1.1\r\n"@ + rest) == spec_ok_empty(),
{
    reveal_strlit("GET / HTTP/1.1\r\n");
    reveal_strlit("GET / HTTP/1.1");
    reveal_strlit("GET ");
    reveal_strlit("GET");
    reveal_strlit(" ");
    reveal_strlit(" HTTP/1.1");
    reveal_strlit("/");
    let line0 = "GET / HTTP/1.1"@;
    let req = "GET / HTTP/1.1\r\n"@ + rest;
    let before = line0 + seq!['\r'];
    assert(req =~= before + seq!['\n'] + rest);
    assert(forall|i: int| 0 <= i < before.len() ==> before[i] != '\n');
    lemma_lines_concat(before, rest);
    assert(crate::lines::strip_cr(before) =~= line0);
    let ls = spec_lines(req);
    assert(ls.len() > 0);
    assert(ls[0] == line0);
    assert(line0 =~= "GET"@ + " "@ + "/"@ + " HTTP/1.1"@);
    lemma_request_line_tokens(line0, "GET"@, "/"@);
    assert(spec_tokens(ls[0])[1] == "/"@);
    assert(spec_method(req) == MethodView::Get);
}

/// How a posted file comes back: `POST /files/<name>` with body `B`
/// asks for exactly `B` to be written under `name`, and a later
/// `GET /files/<name>` asks for that same `name` to be read. With the
/// contracts of [`crate::response::file_read_response`] and
/// [`crate::response::to_http_bytes`](crate::response::HttpResponse::to_http_bytes),
/// whatever bytes the file system hands back are served verbatim, so a
/// faithful file system returns exactly the bytes that were posted.
///
/// The side conditions are the wire format's own, not extra demands: a
/// file name travels as part of the path token, where whitespace would
/// end the token and a `/` would open a further segment, so neither can
/// reach a name; a body travels as the buffer's last line, which a line
/// feed would end; and a NUL in either would be indistinguishable from
/// the padding of the fixed-size read buffer, which the decoder strips.
/// No name or body that the wire can carry is excluded.
pub proof fn lemma_files_round_trip(name: Seq<char>, body: Seq<char>)
    requires
        name.len() > 0,
        forall|i: int| 0 <= i < name.len() ==> !is_ws(name[i]),
        forall|i: int| 0 <= i < name.len() ==> name[i] != '/',
        forall|i: int| 0 <= i < name.len() ==> name[i] != '\0',
        forall|i: int| 0 <= i < body.len() ==> body[i] != '\n',
        forall|i: int| 0 <= i < body.len() ==> body[i] != '\0',
    ensures
        spec_handle("POST /files/"@ + name + " HTTP/1.1\r\n\r\n"@ + body)
            == (ActionView::WriteFile { name, body }),
        spec_handle("GET /files/"@ + name + " HTTP/1.1"@) == (ActionView::ReadFile {
            name,
        }),
{
    reveal_strlit("POST /files/");
    reveal_strlit("POST ");
    reveal_strlit("POST");
    reveal_strlit("GET /files/");
    reveal_strlit("GET ");
    reveal_strlit("GET");
    reveal_strlit(" ");
    reveal_strlit(" HTTP/1.1");
    reveal_strlit(" HTTP/1.1\r\n\r\n");
    reveal_strlit("/files/");
    reveal_strlit("files");
    reveal_strlit("echo");
    reveal_strlit("user-agent");
    reveal_strlit("/");
    let path = "/files/"@ + name;
    assert(forall|i: int| 0 <= i < path.len() ==> !is_ws(path[i])) by {
        assert(forall|i: int| 0 <= i < "/files/"@.len() ==> !is_ws("/files/"@[i]));
    }
    assert(path != "/"@) by {
        assert(path.len() >= 7);
        assert("/"@.len() == 1);
    }
    let inner = "files"@ + seq!['/'] + name;
    assert(path =~= Seq::<char>::empty() + seq!['/'] + inner);
    lemma_split_concat(Seq::<char>::empty(), inner);
    lemma_split_concat("files"@, name);
    lemma_split_no_sep(name);
    let segs = spec_split(path);
    assert(segs == seq![Seq::<char>::empty()] + (seq!["files"@] + seq![name]));
    assert(segs.len() == 3);
    assert(segs[1] == "files"@);
    assert(spec_route(segs[1]) == Path::Files);
    assert(segs[2] == name);

    // The GET side.
    let get_req = "GET "@ + path + " HTTP/1.1"@;
    assert(get_req =~= "GET /files/"@ + name + " HTTP/1.1"@);
    lemma_get_request(path);
    assert(spec_handle_get(get_req, path) == (ActionView::ReadFile { name }));

    // The POST side: the request is its first line, a blank line, then
    // the body as the last line.
    let line0 = "POST"@ + " "@ + path + " HTTP/1.1"@;
    let post_req = "POST /files/"@ + name + " HTTP/1.1\r\n\r\n"@ + body;
    assert(post_req =~= (line0 + seq!['\r']) + seq!['\n'] + (seq!['\r', '\n'] + body));
    assert(forall|i: int|
        0 <= i < (line0 + seq!['\r']).len() ==> (line0 + seq!['\r'])[i] != '\n') by {
        assert(forall|i: int| 0 <= i < "POST "@.len() ==> "POST "@[i] != '\n');
        assert(forall|i: int| 0 <= i < " HTTP/1.1"@.len() ==> " HTTP/1.1"@[i] != '\n');
        assert(line0 =~= "POST "@ + path + " HTTP/1.1"@);
    }
    lemma_lines_concat(line0 + seq!['\r'], seq!['\r', '\n'] + body);
    assert(crate::lines::strip_cr(line0 + seq!['\r']) =~= line0);
    assert(seq!['\r', '\n'] + body =~= seq!['\r'] + seq!['\n'] + body);
    lemma_lines_concat(seq!['\r'], body);
    assert(crate::lines::strip_cr(seq!['\r']) =~= Seq::<char>::empty());
    let ls = spec_lines(post_req);
    if body.len() == 0 {
        assert(spec_lines(body) =~= Seq::<Seq<char>>::empty());
        assert(ls =~= seq![line0, Seq::<char>::empty()]);
        assert(ls.last() =~= body);
        assert(trim_nuls(body) == body);
    } else {
        lemma_lines_no_nl(body);
        assert(ls =~= seq![line0, Seq::<char>::empty(), body]);
        assert(ls.last() == body);
        assert(body.last() != '\0');
        assert(trim_nuls(body) == body);
    }
    assert(ls[0] == line0);
    lemma_request_line_tokens(line0, "POST"@, path);
    assert(spec_tokens(ls[0])[0] == "POST"@);
    assert("POST"@ != "GET"@) by {
        assert("POST"@.len() == 4);
        assert("GET"@.len() == 3);
    }
    assert(spec_method(post_req) == (MethodView::Post { body }));
    assert(spec_tokens(ls[0])[1] == path);
    assert(spec_handle(post_req) == spec_handle_post(path, body));
}

/// Any method token other than exactly `GET` or `POST` — or a first
/// line with no token at all — falls to 404 with an empty body,
/// whatever the rest of the request says.
pub proof fn lemma_unknown_method_not_found(req: Seq<char>)
    requires
        spec_lines(req).len() > 0,
        spec_tokens(spec_lines(req)[0]).len() > 0 ==> spec_tokens(
            spec_lines(req)[0],
        )[0] != "GET"@,
        spec_tokens(spec_lines(req)[0]).len() > 0 ==> spec_tokens(
            spec_lines(req)[0],
        )[0] != "POST"@,
    ensures
        spec_handle(req) == spec_not_found(),
{
    assert(spec_method(req) == MethodView::Unknown);
}

/// Any first path segment outside the three recognized routes falls to
/// 404 with an empty body.
pub proof fn lemma_unknown_route_not_found(seg: Seq<char>)
    requires
        seg.len() > 0,
        forall|i: int| 0 <= i < seg.len() ==> !is_ws(seg[i]),
        forall|i: int| 0 <= i < seg.len() ==> seg[i] != '/',
        seg != "echo"@,
        seg != "user-agent"@,
        seg != "files"@,
    ensures
        spec_handle("GET /"@ + seg + " HTTP/1.1"@) == spec_not_found(),
{
    reveal_strlit("GET /");
    reveal_strlit("GET ");
    reveal_strlit("GET");
    reveal_strlit(" ");
    reveal_strlit(" HTTP/1.1");
    reveal_strlit("/");
    let path = "/"@ + seg;
    assert(forall|i: int| 0 <= i < path.len() ==> !is_ws(path[i])) by {
        assert("/"@[0] == '/');
    }
    let req = "GET "@ + path + " HTTP/1.1"@;
    assert(req =~= "GET /"@ + seg + " HTTP/1.1"@);
    lemma_get_request(path);
    assert(path != "/"@) by {
        assert(path.len() >= 2);
        assert("/"@.len() == 1);
    }
    assert(path =~= Seq::<char>::empty() + seq!['/'] + seg);
    lemma_split_concat(Seq::<char>::empty(), seg);
    lemma_split_no_sep(seg);
    let segs = spec_split(path);
    assert(segs == seq![Seq::<char>::empty()] + seq![seg]);
    assert(segs.len() == 2);
    assert(segs[1] == seg);
    assert(spec_route(segs[1]) == Path::NotFound);
}

/// What the file route serves: the wire image of a served file is the
/// header block, with a `Content-Length` equal to the byte count,
/// followed by the file's bytes appended verbatim, whatever those bytes
/// are; binary contents are not re-encoded.
pub proof fn lemma_file_body_verbatim(contents: Seq<u8>)
    ensures
        spec_encode_bytes(
            RespView::OkBytes {
                content_type: "application/octet-stream"@,
                bytes: contents,
            },
        ) == vstd::utf8::encode_utf8(
            spec_http_response(
                200,
                "OK"@,
                "application/octet-stream"@,
                contents.len(),
                Seq::<char>::empty(),
            ),
        ) + contents,
{
}

/// Handling is a pure function of the request buffer: equal buffers are
/// handled identically, so repeating a request repeats its response —
/// and equal responses serialize to identical bytes, by the contract of
/// [`to_http_bytes`](crate::response::HttpResponse::to_http_bytes).
pub proof fn lemma_handler_deterministic(
    req1: Seq<char>,
    req2: Seq<char>,
    a1: ActionView,
    a2: ActionView,
)
    requires
        req1 == req2,
        a1 == spec_handle(req1),
        a2 == spec_handle(req2),
    ensures
        a1 == a2,
{
}

} // verus!

