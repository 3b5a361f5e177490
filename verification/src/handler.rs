//! One request, handled: decode the buffer, route it, and either build
//! the response outright or name the single file operation the caller
//! must perform. Everything except that file operation is decided here,
//! as a pure function of the buffer.

use vstd::prelude::*;
use crate::lines::find_prefix_line;
use crate::lines::spec_lines;
use crate::request::Method;
use crate::request::MethodView;
use crate::request::extract_method;
use crate::request::extract_path;
use crate::request::extract_user_agent;
use crate::request::spec_method;
use crate::response::HttpResponse;
use crate::response::RespView;
use crate::router::Path;
use crate::router::spec_route;
use crate::segments::spec_join;
use crate::segments::spec_split;
use crate::segments::split_route;
use crate::segments::third_segment;
use crate::text::spec_tokens;
use crate::text::str_eq;

verus! {

/// What the connection must do next: send a finished response, or
/// perform the one file operation the request asks for and then respond
/// with its outcome.
pub enum Action {
    /// Send this response.
    Respond(HttpResponse),
    /// Read `{root}/{name}` and respond with
    /// [`crate::response::file_read_response`].
    ReadFile { name: String },
    /// Create `{root}/{name}`, write `body` to it, and respond with
    /// [`crate::response::file_write_response`].
    WriteFile { name: String, body: String },
}

/// The mathematical value of an action.
pub enum ActionView {
    Respond(RespView),
    ReadFile { name: Seq<char> },
    WriteFile { name: Seq<char>, body: Seq<char> },
}

impl View for Action {
    type V = ActionView;

    open spec fn view(&self) -> ActionView {
        match self {
            Action::Respond(resp) => ActionView::Respond(resp@),
            Action::ReadFile { name } => ActionView::ReadFile { name: name@ },
            Action::WriteFile { name, body } => ActionView::WriteFile {
                name: name@,
                body: body@,
            },
        }
    }
}

/// A 200 with an empty text body.
pub open spec fn spec_ok_empty() -> ActionView {
    ActionView::Respond(
        RespView::OkText { content_type: "text/plain"@, body: Seq::<char>::empty() },
    )
}

/// A plain 404.
pub open spec fn spec_not_found() -> ActionView {
    ActionView::Respond(RespView::NotFound)
}

/// The response to `GET /user-agent`: the header value reflected back,
/// or a 400 when the header is missing or has no value.
pub open spec fn spec_user_agent_action(req: Seq<char>) -> ActionView {
    let ls = spec_lines(req);
    let i = find_prefix_line(ls, "User-Agent"@);
    if i >= 0 && spec_tokens(ls[i]).len() >= 2 {
        ActionView::Respond(
            RespView::OkText {
                content_type: "text/plain"@,
                body: spec_tokens(ls[i])[1],
            },
        )
    } else {
        ActionView::Respond(RespView::BadRequest { reason: Seq::<char>::empty() })
    }
}

/// A GET request, routed by its path.
pub open spec fn spec_handle_get(req: Seq<char>, path: Seq<char>) -> ActionView {
    if path == "/"@ {
        spec_ok_empty()
    } else {
        let segs = spec_split(path);
        if segs.len() < 2 {
            spec_not_found()
        } else {
            match spec_route(segs[1]) {
                Path::Echo => ActionView::Respond(
                    RespView::OkText {
                        content_type: "text/plain"@,
                        body: spec_join(segs.skip(2)),
                    },
                ),
                Path::UserAgent => spec_user_agent_action(req),
                Path::Files => if segs.len() >= 3 {
                    ActionView::ReadFile { name: segs[2] }
                } else {
                    spec_not_found()
                },
                Path::NotFound => spec_not_found(),
            }
        }
    }
}

/// A POST request, routed by its path. Echo and User-Agent accept the
/// request but reflect nothing; only Files does work with the body.
pub open spec fn spec_handle_post(path: Seq<char>, body: Seq<char>) -> ActionView {
    if path == "/"@ {
        spec_ok_empty()
    } else {
        let segs = spec_split(path);
        if segs.len() < 2 {
            spec_not_found()
        } else {
            match spec_route(segs[1]) {
                Path::Echo => spec_ok_empty(),
                Path::UserAgent => spec_ok_empty(),
                Path::Files => if segs.len() >= 3 {
                    ActionView::WriteFile { name: segs[2], body }
                } else {
                    spec_not_found()
                },
                Path::NotFound => spec_not_found(),
            }
        }
    }
}

/// The action a request buffer calls for: a malformed or unrecognized
/// request gets a plain 404, everything else is routed by method and
/// path.
pub open spec fn spec_handle(req: Seq<char>) -> ActionView {
    let ls = spec_lines(req);
    if ls.len() == 0 {
        spec_not_found()
    } else {
        let toks = spec_tokens(ls[0]);
        if toks.len() < 2 {
            spec_not_found()
        } else {
            let path = toks[1];
            match spec_method(req) {
                MethodView::Get => spec_handle_get(req, path),
                MethodView::Post { body } => spec_handle_post(path, body),
                MethodView::Unknown => spec_not_found(),
            }
        }
    }
}

/// An empty 200 response value.
fn ok_empty_action() -> (a: Action)
    ensures
        a@ == spec_ok_empty(),
{
    Action::Respond(
        HttpResponse::OkText { content_type: "text/plain".to_owned(), body: String::new() },
    )
}

/// Decode, route, and decide one request.
pub fn handle_request(req: &str) -> (a: Action)
    ensures
        a@ == spec_handle(req@),
{
    if req.unicode_len() == 0 {
        proof {
            assert(spec_lines(req@).len() == 0);
        }
        return Action::Respond(HttpResponse::NotFound);
    }
    let method = extract_method(req);
    let path = match extract_path(req) {
        Some(p) => p,
        None => {
            return Action::Respond(HttpResponse::NotFound);
        },
    };
    match method {
        Method::Get => {
            if str_eq(path, "/") {
                ok_empty_action()
            } else {
                match split_route(path) {
                    None => Action::Respond(HttpResponse::NotFound),
                    Some((seg, tail)) => match Path::from(seg) {
                        Path::Echo => Action::Respond(
                            HttpResponse::OkText {
                                content_type: "text/plain".to_owned(),
                                body: tail.to_owned(),
                            },
                        ),
                        Path::UserAgent => match extract_user_agent(req) {
                            Some(ua) => Action::Respond(
                                HttpResponse::OkText {
                                    content_type: "text/plain".to_owned(),
                                    body: ua.to_owned(),
                                },
                            ),
                            None => Action::Respond(
                                HttpResponse::BadRequest(String::new()),
                            ),
                        },
                        Path::Files => match third_segment(path) {
                            Some(name) => Action::ReadFile { name: name.to_owned() },
                            None => Action::Respond(HttpResponse::NotFound),
                        },
                        Path::NotFound => Action::Respond(HttpResponse::NotFound),
                    },
                }
            }
        },
        Method::Post { body } => {
            if str_eq(path, "/") {
                ok_empty_action()
            } else {
                match split_route(path) {
                    None => Action::Respond(HttpResponse::NotFound),
                    Some((seg, _tail)) => match Path::from(seg) {
                        Path::Echo => ok_empty_action(),
                        Path::UserAgent => ok_empty_action(),
                        Path::Files => match third_segment(path) {
                            Some(name) => Action::WriteFile {
                                name: name.to_owned(),
                                body,
                            },
                            None => Action::Respond(HttpResponse::NotFound),
                        },
                        Path::NotFound => Action::Respond(HttpResponse::NotFound),
                    },
                }
            }
        },
        Method::Unknown => Action::Respond(HttpResponse::NotFound),
    }
}

/// The path under which the file routes resolve `name`:
/// `{root}/{name}`, with the configured root directory in front.
pub fn resolve_file_path(root: &str, name: &str) -> (r: String)
    ensures
        r@ == root@ + "/"@ + name@,
{
    let mut s = String::new();
    s.append(root);
    s.append("/");
    s.append(name);
    proof {
        assert(s@ =~= root@ + "/"@ + name@);
    }
    s
}

} // verus!
