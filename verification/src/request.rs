//! Decoding a raw request buffer: the method from the first line, the
//! target path as the second token of the first line, the `User-Agent`
//! header value, and — for POST — the body as the last line of the
//! buffer with its NUL padding stripped.

use vstd::prelude::*;
use crate::lines::find_prefix_line;
use crate::lines::first_line;
use crate::lines::lemma_find_prefix_at;
use crate::lines::lemma_find_prefix_none;
use crate::lines::lemma_lines_concat;
use crate::lines::lemma_lines_no_nl;
use crate::lines::lemma_lines_nonempty;
use crate::lines::lines_of;
use crate::lines::find_newline;
use crate::lines::spec_lines;
use crate::lines::strip_cr;
use crate::lines::views;
use crate::text::first_token;
use crate::text::is_prefix_of;
use crate::text::second_token;
use crate::text::spec_tokens;
use crate::text::starts_with;
use crate::text::str_eq;
use crate::text::trim_nuls;
use crate::text::trim_trailing_nuls;

verus! {

/// The request method, with the posted body attached to `Post` just as
/// the decoder recovers it from the buffer.
pub enum Method {
    Get,
    Post { body: String },
    Unknown,
}

/// The mathematical value of a decoded method.
pub enum MethodView {
    Get,
    Post { body: Seq<char> },
    Unknown,
}

impl View for Method {
    type V = MethodView;

    open spec fn view(&self) -> MethodView {
        match self {
            Method::Get => MethodView::Get,
            Method::Post { body } => MethodView::Post { body: body@ },
            Method::Unknown => MethodView::Unknown,
        }
    }
}

/// The method encoded by a buffer: the first line's method token must
/// equal `GET` or `POST` exactly; anything else — a different token, a
/// blank first line, or an empty buffer — is `Unknown`. A POST body is
/// taken from the buffer's last line, NUL padding stripped.
pub open spec fn spec_method(req: Seq<char>) -> MethodView {
    let ls = spec_lines(req);
    if ls.len() == 0 {
        MethodView::Unknown
    } else {
        let toks = spec_tokens(ls[0]);
        if toks.len() > 0 && toks[0] == "GET"@ {
            MethodView::Get
        } else if toks.len() > 0 && toks[0] == "POST"@ {
            MethodView::Post { body: trim_nuls(ls.last()) }
        } else {
            MethodView::Unknown
        }
    }
}

/// Decode the request method. A buffer with no recognizable method
/// token — the empty buffer included — decodes to `Unknown`.
pub fn extract_method(req: &str) -> (m: Method)
    ensures
        m@ == spec_method(req@),
{
    if req.unicode_len() == 0 {
        proof {
            assert(spec_lines(req@).len() == 0);
        }
        return Method::Unknown;
    }
    let line = first_line(req);
    let tok = match first_token(line) {
        Some(t) => t,
        None => {
            return Method::Unknown;
        },
    };
    if str_eq(tok, "GET") {
        Method::Get
    } else if str_eq(tok, "POST") {
        proof {
            lemma_lines_nonempty(req@);
        }
        let lines = lines_of(req);
        proof {
            assert(views(lines@).len() == lines@.len());
            assert(lines@.len() > 0);
        }
        let n = lines.len();
        let body = trim_trailing_nuls(lines[n - 1].as_str()).to_owned();
        proof {
            assert(views(lines@)[n - 1] == lines@[n - 1]@);
            assert(spec_lines(req@).last() == lines@[n - 1]@);
        }
        Method::Post { body }
    } else {
        Method::Unknown
    }
}

/// The target path of a request: the second whitespace-separated token
/// of the first line, when the first line has one.
pub fn extract_path<'a>(req: &'a str) -> (r: Option<&'a str>)
    ensures
        match r {
            Some(p) => {
                &&& spec_lines(req@).len() > 0
                &&& spec_tokens(spec_lines(req@)[0]).len() >= 2
                &&& p@ == spec_tokens(spec_lines(req@)[0])[1]
            },
            None => spec_lines(req@).len() == 0 || spec_tokens(
                spec_lines(req@)[0],
            ).len() < 2,
        },
{
    if req.unicode_len() == 0 {
        return None;
    }
    let line = first_line(req);
    second_token(line)
}

/// The `User-Agent` header value: the second token of the first line
/// that begins with `User-Agent`, when both exist.
pub fn extract_user_agent<'a>(req: &'a str) -> (r: Option<&'a str>)
    ensures
        ({
            let ls = spec_lines(req@);
            let i = find_prefix_line(ls, "User-Agent"@);
            match r {
                Some(u) => {
                    &&& i >= 0
                    &&& spec_tokens(ls[i]).len() >= 2
                    &&& u@ == spec_tokens(ls[i])[1]
                },
                None => i == -1 || (i >= 0 && spec_tokens(ls[i]).len() < 2),
            }
        }),
{
    let len = req.unicode_len();
    let ghost ls = spec_lines(req@);
    let ghost mut k: int = 0;
    let mut pos: usize = 0;
    proof {
        assert(req@.subrange(0, len as int) =~= req@);
        assert(ls.skip(0) =~= ls);
    }
    while pos < len
        invariant
            pos <= len,
            len == req@.len(),
            ls == spec_lines(req@),
            0 <= k <= ls.len(),
            spec_lines(req@.subrange(pos as int, len as int)) == ls.skip(k),
            forall|j: int| 0 <= j < k ==> !is_prefix_of("User-Agent"@, ls[j]),
        decreases len - pos,
    {
        let ghost suffix = req@.subrange(pos as int, len as int);
        proof {
            lemma_lines_nonempty(suffix);
            assert(ls.skip(k).len() > 0);
            assert(k < ls.len());
            assert(ls.skip(k)[0] == ls[k]);
        }
        let e = find_newline(req, pos);
        let line = if e == len {
            proof {
                lemma_lines_no_nl(suffix);
                assert(spec_lines(suffix)[0] == suffix);
            }
            req.substring_char(pos, len)
        } else {
            let end = if e > pos && req.get_char(e - 1) == '\r' {
                e - 1
            } else {
                e
            };
            proof {
                let chunk = req@.subrange(pos as int, e as int);
                let b = req@.subrange(e as int + 1, len as int);
                assert(suffix =~= chunk + seq!['\n'] + b);
                lemma_lines_concat(chunk, b);
                assert(strip_cr(chunk) =~= req@.subrange(pos as int, end as int)) by {
                    if e > pos && req@[e as int - 1] == '\r' {
                        assert(chunk.last() == '\r');
                        assert(chunk.drop_last() =~= req@.subrange(
                            pos as int,
                            e as int - 1,
                        ));
                    } else {
                        if chunk.len() > 0 {
                            assert(chunk.last() == req@[e as int - 1]);
                        }
                    }
                }
                assert(spec_lines(suffix)[0] == req@.subrange(pos as int, end as int));
            }
            req.substring_char(pos, end)
        };
        proof {
            assert(line@ == ls[k]);
        }
        if starts_with(line, "User-Agent") {
            proof {
                lemma_find_prefix_at(ls, "User-Agent"@, k);
            }
            return second_token(line);
        }
        proof {
            assert(!is_prefix_of("User-Agent"@, ls[k]));
            if e == len {
                assert(spec_lines(suffix) =~= seq![suffix]);
                assert(ls.skip(k).len() == 1);
                assert(k + 1 == ls.len());
                assert(spec_lines(req@.subrange(len as int, len as int)) =~= ls.skip(
                    k + 1,
                ));
            } else {
                let chunk = req@.subrange(pos as int, e as int);
                let b = req@.subrange(e as int + 1, len as int);
                assert(spec_lines(b) =~= ls.skip(k).drop_first());
                assert(ls.skip(k).drop_first() =~= ls.skip(k + 1));
            }
            k = k + 1;
        }
        if e == len {
            pos = len;
        } else {
            pos = e + 1;
        }
    }
    proof {
        assert(spec_lines(req@.subrange(pos as int, len as int)).len() == 0);
        assert(ls.skip(k).len() == 0);
        assert(k == ls.len());
        lemma_find_prefix_none(ls, "User-Agent"@);
    }
    None
}

} // verus!
