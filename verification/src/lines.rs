//! Splitting a request buffer into lines, with the same behaviour as
//! `str::lines`: lines end at `\n` or `\r\n`, the terminator is not part
//! of the line, and a final terminator does not open an empty last line.

use vstd::prelude::*;
use crate::text::is_prefix_of;

verus! {

/// `l` with a single trailing carriage return removed, if present.
pub open spec fn strip_cr(l: Seq<char>) -> Seq<char> {
    if l.len() > 0 && l.last() == '\r' {
        l.drop_last()
    } else {
        l
    }
}

/// The lines of `s`, in order.
pub open spec fn spec_lines(s: Seq<char>) -> Seq<Seq<char>>
    decreases s.len(),
{
    if s.len() == 0 {
        seq![]
    } else if s[0] == '\n' {
        seq![Seq::<char>::empty()] + spec_lines(s.drop_first())
    } else if s.len() >= 2 && s[0] == '\r' && s[1] == '\n' {
        seq![Seq::<char>::empty()] + spec_lines(s.subrange(2, s.len() as int))
    } else {
        let rest = spec_lines(s.drop_first());
        if rest.len() == 0 {
            seq![seq![s[0]]]
        } else {
            seq![seq![s[0]] + rest[0]] + rest.drop_first()
        }
    }
}

/// A non-empty string has at least one line.
pub proof fn lemma_lines_nonempty(s: Seq<char>)
    requires
        s.len() > 0,
    ensures
        spec_lines(s).len() > 0,
    decreases s.len(),
{
    if s[0] == '\n' {
    } else if s.len() >= 2 && s[0] == '\r' && s[1] == '\n' {
    } else {
        if s.len() > 1 {
            lemma_lines_nonempty(s.drop_first());
        }
    }
}

/// A non-empty string without a line feed is a single line.
pub proof fn lemma_lines_no_nl(s: Seq<char>)
    requires
        s.len() > 0,
        forall|i: int| 0 <= i < s.len() ==> s[i] != '\n',
    ensures
        spec_lines(s) == seq![s],
    decreases s.len(),
{
    if s.len() == 1 {
        assert(spec_lines(s.drop_first()) == Seq::<Seq<char>>::empty());
        assert(s =~= seq![s[0]]);
        assert(spec_lines(s) =~= seq![s]);
    } else {
        assert(forall|i: int|
            0 <= i < s.drop_first().len() ==> s.drop_first()[i] != '\n');
        lemma_lines_no_nl(s.drop_first());
        assert(seq![s[0]] + s.drop_first() =~= s);
        assert(spec_lines(s) =~= seq![s]);
    }
}

/// Splitting at the first line feed: everything before it (minus a
/// trailing carriage return) is the first line, and the rest of the
/// buffer supplies the remaining lines.
pub proof fn lemma_lines_concat(a: Seq<char>, b: Seq<char>)
    requires
        forall|i: int| 0 <= i < a.len() ==> a[i] != '\n',
    ensures
        spec_lines(a + seq!['\n'] + b) == seq![strip_cr(a)] + spec_lines(b),
    decreases a.len(),
{
    let u = a + seq!['\n'] + b;
    if a.len() == 0 {
        assert(u[0] == '\n');
        assert(u.drop_first() =~= b);
        assert(strip_cr(a) =~= Seq::<char>::empty());
        assert(spec_lines(u) =~= seq![strip_cr(a)] + spec_lines(b));
    } else if a.len() == 1 && a[0] == '\r' {
        assert(u.len() >= 2 && u[0] == '\r' && u[1] == '\n');
        assert(u.subrange(2, u.len() as int) =~= b);
        assert(strip_cr(a) =~= Seq::<char>::empty());
        assert(spec_lines(u) =~= seq![strip_cr(a)] + spec_lines(b));
    } else {
        assert(u[0] == a[0]);
        assert(u[0] != '\n');
        assert(!(u.len() >= 2 && u[0] == '\r' && u[1] == '\n')) by {
            if a.len() == 1 {
                assert(u[1] == '\n');
                assert(a[0] != '\r');
            } else {
                assert(u[1] == a[1]);
            }
        }
        assert(u.drop_first() =~= a.drop_first() + seq!['\n'] + b);
        assert(forall|i: int|
            0 <= i < a.drop_first().len() ==> a.drop_first()[i] != '\n');
        lemma_lines_concat(a.drop_first(), b);
        let rest = spec_lines(u.drop_first());
        assert(rest == seq![strip_cr(a.drop_first())] + spec_lines(b));
        assert(rest.len() > 0);
        assert(rest[0] == strip_cr(a.drop_first()));
        assert(seq![u[0]] + rest[0] =~= strip_cr(a)) by {
            if a.len() >= 2 {
                assert(a.drop_first().last() == a.last());
                if a.last() == '\r' {
                    assert(seq![a[0]] + a.drop_first().drop_last() =~= a.drop_last());
                } else {
                    assert(seq![a[0]] + a.drop_first() =~= a);
                }
            } else {
                assert(a.drop_first().len() == 0);
                assert(a[0] != '\r');
                assert(seq![a[0]] =~= a);
            }
        }
        assert(rest.drop_first() =~= spec_lines(b));
        assert(spec_lines(u) =~= seq![strip_cr(a)] + spec_lines(b));
    }
}

/// First position at or after `from` holding a line feed, or the end of
/// the string.
pub fn find_newline(s: &str, from: usize) -> (r: usize)
    requires
        from <= s@.len(),
    ensures
        from <= r <= s@.len(),
        forall|j: int| from <= j < r ==> s@[j] != '\n',
        r < s@.len() ==> s@[r as int] == '\n',
{
    let len = s.unicode_len();
    let mut i: usize = from;
    while i < len
        invariant
            from <= i <= len,
            len == s@.len(),
            forall|j: int| from <= j < i ==> s@[j] != '\n',
        decreases len - i,
    {
        if s.get_char(i) == '\n' {
            return i;
        }
        i = i + 1;
    }
    i
}

/// The first line of a non-empty buffer, as a slice of it.
pub fn first_line<'a>(s: &'a str) -> (r: &'a str)
    requires
        s@.len() > 0,
    ensures
        spec_lines(s@).len() > 0,
        r@ == spec_lines(s@)[0],
{
    proof {
        lemma_lines_nonempty(s@);
    }
    let len = s.unicode_len();
    let e = find_newline(s, 0);
    if e == len {
        proof {
            assert(s@.subrange(0, len as int) =~= s@);
            lemma_lines_no_nl(s@);
        }
        s
    } else {
        let end = if e > 0 && s.get_char(e - 1) == '\r' {
            e - 1
        } else {
            e
        };
        proof {
            let chunk = s@.subrange(0, e as int);
            let b = s@.subrange(e as int + 1, s@.len() as int);
            assert(s@ =~= chunk + seq!['\n'] + b);
            lemma_lines_concat(chunk, b);
            assert(strip_cr(chunk) =~= s@.subrange(0, end as int)) by {
                if e > 0 && s@[e as int - 1] == '\r' {
                    assert(chunk.last() == '\r');
                    assert(chunk.drop_last() =~= s@.subrange(0, e as int - 1));
                } else {
                    if chunk.len() > 0 {
                        assert(chunk.last() == s@[e as int - 1]);
                    }
                }
            }
        }
        s.substring_char(0, end)
    }
}

/// The views of a sequence of owned strings.
pub open spec fn views(vs: Seq<String>) -> Seq<Seq<char>> {
    vs.map_values(|v: String| v@)
}

/// All lines of `s`, as owned strings.
pub fn lines_of(s: &str) -> (r: Vec<String>)
    ensures
        views(r@) == spec_lines(s@),
{
    let len = s.unicode_len();
    let mut result: Vec<String> = Vec::new();
    let mut pos: usize = 0;
    proof {
        assert(s@.subrange(0, len as int) =~= s@);
        assert(views(result@) =~= Seq::<Seq<char>>::empty());
        assert(spec_lines(s@) =~= views(result@) + spec_lines(
            s@.subrange(0, len as int),
        ));
    }
    while pos < len
        invariant
            pos <= len,
            len == s@.len(),
            spec_lines(s@) == views(result@) + spec_lines(
                s@.subrange(pos as int, len as int),
            ),
        decreases len - pos,
    {
        let ghost prev = result@;
        let e = find_newline(s, pos);
        if e == len {
            let line = s.substring_char(pos, len);
            result.push(line.to_owned());
            proof {
                let chunk = s@.subrange(pos as int, len as int);
                lemma_lines_no_nl(chunk);
                assert(views(result@) =~= views(prev) + seq![chunk]);
                assert(spec_lines(s@) =~= views(result@) + spec_lines(
                    s@.subrange(len as int, len as int),
                )) by {
                    assert(spec_lines(s@.subrange(len as int, len as int)) =~= Seq::<
                        Seq<char>,
                    >::empty());
                }
            }
            pos = len;
        } else {
            let end = if e > pos && s.get_char(e - 1) == '\r' {
                e - 1
            } else {
                e
            };
            let line = s.substring_char(pos, end);
            result.push(line.to_owned());
            proof {
                let suffix = s@.subrange(pos as int, len as int);
                let chunk = s@.subrange(pos as int, e as int);
                let b = s@.subrange(e as int + 1, len as int);
                assert(suffix =~= chunk + seq!['\n'] + b);
                lemma_lines_concat(chunk, b);
                assert(strip_cr(chunk) =~= s@.subrange(pos as int, end as int)) by {
                    if e > pos && s@[e as int - 1] == '\r' {
                        assert(chunk.last() == '\r');
                        assert(chunk.drop_last() =~= s@.subrange(
                            pos as int,
                            e as int - 1,
                        ));
                    } else {
                        if chunk.len() > 0 {
                            assert(chunk.last() == s@[e as int - 1]);
                        }
                    }
                }
                assert(views(result@) =~= views(prev) + seq![strip_cr(chunk)]);
                assert(spec_lines(s@) =~= views(result@) + spec_lines(b));
            }
            pos = e + 1;
        }
    }
    proof {
        assert(spec_lines(s@.subrange(pos as int, len as int)) =~= Seq::<
            Seq<char>,
        >::empty());
        assert(views(result@) =~= spec_lines(s@));
    }
    result
}

/// Index of the first line that begins with `p`, or `-1` when none does.
pub open spec fn find_prefix_line(ls: Seq<Seq<char>>, p: Seq<char>) -> int
    decreases ls.len(),
{
    if ls.len() == 0 {
        -1
    } else if is_prefix_of(p, ls[0]) {
        0
    } else {
        let r = find_prefix_line(ls.drop_first(), p);
        if r < 0 {
            -1
        } else {
            r + 1
        }
    }
}

/// When the first `k` lines lack the prefix and line `k` has it, `k` is
/// the index found.
pub proof fn lemma_find_prefix_at(ls: Seq<Seq<char>>, p: Seq<char>, k: int)
    requires
        0 <= k < ls.len(),
        forall|j: int| 0 <= j < k ==> !is_prefix_of(p, ls[j]),
        is_prefix_of(p, ls[k]),
    ensures
        find_prefix_line(ls, p) == k,
    decreases k,
{
    if k == 0 {
    } else {
        assert(!is_prefix_of(p, ls[0]));
        assert(forall|j: int|
            0 <= j < k - 1 ==> !is_prefix_of(p, ls.drop_first()[j]));
        assert(ls.drop_first()[k - 1] == ls[k]);
        lemma_find_prefix_at(ls.drop_first(), p, k - 1);
    }
}

/// When no line has the prefix, nothing is found.
pub proof fn lemma_find_prefix_none(ls: Seq<Seq<char>>, p: Seq<char>)
    requires
        forall|j: int| 0 <= j < ls.len() ==> !is_prefix_of(p, ls[j]),
    ensures
        find_prefix_line(ls, p) == -1,
    decreases ls.len(),
{
    if ls.len() > 0 {
        assert(forall|j: int|
            0 <= j < ls.drop_first().len() ==> !is_prefix_of(p, ls.drop_first()[j]));
        lemma_find_prefix_none(ls.drop_first(), p);
    }
}

} // verus!
