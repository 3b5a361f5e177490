//! Character-level text utilities shared by the request decoder and the
//! response encoder: prefix tests, line splitting, whitespace tokenizing,
//! and splitting/joining path segments on `/`.

use vstd::prelude::*;

verus! {

/// True when `p` is a prefix of `s`.
pub open spec fn is_prefix_of(p: Seq<char>, s: Seq<char>) -> bool {
    p.len() <= s.len() && s.subrange(0, p.len() as int) == p
}

/// Character-by-character string equality, usable where the views are known.
pub fn str_eq(a: &str, b: &str) -> (r: bool)
    ensures
        r == (a@ == b@),
{
    let alen = a.unicode_len();
    let blen = b.unicode_len();
    if alen != blen {
        assert(a@ != b@) by {
            assert(a@.len() != b@.len());
        }
        return false;
    }
    let mut i: usize = 0;
    while i < alen
        invariant
            alen == a@.len(),
            blen == b@.len(),
            alen == blen,
            i <= alen,
            forall|j: int| 0 <= j < i ==> a@[j] == b@[j],
        decreases alen - i,
    {
        if a.get_char(i) != b.get_char(i) {
            return false;
        }
        i = i + 1;
    }
    proof {
        assert(a@ =~= b@);
    }
    true
}

/// `s` with every trailing NUL character removed. A request read into a
/// fixed-size buffer is padded with NULs past its end; the padding is not
/// part of a posted body.
pub open spec fn trim_nuls(s: Seq<char>) -> Seq<char>
    decreases s.len(),
{
    if s.len() > 0 && s.last() == '\0' {
        trim_nuls(s.drop_last())
    } else {
        s
    }
}

/// The longest prefix of `s` that does not end in a NUL character.
pub fn trim_trailing_nuls<'a>(s: &'a str) -> (r: &'a str)
    ensures
        r@ == trim_nuls(s@),
{
    let len = s.unicode_len();
    let mut i: usize = len;
    proof {
        assert(s@.subrange(0, len as int) =~= s@);
    }
    while i > 0 && s.get_char(i - 1) == '\0'
        invariant
            i <= len,
            len == s@.len(),
            trim_nuls(s@) == trim_nuls(s@.subrange(0, i as int)),
        decreases i,
    {
        proof {
            let t = s@.subrange(0, i as int);
            assert(t.last() == '\0');
            assert(t.drop_last() =~= s@.subrange(0, i as int - 1));
        }
        i = i - 1;
    }
    proof {
        let t = s@.subrange(0, i as int);
        assert(!(t.len() > 0 && t.last() == '\0'));
        assert(trim_nuls(t) == t);
    }
    s.substring_char(0, i)
}

/// The whitespace characters that separate the tokens of a request line.
pub open spec fn is_ws(c: char) -> bool {
    c == ' ' || c == '\t' || c == '\r' || c == '\n'
}

/// The maximal runs of non-whitespace characters in `s`, in order.
pub open spec fn spec_tokens(s: Seq<char>) -> Seq<Seq<char>>
    decreases s.len(),
{
    if s.len() == 0 {
        seq![]
    } else if is_ws(s[0]) {
        spec_tokens(s.drop_first())
    } else {
        let rest = spec_tokens(s.drop_first());
        if s.len() >= 2 && !is_ws(s[1]) {
            seq![seq![s[0]] + rest[0]] + rest.drop_first()
        } else {
            seq![seq![s[0]]] + rest
        }
    }
}

/// Tokenizing ignores leading whitespace.
pub proof fn lemma_tokens_skip_ws(w: Seq<char>, t: Seq<char>)
    requires
        forall|i: int| 0 <= i < w.len() ==> is_ws(w[i]),
    ensures
        spec_tokens(w + t) == spec_tokens(t),
    decreases w.len(),
{
    if w.len() == 0 {
        assert(w + t =~= t);
    } else {
        let u = w + t;
        assert(is_ws(u[0]));
        assert(u.drop_first() =~= w.drop_first() + t);
        assert(forall|i: int| 0 <= i < w.drop_first().len() ==> is_ws(w.drop_first()[i]));
        lemma_tokens_skip_ws(w.drop_first(), t);
    }
}

/// A leading run of non-whitespace characters, ended by whitespace or the
/// end of the string, is the first token.
pub proof fn lemma_tokens_head(t: Seq<char>, r: Seq<char>)
    requires
        t.len() > 0,
        forall|i: int| 0 <= i < t.len() ==> !is_ws(t[i]),
        r.len() == 0 || is_ws(r[0]),
    ensures
        spec_tokens(t + r) == seq![t] + spec_tokens(r),
    decreases t.len(),
{
    let u = t + r;
    assert(!is_ws(u[0]));
    assert(u.drop_first() =~= t.drop_first() + r);
    if t.len() == 1 {
        assert(!(u.len() >= 2 && !is_ws(u[1])));
        assert(u.drop_first() =~= r);
        assert(t =~= seq![u[0]]);
        assert(spec_tokens(u) =~= seq![t] + spec_tokens(r));
    } else {
        assert(forall|i: int|
            0 <= i < t.drop_first().len() ==> !is_ws(t.drop_first()[i]));
        lemma_tokens_head(t.drop_first(), r);
        let rest = spec_tokens(u.drop_first());
        assert(rest == seq![t.drop_first()] + spec_tokens(r));
        assert(u.len() >= 2 && !is_ws(u[1]));
        assert(rest[0] == t.drop_first());
        assert(seq![u[0]] + rest[0] =~= t);
        assert(rest.drop_first() =~= spec_tokens(r));
        assert(spec_tokens(u) =~= seq![t] + spec_tokens(r));
    }
}

/// A string of whitespace alone has no tokens.
pub proof fn lemma_tokens_all_ws(w: Seq<char>)
    requires
        forall|i: int| 0 <= i < w.len() ==> is_ws(w[i]),
    ensures
        spec_tokens(w) == Seq::<Seq<char>>::empty(),
{
    lemma_tokens_skip_ws(w, Seq::<char>::empty());
    assert(w + Seq::<char>::empty() =~= w);
}

/// Whether `c` separates tokens.
pub fn is_ws_char(c: char) -> (r: bool)
    ensures
        r == is_ws(c),
{
    c == ' ' || c == '\t' || c == '\r' || c == '\n'
}

/// First position at or after `from` holding a non-whitespace character,
/// or the end of the string.
pub fn skip_ws(s: &str, from: usize) -> (r: usize)
    requires
        from <= s@.len(),
    ensures
        from <= r <= s@.len(),
        forall|j: int| from <= j < r ==> is_ws(s@[j]),
        r < s@.len() ==> !is_ws(s@[r as int]),
{
    let len = s.unicode_len();
    let mut i: usize = from;
    while i < len
        invariant
            from <= i <= len,
            len == s@.len(),
            forall|j: int| from <= j < i ==> is_ws(s@[j]),
        decreases len - i,
    {
        if !is_ws_char(s.get_char(i)) {
            return i;
        }
        i = i + 1;
    }
    i
}

/// First position at or after `from` holding a whitespace character,
/// or the end of the string.
pub fn scan_token(s: &str, from: usize) -> (r: usize)
    requires
        from <= s@.len(),
    ensures
        from <= r <= s@.len(),
        forall|j: int| from <= j < r ==> !is_ws(s@[j]),
        r < s@.len() ==> is_ws(s@[r as int]),
{
    let len = s.unicode_len();
    let mut i: usize = from;
    while i < len
        invariant
            from <= i <= len,
            len == s@.len(),
            forall|j: int| from <= j < i ==> !is_ws(s@[j]),
        decreases len - i,
    {
        if is_ws_char(s.get_char(i)) {
            return i;
        }
        i = i + 1;
    }
    i
}

/// The first whitespace-separated token of `line`, if there is one.
pub fn first_token<'a>(line: &'a str) -> (r: Option<&'a str>)
    ensures
        match r {
            Some(t) => spec_tokens(line@).len() >= 1 && t@ == spec_tokens(line@)[0],
            None => spec_tokens(line@).len() == 0,
        },
{
    let s = line;
    let len = s.unicode_len();
    let a = skip_ws(s, 0);
    if a == len {
        proof {
            assert(s@.subrange(0, len as int) =~= s@);
            lemma_tokens_all_ws(s@);
        }
        return None;
    }
    let b = scan_token(s, a);
    proof {
        let w0 = s@.subrange(0, a as int);
        let t1 = s@.subrange(a as int, b as int);
        let r1 = s@.subrange(b as int, len as int);
        assert(s@ =~= w0 + (t1 + r1));
        lemma_tokens_skip_ws(w0, t1 + r1);
        lemma_tokens_head(t1, r1);
        assert(spec_tokens(s@) == seq![t1] + spec_tokens(r1));
        assert(spec_tokens(s@)[0] == t1);
    }
    Some(s.substring_char(a, b))
}

/// The second whitespace-separated token of `line`, if there is one.
pub fn second_token<'a>(line: &'a str) -> (r: Option<&'a str>)
    ensures
        match r {
            Some(t) => spec_tokens(line@).len() >= 2 && t@ == spec_tokens(line@)[1],
            None => spec_tokens(line@).len() < 2,
        },
{
    let s = line;
    let len = s.unicode_len();
    let a = skip_ws(s, 0);
    if a == len {
        proof {
            assert(s@.subrange(0, len as int) =~= s@);
            lemma_tokens_all_ws(s@);
        }
        return None;
    }
    let b = scan_token(s, a);
    proof {
        let w0 = s@.subrange(0, a as int);
        let t1 = s@.subrange(a as int, b as int);
        let r1 = s@.subrange(b as int, len as int);
        assert(s@ =~= w0 + (t1 + r1));
        lemma_tokens_skip_ws(w0, t1 + r1);
        lemma_tokens_head(t1, r1);
        assert(spec_tokens(s@) == seq![t1] + spec_tokens(r1));
    }
    let c = skip_ws(s, b);
    if c == len {
        proof {
            let r1 = s@.subrange(b as int, len as int);
            lemma_tokens_all_ws(r1);
            assert(spec_tokens(s@).len() == 1);
        }
        return None;
    }
    let d = scan_token(s, c);
    proof {
        let r1 = s@.subrange(b as int, len as int);
        let w1 = s@.subrange(b as int, c as int);
        let t2 = s@.subrange(c as int, d as int);
        let r2 = s@.subrange(d as int, len as int);
        assert(r1 =~= w1 + (t2 + r2));
        lemma_tokens_skip_ws(w1, t2 + r2);
        lemma_tokens_head(t2, r2);
        assert(spec_tokens(s@) == seq![s@.subrange(a as int, b as int)] + (seq![t2]
            + spec_tokens(r2)));
        assert(spec_tokens(s@)[1] == t2);
    }
    Some(s.substring_char(c, d))
}

/// True when the first `p.unicode_len()` characters of `s` spell `p`.
pub fn starts_with(s: &str, p: &str) -> (r: bool)
    ensures
        r == is_prefix_of(p@, s@),
{
    let plen = p.unicode_len();
    let slen = s.unicode_len();
    if plen > slen {
        return false;
    }
    let mut i: usize = 0;
    while i < plen
        invariant
            plen == p@.len(),
            slen == s@.len(),
            plen <= slen,
            i <= plen,
            forall|j: int| 0 <= j < i ==> s@[j] == p@[j],
        decreases plen - i,
    {
        if s.get_char(i) != p.get_char(i) {
            assert(!is_prefix_of(p@, s@)) by {
                assert(s@.subrange(0, p@.len() as int)[i as int] != p@[i as int]);
            }
            return false;
        }
        i = i + 1;
    }
    proof {
        assert(s@.subrange(0, p@.len() as int) =~= p@);
    }
    true
}

} // verus!
