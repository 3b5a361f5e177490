//! Splitting a request path into `/`-separated segments and joining
//! segments back together. Splitting then joining reproduces the original
//! text, which is what lets the echo route reflect a path tail verbatim.

use vstd::prelude::*;

verus! {

/// The `/`-separated segments of `s`. Splitting an empty string gives one
/// empty segment, as `str::split` does.
pub open spec fn spec_split(s: Seq<char>) -> Seq<Seq<char>>
    decreases s.len(),
{
    if s.len() == 0 {
        seq![Seq::<char>::empty()]
    } else if s[0] == '/' {
        seq![Seq::<char>::empty()] + spec_split(s.drop_first())
    } else {
        let rest = spec_split(s.drop_first());
        if rest.len() == 0 {
            seq![seq![s[0]]]
        } else {
            seq![seq![s[0]] + rest[0]] + rest.drop_first()
        }
    }
}

/// The segments joined back with `/` between them.
pub open spec fn spec_join(parts: Seq<Seq<char>>) -> Seq<char>
    decreases parts.len(),
{
    if parts.len() == 0 {
        Seq::<char>::empty()
    } else if parts.len() == 1 {
        parts[0]
    } else {
        parts[0] + seq!['/'] + spec_join(parts.drop_first())
    }
}

/// Splitting yields at least one segment.
pub proof fn lemma_split_nonempty(s: Seq<char>)
    ensures
        spec_split(s).len() > 0,
    decreases s.len(),
{
    if s.len() > 0 {
        lemma_split_nonempty(s.drop_first());
    }
}

/// Joining the segments of `s` gives back `s` exactly.
pub proof fn lemma_join_split(s: Seq<char>)
    ensures
        spec_join(spec_split(s)) == s,
    decreases s.len(),
{
    if s.len() == 0 {
        assert(spec_join(spec_split(s)) =~= s);
    } else if s[0] == '/' {
        lemma_join_split(s.drop_first());
        lemma_split_nonempty(s.drop_first());
        let parts = seq![Seq::<char>::empty()] + spec_split(s.drop_first());
        assert(parts.len() >= 2);
        assert(parts.drop_first() =~= spec_split(s.drop_first()));
        assert(spec_join(parts) =~= s);
    } else {
        lemma_join_split(s.drop_first());
        lemma_split_nonempty(s.drop_first());
        let rest = spec_split(s.drop_first());
        if rest.len() == 1 {
            assert(spec_split(s) =~= seq![seq![s[0]] + rest[0]]);
            assert(spec_join(spec_split(s)) == seq![s[0]] + rest[0]);
            assert(spec_join(rest) == rest[0]);
            assert(seq![s[0]] + rest[0] =~= s);
        } else {
            let parts = seq![seq![s[0]] + rest[0]] + rest.drop_first();
            assert(parts.len() >= 2);
            assert(parts[0] == seq![s[0]] + rest[0]);
            assert(parts.drop_first() =~= rest.drop_first());
            assert(spec_join(parts) == parts[0] + seq!['/'] + spec_join(
                rest.drop_first(),
            ));
            assert(spec_join(rest) == rest[0] + seq!['/'] + spec_join(
                rest.drop_first(),
            ));
            assert(parts[0] + seq!['/'] + spec_join(rest.drop_first()) =~= seq![s[0]]
                + spec_join(rest));
            assert(seq![s[0]] + spec_join(rest) =~= s);
        }
    }
}

/// Splitting at the first separator: everything before the first `/` is
/// the first segment, the rest of the string supplies the others.
pub proof fn lemma_split_concat(a: Seq<char>, b: Seq<char>)
    requires
        forall|i: int| 0 <= i < a.len() ==> a[i] != '/',
    ensures
        spec_split(a + seq!['/'] + b) == seq![a] + spec_split(b),
    decreases a.len(),
{
    let u = a + seq!['/'] + b;
    if a.len() == 0 {
        assert(u[0] == '/');
        assert(u.drop_first() =~= b);
        assert(a =~= Seq::<char>::empty());
        assert(spec_split(u) =~= seq![a] + spec_split(b));
    } else {
        assert(u[0] == a[0]);
        assert(u[0] != '/');
        assert(u.drop_first() =~= a.drop_first() + seq!['/'] + b);
        assert(forall|i: int|
            0 <= i < a.drop_first().len() ==> a.drop_first()[i] != '/');
        lemma_split_concat(a.drop_first(), b);
        let rest = spec_split(u.drop_first());
        assert(rest == seq![a.drop_first()] + spec_split(b));
        lemma_split_nonempty(b);
        assert(rest.len() >= 2);
        assert(rest[0] == a.drop_first());
        assert(seq![u[0]] + rest[0] =~= a);
        assert(rest.drop_first() =~= spec_split(b));
        assert(spec_split(u) =~= seq![a] + spec_split(b));
    }
}

/// A string without separators is a single segment.
pub proof fn lemma_split_no_sep(s: Seq<char>)
    requires
        forall|i: int| 0 <= i < s.len() ==> s[i] != '/',
    ensures
        spec_split(s) == seq![s],
    decreases s.len(),
{
    if s.len() == 0 {
        assert(s =~= Seq::<char>::empty());
        assert(spec_split(s) =~= seq![s]);
    } else {
        assert(forall|i: int|
            0 <= i < s.drop_first().len() ==> s.drop_first()[i] != '/');
        lemma_split_no_sep(s.drop_first());
        let rest = spec_split(s.drop_first());
        assert(rest.len() == 1);
        assert(rest[0] == s.drop_first());
        assert(rest.drop_first() =~= Seq::<Seq<char>>::empty());
        assert(seq![s[0]] + s.drop_first() =~= s);
        assert(spec_split(s) =~= seq![s]);
    }
}

/// First position at or after `from` holding a separator, or the end of
/// the string.
fn find_slash(s: &str, from: usize) -> (r: usize)
    requires
        from <= s@.len(),
    ensures
        from <= r <= s@.len(),
        forall|j: int| from <= j < r ==> s@[j] != '/',
        r < s@.len() ==> s@[r as int] == '/',
{
    let len = s.unicode_len();
    let mut i: usize = from;
    while i < len
        invariant
            from <= i <= len,
            len == s@.len(),
            forall|j: int| from <= j < i ==> s@[j] != '/',
        decreases len - i,
    {
        if s.get_char(i) == '/' {
            return i;
        }
        i = i + 1;
    }
    i
}

/// The second segment of `path` and the text after the second separator,
/// when the path has at least two segments: for `/files/report.txt`, the
/// segment is `files` and the tail is `report.txt`. The tail equals the
/// remaining segments joined back with `/`.
pub fn split_route<'a>(path: &'a str) -> (r: Option<(&'a str, &'a str)>)
    ensures
        match r {
            Some(p) => {
                let segs = spec_split(path@);
                &&& segs.len() >= 2
                &&& p.0@ == segs[1]
                &&& p.1@ == spec_join(segs.skip(2))
            },
            None => spec_split(path@).len() < 2,
        },
{
    let len = path.unicode_len();
    let i1 = find_slash(path, 0);
    if i1 == len {
        proof {
            assert(path@.subrange(0, len as int) =~= path@);
            lemma_split_no_sep(path@);
        }
        return None;
    }
    let i2 = find_slash(path, i1 + 1);
    proof {
        let a = path@.subrange(0, i1 as int);
        let b = path@.subrange(i1 as int + 1, len as int);
        assert(path@ =~= a + seq!['/'] + b);
        lemma_split_concat(a, b);
    }
    if i2 == len {
        let seg = path.substring_char(i1 + 1, len);
        proof {
            let a = path@.subrange(0, i1 as int);
            let b = path@.subrange(i1 as int + 1, len as int);
            lemma_split_no_sep(b);
            let segs = spec_split(path@);
            assert(segs == seq![a] + seq![b]);
            assert(segs.len() == 2);
            assert(segs[1] == b);
            assert(segs.skip(2) =~= Seq::<Seq<char>>::empty());
            reveal_strlit("");
            assert(""@ =~= spec_join(segs.skip(2)));
        }
        Some((seg, ""))
    } else {
        let seg = path.substring_char(i1 + 1, i2);
        let tail = path.substring_char(i2 + 1, len);
        proof {
            let a = path@.subrange(0, i1 as int);
            let b = path@.subrange(i1 as int + 1, len as int);
            let c = path@.subrange(i1 as int + 1, i2 as int);
            let d = path@.subrange(i2 as int + 1, len as int);
            assert(b =~= c + seq!['/'] + d);
            lemma_split_concat(c, d);
            lemma_split_nonempty(d);
            let segs = spec_split(path@);
            assert(segs == seq![a] + (seq![c] + spec_split(d)));
            assert(segs.len() >= 2);
            assert(segs[1] == c);
            assert(segs.skip(2) =~= spec_split(d));
            lemma_join_split(d);
        }
        Some((seg, tail))
    }
}

/// The third segment of `path`, when there is one: for
/// `/files/report.txt` it is `report.txt`; anything after a further `/`
/// is not part of it.
pub fn third_segment<'a>(path: &'a str) -> (r: Option<&'a str>)
    ensures
        match r {
            Some(seg) => spec_split(path@).len() >= 3 && seg@ == spec_split(path@)[2],
            None => spec_split(path@).len() < 3,
        },
{
    let len = path.unicode_len();
    let i1 = find_slash(path, 0);
    if i1 == len {
        proof {
            assert(path@.subrange(0, len as int) =~= path@);
            lemma_split_no_sep(path@);
        }
        return None;
    }
    let i2 = find_slash(path, i1 + 1);
    proof {
        let a = path@.subrange(0, i1 as int);
        let b = path@.subrange(i1 as int + 1, len as int);
        assert(path@ =~= a + seq!['/'] + b);
        lemma_split_concat(a, b);
    }
    if i2 == len {
        proof {
            let b = path@.subrange(i1 as int + 1, len as int);
            lemma_split_no_sep(b);
            assert(spec_split(path@).len() == 2);
        }
        return None;
    }
    let i3 = find_slash(path, i2 + 1);
    let seg = path.substring_char(i2 + 1, i3);
    proof {
        let a = path@.subrange(0, i1 as int);
        let b = path@.subrange(i1 as int + 1, len as int);
        let c = path@.subrange(i1 as int + 1, i2 as int);
        let d = path@.subrange(i2 as int + 1, len as int);
        assert(b =~= c + seq!['/'] + d);
        lemma_split_concat(c, d);
        let segs = spec_split(path@);
        assert(segs == seq![a] + (seq![c] + spec_split(d)));
        lemma_split_nonempty(d);
        assert(segs.len() >= 3);
        if i3 == len {
            lemma_split_no_sep(d);
            assert(segs[2] == d);
            assert(seg@ == d);
        } else {
            let e = path@.subrange(i2 as int + 1, i3 as int);
            let f = path@.subrange(i3 as int + 1, len as int);
            assert(d =~= e + seq!['/'] + f);
            lemma_split_concat(e, f);
            assert(spec_split(d)[0] == e);
            assert(segs[2] == e);
        }
    }
    Some(seg)
}

} // verus!
