//! Unix path arithmetic on path strings: joining, naming, and containment of
//! canonical paths.
use vstd::prelude::*;
use crate::text::{append_chars, chars_eq, chars_start_with, from_chars, has_prefix, owned, slice_chars, to_chars};

verus! {

/// `rel` resolved against `base` as `Path::join` does on Unix: an absolute
/// `rel` replaces `base`; otherwise a `/` goes between them unless `base` is
/// empty or already ends with one.
pub open spec fn path_join(base: Seq<char>, rel: Seq<char>) -> Seq<char> {
    if rel.len() > 0 && rel[0] == '/' {
        rel
    } else if base.len() == 0 || base.last() == '/' {
        base + rel
    } else {
        base + seq!['/'] + rel
    }
}

/// `p` lies in the directory `base`, both canonical absolute paths: the
/// components of `base` are a prefix of those of `p` (`Path::starts_with`).
pub open spec fn within(p: Seq<char>, base: Seq<char>) -> bool {
    ||| p == base
    ||| has_prefix(p, base + seq!['/'])
    ||| (base == seq!['/'] && has_prefix(p, seq!['/']))
}

/// `rel` joined onto `base` as `Path::join` does.
pub fn join_path(base: &str, rel: &str) -> (r: String)
    ensures
        r@ == path_join(base@, rel@),
{
    let b = to_chars(base);
    let rv = to_chars(rel);
    if rv.len() > 0 && rv[0] == '/' {
        return owned(rel);
    }
    let mut out = b;
    if out.len() > 0 && out[out.len() - 1] != '/' {
        out.push('/');
    }
    append_chars(&mut out, &rv);
    let r = from_chars(&out);
    assert(r@ =~= path_join(base@, rel@));
    r
}

/// Whether a canonical path lies in the canonical directory `base`.
pub fn is_within(p: &str, base: &str) -> (r: bool)
    ensures
        r == within(p@, base@),
{
    let pv = to_chars(p);
    let bv = to_chars(base);
    let mut bs = to_chars(base);
    bs.push('/');
    let mut slash: Vec<char> = Vec::new();
    slash.push('/');
    assert(slash@ =~= seq!['/']);
    assert(bs@ =~= base@ + seq!['/']);
    let root = chars_eq(&bv, &slash);
    chars_eq(&pv, &bv) || chars_start_with(&pv, &bs) || (root && chars_start_with(
        &pv,
        &slash,
    ))
}

/// The pieces of `s` between `/` separators, from a scan position: `start`
/// begins the current piece and `i` is the next character to look at.
pub open spec fn pieces_from(s: Seq<char>, start: int, i: int) -> Seq<Seq<char>>
    decreases s.len() - i,
{
    if i < start || start < 0 || i >= s.len() {
        if 0 <= start <= s.len() {
            seq![s.subrange(start, s.len() as int)]
        } else {
            seq![]
        }
    } else if s[i] == '/' {
        seq![s.subrange(start, i)] + pieces_from(s, i + 1, i + 1)
    } else {
        pieces_from(s, start, i + 1)
    }
}

/// The pieces of `s` between `/` separators, empty ones included.
pub open spec fn pieces(s: Seq<char>) -> Seq<Seq<char>> {
    pieces_from(s, 0, 0)
}

/// The pieces that name something: not empty and not `.`.
pub open spec fn named(ps: Seq<Seq<char>>) -> Seq<Seq<char>>
    decreases ps.len(),
{
    if ps.len() == 0 {
        seq![]
    } else {
        let rest = named(ps.drop_last());
        let l = ps.last();
        if l.len() > 0 && l != seq!['.'] {
            rest.push(l)
        } else {
            rest
        }
    }
}

/// The final component of a path (`Path::file_name` on Unix): the last piece
/// that names something, unless there is none or it is `..`.
pub open spec fn file_name(p: Seq<char>) -> Option<Seq<char>> {
    let n = named(pieces(p));
    if n.len() == 0 || n.last() == seq!['.', '.'] {
        None
    } else {
        Some(n.last())
    }
}

/// The pieces of `s` between `/` separators.
pub fn split_pieces(s: &[char]) -> (r: Vec<Vec<char>>)
    ensures
        r@.map_values(|l: Vec<char>| l@) == pieces(s@),
{
    let mut r: Vec<Vec<char>> = Vec::new();
    let mut start: usize = 0;
    let mut i: usize = 0;
    while i < s.len()
        invariant
            start <= i <= s.len(),
            r@.map_values(|l: Vec<char>| l@) + pieces_from(s@, start as int, i as int) == pieces(s@),
        decreases s.len() - i,
    {
        if s[i] == '/' {
            let piece = slice_chars(s, start, i);
            let ghost before = r@.map_values(|l: Vec<char>| l@);
            r.push(piece);
            assert(r@.map_values(|l: Vec<char>| l@) =~= before.push(s@.subrange(start as int, i as int)));
            assert(before + pieces_from(s@, start as int, i as int) =~= before.push(
                s@.subrange(start as int, i as int),
            ) + pieces_from(s@, i + 1, i + 1));
            i += 1;
            start = i;
        } else {
            i += 1;
        }
    }
    let piece = slice_chars(s, start, s.len());
    let ghost before = r@.map_values(|l: Vec<char>| l@);
    r.push(piece);
    assert(r@.map_values(|l: Vec<char>| l@) =~= before + seq![s@.subrange(start as int, s.len() as int)]);
    r
}

/// The final component of a path.
pub fn path_file_name(p: &str) -> (r: Option<String>)
    ensures
        match file_name(p@) {
            Some(n) => r matches Some(s) && s@ == n,
            None => r is None,
        },
{
    let chars = to_chars(p);
    let ps = split_pieces(&chars);
    let ghost pv = ps@.map_values(|l: Vec<char>| l@);
    let mut dot: Vec<char> = Vec::new();
    dot.push('.');
    let mut dotdot: Vec<char> = Vec::new();
    dotdot.push('.');
    dotdot.push('.');
    assert(dot@ =~= seq!['.']);
    assert(dotdot@ =~= seq!['.', '.']);
    let mut last: Option<usize> = None;
    let mut i: usize = 0;
    while i < ps.len()
        invariant
            i <= ps.len(),
            pv == ps@.map_values(|l: Vec<char>| l@),
            dot@ == seq!['.'],
            match last {
                None => named(pv.take(i as int)).len() == 0,
                Some(k) => k < i && named(pv.take(i as int)).len() > 0 && named(pv.take(i as int)).last()
                    == pv[k as int],
            },
        decreases ps.len() - i,
    {
        assert(pv.take(i + 1).drop_last() =~= pv.take(i as int));
        assert(pv.take(i + 1).last() == pv[i as int]);
        if ps[i].len() > 0 && !chars_eq(&ps[i], &dot) {
            last = Some(i);
        }
        i += 1;
    }
    assert(pv.take(ps.len() as int) =~= pv);
    match last {
        None => None,
        Some(k) => {
            if chars_eq(&ps[k], &dotdot) {
                None
            } else {
                Some(from_chars(&ps[k]))
            }
        },
    }
}

} // verus!
