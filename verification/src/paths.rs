//! Path utilities: `::`-segmented import paths and wildcard patterns.
//!
//! A use-path pattern is matched segment by segment: `*` matches exactly
//! one segment, `**` matches zero or more segments, and any other
//! pattern segment matches only the identical path segment.

use vstd::prelude::*;

verus! {

use crate::strutil::str_eq;

/// A `::` separator starts at position `j` of `s`.
pub open spec fn sep_at(s: Seq<char>, j: int) -> bool {
    0 <= j && j + 2 <= s.len() && s[j] == ':' && s[j + 1] == ':'
}

/// Index of the first `::` separator in `s`, or `-1` when there is none.
pub open spec fn first_sep(s: Seq<char>) -> int
    decreases s.len(),
{
    if s.len() < 2 {
        -1
    } else if s[0] == ':' && s[1] == ':' {
        0
    } else {
        let r = first_sep(s.subrange(1, s.len() as int));
        if r < 0 {
            -1
        } else {
            r + 1
        }
    }
}

/// The segments of `s`, split on `::`.
pub open spec fn split_segments(s: Seq<char>) -> Seq<Seq<char>>
    decreases s.len(),
{
    let i = first_sep(s);
    if i < 0 || i + 2 > s.len() {
        seq![s]
    } else {
        seq![s.subrange(0, i)] + split_segments(s.subrange(i + 2, s.len() as int))
    }
}

/// When `s` has a separator at `k` and none earlier, `k` is the first.
proof fn lemma_first_sep_is(s: Seq<char>, k: int)
    requires
        sep_at(s, k),
        forall|j: int| 0 <= j < k ==> !sep_at(s, j),
    ensures
        first_sep(s) == k,
    decreases s.len(),
{
    if k == 0 {
    } else {
        let t = s.subrange(1, s.len() as int);
        assert(sep_at(t, k - 1)) by {
            assert(t[k - 1] == s[k]);
            assert(t[k] == s[k + 1]);
        }
        assert forall|j: int| 0 <= j < k - 1 implies !sep_at(t, j) by {
            assert(t[j] == s[j + 1]);
            assert(t[j + 1] == s[j + 2]);
            assert(!sep_at(s, j + 1));
        }
        lemma_first_sep_is(t, k - 1);
        assert(!sep_at(s, 0));
        assert(!(s[0] == ':' && s[1] == ':'));
    }
}

/// When `s` has no separator anywhere, there is no first one.
proof fn lemma_first_sep_none(s: Seq<char>)
    requires
        forall|j: int| 0 <= j ==> !sep_at(s, j),
    ensures
        first_sep(s) < 0,
    decreases s.len(),
{
    if s.len() < 2 {
    } else {
        assert(!sep_at(s, 0));
        let t = s.subrange(1, s.len() as int);
        assert forall|j: int| 0 <= j implies !sep_at(t, j) by {
            if j + 2 <= t.len() {
                assert(t[j] == s[j + 1]);
                assert(t[j + 1] == s[j + 2]);
                assert(!sep_at(s, j + 1));
            }
        }
        lemma_first_sep_none(t);
    }
}

/// The views of a vector of strings.
pub open spec fn seg_views(v: Seq<String>) -> Seq<Seq<char>> {
    v.map_values(|t: String| t@)
}

/// Splits a path on `::` into its segments.
pub fn split_path(s: &str) -> (r: Vec<String>)
    ensures
        seg_views(r@) == split_segments(s@),
{
    let len = s.unicode_len();
    let mut out: Vec<String> = Vec::new();
    let mut start: usize = 0;
    let mut i: usize = 0;
    proof {
        assert(s@.subrange(0, len as int) =~= s@);
        assert(seg_views(out@) + split_segments(s@) =~= split_segments(s@));
    }
    loop
        invariant
            0 <= start <= i <= len,
            len == s@.len(),
            split_segments(s@) =~= seg_views(out@) + split_segments(
                s@.subrange(start as int, len as int),
            ),
            forall|j: int| start <= j < i ==> !sep_at(s@, j),
        ensures
            0 <= start <= i <= len,
            i + 1 >= len,
            split_segments(s@) =~= seg_views(out@) + split_segments(
                s@.subrange(start as int, len as int),
            ),
            forall|j: int| start <= j < i ==> !sep_at(s@, j),
        decreases len - i,
    {
        if len - i <= 1 {
            break;
        }
        if s.get_char(i) == ':' && s.get_char(i + 1) == ':' {
            let seg = s.substring_char(start, i).to_owned();
            let ghost rest = s@.subrange(start as int, len as int);
            proof {
                assert(sep_at(rest, i - start)) by {
                    assert(rest[i - start] == s@[i as int]);
                    assert(rest[i - start + 1] == s@[i + 1]);
                }
                assert forall|j: int| 0 <= j < i - start implies !sep_at(rest, j) by {
                    assert(rest[j] == s@[start + j]);
                    assert(rest[j + 1] == s@[start + j + 1]);
                    assert(!sep_at(s@, start + j));
                }
                lemma_first_sep_is(rest, i - start);
                assert(rest.subrange(0, i - start) =~= s@.subrange(start as int, i as int));
                assert(rest.subrange(i - start + 2, rest.len() as int) =~= s@.subrange(
                    i + 2,
                    len as int,
                ));
            }
            let ghost old_out = out@;
            out.push(seg);
            proof {
                assert(seg_views(out@) =~= seg_views(old_out).push(seg@));
                assert(split_segments(s@) =~= seg_views(out@) + split_segments(
                    s@.subrange(i + 2, len as int),
                ));
            }
            start = i + 2;
            i = i + 2;
        } else {
            proof {
                assert(!sep_at(s@, i as int));
            }
            i = i + 1;
        }
    }
    // No separator begins at or after `i`, so the tail is one segment.
    let seg = s.substring_char(start, len).to_owned();
    let ghost rest = s@.subrange(start as int, len as int);
    proof {
        assert forall|j: int| 0 <= j implies !sep_at(rest, j) by {
            if j + 2 <= rest.len() {
                assert(rest[j] == s@[start + j]);
                assert(rest[j + 1] == s@[start + j + 1]);
                // A separator at start + j would need two characters
                // before the end, but scanning stopped at the last one.
                assert(start + j + 2 <= len);
                assert(start + j < i);
                assert(!sep_at(s@, start + j));
            }
        }
        lemma_first_sep_none(rest);
        assert(split_segments(rest) =~= seq![rest]);
    }
    let ghost old_out = out@;
    out.push(seg);
    proof {
        assert(seg_views(out@) =~= seg_views(old_out).push(seg@));
        assert(seg_views(out@) =~= split_segments(s@));
    }
    out
}

/// Segment-wise matching of a path against a pattern, where `*` matches
/// exactly one segment and `**` matches zero or more.
pub open spec fn seg_match(path: Seq<Seq<char>>, pat: Seq<Seq<char>>) -> bool
    decreases pat.len(), path.len(),
{
    if pat.len() == 0 {
        path.len() == 0
    } else if pat[0] == seq!['*', '*'] {
        // `**` matches zero segments, or swallows one and stays.
        seg_match(path, pat.subrange(1, pat.len() as int)) || (path.len() > 0 && seg_match(
            path.subrange(1, path.len() as int),
            pat,
        ))
    } else if pat[0] == seq!['*'] {
        path.len() > 0 && seg_match(
            path.subrange(1, path.len() as int),
            pat.subrange(1, pat.len() as int),
        )
    } else {
        path.len() > 0 && path[0] == pat[0] && seg_match(
            path.subrange(1, path.len() as int),
            pat.subrange(1, pat.len() as int),
        )
    }
}


/// Matches path segments from `pi` against pattern segments from `qi`.
fn match_from(path: &Vec<String>, pat: &Vec<String>, pi: usize, qi: usize) -> (r: bool)
    requires
        pi <= path@.len(),
        qi <= pat@.len(),
    ensures
        r == seg_match(
            seg_views(path@).subrange(pi as int, path@.len() as int),
            seg_views(pat@).subrange(qi as int, pat@.len() as int),
        ),
    decreases pat@.len() - qi, path@.len() - pi,
{
    let plen = path.len();
    let qlen = pat.len();
    let ghost psuf = seg_views(path@).subrange(pi as int, plen as int);
    let ghost qsuf = seg_views(pat@).subrange(qi as int, qlen as int);
    if qi == qlen {
        assert(qsuf.len() == 0);
        return pi == plen;
    }
    proof {
        assert(qsuf[0] == pat@[qi as int]@);
        reveal_strlit("**");
        reveal_strlit("*");
        assert("**"@ =~= seq!['*', '*']);
        assert("*"@ =~= seq!['*']);
    }
    let q0 = &pat[qi];
    if str_eq(q0.as_str(), "**") {
        proof {
            assert(qsuf[0] =~= seq!['*', '*']);
            assert(qsuf.subrange(1, qsuf.len() as int) =~= seg_views(pat@).subrange(
                qi + 1,
                qlen as int,
            ));
        }
        let mut i: usize = pi;
        loop
            invariant
                pi <= i <= plen,
                pi <= plen,
                qi < qlen,
                plen == path@.len(),
                qlen == pat@.len(),
                psuf == seg_views(path@).subrange(pi as int, plen as int),
                qsuf == seg_views(pat@).subrange(qi as int, qlen as int),
                qsuf.len() > 0,
                qsuf[0] == seq!['*', '*'],
                qsuf.subrange(1, qsuf.len() as int) == seg_views(pat@).subrange(
                    qi + 1,
                    qlen as int,
                ),
                seg_match(psuf, qsuf) == seg_match(
                    seg_views(path@).subrange(i as int, plen as int),
                    qsuf,
                ),
            decreases plen - i,
        {
            let ghost cur = seg_views(path@).subrange(i as int, plen as int);
            if match_from(path, pat, i, qi + 1) {
                proof {
                    assert(seg_match(cur, qsuf.subrange(1, qsuf.len() as int)));
                    assert(seg_match(cur, qsuf));
                }
                return true;
            }
            if i == plen {
                proof {
                    assert(cur.len() == 0);
                    assert(!seg_match(cur, qsuf.subrange(1, qsuf.len() as int)));
                    assert(!seg_match(cur, qsuf));
                }
                return false;
            }
            proof {
                assert(!seg_match(cur, qsuf.subrange(1, qsuf.len() as int)));
                assert(cur.subrange(1, cur.len() as int) =~= seg_views(path@).subrange(
                    i + 1,
                    plen as int,
                ));
                assert(seg_match(cur, qsuf) == seg_match(
                    cur.subrange(1, cur.len() as int),
                    qsuf,
                ));
            }
            i = i + 1;
        }
    } else if str_eq(q0.as_str(), "*") {
        proof {
            assert(qsuf[0] =~= seq!['*']);
            assert(qsuf[0] != seq!['*', '*']) by {
                assert(qsuf[0].len() == 1);
            }
        }
        if pi == plen {
            assert(psuf.len() == 0);
            return false;
        }
        proof {
            assert(psuf.subrange(1, psuf.len() as int) =~= seg_views(path@).subrange(
                pi + 1,
                plen as int,
            ));
            assert(qsuf.subrange(1, qsuf.len() as int) =~= seg_views(pat@).subrange(
                qi + 1,
                qlen as int,
            ));
        }
        match_from(path, pat, pi + 1, qi + 1)
    } else {
        proof {
            assert(qsuf[0] != seq!['*', '*']);
            assert(qsuf[0] != seq!['*']);
        }
        if pi == plen {
            assert(psuf.len() == 0);
            return false;
        }
        proof {
            assert(psuf[0] == path@[pi as int]@);
        }
        if str_eq(path[pi].as_str(), q0.as_str()) {
            proof {
                assert(psuf.subrange(1, psuf.len() as int) =~= seg_views(path@).subrange(
                    pi + 1,
                    plen as int,
                ));
                assert(qsuf.subrange(1, qsuf.len() as int) =~= seg_views(pat@).subrange(
                    qi + 1,
                    qlen as int,
                ));
            }
            match_from(path, pat, pi + 1, qi + 1)
        } else {
            false
        }
    }
}

/// Whether `path` matches `pattern`, both `::`-segmented.
pub open spec fn spec_path_matches(path: Seq<char>, pattern: Seq<char>) -> bool {
    seg_match(split_segments(path), split_segments(pattern))
}

/// Checks if a use-path matches a pattern with `*` and `**` wildcards.
pub fn path_matches(path: &str, pattern: &str) -> (r: bool)
    ensures
        r == spec_path_matches(path@, pattern@),
{
    let path_parts = split_path(path);
    let pattern_parts = split_path(pattern);
    proof {
        assert(seg_views(path_parts@).subrange(0, path_parts@.len() as int) =~= seg_views(
            path_parts@,
        ));
        assert(seg_views(pattern_parts@).subrange(0, pattern_parts@.len() as int) =~= seg_views(
            pattern_parts@,
        ));
    }
    match_from(&path_parts, &pattern_parts, 0, 0)
}

/// Index of the last `::` separator in `s`, or `-1` when there is none.
pub open spec fn last_sep(s: Seq<char>) -> int
    decreases s.len(),
{
    if s.len() < 2 {
        -1
    } else if s[s.len() - 2] == ':' && s[s.len() - 1] == ':' {
        s.len() - 2
    } else {
        last_sep(s.subrange(0, s.len() - 1))
    }
}

/// The text after the last `::` of `s`, or all of `s` when it has none.
pub open spec fn spec_last_segment(s: Seq<char>) -> Seq<char> {
    if last_sep(s) < 0 {
        s
    } else {
        s.subrange(last_sep(s) + 2, s.len() as int)
    }
}

/// When `s` has a separator at `k` and none later, `k` is the last.
proof fn lemma_last_sep_is(s: Seq<char>, k: int)
    requires
        sep_at(s, k),
        forall|j: int| k < j ==> !sep_at(s, j),
    ensures
        last_sep(s) == k,
    decreases s.len(),
{
    if k == s.len() - 2 {
    } else {
        assert(!sep_at(s, s.len() - 2));
        let t = s.subrange(0, s.len() - 1);
        assert(sep_at(t, k)) by {
            assert(t[k] == s[k]);
            assert(t[k + 1] == s[k + 1]);
        }
        assert forall|j: int| k < j implies !sep_at(t, j) by {
            if j + 2 <= t.len() {
                assert(t[j] == s[j]);
                assert(t[j + 1] == s[j + 1]);
                assert(!sep_at(s, j));
            }
        }
        lemma_last_sep_is(t, k);
    }
}

/// When `s` has no separator anywhere, there is no last one.
proof fn lemma_last_sep_none(s: Seq<char>)
    requires
        forall|j: int| 0 <= j ==> !sep_at(s, j),
    ensures
        last_sep(s) < 0,
    decreases s.len(),
{
    if s.len() < 2 {
    } else {
        assert(!sep_at(s, s.len() - 2));
        let t = s.subrange(0, s.len() - 1);
        assert forall|j: int| 0 <= j implies !sep_at(t, j) by {
            if j + 2 <= t.len() {
                assert(t[j] == s[j]);
                assert(t[j + 1] == s[j + 1]);
                assert(!sep_at(s, j));
            }
        }
        lemma_last_sep_none(t);
    }
}

/// Extracts the last `::` segment from a path string.
pub fn last_segment(path: &str) -> (r: &str)
    ensures
        r@ == spec_last_segment(path@),
{
    let len = path.unicode_len();
    if len < 2 {
        proof {
            assert forall|j: int| 0 <= j implies !sep_at(path@, j) by {}
            lemma_last_sep_none(path@);
        }
        return path;
    }
    let mut i: usize = len - 2;
    // Scan right to left for the last separator start position.
    loop
        invariant
            0 <= i <= len - 2,
            len == path@.len(),
            2 <= len,
            forall|j: int| i < j ==> !sep_at(path@, j),
        decreases i,
    {
        if path.get_char(i) == ':' && path.get_char(i + 1) == ':' {
            proof {
                lemma_last_sep_is(path@, i as int);
            }
            let r = path.substring_char(i + 2, len);
            return r;
        }
        proof {
            assert(!sep_at(path@, i as int));
        }
        if i == 0 {
            proof {
                assert forall|j: int| 0 <= j implies !sep_at(path@, j) by {}
                lemma_last_sep_none(path@);
            }
            return path;
        }
        i = i - 1;
    }
}

/// Whether `path` lies under module `module`: it starts with the module
/// name followed immediately by `::`.
pub open spec fn spec_is_from_module(path: Seq<char>, module: Seq<char>) -> bool {
    crate::strutil::is_prefix(module, path) && sep_at(path, module.len() as int)
}

/// Checks if a path is from a specific crate or module.
pub fn is_from_module(path: &str, module: &str) -> (r: bool)
    ensures
        r == spec_is_from_module(path@, module@),
{
    if !crate::strutil::starts_with(path, module) {
        return false;
    }
    let plen = path.unicode_len();
    let mlen = module.unicode_len();
    if plen < 2 || mlen > plen - 2 {
        return false;
    }
    path.get_char(mlen) == ':' && path.get_char(mlen + 1) == ':'
}

/// The segments joined with `::` between them.
pub open spec fn spec_join_segments(segs: Seq<Seq<char>>) -> Seq<char>
    decreases segs.len(),
{
    if segs.len() == 0 {
        Seq::empty()
    } else if segs.len() == 1 {
        segs[0]
    } else {
        segs[0] + seq![':', ':'] + spec_join_segments(segs.subrange(1, segs.len() as int))
    }
}

/// Joins path segments with `::`, the inverse of [`split_path`] for
/// segment lists that contain no separator themselves.
pub fn path_to_string(segments: &Vec<String>) -> (r: String)
    ensures
        r@ == spec_join_segments(seg_views(segments@)),
{
    let n = segments.len();
    let mut out = String::new();
    if n == 0 {
        return out;
    }
    out.append(segments[0].as_str());
    let mut i: usize = 1;
    proof {
        reveal_strlit("::");
        assert(spec_join_prefix(seg_views(segments@), 1) =~= out@);
    }
    while i < n
        invariant
            1 <= i <= n,
            n == segments@.len(),
            out@ == spec_join_prefix(seg_views(segments@), i as int),
        decreases n - i,
    {
        out.append("::");
        out.append(segments[i].as_str());
        proof {
            reveal_strlit("::");
            assert("::"@ =~= seq![':', ':']);
            assert(out@ =~= spec_join_prefix(seg_views(segments@), i + 1));
        }
        i = i + 1;
    }
    proof {
        lemma_join_prefix_full(seg_views(segments@));
    }
    out
}

/// The first `k` segments joined with `::`.
pub open spec fn spec_join_prefix(segs: Seq<Seq<char>>, k: int) -> Seq<char>
    decreases k,
{
    if k <= 0 {
        Seq::empty()
    } else if k == 1 {
        segs[0]
    } else {
        spec_join_prefix(segs, k - 1) + seq![':', ':'] + segs[k - 1]
    }
}

/// Joining every segment equals joining the full prefix.
proof fn lemma_join_prefix_full(segs: Seq<Seq<char>>)
    ensures
        spec_join_prefix(segs, segs.len() as int) == spec_join_segments(segs),
    decreases segs.len(),
{
    lemma_join_prefix_eq(segs, segs.len() as int);
    assert(segs.subrange(0, segs.len() as int) =~= segs);
}

/// The two join formulations agree on every prefix length.
proof fn lemma_join_prefix_eq(segs: Seq<Seq<char>>, k: int)
    requires
        k <= segs.len(),
    ensures
        spec_join_prefix(segs, k) == spec_join_segments(segs.subrange(0, if k < 0 {
            0
        } else {
            k
        })),
    decreases k,
{
    if k <= 0 {
        assert(segs.subrange(0, 0) =~= Seq::<Seq<char>>::empty());
    } else if k == 1 {
        assert(segs.subrange(0, 1).len() == 1);
        assert(segs.subrange(0, 1)[0] == segs[0]);
    } else {
        lemma_join_prefix_eq(segs, k - 1);
        lemma_join_append(segs.subrange(0, k - 1), segs[k - 1]);
        assert(segs.subrange(0, k) =~= segs.subrange(0, k - 1).push(segs[k - 1]));
    }
}

/// Appending one more segment appends `::` and the segment to the join.
proof fn lemma_join_append(segs: Seq<Seq<char>>, x: Seq<char>)
    requires
        segs.len() >= 1,
    ensures
        spec_join_segments(segs.push(x)) == spec_join_segments(segs) + seq![':', ':'] + x,
    decreases segs.len(),
{
    let p = segs.push(x);
    if segs.len() == 1 {
        assert(p.len() == 2);
        assert(p[0] == segs[0]);
        assert(p.subrange(1, 2) =~= seq![x]);
        assert(spec_join_segments(p.subrange(1, 2)) == x);
    } else {
        assert(p.subrange(1, p.len() as int) =~= segs.subrange(1, segs.len() as int).push(x));
        lemma_join_append(segs.subrange(1, segs.len() as int), x);
        assert(p[0] == segs[0]);
        assert(spec_join_segments(p) =~= spec_join_segments(segs) + seq![':', ':'] + x);
    }
}

} // verus!
