//! Paths as text: their segments, their base name, and the merge of a root
//! directory with a relative path that may restate the root's tail.
//! Paths use `/` as their separator.

use vstd::prelude::*;

use crate::text::{chars_of, push_char, string_of};

verus! {

broadcast use vstd::seq_lib::group_seq_properties;

/// The pieces of `p` between separators, in order; `p` with `k` separators
/// has `k + 1` pieces, some of them perhaps empty.
pub open spec fn pieces(p: Seq<char>) -> Seq<Seq<char>>
    decreases p.len(),
{
    if p.len() == 0 {
        seq![Seq::<char>::empty()]
    } else {
        let q = pieces(p.drop_last());
        if p.last() == '/' {
            q.push(Seq::empty())
        } else {
            q.update(q.len() - 1, q.last().push(p.last()))
        }
    }
}

/// A piece that names something: neither empty nor `.`.
pub open spec fn is_named(x: Seq<char>) -> bool {
    x.len() > 0 && x != "."@
}

/// A piece that names a directory entry: neither empty, `.` nor `..`.
pub open spec fn is_normal(x: Seq<char>) -> bool {
    is_named(x) && x != ".."@
}

/// The normal segments of `p`: its pieces without the root, `.` and `..`.
pub open spec fn normal_components(p: Seq<char>) -> Seq<Seq<char>> {
    pieces(p).filter(|x: Seq<char>| is_normal(x))
}

/// The last component of `p`, if it is a normal one.
pub open spec fn base_name(p: Seq<char>) -> Option<Seq<char>> {
    let named = pieces(p).filter(|x: Seq<char>| is_named(x));
    if named.len() > 0 && is_normal(named.last()) {
        Some(named.last())
    } else {
        None
    }
}

pub open spec fn views_of(v: Seq<String>) -> Seq<Seq<char>> {
    v.map_values(|x: String| x@)
}

fn is_dot(v: &Vec<char>) -> (r: bool)
    ensures
        r == (v@ == "."@),
{
    proof {
        reveal_strlit(".");
    }
    let r = v.len() == 1 && v[0] == '.';
    if r {
        assert(v@ =~= "."@);
    }
    r
}

fn is_dot_dot(v: &Vec<char>) -> (r: bool)
    ensures
        r == (v@ == ".."@),
{
    proof {
        reveal_strlit("..");
    }
    let r = v.len() == 2 && v[0] == '.' && v[1] == '.';
    if r {
        assert(v@ =~= ".."@);
    }
    r
}

/// The pieces of `p` that pass `is_normal`, or `is_named` where
/// `keep_parent` is set.
fn segments(p: &str, keep_parent: bool) -> (r: Vec<Vec<char>>)
    ensures
        keep_parent ==> r@.map_values(|x: Vec<char>| x@) == pieces(p@).filter(
            |x: Seq<char>| is_named(x),
        ),
        !keep_parent ==> r@.map_values(|x: Vec<char>| x@) == normal_components(p@),
{
    let ghost keep = |x: Seq<char>| if keep_parent { is_named(x) } else { is_normal(x) };
    let cs = chars_of(p);
    let mut parts: Vec<Vec<char>> = Vec::new();
    let mut cur: Vec<char> = Vec::new();
    let ghost mut done: Seq<Seq<char>> = Seq::empty();
    let mut i: usize = 0;
    while i < cs.len()
        invariant
            cs@ == p@,
            i <= cs.len(),
            pieces(cs@.subrange(0, i as int)) == done.push(cur@),
            parts@.map_values(|x: Vec<char>| x@) == done.filter(keep),
            keep == (|x: Seq<char>| if keep_parent { is_named(x) } else { is_normal(x) }),
        decreases cs.len() - i,
    {
        let c = cs[i];
        let ghost before = cs@.subrange(0, i as int);
        assert(cs@.subrange(0, i + 1).drop_last() =~= before);
        if c == '/' {
            let keep_it = cur.len() > 0 && !is_dot(&cur) && (keep_parent || !is_dot_dot(&cur));
            proof {
                done.lemma_filter_push(cur@, keep);
            }
            let mut fresh: Vec<char> = Vec::new();
            std::mem::swap(&mut fresh, &mut cur);
            proof {
                done = done.push(fresh@);
            }
            if keep_it {
                parts.push(fresh);
                assert(parts@.map_values(|x: Vec<char>| x@) =~= done.filter(keep));
            }
            assert(pieces(cs@.subrange(0, i + 1)) =~= done.push(cur@));
        } else {
            cur.push(c);
            assert(pieces(cs@.subrange(0, i + 1)) =~= done.push(cur@));
        }
        i = i + 1;
    }
    let keep_it = cur.len() > 0 && !is_dot(&cur) && (keep_parent || !is_dot_dot(&cur));
    proof {
        done.lemma_filter_push(cur@, keep);
        assert(cs@.subrange(0, cs@.len() as int) =~= cs@);
    }
    if keep_it {
        parts.push(cur);
    }
    assert(parts@.map_values(|x: Vec<char>| x@) =~= done.push(cur@).filter(keep));
    if keep_parent {
        assert(keep =~= (|x: Seq<char>| is_named(x)));
    } else {
        assert(keep =~= (|x: Seq<char>| is_normal(x)));
    }
    parts
}

/// The normal segments of a path, in order: `.`, `..`, the root and empty
/// pieces left out.
pub fn get_normal_components(path: &str) -> (r: Vec<String>)
    ensures
        views_of(r@) == normal_components(path@),
{
    let parts = segments(path, false);
    let mut out: Vec<String> = Vec::new();
    let mut i: usize = 0;
    while i < parts.len()
        invariant
            i <= parts.len(),
            out@.len() == i,
            forall|t: int| 0 <= t < i ==> #[trigger] out@[t]@ == parts@[t]@,
        decreases parts.len() - i,
    {
        out.push(string_of(&parts[i]));
        i = i + 1;
    }
    assert(views_of(out@) =~= parts@.map_values(|x: Vec<char>| x@));
    out
}

/// The last `n` segments of `r` are the first `n` of `s`.
pub open spec fn overlaps(r: Seq<Seq<char>>, s: Seq<Seq<char>>, n: int) -> bool {
    0 <= n <= r.len() && n <= s.len() && r.subrange(r.len() - n, r.len() as int) == s.subrange(
        0,
        n,
    )
}

/// The largest `n` no greater than `k` for which `overlaps` holds.
pub open spec fn max_overlap_upto(r: Seq<Seq<char>>, s: Seq<Seq<char>>, k: int) -> int
    decreases k,
{
    if k <= 0 {
        0
    } else if overlaps(r, s, k) {
        k
    } else {
        max_overlap_upto(r, s, k - 1)
    }
}

/// The largest overlap of a tail of `r` with a head of `s`.
pub open spec fn max_overlap(r: Seq<Seq<char>>, s: Seq<Seq<char>>) -> int {
    max_overlap_upto(r, s, if r.len() <= s.len() { r.len() as int } else { s.len() as int })
}

fn ends_with(root: &Vec<String>, sub: &Vec<String>, n: usize) -> (r: bool)
    requires
        n <= root.len(),
        n <= sub.len(),
    ensures
        r == overlaps(views_of(root@), views_of(sub@), n as int),
{
    let base = root.len() - n;
    let mut j: usize = 0;
    while j < n
        invariant
            j <= n <= root.len(),
            n <= sub.len(),
            base == root.len() - n,
            forall|t: int| 0 <= t < j ==> root@[base + t]@ == sub@[t]@,
        decreases n - j,
    {
        if root[base + j] != sub[j] {
            assert(views_of(root@).subrange(base as int, root.len() as int)[j as int] != views_of(
                sub@,
            ).subrange(0, n as int)[j as int]);
            return false;
        }
        j = j + 1;
    }
    assert(views_of(root@).subrange(base as int, root.len() as int) =~= views_of(sub@).subrange(
        0,
        n as int,
    ));
    true
}

/// The largest `n` such that the last `n` segments of `root_comps` are the
/// first `n` of `sub_comps`; 0 where there is no overlap.
pub fn find_max_common_suffix(root_comps: &Vec<String>, sub_comps: &Vec<String>) -> (r: usize)
    ensures
        r == max_overlap(views_of(root_comps@), views_of(sub_comps@)),
        overlaps(views_of(root_comps@), views_of(sub_comps@), r as int),
        forall|n: int|
            r < n <= root_comps.len() && n <= sub_comps.len() ==> !overlaps(
                views_of(root_comps@),
                views_of(sub_comps@),
                n,
            ),
{
    let ghost rv = views_of(root_comps@);
    let ghost sv = views_of(sub_comps@);
    let max_possible = if root_comps.len() <= sub_comps.len() {
        root_comps.len()
    } else {
        sub_comps.len()
    };
    let mut n = max_possible;
    assert(rv.len() == root_comps.len() && sv.len() == sub_comps.len());
    while n > 0
        invariant
            rv == views_of(root_comps@),
            sv == views_of(sub_comps@),
            n <= max_possible,
            max_possible <= root_comps.len(),
            max_possible <= sub_comps.len(),
            max_possible == root_comps.len() || max_possible == sub_comps.len(),
            max_overlap(rv, sv) == max_overlap_upto(rv, sv, n as int),
            forall|k: int| n < k <= max_possible ==> !overlaps(rv, sv, k),
        decreases n,
    {
        if ends_with(root_comps, sub_comps, n) {
            assert(max_overlap_upto(rv, sv, n as int) == n);
            return n;
        }
        assert(max_overlap_upto(rv, sv, n as int) == max_overlap_upto(rv, sv, n - 1));
        n = n - 1;
    }
    assert(overlaps(rv, sv, 0)) by {
        assert(rv.subrange(rv.len() as int, rv.len() as int) =~= sv.subrange(0, 0));
    }
    0
}

/// `buf` with `part` appended as one more segment, with a separator between
/// them unless `buf` is empty or already ends in one.
pub open spec fn push_segment(buf: Seq<char>, part: Seq<char>) -> Seq<char> {
    if buf.len() == 0 || buf.last() == '/' {
        buf + part
    } else {
        buf.push('/') + part
    }
}

/// `buf` with each of `parts` appended in turn.
pub open spec fn joined(buf: Seq<char>, parts: Seq<Seq<char>>) -> Seq<char>
    decreases parts.len(),
{
    if parts.len() == 0 {
        buf
    } else {
        push_segment(joined(buf, parts.drop_last()), parts.last())
    }
}

/// `root` followed by the segments of `sub` beyond its largest overlap with
/// the tail of `root`.
pub open spec fn merged_path(root: Seq<char>, sub: Seq<char>) -> Seq<char> {
    let rc = normal_components(root);
    let sc = normal_components(sub);
    joined(root, sc.subrange(max_overlap(rc, sc), sc.len() as int))
}

/// Where the candidate's segments all restate the root's tail, the merge is
/// the root unchanged; where none do, every segment of the candidate is
/// appended.
pub proof fn merge_overlap_edges(root: Seq<char>, sub: Seq<char>)
    ensures
        max_overlap(normal_components(root), normal_components(sub)) == normal_components(sub).len()
            ==> merged_path(root, sub) == root,
        max_overlap(normal_components(root), normal_components(sub)) == 0 ==> merged_path(root, sub)
            == joined(root, normal_components(sub)),
{
    let sc = normal_components(sub);
    assert(sc.subrange(sc.len() as int, sc.len() as int) =~= Seq::<Seq<char>>::empty());
    assert(sc.subrange(0, sc.len() as int) =~= sc);
}

/// Appends `part` to `buf` as `push_segment` does; `last` tracks the last
/// character of `buf`.
fn append_segment(buf: &mut String, last: &mut Option<char>, part: &String)
    requires
        *old(last) == (if old(buf)@.len() == 0 {
            None
        } else {
            Some(old(buf)@.last())
        }),
    ensures
        final(buf)@ == push_segment(old(buf)@, part@),
        *final(last) == (if final(buf)@.len() == 0 {
            None
        } else {
            Some(final(buf)@.last())
        }),
{
    let ghost start = buf@;
    let sep = match *last {
        Some(c) => c != '/',
        None => false,
    };
    if sep {
        push_char(buf, '/');
        *last = Some('/');
    }
    let ghost base = buf@;
    let cs = chars_of(part.as_str());
    let mut i: usize = 0;
    while i < cs.len()
        invariant
            i <= cs.len(),
            cs@ == part@,
            buf@ == base + cs@.subrange(0, i as int),
            *last == (if buf@.len() == 0 {
                None
            } else {
                Some(buf@.last())
            }),
        decreases cs.len() - i,
    {
        push_char(buf, cs[i]);
        *last = Some(cs[i]);
        assert(buf@ =~= base + cs@.subrange(0, i + 1));
        i = i + 1;
    }
    assert(cs@.subrange(0, cs@.len() as int) =~= cs@);
}

/// Joins a relative path onto a root directory, leaving out the leading
/// segments of the relative path that restate the root's last segments.
pub fn merge_paths(root_path: &str, sub_path: &str) -> (r: String)
    ensures
        r@ == merged_path(root_path@, sub_path@),
{
    let root_comps = get_normal_components(root_path);
    let sub_comps = get_normal_components(sub_path);
    let n = find_max_common_suffix(&root_comps, &sub_comps);
    let ghost sc = views_of(sub_comps@);
    let mut result = root_path.to_string();
    let rcs = chars_of(root_path);
    let mut last: Option<char> = if rcs.len() == 0 {
        None
    } else {
        Some(rcs[rcs.len() - 1])
    };
    let mut k: usize = n;
    while k < sub_comps.len()
        invariant
            n <= k <= sub_comps.len(),
            sc == views_of(sub_comps@),
            result@ == joined(root_path@, sc.subrange(n as int, k as int)),
            last == (if result@.len() == 0 {
                None
            } else {
                Some(result@.last())
            }),
        decreases sub_comps.len() - k,
    {
        append_segment(&mut result, &mut last, &sub_comps[k]);
        assert(sc.subrange(n as int, k + 1).drop_last() =~= sc.subrange(n as int, k as int));
        k = k + 1;
    }
    result
}

/// The base name of a path: its last component, if that is a normal one.
pub fn file_name(path: &str) -> (r: Option<String>)
    ensures
        match r {
            Some(s) => base_name(path@) == Some(s@),
            None => base_name(path@) is None,
        },
{
    let named = segments(path, true);
    if named.len() == 0 {
        return None;
    }
    let last = &named[named.len() - 1];
    assert(named@.map_values(|x: Vec<char>| x@).last() == last@);
    if is_dot_dot(last) {
        None
    } else {
        Some(string_of(last))
    }
}

} // verus!
