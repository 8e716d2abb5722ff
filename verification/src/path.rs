//! Paths as text: joining them, taking them apart and comparing them.
//!
//! Nothing here asks the filesystem. A path is read by its characters alone,
//! with `/` as the separator: empty segments and `.` segments count for
//! nothing, and `..` is a name like any other, since only the filesystem
//! knows where it leads.

use vstd::prelude::*;
use crate::text::chars_of;

verus! {

/// The path starts at the root.
pub open spec fn is_absolute(p: Seq<char>) -> bool {
    p.len() > 0 && p[0] == '/'
}

/// The path of `name` under `dir`. A separator is put between the two unless
/// `dir` is empty or brings its own.
pub open spec fn joined(dir: Seq<char>, name: Seq<char>) -> Seq<char> {
    if dir.len() == 0 || dir.last() == '/' {
        dir + name
    } else {
        dir + seq!['/'] + name
    }
}

/// What `path` denotes when it is given relative to `base`: itself if it is
/// absolute, else its place under `base`.
pub open spec fn resolved(base: Seq<char>, path: Seq<char>) -> Seq<char> {
    if is_absolute(path) {
        path
    } else {
        joined(base, path)
    }
}

/// The length of the path once trailing separators and trailing `.` segments
/// are dropped. It is 0 exactly when the path names nothing below the place
/// it starts from.
pub open spec fn stem_len(p: Seq<char>) -> nat
    decreases p.len(),
{
    if p.len() == 0 {
        0
    } else if p.last() == '/' {
        stem_len(p.drop_last())
    } else if p.last() == '.' && (p.len() == 1 || p[p.len() - 2] == '/') {
        stem_len(p.drop_last())
    } else {
        p.len()
    }
}

/// Where the last segment of the text starts: behind its last separator, or
/// at 0 if it has none.
pub open spec fn name_start(p: Seq<char>) -> nat
    decreases p.len(),
{
    if p.len() == 0 || p.last() == '/' {
        p.len()
    } else {
        name_start(p.drop_last())
    }
}

/// The path without trailing separators and `.` segments.
pub open spec fn stem(p: Seq<char>) -> Seq<char> {
    p.take(stem_len(p) as int)
}

/// The text in front of the path's last name, separator included. It is
/// empty when the path is a bare name or names nothing at all.
pub open spec fn parent_text(p: Seq<char>) -> Seq<char> {
    p.take(name_start(stem(p)) as int)
}

/// The last name of the path; empty when the path names nothing.
pub open spec fn last_name(p: Seq<char>) -> Seq<char> {
    stem(p).skip(name_start(stem(p)) as int)
}

/// The names that the path walks through, in order.
pub open spec fn components(p: Seq<char>) -> Seq<Seq<char>>
    decreases p.len(),
    via components_decreases
{
    if stem_len(p) == 0 {
        Seq::empty()
    } else {
        components(parent_text(p)).push(last_name(p))
    }
}

#[via_fn]
proof fn components_decreases(p: Seq<char>) {
    if stem_len(p) != 0 {
        lemma_stem_bounds(p);
        lemma_name_start_bounds(stem(p));
    }
}

/// The stem is a prefix of the path and, unless empty, ends inside a name.
pub proof fn lemma_stem_bounds(p: Seq<char>)
    ensures
        stem_len(p) <= p.len(),
        stem_len(p) > 0 ==> p[stem_len(p) - 1] != '/',
    decreases p.len(),
{
    if p.len() > 0 {
        lemma_stem_bounds(p.drop_last());
    }
}

/// The last segment starts inside the text, and in front of its end when the
/// text ends inside a name.
pub proof fn lemma_name_start_bounds(p: Seq<char>)
    ensures
        name_start(p) <= p.len(),
        p.len() > 0 && p.last() != '/' ==> name_start(p) < p.len(),
        forall|i: int| name_start(p) <= i < p.len() ==> p[i] != '/',
        name_start(p) > 0 ==> p[name_start(p) - 1] == '/',
    decreases p.len(),
{
    if p.len() > 0 && p.last() != '/' {
        let front = p.drop_last();
        lemma_name_start_bounds(front);
        assert forall|i: int| name_start(p) <= i < p.len() implies p[i] != '/' by {
            if i < front.len() {
                assert(p[i] == front[i]);
            }
        }
    }
}

/// Both paths start from the same place and walk through the same names.
pub open spec fn same_place(a: Seq<char>, b: Seq<char>) -> bool {
    is_absolute(a) == is_absolute(b) && components(a) == components(b)
}

/// `target` denotes the working directory `cwd`: a relative target that
/// names nothing below it, or an absolute one that walks to the same place.
pub open spec fn denotes_cwd(target: Seq<char>, cwd: Seq<char>) -> bool {
    if is_absolute(target) {
        same_place(target, cwd)
    } else {
        components(target).len() == 0
    }
}

/// The length of the stem of the first `end` characters.
fn stem_end(p: &Vec<char>, end: usize) -> (e: usize)
    requires
        end <= p.len(),
    ensures
        e <= end,
        e == stem_len(p@.take(end as int)),
{
    let mut e: usize = end;
    while e > 0
        invariant
            e <= end,
            end <= p.len(),
            stem_len(p@.take(end as int)) == stem_len(p@.take(e as int)),
        decreases e,
    {
        let c = p[e - 1];
        let dropped = c == '/' || (c == '.' && (e == 1 || p[e - 2] == '/'));
        if !dropped {
            return e;
        }
        assert(p@.take(e as int).drop_last() =~= p@.take(e - 1));
        e -= 1;
    }
    e
}

/// Where the last segment of the first `end` characters starts.
fn name_begin(p: &Vec<char>, end: usize) -> (s: usize)
    requires
        end <= p.len(),
    ensures
        s <= end,
        s == name_start(p@.take(end as int)),
{
    let mut s: usize = end;
    while s > 0 && p[s - 1] != '/'
        invariant
            s <= end,
            end <= p.len(),
            name_start(p@.take(end as int)) == name_start(p@.take(s as int)),
        decreases s,
    {
        assert(p@.take(s as int).drop_last() =~= p@.take(s - 1));
        s -= 1;
    }
    s
}

/// Whether the characters `p[ps..pe]` and `q[qs..qe]` are the same text.
fn same_text(p: &Vec<char>, ps: usize, pe: usize, q: &Vec<char>, qs: usize, qe: usize) -> (same: bool)
    requires
        ps <= pe <= p.len(),
        qs <= qe <= q.len(),
    ensures
        same == (p@.subrange(ps as int, pe as int) == q@.subrange(qs as int, qe as int)),
{
    if pe - ps != qe - qs {
        assert(p@.subrange(ps as int, pe as int).len() != q@.subrange(qs as int, qe as int).len());
        return false;
    }
    let n: usize = pe - ps;
    let mut k: usize = 0;
    while k < n
        invariant
            k <= n,
            n == pe - ps,
            n == qe - qs,
            pe <= p.len(),
            qe <= q.len(),
            forall|j: int|
                0 <= j < k ==> p@.subrange(ps as int, pe as int)[j] == q@.subrange(
                    qs as int,
                    qe as int,
                )[j],
        decreases n - k,
    {
        if p[ps + k] != q[qs + k] {
            let ghost left = p@.subrange(ps as int, pe as int);
            let ghost right = q@.subrange(qs as int, qe as int);
            assert(left[k as int] != right[k as int]);
            return false;
        }
        k += 1;
    }
    assert(p@.subrange(ps as int, pe as int) =~= q@.subrange(qs as int, qe as int));
    true
}

/// Whether two paths walk through the same names.
fn same_components(p: &Vec<char>, q: &Vec<char>) -> (same: bool)
    ensures
        same == (components(p@) == components(q@)),
{
    let mut pe: usize = p.len();
    let mut qe: usize = q.len();
    assert(p@.take(pe as int) =~= p@);
    assert(q@.take(qe as int) =~= q@);
    loop
        invariant
            pe <= p.len(),
            qe <= q.len(),
            (components(p@) == components(q@)) == (components(p@.take(pe as int)) == components(
                q@.take(qe as int),
            )),
        decreases pe,
    {
        let ghost pp = p@.take(pe as int);
        let ghost qq = q@.take(qe as int);
        let p_stop = stem_end(p, pe);
        let q_stop = stem_end(q, qe);
        if p_stop == 0 || q_stop == 0 {
            proof {
                if p_stop != 0 {
                    assert(components(pp).len() > 0);
                }
                if q_stop != 0 {
                    assert(components(qq).len() > 0);
                }
            }
            return p_stop == q_stop;
        }
        let p_start = name_begin(p, p_stop);
        let q_start = name_begin(q, q_stop);
        proof {
            lemma_stem_bounds(pp);
            lemma_stem_bounds(qq);
            lemma_name_start_bounds(stem(pp));
            lemma_name_start_bounds(stem(qq));
            assert(stem(pp) =~= p@.take(p_stop as int));
            assert(stem(qq) =~= q@.take(q_stop as int));
            assert(parent_text(pp) =~= p@.take(p_start as int));
            assert(parent_text(qq) =~= q@.take(q_start as int));
            assert(last_name(pp) =~= p@.subrange(p_start as int, p_stop as int));
            assert(last_name(qq) =~= q@.subrange(q_start as int, q_stop as int));
        }
        if !same_text(p, p_start, p_stop, q, q_start, q_stop) {
            proof {
                assert(components(pp).last() == last_name(pp));
                assert(components(qq).last() == last_name(qq));
            }
            return false;
        }
        proof {
            let left = components(parent_text(pp));
            let right = components(parent_text(qq));
            let name = last_name(pp);
            if left.push(name) == right.push(name) {
                assert(left =~= left.push(name).drop_last());
                assert(right =~= right.push(name).drop_last());
            }
        }
        pe = p_start;
        qe = q_start;
    }
}

/// Puts `name` under `dir`.
pub fn join(dir: &str, name: &str) -> (path: String)
    ensures
        path@ == joined(dir@, name@),
{
    let d = chars_of(dir);
    let head = String::from_str(dir);
    if d.len() == 0 || d[d.len() - 1] == '/' {
        head.concat(name)
    } else {
        proof {
            reveal_strlit("/");
        }
        head.concat("/").concat(name)
    }
}

/// Resolves `path` against `base`: an absolute path stands for itself, a
/// relative one is put under `base`.
pub fn resolve(base: &str, path: &str) -> (full: String)
    ensures
        full@ == resolved(base@, path@),
{
    let p = chars_of(path);
    if p.len() > 0 && p[0] == '/' {
        String::from_str(path)
    } else {
        join(base, path)
    }
}

/// The text in front of the path's last name; empty when the path is a bare
/// name or names nothing.
pub fn parent_of(path: &str) -> (dir: String)
    ensures
        dir@ == parent_text(path@),
{
    let p = chars_of(path);
    assert(p@.take(p.len() as int) =~= p@);
    let stop = stem_end(&p, p.len());
    let start = name_begin(&p, stop);
    String::from_str(path.substring_char(0, start))
}

/// Whether `target` denotes the working directory `cwd`.
pub fn is_cwd(target: &str, cwd: &str) -> (same: bool)
    ensures
        same == denotes_cwd(target@, cwd@),
{
    let t = chars_of(target);
    assert(t@.take(t.len() as int) =~= t@);
    if t.len() > 0 && t[0] == '/' {
        let c = chars_of(cwd);
        c.len() > 0 && c[0] == '/' && same_components(&t, &c)
    } else {
        stem_end(&t, t.len()) == 0
    }
}

} // verus!
