//! What holds of every path: how its names add up when paths are joined, and
//! which spellings make no difference.

use vstd::prelude::*;
use crate::path::{components, denotes_cwd, is_absolute, joined, last_name, lemma_name_start_bounds,
    lemma_stem_bounds, name_start, parent_text, same_place, stem, stem_len};

verus! {

/// The `/` that stands between two parts of a path.
spec fn slash() -> Seq<char> {
    seq!['/']
}

/// Behind a separator, the stem of a path ends where the stem of its last
/// part ends; if that part names nothing, where the stem of the front part
/// ends.
proof fn lemma_stem_of_parts(p: Seq<char>, q: Seq<char>)
    ensures
        stem_len(p + slash() + q) == if stem_len(q) == 0 {
            stem_len(p)
        } else {
            p.len() + 1 + stem_len(q)
        },
    decreases q.len(),
{
    let whole = p + slash() + q;
    if q.len() == 0 {
        assert(whole.drop_last() =~= p);
    } else {
        assert(whole.drop_last() =~= p + slash() + q.drop_last());
        lemma_stem_of_parts(p, q.drop_last());
    }
}

/// Behind a separator, the last segment of a text starts where it starts in
/// the part behind the separator.
proof fn lemma_name_start_of_parts(p: Seq<char>, t: Seq<char>)
    ensures
        name_start(p + slash() + t) == p.len() + 1 + name_start(t),
    decreases t.len(),
{
    let whole = p + slash() + t;
    if t.len() > 0 {
        assert(whole.drop_last() =~= p + slash() + t.drop_last());
        if t.last() != '/' {
            lemma_name_start_of_parts(p, t.drop_last());
        }
    }
}

/// The names of two paths put together with a separator are the names of
/// the first followed by the names of the second.
pub proof fn law_names_add_up(p: Seq<char>, q: Seq<char>)
    ensures
        components(p + seq!['/'] + q) == components(p) + components(q),
    decreases q.len(),
{
    let whole = p + slash() + q;
    lemma_stem_of_parts(p, q);
    lemma_stem_bounds(p);
    lemma_stem_bounds(q);
    if stem_len(q) == 0 {
        assert(stem(whole) =~= stem(p));
        if stem_len(p) > 0 {
            lemma_name_start_bounds(stem(p));
            assert(parent_text(whole) =~= parent_text(p));
        }
    } else {
        lemma_name_start_bounds(stem(q));
        assert(stem(whole) =~= p + slash() + stem(q));
        lemma_name_start_of_parts(p, stem(q));
        assert(parent_text(whole) =~= p + slash() + parent_text(q));
        assert(last_name(whole) =~= last_name(q));
        law_names_add_up(p, parent_text(q));
    }
}

/// The names of a path under a directory are the names of the directory
/// followed by the names of the path.
pub proof fn law_joining_adds_names(dir: Seq<char>, name: Seq<char>)
    ensures
        components(joined(dir, name)) == components(dir) + components(name),
{
    if dir.len() > 0 && dir.last() == '/' {
        let front = dir.drop_last();
        let nothing = Seq::<char>::empty();
        assert(dir =~= front + seq!['/'] + nothing);
        law_names_add_up(front, name);
        law_names_add_up(front, nothing);
    } else if dir.len() > 0 {
        law_names_add_up(dir, name);
    }
}

/// Separators at the end of a path, doubled separators and `.` segments
/// make no difference to the names that the path walks through.
pub proof fn law_spelling_makes_no_difference(p: Seq<char>, q: Seq<char>)
    ensures
        components(p + seq!['/']) == components(p),
        components(p + seq!['/', '.']) == components(p),
        components(p + seq!['/', '/'] + q) == components(p + seq!['/'] + q),
        components(p + seq!['/', '.', '/'] + q) == components(p + seq!['/'] + q),
{
    let nothing = Seq::<char>::empty();
    let dot = seq!['.'];
    assert(components(nothing) =~= Seq::<Seq<char>>::empty());
    assert(dot.drop_last() =~= nothing);
    assert(p + seq!['/', '.'] =~= p + seq!['/'] + dot);
    law_names_add_up(p, nothing);
    law_names_add_up(p, dot);
    assert(p + seq!['/', '/'] + q =~= (p + seq!['/']) + seq!['/'] + q);
    assert(p + seq!['/', '.', '/'] + q =~= (p + seq!['/', '.']) + seq!['/'] + q);
    law_names_add_up(p + seq!['/'], q);
    law_names_add_up(p + seq!['/', '.'], q);
    law_names_add_up(p, q);
}

/// Two names under one directory have one path only if they are one name.
pub proof fn law_joined_tells_names_apart(dir: Seq<char>, a: Seq<char>, b: Seq<char>)
    requires
        joined(dir, a) == joined(dir, b),
    ensures
        a == b,
{
    let front: Seq<char> = if dir.len() == 0 || dir.last() == '/' {
        dir
    } else {
        dir + seq!['/']
    };
    assert(joined(dir, b) =~= front + b);
    assert forall|i: int| 0 <= i < a.len() implies a[i] == b[i] by {
        assert((front + b)[front.len() + i] == b[i]);
    }
}

/// A relative target is taken to start from the working directory: it
/// denotes the working directory exactly when its path under the working
/// directory walks to the same place as the working directory itself.
pub proof fn law_relative_target_starts_from_cwd(target: Seq<char>, cwd: Seq<char>)
    requires
        is_absolute(cwd),
        !is_absolute(target),
    ensures
        denotes_cwd(target, cwd) <==> same_place(joined(cwd, target), cwd),
{
    law_joining_adds_names(cwd, target);
}

/// An absolute working directory denotes itself, however many separators
/// and `.` segments its spelling ends with.
pub proof fn law_cwd_denotes_itself(cwd: Seq<char>)
    requires
        is_absolute(cwd),
    ensures
        denotes_cwd(cwd, cwd),
        denotes_cwd(cwd + seq!['/'], cwd),
        denotes_cwd(cwd + seq!['/', '.'], cwd),
{
    law_spelling_makes_no_difference(cwd, Seq::<char>::empty());
}

} // verus!
