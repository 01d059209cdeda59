//! Unix path components, as `std::path::Path` splits them: a leading `/` is
//! the root component, `.` is dropped except at the start of a relative path,
//! and empty pieces between separators vanish. Paths compare, prefix-match and
//! take their parent by these components.
use vstd::prelude::*;
use crate::text::{chars_of, owned, push_all, seq_eq, split_chars, split_on, string_from};

verus! {

/// The root component `/`.
pub open spec fn root_comp() -> Seq<char> {
    seq!['/']
}

/// The leading current-directory component `.` of a relative path.
pub open spec fn cur_comp() -> Seq<char> {
    seq!['.']
}

/// The pieces that name a directory or file: neither empty nor `.`.
pub open spec fn keep_normal(ps: Seq<Seq<char>>) -> Seq<Seq<char>>
    decreases ps.len(),
{
    if ps.len() == 0 {
        seq![]
    } else {
        let rest = keep_normal(ps.drop_last());
        if ps.last().len() > 0 && ps.last() != cur_comp() {
            rest.push(ps.last())
        } else {
            rest
        }
    }
}

/// `Path::components` of a Unix path, each component as its text.
pub open spec fn components(s: Seq<char>) -> Seq<Seq<char>> {
    let normals = keep_normal(split_on(s, '/'));
    if s.len() > 0 && s[0] == '/' {
        seq![root_comp()] + normals
    } else if s.len() > 0 && s[0] == '.' && (s.len() == 1 || s[1] == '/') {
        seq![cur_comp()] + normals
    } else {
        normals
    }
}

/// `base.starts_with(prefix)` on components.
pub open spec fn comps_prefix(c: Seq<Seq<char>>, p: Seq<Seq<char>>) -> bool {
    p.len() <= c.len() && c.take(p.len() as int) == p
}

/// `Path::parent` on components: `None` for an empty path and for the root.
pub open spec fn parent_comps(c: Seq<Seq<char>>) -> Option<Seq<Seq<char>>> {
    if c.len() == 0 || c.last() == root_comp() {
        None
    } else {
        Some(c.drop_last())
    }
}

/// The components of `s`.
pub fn components_of(s: &str) -> (r: Vec<Vec<char>>)
    ensures
        r@.len() == components(s@).len(),
        forall|i: int| 0 <= i < r@.len() ==> (#[trigger] r@[i])@ == components(s@)[i],
        views(r@) == components(s@),
{
    let cs = chars_of(s);
    let pieces = split_chars(&cs, '/');
    let ghost ps = split_on(s@, '/');
    let mut out: Vec<Vec<char>> = Vec::new();
    let ghost mut outv: Seq<Seq<char>> = seq![];
    let absolute = cs.len() > 0 && cs[0] == '/';
    let cur = !absolute && cs.len() > 0 && cs[0] == '.' && (cs.len() == 1 || cs[1] == '/');
    if absolute {
        out.push(vec!['/']);
        proof {
            outv = seq![root_comp()];
        }
    } else if cur {
        out.push(vec!['.']);
        proof {
            outv = seq![cur_comp()];
        }
    }
    let ghost head = outv;
    let mut i: usize = 0;
    while i < pieces.len()
        invariant
            i <= pieces.len(),
            pieces@.len() == ps.len(),
            forall|k: int| 0 <= k < pieces@.len() ==> (#[trigger] pieces@[k])@ == ps[k],
            out@.len() == outv.len(),
            forall|k: int| 0 <= k < out@.len() ==> (#[trigger] out@[k])@ == outv[k],
            outv == head + keep_normal(ps.take(i as int)),
        decreases pieces.len() - i,
    {
        let p = &pieces[i];
        assert(ps.take(i + 1).drop_last() =~= ps.take(i as int));
        assert(ps.take(i + 1).last() == p@);
        let is_cur = p.len() == 1 && p[0] == '.';
        assert(is_cur == (p@ == cur_comp())) by {
            if p@ == cur_comp() {
                assert(p@.len() == 1 && p@[0] == '.');
            }
            if is_cur {
                assert(p@ =~= cur_comp());
            }
        }
        if p.len() > 0 && !is_cur {
            out.push(p.clone());
            proof {
                outv = outv.push(p@);
            }
        }
        i = i + 1;
    }
    assert(ps.take(pieces.len() as int) =~= ps);
    assert(outv =~= components(s@));
    assert(views(out@) =~= components(s@));
    out
}

/// Equality of two component lists.
pub fn comps_eq(a: &Vec<Vec<char>>, b: &Vec<Vec<char>>) -> (r: bool)
    ensures
        r == (views(a@) == views(b@)),
{
    let ghost av = a@.map_values(|v: Vec<char>| v@);
    let ghost bv = b@.map_values(|v: Vec<char>| v@);
    if a.len() != b.len() {
        assert(av.len() != bv.len());
        return false;
    }
    let mut i: usize = 0;
    while i < a.len()
        invariant
            i <= a.len() == b.len(),
            av == a@.map_values(|v: Vec<char>| v@),
            bv == b@.map_values(|v: Vec<char>| v@),
            forall|j: int| 0 <= j < i ==> av[j] == bv[j],
        decreases a.len() - i,
    {
        if !seq_eq(&a[i], &b[i]) {
            assert(av[i as int] != bv[i as int]);
            return false;
        }
        i = i + 1;
    }
    assert(av =~= bv);
    true
}

/// `p` is a component prefix of `c`.
pub fn comps_starts_with(c: &Vec<Vec<char>>, p: &Vec<Vec<char>>) -> (r: bool)
    ensures
        r == comps_prefix(views(c@), views(p@)),
{
    let ghost cv = c@.map_values(|v: Vec<char>| v@);
    let ghost pv = p@.map_values(|v: Vec<char>| v@);
    if p.len() > c.len() {
        return false;
    }
    let mut i: usize = 0;
    while i < p.len()
        invariant
            i <= p.len() <= c.len(),
            cv == c@.map_values(|v: Vec<char>| v@),
            pv == p@.map_values(|v: Vec<char>| v@),
            forall|j: int| 0 <= j < i ==> cv[j] == pv[j],
        decreases p.len() - i,
    {
        if !seq_eq(&c[i], &p[i]) {
            assert(cv.take(pv.len() as int)[i as int] != pv[i as int]);
            return false;
        }
        i = i + 1;
    }
    assert(cv.take(pv.len() as int) =~= pv);
    true
}

/// The text views of a component list.
pub open spec fn views(v: Seq<Vec<char>>) -> Seq<Seq<char>> {
    v.map_values(|x: Vec<char>| x@)
}


/// `dir.join(file)` (`PathBuf::push`) on Unix paths: an absolute `file`
/// replaces `dir`; otherwise a separator is added unless `dir` is empty or
/// already ends with one.
pub open spec fn join_path(dir: Seq<char>, file: Seq<char>) -> Seq<char> {
    if file.len() > 0 && file[0] == '/' {
        file
    } else if dir.len() == 0 || dir.last() == '/' {
        dir + file
    } else {
        dir + "/"@ + file
    }
}

/// `dir.join(file)`.
pub fn join(dir: &str, file: &str) -> (r: String)
    ensures
        r@ == join_path(dir@, file@),
{
    let f = chars_of(file);
    if f.len() > 0 && f[0] == '/' {
        return owned(file);
    }
    let d = chars_of(dir);
    let mut p = owned(dir);
    if d.len() > 0 && d[d.len() - 1] != '/' {
        push_all(&mut p, "/");
    }
    push_all(&mut p, file);
    p
}

/// `Path::file_name`: the last component when it names a file or directory
/// (not the root, `.` or `..`).
pub open spec fn file_name(s: Seq<char>) -> Option<Seq<char>> {
    let c = components(s);
    if c.len() > 0 && c.last() != root_comp() && c.last() != cur_comp() && c.last() != ".."@ {
        Some(c.last())
    } else {
        None
    }
}

/// The last component of a path when it names a file or directory.
pub fn file_name_of(s: &str) -> (r: Option<String>)
    ensures
        match r {
            Some(n) => file_name(s@) == Some(n@),
            None => file_name(s@) is None,
        },
{
    let c = components_of(s);
    if c.len() == 0 {
        return None;
    }
    let last = &c[c.len() - 1];
    let root = vec!['/'];
    let cur = vec!['.'];
    let up = chars_of("..");
    assert(root@ =~= root_comp());
    assert(cur@ =~= cur_comp());
    if seq_eq(last, &root) || seq_eq(last, &cur) || seq_eq(last, &up) {
        None
    } else {
        Some(string_from(last))
    }
}

} // verus!
