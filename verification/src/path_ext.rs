//! File path predicates.
use vstd::prelude::*;

use crate::fs_path::push_component;
use crate::text::{chars_eq, chars_of, lemma_split_nonempty, slice_of, split, split_bounds, string_of};

verus! {

/// Whether a `/`-separated piece of a path is a normal component (not
/// empty, `.` or `..`) that starts with a dot.
pub open spec fn is_hidden_component(c: Seq<char>) -> bool {
    c.len() > 0 && c[0] == '.' && c != seq!['.'] && c != seq!['.', '.']
}

/// Whether some component of a path names a hidden (dot) file or
/// directory.
pub open spec fn is_hidden_path(p: Seq<char>) -> bool {
    exists|k: int| 0 <= k < split(p, '/').len() && #[trigger] is_hidden_component(split(p, '/')[k])
}

/// Path predicates used when serving files.
pub trait PathExt {
    /// If the path is hidden.
    fn is_hidden(&self) -> bool;
}

impl PathExt for str {
    /// Checks if the path is hidden: one of its normal components starts
    /// with a dot.
    fn is_hidden(&self) -> (r: bool)
        ensures
            r == is_hidden_path(self@),
    {
        let v = chars_of(self);
        let parts = split_bounds(v.as_slice(), 0, v.len(), '/');
        let ghost s = v@.subrange(0, v@.len() as int);
        assert(s =~= self@);
        let mut k: usize = 0;
        while k < parts.len()
            invariant
                k <= parts@.len(),
                s == self@,
                v@ == self@,
                parts@.len() == split(s, '/').len(),
                forall|j: int|
                    0 <= j < parts@.len() ==> {
                        let (a, b) = #[trigger] parts@[j];
                        &&& 0 <= a <= b <= v@.len()
                        &&& v@.subrange(a as int, b as int) == split(s, '/')[j]
                    },
                forall|j: int| 0 <= j < k ==> !#[trigger] is_hidden_component(split(s, '/')[j]),
            decreases parts@.len() - k,
        {
            let (a, b) = parts[k];
            let ghost c = v@.subrange(a as int, b as int);
            assert(c == split(s, '/')[k as int]);
            if b > a && v[a] == '.' {
                let single = b - a == 1;
                let double = b - a == 2 && v[a + 1] == '.';
                if !single && !double {
                    proof {
                        assert(c[0] == '.');
                        if c.len() == 2 {
                            assert(c[1] != '.');
                            if c == seq!['.', '.'] {
                                assert(seq!['.', '.'][1] == '.');
                            }
                        }
                        assert(c != seq!['.'] && c != seq!['.', '.']);
                        assert(is_hidden_component(split(s, '/')[k as int]));
                    }
                    return true;
                }
                assert(!is_hidden_component(c)) by {
                    if single {
                        assert(c =~= seq!['.']);
                    } else {
                        assert(c =~= seq!['.', '.']);
                    }
                }
            }
            k = k + 1;
        }
        false
    }
}

/// The last normal component among `parts` (the `/`-separated pieces of a
/// path): empty pieces and `.` are skipped, and a path that ends in `..`
/// has none.
pub open spec fn last_component(parts: Seq<Seq<char>>) -> Option<Seq<char>>
    decreases parts.len(),
{
    if parts.len() == 0 {
        None
    } else {
        let c = parts.last();
        if c.len() == 0 || c == seq!['.'] {
            last_component(parts.drop_last())
        } else if c == seq!['.', '.'] {
            None
        } else {
            Some(c)
        }
    }
}

/// The file name of a path: its last normal component.
pub open spec fn file_name(p: Seq<char>) -> Option<Seq<char>> {
    last_component(split(p, '/'))
}

/// The extension of a file name: what follows its last dot, unless that
/// dot is its first character.
pub open spec fn extension_of(name: Seq<char>) -> Option<Seq<char>> {
    if exists|i: int| 0 < i < name.len() && name[i] == '.' {
        let i = choose|i: int|
            0 < i < name.len() && name[i] == '.' && forall|j: int|
                i < j < name.len() ==> name[j] != '.';
        Some(name.skip(i + 1))
    } else {
        None
    }
}

/// The extension of a path: that of its file name, if it has one.
pub open spec fn path_extension(p: Seq<char>) -> Option<Seq<char>> {
    match file_name(p) {
        Some(n) => extension_of(n),
        None => None,
    }
}

/// The extension of a path (`Path::extension`).
pub fn extension(path: &str) -> (r: Option<String>)
    ensures
        match r {
            Some(e) => path_extension(path@) == Some(e@),
            None => path_extension(path@) is None,
        },
{
    let v = chars_of(path);
    let parts = split_bounds(v.as_slice(), 0, v.len(), '/');
    let ghost s = v@.subrange(0, v@.len() as int);
    assert(s =~= path@);
    let ghost ps = split(s, '/');
    let mut k: usize = parts.len();
    // Walk back over the pieces to the last normal component.
    let mut found: Option<(usize, usize)> = None;
    assert(ps.take(k as int) =~= ps);
    while k > 0
        invariant_except_break
            k <= parts@.len(),
            found is None,
            last_component(ps) == last_component(ps.take(k as int)),
        invariant
            s == path@,
            v@ == path@,
            ps == split(s, '/'),
            parts@.len() == ps.len(),
            forall|j: int|
                0 <= j < parts@.len() ==> {
                    let (a, b) = #[trigger] parts@[j];
                    &&& 0 <= a <= b <= v@.len()
                    &&& v@.subrange(a as int, b as int) == ps[j]
                },
        ensures
            match found {
                Some((a, b)) => a <= b <= v@.len() && last_component(ps) == Some(
                    v@.subrange(a as int, b as int),
                ),
                None => last_component(ps) is None,
            },
        decreases k,
    {
        let (a, b) = parts[k - 1];
        let ghost c = v@.subrange(a as int, b as int);
        let ghost t = ps.take(k as int);
        assert(t.last() == c);
        assert(t.drop_last() =~= ps.take(k - 1));
        let is_dot = b - a == 1 && v[a] == '.';
        let is_dotdot = b - a == 2 && v[a] == '.' && v[a + 1] == '.';
        proof {
            if b - a == 1 {
                assert(is_dot ==> c =~= seq!['.']);
                assert(c == seq!['.'] ==> c[0] == '.');
            }
            if b - a == 2 {
                assert(is_dotdot ==> c =~= seq!['.', '.']);
                assert(c == seq!['.', '.'] ==> c[0] == '.' && c[1] == '.');
            }
            if b - a != 1 {
                assert(c.len() != 1);
            }
            if b - a != 2 {
                assert(c.len() != 2);
            }
        }
        if a == b || is_dot {
            k = k - 1;
        } else if is_dotdot {
            break;
        } else {
            found = Some((a, b));
            break;
        }
    }
    proof {
        if k == 0 && found is None {
            assert(ps.take(0) =~= Seq::<Seq<char>>::empty());
        }
    }
    match found {
        None => None,
        Some((a, b)) => {
            let ghost n = v@.subrange(a as int, b as int);
            // The last dot of the name.
            let mut i = b;
            while i > a && v[i - 1] != '.'
                invariant
                    a <= i <= b <= v@.len(),
                    v@ == path@,
                    forall|j: int| i <= j < b ==> v@[j] != '.',
                decreases i - a,
            {
                i = i - 1;
            }
            // `i - 1` is the last dot, if any; it must not be the first char.
            if i - a <= 1 {
                proof {
                    assert forall|j: int| 0 < j < n.len() implies n[j] != '.' by {
                        assert(n[j] == v@[a + j]);
                    }
                }
                return None;
            }
            let d = i - 1;
            proof {
                assert(n[d - a] == '.');
                assert forall|j: int| d - a < j < n.len() implies n[j] != '.' by {
                    assert(n[j] == v@[a + j]);
                }
                let w = choose|w: int|
                    0 < w < n.len() && n[w] == '.' && forall|j: int|
                        w < j < n.len() ==> n[j] != '.';
                assert(w == d - a) by {
                    if w < d - a {
                        assert(n[d - a] != '.');
                    } else if w > d - a {
                        assert(n[w] != '.');
                    }
                }
                assert(n.skip(d - a + 1) =~= v@.subrange(i as int, b as int));
            }
            Some(string_of(v.as_slice(), i, b))
        },
    }
}


} // verus!

verus! {

/// A piece between slashes that names a component: not empty and not `.`
/// (`..` is kept, as the parent-directory component).
pub open spec fn is_named_part(c: Seq<char>) -> bool {
    c.len() > 0 && c != seq!['.']
}

/// The naming pieces among `parts`, in order.
pub open spec fn named_parts(parts: Seq<Seq<char>>) -> Seq<Seq<char>>
    decreases parts.len(),
{
    if parts.len() == 0 {
        Seq::empty()
    } else {
        let init = named_parts(parts.drop_last());
        if is_named_part(parts.last()) {
            init.push(parts.last())
        } else {
            init
        }
    }
}

/// The components of a Unix path (`Path::components`), each as its text:
/// `/` for the root of an absolute path, `.` for a leading current
/// directory, then every piece between slashes that is neither empty nor
/// `.`.
pub open spec fn path_components(p: Seq<char>) -> Seq<Seq<char>> {
    let parts = split(p, '/');
    if p.len() > 0 && p[0] == '/' {
        seq![seq!['/']] + named_parts(parts)
    } else if parts[0] == seq!['.'] {
        seq![seq!['.']] + named_parts(parts)
    } else {
        named_parts(parts)
    }
}

/// `Path::starts_with`: the components of `base` are the first components
/// of `p`.
pub open spec fn path_starts_with(p: Seq<char>, base: Seq<char>) -> bool {
    let a = path_components(p);
    let b = path_components(base);
    b.len() <= a.len() && a.take(b.len() as int) == b
}

/// Where a configured page file is looked for: a relative path that is
/// not already under the root directory is taken under it; any other path
/// is used as given.
pub open spec fn resolve_page_path_spec(root: Seq<char>, page: Seq<char>) -> Seq<char> {
    let relative = !(page.len() > 0 && page[0] == '/');
    if relative && !path_starts_with(page, root) {
        push_component(root, page)
    } else {
        page
    }
}

/// The components of the path held in `v`.
fn components_of(v: &[char]) -> (r: Vec<Vec<char>>)
    ensures
        r@.len() == path_components(v@).len(),
        forall|i: int| 0 <= i < r@.len() ==> #[trigger] r@[i]@ == path_components(v@)[i],
{
    let n = v.len();
    assert(v@.subrange(0, n as int) =~= v@);
    let parts = split_bounds(v, 0, n, '/');
    let ghost ps = split(v@, '/');
    proof {
        lemma_split_nonempty(v@, '/');
    }
    let mut r: Vec<Vec<char>> = Vec::new();
    let ghost mut lead: Seq<Seq<char>> = Seq::empty();
    let (a0, b0) = parts[0];
    let first = slice_of(v, a0, b0);
    if n > 0 && v[0] == '/' {
        r.push(vec!['/']);
        proof {
            lead = seq![seq!['/']];
        }
    } else if first.len() == 1 && first[0] == '.' {
        r.push(vec!['.']);
        proof {
            lead = seq![seq!['.']];
            assert(first@ =~= seq!['.']);
        }
    } else {
        proof {
            if ps[0] == seq!['.'] {
                assert(first@[0] == '.');
            }
        }
    }
    assert(ps.take(0) =~= Seq::<Seq<char>>::empty());
    let mut k: usize = 0;
    while k < parts.len()
        invariant
            k <= parts@.len() == ps.len(),
            n == v@.len(),
            ps == split(v@, '/'),
            forall|j: int|
                0 <= j < parts@.len() ==> {
                    let (x, y) = #[trigger] parts@[j];
                    &&& 0 <= x <= y <= n
                    &&& v@.subrange(x as int, y as int) == ps[j]
                },
            path_components(v@) == lead + named_parts(ps),
            r@.len() == (lead + named_parts(ps.take(k as int))).len(),
            forall|i: int|
                0 <= i < r@.len() ==> #[trigger] r@[i]@ == (lead + named_parts(ps.take(k as int)))[i],
        decreases parts@.len() - k,
    {
        let (x, y) = parts[k];
        let c = slice_of(v, x, y);
        assert(ps.take(k + 1).drop_last() =~= ps.take(k as int));
        assert(ps.take(k + 1).last() == ps[k as int]);
        let named = c.len() > 0 && !(c.len() == 1 && c[0] == '.');
        proof {
            if c@ == seq!['.'] {
                assert(c@[0] == '.');
            }
            if c.len() == 1 && c[0] == '.' {
                assert(c@ =~= seq!['.']);
            }
        }
        if named {
            r.push(c);
        }
        k = k + 1;
        assert(named_parts(ps.take(k as int)) == if is_named_part(ps[k - 1]) {
            named_parts(ps.take(k - 1)).push(ps[k - 1])
        } else {
            named_parts(ps.take(k - 1))
        });
    }
    assert(ps.take(k as int) =~= ps);
    r
}

/// Resolves a configured 404 or 50x page path against the root directory:
/// a relative path that is not already under the root is joined to it
/// (`Path::join`); an absolute path, or one already under the root, is
/// kept as it is.
pub fn resolve_page_path(root: &str, page: &str) -> (r: String)
    ensures
        r@ == resolve_page_path_spec(root@, page@),
{
    let pv = chars_of(page);
    let relative = !(pv.len() > 0 && pv[0] == '/');
    if !relative {
        return String::from_str(page);
    }
    let rv = chars_of(root);
    let pc = components_of(pv.as_slice());
    let rc = components_of(rv.as_slice());
    let ghost a = path_components(page@);
    let ghost b = path_components(root@);
    let mut under = rc.len() <= pc.len();
    let mut i: usize = 0;
    while under && i < rc.len()
        invariant
            a == path_components(page@),
            b == path_components(root@),
            under ==> rc@.len() <= pc@.len(),
            i <= rc@.len(),
            rc@.len() == b.len(),
            pc@.len() == a.len(),
            forall|j: int| 0 <= j < rc@.len() ==> #[trigger] rc@[j]@ == b[j],
            forall|j: int| 0 <= j < pc@.len() ==> #[trigger] pc@[j]@ == a[j],
            under ==> forall|j: int| 0 <= j < i ==> a[j] == b[j],
            !under ==> !path_starts_with(page@, root@),
        decreases rc@.len() - i + (if under { 1int } else { 0int }),
    {
        if !chars_eq(rc[i].as_slice(), pc[i].as_slice()) {
            assert(rc@[i as int]@ == b[i as int]);
            assert(pc@[i as int]@ == a[i as int]);
            assert(a[i as int] != b[i as int]);
            assert(a.take(b.len() as int)[i as int] == a[i as int]);
            assert(a.take(b.len() as int) != b);
            under = false;
        } else {
            i = i + 1;
        }
    }
    if under {
        assert(a.take(b.len() as int) =~= b);
    }
    if under {
        return String::from_str(page);
    }
    let mut s = String::from_str(root);
    let n = rv.len();
    if !(n == 0 || rv[n - 1] == '/') {
        s.append("/");
    }
    s.append(page);
    proof {
        reveal_strlit("/");
        if n > 0 {
            assert(root@.last() == rv@[n - 1]);
        }
    }
    assert(s@ =~= push_component(root@, page@));
    s
}

} // verus!
