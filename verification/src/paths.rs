//! Path arithmetic on plain strings: splitting a relative path into its
//! components and rendering an absolute path relative to the repository root.
use vstd::prelude::*;

verus! {

/// The components of `s` found from position `i` on, where the component
/// currently being read began at position `start`. Components are the maximal
/// non-empty pieces between `/` separators.
pub open spec fn split_path_from(s: Seq<char>, i: int, start: int) -> Seq<Seq<char>>
    decreases s.len() - i,
{
    if i < 0 || i >= s.len() {
        if start < s.len() {
            seq![s.subrange(start, s.len() as int)]
        } else {
            Seq::empty()
        }
    } else if s[i] == '/' {
        if start < i {
            seq![s.subrange(start, i)] + split_path_from(s, i + 1, i + 1)
        } else {
            split_path_from(s, i + 1, i + 1)
        }
    } else {
        split_path_from(s, i + 1, start)
    }
}

/// The components of a path: the non-empty pieces between `/` separators,
/// so `a//b` and `a/b/` both have components `a`, `b`.
pub open spec fn split_path(s: Seq<char>) -> Seq<Seq<char>> {
    split_path_from(s, 0, 0)
}

/// `s` with every leading `/` removed.
pub open spec fn drop_leading_slashes(s: Seq<char>) -> Seq<char>
    decreases s.len(),
{
    if s.len() > 0 && s[0] == '/' {
        drop_leading_slashes(s.subrange(1, s.len() as int))
    } else {
        s
    }
}

/// `path` rendered relative to `root`: if `root` is a prefix of `path` that
/// ends at a component boundary, the remainder with leading separators
/// removed; otherwise `path` unchanged.
pub open spec fn strip_root(root: Seq<char>, path: Seq<char>) -> Seq<char> {
    if root.len() == 0 {
        path
    } else if path.len() >= root.len() && path.subrange(0, root.len() as int) == root && (
    root.last() == '/' || path.len() == root.len() || path[root.len() as int] == '/') {
        drop_leading_slashes(path.subrange(root.len() as int, path.len() as int))
    } else {
        path
    }
}

/// Splits a path string into its non-empty `/`-separated components.
pub fn split_components(s: &str) -> (r: Vec<String>)
    ensures
        r@.map_values(|c: String| c@) == split_path(s@),
{
    let n = s.unicode_len();
    let mut r: Vec<String> = Vec::new();
    let mut start: usize = 0;
    let mut i: usize = 0;
    while i < n
        invariant
            start <= i <= n,
            n == s@.len(),
            r@.map_values(|c: String| c@) + split_path_from(s@, i as int, start as int)
                == split_path(s@),
        decreases n - i,
    {
        let ghost old_map = r@.map_values(|c: String| c@);
        if s.get_char(i) == '/' {
            if start < i {
                let piece = s.substring_char(start, i);
                proof {
                    assert(split_path_from(s@, i as int, start as int) == seq![
                        s@.subrange(start as int, i as int),
                    ] + split_path_from(s@, i + 1, i + 1));
                }
                r.push(piece.to_owned());
                proof {
                    broadcast use vstd::prelude::Seq::lemma_push_map_commute;

                    assert(r@.map_values(|c: String| c@) + split_path_from(s@, i + 1, i + 1)
                        =~= old_map + split_path_from(s@, i as int, start as int));
                }
            } else {
                proof {
                    assert(split_path_from(s@, i as int, start as int) == split_path_from(
                        s@,
                        i + 1,
                        i + 1,
                    ));
                }
            }
            start = i + 1;
        } else {
            proof {
                assert(split_path_from(s@, i as int, start as int) == split_path_from(
                    s@,
                    i + 1,
                    start as int,
                ));
            }
        }
        i = i + 1;
    }
    if start < n {
        let piece = s.substring_char(start, n);
        let ghost old_map = r@.map_values(|c: String| c@);
        proof {
            assert(split_path_from(s@, n as int, start as int) == seq![
                s@.subrange(start as int, n as int),
            ]);
        }
        r.push(piece.to_owned());
        proof {
            broadcast use vstd::prelude::Seq::lemma_push_map_commute;

            assert(r@.map_values(|c: String| c@) =~= old_map + split_path_from(
                s@,
                n as int,
                start as int,
            ));
        }
    } else {
        proof {
            assert(split_path_from(s@, n as int, start as int) == Seq::<Seq<char>>::empty());
            assert(r@.map_values(|c: String| c@) + Seq::<Seq<char>>::empty() =~= r@.map_values(
                |c: String| c@,
            ));
        }
    }
    r
}

/// Renders `path` relative to `root`, per `strip_root`.
pub fn relative_to(root: &str, path: &str) -> (r: String)
    ensures
        r@ == strip_root(root@, path@),
{
    let rn = root.unicode_len();
    let pn = path.unicode_len();
    if rn == 0 || pn < rn {
        return path.to_owned();
    }
    let mut i: usize = 0;
    while i < rn
        invariant
            i <= rn <= pn,
            rn == root@.len(),
            pn == path@.len(),
            rn > 0,
            forall|j: int| 0 <= j < i ==> path@[j] == root@[j],
        decreases rn - i,
    {
        if path.get_char(i) != root.get_char(i) {
            proof {
                assert(path@.subrange(0, rn as int)[i as int] != root@[i as int]);
            }
            return path.to_owned();
        }
        i = i + 1;
    }
    proof {
        assert(path@.subrange(0, rn as int) =~= root@);
    }
    let at_boundary = root.get_char(rn - 1) == '/' || pn == rn || path.get_char(rn) == '/';
    if !at_boundary {
        return path.to_owned();
    }
    let mut k: usize = rn;
    while k < pn && path.get_char(k) == '/'
        invariant
            rn <= k <= pn,
            pn == path@.len(),
            drop_leading_slashes(path@.subrange(rn as int, pn as int)) == drop_leading_slashes(
                path@.subrange(k as int, pn as int),
            ),
        decreases pn - k,
    {
        proof {
            assert(path@.subrange(k as int, pn as int).subrange(
                1,
                path@.subrange(k as int, pn as int).len() as int,
            ) =~= path@.subrange(k + 1, pn as int));
        }
        k = k + 1;
    }
    proof {
        let tail = path@.subrange(k as int, pn as int);
        assert(drop_leading_slashes(tail) == tail);
    }
    let piece = path.substring_char(k, pn);
    piece.to_owned()
}

} // verus!
