//! The path confinement guard: the sole sandbox boundary for every tool
//! that touches the filesystem or version history.
//!
//! A candidate path is judged lexically, never against the real
//! filesystem: walking its `/`-separated components left to right, a named
//! component deepens the walk by one, a `..` component raises it by one,
//! and empty or `.` components change nothing.  The path "spills up" when
//! the walk ever rises above its starting point, that is, when the running
//! depth of some prefix of the component list goes negative.

use vstd::prelude::*;

verus! {

/// First index at or after `i` holding a `/`, or the length of `s` when
/// there is none.
pub open spec fn find_sep(s: Seq<char>, i: int) -> int
    recommends
        0 <= i <= s.len(),
    decreases s.len() - i,
{
    if i < 0 || i >= s.len() {
        s.len() as int
    } else if s[i] == '/' {
        i
    } else {
        find_sep(s, i + 1)
    }
}

pub proof fn lemma_find_sep_bounds(s: Seq<char>, i: int)
    ensures
        i <= s.len() ==> i <= find_sep(s, i),
        find_sep(s, i) <= s.len(),
    decreases s.len() - i,
{
    if 0 <= i < s.len() && s[i] != '/' {
        lemma_find_sep_bounds(s, i + 1);
    }
}

/// The `/`-separated components of the suffix of `s` that starts at `i`.
pub open spec fn components_from(s: Seq<char>, i: int) -> Seq<Seq<char>>
    recommends
        0 <= i <= s.len(),
    decreases s.len() - i,
    via components_from_decreases
{
    let j = find_sep(s, i);
    if j >= s.len() {
        seq![s.subrange(i, s.len() as int)]
    } else {
        seq![s.subrange(i, j)] + components_from(s, j + 1)
    }
}

#[via_fn]
proof fn components_from_decreases(s: Seq<char>, i: int) {
    lemma_find_sep_bounds(s, i);
}

/// The `/`-separated components of a whole path.
pub open spec fn components(s: Seq<char>) -> Seq<Seq<char>> {
    components_from(s, 0)
}

/// How one component changes the depth of the walk: a named component
/// descends, `..` ascends, and the rest (empty components from repeated
/// or leading separators, and `.`) leave it alone.
pub open spec fn component_delta(c: Seq<char>) -> int {
    if c.len() == 0 || c == seq!['.'] {
        0
    } else if c == seq!['.', '.'] {
        -1
    } else {
        1
    }
}

/// Depth of the walk after the first `k` components.
pub open spec fn depth_after(cs: Seq<Seq<char>>, k: int) -> int
    decreases k,
{
    if k <= 0 {
        0
    } else {
        depth_after(cs, k - 1) + component_delta(cs[k - 1])
    }
}

/// A path spills up when the running depth of some prefix of its
/// component list goes negative.
pub open spec fn spec_spills_up(s: Seq<char>) -> bool {
    exists|k: int|
        1 <= k <= components(s).len() && depth_after(components(s), k) < 0
}

proof fn lemma_find_sep_found(s: Seq<char>, i: int, j: int)
    requires
        0 <= i <= j <= s.len(),
        forall|m: int| i <= m < j ==> s[m] != '/',
        j == s.len() || s[j] == '/',
    ensures
        find_sep(s, i) == j,
    decreases j - i,
{
    if i < j {
        lemma_find_sep_found(s, i + 1, j);
    }
}

/// True if the path goes above the current directory.
pub fn path_spills_up(path: &str) -> (r: bool)
    ensures
        r == spec_spills_up(path@),
{
    let n = path.unicode_len();
    let ghost s = path@;
    let ghost cs = components(s);
    let mut i: usize = 0;
    let mut depth: usize = 0;
    let ghost mut k: int = 0;
    proof {
        assert(cs =~= cs.take(0) + components_from(s, 0));
    }
    loop
        invariant
            s == path@,
            cs == components(s),
            n == s.len(),
            0 <= i <= n,
            0 <= k <= cs.len(),
            depth <= i,
            cs == cs.take(k) + components_from(s, i as int),
            depth == depth_after(cs, k),
            forall|m: int| 1 <= m <= k ==> depth_after(cs, m) >= 0,
        decreases n - i,
    {
        // Scan the component that starts at `i`.
        let mut j = i;
        while j < n && path.get_char(j) != '/'
            invariant
                s == path@,
                n == s.len(),
                i <= j <= n,
                forall|m: int| i <= m < j ==> s[m] != '/',
            decreases n - j,
        {
            j += 1;
        }
        proof {
            lemma_find_sep_found(s, i as int, j as int);
        }
        let ghost comp = s.subrange(i as int, j as int);
        proof {
            assert(components_from(s, i as int).len() >= 1);
            assert(components_from(s, i as int)[0] == comp);
            assert(cs.len() == k + components_from(s, i as int).len());
            assert(cs[k] == comp);
            assert(cs.take(k + 1) =~= cs.take(k) + seq![comp]);
        }

        // Classify the component without looking past its first two
        // characters: only its length and leading dots matter.
        let comp_len = j - i;
        let skips = comp_len == 0 || (comp_len == 1 && path.get_char(i) == '.');
        let is_parent = comp_len == 2 && path.get_char(i) == '.' && path.get_char(i + 1) == '.';
        proof {
            if comp_len == 1 && s[i as int] == '.' {
                assert(comp =~= seq!['.']);
            }
            if is_parent {
                assert(comp =~= seq!['.', '.']);
            }
            if comp == seq!['.'] {
                assert(comp.len() == 1 && comp[0] == '.');
                assert(s[i as int] == '.');
            }
            if comp == seq!['.', '.'] {
                assert(comp.len() == 2 && comp[0] == '.' && comp[1] == '.');
                assert(s[i as int] == '.' && s[i as int + 1] == '.');
            }
            assert(depth_after(cs, k + 1) == depth_after(cs, k) + component_delta(comp));
        }
        if is_parent {
            if depth == 0 {
                proof {
                    assert(component_delta(comp) == -1);
                    assert(depth_after(cs, k + 1) < 0);
                }
                return true;
            }
            depth -= 1;
        } else if !skips {
            proof {
                assert(component_delta(comp) == 1);
            }
            depth += 1;
        }
        proof {
            k = k + 1;
            assert(depth == depth_after(cs, k));
        }

        if j == n {
            proof {
                assert(components_from(s, i as int) =~= seq![comp]);
                assert(cs =~= cs.take(k));
            }
            return false;
        }
        proof {
            assert(components_from(s, i as int) == seq![comp] + components_from(s, j + 1));
            assert(cs.take(k) + components_from(s, j + 1) =~= cs);
        }
        i = j + 1;
    }
}

} // verus!
