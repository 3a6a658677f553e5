use vstd::prelude::*;
use vstd::arithmetic::div_mod::{
    lemma_add_mod_noop_right, lemma_fundamental_div_mod_converse, lemma_mod_bound,
};
use crate::paths::{image_path, is_image_path, lemma_lex_irreflexive, lemma_lex_transitive, lex_lt,
    order, Order};

verus! {

/// The paths that a vector of byte strings holds.
pub open spec fn names(v: Seq<Vec<u8>>) -> Seq<Seq<u8>> {
    Seq::new(v.len(), |i: int| v[i]@)
}

/// Each path comes before all that follow it, so none occurs twice.
pub open spec fn ascending(s: Seq<Seq<u8>>) -> bool {
    forall|i: int, j: int| 0 <= i < j < s.len() ==> lex_lt(#[trigger] s[i], #[trigger] s[j])
}

/// `s` is the file list made of `candidates`: their image paths, each once,
/// in ascending order.
pub open spec fn lists(s: Seq<Seq<u8>>, candidates: Seq<Seq<u8>>) -> bool {
    &&& ascending(s)
    &&& forall|p: Seq<u8>| #[trigger] s.contains(p) <==> candidates.contains(p) && image_path(p)
}

/// The position that a raw index stands for in a list of `len` files: the
/// index modulo the length, never negative; none in an empty list.
pub open spec fn wrapped(len: int, index: Option<int>) -> Option<int> {
    match index {
        Some(i) => if len > 0 {
            Some(i % len)
        } else {
            None
        },
        None => None,
    }
}

/// The position reached from `current` by `offset` steps: the offset is
/// brought into the list's range, added to the current position (the first
/// where there is none), and the sum wrapped as a raw index is.
pub open spec fn stepped(len: int, current: Option<int>, offset: int) -> Option<int> {
    if len > 0 {
        let from = match current {
            Some(c) => c,
            None => 0,
        };
        wrapped(len, Some(from + offset % len))
    } else {
        None
    }
}

/// A position as a mathematical integer.
pub open spec fn position(index: Option<usize>) -> Option<int> {
    match index {
        Some(i) => Some(i as int),
        None => None,
    }
}

/// The image files to browse: sorted paths without duplicates.
pub struct FileList {
    paths: Vec<Vec<u8>>,
}

impl View for FileList {
    type V = Seq<Seq<u8>>;

    closed spec fn view(&self) -> Seq<Seq<u8>> {
        names(self.paths@)
    }
}

/// The remainder of a division that rounds towards negative infinity.
fn floor_mod(a: i64, b: usize) -> (r: usize)
    requires
        b > 0,
    ensures
        r == (a as int) % (b as int),
        r < b,
{
    if a >= 0 {
        let r: u64 = (a as u64) % (b as u64);
        r as usize
    } else {
        let m: u64 = (-(a + 1)) as u64;
        let t: u64 = m % (b as u64);
        let r: usize = b - 1 - (t as usize);
        proof {
            let q = (m as int) / (b as int);
            lemma_mod_bound(m as int, b as int);
            vstd::arithmetic::div_mod::lemma_fundamental_div_mod(m as int, b as int);
            assert(a as int == (-q - 1) * (b as int) + (r as int)) by (nonlinear_arith)
                requires
                    a as int == -(m as int) - 1,
                    m as int == (b as int) * q + (t as int),
                    r as int == b - 1 - t,
            ;
            lemma_fundamental_div_mod_converse(a as int, b as int, -q - 1, r as int);
        }
        r
    }
}

/// Puts a path at its place in an ascending list, unless it is there.
fn insert_sorted(paths: &mut Vec<Vec<u8>>, path: Vec<u8>)
    requires
        ascending(names(old(paths)@)),
    ensures
        ascending(names(final(paths)@)),
        forall|p: Seq<u8>| #[trigger]
            names(final(paths)@).contains(p) <==> names(old(paths)@).contains(p) || p == path@,
{
    let ghost before = names(paths@);
    let mut i: usize = 0;
    let mut found: bool = false;
    while i < paths.len()
        invariant_except_break
            !found,
        invariant
            i <= paths.len(),
            paths@ == old(paths)@,
            before == names(paths@),
            forall|j: int| 0 <= j < i ==> lex_lt(#[trigger] before[j], path@),
        ensures
            found ==> i < paths.len() && before[i as int] == path@,
            !found ==> (i == paths.len() || lex_lt(path@, before[i as int])),
        decreases paths.len() - i,
    {
        match order(paths[i].as_slice(), path.as_slice()) {
            Order::Before => {
                i = i + 1;
            },
            Order::Same => {
                found = true;
                break ;
            },
            Order::After => {
                break ;
            },
        }
    }
    if found {
        proof {
            assert(before.contains(path@));
        }
    } else {
        paths.insert(i, path);
        proof {
            let after = names(paths@);
            assert(after =~= before.insert(i as int, path@));
            assert forall|a: int, b: int| 0 <= a < b < after.len() implies lex_lt(
                #[trigger] after[a],
                #[trigger] after[b],
            ) by {
                if b < i {
                    assert(after[a] == before[a] && after[b] == before[b]);
                } else if b == i {
                    assert(after[a] == before[a]);
                } else if a < i {
                    assert(after[a] == before[a] && after[b] == before[b - 1]);
                    if b - 1 > i {
                        assert(lex_lt(before[i as int], before[b - 1]));
                    }
                    lemma_lex_transitive(before[a], path@, before[i as int]);
                    if b - 1 > i {
                        lemma_lex_transitive(before[a], before[i as int], before[b - 1]);
                    }
                } else if a == i {
                    assert(after[b] == before[b - 1]);
                    if b - 1 > i {
                        lemma_lex_transitive(path@, before[i as int], before[b - 1]);
                    }
                } else {
                    assert(after[a] == before[a - 1] && after[b] == before[b - 1]);
                }
            }
            assert forall|p: Seq<u8>| #[trigger] after.contains(p) <==> before.contains(p) || p
                == path@ by {
                if after.contains(p) {
                    let k = choose|k: int| 0 <= k < after.len() && after[k] == p;
                    if k < i {
                        assert(before[k] == p);
                    } else if k > i {
                        assert(before[k - 1] == p);
                    }
                }
                if before.contains(p) {
                    let k = choose|k: int| 0 <= k < before.len() && before[k] == p;
                    if k < i {
                        assert(after[k] == p);
                    } else {
                        assert(after[k + 1] == p);
                    }
                }
                if p == path@ {
                    assert(after[i as int] == p);
                }
            }
        }
    }
}

impl FileList {
    /// The list holds what a file list may hold: image paths in ascending
    /// order.
    pub open spec fn wf(&self) -> bool {
        &&& ascending(self@)
        &&& forall|i: int| 0 <= i < self@.len() ==> image_path(#[trigger] self@[i])
        &&& self@.len() <= usize::MAX
    }

    /// The list without files.
    pub fn new() -> (r: FileList)
        ensures
            r.wf(),
            r@.len() == 0,
    {
        FileList { paths: Vec::new() }
    }

    /// The file list of the given paths: those that name images, sorted,
    /// each once.
    pub fn build(candidates: Vec<Vec<u8>>) -> (r: FileList)
        ensures
            r.wf(),
            lists(r@, names(candidates@)),
    {
        let ghost all = names(candidates@);
        let mut rest = candidates;
        let mut paths: Vec<Vec<u8>> = Vec::new();
        while rest.len() > 0
            invariant
                rest@.len() <= all.len(),
                forall|k: int| 0 <= k < rest@.len() ==> (#[trigger] rest@[k])@ == all[k],
                ascending(names(paths@)),
                forall|p: Seq<u8>| #[trigger]
                    names(paths@).contains(p) <==> image_path(p) && exists|k: int|
                        rest@.len() <= k < all.len() && all[k] == p,
            decreases rest@.len(),
        {
            let ghost n = rest@.len() - 1;
            let ghost held = names(paths@);
            let path = rest.pop().unwrap();
            assert(path@ == all[n]);
            if is_image_path(path.as_slice()) {
                insert_sorted(&mut paths, path);
            }
            proof {
                let now = names(paths@);
                assert forall|p: Seq<u8>| #[trigger] now.contains(p) <==> image_path(p)
                    && exists|k: int| n <= k < all.len() && all[k] == p by {
                    if held.contains(p) {
                        let k = choose|k: int| n + 1 <= k < all.len() && all[k] == p;
                        assert(n <= k < all.len() && all[k] == p);
                    }
                    if image_path(p) && exists|k: int| n <= k < all.len() && all[k] == p {
                        let k = choose|k: int| n <= k < all.len() && all[k] == p;
                        if k > n {
                            assert(n + 1 <= k < all.len() && all[k] == p);
                        }
                    }
                }
            }
        }
        let r = FileList { paths };
        proof {
            assert(r@.len() == r.paths.len());
            assert forall|p: Seq<u8>| #[trigger] r@.contains(p) <==> all.contains(p)
                && image_path(p) by {
                if all.contains(p) {
                    let k = choose|k: int| 0 <= k < all.len() && all[k] == p;
                    assert(0 <= k < all.len() && all[k] == p);
                }
            }
            assert forall|i: int| 0 <= i < r@.len() implies image_path(#[trigger] r@[i]) by {
                assert(r@.contains(r@[i]));
            }
        }
        r
    }

    /// Number of files.
    pub fn len(&self) -> (r: usize)
        ensures
            r == self@.len(),
    {
        self.paths.len()
    }

    /// Whether there is no file.
    pub fn is_empty(&self) -> (r: bool)
        ensures
            r == (self@.len() == 0),
    {
        self.paths.len() == 0
    }

    /// The path at a position.
    pub fn get(&self, index: usize) -> (r: &Vec<u8>)
        requires
            index < self@.len(),
        ensures
            r@ == self@[index as int],
    {
        &self.paths[index]
    }

    /// The position that a raw index stands for.
    pub fn select(&self, index: Option<i64>) -> (r: Option<usize>)
        ensures
            position(r) == wrapped(
                self@.len() as int,
                match index {
                    Some(i) => Some(i as int),
                    None => None,
                },
            ),
            match r {
                Some(k) => index.is_some() && k < self@.len(),
                None => index.is_none() || self@.len() == 0,
            },
            index.is_some() ==> (r.is_none() <==> self@.len() == 0),
    {
        match index {
            Some(i) => {
                if self.paths.len() == 0 {
                    None
                } else {
                    Some(floor_mod(i, self.paths.len()))
                }
            },
            None => None,
        }
    }

    /// The position reached from `current` by `offset` steps.
    pub fn select_relative(&self, current: Option<usize>, offset: i64) -> (r: Option<usize>)
        ensures
            position(r) == stepped(self@.len() as int, position(current), offset as int),
            match r {
                Some(k) => k < self@.len(),
                None => self@.len() == 0,
            },
    {
        let len: usize = self.paths.len();
        if len == 0 {
            None
        } else {
            let from: usize = match current {
                Some(c) => c,
                None => 0,
            };
            let step: usize = floor_mod(offset, len);
            let start: usize = from % len;
            let sum: usize = if step >= len - start {
                step - (len - start)
            } else {
                start + step
            };
            proof {
                let l = len as int;
                lemma_add_mod_noop_right(step as int, from as int, l);
                vstd::arithmetic::div_mod::lemma_add_mod_noop(from as int, step as int, l);
                vstd::arithmetic::div_mod::lemma_small_mod(step as nat, len as nat);
                if step >= len - start {
                    lemma_fundamental_div_mod_converse(start + step, l, 1, sum as int);
                } else {
                    lemma_fundamental_div_mod_converse(start + step, l, 0, sum as int);
                }
            }
            Some(sum)
        }
    }
}

/// A raw index, negative or not, selects a position of the list, and none
/// only in an empty list.
pub proof fn lemma_wrapped_in_range(len: int, index: int)
    requires
        0 <= len,
    ensures
        match wrapped(len, Some(index)) {
            Some(k) => 0 <= k < len,
            None => len == 0,
        },
{
    if len > 0 {
        lemma_mod_bound(index, len);
    }
}

/// A step from a position, forwards or backwards, leads to a position of
/// the list, and nowhere only in an empty list: to the position that lies
/// `offset` places on, counted round the list.
pub proof fn lemma_stepped_in_range(len: int, current: Option<int>, offset: int)
    requires
        0 <= len,
    ensures
        match stepped(len, current, offset) {
            Some(k) => 0 <= k < len && k == (match current {
                Some(c) => c,
                None => 0,
            } + offset) % len,
            None => len == 0,
        },
{
    if len > 0 {
        let from = match current {
            Some(c) => c,
            None => 0,
        };
        lemma_mod_bound(from + offset % len, len);
        lemma_add_mod_noop_right(from, offset, len);
    }
}

/// Two ascending lists of the same paths are the same list.
pub proof fn lemma_ascending_unique(a: Seq<Seq<u8>>, b: Seq<Seq<u8>>)
    requires
        ascending(a),
        ascending(b),
        forall|p: Seq<u8>| a.contains(p) <==> b.contains(p),
    ensures
        a == b,
    decreases a.len(),
{
    if a.len() == 0 {
        if b.len() > 0 {
            assert(b.contains(b[0]));
        }
        assert(a =~= b);
    } else {
        assert(a.contains(a[0]));
        let j = choose|j: int| 0 <= j < b.len() && b[j] == a[0];
        assert(b.contains(b[0]));
        let i = choose|i: int| 0 <= i < a.len() && a[i] == b[0];
        if i > 0 {
            if j > 0 {
                lemma_lex_transitive(a[0], a[i], b[j]);
            }
            lemma_lex_irreflexive(a[0]);
        }
        let x = a.skip(1);
        let y = b.skip(1);
        assert forall|p: Seq<u8>| x.contains(p) <==> y.contains(p) by {
            if x.contains(p) {
                let k = choose|k: int| 0 <= k < x.len() && x[k] == p;
                assert(a[k + 1] == p);
                assert(a.contains(p));
                let m = choose|m: int| 0 <= m < b.len() && b[m] == p;
                lemma_lex_irreflexive(a[0]);
                assert(y[m - 1] == p);
            }
            if y.contains(p) {
                let k = choose|k: int| 0 <= k < y.len() && y[k] == p;
                assert(b[k + 1] == p);
                assert(b.contains(p));
                let m = choose|m: int| 0 <= m < a.len() && a[m] == p;
                lemma_lex_irreflexive(b[0]);
                assert(x[m - 1] == p);
            }
        }
        assert forall|k: int, m: int| 0 <= k < m < x.len() implies lex_lt(
            #[trigger] x[k],
            #[trigger] x[m],
        ) by {
            assert(x[k] == a[k + 1] && x[m] == a[m + 1]);
        }
        assert forall|k: int, m: int| 0 <= k < m < y.len() implies lex_lt(
            #[trigger] y[k],
            #[trigger] y[m],
        ) by {
            assert(y[k] == b[k + 1] && y[m] == b[m + 1]);
        }
        lemma_ascending_unique(x, y);
        assert(a =~= seq![a[0]] + x);
        assert(b =~= seq![b[0]] + y);
    }
}

/// The candidates determine their file list.
pub proof fn lemma_lists_unique(a: Seq<Seq<u8>>, b: Seq<Seq<u8>>, candidates: Seq<Seq<u8>>)
    requires
        lists(a, candidates),
        lists(b, candidates),
    ensures
        a == b,
{
    lemma_ascending_unique(a, b);
}

/// Nothing occurs twice in an ascending list.
pub proof fn lemma_ascending_distinct(s: Seq<Seq<u8>>, i: int, j: int)
    requires
        ascending(s),
        0 <= i < s.len(),
        0 <= j < s.len(),
        i != j,
    ensures
        s[i] != s[j],
{
    lemma_lex_irreflexive(s[i]);
}

} // verus!
