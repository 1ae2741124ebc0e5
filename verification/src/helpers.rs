//! Sequence helpers shared by the policy modules: first-match searches over
//! the window list and small facts about `Seq::filter`.

use vstd::prelude::*;

use crate::window::{Window, WindowHandle};

verus! {

/// Index of the first element satisfying `p`, scanning from the front.
pub open spec fn find_idx<A>(ws: Seq<A>, p: spec_fn(A) -> bool) -> Option<int>
    decreases ws.len(),
{
    if ws.len() == 0 {
        None
    } else if p(ws[0]) {
        Some(0)
    } else {
        match find_idx(ws.skip(1), p) {
            Some(i) => Some(i + 1),
            None => None,
        }
    }
}

/// What `find_idx` returns: the first matching index, or a proof that
/// nothing matches.
pub proof fn lemma_find_idx_spec<A>(ws: Seq<A>, p: spec_fn(A) -> bool)
    ensures
        match find_idx(ws, p) {
            Some(i) => 0 <= i < ws.len() && p(ws[i]) && forall|j: int|
                0 <= j < i ==> !p(ws[j]),
            None => forall|j: int| 0 <= j < ws.len() ==> !p(ws[j]),
        },
    decreases ws.len(),
{
    if ws.len() > 0 && !p(ws[0]) {
        lemma_find_idx_spec(ws.skip(1), p);
        assert(forall|j: int|
            0 <= j < ws.skip(1).len() ==> #[trigger] ws.skip(1)[j] == ws[j + 1]);
        match find_idx(ws.skip(1), p) {
            Some(i) => {
                assert(p(ws.skip(1)[i]));
                assert forall|j: int| 0 <= j < i + 1 implies !p(ws[j]) by {
                    if j > 0 {
                        assert(!p(ws.skip(1)[j - 1]));
                    }
                }
            },
            None => {
                assert forall|j: int| 0 <= j < ws.len() implies !p(ws[j]) by {
                    if j > 0 {
                        assert(!p(ws.skip(1)[j - 1]));
                    }
                }
            },
        }
    }
}

/// The window carries handle `h`.
pub open spec fn win_handle_is(h: WindowHandle) -> spec_fn(Window) -> bool {
    |w: Window| w.handle == h
}

/// Index of the first window with the given handle.
pub open spec fn find_handle_idx(ws: Seq<Window>, h: WindowHandle) -> Option<int> {
    find_idx(ws, win_handle_is(h))
}

pub open spec fn has_handle(ws: Seq<Window>, h: WindowHandle) -> bool {
    find_handle_idx(ws, h) is Some
}

/// The handles of the windows, in list order.
pub open spec fn handles_of(ws: Seq<Window>) -> Seq<WindowHandle> {
    ws.map_values(|w: Window| w.handle)
}

/// No two windows share a handle.
pub open spec fn unique_handles(ws: Seq<Window>) -> bool {
    forall|i: int, j: int|
        0 <= i < j < ws.len() ==> (#[trigger] ws[i]).handle != (#[trigger] ws[j]).handle
}

/// No two entries share a key.
pub open spec fn unique_keys(s: Seq<(usize, WindowHandle)>) -> bool {
    forall|i: int, j: int| 0 <= i < j < s.len() ==> (#[trigger] s[i]).0 != (#[trigger] s[j]).0
}

/// Position of the first window with handle `h`, or `None`.
pub fn position_of_handle(windows: &Vec<Window>, h: WindowHandle) -> (r: Option<usize>)
    ensures
        match r {
            Some(i) => {
                &&& find_handle_idx(windows@, h) == Some(i as int)
                &&& i < windows@.len()
                &&& windows@[i as int].handle == h
                &&& forall|j: int| 0 <= j < i ==> (#[trigger] windows@[j]).handle != h
            },
            None => {
                &&& find_handle_idx(windows@, h) is None
                &&& forall|j: int|
                    0 <= j < windows@.len() ==> (#[trigger] windows@[j]).handle != h
            },
        },
{
    proof {
        lemma_find_idx_spec(windows@, win_handle_is(h));
    }
    let mut i: usize = 0;
    while i < windows.len()
        invariant
            0 <= i <= windows.len(),
            forall|j: int| 0 <= j < i ==> (#[trigger] windows@[j]).handle != h,
        decreases windows.len() - i,
    {
        if windows[i].handle == h {
            proof {
                assert(win_handle_is(h)(windows@[i as int]));
                match find_idx(windows@, win_handle_is(h)) {
                    Some(k) => {
                        if k < i {
                            assert(win_handle_is(h)(windows@[k]));
                        } else if k > i {
                            assert(!win_handle_is(h)(windows@[i as int]));
                        }
                    },
                    None => {
                        assert(!win_handle_is(h)(windows@[i as int]));
                    },
                }
            }
            return Some(i);
        }
        i = i + 1;
    }
    proof {
        match find_idx(windows@, win_handle_is(h)) {
            Some(k) => {
                assert(win_handle_is(h)(windows@[k]));
            },
            None => {},
        }
    }
    None
}

/// The handle equals `h`.
pub open spec fn handle_is(h: WindowHandle) -> spec_fn(WindowHandle) -> bool {
    |x: WindowHandle| x == h
}

/// Position of the first occurrence of `h` in a handle list, or `None`.
pub fn position_in_handles(hs: &Vec<WindowHandle>, h: WindowHandle) -> (r: Option<usize>)
    ensures
        match r {
            Some(i) => find_idx(hs@, handle_is(h)) == Some(i as int) && i < hs@.len(),
            None => find_idx(hs@, handle_is(h)) is None,
        },
{
    proof {
        lemma_find_idx_spec(hs@, handle_is(h));
    }
    let mut i: usize = 0;
    while i < hs.len()
        invariant
            0 <= i <= hs.len(),
            forall|j: int| 0 <= j < i ==> #[trigger] hs@[j] != h,
        decreases hs.len() - i,
    {
        if hs[i] == h {
            proof {
                assert(handle_is(h)(hs@[i as int]));
                match find_idx(hs@, handle_is(h)) {
                    Some(k) => {
                        if k < i {
                            assert(handle_is(h)(hs@[k]));
                        } else if k > i {
                            assert(!handle_is(h)(hs@[i as int]));
                        }
                    },
                    None => {
                        assert(!handle_is(h)(hs@[i as int]));
                    },
                }
            }
            return Some(i);
        }
        i = i + 1;
    }
    proof {
        match find_idx(hs@, handle_is(h)) {
            Some(k) => {
                assert(handle_is(h)(hs@[k]));
            },
            None => {},
        }
    }
    None
}

/// `filter` over a sequence extended on the right.
pub proof fn lemma_filter_push<A>(s: Seq<A>, x: A, p: spec_fn(A) -> bool)
    ensures
        (s.push(x)).filter(p) == if p(x) {
            s.filter(p).push(x)
        } else {
            s.filter(p)
        },
{
    reveal(Seq::filter);
    assert(s.push(x).drop_last() =~= s);
    assert(s.push(x).last() == x);
}

/// Some window in `s` carries handle `h`.
pub open spec fn handle_in(s: Seq<Window>, h: WindowHandle) -> bool {
    exists|i: int| 0 <= i < s.len() && s[i].handle == h
}

/// Splitting a window list into the complement filter followed by the
/// filter keeps the handles unique and keeps exactly the same handles.
pub proof fn lemma_filter_split_handles(
    s: Seq<Window>,
    p: spec_fn(Window) -> bool,
    q: spec_fn(Window) -> bool,
)
    requires
        forall|x: Window| #[trigger] q(x) <==> !p(x),
        unique_handles(s),
    ensures
        unique_handles(s.filter(q) + s.filter(p)),
        forall|h: WindowHandle| #[trigger] handle_in(s.filter(q) + s.filter(p), h) <==> handle_in(
            s,
            h,
        ),
    decreases s.len(),
{
    reveal(Seq::filter);
    if s.len() == 0 {
        assert(s.filter(q) + s.filter(p) =~= s);
    } else {
        let s0 = s.drop_last();
        let x = s.last();
        assert(unique_handles(s0));
        lemma_filter_split_handles(s0, p, q);
        lemma_filter_push(s0, x, p);
        lemma_filter_push(s0, x, q);
        assert(s0.push(x) =~= s);
        let c0 = s0.filter(q) + s0.filter(p);
        let c = s.filter(q) + s.filter(p);
        let qlen = s0.filter(q).len() as int;
        // x's handle is fresh for s0, hence for c0.
        assert forall|i: int| 0 <= i < s0.len() implies (#[trigger] s0[i]).handle != x.handle by {
            assert(s[i] == s0[i]);
            assert(s[s.len() - 1] == x);
        }
        assert forall|i: int| 0 <= i < c0.len() implies (#[trigger] c0[i]).handle != x.handle by {
            if c0[i].handle == x.handle {
                assert(handle_in(c0, x.handle));
                assert(handle_in(s0, x.handle));
            }
        }
        if p(x) {
            assert(c =~= c0.push(x));
            assert(unique_handles(c));
            assert forall|h: WindowHandle| true implies (#[trigger] handle_in(c, h))
                <==> handle_in(s, h) by {
                assert(handle_in(c0, h) <==> handle_in(s0, h));
                if handle_in(c, h) {
                    let i = choose|i: int| 0 <= i < c.len() && c[i].handle == h;
                    if i < c0.len() {
                        assert(handle_in(c0, h));
                        let j = choose|j: int| 0 <= j < s0.len() && s0[j].handle == h;
                        assert(s[j].handle == h);
                    } else {
                        assert(s[s.len() - 1].handle == h);
                    }
                }
                if handle_in(s, h) {
                    let i = choose|i: int| 0 <= i < s.len() && s[i].handle == h;
                    if i < s0.len() {
                        assert(handle_in(s0, h));
                        let j = choose|j: int| 0 <= j < c0.len() && c0[j].handle == h;
                        assert(c[j].handle == h);
                    } else {
                        assert(c[c.len() - 1].handle == h);
                    }
                }
            }
        } else {
            assert(q(x));
            assert(s.filter(q) =~= s0.filter(q).push(x));
            assert(s.filter(p) =~= s0.filter(p));
            assert(c.len() == c0.len() + 1);
            assert forall|i: int| 0 <= i < c.len() implies #[trigger] c[i] == (if i < qlen {
                c0[i]
            } else if i == qlen {
                x
            } else {
                c0[i - 1]
            }) by {}
            assert forall|i: int, j: int|
                0 <= i < j < c.len() implies (#[trigger] c[i]).handle != (#[trigger] c[j]).handle
                by {
                if i != qlen && j != qlen {
                    let i0: int = if i < qlen {
                        i
                    } else {
                        i - 1
                    };
                    let j0: int = if j < qlen {
                        j
                    } else {
                        j - 1
                    };
                    assert(c[i] == c0[i0] && c[j] == c0[j0]);
                }
            }
            assert forall|h: WindowHandle| true implies (#[trigger] handle_in(c, h))
                <==> handle_in(s, h) by {
                assert(handle_in(c0, h) <==> handle_in(s0, h));
                if handle_in(c, h) {
                    let i = choose|i: int| 0 <= i < c.len() && c[i].handle == h;
                    if i == qlen {
                        assert(s[s.len() - 1].handle == h);
                    } else {
                        let i0: int = if i < qlen {
                            i
                        } else {
                            i - 1
                        };
                        assert(c0[i0].handle == h);
                        assert(handle_in(c0, h));
                        let j = choose|j: int| 0 <= j < s0.len() && s0[j].handle == h;
                        assert(s[j].handle == h);
                    }
                }
                if handle_in(s, h) {
                    let i = choose|i: int| 0 <= i < s.len() && s[i].handle == h;
                    if i < s0.len() {
                        assert(handle_in(s0, h));
                        let j = choose|j: int| 0 <= j < c0.len() && c0[j].handle == h;
                        if j < qlen {
                            assert(c[j].handle == h);
                        } else {
                            assert(c[j + 1].handle == h);
                        }
                    } else {
                        assert(c[qlen].handle == h);
                    }
                }
            }
        }
    }
}

/// Inserting a window with a fresh handle keeps the handles unique.
pub proof fn lemma_insert_unique(s: Seq<Window>, w: Window, k: int)
    requires
        unique_handles(s),
        !handle_in(s, w.handle),
        0 <= k <= s.len(),
    ensures
        unique_handles(s.insert(k, w)),
{
    let t = s.insert(k, w);
    assert forall|i: int| 0 <= i < s.len() implies (#[trigger] s[i]).handle != w.handle by {
        if s[i].handle == w.handle {
            assert(handle_in(s, w.handle));
        }
    }
    assert forall|i: int, j: int|
        0 <= i < j < t.len() implies (#[trigger] t[i]).handle != (#[trigger] t[j]).handle by {
        if i != k && j != k {
            let i0: int = if i < k {
                i
            } else {
                i - 1
            };
            let j0: int = if j < k {
                j
            } else {
                j - 1
            };
            assert(t[i] == s[i0] && t[j] == s[j0]);
        } else if i == k {
            assert(t[j] == s[j - 1]);
        } else {
            assert(t[i] == s[i]);
        }
    }
}

/// Filtering keeps keys that were pairwise distinct pairwise distinct.
pub proof fn lemma_filter_distinct_keys<A, K>(
    s: Seq<A>,
    p: spec_fn(A) -> bool,
    key: spec_fn(A) -> K,
)
    requires
        forall|i: int, j: int| 0 <= i < j < s.len() ==> key(s[i]) != key(s[j]),
    ensures
        forall|i: int, j: int|
            0 <= i < j < s.filter(p).len() ==> key(s.filter(p)[i]) != key(s.filter(p)[j]),
    decreases s.len(),
{
    reveal(Seq::filter);
    if s.len() > 0 {
        let s0 = s.drop_last();
        let x = s.last();
        assert(forall|i: int, j: int| 0 <= i < j < s0.len() ==> key(s0[i]) != key(s0[j]));
        lemma_filter_distinct_keys(s0, p, key);
        let f0 = s0.filter(p);
        assert forall|i: int| 0 <= i < f0.len() implies key(f0[i]) != key(x) by {
            assert(f0.contains(f0[i]));
            s0.lemma_filter_contains_rev(p, f0[i]);
            let k = choose|k: int| 0 <= k < s0.len() && s0[k] == f0[i];
            assert(s[k] == s0[k]);
            assert(s[s.len() - 1] == x);
        }
        if p(x) {
            assert(s.filter(p) =~= f0.push(x));
        } else {
            assert(s.filter(p) =~= f0);
        }
    }
}

/// A filter that keeps every element is the identity.
pub proof fn lemma_filter_all<A>(s: Seq<A>, p: spec_fn(A) -> bool)
    requires
        forall|i: int| 0 <= i < s.len() ==> p(#[trigger] s[i]),
    ensures
        s.filter(p) == s,
    decreases s.len(),
{
    reveal(Seq::filter);
    if s.len() > 0 {
        lemma_filter_all(s.drop_last(), p);
        assert(s.drop_last().push(s.last()) =~= s);
    }
}

/// A filter that keeps no element yields the empty sequence.
pub proof fn lemma_filter_none<A>(s: Seq<A>, p: spec_fn(A) -> bool)
    requires
        forall|i: int| 0 <= i < s.len() ==> !p(#[trigger] s[i]),
    ensures
        s.filter(p) == Seq::<A>::empty(),
    decreases s.len(),
{
    reveal(Seq::filter);
    if s.len() > 0 {
        lemma_filter_none(s.drop_last(), p);
    }
}

} // verus!
