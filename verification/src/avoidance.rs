//! Dock avoidance: every workspace's avoid list is recomputed to be exactly
//! the dock struts whose center point lies inside that workspace.

use vstd::prelude::*;

use crate::geometry::Xyhw;
use crate::helpers;
use crate::state::State;
use crate::window::{Window, WindowType};
use crate::workspace::Workspace;

verus! {

/// The window is a Dock carrying a strut.
pub open spec fn is_dock_strut(w: Window) -> bool {
    w.kind == WindowType::Dock && w.strut is Some
}

/// The struts of all Dock windows, in list order.
pub open spec fn dock_struts_s(ws: Seq<Window>) -> Seq<Xyhw> {
    ws.filter(|w: Window| is_dock_strut(w)).map_values(|w: Window| w.strut.unwrap())
}

/// The strut's center point lies inside `area`.
pub open spec fn center_in_s(area: Xyhw) -> spec_fn(Xyhw) -> bool {
    |s: Xyhw| area.contains_point_s(s.center_x_s(), s.center_y_s())
}

/// The avoid list a workspace with rectangle `w.xyhw` gets: exactly the
/// dock struts centered inside it.
pub open spec fn ws_avoid_s(windows: Seq<Window>, w: Workspace) -> Seq<Xyhw> {
    dock_struts_s(windows).filter(center_in_s(w.xyhw))
}

/// `w1` is `w0` after avoid-list recomputation against `windows`.
pub open spec fn avoid_updated(w0: Workspace, w1: Workspace, windows: Seq<Window>) -> bool {
    let av = ws_avoid_s(windows, w0);
    &&& w1.tag == w0.tag
    &&& w1.xyhw == w0.xyhw
    &&& w1.layout == w0.layout
    &&& w1.margin_multiplier == w0.margin_multiplier
    &&& w1.avoid@ == av
    &&& w1.xyhw_avoided == Workspace::avoided_area_s(w0.xyhw, av)
}

impl State {
    /// Recompute every workspace's avoid list and cached usable area, so
    /// the workspaces do not draw on the docks.
    pub fn update_workspace_avoid_list(&mut self)
        requires
            old(self).wf(),
        ensures
            final(self).wf(),
            *final(self) == (State { workspaces: final(self).workspaces, ..*old(self) }),
            final(self).workspaces@.len() == old(self).workspaces@.len(),
            forall|i: int|
                0 <= i < old(self).workspaces@.len() ==> avoid_updated(
                    old(self).workspaces@[i],
                    #[trigger] final(self).workspaces@[i],
                    old(self).windows@,
                ),
    {
        let ghost winseq = self.windows@;
        let mut avoid: Vec<Xyhw> = Vec::new();
        let mut i: usize = 0;
        proof {
            assert(winseq.take(0).filter(|w: Window| is_dock_strut(w)) =~= Seq::<Window>::empty());
            assert(avoid@ =~= dock_struts_s(winseq.take(0)));
        }
        while i < self.windows.len()
            invariant
                0 <= i <= self.windows@.len(),
                self.windows@ == winseq,
                avoid@ == dock_struts_s(winseq.take(i as int)),
                forall|k: int| 0 <= k < winseq.len() ==> (#[trigger] winseq[k]).wf(),
                forall|k: int| 0 <= k < avoid@.len() ==> (#[trigger] avoid@[k]).wf(),
            decreases self.windows@.len() - i,
        {
            let w = &self.windows[i];
            proof {
                assert(winseq.take(i + 1) =~= winseq.take(i as int).push(winseq[i as int]));
                helpers::lemma_filter_push(
                    winseq.take(i as int),
                    winseq[i as int],
                    |w: Window| is_dock_strut(w),
                );
                if is_dock_strut(winseq[i as int]) {
                    assert(dock_struts_s(winseq.take(i + 1)) =~= dock_struts_s(
                        winseq.take(i as int),
                    ).push(winseq[i as int].strut.unwrap()));
                } else {
                    assert(dock_struts_s(winseq.take(i + 1)) =~= dock_struts_s(
                        winseq.take(i as int),
                    ));
                }
            }
            if w.kind == WindowType::Dock {
                if let Some(strut) = w.strut {
                    avoid.push(strut);
                }
            }
            i = i + 1;
        }
        proof {
            assert(winseq.take(winseq.len() as int) =~= winseq);
        }

        let ghost orig = self.workspaces@;
        let mut out: Vec<Workspace> = Vec::new();
        while self.workspaces.len() > 0
            invariant
                avoid@ == dock_struts_s(winseq),
                forall|k: int| 0 <= k < avoid@.len() ==> (#[trigger] avoid@[k]).wf(),
                out@.len() <= orig.len(),
                self.workspaces@ =~= orig.skip(out@.len() as int),
                forall|k: int| 0 <= k < orig.len() ==> (#[trigger] orig[k]).wf(),
                forall|k: int|
                    0 <= k < out@.len() ==> avoid_updated(orig[k], #[trigger] out@[k], winseq),
                forall|k: int| 0 <= k < out@.len() ==> (#[trigger] out@[k]).wf(),
                *self == (State { workspaces: self.workspaces, ..*old(self) }),
                self.windows@ == winseq,
            decreases self.workspaces@.len(),
        {
            let ghost k = out@.len() as int;
            let mut ws = self.workspaces.remove(0);
            let ghost ws0 = ws;
            let mut struts: Vec<Xyhw> = Vec::new();
            let mut j: usize = 0;
            proof {
                assert(avoid@.take(0).filter(center_in_s(ws.xyhw)) =~= Seq::<Xyhw>::empty());
                assert(struts@ =~= avoid@.take(0).filter(center_in_s(ws.xyhw)));
            }
            while j < avoid.len()
                invariant
                    0 <= j <= avoid@.len(),
                    ws == ws0,
                    ws0.wf(),
                    forall|q: int| 0 <= q < avoid@.len() ==> (#[trigger] avoid@[q]).wf(),
                    struts@ == avoid@.take(j as int).filter(center_in_s(ws0.xyhw)),
                    forall|q: int| 0 <= q < struts@.len() ==> (#[trigger] struts@[q]).wf(),
                decreases avoid@.len() - j,
            {
                proof {
                    assert(avoid@.take(j + 1) =~= avoid@.take(j as int).push(avoid@[j as int]));
                    helpers::lemma_filter_push(
                        avoid@.take(j as int),
                        avoid@[j as int],
                        center_in_s(ws0.xyhw),
                    );
                }
                let (cx, cy) = avoid[j].center();
                if ws.contains_point(cx, cy) {
                    struts.push(avoid[j]);
                }
                j = j + 1;
            }
            proof {
                assert(avoid@.take(avoid@.len() as int) =~= avoid@);
            }
            ws.avoid = struts;
            ws.update_avoided_areas();
            out.push(ws);
            proof {
                assert(orig.skip(k)[0] == orig[k]);
                assert(orig.skip(k).skip(1) =~= orig.skip(k + 1));
            }
        }
        proof {
            assert(orig.skip(out@.len() as int).len() == 0);
            assert(out@.len() == orig.len());
        }
        self.workspaces = out;
    }
}

/// A strut in the dock-strut list whose center lies inside a workspace is
/// in that workspace's recomputed avoid list.
pub proof fn lemma_avoid_has_strut(windows: Seq<Window>, w: Workspace, i: int)
    requires
        0 <= i < dock_struts_s(windows).len(),
        center_in_s(w.xyhw)(dock_struts_s(windows)[i]),
    ensures
        ws_avoid_s(windows, w).contains(dock_struts_s(windows)[i]),
{
    dock_struts_s(windows).lemma_filter_contains(center_in_s(w.xyhw), i);
}

/// A workspace that does not contain a strut's center never carries that
/// strut in its recomputed avoid list.
pub proof fn lemma_avoid_excludes(windows: Seq<Window>, w: Workspace, s: Xyhw)
    requires
        !center_in_s(w.xyhw)(s),
    ensures
        !ws_avoid_s(windows, w).contains(s),
{
    let av = ws_avoid_s(windows, w);
    assert forall|i: int| 0 <= i < av.len() implies av[i] != s by {
        dock_struts_s(windows).lemma_filter_pred(center_in_s(w.xyhw), i);
    }
}

/// Without any dock strut the recomputed avoid list of every workspace is
/// empty.
pub proof fn lemma_avoid_empty_without_docks(windows: Seq<Window>, w: Workspace)
    requires
        forall|i: int| 0 <= i < windows.len() ==> !is_dock_strut(#[trigger] windows[i]),
    ensures
        ws_avoid_s(windows, w) == Seq::<Xyhw>::empty(),
{
    helpers::lemma_filter_none(windows, |x: Window| is_dock_strut(x));
    assert(dock_struts_s(windows) =~= Seq::<Xyhw>::empty());
    assert(ws_avoid_s(windows, w) =~= Seq::<Xyhw>::empty());
}

} // verus!
