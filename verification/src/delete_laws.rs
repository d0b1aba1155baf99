//! What deleting a frame is for: it goes with its windows, after what is inside it, and
//! never the last one that can be used.
use vstd::prelude::*;

use crate::frame_delete;
use crate::frame_delete::{
    DeleteFrameMode, DeletePlan, DeletedFrame, DeletionAction, DeletionEvent, FrameDeletion,
};
use crate::lisp;
use crate::lisp::{Condition, Datum, Signal};
use crate::window_select;
use crate::window_state;
use crate::window_state::{Context, Frame, Window};

verus! {

/// The frames besides one.
pub open spec fn other_frames_of(v: Seq<Frame>, frame: u64) -> Seq<Frame> {
    v.filter(|f: Frame| f.id != frame)
}

/// The windows that are not on a frame.
pub open spec fn windows_elsewhere(v: Seq<Window>, frame: u64) -> Seq<Window> {
    v.filter(|w: Window| w.frame != frame)
}

/// The numbers of the windows that are on a frame.
pub open spec fn windows_there(v: Seq<Window>, frame: u64) -> Seq<u64> {
    v.filter(|w: Window| w.frame == frame).map_values(|w: Window| w.id)
}

/// The frames that are right inside another one.
pub open spec fn frames_inside(v: Seq<Frame>, parent: u64) -> Seq<u64> {
    v.filter(|f: Frame| f.parent == Some(parent)).map_values(|f: Frame| f.id)
}

proof fn lemma_frames_left(v: Seq<Frame>, frame: u64)
    ensures
        frame_delete::frames_left(v, frame) == other_frames_of(v, frame),
    decreases v.len(),
{
    reveal(Seq::filter);
    if v.len() > 0 {
        lemma_frames_left(v.drop_last(), frame);
    }
}

proof fn lemma_windows_left(v: Seq<Window>, frame: u64)
    ensures
        frame_delete::windows_left(v, frame) == windows_elsewhere(v, frame),
        frame_delete::windows_of(v, frame) == windows_there(v, frame),
    decreases v.len(),
{
    reveal(Seq::filter);
    let p = |w: Window| w.frame == frame;
    let f = |w: Window| w.id;
    if v.len() > 0 {
        lemma_windows_left(v.drop_last(), frame);
        let rest = v.drop_last().filter(p);
        if p(v.last()) {
            assert(rest.push(v.last()).map_values(f) =~= rest.map_values(f).push(v.last().id));
        }
    } else {
        assert(windows_there(v, frame) =~= Seq::<u64>::empty());
    }
}

proof fn lemma_frames_inside(v: Seq<Frame>, parent: u64)
    ensures
        frame_delete::children_of(v, parent) == frames_inside(v, parent),
    decreases v.len(),
{
    reveal(Seq::filter);
    let p = |f: Frame| f.parent == Some(parent);
    let g = |f: Frame| f.id;
    if v.len() > 0 {
        lemma_frames_inside(v.drop_last(), parent);
        let rest = v.drop_last().filter(p);
        if p(v.last()) {
            assert(rest.push(v.last()).map_values(g) =~= rest.map_values(g).push(v.last().id));
        }
    } else {
        assert(frames_inside(v, parent) =~= Seq::<u64>::empty());
    }
}

/// A frame that is removed goes with its windows, which are dead from then on; the other
/// frames and windows stay in their order, and the buffers with them. Where it was selected,
/// the one that was named for it is.
pub open spec fn is_removed(a: Context, b: Context, frame: u64, successor: Option<u64>) -> bool {
    &&& b.frames@ == other_frames_of(a.frames@, frame)
    &&& b.windows@ == windows_elsewhere(a.windows@, frame)
    &&& b.dead_windows@ == a.dead_windows@ + windows_there(a.windows@, frame)
    &&& a.selected_frame == Some(frame) ==> b.selected_frame == successor
    &&& a.selected_frame != Some(frame) ==> b.selected_frame == a.selected_frame
    &&& b.buffers == a.buffers && b.current_buffer == a.current_buffer
    &&& b.next_frame == a.next_frame && b.next_window == a.next_window && b.use_clock
        == a.use_clock
}

/// See `is_removed`.
pub proof fn law_removed_frame(c: &mut Context, frame: u64, successor: Option<u64>)
    requires
        call_ensures(frame_delete::remove_frame, (c, frame, successor), ()),
    ensures
        is_removed(*old(c), *final(c), frame, successor),
{
    lemma_frames_left(old(c).frames@, frame);
    lemma_windows_left(old(c).windows@, frame);
}

/// A frame can stand in for one that goes: another one, not inside any, that can be seen or
/// that is counted though it cannot.
pub proof fn law_other_frames(c: &Context, deleting: u64, include_invisible: bool, r: bool)
    requires
        call_ensures(frame_delete::other_frames, (c, deleting, include_invisible), r),
    ensures
        r <==> exists|i: int|
            0 <= i < c.frames@.len() && (#[trigger] c.frames@[i]).id != deleting
                && c.frames@[i].parent is None && (include_invisible || c.frames@[i].visible),
{
    if r {
        let i = choose|i: int|
            0 <= i < c.frames@.len() && frame_delete::stands_in(
                #[trigger] c.frames@[i],
                deleting,
                include_invisible,
            );
        assert(c.frames@[i].id != deleting);
    }
    if exists|i: int|
        0 <= i < c.frames@.len() && (#[trigger] c.frames@[i]).id != deleting
            && c.frames@[i].parent is None && (include_invisible || c.frames@[i].visible) {
        let i = choose|i: int|
            0 <= i < c.frames@.len() && (#[trigger] c.frames@[i]).id != deleting
                && c.frames@[i].parent is None && (include_invisible || c.frames@[i].visible);
        assert(frame_delete::stands_in(c.frames@[i], deleting, include_invisible));
    }
}

/// The deletion of a frame begins with the frames inside it. A frame that is gone is no
/// matter; the last one that can be used is refused, but not to the editor itself.
pub proof fn law_deletion_begins(
    c: &Context,
    frame: u64,
    mode: DeleteFrameMode,
    r: Result<Option<Vec<u64>>, Signal>,
    force: bool,
    others: bool,
)
    requires
        call_ensures(frame_delete::begin_delete_frame, (c, frame, mode), r),
        mode is Public ==> mode == (DeleteFrameMode::Public { force_non_nil: force }),
        call_ensures(frame_delete::other_frames, (c, frame, force), others),
    ensures
        c.frame(frame) is None ==> r is Ok && r->Ok_0 is None,
        c.frame(frame) is Some ==> (r is Err <==> mode is Public && !others),
        c.frame(frame) is Some && r is Ok ==> r->Ok_0 is Some && (r->Ok_0->0)@ == frames_inside(
            c.frames@,
            frame,
        ),
        r is Err ==> r->Err_0.condition == Condition::Error && lisp::data(r->Err_0.data@) == seq![
            Datum::Text(
                if force {
                    "Attempt to delete the only frame"@
                } else {
                    "Attempt to delete the sole visible or iconified frame"@
                },
            ),
        ],
{
    lemma_frames_inside(c.frames@, frame);
}

/// What is known of a frame before it goes.
pub proof fn law_deletion_plan(
    c: &Context,
    frame: u64,
    mode: DeleteFrameMode,
    r: Option<DeletePlan>,
)
    requires
        call_ensures(frame_delete::plan_delete_frame, (c, frame, mode), r),
    ensures
        r is Some <==> c.frame(frame) is Some,
        r is Some ==> {
            let (f, p) = (c.frame(frame)->0, r->0);
            &&& p.frame == frame && p.terminal == f.terminal
            &&& p.was_gui_child == (f.graphical && f.parent is Some)
            &&& p.was_top_level_gui == (f.graphical && f.parent is None)
            &&& p.run_hooks == (mode is Public) && p.may_delete_terminal == (mode is Public)
        },
{
}

/// What the host of a frame is told when it goes, and whether its terminal goes with it:
/// only with the last frame of the terminal, while others remain elsewhere.
pub open spec fn is_consequence(
    d: DeletedFrame,
    plan: DeletePlan,
    left: Seq<Frame>,
    has_host: bool,
) -> bool {
    &&& d.notice is RemoveChild <==> has_host && plan.was_gui_child
    &&& d.notice is Destroy <==> has_host && !plan.was_gui_child && plan.was_top_level_gui
    &&& d.run_hooks == plan.run_hooks
    &&& d.delete_terminal <==> plan.may_delete_terminal && left.len() > 0 && forall|i: int|
        0 <= i < left.len() ==> (#[trigger] left[i]).terminal != plan.terminal
}

/// A frame of a terminal without a window system that is not inside another.
pub open spec fn is_text_frame(f: Frame, terminal: u64) -> bool {
    f.terminal == terminal && !f.graphical && f.parent is None
}

/// Something is left to look at with windows, or nothing of a window system went.
pub open spec fn keeps_selection(left: Seq<Frame>, plan: DeletePlan) -> bool {
    ||| !plan.was_top_level_gui
    ||| exists|i: int| 0 <= i < left.len() && (#[trigger] left[i]).graphical
    ||| forall|i: int| 0 <= i < left.len() ==> !is_text_frame(#[trigger] left[i], plan.terminal)
}

proof fn lemma_terminal_frame(v: Seq<Frame>, terminal: u64)
    ensures
        match frame_delete::terminal_frame(v, terminal) {
            Some(id) => exists|i: int|
                0 <= i < v.len() && is_text_frame(#[trigger] v[i], terminal) && v[i].id == id,
            None => forall|i: int| 0 <= i < v.len() ==> !is_text_frame(#[trigger] v[i], terminal),
        },
    decreases v.len(),
{
    if v.len() > 0 && !is_text_frame(v[0], terminal) {
        let t = v.subrange(1, v.len() as int);
        lemma_terminal_frame(t, terminal);
        match frame_delete::terminal_frame(t, terminal) {
            Some(id) => {
                let i = choose|i: int|
                    0 <= i < t.len() && is_text_frame(#[trigger] t[i], terminal) && t[i].id == id;
                assert(v[i + 1] == t[i]);
            },
            None => {
                assert forall|i: int| 0 <= i < v.len() implies !is_text_frame(
                    #[trigger] v[i],
                    terminal,
                ) by {
                    if i > 0 {
                        assert(t[i - 1] == v[i]);
                    }
                }
            },
        }
    } else if v.len() > 0 {
        assert(is_text_frame(v[0], terminal));
    }
}

/// The frame that was planned for goes, its windows with it, and what follows from it is
/// said. After the last frame with windows, a text frame of the same terminal is selected.
pub proof fn law_frame_goes(
    c: &mut Context,
    plan: DeletePlan,
    successor: Option<u64>,
    has_host: bool,
    r: Option<DeletedFrame>,
)
    requires
        call_ensures(
            frame_delete::delete_frame_owned,
            (c, plan, successor, has_host),
            r,
        ),
    ensures
        ({
            let (a, b) = (*old(c), *final(c));
            let left = other_frames_of(a.frames@, plan.frame);
            &&& r is Some <==> a.frame(plan.frame) is Some
            &&& r is None ==> b == a
            &&& r is Some ==> {
                &&& b.frames@ == left
                &&& b.windows@.len() == windows_elsewhere(a.windows@, plan.frame).len()
                &&& b.dead_windows@ == a.dead_windows@ + windows_there(a.windows@, plan.frame)
                &&& is_consequence(r->0, plan, left, has_host)
                &&& keeps_selection(left, plan) ==> is_removed(a, b, plan.frame, successor)
                &&& !keeps_selection(left, plan) ==> exists|i: int|
                    0 <= i < left.len() && is_text_frame(#[trigger] left[i], plan.terminal)
                        && b.selected_frame == Some(left[i].id)
            }
        }),
{
    let (a, b) = (*old(c), *final(c));
    if a.frame(plan.frame) is Some {
        let m = choose|m: Context| #[trigger]
            frame_delete::is_without(a, m, plan.frame, successor) && {
                &&& frame_delete::is_fallen_back(m, b, plan)
                &&& r == Some(frame_delete::deleted_frame(m, plan, has_host))
            };
        lemma_frames_left(a.frames@, plan.frame);
        lemma_windows_left(a.windows@, plan.frame);
        lemma_terminal_frame(m.frames@, plan.terminal);
        lemma_fallen_back(m, b, plan);
    }
}

proof fn lemma_fallen_back(m: Context, b: Context, plan: DeletePlan)
    requires
        frame_delete::is_fallen_back(m, b, plan),
    ensures
        b.frames == m.frames,
        b.windows@.len() == m.windows@.len(),
        b.dead_windows == m.dead_windows,
        keeps_selection(m.frames@, plan) ==> b == m,
        !keeps_selection(m.frames@, plan) ==> b.selected_frame == frame_delete::terminal_frame(
            m.frames@,
            plan.terminal,
        ),
{
    lemma_terminal_frame(m.frames@, plan.terminal);
    if frame_delete::some_graphical(m.frames@) {
        let i = choose|i: int| 0 <= i < m.frames@.len() && (#[trigger] m.frames@[i]).graphical;
        assert(m.frames@[i].graphical);
    }
    if !keeps_selection(m.frames@, plan) {
        assert(!frame_delete::some_graphical(m.frames@));
        let id = frame_delete::terminal_frame(m.frames@, plan.terminal)->0;
        let p = choose|p: Context| #[trigger]
            frame_delete::fallen_to(m, p, id) && window_select::is_synced(p, b, id);
        if m.frame(id) is Some {
            window_state::lemma_index_in(
                window_state::window_ids(m.windows@),
                m.frame(id)->0.selected_window,
            );
        }
    }
}

/// The steps of a deletion come in order. It begins by listing what is inside the frame, and
/// is refused there; each frame inside is deleted first; then the hooks run; then the frame
/// goes; then the host is told, then the terminal goes, then the hooks for afterwards run,
/// each where there is cause; and then the next one goes on.
pub proof fn law_deletion_in_order(
    d: &mut FrameDeletion,
    c: &mut Context,
    successor: Option<u64>,
    has_host: bool,
    r: DeletionAction,
    others: bool,
    force: bool,
)
    requires
        call_ensures(
            FrameDeletion::advance,
            (d, c, DeletionEvent::Done { successor: successor, has_host: has_host }),
            r,
        ),
        old(d).jobs@.len() > 0,
        old(d).jobs@.last().mode is Public ==> old(d).jobs@.last().mode == (
        DeleteFrameMode::Public { force_non_nil: force }),
        call_ensures(
            frame_delete::other_frames,
            (&*old(c), old(d).jobs@.last().frame, force),
            others,
        ),
    ensures
        ({
            let (a, b) = (*old(c), *final(c));
            let (job, n) = (old(d).jobs@.last(), old(d).jobs@.len());
            let public = job.mode is Public;
            let next = final(d).jobs@.last();
            &&& final(d).target == old(d).target
            &&& !(job.stage is Hooks) ==> b == a
            &&& job.stage is Begin && a.frame(job.frame) is Some && public && !others ==> r is Fail
                && final(d).jobs@.len() == 0
            &&& job.stage is Begin && a.frame(job.frame) is Some && (others || !public) ==> {
                &&& r is Proceed && final(d).jobs@.len() == n
                &&& next.stage is Inside && next.frame == job.frame && next.mode == job.mode
                &&& next.children@ == frames_inside(a.frames@, job.frame) && next.next == 0
            }
            &&& job.stage is Inside && job.next < job.children@.len() && a.frame(
                job.children@[job.next as int],
            ) is Some ==> {
                &&& r is Proceed && final(d).jobs@.len() == n + 1
                &&& next.frame == job.children@[job.next as int] && next.stage is Begin
                &&& next.mode == (DeleteFrameMode::Public { force_non_nil: false })
            }
            &&& job.stage is Inside && job.next >= job.children@.len() && a.frame(
                job.frame,
            ) is Some ==> {
                &&& r == (DeletionAction::RunHooks { frame: job.frame, now: public })
                &&& next.stage is Hooks
                &&& (next.stage->Hooks_0).frame == job.frame
                &&& (next.stage->Hooks_0).terminal == a.frame(job.frame)->0.terminal
                &&& (next.stage->Hooks_0).run_hooks == public
                &&& (next.stage->Hooks_0).may_delete_terminal == public
            }
            &&& job.stage is Hooks && a.frame((job.stage->Hooks_0).frame) is Some ==> {
                let plan = job.stage->Hooks_0;
                let left = other_frames_of(a.frames@, plan.frame);
                &&& b.frames@ == left
                &&& b.dead_windows@ == a.dead_windows@ + windows_there(a.windows@, plan.frame)
                &&& keeps_selection(left, plan) ==> is_removed(a, b, plan.frame, successor)
                &&& r is TellHost <==> has_host && (plan.was_gui_child || plan.was_top_level_gui)
                &&& r is TellHost ==> r->TellHost_frame == plan.frame && (r->TellHost_notice
                    is RemoveChild <==> plan.was_gui_child)
                &&& r is DeleteTerminal ==> r->DeleteTerminal_0 == plan.terminal
                &&& r is TellHost || r is DeleteTerminal || r == (DeletionAction::RunAfterHooks {
                    frame: plan.frame,
                    now: plan.run_hooks,
                })
            }
            &&& job.stage is Host ==> {
                let (plan, gone) = (job.stage->Host_0, job.stage->Host_1);
                &&& gone.delete_terminal ==> r == DeletionAction::DeleteTerminal(plan.terminal)
                &&& !gone.delete_terminal ==> r == (DeletionAction::RunAfterHooks {
                    frame: plan.frame,
                    now: gone.run_hooks,
                })
            }
            &&& job.stage is Terminal ==> r == (DeletionAction::RunAfterHooks {
                frame: (job.stage->Terminal_0).frame,
                now: (job.stage->Terminal_1).run_hooks,
            })
            &&& job.stage is After ==> final(d).jobs@ == old(d).jobs@.drop_last() && (r is Finish
                <==> n == 1) && (r is Proceed <==> n > 1)
        }),
{
    let (a, b) = (*old(c), *final(c));
    let job = old(d).jobs@.last();
    law_other_frames(&a, job.frame, force, others);
    lemma_frames_inside(a.frames@, job.frame);
    if job.stage is Hooks && a.frame((job.stage->Hooks_0).frame) is Some {
        let plan = job.stage->Hooks_0;
        lemma_frames_left(a.frames@, plan.frame);
        lemma_windows_left(a.windows@, plan.frame);
        let k = choose|k: Context| #[trigger]
            frame_delete::is_without(a, k, plan.frame, successor) && frame_delete::is_fallen_back(
                k,
                b,
                plan,
            ) && frame_delete::is_cleared(
                *old(d),
                *final(d),
                plan,
                frame_delete::deleted_frame(k, plan, has_host),
                false,
                false,
                r,
            );
        lemma_fallen_back(k, b, plan);
    }
}

/// A signal from outside ends a deletion where it is.
pub proof fn law_signal_ends_deletion(
    d: &mut FrameDeletion,
    c: &mut Context,
    e: Signal,
    r: DeletionAction,
)
    requires
        call_ensures(FrameDeletion::advance, (d, c, DeletionEvent::Signalled(e)), r),
    ensures
        r == DeletionAction::Fail(e),
        *final(c) == *old(c),
        final(d).jobs@.len() == 0,
{
}

} // verus!
