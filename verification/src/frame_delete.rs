//! How frames are deleted.
use vstd::prelude::*;

use crate::lisp;
use crate::lisp::Signal;
use crate::window_select;
use crate::window_state;
use crate::window_state::{Context, Frame, Window};

verus! {

/// Who deletes a frame: a caller, with or without force, or the editor itself, which
/// leaves hooks for later.
#[derive(Debug, Clone, Copy, PartialEq, Eq, Structural)]
pub enum DeleteFrameMode {
    Public { force_non_nil: bool },
    Noelisp,
}

impl DeleteFrameMode {
    pub open spec fn is_public(self) -> bool {
        self is Public
    }

    pub open spec fn forced(self) -> bool {
        match self {
            DeleteFrameMode::Public { force_non_nil } => force_non_nil,
            DeleteFrameMode::Noelisp => true,
        }
    }

    pub fn runs_hooks_immediately(self) -> (r: bool)
        ensures
            r == self.is_public(),
    {
        match self {
            DeleteFrameMode::Public { .. } => true,
            DeleteFrameMode::Noelisp => false,
        }
    }

    pub fn force_non_nil(self) -> (r: bool)
        ensures
            r == self.forced(),
    {
        match self {
            DeleteFrameMode::Public { force_non_nil } => force_non_nil,
            DeleteFrameMode::Noelisp => true,
        }
    }

    pub fn bypasses_only_frame_check(self) -> (r: bool)
        ensures
            r == !self.is_public(),
    {
        match self {
            DeleteFrameMode::Public { .. } => false,
            DeleteFrameMode::Noelisp => true,
        }
    }

    pub fn allows_terminal_cascade(self) -> (r: bool)
        ensures
            r == self.is_public(),
    {
        match self {
            DeleteFrameMode::Public { .. } => true,
            DeleteFrameMode::Noelisp => false,
        }
    }
}

/// A frame that can stand in for the one that is deleted: another one, in no other, and
/// visible unless invisible ones count.
pub open spec fn stands_in(f: Frame, deleting: u64, include_invisible: bool) -> bool {
    f.id != deleting && f.parent is None && (include_invisible || f.visible)
}

/// There is a frame besides the one that is deleted.
pub open spec fn others_there(c: Context, deleting: u64, include_invisible: bool) -> bool {
    exists|i: int|
        0 <= i < c.frames@.len() && stands_in(
            #[trigger] c.frames@[i],
            deleting,
            include_invisible,
        )
}

pub fn other_frames(c: &Context, deleting: u64, include_invisible: bool) -> (r: bool)
    ensures
        r == others_there(*c, deleting, include_invisible),
{
    let mut i: usize = 0;
    while i < c.frames.len()
        invariant
            i <= c.frames.len(),
            forall|k: int|
                0 <= k < i ==> !stands_in(#[trigger] c.frames@[k], deleting, include_invisible),
        decreases c.frames.len() - i,
    {
        if c.frames[i].id != deleting && c.frames[i].parent.is_none() && (include_invisible
            || c.frames[i].visible) {
            proof {
                assert(stands_in(c.frames@[i as int], deleting, include_invisible));
            }
            return true;
        }
        i += 1;
    }
    false
}

/// The frames that are in a frame.
pub open spec fn children_of(v: Seq<Frame>, parent: u64) -> Seq<u64>
    decreases v.len(),
{
    if v.len() == 0 {
        Seq::empty()
    } else if v.last().parent == Some(parent) {
        children_of(v.drop_last(), parent).push(v.last().id)
    } else {
        children_of(v.drop_last(), parent)
    }
}

pub fn direct_child_frame_ids(c: &Context, parent: u64) -> (r: Vec<u64>)
    ensures
        r@ == children_of(c.frames@, parent),
{
    let v: &Vec<Frame> = &c.frames;
    let mut out: Vec<u64> = Vec::new();
    let mut i: usize = 0;
    proof {
        assert(v@.subrange(0, 0) =~= Seq::empty());
    }
    while i < v.len()
        invariant
            i <= v.len(),
            out@ == children_of(v@.subrange(0, i as int), parent),
        decreases v.len() - i,
    {
        proof {
            assert(v@.subrange(0, i + 1).drop_last() =~= v@.subrange(0, i as int));
        }
        match v[i].parent {
            Some(p) => {
                if p == parent {
                    out.push(v[i].id);
                }
            },
            None => {},
        }
        i += 1;
    }
    proof {
        assert(v@.subrange(0, v.len() as int) =~= v@);
    }
    out
}

/// The start of a deletion: the frames in the frame, each of which is deleted first,
/// without force. Nothing is to be done for a frame that is gone, and the last frame is
/// not deleted.
pub fn begin_delete_frame(c: &Context, frame: u64, mode: DeleteFrameMode) -> (r: Result<
    Option<Vec<u64>>,
    Signal,
>)
    ensures
        if c.frame(frame) is None {
            r matches Ok(None)
        } else if mode.is_public() && !others_there(*c, frame, mode.forced()) {
            r matches Err(e) && lisp::is_error(
                e,
                if mode.forced() {
                    "Attempt to delete the only frame"@
                } else {
                    "Attempt to delete the sole visible or iconified frame"@
                },
            )
        } else {
            r matches Ok(Some(children)) && children@ == children_of(c.frames@, frame)
        },
{
    if c.get_frame(frame).is_none() {
        return Ok(None);
    }
    let force: bool = mode.force_non_nil();
    if !mode.bypasses_only_frame_check() && !other_frames(c, frame, force) {
        return Err(
            if force {
                lisp::error("Attempt to delete the only frame")
            } else {
                lisp::error("Attempt to delete the sole visible or iconified frame")
            },
        );
    }
    Ok(Some(direct_child_frame_ids(c, frame)))
}

/// What has to be known of a frame once it is gone.
#[derive(Debug, Clone, Copy, PartialEq, Eq, Structural)]
pub struct DeletePlan {
    pub frame: u64,
    pub terminal: u64,
    pub was_gui_child: bool,
    pub was_top_level_gui: bool,
    /// The hooks are run; otherwise they are left for later.
    pub run_hooks: bool,
    pub may_delete_terminal: bool,
}

/// The second step of a deletion, once the frames in the frame are gone; the hooks for
/// a frame that is about to be deleted come next. Nothing is to be done for a frame that
/// is gone by then.
pub fn plan_delete_frame(c: &Context, frame: u64, mode: DeleteFrameMode) -> (r: Option<DeletePlan>)
    ensures
        r == match c.frame(frame) {
            None => None::<DeletePlan>,
            Some(f) => Some(
                DeletePlan {
                    frame: frame,
                    terminal: f.terminal,
                    was_gui_child: f.graphical && f.parent is Some,
                    was_top_level_gui: f.graphical && f.parent is None,
                    run_hooks: mode.is_public(),
                    may_delete_terminal: mode.is_public(),
                },
            ),
        },
{
    match c.get_frame(frame) {
        None => None,
        Some(f) => Some(
            DeletePlan {
                frame: frame,
                terminal: f.terminal,
                was_gui_child: f.graphical && f.parent.is_some(),
                was_top_level_gui: f.graphical && f.parent.is_none(),
                run_hooks: mode.runs_hooks_immediately(),
                may_delete_terminal: mode.allows_terminal_cascade(),
            },
        ),
    }
}

/// Frames without one of them.
pub open spec fn frames_left(v: Seq<Frame>, frame: u64) -> Seq<Frame>
    decreases v.len(),
{
    if v.len() == 0 {
        Seq::empty()
    } else if v.last().id == frame {
        frames_left(v.drop_last(), frame)
    } else {
        frames_left(v.drop_last(), frame).push(v.last())
    }
}

/// Windows without those of a frame.
pub open spec fn windows_left(v: Seq<Window>, frame: u64) -> Seq<Window>
    decreases v.len(),
{
    if v.len() == 0 {
        Seq::empty()
    } else if v.last().frame == frame {
        windows_left(v.drop_last(), frame)
    } else {
        windows_left(v.drop_last(), frame).push(v.last())
    }
}

/// The windows of a frame.
pub open spec fn windows_of(v: Seq<Window>, frame: u64) -> Seq<u64>
    decreases v.len(),
{
    if v.len() == 0 {
        Seq::empty()
    } else if v.last().frame == frame {
        windows_of(v.drop_last(), frame).push(v.last().id)
    } else {
        windows_of(v.drop_last(), frame)
    }
}

/// Where what is left of `v` is what is left of `all`, the next item is the same, and so is
/// what is left behind it, whether the item stays or goes.
proof fn lemma_one_further<T>(v: Seq<T>, i: int, all: Seq<T>, done: int)
    requires
        0 <= i < v.len(),
        0 <= done < all.len(),
        v.skip(i) == all.skip(done),
    ensures
        v[i] == all[done],
        all.take(done + 1).drop_last() == all.take(done),
        all.take(done + 1).last() == all[done],
        v.take(i + 1) == v.take(i).push(v[i]),
        v.skip(i + 1) == all.skip(done + 1),
        v.remove(i).take(i) == v.take(i),
        v.remove(i).skip(i) == all.skip(done + 1),
{
    assert(v.skip(i)[0] == v[i]);
    assert(all.skip(done)[0] == all[done]);
    assert(v.skip(i + 1) =~= v.skip(i).skip(1));
    assert(all.skip(done + 1) =~= all.skip(done).skip(1));
    assert(v.remove(i).skip(i) =~= v.skip(i + 1));
    assert(v.remove(i).take(i) =~= v.take(i));
}

fn drop_frame(v: &mut Vec<Frame>, frame: u64)
    ensures
        final(v)@ == frames_left(old(v)@, frame),
{
    let ghost all = v@;
    let ghost mut done: int = 0;
    let mut i: usize = 0;
    while i < v.len()
        invariant
            i <= v.len(),
            0 <= done <= all.len(),
            v.len() - i == all.len() - done,
            v@.take(i as int) == frames_left(all.take(done), frame),
            v@.skip(i as int) == all.skip(done),
        decreases v.len() - i,
    {
        proof {
            lemma_one_further(v@, i as int, all, done);
            done = done + 1;
        }
        if v[i].id == frame {
            let _ = v.remove(i);
        } else {
            i += 1;
        }
    }
    proof {
        assert(all.take(done) =~= all);
        assert(v@.take(i as int) =~= v@);
    }
}

fn drop_windows(v: &mut Vec<Window>, frame: u64)
    ensures
        final(v)@ == windows_left(old(v)@, frame),
{
    let ghost all = v@;
    let ghost mut done: int = 0;
    let mut i: usize = 0;
    while i < v.len()
        invariant
            i <= v.len(),
            0 <= done <= all.len(),
            v.len() - i == all.len() - done,
            v@.take(i as int) == windows_left(all.take(done), frame),
            v@.skip(i as int) == all.skip(done),
        decreases v.len() - i,
    {
        proof {
            lemma_one_further(v@, i as int, all, done);
            done = done + 1;
        }
        if v[i].frame == frame {
            let _ = v.remove(i);
        } else {
            i += 1;
        }
    }
    proof {
        assert(all.take(done) =~= all);
        assert(v@.take(i as int) =~= v@);
    }
}

fn bury_windows(dead: &mut Vec<u64>, v: &Vec<Window>, frame: u64)
    ensures
        final(dead)@ == old(dead)@ + windows_of(v@, frame),
{
    let mut i: usize = 0;
    proof {
        assert(v@.subrange(0, 0) =~= Seq::empty());
        assert(dead@ + Seq::<u64>::empty() =~= dead@);
    }
    while i < v.len()
        invariant
            i <= v.len(),
            dead@ == old(dead)@ + windows_of(v@.subrange(0, i as int), frame),
        decreases v.len() - i,
    {
        let ghost so_far = windows_of(v@.subrange(0, i as int), frame);
        proof {
            assert(v@.subrange(0, i + 1).drop_last() =~= v@.subrange(0, i as int));
            assert((old(dead)@ + so_far).push(v@[i as int].id) =~= old(dead)@ + so_far.push(
                v@[i as int].id,
            ));
        }
        if v[i].frame == frame {
            dead.push(v[i].id);
        }
        i += 1;
    }
    proof {
        assert(v@.subrange(0, v.len() as int) =~= v@);
    }
}

/// The session without a frame and its windows. Where it was the selected one, another
/// is selected.
pub open spec fn is_without(a: Context, b: Context, frame: u64, successor: Option<u64>) -> bool {
    &&& b == (Context {
        frames: b.frames,
        windows: b.windows,
        dead_windows: b.dead_windows,
        selected_frame: if a.selected_frame == Some(frame) {
            successor
        } else {
            a.selected_frame
        },
        ..a
    })
    &&& b.frames@ == frames_left(a.frames@, frame)
    &&& b.windows@ == windows_left(a.windows@, frame)
    &&& b.dead_windows@ == a.dead_windows@ + windows_of(a.windows@, frame)
}

/// Takes a frame and its windows out of a session. Its windows are then windows that
/// were deleted. `successor` is selected where the frame was.
pub fn remove_frame(c: &mut Context, frame: u64, successor: Option<u64>)
    ensures
        is_without(*old(c), *final(c), frame, successor),
{
    bury_windows(&mut c.dead_windows, &c.windows, frame);
    drop_windows(&mut c.windows, frame);
    drop_frame(&mut c.frames, frame);
    let was_selected: bool = match c.selected_frame {
        Some(id) => id == frame,
        None => false,
    };
    if was_selected {
        c.selected_frame = successor;
    }
}

proof fn lemma_frames_left(v: Seq<Frame>, frame: u64)
    ensures
        forall|i: int|
            0 <= i < frames_left(v, frame).len() ==> (#[trigger] frames_left(v, frame)[i]).id
                != frame,
    decreases v.len(),
{
    if v.len() > 0 {
        lemma_frames_left(v.drop_last(), frame);
    }
}

proof fn lemma_windows_left(v: Seq<Window>, frame: u64)
    ensures
        forall|i: int|
            0 <= i < windows_left(v, frame).len() ==> (#[trigger] windows_left(v, frame)[i]).frame
                != frame,
    decreases v.len(),
{
    if v.len() > 0 {
        lemma_windows_left(v.drop_last(), frame);
    }
}

/// A frame that was deleted is gone, and none of its windows is left.
pub proof fn law_deleted_frame_is_gone(a: Context, b: Context, frame: u64, successor: Option<u64>)
    requires
        is_without(a, b, frame, successor),
    ensures
        b.frame(frame) is None,
        forall|w: u64| #[trigger] b.valid_frame(w) != Some(frame),
{
    lemma_frames_left(a.frames@, frame);
    lemma_windows_left(a.windows@, frame);
    window_state::lemma_index_in(window_state::frame_ids(b.frames@), frame);
    if b.frame(frame) is Some {
        let i = window_state::frame_place(b.frames@, frame)->0;
        assert(window_state::frame_ids(b.frames@)[i] == b.frames@[i].id);
    }
    assert forall|w: u64| #[trigger] b.valid_frame(w) != Some(frame) by {
        window_state::lemma_index_in(window_state::window_ids(b.windows@), w);
        if b.window(w) is Some {
            let i = window_state::window_place(b.windows@, w)->0;
            assert(b.windows@[i].frame != frame);
        }
    }
}

/// Whether some frame is graphical.
pub open spec fn some_graphical(v: Seq<Frame>) -> bool {
    exists|i: int| 0 <= i < v.len() && (#[trigger] v[i]).graphical
}

fn any_graphical(v: &Vec<Frame>) -> (r: bool)
    ensures
        r == some_graphical(v@),
{
    let mut i: usize = 0;
    while i < v.len()
        invariant
            i <= v.len(),
            forall|k: int| 0 <= k < i ==> !(#[trigger] v@[k]).graphical,
        decreases v.len() - i,
    {
        if v[i].graphical {
            return true;
        }
        i += 1;
    }
    false
}

/// The first frame of a terminal that is neither graphical nor in another frame.
pub open spec fn terminal_frame(v: Seq<Frame>, terminal: u64) -> Option<u64>
    decreases v.len(),
{
    if v.len() == 0 {
        None
    } else if v[0].terminal == terminal && !v[0].graphical && v[0].parent is None {
        Some(v[0].id)
    } else {
        terminal_frame(v.subrange(1, v.len() as int), terminal)
    }
}

fn find_terminal_frame(v: &Vec<Frame>, terminal: u64) -> (r: Option<u64>)
    ensures
        r == terminal_frame(v@, terminal),
{
    let mut i: usize = 0;
    proof {
        assert(v@.subrange(0, v.len() as int) =~= v@);
    }
    while i < v.len()
        invariant
            i <= v.len(),
            terminal_frame(v@, terminal) == terminal_frame(
                v@.subrange(i as int, v.len() as int),
                terminal,
            ),
        decreases v.len() - i,
    {
        let ghost rest = v@.subrange(i as int, v.len() as int);
        proof {
            assert(rest.subrange(1, rest.len() as int) =~= v@.subrange(i + 1, v.len() as int));
        }
        if v[i].terminal == terminal && !v[i].graphical && v[i].parent.is_none() {
            return Some(v[i].id);
        }
        i += 1;
    }
    None
}

/// No frame is on a terminal.
pub open spec fn terminal_is_empty(v: Seq<Frame>, terminal: u64) -> bool {
    forall|i: int| 0 <= i < v.len() ==> (#[trigger] v[i]).terminal != terminal
}

fn is_terminal_empty(v: &Vec<Frame>, terminal: u64) -> (r: bool)
    ensures
        r == terminal_is_empty(v@, terminal),
{
    let mut i: usize = 0;
    while i < v.len()
        invariant
            i <= v.len(),
            forall|k: int| 0 <= k < i ==> (#[trigger] v@[k]).terminal != terminal,
        decreases v.len() - i,
    {
        if v[i].terminal == terminal {
            return false;
        }
        i += 1;
    }
    true
}

/// What the host is told once a frame is gone.
#[derive(Debug, Clone, Copy, PartialEq, Eq, Structural)]
pub enum HostNotice {
    Nothing,
    RemoveChild,
    Destroy,
}

/// What is left to do once a frame is gone, in this order.
#[derive(Debug, Clone, Copy, PartialEq, Eq, Structural)]
pub struct DeletedFrame {
    pub notice: HostNotice,
    pub delete_terminal: bool,
    /// The hooks for a frame that was deleted are run; otherwise they are left for
    /// later.
    pub run_hooks: bool,
}

/// The session once the last graphical frame is gone: a frame of the same terminal is
/// selected, and the buffer of its selected window is current.
pub open spec fn is_fallen_back(m: Context, b: Context, plan: DeletePlan) -> bool {
    match terminal_frame(m.frames@, plan.terminal) {
        None => b == m,
        Some(id) => if plan.was_top_level_gui && !some_graphical(m.frames@) {
            exists|p: Context| #[trigger]
                fallen_to(m, p, id) && window_select::is_synced(p, b, id)
        } else {
            b == m
        },
    }
}

pub open spec fn fallen_to(m: Context, p: Context, id: u64) -> bool {
    &&& p == (Context {
        windows: p.windows,
        selected_frame: Some(id),
        use_clock: if m.frame(id) is Some {
            window_select::ticked(m.use_clock)
        } else {
            m.use_clock
        },
        ..m
    })
    &&& p.windows@ == match m.frame(id) {
        Some(f) => window_select::used_at(
            m.windows@,
            f.selected_window,
            window_select::ticked(m.use_clock),
        ),
        None => m.windows@,
    }
}

fn fall_back(c: &mut Context, plan: DeletePlan)
    ensures
        is_fallen_back(*old(c), *final(c), plan),
{
    let id: u64 = match find_terminal_frame(&c.frames, plan.terminal) {
        Some(id) => id,
        None => {
            return;
        },
    };
    if !plan.was_top_level_gui || any_graphical(&c.frames) {
        return;
    }
    let selected: Option<u64> = match c.get_frame(id) {
        Some(f) => Some(f.selected_window),
        None => None,
    };
    c.selected_frame = Some(id);
    match selected {
        Some(w) => {
            window_select::note_window_selected(c, w);
        },
        None => {},
    }
    let ghost p = *c;
    proof {
        assert(fallen_to(*old(c), p, id));
    }
    window_select::sync_selected_window_buffer(c, id);
}

/// The third step of a deletion, once the hooks before it were run: the frame goes. A
/// frame that the hooks have deleted themselves leaves nothing to do. A terminal that
/// has lost its last frame goes too, unless it is the last.
pub fn delete_frame_owned(
    c: &mut Context,
    plan: DeletePlan,
    successor: Option<u64>,
    has_host: bool,
) -> (r: Option<DeletedFrame>)
    ensures
        if old(c).frame(plan.frame) is None {
            r is None && *final(c) == *old(c)
        } else {
            exists|m: Context| #[trigger]
                is_without(*old(c), m, plan.frame, successor) && {
                    &&& is_fallen_back(m, *final(c), plan)
                    &&& r == Some(deleted_frame(m, plan, has_host))
                }
        },
{
    if c.get_frame(plan.frame).is_none() {
        return None;
    }
    remove_frame(c, plan.frame, successor);
    let ghost m = *c;
    proof {
        assert(is_without(*old(c), m, plan.frame, successor));
    }
    let empty: bool = is_terminal_empty(&c.frames, plan.terminal);
    let some_left: bool = c.frames.len() > 0;
    fall_back(c, plan);
    let notice: HostNotice = if !has_host {
        HostNotice::Nothing
    } else if plan.was_gui_child {
        HostNotice::RemoveChild
    } else if plan.was_top_level_gui {
        HostNotice::Destroy
    } else {
        HostNotice::Nothing
    };
    Some(
        DeletedFrame {
            notice: notice,
            delete_terminal: plan.may_delete_terminal && empty && some_left,
            run_hooks: plan.run_hooks,
        },
    )
}

/// What is left to do once a frame is gone from a session `m`.
pub open spec fn deleted_frame(m: Context, plan: DeletePlan, has_host: bool) -> DeletedFrame {
    DeletedFrame {
        notice: if !has_host {
            HostNotice::Nothing
        } else if plan.was_gui_child {
            HostNotice::RemoveChild
        } else if plan.was_top_level_gui {
            HostNotice::Destroy
        } else {
            HostNotice::Nothing
        },
        delete_terminal: plan.may_delete_terminal && terminal_is_empty(m.frames@, plan.terminal)
            && m.frames@.len() > 0,
        run_hooks: plan.run_hooks,
    }
}

/// Where the deletion of one frame stands.
#[derive(Debug, Clone, Copy, PartialEq, Eq, Structural)]
pub enum DeletionStage {
    /// It has not begun.
    Begin,
    /// The frames in the frame are deleted.
    Inside,
    /// The hooks for a frame that is about to be deleted are run.
    Hooks(DeletePlan),
    /// The frame is gone, and the host is told.
    Host(DeletePlan, DeletedFrame),
    /// Its terminal is deleted.
    Terminal(DeletePlan, DeletedFrame),
    /// The hooks for a frame that was deleted are run.
    After,
}

/// The deletion of one frame: `children` are the frames that were found in it, of which
/// those from `next` on are still to be deleted.
#[derive(Debug)]
pub struct DeletionJob {
    pub frame: u64,
    pub mode: DeleteFrameMode,
    pub stage: DeletionStage,
    pub children: Vec<u64>,
    pub next: usize,
}

/// The deletion of a frame and of all frames in it: a job for the frame, and one for each
/// frame on the way to the one that is being deleted.
#[derive(Debug)]
pub struct FrameDeletion {
    pub target: u64,
    pub jobs: Vec<DeletionJob>,
}

/// What the outside did last.
#[derive(Debug)]
pub enum DeletionEvent {
    /// What it was asked to do. `successor` is the frame to select where the one that goes
    /// is selected.
    Done { successor: Option<u64>, has_host: bool },
    /// It signalled.
    Signalled(Signal),
}

/// What the outside does next.
#[derive(Debug)]
pub enum DeletionAction {
    /// Nothing.
    Proceed,
    /// Run the hooks for a frame that is about to be deleted, or leave them for later.
    RunHooks { frame: u64, now: bool },
    TellHost { frame: u64, notice: HostNotice },
    DeleteTerminal(u64),
    /// Run the hooks for a frame that was deleted, or leave them for later.
    RunAfterHooks { frame: u64, now: bool },
    /// The frame is deleted, or was gone.
    Finish,
    Fail(Signal),
}

/// A job that has not begun.
pub open spec fn is_new_job(j: DeletionJob, frame: u64, mode: DeleteFrameMode) -> bool {
    &&& j.frame == frame
    &&& j.mode == mode
    &&& j.stage == DeletionStage::Begin
    &&& j.children@.len() == 0
    &&& j.next == 0
}

fn new_job(frame: u64, mode: DeleteFrameMode) -> (r: DeletionJob)
    ensures
        is_new_job(r, frame, mode),
{
    DeletionJob {
        frame: frame,
        mode: mode,
        stage: DeletionStage::Begin,
        children: Vec::new(),
        next: 0,
    }
}

/// A frame is in another.
pub open spec fn is_inside(f: Frame, parent: u64) -> bool {
    f.parent == Some(parent)
}

/// The frames in a frame are known: each is one of those that are still to be deleted, or
/// the one that is being deleted.
pub open spec fn insides_known(v: Seq<Frame>, j: DeletionJob, above: Option<u64>) -> bool {
    forall|i: int|
        0 <= i < v.len() && is_inside(#[trigger] v[i], j.frame) ==> still_due(j, v[i].id)
            || above == Some(v[i].id)
}

/// A frame is among those that a job has still to delete.
pub open spec fn still_due(j: DeletionJob, id: u64) -> bool {
    exists|k: int| j.next <= k < j.children@.len() && #[trigger] j.children@[k] == id
}

/// No frame is in a frame.
pub open spec fn nothing_inside(v: Seq<Frame>, id: u64) -> bool {
    forall|i: int| 0 <= i < v.len() ==> !is_inside(#[trigger] v[i], id)
}

/// What is known of a session while a job is under way.
pub open spec fn job_holds(c: Context, j: DeletionJob, above: Option<u64>) -> bool {
    match j.stage {
        DeletionStage::Begin => above is None,
        DeletionStage::Inside => insides_known(c.frames@, j, above),
        DeletionStage::Hooks(plan) => above is None && plan.frame == j.frame && nothing_inside(
            c.frames@,
            j.frame,
        ),
        _ => above is None && !window_state::has_frame(c.frames@, j.frame),
    }
}

/// Frames that stay where they were, some of them gone.
pub open spec fn thinned(a: Seq<Frame>, b: Seq<Frame>) -> bool {
    forall|i: int| 0 <= i < b.len() ==> was_there(a, #[trigger] b[i])
}

pub open spec fn was_there(a: Seq<Frame>, f: Frame) -> bool {
    exists|j: int| 0 <= j < a.len() && (#[trigger] a[j]).id == f.id && a[j].parent == f.parent
}

impl FrameDeletion {
    /// The frame of the job above one.
    pub open spec fn above(self, k: int) -> Option<u64> {
        if k + 1 < self.jobs@.len() {
            Some(self.jobs@[k + 1].frame)
        } else {
            None
        }
    }

    /// What is known of a session while the deletion is under way.
    pub open spec fn holds(self, c: Context) -> bool {
        &&& self.jobs@.len() > 0 ==> self.jobs@[0].frame == self.target
        &&& forall|k: int|
            0 <= k < self.jobs@.len() ==> job_holds(c, #[trigger] self.jobs@[k], self.above(k))
    }

    /// A deletion that has not begun.
    pub fn start(frame: u64, mode: DeleteFrameMode) -> (r: FrameDeletion)
        ensures
            r.target == frame,
            r.jobs@.len() == 1,
            is_new_job(r.jobs@[0], frame, mode),
            forall|c: Context| #[trigger] r.holds(c),
    {
        let mut jobs: Vec<DeletionJob> = Vec::new();
        jobs.push(new_job(frame, mode));
        FrameDeletion { target: frame, jobs: jobs }
    }
}

/// The last job is done.
pub open spec fn is_popped(m: FrameDeletion, n: FrameDeletion, action: DeletionAction) -> bool {
    &&& n.target == m.target
    &&& n.jobs@ == m.jobs@.drop_last()
    &&& if m.jobs@.len() == 1 {
        action is Finish
    } else {
        action is Proceed
    }
}

/// The last job is at another stage.
pub open spec fn is_moved(m: FrameDeletion, n: FrameDeletion, stage: DeletionStage) -> bool {
    &&& n.target == m.target
    &&& n.jobs@ == m.jobs@.update(
        m.jobs@.len() - 1,
        DeletionJob { stage: stage, ..m.jobs@.last() },
    )
}

/// What comes after a frame is gone, in order: the host, unless it was told, then the
/// terminal, unless that is done, then the hooks.
pub open spec fn is_cleared(
    m: FrameDeletion,
    n: FrameDeletion,
    plan: DeletePlan,
    d: DeletedFrame,
    told: bool,
    cleared: bool,
    action: DeletionAction,
) -> bool {
    if !told && d.notice != HostNotice::Nothing {
        &&& is_moved(m, n, DeletionStage::Host(plan, d))
        &&& action == (DeletionAction::TellHost { frame: plan.frame, notice: d.notice })
    } else if !cleared && d.delete_terminal {
        &&& is_moved(m, n, DeletionStage::Terminal(plan, d))
        &&& action == DeletionAction::DeleteTerminal(plan.terminal)
    } else {
        &&& is_moved(m, n, DeletionStage::After)
        &&& action == (DeletionAction::RunAfterHooks { frame: plan.frame, now: d.run_hooks })
    }
}

/// What a step of a deletion comes to, once the outside did what it was asked.
pub open spec fn is_step(
    m: FrameDeletion,
    n: FrameDeletion,
    a: Context,
    b: Context,
    successor: Option<u64>,
    has_host: bool,
    action: DeletionAction,
) -> bool {
    let job = m.jobs@.last();
    let last = m.jobs@.len() - 1;
    match job.stage {
        DeletionStage::Begin => b == a && if a.frame(job.frame) is None {
            is_popped(m, n, action)
        } else if job.mode.is_public() && !others_there(a, job.frame, job.mode.forced()) {
            &&& n.target == m.target
            &&& n.jobs@.len() == 0
            &&& action matches DeletionAction::Fail(e) && lisp::is_error(
                e,
                if job.mode.forced() {
                    "Attempt to delete the only frame"@
                } else {
                    "Attempt to delete the sole visible or iconified frame"@
                },
            )
        } else {
            let new = n.jobs@[last];
            &&& n.target == m.target
            &&& n.jobs@.len() == m.jobs@.len()
            &&& n.jobs@ == m.jobs@.update(last, new)
            &&& new == (DeletionJob {
                stage: DeletionStage::Inside,
                children: new.children,
                next: 0,
                ..job
            })
            &&& new.children@ == children_of(a.frames@, job.frame)
            &&& action is Proceed
        },
        DeletionStage::Inside => b == a && if job.next < job.children@.len() {
            let child = job.children@[job.next as int];
            let rest = m.jobs@.update(
                last,
                DeletionJob { next: (job.next + 1) as usize, ..job },
            );
            &&& n.target == m.target
            &&& action is Proceed
            &&& if a.frame(child) is Some {
                &&& n.jobs@.len() == m.jobs@.len() + 1
                &&& n.jobs@.drop_last() == rest
                &&& is_new_job(
                    n.jobs@.last(),
                    child,
                    DeleteFrameMode::Public { force_non_nil: false },
                )
            } else {
                n.jobs@ == rest
            }
        } else {
            match a.frame(job.frame) {
                None => is_popped(m, n, action),
                Some(f) => {
                    let plan = DeletePlan {
                        frame: job.frame,
                        terminal: f.terminal,
                        was_gui_child: f.graphical && f.parent is Some,
                        was_top_level_gui: f.graphical && f.parent is None,
                        run_hooks: job.mode.is_public(),
                        may_delete_terminal: job.mode.is_public(),
                    };
                    &&& is_moved(m, n, DeletionStage::Hooks(plan))
                    &&& action == (DeletionAction::RunHooks {
                        frame: job.frame,
                        now: plan.run_hooks,
                    })
                },
            }
        },
        DeletionStage::Hooks(plan) => if a.frame(plan.frame) is None {
            b == a && is_popped(m, n, action)
        } else {
            exists|k: Context| #[trigger]
                is_without(a, k, plan.frame, successor) && is_fallen_back(k, b, plan)
                    && is_cleared(
                    m,
                    n,
                    plan,
                    deleted_frame(k, plan, has_host),
                    false,
                    false,
                    action,
                )
        },
        DeletionStage::Host(plan, d) => b == a && is_cleared(m, n, plan, d, true, false, action),
        DeletionStage::Terminal(plan, d) => b == a && is_cleared(m, n, plan, d, true, true, action),
        DeletionStage::After => b == a && is_popped(m, n, action),
    }
}

/// The frame that takes over from one that goes is another one that is there.
pub open spec fn succeeds(c: Context, frame: u64, successor: Option<u64>) -> bool {
    successor matches Some(s) ==> s != frame && window_state::has_frame(c.frames@, s)
}

impl FrameDeletion {
    fn pop(&mut self) -> (r: DeletionAction)
        requires
            old(self).jobs@.len() > 0,
        ensures
            is_popped(*old(self), *final(self), r),
    {
        let _ = self.jobs.pop();
        if self.jobs.len() == 0 {
            DeletionAction::Finish
        } else {
            DeletionAction::Proceed
        }
    }

    fn move_to(&mut self, stage: DeletionStage)
        requires
            old(self).jobs@.len() > 0,
        ensures
            is_moved(*old(self), *final(self), stage),
    {
        let last: usize = self.jobs.len() - 1;
        self.jobs[last].stage = stage;
        proof {
            assert(self.jobs@ =~= old(self).jobs@.update(
                last as int,
                DeletionJob { stage: stage, ..old(self).jobs@.last() },
            ));
        }
    }

    fn clear_up(&mut self, plan: DeletePlan, d: DeletedFrame, told: bool, cleared: bool) -> (r:
        DeletionAction)
        requires
            old(self).jobs@.len() > 0,
        ensures
            is_cleared(*old(self), *final(self), plan, d, told, cleared, r),
    {
        if !told && d.notice != HostNotice::Nothing {
            self.move_to(DeletionStage::Host(plan, d));
            DeletionAction::TellHost { frame: plan.frame, notice: d.notice }
        } else if !cleared && d.delete_terminal {
            self.move_to(DeletionStage::Terminal(plan, d));
            DeletionAction::DeleteTerminal(plan.terminal)
        } else {
            self.move_to(DeletionStage::After);
            DeletionAction::RunAfterHooks { frame: plan.frame, now: d.run_hooks }
        }
    }

    /// Goes on with a deletion, until it is finished or has failed: the frames in a frame
    /// are deleted before it. While the outside makes no frames and moves none, nothing is
    /// left in a frame that goes.
    pub fn advance(&mut self, c: &mut Context, event: DeletionEvent) -> (r: DeletionAction)
        requires
            old(self).jobs@.len() > 0,
        ensures
            match event {
                DeletionEvent::Signalled(e) => {
                    &&& *final(c) == *old(c)
                    &&& final(self).target == old(self).target
                    &&& final(self).jobs@.len() == 0
                    &&& r == DeletionAction::Fail(e)
                },
                DeletionEvent::Done { successor, has_host } => is_step(
                    *old(self),
                    *final(self),
                    *old(c),
                    *final(c),
                    successor,
                    has_host,
                    r,
                ),
            },
            (r is Finish || r is Fail) <==> final(self).jobs@.len() == 0,
    {
        let (successor, has_host): (Option<u64>, bool) = match event {
            DeletionEvent::Signalled(e) => {
                self.jobs.clear();
                return DeletionAction::Fail(e);
            },
            DeletionEvent::Done { successor, has_host } => (successor, has_host),
        };
        let last: usize = self.jobs.len() - 1;
        let frame: u64 = self.jobs[last].frame;
        let mode: DeleteFrameMode = self.jobs[last].mode;
        match self.jobs[last].stage {
            DeletionStage::Begin => match begin_delete_frame(c, frame, mode) {
                Err(e) => {
                    self.jobs.clear();
                    DeletionAction::Fail(e)
                },
                Ok(None) => self.pop(),
                Ok(Some(children)) => {
                    self.jobs[last].stage = DeletionStage::Inside;
                    self.jobs[last].children = children;
                    self.jobs[last].next = 0;
                    proof {
                        assert(self.jobs@ =~= old(self).jobs@.update(
                            last as int,
                            self.jobs@[last as int],
                        ));
                    }
                    DeletionAction::Proceed
                },
            },
            DeletionStage::Inside => {
                let next: usize = self.jobs[last].next;
                if next < self.jobs[last].children.len() {
                    let child: u64 = self.jobs[last].children[next];
                    self.jobs[last].next = next + 1;
                    let ghost rest = self.jobs@;
                    proof {
                        assert(rest =~= old(self).jobs@.update(
                            last as int,
                            DeletionJob { next: (next + 1) as usize, ..old(self).jobs@.last() },
                        ));
                    }
                    if c.get_frame(child).is_some() {
                        self.jobs.push(
                            new_job(child, DeleteFrameMode::Public { force_non_nil: false }),
                        );
                        proof {
                            assert(self.jobs@.drop_last() =~= rest);
                        }
                    }
                    DeletionAction::Proceed
                } else {
                    match plan_delete_frame(c, frame, mode) {
                        None => self.pop(),
                        Some(plan) => {
                            self.move_to(DeletionStage::Hooks(plan));
                            DeletionAction::RunHooks { frame: frame, now: plan.run_hooks }
                        },
                    }
                }
            },
            DeletionStage::Hooks(plan) => match delete_frame_owned(c, plan, successor, has_host) {
                None => self.pop(),
                Some(d) => {
                    proof {
                        let k = choose|k: Context| #[trigger]
                            is_without(*old(c), k, plan.frame, successor) && is_fallen_back(
                                k,
                                *c,
                                plan,
                            ) && d == deleted_frame(k, plan, has_host);
                        assert(is_without(*old(c), k, plan.frame, successor));
                    }
                    self.clear_up(plan, d, false, false)
                },
            },
            DeletionStage::Host(plan, d) => self.clear_up(plan, d, true, false),
            DeletionStage::Terminal(plan, d) => self.clear_up(plan, d, true, true),
            DeletionStage::After => self.pop(),
        }
    }
}

/// A caller cannot delete the only frame, with or without force.
pub proof fn law_only_frame_stays(c: Context, frame: u64, force: bool)
    requires
        c.frames@.len() == 1,
        c.frames@[0].id == frame,
    ensures
        !others_there(c, frame, force),
{
}

/// Without force a frame is not deleted where only invisible ones would be left; with
/// force it is.
pub proof fn law_force_counts_invisible_frames(c: Context, frame: u64)
    ensures
        others_there(c, frame, false) ==> others_there(c, frame, true),
{
    if others_there(c, frame, false) {
        let i = choose|i: int|
            0 <= i < c.frames@.len() && stands_in(#[trigger] c.frames@[i], frame, false);
        assert(stands_in(c.frames@[i], frame, true));
    }
}

} // verus!
