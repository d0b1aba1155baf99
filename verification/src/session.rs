//! What every command on a session keeps: that numbers tell frames, windows and buffers
//! apart, and lead to what they name.
use vstd::prelude::*;

use crate::frame_delete;
use crate::frame_gui;
use crate::frame_make;
use crate::lisp::{Datum, Signal, Value};
use crate::window_buffers;
use crate::window_lists;
use crate::window_queries;
use crate::window_scroll;
use crate::window_select;
use crate::window_state;
use crate::window_state::{Context, Frame, FrameSeed, Window, WindowPredicate};

verus! {

/// Frames with the same numbers, parents and root windows.
pub open spec fn same_frames(a: Seq<Frame>, b: Seq<Frame>) -> bool {
    &&& a.len() == b.len()
    &&& forall|i: int|
        0 <= i < a.len() ==> (#[trigger] a[i]).id == b[i].id && a[i].parent == b[i].parent
            && a[i].root_window == b[i].root_window
}

/// Windows with the same numbers on the same frames.
pub open spec fn same_windows(a: Seq<Window>, b: Seq<Window>) -> bool {
    &&& a.len() == b.len()
    &&& forall|i: int|
        0 <= i < a.len() ==> (#[trigger] a[i]).id == b[i].id && a[i].frame == b[i].frame
            && a[i].leaf == b[i].leaf
}

/// Every frame has its selected window.
pub open spec fn selections_hold(c: Context) -> bool {
    &&& forall|i: int|
        0 <= i < c.frames@.len() ==> window_state::owns(
            c.windows@,
            (#[trigger] c.frames@[i]).id,
            c.frames@[i].selected_window,
            true,
        )
    &&& c.selected_frame matches Some(id) ==> window_state::has_frame(c.frames@, id)
}

/// Sessions that differ only in what is selected and in what frames, windows and buffers
/// hold.
pub open spec fn same_links(a: Context, b: Context) -> bool {
    &&& same_frames(a.frames@, b.frames@)
    &&& same_windows(a.windows@, b.windows@)
    &&& window_state::buffer_ids(a.buffers@) == window_state::buffer_ids(b.buffers@)
    &&& a.dead_windows@ == b.dead_windows@
    &&& a.next_frame == b.next_frame
    &&& a.next_window == b.next_window
    &&& a.next_buffer == b.next_buffer
}

/// What is found among frames is found among frames with the same numbers.
pub proof fn lemma_same_frames(a: Seq<Frame>, b: Seq<Frame>, id: u64)
    requires
        same_frames(a, b),
        window_state::has_frame(a, id),
    ensures
        window_state::has_frame(b, id),
{
    let i = choose|i: int| 0 <= i < a.len() && (#[trigger] a[i]).id == id;
    assert(b[i].id == id);
}

proof fn lemma_same_windows(a: Seq<Window>, b: Seq<Window>, frame: u64, w: u64, leaf: bool)
    requires
        same_windows(a, b),
        window_state::owns(a, frame, w, leaf),
    ensures
        window_state::owns(b, frame, w, leaf),
{
    let i = choose|i: int|
        0 <= i < a.len() && (#[trigger] a[i]).id == w && a[i].frame == frame && (leaf
            ==> a[i].leaf);
    assert(b[i].id == w && b[i].frame == frame && (leaf ==> b[i].leaf));
}

/// A change of what frames, windows and buffers hold, or of a selection that leads to
/// something, keeps a session well formed.
pub proof fn law_same_links_keep_wf(a: Context, b: Context)
    requires
        a.wf(),
        same_links(a, b),
        selections_hold(b),
    ensures
        b.wf(),
{
    assert(window_state::frame_ids(a.frames@) =~= window_state::frame_ids(b.frames@));
    assert(window_state::window_ids(a.windows@) =~= window_state::window_ids(b.windows@));
    assert forall|i: int| 0 <= i < b.frames@.len() implies {
        &&& (#[trigger] b.frames@[i]).id < b.next_frame
        &&& window_state::owns(b.windows@, b.frames@[i].id, b.frames@[i].root_window, false)
        &&& b.frames@[i].parent matches Some(p) ==> window_state::has_frame(b.frames@, p)
    } by {
        assert(a.frames@[i].id == b.frames@[i].id);
        lemma_same_windows(
            a.windows@,
            b.windows@,
            a.frames@[i].id,
            a.frames@[i].root_window,
            false,
        );
        if a.frames@[i].parent is Some {
            lemma_same_frames(a.frames@, b.frames@, a.frames@[i].parent->0);
        }
    }
    assert forall|i: int| 0 <= i < b.windows@.len() implies {
        &&& (#[trigger] b.windows@[i]).id < b.next_window
        &&& window_state::has_frame(b.frames@, b.windows@[i].frame)
    } by {
        assert(a.windows@[i].id == b.windows@[i].id);
        lemma_same_frames(a.frames@, b.frames@, a.windows@[i].frame);
    }
    assert forall|i: int| 0 <= i < b.buffers@.len() implies (#[trigger] b.buffers@[i]).id
        < b.next_buffer by {
        assert(window_state::buffer_ids(a.buffers@).len() == a.buffers@.len());
        assert(window_state::buffer_ids(b.buffers@).len() == b.buffers@.len());
        assert(window_state::buffer_ids(b.buffers@)[i] == b.buffers@[i].id);
        assert(window_state::buffer_ids(a.buffers@)[i] == a.buffers@[i].id);
    }
}

/// Frames that keep their selected windows keep them where windows stay what they are.
pub proof fn lemma_selections_kept(a: Context, b: Context)
    requires
        a.wf(),
        same_links(a, b),
        a.selected_frame == b.selected_frame,
        forall|i: int|
            0 <= i < a.frames@.len() ==> (#[trigger] a.frames@[i]).selected_window
                == b.frames@[i].selected_window,
    ensures
        selections_hold(b),
{
    assert forall|i: int| 0 <= i < b.frames@.len() implies window_state::owns(
        b.windows@,
        (#[trigger] b.frames@[i]).id,
        b.frames@[i].selected_window,
        true,
    ) by {
        assert(a.frames@[i].id == b.frames@[i].id);
        lemma_same_windows(
            a.windows@,
            b.windows@,
            a.frames@[i].id,
            a.frames@[i].selected_window,
            true,
        );
    }
    if b.selected_frame is Some {
        lemma_same_frames(a.frames@, b.frames@, b.selected_frame->0);
    }
}

/// A window that is given other contents, and buffers that are, keep a session well
/// formed.
pub proof fn law_contents_keep_wf(a: Context, b: Context)
    requires
        a.wf(),
        b == (Context { windows: b.windows, buffers: b.buffers, current_buffer: b.current_buffer, use_clock: b.use_clock, ..a }),
        same_windows(a.windows@, b.windows@),
        window_state::buffer_ids(a.buffers@) == window_state::buffer_ids(b.buffers@),
    ensures
        b.wf(),
{
    lemma_selections_kept(a, b);
    law_same_links_keep_wf(a, b);
}

/// A new buffer keeps a session well formed.
pub proof fn law_new_buffer_keeps_wf(a: Context, b: Context, name: Seq<char>, id: u64)
    requires
        a.wf(),
        a.next_buffer < u64::MAX,
        window_state::buffer_made(a, b, name, id),
    ensures
        b.wf(),
{
    let n = a.buffers@.len() as int;
    assert forall|i: int| 0 <= i < n implies b.buffers@[i] == a.buffers@[i] by {
        assert(b.buffers@.drop_last()[i] == b.buffers@[i]);
    }
    assert(b.buffers@[n] == b.buffers@.last());
    let ids = window_state::buffer_ids(b.buffers@);
    assert forall|i: int, j: int| 0 <= i < ids.len() && 0 <= j < ids.len() && i != j implies ids[i]
        != ids[j] by {
        assert(ids[i] == b.buffers@[i].id && ids[j] == b.buffers@[j].id);
        let old_ids = window_state::buffer_ids(a.buffers@);
        if i < n && j < n {
            assert(old_ids[i] == ids[i] && old_ids[j] == ids[j]);
        }
    }
}

/// A new frame keeps a session well formed.
pub proof fn law_new_frame_keeps_wf(a: Context, b: Context, name: Seq<char>, seed: FrameSeed)
    requires
        a.wf(),
        a.next_frame < u64::MAX,
        a.next_window < u64::MAX - 1,
        window_state::frame_added(a, b, name, seed),
    ensures
        b.wf(),
        forall|i: int| 0 <= i < a.frames@.len() ==> #[trigger] b.frames@[i] == a.frames@[i],
        forall|id: u64|
            window_state::has_frame(a.frames@, id) ==> #[trigger] window_state::has_frame(
                b.frames@,
                id,
            ),
{
    let n = a.frames@.len() as int;
    let k = a.windows@.len() as int;
    assert forall|i: int| 0 <= i < n implies #[trigger] b.frames@[i] == a.frames@[i] by {
        assert(b.frames@.drop_last()[i] == b.frames@[i]);
    }
    assert(b.frames@[n] == b.frames@.last());
    assert forall|i: int| 0 <= i < k implies #[trigger] b.windows@[i] == a.windows@[i] by {
        assert(b.windows@.subrange(0, k)[i] == b.windows@[i]);
    }
    assert forall|id: u64| window_state::has_frame(
        a.frames@,
        id,
    ) implies #[trigger] window_state::has_frame(b.frames@, id) by {
        let i = choose|i: int| 0 <= i < n && (#[trigger] a.frames@[i]).id == id;
        assert(b.frames@[i].id == id);
    }
    assert forall|f: u64, w: u64, leaf: bool| window_state::owns(
        a.windows@,
        f,
        w,
        leaf,
    ) implies #[trigger] window_state::owns(b.windows@, f, w, leaf) by {
        let i = choose|i: int|
            0 <= i < k && (#[trigger] a.windows@[i]).id == w && a.windows@[i].frame == f && (leaf
                ==> a.windows@[i].leaf);
        assert(b.windows@[i] == a.windows@[i]);
    }
    let fids = window_state::frame_ids(b.frames@);
    assert forall|i: int, j: int|
        0 <= i < fids.len() && 0 <= j < fids.len() && i != j implies fids[i] != fids[j] by {
        assert(fids[i] == b.frames@[i].id && fids[j] == b.frames@[j].id);
        let old_ids = window_state::frame_ids(a.frames@);
        if i < n && j < n {
            assert(old_ids[i] == fids[i] && old_ids[j] == fids[j]);
        }
    }
    let wids = window_state::window_ids(b.windows@);
    assert forall|i: int, j: int|
        0 <= i < wids.len() && 0 <= j < wids.len() && i != j implies wids[i] != wids[j] by {
        assert(wids[i] == b.windows@[i].id && wids[j] == b.windows@[j].id);
        let old_ids = window_state::window_ids(a.windows@);
        if i < k && j < k {
            assert(old_ids[i] == wids[i] && old_ids[j] == wids[j]);
        }
    }
    assert(b.frames@[n].id == a.next_frame);
    assert(b.windows@[k].id == a.next_window && b.windows@[k].frame == a.next_frame);
    assert(b.windows@[k + 1].frame == a.next_frame);
    assert(window_state::has_frame(b.frames@, a.next_frame));
    assert(window_state::owns(b.windows@, a.next_frame, a.next_window, true));
    assert(window_state::owns(b.windows@, a.next_frame, a.next_window, false));
    assert forall|i: int| 0 <= i < b.frames@.len() implies {
        &&& (#[trigger] b.frames@[i]).id < b.next_frame
        &&& window_state::owns(b.windows@, b.frames@[i].id, b.frames@[i].root_window, false)
        &&& window_state::owns(b.windows@, b.frames@[i].id, b.frames@[i].selected_window, true)
        &&& b.frames@[i].parent matches Some(p) ==> window_state::has_frame(b.frames@, p)
    } by {
        if i < n {
            assert(b.frames@[i] == a.frames@[i]);
        }
    }
    assert forall|i: int| 0 <= i < b.windows@.len() implies {
        &&& (#[trigger] b.windows@[i]).id < b.next_window
        &&& window_state::has_frame(b.frames@, b.windows@[i].frame)
    } by {
        if i < k {
            assert(b.windows@[i] == a.windows@[i]);
        }
    }
    assert forall|i: int| 0 <= i < b.dead_windows@.len() implies {
        &&& #[trigger] b.dead_windows@[i] < b.next_window
        &&& !window_state::window_ids(b.windows@).contains(b.dead_windows@[i])
    } by {
        let d = b.dead_windows@[i];
        assert(a.dead_windows@[i] == d);
        if wids.contains(d) {
            let j = choose|j: int| 0 <= j < wids.len() && wids[j] == d;
            assert(wids[j] == b.windows@[j].id);
            if j < k {
                assert(window_state::window_ids(a.windows@)[j] == d);
            }
        }
    }
    if b.selected_frame is Some && a.selected() is Some {
        assert(window_state::has_frame(a.frames@, a.selected_frame->0));
    }
}

/// Making sure that a frame is selected keeps a session well formed; so does every
/// command that does no more than look something up.
pub proof fn law_lookup_keeps_wf(a: Context, b: Context)
    requires
        a.wf(),
        a.has_room(),
        window_state::ensured(a, b),
    ensures
        b.wf(),
{
    if a.selected() is None {
        let (m, n, buffer, mini_buffer) = choose|m: Context, n: Context, buffer: u64, mini: u64|
            {
                &&& window_state::current_at_hand(a, m, buffer)
                &&& window_state::buffer_at_hand(m, n, " *Minibuf-0*"@, mini)
                &&& #[trigger] window_state::batch_made_from(m, n, b, buffer, mini)
            };
        if m != a {
            law_new_buffer_keeps_wf(a, m, "*scratch*"@, buffer);
        }
        if n != m {
            law_new_buffer_keeps_wf(m, n, " *Minibuf-0*"@, mini_buffer);
        }
        law_new_frame_keeps_wf(n, b, "F1"@, window_state::batch_seed(buffer, mini_buffer));
    }
}

/// A number that leads to a frame is found among the frames.
pub proof fn lemma_has_frame(c: Context, id: u64)
    ensures
        c.frame(id) is Some <==> window_state::has_frame(c.frames@, id),
        c.frame(id) matches Some(f) ==> f.id == id,
{
    let ids = window_state::frame_ids(c.frames@);
    window_state::lemma_index_in(ids, id);
    if window_state::has_frame(c.frames@, id) {
        let i = choose|i: int| 0 <= i < c.frames@.len() && (#[trigger] c.frames@[i]).id == id;
        assert(ids[i] == id);
    }
    if c.frame(id) is Some {
        let i = window_state::index_in(ids, id)->0;
        assert(ids[i] == c.frames@[i].id);
    }
}

/// A live window is among those of its frame.
pub proof fn lemma_live_is_owned(c: Context, w: u64, f: u64)
    requires
        c.live_frame(w) == Some(f),
    ensures
        window_state::owns(c.windows@, f, w, true),
{
    let ids = window_state::window_ids(c.windows@);
    window_state::lemma_index_in(ids, w);
    let i = window_state::index_in(ids, w)->0;
    assert(ids[i] == c.windows@[i].id);
}

/// The selection of a window keeps a session well formed.
pub proof fn law_selection_keeps_wf(
    r: window_select::Selected,
    a: Context,
    b: Context,
    frame: u64,
    w: u64,
    record: bool,
)
    requires
        a.wf(),
        a.frame(frame) is Some,
        a.live_frame(w) == Some(frame),
        window_select::is_selection(r, a, b, frame, w, record),
    ensures
        b.wf(),
{
    let (p, q, n) = choose|p: Context, q: Context, n: Context| #[trigger]
        window_select::selection_steps(a, p, q, n, frame, w, record) && if record
            && window_select::selected_leaf(n, frame) is Some {
            window_select::is_recorded_on(
                n,
                b,
                window_select::selected_leaf(n, frame)->0.buffer,
                frame,
            )
        } else {
            b == n
        };
    let kept = window_select::remembered(a, a.selected_frame->0);
    assert(same_windows(a.windows@, kept)) by {
        lemma_places(a);
    }
    assert(same_windows(a.windows@, p.windows@)) by {
        lemma_window_place(kept, w);
    }
    lemma_reselected(a, p, frame, w);
    lemma_places(p);
    assert(window_state::buffer_ids(p.buffers@) =~= window_state::buffer_ids(q.buffers@));
    law_contents_keep_wf(p, q);
    lemma_places(q);
    assert(window_state::buffer_ids(q.buffers@) =~= window_state::buffer_ids(n.buffers@));
    law_contents_keep_wf(q, n);
    lemma_places(n);
    assert(same_frames(n.frames@, b.frames@));
    lemma_selections_kept(n, b);
    law_same_links_keep_wf(n, b);
}

proof fn lemma_window_place(v: Seq<Window>, w: u64)
    ensures
        window_state::window_place(v, w) matches Some(i) ==> 0 <= i < v.len() && v[i].id == w,
{
    let ids = window_state::window_ids(v);
    window_state::lemma_index_in(ids, w);
    if window_state::window_place(v, w) is Some {
        let i = window_state::window_place(v, w)->0;
        assert(ids[i] == v[i].id);
    }
}

/// Places that numbers are found at are places.
proof fn lemma_places(c: Context)
    ensures
        forall|w: u64|
            (#[trigger] window_state::window_place(c.windows@, w)) matches Some(i) ==> 0 <= i
                < c.windows@.len() && c.windows@[i].id == w,
        forall|f: u64|
            (#[trigger] window_state::frame_place(c.frames@, f)) matches Some(i) ==> 0 <= i
                < c.frames@.len() && c.frames@[i].id == f,
        forall|k: u64|
            (#[trigger] window_state::buffer_place(c.buffers@, k)) matches Some(i) ==> 0 <= i
                < c.buffers@.len() && c.buffers@[i].id == k,
{
    assert forall|w: u64|
        (#[trigger] window_state::window_place(c.windows@, w)) matches Some(i) ==> 0 <= i
            < c.windows@.len() && c.windows@[i].id == w by {
        lemma_window_place(c.windows@, w);
    }
    assert forall|f: u64|
        (#[trigger] window_state::frame_place(c.frames@, f)) matches Some(i) ==> 0 <= i
            < c.frames@.len() && c.frames@[i].id == f by {
        let ids = window_state::frame_ids(c.frames@);
        window_state::lemma_index_in(ids, f);
        if window_state::frame_place(c.frames@, f) is Some {
            let i = window_state::frame_place(c.frames@, f)->0;
            assert(ids[i] == c.frames@[i].id);
        }
    }
    assert forall|k: u64|
        (#[trigger] window_state::buffer_place(c.buffers@, k)) matches Some(i) ==> 0 <= i
            < c.buffers@.len() && c.buffers@[i].id == k by {
        let ids = window_state::buffer_ids(c.buffers@);
        window_state::lemma_index_in(ids, k);
        if window_state::buffer_place(c.buffers@, k) is Some {
            let i = window_state::buffer_place(c.buffers@, k)->0;
            assert(ids[i] == c.buffers@[i].id);
        }
    }
}

/// A frame that selects one of its windows, and is selected or not, keeps a session well
/// formed.
proof fn lemma_reselected(a: Context, b: Context, frame: u64, w: u64)
    requires
        a.wf(),
        a.frame(frame) is Some,
        a.live_frame(w) == Some(frame),
        b.frames@ == window_select::selecting(a.frames@, frame, w),
        same_windows(a.windows@, b.windows@),
        b == (Context { frames: b.frames, windows: b.windows, selected_frame: b.selected_frame, use_clock: b.use_clock, ..a }),
        b.selected_frame == Some(frame) || b.selected_frame == a.selected_frame,
    ensures
        b.wf(),
{
    lemma_places(a);
    lemma_has_frame(a, frame);
    lemma_live_is_owned(a, w, frame);
    lemma_same_windows(a.windows@, b.windows@, frame, w, true);
    assert(same_frames(a.frames@, b.frames@));
    assert forall|i: int| 0 <= i < b.frames@.len() implies window_state::owns(
        b.windows@,
        (#[trigger] b.frames@[i]).id,
        b.frames@[i].selected_window,
        true,
    ) by {
        assert(a.frames@[i].id == b.frames@[i].id);
        if b.frames@[i].selected_window == a.frames@[i].selected_window {
            lemma_same_windows(
                a.windows@,
                b.windows@,
                a.frames@[i].id,
                a.frames@[i].selected_window,
                true,
            );
        }
    }
    lemma_same_frames(a.frames@, b.frames@, frame);
    if a.selected_frame is Some {
        lemma_same_frames(a.frames@, b.frames@, a.selected_frame->0);
    }
    law_same_links_keep_wf(a, b);
}

/// `select-window` keeps a session well formed.
pub proof fn law_select_window_keeps_wf(
    r: Result<window_select::Selected, Signal>,
    a: Context,
    b: Context,
    window: Datum,
    norecord: Datum,
)
    requires
        a.wf(),
        a.has_room(),
        window_select::is_select_window(r, a, b, window, norecord),
    ensures
        b.wf(),
{
    match crate::lisp::window_named(window) {
        None => {},
        Some(w) => {
            if a.live_frame(w) is Some {
                let m = choose|m: Context| #[trigger]
                    window_state::ensured(a, m) && match m.live_frame(w) {
                        None => b == m,
                        Some(f) => if m.frame(f) is None {
                            b == m
                        } else {
                            r matches Ok(s) && window_select::is_selection(
                                s,
                                m,
                                b,
                                f,
                                w,
                                norecord is Nil,
                            )
                        },
                    };
                law_lookup_keeps_wf(a, m);
                match m.live_frame(w) {
                    None => {},
                    Some(f) => {
                        if m.frame(f) is Some {
                            law_selection_keeps_wf(r->Ok_0, m, b, f, w, norecord is Nil);
                        }
                    },
                }
            }
        },
    }
}

/// A frame that selects one of its windows keeps a session well formed.
pub proof fn law_frame_selection_keeps_wf(a: Context, b: Context, frame: u64, w: u64)
    requires
        a.wf(),
        a.frame(frame) is Some,
        a.live_frame(w) == Some(frame),
        b == (Context { frames: b.frames, ..a }),
        b.frames@ == window_select::selecting(a.frames@, frame, w),
    ensures
        b.wf(),
{
    lemma_reselected(a, b, frame, w);
}

/// A window that changes in what it holds keeps a session well formed: its number, its
/// frame and whether it is a leaf stay.
pub proof fn law_window_change_keeps_wf(a: Context, b: Context, w: u64, new: Window)
    requires
        a.wf(),
        window_state::window_changed(a, b, w, new),
        a.window(w) matches Some(win) ==> new.id == win.id && new.frame == win.frame && new.leaf
            == win.leaf,
    ensures
        b.wf(),
{
    lemma_places(a);
    law_contents_keep_wf(a, b);
}

/// A slot of a window that is set keeps a session well formed.
pub proof fn law_slot_keeps_wf(
    r: Result<Value, Signal>,
    m: Context,
    b: Context,
    window: Datum,
    which: window_queries::WindowSlot,
    d: Datum,
)
    requires
        m.wf(),
        window_queries::is_slot_set(r, m, b, window, which, d),
    ensures
        b.wf(),
{
    lemma_places(m);
    if b != m {
        assert(window_state::buffer_ids(m.buffers@) =~= window_state::buffer_ids(b.buffers@));
        law_contents_keep_wf(m, b);
    }
}

/// Margins that are set keep a session well formed.
pub proof fn law_margins_keep_wf(
    r: Result<bool, Signal>,
    m: Context,
    b: Context,
    window: Datum,
    left: Datum,
    right: Datum,
)
    requires
        m.wf(),
        window_queries::are_margins_set(r, m, b, window, left, right),
    ensures
        b.wf(),
{
    lemma_places(m);
    if b != m {
        assert(window_state::buffer_ids(m.buffers@) =~= window_state::buffer_ids(b.buffers@));
        law_contents_keep_wf(m, b);
    }
}

/// A limit of a combination that is set keeps a session well formed.
pub proof fn law_limit_keeps_wf(
    r: Result<Value, Signal>,
    m: Context,
    b: Context,
    window: Datum,
    limit: Datum,
)
    requires
        m.wf(),
        window_queries::is_limit_set(r, m, b, window, limit),
    ensures
        b.wf(),
{
    lemma_places(m);
    if b != m {
        assert(window_state::buffer_ids(m.buffers@) =~= window_state::buffer_ids(b.buffers@));
        law_contents_keep_wf(m, b);
    }
}

/// Lines that are applied to a minibuffer keep a session well formed.
pub proof fn law_total_keeps_wf(a: Context, b: Context, root: window_queries::TotalRoot)
    requires
        a.wf(),
        window_queries::is_total_applied(a, b, root),
    ensures
        b.wf(),
{
    lemma_places(a);
    if b != a {
        assert(window_state::buffer_ids(a.buffers@) =~= window_state::buffer_ids(b.buffers@));
        law_contents_keep_wf(a, b);
    }
}

/// A window start that is set keeps a session well formed.
pub proof fn law_start_keeps_wf(
    r: Result<(u64, Value), Signal>,
    m: Context,
    b: Context,
    window: Datum,
    pos: Datum,
    force: bool,
)
    requires
        m.wf(),
        window_scroll::is_start_set(r, m, b, window, pos, force),
    ensures
        b.wf(),
{
    lemma_places(m);
    if b != m {
        assert(window_state::buffer_ids(m.buffers@) =~= window_state::buffer_ids(b.buffers@));
        law_contents_keep_wf(m, b);
    }
}

/// A window point that is set keeps a session well formed.
pub proof fn law_point_keeps_wf(
    r: Result<Value, Signal>,
    m: Context,
    b: Context,
    window: Datum,
    pos: Datum,
)
    requires
        m.wf(),
        window_scroll::is_point_set(r, m, b, window, pos),
    ensures
        b.wf(),
{
    lemma_places(m);
    if b != m {
        assert(window_state::buffer_ids(m.buffers@) =~= window_state::buffer_ids(b.buffers@));
        law_contents_keep_wf(m, b);
    }
}

/// A scroll to the side keeps a session well formed.
pub proof fn law_sideways_keeps_wf(
    r: Result<i64, Signal>,
    m: Context,
    b: Context,
    left: bool,
    count: Option<i64>,
    minimum: bool,
)
    requires
        m.wf(),
        window_scroll::is_sideways(r, m, b, left, count, minimum),
    ensures
        b.wf(),
{
    lemma_places(m);
    if b != m {
        assert(window_state::buffer_ids(m.buffers@) =~= window_state::buffer_ids(b.buffers@));
        law_contents_keep_wf(m, b);
    }
}

/// A scroll keeps a session well formed.
pub proof fn law_scroll_keeps_wf(
    m: Context,
    b: Context,
    w: u64,
    buffer: u64,
    start: i64,
    point: i64,
)
    requires
        m.wf(),
        window_scroll::is_scrolled(m, b, w, buffer, start, point),
    ensures
        b.wf(),
{
    lemma_places(m);
    if b != m {
        assert(window_state::buffer_ids(m.buffers@) =~= window_state::buffer_ids(b.buffers@));
        law_contents_keep_wf(m, b);
    }
}

/// A change of a window's history keeps a session well formed.
pub proof fn law_history_keeps_wf(
    m: Context,
    b: Context,
    w: u64,
    prev: Datum,
    next: Datum,
)
    requires
        m.wf(),
        window_buffers::history_changed(m, b, w, prev, next),
    ensures
        b.wf(),
{
    lemma_places(m);
    if b != m {
        assert(window_state::buffer_ids(m.buffers@) =~= window_state::buffer_ids(b.buffers@));
        law_contents_keep_wf(m, b);
    }
}

/// A buffer that is taken out of a window's history keeps a session well formed.
pub proof fn law_discard_keeps_wf(
    r: Result<(), Signal>,
    m: Context,
    b: Context,
    w: u64,
    buffer: u64,
)
    requires
        m.wf(),
        window_queries::is_discarded(r, m, b, w, buffer),
    ensures
        b.wf(),
{
    lemma_places(m);
    if b != m {
        assert(window_state::buffer_ids(m.buffers@) =~= window_state::buffer_ids(b.buffers@));
        law_contents_keep_wf(m, b);
    }
}

/// A buffer that is put in a window keeps a session well formed.
pub proof fn law_shown_buffer_keeps_wf(
    r: Result<window_buffers::WindowBufferSet, Signal>,
    m: Context,
    b: Context,
    s: window_buffers::SetWindowBuffer,
)
    requires
        m.wf(),
        window_buffers::is_set_buffer_end(r, m, b, s),
    ensures
        b.wf(),
{
    lemma_places(m);
    if b != m {
        assert(window_state::buffer_ids(m.buffers@) =~= window_state::buffer_ids(b.buffers@));
        law_contents_keep_wf(m, b);
    }
}

/// A buffer that leaves a window keeps a session well formed.
pub proof fn law_leaving_buffer_keeps_wf(
    r: Result<window_buffers::SetWindowBuffer, Signal>,
    a: Context,
    b: Context,
    window: Datum,
    buffer: Datum,
    keep: Datum,
)
    requires
        a.wf(),
        a.has_room(),
        window_buffers::is_set_buffer_start(r, a, b, window, buffer, keep),
    ensures
        b.wf(),
{
    let m = choose|m: Context| #[trigger]
        window_state::ensured_for(a, m, window) && match window_state::window_target(
            m,
            window,
            WindowPredicate::Live,
        ) {
            None => b == m,
            Some((f, w)) => match window_buffers::shown_buffer(m, buffer) {
                window_buffers::ShownBuffer::Shown(id) => exists|n: Context| #[trigger]
                    window_state::ensured(m, n) && window_buffers::is_buffer_change(
                        r,
                        n,
                        b,
                        f,
                        w,
                        id,
                        !(keep is Nil),
                    ),
                _ => b == m,
            },
        };
    if window is Nil {
        law_lookup_keeps_wf(a, m);
        lemma_selected_after(a, m);
    }
    match window_state::window_target(m, window, WindowPredicate::Live) {
        None => {},
        Some((f, w)) => match window_buffers::shown_buffer(m, buffer) {
            window_buffers::ShownBuffer::Shown(id) => {
                let n = choose|n: Context| #[trigger]
                    window_state::ensured(m, n) && window_buffers::is_buffer_change(
                        r,
                        n,
                        b,
                        f,
                        w,
                        id,
                        !(keep is Nil),
                    );
                if m.selected() is None {
                    assert(m == a);
                    law_lookup_keeps_wf(m, n);
                }
                lemma_buffer_change_keeps_wf(r, n, b, f, w, id, !(keep is Nil));
            },
            _ => {},
        },
    }
}

/// Once a frame was made sure of, one is selected.
proof fn lemma_selected_after(a: Context, b: Context)
    requires
        a.wf(),
        a.has_room(),
        window_state::ensured(a, b),
    ensures
        b.selected() is Some,
{
    law_lookup_keeps_wf(a, b);
    if a.selected() is None {
        if a.selected_frame is Some {
            lemma_has_frame(a, a.selected_frame->0);
        }
        let (m, n, buffer, mini) = choose|m: Context, n: Context, buffer: u64, mini: u64|
            {
                &&& window_state::current_at_hand(a, m, buffer)
                &&& window_state::buffer_at_hand(m, n, " *Minibuf-0*"@, mini)
                &&& #[trigger] window_state::batch_made_from(m, n, b, buffer, mini)
            };
        assert(n.frames == a.frames && n.selected_frame == a.selected_frame);
        assert(b.selected_frame == Some(a.next_frame));
        lemma_has_frame(b, a.next_frame);
    }
}

proof fn lemma_buffer_change_keeps_wf(
    r: Result<window_buffers::SetWindowBuffer, Signal>,
    a: Context,
    b: Context,
    frame: u64,
    w: u64,
    buffer: u64,
    keep: bool,
)
    requires
        a.wf(),
        window_buffers::is_buffer_change(r, a, b, frame, w, buffer, keep),
    ensures
        b.wf(),
{
    if b != a {
        let win = a.window(w)->0;
        let m = choose|m: Context| #[trigger]
            window_buffers::buffer_left(a, m, win, buffer) && window_buffers::is_history_change(
                r,
                m,
                b,
                frame,
                win,
                buffer,
                keep,
            );
        lemma_places(a);
        if m != a {
            assert(window_state::buffer_ids(a.buffers@) =~= window_state::buffer_ids(m.buffers@));
            law_contents_keep_wf(a, m);
        }
        lemma_places(m);
        if b != m {
            law_contents_keep_wf(m, b);
        }
    }
}

/// A new frame that is put in another, or is left without a minibuffer of its own, keeps a
/// session well formed.
proof fn lemma_shaped_frame_keeps_wf(
    a: Context,
    n: Context,
    q: Context,
    b: Context,
    name: Seq<char>,
    seed: FrameSeed,
    f: Frame,
    minibuffer: frame_make::ChildMinibuffer,
    mini_buffer: u64,
)
    requires
        a.wf(),
        a.next_frame < u64::MAX,
        a.next_window < u64::MAX - 1,
        window_state::frame_added(a, n, name, seed),
        q.wf(),
        q == (Context { buffers: q.buffers, next_buffer: q.next_buffer, ..n }),
        b == (Context { frames: b.frames, windows: b.windows, ..q }),
        b.frames@ == n.frames@.update(n.frames@.len() - 1, f),
        f.id == n.frames@.last().id,
        f.root_window == n.frames@.last().root_window,
        f.selected_window == n.frames@.last().selected_window,
        f.parent matches Some(p) ==> window_state::has_frame(a.frames@, p),
        frame_make::minibuffer_settled(n.windows@, b.windows@, minibuffer, mini_buffer),
    ensures
        b.wf(),
{
    law_new_frame_keeps_wf(a, n, name, seed);
    let last = n.frames@.len() - 1;
    let k = a.windows@.len() as int;
    assert(window_state::frame_ids(b.frames@) =~= window_state::frame_ids(n.frames@));
    assert forall|id: u64| window_state::has_frame(
        n.frames@,
        id,
    ) implies #[trigger] window_state::has_frame(b.frames@, id) by {
        let i = choose|i: int| 0 <= i < n.frames@.len() && (#[trigger] n.frames@[i]).id == id;
        assert(b.frames@[i].id == id);
    }
    assert forall|i: int| 0 <= i < b.windows@.len() implies (#[trigger] b.windows@[i]).id
        == n.windows@[i].id && b.windows@[i].frame == n.windows@[i].frame && b.windows@[i].leaf
        == n.windows@[i].leaf by {}
    assert(n.windows@[k + 1].id == (a.next_window + 1) as u64);
    assert forall|i: int| 0 <= i < b.frames@.len() implies {
        &&& (#[trigger] b.frames@[i]).id < b.next_frame
        &&& window_state::owns(b.windows@, b.frames@[i].id, b.frames@[i].root_window, false)
        &&& window_state::owns(b.windows@, b.frames@[i].id, b.frames@[i].selected_window, true)
        &&& b.frames@[i].parent matches Some(p) ==> window_state::has_frame(b.frames@, p)
    } by {
        assert(n.frames@[i].id == b.frames@[i].id);
        assert(n.frames@[i].root_window == b.frames@[i].root_window);
        assert(n.frames@[i].selected_window == b.frames@[i].selected_window);
        let id = n.frames@[i].id;
        let root = n.frames@[i].root_window;
        let sel = n.frames@[i].selected_window;
        if i < last {
            assert(n.frames@[i] == a.frames@[i]);
            let x = choose|x: int|
                0 <= x < k && (#[trigger] a.windows@[x]).id == root && a.windows@[x].frame == id;
            assert(n.windows@.subrange(0, k)[x] == n.windows@[x]);
            assert(b.windows@[x].id == root);
            let y = choose|y: int|
                0 <= y < k && (#[trigger] a.windows@[y]).id == sel && a.windows@[y].frame == id
                    && a.windows@[y].leaf;
            assert(n.windows@.subrange(0, k)[y] == n.windows@[y]);
            assert(b.windows@[y].id == sel);
        } else {
            assert(n.frames@[i] == n.frames@.last());
            assert(b.windows@[k].id == root && b.windows@[k].frame == id);
            if f.parent is Some {
                assert(window_state::has_frame(n.frames@, f.parent->0));
            }
        }
    }
    let wids = window_state::window_ids(b.windows@);
    let nids = window_state::window_ids(n.windows@);
    assert forall|i: int| 0 <= i < wids.len() implies wids[i] == nids[i] by {
        assert(b.windows@[i].id == n.windows@[i].id);
    }
    assert forall|i: int| 0 <= i < b.windows@.len() implies {
        &&& (#[trigger] b.windows@[i]).id < b.next_window
        &&& window_state::has_frame(b.frames@, b.windows@[i].frame)
    } by {
        assert(n.windows@[i].id == b.windows@[i].id);
        assert(window_state::has_frame(n.frames@, n.windows@[i].frame));
    }
    assert forall|i: int| 0 <= i < b.dead_windows@.len() implies {
        &&& #[trigger] b.dead_windows@[i] < b.next_window
        &&& !wids.contains(b.dead_windows@[i])
    } by {
        assert(n.dead_windows@[i] == b.dead_windows@[i]);
        if wids.contains(b.dead_windows@[i]) {
            let j = choose|j: int| 0 <= j < wids.len() && wids[j] == b.dead_windows@[i];
            assert(nids[j] == b.dead_windows@[i]);
        }
    }
}

/// A plain frame that is made keeps a session well formed.
pub proof fn law_plain_frame_keeps_wf(
    r: Result<frame_make::MadeFrame, Signal>,
    a: Context,
    b: Context,
    items: Seq<Datum>,
)
    requires
        a.wf(),
        a.has_room(),
        frame_make::is_plain_frame(
            r,
            frame_make::name_taken(a),
            b,
            frame_make::plain_params(frame_make::name_taken(a), items),
            frame_make::generated_name(a),
        ),
    ensures
        b.wf(),
{
    let t = frame_make::name_taken(a);
    let m = frame_make::plain_params(t, items);
    let g = frame_make::generated_name(a);
    let name = frame_make::chosen_name(m, g);
    law_same_links_keep_wf(a, t);
    match m.parent {
        None => {
            let seed = frame_make::plain_seed(t, m);
            let n = choose|n: Context| #[trigger]
                window_state::frame_added(t, n, name, seed) && frame_make::is_plain_root(
                    r,
                    t,
                    n,
                    b,
                    m,
                );
            law_new_frame_keeps_wf(t, n, name, seed);
            lemma_shaped_frame_keeps_wf(
                t,
                n,
                n,
                b,
                name,
                seed,
                b.frames@.last(),
                frame_make::ChildMinibuffer::Own,
                0,
            );
        },
        Some(parent) => {
            frame_make::lemma_plain_parent(t, items);
            lemma_has_frame(t, parent);
            let seed = frame_make::child_seed(t, m, t.frame(parent)->0);
            let n = choose|n: Context| #[trigger]
                window_state::frame_added(t, n, name, seed) && frame_make::is_plain_child(
                    r,
                    t,
                    n,
                    b,
                    m,
                    parent,
                );
            law_new_frame_keeps_wf(t, n, name, seed);
            match frame_make::child_minibuffer(n, parent, m.minibuffer) {
                None => {},
                Some(minibuffer) => {
                    let (q, mini) = choose|q: Context, mini: u64| #[trigger]
                        frame_make::mini_at_hand(n, q, minibuffer, mini) && {
                            &&& b == (Context { frames: b.frames, windows: b.windows, ..q })
                            &&& b.frames@ == n.frames@.update(
                                n.frames@.len() - 1,
                                frame_make::as_child(
                                    n.frames@.last(),
                                    m,
                                    parent,
                                    frame_make::behind(frame_make::top_child(n.frames@, parent)),
                                    minibuffer,
                                ),
                            )
                            &&& frame_make::minibuffer_settled(
                                n.windows@,
                                b.windows@,
                                minibuffer,
                                mini,
                            )
                        };
                    if q != n {
                        law_new_buffer_keeps_wf(n, q, " *Minibuf-0*"@, mini);
                    }
                    lemma_shaped_frame_keeps_wf(
                        t,
                        n,
                        q,
                        b,
                        name,
                        seed,
                        b.frames@.last(),
                        minibuffer,
                        mini,
                    );
                },
            }
        },
    }
}

/// A frame on a window system that is made keeps a session well formed.
pub proof fn law_gui_frame_keeps_wf(
    r: Result<frame_gui::MadeGuiFrame, Signal>,
    a: Context,
    b: Context,
    m: frame_gui::GuiFrameModel,
    host: Option<frame_gui::HostFacts>,
)
    requires
        a.wf(),
        a.has_room(),
        frame_gui::is_gui_frame(r, a, b, m, host),
    ensures
        b.wf(),
{
    let plan = frame_gui::gui_plan(a, m, host);
    let (n, buffer) = choose|n: Context, buffer: u64| #[trigger]
        window_state::current_at_hand(a, n, buffer) && match frame_gui::gui_minibuffer(
            n,
            m,
            plan.parent,
        ) {
            None => b == n,
            Some(minibuffer) => exists|q: Context, k: Context, mini: u64| #[trigger]
                frame_gui::gui_steps(n, q, k, m, plan, minibuffer, buffer, mini)
                    && frame_gui::is_gui_result(
                    r,
                    n,
                    k,
                    b,
                    m,
                    plan,
                    minibuffer,
                    buffer,
                    mini,
                    host,
                ),
        };
    if n != a {
        law_new_buffer_keeps_wf(a, n, "*scratch*"@, buffer);
    }
    match frame_gui::gui_minibuffer(n, m, plan.parent) {
        None => {},
        Some(minibuffer) => {
            let (q, k, mini) = choose|q: Context, k: Context, mini: u64| #[trigger]
                frame_gui::gui_steps(n, q, k, m, plan, minibuffer, buffer, mini)
                    && frame_gui::is_gui_result(
                    r,
                    n,
                    k,
                    b,
                    m,
                    plan,
                    minibuffer,
                    buffer,
                    mini,
                    host,
                );
            if q != n {
                law_new_buffer_keeps_wf(n, q, " *Minibuf-0*"@, mini);
            }
            let seed = frame_gui::gui_seed(plan, buffer, mini);
            let name = frame_gui::gui_name(m);
            law_new_frame_keeps_wf(q, k, name, seed);
            if plan.parent is Some {
                lemma_has_frame(a, plan.parent->0);
            }
            lemma_shaped_frame_keeps_wf(
                q,
                k,
                k,
                b,
                name,
                seed,
                b.frames@.last(),
                minibuffer,
                mini,
            );
        },
    }
}

/// What is left of frames without one of them.
proof fn lemma_frames_left(v: Seq<Frame>, frame: u64)
    requires
        window_state::frame_ids(v).no_duplicates(),
    ensures
        window_state::frame_ids(frame_delete::frames_left(v, frame)).no_duplicates(),
        forall|i: int|
            0 <= i < frame_delete::frames_left(v, frame).len() ==> (
            #[trigger] frame_delete::frames_left(v, frame)[i]).id != frame && v.contains(
                frame_delete::frames_left(v, frame)[i],
            ),
        forall|j: int|
            0 <= j < v.len() && (#[trigger] v[j]).id != frame ==> frame_delete::frames_left(
                v,
                frame,
            ).contains(v[j]),
    decreases v.len(),
{
    if v.len() > 0 {
        let w = v.drop_last();
        let left = frame_delete::frames_left(v, frame);
        let before = frame_delete::frames_left(w, frame);
        let ids = window_state::frame_ids(v);
        assert forall|i: int, j: int|
            0 <= i < w.len() && 0 <= j < w.len() && i != j implies window_state::frame_ids(w)[i]
            != window_state::frame_ids(w)[j] by {
            assert(ids[i] == w[i].id && ids[j] == w[j].id);
        }
        lemma_frames_left(w, frame);
        assert forall|i: int| 0 <= i < left.len() implies (#[trigger] left[i]).id != frame
            && v.contains(left[i]) by {
            if i < before.len() {
                assert(left[i] == before[i]);
                let x = choose|x: int| 0 <= x < w.len() && w[x] == before[i];
                assert(v[x] == before[i]);
            } else {
                assert(left[i] == v.last());
                assert(v[v.len() - 1] == v.last());
            }
        }
        assert forall|j: int| 0 <= j < v.len() && (#[trigger] v[j]).id
            != frame implies left.contains(v[j]) by {
            if j < w.len() {
                assert(w[j] == v[j]);
                let x = choose|x: int| 0 <= x < before.len() && before[x] == w[j];
                assert(left[x] == v[j]);
            } else {
                assert(left[left.len() - 1] == v[j]);
            }
        }
        let lids = window_state::frame_ids(left);
        assert forall|i: int, j: int|
            0 <= i < lids.len() && 0 <= j < lids.len() && i != j implies lids[i] != lids[j] by {
            let bids = window_state::frame_ids(before);
            if i < before.len() && j < before.len() {
                assert(bids[i] == lids[i] && bids[j] == lids[j]);
            } else {
                let k = if i < before.len() {
                    i
                } else {
                    j
                };
                let x = choose|x: int| 0 <= x < w.len() && w[x] == before[k];
                assert(ids[x] == before[k].id);
                assert(ids[v.len() - 1] == v.last().id);
                assert(left[k] == before[k]);
            }
        }
    }
}

/// What is left of windows without those of a frame, and which go.
proof fn lemma_windows_left(v: Seq<Window>, frame: u64)
    requires
        window_state::window_ids(v).no_duplicates(),
    ensures
        window_state::window_ids(frame_delete::windows_left(v, frame)).no_duplicates(),
        forall|i: int|
            0 <= i < frame_delete::windows_left(v, frame).len() ==> (
            #[trigger] frame_delete::windows_left(v, frame)[i]).frame != frame && v.contains(
                frame_delete::windows_left(v, frame)[i],
            ),
        forall|j: int|
            0 <= j < v.len() && (#[trigger] v[j]).frame != frame ==> frame_delete::windows_left(
                v,
                frame,
            ).contains(v[j]),
        forall|i: int|
            0 <= i < frame_delete::windows_of(v, frame).len() ==> is_one_of(
                v,
                #[trigger] frame_delete::windows_of(v, frame)[i],
                frame,
            ),
    decreases v.len(),
{
    if v.len() > 0 {
        let w = v.drop_last();
        let left = frame_delete::windows_left(v, frame);
        let before = frame_delete::windows_left(w, frame);
        let ids = window_state::window_ids(v);
        assert forall|i: int, j: int|
            0 <= i < w.len() && 0 <= j < w.len() && i != j implies window_state::window_ids(w)[i]
            != window_state::window_ids(w)[j] by {
            assert(ids[i] == w[i].id && ids[j] == w[j].id);
        }
        lemma_windows_left(w, frame);
        assert forall|i: int| 0 <= i < left.len() implies (#[trigger] left[i]).frame != frame
            && v.contains(left[i]) by {
            if i < before.len() {
                assert(left[i] == before[i]);
                let x = choose|x: int| 0 <= x < w.len() && w[x] == before[i];
                assert(v[x] == before[i]);
            } else {
                assert(left[i] == v.last());
                assert(v[v.len() - 1] == v.last());
            }
        }
        assert forall|j: int| 0 <= j < v.len() && (#[trigger] v[j]).frame
            != frame implies left.contains(v[j]) by {
            if j < w.len() {
                assert(w[j] == v[j]);
                let x = choose|x: int| 0 <= x < before.len() && before[x] == w[j];
                assert(left[x] == v[j]);
            } else {
                assert(left[left.len() - 1] == v[j]);
            }
        }
        let lids = window_state::window_ids(left);
        assert forall|i: int, j: int|
            0 <= i < lids.len() && 0 <= j < lids.len() && i != j implies lids[i] != lids[j] by {
            let bids = window_state::window_ids(before);
            if i < before.len() && j < before.len() {
                assert(bids[i] == lids[i] && bids[j] == lids[j]);
            } else {
                let k = if i < before.len() {
                    i
                } else {
                    j
                };
                let x = choose|x: int| 0 <= x < w.len() && w[x] == before[k];
                assert(ids[x] == before[k].id);
                assert(ids[v.len() - 1] == v.last().id);
                assert(left[k] == before[k]);
            }
        }
        let gone = frame_delete::windows_of(v, frame);
        let earlier = frame_delete::windows_of(w, frame);
        assert forall|i: int| 0 <= i < gone.len() implies is_one_of(
            v,
            #[trigger] gone[i],
            frame,
        ) by {
            if i < earlier.len() {
                assert(gone[i] == earlier[i]);
                let x = choose|x: int|
                    0 <= x < w.len() && (#[trigger] w[x]).id == earlier[i] && w[x].frame == frame;
                assert(v[x].id == gone[i] && v[x].frame == frame);
            } else {
                assert(v[v.len() - 1].id == gone[i]);
            }
        }
    }
}

/// A number is that of a window of a frame.
pub open spec fn is_one_of(v: Seq<Window>, id: u64, frame: u64) -> bool {
    exists|x: int| 0 <= x < v.len() && (#[trigger] v[x]).id == id && v[x].frame == frame
}

/// A frame that goes, with nothing in it, leaves a session well formed, and other frames
/// where they were.
#[verifier::rlimit(60)]
pub proof fn law_removal_keeps_wf(a: Context, b: Context, frame: u64, successor: Option<u64>)
    requires
        a.wf(),
        frame_delete::nothing_inside(a.frames@, frame),
        frame_delete::succeeds(a, frame, successor),
        frame_delete::is_without(a, b, frame, successor),
    ensures
        b.wf(),
        frame_delete::thinned(a.frames@, b.frames@),
        !window_state::has_frame(b.frames@, frame),
{
    lemma_frames_left(a.frames@, frame);
    lemma_windows_left(a.windows@, frame);
    assert forall|id: u64| id != frame && window_state::has_frame(
        a.frames@,
        id,
    ) implies #[trigger] window_state::has_frame(b.frames@, id) by {
        let j = choose|j: int| 0 <= j < a.frames@.len() && (#[trigger] a.frames@[j]).id == id;
        let x = choose|x: int| 0 <= x < b.frames@.len() && b.frames@[x] == a.frames@[j];
        assert(b.frames@[x].id == id);
    }
    assert forall|f: u64, w: u64, leaf: bool|
        f != frame && window_state::owns(a.windows@, f, w, leaf) implies #[trigger] window_state::owns(
        b.windows@,
        f,
        w,
        leaf,
    ) by {
        let j = choose|j: int|
            0 <= j < a.windows@.len() && (#[trigger] a.windows@[j]).id == w && a.windows@[j].frame
                == f && (leaf ==> a.windows@[j].leaf);
        let x = choose|x: int| 0 <= x < b.windows@.len() && b.windows@[x] == a.windows@[j];
        assert(b.windows@[x].id == w);
    }
    assert forall|i: int| 0 <= i < b.frames@.len() implies {
        &&& (#[trigger] b.frames@[i]).id < b.next_frame
        &&& window_state::owns(b.windows@, b.frames@[i].id, b.frames@[i].root_window, false)
        &&& window_state::owns(b.windows@, b.frames@[i].id, b.frames@[i].selected_window, true)
        &&& b.frames@[i].parent matches Some(p) ==> window_state::has_frame(b.frames@, p)
        &&& frame_delete::was_there(a.frames@, b.frames@[i])
    } by {
        let j = choose|j: int| 0 <= j < a.frames@.len() && a.frames@[j] == b.frames@[i];
        assert(a.frames@[j].id != frame);
        assert(!frame_delete::is_inside(a.frames@[j], frame));
    }
    assert forall|i: int| 0 <= i < b.windows@.len() implies {
        &&& (#[trigger] b.windows@[i]).id < b.next_window
        &&& window_state::has_frame(b.frames@, b.windows@[i].frame)
    } by {
        let j = choose|j: int| 0 <= j < a.windows@.len() && a.windows@[j] == b.windows@[i];
        assert(window_state::has_frame(a.frames@, a.windows@[j].frame));
    }
    lemma_dead_stay_dead(a, b, frame);
}

/// The windows that go with a frame are not among those that are left.
proof fn lemma_dead_stay_dead(a: Context, b: Context, frame: u64)
    requires
        a.wf(),
        b.windows@ == frame_delete::windows_left(a.windows@, frame),
        b.dead_windows@ == a.dead_windows@ + frame_delete::windows_of(a.windows@, frame),
        b.next_window == a.next_window,
    ensures
        forall|i: int|
            0 <= i < b.dead_windows@.len() ==> {
                &&& #[trigger] b.dead_windows@[i] < b.next_window
                &&& !window_state::window_ids(b.windows@).contains(b.dead_windows@[i])
            },
{
    lemma_windows_left(a.windows@, frame);
    let wids = window_state::window_ids(b.windows@);
    let aids = window_state::window_ids(a.windows@);
    assert forall|i: int| 0 <= i < b.dead_windows@.len() implies {
        &&& #[trigger] b.dead_windows@[i] < b.next_window
        &&& !wids.contains(b.dead_windows@[i])
    } by {
        let d = b.dead_windows@[i];
        let n = a.dead_windows@.len() as int;
        if wids.contains(d) {
            let y = choose|y: int| 0 <= y < wids.len() && wids[y] == d;
            let j = choose|j: int| 0 <= j < a.windows@.len() && a.windows@[j] == b.windows@[y];
            assert(aids[j] == d);
            if i < n {
                assert(a.dead_windows@[i] == d);
                assert(aids.contains(d));
            } else {
                let g = frame_delete::windows_of(a.windows@, frame);
                assert(g[i - n] == d);
                let x = choose|x: int|
                    0 <= x < a.windows@.len() && (#[trigger] a.windows@[x]).id == d
                        && a.windows@[x].frame == frame;
                assert(aids[x] == d);
                assert(x == j);
            }
        }
        if i < n {
            assert(a.dead_windows@[i] == d);
        } else {
            let g = frame_delete::windows_of(a.windows@, frame);
            assert(g[i - n] == d);
        }
    }
}

proof fn lemma_terminal_frame(v: Seq<Frame>, terminal: u64)
    ensures
        frame_delete::terminal_frame(v, terminal) matches Some(id) ==> window_state::has_frame(
            v,
            id,
        ),
    decreases v.len(),
{
    if v.len() > 0 {
        let rest = v.subrange(1, v.len() as int);
        lemma_terminal_frame(rest, terminal);
        match frame_delete::terminal_frame(v, terminal) {
            None => {},
            Some(id) => {
                if window_state::has_frame(rest, id) {
                    let i = choose|i: int| 0 <= i < rest.len() && (#[trigger] rest[i]).id == id;
                    assert(v[i + 1].id == id);
                } else {
                    assert(v[0].id == id);
                }
            },
        }
    }
}

/// The frame that a session falls back to leaves it well formed, and all frames where they
/// were.
pub proof fn law_fall_back_keeps_wf(a: Context, b: Context, plan: frame_delete::DeletePlan)
    requires
        a.wf(),
        frame_delete::is_fallen_back(a, b, plan),
    ensures
        b.wf(),
        b.frames == a.frames,
{
    if b != a {
        let id = frame_delete::terminal_frame(a.frames@, plan.terminal)->0;
        lemma_terminal_frame(a.frames@, plan.terminal);
        let p = choose|p: Context| #[trigger]
            frame_delete::fallen_to(a, p, id) && window_select::is_synced(p, b, id);
        lemma_places(a);
        assert(same_windows(a.windows@, p.windows@));
        assert forall|i: int| 0 <= i < p.frames@.len() implies window_state::owns(
            p.windows@,
            (#[trigger] p.frames@[i]).id,
            p.frames@[i].selected_window,
            true,
        ) by {
            lemma_same_windows(
                a.windows@,
                p.windows@,
                a.frames@[i].id,
                a.frames@[i].selected_window,
                true,
            );
        }
        law_same_links_keep_wf(a, p);
        lemma_places(p);
        if b != p {
            assert(window_state::buffer_ids(p.buffers@) =~= window_state::buffer_ids(b.buffers@));
            law_contents_keep_wf(p, b);
        }
    }
}

/// Frames that get fewer twice have got fewer.
proof fn lemma_thinned_twice(a: Seq<Frame>, b: Seq<Frame>, c: Seq<Frame>)
    requires
        frame_delete::thinned(a, b),
        frame_delete::thinned(b, c),
    ensures
        frame_delete::thinned(a, c),
{
    assert forall|i: int| 0 <= i < c.len() implies frame_delete::was_there(a, #[trigger] c[i]) by {
        let j = choose|j: int|
            0 <= j < b.len() && (#[trigger] b[j]).id == c[i].id && b[j].parent == c[i].parent;
        assert(frame_delete::was_there(a, b[j]));
    }
}

/// What hooks, the host and the terminal do outside, as long as they make no frame and
/// move none, leaves a deletion as it was.
pub proof fn law_outside_work_keeps_deletion(m: frame_delete::FrameDeletion, a: Context, b: Context)
    requires
        m.holds(a),
        frame_delete::thinned(a.frames@, b.frames@),
    ensures
        m.holds(b),
{
    assert forall|k: int| 0 <= k < m.jobs@.len() implies frame_delete::job_holds(
        b,
        #[trigger] m.jobs@[k],
        m.above(k),
    ) by {
        let j = m.jobs@[k];
        assert(frame_delete::job_holds(a, j, m.above(k)));
        assert forall|i: int| 0 <= i < b.frames@.len() implies exists|x: int|
            0 <= x < a.frames@.len() && (#[trigger] a.frames@[x]).id == (
            #[trigger] b.frames@[i]).id && a.frames@[x].parent == b.frames@[i].parent by {
            assert(frame_delete::was_there(a.frames@, b.frames@[i]));
        }
        assert forall|i: int|
            0 <= i < b.frames@.len() && frame_delete::is_inside(
                #[trigger] b.frames@[i],
                j.frame,
            ) implies exists|x: int|
            0 <= x < a.frames@.len() && (#[trigger] a.frames@[x]).id == b.frames@[i].id
                && frame_delete::is_inside(a.frames@[x], j.frame) by {}
    }
}

/// A step of a deletion leaves the session well formed and the frames that stay where they
/// were; once it is finished, the frame is gone.
pub proof fn law_deletion_step(
    m: frame_delete::FrameDeletion,
    n: frame_delete::FrameDeletion,
    a: Context,
    b: Context,
    successor: Option<u64>,
    has_host: bool,
    action: frame_delete::DeletionAction,
)
    requires
        a.wf(),
        m.jobs@.len() > 0,
        m.holds(a),
        frame_delete::succeeds(a, m.jobs@.last().frame, successor),
        frame_delete::is_step(m, n, a, b, successor, has_host, action),
    ensures
        b.wf(),
        frame_delete::thinned(a.frames@, b.frames@),
        n.target == m.target,
        n.holds(b),
        action is Finish ==> b.frame(m.target) is None,
{
    assert(m.jobs@.last() == m.jobs@[m.jobs@.len() - 1]);
    match m.jobs@.last().stage {
        frame_delete::DeletionStage::Hooks(_) => {
            lemma_hooks_step(m, n, a, b, successor, has_host, action);
        },
        frame_delete::DeletionStage::Inside => {
            lemma_inside_step(m, n, a, b, successor, has_host, action);
            lemma_thinned_itself(a.frames@);
        },
        frame_delete::DeletionStage::Begin => {
            lemma_begin_step(m, n, a, b, successor, has_host, action);
            lemma_thinned_itself(a.frames@);
        },
        _ => {
            lemma_cleared_step(m, n, a, b, successor, has_host, action);
            lemma_thinned_itself(a.frames@);
        },
    }
    lemma_has_frame(b, m.target);
}

proof fn lemma_hooks_step(
    m: frame_delete::FrameDeletion,
    n: frame_delete::FrameDeletion,
    a: Context,
    b: Context,
    successor: Option<u64>,
    has_host: bool,
    action: frame_delete::DeletionAction,
)
    requires
        a.wf(),
        frame_delete::succeeds(a, m.jobs@.last().frame, successor),
        m.jobs@.len() > 0,
        m.holds(a),
        m.jobs@.last().stage is Hooks,
        frame_delete::is_step(m, n, a, b, successor, has_host, action),
    ensures
        b.wf(),
        frame_delete::thinned(a.frames@, b.frames@),
        n.target == m.target,
        n.holds(b),
        action is Finish ==> !window_state::has_frame(b.frames@, m.target),
{
    let last = m.jobs@.len() - 1;
    let job = m.jobs@[last];
    assert(frame_delete::job_holds(a, job, m.above(last)));
    lemma_has_frame(a, job.frame);
    let plan = job.stage->Hooks_0;
    if a.frame(plan.frame) is Some {
        let k = choose|k: Context| #[trigger]
            frame_delete::is_without(a, k, plan.frame, successor) && frame_delete::is_fallen_back(
                k,
                b,
                plan,
            ) && frame_delete::is_cleared(
                m,
                n,
                plan,
                frame_delete::deleted_frame(k, plan, has_host),
                false,
                false,
                action,
            );
        law_removal_keeps_wf(a, k, plan.frame, successor);
        law_fall_back_keeps_wf(k, b, plan);
        law_outside_work_keeps_deletion(m, a, b);
        lemma_moved(m, n, b);
    } else {
        lemma_popped(m, n, a, action);
        lemma_thinned_itself(a.frames@);
    }
}

proof fn lemma_cleared_step(
    m: frame_delete::FrameDeletion,
    n: frame_delete::FrameDeletion,
    a: Context,
    b: Context,
    successor: Option<u64>,
    has_host: bool,
    action: frame_delete::DeletionAction,
)
    requires
        m.jobs@.len() > 0,
        m.holds(a),
        m.jobs@.last().stage is Host || m.jobs@.last().stage is Terminal
            || m.jobs@.last().stage is After,
        frame_delete::is_step(m, n, a, b, successor, has_host, action),
    ensures
        b == a,
        n.target == m.target,
        n.holds(b),
        action is Finish ==> !window_state::has_frame(b.frames@, m.target),
{
    let last = m.jobs@.len() - 1;
    let job = m.jobs@[last];
    assert(frame_delete::job_holds(a, job, m.above(last)));
    lemma_has_frame(a, job.frame);
    if job.stage is After {
        lemma_popped(m, n, a, action);
    } else {
        lemma_moved(m, n, b);
    }
}

proof fn lemma_begin_step(
    m: frame_delete::FrameDeletion,
    n: frame_delete::FrameDeletion,
    a: Context,
    b: Context,
    successor: Option<u64>,
    has_host: bool,
    action: frame_delete::DeletionAction,
)
    requires
        m.jobs@.len() > 0,
        m.holds(a),
        m.jobs@.last().stage is Begin,
        frame_delete::is_step(m, n, a, b, successor, has_host, action),
    ensures
        b == a,
        n.target == m.target,
        n.holds(b),
        action is Finish ==> !window_state::has_frame(b.frames@, m.target),
{
    let last = m.jobs@.len() - 1;
    let job = m.jobs@[last];
    assert(frame_delete::job_holds(a, job, m.above(last)));
    lemma_has_frame(a, job.frame);
    if a.frame(job.frame) is None {
        lemma_popped(m, n, a, action);
    } else if n.jobs@.len() > 0 {
        lemma_children(a.frames@, job.frame);
        lemma_kept_below(m, n, b);
        let new = n.jobs@[last];
        assert forall|i: int|
            0 <= i < b.frames@.len() && frame_delete::is_inside(
                #[trigger] b.frames@[i],
                new.frame,
            ) implies frame_delete::still_due(new, b.frames@[i].id) by {
            let x = choose|x: int|
                0 <= x < new.children@.len() && new.children@[x] == b.frames@[i].id;
            assert(new.children@[x] == b.frames@[i].id);
        }
        assert(frame_delete::job_holds(b, new, n.above(last)));
    }
}

proof fn lemma_inside_step(
    m: frame_delete::FrameDeletion,
    n: frame_delete::FrameDeletion,
    a: Context,
    b: Context,
    successor: Option<u64>,
    has_host: bool,
    action: frame_delete::DeletionAction,
)
    requires
        m.jobs@.len() > 0,
        m.holds(a),
        m.jobs@.last().stage is Inside,
        frame_delete::is_step(m, n, a, b, successor, has_host, action),
    ensures
        b == a,
        n.target == m.target,
        n.holds(b),
        action is Finish ==> !window_state::has_frame(b.frames@, m.target),
{
    let last = m.jobs@.len() - 1;
    let job = m.jobs@[last];
    assert(frame_delete::job_holds(a, job, m.above(last)));
    lemma_has_frame(a, job.frame);
    if job.next < job.children@.len() {
        lemma_descended(m, n, a);
    } else {
        assert(frame_delete::nothing_inside(a.frames@, job.frame)) by {
            assert forall|i: int| 0 <= i < a.frames@.len() implies !frame_delete::is_inside(
                #[trigger] a.frames@[i],
                job.frame,
            ) by {
                assert(!frame_delete::still_due(job, a.frames@[i].id));
            }
        }
        if a.frame(job.frame) is None {
            lemma_popped(m, n, a, action);
        } else {
            lemma_kept_below(m, n, b);
            assert(frame_delete::job_holds(b, n.jobs@[last], n.above(last)));
        }
    }
}

proof fn lemma_thinned_itself(v: Seq<Frame>)
    ensures
        frame_delete::thinned(v, v),
{
    assert forall|i: int| 0 <= i < v.len() implies frame_delete::was_there(v, #[trigger] v[i]) by {}
}

/// The jobs below the last one stay as they are.
proof fn lemma_kept_below(m: frame_delete::FrameDeletion, n: frame_delete::FrameDeletion, c: Context)
    requires
        m.holds(c),
        m.jobs@.len() > 0,
        n.target == m.target,
        n.jobs@.len() == m.jobs@.len(),
        n.jobs@ == m.jobs@.update(m.jobs@.len() - 1, n.jobs@[m.jobs@.len() - 1]),
        n.jobs@[m.jobs@.len() - 1].frame == m.jobs@.last().frame,
    ensures
        n.jobs@[0].frame == n.target,
        forall|k: int|
            0 <= k < m.jobs@.len() - 1 ==> frame_delete::job_holds(
                c,
                #[trigger] n.jobs@[k],
                n.above(k),
            ),
{
    assert forall|k: int| 0 <= k < m.jobs@.len() - 1 implies frame_delete::job_holds(
        c,
        #[trigger] n.jobs@[k],
        n.above(k),
    ) by {
        assert(frame_delete::job_holds(c, m.jobs@[k], m.above(k)));
        assert(n.jobs@[k] == m.jobs@[k]);
        assert(n.jobs@[k + 1].frame == m.jobs@[k + 1].frame);
    }
}

/// A job whose frame is gone goes on to another stage of clearing up.
proof fn lemma_moved(m: frame_delete::FrameDeletion, n: frame_delete::FrameDeletion, c: Context)
    requires
        m.holds(c),
        m.jobs@.len() > 0,
        !window_state::has_frame(c.frames@, m.jobs@.last().frame),
        m.above(m.jobs@.len() - 1) is None,
        exists|stage: frame_delete::DeletionStage| #[trigger]
            frame_delete::is_moved(m, n, stage) && (stage is Host || stage is Terminal
                || stage is After),
    ensures
        n.holds(c),
{
    lemma_kept_below(m, n, c);
    let last = m.jobs@.len() - 1;
    assert(frame_delete::job_holds(c, n.jobs@[last], n.above(last)));
}

/// A job whose frame is gone is done.
proof fn lemma_popped(
    m: frame_delete::FrameDeletion,
    n: frame_delete::FrameDeletion,
    c: Context,
    action: frame_delete::DeletionAction,
)
    requires
        m.holds(c),
        m.jobs@.len() > 0,
        !window_state::has_frame(c.frames@, m.jobs@.last().frame),
        frame_delete::is_popped(m, n, action),
    ensures
        n.holds(c),
        action is Finish ==> !window_state::has_frame(c.frames@, m.target),
{
    let gone = m.jobs@.last().frame;
    assert forall|k: int| 0 <= k < n.jobs@.len() implies frame_delete::job_holds(
        c,
        #[trigger] n.jobs@[k],
        n.above(k),
    ) by {
        assert(frame_delete::job_holds(c, m.jobs@[k], m.above(k)));
        assert(n.jobs@[k] == m.jobs@[k]);
        if k + 1 < n.jobs@.len() {
            assert(n.jobs@[k + 1] == m.jobs@[k + 1]);
        } else {
            assert(m.above(k) == Some(gone));
            assert forall|i: int| 0 <= i < c.frames@.len() implies (#[trigger] c.frames@[i]).id
                != gone by {}
        }
    }
}

/// A job takes up the next of the frames in its frame, or passes over it where it is gone.
proof fn lemma_descended(m: frame_delete::FrameDeletion, n: frame_delete::FrameDeletion, c: Context)
    requires
        m.holds(c),
        m.jobs@.len() > 0,
        m.jobs@.last().stage == frame_delete::DeletionStage::Inside,
        m.jobs@.last().next < m.jobs@.last().children@.len(),
        n.target == m.target,
        ({
            let job = m.jobs@.last();
            let child = job.children@[job.next as int];
            let rest = m.jobs@.update(
                m.jobs@.len() - 1,
                frame_delete::DeletionJob { next: (job.next + 1) as usize, ..job },
            );
            if c.frame(child) is Some {
                &&& n.jobs@.len() == m.jobs@.len() + 1
                &&& n.jobs@.drop_last() == rest
                &&& frame_delete::is_new_job(
                    n.jobs@.last(),
                    child,
                    frame_delete::DeleteFrameMode::Public { force_non_nil: false },
                )
            } else {
                n.jobs@ == rest
            }
        }),
    ensures
        n.holds(c),
{
    let last = m.jobs@.len() - 1;
    let job = m.jobs@[last];
    let child = job.children@[job.next as int];
    let moved = frame_delete::DeletionJob { next: (job.next + 1) as usize, ..job };
    lemma_has_frame(c, child);
    assert forall|k: int| 0 <= k <= last implies n.jobs@[k] == (if k == last {
        moved
    } else {
        m.jobs@[k]
    }) by {
        if c.frame(child) is Some {
            assert(n.jobs@.drop_last()[k] == n.jobs@[k]);
        }
    }
    assert forall|k: int| 0 <= k < n.jobs@.len() implies frame_delete::job_holds(
        c,
        #[trigger] n.jobs@[k],
        n.above(k),
    ) by {
        if k < last {
            assert(frame_delete::job_holds(c, m.jobs@[k], m.above(k)));
            assert(n.jobs@[k + 1].frame == m.jobs@[k + 1].frame);
        } else if k == last {
            assert(frame_delete::job_holds(c, job, m.above(last)));
            assert forall|i: int|
                0 <= i < c.frames@.len() && frame_delete::is_inside(
                    #[trigger] c.frames@[i],
                    moved.frame,
                ) implies frame_delete::still_due(moved, c.frames@[i].id) || n.above(k) == Some(
                c.frames@[i].id,
            ) by {
                let id = c.frames@[i].id;
                assert(frame_delete::still_due(job, id));
                let x = choose|x: int|
                    job.next <= x < job.children@.len() && #[trigger] job.children@[x] == id;
                if x > job.next {
                    assert(moved.children@[x] == id);
                } else {
                    assert(window_state::has_frame(c.frames@, child));
                    assert(n.jobs@[last + 1] == n.jobs@.last());
                }
            }
        } else {
            assert(n.jobs@[k] == n.jobs@.last());
        }
    }
    assert(n.jobs@[0].frame == m.jobs@[0].frame);
}

/// Every frame in a frame is listed.
proof fn lemma_children(v: Seq<Frame>, parent: u64)
    ensures
        forall|i: int|
            0 <= i < v.len() && frame_delete::is_inside(#[trigger] v[i], parent)
                ==> frame_delete::children_of(v, parent).contains(v[i].id),
    decreases v.len(),
{
    if v.len() > 0 {
        let w = v.drop_last();
        lemma_children(w, parent);
        let all = frame_delete::children_of(v, parent);
        let before = frame_delete::children_of(w, parent);
        assert forall|i: int|
            0 <= i < v.len() && frame_delete::is_inside(
                #[trigger] v[i],
                parent,
            ) implies all.contains(v[i].id) by {
            if i < w.len() {
                assert(w[i] == v[i]);
                let x = choose|x: int| 0 <= x < before.len() && before[x] == w[i].id;
                assert(all[x] == v[i].id);
            } else {
                assert(all[all.len() - 1] == v[i].id);
            }
        }
    }
}

/// So many steps from a frame to the frame that it is in lead to a frame.
pub open spec fn is_below(v: Seq<Frame>, id: u64, top: u64, steps: nat) -> bool
    decreases steps,
{
    if steps == 0 {
        id == top
    } else {
        exists|i: int|
            0 <= i < v.len() && (#[trigger] v[i]).id == id && v[i].parent is Some && is_below(
                v,
                v[i].parent->0,
                top,
                (steps - 1) as nat,
            )
    }
}

/// A frame is another one, or in it, however deep.
pub open spec fn is_in(v: Seq<Frame>, id: u64, top: u64) -> bool {
    exists|steps: nat| is_below(v, id, top, steps)
}

/// Once a frame was deleted, no frame is left that was in it, however deep: whatever was
/// done between, as long as frames were not moved and nothing is in a frame that is gone.
pub proof fn law_deletion_leaves_nothing_inside(a: Context, b: Context, top: u64, id: u64, steps: nat)
    requires
        a.wf(),
        b.wf(),
        frame_delete::thinned(a.frames@, b.frames@),
        b.frame(top) is None,
        is_below(a.frames@, id, top, steps),
    ensures
        b.frame(id) is None,
    decreases steps,
{
    if steps > 0 {
        let i = choose|i: int|
            0 <= i < a.frames@.len() && (#[trigger] a.frames@[i]).id == id
                && a.frames@[i].parent is Some && is_below(
                a.frames@,
                a.frames@[i].parent->0,
                top,
                (steps - 1) as nat,
            );
        let p = a.frames@[i].parent->0;
        law_deletion_leaves_nothing_inside(a, b, top, p, (steps - 1) as nat);
        lemma_has_frame(b, id);
        lemma_has_frame(b, p);
        if b.frame(id) is Some {
            let x = choose|x: int| 0 <= x < b.frames@.len() && (#[trigger] b.frames@[x]).id == id;
            assert(frame_delete::was_there(a.frames@, b.frames@[x]));
            let j = choose|j: int|
                0 <= j < a.frames@.len() && (#[trigger] a.frames@[j]).id == id
                    && a.frames@[j].parent == b.frames@[x].parent;
            let ids = window_state::frame_ids(a.frames@);
            assert(ids[i] == id && ids[j] == id);
            assert(i == j);
        }
    }
}

/// A step of a deletion: the deletion `m` became `n`, and the session `a` became `b`.
pub ghost struct DeletionStep {
    pub m: frame_delete::FrameDeletion,
    pub n: frame_delete::FrameDeletion,
    pub a: Context,
    pub b: Context,
    pub successor: Option<u64>,
    pub has_host: bool,
    pub action: frame_delete::DeletionAction,
}

impl DeletionStep {
    /// The outside did what it was asked, and left a well formed session.
    pub open spec fn is_taken(self) -> bool {
        &&& self.m.jobs@.len() > 0
        &&& self.a.wf()
        &&& frame_delete::succeeds(self.a, self.m.jobs@.last().frame, self.successor)
        &&& frame_delete::is_step(
            self.m,
            self.n,
            self.a,
            self.b,
            self.successor,
            self.has_host,
            self.action,
        )
    }
}

/// A step goes on where the one before it ended. Between the two the outside makes no frame
/// and moves none.
pub open spec fn goes_on(run: Seq<DeletionStep>, i: int) -> bool {
    run[i].m == run[i - 1].n && frame_delete::thinned(run[i - 1].b.frames@, run[i].a.frames@)
}

/// The outside takes no frame `id` before a step.
pub open spec fn spares(run: Seq<DeletionStep>, i: int, id: u64) -> bool {
    window_state::has_frame(run[i - 1].b.frames@, id) ==> window_state::has_frame(
        run[i].a.frames@,
        id,
    )
}

/// The steps of one deletion, from its start.
pub open spec fn is_deletion(run: Seq<DeletionStep>) -> bool {
    &&& run.len() > 0
    &&& run[0].m.jobs@.len() == 1
    &&& frame_delete::is_new_job(run[0].m.jobs@[0], run[0].m.target, run[0].m.jobs@[0].mode)
    &&& forall|i: int| 0 <= i < run.len() ==> (#[trigger] run[i]).is_taken()
    &&& forall|i: int| 0 < i < run.len() ==> #[trigger] goes_on(run, i)
}

proof fn lemma_deletion_before(run: Seq<DeletionStep>, k: int)
    requires
        is_deletion(run),
        0 <= k < run.len(),
    ensures
        run[k].is_taken(),
        run[k].m.holds(run[k].a),
        run[k].m.target == run[0].m.target,
        frame_delete::thinned(run[0].a.frames@, run[k].a.frames@),
    decreases k, 0int,
{
    let s = run[k];
    assert(s.is_taken());
    if k > 0 {
        assert(goes_on(run, k));
        lemma_deletion_under_way(run, k - 1);
        law_outside_work_keeps_deletion(s.m, run[k - 1].b, s.a);
        lemma_thinned_twice(run[0].a.frames@, run[k - 1].b.frames@, s.a.frames@);
    } else {
        lemma_thinned_itself(s.a.frames@);
    }
}

proof fn lemma_deletion_under_way(run: Seq<DeletionStep>, k: int)
    requires
        is_deletion(run),
        0 <= k < run.len(),
    ensures
        run[k].n.holds(run[k].b),
        run[k].n.target == run[0].m.target,
        run[k].b.wf(),
        frame_delete::thinned(run[0].a.frames@, run[k].b.frames@),
        run[k].action is Finish ==> run[k].b.frame(run[0].m.target) is None,
    decreases k, 1int,
{
    let s = run[k];
    lemma_deletion_before(run, k);
    law_deletion_step(s.m, s.n, s.a, s.b, s.successor, s.has_host, s.action);
    lemma_thinned_twice(run[0].a.frames@, s.a.frames@, s.b.frames@);
}

/// Once a deletion is finished, the frame is gone, and so is every frame that was in it
/// when it began, however deep.
pub proof fn law_deletion_takes_all_inside(run: Seq<DeletionStep>)
    requires
        is_deletion(run),
        run.last().action is Finish,
    ensures
        run.last().b.wf(),
        run.last().b.frame(run[0].m.target) is None,
        forall|id: u64| #[trigger]
            is_in(run[0].a.frames@, id, run[0].m.target) ==> run.last().b.frame(id) is None,
        frame_delete::thinned(run[0].a.frames@, run.last().b.frames@),
{
    lemma_deletion_under_way(run, run.len() - 1);
    assert(run[0].is_taken());
    assert forall|id: u64| #[trigger]
        is_in(run[0].a.frames@, id, run[0].m.target) implies run.last().b.frame(id) is None by {
        let steps = choose|steps: nat|
            is_below(run[0].a.frames@, id, run[0].m.target, steps);
        law_deletion_leaves_nothing_inside(
            run[0].a,
            run.last().b,
            run[0].m.target,
            id,
            steps,
        );
    }
}

/// A deletion has to do only with frames that were in the one that is deleted.
spec fn stays_inside(v: Seq<Frame>, m: frame_delete::FrameDeletion) -> bool {
    forall|k: int|
        0 <= k < m.jobs@.len() ==> is_in(v, (#[trigger] m.jobs@[k]).frame, m.target)
            && all_in(v, m.jobs@[k].children@, m.target)
}

spec fn all_in(v: Seq<Frame>, ids: Seq<u64>, top: u64) -> bool {
    forall|x: int| 0 <= x < ids.len() ==> is_in(v, #[trigger] ids[x], top)
}

/// The frames in a frame that is in another are in that one.
proof fn lemma_children_are_in(v: Seq<Frame>, w: Seq<Frame>, parent: u64, top: u64)
    requires
        frame_delete::thinned(v, w),
        is_in(v, parent, top),
    ensures
        all_in(v, frame_delete::children_of(w, parent), top),
    decreases w.len(),
{
    if w.len() > 0 {
        let rest = w.drop_last();
        assert forall|i: int| 0 <= i < rest.len() implies frame_delete::was_there(
            v,
            #[trigger] rest[i],
        ) by {
            assert(frame_delete::was_there(v, w[i]));
        }
        lemma_children_are_in(v, rest, parent, top);
        if w.last().parent == Some(parent) {
            assert(frame_delete::was_there(v, w[w.len() - 1]));
            let steps = choose|steps: nat| is_below(v, parent, top, steps);
            assert(is_below(v, w.last().id, top, steps + 1));
        }
    }
}

proof fn lemma_step_stays_inside(v: Seq<Frame>, s: DeletionStep)
    requires
        s.is_taken(),
        frame_delete::thinned(v, s.a.frames@),
        stays_inside(v, s.m),
    ensures
        stays_inside(v, s.n),
        s.n.target == s.m.target,
{
    let last = s.m.jobs@.len() - 1;
    let job = s.m.jobs@[last];
    assert(s.m.jobs@.last() == job);
    lemma_children_are_in(v, s.a.frames@, job.frame, s.m.target);
    if job.stage is Inside && job.next < job.children@.len() {
        assert(is_in(v, job.children@[job.next as int], s.m.target));
    }
    assert forall|k: int| 0 <= k < s.n.jobs@.len() implies is_in(
        v,
        (#[trigger] s.n.jobs@[k]).frame,
        s.n.target,
    ) && all_in(v, s.n.jobs@[k].children@, s.n.target) by {
        if k < s.n.jobs@.len() - 1 {
            assert(s.n.jobs@.drop_last()[k] == s.n.jobs@[k]);
        }
        if k < last {
            assert(s.n.jobs@[k] == s.m.jobs@[k]);
        } else if k == last {
            assert(s.n.jobs@[k].frame == job.frame);
        }
    }
}

/// A step takes no frame but the one whose deletion is under way.
proof fn lemma_step_takes_one(s: DeletionStep, id: u64)
    requires
        s.is_taken(),
        s.m.holds(s.a),
        window_state::has_frame(s.a.frames@, id),
        id != s.m.jobs@.last().frame,
    ensures
        window_state::has_frame(s.b.frames@, id),
{
    let last = s.m.jobs@.len() - 1;
    let job = s.m.jobs@[last];
    assert(s.m.jobs@.last() == job);
    assert(frame_delete::job_holds(s.a, job, s.m.above(last)));
    if job.stage is Hooks && s.b != s.a {
        let plan = job.stage->Hooks_0;
        let k = choose|k: Context| #[trigger]
            frame_delete::is_without(s.a, k, plan.frame, s.successor)
                && frame_delete::is_fallen_back(k, s.b, plan);
        lemma_frames_left(s.a.frames@, plan.frame);
        let i = choose|i: int| 0 <= i < s.a.frames@.len() && (#[trigger] s.a.frames@[i]).id == id;
        assert(k.frames@.contains(s.a.frames@[i]));
        assert(window_state::has_frame(k.frames@, id));
    }
}

proof fn lemma_deletion_so_far(run: Seq<DeletionStep>, k: int, id: u64)
    requires
        is_deletion(run),
        0 <= k < run.len(),
        window_state::has_frame(run[0].a.frames@, id),
        !is_in(run[0].a.frames@, id, run[0].m.target),
        forall|i: int| 0 < i < run.len() ==> #[trigger] spares(run, i, id),
    ensures
        window_state::has_frame(run[k].b.frames@, id),
        stays_inside(run[0].a.frames@, run[k].n),
    decreases k,
{
    let s = run[k];
    let v = run[0].a.frames@;
    lemma_deletion_before(run, k);
    if k > 0 {
        assert(goes_on(run, k) && spares(run, k, id));
        lemma_deletion_so_far(run, k - 1, id);
    } else {
        assert(is_below(v, s.m.target, s.m.target, 0));
    }
    lemma_step_stays_inside(v, s);
    let last = s.m.jobs@.len() - 1;
    assert(s.m.jobs@.last() == s.m.jobs@[last]);
    assert(is_in(v, s.m.jobs@[last].frame, s.m.target));
    lemma_step_takes_one(s, id);
}

/// A frame that was not in the one that is deleted stays, unless the outside takes it.
pub proof fn law_deletion_takes_only_inside(run: Seq<DeletionStep>, id: u64)
    requires
        is_deletion(run),
        window_state::has_frame(run[0].a.frames@, id),
        !is_in(run[0].a.frames@, id, run[0].m.target),
        forall|i: int| 0 < i < run.len() ==> #[trigger] spares(run, i, id),
    ensures
        window_state::has_frame(run.last().b.frames@, id),
{
    lemma_deletion_so_far(run, run.len() - 1, id);
}

/// The deletion of a frame that is gone finishes at once, and changes nothing.
pub proof fn law_deletion_of_nothing(
    m: frame_delete::FrameDeletion,
    n: frame_delete::FrameDeletion,
    a: Context,
    b: Context,
    successor: Option<u64>,
    has_host: bool,
    action: frame_delete::DeletionAction,
)
    requires
        m.jobs@.len() == 1,
        frame_delete::is_new_job(m.jobs@[0], m.target, m.jobs@[0].mode),
        a.frame(m.target) is None,
        frame_delete::is_step(m, n, a, b, successor, has_host, action),
    ensures
        action is Finish,
        b == a,
{
}

/// The frame that a session adopts at its start leaves it well formed.
pub proof fn law_adoption_keeps_wf(a: Context, b: Context, frame: u64)
    requires
        a.wf(),
        a.frame(frame) is Some,
        b == (Context {
            windows: b.windows,
            selected_frame: Some(frame),
            use_clock: b.use_clock,
            current_buffer: b.current_buffer,
            ..a
        }),
        b.windows@ == window_select::used_at(
            a.windows@,
            a.frame(frame)->0.selected_window,
            b.use_clock,
        ),
    ensures
        b.wf(),
{
    lemma_places(a);
    lemma_has_frame(a, frame);
    assert(same_windows(a.windows@, b.windows@));
    let m = Context { selected_frame: a.selected_frame, ..b };
    lemma_selections_kept(a, m);
    law_same_links_keep_wf(a, b);
}

/// In a well formed session the windows of a frame are listed once each.
pub proof fn law_windows_are_listed_once(c: Context, frame: u64)
    requires
        c.wf(),
    ensures
        window_lists::no_repeats(window_lists::ordinary_windows(c.windows@, frame)),
{
    lemma_listed_once(c.windows@, frame);
}

proof fn lemma_listed_once(v: Seq<Window>, frame: u64)
    requires
        window_state::window_ids(v).no_duplicates(),
    ensures
        window_lists::no_repeats(window_lists::ordinary_windows(v, frame)),
        forall|k: int|
            0 <= k < window_lists::ordinary_windows(v, frame).len() ==> window_state::window_ids(
                v,
            ).contains(#[trigger] window_lists::ordinary_windows(v, frame)[k]),
        forall|i: int|
            0 <= i < v.len() && (#[trigger] v[i]).frame == frame && v[i].leaf && !v[i].mini
                ==> window_lists::ordinary_windows(v, frame).contains(v[i].id),
    decreases v.len(),
{
    if v.len() > 0 {
        let w = v.drop_last();
        let ids = window_state::window_ids(v);
        let wids = window_state::window_ids(w);
        assert forall|i: int| 0 <= i < w.len() implies wids[i] == ids[i] by {}
        lemma_listed_once(w, frame);
        let all = window_lists::ordinary_windows(v, frame);
        let before = window_lists::ordinary_windows(w, frame);
        assert(ids[v.len() - 1] == v.last().id);
        assert forall|k: int| 0 <= k < before.len() implies before[k] != v.last().id
            && ids.contains(before[k]) by {
            let x = choose|x: int| 0 <= x < wids.len() && wids[x] == before[k];
            assert(ids[x] == before[k]);
        }
        assert forall|i: int|
            0 <= i < v.len() && (#[trigger] v[i]).frame == frame && v[i].leaf
                && !v[i].mini implies all.contains(v[i].id) by {
            if i < w.len() {
                assert(w[i] == v[i]);
                let x = choose|x: int| 0 <= x < before.len() && before[x] == w[i].id;
                assert(all[x] == v[i].id);
            } else {
                assert(all[all.len() - 1] == v[i].id);
            }
        }
    }
}

/// From a live window that is no minibuffer, `next-window` and `previous-window` undo each
/// other, and as many steps as its frame has windows visit each of them once and lead back.
pub proof fn law_next_window_leads_round(c: Context, frame: u64, w: u64)
    requires
        c.wf(),
        c.live_frame(w) == Some(frame),
        !c.window(w)->0.mini,
    ensures
        ({
            let list = window_lists::ordinary_windows(c.windows@, frame);
            &&& list.contains(w)
            &&& window_lists::previous_in(list, window_lists::next_in(list, w)) == w
            &&& window_lists::next_in(list, window_lists::previous_in(list, w)) == w
            &&& window_lists::steps_from(list, w, list.len()) == w
            &&& forall|x: u64|
                list.contains(x) ==> exists|n: nat|
                    n < list.len() && #[trigger] window_lists::steps_from(list, w, n) == x
            &&& forall|n: nat, m: nat|
                n < m < list.len() ==> #[trigger] window_lists::steps_from(list, w, n)
                    != #[trigger] window_lists::steps_from(list, w, m)
        }),
{
    lemma_listed_once(c.windows@, frame);
    lemma_places(c);
    let list = window_lists::ordinary_windows(c.windows@, frame);
    let i = window_state::window_place(c.windows@, w)->0;
    assert(c.windows@[i].id == w);
    assert(list.contains(w));
    window_lists::law_next_and_previous(list, w);
    window_lists::law_steps_visit_each_window_once(list, w);
}

} // verus!
