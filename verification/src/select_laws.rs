//! What selecting a window is for: it is the one that commands act on, with its buffer and
//! its point, and the one that was left keeps its place.
use vstd::prelude::*;

use crate::lisp;
use crate::lisp::{Condition, Datum, Signal, Value};
use crate::window_select;
use crate::window_select::Selected;
use crate::window_state;
use crate::window_state::{Buffer, Context, Frame, Window};

verus! {

/// The nearest position to another within the text of a buffer.
pub open spec fn is_nearest(b: Buffer, pos: i64, r: i64) -> bool {
    &&& pos < 1 ==> r == 1
    &&& 1 <= pos && (b.length < 0 ==> pos == 1) && (b.length >= 0 ==> pos <= b.length + 1) ==> r
        == pos
    &&& pos > 1 && b.length >= 0 && pos > b.length + 1 ==> r == b.length + 1
}

spec fn window_in(v: Seq<Window>, id: u64) -> Option<Window> {
    match window_state::window_place(v, id) {
        Some(i) => Some(v[i]),
        None => None,
    }
}

proof fn lemma_window_update(a: Seq<Window>, b: Seq<Window>, i: int, id: u64)
    requires
        window_state::window_place(a, id) == Some(i),
        b.len() == a.len(),
        b == a.update(i, b[i]),
        b[i].id == a[i].id,
    ensures
        0 <= i < a.len(),
        a[i].id == id,
        window_in(b, id) == Some(b[i]),
        forall|x: u64| x != id ==> #[trigger] window_in(b, x) == window_in(a, x),
{
    let (p, q) = (window_state::window_ids(a), window_state::window_ids(b));
    window_state::lemma_index_in(p, id);
    assert(p =~= q);
    assert forall|x: u64| x != id implies #[trigger] window_in(b, x) == window_in(a, x) by {
        window_state::lemma_index_in(p, x);
    }
}

/// One window of two states differs.
pub proof fn lemma_one_window(a: Context, b: Context, i: int, id: u64)
    requires
        window_state::window_place(a.windows@, id) == Some(i),
        b.windows@.len() == a.windows@.len(),
        b.windows@ == a.windows@.update(i, b.windows@[i]),
        b.windows@[i].id == a.windows@[i].id,
    ensures
        0 <= i < a.windows@.len(),
        a.windows@[i].id == id,
        b.window(id) == Some(b.windows@[i]),
        forall|x: u64| x != id ==> #[trigger] b.window(x) == a.window(x),
{
    lemma_window_update(a.windows@, b.windows@, i, id);
    assert forall|x: u64| x != id implies #[trigger] b.window(x) == a.window(x) by {
        assert(window_in(b.windows@, x) == window_in(a.windows@, x));
    }
    assert(window_in(b.windows@, id) == b.window(id));
}

/// One buffer of two states differs.
pub proof fn lemma_one_buffer(a: Context, b: Context, i: int, id: u64)
    requires
        window_state::buffer_place(a.buffers@, id) == Some(i),
        b.buffers@.len() == a.buffers@.len(),
        b.buffers@ == a.buffers@.update(i, b.buffers@[i]),
        b.buffers@[i].id == a.buffers@[i].id,
    ensures
        0 <= i < a.buffers@.len(),
        a.buffers@[i].id == id,
        b.buffer(id) == Some(b.buffers@[i]),
        forall|x: u64| x != id ==> #[trigger] b.buffer(x) == a.buffer(x),
{
    let (p, q) = (window_state::buffer_ids(a.buffers@), window_state::buffer_ids(b.buffers@));
    window_state::lemma_index_in(p, id);
    assert(p =~= q);
    assert forall|x: u64| x != id implies #[trigger] b.buffer(x) == a.buffer(x) by {
        window_state::lemma_index_in(p, x);
    }
}

/// One frame of two states differs.
pub proof fn lemma_one_frame(a: Context, b: Context, i: int, id: u64)
    requires
        window_state::frame_place(a.frames@, id) == Some(i),
        b.frames@.len() == a.frames@.len(),
        b.frames@ == a.frames@.update(i, b.frames@[i]),
        b.frames@[i].id == a.frames@[i].id,
    ensures
        0 <= i < a.frames@.len(),
        a.frames@[i].id == id,
        b.frame(id) == Some(b.frames@[i]),
        forall|x: u64| x != id ==> #[trigger] b.frame(x) == a.frame(x),
{
    let (p, q) = (window_state::frame_ids(a.frames@), window_state::frame_ids(b.frames@));
    window_state::lemma_index_in(p, id);
    assert(p =~= q);
    assert forall|x: u64| x != id implies #[trigger] b.frame(x) == a.frame(x) by {
        window_state::lemma_index_in(p, x);
    }
}

/// What `remember_selected_window_point` is for: the selected window of a frame keeps the
/// point of its buffer, and nothing else changes.
pub proof fn law_point_is_remembered(c: &mut Context, frame: u64)
    requires
        call_ensures(window_select::remember_selected_window_point, (c, frame), ()),
    ensures
        final(c).frames == old(c).frames,
        final(c).buffers == old(c).buffers,
        final(c).selected_frame == old(c).selected_frame,
        old(c).frame(frame) matches Some(f) ==> (old(c).window(f.selected_window) matches Some(w)
            ==> (w.leaf ==> (old(c).buffer(w.buffer) matches Some(b) ==> final(c).window(
            f.selected_window,
        ) == Some(Window { point: b.point, ..w })))),
        old(c).frame(frame) matches Some(f) ==> forall|x: u64|
            x != f.selected_window ==> #[trigger] final(c).window(x) == old(c).window(x),
        old(c).frame(frame) is None ==> final(c).windows@ == old(c).windows@,
{
    let v = final(c).windows@;
    lemma_remembered(*old(c), v, frame);
    if old(c).frame(frame) is Some {
        let left = old(c).frame(frame)->0.selected_window;
        assert forall|x: u64| x != left implies #[trigger] final(c).window(x) == old(c).window(
            x,
        ) by {
            assert(window_in(v, x) == final(c).window(x));
        }
        assert(window_in(v, left) == final(c).window(left));
    }
}

proof fn lemma_remembered(a: Context, v: Seq<Window>, frame: u64)
    requires
        v == window_select::remembered(a, frame),
    ensures
        a.frame(frame) matches Some(f) ==> (a.window(f.selected_window) matches Some(w) ==> (w.leaf
            ==> (a.buffer(w.buffer) matches Some(u) ==> window_in(v, f.selected_window) == Some(
            Window { point: u.point, ..w },
        )))),
        a.frame(frame) matches Some(f) ==> forall|x: u64|
            x != f.selected_window ==> #[trigger] window_in(v, x) == a.window(x),
        forall|x: u64| (#[trigger] window_in(v, x)) is Some <==> a.window(x) is Some,
        forall|x: u64|
            (#[trigger] window_in(v, x)) is Some ==> window_in(v, x) == Some(
                Window { point: window_in(v, x)->0.point, ..a.window(x)->0 },
            ),
{
    assert forall|x: u64| #[trigger] window_in(a.windows@, x) == a.window(x) by {}
    if a.frame(frame) is Some {
        let id = a.frame(frame)->0.selected_window;
        if window_state::window_place(a.windows@, id) is Some {
            let i = window_state::window_place(a.windows@, id)->0;
            window_state::lemma_index_in(window_state::window_ids(a.windows@), id);
            if v == a.windows@ {
                assert(v =~= a.windows@.update(i, v[i]));
            }
            lemma_window_update(a.windows@, v, i, id);
            assert forall|x: u64| (#[trigger] window_in(v, x)) is Some <==> a.window(x) is Some by {
                if x != id {
                    assert(window_in(v, x) == window_in(a.windows@, x));
                }
            }
            assert forall|x: u64| (#[trigger] window_in(v, x)) is Some implies window_in(v, x)
                == Some(Window { point: window_in(v, x)->0.point, ..a.window(x)->0 }) by {
                if x != id {
                    assert(window_in(v, x) == window_in(a.windows@, x));
                }
            }
        }
        assert forall|x: u64| x != id implies #[trigger] window_in(v, x) == a.window(x) by {
            assert(window_in(v, x) == window_in(a.windows@, x));
        }
    }
}

/// What is on a list besides one.
pub open spec fn others(s: Seq<u64>, x: u64) -> Seq<u64> {
    s.filter(|y: u64| y != x)
}

/// The frame that lists a buffer first, and nowhere else; the rest keeps its order.
pub open spec fn lists_first(f: Frame, before: Frame, buffer: u64) -> bool {
    &&& f.buffer_list@.len() > 0 && f.buffer_list@[0] == buffer
    &&& forall|i: int| 0 < i < f.buffer_list@.len() ==> #[trigger] f.buffer_list@[i] != buffer
    &&& f.buffer_list@.subrange(1, f.buffer_list@.len() as int) == others(
        before.buffer_list@,
        buffer,
    )
    &&& f.buried_buffer_list@ == others(before.buried_buffer_list@, buffer)
}

proof fn lemma_without(s: Seq<u64>, x: u64)
    ensures
        window_select::without(s, x) == others(s, x),
        forall|i: int|
            0 <= i < window_select::without(s, x).len() ==> #[trigger] window_select::without(
                s,
                x,
            )[i] != x,
    decreases s.len(),
{
    reveal(Seq::filter);
    if s.len() > 0 {
        lemma_without(s.drop_last(), x);
    }
}

/// A buffer that is recorded on a frame is first on its list and on no other place of it,
/// nor on the list of the buried ones.
pub proof fn law_recorded_buffer_comes_first(c: &mut Context, buffer: u64, frame: u64)
    requires
        call_ensures(window_select::record_buffer, (c, buffer, frame), ()),
    ensures
        old(c).frame(frame) is Some ==> final(c).frame(frame) is Some && lists_first(
            final(c).frame(frame)->0,
            old(c).frame(frame)->0,
            buffer,
        ),
        forall|x: u64| x != frame ==> #[trigger] final(c).frame(x) == old(c).frame(x),
        final(c).windows == old(c).windows && final(c).buffers == old(c).buffers,
{
    lemma_recorded(*old(c), *final(c), buffer, frame);
}

proof fn lemma_recorded(a: Context, b: Context, buffer: u64, frame: u64)
    requires
        window_select::is_recorded_on(a, b, buffer, frame),
    ensures
        a.frame(frame) is Some ==> b.frame(frame) is Some && lists_first(
            b.frame(frame)->0,
            a.frame(frame)->0,
            buffer,
        ) && b.frame(frame)->0 == (Frame {
            buffer_list: b.frame(frame)->0.buffer_list,
            buried_buffer_list: b.frame(frame)->0.buried_buffer_list,
            ..a.frame(frame)->0
        }),
        forall|x: u64| x != frame ==> #[trigger] b.frame(x) == a.frame(x),
        b == (Context { frames: b.frames, ..a }),
{
    if window_state::frame_place(a.frames@, frame) is Some {
        let i = window_state::frame_place(a.frames@, frame)->0;
        lemma_one_frame(a, b, i, frame);
        let (f, g) = (b.frames@[i], a.frames@[i]);
        lemma_without(g.buffer_list@, buffer);
        lemma_without(g.buried_buffer_list@, buffer);
        let rest = window_select::without(g.buffer_list@, buffer);
        assert(f.buffer_list@.subrange(1, f.buffer_list@.len() as int) =~= rest);
        assert forall|k: int| 0 < k < f.buffer_list@.len() implies #[trigger] f.buffer_list@[k]
            != buffer by {
            assert(f.buffer_list@[k] == rest[k - 1]);
        }
    }
}

/// `(select-window WINDOW NORECORD)` of a live window of a live frame: it is the selected
/// window of the selected frame, its buffer is current with point where the window has it,
/// and the window that was selected keeps the point that its buffer had. Unless it is told
/// not to, the window's use is noted as the last, and its buffer comes first in the frame's
/// list. No other window, frame or buffer changes.
#[verifier::rlimit(40)]
pub proof fn law_selected_window(
    c: &mut Context,
    window: &Value,
    norecord: Option<&Value>,
    r: Result<Selected, Signal>,
    w: u64,
)
    requires
        call_ensures(window_select::builtin_select_window, (c, window, norecord), r),
        window@ == Datum::Window(w),
        old(c).selected() is Some,
        old(c).window(w) is Some && old(c).window(w)->0.leaf,
        old(c).frame(old(c).window(w)->0.frame) is Some,
        old(c).buffer(old(c).window(w)->0.buffer) is Some,
    ensures
        ({
            let (a, b) = (*old(c), *final(c));
            let (win, left) = (a.window(w)->0, a.selected()->0.selected_window);
            let record = norecord is None || norecord->0@ is Nil;
            let shown = b.window(w)->0;
            &&& r is Ok
            &&& r->Ok_0.window == w
            &&& r->Ok_0.frame_changed == (a.selected_frame != Some(win.frame))
            &&& r->Ok_0.run_buffer_list_hook == (record && !b.buffer(win.buffer)->0.inhibit_hooks)
            &&& b.selected_frame == Some(win.frame)
            &&& b.frame(win.frame) is Some && b.frame(win.frame)->0.selected_window == w
            &&& b.current_buffer == Some(win.buffer)
            &&& b.buffer(win.buffer) is Some && b.buffer(win.buffer)->0.last_selected_window
                == Some(w)
            &&& is_nearest(a.buffer(win.buffer)->0, shown.point, b.buffer(win.buffer)->0.point)
            &&& w != left ==> shown.point == win.point
            &&& a.window(left) is Some && a.window(left)->0.leaf && a.buffer(
                a.window(left)->0.buffer,
            ) is Some ==> b.window(left) is Some && b.window(left)->0.point == a.buffer(
                a.window(left)->0.buffer,
            )->0.point
            &&& record && a.use_clock < i64::MAX ==> b.use_clock == a.use_clock + 1
                && shown.use_time == b.use_clock
            &&& record ==> lists_first(
                b.frame(win.frame)->0,
                a.frame(win.frame)->0,
                win.buffer,
            )
            &&& !record ==> b.use_clock == a.use_clock && shown.use_time == win.use_time
                && b.frame(win.frame)->0.buffer_list@ == a.frame(win.frame)->0.buffer_list@
            &&& forall|x: u64| x != w && x != left ==> #[trigger] b.window(x) == a.window(x)
            &&& forall|x: u64| x != win.frame ==> #[trigger] b.frame(x) == a.frame(x)
            &&& forall|x: u64| x != win.buffer ==> #[trigger] b.buffer(x) == a.buffer(x)
        }),
{
    let (a, b) = (*old(c), *final(c));
    let win = a.window(w)->0;
    let (f, left) = (win.frame, a.selected()->0.selected_window);
    let record = lisp::given(norecord) is Nil;
    assert(window_select::is_selection(r->Ok_0, a, b, f, w, record));
    let (p, q, n) = choose|p: Context, q: Context, n: Context| #[trigger]
        window_select::selection_steps(a, p, q, n, f, w, record) && if record
            && window_select::selected_leaf(n, f) is Some {
            window_select::is_recorded_on(n, b, window_select::selected_leaf(n, f)->0.buffer, f)
        } else {
            b == n
        } && r->Ok_0 == (Selected {
            window: w,
            frame_changed: a.selected_frame != Some(f),
            run_buffer_list_hook: window_select::hook_is_due(b, f, record),
        });
    // The frame points at the window.
    let fi = window_state::frame_place(a.frames@, f)->0;
    window_state::lemma_index_in(window_state::frame_ids(a.frames@), f);
    lemma_one_frame(a, p, fi, f);
    // The window that is left keeps its point.
    lemma_remembered_windows(a, p, a.selected_frame->0, w, record);
    // The buffer follows.
    let bi = window_state::buffer_place(a.buffers@, win.buffer)->0;
    window_state::lemma_index_in(window_state::buffer_ids(a.buffers@), win.buffer);
    assert(window_select::selected_leaf(p, f) == p.window(w));
    window_state::lemma_index_in(window_state::window_ids(p.windows@), w);
    lemma_one_buffer(p, q, bi, win.buffer);
    assert(q.frame(f) == p.frame(f) && q.window(w) == p.window(w));
    assert(window_select::selected_leaf(q, f) == q.window(w));
    assert(window_state::buffer_place(q.buffers@, win.buffer) == Some(bi)) by {
        assert(window_state::buffer_ids(q.buffers@) =~= window_state::buffer_ids(p.buffers@));
    }
    lemma_one_buffer(q, n, bi, win.buffer);
    assert(n.frame(f) == p.frame(f) && n.window(w) == p.window(w));
    if record {
        lemma_recorded(n, b, win.buffer, f);
    }
    assert(b.window(w) == p.window(w));
    assert(b.frame(f)->0.selected_window == w);
    assert(window_select::selected_leaf(b, f) == b.window(w));
    assert forall|x: u64| x != f implies #[trigger] b.frame(x) == a.frame(x) by {
        assert(n.frame(x) == p.frame(x));
        assert(p.frame(x) == a.frame(x));
    }
    assert forall|x: u64| x != win.buffer implies #[trigger] b.buffer(x) == a.buffer(x) by {
        assert(n.buffer(x) == q.buffer(x));
        assert(q.buffer(x) == p.buffer(x));
        assert(p.buffer(x) == a.buffer(x));
    }
    assert forall|x: u64| x != w && x != left implies #[trigger] b.window(x) == a.window(x) by {
        assert(b.window(x) == p.window(x));
    }
}

proof fn lemma_remembered_windows(a: Context, p: Context, frame: u64, w: u64, record: bool)
    requires
        a.frame(frame) is Some,
        p.windows@ == if record {
            window_select::used_at(
                window_select::remembered(a, frame),
                w,
                window_select::ticked(a.use_clock),
            )
        } else {
            window_select::remembered(a, frame)
        },
    ensures
        ({
            let left = a.frame(frame)->0.selected_window;
            &&& forall|x: u64| x != w && x != left ==> #[trigger] p.window(x) == a.window(x)
            &&& a.window(w) is Some ==> p.window(w) is Some && p.window(w) == Some(
                Window {
                    point: p.window(w)->0.point,
                    use_time: p.window(w)->0.use_time,
                    ..a.window(w)->0
                },
            )
            &&& a.window(w) is Some && w != left ==> p.window(w)->0.point == a.window(w)->0.point
            &&& a.window(w) is Some && record ==> p.window(w)->0.use_time == window_select::ticked(
                a.use_clock,
            )
            &&& a.window(w) is Some && !record ==> p.window(w)->0.use_time
                == a.window(w)->0.use_time
            &&& a.window(left) is Some && a.window(left)->0.leaf && a.buffer(
                a.window(left)->0.buffer,
            ) is Some ==> p.window(left) is Some && p.window(left)->0.point == a.buffer(
                a.window(left)->0.buffer,
            )->0.point
        }),
{
    let left = a.frame(frame)->0.selected_window;
    let v = window_select::remembered(a, frame);
    lemma_remembered(a, v, frame);
    assert(window_in(v, w) is Some <==> a.window(w) is Some);
    assert(window_in(v, left) is Some <==> a.window(left) is Some);
    assert forall|x: u64| #[trigger] window_in(p.windows@, x) == p.window(x) by {}
    if record && window_state::window_place(v, w) is Some {
        let i = window_state::window_place(v, w)->0;
        window_state::lemma_index_in(window_state::window_ids(v), w);
        lemma_window_update(v, p.windows@, i, w);
    }
    assert(p.window(w) == window_in(p.windows@, w));
    assert(p.window(left) == window_in(p.windows@, left));
    assert forall|x: u64| x != w && x != left implies #[trigger] p.window(x) == a.window(x) by {
        assert(p.window(x) == window_in(p.windows@, x));
        assert(window_in(p.windows@, x) == window_in(v, x));
    }
}

/// `(set-frame-selected-window FRAME WINDOW NORECORD)` on a frame that is not selected: the
/// window is the one that is selected there, and nothing else changes. A window of another
/// frame is refused.
pub proof fn law_window_of_another_frame(
    c: &mut Context,
    frame: &Value,
    window: &Value,
    norecord: Option<&Value>,
    r: Result<Option<Selected>, Signal>,
    f: u64,
    w: u64,
)
    requires
        call_ensures(
            window_select::builtin_set_frame_selected_window,
            (c, frame, window, norecord),
            r,
        ),
        frame@ == Datum::Frame(f),
        window@ == Datum::Window(w),
        old(c).selected() is Some,
        old(c).selected_frame != Some(f),
        old(c).frame(f) is Some,
        old(c).window(w) is Some && old(c).window(w)->0.leaf,
    ensures
        ({
            let (a, b) = (*old(c), *final(c));
            if a.window(w)->0.frame == f {
                &&& r is Ok && r->Ok_0 is None
                &&& b.frame(f) == Some(
                    Frame { selected_window: w, ..a.frame(f)->0 },
                )
                &&& forall|x: u64| x != f ==> #[trigger] b.frame(x) == a.frame(x)
                &&& b.windows == a.windows && b.buffers == a.buffers
                &&& b.selected_frame == a.selected_frame && b.current_buffer == a.current_buffer
            } else {
                b == a && r is Err && r->Err_0.condition == Condition::Error
            }
        }),
{
    let (a, b) = (*old(c), *final(c));
    if a.window(w)->0.frame == f {
        let i = window_state::frame_place(a.frames@, f)->0;
        window_state::lemma_index_in(window_state::frame_ids(a.frames@), f);
        lemma_one_frame(a, b, i, f);
    }
}

/// Selecting a window that is no live window is refused, and changes nothing.
pub proof fn law_only_live_windows_are_selected(
    c: &mut Context,
    window: &Value,
    norecord: Option<&Value>,
    r: Result<Selected, Signal>,
)
    requires
        call_ensures(window_select::builtin_select_window, (c, window, norecord), r),
        match window@ {
            Datum::Window(w) => old(c).window(w) is None || !old(c).window(w)->0.leaf,
            Datum::Fixnum(n) => n < 0,
            _ => true,
        },
    ensures
        *final(c) == *old(c),
        r is Err,
        r->Err_0.condition == Condition::WrongTypeArgument,
        lisp::data(r->Err_0.data@) == seq![Datum::Symbol("window-live-p"@), window@],
{
}

} // verus!
