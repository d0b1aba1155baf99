//! Which window is selected, and what selecting one changes.
use vstd::prelude::*;

use crate::lisp;
use crate::lisp::{Datum, Signal, Value};
use crate::window_buffers;
use crate::window_state;
use crate::window_state::{Buffer, Context, Frame, Window};

verus! {

/// The windows once the selected one of a frame has taken over its buffer's point.
pub open spec fn remembered(c: Context, frame: u64) -> Seq<Window> {
    match c.frame(frame) {
        None => c.windows@,
        Some(f) => match window_state::window_place(c.windows@, f.selected_window) {
            None => c.windows@,
            Some(i) => {
                let w = c.windows@[i];
                match c.buffer(w.buffer) {
                    Some(b) => if w.leaf {
                        c.windows@.update(i, Window { point: b.point, ..w })
                    } else {
                        c.windows@
                    },
                    None => c.windows@,
                }
            },
        },
    }
}

/// Lets the selected window of a frame take over its buffer's point.
pub fn remember_selected_window_point(c: &mut Context, frame: u64)
    ensures
        *final(c) == (Context { windows: final(c).windows, ..*old(c) }),
        final(c).windows@ == remembered(*old(c), frame),
{
    let selected: u64 = match c.get_frame(frame) {
        Some(f) => f.selected_window,
        None => {
            return;
        },
    };
    match window_state::find_window(&c.windows, selected) {
        Some(i) => {
            if c.windows[i].leaf {
                let point: Option<i64> = match c.get_buffer(c.windows[i].buffer) {
                    Some(b) => Some(b.point),
                    None => None,
                };
                match point {
                    Some(p) => {
                        c.windows[i].point = p;
                        proof {
                            assert(c.windows@ =~= remembered(*old(c), frame));
                        }
                    },
                    None => {},
                }
            }
        },
        None => {},
    }
}

/// The selected window of a frame, if it shows a buffer.
pub open spec fn selected_leaf(c: Context, frame: u64) -> Option<Window> {
    match c.frame(frame) {
        Some(f) => match c.window(f.selected_window) {
            Some(w) => if w.leaf {
                Some(w)
            } else {
                None
            },
            None => None,
        },
        None => None,
    }
}

/// The window and the buffer of a frame's selection.
pub fn selected_window_buffer_state_in_frame(c: &Context, frame: u64) -> (r: Option<(u64, u64)>)
    ensures
        match selected_leaf(*c, frame) {
            Some(w) => r == Some((w.id, w.buffer)),
            None => r is None,
        },
{
    let f: &Frame = match c.get_frame(frame) {
        Some(f) => f,
        None => {
            return None;
        },
    };
    match c.get_window(f.selected_window) {
        Some(w) => if w.leaf {
            Some((w.id, w.buffer))
        } else {
            None
        },
        None => None,
    }
}

/// The session once the current buffer is the one that a frame's selected window shows,
/// with point where the window has it.
pub open spec fn is_synced(a: Context, b: Context, frame: u64) -> bool {
    match selected_leaf(a, frame) {
        None => b == a,
        Some(w) => match window_state::buffer_place(a.buffers@, w.buffer) {
            None => b == a,
            Some(i) => {
                let buf = a.buffers@[i];
                &&& b == (Context {
                    buffers: b.buffers,
                    current_buffer: Some(w.buffer),
                    ..a
                })
                &&& b.buffers@ == a.buffers@.update(
                    i,
                    Buffer { point: window_buffers::in_text(buf, w.point), ..buf },
                )
            },
        },
    }
}

/// Makes the buffer that a frame's selected window shows the current one.
pub fn sync_selected_window_buffer(c: &mut Context, frame: u64)
    ensures
        is_synced(*old(c), *final(c), frame),
{
    let (w, buffer): (u64, u64) = match selected_window_buffer_state_in_frame(c, frame) {
        Some(p) => p,
        None => {
            return;
        },
    };
    let selected: u64 = match c.get_frame(frame) {
        Some(f) => f.selected_window,
        None => {
            return;
        },
    };
    let point: i64 = match c.get_window(selected) {
        Some(win) => win.point,
        None => {
            return;
        },
    };
    match window_state::find_buffer(&c.buffers, buffer) {
        Some(i) => {
            let place: i64 = window_buffers::nearest_in_text(c.buffers[i].length, point);
            c.current_buffer = Some(buffer);
            c.buffers[i].point = place;
            proof {
                let buf = old(c).buffers@[i as int];
                assert(c.buffers@ =~= old(c).buffers@.update(
                    i as int,
                    Buffer { point: window_buffers::in_text(buf, point), ..buf },
                ));
            }
        },
        None => {},
    }
}

/// Numbers without one of them.
pub open spec fn without(s: Seq<u64>, x: u64) -> Seq<u64>
    decreases s.len(),
{
    if s.len() == 0 {
        Seq::empty()
    } else if s.last() == x {
        without(s.drop_last(), x)
    } else {
        without(s.drop_last(), x).push(s.last())
    }
}

/// A number that is taken out is gone, and the others stay.
pub proof fn law_without(s: Seq<u64>, x: u64)
    ensures
        !without(s, x).contains(x),
        forall|y: u64| y != x ==> (#[trigger] without(s, x).contains(y) <==> s.contains(y)),
    decreases s.len(),
{
    if s.len() > 0 {
        law_without(s.drop_last(), x);
        let w = without(s.drop_last(), x);
        assert forall|y: u64| y != x implies (#[trigger] without(s, x).contains(y) <==> s.contains(
            y,
        )) by {
            if s.contains(y) {
                let k = s.index_of(y);
                if k < s.len() - 1 {
                    assert(s.drop_last()[k] == y);
                    assert(s.drop_last().contains(y));
                    assert(w.contains(y));
                    let m = w.index_of(y);
                    assert(without(s, x)[m] == y);
                } else {
                    assert(without(s, x).last() == y);
                }
            }
            if without(s, x).contains(y) {
                let k = without(s, x).index_of(y);
                if s.last() != x && k == w.len() {
                    assert(s[s.len() - 1] == y);
                } else {
                    assert(w[k] == y);
                    assert(w.contains(y));
                    let m = s.drop_last().index_of(y);
                    assert(s[m] == y);
                }
            }
        }
    }
}

fn remove_all(v: &Vec<u64>, x: u64) -> (r: Vec<u64>)
    ensures
        r@ == without(v@, x),
{
    let mut out: Vec<u64> = Vec::new();
    let mut i: usize = 0;
    proof {
        assert(v@.subrange(0, 0) =~= Seq::empty());
    }
    while i < v.len()
        invariant
            i <= v.len(),
            out@ == without(v@.subrange(0, i as int), x),
        decreases v.len() - i,
    {
        proof {
            assert(v@.subrange(0, i + 1).drop_last() =~= v@.subrange(0, i as int));
        }
        if v[i] != x {
            out.push(v[i]);
        }
        i += 1;
    }
    proof {
        assert(v@.subrange(0, v.len() as int) =~= v@);
    }
    out
}

/// A frame that has put a buffer first among those that it showed, and that no longer
/// counts it among the buried ones.
pub open spec fn has_recorded(new: Frame, f: Frame, buffer: u64) -> bool {
    &&& new == (Frame {
        buffer_list: new.buffer_list,
        buried_buffer_list: new.buried_buffer_list,
        ..f
    })
    &&& new.buffer_list@ == seq![buffer] + without(f.buffer_list@, buffer)
    &&& new.buried_buffer_list@ == without(f.buried_buffer_list@, buffer)
}

/// The session after a frame recorded a buffer.
pub open spec fn is_recorded_on(a: Context, b: Context, buffer: u64, frame: u64) -> bool {
    match window_state::frame_place(a.frames@, frame) {
        None => b == a,
        Some(i) => {
            &&& b == (Context { frames: b.frames, ..a })
            &&& b.frames@.len() == a.frames@.len()
            &&& b.frames@ == a.frames@.update(i, b.frames@[i])
            &&& has_recorded(b.frames@[i], a.frames@[i], buffer)
        },
    }
}

/// Puts a buffer first among those that a frame showed.
pub fn record_buffer(c: &mut Context, buffer: u64, frame: u64)
    ensures
        is_recorded_on(*old(c), *final(c), buffer, frame),
{
    match window_state::find_frame(&c.frames, frame) {
        Some(i) => {
            let mut shown: Vec<u64> = remove_all(&c.frames[i].buffer_list, buffer);
            let ghost rest = shown@;
            shown.insert(0, buffer);
            proof {
                assert(shown@ =~= seq![buffer] + rest);
            }
            let buried: Vec<u64> = remove_all(&c.frames[i].buried_buffer_list, buffer);
            c.frames[i].buffer_list = shown;
            c.frames[i].buried_buffer_list = buried;
            proof {
                assert(c.frames@ =~= old(c).frames@.update(i as int, c.frames@[i as int]));
            }
        },
        None => {},
    }
}

/// A recorded buffer is the first of its frame's list, stands in it once, and is not
/// buried.
pub proof fn law_recorded_buffer_is_first(new: Frame, f: Frame, buffer: u64)
    requires
        has_recorded(new, f, buffer),
    ensures
        new.buffer_list@[0] == buffer,
        forall|i: int| 0 < i < new.buffer_list@.len() ==> new.buffer_list@[i] != buffer,
        !new.buried_buffer_list@.contains(buffer),
{
    law_without(f.buffer_list@, buffer);
    law_without(f.buried_buffer_list@, buffer);
    let rest = without(f.buffer_list@, buffer);
    assert forall|i: int| 0 < i < new.buffer_list@.len() implies new.buffer_list@[i] != buffer by {
        assert(new.buffer_list@[i] == rest[i - 1]);
        assert(rest.contains(rest[i - 1]));
    }
}

/// The tick after this one.
pub open spec fn ticked(t: i64) -> i64 {
    if t < i64::MAX {
        (t + 1) as i64
    } else {
        t
    }
}

/// The windows once one of them was used at a time.
pub open spec fn used_at(v: Seq<Window>, w: u64, time: i64) -> Seq<Window> {
    match window_state::window_place(v, w) {
        Some(i) => v.update(i, Window { use_time: time, ..v[i] }),
        None => v,
    }
}

pub fn note_window_selected(c: &mut Context, w: u64)
    ensures
        *final(c) == (Context {
            windows: final(c).windows,
            use_clock: ticked(old(c).use_clock),
            ..*old(c)
        }),
        final(c).windows@ == used_at(old(c).windows@, w, ticked(old(c).use_clock)),
{
    if c.use_clock < 9_223_372_036_854_775_807 {
        c.use_clock = c.use_clock + 1;
    }
    let time: i64 = c.use_clock;
    match window_state::find_window(&c.windows, w) {
        Some(i) => {
            c.windows[i].use_time = time;
            proof {
                assert(c.windows@ =~= used_at(old(c).windows@, w, time));
            }
        },
        None => {},
    }
}

/// What selecting a window leaves to its caller.
#[derive(Debug, Clone, Copy, PartialEq, Eq, Structural)]
pub struct Selected {
    pub window: u64,
    /// Another frame was selected, so that the keyboard has to follow.
    pub frame_changed: bool,
    /// The hooks for a changed list of buffers are due.
    pub run_buffer_list_hook: bool,
}

/// The frames once one of them has selected a window.
pub open spec fn selecting(v: Seq<Frame>, frame: u64, w: u64) -> Seq<Frame> {
    match window_state::frame_place(v, frame) {
        Some(i) => v.update(i, Frame { selected_window: w, ..v[i] }),
        None => v,
    }
}

/// The session once a window and its frame are selected, before buffers are looked at.
pub open spec fn is_switched(a: Context, b: Context, frame: u64, w: u64, record: bool) -> bool {
    let kept = remembered(a, a.selected_frame->0);
    &&& b == (Context {
        frames: b.frames,
        windows: b.windows,
        selected_frame: Some(frame),
        use_clock: if record {
            ticked(a.use_clock)
        } else {
            a.use_clock
        },
        ..a
    })
    &&& b.frames@ == selecting(a.frames@, frame, w)
    &&& b.windows@ == if record {
        used_at(kept, w, ticked(a.use_clock))
    } else {
        kept
    }
}

/// The session once a buffer knows the window that it was last selected in.
pub open spec fn is_noted(a: Context, b: Context, frame: u64) -> bool {
    match selected_leaf(a, frame) {
        None => b == a,
        Some(w) => match window_state::buffer_place(a.buffers@, w.buffer) {
            None => b == a,
            Some(i) => {
                let buf = a.buffers@[i];
                &&& b == (Context { buffers: b.buffers, ..a })
                &&& b.buffers@ == a.buffers@.update(
                    i,
                    Buffer { last_selected_window: Some(w.id), ..buf },
                )
            },
        },
    }
}

pub fn note_selected_window_buffer(c: &mut Context, frame: u64)
    ensures
        is_noted(*old(c), *final(c), frame),
{
    match selected_window_buffer_state_in_frame(c, frame) {
        Some((w, buffer)) => match window_state::find_buffer(&c.buffers, buffer) {
            Some(i) => {
                c.buffers[i].last_selected_window = Some(w);
                proof {
                    let buf = old(c).buffers@[i as int];
                    assert(c.buffers@ =~= old(c).buffers@.update(
                        i as int,
                        Buffer { last_selected_window: Some(w), ..buf },
                    ));
                }
            },
            None => {},
        },
        None => {},
    }
}

/// The hooks for the list of buffers are due: the selection is recorded, and the buffer
/// that is selected does not forbid them.
pub open spec fn hook_is_due(c: Context, frame: u64, record: bool) -> bool {
    record && (selected_leaf(c, frame) matches Some(w) && match c.buffer(w.buffer) {
        Some(b) => !b.inhibit_hooks,
        None => true,
    })
}

/// The session after a live window was selected, step by step: the windows, the current
/// buffer, what that buffer knows of its window, and the frame's list of buffers.
pub open spec fn is_selection(
    r: Selected,
    a: Context,
    b: Context,
    frame: u64,
    w: u64,
    record: bool,
) -> bool {
    exists|p: Context, q: Context, n: Context| #[trigger]
        selection_steps(a, p, q, n, frame, w, record) && if record && selected_leaf(
            n,
            frame,
        ) is Some {
            is_recorded_on(n, b, selected_leaf(n, frame)->0.buffer, frame)
        } else {
            b == n
        } && r == (Selected {
            window: w,
            frame_changed: a.selected_frame != Some(frame),
            run_buffer_list_hook: hook_is_due(b, frame, record),
        })
}

pub open spec fn selection_steps(
    a: Context,
    p: Context,
    q: Context,
    n: Context,
    frame: u64,
    w: u64,
    record: bool,
) -> bool {
    is_switched(a, p, frame, w, record) && is_synced(p, q, frame) && is_noted(q, n, frame)
}

fn switch_to(c: &mut Context, frame: u64, w: u64, record: bool)
    requires
        old(c).selected_frame is Some,
    ensures
        is_switched(*old(c), *final(c), frame, w, record),
{
    match c.selected_frame {
        Some(id) => {
            remember_selected_window_point(c, id);
        },
        None => {},
    }
    match window_state::find_frame(&c.frames, frame) {
        Some(i) => {
            c.frames[i].selected_window = w;
            proof {
                assert(c.frames@ =~= selecting(old(c).frames@, frame, w));
            }
        },
        None => {},
    }
    c.selected_frame = Some(frame);
    if record {
        note_window_selected(c, w);
    }
}

fn select_live(c: &mut Context, frame: u64, w: u64, record: bool) -> (r: Selected)
    requires
        old(c).selected_frame is Some,
    ensures
        is_selection(r, *old(c), *final(c), frame, w, record),
{
    let changed: bool = match c.selected_frame {
        Some(id) => id != frame,
        None => true,
    };
    switch_to(c, frame, w, record);
    let ghost p = *c;
    sync_selected_window_buffer(c, frame);
    let ghost q = *c;
    note_selected_window_buffer(c, frame);
    proof {
        assert(selection_steps(*old(c), p, q, *c, frame, w, record));
    }
    let ghost n = *c;
    if record {
        match selected_window_buffer_state_in_frame(c, frame) {
            Some((_, buffer)) => {
                record_buffer(c, buffer, frame);
            },
            None => {},
        }
    }
    let hook: bool = if record {
        match selected_window_buffer_state_in_frame(c, frame) {
            Some((_, buffer)) => match c.get_buffer(buffer) {
                Some(b) => !b.inhibit_hooks,
                None => true,
            },
            None => false,
        }
    } else {
        false
    };
    Selected { window: w, frame_changed: changed, run_buffer_list_hook: hook }
}

/// What `select-window` comes to.
pub open spec fn is_select_window(
    r: Result<Selected, Signal>,
    a: Context,
    b: Context,
    window: Datum,
    norecord: Datum,
) -> bool {
    match lisp::window_named(window) {
        None => b == a && (r matches Err(e) && lisp::is_wrong_type(e, "window-live-p"@, window)),
        Some(w) => if a.live_frame(w) is None {
            b == a && (r matches Err(e) && lisp::is_wrong_type(e, "window-live-p"@, window))
        } else {
            exists|m: Context| #[trigger]
                window_state::ensured(a, m) && match m.live_frame(w) {
                    None => b == m && (r matches Err(e) && lisp::is_wrong_type(
                        e,
                        "window-live-p"@,
                        window,
                    )),
                    Some(f) => if m.frame(f) is None {
                        b == m && (r matches Err(e) && lisp::is_error(e, "No window frame"@))
                    } else {
                        r matches Ok(s) && is_selection(s, m, b, f, w, norecord is Nil)
                    },
                }
        },
    }
}

/// `(select-window WINDOW NORECORD)`: selects a live window, and with it its frame and
/// its buffer. Unless the caller asks otherwise, the use of the window and of the
/// buffer is recorded.
pub fn builtin_select_window(c: &mut Context, window: &Value, norecord: Option<&Value>) -> (r: Result<
    Selected,
    Signal,
>)
    requires
        old(c).has_room(),
    ensures
        is_select_window(r, *old(c), *final(c), window@, lisp::given(norecord)),
{
    let w: u64 = match lisp::window_id_from_designator(window) {
        Some(w) => w,
        None => {
            return Err(lisp::wrong_type("window-live-p", window));
        },
    };
    if c.find_window_frame_id(w).is_none() {
        return Err(lisp::wrong_type("window-live-p", window));
    }
    let _ = window_state::ensure_selected_frame_id(c);
    let ghost m = *c;
    proof {
        assert(window_state::ensured(*old(c), m));
    }
    let frame: u64 = match c.find_window_frame_id(w) {
        Some(f) => f,
        None => {
            return Err(lisp::wrong_type("window-live-p", window));
        },
    };
    if c.get_frame(frame).is_none() {
        return Err(lisp::error("No window frame"));
    }
    Ok(select_live(c, frame, w, !lisp::is_given(norecord)))
}

/// A window that was selected is the selected window of the selected frame.
pub proof fn law_selected_window_is_selected(
    s: Selected,
    a: Context,
    b: Context,
    frame: u64,
    w: u64,
    record: bool,
)
    requires
        is_selection(s, a, b, frame, w, record),
        a.frame(frame) is Some,
    ensures
        b.selected_frame == Some(frame),
        b.selected() is Some,
        b.selected()->0.selected_window == w,
{
    let (p, q, n) = choose|p: Context, q: Context, n: Context| #[trigger]
        selection_steps(a, p, q, n, frame, w, record) && if record && selected_leaf(
            n,
            frame,
        ) is Some {
            is_recorded_on(n, b, selected_leaf(n, frame)->0.buffer, frame)
        } else {
            b == n
        };
    window_state::lemma_index_in(window_state::frame_ids(a.frames@), frame);
    let i = window_state::frame_place(a.frames@, frame)->0;
    assert(window_state::frame_ids(p.frames@) =~= window_state::frame_ids(a.frames@));
    assert(window_state::frame_ids(b.frames@) =~= window_state::frame_ids(p.frames@));
}

/// `(set-frame-selected-window FRAME WINDOW NORECORD)`: on the selected frame this
/// selects the window; another frame only keeps it for when it is selected.
pub fn builtin_set_frame_selected_window(
    c: &mut Context,
    frame: &Value,
    window: &Value,
    norecord: Option<&Value>,
) -> (r: Result<Option<Selected>, Signal>)
    requires
        old(c).has_room(),
    ensures
        exists|m: Context| #[trigger]
            window_state::ensured_for(*old(c), m, frame@) && match (
                window_state::frame_target(m, frame@),
                lisp::window_named(window@),
            ) {
                (None, _) => *final(c) == m && (r matches Err(e) && lisp::is_wrong_type(
                    e,
                    "frame-live-p"@,
                    frame@,
                )),
                (Some(_), None) => *final(c) == m && (r matches Err(e) && lisp::is_wrong_type(
                    e,
                    "window-live-p"@,
                    window@,
                )),
                (Some(f), Some(w)) => match m.live_frame(w) {
                    None => *final(c) == m && (r matches Err(e) && lisp::is_wrong_type(
                        e,
                        "window-live-p"@,
                        window@,
                    )),
                    Some(on) => if on != f {
                        *final(c) == m && (r matches Err(e) && lisp::is_error(
                            e,
                            "In `set-frame-selected-window', WINDOW is not on FRAME"@,
                        ))
                    } else {
                        exists|n: Context| #[trigger]
                            made_sure(m, n) && if n.selected_frame == Some(f) {
                                r matches Ok(Some(s)) && is_selection(
                                    s,
                                    n,
                                    *final(c),
                                    f,
                                    w,
                                    lisp::given(norecord) is Nil,
                                )
                            } else {
                                r == Ok::<Option<Selected>, Signal>(None) && *final(c) == (Context {
                                    frames: final(c).frames,
                                    ..n
                                }) && final(c).frames@ == selecting(n.frames@, f, w)
                            }
                    },
                },
            },
{
    let f: u64 = match window_state::resolve_frame_id(c, Some(frame), "frame-live-p") {
        Ok(f) => f,
        Err(e) => {
            proof {
                assert(window_state::ensured_for(*old(c), *c, frame@));
            }
            return Err(e);
        },
    };
    let ghost m = *c;
    proof {
        assert(window_state::ensured_for(*old(c), m, frame@));
    }
    let w: u64 = match lisp::window_id_from_designator(window) {
        Some(w) => w,
        None => {
            return Err(lisp::wrong_type("window-live-p", window));
        },
    };
    let on: u64 = match c.find_window_frame_id(w) {
        Some(on) => on,
        None => {
            return Err(lisp::wrong_type("window-live-p", window));
        },
    };
    if on != f {
        return Err(lisp::error("In `set-frame-selected-window', WINDOW is not on FRAME"));
    }
    if c.get_selected_frame().is_none() {
        proof {
            assert(m == *old(c));
        }
        let _ = window_state::ensure_selected_frame_id(c);
    }
    let ghost n = *c;
    proof {
        assert(made_sure(m, n));
    }
    let is_selected: bool = match c.selected_frame {
        Some(id) => id == f,
        None => false,
    };
    if is_selected {
        return Ok(Some(select_live(c, f, w, !lisp::is_given(norecord))));
    }
    match window_state::find_frame(&c.frames, f) {
        Some(i) => {
            c.frames[i].selected_window = w;
            proof {
                assert(c.frames@ =~= selecting(n.frames@, f, w));
            }
        },
        None => {},
    }
    Ok(None)
}

/// The session after a frame was made sure of, where none was selected.
pub open spec fn made_sure(m: Context, n: Context) -> bool {
    if m.selected() is Some {
        n == m
    } else {
        window_state::ensured(m, n)
    }
}

} // verus!
