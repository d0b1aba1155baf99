//! What windows and frames say of themselves, and what can be set on them.
use vstd::prelude::*;

use crate::frame_size;
use crate::lisp;
use crate::lisp::{Datum, Signal, SplitWindowSide, Value};
use crate::window_buffers;
use crate::window_lists;
use crate::window_state;
use crate::window_state::{Context, DrawnCursor, Frame, Rect, Window, WindowPredicate};

verus! {

/// The frame and the window that an argument names, in a session as it is.
pub fn lookup_window(c: &Context, arg: Option<&Value>, pred: WindowPredicate) -> (r: Result<
    (u64, u64),
    Signal,
>)
    ensures
        window_state::is_target(r, *c, lisp::given(arg), pred),
{
    let nil: Value = Value::Nil;
    let v: &Value = match arg {
        Some(v) => v,
        None => &nil,
    };
    if lisp::is_nil(v) {
        return match c.selected_frame {
            Some(id) => match c.get_frame(id) {
                Some(f) => Ok((id, f.selected_window)),
                None => Err(lisp::wrong_type(pred.name(), v)),
            },
            None => Err(lisp::wrong_type(pred.name(), v)),
        };
    }
    match lisp::window_id_from_designator(v) {
        Some(w) => {
            let frame: Option<u64> = match pred {
                WindowPredicate::Valid => c.find_valid_window_frame_id(w),
                _ => c.find_window_frame_id(w),
            };
            match frame {
                Some(f) => Ok((f, w)),
                None => Err(lisp::wrong_type(pred.name(), v)),
            }
        },
        None => Err(lisp::wrong_type(pred.name(), v)),
    }
}

/// The frame and the window that an argument names, after a frame was made sure of.
pub fn ensured_window(c: &mut Context, arg: Option<&Value>, pred: WindowPredicate) -> (r: Result<
    (u64, u64),
    Signal,
>)
    requires
        old(c).has_room(),
    ensures
        window_state::ensured(*old(c), *final(c)),
        window_state::is_target(r, *final(c), lisp::given(arg), pred),
{
    let _ = window_state::ensure_selected_frame_id(c);
    lookup_window(c, arg, pred)
}

/// The window itself, or what is signalled.
pub open spec fn is_found(
    r: Result<usize, Signal>,
    c: Context,
    arg: Datum,
    pred: WindowPredicate,
) -> bool {
    match window_state::window_target(c, arg, pred) {
        None => r matches Err(e) && lisp::is_wrong_type(e, pred.spelled(), arg),
        Some((_, w)) => match window_state::window_place(c.windows@, w) {
            None => r matches Err(e) && lisp::is_error(e, "Window not found"@),
            Some(i) => r matches Ok(k) && k == i && k < c.windows@.len(),
        },
    }
}

fn place_of(c: &Context, t: Result<(u64, u64), Signal>) -> (r: Result<usize, Signal>)
    ensures
        forall|arg: Datum, pred: WindowPredicate|
            window_state::is_target(t, *c, arg, pred) ==> #[trigger] is_found(r, *c, arg, pred),
{
    match t {
        Ok((_, w)) => match window_state::find_window(&c.windows, w) {
            Some(i) => Ok(i),
            None => Err(lisp::error("Window not found")),
        },
        Err(e) => Err(e),
    }
}

/// The window that an argument names; a frame is made sure of in any case.
pub fn ensured_place(c: &mut Context, arg: Option<&Value>, pred: WindowPredicate) -> (r: Result<
    usize,
    Signal,
>)
    requires
        old(c).has_room(),
    ensures
        window_state::ensured(*old(c), *final(c)),
        is_found(r, *final(c), lisp::given(arg), pred),
{
    let t: Result<(u64, u64), Signal> = ensured_window(c, arg, pred);
    place_of(c, t)
}

/// The window that an argument names; a frame is made sure of where the argument leaves
/// the window open.
pub fn resolved_place(c: &mut Context, arg: Option<&Value>, pred: WindowPredicate) -> (r: Result<
    usize,
    Signal,
>)
    requires
        old(c).has_room(),
    ensures
        window_state::ensured_for(*old(c), *final(c), lisp::given(arg)),
        is_found(r, *final(c), lisp::given(arg), pred),
{
    let t: Result<(u64, u64), Signal> = window_state::resolve_window_id_with_pred(c, arg, pred);
    place_of(c, t)
}

/// The session after a window was looked up: a frame is made sure of always, or only
/// where the argument leaves the window open.
pub open spec fn looked_up(a: Context, b: Context, arg: Datum, always: bool) -> bool {
    if always {
        window_state::ensured(a, b)
    } else {
        window_state::ensured_for(a, b, arg)
    }
}

fn place_for(c: &mut Context, arg: Option<&Value>, always: bool) -> (r: Result<usize, Signal>)
    requires
        old(c).has_room(),
    ensures
        looked_up(*old(c), *final(c), lisp::given(arg), always),
        is_found(r, *final(c), lisp::given(arg), WindowPredicate::Live),
{
    if always {
        ensured_place(c, arg, WindowPredicate::Live)
    } else {
        resolved_place(c, arg, WindowPredicate::Live)
    }
}

/// `(selected-window)`.
pub fn builtin_selected_window(c: &mut Context) -> (r: u64)
    requires
        old(c).has_room(),
    ensures
        window_state::ensured(*old(c), *final(c)),
        r == final(c).selected()->0.selected_window,
{
    let id: u64 = window_state::ensure_selected_frame_id(c);
    match c.get_frame(id) {
        Some(f) => f.selected_window,
        None => 0,
    }
}

/// `(frame-selected-window FRAME)`, `(frame-root-window FRAME)`, and the like: what a
/// frame says, where it is found.
pub open spec fn is_frame_answer(r: Result<Value, Signal>, c: Context, arg: Datum, which: FrameSlot) -> bool {
    match window_state::frame_target(c, arg) {
        None => r matches Err(e) && lisp::is_wrong_type(e, "frame-live-p"@, arg),
        Some(id) => r matches Ok(v) && v@ == window_lists::window_or_nil(
            slot_of(c.frame(id)->0, which),
        ),
    }
}

/// The windows that a frame knows by what they are for.
#[derive(Debug, Clone, Copy, PartialEq, Eq, Structural)]
pub enum FrameSlot {
    Selected,
    OldSelected,
    Root,
    Minibuffer,
}

pub open spec fn slot_of(f: Frame, which: FrameSlot) -> Option<u64> {
    match which {
        FrameSlot::Selected => Some(f.selected_window),
        FrameSlot::OldSelected => f.old_selected_window,
        FrameSlot::Root => Some(f.root_window),
        FrameSlot::Minibuffer => f.minibuffer_window,
    }
}

/// A window that a frame knows, or `nil`.
pub fn frame_window_slot(c: &mut Context, frame: Option<&Value>, which: FrameSlot) -> (r: Result<
    Value,
    Signal,
>)
    requires
        old(c).has_room(),
    ensures
        window_state::ensured_for(*old(c), *final(c), lisp::given(frame)),
        is_frame_answer(r, *final(c), lisp::given(frame), which),
{
    let id: u64 = match window_state::resolve_frame_id(c, frame, "frame-live-p") {
        Ok(id) => id,
        Err(e) => {
            return Err(e);
        },
    };
    let slot: Option<u64> = match c.get_frame(id) {
        Some(f) => match which {
            FrameSlot::Selected => Some(f.selected_window),
            FrameSlot::OldSelected => f.old_selected_window,
            FrameSlot::Root => Some(f.root_window),
            FrameSlot::Minibuffer => f.minibuffer_window,
        },
        None => None,
    };
    match slot {
        Some(w) => Ok(Value::Window(w)),
        None => Ok(Value::Nil),
    }
}

/// `(old-selected-window)`: the window that was selected at the last display, or the
/// selected one.
pub fn builtin_old_selected_window(c: &mut Context, before: Option<u64>) -> (r: u64)
    requires
        old(c).has_room(),
    ensures
        window_state::ensured(*old(c), *final(c)),
        r == match before {
            Some(w) => w,
            None => final(c).selected()->0.selected_window,
        },
{
    let now: u64 = builtin_selected_window(c);
    match before {
        Some(w) => w,
        None => now,
    }
}

/// `(window-minibuffer-p WINDOW)`.
pub fn builtin_window_minibuffer_p(c: &mut Context, window: Option<&Value>) -> (r: Result<
    bool,
    Signal,
>)
    requires
        old(c).has_room(),
    ensures
        window_state::ensured_for(*old(c), *final(c), lisp::given(window)),
        match window_state::window_target(*final(c), lisp::given(window), WindowPredicate::Valid) {
            None => r matches Err(e) && lisp::is_wrong_type(
                e,
                "window-valid-p"@,
                lisp::given(window),
            ),
            Some((f, w)) => r == Ok::<bool, Signal>(window_buffers::is_mini(*final(c), f, w)),
        },
{
    match window_state::resolve_window_id_with_pred(c, window, WindowPredicate::Valid) {
        Ok((f, w)) => Ok(window_buffers::is_minibuffer_window(c, f, w)),
        Err(e) => Err(e),
    }
}

/// `(active-minibuffer-window)`: the window of the minibuffer in use, or `nil`.
pub fn builtin_active_minibuffer_window(c: &Context) -> (r: Value)
    ensures
        r@ == match c.active_minibuffer {
            Some(w) => Datum::Window(w),
            None => Datum::Nil,
        },
{
    match c.active_minibuffer {
        Some(w) => Value::Window(w),
        None => Value::Nil,
    }
}

/// `(window-old-buffer WINDOW)`: `nil` for every live window, since no buffer of an
/// earlier display is kept.
pub fn builtin_window_old_buffer(c: &mut Context, window: Option<&Value>) -> (r: Result<
    Value,
    Signal,
>)
    requires
        old(c).has_room(),
    ensures
        window_state::ensured(*old(c), *final(c)),
        match window_state::window_target(*final(c), lisp::given(window), WindowPredicate::Live) {
            None => r matches Err(e) && lisp::is_wrong_type(
                e,
                WindowPredicate::Live.spelled(),
                lisp::given(window),
            ),
            Some(_) => r matches Ok(v) && v@ == Datum::Nil,
        },
{
    match ensured_window(c, window, WindowPredicate::Live) {
        Ok(_) => Ok(Value::Nil),
        Err(e) => Err(e),
    }
}

/// `(window-frame WINDOW)`.
pub fn builtin_window_frame(c: &mut Context, window: Option<&Value>) -> (r: Result<u64, Signal>)
    requires
        old(c).has_room(),
    ensures
        window_state::ensured_for(*old(c), *final(c), lisp::given(window)),
        match window_state::window_target(*final(c), lisp::given(window), WindowPredicate::Valid) {
            None => r matches Err(e) && lisp::is_wrong_type(
                e,
                "window-valid-p"@,
                lisp::given(window),
            ),
            Some((f, _)) => r == Ok::<u64, Signal>(f),
        },
{
    match window_state::resolve_window_id_with_pred(c, window, WindowPredicate::Valid) {
        Ok((f, _)) => Ok(f),
        Err(e) => Err(e),
    }
}

/// The buffer that a window shows, `nil` for one that shows none.
pub open spec fn shown_in(c: Context, w: u64) -> Datum {
    match c.window(w) {
        Some(win) => if win.leaf {
            Datum::Buffer(win.buffer)
        } else {
            Datum::Nil
        },
        None => Datum::Nil,
    }
}

/// `(window-buffer WINDOW)`: the buffer that a window shows; `nil` for a window that
/// was deleted or is no leaf.
pub fn builtin_window_buffer(c: &mut Context, window: Option<&Value>) -> (r: Result<Value, Signal>)
    requires
        old(c).has_room(),
    ensures
        window_state::ensured_for(*old(c), *final(c), lisp::given(window)),
        if lisp::given(window) is Nil {
            let w = final(c).selected()->0.selected_window;
            if final(c).window(w) is None {
                r matches Err(e) && lisp::is_error(e, "Window not found"@)
            } else {
                r matches Ok(v) && v@ == shown_in(*final(c), w)
            }
        } else {
            match lisp::window_named(lisp::given(window)) {
                Some(w) => if final(c).is_window(w) {
                    r matches Ok(v) && v@ == shown_in(*final(c), w)
                } else {
                    r matches Err(e) && lisp::is_wrong_type(e, "windowp"@, lisp::given(window))
                },
                None => r matches Err(e) && lisp::is_wrong_type(
                    e,
                    "windowp"@,
                    lisp::given(window),
                ),
            }
        },
{
    let v: &Value = match window {
        Some(v) => if lisp::is_nil(v) {
            let w: u64 = builtin_selected_window(c);
            return buffer_in(c, w);
        } else {
            v
        },
        None => {
            let w: u64 = builtin_selected_window(c);
            return buffer_in(c, w);
        },
    };
    match lisp::window_id_from_designator(v) {
        Some(w) => if c.get_window(w).is_some() {
            buffer_in(c, w)
        } else if c.is_window_object_id(w) {
            Ok(Value::Nil)
        } else {
            Err(lisp::wrong_type("windowp", v))
        },
        None => Err(lisp::wrong_type("windowp", v)),
    }
}

fn buffer_in(c: &Context, w: u64) -> (r: Result<Value, Signal>)
    ensures
        if c.window(w) is None {
            r matches Err(e) && lisp::is_error(e, "Window not found"@)
        } else {
            r matches Ok(v) && v@ == shown_in(*c, w)
        },
{
    match c.get_window(w) {
        Some(win) => if win.leaf {
            Ok(Value::Buffer(win.buffer))
        } else {
            Ok(Value::Nil)
        },
        None => Err(lisp::error("Window not found")),
    }
}

/// A number that a window has.
#[derive(Debug, Clone, Copy, PartialEq, Eq, Structural)]
pub enum WindowNumber {
    Start,
    OldPoint,
    Hscroll,
    UseTime,
}

pub open spec fn number_of(w: Window, which: WindowNumber) -> int {
    match which {
        WindowNumber::Start => if w.leaf {
            w.start as int
        } else {
            0
        },
        WindowNumber::OldPoint => if w.leaf {
            window_buffers::at_least_one(w.old_point) as int
        } else {
            1
        },
        WindowNumber::Hscroll => if w.leaf {
            (w.hscroll as i64) as int
        } else {
            0
        },
        WindowNumber::UseTime => w.use_time as int,
    }
}

/// `(window-start WINDOW)`, `(window-old-point WINDOW)`, `(window-hscroll WINDOW)` and
/// `(window-use-time WINDOW)`.
pub fn window_number(c: &mut Context, window: Option<&Value>, which: WindowNumber) -> (r: Result<
    i64,
    Signal,
>)
    requires
        old(c).has_room(),
    ensures
        looked_up(
            *old(c),
            *final(c),
            lisp::given(window),
            which != WindowNumber::Start,
        ),
        match window_state::window_target(*final(c), lisp::given(window), WindowPredicate::Live) {
            None => r matches Err(e) && lisp::is_wrong_type(
                e,
                "window-live-p"@,
                lisp::given(window),
            ),
            Some((_, w)) => match final(c).window(w) {
                None => r matches Err(e) && lisp::is_error(e, "Window not found"@),
                Some(win) => r matches Ok(n) && n == number_of(win, which),
            },
        },
{
    let i: usize = match place_for(c, window, which != WindowNumber::Start) {
        Ok(i) => i,
        Err(e) => {
            return Err(e);
        },
    };
    let w: &Window = &c.windows[i];
    Ok(
        match which {
            WindowNumber::Start => if w.leaf {
                w.start
            } else {
                0
            },
            WindowNumber::OldPoint => if w.leaf && w.old_point >= 1 {
                w.old_point
            } else {
                1
            },
            WindowNumber::Hscroll => if w.leaf {
                w.hscroll as i64
            } else {
                0
            },
            WindowNumber::UseTime => w.use_time,
        },
    )
}

/// A value that a window keeps for Lisp.
#[derive(Debug, Clone, Copy, PartialEq, Eq, Structural)]
pub enum WindowSlot {
    PrevBuffers,
    NextBuffers,
    Dedicated,
    CursorType,
}

pub open spec fn value_of(w: Window, which: WindowSlot) -> Datum {
    match which {
        WindowSlot::PrevBuffers => w.prev_buffers@,
        WindowSlot::NextBuffers => w.next_buffers@,
        WindowSlot::Dedicated => if w.leaf {
            w.dedicated@
        } else {
            Datum::Nil
        },
        WindowSlot::CursorType => w.cursor_type@,
    }
}

/// `(window-prev-buffers WINDOW)`, `(window-next-buffers WINDOW)`,
/// `(window-dedicated-p WINDOW)` and `(window-cursor-type WINDOW)`.
pub fn window_slot(c: &mut Context, window: Option<&Value>, which: WindowSlot) -> (r: Result<
    Value,
    Signal,
>)
    requires
        old(c).has_room(),
    ensures
        looked_up(
            *old(c),
            *final(c),
            lisp::given(window),
            which != WindowSlot::Dedicated,
        ),
        match window_state::window_target(*final(c), lisp::given(window), WindowPredicate::Live) {
            None => r matches Err(e) && lisp::is_wrong_type(
                e,
                "window-live-p"@,
                lisp::given(window),
            ),
            Some((_, w)) => match final(c).window(w) {
                None => r matches Err(e) && lisp::is_error(e, "Window not found"@),
                Some(win) => r matches Ok(v) && v@ == value_of(win, which),
            },
        },
{
    let i: usize = match place_for(c, window, which != WindowSlot::Dedicated) {
        Ok(i) => i,
        Err(e) => {
            return Err(e);
        },
    };
    let w: &Window = &c.windows[i];
    Ok(
        match which {
            WindowSlot::PrevBuffers => lisp::copy(&w.prev_buffers),
            WindowSlot::NextBuffers => lisp::copy(&w.next_buffers),
            WindowSlot::Dedicated => if w.leaf {
                lisp::copy(&w.dedicated)
            } else {
                Value::Nil
            },
            WindowSlot::CursorType => lisp::copy(&w.cursor_type),
        },
    )
}

/// A window that differs from another in one slot at most, which holds a value.
pub open spec fn slot_set(new: Window, w: Window, which: WindowSlot, d: Datum) -> bool {
    match which {
        WindowSlot::PrevBuffers => new == (Window { prev_buffers: new.prev_buffers, ..w })
            && new.prev_buffers@ == d,
        WindowSlot::NextBuffers => new == (Window { next_buffers: new.next_buffers, ..w })
            && new.next_buffers@ == d,
        WindowSlot::Dedicated => if w.leaf {
            new == (Window { dedicated: new.dedicated, ..w }) && new.dedicated@ == d
        } else {
            new == w
        },
        WindowSlot::CursorType => new == (Window { cursor_type: new.cursor_type, ..w })
            && new.cursor_type@ == d,
    }
}

pub open spec fn slot_looked_up(a: Context, m: Context, arg: Datum, which: WindowSlot) -> bool {
    looked_up(a, m, arg, which != WindowSlot::Dedicated)
}

/// The session after a slot of a window was set.
pub open spec fn is_slot_set(
    r: Result<Value, Signal>,
    m: Context,
    b: Context,
    window: Datum,
    which: WindowSlot,
    d: Datum,
) -> bool {
    match window_state::window_target(m, window, WindowPredicate::Live) {
        None => b == m && (r matches Err(e) && lisp::is_wrong_type(e, "window-live-p"@, window)),
        Some((_, w)) => match window_state::window_place(m.windows@, w) {
            None => b == m && (r matches Err(e) && lisp::is_error(e, "Window not found"@)),
            Some(i) => if which == WindowSlot::CursorType && !lisp::is_cursor_type(d) {
                b == m && (r matches Err(e) && lisp::is_error(e, "Invalid cursor type"@))
            } else {
                &&& r matches Ok(v) && v@ == d
                &&& b == (Context { windows: b.windows, ..m })
                &&& b.windows@.len() == m.windows@.len()
                &&& b.windows@ == m.windows@.update(i, b.windows@[i])
                &&& slot_set(b.windows@[i], m.windows@[i], which, d)
            },
        },
    }
}

/// `(set-window-prev-buffers WINDOW VALUE)`, `(set-window-next-buffers WINDOW VALUE)`,
/// `(set-window-dedicated-p WINDOW VALUE)` and `(set-window-cursor-type WINDOW VALUE)`.
/// Gives the value back. Only a cursor type is looked at.
pub fn set_window_slot(c: &mut Context, window: &Value, which: WindowSlot, value: &Value) -> (r:
    Result<Value, Signal>)
    requires
        old(c).has_room(),
    ensures
        exists|m: Context| #[trigger]
            slot_looked_up(*old(c), m, window@, which) && is_slot_set(
                r,
                m,
                *final(c),
                window@,
                which,
                value@,
            ),
{
    let found: Result<usize, Signal> = place_for(c, Some(window), which != WindowSlot::Dedicated);
    let ghost m = *c;
    proof {
        assert(slot_looked_up(*old(c), m, window@, which));
    }
    let i: usize = match found {
        Ok(i) => i,
        Err(e) => {
            return Err(e);
        },
    };
    match which {
        WindowSlot::PrevBuffers => {
            c.windows[i].prev_buffers = lisp::copy(value);
        },
        WindowSlot::NextBuffers => {
            c.windows[i].next_buffers = lisp::copy(value);
        },
        WindowSlot::Dedicated => {
            if c.windows[i].leaf {
                c.windows[i].dedicated = lisp::copy(value);
            }
        },
        WindowSlot::CursorType => {
            if !lisp::is_valid_cursor_type(value) {
                return Err(lisp::error("Invalid cursor type"));
            }
            c.windows[i].cursor_type = lisp::copy(value);
        },
    }
    proof {
        assert(c.windows@ =~= m.windows@.update(i as int, c.windows@[i as int]));
    }
    Ok(lisp::copy(value))
}

/// What was set is read back.
pub proof fn law_slot_is_read_back(new: Window, w: Window, which: WindowSlot, d: Datum)
    requires
        slot_set(new, w, which, d),
        w.leaf,
    ensures
        value_of(new, which) == d,
{
}

/// `(set-window-hscroll WINDOW COLUMNS)`: scrolls a window's text sideways, to none
/// where a negative number is given.
pub fn builtin_set_window_hscroll(c: &mut Context, window: &Value, columns: i64) -> (r: Result<
    i64,
    Signal,
>)
    requires
        old(c).has_room(),
    ensures
        exists|m: Context| #[trigger]
            window_state::ensured_for(*old(c), m, window@)
                && match window_state::window_target(
                m,
                window@,
                WindowPredicate::Live,
            ) {
                None => *final(c) == m && (r matches Err(e) && lisp::is_wrong_type(
                    e,
                    "window-live-p"@,
                    window@,
                )),
                Some((_, w)) => {
                    let n: i64 = if columns >= 0 {
                        columns
                    } else {
                        0
                    };
                    &&& r == Ok::<i64, Signal>(n)
                    &&& match m.window(w) {
                        Some(win) => if win.leaf {
                            window_state::window_changed(
                                m,
                                *final(c),
                                w,
                                (Window {
                                    hscroll: n as u64,
                                    suspend_auto_hscroll: true,
                                    ..win
                                }),
                            )
                        } else {
                            *final(c) == m
                        },
                        None => *final(c) == m,
                    }
                },
            },
{
    let target: Result<(u64, u64), Signal> = window_state::resolve_window_id_with_pred(
        c,
        Some(window),
        WindowPredicate::Live,
    );
    let ghost m = *c;
    proof {
        assert(window_state::ensured_for(*old(c), m, window@));
    }
    let (_, w): (u64, u64) = match target {
        Ok(t) => t,
        Err(e) => {
            return Err(e);
        },
    };
    let n: i64 = if columns >= 0 {
        columns
    } else {
        0
    };
    match window_state::find_window(&c.windows, w) {
        Some(i) => {
            if c.windows[i].leaf {
                c.windows[i].hscroll = n as u64;
                c.windows[i].suspend_auto_hscroll = true;
                proof {
                    assert(c.windows@ =~= m.windows@.update(
                        i as int,
                        Window {
                            hscroll: n as u64,
                            suspend_auto_hscroll: true,
                            ..m.windows@[i as int]
                        },
                    ));
                }
            }
        },
        None => {},
    }
    Ok(n)
}

pub open spec fn margin_fault_of(e: Signal, left: Datum, right: Datum) -> bool {
    if lisp::margin_of(left) is None {
        window_buffers::margin_fault(e, left)
    } else {
        window_buffers::margin_fault(e, right)
    }
}

/// What `set-window-margins` comes to: whether the margins changed.
pub open spec fn are_margins_set(
    r: Result<bool, Signal>,
    m: Context,
    b: Context,
    window: Datum,
    left: Datum,
    right: Datum,
) -> bool {
    match window_state::window_target(m, window, WindowPredicate::Live) {
        None => b == m && (r matches Err(e) && lisp::is_wrong_type(e, "window-live-p"@, window)),
        Some((_, w)) => match (lisp::margin_of(left), lisp::margin_of(right)) {
            (Some(x), Some(y)) => match m.window(w) {
                Some(win) => if win.leaf && !(win.left_margin == x && win.right_margin == y) {
                    r == Ok::<bool, Signal>(true) && window_state::window_changed(
                        m,
                        b,
                        w,
                        Window { left_margin: x as u64, right_margin: y as u64, ..win },
                    )
                } else {
                    b == m && r == Ok::<bool, Signal>(false)
                },
                None => b == m && r == Ok::<bool, Signal>(false),
            },
            _ => b == m && (r matches Err(e) && margin_fault_of(e, left, right)),
        },
    }
}

/// `(set-window-margins WINDOW LEFT RIGHT)`: sets the margins, none for `nil`.
pub fn builtin_set_window_margins(
    c: &mut Context,
    window: &Value,
    left: &Value,
    right: Option<&Value>,
) -> (r: Result<bool, Signal>)
    requires
        old(c).has_room(),
    ensures
        exists|m: Context| #[trigger]
            window_state::ensured_for(*old(c), m, window@) && are_margins_set(
                r,
                m,
                *final(c),
                window@,
                left@,
                lisp::given(right),
            ),
{
    let target: Result<(u64, u64), Signal> = window_state::resolve_window_id_with_pred(
        c,
        Some(window),
        WindowPredicate::Live,
    );
    let ghost m = *c;
    proof {
        assert(window_state::ensured_for(*old(c), m, window@));
    }
    let (_, w): (u64, u64) = match target {
        Ok(t) => t,
        Err(e) => {
            return Err(e);
        },
    };
    let x: u64 = match lisp::expect_margin_width(left) {
        Ok(n) => n,
        Err(e) => {
            return Err(e);
        },
    };
    let y: u64 = match right {
        Some(v) => match lisp::expect_margin_width(v) {
            Ok(n) => n,
            Err(e) => {
                return Err(e);
            },
        },
        None => 0,
    };
    match window_state::find_window(&c.windows, w) {
        Some(i) => {
            if c.windows[i].leaf && !(c.windows[i].left_margin == x && c.windows[i].right_margin
                == y) {
                c.windows[i].left_margin = x;
                c.windows[i].right_margin = y;
                proof {
                    assert(c.windows@ =~= m.windows@.update(
                        i as int,
                        Window { left_margin: x, right_margin: y, ..m.windows@[i as int] },
                    ));
                }
                return Ok(true);
            }
        },
        None => {},
    }
    Ok(false)
}

/// A width as Lisp sees it: `nil` for none.
pub open spec fn width_or_nil(n: int) -> Datum {
    if n == 0 {
        Datum::Nil
    } else {
        Datum::Fixnum(n)
    }
}

fn width_value(n: i64) -> (r: Value)
    ensures
        r@ == width_or_nil(n as int),
{
    if n == 0 {
        Value::Nil
    } else {
        Value::Fixnum(n)
    }
}

/// Two margins as Lisp sees them.
pub open spec fn margin_pair(left: i64, right: i64) -> Datum {
    Datum::Pair(Box::new(width_or_nil(left as int)), Box::new(width_or_nil(right as int)))
}

/// `(window-margins WINDOW)`: the margins as they were last displayed, which `displayed`
/// says, else as they are set.
pub fn builtin_window_margins(
    c: &mut Context,
    window: Option<&Value>,
    displayed: Option<(i64, i64)>,
) -> (r: Result<Value, Signal>)
    requires
        old(c).has_room(),
    ensures
        window_state::ensured(*old(c), *final(c)),
        match window_state::window_target(*final(c), lisp::given(window), WindowPredicate::Live) {
            None => r matches Err(e) && lisp::is_wrong_type(
                e,
                "window-live-p"@,
                lisp::given(window),
            ),
            Some((_, w)) => match (displayed, final(c).window(w)) {
                (None, None) => r matches Err(e) && lisp::is_error(e, "Window not found"@),
                (Some((left, right)), _) => r matches Ok(v) && v@ == margin_pair(left, right),
                (None, Some(win)) => r matches Ok(v) && v@ == if win.leaf {
                    margin_pair(win.left_margin as i64, win.right_margin as i64)
                } else {
                    margin_pair(0, 0)
                },
            },
        },
{
    let (_, w): (u64, u64) = match ensured_window(c, window, WindowPredicate::Live) {
        Ok(t) => t,
        Err(e) => {
            return Err(e);
        },
    };
    let (left, right): (i64, i64) = match displayed {
        Some(p) => p,
        None => match c.get_window(w) {
            Some(win) => if win.leaf {
                (win.left_margin as i64, win.right_margin as i64)
            } else {
                (0, 0)
            },
            None => {
                return Err(lisp::error("Window not found"));
            },
        },
    };
    Ok(lisp::pair(width_value(left), width_value(right)))
}

/// A frame is there and has a window system.
pub open spec fn is_graphical(c: Context, frame: u64) -> bool {
    c.frame(frame) matches Some(f) && f.graphical
}

fn frame_is_graphical(c: &Context, frame: u64) -> (r: bool)
    ensures
        r == is_graphical(*c, frame),
{
    match c.get_frame(frame) {
        Some(f) => f.graphical,
        None => false,
    }
}

/// What a window's fringes or scroll bars are asked to be.
#[derive(Debug, Clone, Copy, PartialEq, Eq, Structural)]
pub struct FringeRequest {
    pub left: Option<i32>,
    pub right: Option<i32>,
    pub outside_margins: bool,
    pub persistent: bool,
}

/// What is asked for, or the first width that cannot be used. The right width is that of
/// the left where it is left out.
pub open spec fn is_fringe_request(
    r: Result<Option<(u64, FringeRequest)>, Signal>,
    w: u64,
    left: Datum,
    right: Option<Datum>,
    outside_margins: Datum,
    persistent: Datum,
) -> bool {
    if lisp::dimension_of(left) is None {
        r matches Err(e) && lisp::is_dimension(Err(e), left)
    } else if right is Some && lisp::dimension_of(right->0) is None {
        r matches Err(e) && lisp::is_dimension(Err(e), right->0)
    } else {
        r matches Ok(Some((k, f))) && k == w && lisp::is_dimension(
            Ok(f.left),
            left,
        ) && lisp::is_dimension(
            Ok(f.right),
            match right {
                Some(d) => d,
                None => left,
            },
        ) && f.outside_margins == !(outside_margins is Nil) && f.persistent == !(persistent is Nil)
    }
}

fn decode_window_fringes(
    w: u64,
    left: &Value,
    right: Option<&Value>,
    outside_margins: Option<&Value>,
    persistent: Option<&Value>,
) -> (r: Result<Option<(u64, FringeRequest)>, Signal>)
    ensures
        is_fringe_request(
            r,
            w,
            left@,
            match right {
                Some(v) => Some(v@),
                None => None,
            },
            lisp::given(outside_margins),
            lisp::given(persistent),
        ),
{
    let l: Option<i32> = match lisp::optional_dimension(left) {
        Ok(n) => n,
        Err(e) => {
            return Err(e);
        },
    };
    let r: Option<i32> = match right {
        Some(v) => match lisp::optional_dimension(v) {
            Ok(n) => n,
            Err(e) => {
                return Err(e);
            },
        },
        None => l,
    };
    let request: FringeRequest = FringeRequest {
        left: l,
        right: r,
        outside_margins: lisp::is_given(outside_margins),
        persistent: lisp::is_given(persistent),
    };
    Ok(Some((w, request)))
}

/// `(set-window-fringes WINDOW LEFT RIGHT OUTSIDE-MARGINS PERSISTENT)`: the fringes that a
/// window is to get. On a frame without a window system there are none.
pub fn builtin_set_window_fringes(
    c: &mut Context,
    window: &Value,
    left: &Value,
    right: Option<&Value>,
    outside_margins: Option<&Value>,
    persistent: Option<&Value>,
) -> (r: Result<Option<(u64, FringeRequest)>, Signal>)
    requires
        old(c).has_room(),
    ensures
        window_state::ensured_for(*old(c), *final(c), window@),
        match window_state::window_target(*final(c), window@, WindowPredicate::Live) {
            None => r matches Err(e) && lisp::is_wrong_type(e, "window-live-p"@, window@),
            Some((f, w)) => if is_graphical(*final(c), f) {
                is_fringe_request(
                    r,
                    w,
                    left@,
                    match right {
                        Some(v) => Some(v@),
                        None => None,
                    },
                    lisp::given(outside_margins),
                    lisp::given(persistent),
                )
            } else {
                r matches Ok(None)
            },
        },
{
    let (f, w): (u64, u64) = match window_state::resolve_window_id_with_pred(
        c,
        Some(window),
        WindowPredicate::Live,
    ) {
        Ok(t) => t,
        Err(e) => {
            return Err(e);
        },
    };
    if !frame_is_graphical(c, f) {
        return Ok(None);
    }
    decode_window_fringes(w, left, right, outside_margins, persistent)
}

/// What a window's scroll bars are asked to be.
#[derive(Debug)]
pub struct ScrollBarRequest {
    pub width: Option<i32>,
    pub vertical_type: Value,
    pub height: Option<i32>,
    pub horizontal_type: Value,
    pub persistent: bool,
}

/// An argument that stands for `t` where it is left out.
pub open spec fn or_t(v: Option<&Value>) -> Datum {
    match v {
        Some(x) => x@,
        None => Datum::T,
    }
}

/// What is asked for, or the first argument that cannot be used.
pub open spec fn is_scroll_bar_request(
    r: Result<Option<(u64, ScrollBarRequest)>, Signal>,
    w: u64,
    width: Datum,
    vertical: Datum,
    height: Datum,
    horizontal: Datum,
    persistent: Datum,
) -> bool {
    if lisp::dimension_of(width) is None {
        r matches Err(e) && lisp::is_dimension(Err(e), width)
    } else if !window_buffers::is_vertical_bar(vertical) {
        r matches Err(e) && lisp::is_error(e, "Invalid type of vertical scroll bar"@)
    } else if lisp::dimension_of(height) is None {
        r matches Err(e) && lisp::is_dimension(Err(e), height)
    } else if !window_buffers::is_horizontal_bar(horizontal) {
        r matches Err(e) && lisp::is_error(e, "Invalid type of horizontal scroll bar"@)
    } else {
        r matches Ok(Some((k, s))) && k == w && lisp::is_dimension(
            Ok(s.width),
            width,
        ) && s.vertical_type@
            == vertical && lisp::is_dimension(Ok(s.height), height) && s.horizontal_type@
            == horizontal && s.persistent == !(persistent is Nil)
    }
}

/// `(set-window-scroll-bars WINDOW WIDTH VERTICAL HEIGHT HORIZONTAL PERSISTENT)`: the
/// scroll bars that a window is to get. On a frame without a window system there are none.
pub fn builtin_set_window_scroll_bars(
    c: &mut Context,
    window: &Value,
    width: Option<&Value>,
    vertical: Option<&Value>,
    height: Option<&Value>,
    horizontal: Option<&Value>,
    persistent: Option<&Value>,
) -> (r: Result<Option<(u64, ScrollBarRequest)>, Signal>)
    requires
        old(c).has_room(),
    ensures
        window_state::ensured_for(*old(c), *final(c), window@),
        match window_state::window_target(*final(c), window@, WindowPredicate::Live) {
            None => r matches Err(e) && lisp::is_wrong_type(e, "window-live-p"@, window@),
            Some((f, id)) => if is_graphical(*final(c), f) {
                is_scroll_bar_request(
                    r,
                    id,
                    lisp::given(width),
                    or_t(vertical),
                    lisp::given(height),
                    or_t(horizontal),
                    lisp::given(persistent),
                )
            } else {
                r matches Ok(None)
            },
        },
{
    let (f, id): (u64, u64) = match window_state::resolve_window_id_with_pred(
        c,
        Some(window),
        WindowPredicate::Live,
    ) {
        Ok(t) => t,
        Err(e) => {
            return Err(e);
        },
    };
    if !frame_is_graphical(c, f) {
        return Ok(None);
    }
    let w: Option<i32> = match width {
        Some(v) => match lisp::optional_dimension(v) {
            Ok(n) => n,
            Err(e) => {
                return Err(e);
            },
        },
        None => None,
    };
    let vertical_type: Value = match vertical {
        Some(v) => lisp::copy(v),
        None => Value::T,
    };
    if !window_buffers::valid_vertical_scroll_bar_type(&vertical_type) {
        return Err(lisp::error("Invalid type of vertical scroll bar"));
    }
    let h: Option<i32> = match height {
        Some(v) => match lisp::optional_dimension(v) {
            Ok(n) => n,
            Err(e) => {
                return Err(e);
            },
        },
        None => None,
    };
    let horizontal_type: Value = match horizontal {
        Some(v) => lisp::copy(v),
        None => Value::T,
    };
    if !window_buffers::valid_horizontal_scroll_bar_type(&horizontal_type) {
        return Err(lisp::error("Invalid type of horizontal scroll bar"));
    }
    let request: ScrollBarRequest = ScrollBarRequest {
        width: w,
        vertical_type: vertical_type,
        height: h,
        horizontal_type: horizontal_type,
        persistent: lisp::is_given(persistent),
    };
    Ok(Some((id, request)))
}

/// `(windowp OBJECT)`: a window, deleted or not.
pub fn builtin_windowp(c: &Context, v: &Value) -> (r: bool)
    ensures
        r == (lisp::window_named(v@) matches Some(w) && c.is_window(w)),
{
    match lisp::window_id_from_designator(v) {
        Some(w) => c.is_window_object_id(w),
        None => false,
    }
}

/// `(window-valid-p OBJECT)`: a window that was not deleted.
pub fn builtin_window_valid_p(c: &Context, v: &Value) -> (r: bool)
    ensures
        r == (lisp::window_named(v@) matches Some(w) && c.valid_frame(w) is Some),
{
    match lisp::window_id_from_designator(v) {
        Some(w) => c.find_valid_window_frame_id(w).is_some(),
        None => false,
    }
}

/// `(window-live-p OBJECT)`: a window that shows a buffer.
pub fn builtin_window_live_p(c: &Context, v: &Value) -> (r: bool)
    ensures
        r == (lisp::window_named(v@) matches Some(w) && c.live_frame(w) is Some),
{
    match lisp::window_id_from_designator(v) {
        Some(w) => c.find_window_frame_id(w).is_some(),
        None => false,
    }
}

/// A live window is valid, and a valid window is a window.
pub proof fn law_live_is_valid_is_window(c: Context, w: u64)
    ensures
        c.live_frame(w) is Some ==> c.valid_frame(w) is Some,
        c.valid_frame(w) is Some ==> c.is_window(w),
{
}

/// `(window-discard-buffer-from-window BUFFER WINDOW)`: takes a buffer out of a window's
/// history.
pub fn builtin_window_discard_buffer_from_window(c: &mut Context, buffer: &Value, window: &Value) -> (r:
    Result<(), Signal>)
    ensures
        match buffer@ {
            Datum::Buffer(b) => if old(c).buffer(b) is None {
                *final(c) == *old(c) && (r matches Err(e) && lisp::is_error(
                    e,
                    "Not a live buffer"@,
                ))
            } else {
                match lisp::window_named(window@) {
                    Some(w) => if old(c).live_frame(w) is None {
                        *final(c) == *old(c) && (r matches Err(e) && lisp::is_error(
                            e,
                            "Not a live window"@,
                        ))
                    } else {
                        is_discarded(r, *old(c), *final(c), w, b)
                    },
                    None => *final(c) == *old(c) && (r matches Err(e) && lisp::is_error(
                        e,
                        "Not a live window"@,
                    )),
                }
            },
            _ => *final(c) == *old(c) && (r matches Err(e) && lisp::is_error(
                e,
                "Not a live buffer"@,
            )),
        },
{
    let b: u64 = match buffer {
        Value::Buffer(b) => if c.get_buffer(*b).is_some() {
            *b
        } else {
            return Err(lisp::error("Not a live buffer"));
        },
        _ => {
            return Err(lisp::error("Not a live buffer"));
        },
    };
    let w: u64 = match lisp::window_id_from_designator(window) {
        Some(w) => if c.find_window_frame_id(w).is_some() {
            w
        } else {
            return Err(lisp::error("Not a live window"));
        },
        None => {
            return Err(lisp::error("Not a live window"));
        },
    };
    let mut gone: Vec<u64> = Vec::new();
    gone.push(b);
    proof {
        assert(gone@ =~= seq![b]);
    }
    window_buffers::discard_buffers_from_window_history(c, w, &gone)
}

/// The session after a buffer was taken out of a window's history.
pub open spec fn is_discarded(
    r: Result<(), Signal>,
    a: Context,
    b: Context,
    w: u64,
    buffer: u64,
) -> bool {
    let prev = window_buffers::prev_of(a, w);
    let next = window_buffers::next_of(a, w);
    match (lisp::list_items(prev), lisp::list_items(next)) {
        (None, _) => b == a && (r matches Err(e) && lisp::is_wrong_type(e, "listp"@, prev)),
        (Some(p), None) => window_buffers::history_changed(
            a,
            b,
            w,
            lisp::list_of(window_buffers::prev_left(p, seq![buffer])),
            next,
        ) && (r matches Err(e) && lisp::is_wrong_type(e, "listp"@, next)),
        (Some(p), Some(n)) => r is Ok && window_buffers::history_changed(
            a,
            b,
            w,
            lisp::list_of(window_buffers::prev_left(p, seq![buffer])),
            lisp::list_of(window_buffers::next_left(n, seq![buffer])),
        ),
    }
}

/// How a window is to be split.
#[derive(Debug, Clone, Copy, PartialEq, Eq, Structural)]
pub struct SplitRequest {
    pub frame: u64,
    pub window: u64,
    pub horizontal: bool,
    /// The new window comes before the one that is split.
    pub before: bool,
    /// The size of the new window, or that of the old one with a minus; none for half.
    pub size: Option<i64>,
    /// The buffer that the new window shows.
    pub buffer: u64,
}

/// The side that a split is made on: below, where the argument names none.
pub open spec fn split_side(d: Datum) -> SplitWindowSide {
    match SplitWindowSide::named(d) {
        Some(s) => s,
        None => SplitWindowSide::Below,
    }
}

/// The size that an argument asks for.
pub open spec fn split_size(d: Datum) -> Option<i64> {
    match d {
        Datum::Fixnum(n) => if n != 0 {
            Some(n as i64)
        } else {
            None
        },
        _ => None,
    }
}

/// The buffer for a window that is split off: the same, or that of the frame's selected
/// window where the window shows none.
pub open spec fn split_buffer(c: Context, frame: u64, w: u64) -> u64 {
    let win = c.window(w)->0;
    if win.leaf {
        win.buffer
    } else {
        match c.frame(frame) {
            Some(f) => match c.window(f.selected_window) {
                Some(s) => if s.leaf {
                    s.buffer
                } else {
                    0
                },
                None => 0,
            },
            None => 0,
        }
    }
}

fn buffer_for_split(c: &Context, frame: u64, w: u64) -> (r: u64)
    requires
        c.window(w) is Some,
    ensures
        r == split_buffer(*c, frame, w),
{
    match c.get_window(w) {
        Some(win) => if win.leaf {
            win.buffer
        } else {
            match c.get_frame(frame) {
                Some(f) => match c.get_window(f.selected_window) {
                    Some(s) => if s.leaf {
                        s.buffer
                    } else {
                        0
                    },
                    None => 0,
                },
                None => 0,
            }
        },
        None => 0,
    }
}

/// What a split is to be, in a session whose selected window has taken over its
/// buffer's point.
pub open spec fn is_split_request(
    r: Result<SplitRequest, Signal>,
    m: Context,
    window: Datum,
    size: Datum,
    side: Datum,
) -> bool {
    match window_state::window_target(m, window, WindowPredicate::Valid) {
        None => r matches Err(e) && lisp::is_wrong_type(
            e,
            if lisp::window_named(window) is Some {
                "window-valid-p"@
            } else {
                "windowp"@
            },
            window,
        ),
        Some((f, w)) => if m.window(w) is None {
            r matches Err(e) && lisp::is_error(e, "Window not found"@)
        } else {
            let s = split_side(side);
            r == Ok::<SplitRequest, Signal>(
                SplitRequest {
                    frame: f,
                    window: w,
                    horizontal: s == SplitWindowSide::Left || s == SplitWindowSide::Right,
                    before: s == SplitWindowSide::Above || s == SplitWindowSide::Left,
                    size: split_size(size),
                    buffer: split_buffer(m, f, w),
                },
            )
        },
    }
}

/// The arguments of `split-window-internal`.
pub fn decode_split_window(c: &mut Context, window: &Value, size: &Value, side: &Value) -> (r: Result<
    SplitRequest,
    Signal,
>)
    requires
        old(c).has_room(),
    ensures
        window_state::ensured_for(*old(c), *final(c), window@),
        is_split_request(r, *final(c), window@, size@, side@),
{
    let (f, w): (u64, u64) = match window_state::resolve_window_id_or_error(c, Some(window)) {
        Ok(t) => t,
        Err(e) => {
            return Err(e);
        },
    };
    if c.get_window(w).is_none() {
        return Err(lisp::error("Window not found"));
    }
    let s: SplitWindowSide = match SplitWindowSide::from_lisp_value(side) {
        Some(s) => s,
        None => SplitWindowSide::Below,
    };
    let n: Option<i64> = match size {
        Value::Fixnum(n) => if *n != 0 {
            Some(*n)
        } else {
            None
        },
        _ => None,
    };
    Ok(
        SplitRequest {
            frame: f,
            window: w,
            horizontal: s.is_horizontal(),
            before: s.is_before(),
            size: n,
            buffer: buffer_for_split(c, f, w),
        },
    )
}

/// Whether `delete-window-internal` deletes a window, and on which frame: a window that
/// was deleted is left alone, and neither a minibuffer nor the only window of a frame is
/// deleted.
pub fn builtin_delete_window_internal(c: &mut Context, window: &Value) -> (r: Result<
    Option<(u64, u64)>,
    Signal,
>)
    requires
        old(c).has_room(),
    ensures
        window_state::ensured_for(*old(c), *final(c), window@),
        match window_state::object_target(*final(c), window@) {
            None => r matches Err(e) && lisp::is_wrong_type(e, "windowp"@, window@),
            Some(w) => match final(c).valid_frame(w) {
                None => r matches Ok(None),
                Some(f) => if final(c).frame(f) is None {
                    r matches Err(e) && lisp::is_error(e, "Frame not found"@)
                } else if window_buffers::is_mini(*final(c), f, w)
                    || window_lists::ordinary_windows(final(c).windows@, f).len() <= 1 {
                    r matches Err(e) && lisp::is_error(
                        e,
                        "Attempt to delete minibuffer or sole ordinary window"@,
                    )
                } else {
                    r == Ok::<Option<(u64, u64)>, Signal>(Some((f, w)))
                },
            },
        },
{
    let w: u64 = match window_state::resolve_window_object_id_with_pred(
        c,
        Some(window),
        WindowPredicate::Windowp,
    ) {
        Ok(w) => w,
        Err(e) => {
            return Err(e);
        },
    };
    let f: u64 = match c.find_valid_window_frame_id(w) {
        Some(f) => f,
        None => {
            return Ok(None);
        },
    };
    if c.get_frame(f).is_none() {
        return Err(lisp::error("Frame not found"));
    }
    let list: Vec<u64> = window_lists::frame_window_list(&c.windows, f);
    if window_buffers::is_minibuffer_window(c, f, w) || list.len() <= 1 {
        return Err(lisp::error("Attempt to delete minibuffer or sole ordinary window"));
    }
    Ok(Some((f, w)))
}

/// `(combine-windows FIRST LAST)`: nothing but checks.
pub fn builtin_combine_windows(c: &mut Context, first: &Value, last: &Value) -> (r: Result<
    (),
    Signal,
>)
    requires
        old(c).has_room(),
    ensures
        window_state::ensured(*old(c), *final(c)),
        match (
            window_state::window_target(*final(c), first@, WindowPredicate::Valid),
            window_state::window_target(*final(c), last@, WindowPredicate::Valid),
        ) {
            (None, _) => r matches Err(e) && lisp::is_wrong_type(
                e,
                "window-valid-p"@,
                first@,
            ),
            (Some(_), None) => r matches Err(e) && lisp::is_wrong_type(
                e,
                "window-valid-p"@,
                last@,
            ),
            (Some((_, a)), Some((_, b))) => if a == b {
                r matches Err(e) && lisp::is_error(e, "Cannot combine a window with itself"@)
            } else {
                r is Ok
            },
        },
{
    let (_, a): (u64, u64) = match ensured_window(c, Some(first), WindowPredicate::Valid) {
        Ok(t) => t,
        Err(e) => {
            return Err(e);
        },
    };
    let (_, b): (u64, u64) = match lookup_window(c, Some(last), WindowPredicate::Valid) {
        Ok(t) => t,
        Err(e) => {
            return Err(e);
        },
    };
    if a == b {
        return Err(lisp::error("Cannot combine a window with itself"));
    }
    Ok(())
}

/// `(uncombine-window WINDOW)`: nothing but checks.
pub fn builtin_uncombine_window(c: &mut Context, window: &Value) -> (r: Result<(), Signal>)
    requires
        old(c).has_room(),
    ensures
        window_state::ensured_for(*old(c), *final(c), window@),
        match window_state::window_target(*final(c), window@, WindowPredicate::Valid) {
            None => r matches Err(e) && lisp::is_wrong_type(
                e,
                "window-valid-p"@,
                window@,
            ),
            Some((f, w)) => if window_buffers::is_mini(*final(c), f, w) {
                r matches Err(e) && lisp::is_error(e, "Cannot uncombine a mini window"@)
            } else {
                r is Ok
            },
        },
{
    match window_state::resolve_window_id_with_pred(c, Some(window), WindowPredicate::Valid) {
        Ok((f, w)) => if window_buffers::is_minibuffer_window(c, f, w) {
            Err(lisp::error("Cannot uncombine a mini window"))
        } else {
            Ok(())
        },
        Err(e) => Err(e),
    }
}

/// The side of a rectangle along which sizes are staged.
pub open spec fn side_along(b: Rect, horizontal: bool) -> i64 {
    if horizontal {
        b.width
    } else {
        b.height
    }
}

/// The size that is staged for the root window of a frame is the one that it has.
pub open spec fn root_stays(c: Context, frame: u64, horizontal: bool) -> bool {
    match c.window(c.frame(frame)->0.root_window) {
        Some(w) => w.new_pixel matches Some(n) ==> n == side_along(w.bounds, horizontal),
        None => false,
    }
}

/// `(window-resize-apply FRAME HORIZONTAL)`: the frame whose windows get the sizes that are
/// staged for them, if one does: only where they add up, as `adds_up` says, and the root
/// window keeps its size.
pub fn builtin_window_resize_apply(
    c: &mut Context,
    frame: Option<&Value>,
    horizontal: Option<&Value>,
    adds_up: bool,
) -> (r: Result<Option<u64>, Signal>)
    requires
        old(c).has_room(),
    ensures
        window_state::ensured_for(*old(c), *final(c), lisp::given(frame)),
        match window_state::frame_target(*final(c), lisp::given(frame)) {
            None => r matches Err(e) && lisp::is_wrong_type(
                e,
                "frame-live-p"@,
                lisp::given(frame),
            ),
            Some(f) => r == Ok::<Option<u64>, Signal>(
                if adds_up && root_stays(*final(c), f, !(lisp::given(horizontal) is Nil)) {
                    Some(f)
                } else {
                    None
                },
            ),
        },
{
    let f: u64 = match window_state::resolve_frame_id(c, frame, "frame-live-p") {
        Ok(f) => f,
        Err(e) => {
            return Err(e);
        },
    };
    let along: bool = lisp::is_given(horizontal);
    let root: u64 = match c.get_frame(f) {
        Some(frame) => frame.root_window,
        None => {
            return Ok(None);
        },
    };
    let stays: bool = match c.get_window(root) {
        Some(w) => match w.new_pixel {
            Some(n) => n == if along {
                w.bounds.width
            } else {
                w.bounds.height
            },
            None => true,
        },
        None => false,
    };
    if adds_up && stays {
        Ok(Some(f))
    } else {
        Ok(None)
    }
}

/// Where the columns and lines of a frame's windows are counted from.
#[derive(Debug, Clone, Copy, PartialEq, Eq, Structural)]
pub struct TotalRoot {
    pub frame: u64,
    pub horizontal: bool,
    pub left_col: i64,
    pub top_line: i64,
}

/// The first half of `(window-resize-apply-total FRAME HORIZONTAL)`: the columns of a
/// frame's windows are counted from the first one, the lines from the one below the
/// frame's bars, which take `top_margin` lines. The second half is
/// `finish_window_resize_apply_total`; between the two, the sizes that are staged for the
/// windows are applied.
pub fn builtin_window_resize_apply_total(
    c: &mut Context,
    frame: Option<&Value>,
    horizontal: Option<&Value>,
    top_margin: i64,
) -> (r: Result<TotalRoot, Signal>)
    requires
        old(c).has_room(),
    ensures
        window_state::ensured_for(*old(c), *final(c), lisp::given(frame)),
        match window_state::frame_target(*final(c), lisp::given(frame)) {
            None => r matches Err(e) && lisp::is_wrong_type(
                e,
                "frame-live-p"@,
                lisp::given(frame),
            ),
            Some(f) => r == Ok::<TotalRoot, Signal>(
                (TotalRoot {
                    frame: f,
                    horizontal: !(lisp::given(horizontal) is Nil),
                    left_col: 0,
                    top_line: top_margin,
                }),
            ),
        },
{
    match window_state::resolve_frame_id(c, frame, "frame-live-p") {
        Ok(f) => Ok(
            TotalRoot {
                frame: f,
                horizontal: lisp::is_given(horizontal),
                left_col: 0,
                top_line: top_margin,
            },
        ),
        Err(e) => Err(e),
    }
}

/// The minibuffer of a frame's own that lines are staged for.
pub open spec fn staged_minibuffer(c: Context, frame: u64) -> Option<int> {
    match c.frame(frame) {
        Some(f) => match f.minibuffer_window {
            Some(w) => match window_state::window_place(c.windows@, w) {
                Some(i) => if c.windows@[i].mini && c.windows@[i].frame == frame
                    && c.windows@[i].new_total is Some && c.window(f.root_window) is Some {
                    Some(i)
                } else {
                    None
                },
                None => None,
            },
            None => None,
        },
        None => None,
    }
}

/// Where the minibuffer comes to stand: below the root window, so many lines high.
pub open spec fn staged_place(c: Context, frame: u64, i: int) -> (int, int) {
    let f = c.frame(frame)->0;
    let root = c.window(f.root_window)->0.bounds;
    (
        root.y + root.height,
        frame_size::at_least(c.windows@[i].new_total->0 as int, 0) * f.char_height,
    )
}

/// The session after lines that are staged for a minibuffer were applied to it.
pub open spec fn is_total_applied(a: Context, b: Context, root: TotalRoot) -> bool {
    match staged_minibuffer(a, root.frame) {
        Some(i) => if root.horizontal {
            b == a
        } else {
            let (top, height) = staged_place(a, root.frame, i);
            let w = a.windows@[i];
            &&& b == (Context { windows: b.windows, ..a })
            &&& b.windows@ == a.windows@.update(
                i,
                Window {
                    bounds: Rect { y: top as i64, height: height as i64, ..w.bounds },
                    new_total: None,
                    ..w
                },
            )
        },
        None => b == a,
    }
}

/// The second half of `(window-resize-apply-total FRAME HORIZONTAL)`: lines that are staged
/// for the frame's minibuffer are applied to it.
pub fn finish_window_resize_apply_total(c: &mut Context, root: TotalRoot)
    requires
        staged_minibuffer(*old(c), root.frame) matches Some(i) ==> {
            let (top, height) = staged_place(*old(c), root.frame, i);
            i64::MIN <= top <= i64::MAX && height <= i64::MAX
        },
    ensures
        is_total_applied(*old(c), *final(c), root),
{
    if root.horizontal {
        return;
    }
    let (mini, top_window, line): (u64, u64, u32) = match c.get_frame(root.frame) {
        Some(f) => match f.minibuffer_window {
            Some(w) => (w, f.root_window, f.char_height),
            None => {
                return;
            },
        },
        None => {
            return;
        },
    };
    let around: Rect = match c.get_window(top_window) {
        Some(w) => w.bounds,
        None => {
            return;
        },
    };
    match window_state::find_window(&c.windows, mini) {
        Some(i) => if c.windows[i].mini && c.windows[i].frame == root.frame {
            match c.windows[i].new_total {
                Some(n) => {
                    let lines: i64 = if n >= 0 {
                        n
                    } else {
                        0
                    };
                    proof {
                        assert(staged_minibuffer(*c, root.frame) == Some(i as int));
                        assert(0 <= lines * line) by (nonlinear_arith)
                            requires
                                0 <= lines,
                                0 <= line,
                        ;
                    }
                    let height: i64 = lines * line as i64;
                    let top: i64 = around.y + around.height;
                    c.windows[i].bounds.y = top;
                    c.windows[i].bounds.height = height;
                    c.windows[i].new_total = None;
                    proof {
                        assert(c.windows@ =~= old(c).windows@.update(
                            i as int,
                            c.windows@[i as int],
                        ));
                    }
                },
                None => {},
            }
        },
        None => {},
    }
}

/// Some live window shows a buffer.
pub open spec fn is_shown(v: Seq<Window>, buffer: u64) -> bool {
    exists|i: int| 0 <= i < v.len() && (#[trigger] v[i]).leaf && v[i].buffer == buffer
}

fn any_shows(v: &Vec<Window>, buffer: u64) -> (r: bool)
    ensures
        r == is_shown(v@, buffer),
{
    let mut i: usize = 0;
    while i < v.len()
        invariant
            i <= v.len(),
            forall|k: int|
                0 <= k < i ==> !((#[trigger] v@[k]).leaf && v@[k].buffer == buffer),
        decreases v.len() - i,
    {
        if v[i].leaf && v[i].buffer == buffer {
            return true;
        }
        i += 1;
    }
    false
}

/// `(force-window-update OBJECT)`: whether something is displayed anew: everything for
/// `nil`, a live window, and a buffer, or the buffer of a name, that some window shows.
pub fn builtin_force_window_update(c: &Context, object: Option<&Value>) -> (r: bool)
    ensures
        r == match lisp::given(object) {
            Datum::Nil => true,
            Datum::Window(w) => c.live_frame(w) is Some,
            Datum::Buffer(b) => is_shown(c.windows@, b),
            Datum::Text(name) => match window_state::buffer_named(c.buffers@, name) {
                Some(i) => is_shown(c.windows@, c.buffers@[i].id),
                None => false,
            },
            _ => false,
        },
{
    match object {
        None => true,
        Some(v) => match v {
            Value::Nil => true,
            Value::Window(w) => c.find_window_frame_id(*w).is_some(),
            Value::Buffer(b) => any_shows(&c.windows, *b),
            Value::Text(name) => match window_state::find_buffer_by_name(
                &c.buffers,
                name.as_str(),
            ) {
                Some(i) => any_shows(&c.windows, c.buffers[i].id),
                None => false,
            },
            _ => false,
        },
    }
}

/// `(window-bump-use-time WINDOW)`: the window that is meant. A number is no window
/// here.
pub fn bump_target(c: &mut Context, window: Option<&Value>) -> (r: Result<(u64, u64), Signal>)
    requires
        old(c).has_room(),
    ensures
        window_state::ensured(*old(c), *final(c)),
        ({
            let selected = final(c).selected()->0.selected_window;
            match lisp::given(window) {
                Datum::Nil => r == Ok::<(u64, u64), Signal>((selected, selected)),
                Datum::Window(w) => if final(c).live_frame(w) is Some {
                    r == Ok::<(u64, u64), Signal>((selected, w))
                } else {
                    r matches Err(e) && lisp::is_wrong_type(
                        e,
                        "window-live-p"@,
                        lisp::given(window),
                    )
                },
                _ => r matches Err(e) && lisp::is_wrong_type(
                    e,
                    "window-live-p"@,
                    lisp::given(window),
                ),
            }
        }),
{
    let selected: u64 = builtin_selected_window(c);
    match window {
        None => Ok((selected, selected)),
        Some(v) => match v {
            Value::Nil => Ok((selected, selected)),
            Value::Window(w) => if c.find_window_frame_id(*w).is_some() {
                Ok((selected, *w))
            } else {
                Err(lisp::wrong_type("window-live-p", v))
            },
            _ => Err(lisp::wrong_type("window-live-p", v)),
        },
    }
}

/// What `delete-other-windows-internal` keeps: a window, in place of the root of the
/// windows that go. The root is that of the frame unless another one is named.
pub fn decode_delete_other_windows(c: &mut Context, window: Option<&Value>, root: Option<&Value>) -> (r:
    Result<(u64, u64, u64), Signal>)
    requires
        old(c).has_room(),
    ensures
        window_state::ensured_for(*old(c), *final(c), lisp::given(window)),
        match window_state::window_target(*final(c), lisp::given(window), WindowPredicate::Valid) {
            None => r matches Err(e) && lisp::is_wrong_type(
                e,
                "window-valid-p"@,
                lisp::given(window),
            ),
            Some((f, keep)) => match final(c).frame(f) {
                None => r matches Err(e) && lisp::is_error(e, "Frame not found"@),
                Some(frame) => if lisp::given(root) is Nil {
                    r == Ok::<(u64, u64, u64), Signal>((f, keep, frame.root_window))
                } else {
                    match window_state::object_target(*final(c), lisp::given(root)) {
                        None => r matches Err(e) && lisp::is_wrong_type(
                            e,
                            "window-valid-p"@,
                            lisp::given(root),
                        ),
                        Some(w) => if final(c).valid_frame(w) == Some(f) {
                            r == Ok::<(u64, u64, u64), Signal>((f, keep, w))
                        } else {
                            r matches Err(e) && lisp::is_error(
                                e,
                                "Specified root is not an ancestor of specified window"@,
                            )
                        },
                    }
                },
            },
        },
{
    let (f, keep): (u64, u64) = match window_state::resolve_window_id_with_pred(
        c,
        window,
        WindowPredicate::Valid,
    ) {
        Ok(t) => t,
        Err(e) => {
            return Err(e);
        },
    };
    let top: u64 = match c.get_frame(f) {
        Some(frame) => frame.root_window,
        None => {
            return Err(lisp::error("Frame not found"));
        },
    };
    let v: &Value = match root {
        Some(v) => v,
        None => {
            return Ok((f, keep, top));
        },
    };
    if lisp::is_nil(v) {
        return Ok((f, keep, top));
    }
    let w: u64 = match lisp::window_id_from_designator(v) {
        Some(w) => if c.is_window_object_id(w) {
            w
        } else {
            return Err(lisp::wrong_type("window-valid-p", v));
        },
        None => {
            return Err(lisp::wrong_type("window-valid-p", v));
        },
    };
    let same: bool = match c.find_valid_window_frame_id(w) {
        Some(on) => on == f,
        None => false,
    };
    if same {
        Ok((f, keep, w))
    } else {
        Err(lisp::error("Specified root is not an ancestor of specified window"))
    }
}

/// `(window-combination-limit WINDOW)`. Only an inner window has a limit.
pub fn builtin_window_combination_limit(c: &mut Context, window: &Value) -> (r: Result<bool, Signal>)
    requires
        old(c).has_room(),
    ensures
        window_state::ensured(*old(c), *final(c)),
        match window_state::window_target(*final(c), window@, WindowPredicate::Valid) {
            None => r matches Err(e) && lisp::is_wrong_type(e, "window-valid-p"@, window@),
            Some((_, w)) => match final(c).window(w) {
                None => r matches Err(e) && lisp::is_error(e, "Window not found"@),
                Some(win) => if win.leaf {
                    r matches Err(e) && lisp::is_error(
                        e,
                        "Combination limit is meaningful for internal windows only"@,
                    )
                } else {
                    r == Ok::<bool, Signal>(win.combination_limit)
                },
            },
        },
{
    match ensured_place(c, Some(window), WindowPredicate::Valid) {
        Ok(i) => if c.windows[i].leaf {
            Err(lisp::error("Combination limit is meaningful for internal windows only"))
        } else {
            Ok(c.windows[i].combination_limit)
        },
        Err(e) => Err(e),
    }
}

/// What setting the limit of a combination comes to.
pub open spec fn is_limit_set(
    r: Result<Value, Signal>,
    m: Context,
    b: Context,
    window: Datum,
    limit: Datum,
) -> bool {
    match window_state::window_target(m, window, WindowPredicate::Valid) {
        None => b == m && (r matches Err(e) && lisp::is_wrong_type(e, "window-valid-p"@, window)),
        Some((_, w)) => match m.window(w) {
            None => b == m && (r matches Err(e) && lisp::is_error(e, "Window not found"@)),
            Some(win) => if win.leaf {
                b == m && (r matches Err(e) && lisp::is_error(
                    e,
                    "Combination limit is meaningful for internal windows only"@,
                ))
            } else {
                &&& r matches Ok(v) && v@ == limit
                &&& window_state::window_changed(
                    m,
                    b,
                    w,
                    (Window { combination_limit: !(limit is Nil), ..win }),
                )
            },
        },
    }
}

/// `(set-window-combination-limit WINDOW LIMIT)`: sets the limit of an inner window and
/// gives it back.
pub fn builtin_set_window_combination_limit(c: &mut Context, window: &Value, limit: &Value) -> (r:
    Result<Value, Signal>)
    requires
        old(c).has_room(),
    ensures
        exists|m: Context| #[trigger]
            window_state::ensured(*old(c), m) && is_limit_set(
                r,
                m,
                *final(c),
                window@,
                limit@,
            ),
{
    let found: Result<usize, Signal> = ensured_place(c, Some(window), WindowPredicate::Valid);
    let ghost m = *c;
    proof {
        assert(window_state::ensured(*old(c), m));
    }
    let i: usize = match found {
        Ok(i) => i,
        Err(e) => {
            return Err(e);
        },
    };
    if c.windows[i].leaf {
        return Err(lisp::error("Combination limit is meaningful for internal windows only"));
    }
    c.windows[i].combination_limit = !lisp::is_nil(limit);
    proof {
        assert(c.windows@ =~= m.windows@.update(i as int, c.windows@[i as int]));
    }
    Ok(lisp::copy(limit))
}

/// The limit that was set is read back.
pub proof fn law_limit_is_read_back(
    r: Result<Value, Signal>,
    m: Context,
    b: Context,
    window: Datum,
    limit: Datum,
)
    requires
        is_limit_set(r, m, b, window, limit),
        r is Ok,
    ensures
        window_state::window_target(m, window, WindowPredicate::Valid) matches Some((_, w))
            && (b.window(w) matches Some(win) && !win.leaf && win.combination_limit == !(
        limit is Nil)),
{
    match window_state::window_target(m, window, WindowPredicate::Valid) {
        Some((_, w)) => {
            let i = window_state::window_place(m.windows@, w)->0;
            window_state::lemma_index_in(window_state::window_ids(m.windows@), w);
            assert(window_state::window_ids(b.windows@) =~= window_state::window_ids(m.windows@));
        },
        None => {},
    }
}

/// A cursor that can be seen, and of which type it is.
#[derive(Debug)]
pub struct CursorInfo {
    pub cursor_type: Value,
    pub cursor: DrawnCursor,
}

/// The cursor of a window that can be seen.
pub open spec fn seen_cursor(w: Window) -> Option<DrawnCursor> {
    match w.display {
        Some(d) => if d.on && !d.off {
            d.cursor
        } else {
            None
        },
        None => None,
    }
}

/// `(window-cursor-info WINDOW)`: the cursor that can be seen, if any.
pub fn builtin_window_cursor_info(c: &mut Context, window: Option<&Value>) -> (r: Result<
    Option<CursorInfo>,
    Signal,
>)
    requires
        old(c).has_room(),
    ensures
        window_state::ensured(*old(c), *final(c)),
        match window_state::window_target(*final(c), lisp::given(window), WindowPredicate::Live) {
            None => r matches Err(e) && lisp::is_wrong_type(
                e,
                "window-live-p"@,
                lisp::given(window),
            ),
            Some((_, w)) => match final(c).window(w) {
                None => r matches Ok(None),
                Some(win) => match seen_cursor(win) {
                    None => r matches Ok(None),
                    Some(cursor) => r matches Ok(Some(info)) && info.cursor == cursor
                        && info.cursor_type@ == win.cursor_type@,
                },
            },
        },
{
    let (_, w): (u64, u64) = match ensured_window(c, window, WindowPredicate::Live) {
        Ok(t) => t,
        Err(e) => {
            return Err(e);
        },
    };
    match c.get_window(w) {
        Some(win) => match win.display {
            Some(d) => if d.on && !d.off {
                match d.cursor {
                    Some(cursor) => Ok(
                        Some(CursorInfo { cursor_type: lisp::copy(&win.cursor_type), cursor: cursor }),
                    ),
                    None => Ok(None),
                }
            } else {
                Ok(None)
            },
            None => Ok(None),
        },
        None => Ok(None),
    }
}

} // verus!
