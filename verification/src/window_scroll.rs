//! Where in its buffer a window begins, where its point is, and how it is scrolled.
use vstd::prelude::*;

use crate::lisp;
use crate::lisp::{Condition, Datum, IntegerOrMarkerArg, Signal, Value};
use crate::window_buffers;
use crate::window_state;
use crate::window_state::{Buffer, Context, Window, WindowPredicate};

verus! {

/// The position that an argument gives; none for a marker that points nowhere.
pub open spec fn position_of(d: Datum) -> Option<int> {
    match d {
        Datum::Fixnum(n) => Some(n),
        Datum::Marker(_, Some(p)) => Some(p as int),
        _ => None,
    }
}

pub open spec fn is_position_arg(d: Datum) -> bool {
    d is Fixnum || d is Marker
}

/// The position that a window is given: none in a minibuffer, nor for a position before
/// the text.
pub open spec fn new_position(c: Context, frame: u64, w: u64, d: Datum) -> Option<int> {
    match position_of(d) {
        Some(p) => if window_buffers::is_mini(c, frame, w) || c.window(w) is None {
            None
        } else {
            window_state::clamped(c, w, p)
        },
        None => None,
    }
}

fn find_position(c: &Context, frame: u64, w: u64, arg: IntegerOrMarkerArg) -> (r: Option<i64>)
    ensures
        forall|d: Datum|
            (match arg {
                IntegerOrMarkerArg::Int(n) => d == Datum::Fixnum(n as int),
                IntegerOrMarkerArg::Marker(p) => d is Marker && d->Marker_1 == p,
            }) ==> match r {
                Some(p) => #[trigger] new_position(*c, frame, w, d) == Some(p as int),
                None => new_position(*c, frame, w, d) is None,
            },
{
    let pos: i64 = match arg {
        IntegerOrMarkerArg::Int(n) => n,
        IntegerOrMarkerArg::Marker(p) => match p {
            Some(n) => n,
            None => {
                return None;
            },
        },
    };
    if window_buffers::is_minibuffer_window(c, frame, w) || c.get_window(w).is_none() {
        return None;
    }
    window_state::clamped_window_position(c, w, pos)
}

/// A window with a new start. A start that is forced is kept by the next display, so
/// that the end of the window is no longer known.
pub open spec fn started_at(w: Window, start: int, force: bool) -> Window {
    Window {
        start: start as i64,
        force_start: if w.leaf {
            force
        } else {
            w.force_start
        },
        end_valid: if force {
            false
        } else {
            w.end_valid
        },
        ..w
    }
}

/// What `set-window-start` comes to.
pub open spec fn is_start_set(
    r: Result<(u64, Value), Signal>,
    m: Context,
    b: Context,
    window: Datum,
    pos: Datum,
    force: bool,
) -> bool {
    match window_state::window_target(m, window, WindowPredicate::Live) {
        None => b == m && (r matches Err(e) && lisp::is_wrong_type(e, "window-live-p"@, window)),
        Some((f, w)) => if !is_position_arg(pos) {
            b == m && (r matches Err(e) && lisp::is_wrong_type(e, "integer-or-marker-p"@, pos))
        } else {
            &&& r matches Ok((x, v)) && x == w && v@ == pos
            &&& match new_position(m, f, w, pos) {
                Some(p) => window_state::window_changed(
                    m,
                    b,
                    w,
                    started_at(m.window(w)->0, p, force),
                ),
                None => b == m,
            }
        },
    }
}

/// `(set-window-start WINDOW POS NOFORCE)`: gives a window its first position, which is
/// brought into the text. Gives the position back as it was given, and the window.
pub fn builtin_set_window_start(
    c: &mut Context,
    window: &Value,
    pos: &Value,
    noforce: Option<&Value>,
) -> (r: Result<(u64, Value), Signal>)
    requires
        old(c).has_room(),
    ensures
        exists|m: Context| #[trigger]
            window_state::ensured_for(*old(c), m, window@) && is_start_set(
                r,
                m,
                *final(c),
                window@,
                pos@,
                lisp::given(noforce) is Nil,
            ),
{
    let target: Result<(u64, u64), Signal> = window_state::resolve_window_id_with_pred(
        c,
        Some(window),
        WindowPredicate::Live,
    );
    let ghost m = *c;
    proof {
        assert(window_state::ensured_for(*old(c), m, window@));
    }
    let (f, w): (u64, u64) = match target {
        Ok(t) => t,
        Err(e) => {
            return Err(e);
        },
    };
    let arg: IntegerOrMarkerArg = match lisp::parse_integer_or_marker_arg(pos) {
        Ok(a) => a,
        Err(e) => {
            return Err(e);
        },
    };
    let force: bool = !lisp::is_given(noforce);
    let place: Option<i64> = find_position(c, f, w, arg);
    proof {
        assert(match place {
            Some(p) => new_position(m, f, w, pos@) == Some(p as int),
            None => new_position(m, f, w, pos@) is None,
        });
    }
    match place {
        Some(p) => match window_state::find_window(&c.windows, w) {
            Some(i) => {
                c.windows[i].start = p;
                if c.windows[i].leaf {
                    c.windows[i].force_start = force;
                }
                if force {
                    c.windows[i].end_valid = false;
                }
                proof {
                    assert(c.windows@ =~= m.windows@.update(
                        i as int,
                        started_at(m.windows@[i as int], p as int, force),
                    ));
                }
            },
            None => {},
        },
        None => {},
    }
    Ok((w, lisp::copy(pos)))
}

/// The session after a window's point was moved, and with it that of its buffer, where
/// the window is its frame's selected one.
pub open spec fn point_moved(a: Context, b: Context, frame: u64, w: u64, p: int) -> bool {
    let win = a.window(w)->0;
    &&& window_state::window_place(a.windows@, w) is Some
    &&& b == (Context { windows: b.windows, buffers: b.buffers, ..a })
    &&& b.windows@ == a.windows@.update(
        window_state::window_place(a.windows@, w)->0,
        Window { point: p as i64, ..win },
    )
    &&& match window_state::buffer_place(a.buffers@, win.buffer) {
        Some(i) => if win.leaf && (a.frame(frame) matches Some(f) && f.selected_window == w) {
            let buf = a.buffers@[i];
            b.buffers@ == a.buffers@.update(
                i,
                Buffer { point: window_buffers::in_text(buf, p as i64), ..buf },
            )
        } else {
            b.buffers == a.buffers
        },
        None => b.buffers == a.buffers,
    }
}

fn move_point(c: &mut Context, frame: u64, w: u64, p: i64)
    requires
        old(c).window(w) is Some,
    ensures
        point_moved(*old(c), *final(c), frame, w, p as int),
{
    let selected: bool = match c.get_frame(frame) {
        Some(f) => f.selected_window == w,
        None => false,
    };
    match window_state::find_window(&c.windows, w) {
        Some(i) => {
            let buffer: u64 = c.windows[i].buffer;
            let leaf: bool = c.windows[i].leaf;
            c.windows[i].point = p;
            proof {
                assert(c.windows@ =~= old(c).windows@.update(
                    i as int,
                    Window { point: p, ..old(c).windows@[i as int] },
                ));
            }
            if selected && leaf {
                match window_state::find_buffer(&c.buffers, buffer) {
                    Some(k) => {
                        let at: i64 = window_buffers::nearest_in_text(c.buffers[k].length, p);
                        c.buffers[k].point = at;
                        proof {
                            let buf = old(c).buffers@[k as int];
                            assert(c.buffers@ =~= old(c).buffers@.update(
                                k as int,
                                Buffer { point: window_buffers::in_text(buf, p), ..buf },
                            ));
                        }
                    },
                    None => {},
                }
            }
        },
        None => {},
    }
}

/// What `set-window-point` gives back: a number as it was given; for a marker the
/// position that was set, or one.
pub open spec fn point_result(c: Context, frame: u64, w: u64, d: Datum) -> Datum {
    if d is Marker && !window_buffers::is_mini(c, frame, w) {
        match window_state::clamped(c, w, position_of(d)->0) {
            Some(p) => Datum::Fixnum(p),
            None => Datum::Fixnum(1),
        }
    } else {
        d
    }
}

/// What `set-window-point` comes to.
pub open spec fn is_point_set(
    r: Result<Value, Signal>,
    m: Context,
    b: Context,
    window: Datum,
    pos: Datum,
) -> bool {
    match window_state::window_target(m, window, WindowPredicate::Live) {
        None => b == m && (r matches Err(e) && lisp::is_wrong_type(e, "window-live-p"@, window)),
        Some((f, w)) => if !is_position_arg(pos) {
            b == m && (r matches Err(e) && lisp::is_wrong_type(e, "integer-or-marker-p"@, pos))
        } else if position_of(pos) is None && !window_buffers::is_mini(m, f, w) {
            b == m && (r matches Err(e) && lisp::is_error(e, "Marker does not point anywhere"@))
        } else {
            &&& r matches Ok(v) && v@ == point_result(m, f, w, pos)
            &&& match new_position(m, f, w, pos) {
                Some(p) => point_moved(m, b, f, w, p),
                None => b == m,
            }
        },
    }
}

/// `(set-window-point WINDOW POS)`: moves a window's point into the text.
pub fn builtin_set_window_point(c: &mut Context, window: &Value, pos: &Value) -> (r: Result<
    Value,
    Signal,
>)
    requires
        old(c).has_room(),
    ensures
        exists|m: Context| #[trigger]
            window_state::ensured_for(*old(c), m, window@) && is_point_set(
                r,
                m,
                *final(c),
                window@,
                pos@,
            ),
{
    let target: Result<(u64, u64), Signal> = window_state::resolve_window_id_with_pred(
        c,
        Some(window),
        WindowPredicate::Live,
    );
    let ghost m = *c;
    proof {
        assert(window_state::ensured_for(*old(c), m, window@));
    }
    let (f, w): (u64, u64) = match target {
        Ok(t) => t,
        Err(e) => {
            return Err(e);
        },
    };
    let arg: IntegerOrMarkerArg = match lisp::parse_integer_or_marker_arg(pos) {
        Ok(a) => a,
        Err(e) => {
            return Err(e);
        },
    };
    let mini: bool = window_buffers::is_minibuffer_window(c, f, w);
    let result: Value = match arg {
        IntegerOrMarkerArg::Int(_) => lisp::copy(pos),
        IntegerOrMarkerArg::Marker(p) => if mini {
            lisp::copy(pos)
        } else {
            match p {
                None => {
                    return Err(lisp::error("Marker does not point anywhere"));
                },
                Some(n) => match window_state::clamped_window_position(c, w, n) {
                    Some(at) => Value::Fixnum(at),
                    None => Value::Fixnum(1),
                },
            }
        },
    };
    let place: Option<i64> = find_position(c, f, w, arg);
    proof {
        assert(match place {
            Some(p) => new_position(m, f, w, pos@) == Some(p as int),
            None => new_position(m, f, w, pos@) is None,
        });
    }
    match place {
        Some(p) => {
            move_point(c, f, w, p);
        },
        None => {},
    }
    Ok(result)
}

/// Where a window's point is: the selected window of a frame goes by its buffer.
pub open spec fn effective_point(c: Context, frame: u64, w: u64) -> int {
    match c.window(w) {
        Some(win) => if !win.leaf {
            0
        } else {
            match (c.frame(frame), c.buffer(win.buffer)) {
                (Some(f), Some(b)) => if f.selected_window == w && w != 0 {
                    b.point as int
                } else {
                    win.point as int
                },
                _ => win.point as int,
            }
        },
        None => 0,
    }
}

/// `(window-point WINDOW)`: where a window's point is.
pub fn builtin_window_point(c: &mut Context, window: Option<&Value>) -> (r: Result<i64, Signal>)
    requires
        old(c).has_room(),
    ensures
        window_state::ensured_for(*old(c), *final(c), lisp::given(window)),
        match window_state::window_target(*final(c), lisp::given(window), WindowPredicate::Live) {
            None => r matches Err(e) && lisp::is_wrong_type(
                e,
                "window-live-p"@,
                lisp::given(window),
            ),
            Some((f, w)) => if final(c).window(w) is None {
                r matches Err(e) && lisp::is_error(e, "Window not found"@)
            } else {
                r matches Ok(p) && p == effective_point(*final(c), f, w)
            },
        },
{
    let (f, w): (u64, u64) = match window_state::resolve_window_id_with_pred(
        c,
        window,
        WindowPredicate::Live,
    ) {
        Ok(t) => t,
        Err(e) => {
            return Err(e);
        },
    };
    let win: &Window = match c.get_window(w) {
        Some(win) => win,
        None => {
            return Err(lisp::error("Window not found"));
        },
    };
    if !win.leaf {
        return Ok(0);
    }
    let selected: bool = match c.get_frame(f) {
        Some(fr) => fr.selected_window == w && w != 0,
        None => false,
    };
    if selected {
        match c.get_buffer(win.buffer) {
            Some(b) => {
                return Ok(b.point);
            },
            None => {},
        }
    }
    Ok(win.point)
}

/// A point that was set is read back, brought into the text.
pub proof fn law_point_is_read_back(a: Context, b: Context, frame: u64, w: u64, p: int)
    requires
        point_moved(a, b, frame, w, p),
        a.window(w) is Some,
        a.window(w)->0.leaf,
        window_state::clamped(a, w, p) == Some(p),
        i64::MIN <= p <= i64::MAX,
        a.buffer(a.window(w)->0.buffer) is Some,
        w != 0,
    ensures
        effective_point(b, frame, w) == p,
{
    let win = a.window(w)->0;
    let i = window_state::window_place(a.windows@, w)->0;
    window_state::lemma_index_in(window_state::window_ids(a.windows@), w);
    window_state::lemma_index_in(window_state::buffer_ids(a.buffers@), win.buffer);
    assert(window_state::window_ids(b.windows@) =~= window_state::window_ids(a.windows@));
    assert(window_state::buffer_ids(b.buffers@) =~= window_state::buffer_ids(a.buffers@));
}

/// The amount that a window is scrolled sideways by after a step.
pub open spec fn hscroll_after(base: u64, delta: int) -> int {
    let n = (base as i64) + delta;
    if n < 0 {
        0
    } else if n > i64::MAX {
        i64::MAX as int
    } else {
        n
    }
}

/// The step that is taken where none is asked for: all columns of the window but two.
pub open spec fn default_columns(c: Context, frame: u64, w: u64) -> int {
    let cols = match (c.frame(frame), c.window(w)) {
        (Some(f), Some(win)) => if f.char_width > 0 {
            win.bounds.width as int / f.char_width as int
        } else {
            80
        },
        _ => 80,
    };
    if cols - 2 >= 1 {
        cols - 2
    } else {
        1
    }
}

fn default_scroll_columns(c: &Context, frame: u64, w: u64) -> (r: i64)
    ensures
        r == default_columns(*c, frame, w),
{
    let cols: i64 = match c.get_frame(frame) {
        Some(f) => match c.get_window(w) {
            Some(win) => if f.char_width > 0 {
                if win.bounds.width >= 0 {
                    win.bounds.width / f.char_width as i64
                } else {
                    proof {
                        let x = win.bounds.width as int;
                        let y = f.char_width as int;
                        assert(x / y <= 0) by (nonlinear_arith)
                            requires
                                x < 0,
                                y > 0,
                        ;
                    }
                    return 1;
                }
            } else {
                80
            },
            None => 80,
        },
        None => 80,
    };
    if cols >= 3 {
        cols - 2
    } else {
        1
    }
}

/// A window that was scrolled sideways. It is not scrolled back of itself until its
/// point moves, and not further than this amount where that is made the minimum.
pub open spec fn scrolled_sideways(w: Window, amount: int, minimum: bool) -> Window {
    Window {
        hscroll: amount as u64,
        min_hscroll: if minimum {
            amount as u64
        } else {
            w.min_hscroll
        },
        suspend_auto_hscroll: true,
        ..w
    }
}

/// The session after the selected window was scrolled sideways, and the amount.
pub open spec fn is_sideways(
    r: Result<i64, Signal>,
    m: Context,
    b: Context,
    left: bool,
    count: Option<i64>,
    minimum: bool,
) -> bool {
    let (f, w) = window_state::window_target(m, Datum::Nil, WindowPredicate::Live)->0;
    let base = match m.window(w) {
        Some(win) => if win.leaf {
            win.hscroll
        } else {
            0
        },
        None => 0,
    };
    let step = match count {
        Some(n) => n as int,
        None => default_columns(m, f, w),
    };
    let amount = hscroll_after(
        base,
        if left {
            step
        } else {
            -step
        },
    );
    &&& r matches Ok(n) && n == amount
    &&& match m.window(w) {
        Some(win) => if win.leaf {
            window_state::window_changed(m, b, w, scrolled_sideways(win, amount, minimum))
        } else {
            b == m
        },
        None => b == m,
    }
}

fn scroll_sideways(c: &mut Context, left: bool, count: Option<i64>, minimum: bool) -> (r: Result<
    i64,
    Signal,
>)
    requires
        old(c).has_room(),
    ensures
        exists|m: Context| #[trigger]
            window_state::ensured(*old(c), m) && is_sideways(
                r,
                m,
                *final(c),
                left,
                count,
                minimum,
            ),
{
    let target: Result<(u64, u64), Signal> = window_state::resolve_window_id_with_pred(
        c,
        None,
        WindowPredicate::Live,
    );
    let ghost m = *c;
    proof {
        assert(window_state::ensured(*old(c), m));
    }
    let (f, w): (u64, u64) = match target {
        Ok(t) => t,
        Err(e) => {
            return Err(e);
        },
    };
    let place: Option<usize> = window_state::find_window(&c.windows, w);
    let base: u64 = match place {
        Some(i) => if c.windows[i].leaf {
            c.windows[i].hscroll
        } else {
            0
        },
        None => 0,
    };
    let step: i64 = match count {
        Some(n) => n,
        None => default_scroll_columns(c, f, w),
    };
    let from: i64 = base as i64;
    let raw: i128 = if left {
        from as i128 + step as i128
    } else {
        from as i128 - step as i128
    };
    let amount: i64 = if raw < 0 {
        0
    } else if raw > 9_223_372_036_854_775_807 {
        9_223_372_036_854_775_807
    } else {
        raw as i64
    };
    match place {
        Some(i) => {
            if c.windows[i].leaf {
                c.windows[i].hscroll = amount as u64;
                if minimum {
                    c.windows[i].min_hscroll = amount as u64;
                }
                c.windows[i].suspend_auto_hscroll = true;
                proof {
                    assert(c.windows@ =~= m.windows@.update(
                        i as int,
                        scrolled_sideways(m.windows@[i as int], amount as int, minimum),
                    ));
                }
            }
        },
        None => {},
    }
    Ok(amount)
}

/// `(scroll-left COUNT SET-MINIMUM)`: scrolls the selected window's text to the left.
/// Without a count, by the window's width but for two columns.
pub fn builtin_scroll_left(c: &mut Context, count: Option<i64>, minimum: bool) -> (r: Result<
    i64,
    Signal,
>)
    requires
        old(c).has_room(),
    ensures
        exists|m: Context| #[trigger]
            window_state::ensured(*old(c), m) && is_sideways(
                r,
                m,
                *final(c),
                true,
                count,
                minimum,
            ),
{
    scroll_sideways(c, true, count, minimum)
}

/// `(scroll-right COUNT SET-MINIMUM)`: scrolls the selected window's text to the right.
pub fn builtin_scroll_right(c: &mut Context, count: Option<i64>, minimum: bool) -> (r: Result<
    i64,
    Signal,
>)
    requires
        old(c).has_room(),
    ensures
        exists|m: Context| #[trigger]
            window_state::ensured(*old(c), m) && is_sideways(
                r,
                m,
                *final(c),
                false,
                count,
                minimum,
            ),
{
    scroll_sideways(c, false, count, minimum)
}

/// Scrolling to the left and back by the same count leads back.
pub proof fn law_sideways_and_back(base: u64, n: int)
    requires
        base <= i64::MAX,
        n >= 0,
        base + n <= i64::MAX,
    ensures
        hscroll_after(hscroll_after(base, n) as u64, -n) == base,
{
}

/// How far a scroll command scrolls.
#[derive(Debug, Clone, Copy, PartialEq, Eq, Structural)]
pub enum ScrollArg {
    /// Nothing was asked for.
    Windowful,
    /// `-`: a windowful the other way.
    OtherWay,
    Lines(i64),
}

pub open spec fn scroll_arg_of(d: Datum) -> ScrollArg {
    match d {
        Datum::Nil => ScrollArg::Windowful,
        Datum::Fixnum(n) => ScrollArg::Lines(n as i64),
        _ => if lisp::is_symbol(d, "-"@) {
            ScrollArg::OtherWay
        } else {
            ScrollArg::Lines(1)
        },
    }
}

pub fn decode_scroll_arg(v: Option<&Value>) -> (r: ScrollArg)
    ensures
        r == scroll_arg_of(lisp::given(v)),
{
    match v {
        None => ScrollArg::Windowful,
        Some(x) => match x {
            Value::Nil => ScrollArg::Windowful,
            Value::Fixnum(n) => ScrollArg::Lines(*n),
            _ => if lisp::is_symbol_named(x, "-") {
                ScrollArg::OtherWay
            } else {
                ScrollArg::Lines(1)
            },
        },
    }
}

/// The lines of a windowful: the window's but for those that stay in view, one at
/// least.
pub open spec fn windowful(body_height: int, context_lines: int) -> int {
    if body_height - context_lines >= 1 {
        body_height - context_lines
    } else {
        1
    }
}

pub open spec fn scroll_count(
    arg: ScrollArg,
    body_height: int,
    context_lines: int,
    down: bool,
) -> int {
    let n = match arg {
        ScrollArg::Windowful => windowful(body_height, context_lines),
        ScrollArg::OtherWay => -windowful(body_height, context_lines),
        ScrollArg::Lines(n) => n as int,
    };
    if down {
        -n
    } else {
        n
    }
}

/// How many lines a scroll command scrolls, counted forward.
pub fn scroll_lines(arg: ScrollArg, body_height: i64, context_lines: i64, down: bool) -> (r: i64)
    requires
        i64::MIN < body_height - context_lines <= i64::MAX,
        arg matches ScrollArg::Lines(n) ==> n > i64::MIN,
    ensures
        r == scroll_count(arg, body_height as int, context_lines as int, down),
{
    let full: i64 = if body_height - context_lines >= 1 {
        body_height - context_lines
    } else {
        1
    };
    let n: i64 = match arg {
        ScrollArg::Windowful => full,
        ScrollArg::OtherWay => -full,
        ScrollArg::Lines(n) => n,
    };
    if down {
        -n
    } else {
        n
    }
}

/// Scrolling down scrolls as far as scrolling up, the other way.
pub proof fn law_down_is_up_reversed(arg: ScrollArg, body_height: int, context_lines: int)
    ensures
        scroll_count(arg, body_height, context_lines, true) == -scroll_count(
            arg,
            body_height,
            context_lines,
            false,
        ),
{
}

/// Where a point is, seen from what a window shows.
#[derive(Debug, Clone, Copy, PartialEq, Eq, Structural)]
pub enum PointViewportLocation {
    Before,
    Visible,
    After,
}

/// What a window shows: from `start` to just before `exclusive_end`. Where that is the
/// end of the buffer, the end itself is shown too.
#[derive(Debug, Clone, Copy, PartialEq, Eq, Structural)]
pub struct ScreenLineViewport {
    pub start: i64,
    pub exclusive_end: i64,
    pub buffer_end: i64,
}

impl ScreenLineViewport {
    pub open spec fn location(self, point: int) -> PointViewportLocation {
        if point < self.start {
            PointViewportLocation::Before
        } else if point < self.exclusive_end || (self.exclusive_end == self.buffer_end && point
            <= self.buffer_end) {
            PointViewportLocation::Visible
        } else {
            PointViewportLocation::After
        }
    }

    pub fn locate(self, point: i64) -> (r: PointViewportLocation)
        ensures
            r == self.location(point as int),
    {
        if point < self.start {
            PointViewportLocation::Before
        } else if point < self.exclusive_end || (self.exclusive_end == self.buffer_end && point
            <= self.buffer_end) {
            PointViewportLocation::Visible
        } else {
            PointViewportLocation::After
        }
    }
}

/// What a scroll starts from.
#[derive(Debug, Clone, Copy, PartialEq, Eq, Structural)]
pub struct ScrollFacts {
    pub point: i64,
    /// The part of the buffer that can be reached.
    pub begin: i64,
    pub end: i64,
    pub window_start: i64,
    /// The lines of the window, one at least.
    pub body_height: i64,
    pub lines: i64,
}

/// What a scroll waits for.
#[derive(Debug, Clone, Copy, PartialEq, Eq, Structural)]
pub enum ScrollPhase {
    /// Whether point is visible.
    Visibility,
    /// The start of a window that has point in its middle.
    Recovery,
    /// The start after scrolling forward.
    Forward,
    /// The start after scrolling backward.
    Backward,
    /// The end of the window that starts there.
    Viewport { start: i64 },
    /// The last line of the window that starts there.
    LastLine { start: i64 },
}

/// What comes next in a scroll.
#[derive(Debug, Clone, Copy, PartialEq, Eq, Structural)]
pub enum ScrollAction {
    /// Find out whether point is visible.
    AskVisible,
    /// Find the position a number of screen lines on, and go on with the phase.
    Move { from: i64, lines: i64, then: ScrollPhase },
    /// The window starts here, and point is there.
    Done { start: i64, point: i64 },
    /// The scroll runs into an end of the buffer.
    Fail(Condition),
}

/// The answer to what a scroll waits for.
#[derive(Debug, Clone, Copy, PartialEq, Eq, Structural)]
pub enum ScrollAnswer {
    Visible(bool),
    At(i64),
}

/// What comes next once it is known where to scroll from.
pub open spec fn from_origin(f: ScrollFacts, start: i64) -> ScrollAction {
    if f.lines > 0 {
        ScrollAction::Move { from: start, lines: f.lines, then: ScrollPhase::Forward }
    } else if f.lines < 0 {
        if start <= f.begin {
            ScrollAction::Fail(Condition::BeginningOfBuffer)
        } else {
            ScrollAction::Move { from: start, lines: f.lines, then: ScrollPhase::Backward }
        }
    } else {
        ScrollAction::Done { start: start, point: f.point }
    }
}

/// What comes next in a scroll, after an answer. An answer of the wrong kind asks the
/// question again.
pub open spec fn next_action(f: ScrollFacts, phase: ScrollPhase, answer: ScrollAnswer) -> ScrollAction {
    match (phase, answer) {
        (ScrollPhase::Visibility, ScrollAnswer::Visible(v)) => if v {
            from_origin(f, f.window_start)
        } else {
            ScrollAction::Move {
                from: f.point,
                lines: (-(f.body_height / 2)) as i64,
                then: ScrollPhase::Recovery,
            }
        },
        (ScrollPhase::Recovery, ScrollAnswer::At(p)) => from_origin(f, p),
        (ScrollPhase::Forward, ScrollAnswer::At(p)) => if p >= f.end {
            ScrollAction::Fail(Condition::EndOfBuffer)
        } else {
            ScrollAction::Done {
                start: p,
                point: if p > f.point {
                    p
                } else {
                    f.point
                },
            }
        },
        (ScrollPhase::Backward, ScrollAnswer::At(p)) => ScrollAction::Move {
            from: p,
            lines: f.body_height,
            then: ScrollPhase::Viewport { start: p },
        },
        (ScrollPhase::Viewport { start }, ScrollAnswer::At(p)) => {
            let view = ScreenLineViewport { start: start, exclusive_end: p, buffer_end: f.end };
            if view.location(f.point as int) == PointViewportLocation::After {
                ScrollAction::Move {
                    from: p,
                    lines: -1i64,
                    then: ScrollPhase::LastLine { start },
                }
            } else {
                ScrollAction::Done { start: start, point: f.point }
            }
        },
        (ScrollPhase::LastLine { start }, ScrollAnswer::At(p)) => ScrollAction::Done {
            start: start,
            point: p,
        },
        _ => ScrollAction::AskVisible,
    }
}

/// The decisions of a scroll by screen lines. A point that is not visible is put in the
/// middle of the window first. Scrolling forward takes point along where it would be
/// left behind; scrolling backward pulls it up to the window's last line where it would
/// fall below.
pub fn scroll_by_screen_lines(f: ScrollFacts, phase: ScrollPhase, answer: ScrollAnswer) -> (r:
    ScrollAction)
    requires
        f.body_height >= 1,
    ensures
        r == next_action(f, phase, answer),
{
    match (phase, answer) {
        (ScrollPhase::Visibility, ScrollAnswer::Visible(v)) => if v {
            scroll_from(f, f.window_start)
        } else {
            ScrollAction::Move {
                from: f.point,
                lines: -(f.body_height / 2),
                then: ScrollPhase::Recovery,
            }
        },
        (ScrollPhase::Recovery, ScrollAnswer::At(p)) => scroll_from(f, p),
        (ScrollPhase::Forward, ScrollAnswer::At(p)) => if p >= f.end {
            ScrollAction::Fail(Condition::EndOfBuffer)
        } else if p > f.point {
            ScrollAction::Done { start: p, point: p }
        } else {
            ScrollAction::Done { start: p, point: f.point }
        },
        (ScrollPhase::Backward, ScrollAnswer::At(p)) => ScrollAction::Move {
            from: p,
            lines: f.body_height,
            then: ScrollPhase::Viewport { start: p },
        },
        (ScrollPhase::Viewport { start }, ScrollAnswer::At(p)) => {
            let view: ScreenLineViewport = ScreenLineViewport {
                start: start,
                exclusive_end: p,
                buffer_end: f.end,
            };
            match view.locate(f.point) {
                PointViewportLocation::After => ScrollAction::Move {
                    from: p,
                    lines: -1,
                    then: ScrollPhase::LastLine { start: start },
                },
                _ => ScrollAction::Done { start: start, point: f.point },
            }
        },
        (ScrollPhase::LastLine { start }, ScrollAnswer::At(p)) => ScrollAction::Done {
            start: start,
            point: p,
        },
        _ => ScrollAction::AskVisible,
    }
}

fn scroll_from(f: ScrollFacts, start: i64) -> (r: ScrollAction)
    ensures
        r == from_origin(f, start),
{
    if f.lines > 0 {
        ScrollAction::Move { from: start, lines: f.lines, then: ScrollPhase::Forward }
    } else if f.lines < 0 {
        if start <= f.begin {
            ScrollAction::Fail(Condition::BeginningOfBuffer)
        } else {
            ScrollAction::Move { from: start, lines: f.lines, then: ScrollPhase::Backward }
        }
    } else {
        ScrollAction::Done { start: start, point: f.point }
    }
}

/// The steps that a scroll has left at most.
pub open spec fn steps_left(phase: ScrollPhase) -> int {
    match phase {
        ScrollPhase::Visibility => 5,
        ScrollPhase::Recovery => 4,
        ScrollPhase::Forward => 1,
        ScrollPhase::Backward => 3,
        ScrollPhase::Viewport { .. } => 2,
        ScrollPhase::LastLine { .. } => 1,
    }
}

pub open spec fn fits(phase: ScrollPhase, answer: ScrollAnswer) -> bool {
    phase is Visibility <==> answer is Visible
}

/// Every scroll comes to an end: an answer of the right kind brings it nearer.
pub proof fn law_scroll_ends(f: ScrollFacts, phase: ScrollPhase, answer: ScrollAnswer)
    requires
        fits(phase, answer),
    ensures
        match next_action(f, phase, answer) {
            ScrollAction::AskVisible => false,
            ScrollAction::Move { then, .. } => 0 < steps_left(then) < steps_left(phase),
            _ => true,
        },
{
}

/// A scroll that succeeds forward starts before the end of the buffer and leaves point
/// at the window's start or behind it.
pub proof fn law_forward_scroll_keeps_point_in_view(f: ScrollFacts, p: i64)
    ensures
        match next_action(f, ScrollPhase::Forward, ScrollAnswer::At(p)) {
            ScrollAction::Done { start, point } => start < f.end && point >= start,
            ScrollAction::Fail(e) => e == Condition::EndOfBuffer && p >= f.end,
            _ => false,
        },
{
}

/// A window that was scrolled: the start is kept by the next display.
pub open spec fn scrolled(w: Window, start: i64, point: i64) -> Window {
    Window {
        start: start,
        point: point,
        end_valid: false,
        vscroll: if w.leaf {
            0
        } else {
            w.vscroll
        },
        preserve_vscroll: if w.leaf {
            false
        } else {
            w.preserve_vscroll
        },
        force_start: if w.leaf {
            true
        } else {
            w.force_start
        },
        ..w
    }
}

/// The session after a scroll: the window's start and point, and the buffer's point.
pub open spec fn is_scrolled(
    a: Context,
    b: Context,
    w: u64,
    buffer: u64,
    start: i64,
    point: i64,
) -> bool {
    &&& b == (Context { windows: b.windows, buffers: b.buffers, ..a })
    &&& match window_state::window_place(a.windows@, w) {
        Some(i) => b.windows@ == a.windows@.update(i, scrolled(a.windows@[i], start, point)),
        None => b.windows == a.windows,
    }
    &&& match window_state::buffer_place(a.buffers@, buffer) {
        Some(k) => {
            let buf = a.buffers@[k];
            b.buffers@ == a.buffers@.update(
                k,
                Buffer { point: window_buffers::in_text(buf, point), ..buf },
            )
        },
        None => b.buffers == a.buffers,
    }
}

/// Applies what a scroll came to.
pub fn apply_scroll(c: &mut Context, w: u64, buffer: u64, start: i64, point: i64)
    ensures
        is_scrolled(*old(c), *final(c), w, buffer, start, point),
{
    match window_state::find_buffer(&c.buffers, buffer) {
        Some(k) => {
            let at: i64 = window_buffers::nearest_in_text(c.buffers[k].length, point);
            c.buffers[k].point = at;
            proof {
                let buf = old(c).buffers@[k as int];
                assert(c.buffers@ =~= old(c).buffers@.update(
                    k as int,
                    Buffer { point: window_buffers::in_text(buf, point), ..buf },
                ));
            }
        },
        None => {},
    }
    match window_state::find_window(&c.windows, w) {
        Some(i) => {
            c.windows[i].start = start;
            c.windows[i].point = point;
            c.windows[i].end_valid = false;
            if c.windows[i].leaf {
                c.windows[i].vscroll = 0;
                c.windows[i].preserve_vscroll = false;
                c.windows[i].force_start = true;
            }
            proof {
                assert(c.windows@ =~= old(c).windows@.update(
                    i as int,
                    scrolled(old(c).windows@[i as int], start, point),
                ));
            }
        },
        None => {},
    }
}

/// The line, counted from the top of the window, that `recenter` puts point on: the one
/// that is asked for, counted from the bottom where it is negative, else the middle.
pub open spec fn recenter_line(arg: Datum, body_height: int) -> int {
    match arg {
        Datum::Fixnum(n) => if n >= 0 {
            n
        } else if body_height + n >= 0 {
            body_height + n
        } else {
            0
        },
        _ => if body_height >= 0 {
            body_height / 2
        } else {
            -((-body_height) / 2)
        },
    }
}

pub fn recenter_target_line(arg: Option<&Value>, body_height: i64) -> (r: i64)
    ensures
        r == recenter_line(lisp::given(arg), body_height as int),
{
    let n: Option<i64> = match arg {
        Some(v) => lisp::as_int(v),
        None => None,
    };
    match n {
        Some(n) => if n >= 0 {
            n
        } else {
            let at: i128 = body_height as i128 + n as i128;
            if at >= 0 {
                at as i64
            } else {
                0
            }
        },
        None => if body_height >= 0 {
            body_height / 2
        } else {
            let up: i128 = -(body_height as i128);
            let down: i128 = -(up / 2);
            down as i64
        },
    }
}

/// A window that was recentered begins at a position; nothing of its first line is
/// hidden.
pub open spec fn recentered(w: Window, start: int) -> Window {
    Window {
        start: start as i64,
        end_valid: false,
        vscroll: if w.leaf {
            0
        } else {
            w.vscroll
        },
        preserve_vscroll: if w.leaf {
            false
        } else {
            w.preserve_vscroll
        },
        ..w
    }
}

/// Applies what `recenter` came to.
pub fn apply_recenter(c: &mut Context, w: u64, start: i64)
    ensures
        match (old(c).window(w), window_state::clamped(*old(c), w, start as int)) {
            (Some(win), Some(p)) => window_state::window_changed(
                *old(c),
                *final(c),
                w,
                recentered(win, p),
            ),
            _ => *final(c) == *old(c),
        },
{
    let at: i64 = match window_state::clamped_window_position(c, w, start) {
        Some(p) => p,
        None => {
            return;
        },
    };
    match window_state::find_window(&c.windows, w) {
        Some(i) => {
            c.windows[i].start = at;
            c.windows[i].end_valid = false;
            if c.windows[i].leaf {
                c.windows[i].vscroll = 0;
                c.windows[i].preserve_vscroll = false;
            }
            proof {
                assert(c.windows@ =~= old(c).windows@.update(
                    i as int,
                    recentered(old(c).windows@[i as int], at as int),
                ));
            }
        },
        None => {},
    }
}

/// Whether the end of a window is asked for as it was last displayed, or as it would be
/// displayed now.
#[derive(Debug, Clone, Copy, PartialEq, Eq, Structural)]
pub enum WindowEndQueryPolicy {
    LastPresented,
    EnsureCurrent,
}

/// The end of a window: as it is recorded, unless a current one is asked for and can be
/// had. A session without a display, and the frame that one starts with, have none.
pub fn query_window_end(
    policy: WindowEndQueryPolicy,
    noninteractive: bool,
    frame_initial: bool,
    recorded: i64,
    current: Option<i64>,
) -> (r: i64)
    ensures
        r == if policy == WindowEndQueryPolicy::LastPresented || noninteractive || frame_initial {
            recorded
        } else {
            match current {
                Some(n) => n,
                None => recorded,
            }
        },
{
    if policy == WindowEndQueryPolicy::LastPresented || noninteractive || frame_initial {
        return recorded;
    }
    match current {
        Some(n) => n,
        None => recorded,
    }
}

} // verus!
