//! How large windows are and where they stand, as Lisp asks for it.
use vstd::prelude::*;

use crate::lisp;
use crate::lisp::{Datum, Signal, Value, WindowBodyUnit};
use crate::window_buffers;
use crate::window_geometry;
use crate::window_geometry::{ChromeHeights, Edges, WindowChromeMetric, WindowSides};
use crate::window_queries;
use crate::window_scroll;
use crate::window_scroll::{ScrollFacts, WindowEndQueryPolicy};
use crate::window_state;
use crate::window_state::{Context, Frame, Window, WindowPredicate};

verus! {

/// The window that an argument names and its frame, by their places, or what is
/// signalled.
pub open spec fn is_located(
    r: Result<(usize, usize), Signal>,
    c: Context,
    arg: Datum,
    pred: WindowPredicate,
) -> bool {
    match window_state::window_target(c, arg, pred) {
        None => r matches Err(e) && lisp::is_wrong_type(e, pred.spelled(), arg),
        Some((f, w)) => match window_state::frame_place(c.frames@, f) {
            None => r matches Err(e) && lisp::is_error(e, "Frame not found"@),
            Some(i) => match window_state::window_place(c.windows@, w) {
                None => r matches Err(e) && lisp::is_error(e, "Window not found"@),
                Some(j) => {
                    &&& r matches Ok(at) && at.0 == i && at.1 == j
                    &&& i < c.frames@.len()
                    &&& j < c.windows@.len()
                },
            },
        },
    }
}

/// The answer to a question about a window: a number of it and of its frame, or what is
/// signalled where there is none.
pub open spec fn answers(
    r: Result<i64, Signal>,
    c: Context,
    arg: Datum,
    pred: WindowPredicate,
    value: spec_fn(Frame, Window) -> int,
) -> bool {
    match window_state::window_target(c, arg, pred) {
        None => r matches Err(e) && lisp::is_wrong_type(e, pred.spelled(), arg),
        Some((f, w)) => match c.frame(f) {
            None => r matches Err(e) && lisp::is_error(e, "Frame not found"@),
            Some(frame) => match c.window(w) {
                None => r matches Err(e) && lisp::is_error(e, "Window not found"@),
                Some(win) => r matches Ok(n) && n == value(frame, win),
            },
        },
    }
}

fn place_pair(c: &Context, t: Result<(u64, u64), Signal>) -> (r: Result<(usize, usize), Signal>)
    ensures
        forall|arg: Datum, pred: WindowPredicate|
            window_state::is_target(t, *c, arg, pred) ==> #[trigger] is_located(r, *c, arg, pred),
{
    match t {
        Ok((f, w)) => match window_state::find_frame(&c.frames, f) {
            Some(i) => match window_state::find_window(&c.windows, w) {
                Some(j) => Ok((i, j)),
                None => Err(lisp::error("Window not found")),
            },
            None => Err(lisp::error("Frame not found")),
        },
        Err(e) => Err(e),
    }
}

/// Looks a window up; a frame is made sure of in any case.
fn located(c: &mut Context, arg: Option<&Value>, pred: WindowPredicate) -> (r: Result<
    (usize, usize),
    Signal,
>)
    requires
        old(c).has_room(),
    ensures
        window_state::ensured(*old(c), *final(c)),
        is_located(r, *final(c), lisp::given(arg), pred),
{
    let t: Result<(u64, u64), Signal> = window_queries::ensured_window(c, arg, pred);
    place_pair(c, t)
}

/// Looks a window up; a frame is made sure of where the argument leaves the window open.
fn located_for(c: &mut Context, arg: Option<&Value>, pred: WindowPredicate) -> (r: Result<
    (usize, usize),
    Signal,
>)
    requires
        old(c).has_room(),
    ensures
        window_state::ensured_for(*old(c), *final(c), lisp::given(arg)),
        is_located(r, *final(c), lisp::given(arg), pred),
{
    let t: Result<(u64, u64), Signal> = window_state::resolve_window_id_with_pred(c, arg, pred);
    place_pair(c, t)
}

/// A position on a graphical frame is in pixels, on a terminal in cells.
pub open spec fn shown_position(graphical: bool, px: i64, side: u32) -> int {
    if graphical {
        px as int
    } else {
        window_geometry::whole_cells(px as int, side as int)
    }
}

/// `(window-pixel-left WINDOW)`.
pub fn builtin_window_pixel_left(c: &mut Context, window: Option<&Value>) -> (r: Result<i64, Signal>)
    requires
        old(c).has_room(),
    ensures
        window_state::ensured(*old(c), *final(c)),
        answers(
            r,
            *final(c),
            lisp::given(window),
            WindowPredicate::Valid,
            |f: Frame, w: Window| shown_position(f.graphical, w.bounds.x, f.char_width),
        ),
{
    let (i, j): (usize, usize) = match located(c, window, WindowPredicate::Valid) {
        Ok(at) => at,
        Err(e) => {
            return Err(e);
        },
    };
    let x: i64 = c.windows[j].bounds.x;
    Ok(
        if c.frames[i].graphical {
            x
        } else {
            window_geometry::cells_in(x, c.frames[i].char_width)
        },
    )
}

/// `(window-pixel-top WINDOW)`.
pub fn builtin_window_pixel_top(c: &mut Context, window: Option<&Value>) -> (r: Result<i64, Signal>)
    requires
        old(c).has_room(),
    ensures
        window_state::ensured(*old(c), *final(c)),
        answers(
            r,
            *final(c),
            lisp::given(window),
            WindowPredicate::Valid,
            |f: Frame, w: Window| shown_position(f.graphical, w.bounds.y, f.char_height),
        ),
{
    let (i, j): (usize, usize) = match located(c, window, WindowPredicate::Valid) {
        Ok(at) => at,
        Err(e) => {
            return Err(e);
        },
    };
    let y: i64 = c.windows[j].bounds.y;
    Ok(
        if c.frames[i].graphical {
            y
        } else {
            window_geometry::cells_in(y, c.frames[i].char_height)
        },
    )
}

/// `(window-pixel-width WINDOW)`.
pub fn builtin_window_pixel_width(c: &mut Context, window: Option<&Value>) -> (r: Result<
    i64,
    Signal,
>)
    requires
        old(c).has_room(),
    ensures
        window_state::ensured(*old(c), *final(c)),
        answers(
            r,
            *final(c),
            lisp::given(window),
            WindowPredicate::Valid,
            |f: Frame, w: Window| window_geometry::not_negative(w.bounds.width as int),
        ),
{
    match located(c, window, WindowPredicate::Valid) {
        Ok((_, j)) => Ok(window_geometry::window_width_pixels(c.windows[j].bounds)),
        Err(e) => Err(e),
    }
}

/// `(window-pixel-height WINDOW)`.
pub fn builtin_window_pixel_height(c: &mut Context, window: Option<&Value>) -> (r: Result<
    i64,
    Signal,
>)
    requires
        old(c).has_room(),
    ensures
        window_state::ensured(*old(c), *final(c)),
        answers(
            r,
            *final(c),
            lisp::given(window),
            WindowPredicate::Valid,
            |f: Frame, w: Window| window_geometry::not_negative(w.bounds.height as int),
        ),
{
    match located(c, window, WindowPredicate::Valid) {
        Ok((_, j)) => Ok(window_geometry::window_height_pixels(c.windows[j].bounds)),
        Err(e) => Err(e),
    }
}

/// `(window-total-width WINDOW)`: in columns.
pub fn window_total_width_impl(c: &mut Context, window: Option<&Value>) -> (r: Result<i64, Signal>)
    requires
        old(c).has_room(),
    ensures
        window_state::ensured(*old(c), *final(c)),
        answers(
            r,
            *final(c),
            lisp::given(window),
            WindowPredicate::Valid,
            |f: Frame, w: Window|
                window_geometry::whole_cells(w.bounds.width as int, f.char_width as int),
        ),
{
    match located(c, window, WindowPredicate::Valid) {
        Ok((i, j)) => Ok(
            window_geometry::window_width_cols(c.windows[j].bounds, c.frames[i].char_width),
        ),
        Err(e) => Err(e),
    }
}

/// `(window-total-height WINDOW)`: in lines.
pub fn window_total_height_impl(c: &mut Context, window: Option<&Value>) -> (r: Result<i64, Signal>)
    requires
        old(c).has_room(),
    ensures
        window_state::ensured(*old(c), *final(c)),
        answers(
            r,
            *final(c),
            lisp::given(window),
            WindowPredicate::Valid,
            |f: Frame, w: Window|
                window_geometry::whole_cells(w.bounds.height as int, f.char_height as int),
        ),
{
    match located(c, window, WindowPredicate::Valid) {
        Ok((i, j)) => Ok(
            window_geometry::window_height_lines(c.windows[j].bounds, c.frames[i].char_height),
        ),
        Err(e) => Err(e),
    }
}

/// The minibuffer window of its frame.
pub open spec fn is_mini_of(f: Frame, w: Window) -> bool {
    f.minibuffer_window == Some(w.id)
}

fn mini_of(f: &Frame, w: &Window) -> (r: bool)
    ensures
        r == is_mini_of(*f, *w),
{
    match f.minibuffer_window {
        Some(m) => m == w.id,
        None => false,
    }
}

/// `(window-body-height WINDOW PIXELWISE)`. `displayed` is the height of the text as the
/// window was last displayed, and `remapped` the height of the buffer's own font, where
/// there are such.
pub fn builtin_window_body_height(
    c: &mut Context,
    window: Option<&Value>,
    pixelwise: Option<&Value>,
    displayed: Option<i64>,
    remapped: Option<u32>,
) -> (r: Result<i64, Signal>)
    requires
        old(c).has_room(),
    ensures
        window_state::ensured(*old(c), *final(c)),
        answers(
            r,
            *final(c),
            lisp::given(window),
            WindowPredicate::Live,
            |f: Frame, w: Window|
                window_geometry::measured(
                    lisp::body_unit(lisp::given(pixelwise)),
                    match displayed {
                        Some(n) => n as int,
                        None => window_geometry::body_height(
                            w.bounds,
                            is_mini_of(f, w),
                            f.char_height,
                        ),
                    },
                    f.char_height,
                    remapped,
                ),
        ),
{
    let unit: WindowBodyUnit = lisp::window_body_unit_from_lisp(pixelwise);
    match located(c, window, WindowPredicate::Live) {
        Ok((i, j)) => {
            let f: &Frame = &c.frames[i];
            let w: &Window = &c.windows[j];
            Ok(
                window_geometry::window_body_height_for_window(
                    displayed,
                    w.bounds,
                    mini_of(f, w),
                    unit,
                    f.char_height,
                    remapped,
                ),
            )
        },
        Err(e) => Err(e),
    }
}

/// What stands beside the text of a window, in pixels, as far as the window itself does
/// not know it.
#[derive(Debug, Clone, Copy, PartialEq, Eq, Structural)]
pub struct WindowTrim {
    pub left_fringe: i64,
    pub right_fringe: i64,
    pub left_scroll_bar: i64,
    pub right_scroll_bar: i64,
    pub right_divider: i64,
}

/// What stands beside the text of a window.
pub open spec fn sides(f: Frame, w: Window, trim: WindowTrim) -> WindowSides {
    WindowSides {
        left_margin: w.left_margin,
        right_margin: w.right_margin,
        left_fringe: trim.left_fringe,
        right_fringe: trim.right_fringe,
        left_scroll_bar: trim.left_scroll_bar,
        right_scroll_bar: trim.right_scroll_bar,
        rightmost: w.bounds.x + w.bounds.width >= f.width - 1,
        right_divider: trim.right_divider,
        graphical: f.graphical,
        char_width: f.char_width,
    }
}

pub fn window_sides(f: &Frame, w: &Window, trim: WindowTrim) -> (r: WindowSides)
    ensures
        r == sides(*f, *w, trim),
{
    WindowSides {
        left_margin: w.left_margin,
        right_margin: w.right_margin,
        left_fringe: trim.left_fringe,
        right_fringe: trim.right_fringe,
        left_scroll_bar: trim.left_scroll_bar,
        right_scroll_bar: trim.right_scroll_bar,
        rightmost: window_geometry::window_is_rightmost(w.bounds, f.width),
        right_divider: trim.right_divider,
        graphical: f.graphical,
        char_width: f.char_width,
    }
}

/// `(window-body-width WINDOW PIXELWISE)`. `displayed` is the width of the text as the
/// window was last displayed, and `remapped` the width of the buffer's own font, where
/// there are such.
pub fn builtin_window_body_width(
    c: &mut Context,
    window: Option<&Value>,
    pixelwise: Option<&Value>,
    displayed: Option<i64>,
    trim: WindowTrim,
    remapped: Option<u32>,
) -> (r: Result<i64, Signal>)
    requires
        old(c).has_room(),
    ensures
        window_state::ensured(*old(c), *final(c)),
        answers(
            r,
            *final(c),
            lisp::given(window),
            WindowPredicate::Live,
            |f: Frame, w: Window|
                window_geometry::measured(
                    lisp::body_unit(lisp::given(pixelwise)),
                    match displayed {
                        Some(n) => n as int,
                        None => window_geometry::body_width(w.bounds, sides(f, w, trim)),
                    },
                    f.char_width,
                    remapped,
                ),
        ),
{
    let unit: WindowBodyUnit = lisp::window_body_unit_from_lisp(pixelwise);
    match located(c, window, WindowPredicate::Live) {
        Ok((i, j)) => {
            let f: &Frame = &c.frames[i];
            let w: &Window = &c.windows[j];
            let px: i64 = match displayed {
                Some(n) => n,
                None => window_geometry::window_body_width_pixels(
                    w.bounds,
                    window_sides(f, w, trim),
                ),
            };
            Ok(window_geometry::measure(unit, px, f.char_width, remapped))
        },
        Err(e) => Err(e),
    }
}

/// `(window-text-height WINDOW PIXELWISE)`.
pub fn builtin_window_text_height(
    c: &mut Context,
    window: Option<&Value>,
    pixelwise: Option<&Value>,
    displayed: Option<i64>,
) -> (r: Result<i64, Signal>)
    requires
        old(c).has_room(),
    ensures
        window_state::ensured(*old(c), *final(c)),
        answers(
            r,
            *final(c),
            lisp::given(window),
            WindowPredicate::Live,
            |f: Frame, w: Window|
                window_geometry::text_height(
                    displayed,
                    w.bounds,
                    is_mini_of(f, w),
                    f.char_height,
                    !(lisp::given(pixelwise) is Nil),
                ),
        ),
{
    let exact: bool = lisp::is_given(pixelwise);
    match located(c, window, WindowPredicate::Live) {
        Ok((i, j)) => {
            let f: &Frame = &c.frames[i];
            let w: &Window = &c.windows[j];
            Ok(
                window_geometry::window_text_height(
                    displayed,
                    w.bounds,
                    mini_of(f, w),
                    f.char_height,
                    exact,
                ),
            )
        },
        Err(e) => Err(e),
    }
}

/// `(window-text-width WINDOW PIXELWISE)`.
pub fn builtin_window_text_width(
    c: &mut Context,
    window: Option<&Value>,
    pixelwise: Option<&Value>,
    displayed: Option<i64>,
    trim: WindowTrim,
) -> (r: Result<i64, Signal>)
    requires
        old(c).has_room(),
    ensures
        window_state::ensured(*old(c), *final(c)),
        answers(
            r,
            *final(c),
            lisp::given(window),
            WindowPredicate::Live,
            |f: Frame, w: Window|
                window_geometry::text_width(
                    displayed,
                    w.bounds,
                    sides(f, w, trim),
                    !(lisp::given(pixelwise) is Nil),
                ),
        ),
{
    let exact: bool = lisp::is_given(pixelwise);
    match located(c, window, WindowPredicate::Live) {
        Ok((i, j)) => {
            let f: &Frame = &c.frames[i];
            let w: &Window = &c.windows[j];
            Ok(
                window_geometry::window_text_width(
                    displayed,
                    w.bounds,
                    window_sides(f, w, trim),
                    exact,
                ),
            )
        },
        Err(e) => Err(e),
    }
}

/// A part of a window's chrome.
fn chrome(
    c: &mut Context,
    window: Option<&Value>,
    metric: WindowChromeMetric,
    regions: Option<ChromeHeights<Option<i64>>>,
    recorded: Option<ChromeHeights<i64>>,
) -> (r: Result<i64, Signal>)
    requires
        old(c).has_room(),
    ensures
        window_state::ensured(*old(c), *final(c)),
        answers(
            r,
            *final(c),
            lisp::given(window),
            WindowPredicate::Live,
            |f: Frame, w: Window|
                window_geometry::chrome_height(
                    regions,
                    recorded,
                    metric,
                    if metric == WindowChromeMetric::ModeLine && !is_mini_of(f, w) {
                        1
                    } else {
                        0
                    },
                ),
        ),
{
    match located(c, window, WindowPredicate::Live) {
        Ok((i, j)) => {
            let fallback: i64 = if metric == WindowChromeMetric::ModeLine && !mini_of(
                &c.frames[i],
                &c.windows[j],
            ) {
                1
            } else {
                0
            };
            Ok(window_geometry::window_chrome_height(regions, recorded, metric, fallback))
        },
        Err(e) => Err(e),
    }
}

/// `(window-mode-line-height WINDOW)`: one line where the window was never displayed,
/// none in the minibuffer.
pub fn builtin_window_mode_line_height(
    c: &mut Context,
    window: Option<&Value>,
    regions: Option<ChromeHeights<Option<i64>>>,
    recorded: Option<ChromeHeights<i64>>,
) -> (r: Result<i64, Signal>)
    requires
        old(c).has_room(),
    ensures
        window_state::ensured(*old(c), *final(c)),
        answers(
            r,
            *final(c),
            lisp::given(window),
            WindowPredicate::Live,
            |f: Frame, w: Window|
                window_geometry::chrome_height(
                    regions,
                    recorded,
                    WindowChromeMetric::ModeLine,
                    if is_mini_of(f, w) {
                        0
                    } else {
                        1
                    },
                ),
        ),
{
    chrome(c, window, WindowChromeMetric::ModeLine, regions, recorded)
}

/// `(window-header-line-height WINDOW)`.
pub fn builtin_window_header_line_height(
    c: &mut Context,
    window: Option<&Value>,
    regions: Option<ChromeHeights<Option<i64>>>,
    recorded: Option<ChromeHeights<i64>>,
) -> (r: Result<i64, Signal>)
    requires
        old(c).has_room(),
    ensures
        window_state::ensured(*old(c), *final(c)),
        answers(
            r,
            *final(c),
            lisp::given(window),
            WindowPredicate::Live,
            |f: Frame, w: Window|
                window_geometry::chrome_height(
                    regions,
                    recorded,
                    WindowChromeMetric::HeaderLine,
                    0,
                ),
        ),
{
    chrome(c, window, WindowChromeMetric::HeaderLine, regions, recorded)
}

/// `(window-tab-line-height WINDOW)`.
pub fn builtin_window_tab_line_height(
    c: &mut Context,
    window: Option<&Value>,
    regions: Option<ChromeHeights<Option<i64>>>,
    recorded: Option<ChromeHeights<i64>>,
) -> (r: Result<i64, Signal>)
    requires
        old(c).has_room(),
    ensures
        window_state::ensured(*old(c), *final(c)),
        answers(
            r,
            *final(c),
            lisp::given(window),
            WindowPredicate::Live,
            |f: Frame, w: Window|
                window_geometry::chrome_height(
                    regions,
                    recorded,
                    WindowChromeMetric::TabLine,
                    0,
                ),
        ),
{
    chrome(c, window, WindowChromeMetric::TabLine, regions, recorded)
}

/// The divider of a window whose place the frame may not know, in which case there is
/// none.
pub open spec fn divider(at_edge: bool, parameter: Option<i64>) -> int {
    if at_edge {
        0
    } else {
        match parameter {
            Some(n) => window_geometry::not_negative(n as int),
            None => 0,
        }
    }
}

/// The outcome of asking for a divider's width.
pub open spec fn is_divider(
    r: Result<i64, Signal>,
    c: Context,
    arg: Datum,
    parameter: Option<i64>,
    at_edge: spec_fn(Frame, Window) -> bool,
) -> bool {
    match window_state::window_target(c, arg, WindowPredicate::Live) {
        None => r matches Err(e) && lisp::is_wrong_type(e, "window-live-p"@, arg),
        Some((f, w)) => match c.frame(f) {
            None => r matches Err(e) && lisp::is_error(e, "Frame not found"@),
            Some(frame) => r matches Ok(n) && n == match c.window(w) {
                Some(win) => divider(at_edge(frame, win), parameter),
                None => 0,
            },
        },
    }
}

/// `(window-right-divider-width WINDOW)`; `parameter` is what the frame says of its
/// dividers.
pub fn builtin_window_right_divider_width(
    c: &mut Context,
    window: Option<&Value>,
    parameter: Option<i64>,
) -> (r: Result<i64, Signal>)
    requires
        old(c).has_room(),
    ensures
        window_state::ensured_for(*old(c), *final(c), lisp::given(window)),
        is_divider(
            r,
            *final(c),
            lisp::given(window),
            parameter,
            |f: Frame, w: Window| w.bounds.x + w.bounds.width >= f.width - 1,
        ),
{
    match window_state::resolve_window_id_with_pred(c, window, WindowPredicate::Live) {
        Ok((id, w)) => match c.get_frame(id) {
            Some(f) => {
                let at_edge: bool = match c.get_window(w) {
                    Some(win) => window_geometry::window_is_rightmost(win.bounds, f.width),
                    None => true,
                };
                Ok(window_geometry::window_divider_width(at_edge, parameter))
            },
            None => Err(lisp::error("Frame not found")),
        },
        Err(e) => Err(e),
    }
}

/// `(window-bottom-divider-width WINDOW)`.
pub fn builtin_window_bottom_divider_width(
    c: &mut Context,
    window: Option<&Value>,
    parameter: Option<i64>,
) -> (r: Result<i64, Signal>)
    requires
        old(c).has_room(),
    ensures
        window_state::ensured_for(*old(c), *final(c), lisp::given(window)),
        is_divider(
            r,
            *final(c),
            lisp::given(window),
            parameter,
            |f: Frame, w: Window| w.bounds.y + w.bounds.height >= f.height - 1,
        ),
{
    match window_state::resolve_window_id_with_pred(c, window, WindowPredicate::Live) {
        Ok((id, w)) => match c.get_frame(id) {
            Some(f) => {
                let at_edge: bool = match c.get_window(w) {
                    Some(win) => window_geometry::window_is_bottommost(win.bounds, f.height),
                    None => true,
                };
                Ok(window_geometry::window_divider_width(at_edge, parameter))
            },
            None => Err(lisp::error("Frame not found")),
        },
        Err(e) => Err(e),
    }
}

/// Where `recenter` starts from.
#[derive(Debug, Clone, Copy, PartialEq, Eq, Structural)]
pub struct RecenterOrigin {
    pub frame: u64,
    pub window: u64,
    pub buffer: u64,
    /// The position around which the window begins anew.
    pub point: i64,
    /// How many screen lines above it the window begins.
    pub lines: i64,
}

/// The height of the selected window's text in lines, taken for a common one where there
/// is no such window.
pub open spec fn selected_height(c: Context, displayed: Option<i64>) -> int {
    let (f, w) = window_state::window_target(c, Datum::Nil, WindowPredicate::Live)->0;
    match (c.frame(f), c.window(w)) {
        (Some(frame), Some(win)) => window_geometry::measured(
            WindowBodyUnit::CanonicalChars,
            match displayed {
                Some(n) => n as int,
                None => window_geometry::body_height(
                    win.bounds,
                    is_mini_of(frame, win),
                    frame.char_height,
                ),
            },
            frame.char_height,
            None,
        ),
        _ => 24,
    }
}

/// What `recenter` says of a window that does not show the current buffer, before the
/// session's quotes are put in.
pub const RECENTER_ELSEWHERE: &'static str = "`recenter'ing a window that does not display current-buffer";

/// What `recenter` starts from, or what is signalled: the selected window must show the
/// current buffer. There is nothing to do where the window shows no text.
pub open spec fn is_recenter_origin(
    r: Result<Option<RecenterOrigin>, Signal>,
    c: Context,
    arg: Datum,
    displayed: Option<i64>,
    elsewhere: Seq<char>,
) -> bool {
    let (f, w) = window_state::window_target(c, Datum::Nil, WindowPredicate::Live)->0;
    match c.window(w) {
        None => r matches Err(e) && lisp::is_error(e, "Window not found"@),
        Some(win) => if !win.leaf {
            r matches Ok(o) && o is None
        } else if c.current_buffer != Some(win.buffer) {
            r matches Err(e) && lisp::is_error(e, elsewhere)
        } else {
            match c.buffer(win.buffer) {
                None => r matches Ok(o) && o is None,
                Some(buf) => r matches Ok(Some(o)) && o == (RecenterOrigin {
                    frame: f,
                    window: w,
                    buffer: win.buffer,
                    point: window_buffers::in_text(buf, buf.point),
                    lines: window_scroll::recenter_line(
                        arg,
                        selected_height(c, displayed),
                    ) as i64,
                }),
            }
        },
    }
}

/// What `recenter` needs before it moves. `displayed` is the height of the selected
/// window's text as it was last displayed, and `elsewhere` is `RECENTER_ELSEWHERE` with the
/// quotes that the session uses.
pub fn recenter_backward_origin(
    c: &mut Context,
    arg: Option<&Value>,
    displayed: Option<i64>,
    elsewhere: &str,
) -> (r: Result<Option<RecenterOrigin>, Signal>)
    requires
        old(c).has_room(),
    ensures
        window_state::ensured(*old(c), *final(c)),
        is_recenter_origin(r, *final(c), lisp::given(arg), displayed, elsewhere@),
{
    let _ = window_state::ensure_selected_frame_id(c);
    let (frame, window): (u64, u64) = match window_queries::lookup_window(
        c,
        None,
        WindowPredicate::Live,
    ) {
        Ok(t) => t,
        Err(e) => {
            return Err(e);
        },
    };
    let found: Result<(usize, usize), Signal> = place_pair(c, Ok((frame, window)));
    assert(is_located(found, *c, Datum::Nil, WindowPredicate::Live));
    let (i, j): (usize, usize) = match found {
        Ok(at) => at,
        Err(e) => {
            return Err(e);
        },
    };
    let f: &Frame = &c.frames[i];
    let w: &Window = &c.windows[j];
    let height: i64 = window_geometry::window_body_height_for_window(
        displayed,
        w.bounds,
        mini_of(f, w),
        WindowBodyUnit::CanonicalChars,
        f.char_height,
        None,
    );
    let lines: i64 = window_scroll::recenter_target_line(arg, height);
    if !w.leaf {
        return Ok(None);
    }
    let shown: bool = match c.current_buffer {
        Some(b) => b == w.buffer,
        None => false,
    };
    if !shown {
        return Err(lisp::error(elsewhere));
    }
    match c.get_buffer(w.buffer) {
        None => Ok(None),
        Some(buf) => Ok(
            Some(
                RecenterOrigin {
                    frame: frame,
                    window: window,
                    buffer: w.buffer,
                    point: window_buffers::nearest_in_text(buf.length, buf.point),
                    lines: lines,
                },
            ),
        ),
    }
}

/// The part of a buffer's text that can be reached.
#[derive(Debug, Clone, Copy, PartialEq, Eq, Structural)]
pub struct Accessible {
    pub begin: i64,
    pub end: i64,
}

impl Accessible {
    /// The reachable position that is nearest to one.
    pub open spec fn nearest(self, pos: i64) -> i64 {
        if pos < self.begin {
            self.begin
        } else if pos > self.end {
            self.end
        } else {
            pos
        }
    }

    pub fn clamp(self, pos: i64) -> (r: i64)
        ensures
            r == self.nearest(pos),
    {
        if pos < self.begin {
            self.begin
        } else if pos > self.end {
            self.end
        } else {
            pos
        }
    }
}

/// A scroll of the selected window, and what it starts from.
#[derive(Debug, Clone, Copy, PartialEq, Eq, Structural)]
pub struct ScrollStart {
    pub frame: u64,
    pub window: u64,
    pub buffer: u64,
    pub facts: ScrollFacts,
}

/// What a scroll of the selected window starts from: point and the window's start, both
/// where they can be reached, and the lines of the window, one at least. The point that
/// counts is the buffer's where the window is the selected one of its frame. There is
/// nothing to do where the window shows no text.
pub open spec fn is_scroll_start(
    r: Result<Option<ScrollStart>, Signal>,
    c: Context,
    displayed: Option<i64>,
    region: Accessible,
    lines: i64,
) -> bool {
    let (f, w) = window_state::window_target(c, Datum::Nil, WindowPredicate::Live)->0;
    match c.window(w) {
        None => r matches Err(e) && lisp::is_error(e, "Window not found"@),
        Some(win) => if !win.leaf {
            r matches Ok(o) && o is None
        } else {
            match c.buffer(win.buffer) {
                None => r matches Ok(o) && o is None,
                Some(buf) => {
                    let height = selected_height(c, displayed);
                    let point = if c.frame(f)->0.selected_window == w {
                        buf.point
                    } else {
                        win.point
                    };
                    r matches Ok(Some(s)) && s == (ScrollStart {
                        frame: f,
                        window: w,
                        buffer: win.buffer,
                        facts: ScrollFacts {
                            point: region.nearest(point),
                            begin: region.begin,
                            end: region.end,
                            window_start: region.nearest(win.start),
                            body_height: if height >= 1 {
                                height as i64
                            } else {
                                1
                            },
                            lines: lines,
                        },
                    })
                },
            }
        },
    }
}

/// Gathers what a scroll of the selected window by `lines` starts from. `displayed` is the
/// height of the window's text as it was last displayed, and `region` the part of its
/// buffer that can be reached.
pub fn scroll_start(
    c: &mut Context,
    displayed: Option<i64>,
    region: Accessible,
    lines: i64,
) -> (r: Result<Option<ScrollStart>, Signal>)
    requires
        old(c).has_room(),
    ensures
        window_state::ensured(*old(c), *final(c)),
        is_scroll_start(r, *final(c), displayed, region, lines),
        r matches Ok(Some(s)) ==> s.facts.body_height >= 1,
{
    let _ = window_state::ensure_selected_frame_id(c);
    let (frame, window): (u64, u64) = match window_queries::lookup_window(
        c,
        None,
        WindowPredicate::Live,
    ) {
        Ok(t) => t,
        Err(e) => {
            return Err(e);
        },
    };
    let found: Result<(usize, usize), Signal> = place_pair(c, Ok((frame, window)));
    assert(is_located(found, *c, Datum::Nil, WindowPredicate::Live));
    let (i, j): (usize, usize) = match found {
        Ok(at) => at,
        Err(e) => {
            return Err(e);
        },
    };
    let f: &Frame = &c.frames[i];
    let w: &Window = &c.windows[j];
    let height: i64 = window_geometry::window_body_height_for_window(
        displayed,
        w.bounds,
        mini_of(f, w),
        WindowBodyUnit::CanonicalChars,
        f.char_height,
        None,
    );
    if !w.leaf {
        return Ok(None);
    }
    let point: i64 = match c.get_buffer(w.buffer) {
        None => {
            return Ok(None);
        },
        Some(buf) => if f.selected_window == window {
            buf.point
        } else {
            w.point
        },
    };
    Ok(
        Some(
            ScrollStart {
                frame: frame,
                window: window,
                buffer: w.buffer,
                facts: ScrollFacts {
                    point: region.clamp(point),
                    begin: region.begin,
                    end: region.end,
                    window_start: region.clamp(w.start),
                    body_height: if height >= 1 {
                        height
                    } else {
                        1
                    },
                    lines: lines,
                },
            },
        ),
    )
}

/// `(window-end WINDOW UPDATE)`; `recorded` is the end that the window was last displayed
/// with, and `current` the one it would be displayed with now, where that is known. A
/// window that shows no text has none.
pub fn builtin_window_end(
    c: &mut Context,
    window: Option<&Value>,
    update: Option<&Value>,
    noninteractive: bool,
    recorded: i64,
    current: Option<i64>,
) -> (r: Result<Option<i64>, Signal>)
    requires
        old(c).has_room(),
    ensures
        window_state::ensured_for(*old(c), *final(c), lisp::given(window)),
        match window_state::window_target(
            *final(c),
            lisp::given(window),
            WindowPredicate::Live,
        ) {
            None => r matches Err(e) && lisp::is_wrong_type(
                e,
                "window-live-p"@,
                lisp::given(window),
            ),
            Some((f, w)) => match final(c).frame(f) {
                None => r matches Err(e) && lisp::is_error(e, "Frame not found"@),
                Some(frame) => match final(c).window(w) {
                    None => r matches Err(e) && lisp::is_error(e, "Window not found"@),
                    Some(win) => r matches Ok(end) && end == if !win.leaf {
                        None
                    } else if !(lisp::given(update) is Nil) && !noninteractive && !frame.initial
                        && current is Some {
                        current
                    } else {
                        Some(recorded)
                    },
                },
            },
        },
{
    let policy: WindowEndQueryPolicy = if lisp::is_given(update) {
        WindowEndQueryPolicy::EnsureCurrent
    } else {
        WindowEndQueryPolicy::LastPresented
    };
    match located_for(c, window, WindowPredicate::Live) {
        Ok((i, j)) => if c.windows[j].leaf {
            Ok(
                Some(
                    window_scroll::query_window_end(
                        policy,
                        noninteractive,
                        c.frames[i].initial,
                        recorded,
                        current,
                    ),
                ),
            )
        } else {
            Ok(None)
        },
        Err(e) => Err(e),
    }
}

/// What a window keeps of its fringes.
#[derive(Debug, Clone, Copy, PartialEq, Eq, Structural)]
pub struct FringeSlots {
    pub left: i64,
    pub right: i64,
    pub outside_margins: bool,
    pub persistent: bool,
}

/// The fringes of a window as a list: their widths as displayed, else as kept.
pub open spec fn fringe_data(
    regions: Option<(Option<i64>, Option<i64>)>,
    kept: Option<FringeSlots>,
) -> Datum {
    let k = match kept {
        Some(k) => k,
        None => FringeSlots { left: 0, right: 0, outside_margins: false, persistent: false },
    };
    let (left, right) = match regions {
        Some(g) => (
            match g.0 {
                Some(n) => n,
                None => 0,
            },
            match g.1 {
                Some(n) => n,
                None => 0,
            },
        ),
        None => (k.left, k.right),
    };
    lisp::list_of(
        seq![
            Datum::Fixnum(left as int),
            Datum::Fixnum(right as int),
            lisp::truth_of(k.outside_margins),
            lisp::truth_of(k.persistent),
        ],
    )
}

/// The outcome of asking a window for a value.
pub open spec fn is_value_answer(r: Result<Value, Signal>, c: Context, arg: Datum, d: Datum) -> bool {
    match window_state::window_target(c, arg, WindowPredicate::Live) {
        None => r matches Err(e) && lisp::is_wrong_type(e, "window-live-p"@, arg),
        Some((f, _)) => match c.frame(f) {
            None => r matches Err(e) && lisp::is_error(e, "Frame not found"@),
            Some(_) => r matches Ok(v) && v@ == d,
        },
    }
}

/// `(window-fringes WINDOW)`. `regions` are the widths as the window was last displayed,
/// `kept` what is kept for it.
pub fn builtin_window_fringes(
    c: &mut Context,
    window: Option<&Value>,
    regions: Option<(Option<i64>, Option<i64>)>,
    kept: Option<FringeSlots>,
) -> (r: Result<Value, Signal>)
    requires
        old(c).has_room(),
    ensures
        window_state::ensured(*old(c), *final(c)),
        is_value_answer(r, *final(c), lisp::given(window), fringe_data(regions, kept)),
{
    match window_queries::ensured_window(c, window, WindowPredicate::Live) {
        Ok((f, _)) => if c.get_frame(f).is_none() {
            return Err(lisp::error("Frame not found"));
        },
        Err(e) => {
            return Err(e);
        },
    }
    let k: FringeSlots = match kept {
        Some(k) => k,
        None => FringeSlots { left: 0, right: 0, outside_margins: false, persistent: false },
    };
    let (left, right): (i64, i64) = match regions {
        Some((a, b)) => (
            match a {
                Some(n) => n,
                None => 0,
            },
            match b {
                Some(n) => n,
                None => 0,
            },
        ),
        None => (k.left, k.right),
    };
    let mut items: Vec<Value> = Vec::new();
    items.push(Value::Fixnum(left));
    items.push(Value::Fixnum(right));
    items.push(lisp::truth(k.outside_margins));
    items.push(lisp::truth(k.persistent));
    proof {
        assert(lisp::data(items@) =~= seq![
            Datum::Fixnum(left as int),
            Datum::Fixnum(right as int),
            lisp::truth_of(k.outside_margins),
            lisp::truth_of(k.persistent),
        ]);
    }
    Ok(lisp::list(items))
}

/// `(window-scroll-bar-width WINDOW)`: as displayed, on whichever side the bar is, else
/// the room that is kept for it.
pub fn builtin_window_scroll_bar_width(
    c: &mut Context,
    window: Option<&Value>,
    regions: Option<(Option<i64>, Option<i64>)>,
    area: i64,
) -> (r: Result<i64, Signal>)
    requires
        old(c).has_room(),
    ensures
        window_state::ensured(*old(c), *final(c)),
        match window_state::window_target(
            *final(c),
            lisp::given(window),
            WindowPredicate::Live,
        ) {
            None => r matches Err(e) && lisp::is_wrong_type(
                e,
                "window-live-p"@,
                lisp::given(window),
            ),
            Some((f, _)) => match final(c).frame(f) {
                None => r matches Err(e) && lisp::is_error(e, "Frame not found"@),
                Some(_) => r matches Ok(n) && n == match regions {
                    Some((Some(left), _)) => left,
                    Some((None, Some(right))) => right,
                    Some((None, None)) => 0,
                    None => area,
                },
            },
        },
{
    match window_queries::ensured_window(c, window, WindowPredicate::Live) {
        Ok((f, _)) => if c.get_frame(f).is_none() {
            Err(lisp::error("Frame not found"))
        } else {
            Ok(
                match regions {
                    Some((Some(left), _)) => left,
                    Some((None, Some(right))) => right,
                    Some((None, None)) => 0,
                    None => area,
                },
            )
        },
        Err(e) => Err(e),
    }
}

/// `(window-scroll-bar-height WINDOW)`: as displayed, else the room that is kept for it.
pub fn builtin_window_scroll_bar_height(
    c: &mut Context,
    window: Option<&Value>,
    regions: Option<Option<i64>>,
    area: i64,
) -> (r: Result<i64, Signal>)
    requires
        old(c).has_room(),
    ensures
        window_state::ensured(*old(c), *final(c)),
        match window_state::window_target(
            *final(c),
            lisp::given(window),
            WindowPredicate::Live,
        ) {
            None => r matches Err(e) && lisp::is_wrong_type(
                e,
                "window-live-p"@,
                lisp::given(window),
            ),
            Some((f, _)) => match final(c).frame(f) {
                None => r matches Err(e) && lisp::is_error(e, "Frame not found"@),
                Some(_) => r matches Ok(n) && n == match regions {
                    Some(Some(height)) => height,
                    Some(None) => 0,
                    None => area,
                },
            },
        },
{
    match window_queries::ensured_window(c, window, WindowPredicate::Live) {
        Ok((f, _)) => if c.get_frame(f).is_none() {
            Err(lisp::error("Frame not found"))
        } else {
            Ok(
                match regions {
                    Some(Some(height)) => height,
                    Some(None) => 0,
                    None => area,
                },
            )
        },
        Err(e) => Err(e),
    }
}

/// The far edges of a frame are numbers that Lisp has.
pub open spec fn edges_fit(f: Frame) -> bool {
    f.left + f.width <= i64::MAX && f.top + f.height <= i64::MAX
}

pub open spec fn all_edges_fit(v: Seq<Frame>) -> bool {
    forall|i: int| 0 <= i < v.len() ==> edges_fit(#[trigger] v[i])
}

proof fn lemma_edges_fit(a: Context, b: Context)
    requires
        window_state::ensured(a, b),
        all_edges_fit(a.frames@),
    ensures
        all_edges_fit(b.frames@),
{
    if !(a.selected() is Some) {
        let (m, n, buffer, mini): (Context, Context, u64, u64) = choose|
            m: Context,
            n: Context,
            buffer: u64,
            mini: u64,
        |
            {
                &&& window_state::current_at_hand(a, m, buffer)
                &&& window_state::buffer_at_hand(m, n, " *Minibuf-0*"@, mini)
                &&& #[trigger] window_state::batch_made_from(m, n, b, buffer, mini)
            };
        assert(n.frames == a.frames);
        assert forall|i: int| 0 <= i < b.frames@.len() implies edges_fit(#[trigger] b.frames@[i]) by {
            if i < a.frames@.len() {
                assert(b.frames@.drop_last()[i] == a.frames@[i]);
            }
        }
    }
}

/// The outcome of asking a terminal frame for where it is.
pub open spec fn is_tty_answer(
    r: Result<Value, Signal>,
    c: Context,
    arg: Datum,
    value: spec_fn(Frame) -> Datum,
) -> bool {
    match window_state::frame_target(c, arg) {
        None => r matches Err(e) && lisp::is_wrong_type(e, "frame-live-p"@, arg),
        Some(id) => r matches Ok(v) && v@ == value(c.frame(id)->0),
    }
}

/// The edges of a terminal frame.
pub open spec fn tty_edges(f: Frame) -> Edges {
    Edges {
        left: f.left,
        top: f.top,
        right: (f.left + f.width) as i64,
        bottom: (f.top + f.height) as i64,
    }
}

/// `(tty-frame-edges FRAME)`.
pub fn builtin_tty_frame_edges(c: &mut Context, frame: Option<&Value>) -> (r: Result<Value, Signal>)
    requires
        old(c).has_room(),
        all_edges_fit(old(c).frames@),
    ensures
        window_state::ensured_for(*old(c), *final(c), lisp::given(frame)),
        is_tty_answer(
            r,
            *final(c),
            lisp::given(frame),
            |f: Frame|
                if f.initial || f.graphical {
                    Datum::Nil
                } else {
                    window_geometry::edges_data(tty_edges(f))
                },
        ),
{
    let id: u64 = match window_state::resolve_frame_id(c, frame, "frame-live-p") {
        Ok(id) => id,
        Err(e) => {
            return Err(e);
        },
    };
    proof {
        if lisp::given(frame) is Nil {
            lemma_edges_fit(*old(c), *c);
        }
    }
    match window_state::find_frame(&c.frames, id) {
        Some(i) => match window_geometry::tty_frame_edges(&c.frames[i]) {
            Some(e) => Ok(window_geometry::edges_value(e)),
            None => Ok(Value::Nil),
        },
        None => Err(lisp::error("Frame not found")),
    }
}

/// `(tty-frame-geometry FRAME)`.
pub fn builtin_tty_frame_geometry(c: &mut Context, frame: Option<&Value>) -> (r: Result<
    Value,
    Signal,
>)
    requires
        old(c).has_room(),
        all_edges_fit(old(c).frames@),
    ensures
        window_state::ensured_for(*old(c), *final(c), lisp::given(frame)),
        is_tty_answer(
            r,
            *final(c),
            lisp::given(frame),
            |f: Frame| window_geometry::tty_geometry(f),
        ),
{
    let id: u64 = match window_state::resolve_frame_id(c, frame, "frame-live-p") {
        Ok(id) => id,
        Err(e) => {
            return Err(e);
        },
    };
    proof {
        if lisp::given(frame) is Nil {
            lemma_edges_fit(*old(c), *c);
        }
    }
    match window_state::find_frame(&c.frames, id) {
        Some(i) => Ok(window_geometry::tty_frame_geometry(&c.frames[i])),
        None => Err(lisp::error("Frame not found")),
    }
}

/// `(neomacs-frame-edges FRAME TYPE)`. `origin` is where the frame's corner is in its
/// root frame, and `border` the width of its border.
pub fn builtin_neomacs_frame_edges(
    c: &mut Context,
    frame: Option<&Value>,
    kind: Option<&Value>,
    origin: Option<(i64, i64)>,
    border: i64,
) -> (r: Result<Value, Signal>)
    requires
        old(c).has_room(),
    ensures
        window_state::ensured_for(*old(c), *final(c), lisp::given(frame)),
        match window_state::frame_target(*final(c), lisp::given(frame)) {
            None => r matches Err(e) && lisp::is_wrong_type(
                e,
                "frame-live-p"@,
                lisp::given(frame),
            ),
            Some(id) => {
                let f = final(c).frame(id)->0;
                if f.initial || !f.graphical {
                    r matches Ok(v) && v@ is Nil
                } else {
                    match origin {
                        None => r matches Err(e) && lisp::is_error(
                            e,
                            "Frame origin unavailable for frame edges"@,
                        ),
                        Some(at) => r matches Ok(v) && v@ == window_geometry::edges_data(
                            window_geometry::gui_edges(f, at.0, at.1, border, lisp::given(kind)),
                        ),
                    }
                }
            },
        },
{
    let id: u64 = match window_state::resolve_frame_id(c, frame, "frame-live-p") {
        Ok(id) => id,
        Err(e) => {
            return Err(e);
        },
    };
    let f: &Frame = match c.get_frame(id) {
        Some(f) => f,
        None => {
            return Err(lisp::error("Frame not found"));
        },
    };
    if f.initial || !f.graphical {
        return Ok(Value::Nil);
    }
    match origin {
        None => Err(lisp::error("Frame origin unavailable for frame edges")),
        Some((left, top)) => match window_geometry::neomacs_frame_edges(f, left, top, border, kind) {
            Some(e) => Ok(window_geometry::edges_value(e)),
            None => Ok(Value::Nil),
        },
    }
}

} // verus!
