//! What measuring a window is for: its body and what is around it make up the window, in
//! pixels, and in the cells that fit.
use vstd::prelude::*;

use crate::lisp;
use crate::lisp::{Datum, Signal, Value, WindowBodyUnit};
use crate::select_laws;
use crate::window_geometry;
use crate::window_geometry::{ChromeHeights, Edges, FrameHit, PartialWidth};
use crate::window_measures;
use crate::window_measures::{Accessible, FringeSlots, RecenterOrigin, ScrollStart, WindowTrim};
use crate::window_state;
use crate::window_state::{Context, Frame, Window, WindowPredicate};

verus! {

/// So many whole cells are in a length that is not negative.
pub open spec fn is_in_cells(n: int, px: int, side: int) -> bool {
    &&& side <= 0 ==> n == 0
    &&& side > 0 && px >= 0 ==> n * side <= px < (n + 1) * side
}

proof fn lemma_cells(px: int, side: int)
    ensures
        is_in_cells(window_geometry::whole_cells(px, side), px, side),
        side > 0 && px >= 0 ==> is_in_cells(px / side, px, side),
{
    if side > 0 && px >= 0 {
        let n = px / side;
        assert(n * side <= px < (n + 1) * side) by (nonlinear_arith)
            requires
                side > 0,
                n == px / side,
        ;
    }
}

/// The window that an argument names, where there is a selected frame.
pub open spec fn is_there(c: Context, arg: &Value, w: u64) -> bool {
    &&& c.selected() is Some
    &&& arg@ == Datum::Window(w)
    &&& c.window(w) is Some && c.window(w)->0.leaf
    &&& c.frame(c.window(w)->0.frame) is Some
}

pub open spec fn its_frame(c: Context, w: u64) -> Frame {
    c.frame(c.window(w)->0.frame)->0
}

/// An argument that is a live window names it.
pub proof fn lemma_target(c: Context, arg: &Value, w: u64)
    requires
        is_there(c, arg, w),
    ensures
        window_state::window_target(c, arg@, WindowPredicate::Live) == Some(
            (c.window(w)->0.frame, w),
        ),
        window_state::window_target(c, arg@, WindowPredicate::Valid) == Some(
            (c.window(w)->0.frame, w),
        ),
        c.window(w)->0.id == w,
{
    window_state::lemma_index_in(window_state::window_ids(c.windows@), w);
}

/// Where a window is and how large: in pixels on a frame of a window system, and its
/// position in cells on a terminal; its total size is in cells.
pub proof fn law_bounds_of_a_window(
    c: &mut Context,
    left: Result<i64, Signal>,
    c2: &mut Context,
    top: Result<i64, Signal>,
    c3: &mut Context,
    width: Result<i64, Signal>,
    c4: &mut Context,
    height: Result<i64, Signal>,
    c5: &mut Context,
    cols: Result<i64, Signal>,
    c6: &mut Context,
    lines: Result<i64, Signal>,
    arg: &Value,
    w: u64,
)
    requires
        call_ensures(window_measures::builtin_window_pixel_left, (c, Some(arg)), left),
        call_ensures(window_measures::builtin_window_pixel_top, (c2, Some(arg)), top),
        call_ensures(window_measures::builtin_window_pixel_width, (c3, Some(arg)), width),
        call_ensures(window_measures::builtin_window_pixel_height, (c4, Some(arg)), height),
        call_ensures(window_measures::window_total_width_impl, (c5, Some(arg)), cols),
        call_ensures(window_measures::window_total_height_impl, (c6, Some(arg)), lines),
        *old(c2) == *old(c) && *old(c3) == *old(c) && *old(c4) == *old(c) && *old(c5) == *old(c)
            && *old(c6) == *old(c),
        is_there(*old(c), arg, w),
    ensures
        ({
            let (b, f) = (old(c).window(w)->0.bounds, its_frame(*old(c), w));
            &&& *final(c) == *old(c)
            &&& left is Ok && top is Ok && width is Ok && height is Ok && cols is Ok && lines is Ok
            &&& f.graphical ==> left->Ok_0 == b.x && top->Ok_0 == b.y
            &&& !f.graphical ==> is_in_cells(left->Ok_0 as int, b.x as int, f.char_width as int)
                && is_in_cells(top->Ok_0 as int, b.y as int, f.char_height as int)
            &&& b.width >= 0 ==> width->Ok_0 == b.width
            &&& b.height >= 0 ==> height->Ok_0 == b.height
            &&& is_in_cells(cols->Ok_0 as int, b.width as int, f.char_width as int)
            &&& is_in_cells(lines->Ok_0 as int, b.height as int, f.char_height as int)
        }),
{
    let (b, f) = (old(c).window(w)->0.bounds, its_frame(*old(c), w));
    lemma_target(*old(c), arg, w);
    lemma_cells(b.x as int, f.char_width as int);
    lemma_cells(b.y as int, f.char_height as int);
    lemma_cells(b.width as int, f.char_width as int);
    lemma_cells(b.height as int, f.char_height as int);
}

/// The height of a window's body: what was last shown of it; else the window but for its
/// mode line, of one line, which a minibuffer does not have. In pixels where that is asked
/// for, in whole lines else.
pub proof fn law_height_of_a_body(
    c: &mut Context,
    pixels: &Value,
    displayed: Option<i64>,
    remapped: Option<u32>,
    px: Result<i64, Signal>,
    d: &mut Context,
    lines: Result<i64, Signal>,
    arg: &Value,
    w: u64,
)
    requires
        call_ensures(
            window_measures::builtin_window_body_height,
            (c, Some(arg), Some(pixels), displayed, remapped),
            px,
        ),
        call_ensures(
            window_measures::builtin_window_body_height,
            (d, Some(arg), None::<&Value>, displayed, remapped),
            lines,
        ),
        pixels@ is T,
        *old(d) == *old(c),
        is_there(*old(c), arg, w),
        old(c).window(w)->0.bounds.height >= 0,
    ensures
        ({
            let (b, f) = (old(c).window(w)->0.bounds, its_frame(*old(c), w));
            let mini = f.minibuffer_window == Some(w);
            &&& px is Ok && lines is Ok
            &&& displayed is Some ==> px->Ok_0 == displayed->0
            &&& displayed is None && mini ==> px->Ok_0 == b.height
            &&& displayed is None && !mini ==> px->Ok_0 + f.char_height == b.height
            &&& is_in_cells(lines->Ok_0 as int, px->Ok_0 as int, f.char_height as int)
        }),
{
    let f = its_frame(*old(c), w);
    lemma_target(*old(c), arg, w);
    lemma_units();
    lemma_cells(px->Ok_0 as int, f.char_height as int);
}

proof fn lemma_units()
    ensures
        lisp::body_unit(Datum::T) == WindowBodyUnit::Pixels,
        lisp::body_unit(Datum::Nil) == WindowBodyUnit::CanonicalChars,
        lisp::body_unit(Datum::Symbol("remap"@)) == WindowBodyUnit::RemappedChars,
{
    reveal_strlit("remap");
    reveal_strlit("t");
    assert("remap"@.len() != "t"@.len());
}

/// What stands beside the body of a window.
pub open spec fn beside(f: Frame, w: Window, t: WindowTrim) -> int {
    let fringes = if f.graphical {
        t.left_fringe + t.right_fringe
    } else {
        0
    };
    let line = if w.bounds.x + w.bounds.width >= f.width - 1 {
        0
    } else if t.right_divider > 0 {
        t.right_divider as int
    } else if f.graphical {
        0
    } else {
        f.char_width as int
    };
    t.left_scroll_bar + t.right_scroll_bar + fringes + w.left_margin * f.char_width
        + w.right_margin * f.char_width + line
}

/// Sizes that a screen can have.
pub open spec fn is_moderate(f: Frame, w: Window, t: WindowTrim) -> bool {
    &&& f.char_width >= 1
    &&& 0 <= w.bounds.width < 0x4000_0000_0000
    &&& -0x4000_0000_0000 < w.bounds.x < 0x4000_0000_0000
    &&& 0 <= t.left_fringe < 0x4000_0000_0000 && 0 <= t.right_fringe < 0x4000_0000_0000
    &&& 0 <= t.left_scroll_bar < 0x4000_0000_0000 && 0 <= t.right_scroll_bar < 0x4000_0000_0000
    &&& t.right_divider < 0x4000_0000_0000
    &&& w.left_margin * f.char_width < 0x4000_0000_0000
    &&& w.right_margin * f.char_width < 0x4000_0000_0000
}

/// The width of a window's body: what was last shown of it; else what its margins, fringes,
/// scroll bars and the line at its right leave of the window.
pub proof fn law_width_of_a_body(
    c: &mut Context,
    pixels: &Value,
    displayed: Option<i64>,
    trim: WindowTrim,
    remapped: Option<u32>,
    px: Result<i64, Signal>,
    d: &mut Context,
    cols: Result<i64, Signal>,
    arg: &Value,
    w: u64,
)
    requires
        call_ensures(
            window_measures::builtin_window_body_width,
            (c, Some(arg), Some(pixels), displayed, trim, remapped),
            px,
        ),
        call_ensures(
            window_measures::builtin_window_body_width,
            (d, Some(arg), None::<&Value>, displayed, trim, remapped),
            cols,
        ),
        pixels@ is T,
        *old(d) == *old(c),
        is_there(*old(c), arg, w),
        is_moderate(its_frame(*old(c), w), old(c).window(w)->0, trim),
    ensures
        ({
            let (win, f) = (old(c).window(w)->0, its_frame(*old(c), w));
            &&& px is Ok && cols is Ok
            &&& displayed is Some ==> px->Ok_0 == displayed->0
            &&& displayed is None ==> px->Ok_0 + beside(f, win, trim) == win.bounds.width
            &&& is_in_cells(cols->Ok_0 as int, px->Ok_0 as int, f.char_width as int)
        }),
{
    let (win, f) = (old(c).window(w)->0, its_frame(*old(c), w));
    lemma_target(*old(c), arg, w);
    lemma_units();
    lemma_cells(px->Ok_0 as int, f.char_width as int);
    assert(0 <= win.left_margin * f.char_width) by (nonlinear_arith)
        requires
            win.left_margin >= 0,
            f.char_width >= 0,
    ;
    assert(0 <= win.right_margin * f.char_width) by (nonlinear_arith)
        requires
            win.right_margin >= 0,
            f.char_width >= 0,
    ;
}

/// A body in the cells of a face that is not the frame's own: as many as fit of that size.
pub proof fn law_body_in_other_cells(
    unit: WindowBodyUnit,
    px: i64,
    cell: u32,
    remapped: Option<u32>,
    r: i64,
)
    requires
        call_ensures(window_geometry::measure, (unit, px, cell, remapped), r),
        px >= 0,
    ensures
        unit is Pixels ==> r == px,
        unit is CanonicalChars ==> is_in_cells(r as int, px as int, cell as int),
        unit is RemappedChars && remapped is None ==> is_in_cells(r as int, px as int, cell as int),
        unit is RemappedChars && remapped is Some ==> is_in_cells(
            r as int,
            px as int,
            remapped->0 as int,
        ),
{
    lemma_cells(px as int, cell as int);
    if remapped is Some {
        lemma_cells(px as int, remapped->0 as int);
    }
}

/// The text area of a window is its body.
pub proof fn law_text_area_of_a_window(
    c: &mut Context,
    pixels: &Value,
    displayed: Option<i64>,
    trim: WindowTrim,
    high: Result<i64, Signal>,
    c2: &mut Context,
    wide: Result<i64, Signal>,
    c3: &mut Context,
    body_high: Result<i64, Signal>,
    c4: &mut Context,
    body_wide: Result<i64, Signal>,
    arg: &Value,
    w: u64,
)
    requires
        call_ensures(
            window_measures::builtin_window_text_height,
            (c, Some(arg), Some(pixels), displayed),
            high,
        ),
        call_ensures(
            window_measures::builtin_window_text_width,
            (c2, Some(arg), Some(pixels), displayed, trim),
            wide,
        ),
        call_ensures(
            window_measures::builtin_window_body_height,
            (c3, Some(arg), Some(pixels), displayed, None::<u32>),
            body_high,
        ),
        call_ensures(
            window_measures::builtin_window_body_width,
            (c4, Some(arg), Some(pixels), displayed, trim, None::<u32>),
            body_wide,
        ),
        pixels@ is T,
        *old(c2) == *old(c) && *old(c3) == *old(c) && *old(c4) == *old(c),
        is_there(*old(c), arg, w),
    ensures
        high is Ok && wide is Ok && body_high is Ok && body_wide is Ok,
        high->Ok_0 == body_high->Ok_0,
        wide->Ok_0 == body_wide->Ok_0,
{
    lemma_target(*old(c), arg, w);
    lemma_units();
}

/// The lines above and below a body: as they were last shown, else as they were recorded,
/// and else a mode line of one pixel, which a minibuffer does not have.
pub proof fn law_lines_around_a_body(
    c: &mut Context,
    regions: Option<ChromeHeights<Option<i64>>>,
    recorded: Option<ChromeHeights<i64>>,
    mode: Result<i64, Signal>,
    c2: &mut Context,
    header: Result<i64, Signal>,
    c3: &mut Context,
    tab: Result<i64, Signal>,
    arg: &Value,
    w: u64,
)
    requires
        call_ensures(
            window_measures::builtin_window_mode_line_height,
            (c, Some(arg), regions, recorded),
            mode,
        ),
        call_ensures(
            window_measures::builtin_window_header_line_height,
            (c2, Some(arg), regions, recorded),
            header,
        ),
        call_ensures(
            window_measures::builtin_window_tab_line_height,
            (c3, Some(arg), regions, recorded),
            tab,
        ),
        *old(c2) == *old(c) && *old(c3) == *old(c),
        is_there(*old(c), arg, w),
    ensures
        mode is Ok && header is Ok && tab is Ok,
        regions is Some ==> {
            let g = regions->0;
            &&& g.mode_line is Some ==> mode->Ok_0 == g.mode_line->0
            &&& g.mode_line is None ==> mode->Ok_0 == 0
            &&& g.header_line is Some ==> header->Ok_0 == g.header_line->0
            &&& g.tab_line is Some ==> tab->Ok_0 == g.tab_line->0
        },
        regions is None && recorded is Some ==> {
            let g = recorded->0;
            &&& g.mode_line >= 0 ==> mode->Ok_0 == g.mode_line
            &&& g.header_line >= 0 ==> header->Ok_0 == g.header_line
            &&& g.tab_line >= 0 ==> tab->Ok_0 == g.tab_line
        },
        regions is None && recorded is None ==> {
            &&& header->Ok_0 == 0 && tab->Ok_0 == 0
            &&& mode->Ok_0 == if its_frame(*old(c), w).minibuffer_window == Some(w) {
                0int
            } else {
                1int
            }
        },
{
    lemma_target(*old(c), arg, w);
}

/// A divider is as wide as it was set, where the window does not reach the edge of its frame
/// there.
pub proof fn law_dividers(
    c: &mut Context,
    parameter: Option<i64>,
    right: Result<i64, Signal>,
    d: &mut Context,
    bottom: Result<i64, Signal>,
    arg: &Value,
    w: u64,
)
    requires
        call_ensures(
            window_measures::builtin_window_right_divider_width,
            (c, Some(arg), parameter),
            right,
        ),
        call_ensures(
            window_measures::builtin_window_bottom_divider_width,
            (d, Some(arg), parameter),
            bottom,
        ),
        *old(d) == *old(c),
        is_there(*old(c), arg, w),
    ensures
        ({
            let (b, f) = (old(c).window(w)->0.bounds, its_frame(*old(c), w));
            &&& right is Ok && bottom is Ok
            &&& b.x + b.width >= f.width - 1 ==> right->Ok_0 == 0
            &&& b.y + b.height >= f.height - 1 ==> bottom->Ok_0 == 0
            &&& b.x + b.width < f.width - 1 && parameter is Some && parameter->0 >= 0
                ==> right->Ok_0 == parameter->0
            &&& b.y + b.height < f.height - 1 && parameter is Some && parameter->0 >= 0
                ==> bottom->Ok_0 == parameter->0
        }),
{
    lemma_target(*old(c), arg, w);
}

/// `(window-end WINDOW UPDATE)`: where the window ended when it was last shown; where it
/// ends now, if that is asked for and can be known.
pub proof fn law_end_of_a_window(
    c: &mut Context,
    update: Option<&Value>,
    noninteractive: bool,
    recorded: i64,
    current: Option<i64>,
    r: Result<Option<i64>, Signal>,
    arg: &Value,
    w: u64,
)
    requires
        call_ensures(
            window_measures::builtin_window_end,
            (c, Some(arg), update, noninteractive, recorded, current),
            r,
        ),
        is_there(*old(c), arg, w),
    ensures
        r is Ok && r->Ok_0 is Some,
        update is None || update->0@ is Nil || noninteractive || its_frame(*old(c), w).initial
            || current is None ==> r->Ok_0->0 == recorded,
        update is Some && !(update->0@ is Nil) && !noninteractive && !its_frame(*old(c), w).initial
            && current is Some ==> r->Ok_0->0 == current->0,
{
    lemma_target(*old(c), arg, w);
}

/// A position within bounds is itself; one outside is the bound that it is nearest to.
pub proof fn law_nearest_position(region: Accessible, pos: i64, r: i64)
    requires
        call_ensures(Accessible::clamp, (region, pos), r),
        region.begin <= region.end,
    ensures
        region.begin <= r <= region.end,
        region.begin <= pos <= region.end ==> r == pos,
        pos < region.begin ==> r == region.begin,
        pos > region.end ==> r == region.end,
{
}

/// What a scroll of the selected window starts from: the buffer's point and the window's
/// start, within the part of the text that can be reached, that part, and the lines of the
/// window's body, one at least.
pub proof fn law_scroll_starts_from(
    c: &mut Context,
    displayed: Option<i64>,
    region: Accessible,
    lines: i64,
    r: Result<Option<ScrollStart>, Signal>,
    w: u64,
    point: i64,
    start: i64,
    d: &mut Context,
    arg: &Value,
    high: Result<i64, Signal>,
)
    requires
        call_ensures(window_measures::scroll_start, (c, displayed, region, lines), r),
        is_there(*old(c), arg, w),
        old(c).selected()->0.selected_window == w,
        old(c).window(w)->0.frame == old(c).selected_frame->0,
        old(c).buffer(old(c).window(w)->0.buffer) is Some,
        call_ensures(
            Accessible::clamp,
            (region, old(c).buffer(old(c).window(w)->0.buffer)->0.point),
            point,
        ),
        call_ensures(Accessible::clamp, (region, old(c).window(w)->0.start), start),
        *old(d) == *old(c),
        call_ensures(
            window_measures::builtin_window_body_height,
            (d, Some(arg), None::<&Value>, displayed, None::<u32>),
            high,
        ),
    ensures
        r is Ok && r->Ok_0 is Some && high is Ok,
        ({
            let s = r->Ok_0->0;
            &&& s.window == w && s.frame == old(c).selected_frame->0 && s.buffer == old(c).window(
                w,
            )->0.buffer
            &&& s.facts.point == point && s.facts.window_start == start
            &&& s.facts.begin == region.begin && s.facts.end == region.end && s.facts.lines == lines
            &&& high->Ok_0 >= 1 ==> s.facts.body_height == high->Ok_0
            &&& high->Ok_0 < 1 ==> s.facts.body_height == 1
        }),
{
    lemma_target(*old(c), arg, w);
    lemma_units();
}

/// What recentering the selected window starts from: the buffer's point, and so many lines
/// above it. A window that does not show the current buffer is refused.
pub proof fn law_recentering_starts_from(
    c: &mut Context,
    arg: Option<&Value>,
    displayed: Option<i64>,
    elsewhere: &str,
    r: Result<Option<RecenterOrigin>, Signal>,
    w: u64,
    window: &Value,
)
    requires
        call_ensures(
            window_measures::recenter_backward_origin,
            (c, arg, displayed, elsewhere),
            r,
        ),
        is_there(*old(c), window, w),
        old(c).selected()->0.selected_window == w,
        old(c).buffer(old(c).window(w)->0.buffer) is Some,
    ensures
        ({
            let win = old(c).window(w)->0;
            let buf = old(c).buffer(win.buffer)->0;
            &&& r is Ok <==> old(c).current_buffer == Some(win.buffer)
            &&& r is Ok ==> r->Ok_0 is Some && {
                let o = r->Ok_0->0;
                &&& o.window == w && o.frame == old(c).selected_frame->0 && o.buffer == win.buffer
                &&& select_laws::is_nearest(buf, buf.point, o.point)
                &&& arg is Some && arg->0@ is Fixnum && 0 <= (arg->0@)->Fixnum_0 <= i64::MAX
                    ==> o.lines == (arg->0@)->Fixnum_0
            }
        }),
{
    lemma_target(*old(c), window, w);
}

/// `(window-fringes WINDOW)`: the fringes as they were last shown, else as they are kept.
pub proof fn law_fringes(
    c: &mut Context,
    regions: Option<(Option<i64>, Option<i64>)>,
    kept: Option<FringeSlots>,
    r: Result<Value, Signal>,
    arg: &Value,
    w: u64,
)
    requires
        call_ensures(window_measures::builtin_window_fringes, (c, Some(arg), regions, kept), r),
        is_there(*old(c), arg, w),
        kept is Some,
    ensures
        r is Ok,
        regions is None ==> r->Ok_0@ == lisp::list_of(
            seq![
                Datum::Fixnum(kept->0.left as int),
                Datum::Fixnum(kept->0.right as int),
                if kept->0.outside_margins {
                    Datum::T
                } else {
                    Datum::Nil
                },
                if kept->0.persistent {
                    Datum::T
                } else {
                    Datum::Nil
                },
            ],
        ),
        regions is Some && (regions->0).0 is Some && (regions->0).1 is Some ==> r->Ok_0@
            == lisp::list_of(
            seq![
                Datum::Fixnum((regions->0).0->0 as int),
                Datum::Fixnum((regions->0).1->0 as int),
                if kept->0.outside_margins {
                    Datum::T
                } else {
                    Datum::Nil
                },
                if kept->0.persistent {
                    Datum::T
                } else {
                    Datum::Nil
                },
            ],
        ),
{
    lemma_target(*old(c), arg, w);
}

/// The edges of a frame: its left and top, and as far from them as it is wide and high; the
/// inner ones are in by the border on every side. A terminal's frame has the one kind, a
/// frame of a window system the other.
pub proof fn law_edges_of_a_frame(
    f: &Frame,
    tty: Option<Edges>,
    left: i64,
    top: i64,
    border: i64,
    outer: Option<Edges>,
    kind: &Value,
    inner: Option<Edges>,
)
    requires
        call_ensures(window_geometry::tty_frame_edges, (f,), tty),
        call_ensures(
            window_geometry::neomacs_frame_edges,
            (f, left, top, border, None::<&Value>),
            outer,
        ),
        kind@ == Datum::Symbol("inner-edges"@),
        call_ensures(
            window_geometry::neomacs_frame_edges,
            (f, left, top, border, Some(kind)),
            inner,
        ),
        f.left + f.width <= i64::MAX && f.top + f.height <= i64::MAX,
        -0x4000_0000_0000 < left < 0x4000_0000_0000 && -0x4000_0000_0000 < top < 0x4000_0000_0000,
        0 <= border < 0x4000_0000_0000,
    ensures
        tty is Some <==> !f.initial && !f.graphical,
        outer is Some <==> !f.initial && f.graphical,
        inner is Some <==> outer is Some,
        tty is Some ==> tty->0.left == f.left && tty->0.top == f.top && tty->0.right == f.left
            + f.width && tty->0.bottom == f.top + f.height,
        outer is Some ==> outer->0.left == left && outer->0.top == top && outer->0.right == left
            + f.width && outer->0.bottom == top + f.height,
        inner is Some ==> inner->0.left == outer->0.left + border && inner->0.top == outer->0.top
            + border && inner->0.right == outer->0.right - border && inner->0.bottom
            == outer->0.bottom - border,
{
    reveal_strlit("inner-edges");
    reveal_strlit("nil");
    assert("inner-edges"@.len() != "nil"@.len());
}

/// The edges as a Lisp value: left, top, right and bottom.
pub proof fn law_edges_as_a_value(e: Edges, r: Value)
    requires
        call_ensures(window_geometry::edges_value, (e,), r),
    ensures
        r@ == lisp::list_of(
            seq![
                Datum::Fixnum(e.left as int),
                Datum::Fixnum(e.top as int),
                Datum::Fixnum(e.right as int),
                Datum::Fixnum(e.bottom as int),
            ],
        ),
{
}

/// A frame inside another is placed from it: its position from the root is its own and its
/// parent's.
pub proof fn law_position_from_the_root(c: &Context, id: u64, r: (i128, i128))
    requires
        call_ensures(window_geometry::frame_root_position, (c, id), r),
        c.frame(id) is Some,
    ensures
        c.frame(id)->0.parent is None ==> r.0 == c.frame(id)->0.left && r.1 == c.frame(id)->0.top,
{
    reveal_with_fuel(window_geometry::summed, 3);
    let f = c.frame(id)->0;
    let none = Seq::<u64>::empty();
    assert(window_geometry::is_walk(*c, none));
    assert(window_geometry::is_walk(*c, none.push(id)));
}

/// What is at a place: the first frame in the order that covers it, with the place counted
/// from its own corner. A frame covers what is within it; one inside another that is
/// decorated covers its border too.
pub proof fn law_frame_at(
    c: &Context,
    order: &Vec<u64>,
    x: &Value,
    y: &Value,
    r: Option<FrameHit>,
    at: (i128, i128),
)
    requires
        call_ensures(window_geometry::builtin_tty_frame_at, (c, order, x, y), r),
        x@ is Fixnum && y@ is Fixnum,
        order@.len() > 0,
        c.frame(order@[0]) is Some,
        call_ensures(window_geometry::frame_root_position, (c, order@[0]), at),
    ensures
        ({
            let f = c.frame(order@[0])->0;
            let (px, py) = ((x@)->Fixnum_0, (y@)->Fixnum_0);
            at.0 <= px < at.0 + f.width && at.1 <= py < at.1 + f.height ==> r is Some && r->0.frame
                == order@[0] && r->0.x == px - at.0 && r->0.y == py - at.1
        }),
        order@.len() == 1 ==> {
            let f = c.frame(order@[0])->0;
            let (px, py) = ((x@)->Fixnum_0, (y@)->Fixnum_0);
            px < at.0 - 1 || px > at.0 + f.width || py < at.1 - 1 || py > at.1 + f.height ==> r
                is None
        },
{
    if order@.len() == 1 {
        assert(order@.subrange(1, 1).len() == 0);
    }
    reveal_with_fuel(window_geometry::topmost_at, 2);
}

/// Lines are cut at the edge of a window where that was asked for, where the window is
/// scrolled sideways, and where it is narrower than its frame and than the least width that
/// was set.
pub proof fn law_lines_are_cut(
    found: Option<(u64, i64, i64)>,
    truncate_lines: bool,
    setting: PartialWidth,
    r: bool,
)
    requires
        call_ensures(
            window_geometry::window_truncates_lines_for_motion,
            (found, truncate_lines, setting),
            r,
        ),
    ensures
        found is None ==> !r,
        found is Some && (truncate_lines || (found->0).0 != 0) ==> r,
        found is Some && !truncate_lines && (found->0).0 == 0 ==> {
            let (cols, all) = ((found->0).1, (found->0).2);
            &&& cols >= all ==> !r
            &&& cols < all && setting is Never ==> !r
            &&& cols < all && setting is Always ==> r
            &&& cols < all && setting is Below ==> (r <==> cols < setting->Below_0)
        },
{
}

} // verus!
