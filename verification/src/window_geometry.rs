//! Where frames and windows are, and how much of a window is text.
use vstd::prelude::*;

use crate::lisp;
use crate::lisp::{Datum, Value, WindowBodyUnit};
use crate::window_lists;
use crate::window_state;
use crate::window_state::{Context, Frame, Rect};

verus! {

/// A number of whole cells, cut off toward zero.
pub open spec fn whole_cells(px: int, side: int) -> int {
    if side <= 0 {
        0
    } else if px >= 0 {
        px / side
    } else {
        -((-px) / side)
    }
}

pub fn cells_in(px: i64, side: u32) -> (r: i64)
    ensures
        r == whole_cells(px as int, side as int),
{
    if side == 0 {
        return 0;
    }
    if px >= 0 {
        px / side as i64
    } else {
        let up: i128 = -(px as i128);
        let n: i128 = up / side as i128;
        proof {
            assert(0 <= up as int / side as int <= up) by (nonlinear_arith)
                requires
                    up >= 0,
                    side >= 1,
            ;
        }
        let down: i128 = -n;
        down as i64
    }
}

/// A number of whole cells, rounded down.
fn cells_below(px: i64, side: u32) -> (r: i64)
    requires
        side >= 1,
    ensures
        r == px as int / side as int,
{
    if px >= 0 {
        px / side as i64
    } else {
        let up: i128 = -(px as i128);
        let c: i128 = side as i128;
        let down: i128 = (up + c - 1) / c;
        proof {
            lemma_floor_of_negative(px as int, side as int, up as int);
        }
        let n: i128 = -down;
        n as i64
    }
}

/// The lines of a window, its mode line included.
pub fn window_height_lines(bounds: Rect, char_height: u32) -> (r: i64)
    ensures
        r == whole_cells(bounds.height as int, char_height as int),
{
    cells_in(bounds.height, char_height)
}

/// The columns of a window, its margins and fringes included.
pub fn window_width_cols(bounds: Rect, char_width: u32) -> (r: i64)
    ensures
        r == whole_cells(bounds.width as int, char_width as int),
{
    cells_in(bounds.width, char_width)
}

pub open spec fn not_negative(x: int) -> int {
    if x >= 0 {
        x
    } else {
        0
    }
}

pub fn window_height_pixels(bounds: Rect) -> (r: i64)
    ensures
        r == not_negative(bounds.height as int),
{
    if bounds.height >= 0 {
        bounds.height
    } else {
        0
    }
}

pub fn window_width_pixels(bounds: Rect) -> (r: i64)
    ensures
        r == not_negative(bounds.width as int),
{
    if bounds.width >= 0 {
        bounds.width
    } else {
        0
    }
}

/// What stands beside the text of a window. Widths are pixels, margins columns.
#[derive(Debug, Clone, Copy, PartialEq, Eq, Structural)]
pub struct WindowSides {
    pub left_margin: u64,
    pub right_margin: u64,
    pub left_fringe: i64,
    pub right_fringe: i64,
    pub left_scroll_bar: i64,
    pub right_scroll_bar: i64,
    /// The window reaches the right edge of its frame.
    pub rightmost: bool,
    pub right_divider: i64,
    pub graphical: bool,
    pub char_width: u32,
}

pub open spec fn into_i64(x: int) -> int {
    if x > i64::MAX {
        i64::MAX as int
    } else if x < i64::MIN {
        i64::MIN as int
    } else {
        x
    }
}

fn add_saturating(a: i64, b: i64) -> (r: i64)
    ensures
        r == into_i64(a + b),
{
    let s: i128 = a as i128 + b as i128;
    if s > 9_223_372_036_854_775_807 {
        9_223_372_036_854_775_807
    } else if s < -9_223_372_036_854_775_808 {
        -9_223_372_036_854_775_808
    } else {
        s as i64
    }
}

fn subtract_saturating(a: i64, b: i64) -> (r: i64)
    ensures
        r == into_i64(a - b),
{
    let s: i128 = a as i128 - b as i128;
    if s > 9_223_372_036_854_775_807 {
        9_223_372_036_854_775_807
    } else if s < -9_223_372_036_854_775_808 {
        -9_223_372_036_854_775_808
    } else {
        s as i64
    }
}

/// A column; it is one pixel at least.
pub open spec fn column(s: WindowSides) -> int {
    if s.char_width >= 1 {
        s.char_width as int
    } else {
        1
    }
}

/// A margin in pixels, as much as fits.
fn margin_pixels(columns: u64, column: u32) -> (r: i64)
    requires
        column >= 1,
    ensures
        r == into_i64(columns * column),
{
    proof {
        assert(columns * column <= 0xffff_ffff_ffff_ffff * 0xffff_ffff) by (nonlinear_arith)
            requires
                columns <= 0xffff_ffff_ffff_ffff,
                column <= 0xffff_ffff,
        ;
        assert(columns * column >= 0) by (nonlinear_arith)
            requires
                columns >= 0,
                column >= 0,
        ;
    }
    let p: i128 = columns as i128 * column as i128;
    if p > 9_223_372_036_854_775_807 {
        9_223_372_036_854_775_807
    } else {
        p as i64
    }
}

/// The line between a window and the one to its right: the divider, or a column on a
/// terminal without dividers.
pub open spec fn right_line(s: WindowSides) -> int {
    if s.rightmost {
        0
    } else if s.right_divider > 0 {
        s.right_divider as int
    } else if s.graphical {
        0
    } else {
        column(s)
    }
}

/// What stands to the left of the text.
pub open spec fn left_side(s: WindowSides) -> int {
    into_i64(
        into_i64(
            s.left_scroll_bar + if s.graphical {
                s.left_fringe as int
            } else {
                0
            },
        ) + into_i64(s.left_margin * column(s)),
    )
}

/// What stands to the right of the text.
pub open spec fn right_side(s: WindowSides) -> int {
    into_i64(
        into_i64(
            into_i64(
                s.right_scroll_bar + if s.graphical {
                    s.right_fringe as int
                } else {
                    0
                },
            ) + into_i64(s.right_margin * column(s)),
        ) + right_line(s),
    )
}

/// The widths of what stands to the left and to the right of a window's text. Fringes
/// are there on graphical frames only.
pub fn window_body_horizontal_offsets_pixels(s: WindowSides) -> (r: (i64, i64))
    ensures
        r.0 == left_side(s),
        r.1 == right_side(s),
{
    let col: u32 = if s.char_width >= 1 {
        s.char_width
    } else {
        1
    };
    let left_fringe: i64 = if s.graphical {
        s.left_fringe
    } else {
        0
    };
    let right_fringe: i64 = if s.graphical {
        s.right_fringe
    } else {
        0
    };
    let line: i64 = if s.rightmost {
        0
    } else if s.right_divider > 0 {
        s.right_divider
    } else if s.graphical {
        0
    } else {
        col as i64
    };
    let left: i64 = add_saturating(
        add_saturating(s.left_scroll_bar, left_fringe),
        margin_pixels(s.left_margin, col),
    );
    let right: i64 = add_saturating(
        add_saturating(
            add_saturating(s.right_scroll_bar, right_fringe),
            margin_pixels(s.right_margin, col),
        ),
        line,
    );
    (left, right)
}

/// The width of a window's text.
pub open spec fn body_width(bounds: Rect, s: WindowSides) -> int {
    into_i64(not_negative(bounds.width as int) - into_i64(left_side(s) + right_side(s)))
}

pub fn window_body_width_pixels(bounds: Rect, s: WindowSides) -> (r: i64)
    ensures
        r == body_width(bounds, s),
{
    let total: i64 = window_width_pixels(bounds);
    let (left, right): (i64, i64) = window_body_horizontal_offsets_pixels(s);
    subtract_saturating(total, add_saturating(left, right))
}

/// What stands beside the text and the text itself make up the window, where nothing
/// overflows.
pub proof fn law_body_and_sides_are_the_window(bounds: Rect, s: WindowSides)
    requires
        bounds.width >= 0,
        0 <= left_side(s) <= u32::MAX,
        0 <= right_side(s) <= u32::MAX,
    ensures
        body_width(bounds, s) + left_side(s) + right_side(s) == bounds.width,
{
}

/// Whether a window reaches the right edge of its frame.
pub fn window_is_rightmost(bounds: Rect, frame_width: u32) -> (r: bool)
    ensures
        r == (bounds.x + bounds.width >= frame_width - 1),
{
    bounds.x as i128 + bounds.width as i128 >= frame_width as i128 - 1
}

/// Whether a window reaches the bottom of its frame.
pub fn window_is_bottommost(bounds: Rect, frame_height: u32) -> (r: bool)
    ensures
        r == (bounds.y + bounds.height >= frame_height - 1),
{
    bounds.y as i128 + bounds.height as i128 >= frame_height as i128 - 1
}

/// The width of the divider beside a window: none at the frame's edge, nor where the
/// frame's parameter gives none.
pub fn window_divider_width(at_edge: bool, parameter: Option<i64>) -> (r: i64)
    ensures
        r == if at_edge {
            0
        } else {
            match parameter {
                Some(n) => not_negative(n as int),
                None => 0,
            }
        },
{
    if at_edge {
        return 0;
    }
    match parameter {
        Some(n) => if n >= 0 {
            n
        } else {
            0
        },
        None => 0,
    }
}

/// The height of a window's text: without a mode line of one cell, which the
/// minibuffer has not.
pub open spec fn body_height(bounds: Rect, mini: bool, char_height: u32) -> int {
    if mini {
        not_negative(bounds.height as int)
    } else {
        not_negative(bounds.height as int) - char_height
    }
}

pub fn window_body_height_pixels(bounds: Rect, mini: bool, char_height: u32) -> (r: i64)
    ensures
        r == body_height(bounds, mini, char_height),
{
    let total: i64 = window_height_pixels(bounds);
    if mini {
        total
    } else {
        total - char_height as i64
    }
}

/// The lines of a window without its mode line.
pub fn window_body_height_lines(bounds: Rect, mini: bool, char_height: u32) -> (r: i64)
    ensures
        r == if mini {
            whole_cells(bounds.height as int, char_height as int)
        } else {
            into_i64(whole_cells(bounds.height as int, char_height as int) - 1)
        },
{
    let lines: i64 = window_height_lines(bounds, char_height);
    if mini {
        lines
    } else {
        subtract_saturating(lines, 1)
    }
}

/// A number of pixels in a unit: cells of the frame, cells of the buffer's own font
/// where it has one, or pixels.
pub open spec fn measured(unit: WindowBodyUnit, px: int, cell: u32, remapped: Option<u32>) -> int {
    match unit {
        WindowBodyUnit::Pixels => px,
        WindowBodyUnit::CanonicalChars => whole_cells(px, cell as int),
        WindowBodyUnit::RemappedChars => whole_cells(
            px,
            match remapped {
                Some(c) => c as int,
                None => cell as int,
            },
        ),
    }
}

pub fn measure(unit: WindowBodyUnit, px: i64, cell: u32, remapped: Option<u32>) -> (r: i64)
    ensures
        r == measured(unit, px as int, cell, remapped),
{
    match unit {
        WindowBodyUnit::Pixels => px,
        WindowBodyUnit::CanonicalChars => cells_in(px, cell),
        WindowBodyUnit::RemappedChars => match remapped {
            Some(c) => cells_in(px, c),
            None => cells_in(px, cell),
        },
    }
}

/// The height of a window's text in a unit: as it was last displayed, else by the
/// window's bounds.
pub fn window_body_height_for_window(
    displayed: Option<i64>,
    bounds: Rect,
    mini: bool,
    unit: WindowBodyUnit,
    char_height: u32,
    remapped: Option<u32>,
) -> (r: i64)
    ensures
        r == measured(
            unit,
            match displayed {
                Some(n) => n as int,
                None => body_height(bounds, mini, char_height),
            },
            char_height,
            remapped,
        ),
{
    let px: i64 = match displayed {
        Some(n) => n,
        None => window_body_height_pixels(bounds, mini, char_height),
    };
    measure(unit, px, char_height, remapped)
}

pub open spec fn at_least_one(n: u32) -> int {
    if n >= 1 {
        n as int
    } else {
        1
    }
}

/// The height of a window's text, a part of a line not counted.
pub open spec fn text_height(
    displayed: Option<i64>,
    bounds: Rect,
    mini: bool,
    char_height: u32,
    pixelwise: bool,
) -> int {
    match displayed {
        Some(n) => if pixelwise {
            n as int
        } else {
            n as int / at_least_one(char_height)
        },
        None => if pixelwise {
            body_height(bounds, mini, char_height)
        } else if mini {
            whole_cells(bounds.height as int, char_height as int)
        } else {
            into_i64(whole_cells(bounds.height as int, char_height as int) - 1)
        },
    }
}

/// `(window-text-height WINDOW PIXELWISE)`: the height of a window's text as it was last
/// displayed, else by the window's bounds.
pub fn window_text_height(
    displayed: Option<i64>,
    bounds: Rect,
    mini: bool,
    char_height: u32,
    pixelwise: bool,
) -> (r: i64)
    ensures
        r == text_height(displayed, bounds, mini, char_height, pixelwise),
{
    match displayed {
        Some(n) => if pixelwise {
            n
        } else if char_height >= 1 {
            cells_below(n, char_height)
        } else {
            n
        },
        None => if pixelwise {
            window_body_height_pixels(bounds, mini, char_height)
        } else {
            window_body_height_lines(bounds, mini, char_height)
        },
    }
}

/// The width of a window's text, a part of a column not counted.
pub open spec fn text_width(
    displayed: Option<i64>,
    bounds: Rect,
    s: WindowSides,
    pixelwise: bool,
) -> int {
    let px = match displayed {
        Some(n) => n as int,
        None => body_width(bounds, s),
    };
    if pixelwise {
        px
    } else {
        px / column(s)
    }
}

/// `(window-text-width WINDOW PIXELWISE)`: the width of a window's text, a part of a
/// column not counted.
pub fn window_text_width(displayed: Option<i64>, bounds: Rect, s: WindowSides, pixelwise: bool) -> (r:
    i64)
    ensures
        r == text_width(displayed, bounds, s, pixelwise),
{
    let px: i64 = match displayed {
        Some(n) => n,
        None => window_body_width_pixels(bounds, s),
    };
    if pixelwise {
        return px;
    }
    if s.char_width >= 1 {
        cells_below(px, s.char_width)
    } else {
        assert(px as int / 1 == px as int);
        px
    }
}

proof fn lemma_floor_of_negative(px: int, col: int, up: int)
    requires
        i64::MIN <= px < 0,
        col >= 1,
        up == -px,
    ensures
        px / col == -((up + col - 1) / col),
        i64::MIN <= px / col < 0,
{
    let d = (up + col - 1) / col;
    let r = (up + col - 1) % col;
    assert(up + col - 1 == d * col + r && 0 <= r < col) by (nonlinear_arith)
        requires
            d == (up + col - 1) / col,
            r == (up + col - 1) % col,
            col >= 1,
    ;
    assert(px == (-d) * col + (col - 1 - r)) by (nonlinear_arith)
        requires
            up + col - 1 == d * col + r,
            px == -up,
    ;
    vstd::arithmetic::div_mod::lemma_fundamental_div_mod_converse(px, col, -d, col - 1 - r);
    assert(px <= px / col < 0) by (nonlinear_arith)
        requires
            px < 0,
            col >= 1,
            px == (px / col) * col + (col - 1 - r),
            0 <= r < col,
    ;
}

/// How lines of a partial-width window are cut off.
#[derive(Debug, Clone, Copy, PartialEq, Eq, Structural)]
pub enum PartialWidth {
    /// Never on account of the width.
    Never,
    /// Where the window has fewer columns.
    Below(i64),
    Always,
}

/// What the setting for partial-width windows says.
pub open spec fn partial_width_of(d: Option<Datum>) -> PartialWidth {
    match d {
        None => PartialWidth::Never,
        Some(Datum::Nil) => PartialWidth::Never,
        Some(Datum::Fixnum(n)) => PartialWidth::Below(n as i64),
        Some(_) => PartialWidth::Always,
    }
}

pub fn partial_width_setting(v: Option<&Value>) -> (r: PartialWidth)
    ensures
        r == match v {
            None => PartialWidth::Never,
            Some(x) => partial_width_of(Some(x@)),
        },
{
    match v {
        None => PartialWidth::Never,
        Some(x) => match x {
            Value::Nil => PartialWidth::Never,
            Value::Fixnum(n) => PartialWidth::Below(*n),
            _ => PartialWidth::Always,
        },
    }
}

/// Lines are cut off rather than continued: where the buffer says so, where the window
/// is scrolled sideways, and by the setting for windows that are not as wide as their
/// frame.
pub open spec fn truncates(
    truncate_lines: bool,
    hscroll: u64,
    window_cols: i64,
    root_cols: i64,
    setting: PartialWidth,
) -> bool {
    ||| truncate_lines
    ||| hscroll != 0
    ||| (window_cols < root_cols && match setting {
        PartialWidth::Never => false,
        PartialWidth::Below(n) => window_cols < n,
        PartialWidth::Always => true,
    })
}

/// Whether lines of a window are cut off rather than continued, as far as moving over
/// screen lines goes. A window that is gone cuts none off.
pub fn window_truncates_lines_for_motion(
    found: Option<(u64, i64, i64)>,
    truncate_lines: bool,
    setting: PartialWidth,
) -> (r: bool)
    ensures
        r == match found {
            Some((hscroll, window_cols, root_cols)) => truncates(
                truncate_lines,
                hscroll,
                window_cols,
                root_cols,
                setting,
            ),
            None => false,
        },
{
    match found {
        None => false,
        Some((hscroll, window_cols, root_cols)) => {
            if truncate_lines || hscroll != 0 {
                return true;
            }
            if window_cols >= root_cols {
                return false;
            }
            match setting {
                PartialWidth::Never => false,
                PartialWidth::Below(n) => window_cols < n,
                PartialWidth::Always => true,
            }
        },
    }
}

/// Frames that were walked over: each is there, and none twice.
pub open spec fn is_walk(c: Context, seen: Seq<u64>) -> bool {
    &&& window_lists::no_repeats(seen)
    &&& forall|i: int| 0 <= i < seen.len() ==> c.frame(#[trigger] seen[i]) is Some
}

/// A walk is not longer than there are frames.
pub proof fn lemma_walk_is_short(c: Context, seen: Seq<u64>)
    requires
        is_walk(c, seen),
    ensures
        seen.len() <= c.frames@.len(),
{
    let ids = window_state::frame_ids(c.frames@);
    assert(seen.no_duplicates());
    seen.unique_seq_to_set();
    ids.lemma_cardinality_of_set();
    assert forall|x: u64| #[trigger] seen.to_set().contains(x) implies ids.to_set().contains(x) by {
        let k = seen.index_of(x);
        assert(c.frame(seen[k]) is Some);
        window_state::lemma_index_in(ids, x);
        let i = window_state::index_in(ids, x)->0;
        assert(ids[i] == x);
        assert(ids.contains(x));
    }
    vstd::set_lib::lemma_len_subset(seen.to_set(), ids.to_set());
}

/// The sum of the positions of a frame and of the frames that it is in. A frame that
/// was walked over is not counted again.
pub open spec fn summed(c: Context, current: Option<u64>, seen: Seq<u64>) -> (int, int)
    decreases c.frames@.len() - seen.len(),
    when is_walk(c, seen)
{
    match current {
        None => (0, 0),
        Some(id) => if seen.contains(id) {
            (0, 0)
        } else {
            match c.frame(id) {
                None => (0, 0),
                Some(f) => {
                    proof {
                        assert(is_walk(c, seen.push(id)));
                        lemma_walk_is_short(c, seen.push(id));
                    }
                    let rest = summed(c, f.parent, seen.push(id));
                    (f.left + rest.0, f.top + rest.1)
                },
            }
        },
    }
}

/// The position of a frame on the root frame that it is in.
pub open spec fn root_position(c: Context, id: u64) -> (int, int) {
    summed(c, Some(id), Seq::empty())
}

/// Adds up the positions of a frame and of the frames that it is in. A frame that is in
/// itself, by whatever detour, is counted once.
pub fn frame_root_position(c: &Context, id: u64) -> (r: (i128, i128))
    ensures
        (r.0 as int, r.1 as int) == root_position(*c, id),
        -0x8000_0000_0000_0000 * 0xffff_ffff_ffff_ffff <= r.0 <= 0x8000_0000_0000_0000
            * 0xffff_ffff_ffff_ffff,
        -0x8000_0000_0000_0000 * 0xffff_ffff_ffff_ffff <= r.1 <= 0x8000_0000_0000_0000
            * 0xffff_ffff_ffff_ffff,
{
    let mut x: i128 = 0;
    let mut y: i128 = 0;
    let mut current: Option<u64> = Some(id);
    let mut seen: Vec<u64> = Vec::new();
    let mut go: bool = true;
    proof {
        assert(seen@ =~= Seq::empty());
    }
    while go
        invariant
            is_walk(*c, seen@),
            seen@.len() <= c.frames@.len(),
            go ==> root_position(*c, id) == (
                x + summed(*c, current, seen@).0,
                y + summed(*c, current, seen@).1,
            ),
            !go ==> root_position(*c, id) == (x as int, y as int),
            -0x8000_0000_0000_0000 * seen@.len() <= x <= 0x8000_0000_0000_0000 * seen@.len(),
            -0x8000_0000_0000_0000 * seen@.len() <= y <= 0x8000_0000_0000_0000 * seen@.len(),
        decreases
                c.frames@.len() - seen@.len() + if go {
                    1int
                } else {
                    0
                },
    {
        proof {
            assert(c.frames.len() <= usize::MAX);
        }
        match current {
            None => {
                go = false;
            },
            Some(at) => {
                proof {
                    window_state::lemma_index_in(seen@, at);
                }
                if window_state::position(&seen, at).is_some() {
                    go = false;
                } else {
                    match c.get_frame(at) {
                        None => {
                            go = false;
                        },
                        Some(f) => {
                            let ghost before = seen@;
                            proof {
                                assert(is_walk(*c, before.push(at)));
                                lemma_walk_is_short(*c, before.push(at));
                            }
                            x = x + f.left as i128;
                            y = y + f.top as i128;
                            seen.push(at);
                            current = f.parent;
                        },
                    }
                }
            },
        }
    }
    proof {
        assert(c.frames.len() <= usize::MAX);
    }
    (x, y)
}

/// A frame at a place, and the place seen from the frame's corner.
#[derive(Debug, Clone, Copy, PartialEq, Eq, Structural)]
pub struct FrameHit {
    pub frame: u64,
    pub x: i64,
    pub y: i64,
}

/// A place lies on a frame, or on the border that a decorated child frame has around
/// it.
pub open spec fn frame_covers(c: Context, f: Frame, id: u64, x: int, y: int) -> bool {
    let (fx, fy) = root_position(c, id);
    let w = f.width as int;
    let h = f.height as int;
    ||| (f.parent is Some && !f.undecorated && fy - 1 <= y <= fy + h && (x == fx - 1 || x == fx
        + w))
    ||| (f.parent is Some && !f.undecorated && fx - 1 <= x <= fx + w && (y == fy - 1 || y == fy
        + h))
    ||| (fx <= x < fx + w && fy <= y < fy + h)
}

/// The first of some frames that a place lies on.
pub open spec fn topmost_at(c: Context, order: Seq<u64>, x: int, y: int) -> Option<u64>
    decreases order.len(),
{
    if order.len() == 0 {
        None
    } else {
        match c.frame(order[0]) {
            Some(f) => if frame_covers(c, f, order[0], x, y) {
                Some(order[0])
            } else {
                topmost_at(c, order.subrange(1, order.len() as int), x, y)
            },
            None => topmost_at(c, order.subrange(1, order.len() as int), x, y),
        }
    }
}

fn frame_is_at(c: &Context, f: &Frame, id: u64, x: i64, y: i64) -> (r: Option<FrameHit>)
    ensures
        match r {
            Some(hit) => {
                &&& frame_covers(*c, *f, id, x as int, y as int)
                &&& hit.frame == id
                &&& hit.x == x - root_position(*c, id).0
                &&& hit.y == y - root_position(*c, id).1
            },
            None => !frame_covers(*c, *f, id, x as int, y as int),
        },
{
    let (fx, fy): (i128, i128) = frame_root_position(c, id);
    let px: i128 = x as i128;
    let py: i128 = y as i128;
    let w: i128 = f.width as i128;
    let h: i128 = f.height as i128;
    let framed: bool = f.parent.is_some() && !f.undecorated;
    let beside: bool = framed && fy - 1 <= py && py <= fy + h && (px == fx - 1 || px == fx + w);
    let above: bool = framed && fx - 1 <= px && px <= fx + w && (py == fy - 1 || py == fy + h);
    let inside: bool = fx <= px && px < fx + w && fy <= py && py < fy + h;
    if beside || above || inside {
        let dx: i128 = px - fx;
        let dy: i128 = py - fy;
        Some(FrameHit { frame: id, x: dx as i64, y: dy as i64 })
    } else {
        None
    }
}

/// `(tty-frame-at X Y)`: the topmost frame at a place. `order` holds the visible
/// frames, the topmost first.
pub fn builtin_tty_frame_at(c: &Context, order: &Vec<u64>, x: &Value, y: &Value) -> (r: Option<
    FrameHit,
>)
    ensures
        match (x@, y@) {
            (Datum::Fixnum(px), Datum::Fixnum(py)) => match topmost_at(*c, order@, px, py) {
                Some(id) => r matches Some(hit) && hit.frame == id && hit.x == px - root_position(
                    *c,
                    id,
                ).0 && hit.y == py - root_position(*c, id).1,
                None => r is None,
            },
            _ => r is None,
        },
{
    let (px, py): (i64, i64) = match (lisp::as_int(x), lisp::as_int(y)) {
        (Some(a), Some(b)) => (a, b),
        _ => {
            return None;
        },
    };
    let mut i: usize = 0;
    proof {
        assert(order@.subrange(0, order.len() as int) =~= order@);
    }
    while i < order.len()
        invariant
            i <= order.len(),
            x@ == Datum::Fixnum(px as int),
            y@ == Datum::Fixnum(py as int),
            topmost_at(*c, order@, px as int, py as int) == topmost_at(
                *c,
                order@.subrange(i as int, order.len() as int),
                px as int,
                py as int,
            ),
        decreases order.len() - i,
    {
        let ghost rest = order@.subrange(i as int, order.len() as int);
        proof {
            assert(rest.subrange(1, rest.len() as int) =~= order@.subrange(
                i + 1,
                order.len() as int,
            ));
        }
        match c.get_frame(order[i]) {
            Some(f) => match frame_is_at(c, f, order[i], px, py) {
                Some(hit) => {
                    return Some(hit);
                },
                None => {},
            },
            None => {},
        }
        i += 1;
    }
    None
}

/// Left, top, right and bottom.
#[derive(Debug, Clone, Copy, PartialEq, Eq, Structural)]
pub struct Edges {
    pub left: i64,
    pub top: i64,
    pub right: i64,
    pub bottom: i64,
}

/// `(tty-frame-edges FRAME)`: the edges of a terminal frame. The frame that a session
/// starts with and graphical frames have none.
pub fn tty_frame_edges(f: &Frame) -> (r: Option<Edges>)
    requires
        f.left + f.width <= i64::MAX,
        f.top + f.height <= i64::MAX,
    ensures
        if f.initial || f.graphical {
            r is None
        } else {
            r == Some(
                Edges {
                    left: f.left,
                    top: f.top,
                    right: (f.left + f.width) as i64,
                    bottom: (f.top + f.height) as i64,
                },
            )
        },
{
    if f.initial || f.graphical {
        return None;
    }
    Some(
        Edges {
            left: f.left,
            top: f.top,
            right: f.left + f.width as i64,
            bottom: f.top + f.height as i64,
        },
    )
}

pub open spec fn edges_data(e: Edges) -> Datum {
    lisp::list_of(
        seq![
            Datum::Fixnum(e.left as int),
            Datum::Fixnum(e.top as int),
            Datum::Fixnum(e.right as int),
            Datum::Fixnum(e.bottom as int),
        ],
    )
}

pub fn edges_value(e: Edges) -> (r: Value)
    ensures
        r@ == edges_data(e),
{
    let mut items: Vec<Value> = Vec::new();
    items.push(Value::Fixnum(e.left));
    items.push(Value::Fixnum(e.top));
    items.push(Value::Fixnum(e.right));
    items.push(Value::Fixnum(e.bottom));
    proof {
        assert(lisp::data(items@) =~= seq![
            Datum::Fixnum(e.left as int),
            Datum::Fixnum(e.top as int),
            Datum::Fixnum(e.right as int),
            Datum::Fixnum(e.bottom as int),
        ]);
    }
    lisp::list(items)
}

/// An entry of an association list.
pub open spec fn entry(name: Seq<char>, d: Datum) -> Datum {
    Datum::Pair(Box::new(Datum::Symbol(name)), Box::new(d))
}

pub open spec fn both(a: int, b: int) -> Datum {
    Datum::Pair(Box::new(Datum::Fixnum(a)), Box::new(Datum::Fixnum(b)))
}

/// Where a terminal frame is and how large, as an association list.
pub open spec fn tty_geometry(f: Frame) -> Datum {
    if f.initial || f.graphical {
        Datum::Nil
    } else {
        lisp::list_of(
            seq![
                entry("outer-position"@, both(f.left as int, f.top as int)),
                entry("outer-size"@, both(f.width as int, f.height as int)),
                entry("outer-border-width"@, Datum::Fixnum(0)),
                entry(
                    "native-edges"@,
                    edges_data(
                        Edges {
                            left: f.left,
                            top: f.top,
                            right: (f.left + f.width) as i64,
                            bottom: (f.top + f.height) as i64,
                        },
                    ),
                ),
            ],
        )
    }
}

/// `(tty-frame-geometry FRAME)`: where a terminal frame is and how large.
pub fn tty_frame_geometry(f: &Frame) -> (r: Value)
    requires
        f.left + f.width <= i64::MAX,
        f.top + f.height <= i64::MAX,
    ensures
        r@ == tty_geometry(*f),
{
    let e: Edges = match tty_frame_edges(f) {
        Some(e) => e,
        None => {
            return Value::Nil;
        },
    };
    let mut items: Vec<Value> = Vec::new();
    items.push(
        lisp::pair(
            lisp::symbol("outer-position"),
            lisp::pair(Value::Fixnum(f.left), Value::Fixnum(f.top)),
        ),
    );
    items.push(
        lisp::pair(
            lisp::symbol("outer-size"),
            lisp::pair(Value::Fixnum(f.width as i64), Value::Fixnum(f.height as i64)),
        ),
    );
    items.push(lisp::pair(lisp::symbol("outer-border-width"), Value::Fixnum(0)));
    items.push(lisp::pair(lisp::symbol("native-edges"), edges_value(e)));
    proof {
        assert(lisp::data(items@) =~= seq![
            entry("outer-position"@, both(f.left as int, f.top as int)),
            entry("outer-size"@, both(f.width as int, f.height as int)),
            entry("outer-border-width"@, Datum::Fixnum(0)),
            entry("native-edges"@, edges_data(e)),
        ]);
    }
    lisp::list(items)
}

/// The edges of a graphical frame whose corner is at `left` and `top`.
pub open spec fn gui_edges(f: Frame, left: i64, top: i64, border: i64, kind: Datum) -> Edges {
    let b = if lisp::is_symbol(kind, "inner-edges"@) {
        not_negative(border as int)
    } else {
        0
    };
    Edges {
        left: into_i64(left + b) as i64,
        top: into_i64(top + b) as i64,
        right: into_i64(into_i64(left + f.width) - b) as i64,
        bottom: into_i64(into_i64(top + f.height) - b) as i64,
    }
}

/// `(neomacs-frame-edges FRAME TYPE)`: the edges of a graphical frame whose corner is
/// at `left` and `top`. The inner edges leave out the frame's border.
pub fn neomacs_frame_edges(
    f: &Frame,
    left: i64,
    top: i64,
    border: i64,
    kind: Option<&Value>,
) -> (r: Option<Edges>)
    ensures
        if f.initial || !f.graphical {
            r is None
        } else {
            r == Some(gui_edges(*f, left, top, border, lisp::given(kind)))
        },
{
    proof {
        reveal_strlit("nil");
        reveal_strlit("inner-edges");
        assert("nil"@.len() != "inner-edges"@.len());
    }
    if f.initial || !f.graphical {
        return None;
    }
    let inner: bool = match kind {
        Some(v) => lisp::is_symbol_named(v, "inner-edges"),
        None => false,
    };
    let b: i64 = if inner && border >= 0 {
        border
    } else {
        0
    };
    let right: i64 = add_saturating(left, f.width as i64);
    let bottom: i64 = add_saturating(top, f.height as i64);
    Some(
        Edges {
            left: add_saturating(left, b),
            top: add_saturating(top, b),
            right: subtract_saturating(right, b),
            bottom: subtract_saturating(bottom, b),
        },
    )
}

/// The part of a window's chrome.
#[derive(Debug, Clone, Copy, PartialEq, Eq, Structural)]
pub enum WindowChromeMetric {
    ModeLine,
    HeaderLine,
    TabLine,
}

/// The heights of a window's chrome. In `regions` a part that is not there is `None`.
#[derive(Debug, Clone, Copy, PartialEq, Eq, Structural)]
pub struct ChromeHeights<T> {
    pub mode_line: T,
    pub header_line: T,
    pub tab_line: T,
}

pub open spec fn chrome_part<T>(g: ChromeHeights<T>, metric: WindowChromeMetric) -> T {
    match metric {
        WindowChromeMetric::ModeLine => g.mode_line,
        WindowChromeMetric::HeaderLine => g.header_line,
        WindowChromeMetric::TabLine => g.tab_line,
    }
}

pub open spec fn chrome_height(
    regions: Option<ChromeHeights<Option<i64>>>,
    recorded: Option<ChromeHeights<i64>>,
    metric: WindowChromeMetric,
    fallback: i64,
) -> int {
    match (regions, recorded) {
        (Some(g), _) => match chrome_part(g, metric) {
            Some(h) => h as int,
            None => 0,
        },
        (None, Some(g)) => not_negative(chrome_part(g, metric) as int),
        (None, None) => not_negative(fallback as int),
    }
}

/// The height of a part of a window's chrome: as the last display had it, else as it
/// was recorded, else a default. What is recorded counts as none where it is negative.
pub fn window_chrome_height(
    regions: Option<ChromeHeights<Option<i64>>>,
    recorded: Option<ChromeHeights<i64>>,
    metric: WindowChromeMetric,
    fallback: i64,
) -> (r: i64)
    ensures
        r == chrome_height(regions, recorded, metric, fallback),
{
    match regions {
        Some(g) => {
            let part: Option<i64> = match metric {
                WindowChromeMetric::ModeLine => g.mode_line,
                WindowChromeMetric::HeaderLine => g.header_line,
                WindowChromeMetric::TabLine => g.tab_line,
            };
            match part {
                Some(h) => h,
                None => 0,
            }
        },
        None => {
            let h: i64 = match recorded {
                Some(g) => match metric {
                    WindowChromeMetric::ModeLine => g.mode_line,
                    WindowChromeMetric::HeaderLine => g.header_line,
                    WindowChromeMetric::TabLine => g.tab_line,
                },
                None => fallback,
            };
            if h >= 0 {
                h
            } else {
                0
            }
        },
    }
}

} // verus!
