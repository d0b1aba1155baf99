//! How large a frame is, in cells and in pixels, and how it is resized. Cells are whole
//! numbers of pixels.
use vstd::prelude::*;

use crate::lisp;
use crate::lisp::FrameSizeParam;

verus! {

pub const MIN_FRAME_COLS: i64 = 10;

pub const MIN_FRAME_TEXT_LINES: i64 = 5;

/// What a frame's size depends on.
#[derive(Debug, Clone, Copy, PartialEq, Eq, Structural)]
pub struct FrameGeometry {
    pub width: u32,
    pub height: u32,
    pub char_width: u32,
    pub char_height: u32,
    pub menu_bar_height: u32,
    pub tool_bar_height: u32,
    pub tab_bar_height: u32,
    /// The width of fringes and scroll bars.
    pub horizontal_non_text_width: i64,
    pub internal_border_width: i64,
    pub is_child: bool,
    pub graphical: bool,
    pub has_minibuffer: bool,
    pub displays_chrome: bool,
    /// The lines that menu and tab bars take.
    pub top_margin: i64,
    /// Columns and lines as the pixels give them.
    pub columns: i64,
    pub lines: i64,
    /// Parameters, where they are set.
    pub total_cols_param: Option<i64>,
    pub total_lines_param: Option<i64>,
    pub width_param: Option<i64>,
    pub height_param: Option<i64>,
    pub text_lines_param: Option<i64>,
    pub resize_pending: bool,
}

pub open spec fn at_least(x: int, low: int) -> int {
    if x >= low {
        x
    } else {
        low
    }
}

pub open spec fn at_most(x: int, high: int) -> int {
    if x <= high {
        x
    } else {
        high
    }
}

/// A cell's side; a cell is one pixel at least.
pub open spec fn cell(px: u32) -> int {
    at_least(px as int, 1)
}

fn cell_of(px: u32) -> (r: u32)
    ensures
        r == cell(px),
        r >= 1,
{
    if px >= 1 {
        px
    } else {
        1
    }
}

fn max_u32(x: u32, low: u32) -> (r: u32)
    ensures
        r == at_least(x as int, low as int),
{
    if x >= low {
        x
    } else {
        low
    }
}

fn plus(a: u32, b: u32) -> (r: u32)
    ensures
        r == at_most(a + b, u32::MAX as int),
{
    let s: u64 = a as u64 + b as u64;
    if s <= 4_294_967_295 {
        s as u32
    } else {
        4_294_967_295
    }
}

fn minus(a: u32, b: u32) -> (r: u32)
    ensures
        r == at_least(a - b, 0),
{
    if a >= b {
        a - b
    } else {
        0
    }
}

/// A number of cells in pixels, at most as many as fit.
fn cells_to_pixels(n: u32, side: u32) -> (r: u32)
    ensures
        r == at_most(n * side, u32::MAX as int),
{
    let x: u64 = n as u64;
    let y: u64 = side as u64;
    proof {
        assert(n * side <= 0xffff_ffff * 0xffff_ffff) by (nonlinear_arith)
            requires
                n <= 0xffff_ffff,
                side <= 0xffff_ffff,
        ;
        assert(n * side >= 0) by (nonlinear_arith)
            requires
                n >= 0,
                side >= 0,
        ;
    }
    let p: u64 = x * y;
    if p <= 4_294_967_295 {
        p as u32
    } else {
        4_294_967_295
    }
}

impl FrameGeometry {
    pub open spec fn total_cols(self) -> i64 {
        match (self.total_cols_param, self.width_param) {
            (Some(n), _) => n,
            (None, Some(n)) => n,
            (None, None) => self.columns,
        }
    }

    pub open spec fn total_lines(self) -> i64 {
        match (self.total_lines_param, self.height_param) {
            (Some(n), _) => n,
            (None, Some(n)) => n,
            (None, None) => self.lines,
        }
    }

    /// The height of the bars.
    pub open spec fn bars(self) -> int {
        at_most(
            at_most(self.menu_bar_height + self.tool_bar_height, u32::MAX as int)
                + self.tab_bar_height,
            u32::MAX as int,
        )
    }

    /// The width of the border on both sides together.
    pub open spec fn borders(self) -> int {
        let one = at_least(self.internal_border_width as int, 0);
        if one <= u32::MAX {
            at_most(one * 2, u32::MAX as int)
        } else {
            (u32::MAX / 2) * 2
        }
    }

    /// What is not text, from left to right.
    pub open spec fn non_text_width(self) -> int {
        at_most(
            ((at_least(self.horizontal_non_text_width as int, 0) as i64) as u32) + self.borders(),
            u32::MAX as int,
        )
    }

    /// What is not text, from top to bottom.
    pub open spec fn non_text_height(self) -> int {
        at_most(self.bars() + self.borders(), u32::MAX as int)
    }
}

pub fn frame_total_cols(g: &FrameGeometry) -> (r: i64)
    ensures
        r == g.total_cols(),
{
    match g.total_cols_param {
        Some(n) => n,
        None => match g.width_param {
            Some(n) => n,
            None => g.columns,
        },
    }
}

pub fn frame_total_lines(g: &FrameGeometry) -> (r: i64)
    ensures
        r == g.total_lines(),
{
    match g.total_lines_param {
        Some(n) => n,
        None => match g.height_param {
            Some(n) => n,
            None => g.lines,
        },
    }
}

pub fn frame_is_top_level_non_window(g: &FrameGeometry) -> (r: bool)
    ensures
        r == (!g.graphical && !g.is_child),
{
    !g.graphical && !g.is_child
}

/// The lines that a terminal frame has for text and minibuffer, one at least. Bars take
/// lines only where they are displayed.
pub fn frame_realized_lines(g: &FrameGeometry) -> (r: i64)
    requires
        i64::MIN <= g.lines - g.top_margin <= i64::MAX,
    ensures
        r == at_least(
            g.lines - if g.displays_chrome {
                g.top_margin as int
            } else {
                0
            },
            1,
        ),
{
    let n: i64 = if g.displays_chrome {
        g.lines - g.top_margin
    } else {
        g.lines
    };
    if n >= 1 {
        n
    } else {
        1
    }
}

pub fn frame_non_text_height_pixels(g: &FrameGeometry) -> (r: u32)
    ensures
        r == g.bars(),
{
    plus(plus(g.menu_bar_height, g.tool_bar_height), g.tab_bar_height)
}

pub fn frame_internal_border_total_pixels(g: &FrameGeometry) -> (r: u32)
    ensures
        r == g.borders(),
{
    let w: i64 = g.internal_border_width;
    if w <= 0 {
        0
    } else if w <= 2_147_483_647 {
        (w as u32) * 2
    } else if w <= 4_294_967_295 {
        4_294_967_295
    } else {
        4_294_967_294
    }
}

pub fn frame_non_text_total_width_pixels(g: &FrameGeometry) -> (r: u32)
    ensures
        r == g.non_text_width(),
{
    let w: i64 = if g.horizontal_non_text_width >= 0 {
        g.horizontal_non_text_width
    } else {
        0
    };
    plus(w as u32, frame_internal_border_total_pixels(g))
}

pub fn frame_non_text_total_height_pixels(g: &FrameGeometry) -> (r: u32)
    ensures
        r == g.non_text_height(),
{
    plus(frame_non_text_height_pixels(g), frame_internal_border_total_pixels(g))
}

/// The width of the text area, one pixel at least.
pub fn frame_text_width_pixels(g: &FrameGeometry) -> (r: u32)
    ensures
        r == at_least(at_least(g.width - g.non_text_width(), 0), 1),
{
    max_u32(minus(g.width, frame_non_text_total_width_pixels(g)), 1)
}

/// The height of the text area, one pixel at least.
pub fn frame_text_height_pixels(g: &FrameGeometry) -> (r: u32)
    ensures
        r == at_least(at_least(g.height - g.non_text_height(), 0), 1),
{
    max_u32(minus(g.height, frame_non_text_total_height_pixels(g)), 1)
}

/// A size in cells of a number of pixels each.
pub open spec fn size_in_cells(p: FrameSizeParam, side: u32) -> int {
    match p {
        FrameSizeParam::Cells(n) => n as int,
        FrameSizeParam::TextPixels(px) => at_least(px as int / cell(side), 1),
    }
}

pub fn frame_size_param_to_cells(p: FrameSizeParam, side: u32) -> (r: i64)
    ensures
        r == size_in_cells(p, side),
{
    match p {
        FrameSizeParam::Cells(n) => n,
        FrameSizeParam::TextPixels(px) => {
            let n: u32 = px / cell_of(side);
            if n >= 1 {
                n as i64
            } else {
                1
            }
        },
    }
}

/// A size in pixels, one at least, where cells have a number of pixels each.
pub open spec fn size_in_pixels(p: FrameSizeParam, side: u32) -> int {
    match p {
        FrameSizeParam::Cells(n) => at_most(at_least(n * cell(side), 1), u32::MAX as int),
        FrameSizeParam::TextPixels(px) => at_least(px as int, 1),
    }
}

pub fn frame_size_param_to_pixels(p: FrameSizeParam, side: u32) -> (r: u32)
    ensures
        r == size_in_pixels(p, side),
{
    match p {
        FrameSizeParam::Cells(n) => {
            let unit: u32 = cell_of(side);
            if n <= 0 {
                proof {
                    assert(n * unit <= 0) by (nonlinear_arith)
                        requires
                            n <= 0,
                            unit >= 1,
                    ;
                }
                1
            } else if n > 4_294_967_295 {
                proof {
                    assert(n * unit > 4_294_967_295) by (nonlinear_arith)
                        requires
                            n > 4_294_967_295,
                            unit >= 1,
                    ;
                }
                4_294_967_295
            } else {
                proof {
                    assert(n * unit >= 1) by (nonlinear_arith)
                        requires
                            n >= 1,
                            unit >= 1,
                    ;
                }
                cells_to_pixels(n as u32, unit)
            }
        },
        FrameSizeParam::TextPixels(px) => max_u32(px, 1),
    }
}

/// A number of whole cells, asked for in pixels, is read back in cells.
pub proof fn law_cells_survive_pixels(n: i64, side: u32)
    requires
        1 <= n,
        n * cell(side) <= u32::MAX,
    ensures
        size_in_cells(
            FrameSizeParam::TextPixels(size_in_pixels(FrameSizeParam::Cells(n), side) as u32),
            side,
        ) == n,
{
    let s = cell(side);
    assert(n * s >= 1) by (nonlinear_arith)
        requires
            n >= 1,
            s >= 1,
    ;
    assert((n * s) / s == n) by (nonlinear_arith)
        requires
            n >= 1,
            s >= 1,
    ;
}

pub open spec fn clamp_dimension(value: int, minimum: int) -> int {
    at_most(at_least(value, minimum), u32::MAX as int)
}

pub fn clamp_frame_dimension(value: i64, minimum: i64) -> (r: i64)
    ensures
        r == clamp_dimension(value as int, minimum as int),
{
    let x: i64 = if value >= minimum {
        value
    } else {
        minimum
    };
    if x <= 4_294_967_295 {
        x
    } else {
        4_294_967_295
    }
}

/// A frame once its text area has a size in cells. A child frame may be as small as one
/// cell, and its pixels follow; the size of another frame is left to its host.
pub open spec fn with_text_size(g: FrameGeometry, cols: i64, text_lines: i64) -> FrameGeometry {
    let c = clamp_dimension(
        cols as int,
        if g.is_child {
            1
        } else {
            MIN_FRAME_COLS as int
        },
    );
    let l = clamp_dimension(
        text_lines as int,
        if g.is_child {
            1
        } else {
            MIN_FRAME_TEXT_LINES as int
        },
    );
    let total = at_most(
        l + if g.has_minibuffer {
            1int
        } else {
            0
        },
        u32::MAX as int,
    );
    let sized = FrameGeometry {
        width_param: Some(c as i64),
        height_param: Some(total as i64),
        text_lines_param: Some(l as i64),
        ..g
    };
    if g.is_child {
        FrameGeometry {
            width: at_least(at_most(c * cell(g.char_width), u32::MAX as int), 1) as u32,
            height: at_least(at_most(total * cell(g.char_height), u32::MAX as int), 1) as u32,
            ..sized
        }
    } else {
        sized
    }
}

pub fn set_frame_text_size(g: &mut FrameGeometry, cols: i64, text_lines: i64)
    ensures
        *final(g) == with_text_size(*old(g), cols, text_lines),
{
    let min_cols: i64 = if g.is_child {
        1
    } else {
        MIN_FRAME_COLS
    };
    let min_lines: i64 = if g.is_child {
        1
    } else {
        MIN_FRAME_TEXT_LINES
    };
    let c: i64 = clamp_frame_dimension(cols, min_cols);
    let l: i64 = clamp_frame_dimension(text_lines, min_lines);
    let mini: i64 = if g.has_minibuffer {
        1
    } else {
        0
    };
    let total: i64 = if l + mini <= 4_294_967_295 {
        l + mini
    } else {
        4_294_967_295
    };
    g.width_param = Some(c);
    g.height_param = Some(total);
    g.text_lines_param = Some(l);
    if g.is_child {
        g.width = max_u32(cells_to_pixels(c as u32, cell_of(g.char_width)), 1);
        g.height = max_u32(cells_to_pixels(total as u32, cell_of(g.char_height)), 1);
    }
}

/// A frame never gets smaller than it may be, whatever it is asked for.
pub proof fn law_text_size_has_minimum(g: FrameGeometry, cols: i64, text_lines: i64)
    ensures
        ({
            let n = with_text_size(g, cols, text_lines);
            &&& n.width_param->0 >= if g.is_child {
                1
            } else {
                MIN_FRAME_COLS
            }
            &&& n.text_lines_param->0 >= if g.is_child {
                1
            } else {
                MIN_FRAME_TEXT_LINES
            }
            &&& n.height_param->0 >= n.text_lines_param->0
        }),
{
}

/// What a frame's size is asked for in.
#[derive(Debug, Clone, Copy, PartialEq, Eq, Structural)]
pub enum FrameResizeRequest {
    TextPixels { width: u32, height: u32 },
    Cells { cols: i64, total_lines: i64 },
}

/// Pixels of a text area that has a number of columns and, with the bars, of lines.
pub open spec fn pixels_from_cells(g: FrameGeometry, cols: i64, total_lines: i64) -> (int, int) {
    let w = at_most(at_least(cols as int, 1) * cell(g.char_width), u32::MAX as int);
    let h = at_most(at_least(total_lines as int, 1) * cell(g.char_height), u32::MAX as int);
    (w, at_least(at_least(h - g.bars(), 0), cell(g.char_height)))
}

fn many_cells(n: i64, side: u32) -> (r: u32)
    requires
        side >= 1,
    ensures
        r == at_most(at_least(n as int, 1) * side, u32::MAX as int),
        r >= 1,
{
    let k: i64 = if n >= 1 {
        n
    } else {
        1
    };
    if k > 4_294_967_295 {
        proof {
            assert(k * side > 4_294_967_295) by (nonlinear_arith)
                requires
                    k > 4_294_967_295,
                    side >= 1,
            ;
        }
        4_294_967_295
    } else {
        proof {
            assert(k * side >= 1) by (nonlinear_arith)
                requires
                    k >= 1,
                    side >= 1,
            ;
        }
        cells_to_pixels(k as u32, side)
    }
}

pub fn live_gui_resize_pixels_from_logical_size(g: &FrameGeometry, cols: i64, total_lines: i64) -> (r:
    (u32, u32))
    ensures
        (r.0 as int, r.1 as int) == pixels_from_cells(*g, cols, total_lines),
{
    let w: u32 = many_cells(cols, cell_of(g.char_width));
    let h: u32 = many_cells(total_lines, cell_of(g.char_height));
    let text: u32 = minus(h, frame_non_text_height_pixels(g));
    (w, max_u32(text, cell_of(g.char_height)))
}

impl FrameResizeRequest {
    /// The request in pixels of the text area.
    pub fn text_pixels(self, g: &FrameGeometry) -> (r: (u32, u32))
        ensures
            (r.0 as int, r.1 as int) == match self {
                FrameResizeRequest::TextPixels { width, height } => (
                    at_least(width as int, 1),
                    at_least(height as int, 1),
                ),
                FrameResizeRequest::Cells { cols, total_lines } => pixels_from_cells(
                    *g,
                    cols,
                    total_lines,
                ),
            },
    {
        match self {
            FrameResizeRequest::TextPixels { width, height } => (
                max_u32(width, 1),
                max_u32(height, 1),
            ),
            FrameResizeRequest::Cells { cols, total_lines } =>
            live_gui_resize_pixels_from_logical_size(g, cols, total_lines),
        }
    }

    /// The request in cells.
    pub fn logical_size(self, g: &FrameGeometry) -> (r: (i64, i64))
        ensures
            (r.0 as int, r.1 as int) == match self {
                FrameResizeRequest::Cells { cols, total_lines } => (
                    at_least(cols as int, 1),
                    at_least(total_lines as int, 1),
                ),
                FrameResizeRequest::TextPixels { width, height } => (
                    at_least(width as int / cell(g.char_width), 1),
                    at_least(height as int / cell(g.char_height), 1),
                ),
            },
    {
        match self {
            FrameResizeRequest::Cells { cols, total_lines } => (
                if cols >= 1 {
                    cols
                } else {
                    1
                },
                if total_lines >= 1 {
                    total_lines
                } else {
                    1
                },
            ),
            FrameResizeRequest::TextPixels { width, height } => (
                frame_size_param_to_cells(FrameSizeParam::TextPixels(width), g.char_width),
                frame_size_param_to_cells(FrameSizeParam::TextPixels(height), g.char_height),
            ),
        }
    }
}

/// What is left to do for a resize once the frame's own numbers are set.
#[derive(Debug, Clone, Copy, PartialEq, Eq, Structural)]
pub enum ResizeWork {
    /// Nothing: the frame only pretends to have the size.
    Nothing,
    /// The windows of the frame are laid out in so many pixels.
    LayOut { width: u32, height: u32 },
    /// The windows are laid out, and the host is told.
    LayOutAndTellHost { width: u32, height: u32 },
    /// The host is asked; the frame follows when the host has answered.
    AskHost { width: u32, height: u32 },
}

/// The whole of a frame whose text area has a size, one pixel at least.
pub open spec fn whole_size(g: FrameGeometry, text_width: u32, text_height: u32) -> (u32, u32) {
    (
        at_least(at_most(text_width + g.non_text_width(), u32::MAX as int), 1) as u32,
        at_least(at_most(text_height + g.non_text_height(), u32::MAX as int), 1) as u32,
    )
}

pub open spec fn text_cols(g: FrameGeometry, text_width: u32) -> i64 {
    at_least(text_width as int / cell(g.char_width), 1) as i64
}

pub open spec fn text_lines(g: FrameGeometry, text_height: u32) -> i64 {
    at_least(text_height as int / cell(g.char_height), 1) as i64
}

fn whole_pixels(g: &FrameGeometry, text_width: u32, text_height: u32) -> (r: (u32, u32))
    ensures
        r == whole_size(*g, text_width, text_height),
{
    (
        max_u32(plus(text_width, frame_non_text_total_width_pixels(g)), 1),
        max_u32(plus(text_height, frame_non_text_total_height_pixels(g)), 1),
    )
}

/// A frame that takes its size at once: a resize that was pending is dropped.
pub open spec fn resized(
    g: FrameGeometry,
    text_width: u32,
    text_height: u32,
    pretend: bool,
) -> FrameGeometry {
    let ready = FrameGeometry { resize_pending: false, ..g };
    if pretend {
        with_text_size(ready, text_cols(g, text_width), text_lines(g, text_height))
    } else {
        FrameGeometry {
            width: whole_size(g, text_width, text_height).0,
            height: whole_size(g, text_width, text_height).1,
            text_lines_param: Some(text_lines(g, text_height)),
            ..ready
        }
    }
}

/// Resizes a graphical frame at once, so that its text area has a size in pixels. A
/// frame of its own, as opposed to a child frame, has a host that is told.
pub fn resize_live_gui_frame(
    g: &mut FrameGeometry,
    text_width: u32,
    text_height: u32,
    pretend: bool,
    has_host: bool,
) -> (r: ResizeWork)
    ensures
        *final(g) == resized(*old(g), text_width, text_height, pretend),
        ({
            let (w, h) = whole_size(*old(g), text_width, text_height);
            r == if pretend {
                ResizeWork::Nothing
            } else if !old(g).is_child && has_host {
                ResizeWork::LayOutAndTellHost { width: w, height: h }
            } else {
                ResizeWork::LayOut { width: w, height: h }
            }
        }),
{
    let cols: i64 = frame_size_param_to_cells(FrameSizeParam::TextPixels(text_width), g.char_width);
    let lines: i64 = frame_size_param_to_cells(
        FrameSizeParam::TextPixels(text_height),
        g.char_height,
    );
    let (w, h): (u32, u32) = whole_pixels(g, text_width, text_height);
    g.resize_pending = false;
    if pretend {
        set_frame_text_size(g, cols, lines);
        return ResizeWork::Nothing;
    }
    g.width = w;
    g.height = h;
    g.text_lines_param = Some(lines);
    if !g.is_child && has_host {
        ResizeWork::LayOutAndTellHost { width: w, height: h }
    } else {
        ResizeWork::LayOut { width: w, height: h }
    }
}

/// Asks for a resize of a graphical frame. A frame with a host waits for the host's
/// answer; a child frame, or one without a host, is resized at once.
pub fn request_live_gui_frame_resize(
    g: &mut FrameGeometry,
    text_width: u32,
    text_height: u32,
    pretend: bool,
    has_host: bool,
) -> (r: ResizeWork)
    ensures
        ({
            let (w, h) = whole_size(*old(g), text_width, text_height);
            if !pretend && !old(g).is_child && has_host {
                &&& *final(g) == (FrameGeometry { resize_pending: false, ..*old(g) })
                &&& r == ResizeWork::AskHost { width: w, height: h }
            } else {
                &&& *final(g) == resized(*old(g), text_width, text_height, pretend)
                &&& r == if pretend {
                    ResizeWork::Nothing
                } else {
                    ResizeWork::LayOut { width: w, height: h }
                }
            }
        }),
{
    if !pretend && !g.is_child && has_host {
        let (w, h): (u32, u32) = whole_pixels(g, text_width, text_height);
        g.resize_pending = false;
        return ResizeWork::AskHost { width: w, height: h };
    }
    resize_live_gui_frame(g, text_width, text_height, pretend, false)
}

/// A resize that waits to be done.
#[derive(Debug, Clone, Copy, PartialEq, Eq, Structural)]
pub struct PendingResize {
    pub width_cols: i64,
    pub total_lines: i64,
    pub host_request_sent: bool,
}

/// Does a resize that was waiting. Says whether the host's answer has to be waited for,
/// and what is left to do.
pub fn flush_pending_live_gui_resize(
    g: &mut FrameGeometry,
    pending: Option<PendingResize>,
    has_host: bool,
) -> (r: (bool, ResizeWork))
    ensures
        match pending {
            None => *final(g) == *old(g) && r == (false, ResizeWork::Nothing),
            Some(p) => {
                let taken = FrameGeometry { resize_pending: false, ..*old(g) };
                let (tw, th) = pixels_from_cells(*old(g), p.width_cols, p.total_lines);
                let (w, h) = whole_size(*old(g), tw as u32, th as u32);
                if p.host_request_sent {
                    *final(g) == taken && r == (true, ResizeWork::Nothing)
                } else if has_host && !old(g).is_child {
                    *final(g) == taken && r == (true, ResizeWork::AskHost { width: w, height: h })
                } else {
                    *final(g) == resized(*old(g), tw as u32, th as u32, false) && r == (
                        false,
                        ResizeWork::LayOut { width: w, height: h },
                    )
                }
            },
        },
{
    let p: PendingResize = match pending {
        Some(p) => p,
        None => {
            return (false, ResizeWork::Nothing);
        },
    };
    g.resize_pending = false;
    let (tw, th): (u32, u32) = live_gui_resize_pixels_from_logical_size(
        g,
        p.width_cols,
        p.total_lines,
    );
    if p.host_request_sent {
        return (true, ResizeWork::Nothing);
    }
    let waits: bool = has_host && !g.is_child;
    let work: ResizeWork = request_live_gui_frame_resize(g, tw, th, false, has_host);
    (waits, work)
}

/// A frame that pretends to have a size keeps its pixels, unless it is a child.
pub proof fn law_pretending_keeps_pixels(g: FrameGeometry, w: u32, h: u32)
    requires
        !g.is_child,
    ensures
        resized(g, w, h, true).width == g.width,
        resized(g, w, h, true).height == g.height,
{
}

} // verus!
