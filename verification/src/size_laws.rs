//! What the size of a frame is: its text area with what is around it.
use vstd::prelude::*;

use crate::frame_size;
use crate::frame_size::{FrameGeometry, FrameResizeRequest, PendingResize, ResizeWork};
use crate::lisp::FrameSizeParam;

verus! {

/// A width that is not negative.
pub open spec fn not_negative(n: i64) -> int {
    if n < 0 {
        0
    } else {
        n as int
    }
}

/// The pixels beside the text of a frame: fringes, scroll bars and the border twice.
pub open spec fn beside_text(g: FrameGeometry) -> int {
    not_negative(g.horizontal_non_text_width) + 2 * not_negative(g.internal_border_width)
}

/// The pixels above and below the text of a frame: the three bars and the border twice.
pub open spec fn above_and_below_text(g: FrameGeometry) -> int {
    g.menu_bar_height + g.tool_bar_height + g.tab_bar_height + 2 * not_negative(
        g.internal_border_width,
    )
}

/// A text area of a size, with what is around it, is not larger than a frame can be.
pub open spec fn can_be_had(g: FrameGeometry, width: int, height: int) -> bool {
    &&& 0 <= width && width + beside_text(g) <= u32::MAX
    &&& 0 <= height && height + above_and_below_text(g) <= u32::MAX
}

/// A frame whose text area has a size in pixels, which is one pixel at least.
pub open spec fn has_text_area(g: FrameGeometry, width: int, height: int) -> bool {
    &&& g.width == width + beside_text(g) || (width == 0 && g.width == 1 && beside_text(g) == 0)
    &&& g.height == height + above_and_below_text(g) || (height == 0 && g.height == 1
        && above_and_below_text(g) == 0)
}

/// The text area of a frame is what is left of it without what is around the text.
pub proof fn law_text_area_is_what_is_left(g: &FrameGeometry, width: u32, height: u32)
    requires
        call_ensures(frame_size::frame_text_width_pixels, (g,), width),
        call_ensures(frame_size::frame_text_height_pixels, (g,), height),
        can_be_had(*g, 0, 0),
    ensures
        g.width > beside_text(*g) ==> width == g.width - beside_text(*g),
        g.width <= beside_text(*g) ==> width == 1,
        g.height > above_and_below_text(*g) ==> height == g.height - above_and_below_text(*g),
        g.height <= above_and_below_text(*g) ==> height == 1,
{
}

/// After a resize that is not pretended, the text area of the frame has the size that was
/// asked for, and the windows are laid out in the whole of the frame.
pub proof fn law_resize_gives_the_text_area(
    g: &mut FrameGeometry,
    width: u32,
    height: u32,
    has_host: bool,
    work: ResizeWork,
    seen_width: u32,
    seen_height: u32,
)
    requires
        call_ensures(
            frame_size::resize_live_gui_frame,
            (g, width, height, false, has_host),
            work,
        ),
        call_ensures(frame_size::frame_text_width_pixels, (&*final(g),), seen_width),
        call_ensures(frame_size::frame_text_height_pixels, (&*final(g),), seen_height),
        can_be_had(*old(g), width as int, height as int),
    ensures
        has_text_area(*final(g), width as int, height as int),
        width >= 1 ==> seen_width == width,
        height >= 1 ==> seen_height == height,
        !final(g).resize_pending,
        final(g).text_lines_param matches Some(n) && (height >= old(g).char_height >= 1 ==> n
            * old(g).char_height <= height < (n + 1) * old(g).char_height),
        *final(g) == (FrameGeometry {
            width: final(g).width,
            height: final(g).height,
            text_lines_param: final(g).text_lines_param,
            resize_pending: false,
            ..*old(g)
        }),
        if has_host && !old(g).is_child {
            work == (ResizeWork::LayOutAndTellHost {
                width: final(g).width,
                height: final(g).height,
            })
        } else {
            work == (ResizeWork::LayOut { width: final(g).width, height: final(g).height })
        },
{
    let side = old(g).char_height as int;
    if height >= old(g).char_height >= 1 {
        let q = height as int / side;
        assert(1 <= q <= height && q * side <= height < (q + 1) * side) by (nonlinear_arith)
            requires
                q == height as int / side,
                1 <= side <= height,
        ;
    }
}

/// A resize that is asked of a host asks for the whole of a frame with that text area, and
/// leaves the frame as it is; without a host, or on a child frame, the frame has the text
/// area at once.
pub proof fn law_requested_resize(
    g: &mut FrameGeometry,
    width: u32,
    height: u32,
    has_host: bool,
    work: ResizeWork,
)
    requires
        call_ensures(
            frame_size::request_live_gui_frame_resize,
            (g, width, height, false, has_host),
            work,
        ),
        can_be_had(*old(g), width as int, height as int),
    ensures
        has_host && !old(g).is_child ==> {
            &&& *final(g) == (FrameGeometry { resize_pending: false, ..*old(g) })
            &&& work matches ResizeWork::AskHost { width: w, height: h } && has_text_area(
                FrameGeometry { width: w, height: h, ..*old(g) },
                width as int,
                height as int,
            )
        },
        !has_host || old(g).is_child ==> {
            &&& has_text_area(*final(g), width as int, height as int)
            &&& work == (ResizeWork::LayOut { width: final(g).width, height: final(g).height })
        },
{
}

/// A size in columns and lines that was waiting: the text area is so many columns wide, and
/// so many lines high without the bars.
pub proof fn law_waiting_resize_is_done(
    g: &mut FrameGeometry,
    p: PendingResize,
    has_host: bool,
    r: (bool, ResizeWork),
)
    requires
        call_ensures(
            frame_size::flush_pending_live_gui_resize,
            (g, Some(p), has_host),
            r,
        ),
        p.width_cols >= 1,
        p.total_lines >= 1,
        old(g).char_width >= 1,
        old(g).char_height >= 1,
        p.total_lines * old(g).char_height >= old(g).menu_bar_height + old(g).tool_bar_height
            + old(g).tab_bar_height + old(g).char_height,
        can_be_had(
            *old(g),
            p.width_cols * old(g).char_width,
            p.total_lines * old(g).char_height,
        ),
    ensures
        ({
            let width = p.width_cols * old(g).char_width;
            let height = p.total_lines * old(g).char_height - (old(g).menu_bar_height + old(
                g,
            ).tool_bar_height + old(g).tab_bar_height);
            &&& p.host_request_sent ==> r == (true, ResizeWork::Nothing)
            &&& !p.host_request_sent && has_host && !old(g).is_child ==> r.0 && (
            r.1 matches ResizeWork::AskHost { width: w, height: h } && has_text_area(
                FrameGeometry { width: w, height: h, ..*old(g) },
                width,
                height,
            ))
            &&& !p.host_request_sent && (!has_host || old(g).is_child) ==> !r.0 && has_text_area(
                *final(g),
                width,
                height,
            ) && r.1 == (ResizeWork::LayOut { width: final(g).width, height: final(g).height })
        }),
        !final(g).resize_pending,
{
    let cw = old(g).char_width as int;
    let cols = p.width_cols as int;
    assert(cols * cw >= 1) by (nonlinear_arith)
        requires
            cols >= 1,
            cw >= 1,
    ;
}

/// A frame that is given a size in columns and lines has them as its parameters, within
/// what a frame may be; the minibuffer is one line more. A child frame has the pixels of
/// so many cells, and another frame keeps its pixels.
pub proof fn law_text_size_is_taken(g: &mut FrameGeometry, cols: i64, lines: i64)
    requires
        call_ensures(frame_size::set_frame_text_size, (g, cols, lines), ()),
        10 <= cols < 0x1_0000_0000,
        5 <= lines < 0xffff_ffff,
    ensures
        final(g).width_param == Some(cols),
        final(g).text_lines_param == Some(lines),
        final(g).height_param matches Some(n) && n == lines + if old(g).has_minibuffer {
            1int
        } else {
            0
        },
        !old(g).is_child ==> final(g).width == old(g).width && final(g).height == old(g).height,
        old(g).is_child && old(g).char_width >= 1 && cols * old(g).char_width <= u32::MAX
            ==> final(g).width == cols * old(g).char_width,
        old(g).is_child && old(g).char_height >= 1 && (final(g).height_param->0) * old(
            g,
        ).char_height <= u32::MAX ==> final(g).height == (final(g).height_param->0) * old(
            g,
        ).char_height,
{
    let cw = old(g).char_width as int;
    let ch = old(g).char_height as int;
    let n = final(g).height_param->0 as int;
    if old(g).is_child && cw >= 1 {
        assert(cols * cw >= 1) by (nonlinear_arith)
            requires
                cols >= 10,
                cw >= 1,
        ;
    }
    if old(g).is_child && ch >= 1 {
        assert(n * ch >= 1) by (nonlinear_arith)
            requires
                n >= 5,
                ch >= 1,
        ;
    }
}

/// A frame is not made smaller than it may be: ten columns and five lines, or one of each
/// for a child frame.
pub proof fn law_small_sizes(g: &mut FrameGeometry, cols: i64, lines: i64)
    requires
        call_ensures(frame_size::set_frame_text_size, (g, cols, lines), ()),
    ensures
        cols < 1 && old(g).is_child ==> final(g).width_param == Some(1i64),
        cols < 10 && !old(g).is_child ==> final(g).width_param == Some(10i64),
        lines < 1 && old(g).is_child ==> final(g).text_lines_param == Some(1i64),
        lines < 5 && !old(g).is_child ==> final(g).text_lines_param == Some(5i64),
        old(g).is_child && 1 <= cols <= 10 ==> final(g).width_param == Some(cols),
        old(g).is_child && 1 <= lines <= 5 ==> final(g).text_lines_param == Some(lines),
{
}

/// A number of cells is so many times a cell's pixels; pixels stand for themselves. Read
/// back, pixels are the whole cells in them, one at least.
pub proof fn law_cells_and_pixels(p: FrameSizeParam, side: u32, pixels: u32, cells: i64)
    requires
        call_ensures(frame_size::frame_size_param_to_pixels, (p, side), pixels),
        call_ensures(frame_size::frame_size_param_to_cells, (p, side), cells),
        side >= 1,
    ensures
        p matches FrameSizeParam::Cells(n) ==> {
            &&& cells == n
            &&& n >= 1 && n * side <= u32::MAX ==> pixels == n * side
            &&& n <= 0 ==> pixels == 1
        },
        p matches FrameSizeParam::TextPixels(px) ==> {
            &&& px >= 1 ==> pixels == px
            &&& px >= side ==> cells * side <= px < (cells + 1) * side
            &&& px < side ==> cells == 1
        },
{
    match p {
        FrameSizeParam::Cells(n) => {
            if n >= 1 {
                assert(n * side >= 1) by (nonlinear_arith)
                    requires
                        n >= 1,
                        side >= 1,
                ;
            } else {
                assert(n * side <= 0) by (nonlinear_arith)
                    requires
                        n <= 0,
                        side >= 1,
                ;
            }
        },
        FrameSizeParam::TextPixels(px) => {
            let q = px as int / side as int;
            assert(q * side <= px < (q + 1) * side) by (nonlinear_arith)
                requires
                    q == px as int / side as int,
                    side >= 1,
            ;
            assert(px >= side ==> q >= 1) by (nonlinear_arith)
                requires
                    q == px as int / side as int,
                    side >= 1,
            ;
            assert(px < side ==> q == 0) by (nonlinear_arith)
                requires
                    q == px as int / side as int,
                    side >= 1,
                    px >= 0,
            ;
        },
    }
}

/// A request in cells and one in pixels are the same request where the pixels are those of
/// the cells, without the bars.
pub proof fn law_resize_requests(
    r: FrameResizeRequest,
    g: &FrameGeometry,
    pixels: (u32, u32),
    cells: (i64, i64),
)
    requires
        call_ensures(FrameResizeRequest::text_pixels, (r, g), pixels),
        call_ensures(FrameResizeRequest::logical_size, (r, g), cells),
        g.char_width >= 1,
        g.char_height >= 1,
        g.menu_bar_height + g.tool_bar_height + g.tab_bar_height <= u32::MAX,
    ensures
        r matches FrameResizeRequest::TextPixels { width, height } ==> {
            &&& width >= 1 ==> pixels.0 == width
            &&& height >= 1 ==> pixels.1 == height
            &&& width >= g.char_width ==> cells.0 * g.char_width <= width < (cells.0 + 1)
                * g.char_width
            &&& height >= g.char_height ==> cells.1 * g.char_height <= height < (cells.1 + 1)
                * g.char_height
        },
        r matches FrameResizeRequest::Cells { cols, total_lines } ==> {
            &&& cols >= 1 ==> cells.0 == cols
            &&& total_lines >= 1 ==> cells.1 == total_lines
            &&& cols >= 1 && cols * g.char_width <= u32::MAX ==> pixels.0 == cols * g.char_width
            &&& total_lines >= 1 && total_lines * g.char_height <= u32::MAX && total_lines
                * g.char_height >= g.menu_bar_height + g.tool_bar_height + g.tab_bar_height
                + g.char_height ==> pixels.1 + g.menu_bar_height + g.tool_bar_height
                + g.tab_bar_height == total_lines * g.char_height
        },
{
    match r {
        FrameResizeRequest::TextPixels { width, height } => {
            let (a, b) = (width as int / g.char_width as int, height as int / g.char_height as int);
            let (cw, ch) = (g.char_width as int, g.char_height as int);
            assert(a * cw <= width < (a + 1) * cw && (width >= cw ==> a >= 1)) by (nonlinear_arith)
                requires
                    a == width as int / cw,
                    cw >= 1,
            ;
            assert(b * ch <= height < (b + 1) * ch && (height >= ch ==> b >= 1)) by (
            nonlinear_arith)
                requires
                    b == height as int / ch,
                    ch >= 1,
            ;
        },
        FrameResizeRequest::Cells { cols, total_lines } => {},
    }
}

/// The columns and lines of a frame are its parameters where it has any, those for the whole
/// frame first, else what its pixels give.
pub proof fn law_total_cells(g: &FrameGeometry, cols: i64, lines: i64)
    requires
        call_ensures(frame_size::frame_total_cols, (g,), cols),
        call_ensures(frame_size::frame_total_lines, (g,), lines),
    ensures
        g.total_cols_param is Some ==> g.total_cols_param == Some(cols),
        g.total_cols_param is None && g.width_param is Some ==> g.width_param == Some(cols),
        g.total_cols_param is None && g.width_param is None ==> cols == g.columns,
        g.total_lines_param is Some ==> g.total_lines_param == Some(lines),
        g.total_lines_param is None && g.height_param is Some ==> g.height_param == Some(lines),
        g.total_lines_param is None && g.height_param is None ==> lines == g.lines,
{
}

} // verus!
