//! What planning a frame is for: it is as large as was asked for in each direction, it takes
//! the rest over from where it belongs, and what is made stands apart from what was there.
use vstd::prelude::*;

use crate::frame_gui;
use crate::frame_gui::{GuiFrameMetrics, GuiFramePlan, HostFacts, ParsedGuiFrameParams};
use crate::frame_make;
use crate::frame_make::ChildMinibuffer;
use crate::lisp::FrameSizeParam;
use crate::text;
use crate::window_state::{Context, Frame, Window};

verus! {

/// A size that is asked for, with the border on both sides: so many cells, or so many pixels.
pub open spec fn is_asked_size(asked: FrameSizeParam, cell: int, border: int, side: int) -> bool {
    match asked {
        FrameSizeParam::Cells(n) => n >= 1 && cell >= 1 && n * cell + 2 * border <= u32::MAX ==> side
            == n * cell + 2 * border,
        FrameSizeParam::TextPixels(px) => px >= 1 && px + 2 * border <= u32::MAX ==> side == px + 2
            * border,
    }
}

/// A planned frame is as wide and as high as was asked for. What was not asked for, a child
/// has from its parent; any other frame from the window of the host, where that is known,
/// else from the frame that is selected.
pub proof fn law_planned_size(
    c: &Context,
    p: &ParsedGuiFrameParams,
    host: Option<HostFacts>,
    r: GuiFramePlan,
    border: u32,
    known: Option<(u32, u32)>,
)
    requires
        call_ensures(frame_gui::plan_gui_frame, (c, p, host), r),
        call_ensures(
            frame_gui::parsed_effective_internal_border_width,
            (p, p.parent_frame is Some && c.frame(p.parent_frame->0) is Some),
            border,
        ),
        call_ensures(frame_gui::current_primary_window_size, (host,), known),
    ensures
        p.width is Some ==> is_asked_size(
            p.width->0,
            r.metrics.char_width as int,
            border as int,
            r.width as int,
        ),
        p.height is Some ==> is_asked_size(
            p.height->0,
            r.metrics.char_height as int,
            border as int,
            r.height as int,
        ),
        p.width is None && (r.parent is Some || known is None) ==> r.width == r.metrics.width_px,
        p.height is None && (r.parent is Some || known is None) ==> r.height == r.metrics.height_px,
        p.width is None && r.parent is None && known is Some ==> r.width == (known->0).0,
        p.height is None && r.parent is None && known is Some ==> r.height == (known->0).1,
{
    lemma_asked(p.width, r.metrics.char_width);
    lemma_asked(p.height, r.metrics.char_height);
}

proof fn lemma_asked(s: Option<FrameSizeParam>, cell: u32)
    ensures
        s matches Some(FrameSizeParam::Cells(n)) ==> (n >= 1 && cell >= 1 ==> n * cell >= 1),
{
    if let Some(FrameSizeParam::Cells(n)) = s {
        if n >= 1 && cell >= 1 {
            assert(n * cell >= 1) by (nonlinear_arith)
                requires
                    n >= 1,
                    cell >= 1,
            ;
        }
    }
}

/// A planned frame is a child of the frame that it names, if that is there, and of none
/// otherwise; it is on the display of its parent, else on that of the frame that is selected.
pub proof fn law_planned_parent(
    c: &Context,
    p: &ParsedGuiFrameParams,
    host: Option<HostFacts>,
    r: GuiFramePlan,
)
    requires
        call_ensures(frame_gui::plan_gui_frame, (c, p, host), r),
    ensures
        r.parent is Some <==> p.parent_frame is Some && c.frame(p.parent_frame->0) is Some,
        r.parent is Some ==> r.parent == p.parent_frame && r.display_from == r.parent,
        r.parent is None && c.selected() is Some ==> r.display_from == c.selected_frame,
        r.parent is None && c.selected() is None ==> r.display_from is None,
{
}

/// What is taken over comes from the parent, where there is one, else from the frame that is
/// selected: its size and the size of its characters.
pub proof fn law_planned_metrics(
    c: &Context,
    p: &ParsedGuiFrameParams,
    host: Option<HostFacts>,
    r: GuiFramePlan,
    current: GuiFrameMetrics,
)
    requires
        call_ensures(frame_gui::plan_gui_frame, (c, p, host), r),
        call_ensures(frame_gui::current_gui_frame_metrics, (c,), current),
    ensures
        r.parent is None ==> r.metrics == current,
        r.parent matches Some(id) ==> (c.frame(id) matches Some(f) ==> {
            &&& f.width >= 1 ==> r.metrics.width_px == f.width
            &&& f.height >= 1 ==> r.metrics.height_px == f.height
            &&& f.char_width >= 1 ==> r.metrics.char_width == f.char_width
            &&& f.char_height >= 1 ==> r.metrics.char_height == f.char_height
        }),
        c.selected() matches Some(f) ==> {
            &&& f.width >= 1 ==> current.width_px == f.width
            &&& current.height_px >= f.height
            &&& f.height > current.minibuffer_height ==> current.height_px == f.height
            &&& f.char_width >= 1 ==> current.char_width == f.char_width
            &&& f.char_height >= 1 ==> current.char_height == f.char_height
        },
{
}

/// A minibuffer of a frame's own is as high as its window, and one character at least.
pub proof fn law_minibuffer_height(c: &Context, r: GuiFrameMetrics)
    requires
        call_ensures(frame_gui::current_gui_frame_metrics, (c,), r),
    ensures
        c.selected() matches Some(f) ==> {
            &&& r.minibuffer_height >= 1
            &&& r.minibuffer_height >= f.char_height
            &&& f.minibuffer_window is None && f.char_height >= 1 ==> r.minibuffer_height
                == f.char_height
            &&& f.minibuffer_window matches Some(w) ==> (c.window(w) matches Some(x) ==> (x.mini
                && x.frame == f.id && x.bounds.height >= 1 && f.char_height <= x.bounds.height
                <= u32::MAX ==> r.minibuffer_height == x.bounds.height))
        },
{
}

/// A child has the border that children have, where one is asked for; any other frame, and a
/// child otherwise, the one inside its edges. Where none is asked for there is none.
pub proof fn law_border(p: &ParsedGuiFrameParams, child: u32, other: u32)
    requires
        call_ensures(frame_gui::parsed_effective_internal_border_width, (p, true), child),
        call_ensures(frame_gui::parsed_effective_internal_border_width, (p, false), other),
    ensures
        p.internal_border_width is None ==> other == 0,
        p.internal_border_width matches Some(n) ==> (0 <= n <= u32::MAX ==> other == n),
        p.internal_border_width matches Some(n) ==> (n < 0 ==> other == 0),
        p.child_frame_border_width is None ==> child == other,
        p.child_frame_border_width matches Some(n) ==> (0 <= n <= u32::MAX ==> child == n),
        p.child_frame_border_width matches Some(n) ==> (n < 0 ==> child == 0),
{
}

/// The window of the host counts where it is known and has a size.
pub proof fn law_window_of_the_host(h: HostFacts, r: Option<(u32, u32)>, none: Option<(u32, u32)>)
    requires
        call_ensures(frame_gui::current_primary_window_size, (Some(h),), r),
        call_ensures(frame_gui::current_primary_window_size, (None::<HostFacts>,), none),
    ensures
        none is None,
        r is Some <==> h.size_known && h.width > 0 && h.height > 0,
        r is Some ==> (r->0).0 == h.width && (r->0).1 == h.height,
{
}

/// The font comes from nowhere if one is asked for, and else from a frame that has one: the
/// parent before the frame that is selected.
pub proof fn law_font(
    c: &Context,
    p: &ParsedGuiFrameParams,
    host: Option<HostFacts>,
    r: GuiFramePlan,
)
    requires
        call_ensures(frame_gui::plan_gui_frame, (c, p, host), r),
        frame_gui::entry_of(p@.all, "font"@) is None,
    ensures
        r.parent matches Some(id) ==> (c.frame(id) matches Some(f) ==> (f.has_font ==> r.font_from
            == r.parent)),
        r.parent is None && (c.selected() matches Some(f) && f.has_font) ==> r.font_from
            == c.selected_frame,
{
}

proof fn lemma_top_child(v: Seq<Frame>, parent: u64)
    ensures
        frame_make::top_child(v, parent) >= 0,
        forall|i: int|
            0 <= i < v.len() && (#[trigger] v[i]).parent == Some(parent) ==> v[i].z_order
                <= frame_make::top_child(v, parent),
        frame_make::top_child(v, parent) > 0 ==> exists|i: int|
            0 <= i < v.len() && (#[trigger] v[i]).parent == Some(parent) && v[i].z_order
                == frame_make::top_child(v, parent),
    decreases v.len(),
{
    if v.len() > 0 {
        let w = v.drop_last();
        lemma_top_child(w, parent);
        let (before, all) = (
            frame_make::top_child(w, parent),
            frame_make::top_child(v, parent),
        );
        assert forall|i: int|
            0 <= i < v.len() && (#[trigger] v[i]).parent == Some(parent) implies v[i].z_order
            <= all by {
            if i < w.len() {
                assert(w[i] == v[i]);
            }
        }
        if all > 0 {
            if all == before {
                let i = choose|i: int|
                    0 <= i < w.len() && (#[trigger] w[i]).parent == Some(parent) && w[i].z_order
                        == before;
                assert(v[i] == w[i]);
            } else {
                assert(v[v.len() - 1] == v.last());
            }
        }
    }
}

/// No child of a frame is above the highest one, which is one of them.
pub proof fn law_highest_child(v: &Vec<Frame>, parent: u64, r: i64, i: int)
    requires
        call_ensures(frame_make::max_child_z_order, (v, parent), r),
    ensures
        r >= 0,
        0 <= i < v@.len() && v@[i].parent == Some(parent) ==> v@[i].z_order <= r,
        r > 0 ==> exists|k: int|
            0 <= k < v@.len() && (#[trigger] v@[k]).parent == Some(parent) && v@[k].z_order == r,
{
    lemma_top_child(v@, parent);
}

/// The names that are made up: each is the letter and the next number, and nothing but the
/// count of them changes.
pub proof fn law_made_up_name(c: &mut Context, r: String, digits: String)
    requires
        call_ensures(frame_make::next_generated_tty_frame_name, (c,), r),
        old(c).frame_names < u64::MAX,
        call_ensures(text::decimal_text, (final(c).frame_names,), digits),
    ensures
        final(c).frame_names == old(c).frame_names + 1,
        r@ == "F"@ + digits@,
        *final(c) == (Context { frame_names: final(c).frame_names, ..*old(c) }),
{
}

/// A frame that has a minibuffer of its own keeps its two windows. One that shares another's
/// loses the second, and of one that is nothing but a minibuffer the first shows it.
pub proof fn law_settled_minibuffer(c: &mut Context, m: ChildMinibuffer, buffer: u64, i: int)
    requires
        call_ensures(frame_make::settle_minibuffer, (c, m, buffer), ()),
        old(c).windows@.len() >= 2,
    ensures
        m is Own ==> final(c).windows@ == old(c).windows@,
        !(m is Own) ==> final(c).windows@.len() == old(c).windows@.len() - 1,
        m is Shared && 0 <= i < old(c).windows@.len() - 1 ==> final(c).windows@[i]
            == old(c).windows@[i],
        m is Only && 0 <= i < old(c).windows@.len() - 2 ==> final(c).windows@[i]
            == old(c).windows@[i],
        m is Only ==> final(c).windows@.last() == (Window {
            buffer: buffer,
            ..old(c).windows@[old(c).windows@.len() - 2]
        }),
        final(c).frames == old(c).frames,
        final(c).buffers == old(c).buffers,
{
}

/// The frame that opens a session is selected, and its buffer is the current one.
pub proof fn law_opening_frame(c: &mut Context, frame: u64, buffer: u64)
    requires
        call_ensures(frame_gui::adopt_opening_frame, (c, frame, buffer), ()),
    ensures
        old(c).frame(frame) is Some ==> final(c).selected_frame == Some(frame),
        old(c).frame(frame) is None ==> final(c).selected_frame == old(c).selected_frame,
        old(c).buffer(buffer) is Some ==> final(c).current_buffer == Some(buffer),
        old(c).buffer(buffer) is None ==> final(c).current_buffer == old(c).current_buffer,
        final(c).frames == old(c).frames,
        final(c).buffers == old(c).buffers,
{
}

} // verus!
