//! What making a frame is for: the frame has the size, the place and the name that its
//! parameters ask for.
use vstd::prelude::*;

use crate::frame_gui;
use crate::frame_gui::{GuiFrameModel, HostFacts, MadeGuiFrame};
use crate::frame_make;
use crate::frame_make::{ChildMinibuffer, MadeFrame, PlainFrameModel};
use crate::lisp;
use crate::lisp::{Datum, FrameSizeParam, Signal, Value};
use crate::text;
use crate::window_state;
use crate::window_state::{Context, Frame};

verus! {

/// The value that a list of parameters gives for a name: that of the last pair with it.
pub open spec fn asked(items: Seq<Datum>, key: Seq<char>) -> Option<Datum>
    decreases items.len(),
{
    if items.len() == 0 {
        None
    } else {
        match items.last() {
            Datum::Pair(k, v) => if *k == Datum::Symbol(key) {
                Some(*v)
            } else {
                asked(items.drop_last(), key)
            },
            _ => asked(items.drop_last(), key),
        }
    }
}

/// A size that is asked for, in cells or in pixels of the text area.
pub open spec fn is_size(d: Option<Datum>, r: Option<FrameSizeParam>) -> bool {
    match d {
        None => r is None,
        Some(Datum::Fixnum(n)) => 1 <= n <= i64::MAX ==> r == Some(
            FrameSizeParam::Cells(n as i64),
        ),
        Some(Datum::Pair(a, b)) => *a == Datum::Symbol("text-pixels"@) ==> (
        *b matches Datum::Fixnum(n) ==> (1 <= n <= u32::MAX ==> r == Some(
            FrameSizeParam::TextPixels(n as u32),
        ))),
        _ => true,
    }
}

/// A text or a symbol that is asked for.
pub open spec fn is_text(d: Option<Datum>, r: Option<Seq<char>>) -> bool {
    match d {
        None => r is None,
        Some(Datum::Text(s)) => r == Some(s),
        Some(Datum::Symbol(s)) => r == Some(s),
        _ => true,
    }
}

/// A number that is asked for.
pub open spec fn is_number(d: Option<Datum>, r: Option<i64>) -> bool {
    match d {
        None => r is None,
        Some(Datum::Fixnum(n)) => i64::MIN <= n <= i64::MAX ==> r == Some(n as i64),
        _ => true,
    }
}

/// Something that is asked for, unless it is `nil`.
pub open spec fn is_flag(d: Option<Datum>, r: bool) -> bool {
    match d {
        None => !r,
        Some(x) => r == !(x is Nil),
    }
}

proof fn lemma_names()
    ensures
        "name"@ != "title"@ && "name"@ != "width"@ && "name"@ != "height"@ && "title"@ != "width"@,
        "title"@ != "height"@ && "width"@ != "height"@ && "left"@ != "name"@,
        "top"@ != "left"@ && "top"@ != "name"@ && "top"@ != "width"@,
        "visibility"@.len() == 10 && "parent-frame"@.len() == 12 && "fullscreen"@.len() == 10,
        "visibility"@ != "fullscreen"@ && "minibuffer"@.len() == 10 && "minibuffer"@
            != "fullscreen"@ && "minibuffer"@ != "visibility"@,
        "name"@.len() == 4 && "title"@.len() == 5 && "width"@.len() == 5 && "height"@.len() == 6,
        "left"@.len() == 4 && "top"@.len() == 3 && "internal-border-width"@.len() == 21,
        "child-frame-border-width"@.len() == 24 && "undecorated"@.len() == 11,
        "no-accept-focus"@.len() == 15 && "unsplittable"@.len() == 12,
        "unsplittable"@ != "parent-frame"@,
        "nil"@.len() == 3 && "t"@.len() == 1 && "nil"@ != "top"@,
{
    reveal_strlit("name");
    reveal_strlit("title");
    reveal_strlit("width");
    reveal_strlit("height");
    reveal_strlit("visibility");
    reveal_strlit("parent-frame");
    reveal_strlit("left");
    reveal_strlit("top");
    reveal_strlit("fullscreen");
    reveal_strlit("minibuffer");
    reveal_strlit("internal-border-width");
    reveal_strlit("child-frame-border-width");
    reveal_strlit("undecorated");
    reveal_strlit("no-accept-focus");
    reveal_strlit("unsplittable");
    reveal_strlit("nil");
    reveal_strlit("t");
    assert("name"@[0] == 'n' && "left"@[0] == 'l');
    assert("title"@[0] == 't' && "width"@[0] == 'w');
    assert("visibility"@[0] == 'v' && "fullscreen"@[0] == 'f' && "minibuffer"@[0] == 'm');
    assert("unsplittable"@[0] == 'u' && "parent-frame"@[0] == 'p');
    assert("nil"@[0] == 'n' && "top"@[0] == 't');
}

/// What was read of the parameters of a graphical frame.
pub open spec fn is_read(items: Seq<Datum>, m: GuiFrameModel) -> bool {
    &&& is_size(asked(items, "width"@), m.width)
    &&& is_size(asked(items, "height"@), m.height)
    &&& is_text(asked(items, "name"@), m.name)
    &&& is_text(asked(items, "title"@), m.title)
    &&& is_number(asked(items, "left"@), m.left)
    &&& is_number(asked(items, "top"@), m.top)
    &&& is_number(asked(items, "internal-border-width"@), m.internal_border_width)
    &&& is_number(asked(items, "child-frame-border-width"@), m.child_frame_border_width)
    &&& is_flag(asked(items, "undecorated"@), m.undecorated)
    &&& is_flag(asked(items, "no-accept-focus"@), m.no_accept_focus)
    &&& is_flag(asked(items, "unsplittable"@), m.unsplittable)
    &&& m.minibuffer == asked(items, "minibuffer"@)
    &&& m.fullscreen == asked(items, "fullscreen"@)
    &&& match asked(items, "visibility"@) {
        None => m.visibility is None,
        Some(d) => m.visibility == Some(!(d is Nil)),
    }
    &&& match asked(items, "parent-frame"@) {
        None => m.parent_frame is None,
        Some(Datum::Frame(id)) => m.parent_frame == Some(id),
        _ => true,
    }
}

proof fn lemma_gui_read(items: Seq<Datum>)
    ensures
        is_read(items, frame_gui::gui_params(items)),
    decreases items.len(),
{
    if items.len() > 0 {
        lemma_names();
        reveal_strlit("text-pixels");
        lemma_gui_read(items.drop_last());
    }
}

/// What was read of the parameters of a frame with a window system: of several values for a
/// name, the last one.
pub proof fn law_gui_parameters_are_read(
    params: Option<&Value>,
    p: frame_gui::ParsedGuiFrameParams,
    items: Seq<Datum>,
)
    requires
        call_ensures(frame_gui::parse_gui_frame_params, (params,), p),
        lisp::list_items(lisp::given(params)) == Some(items),
    ensures
        is_read(items, p@),
{
    lemma_gui_read(items);
}

/// A side of a frame: so many cells, or so many pixels, and the border twice; else a side
/// that nobody asked for.
pub open spec fn is_side(
    d: Option<Datum>,
    cell: int,
    border: int,
    otherwise: int,
    side: int,
) -> bool {
    match d {
        None => side == otherwise,
        Some(Datum::Fixnum(n)) => 1 <= n <= i64::MAX && n * cell + 2 * border <= u32::MAX ==> side
            == n * cell + 2 * border,
        Some(Datum::Pair(a, b)) => *a == Datum::Symbol("text-pixels"@) ==> (
        *b matches Datum::Fixnum(n) ==> (1 <= n && n + 2 * border <= u32::MAX ==> side == n + 2
            * border)),
        _ => true,
    }
}

proof fn lemma_side(
    d: Option<Datum>,
    size: Option<FrameSizeParam>,
    side: u32,
    border: u32,
    is_child: bool,
    host: Option<u32>,
    own: u32,
)
    requires
        is_size(d, size),
        side >= 1,
    ensures
        is_side(
            d,
            side as int,
            border as int,
            if !is_child && host is Some {
                host->0 as int
            } else {
                own as int
            },
            frame_gui::gui_side(size, side, border, is_child, host, own) as int,
        ),
{
    match d {
        Some(Datum::Fixnum(n)) => {
            if 1 <= n <= i64::MAX {
                assert(n * side >= 1) by (nonlinear_arith)
                    requires
                        n >= 1,
                        side >= 1,
                ;
                assert((n as i64) * side == n * side);
            }
        },
        _ => {},
    }
}

/// The border that parameters ask for, where it is one that a frame can have.
pub open spec fn is_border(d: Option<Datum>, border: int) -> bool {
    match d {
        None => border == 0,
        Some(Datum::Fixnum(n)) => n == border && 0 <= border <= 0x7fff_ffff,
        _ => false,
    }
}

/// A new frame is the last one, has the next number, and all others are as they were.
pub open spec fn is_new_frame(a: Context, b: Context, id: u64) -> bool {
    &&& b.frames@.len() == a.frames@.len() + 1
    &&& b.frames@.last().id == id
    &&& id == a.next_frame
    &&& forall|i: int| 0 <= i < a.frames@.len() ==> #[trigger] b.frames@[i] == a.frames@[i]
    &&& b.selected_frame == if a.selected() is Some {
        a.selected_frame
    } else {
        Some(id)
    }
    &&& forall|i: int| 0 <= i < a.windows@.len() ==> #[trigger] b.windows@[i] == a.windows@[i]
}

proof fn lemma_gui_frame(
    r: Result<MadeGuiFrame, Signal>,
    a: Context,
    b: Context,
    m: GuiFrameModel,
    host: Option<HostFacts>,
)
    requires
        frame_gui::is_gui_frame(r, a, b, m, host),
        r is Ok,
    ensures
        is_new_frame(a, b, r->Ok_0.frame),
        r->Ok_0.plan == frame_gui::gui_plan(a, m, host),
        ({
            let f = b.frames@.last();
            let plan = frame_gui::gui_plan(a, m, host);
            &&& f.width == plan.width && f.height == plan.height
            &&& f.char_width == plan.metrics.char_width && f.char_height
                == plan.metrics.char_height
            &&& f.name@ == frame_gui::gui_name(m)
            &&& f.graphical && f.parent == plan.parent
            &&& f.left == match m.left {
                Some(n) => n,
                None => 0,
            }
            &&& f.top == match m.top {
                Some(n) => n,
                None => 0,
            }
            &&& f.visible == match m.visibility {
                Some(v) => v,
                None => true,
            }
            &&& f.undecorated == m.undecorated && f.no_accept_focus == m.no_accept_focus
            &&& m.unsplittable ==> f.no_split
            &&& r->Ok_0.realize == (plan.parent is None && host is Some)
            &&& r->Ok_0.adopt == (plan.parent is None && host is Some && host->0.opening_pending)
            &&& r->Ok_0.host_title@ == frame_gui::host_title(m)
            &&& f.selected_window == f.root_window
            &&& b.windows@.len() > a.windows@.len()
            &&& ({
                let w = b.windows@[a.windows@.len() as int];
                &&& w.id == f.root_window && w.frame == f.id && w.leaf && !w.mini
                &&& w.bounds.x == 0 && w.bounds.y == 0 && w.bounds.width == f.width
                &&& f.height >= f.char_height ==> w.bounds.height == f.height - f.char_height
            })
        }),
{
    let plan = frame_gui::gui_plan(a, m, host);
    let (n, buffer) = choose|n: Context, buffer: u64| #[trigger]
        window_state::current_at_hand(a, n, buffer) && match frame_gui::gui_minibuffer(
            n,
            m,
            plan.parent,
        ) {
            None => b == n && (r matches Err(e) && lisp::is_error(
                e,
                "The `minibuffer' parameter does not specify a valid minibuffer window"@,
            )),
            Some(minibuffer) => exists|q: Context, k: Context, mini_buffer: u64| #[trigger]
                frame_gui::gui_steps(n, q, k, m, plan, minibuffer, buffer, mini_buffer)
                    && frame_gui::is_gui_result(
                    r,
                    n,
                    k,
                    b,
                    m,
                    plan,
                    minibuffer,
                    buffer,
                    mini_buffer,
                    host,
                ),
        };
    let minibuffer = frame_gui::gui_minibuffer(n, m, plan.parent)->0;
    let (q, k, mini_buffer) = choose|q: Context, k: Context, mini_buffer: u64| #[trigger]
        frame_gui::gui_steps(n, q, k, m, plan, minibuffer, buffer, mini_buffer)
            && frame_gui::is_gui_result(
            r,
            n,
            k,
            b,
            m,
            plan,
            minibuffer,
            buffer,
            mini_buffer,
            host,
        );
    assert(q.frames == a.frames && q.windows == a.windows && q.next_frame == a.next_frame);
    assert(q.selected_frame == a.selected_frame);
    assert(b.frames@.last() == b.frames@[k.frames@.len() - 1]);
    assert forall|i: int| 0 <= i < a.frames@.len() implies #[trigger] b.frames@[i]
        == a.frames@[i] by {
        assert(k.frames@.drop_last()[i] == k.frames@[i]);
    }
    assert forall|i: int| 0 <= i < a.windows@.len() implies #[trigger] b.windows@[i]
        == a.windows@[i] by {
        assert(k.windows@.subrange(0, a.windows@.len() as int)[i] == k.windows@[i]);
    }
}

/// The host's window has a size.
pub open spec fn has_size(host: Option<HostFacts>) -> bool {
    host is Some && host->0.size_known && host->0.width > 0 && host->0.height > 0
}

/// A graphical frame of its own has the columns and lines, or the pixels of text, that its
/// parameters ask for, in cells of the selected frame, and the border twice. A side that
/// they leave open is that of the host's window; without one, that of the selected frame;
/// without that, a default. The width never depends on what is asked for the height, nor
/// the other way round.
pub proof fn law_gui_frame_has_the_size_asked_for(
    c: &mut Context,
    params: &Value,
    host: Option<HostFacts>,
    r: Result<MadeGuiFrame, Signal>,
    items: Seq<Datum>,
    border: int,
)
    requires
        call_ensures(frame_gui::x_create_frame_impl, (c, params, host), r),
        r is Ok,
        lisp::list_items(params@) == Some(items),
        asked(items, "parent-frame"@) is None,
        is_border(asked(items, "internal-border-width"@), border),
    ensures
        is_new_frame(*old(c), *final(c), r->Ok_0.frame),
        ({
            let f = final(c).frames@.last();
            let (wide, high) = (asked(items, "width"@), asked(items, "height"@));
            &&& f.graphical && f.parent is None
            &&& old(c).selected() is None ==> {
                &&& f.char_width == 8 && f.char_height == 16
                &&& is_side(
                    wide,
                    8,
                    border,
                    if has_size(host) {
                        host->0.width as int
                    } else {
                        960
                    },
                    f.width as int,
                )
                &&& is_side(
                    high,
                    16,
                    border,
                    if has_size(host) {
                        host->0.height as int
                    } else {
                        640
                    },
                    f.height as int,
                )
            }
            &&& old(c).selected() matches Some(s) ==> (s.char_width >= 1 && s.char_height >= 1 ==> {
                &&& f.char_width == s.char_width && f.char_height == s.char_height
                &&& s.width >= 1 ==> is_side(
                    wide,
                    s.char_width as int,
                    border,
                    if has_size(host) {
                        host->0.width as int
                    } else {
                        s.width as int
                    },
                    f.width as int,
                )
                &&& has_size(host) || high is Some ==> is_side(
                    high,
                    s.char_height as int,
                    border,
                    host->0.height as int,
                    f.height as int,
                )
                &&& !has_size(host) && high is None && s.char_height < s.height && (
                s.minibuffer_window is Some && old(c).window(s.minibuffer_window->0) is Some
                    ==> old(c).window(s.minibuffer_window->0)->0.bounds.height < s.height)
                    ==> f.height == s.height
            })
            &&& r->Ok_0.plan.width == f.width && r->Ok_0.plan.height == f.height
            &&& r->Ok_0.realize == host is Some
            &&& r->Ok_0.adopt == (host is Some && host->0.opening_pending)
        }),
{
    let m = frame_gui::gui_params(items);
    reveal_strlit("text-pixels");
    lemma_gui_read(items);
    lemma_gui_frame(r, *old(c), *final(c), m, host);
    let plan = frame_gui::gui_plan(*old(c), m, host);
    let edge = frame_gui::effective_border(m, plan.parent is Some);
    assert(edge == border);
    let (w, h) = match frame_gui::host_size(host) {
        Some((w, h)) => (Some(w), Some(h)),
        None => (None, None),
    };
    lemma_side(
        asked(items, "width"@),
        m.width,
        plan.metrics.char_width,
        edge,
        plan.parent is Some,
        w,
        plan.metrics.width_px,
    );
    lemma_side(
        asked(items, "height"@),
        m.height,
        plan.metrics.char_height,
        edge,
        plan.parent is Some,
        h,
        plan.metrics.height_px,
    );
}

/// A graphical child frame has the size asked for, in cells of the frame that it is in; a
/// side that is left open is that of this frame, whatever the host's window is. A child
/// frame's own border comes before the general one.
pub proof fn law_gui_child_frame_has_the_size_asked_for(
    c: &mut Context,
    params: &Value,
    host: Option<HostFacts>,
    r: Result<MadeGuiFrame, Signal>,
    items: Seq<Datum>,
    border: int,
    parent: u64,
    p: Frame,
)
    requires
        call_ensures(frame_gui::x_create_frame_impl, (c, params, host), r),
        r is Ok,
        lisp::list_items(params@) == Some(items),
        asked(items, "parent-frame"@) == Some(Datum::Frame(parent)),
        old(c).frame(parent) == Some(p),
        p.char_width >= 1 && p.char_height >= 1 && p.width >= 1 && p.height >= 1,
        is_border(
            if asked(items, "child-frame-border-width"@) is Some {
                asked(items, "child-frame-border-width"@)
            } else {
                asked(items, "internal-border-width"@)
            },
            border,
        ),
    ensures
        is_new_frame(*old(c), *final(c), r->Ok_0.frame),
        ({
            let f = final(c).frames@.last();
            &&& f.graphical && f.parent == Some(parent)
            &&& f.char_width == p.char_width && f.char_height == p.char_height
            &&& is_side(
                asked(items, "width"@),
                p.char_width as int,
                border,
                p.width as int,
                f.width as int,
            )
            &&& is_side(
                asked(items, "height"@),
                p.char_height as int,
                border,
                p.height as int,
                f.height as int,
            )
            &&& !r->Ok_0.realize && !r->Ok_0.adopt
        }),
{
    let m = frame_gui::gui_params(items);
    reveal_strlit("text-pixels");
    lemma_gui_read(items);
    lemma_gui_frame(r, *old(c), *final(c), m, host);
    let plan = frame_gui::gui_plan(*old(c), m, host);
    let edge = frame_gui::effective_border(m, plan.parent is Some);
    assert(edge == border);
    let (w, h) = match frame_gui::host_size(host) {
        Some((w, h)) => (Some(w), Some(h)),
        None => (None, None),
    };
    lemma_side(
        asked(items, "width"@),
        m.width,
        plan.metrics.char_width,
        edge,
        plan.parent is Some,
        w,
        plan.metrics.width_px,
    );
    lemma_side(
        asked(items, "height"@),
        m.height,
        plan.metrics.char_height,
        edge,
        plan.parent is Some,
        h,
        plan.metrics.height_px,
    );
}

/// A number that is asked for, or zero.
pub open spec fn is_place(d: Option<Datum>, at: int) -> bool {
    match d {
        None => at == 0,
        Some(Datum::Fixnum(n)) => i64::MIN <= n <= i64::MAX ==> at == n,
        _ => true,
    }
}

/// A graphical frame has the name, the place and the properties that its parameters ask
/// for. The host shows its title, else its name. It begins with one window for text, which
/// takes all of it but the line of the minibuffer.
pub proof fn law_gui_frame_is_what_was_asked_for(
    c: &mut Context,
    params: &Value,
    host: Option<HostFacts>,
    r: Result<MadeGuiFrame, Signal>,
    items: Seq<Datum>,
)
    requires
        call_ensures(frame_gui::x_create_frame_impl, (c, params, host), r),
        r is Ok,
        lisp::list_items(params@) == Some(items),
    ensures
        ({
            let f = final(c).frames@.last();
            let (name, title) = (asked(items, "name"@), asked(items, "title"@));
            &&& name matches Some(Datum::Text(s)) ==> f.name@ == s
            &&& title matches Some(Datum::Text(s)) ==> r->Ok_0.host_title@ == s
            &&& title is None ==> (name matches Some(Datum::Text(s)) ==> r->Ok_0.host_title@ == s)
            &&& title is None && name is None ==> f.name@ == "Neomacs"@ && r->Ok_0.host_title@
                == "Neomacs"@
            &&& is_place(asked(items, "left"@), f.left as int)
            &&& is_place(asked(items, "top"@), f.top as int)
            &&& asked(items, "visibility"@) is None ==> f.visible
            &&& asked(items, "visibility"@) matches Some(d) ==> f.visible == !(d is Nil)
            &&& is_flag(asked(items, "undecorated"@), f.undecorated)
            &&& is_flag(asked(items, "no-accept-focus"@), f.no_accept_focus)
            &&& f.selected_window == f.root_window
            &&& ({
                let w = final(c).windows@[old(c).windows@.len() as int];
                &&& w.id == f.root_window && w.frame == f.id && w.leaf && !w.mini
                &&& w.bounds.x == 0 && w.bounds.y == 0 && w.bounds.width == f.width
                &&& f.height >= f.char_height ==> w.bounds.height == f.height - f.char_height
            })
        }),
{
    let m = frame_gui::gui_params(items);
    lemma_gui_read(items);
    lemma_gui_frame(r, *old(c), *final(c), m, host);
}

/// What was read of the parameters of a frame without a window system.
pub open spec fn is_plainly_read(c: Context, items: Seq<Datum>, m: PlainFrameModel) -> bool {
    &&& is_size(asked(items, "width"@), m.width)
    &&& is_size(asked(items, "height"@), m.height)
    &&& is_text(asked(items, "name"@), m.name)
    &&& is_place(asked(items, "left"@), m.left as int)
    &&& is_place(asked(items, "top"@), m.top as int)
    &&& is_flag(asked(items, "undecorated"@), m.undecorated)
    &&& is_flag(asked(items, "no-accept-focus"@), m.no_accept_focus)
    &&& is_flag(asked(items, "unsplittable"@), m.unsplittable)
    &&& m.minibuffer == asked(items, "minibuffer"@)
    &&& match asked(items, "visibility"@) {
        None => m.visibility is None,
        Some(d) => m.visibility == Some(!(d is Nil)),
    }
    &&& match asked(items, "parent-frame"@) {
        None => m.parent is None,
        Some(Datum::Frame(id)) => c.frame(id) is Some ==> m.parent == Some(id),
        _ => true,
    }
}

proof fn lemma_plain_read(c: Context, items: Seq<Datum>)
    ensures
        is_plainly_read(c, items, frame_make::plain_params(c, items)),
    decreases items.len(),
{
    if items.len() > 0 {
        lemma_names();
        reveal_strlit("text-pixels");
        lemma_plain_read(c, items.drop_last());
    }
}

/// A side of a plain frame, in cells: as many as are asked for, or the whole ones in the
/// pixels that are, one at least; else a default.
pub open spec fn is_plain_side(d: Option<Datum>, cell: int, otherwise: int, side: int) -> bool {
    match d {
        None => side == otherwise,
        Some(Datum::Fixnum(n)) => 1 <= n <= u32::MAX ==> side == n,
        Some(Datum::Pair(a, b)) => *a == Datum::Symbol("text-pixels"@) ==> (
        *b matches Datum::Fixnum(n) ==> (cell <= n <= u32::MAX ==> side * cell <= n < (side + 1)
            * cell)),
        _ => true,
    }
}

proof fn lemma_plain_side(d: Option<Datum>, size: Option<FrameSizeParam>, side: u32, otherwise: u32)
    requires
        is_size(d, size),
        side >= 1,
    ensures
        is_plain_side(
            d,
            side as int,
            otherwise as int,
            frame_make::plain_side(size, side, otherwise) as int,
        ),
        frame_make::plain_side(size, side, otherwise) >= 1 || otherwise == 0 || d is Some,
{
    match d {
        Some(Datum::Pair(a, b)) => match *b {
            Datum::Fixnum(n) => {
                let q = n / (side as int);
                if side <= n <= u32::MAX {
                    assert(1 <= q <= n && q * side <= n < (q + 1) * side) by (nonlinear_arith)
                        requires
                            q == n / (side as int),
                            1 <= side <= n,
                    ;
                }
            },
            _ => {},
        },
        _ => {},
    }
}

/// A plain frame of its own has the columns and lines that its parameters ask for, eight
/// hundred and six hundred where they ask for none. It has their name, else the next
/// generated one, and what else they ask for.
pub proof fn law_plain_frame_is_what_was_asked_for(
    c: &mut Context,
    params: Option<&Value>,
    r: Result<MadeFrame, Signal>,
    items: Seq<Datum>,
)
    requires
        call_ensures(frame_make::make_frame_plain, (c, params), r),
        lisp::list_items(lisp::given(params)) == Some(items),
        asked(items, "parent-frame"@) is None,
        old(c).frame_names < u64::MAX,
    ensures
        r is Ok,
        is_new_frame(*old(c), *final(c), r->Ok_0.frame),
        ({
            let f = final(c).frames@.last();
            let name = asked(items, "name"@);
            &&& !f.graphical && f.parent is None && f.terminal == 0
            &&& is_plain_side(asked(items, "width"@), 1, 800, f.width as int)
            &&& is_plain_side(asked(items, "height"@), 1, 600, f.height as int)
            &&& name matches Some(Datum::Text(s)) ==> f.name@ == s && r->Ok_0.explicit_name
            &&& name is None ==> f.name@ == "F"@ + text::decimal((old(c).frame_names + 1) as nat)
                && !r->Ok_0.explicit_name
            &&& asked(items, "visibility"@) is None ==> f.visible
            &&& asked(items, "visibility"@) matches Some(d) ==> f.visible == !(d is Nil)
            &&& is_flag(asked(items, "undecorated"@), f.undecorated)
            &&& is_flag(asked(items, "no-accept-focus"@), f.no_accept_focus)
            &&& is_flag(asked(items, "unsplittable"@), f.no_split)
            &&& f.selected_window == f.root_window
        }),
        final(c).frame_names == old(c).frame_names + 1,
        final(c).buffers == old(c).buffers,
{
    let a = frame_make::name_taken(*old(c));
    let m = frame_make::plain_params(a, items);
    lemma_plain_read(a, items);
    let seed = frame_make::plain_seed(a, m);
    let n = choose|n: Context| #[trigger]
        window_state::frame_added(
            a,
            n,
            frame_make::chosen_name(m, frame_make::generated_name(*old(c))),
            seed,
        ) && frame_make::is_plain_root(r, a, n, *final(c), m);
    lemma_plain_side(asked(items, "width"@), m.width, 1, 800);
    lemma_plain_side(asked(items, "height"@), m.height, 1, 600);
    assert(final(c).frames@.last() == final(c).frames@[n.frames@.len() - 1]);
    assert forall|i: int| 0 <= i < a.frames@.len() implies #[trigger] final(c).frames@[i]
        == a.frames@[i] by {
        assert(n.frames@.drop_last()[i] == n.frames@[i]);
    }
    assert forall|i: int| 0 <= i < a.windows@.len() implies #[trigger] final(c).windows@[i]
        == a.windows@[i] by {
        assert(n.windows@.subrange(0, a.windows@.len() as int)[i] == n.windows@[i]);
    }
}

/// A plain child frame is in the frame that its parameters name, on its terminal and in its
/// cells, at the place that they name, and before all other frames in it.
pub proof fn law_plain_child_frame_is_what_was_asked_for(
    c: &mut Context,
    params: Option<&Value>,
    r: Result<MadeFrame, Signal>,
    items: Seq<Datum>,
    parent: u64,
    p: Frame,
)
    requires
        call_ensures(frame_make::make_frame_plain, (c, params), r),
        lisp::list_items(lisp::given(params)) == Some(items),
        asked(items, "parent-frame"@) == Some(Datum::Frame(parent)),
        old(c).frame(parent) == Some(p),
        p.char_width >= 1 && p.char_height >= 1,
        r is Ok,
    ensures
        is_new_frame(*old(c), *final(c), r->Ok_0.frame),
        ({
            let f = final(c).frames@.last();
            &&& !f.graphical && f.parent == Some(parent) && f.terminal == p.terminal
            &&& f.char_width == p.char_width && f.char_height == p.char_height
            &&& is_plain_side(asked(items, "width"@), p.char_width as int, 800, f.width as int)
            &&& is_plain_side(asked(items, "height"@), p.char_height as int, 600, f.height as int)
            &&& is_place(asked(items, "left"@), f.left as int)
            &&& is_place(asked(items, "top"@), f.top as int)
            &&& asked(items, "name"@) matches Some(Datum::Text(s)) ==> f.name@ == s
            &&& asked(items, "visibility"@) is None ==> f.visible
            &&& asked(items, "visibility"@) matches Some(d) ==> f.visible == !(d is Nil)
            &&& is_flag(asked(items, "undecorated"@), f.undecorated)
            &&& is_flag(asked(items, "no-accept-focus"@), f.no_accept_focus)
            &&& forall|i: int|
                0 <= i < old(c).frames@.len() && (#[trigger] old(c).frames@[i]).parent == Some(
                    parent,
                ) && old(c).frames@[i].z_order < i64::MAX ==> f.z_order > old(c).frames@[i].z_order
        }),
{
    let a = frame_make::name_taken(*old(c));
    let m = frame_make::plain_params(a, items);
    lemma_plain_read(a, items);
    let seed = frame_make::child_seed(a, m, p);
    assert(a.frame(parent) == Some(p));
    let n = choose|n: Context| #[trigger]
        window_state::frame_added(
            a,
            n,
            frame_make::chosen_name(m, frame_make::generated_name(*old(c))),
            seed,
        ) && frame_make::is_plain_child(r, a, n, *final(c), m, parent);
    lemma_plain_side(asked(items, "width"@), m.width, p.char_width, 800);
    lemma_plain_side(asked(items, "height"@), m.height, p.char_height, 600);
    frame_make::law_new_child_is_in_front(n.frames@, parent);
    assert(final(c).frames@.last() == final(c).frames@[n.frames@.len() - 1]);
    assert forall|i: int| 0 <= i < a.frames@.len() implies #[trigger] final(c).frames@[i]
        == a.frames@[i] by {
        assert(n.frames@.drop_last()[i] == n.frames@[i]);
    }
    assert forall|i: int| 0 <= i < a.windows@.len() implies #[trigger] final(c).windows@[i]
        == a.windows@[i] by {
        assert(n.windows@.subrange(0, a.windows@.len() as int)[i] == n.windows@[i]);
    }
    assert forall|i: int|
        0 <= i < old(c).frames@.len() && (#[trigger] old(c).frames@[i]).parent == Some(parent)
            && old(c).frames@[i].z_order < i64::MAX implies final(c).frames@.last().z_order > old(
        c,
    ).frames@[i].z_order by {
        assert(n.frames@.drop_last()[i] == n.frames@[i]);
        assert(n.frames@[i].parent == Some(parent));
    }
}

/// The frames that a session's minibuffer parameter may name: with none, a child frame has
/// a minibuffer of its own; with `nil` or `none` it shares that of the outermost frame that
/// it is in; with `only` it is nothing but a minibuffer.
pub proof fn law_child_minibuffer(
    c: &Context,
    parent: u64,
    param: &Option<Value>,
    r: Result<ChildMinibuffer, Signal>,
    root: Option<u64>,
)
    requires
        call_ensures(frame_make::resolve_child_shared_minibuffer, (c, parent, param), r),
        call_ensures(frame_make::root_frame_id, (c, parent), root),
    ensures
        param is None ==> r == Ok::<ChildMinibuffer, Signal>(ChildMinibuffer::Own),
        param matches Some(v) ==> {
            &&& v@ == Datum::Symbol("only"@) ==> r == Ok::<ChildMinibuffer, Signal>(
                ChildMinibuffer::Only,
            )
            &&& v@ is Nil || v@ == Datum::Symbol("none"@) ==> (root is Some && c.frame(
                root->0,
            ) is Some && c.frame(root->0)->0.minibuffer_window is Some ==> r == Ok::<
                ChildMinibuffer,
                Signal,
            >(ChildMinibuffer::Shared(c.frame(root->0)->0.minibuffer_window->0)))
            &&& v@ matches Datum::Window(w) ==> (r matches Ok(k) ==> k == ChildMinibuffer::Shared(w)
                && (c.window(w) matches Some(x) && (c.frame(x.frame) matches Some(f)
                && f.minibuffer_window == Some(w))))
        },
{
    reveal_strlit("only");
    reveal_strlit("none");
    reveal_strlit("nil");
    reveal_strlit("t");
    assert("only"@[0] != "none"@[0]);
}

} // verus!
