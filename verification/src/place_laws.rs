//! What the place of a window in its buffer is for: what is set is what is read, within the
//! text, and no other window moves.
use vstd::prelude::*;

use crate::lisp::{Condition, Datum, Signal, Value};
use crate::select_laws;
use crate::window_scroll;
use crate::window_scroll::{PointViewportLocation, ScreenLineViewport, WindowEndQueryPolicy};
use crate::window_state;
use crate::window_state::{Buffer, Context, FrameSeed, Rect, Window, WindowPredicate};

verus! {

/// One window of two states differs, if any, and nothing but windows does.
pub open spec fn only_window_differs(a: Context, b: Context, w: u64) -> bool {
    &&& b == (Context { windows: b.windows, ..a })
    &&& b.windows@.len() == a.windows@.len()
    &&& forall|x: u64| x != w ==> #[trigger] b.window(x) == a.window(x)
}

/// A window that was changed is the only one.
pub proof fn lemma_changed(a: Context, b: Context, w: u64, new: Window)
    requires
        window_state::window_changed(a, b, w, new),
        a.window(w) is Some,
        new.id == a.window(w)->0.id,
    ensures
        only_window_differs(a, b, w),
        b.window(w) == Some(new),
{
    let i = window_state::window_place(a.windows@, w)->0;
    window_state::lemma_index_in(window_state::window_ids(a.windows@), w);
    select_laws::lemma_one_window(a, b, i, w);
}

/// A window that shows a text, and is no minibuffer.
pub open spec fn shows_text(c: Context, w: u64) -> bool {
    &&& c.window(w) is Some && c.window(w)->0.leaf
    &&& c.frame(c.window(w)->0.frame) is Some
    &&& c.frame(c.window(w)->0.frame)->0.minibuffer_window != Some(w)
    &&& c.buffer(c.window(w)->0.buffer) is Some
    &&& c.buffer(c.window(w)->0.buffer)->0.length >= 0
}

/// The end of the text that a window shows.
pub open spec fn text_end(c: Context, w: u64) -> int {
    c.buffer(c.window(w)->0.buffer)->0.length + 1
}

/// A position in a window: one in the text is itself, one behind it is its end, and one
/// before it is none.
pub proof fn law_position_is_in_text(c: &Context, w: u64, pos: i64, r: Option<i64>)
    requires
        call_ensures(window_state::clamped_window_position, (c, w, pos), r),
        shows_text(*c, w),
    ensures
        pos <= 0 <==> r is None,
        1 <= pos <= text_end(*c, w) ==> r == Some(pos),
        pos >= 1 && pos > text_end(*c, w) ==> r is Some && r->0 == text_end(*c, w),
{
}

/// `(set-window-start WINDOW POS NOFORCE)`: the window begins there, or at the end of the
/// text where the position is behind it; one before the text changes nothing. Unless it is
/// told not to, the start is forced and what was known of the window's end is not any more.
pub proof fn law_window_begins_where_it_is_told(
    c: &mut Context,
    window: &Value,
    pos: &Value,
    noforce: Option<&Value>,
    r: Result<(u64, Value), Signal>,
    w: u64,
    p: int,
)
    requires
        call_ensures(window_scroll::builtin_set_window_start, (c, window, pos, noforce), r),
        window@ == Datum::Window(w),
        pos@ == Datum::Fixnum(p),
        shows_text(*old(c), w),
    ensures
        r is Ok && r->Ok_0.0 == w && r->Ok_0.1@ == pos@,
        only_window_differs(*old(c), *final(c), w),
        final(c).window(w) is Some,
        p < 1 ==> *final(c) == *old(c),
        1 <= p <= text_end(*old(c), w) ==> final(c).window(w)->0.start == p,
        p >= 1 && p > text_end(*old(c), w) ==> final(c).window(w)->0.start == text_end(*old(c), w),
        p >= 1 ==> final(c).window(w)->0.force_start == (noforce is None || noforce->0@ is Nil),
        p >= 1 && (noforce is None || noforce->0@ is Nil) ==> !final(c).window(w)->0.end_valid,
        final(c).window(w)->0.point == old(c).window(w)->0.point,
        final(c).window(w)->0.buffer == old(c).window(w)->0.buffer,
{
    let (a, b) = (*old(c), *final(c));
    let f = a.window(w)->0.frame;
    assert(window_state::window_target(a, window@, WindowPredicate::Live) == Some((f, w)));
    if p >= 1 {
        let q = window_state::clamped(a, w, p)->0;
        lemma_changed(
            a,
            b,
            w,
            window_scroll::started_at(a.window(w)->0, q, noforce is None || noforce->0@ is Nil),
        );
    }
}

/// `(set-window-point WINDOW POS)`, and then `(window-point WINDOW)`: the position that was
/// set is the position that is read, or the end of the text where it is behind it; one
/// before the text changes nothing. In the window that its frame has selected, the buffer's
/// point is there too; in another one the buffer stays where it is. No other window moves.
pub proof fn law_point_that_is_set_is_read(
    c: &mut Context,
    window: &Value,
    pos: &Value,
    r: Result<Value, Signal>,
    d: &mut Context,
    q: Result<i64, Signal>,
    w: u64,
    p: int,
)
    requires
        call_ensures(window_scroll::builtin_set_window_point, (c, window, pos), r),
        *old(d) == *final(c),
        call_ensures(window_scroll::builtin_window_point, (d, Some(window)), q),
        window@ == Datum::Window(w),
        w != 0,
        pos@ == Datum::Fixnum(p),
        shows_text(*old(c), w),
    ensures
        ({
            let (a, b) = (*old(c), *final(c));
            let (win, at) = (a.window(w)->0, a.window(w)->0.buffer);
            let selected = a.frame(win.frame)->0.selected_window == w;
            let end = text_end(a, w);
            &&& r is Ok && r->Ok_0@ == pos@
            &&& *final(d) == b
            &&& b.frames == a.frames
            &&& p < 1 ==> b == a
            &&& 1 <= p <= end ==> q is Ok && q->Ok_0 == p && b.window(w) == Some(
                Window { point: p as i64, ..win },
            )
            &&& p >= 1 && p > end ==> q is Ok && q->Ok_0 == end && b.window(w) == Some(
                Window { point: end as i64, ..win },
            )
            &&& p >= 1 && selected ==> b.buffer(at) == Some(
                Buffer { point: q->Ok_0, ..a.buffer(at)->0 },
            )
            &&& !selected ==> b.buffers == a.buffers
            &&& forall|x: u64| x != w ==> #[trigger] b.window(x) == a.window(x)
            &&& forall|x: u64| x != at ==> #[trigger] b.buffer(x) == a.buffer(x)
        }),
{
    let (a, b) = (*old(c), *final(c));
    let (win, at) = (a.window(w)->0, a.window(w)->0.buffer);
    let f = win.frame;
    assert(window_state::window_target(a, window@, WindowPredicate::Live) == Some((f, w)));
    if p >= 1 {
        let i = window_state::window_place(a.windows@, w)->0;
        window_state::lemma_index_in(window_state::window_ids(a.windows@), w);
        select_laws::lemma_one_window(a, b, i, w);
        assert(window_state::window_target(b, window@, WindowPredicate::Live) == Some((f, w)));
        if a.frame(f)->0.selected_window == w {
            let k = window_state::buffer_place(a.buffers@, at)->0;
            window_state::lemma_index_in(window_state::buffer_ids(a.buffers@), at);
            select_laws::lemma_one_buffer(a, b, k, at);
        }
    }
}

/// A position is an integer or a marker: anything else is refused, in a window that is live.
pub proof fn law_other_positions_are_refused(
    c: &mut Context,
    window: &Value,
    pos: &Value,
    r: Result<Value, Signal>,
    d: &mut Context,
    q: Result<(u64, Value), Signal>,
    w: u64,
)
    requires
        call_ensures(window_scroll::builtin_set_window_point, (c, window, pos), r),
        call_ensures(
            window_scroll::builtin_set_window_start,
            (d, window, pos, None::<&Value>),
            q,
        ),
        *old(d) == *old(c),
        window@ == Datum::Window(w),
        old(c).window(w) is Some && old(c).window(w)->0.leaf,
        !(pos@ is Fixnum) && !(pos@ is Marker),
    ensures
        *final(c) == *old(c) && *final(d) == *old(d),
        r is Err && r->Err_0.condition == Condition::WrongTypeArgument,
        q is Err && q->Err_0.condition == Condition::WrongTypeArgument,
{
    let f = old(c).window(w)->0.frame;
    assert(window_state::window_target(*old(c), window@, WindowPredicate::Live) == Some((f, w)));
}

/// `(scroll-left N)` moves the selected window by so many columns, `(scroll-right N)` back:
/// as long as neither meets an end, the window is where it was. The number that comes back
/// is the column that the window is scrolled to.
pub proof fn law_left_and_right_again(
    c: &mut Context,
    n: i64,
    minimum: bool,
    r: Result<i64, Signal>,
    d: &mut Context,
    q: Result<i64, Signal>,
    w: u64,
)
    requires
        call_ensures(window_scroll::builtin_scroll_left, (c, Some(n), minimum), r),
        *old(d) == *final(c),
        call_ensures(window_scroll::builtin_scroll_right, (d, Some(n), minimum), q),
        old(c).selected() is Some,
        old(c).selected()->0.selected_window == w,
        old(c).window(w) is Some && old(c).window(w)->0.leaf,
        old(c).window(w)->0.hscroll <= i64::MAX,
    ensures
        ({
            let (a, b) = (*old(c), *final(c));
            let to = a.window(w)->0.hscroll + n;
            &&& r is Ok && q is Ok
            &&& only_window_differs(a, b, w) && only_window_differs(b, *final(d), w)
            &&& b.window(w) is Some && b.window(w)->0.hscroll == r->Ok_0
            &&& b.window(w)->0.suspend_auto_hscroll
            &&& b.window(w)->0.min_hscroll == if minimum {
                b.window(w)->0.hscroll
            } else {
                a.window(w)->0.min_hscroll
            }
            &&& 0 <= to <= i64::MAX ==> r->Ok_0 == to && q->Ok_0 == a.window(w)->0.hscroll
                && final(d).window(w)->0.hscroll == a.window(w)->0.hscroll
            &&& to < 0 ==> r->Ok_0 == 0
            &&& to > i64::MAX ==> r->Ok_0 == i64::MAX
            &&& b.window(w)->0.start == a.window(w)->0.start && b.window(w)->0.point == a.window(
                w,
            )->0.point
        }),
{
    let (a, b) = (*old(c), *final(c));
    let win = a.window(w)->0;
    lemma_changed(
        a,
        b,
        w,
        window_scroll::scrolled_sideways(
            win,
            window_scroll::hscroll_after(win.hscroll, n as int),
            minimum,
        ),
    );
    assert(b.selected() == a.selected());
    let mid = b.window(w)->0;
    lemma_changed(
        b,
        *final(d),
        w,
        window_scroll::scrolled_sideways(
            mid,
            window_scroll::hscroll_after(mid.hscroll, -n as int),
            minimum,
        ),
    );
}

/// Without a number, a window is scrolled by its width but for two columns, and by one at
/// least.
pub proof fn law_scroll_by_width(
    c: &mut Context,
    r: Result<i64, Signal>,
    w: u64,
    cols: int,
)
    requires
        call_ensures(window_scroll::builtin_scroll_left, (c, None::<i64>, false), r),
        old(c).selected() is Some,
        old(c).selected()->0.selected_window == w,
        old(c).selected()->0.char_width > 0,
        old(c).window(w) is Some && old(c).window(w)->0.leaf,
        old(c).window(w)->0.hscroll == 0,
        cols * old(c).selected()->0.char_width <= old(c).window(w)->0.bounds.width,
        old(c).window(w)->0.bounds.width < (cols + 1) * old(c).selected()->0.char_width,
    ensures
        r is Ok,
        cols >= 3 ==> r->Ok_0 == cols - 2,
        cols < 3 ==> r->Ok_0 == 1,
{
    let (x, y) = (old(c).window(w)->0.bounds.width as int, old(c).selected()->0.char_width as int);
    assert(x / y == cols) by (nonlinear_arith)
        requires
            y > 0,
            cols * y <= x,
            x < (cols + 1) * y,
    ;
    assert(x / y <= i64::MAX) by (nonlinear_arith)
        requires
            y > 0,
            x <= i64::MAX,
    ;
}

/// A scroll that was worked out is what the window then has: it begins and has point where
/// it was said, its end is not known, a start that was scrolled by pixels is forgotten, and
/// the buffer's point is there too, within the text.
pub proof fn law_scroll_is_applied(c: &mut Context, w: u64, buffer: u64, start: i64, point: i64)
    requires
        call_ensures(window_scroll::apply_scroll, (c, w, buffer, start, point), ()),
        old(c).window(w) is Some && old(c).window(w)->0.leaf,
        old(c).buffer(buffer) is Some,
    ensures
        ({
            let (a, b) = (*old(c), *final(c));
            &&& b.window(w) == Some(
                Window {
                    start: start,
                    point: point,
                    end_valid: false,
                    vscroll: 0,
                    preserve_vscroll: false,
                    force_start: true,
                    ..a.window(w)->0
                },
            )
            &&& b.buffer(buffer) is Some
            &&& select_laws::is_nearest(a.buffer(buffer)->0, point, b.buffer(buffer)->0.point)
            &&& forall|x: u64| x != w ==> #[trigger] b.window(x) == a.window(x)
            &&& forall|x: u64| x != buffer ==> #[trigger] b.buffer(x) == a.buffer(x)
            &&& b.frames == a.frames && b.current_buffer == a.current_buffer
        }),
{
    let (a, b) = (*old(c), *final(c));
    let i = window_state::window_place(a.windows@, w)->0;
    window_state::lemma_index_in(window_state::window_ids(a.windows@), w);
    select_laws::lemma_one_window(a, b, i, w);
    let k = window_state::buffer_place(a.buffers@, buffer)->0;
    window_state::lemma_index_in(window_state::buffer_ids(a.buffers@), buffer);
    select_laws::lemma_one_buffer(a, b, k, buffer);
}

/// A window that is recentered begins at the start that was worked out, within the text, and
/// its point stays.
pub proof fn law_recentering_is_applied(c: &mut Context, w: u64, start: i64)
    requires
        call_ensures(window_scroll::apply_recenter, (c, w, start), ()),
        shows_text(*old(c), w),
    ensures
        only_window_differs(*old(c), *final(c), w),
        start < 1 ==> *final(c) == *old(c),
        1 <= start <= text_end(*old(c), w) ==> final(c).window(w) == Some(
            Window {
                start: start,
                end_valid: false,
                vscroll: 0,
                preserve_vscroll: false,
                ..old(c).window(w)->0
            },
        ),
        start >= 1 && start > text_end(*old(c), w) ==> final(c).window(w)->0.start == text_end(
            *old(c),
            w,
        ),
{
    let (a, b) = (*old(c), *final(c));
    if start >= 1 {
        let p = window_state::clamped(a, w, start as int)->0;
        lemma_changed(a, b, w, window_scroll::recentered(a.window(w)->0, p));
    }
}

/// A window that is scrolled by pixels begins where it is told, shifted up by as many.
pub proof fn law_pixel_scroll(c: &mut Context, w: u64, start: i64, shift: i32, r: bool)
    requires
        call_ensures(Context::apply_pixel_scroll, (c, w, start, shift), r),
    ensures
        r <==> old(c).window(w) is Some && old(c).window(w)->0.leaf && old(c).frame(
            old(c).window(w)->0.frame,
        ) is Some,
        !r ==> *final(c) == *old(c),
        r ==> only_window_differs(*old(c), *final(c), w) && final(c).window(w) == Some(
            Window {
                start: start,
                vscroll: final(c).window(w)->0.vscroll,
                ..old(c).window(w)->0
            },
        ),
        r && shift >= 0 ==> final(c).window(w)->0.vscroll + shift == 0,
        r && shift < 0 ==> final(c).window(w)->0.vscroll == 0,
{
    if r {
        lemma_changed(
            *old(c),
            *final(c),
            w,
            Window {
                start: start,
                vscroll: if shift > 0 {
                    (-shift) as i32
                } else {
                    0
                },
                ..old(c).window(w)->0
            },
        );
    }
}

/// Where point is in what a window shows: before its start; in it, the end of the buffer
/// included where that is the end of what is shown; or after it.
pub proof fn law_point_is_located(view: ScreenLineViewport, point: i64, r: PointViewportLocation)
    requires
        call_ensures(ScreenLineViewport::locate, (view, point), r),
    ensures
        r is Before <==> point < view.start,
        view.start <= point < view.exclusive_end ==> r is Visible,
        view.start <= point && point == view.exclusive_end && view.exclusive_end == view.buffer_end
            ==> r is Visible,
        view.start <= point && point >= view.exclusive_end && view.exclusive_end != view.buffer_end
            ==> r is After,
        view.start <= point && point > view.exclusive_end ==> r is After,
{
}

/// The end of a window is worked out anew only where that is asked for, by someone who can
/// see it, and it could be; else it is what was last shown.
pub proof fn law_window_end_is_asked(
    policy: WindowEndQueryPolicy,
    noninteractive: bool,
    frame_initial: bool,
    recorded: i64,
    current: Option<i64>,
    r: i64,
)
    requires
        call_ensures(
            window_scroll::query_window_end,
            (policy, noninteractive, frame_initial, recorded, current),
            r,
        ),
    ensures
        policy is EnsureCurrent && !noninteractive && !frame_initial && current is Some ==> r
            == current->0,
        policy is LastPresented || noninteractive || frame_initial || current is None ==> r
            == recorded,
{
}

/// A buffer that is made is new, empty and last, under the name that it was given.
pub proof fn law_made_buffer_is_new(c: &mut Context, name: &str, r: u64)
    requires
        call_ensures(Context::create_buffer, (c, name), r),
        old(c).next_buffer < u64::MAX,
        forall|i: int|
            0 <= i < old(c).buffers@.len() ==> (#[trigger] old(c).buffers@[i]).id != old(c).next_buffer,
    ensures
        ({
            let (a, b) = (*old(c), *final(c));
            &&& a.buffer(r) is None
            &&& b.buffer(r) is Some && b.buffer(r)->0.name@ == name@
            &&& b.buffer(r)->0.length == 0 && b.buffer(r)->0.point == 1
            &&& b.buffers@.len() == a.buffers@.len() + 1
            &&& b.buffers@.drop_last() == a.buffers@
            &&& b.next_buffer > r
            &&& b.frames == a.frames && b.windows == a.windows
            &&& b.current_buffer == a.current_buffer
        }),
{
    let (a, b) = (*old(c), *final(c));
    let (p, q) = (window_state::buffer_ids(a.buffers@), window_state::buffer_ids(b.buffers@));
    assert forall|k: int| 0 <= k < p.len() implies p[k] != r by {
        assert(a.buffers@[k].id != a.next_buffer);
    }
    window_state::lemma_index_missing(p, r);
    assert forall|k: int| 0 <= k < p.len() implies q[k] != r by {
        assert(b.buffers@.drop_last()[k] == a.buffers@[k]);
        assert(b.buffers@[k] == a.buffers@[k]);
        assert(p[k] != r);
    }
    window_state::lemma_index_found(q, r, p.len() as int);
}

proof fn lemma_buffer_named(v: Seq<Buffer>, name: Seq<char>)
    ensures
        match window_state::buffer_named(v, name) {
            Some(i) => 0 <= i < v.len() && v[i].name@ == name && forall|k: int|
                0 <= k < i ==> (#[trigger] v[k]).name@ != name,
            None => forall|k: int| 0 <= k < v.len() ==> (#[trigger] v[k]).name@ != name,
        },
    decreases v.len(),
{
    if v.len() > 0 && v[0].name@ != name {
        let t = v.subrange(1, v.len() as int);
        lemma_buffer_named(t, name);
        match window_state::buffer_named(t, name) {
            Some(i) => {
                assert forall|k: int| 0 <= k < i + 1 implies (#[trigger] v[k]).name@ != name by {
                    if k > 0 {
                        assert(t[k - 1] == v[k]);
                    }
                }
            },
            None => {
                assert forall|k: int| 0 <= k < v.len() implies (#[trigger] v[k]).name@ != name by {
                    if k > 0 {
                        assert(t[k - 1] == v[k]);
                    }
                }
            },
        }
    }
}

/// A buffer that is looked for by name is found if there is one, and nothing changes; it is
/// made if there is none. Either way there is one afterwards.
pub proof fn law_buffer_is_found_or_made(c: &mut Context, name: &str, r: u64)
    requires
        call_ensures(Context::find_or_create_buffer, (c, name), r),
    ensures
        (exists|i: int|
            0 <= i < old(c).buffers@.len() && (#[trigger] old(c).buffers@[i]).name@ == name@)
            ==> *final(c) == *old(c) && exists|i: int|
            0 <= i < old(c).buffers@.len() && (#[trigger] old(c).buffers@[i]).name@ == name@ && old(c).buffers@[i].id == r,
        (forall|i: int|
            0 <= i < old(c).buffers@.len() ==> (#[trigger] old(c).buffers@[i]).name@ != name@)
            ==> final(c).buffers@.len() == old(c).buffers@.len() + 1 && final(c).buffers@.last().name@ == name@ && final(c).buffers@.last().id == r
            && final(c).buffers@.drop_last() == old(c).buffers@,
{
    lemma_buffer_named(old(c).buffers@, name@);
}

/// A frame that is added has the size that it was given, shared between its root window and,
/// in the last line, its minibuffer: one is right above the other and both are as wide as
/// the frame. The root window is selected in it and shows the buffer that was given. The
/// frame is selected only where none was.
pub proof fn law_added_frame(c: &mut Context, name: &str, seed: FrameSeed, r: u64)
    requires
        call_ensures(Context::add_frame, (c, name, seed), r),
        old(c).next_frame < u64::MAX,
        old(c).next_window < u64::MAX - 1,
    ensures
        ({
            let (a, b) = (*old(c), *final(c));
            let n = a.windows@.len() as int;
            let (f, root, mini) = (b.frames@.last(), b.windows@[n], b.windows@[n + 1]);
            &&& b.frames@.len() == a.frames@.len() + 1 && b.frames@.drop_last() == a.frames@
            &&& b.windows@.len() == n + 2 && b.windows@.subrange(0, n) == a.windows@
            &&& f.id == r && f.name@ == name@ && f.parent is None && f.visible
            &&& f.width == seed.width && f.height == seed.height
            &&& f.char_width == seed.char_width && f.char_height == seed.char_height
            &&& f.terminal == seed.terminal && f.graphical == seed.graphical && f.initial
                == seed.initial
            &&& f.root_window == root.id && f.selected_window == root.id && f.minibuffer_window
                == Some(mini.id) && mini.id != root.id
            &&& root.frame == r && mini.frame == r && root.leaf && mini.leaf && mini.mini
                && !root.mini
            &&& root.buffer == seed.buffer && mini.buffer == seed.mini_buffer
            &&& root.start == 1 && root.point == 1 && root.hscroll == 0
            &&& root.bounds.x == 0 && mini.bounds.x == 0 && root.bounds.y == 0
            &&& root.bounds.width == seed.width && mini.bounds.width == seed.width
            &&& mini.bounds.y == root.bounds.height && mini.bounds.height == seed.char_height
            &&& seed.char_height <= seed.height ==> root.bounds.height + mini.bounds.height
                == seed.height
            &&& a.selected() is Some ==> b.selected_frame == a.selected_frame
            &&& a.selected() is None ==> b.selected_frame == Some(r)
            &&& b.next_frame > r && b.next_window > mini.id && b.next_window > root.id
            &&& b.buffers == a.buffers
        }),
{
}

/// A frame that is made by its size is a frame that is added, for a terminal, with cells of
/// eight by sixteen pixels.
pub proof fn law_created_frame(
    c: &mut Context,
    name: &str,
    width: u32,
    height: u32,
    buffer: u64,
    r: u64,
)
    requires
        call_ensures(Context::create_frame, (c, name, width, height, buffer), r),
    ensures
        ({
            let (a, b) = (*old(c), *final(c));
            let n = a.windows@.len() as int;
            let f = b.frames@.last();
            &&& b.frames@.len() == a.frames@.len() + 1
            &&& f.id == r && f.name@ == name@
            &&& f.width == width && f.height == height && f.char_width == 8 && f.char_height == 16
            &&& !f.graphical && !f.initial
            &&& b.windows@[n].buffer == buffer && b.windows@[n + 1].buffer == buffer
            &&& b.windows@[n].bounds == (Rect {
                x: 0,
                y: 0,
                width: width as i64,
                height: b.windows@[n].bounds.height,
            })
            &&& height >= 16 ==> b.windows@[n].bounds.height == height - 16
        }),
{
}

/// What an argument names: `nil` the selected window, a window itself where it is one of the
/// kind that is asked for; anything else is refused with the name of the kind.
pub proof fn law_window_argument(
    c: &mut Context,
    arg: Option<&Value>,
    pred: WindowPredicate,
    r: Result<(u64, u64), Signal>,
)
    requires
        call_ensures(window_state::resolve_window_id_with_pred, (c, arg, pred), r),
        old(c).selected() is Some,
    ensures
        ({
            let a = *old(c);
            &&& *final(c) == a
            &&& arg is None || arg->0@ is Nil ==> r is Ok && r->Ok_0 == (
                a.selected_frame->0,
                a.selected()->0.selected_window,
            )
            &&& arg is Some && arg->0@ is Window ==> {
                let w = (arg->0@)->Window_0;
                let found = a.window(w) is Some && (pred is Valid || a.window(w)->0.leaf);
                &&& r is Ok <==> found
                &&& found ==> r->Ok_0 == (a.window(w)->0.frame, w)
            }
            &&& arg is Some && (arg->0@ is Text || arg->0@ is Symbol || arg->0@ is Frame || arg->0@
                is T) ==> r is Err
            &&& r is Err ==> r->Err_0.condition == Condition::WrongTypeArgument
        }),
{
}

/// The same for frames: `nil` is the selected one, a live one is itself, and anything else,
/// a window included, is refused.
pub proof fn law_frame_argument(
    c: &mut Context,
    arg: Option<&Value>,
    predicate: &str,
    r: Result<u64, Signal>,
    d: &mut Context,
    q: Result<u64, Signal>,
)
    requires
        call_ensures(window_state::resolve_frame_id, (c, arg, predicate), r),
        call_ensures(window_state::resolve_frame_or_window_frame_id, (d, arg, predicate), q),
        *old(d) == *old(c),
        old(c).selected() is Some,
    ensures
        ({
            let a = *old(c);
            &&& *final(c) == a && *final(d) == a
            &&& arg is None || arg->0@ is Nil ==> r == Ok::<u64, Signal>(a.selected_frame->0) && q
                == Ok::<u64, Signal>(a.selected_frame->0)
            &&& arg is Some && arg->0@ is Frame ==> {
                let f = (arg->0@)->Frame_0;
                &&& a.frame(f) is Some ==> r == Ok::<u64, Signal>(f) && q == Ok::<u64, Signal>(f)
                &&& a.frame(f) is None ==> r is Err && q is Err
            }
            &&& arg is Some && arg->0@ is Window ==> {
                let w = (arg->0@)->Window_0;
                &&& r is Err
                &&& a.window(w) is Some ==> q == Ok::<u64, Signal>(a.window(w)->0.frame)
                &&& a.window(w) is None ==> q is Err
            }
            &&& arg is Some && (arg->0@ is Text || arg->0@ is Symbol || arg->0@ is T) ==> r is Err
                && q is Err
            &&& r is Err ==> r->Err_0.condition == Condition::WrongTypeArgument
        }),
{
}

} // verus!
