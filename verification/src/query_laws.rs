//! What asking a window is for: what was set of it is what it answers, and of no other.
use vstd::prelude::*;

use crate::list_laws;
use crate::lisp::{Condition, Datum, Signal, Value};
use crate::measure_laws;
use crate::place_laws;
use crate::select_laws;
use crate::window_queries;
use crate::window_queries::{
    CursorInfo, FringeRequest, FrameSlot, SplitRequest, TotalRoot, WindowNumber, WindowSlot,
};
use crate::window_state;
use crate::window_state::{Context, Window};

verus! {

/// What is set of a window is what it then answers, and what it answers of anything else
/// stays, as do the other windows. Of the cursor only a type can be set.
pub proof fn law_slot_that_is_set_is_read(
    c: &mut Context,
    window: &Value,
    which: WindowSlot,
    value: &Value,
    r: Result<Value, Signal>,
    d: &mut Context,
    other: WindowSlot,
    q: Result<Value, Signal>,
    e: &mut Context,
    before: Result<Value, Signal>,
    w: u64,
)
    requires
        call_ensures(window_queries::set_window_slot, (c, window, which, value), r),
        call_ensures(window_queries::window_slot, (e, Some(window), other), before),
        *old(e) == *old(c),
        *old(d) == *final(c),
        call_ensures(window_queries::window_slot, (d, Some(window), other), q),
        measure_laws::is_there(*old(c), window, w),
        which is CursorType ==> value@ is Nil || value@ is T || value@ == Datum::Symbol("bar"@),
    ensures
        r is Ok && r->Ok_0@ == value@,
        q is Ok && before is Ok,
        other == which ==> q->Ok_0@ == value@,
        other != which ==> q->Ok_0@ == before->Ok_0@,
        place_laws::only_window_differs(*old(c), *final(c), w),
        final(c).window(w) is Some && final(c).window(w)->0.start == old(c).window(w)->0.start
            && final(c).window(w)->0.point == old(c).window(w)->0.point && final(c).window(
            w,
        )->0.buffer == old(c).window(w)->0.buffer,
{
    let (a, b) = (*old(c), *final(c));
    measure_laws::lemma_target(a, window, w);
    let i = window_state::window_place(a.windows@, w)->0;
    window_state::lemma_index_in(window_state::window_ids(a.windows@), w);
    select_laws::lemma_one_window(a, b, i, w);
    assert(b.window(w)->0.leaf && b.window(w)->0.frame == a.window(w)->0.frame);
    measure_laws::lemma_target(b, window, w);
}

/// What is no cursor type is refused.
pub proof fn law_cursor_types(
    c: &mut Context,
    window: &Value,
    value: &Value,
    r: Result<Value, Signal>,
    w: u64,
)
    requires
        call_ensures(
            window_queries::set_window_slot,
            (c, window, WindowSlot::CursorType, value),
            r,
        ),
        measure_laws::is_there(*old(c), window, w),
        value@ is Fixnum || value@ is Text || value@ is Window || value@ is Frame,
    ensures
        *final(c) == *old(c),
        r is Err && r->Err_0.condition == Condition::Error,
{
    measure_laws::lemma_target(*old(c), window, w);
}

/// `(set-window-hscroll WINDOW N)`, and then `(window-hscroll WINDOW)`: the columns that were
/// set, none where they are negative.
pub proof fn law_columns_that_are_set_are_read(
    c: &mut Context,
    window: &Value,
    columns: i64,
    r: Result<i64, Signal>,
    d: &mut Context,
    q: Result<i64, Signal>,
    w: u64,
)
    requires
        call_ensures(window_queries::builtin_set_window_hscroll, (c, window, columns), r),
        *old(d) == *final(c),
        call_ensures(
            window_queries::window_number,
            (d, Some(window), WindowNumber::Hscroll),
            q,
        ),
        measure_laws::is_there(*old(c), window, w),
    ensures
        r is Ok && q is Ok && q->Ok_0 == r->Ok_0,
        columns >= 0 ==> r->Ok_0 == columns,
        columns < 0 ==> r->Ok_0 == 0,
        place_laws::only_window_differs(*old(c), *final(c), w),
        final(c).window(w)->0.suspend_auto_hscroll,
{
    let (a, b) = (*old(c), *final(c));
    measure_laws::lemma_target(a, window, w);
    let n: i64 = if columns >= 0 {
        columns
    } else {
        0
    };
    place_laws::lemma_changed(
        a,
        b,
        w,
        Window { hscroll: n as u64, suspend_auto_hscroll: true, ..a.window(w)->0 },
    );
    measure_laws::lemma_target(b, window, w);
}

/// The width of a margin as a value: `nil` for none.
pub open spec fn is_margin(d: Datum, n: u64) -> bool {
    &&& n == 0 ==> d is Nil
    &&& n > 0 ==> d == Datum::Fixnum(n as int)
}

/// `(set-window-margins WINDOW LEFT RIGHT)`, and then `(window-margins WINDOW)`: the margins
/// that were set, `nil` for none.
pub proof fn law_margins_that_are_set_are_read(
    c: &mut Context,
    window: &Value,
    left: &Value,
    right: &Value,
    r: Result<bool, Signal>,
    d: &mut Context,
    q: Result<Value, Signal>,
    w: u64,
    m: u64,
    n: u64,
)
    requires
        call_ensures(
            window_queries::builtin_set_window_margins,
            (c, window, left, Some(right)),
            r,
        ),
        *old(d) == *final(c),
        call_ensures(
            window_queries::builtin_window_margins,
            (d, Some(window), None::<(i64, i64)>),
            q,
        ),
        measure_laws::is_there(*old(c), window, w),
        m <= 1000 && n <= 1000,
        left@ == Datum::Fixnum(m as int),
        right@ == Datum::Fixnum(n as int),
    ensures
        r is Ok && q is Ok,
        r->Ok_0 <==> !(old(c).window(w)->0.left_margin == m && old(c).window(w)->0.right_margin
            == n),
        final(c).window(w)->0.left_margin == m && final(c).window(w)->0.right_margin == n,
        q->Ok_0@ is Pair && is_margin(*(q->Ok_0@)->Pair_0, m) && is_margin(*(q->Ok_0@)->Pair_1, n),
        place_laws::only_window_differs(*old(c), *final(c), w),
{
    let (a, b) = (*old(c), *final(c));
    measure_laws::lemma_target(a, window, w);
    if r->Ok_0 {
        place_laws::lemma_changed(
            a,
            b,
            w,
            Window { left_margin: m, right_margin: n, ..a.window(w)->0 },
        );
    }
    measure_laws::lemma_target(b, window, w);
}

/// What a window answers of its place: where it begins, where point was when it was last
/// shown, and when it was last selected.
pub proof fn law_numbers_of_a_window(
    c: &mut Context,
    window: &Value,
    start: Result<i64, Signal>,
    d: &mut Context,
    was: Result<i64, Signal>,
    e: &mut Context,
    used: Result<i64, Signal>,
    w: u64,
)
    requires
        call_ensures(window_queries::window_number, (c, Some(window), WindowNumber::Start), start),
        call_ensures(
            window_queries::window_number,
            (d, Some(window), WindowNumber::OldPoint),
            was,
        ),
        call_ensures(window_queries::window_number, (e, Some(window), WindowNumber::UseTime), used),
        *old(d) == *old(c) && *old(e) == *old(c),
        measure_laws::is_there(*old(c), window, w),
    ensures
        ({
            let win = old(c).window(w)->0;
            &&& start is Ok && start->Ok_0 == win.start
            &&& was is Ok && (win.old_point >= 1 ==> was->Ok_0 == win.old_point)
            &&& win.old_point < 1 ==> was->Ok_0 == 1
            &&& used is Ok && used->Ok_0 == win.use_time
        }),
{
    measure_laws::lemma_target(*old(c), window, w);
}

/// A window knows its frame, its buffer, and whether it is the frame's minibuffer.
pub proof fn law_window_knows_its_frame(
    c: &mut Context,
    window: &Value,
    frame: Result<u64, Signal>,
    d: &mut Context,
    buffer: Result<Value, Signal>,
    e: &mut Context,
    mini: Result<bool, Signal>,
    w: u64,
)
    requires
        call_ensures(window_queries::builtin_window_frame, (c, Some(window)), frame),
        call_ensures(window_queries::builtin_window_buffer, (d, Some(window)), buffer),
        call_ensures(window_queries::builtin_window_minibuffer_p, (e, Some(window)), mini),
        *old(d) == *old(c) && *old(e) == *old(c),
        measure_laws::is_there(*old(c), window, w),
    ensures
        ({
            let win = old(c).window(w)->0;
            &&& frame == Ok::<u64, Signal>(win.frame)
            &&& buffer is Ok && buffer->Ok_0@ == Datum::Buffer(win.buffer)
            &&& mini == Ok::<bool, Signal>(
                old(c).frame(win.frame)->0.minibuffer_window == Some(w),
            )
        }),
{
    measure_laws::lemma_target(*old(c), window, w);
}

/// A frame knows its root, its minibuffer and the windows that are and were selected in it.
pub proof fn law_windows_that_a_frame_knows(
    c: &mut Context,
    frame: &Value,
    which: FrameSlot,
    r: Result<Value, Signal>,
    f: u64,
    d: &mut Context,
    selected: u64,
)
    requires
        call_ensures(window_queries::frame_window_slot, (c, Some(frame), which), r),
        frame@ == Datum::Frame(f),
        old(c).frame(f) is Some,
        old(c).selected() is Some,
        *old(d) == *old(c),
        call_ensures(window_queries::builtin_selected_window, (d,), selected),
    ensures
        r is Ok,
        which is Selected ==> r->Ok_0@ == Datum::Window(old(c).frame(f)->0.selected_window),
        which is Root ==> r->Ok_0@ == Datum::Window(old(c).frame(f)->0.root_window),
        which is Minibuffer && old(c).frame(f)->0.minibuffer_window is Some ==> r->Ok_0@
            == Datum::Window(old(c).frame(f)->0.minibuffer_window->0),
        which is OldSelected && old(c).frame(f)->0.old_selected_window is Some ==> r->Ok_0@
            == Datum::Window(old(c).frame(f)->0.old_selected_window->0),
        which is OldSelected && old(c).frame(f)->0.old_selected_window is None ==> r->Ok_0@ is Nil,
        selected == old(c).selected()->0.selected_window,
{
}

/// A window is live where it shows a buffer, valid where it is in a frame, and a window
/// even where it was deleted.
pub proof fn law_kinds_of_windows(
    c: &Context,
    v: &Value,
    any: bool,
    valid: bool,
    live: bool,
)
    requires
        call_ensures(window_queries::builtin_windowp, (c, v), any),
        call_ensures(window_queries::builtin_window_valid_p, (c, v), valid),
        call_ensures(window_queries::builtin_window_live_p, (c, v), live),
    ensures
        live ==> valid,
        valid ==> any,
        v@ is Window ==> {
            let w = (v@)->Window_0;
            &&& valid == (c.window(w) is Some)
            &&& live == (c.window(w) is Some && c.window(w)->0.leaf)
            &&& any == (c.window(w) is Some || c.dead_windows@.contains(w))
        },
        v@ is Nil || v@ is Text || v@ is Frame || v@ is Buffer ==> !any && !valid && !live,
{
}

/// `(split-window-internal WINDOW SIZE SIDE)`, as far as it can be told before it is done:
/// side by side for `t`, `left` and `right`, one above the other else; the new window first
/// for `left` and `above`; the size that is given, or half; and the same buffer.
pub proof fn law_split_is_read(
    c: &mut Context,
    window: &Value,
    size: &Value,
    side: &Value,
    r: Result<SplitRequest, Signal>,
    w: u64,
)
    requires
        call_ensures(window_queries::decode_split_window, (c, window, size, side), r),
        measure_laws::is_there(*old(c), window, w),
    ensures
        r is Ok,
        ({
            let (s, win) = (r->Ok_0, old(c).window(w)->0);
            &&& s.window == w && s.frame == win.frame && s.buffer == win.buffer
            &&& size@ is Nil || size@ == Datum::Fixnum(0) ==> s.size is None
            &&& size@ is Fixnum && i64::MIN <= (size@)->Fixnum_0 <= i64::MAX && (size@)->Fixnum_0
                != 0 ==> s.size is Some && s.size->0 == (size@)->Fixnum_0
            &&& side@ is Nil || side@ == Datum::Symbol("below"@) ==> !s.horizontal && !s.before
            &&& side@ == Datum::Symbol("above"@) ==> !s.horizontal && s.before
            &&& side@ is T || side@ == Datum::Symbol("right"@) ==> s.horizontal && !s.before
            &&& side@ == Datum::Symbol("left"@) ==> s.horizontal && s.before
        }),
{
    measure_laws::lemma_target(*old(c), window, w);
    reveal_strlit("above");
    reveal_strlit("below");
    reveal_strlit("left");
    reveal_strlit("right");
    assert("above"@[0] == 'a' && "below"@[0] == 'b' && "right"@[0] == 'r');
    assert("left"@.len() == 4 && "above"@.len() == 5 && "below"@.len() == 5 && "right"@.len() == 5);
}

/// A window may be deleted while its frame has another one, and not if it is the minibuffer.
pub proof fn law_last_window_stays(
    c: &mut Context,
    window: &Value,
    r: Result<Option<(u64, u64)>, Signal>,
    w: u64,
)
    requires
        call_ensures(window_queries::builtin_delete_window_internal, (c, window), r),
        measure_laws::is_there(*old(c), window, w),
    ensures
        ({
            let win = old(c).window(w)->0;
            let mini = old(c).frame(win.frame)->0.minibuffer_window == Some(w);
            let alone = list_laws::windows_of(old(c).windows@, win.frame).len() <= 1;
            &&& *final(c) == *old(c)
            &&& r is Err <==> mini || alone
            &&& r is Ok ==> r->Ok_0 == Some((win.frame, w))
        }),
{
    measure_laws::lemma_target(*old(c), window, w);
    list_laws::lemma_windows_of(old(c).windows@, old(c).window(w)->0.frame);
}

/// A staged resize is applied where the sizes add up and the root window keeps its own.
pub proof fn law_resize_that_adds_up(
    c: &mut Context,
    frame: &Value,
    horizontal: Option<&Value>,
    adds_up: bool,
    r: Result<Option<u64>, Signal>,
    f: u64,
    root: Window,
)
    requires
        call_ensures(
            window_queries::builtin_window_resize_apply,
            (c, Some(frame), horizontal, adds_up),
            r,
        ),
        frame@ == Datum::Frame(f),
        old(c).frame(f) is Some,
        old(c).window(old(c).frame(f)->0.root_window) == Some(root),
    ensures
        ({
            let side = if horizontal is None || horizontal->0@ is Nil {
                root.bounds.height
            } else {
                root.bounds.width
            };
            &&& r is Ok
            &&& r->Ok_0 is Some <==> adds_up && (root.new_pixel is None || root.new_pixel->0
                == side)
            &&& r->Ok_0 is Some ==> r->Ok_0->0 == f
        }),
{
}

/// A staged height of the minibuffer in lines is applied below the root window: it begins
/// where that ends, and is so many lines high; nothing is staged then.
pub proof fn law_minibuffer_is_below_the_root(c: &mut Context, root: TotalRoot, w: u64)
    requires
        call_ensures(window_queries::finish_window_resize_apply_total, (c, root), ()),
        !root.horizontal,
        old(c).frame(root.frame) is Some,
        old(c).frame(root.frame)->0.minibuffer_window == Some(w),
        old(c).window(w) is Some && old(c).window(w)->0.mini && old(c).window(w)->0.frame
            == root.frame,
        old(c).window(w)->0.new_total is Some && 0 <= old(c).window(w)->0.new_total->0 < 0x10000,
        old(c).window(old(c).frame(root.frame)->0.root_window) is Some,
        old(c).frame(root.frame)->0.char_height < 0x10000,
        ({
            let b = old(c).window(old(c).frame(root.frame)->0.root_window)->0.bounds;
            0 <= b.y < 0x10000 && 0 <= b.height < 0x10000
        }),
    ensures
        ({
            let (a, b) = (*old(c), *final(c));
            let f = a.frame(root.frame)->0;
            let (above, below) = (a.window(f.root_window)->0.bounds, b.window(w)->0.bounds);
            &&& place_laws::only_window_differs(a, b, w)
            &&& below.y == above.y + above.height
            &&& below.height == a.window(w)->0.new_total->0 * f.char_height
            &&& below.x == a.window(w)->0.bounds.x && below.width == a.window(w)->0.bounds.width
            &&& b.window(w)->0.new_total is None
        }),
{
    let (a, b) = (*old(c), *final(c));
    let i = window_state::window_place(a.windows@, w)->0;
    window_state::lemma_index_in(window_state::window_ids(a.windows@), w);
    let f = a.frame(root.frame)->0;
    let n = a.window(w)->0.new_total->0;
    assert(0 <= n * f.char_height < 0x1_0000_0000) by (nonlinear_arith)
        requires
            0 <= n < 0x10000,
            0 <= f.char_height < 0x10000,
    ;
    select_laws::lemma_one_window(a, b, i, w);
}

/// What can be drawn anew: everything, a live window, and a buffer that some window shows.
pub proof fn law_what_is_drawn_anew(c: &Context, object: Option<&Value>, r: bool)
    requires
        call_ensures(window_queries::builtin_force_window_update, (c, object), r),
    ensures
        object is None || object->0@ is Nil ==> r,
        object is Some && object->0@ is Window ==> {
            let w = (object->0@)->Window_0;
            r <==> c.window(w) is Some && c.window(w)->0.leaf
        },
        object is Some && object->0@ is Buffer ==> {
            let b = (object->0@)->Buffer_0;
            r <==> exists|i: int|
                0 <= i < c.windows@.len() && (#[trigger] c.windows@[i]).leaf && c.windows@[i].buffer
                    == b
        },
        object is Some && (object->0@ is Fixnum || object->0@ is T || object->0@ is Frame) ==> !r,
{
}

/// What is deleted with `(delete-other-windows-internal WINDOW ROOT)`: what is in the root
/// but for the window; the root is the frame's own where none is given, and on the same
/// frame else.
pub proof fn law_other_windows_go(
    c: &mut Context,
    window: &Value,
    root: Option<&Value>,
    r: Result<(u64, u64, u64), Signal>,
    w: u64,
)
    requires
        call_ensures(
            window_queries::decode_delete_other_windows,
            (c, Some(window), root),
            r,
        ),
        measure_laws::is_there(*old(c), window, w),
    ensures
        ({
            let win = old(c).window(w)->0;
            &&& root is None || root->0@ is Nil ==> r == Ok::<(u64, u64, u64), Signal>(
                (win.frame, w, old(c).frame(win.frame)->0.root_window),
            )
            &&& root is Some && root->0@ is Window ==> {
                let k = (root->0@)->Window_0;
                &&& r is Ok <==> old(c).window(k) is Some && old(c).window(k)->0.frame == win.frame
                &&& r is Ok ==> r->Ok_0 == (win.frame, w, k)
            }
        }),
{
    measure_laws::lemma_target(*old(c), window, w);
}

/// The combination limit of an inner window is what was set; a window that shows a buffer
/// has none.
pub proof fn law_limit_that_is_set_is_read(
    c: &mut Context,
    window: &Value,
    limit: &Value,
    r: Result<Value, Signal>,
    d: &mut Context,
    q: Result<bool, Signal>,
    w: u64,
)
    requires
        call_ensures(
            window_queries::builtin_set_window_combination_limit,
            (c, window, limit),
            r,
        ),
        *old(d) == *final(c),
        call_ensures(window_queries::builtin_window_combination_limit, (d, window), q),
        old(c).selected() is Some,
        window@ == Datum::Window(w),
        old(c).window(w) is Some,
    ensures
        old(c).window(w)->0.leaf ==> r is Err && q is Err && *final(c) == *old(c),
        !old(c).window(w)->0.leaf ==> r is Ok && q is Ok && (q->Ok_0 <==> !(limit@ is Nil))
            && place_laws::only_window_differs(*old(c), *final(c), w),
{
    let (a, b) = (*old(c), *final(c));
    window_state::lemma_index_in(window_state::window_ids(a.windows@), w);
    if !a.window(w)->0.leaf {
        place_laws::lemma_changed(
            a,
            b,
            w,
            Window { combination_limit: !(limit@ is Nil), ..a.window(w)->0 },
        );
        assert(b.selected() == a.selected());
    }
}

/// `(set-window-fringes WINDOW LEFT RIGHT)`: on a frame of a window system, the widths that
/// are given, the left one for both where there is no other; nothing on a terminal.
pub proof fn law_fringes_that_are_asked_for(
    c: &mut Context,
    window: &Value,
    left: &Value,
    right: Option<&Value>,
    r: Result<Option<(u64, FringeRequest)>, Signal>,
    w: u64,
    n: i32,
)
    requires
        call_ensures(
            window_queries::builtin_set_window_fringes,
            (c, window, left, right, None::<&Value>, None::<&Value>),
            r,
        ),
        measure_laws::is_there(*old(c), window, w),
        left@ == Datum::Fixnum(n as int),
    ensures
        !measure_laws::its_frame(*old(c), w).graphical ==> r is Ok && r->Ok_0 is None,
        measure_laws::its_frame(*old(c), w).graphical && right is None ==> r is Ok && r->Ok_0
            is Some && (r->Ok_0->0).0 == w && (r->Ok_0->0).1.left == Some(n)
            && (r->Ok_0->0).1.right == Some(n) && !(r->Ok_0->0).1.outside_margins,
        measure_laws::its_frame(*old(c), w).graphical && right is Some && right->0@ is Nil ==> r
            is Ok && r->Ok_0 is Some && (r->Ok_0->0).1.left == Some(n)
            && (r->Ok_0->0).1.right is None,
{
    measure_laws::lemma_target(*old(c), window, w);
}

/// The cursor of a window is known where it was drawn and is on.
pub proof fn law_cursor_that_is_seen(
    c: &mut Context,
    window: &Value,
    r: Result<Option<CursorInfo>, Signal>,
    w: u64,
)
    requires
        call_ensures(window_queries::builtin_window_cursor_info, (c, Some(window)), r),
        measure_laws::is_there(*old(c), window, w),
    ensures
        ({
            let d = old(c).window(w)->0.display;
            &&& r is Ok
            &&& r->Ok_0 is Some <==> d is Some && d->0.on && !d->0.off && d->0.cursor is Some
            &&& r->Ok_0 is Some ==> (r->Ok_0->0).cursor == d->0.cursor->0 && (
            r->Ok_0->0).cursor_type@ == old(c).window(w)->0.cursor_type@
        }),
{
    measure_laws::lemma_target(*old(c), window, w);
}

} // verus!
