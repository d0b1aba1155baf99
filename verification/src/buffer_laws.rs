//! What showing a buffer in a window is for: the window shows it, at the place where it was
//! left.
use vstd::prelude::*;

use crate::lisp;
use crate::lisp::{Datum, Signal, Value};
use crate::window_buffers;
use crate::window_buffers::{SetWindowBuffer, WindowBufferSet};
use crate::window_state;
use crate::window_state::{Buffer, Context, Frame, Window};

verus! {

/// A position, the first one where it is none.
pub open spec fn position(pos: i64) -> i64 {
    if pos < 1 {
        1
    } else {
        pos
    }
}

/// What is looked up by a number is the first thing with that number, and is found if there
/// is any.
pub proof fn law_lookup(
    c: &Context,
    id: u64,
    frame: Option<&Frame>,
    window: Option<&Window>,
    buffer: Option<&Buffer>,
)
    requires
        call_ensures(Context::get_frame, (c, id), frame),
        call_ensures(Context::get_window, (c, id), window),
        call_ensures(Context::get_buffer, (c, id), buffer),
    ensures
        frame matches Some(f) ==> f.id == id && c.frames@.contains(*f),
        frame is None ==> forall|i: int| 0 <= i < c.frames@.len() ==> (#[trigger] c.frames@[i]).id
            != id,
        window matches Some(w) ==> w.id == id && c.windows@.contains(*w),
        window is None ==> forall|i: int|
            0 <= i < c.windows@.len() ==> (#[trigger] c.windows@[i]).id != id,
        buffer matches Some(b) ==> b.id == id && c.buffers@.contains(*b),
        buffer is None ==> forall|i: int|
            0 <= i < c.buffers@.len() ==> (#[trigger] c.buffers@[i]).id != id,
{
    let (fs, ws, bs) = (
        window_state::frame_ids(c.frames@),
        window_state::window_ids(c.windows@),
        window_state::buffer_ids(c.buffers@),
    );
    window_state::lemma_index_in(fs, id);
    window_state::lemma_index_in(ws, id);
    window_state::lemma_index_in(bs, id);
    if frame is None {
        assert forall|i: int| 0 <= i < c.frames@.len() implies (#[trigger] c.frames@[i]).id
            != id by {
            assert(fs[i] == c.frames@[i].id);
        }
    }
    if window is None {
        assert forall|i: int| 0 <= i < c.windows@.len() implies (#[trigger] c.windows@[i]).id
            != id by {
            assert(ws[i] == c.windows@[i].id);
        }
    }
    if buffer is None {
        assert forall|i: int| 0 <= i < c.buffers@.len() implies (#[trigger] c.buffers@[i]).id
            != id by {
            assert(bs[i] == c.buffers@[i].id);
        }
    }
}

/// Buffers where one was changed, but not its number.
proof fn lemma_other_buffers(a: Seq<Buffer>, b: Seq<Buffer>, i: int, id: u64)
    requires
        0 <= i < a.len(),
        b.len() == a.len(),
        b == a.update(i, b[i]),
        b[i].id == a[i].id,
        window_state::buffer_place(a, id) == Some(i),
    ensures
        forall|x: u64| #[trigger]
            window_state::buffer_place(b, x) == window_state::buffer_place(a, x),
        forall|x: u64|
            x != id ==> (#[trigger] window_state::buffer_place(a, x) matches Some(k) ==> k != i && 0
                <= k < a.len()),
        a[i].id == id,
{
    assert(window_state::buffer_ids(a) =~= window_state::buffer_ids(b));
    window_state::lemma_index_in(window_state::buffer_ids(a), id);
    assert forall|x: u64|
        x != id implies (#[trigger] window_state::buffer_place(a, x) matches Some(k) ==> k != i
        && 0 <= k < a.len()) by {
        window_state::lemma_index_in(window_state::buffer_ids(a), x);
    }
}

/// Windows where one was changed, but not its number.
proof fn lemma_other_windows(a: Seq<Window>, b: Seq<Window>, i: int, id: u64)
    requires
        0 <= i < a.len(),
        b.len() == a.len(),
        b == a.update(i, b[i]),
        b[i].id == a[i].id,
        window_state::window_place(a, id) == Some(i),
    ensures
        forall|x: u64| #[trigger]
            window_state::window_place(b, x) == window_state::window_place(a, x),
        forall|x: u64|
            x != id ==> (#[trigger] window_state::window_place(a, x) matches Some(k) ==> k != i && 0
                <= k < a.len()),
        a[i].id == id,
{
    assert(window_state::window_ids(a) =~= window_state::window_ids(b));
    window_state::lemma_index_in(window_state::window_ids(a), id);
    assert forall|x: u64|
        x != id implies (#[trigger] window_state::window_place(a, x) matches Some(k) ==> k != i
        && 0 <= k < a.len()) by {
        window_state::lemma_index_in(window_state::window_ids(a), x);
    }
}

/// A window that is given a buffer shows it where the buffer was left: it begins at the
/// buffer's last window start, and point is the buffer's. A buffer that the window showed
/// already stays where it was if the margins are kept. No other window changes.
pub proof fn law_window_shows_buffer_where_it_was_left(
    c: &mut Context,
    s: SetWindowBuffer,
    r: Result<WindowBufferSet, Signal>,
    w: Window,
    b: Buffer,
)
    requires
        call_ensures(window_buffers::finish_set_window_buffer, (c, s), r),
        r is Ok,
        old(c).window(s.window) == Some(w),
        w.leaf,
        old(c).buffer(s.buffer) == Some(b),
    ensures
        final(c).window(s.window) matches Some(n) && {
            &&& n.buffer == s.buffer && n.leaf && n.id == w.id && n.frame == w.frame
            &&& w.buffer != s.buffer || !s.keep_margins ==> n.start == position(
                b.last_window_start,
            ) && n.point == position(b.point)
            &&& w.buffer == s.buffer && s.keep_margins ==> n.start == position(w.start) && n.point
                == position(w.point)
            &&& s.keep_margins ==> n.left_margin == w.left_margin && n.right_margin
                == w.right_margin
            &&& !s.keep_margins && b.left_margin_width@ is Nil ==> n.left_margin == 0
            &&& !s.keep_margins && b.right_margin_width@ is Nil ==> n.right_margin == 0
            &&& !s.keep_margins ==> (b.left_margin_width@ matches Datum::Fixnum(m) ==> n.left_margin
                == m)
            &&& !s.keep_margins ==> (b.right_margin_width@ matches Datum::Fixnum(m)
                ==> n.right_margin == m)
            &&& w.dedicated@ is Nil ==> n.dedicated@ is Nil
            &&& w.buffer != s.buffer && w.dedicated@ != Datum::T ==> n.dedicated@ is Nil
            &&& n.prev_buffers == w.prev_buffers && n.next_buffers == w.next_buffers
            &&& n.bounds == w.bounds && n.use_time == w.use_time
        },
        forall|x: u64| x != s.window ==> #[trigger] final(c).window(x) == old(c).window(x),
{
    let i = window_state::buffer_place(old(c).buffers@, s.buffer)->0;
    let k = window_state::window_place(old(c).windows@, s.window)->0;
    window_state::lemma_index_in(window_state::buffer_ids(old(c).buffers@), s.buffer);
    window_state::lemma_index_in(window_state::window_ids(old(c).windows@), s.window);
    lemma_other_windows(old(c).windows@, final(c).windows@, k, s.window);
    assert forall|x: u64| x != s.window implies #[trigger] final(c).window(x) == old(c).window(
        x,
    ) by {
        let _ = window_state::window_place(old(c).windows@, x);
        assert(window_state::window_place(final(c).windows@, x) == window_state::window_place(
            old(c).windows@,
            x,
        ));
    }
}

/// A buffer that a window shows counts as shown once more, and knows the window where that
/// is the selected one of its frame. Its text and place, and all other buffers, stay.
pub proof fn law_shown_buffer_is_counted(
    c: &mut Context,
    s: SetWindowBuffer,
    r: Result<WindowBufferSet, Signal>,
    b: Buffer,
)
    requires
        call_ensures(window_buffers::finish_set_window_buffer, (c, s), r),
        r is Ok,
        old(c).buffer(s.buffer) == Some(b),
    ensures
        final(c).buffer(s.buffer) matches Some(n) && {
            &&& n.point == b.point && n.length == b.length && n.last_window_start
                == b.last_window_start && n.name == b.name
            &&& b.display_count is Some && b.display_count->0 < i64::MAX
                ==> n.display_count is Some && n.display_count->0 == b.display_count->0 + 1
            &&& old(c).frame(s.frame) is Some && old(c).frame(s.frame)->0.selected_window
                == s.window ==> n.last_selected_window == Some(s.window)
            &&& old(c).frame(s.frame) is None ==> n.last_selected_window == b.last_selected_window
        },
        forall|x: u64| x != s.buffer ==> #[trigger] final(c).buffer(x) == old(c).buffer(x),
        final(c).frames == old(c).frames,
        final(c).selected_frame == old(c).selected_frame,
        final(c).current_buffer == old(c).current_buffer,
{
    let i = window_state::buffer_place(old(c).buffers@, s.buffer)->0;
    window_state::lemma_index_in(window_state::buffer_ids(old(c).buffers@), s.buffer);
    lemma_other_buffers(old(c).buffers@, final(c).buffers@, i, s.buffer);
    assert forall|x: u64| x != s.buffer implies #[trigger] final(c).buffer(x) == old(c).buffer(
        x,
    ) by {
        let _ = window_state::buffer_place(old(c).buffers@, x);
        assert(window_state::buffer_place(final(c).buffers@, x) == window_state::buffer_place(
            old(c).buffers@,
            x,
        ));
    }
}

/// A window of a session with a selected frame, that can show a buffer: it is live, and not
/// dedicated to another one.
pub open spec fn can_show(c: Context, w: Window, buffer: u64) -> bool {
    &&& c.selected() is Some
    &&& c.window(w.id) == Some(w)
    &&& w.leaf
    &&& w.dedicated@ != Datum::T || w.buffer == buffer
    &&& c.buffer(buffer) is Some
    &&& lisp::list_items(w.prev_buffers@) is Some
    &&& lisp::list_items(w.next_buffers@) is Some
}

/// An ordinary window, whose history keeps buffers but for those with a name that begins
/// with a space.
pub open spec fn keeps_history(c: Context, w: Window, b: Buffer) -> bool {
    &&& c.frame(w.frame) is Some
    &&& c.frame(w.frame)->0.minibuffer_window != Some(w.id)
    &&& b.name@.len() == 0 || b.name@[0] != ' '
}

/// A history that begins with the buffer that a window shows, and where it shows it.
pub open spec fn is_last_in_history(history: Datum, w: Window) -> bool {
    history matches Datum::Pair(first, _) && *first == lisp::list_of(
        seq![
            Datum::Buffer(w.buffer),
            Datum::Marker(Some(w.buffer), Some(position(w.start))),
            Datum::Marker(Some(w.buffer), Some(position(w.point))),
        ],
    )
}

/// The buffer that a window stops showing keeps where the window began, and where its point
/// was, unless the buffer is shown in the selected window or in the one that it was last
/// selected in. It forgets the window. No other buffer changes.
pub proof fn law_buffer_that_leaves_keeps_its_place(
    c: &mut Context,
    window: &Value,
    buffer: &Value,
    keep: Option<&Value>,
    r: Result<SetWindowBuffer, Signal>,
    w: Window,
    b: Buffer,
    next: u64,
)
    requires
        call_ensures(
            window_buffers::builtin_set_window_buffer,
            (c, window, buffer, keep),
            r,
        ),
        window@ == Datum::Window(w.id),
        buffer@ == Datum::Buffer(next),
        can_show(*old(c), w, next),
        w.buffer != next,
        old(c).buffer(w.buffer) == Some(b),
    ensures
        r matches Ok(s) && s.window == w.id && s.buffer == next && s.frame == w.frame
            && s.keep_margins == !(lisp::given(keep) is Nil),
        final(c).buffer(w.buffer) matches Some(n) && {
            &&& n.last_window_start == position(w.start)
            &&& n.id == b.id && n.length == b.length && n.name == b.name
            &&& n.display_count == b.display_count
            &&& n.last_selected_window == if b.last_selected_window == Some(w.id) {
                None
            } else {
                b.last_selected_window
            }
            &&& ({
                let seen = old(c).selected() matches Some(f) && (old(c).window(
                    f.selected_window,
                ) matches Some(x) && x.leaf && x.buffer == w.buffer);
                let known = b.last_selected_window matches Some(l) && l != w.id && (old(
                    c,
                ).window(l) matches Some(x) && x.leaf && x.buffer == w.buffer);
                &&& seen || known ==> n.point == b.point
                &&& !seen && !known && 1 <= w.point <= b.length + 1 ==> n.point == w.point
            })
        },
        forall|x: u64| x != w.buffer ==> #[trigger] final(c).buffer(x) == old(c).buffer(x),
        final(c).window(w.id) matches Some(n) && {
            &&& n == (Window {
                prev_buffers: n.prev_buffers,
                next_buffers: n.next_buffers,
                ..w
            })
            &&& n.next_buffers@ is Nil
            &&& lisp::list_items(n.prev_buffers@) is Some
            &&& keeps_history(*old(c), w, b) ==> is_last_in_history(n.prev_buffers@, w)
        },
        forall|x: u64| x != w.id ==> #[trigger] final(c).window(x) == old(c).window(x),
        final(c).frames == old(c).frames,
        final(c).selected_frame == old(c).selected_frame,
{
    let a = *old(c);
    let m = choose|m: Context| #[trigger]
        window_buffers::buffer_left(a, m, w, next) && window_buffers::is_history_change(
            r,
            m,
            *final(c),
            w.frame,
            w,
            next,
            !(lisp::given(keep) is Nil),
        );
    let p = lisp::list_items(w.prev_buffers@)->0;
    let change = window_buffers::WindowBufferHistoryChange {
        outgoing_buffer_id: w.buffer,
        incoming_buffer_id: next,
        outgoing_window_start: w.start,
        outgoing_window_point: w.point,
    };
    lisp::law_list_reads_back(window_buffers::history_after(p, change, true));
    lisp::law_list_reads_back(window_buffers::history_after(p, change, false));
    let i = window_state::buffer_place(a.buffers@, w.buffer)->0;
    window_state::lemma_index_in(window_state::buffer_ids(a.buffers@), w.buffer);
    lemma_other_buffers(a.buffers@, m.buffers@, i, w.buffer);
    let k = window_state::window_place(a.windows@, w.id)->0;
    window_state::lemma_index_in(window_state::window_ids(a.windows@), w.id);
    assert(m.windows == a.windows);
    lemma_other_windows(m.windows@, final(c).windows@, k, w.id);
    assert(final(c).buffers == m.buffers);
    assert forall|x: u64| x != w.buffer implies #[trigger] final(c).buffer(x) == old(c).buffer(
        x,
    ) by {
        assert(window_state::buffer_place(m.buffers@, x) == window_state::buffer_place(
            a.buffers@,
            x,
        ));
    }
    assert forall|x: u64| x != w.id implies #[trigger] final(c).window(x) == old(c).window(x) by {
        assert(window_state::window_place(final(c).windows@, x) == window_state::window_place(
            a.windows@,
            x,
        ));
    }
}

/// Leaving a buffer and coming back to it restores the place: a window that shows a buffer
/// which is shown nowhere else, is given another one, and is given the first one again,
/// begins where it began, and point is where it was.
pub proof fn law_coming_back_restores_the_place(
    c1: &mut Context,
    c2: &mut Context,
    c3: &mut Context,
    c4: &mut Context,
    window: &Value,
    other: &Value,
    first: &Value,
    r1: Result<SetWindowBuffer, Signal>,
    r2: Result<WindowBufferSet, Signal>,
    r3: Result<SetWindowBuffer, Signal>,
    r4: Result<WindowBufferSet, Signal>,
    w: Window,
    b: Buffer,
    next: u64,
)
    requires
        call_ensures(
            window_buffers::builtin_set_window_buffer,
            (c1, window, other, None::<&Value>),
            r1,
        ),
        *old(c2) == *final(c1),
        r1 matches Ok(s1) && call_ensures(window_buffers::finish_set_window_buffer, (c2, s1), r2),
        *old(c3) == *final(c2),
        call_ensures(
            window_buffers::builtin_set_window_buffer,
            (c3, window, first, None::<&Value>),
            r3,
        ),
        *old(c4) == *final(c3),
        r3 matches Ok(s3) && call_ensures(window_buffers::finish_set_window_buffer, (c4, s3), r4),
        r2 is Ok,
        r4 is Ok,
        window@ == Datum::Window(w.id),
        other@ == Datum::Buffer(next),
        first@ == Datum::Buffer(w.buffer),
        can_show(*old(c1), w, next),
        w.buffer != next,
        w.dedicated@ is Nil,
        old(c1).buffer(w.buffer) == Some(b),
        old(c1).selected()->0.selected_window != w.id,
        forall|x: u64|
            x != w.id ==> (#[trigger] old(c1).window(x) matches Some(y) ==> y.buffer != w.buffer),
        1 <= w.start,
        1 <= w.point <= b.length + 1,
    ensures
        final(c4).window(w.id) matches Some(n) && n.buffer == w.buffer && n.start == w.start
            && n.point == w.point,
{
    law_buffer_that_leaves_keeps_its_place(c1, window, other, None, r1, w, b, next);
    let s1 = r1->Ok_0;
    let w2 = old(c2).window(w.id)->0;
    let b2 = old(c2).buffer(next)->0;
    law_window_shows_buffer_where_it_was_left(c2, s1, r2, w2, b2);
    law_shown_buffer_is_counted(c2, s1, r2, b2);
    let w3 = old(c3).window(w.id)->0;
    let a3 = old(c3).buffer(w.buffer)->0;
    let b3 = old(c3).buffer(next)->0;
    window_state::lemma_index_in(window_state::window_ids(old(c3).windows@), w.id);
    law_buffer_that_leaves_keeps_its_place(c3, window, first, None, r3, w3, b3, w.buffer);
    let s3 = r3->Ok_0;
    let w4 = old(c4).window(w.id)->0;
    law_window_shows_buffer_where_it_was_left(c4, s3, r4, w4, a3);
}

} // verus!
