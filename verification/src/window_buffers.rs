//! Which buffer a window shows, which ones it showed before, and which window is
//! selected.
use vstd::prelude::*;
use vstd::string::StringExecFns;

use crate::lisp;
use crate::lisp::{Datum, Signal, Value};
use crate::text;
use crate::window_lists;
use crate::window_state;
use crate::window_state::{Buffer, Context, Window, WindowPredicate};

verus! {

/// A history entry that begins with one of these buffers.
pub open spec fn entry_is_of(d: Datum, gone: Seq<u64>) -> bool {
    match lisp::list_items(d) {
        Some(items) => items.len() > 0 && (items[0] matches Datum::Buffer(b) && gone.contains(b)),
        None => false,
    }
}

/// The entries that are left of a history of buffers that a window showed.
pub open spec fn prev_left(items: Seq<Datum>, gone: Seq<u64>) -> Seq<Datum>
    decreases items.len(),
{
    if items.len() == 0 {
        Seq::empty()
    } else if entry_is_of(items.last(), gone) {
        prev_left(items.drop_last(), gone)
    } else {
        prev_left(items.drop_last(), gone).push(items.last())
    }
}

/// The buffers that are left of those that a window is to show again.
pub open spec fn next_left(items: Seq<Datum>, gone: Seq<u64>) -> Seq<Datum>
    decreases items.len(),
{
    if items.len() == 0 {
        Seq::empty()
    } else if items.last() matches Datum::Buffer(b) && gone.contains(b) {
        next_left(items.drop_last(), gone)
    } else {
        next_left(items.drop_last(), gone).push(items.last())
    }
}

fn holds(gone: &Vec<u64>, b: u64) -> (r: bool)
    ensures
        r == gone@.contains(b),
{
    proof {
        window_state::lemma_index_in(gone@, b);
    }
    window_state::position(gone, b).is_some()
}

fn entry_names(v: &Value, gone: &Vec<u64>) -> (r: bool)
    ensures
        r == entry_is_of(v@, gone@),
{
    match lisp::list_to_vec(v) {
        Some(items) => {
            if items.len() == 0 {
                return false;
            }
            proof {
                assert(lisp::data(items@)[0] == items@[0]@);
            }
            match &items[0] {
                Value::Buffer(b) => holds(gone, *b),
                _ => false,
            }
        },
        None => false,
    }
}

/// The history of buffers that a window showed, without the entries of `gone`.
pub fn filtered_window_prev_buffers(prev: &Value, gone: &Vec<u64>) -> (r: Result<
    Vec<Value>,
    Signal,
>)
    ensures
        match lisp::list_items(prev@) {
            Some(items) => r matches Ok(v) && lisp::data(v@) == prev_left(items, gone@),
            None => r matches Err(e) && lisp::is_wrong_type(e, "listp"@, prev@),
        },
{
    let items: Vec<Value> = match lisp::list_to_vec(prev) {
        Some(items) => items,
        None => {
            return Err(lisp::wrong_type("listp", prev));
        },
    };
    let ghost all = lisp::data(items@);
    let mut out: Vec<Value> = Vec::new();
    let mut i: usize = 0;
    proof {
        assert(all.subrange(0, 0) =~= Seq::empty());
        assert(lisp::data(out@) =~= Seq::empty());
    }
    while i < items.len()
        invariant
            i <= items.len(),
            all == lisp::data(items@),
            lisp::data(out@) == prev_left(all.subrange(0, i as int), gone@),
        decreases items.len() - i,
    {
        proof {
            assert(all.subrange(0, i + 1).drop_last() =~= all.subrange(0, i as int));
            assert(all.subrange(0, i + 1).last() == items@[i as int]@);
        }
        if !entry_names(&items[i], gone) {
            let item: Value = lisp::copy(&items[i]);
            proof {
                lisp::lemma_data_push(out@, item);
            }
            out.push(item);
        }
        i += 1;
    }
    proof {
        assert(all.subrange(0, all.len() as int) =~= all);
    }
    Ok(out)
}

/// The buffers that a window is to show again, without `gone`.
pub fn filtered_window_next_buffers(next: &Value, gone: &Vec<u64>) -> (r: Result<
    Vec<Value>,
    Signal,
>)
    ensures
        match lisp::list_items(next@) {
            Some(items) => r matches Ok(v) && lisp::data(v@) == next_left(items, gone@),
            None => r matches Err(e) && lisp::is_wrong_type(e, "listp"@, next@),
        },
{
    let items: Vec<Value> = match lisp::list_to_vec(next) {
        Some(items) => items,
        None => {
            return Err(lisp::wrong_type("listp", next));
        },
    };
    let ghost all = lisp::data(items@);
    let mut out: Vec<Value> = Vec::new();
    let mut i: usize = 0;
    proof {
        assert(all.subrange(0, 0) =~= Seq::empty());
        assert(lisp::data(out@) =~= Seq::empty());
    }
    while i < items.len()
        invariant
            i <= items.len(),
            all == lisp::data(items@),
            lisp::data(out@) == next_left(all.subrange(0, i as int), gone@),
        decreases items.len() - i,
    {
        proof {
            assert(all.subrange(0, i + 1).drop_last() =~= all.subrange(0, i as int));
            assert(all.subrange(0, i + 1).last() == items@[i as int]@);
        }
        let drop: bool = match &items[i] {
            Value::Buffer(b) => holds(gone, *b),
            _ => false,
        };
        if !drop {
            let item: Value = lisp::copy(&items[i]);
            proof {
                lisp::lemma_data_push(out@, item);
            }
            out.push(item);
        }
        i += 1;
    }
    proof {
        assert(all.subrange(0, all.len() as int) =~= all);
    }
    Ok(out)
}

/// Nothing of a discarded buffer is left in a window's history.
pub proof fn law_discarded_entries_are_gone(items: Seq<Datum>, gone: Seq<u64>)
    ensures
        forall|i: int|
            0 <= i < prev_left(items, gone).len() ==> !entry_is_of(
                #[trigger] prev_left(items, gone)[i],
                gone,
            ),
        prev_left(prev_left(items, gone), gone) == prev_left(items, gone),
    decreases items.len(),
{
    if items.len() > 0 {
        law_discarded_entries_are_gone(items.drop_last(), gone);
        let p = prev_left(items.drop_last(), gone);
        if !entry_is_of(items.last(), gone) {
            assert(p.push(items.last()).drop_last() =~= p);
        }
    }
}

/// The session after the history of a window was changed.
pub open spec fn history_changed(a: Context, b: Context, w: u64, prev: Datum, next: Datum) -> bool {
    match window_state::window_place(a.windows@, w) {
        None => b == a,
        Some(i) => {
            let new = b.windows@[i];
            &&& b == (Context { windows: b.windows, ..a })
            &&& b.windows@.len() == a.windows@.len()
            &&& new == (Window {
                prev_buffers: new.prev_buffers,
                next_buffers: new.next_buffers,
                ..a.windows@[i]
            })
            &&& b.windows@ == a.windows@.update(i, new)
            &&& new.prev_buffers@ == prev
            &&& new.next_buffers@ == next
        },
    }
}

/// The history of a window.
pub open spec fn prev_of(c: Context, w: u64) -> Datum {
    match c.window(w) {
        Some(win) => win.prev_buffers@,
        None => Datum::Nil,
    }
}

pub open spec fn next_of(c: Context, w: u64) -> Datum {
    match c.window(w) {
        Some(win) => win.next_buffers@,
        None => Datum::Nil,
    }
}

fn set_history(c: &mut Context, w: u64, prev: Value, next: Value)
    ensures
        history_changed(*old(c), *final(c), w, prev@, next@),
{
    match window_state::find_window(&c.windows, w) {
        Some(i) => {
            proof {
                window_state::lemma_index_in(window_state::window_ids(c.windows@), w);
            }
            c.windows[i].prev_buffers = prev;
            c.windows[i].next_buffers = next;
            proof {
                let new = c.windows@[i as int];
                assert(c.windows@ =~= old(c).windows@.update(i as int, new));
            }
        },
        None => {},
    }
}

fn history_of(c: &Context, w: u64) -> (r: (Value, Value))
    ensures
        r.0@ == prev_of(*c, w),
        r.1@ == next_of(*c, w),
{
    match c.get_window(w) {
        Some(win) => (lisp::copy(&win.prev_buffers), lisp::copy(&win.next_buffers)),
        None => (Value::Nil, Value::Nil),
    }
}

/// Takes buffers out of a window's history. Where only the second list is no list, the
/// first is done by then.
pub fn discard_buffers_from_window_history(c: &mut Context, w: u64, gone: &Vec<u64>) -> (r: Result<
    (),
    Signal,
>)
    ensures
        match (lisp::list_items(prev_of(*old(c), w)), lisp::list_items(next_of(*old(c), w))) {
            (None, _) => *final(c) == *old(c) && (r matches Err(e) && lisp::is_wrong_type(
                e,
                "listp"@,
                prev_of(*old(c), w),
            )),
            (Some(p), None) => history_changed(
                *old(c),
                *final(c),
                w,
                lisp::list_of(prev_left(p, gone@)),
                next_of(*old(c), w),
            ) && (r matches Err(e) && lisp::is_wrong_type(e, "listp"@, next_of(*old(c), w))),
            (Some(p), Some(n)) => r is Ok && history_changed(
                *old(c),
                *final(c),
                w,
                lisp::list_of(prev_left(p, gone@)),
                lisp::list_of(next_left(n, gone@)),
            ),
        },
{
    let (prev, next): (Value, Value) = history_of(c, w);
    let kept: Vec<Value> = match filtered_window_prev_buffers(&prev, gone) {
        Ok(v) => v,
        Err(e) => {
            return Err(e);
        },
    };
    match filtered_window_next_buffers(&next, gone) {
        Ok(v) => {
            set_history(c, w, lisp::list(kept), lisp::list(v));
            Ok(())
        },
        Err(e) => {
            set_history(c, w, lisp::list(kept), next);
            Err(e)
        },
    }
}

/// The minibuffer window of its frame.
pub open spec fn is_mini(c: Context, frame: u64, w: u64) -> bool {
    match c.frame(frame) {
        Some(f) => f.minibuffer_window == Some(w),
        None => false,
    }
}

pub fn is_minibuffer_window(c: &Context, frame: u64, w: u64) -> (r: bool)
    ensures
        r == is_mini(*c, frame, w),
{
    match c.get_frame(frame) {
        Some(f) => match f.minibuffer_window {
            Some(m) => m == w,
            None => false,
        },
        None => false,
    }
}

/// A buffer that a window's history keeps: any but a hidden one, whose name begins
/// with a space; in a minibuffer, one that minibuffers use.
pub open spec fn is_recorded(c: Context, frame: u64, w: u64, buffer: u64) -> bool {
    if is_mini(c, frame, w) {
        c.minibuffer_buffers@.contains(buffer)
    } else {
        match c.buffer(buffer) {
            Some(b) => !(b.name@.len() > 0 && b.name@[0] == ' '),
            None => false,
        }
    }
}

pub fn should_record_window_history_buffer(c: &Context, frame: u64, w: u64, buffer: u64) -> (r: bool)
    ensures
        r == is_recorded(*c, frame, w, buffer),
{
    if is_minibuffer_window(c, frame, w) {
        return holds(&c.minibuffer_buffers, buffer);
    }
    match c.get_buffer(buffer) {
        Some(b) => {
            let name: Vec<char> = text::chars_of(b.name.as_str());
            !(name.len() > 0 && name[0] == ' ')
        },
        None => false,
    }
}

/// A window is about to show another buffer.
#[derive(Debug, Clone, Copy, PartialEq, Eq, Structural)]
pub struct WindowBufferHistoryChange {
    pub outgoing_buffer_id: u64,
    pub incoming_buffer_id: u64,
    pub outgoing_window_start: i64,
    pub outgoing_window_point: i64,
}

pub open spec fn at_least_one(pos: i64) -> i64 {
    if pos >= 1 {
        pos
    } else {
        1
    }
}

fn max_one(pos: i64) -> (r: i64)
    ensures
        r == at_least_one(pos),
{
    if pos >= 1 {
        pos
    } else {
        1
    }
}

/// What is kept of a buffer that leaves a window: the buffer, and where it was shown.
pub open spec fn history_entry(change: WindowBufferHistoryChange) -> Datum {
    lisp::list_of(
        seq![
            Datum::Buffer(change.outgoing_buffer_id),
            Datum::Marker(
                Some(change.outgoing_buffer_id),
                Some(at_least_one(change.outgoing_window_start)),
            ),
            Datum::Marker(
                Some(change.outgoing_buffer_id),
                Some(at_least_one(change.outgoing_window_point)),
            ),
        ],
    )
}

fn make_history_entry(change: WindowBufferHistoryChange) -> (r: Value)
    ensures
        r@ == history_entry(change),
{
    let mut items: Vec<Value> = Vec::new();
    items.push(Value::Buffer(change.outgoing_buffer_id));
    items.push(
        Value::Marker(
            Some(change.outgoing_buffer_id),
            Some(max_one(change.outgoing_window_start)),
        ),
    );
    items.push(
        Value::Marker(
            Some(change.outgoing_buffer_id),
            Some(max_one(change.outgoing_window_point)),
        ),
    );
    proof {
        assert(lisp::data(items@) =~= seq![
            Datum::Buffer(change.outgoing_buffer_id),
            Datum::Marker(
                Some(change.outgoing_buffer_id),
                Some(at_least_one(change.outgoing_window_start)),
            ),
            Datum::Marker(
                Some(change.outgoing_buffer_id),
                Some(at_least_one(change.outgoing_window_point)),
            ),
        ]);
    }
    lisp::list(items)
}

/// A window's history once another buffer came in: the one that left comes first, if
/// it is kept at all, and neither of the two stands further back.
pub open spec fn history_after(
    items: Seq<Datum>,
    change: WindowBufferHistoryChange,
    recorded: bool,
) -> Seq<Datum> {
    let kept = prev_left(items, seq![change.outgoing_buffer_id, change.incoming_buffer_id]);
    if recorded {
        seq![history_entry(change)] + kept
    } else {
        kept
    }
}

/// Keeps the history of a window that is about to show another buffer. Says whether
/// the list of buffers changed.
pub fn record_window_buffer_change_history(
    c: &mut Context,
    frame: u64,
    w: u64,
    change: WindowBufferHistoryChange,
) -> (r: Result<bool, Signal>)
    ensures
        match lisp::list_items(prev_of(*old(c), w)) {
            None => *final(c) == *old(c) && (r matches Err(e) && lisp::is_wrong_type(
                e,
                "listp"@,
                prev_of(*old(c), w),
            )),
            Some(items) => {
                let recorded = is_recorded(*old(c), frame, w, change.outgoing_buffer_id);
                &&& history_changed(
                    *old(c),
                    *final(c),
                    w,
                    lisp::list_of(history_after(items, change, recorded)),
                    Datum::Nil,
                )
                &&& r == Ok::<bool, Signal>(recorded && !is_mini(*old(c), frame, w))
            },
        },
{
    let (prev, _): (Value, Value) = history_of(c, w);
    let mut gone: Vec<u64> = Vec::new();
    gone.push(change.outgoing_buffer_id);
    gone.push(change.incoming_buffer_id);
    proof {
        assert(gone@ =~= seq![change.outgoing_buffer_id, change.incoming_buffer_id]);
    }
    let kept: Vec<Value> = match filtered_window_prev_buffers(&prev, &gone) {
        Ok(v) => v,
        Err(e) => {
            return Err(e);
        },
    };
    let recorded: bool = should_record_window_history_buffer(
        c,
        frame,
        w,
        change.outgoing_buffer_id,
    );
    let mini: bool = is_minibuffer_window(c, frame, w);
    let ghost rest = lisp::data(kept@);
    let mut tail: Value = lisp::list(kept);
    if recorded {
        tail = lisp::pair(make_history_entry(change), tail);
        proof {
            let all = seq![history_entry(change)] + rest;
            assert(all.subrange(1, all.len() as int) =~= rest);
        }
    }
    set_history(c, w, tail, Value::Nil);
    Ok(recorded && !mini)
}

/// A buffer appears in a window's history once at most when it leaves the window: the
/// entries behind the first are of other buffers.
pub proof fn law_history_holds_outgoing_once(
    items: Seq<Datum>,
    change: WindowBufferHistoryChange,
    recorded: bool,
)
    ensures
        ({
            let h = history_after(items, change, recorded);
            let both = seq![change.outgoing_buffer_id, change.incoming_buffer_id];
            forall|i: int|
                (if recorded {
                    1int
                } else {
                    0
                }) <= i < h.len() ==> !entry_is_of(#[trigger] h[i], both)
        }),
{
    let both = seq![change.outgoing_buffer_id, change.incoming_buffer_id];
    law_discarded_entries_are_gone(items, both);
    let kept = prev_left(items, both);
    let h = history_after(items, change, recorded);
    assert forall|i: int|
        (if recorded {
            1int
        } else {
            0
        }) <= i < h.len() implies !entry_is_of(#[trigger] h[i], both) by {
        if recorded {
            assert(h[i] == kept[i - 1]);
        }
    }
}

/// The position in a buffer's text that is nearest to the one asked for.
pub open spec fn in_text(b: Buffer, pos: i64) -> i64 {
    if pos < 1 || b.length < 1 {
        1
    } else if pos <= b.length {
        pos
    } else {
        (b.length + 1) as i64
    }
}

/// The position in a text of `length` characters that is nearest to `pos`.
pub fn nearest_in_text(length: i64, pos: i64) -> (r: i64)
    ensures
        forall|b: Buffer| b.length == length ==> r == #[trigger] in_text(b, pos),
{
    if pos < 1 || length < 1 {
        1
    } else if pos <= length {
        pos
    } else {
        length + 1
    }
}

/// Another window shows the buffer, or the selected one does, so that its point stays.
pub open spec fn point_is_shared(c: Context, w: u64, b: Buffer) -> bool {
    ||| (c.selected() matches Some(f) && window_lists::shows(c, f.selected_window, b.id))
    ||| (b.last_selected_window matches Some(l) && l != w && window_lists::shows(c, l, b.id))
}

/// A buffer that leaves a window: it keeps where the window began, gets the window's
/// point unless it is shown elsewhere, and forgets the window.
pub open spec fn left_buffer(c: Context, w: Window, b: Buffer, incoming: u64) -> Buffer {
    Buffer {
        last_window_start: at_least_one(w.start),
        point: if point_is_shared(c, w.id, b) {
            b.point
        } else {
            in_text(b, at_least_one(w.point))
        },
        last_selected_window: if b.id != incoming && b.last_selected_window == Some(w.id) {
            None
        } else {
            b.last_selected_window
        },
        ..b
    }
}

/// The session after a buffer left a window.
pub open spec fn buffer_left(a: Context, b: Context, w: Window, incoming: u64) -> bool {
    match window_state::buffer_place(a.buffers@, w.buffer) {
        None => b == a,
        Some(i) => {
            &&& b == (Context { buffers: b.buffers, ..a })
            &&& b.buffers@ == a.buffers@.update(i, left_buffer(a, w, a.buffers@[i], incoming))
        },
    }
}

fn leave_buffer(c: &mut Context, at: usize, incoming: u64)
    requires
        at < old(c).windows@.len(),
    ensures
        buffer_left(*old(c), *final(c), old(c).windows@[at as int], incoming),
{
    let w: u64 = c.windows[at].id;
    let buffer: u64 = c.windows[at].buffer;
    let start: i64 = c.windows[at].start;
    let point: i64 = c.windows[at].point;
    match window_state::find_buffer(&c.buffers, buffer) {
        Some(i) => {
            let by_selected: bool = match c.get_selected_frame() {
                Some(f) => window_lists::window_displays_buffer(c, f.selected_window, buffer),
                None => false,
            };
            let by_last: bool = match c.buffers[i].last_selected_window {
                Some(l) => l != w && window_lists::window_displays_buffer(c, l, buffer),
                None => false,
            };
            let forget: bool = match c.buffers[i].last_selected_window {
                Some(l) => buffer != incoming && l == w,
                None => false,
            };
            let place: i64 = nearest_in_text(c.buffers[i].length, max_one(point));
            c.buffers[i].last_window_start = max_one(start);
            if !by_selected && !by_last {
                c.buffers[i].point = place;
            }
            if forget {
                c.buffers[i].last_selected_window = None;
            }
            proof {
                let win = old(c).windows@[at as int];
                let b = old(c).buffers@[i as int];
                assert(c.buffers@[i as int] == left_buffer(*old(c), win, b, incoming));
                assert(c.buffers@ =~= old(c).buffers@.update(
                    i as int,
                    left_buffer(*old(c), win, b, incoming),
                ));
            }
        },
        None => {},
    }
}

/// What a buffer argument of `set-window-buffer` stands for.
pub enum ShownBuffer {
    Shown(u64),
    Deleted,
    NoSuchName,
    NoBuffer,
}

pub open spec fn shown_buffer(c: Context, arg: Datum) -> ShownBuffer {
    match arg {
        Datum::Buffer(id) => if c.buffer(id) is Some {
            ShownBuffer::Shown(id)
        } else {
            ShownBuffer::Deleted
        },
        Datum::Text(name) => match window_state::buffer_named(c.buffers@, name) {
            Some(i) => ShownBuffer::Shown(c.buffers@[i].id),
            None => ShownBuffer::NoSuchName,
        },
        _ => ShownBuffer::NoBuffer,
    }
}

fn find_shown_buffer(c: &Context, v: &Value) -> (r: Result<u64, Signal>)
    ensures
        match shown_buffer(*c, v@) {
            ShownBuffer::Shown(id) => r == Ok::<u64, Signal>(id),
            ShownBuffer::Deleted => r matches Err(e) && lisp::is_error(
                e,
                "Attempt to display deleted buffer"@,
            ),
            ShownBuffer::NoSuchName => r matches Err(e) && lisp::is_wrong_type(
                e,
                "bufferp"@,
                Datum::Nil,
            ),
            ShownBuffer::NoBuffer => r matches Err(e) && lisp::is_wrong_type(e, "stringp"@, v@),
        },
{
    match v {
        Value::Buffer(id) => if c.get_buffer(*id).is_some() {
            Ok(*id)
        } else {
            Err(lisp::error("Attempt to display deleted buffer"))
        },
        Value::Text(name) => match window_state::find_buffer_by_name(&c.buffers, name.as_str()) {
            Some(i) => Ok(c.buffers[i].id),
            None => Err(lisp::wrong_type("bufferp", &Value::Nil)),
        },
        _ => Err(lisp::wrong_type("stringp", v)),
    }
}

/// The name that an error gives a buffer.
pub open spec fn buffer_title(c: Context, id: u64) -> Seq<char> {
    match c.buffer(id) {
        Some(b) => b.name@,
        None => "*deleted*"@,
    }
}

/// A window that is to show a buffer, once what it showed has left.
#[derive(Debug, Clone, Copy, PartialEq, Eq, Structural)]
pub struct SetWindowBuffer {
    pub frame: u64,
    pub window: u64,
    pub buffer: u64,
    pub keep_margins: bool,
    /// The list of buffers changed, which hooks are told of before the buffer is shown.
    pub run_buffer_list_hook: bool,
}

/// What the first half of `set-window-buffer` comes to, on a window that was found.
pub open spec fn is_buffer_change(
    r: Result<SetWindowBuffer, Signal>,
    a: Context,
    b: Context,
    frame: u64,
    w: u64,
    buffer: u64,
    keep: bool,
) -> bool {
    let untouched = SetWindowBuffer {
        frame: frame,
        window: w,
        buffer: buffer,
        keep_margins: keep,
        run_buffer_list_hook: false,
    };
    match a.window(w) {
        None => b == a && r == Ok::<SetWindowBuffer, Signal>(untouched),
        Some(win) => if !win.leaf {
            b == a && r == Ok::<SetWindowBuffer, Signal>(untouched)
        } else if win.dedicated@ is T && win.buffer != buffer {
            b == a && (r matches Err(e) && lisp::is_error(
                e,
                "Window is dedicated to ‘"@ + buffer_title(a, win.buffer) + "’"@,
            ))
        } else {
            exists|m: Context| #[trigger]
                buffer_left(a, m, win, buffer) && is_history_change(
                    r,
                    m,
                    b,
                    frame,
                    win,
                    buffer,
                    keep,
                )
        },
    }
}

/// What becomes of the window's history: the buffer that left is put in, or, where the
/// buffer stays, it is taken out.
pub open spec fn is_history_change(
    r: Result<SetWindowBuffer, Signal>,
    m: Context,
    b: Context,
    frame: u64,
    win: Window,
    buffer: u64,
    keep: bool,
) -> bool {
    let w = win.id;
    let change = WindowBufferHistoryChange {
        outgoing_buffer_id: win.buffer,
        incoming_buffer_id: buffer,
        outgoing_window_start: win.start,
        outgoing_window_point: win.point,
    };
    let recorded = is_recorded(m, frame, w, win.buffer);
    let done = SetWindowBuffer {
        frame: frame,
        window: w,
        buffer: buffer,
        keep_margins: keep,
        run_buffer_list_hook: win.buffer != buffer && recorded && !is_mini(m, frame, w),
    };
    match (lisp::list_items(prev_of(m, w)), lisp::list_items(next_of(m, w))) {
        (None, _) => b == m && (r matches Err(e) && lisp::is_wrong_type(
            e,
            "listp"@,
            prev_of(m, w),
        )),
        (Some(p), n) => if win.buffer != buffer {
            history_changed(
                m,
                b,
                w,
                lisp::list_of(history_after(p, change, recorded)),
                Datum::Nil,
            ) && r == Ok::<SetWindowBuffer, Signal>(done)
        } else {
            match n {
                None => history_changed(
                    m,
                    b,
                    w,
                    lisp::list_of(prev_left(p, seq![buffer])),
                    next_of(m, w),
                ) && (r matches Err(e) && lisp::is_wrong_type(e, "listp"@, next_of(m, w))),
                Some(n) => history_changed(
                    m,
                    b,
                    w,
                    lisp::list_of(prev_left(p, seq![buffer])),
                    lisp::list_of(next_left(n, seq![buffer])),
                ) && r == Ok::<SetWindowBuffer, Signal>(done),
            }
        },
    }
}

fn change_buffer(c: &mut Context, frame: u64, w: u64, buffer: u64, keep: bool) -> (r: Result<
    SetWindowBuffer,
    Signal,
>)
    ensures
        is_buffer_change(r, *old(c), *final(c), frame, w, buffer, keep),
{
    let mut done: SetWindowBuffer = SetWindowBuffer {
        frame: frame,
        window: w,
        buffer: buffer,
        keep_margins: keep,
        run_buffer_list_hook: false,
    };
    let at: usize = match window_state::find_window(&c.windows, w) {
        Some(i) => i,
        None => {
            return Ok(done);
        },
    };
    if !c.windows[at].leaf {
        return Ok(done);
    }
    let ghost win = c.windows@[at as int];
    let shown: u64 = c.windows[at].buffer;
    if lisp::is_t(&c.windows[at].dedicated) && shown != buffer {
        let title: String = match c.get_buffer(shown) {
            Some(b) => text::copy(b.name.as_str()),
            None => text::copy("*deleted*"),
        };
        let mut message: String = text::copy("Window is dedicated to ‘");
        message.append(title.as_str());
        message.append("’");
        return Err(lisp::error(message.as_str()));
    }
    let change: WindowBufferHistoryChange = WindowBufferHistoryChange {
        outgoing_buffer_id: shown,
        incoming_buffer_id: buffer,
        outgoing_window_start: c.windows[at].start,
        outgoing_window_point: c.windows[at].point,
    };
    leave_buffer(c, at, buffer);
    let ghost m = *c;
    proof {
        assert(buffer_left(*old(c), m, win, buffer));
        assert(m.windows == old(c).windows);
    }
    if shown != buffer {
        match record_window_buffer_change_history(c, frame, w, change) {
            Ok(hook) => {
                done.run_buffer_list_hook = hook;
                Ok(done)
            },
            Err(e) => Err(e),
        }
    } else {
        let mut gone: Vec<u64> = Vec::new();
        gone.push(buffer);
        proof {
            assert(gone@ =~= seq![buffer]);
        }
        match discard_buffers_from_window_history(c, w, &gone) {
            Ok(()) => Ok(done),
            Err(e) => Err(e),
        }
    }
}

/// What `set-window-buffer` does before hooks are run: the window that is meant, which
/// may make a frame, then the buffer, then a frame is made sure of in any case, and what
/// is shown leaves.
pub open spec fn is_set_buffer_start(
    r: Result<SetWindowBuffer, Signal>,
    a: Context,
    b: Context,
    window: Datum,
    buffer: Datum,
    keep: Datum,
) -> bool {
    exists|m: Context| #[trigger]
        window_state::ensured_for(a, m, window) && match window_state::window_target(
            m,
            window,
            WindowPredicate::Live,
        ) {
            None => b == m && (r matches Err(e) && lisp::is_wrong_type(
                e,
                "window-live-p"@,
                window,
            )),
            Some((f, w)) => match shown_buffer(m, buffer) {
                ShownBuffer::Deleted => b == m && (r matches Err(e) && lisp::is_error(
                    e,
                    "Attempt to display deleted buffer"@,
                )),
                ShownBuffer::NoSuchName => b == m && (r matches Err(e) && lisp::is_wrong_type(
                    e,
                    "bufferp"@,
                    Datum::Nil,
                )),
                ShownBuffer::NoBuffer => b == m && (r matches Err(e) && lisp::is_wrong_type(
                    e,
                    "stringp"@,
                    buffer,
                )),
                ShownBuffer::Shown(id) => exists|n: Context| #[trigger]
                    window_state::ensured(m, n) && is_buffer_change(
                        r,
                        n,
                        b,
                        f,
                        w,
                        id,
                        !(keep is Nil),
                    ),
            },
        }
}

/// The first half of `(set-window-buffer WINDOW BUFFER KEEP-MARGINS)`: what the window
/// shows leaves it. The second half is `finish_set_window_buffer`; between the two, the
/// hooks that `run_buffer_list_hook` asks for are run.
pub fn builtin_set_window_buffer(
    c: &mut Context,
    window: &Value,
    buffer: &Value,
    keep_margins: Option<&Value>,
) -> (r: Result<SetWindowBuffer, Signal>)
    requires
        old(c).has_room(),
    ensures
        is_set_buffer_start(
            r,
            *old(c),
            *final(c),
            window@,
            buffer@,
            lisp::given(keep_margins),
        ),
{
    let target: Result<(u64, u64), Signal> = window_state::resolve_window_id_with_pred(
        c,
        Some(window),
        WindowPredicate::Live,
    );
    let ghost m = *c;
    proof {
        assert(window_state::ensured_for(*old(c), m, window@));
    }
    let (f, w): (u64, u64) = match target {
        Ok(t) => t,
        Err(e) => {
            return Err(e);
        },
    };
    let id: u64 = match find_shown_buffer(c, buffer) {
        Ok(id) => id,
        Err(e) => {
            return Err(e);
        },
    };
    let keep: bool = lisp::is_given(keep_margins);
    if c.get_selected_frame().is_none() {
        proof {
            assert(m == *old(c));
        }
        let _ = window_state::ensure_selected_frame_id(c);
    }
    proof {
        assert(window_state::ensured(m, *c));
    }
    change_buffer(c, f, w, id, keep)
}

/// A value that says on which side a window has its vertical scroll bar.
pub open spec fn is_vertical_bar(d: Datum) -> bool {
    d is Nil || d is T || lisp::is_symbol(d, "left"@) || lisp::is_symbol(d, "right"@)
}

/// A value that says where a window has its horizontal scroll bar.
pub open spec fn is_horizontal_bar(d: Datum) -> bool {
    d is Nil || d is T || lisp::is_symbol(d, "bottom"@)
}

pub fn valid_vertical_scroll_bar_type(v: &Value) -> (r: bool)
    ensures
        r == is_vertical_bar(v@),
{
    lisp::is_nil(v) || lisp::is_t(v) || lisp::is_symbol_named(v, "left") || lisp::is_symbol_named(
        v,
        "right",
    )
}

pub fn valid_horizontal_scroll_bar_type(v: &Value) -> (r: bool)
    ensures
        r == is_horizontal_bar(v@),
{
    lisp::is_nil(v) || lisp::is_t(v) || lisp::is_symbol_named(v, "bottom")
}

/// What a buffer says of the windows that show it.
#[derive(Debug)]
pub struct WindowBufferDisplayDefaults {
    pub left_margin: u64,
    pub right_margin: u64,
    pub left_fringe: Option<i32>,
    pub right_fringe: Option<i32>,
    pub fringes_outside_margins: bool,
    pub scroll_bar_width: Option<i32>,
    pub vertical_scroll_bar: Value,
    pub scroll_bar_height: Option<i32>,
    pub horizontal_scroll_bar: Value,
}

/// The defaults that a buffer's settings come to.
pub open spec fn are_defaults(d: WindowBufferDisplayDefaults, b: Buffer) -> bool {
    &&& lisp::margin_of(b.left_margin_width@) == Some(d.left_margin as int)
    &&& lisp::margin_of(b.right_margin_width@) == Some(d.right_margin as int)
    &&& lisp::is_dimension(Ok(d.left_fringe), b.left_fringe_width@)
    &&& lisp::is_dimension(Ok(d.right_fringe), b.right_fringe_width@)
    &&& d.fringes_outside_margins == !(b.fringes_outside_margins@ is Nil)
    &&& lisp::is_dimension(Ok(d.scroll_bar_width), b.scroll_bar_width@)
    &&& d.vertical_scroll_bar@ == b.vertical_scroll_bar@
    &&& lisp::is_dimension(Ok(d.scroll_bar_height), b.scroll_bar_height@)
    &&& d.horizontal_scroll_bar@ == b.horizontal_scroll_bar@
}

/// All of a buffer's settings for windows can be used.
pub open spec fn settings_are_fit(b: Buffer) -> bool {
    &&& lisp::margin_of(b.left_margin_width@) is Some
    &&& lisp::margin_of(b.right_margin_width@) is Some
    &&& lisp::dimension_of(b.left_fringe_width@) is Some
    &&& lisp::dimension_of(b.right_fringe_width@) is Some
    &&& is_vertical_bar(b.vertical_scroll_bar@)
    &&& is_horizontal_bar(b.horizontal_scroll_bar@)
    &&& lisp::dimension_of(b.scroll_bar_width@) is Some
    &&& lisp::dimension_of(b.scroll_bar_height@) is Some
}

pub open spec fn margin_fault(e: Signal, d: Datum) -> bool {
    if d is Fixnum {
        lisp::is_out_of_range(e, d, 0, lisp::MAX_MARGIN as int)
    } else {
        lisp::is_wrong_type(e, "integerp"@, d)
    }
}

/// What is signalled for a buffer's settings: the first of them that cannot be used.
pub open spec fn settings_fault(e: Signal, b: Buffer) -> bool {
    if lisp::margin_of(b.left_margin_width@) is None {
        margin_fault(e, b.left_margin_width@)
    } else if lisp::margin_of(b.right_margin_width@) is None {
        margin_fault(e, b.right_margin_width@)
    } else if lisp::dimension_of(b.left_fringe_width@) is None {
        lisp::is_dimension(Err(e), b.left_fringe_width@)
    } else if lisp::dimension_of(b.right_fringe_width@) is None {
        lisp::is_dimension(Err(e), b.right_fringe_width@)
    } else if !is_vertical_bar(b.vertical_scroll_bar@) {
        lisp::is_error(e, "Invalid type of vertical scroll bar"@)
    } else if !is_horizontal_bar(b.horizontal_scroll_bar@) {
        lisp::is_error(e, "Invalid type of horizontal scroll bar"@)
    } else if lisp::dimension_of(b.scroll_bar_width@) is None {
        lisp::is_dimension(Err(e), b.scroll_bar_width@)
    } else {
        lisp::is_dimension(Err(e), b.scroll_bar_height@)
    }
}

/// Reads what a buffer says of the windows that show it.
pub fn buffer_display_defaults(b: &Buffer) -> (r: Result<WindowBufferDisplayDefaults, Signal>)
    ensures
        match r {
            Ok(d) => settings_are_fit(*b) && are_defaults(d, *b),
            Err(e) => !settings_are_fit(*b) && settings_fault(e, *b),
        },
{
    let left_margin: u64 = match lisp::expect_margin_width(&b.left_margin_width) {
        Ok(n) => n,
        Err(e) => {
            return Err(e);
        },
    };
    let right_margin: u64 = match lisp::expect_margin_width(&b.right_margin_width) {
        Ok(n) => n,
        Err(e) => {
            return Err(e);
        },
    };
    let left_fringe: Option<i32> = match lisp::optional_dimension(&b.left_fringe_width) {
        Ok(n) => n,
        Err(e) => {
            return Err(e);
        },
    };
    let right_fringe: Option<i32> = match lisp::optional_dimension(&b.right_fringe_width) {
        Ok(n) => n,
        Err(e) => {
            return Err(e);
        },
    };
    if !valid_vertical_scroll_bar_type(&b.vertical_scroll_bar) {
        return Err(lisp::error("Invalid type of vertical scroll bar"));
    }
    if !valid_horizontal_scroll_bar_type(&b.horizontal_scroll_bar) {
        return Err(lisp::error("Invalid type of horizontal scroll bar"));
    }
    let width: Option<i32> = match lisp::optional_dimension(&b.scroll_bar_width) {
        Ok(n) => n,
        Err(e) => {
            return Err(e);
        },
    };
    let height: Option<i32> = match lisp::optional_dimension(&b.scroll_bar_height) {
        Ok(n) => n,
        Err(e) => {
            return Err(e);
        },
    };
    Ok(
        WindowBufferDisplayDefaults {
            left_margin: left_margin,
            right_margin: right_margin,
            left_fringe: left_fringe,
            right_fringe: right_fringe,
            fringes_outside_margins: !lisp::is_nil(&b.fringes_outside_margins),
            scroll_bar_width: width,
            vertical_scroll_bar: lisp::copy(&b.vertical_scroll_bar),
            scroll_bar_height: height,
            horizontal_scroll_bar: lisp::copy(&b.horizontal_scroll_bar),
        },
    )
}

/// The window that a buffer was put in, which stays as it was but for that.
pub open spec fn showing_window(
    new: Window,
    old_window: Window,
    b: Buffer,
    keep: bool,
    d: Option<WindowBufferDisplayDefaults>,
) -> bool {
    let same = old_window.buffer == b.id;
    &&& new == (Window {
        buffer: b.id,
        start: if same && keep {
            at_least_one(old_window.start)
        } else {
            at_least_one(b.last_window_start)
        },
        point: if same && keep {
            at_least_one(old_window.point)
        } else {
            at_least_one(b.point)
        },
        left_margin: match d {
            Some(x) => x.left_margin,
            None => old_window.left_margin,
        },
        right_margin: match d {
            Some(x) => x.right_margin,
            None => old_window.right_margin,
        },
        dedicated: new.dedicated,
        ..old_window
    })
    &&& if !same && !(old_window.dedicated@ is Nil) && !(old_window.dedicated@ is T) {
        new.dedicated@ is Nil
    } else {
        new.dedicated == old_window.dedicated
    }
}

/// The buffer that was put in a window: it was shown once more, and if the window is
/// the selected one of its frame, the buffer knows it.
pub open spec fn shown_once_more(c: Context, frame: u64, w: u64, b: Buffer) -> Buffer {
    Buffer {
        display_count: match b.display_count {
            Some(n) => Some(
                if n < i64::MAX {
                    (n + 1) as i64
                } else {
                    n
                },
            ),
            None => None,
        },
        last_selected_window: match c.frame(frame) {
            Some(f) => if f.selected_window == w {
                Some(w)
            } else {
                b.last_selected_window
            },
            None => b.last_selected_window,
        },
        ..b
    }
}

/// What is left to do once a window shows a buffer.
#[derive(Debug)]
pub struct WindowBufferSet {
    /// What the buffer says of its windows; `None` where the window's own settings are
    /// kept.
    pub defaults: Option<WindowBufferDisplayDefaults>,
    /// How the window is scrolled, and what is known of its end, is kept. Where it is not,
    /// whoever keeps the windows' display state starts it anew.
    pub keep_display_state: bool,
}

/// What the second half of `set-window-buffer` comes to.
pub open spec fn is_set_buffer_end(
    r: Result<WindowBufferSet, Signal>,
    a: Context,
    b: Context,
    s: SetWindowBuffer,
) -> bool {
    match window_state::buffer_place(a.buffers@, s.buffer) {
        None => b == a && (r matches Err(e) && lisp::is_error(
            e,
            "Attempt to display deleted buffer"@,
        )),
        Some(i) => {
            let buf = a.buffers@[i];
            if !s.keep_margins && !settings_are_fit(buf) {
                b == a && (r matches Err(e) && settings_fault(e, buf))
            } else {
                &&& r is Ok
                &&& r->Ok_0.defaults is None <==> s.keep_margins
                &&& r->Ok_0.defaults matches Some(x) ==> are_defaults(x, buf)
                &&& r->Ok_0.keep_display_state == (s.keep_margins && window_lists::shows(
                    a,
                    s.window,
                    s.buffer,
                ))
                &&& b == (Context { buffers: b.buffers, windows: b.windows, ..a })
                &&& b.buffers@ == a.buffers@.update(
                    i,
                    shown_once_more(a, s.frame, s.window, buf),
                )
                &&& match window_state::window_place(a.windows@, s.window) {
                    None => b.windows == a.windows,
                    Some(k) => if a.windows@[k].leaf {
                        &&& b.windows@.len() == a.windows@.len()
                        &&& b.windows@ == a.windows@.update(k, b.windows@[k])
                        &&& showing_window(
                            b.windows@[k],
                            a.windows@[k],
                            buf,
                            s.keep_margins,
                            r->Ok_0.defaults,
                        )
                    } else {
                        b.windows == a.windows
                    },
                }
            }
        },
    }
}

fn put_in_window(
    c: &mut Context,
    k: usize,
    i: usize,
    keep: bool,
    d: &Option<WindowBufferDisplayDefaults>,
)
    requires
        k < old(c).windows@.len(),
        i < old(c).buffers@.len(),
    ensures
        *final(c) == (Context { windows: final(c).windows, ..*old(c) }),
        final(c).windows@.len() == old(c).windows@.len(),
        final(c).windows@ == old(c).windows@.update(k as int, final(c).windows@[k as int]),
        showing_window(
            final(c).windows@[k as int],
            old(c).windows@[k as int],
            old(c).buffers@[i as int],
            keep,
            *d,
        ),
{
    let buffer: u64 = c.buffers[i].id;
    let same: bool = c.windows[k].buffer == buffer;
    let start: i64 = if same && keep {
        max_one(c.windows[k].start)
    } else {
        max_one(c.buffers[i].last_window_start)
    };
    let point: i64 = if same && keep {
        max_one(c.windows[k].point)
    } else {
        max_one(c.buffers[i].point)
    };
    let soft: bool = !same && !lisp::is_nil(&c.windows[k].dedicated) && !lisp::is_t(
        &c.windows[k].dedicated,
    );
    c.windows[k].buffer = buffer;
    c.windows[k].start = start;
    c.windows[k].point = point;
    match d {
        Some(x) => {
            c.windows[k].left_margin = x.left_margin;
            c.windows[k].right_margin = x.right_margin;
        },
        None => {},
    }
    if soft {
        c.windows[k].dedicated = Value::Nil;
    }
    proof {
        assert(c.windows@ =~= old(c).windows@.update(k as int, c.windows@[k as int]));
    }
}

/// The second half of `set-window-buffer`: the window shows the buffer.
pub fn finish_set_window_buffer(c: &mut Context, s: SetWindowBuffer) -> (r: Result<
    WindowBufferSet,
    Signal,
>)
    ensures
        is_set_buffer_end(r, *old(c), *final(c), s),
{
    let i: usize = match window_state::find_buffer(&c.buffers, s.buffer) {
        Some(i) => i,
        None => {
            return Err(lisp::error("Attempt to display deleted buffer"));
        },
    };
    let d: Option<WindowBufferDisplayDefaults> = if s.keep_margins {
        None
    } else {
        match buffer_display_defaults(&c.buffers[i]) {
            Ok(d) => Some(d),
            Err(e) => {
                return Err(e);
            },
        }
    };
    let is_selected: bool = match c.get_frame(s.frame) {
        Some(f) => f.selected_window == s.window,
        None => false,
    };
    let keep_display_state: bool = s.keep_margins && window_lists::window_displays_buffer(
        c,
        s.window,
        s.buffer,
    );
    match window_state::find_window(&c.windows, s.window) {
        Some(k) => {
            if c.windows[k].leaf {
                put_in_window(c, k, i, s.keep_margins, &d);
            }
        },
        None => {},
    }
    match c.buffers[i].display_count {
        Some(n) => {
            if n < 9_223_372_036_854_775_807 {
                c.buffers[i].display_count = Some(n + 1);
            }
        },
        None => {},
    }
    if is_selected {
        c.buffers[i].last_selected_window = Some(s.window);
    }
    proof {
        assert(c.buffers@[i as int] == shown_once_more(
            *old(c),
            s.frame,
            s.window,
            old(c).buffers@[i as int],
        ));
        assert(c.buffers@ =~= old(c).buffers@.update(i as int, c.buffers@[i as int]));
    }
    Ok(WindowBufferSet { defaults: d, keep_display_state: keep_display_state })
}

/// A window shows the buffer that it was given.
pub proof fn law_window_shows_what_it_is_given(
    r: Result<WindowBufferSet, Signal>,
    a: Context,
    b: Context,
    s: SetWindowBuffer,
)
    requires
        is_set_buffer_end(r, a, b, s),
        r is Ok,
        a.window(s.window) is Some,
        a.window(s.window)->0.leaf,
    ensures
        window_lists::shows(b, s.window, s.buffer),
{
    window_state::lemma_index_in(window_state::buffer_ids(a.buffers@), s.buffer);
    window_state::lemma_index_in(window_state::window_ids(a.windows@), s.window);
    let k = window_state::window_place(a.windows@, s.window)->0;
    assert(window_state::window_ids(b.windows@) =~= window_state::window_ids(a.windows@));
}

} // verus!
