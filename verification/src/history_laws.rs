//! What the history of a window is for: it holds where buffers were shown, the last one
//! first, each once, and nothing of those that are gone.
use vstd::prelude::*;

use crate::buffer_laws;
use crate::list_laws;
use crate::lisp;
use crate::lisp::{Condition, Datum, Signal, Value};
use crate::place_laws;
use crate::select_laws;
use crate::window_buffers;
use crate::window_buffers::{SetWindowBuffer, WindowBufferHistoryChange};
use crate::window_lists;
use crate::window_state;
use crate::window_state::{Context, Window};

verus! {

/// An entry of a history is about one of some buffers: it is a list that begins with it.
pub open spec fn is_about(d: Datum, gone: Seq<u64>) -> bool {
    &&& d is Pair && *d->Pair_0 is Buffer && gone.contains((*d->Pair_0)->Buffer_0)
    &&& lisp::list_items(d) is Some
}

proof fn lemma_is_about(d: Datum, gone: Seq<u64>)
    ensures
        window_buffers::entry_is_of(d, gone) == is_about(d, gone),
{
    reveal_with_fuel(lisp::list_items, 2);
    if d is Pair && lisp::list_items(d) is Some {
        let rest = lisp::list_items(*d->Pair_1)->0;
        assert((seq![*d->Pair_0] + rest)[0] == *d->Pair_0);
    }
}

/// The entries that are about none of some buffers, in their order.
pub open spec fn entries_besides(items: Seq<Datum>, gone: Seq<u64>) -> Seq<Datum> {
    items.filter(|d: Datum| !is_about(d, gone))
}

/// The items that are none of some buffers, in their order.
pub open spec fn buffers_besides(items: Seq<Datum>, gone: Seq<u64>) -> Seq<Datum> {
    items.filter(|d: Datum| !(d is Buffer && gone.contains(d->Buffer_0)))
}

proof fn lemma_entries(items: Seq<Datum>, gone: Seq<u64>)
    ensures
        window_buffers::prev_left(items, gone) == entries_besides(items, gone),
        window_buffers::next_left(items, gone) == buffers_besides(items, gone),
    decreases items.len(),
{
    reveal(Seq::filter);
    if items.len() > 0 {
        lemma_entries(items.drop_last(), gone);
        lemma_is_about(items.last(), gone);
    }
}

/// A history without some buffers holds the other entries, in their order.
pub proof fn law_history_without_buffers(
    prev: &Value,
    gone: &Vec<u64>,
    r: Result<Vec<Value>, Signal>,
    next: &Value,
    q: Result<Vec<Value>, Signal>,
)
    requires
        call_ensures(window_buffers::filtered_window_prev_buffers, (prev, gone), r),
        call_ensures(window_buffers::filtered_window_next_buffers, (next, gone), q),
    ensures
        r is Ok <==> lisp::list_items(prev@) is Some,
        q is Ok <==> lisp::list_items(next@) is Some,
        r is Ok ==> lisp::data((r->Ok_0)@) == entries_besides(
            lisp::list_items(prev@)->0,
            gone@,
        ),
        q is Ok ==> lisp::data((q->Ok_0)@) == buffers_besides(
            lisp::list_items(next@)->0,
            gone@,
        ),
{
    if r is Ok {
        lemma_entries(lisp::list_items(prev@)->0, gone@);
    }
    if q is Ok {
        lemma_entries(lisp::list_items(next@)->0, gone@);
    }
}

proof fn lemma_history(a: Context, b: Context, w: u64, prev: Datum, next: Datum)
    requires
        window_buffers::history_changed(a, b, w, prev, next),
        a.window(w) is Some,
    ensures
        place_laws::only_window_differs(a, b, w),
        b.window(w) is Some,
        b.window(w)->0 == (Window {
            prev_buffers: b.window(w)->0.prev_buffers,
            next_buffers: b.window(w)->0.next_buffers,
            ..a.window(w)->0
        }),
        b.window(w)->0.prev_buffers@ == prev,
        b.window(w)->0.next_buffers@ == next,
{
    let i = window_state::window_place(a.windows@, w)->0;
    window_state::lemma_index_in(window_state::window_ids(a.windows@), w);
    select_laws::lemma_one_window(a, b, i, w);
}

/// Buffers that are gone leave both histories of a window; nothing else of it changes, nor
/// any other window.
pub proof fn law_discarded_buffers(
    c: &mut Context,
    w: u64,
    gone: &Vec<u64>,
    r: Result<(), Signal>,
    p: Seq<Datum>,
    n: Seq<Datum>,
)
    requires
        call_ensures(window_buffers::discard_buffers_from_window_history, (c, w, gone), r),
        old(c).window(w) is Some,
        lisp::list_items(old(c).window(w)->0.prev_buffers@) == Some(p),
        lisp::list_items(old(c).window(w)->0.next_buffers@) == Some(n),
    ensures
        r is Ok,
        place_laws::only_window_differs(*old(c), *final(c), w),
        lisp::list_items(final(c).window(w)->0.prev_buffers@) == Some(entries_besides(p, gone@)),
        lisp::list_items(final(c).window(w)->0.next_buffers@) == Some(buffers_besides(n, gone@)),
        final(c).window(w)->0.buffer == old(c).window(w)->0.buffer,
{
    lemma_entries(p, gone@);
    lemma_entries(n, gone@);
    let (x, y) = (
        lisp::list_of(window_buffers::prev_left(p, gone@)),
        lisp::list_of(window_buffers::next_left(n, gone@)),
    );
    lemma_history(*old(c), *final(c), w, x, y);
    lisp::law_list_reads_back(window_buffers::prev_left(p, gone@));
    lisp::law_list_reads_back(window_buffers::next_left(n, gone@));
}

/// A change of buffers is recorded: the one that leaves comes first, with where it was
/// shown, unless its name begins with a space; neither of the two is anywhere else in the
/// history, and there is nothing to go forward to.
pub proof fn law_change_is_recorded(
    c: &mut Context,
    frame: u64,
    w: u64,
    change: WindowBufferHistoryChange,
    r: Result<bool, Signal>,
    p: Seq<Datum>,
)
    requires
        call_ensures(
            window_buffers::record_window_buffer_change_history,
            (c, frame, w, change),
            r,
        ),
        old(c).window(w) is Some,
        lisp::list_items(old(c).window(w)->0.prev_buffers@) == Some(p),
        old(c).frame(frame) is Some && old(c).frame(frame)->0.minibuffer_window != Some(w),
        old(c).buffer(change.outgoing_buffer_id) is Some,
    ensures
        ({
            let name = old(c).buffer(change.outgoing_buffer_id)->0.name@;
            let kept = entries_besides(
                p,
                seq![change.outgoing_buffer_id, change.incoming_buffer_id],
            );
            let entry = lisp::list_of(
                seq![
                    Datum::Buffer(change.outgoing_buffer_id),
                    Datum::Marker(
                        Some(change.outgoing_buffer_id),
                        Some(buffer_laws::position(change.outgoing_window_start)),
                    ),
                    Datum::Marker(
                        Some(change.outgoing_buffer_id),
                        Some(buffer_laws::position(change.outgoing_window_point)),
                    ),
                ],
            );
            let hidden = name.len() > 0 && name[0] == ' ';
            &&& r is Ok && (r->Ok_0 <==> !hidden)
            &&& place_laws::only_window_differs(*old(c), *final(c), w)
            &&& final(c).window(w)->0.next_buffers@ is Nil
            &&& !hidden ==> lisp::list_items(final(c).window(w)->0.prev_buffers@) == Some(
                seq![entry] + kept,
            )
            &&& hidden ==> lisp::list_items(final(c).window(w)->0.prev_buffers@) == Some(kept)
        }),
{
    let gone = seq![change.outgoing_buffer_id, change.incoming_buffer_id];
    let recorded = window_buffers::is_recorded(*old(c), frame, w, change.outgoing_buffer_id);
    lemma_entries(p, gone);
    let items = window_buffers::history_after(p, change, recorded);
    lemma_history(*old(c), *final(c), w, lisp::list_of(items), Datum::Nil);
    lisp::law_list_reads_back(items);
}

/// A buffer is recorded in the history of an ordinary window unless its name begins with a
/// space, and in that of a minibuffer where it is a minibuffer's.
pub proof fn law_recorded_buffers(c: &Context, frame: u64, w: u64, buffer: u64, r: bool, mini: bool)
    requires
        call_ensures(
            window_buffers::should_record_window_history_buffer,
            (c, frame, w, buffer),
            r,
        ),
        call_ensures(window_buffers::is_minibuffer_window, (c, frame, w), mini),
    ensures
        mini <==> c.frame(frame) is Some && c.frame(frame)->0.minibuffer_window == Some(w),
        mini ==> (r <==> c.minibuffer_buffers@.contains(buffer)),
        !mini && c.buffer(buffer) is None ==> !r,
        !mini && c.buffer(buffer) is Some ==> (r <==> {
            let name = c.buffer(buffer)->0.name@;
            name.len() == 0 || name[0] != ' '
        }),
{
}

/// A window that is dedicated to its buffer keeps it: showing another one is refused.
pub proof fn law_dedicated_window_keeps_its_buffer(
    c: &mut Context,
    window: &Value,
    buffer: &Value,
    keep: Option<&Value>,
    r: Result<SetWindowBuffer, Signal>,
    w: Window,
    next: u64,
)
    requires
        call_ensures(
            window_buffers::builtin_set_window_buffer,
            (c, window, buffer, keep),
            r,
        ),
        window@ == Datum::Window(w.id),
        buffer@ == Datum::Buffer(next),
        old(c).window(w.id) == Some(w),
        w.leaf,
        w.dedicated@ is T,
        w.buffer != next,
        old(c).selected() is Some,
        old(c).buffer(next) is Some,
    ensures
        *final(c) == *old(c),
        r is Err,
        r->Err_0.condition == Condition::Error,
{
}

/// A buffer that was deleted, or that is none, is not shown.
pub proof fn law_only_live_buffers_are_shown(
    c: &mut Context,
    window: &Value,
    buffer: &Value,
    keep: Option<&Value>,
    r: Result<SetWindowBuffer, Signal>,
    w: Window,
)
    requires
        call_ensures(
            window_buffers::builtin_set_window_buffer,
            (c, window, buffer, keep),
            r,
        ),
        window@ == Datum::Window(w.id),
        old(c).window(w.id) == Some(w),
        w.leaf,
        buffer@ is Fixnum || buffer@ is Nil || buffer@ is T || buffer@ is Frame || (buffer@ is Buffer
            && old(c).buffer((buffer@)->Buffer_0) is None),
    ensures
        r is Err,
        *final(c) == *old(c),
{
}

/// `(window-list-1)` of one frame, without minibuffers: the windows of the frame, each once,
/// beginning with the one that is asked for.
pub proof fn law_window_list_of_one_frame(
    c: &mut Context,
    window: &Value,
    minibuf: &Value,
    r: Result<Value, Signal>,
    w: u64,
)
    requires
        call_ensures(
            window_lists::builtin_window_list_1,
            (c, Some(window), Some(minibuf), None::<&Value>),
            r,
        ),
        window@ == Datum::Window(w),
        minibuf@ is Fixnum,
        old(c).selected() is Some,
        old(c).window(w) is Some && old(c).window(w)->0.leaf,
        old(c).frame(old(c).window(w)->0.frame) is Some,
        ({
            let s = list_laws::windows_of(old(c).windows@, old(c).window(w)->0.frame);
            s.contains(w) && s.no_duplicates()
        }),
    ensures
        *final(c) == *old(c),
        r is Ok,
        ({
            let s = list_laws::windows_of(old(c).windows@, old(c).window(w)->0.frame);
            exists|t: Seq<u64>| #[trigger]
                list_laws::goes_round(t, s, w) && r->Ok_0@ == lisp::list_of(
                    list_laws::as_values(t),
                )
        }),
{
    let a = *old(c);
    let f = a.window(w)->0.frame;
    let s = list_laws::windows_of(a.windows@, f);
    list_laws::lemma_windows_of(a.windows@, f);
    reveal_strlit("visible");
    reveal_strlit("nil");
    assert("visible"@.len() != "nil"@.len());
    assert(window_lists::scope_of(a, Datum::Nil) == Some(
        window_lists::AllFramesScope::BaseFrame,
    ));
    let one = seq![f];
    assert(one.drop_last() =~= Seq::<u64>::empty());
    reveal_with_fuel(window_lists::ascending, 2);
    assert(window_lists::ascending(one) =~= one) by {
        assert(window_lists::placed(Seq::<u64>::empty(), f) =~= one);
    }
    list_laws::lemma_begun_at(one, f);
    assert(one[0] == f);
    assert(one.contains(f));
    let k = choose|k: int|
        0 <= k < one.len() && one[k] == f && (forall|j: int| 0 <= j < k ==> one[j] != f)
            && window_lists::begun_at(one, f) == #[trigger] one.subrange(k, one.len() as int)
            + one.subrange(0, k);
    assert(window_lists::begun_at(one, f) =~= one);
    let t = window_lists::begun_at(s, w);
    list_laws::lemma_begun_at(s, w);
    lemma_round_is_once(t, s, w);
    lemma_with_new(t);
    reveal_with_fuel(window_lists::gathered, 2);
    let mode = window_lists::MinibufferListMode::Leave;
    assert(window_lists::gathered(a, one.drop_last(), f, w, mode) =~= Seq::<u64>::empty());
    assert(window_lists::gathered(a, one, f, w, mode) == window_lists::with_new(
        Seq::<u64>::empty(),
        t,
    ));
    assert(window_lists::window_data(t) =~= list_laws::as_values(t));
}

proof fn lemma_round_is_once(t: Seq<u64>, s: Seq<u64>, w: u64)
    requires
        list_laws::goes_round(t, s, w),
        s.no_duplicates(),
    ensures
        t.no_duplicates(),
{
    let k = choose|k: int|
        0 <= k < s.len() && s[k] == w && (forall|j: int| 0 <= j < k ==> s[j] != w) && t
            == #[trigger] s.subrange(k, s.len() as int) + s.subrange(0, k);
    let n = s.len() - k;
    assert forall|i: int, j: int| 0 <= i < j < t.len() implies t[i] != t[j] by {
        let x = if i < n {
            k + i
        } else {
            i - n
        };
        let y = if j < n {
            k + j
        } else {
            j - n
        };
        assert(t[i] == s[x] && t[j] == s[y]);
    }
}

proof fn lemma_with_new(t: Seq<u64>)
    requires
        t.no_duplicates(),
    ensures
        window_lists::with_new(Seq::<u64>::empty(), t) == t,
    decreases t.len(),
{
    if t.len() > 0 {
        let u = t.drop_last();
        assert(u.no_duplicates());
        lemma_with_new(u);
        if u.contains(t.last()) {
            let k = choose|k: int| 0 <= k < u.len() && u[k] == t.last();
            assert(t[k] == t[t.len() - 1]);
        }
        assert(u.push(t.last()) =~= t);
    } else {
        assert(t =~= Seq::<u64>::empty());
    }
}

} // verus!
