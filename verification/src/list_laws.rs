//! What listing windows is for: every window is on the list once, in one order that goes
//! round, and what is looked for is found if it is there.
use vstd::prelude::*;

use crate::lisp;
use crate::lisp::{Condition, Datum, Signal, Value};
use crate::window_lists;
use crate::window_lists::AllFramesScope;
use crate::window_state;
use crate::window_state::{Context, Frame, Window, WindowPredicate};

verus! {

/// The windows of a frame that show something, without its minibuffer, in their order.
pub open spec fn windows_of(v: Seq<Window>, frame: u64) -> Seq<u64> {
    v.filter(|w: Window| w.frame == frame && w.leaf && !w.mini).map_values(|w: Window| w.id)
}

/// The ordinary windows of a frame are its windows.
pub proof fn lemma_windows_of(v: Seq<Window>, frame: u64)
    ensures
        window_lists::ordinary_windows(v, frame) == windows_of(v, frame),
    decreases v.len(),
{
    reveal(Seq::filter);
    let p = |w: Window| w.frame == frame && w.leaf && !w.mini;
    let f = |w: Window| w.id;
    if v.len() > 0 {
        lemma_windows_of(v.drop_last(), frame);
        let rest = v.drop_last().filter(p);
        if p(v.last()) {
            assert(rest.push(v.last()).map_values(f) =~= rest.map_values(f).push(v.last().id));
        }
    } else {
        assert(windows_of(v, frame) =~= Seq::<u64>::empty());
    }
}

proof fn lemma_listed(v: Seq<Window>, frame: u64, x: u64)
    ensures
        windows_of(v, frame).contains(x) <==> exists|i: int|
            0 <= i < v.len() && (#[trigger] v[i]).id == x && v[i].frame == frame && v[i].leaf
                && !v[i].mini,
    decreases v.len(),
{
    lemma_windows_of(v, frame);
    let all = windows_of(v, frame);
    if v.len() > 0 {
        let w = v.drop_last();
        lemma_listed(w, frame, x);
        lemma_windows_of(w, frame);
        let before = windows_of(w, frame);
        if all.contains(x) {
            let k = choose|k: int| 0 <= k < all.len() && all[k] == x;
            if k < before.len() {
                assert(before[k] == x);
                let i = choose|i: int|
                    0 <= i < w.len() && (#[trigger] w[i]).id == x && w[i].frame == frame
                        && w[i].leaf && !w[i].mini;
                assert(v[i] == w[i]);
            } else {
                assert(v[v.len() - 1] == v.last());
            }
        }
        if exists|i: int|
            0 <= i < v.len() && (#[trigger] v[i]).id == x && v[i].frame == frame && v[i].leaf
                && !v[i].mini {
            let i = choose|i: int|
                0 <= i < v.len() && (#[trigger] v[i]).id == x && v[i].frame == frame && v[i].leaf
                    && !v[i].mini;
            if i < w.len() {
                assert(w[i] == v[i]);
                let k = choose|k: int| 0 <= k < before.len() && before[k] == x;
                assert(all[k] == x);
            } else {
                assert(all[all.len() - 1] == x);
            }
        }
    }
}

/// The windows of a frame are those that show something there and are no minibuffer, and
/// they are listed in their order.
pub proof fn law_windows_of_a_frame(v: &Vec<Window>, frame: u64, r: Vec<u64>)
    requires
        call_ensures(window_lists::frame_window_list, (v, frame), r),
    ensures
        r@ == windows_of(v@, frame),
        forall|x: u64| #[trigger]
            r@.contains(x) <==> exists|i: int|
                0 <= i < v@.len() && (#[trigger] v@[i]).id == x && v@[i].frame == frame && v@[i].leaf
                    && !v@[i].mini,
{
    lemma_windows_of(v@, frame);
    assert forall|x: u64| #[trigger] r@.contains(x) <==> exists|i: int|
        0 <= i < v@.len() && (#[trigger] v@[i]).id == x && v@[i].frame == frame && v@[i].leaf
            && !v@[i].mini by {
        lemma_listed(v@, frame, x);
    }
}

/// A list that goes round another one, from a member of it.
pub open spec fn goes_round(r: Seq<u64>, s: Seq<u64>, from: u64) -> bool {
    exists|k: int|
        0 <= k < s.len() && s[k] == from && (forall|j: int| 0 <= j < k ==> s[j] != from) && r
            == #[trigger] s.subrange(k, s.len() as int) + s.subrange(0, k)
}

/// A list that begins at a member of it goes round.
pub proof fn lemma_begun_at(s: Seq<u64>, x: u64)
    ensures
        s.contains(x) ==> goes_round(window_lists::begun_at(s, x), s, x),
        !s.contains(x) ==> window_lists::begun_at(s, x) == s,
{
    window_state::lemma_index_in(s, x);
    if s.contains(x) {
        let i = window_state::index_in(s, x)->0;
        assert(window_lists::begun_at(s, x) == s.subrange(i, s.len() as int) + s.subrange(0, i));
    }
}

/// Windows as Lisp values.
pub open spec fn as_values(s: Seq<u64>) -> Seq<Datum> {
    Seq::new(s.len(), |i: int| Datum::Window(s[i]))
}

/// `(window-list)` of the selected frame: all of its windows, in the order that goes round
/// from the selected one. `(window-list nil t)`: and its minibuffer, at the end.
pub proof fn law_window_list(
    c: &mut Context,
    minibuf: Option<&Value>,
    r: Result<Value, Signal>,
)
    requires
        call_ensures(
            window_lists::builtin_window_list,
            (c, None::<&Value>, minibuf, None::<&Value>),
            r,
        ),
        old(c).selected() is Some,
        windows_of(old(c).windows@, old(c).selected()->0.id).contains(
            old(c).selected()->0.selected_window,
        ),
    ensures
        *final(c) == *old(c),
        r is Ok,
        ({
            let f = old(c).selected()->0;
            let all = minibuf is Some && minibuf->0@ is T && f.minibuffer_window is Some;
            exists|s: Seq<u64>| #[trigger]
                goes_round(s, windows_of(old(c).windows@, f.id), f.selected_window) && r->Ok_0@
                    == lisp::list_of(
                    as_values(
                        if all {
                            s.push(f.minibuffer_window->0)
                        } else {
                            s
                        },
                    ),
                )
        }),
{
    let f = old(c).selected()->0;
    lemma_windows_of(old(c).windows@, f.id);
    let list = windows_of(old(c).windows@, f.id);
    lemma_begun_at(list, f.selected_window);
    let s = window_lists::begun_at(list, f.selected_window);
    assert(goes_round(s, list, f.selected_window));
    let whole = window_lists::listed(
        *old(c),
        f,
        f.selected_window,
        lisp::given(minibuf) is T,
    );
    assert(window_lists::window_data(whole) =~= as_values(whole));
}

/// `(next-window WINDOW)` is the window that comes after it on the list of its frame, and
/// the first one after the last; `(previous-window WINDOW)` goes the other way. So one
/// undoes the other.
pub proof fn law_next_window_follows(
    c: &mut Context,
    window: &Value,
    r: Result<Value, Signal>,
    q: Result<Value, Signal>,
    d: &mut Context,
    back: &Value,
    p: Result<Value, Signal>,
    e: &mut Context,
    w: u64,
    i: int,
)
    requires
        call_ensures(window_lists::builtin_next_window, (c, Some(window)), r),
        call_ensures(window_lists::builtin_previous_window, (e, Some(window)), q),
        *old(d) == *old(c),
        *old(e) == *old(c),
        r is Ok ==> back@ == r->Ok_0@,
        call_ensures(window_lists::builtin_previous_window, (d, Some(back)), p),
        window@ == Datum::Window(w),
        old(c).window(w) is Some && old(c).window(w)->0.leaf,
        old(c).frame(old(c).window(w)->0.frame) is Some,
        window_state::window_ids(old(c).windows@).no_duplicates(),
        ({
            let s = windows_of(old(c).windows@, old(c).window(w)->0.frame);
            0 <= i < s.len() && s[i] == w && s.no_duplicates()
        }),
    ensures
        ({
            let s = windows_of(old(c).windows@, old(c).window(w)->0.frame);
            &&& *final(c) == *old(c)
            &&& r is Ok && r->Ok_0@ == Datum::Window(
                if i + 1 < s.len() {
                    s[i + 1]
                } else {
                    s[0]
                },
            )
            &&& q is Ok && q->Ok_0@ == Datum::Window(
                if i > 0 {
                    s[i - 1]
                } else {
                    s[s.len() - 1]
                },
            )
            &&& p is Ok && p->Ok_0@ == window@
        }),
{
    let a = *old(c);
    let f = a.window(w)->0.frame;
    let s = windows_of(a.windows@, f);
    lemma_windows_of(a.windows@, f);
    window_state::lemma_index_in(s, w);
    assert(window_state::window_target(a, window@, WindowPredicate::Live) == Some((f, w)));
    assert(window_lists::place_in(s, w) == i);
    let next = if i + 1 < s.len() {
        s[i + 1]
    } else {
        s[0]
    };
    assert(back@ == Datum::Window(next));
    let j = if i + 1 < s.len() {
        i + 1
    } else {
        0
    };
    assert(s[j] == next && s.contains(next));
    lemma_listed(a.windows@, f, next);
    let k = choose|k: int|
        0 <= k < a.windows@.len() && (#[trigger] a.windows@[k]).id == next && a.windows@[k].frame
            == f && a.windows@[k].leaf && !a.windows@[k].mini;
    let ids = window_state::window_ids(a.windows@);
    window_state::lemma_index_in(ids, next);
    assert(ids[k] == next);
    assert(ids.contains(next));
    assert(a.window(next) == Some(a.windows@[k]));
    window_state::lemma_index_in(s, next);
    assert(window_lists::place_in(s, next) == j);
    assert(window_state::window_target(a, back@, WindowPredicate::Live) == Some((f, next)));
}

/// `(other-window-for-scrolling)` is another window of the selected frame; where there is
/// but one, that is an error.
pub proof fn law_other_window_is_another(c: &mut Context, r: Result<Value, Signal>)
    requires
        call_ensures(window_lists::builtin_other_window_for_scrolling, (c,), r),
        old(c).selected() is Some,
        windows_of(old(c).windows@, old(c).selected()->0.id).no_duplicates(),
    ensures
        ({
            let f = old(c).selected()->0;
            let s = windows_of(old(c).windows@, f.id);
            &&& *final(c) == *old(c)
            &&& r is Ok <==> s.len() > 1
            &&& r is Ok ==> r->Ok_0@ is Window && s.contains((r->Ok_0@)->Window_0) && (r->Ok_0@)
                ->Window_0 != f.selected_window
            &&& r is Err ==> r->Err_0.condition == Condition::Error
        }),
{
    let f = old(c).selected()->0;
    let s = windows_of(old(c).windows@, f.id);
    lemma_windows_of(old(c).windows@, f.id);
    lemma_first_other(s, f.selected_window);
    if s.len() > 1 {
        assert(s[0] != s[1]);
    }
}

proof fn lemma_first_other(s: Seq<u64>, x: u64)
    ensures
        match window_lists::first_other(s, x) {
            Some(w) => s.contains(w) && w != x,
            None => forall|i: int| 0 <= i < s.len() ==> #[trigger] s[i] == x,
        },
    decreases s.len(),
{
    if s.len() > 0 && s[0] == x {
        let t = s.subrange(1, s.len() as int);
        lemma_first_other(t, x);
        match window_lists::first_other(t, x) {
            Some(w) => {
                let k = choose|k: int| 0 <= k < t.len() && t[k] == w;
                assert(s[k + 1] == w);
            },
            None => {
                assert forall|i: int| 0 <= i < s.len() implies #[trigger] s[i] == x by {
                    if i > 0 {
                        assert(t[i - 1] == s[i]);
                    }
                }
            },
        }
    } else if s.len() > 0 {
        assert(s.contains(s[0]));
    }
}

/// `(frame-first-window FRAME)` is the first window of the frame.
pub proof fn law_first_window(
    c: &mut Context,
    arg: &Value,
    r: Result<Value, Signal>,
    f: u64,
)
    requires
        call_ensures(window_lists::builtin_frame_first_window, (c, Some(arg)), r),
        arg@ == Datum::Frame(f),
    ensures
        *final(c) == *old(c),
        old(c).frame(f) is None ==> r is Err,
        old(c).frame(f) is Some ==> r is Ok && r->Ok_0@ == Datum::Window(
            if windows_of(old(c).windows@, f).len() > 0 {
                windows_of(old(c).windows@, f)[0]
            } else {
                old(c).frame(f)->0.selected_window
            },
        ),
{
    lemma_windows_of(old(c).windows@, f);
}

/// A frame belongs to a scope: the one that is asked from, any, a visible one, or the one
/// that is named.
pub open spec fn is_in_scope(c: Context, base: u64, scope: AllFramesScope, id: u64) -> bool {
    match scope {
        AllFramesScope::BaseFrame => id == base,
        AllFramesScope::AllFrames => exists|i: int|
            0 <= i < c.frames@.len() && (#[trigger] c.frames@[i]).id == id,
        AllFramesScope::VisibleFrames | AllFramesScope::VisibleOrIconifiedFrames => exists|i: int|
            0 <= i < c.frames@.len() && (#[trigger] c.frames@[i]).id == id && c.frames@[i].visible,
        AllFramesScope::SpecificFrame(f) => id == f,
    }
}

proof fn lemma_visible(v: Seq<Frame>, id: u64)
    ensures
        window_lists::visible_ids(v).contains(id) <==> exists|i: int|
            0 <= i < v.len() && (#[trigger] v[i]).id == id && v[i].visible,
    decreases v.len(),
{
    if v.len() > 0 {
        let w = v.drop_last();
        lemma_visible(w, id);
        let (all, before) = (window_lists::visible_ids(v), window_lists::visible_ids(w));
        if all.contains(id) {
            let k = choose|k: int| 0 <= k < all.len() && all[k] == id;
            if k < before.len() {
                assert(before[k] == id);
                let i = choose|i: int|
                    0 <= i < w.len() && (#[trigger] w[i]).id == id && w[i].visible;
                assert(v[i] == w[i]);
            } else {
                assert(v[v.len() - 1] == v.last());
            }
        }
        if exists|i: int| 0 <= i < v.len() && (#[trigger] v[i]).id == id && v[i].visible {
            let i = choose|i: int| 0 <= i < v.len() && (#[trigger] v[i]).id == id && v[i].visible;
            if i < w.len() {
                assert(w[i] == v[i]);
                let k = choose|k: int| 0 <= k < before.len() && before[k] == id;
                assert(all[k] == id);
            } else {
                assert(all[all.len() - 1] == id);
            }
        }
    }
}

proof fn lemma_in_multisets(s: Seq<u64>, t: Seq<u64>, x: u64)
    requires
        s.to_multiset() == t.to_multiset(),
    ensures
        s.contains(x) <==> t.contains(x),
{
    broadcast use vstd::seq_lib::group_to_multiset_ensures;

    assert(s.to_multiset().count(x) == t.to_multiset().count(x));
    assert(s.contains(x) <==> s.to_multiset().count(x) > 0);
    assert(t.contains(x) <==> t.to_multiset().count(x) > 0);
}

proof fn lemma_scope(c: Context, base: u64, scope: AllFramesScope, id: u64)
    ensures
        window_lists::scope_frames(c, base, scope).contains(id) <==> is_in_scope(
            c,
            base,
            scope,
            id,
        ),
{
    let members = window_lists::scope_members(c, base, scope);
    let sorted = window_lists::ascending(members);
    window_lists::law_ascending(members);
    window_lists::law_begun_at(sorted, base);
    lemma_in_multisets(sorted, members, id);
    lemma_in_multisets(window_lists::begun_at(sorted, base), sorted, id);
    lemma_visible(c.frames@, id);
    match scope {
        AllFramesScope::BaseFrame => {
            assert(seq![base].contains(id) <==> id == base) by {
                assert(seq![base][0] == base);
            }
        },
        AllFramesScope::SpecificFrame(f) => {
            assert(seq![f].contains(id) <==> id == f) by {
                assert(seq![f][0] == f);
            }
        },
        AllFramesScope::AllFrames => {
            let ids = window_state::frame_ids(c.frames@);
            if ids.contains(id) {
                let k = choose|k: int| 0 <= k < ids.len() && ids[k] == id;
                assert(c.frames@[k].id == id);
            }
            if is_in_scope(c, base, scope, id) {
                let k = choose|k: int|
                    0 <= k < c.frames@.len() && (#[trigger] c.frames@[k]).id == id;
                assert(ids[k] == id);
            }
        },
        _ => {},
    }
}

/// The frames of a scope: those that belong to it and no others, the one that is asked from
/// first where it is among them, and the others in ascending order from there on, round.
pub proof fn law_frames_of_a_scope(
    c: &Context,
    base: u64,
    scope: AllFramesScope,
    r: Vec<u64>,
)
    requires
        call_ensures(
            window_lists::frame_ids_for_all_frames_scope,
            (c, base, scope),
            r,
        ),
    ensures
        forall|id: u64| #[trigger] r@.contains(id) <==> is_in_scope(*c, base, scope, id),
        is_in_scope(*c, base, scope, base) ==> r@.len() > 0 && r@[0] == base,
        exists|s: Seq<u64>|
            {
                &&& forall|i: int, j: int| 0 <= i <= j < s.len() ==> s[i] <= s[j]
                &&& #[trigger] s.contains(base) ==> goes_round(r@, s, base)
                &&& !s.contains(base) ==> r@ == s
            },
{
    let members = window_lists::scope_members(*c, base, scope);
    let sorted = window_lists::ascending(members);
    window_lists::law_ascending(members);
    window_lists::law_begun_at(sorted, base);
    assert forall|id: u64| #[trigger] r@.contains(id) <==> is_in_scope(*c, base, scope, id) by {
        lemma_scope(*c, base, scope, id);
    }
    lemma_begun_at(sorted, base);
    lemma_in_multisets(r@, sorted, base);
    assert(sorted.contains(base) == sorted.contains(base));
}

/// What the argument for frames means: `t` all of them, `visible` and zero the visible ones,
/// a live frame that one, and anything else the frame that is asked from.
pub proof fn law_scope_argument(
    c: &Context,
    arg: Option<&Value>,
    r: Result<AllFramesScope, Signal>,
)
    requires
        call_ensures(window_lists::decode_all_frames_scope, (c, arg), r),
    ensures
        arg is None || arg->0@ is Nil ==> r == Ok::<AllFramesScope, Signal>(
            AllFramesScope::BaseFrame,
        ),
        arg is Some && arg->0@ is T ==> r == Ok::<AllFramesScope, Signal>(
            AllFramesScope::AllFrames,
        ),
        arg is Some && arg->0@ == Datum::Fixnum(0) ==> r == Ok::<AllFramesScope, Signal>(
            AllFramesScope::VisibleOrIconifiedFrames,
        ),
        arg is Some && arg->0@ == Datum::Symbol("visible"@) ==> r == Ok::<AllFramesScope, Signal>(
            AllFramesScope::VisibleFrames,
        ),
        arg is Some && arg->0@ is Frame ==> if c.frame((arg->0@)->Frame_0) is Some {
            r == Ok::<AllFramesScope, Signal>(AllFramesScope::SpecificFrame((arg->0@)->Frame_0))
        } else {
            r is Err && r->Err_0.condition == Condition::WrongTypeArgument
        },
        r is Err ==> arg is Some && arg->0@ is Frame,
{
    reveal_strlit("visible");
    reveal_strlit("nil");
    reveal_strlit("t");
    assert("visible"@.len() != "nil"@.len());
    assert("visible"@.len() != "t"@.len());
}

/// A window shows a buffer.
pub open spec fn shows(c: Context, w: u64, buffer: u64) -> bool {
    c.window(w) is Some && c.window(w)->0.leaf && c.window(w)->0.buffer == buffer
}

proof fn lemma_frames_showing(c: Context, ids: Seq<u64>, buffer: u64)
    ensures
        match window_lists::frames_window_showing(c, ids, buffer) {
            Some(w) => shows(c, w, buffer) && exists|i: int|
                0 <= i < ids.len() && c.frame(#[trigger] ids[i]) is Some && windows_of(
                    c.windows@,
                    ids[i],
                ).contains(w),
            None => forall|i: int, w: u64|
                0 <= i < ids.len() && c.frame(ids[i]) is Some && #[trigger] windows_of(
                    c.windows@,
                    ids[i],
                ).contains(w) ==> !shows(c, w, buffer),
        },
    decreases ids.len(),
{
    if ids.len() > 0 {
        let rest = ids.subrange(1, ids.len() as int);
        lemma_frames_showing(c, rest, buffer);
        lemma_windows_of(c.windows@, ids[0]);
        if c.frame(ids[0]) is Some {
            let own = windows_of(c.windows@, ids[0]);
            let list = window_lists::begun_at(own, c.frame(ids[0])->0.selected_window);
            window_lists::law_found_window_shows(c, list, buffer);
            window_lists::law_begun_at(own, c.frame(ids[0])->0.selected_window);
            assert forall|x: u64| #[trigger] own.contains(x) <==> list.contains(x) by {
                lemma_in_multisets(list, own, x);
            }
            if window_lists::frame_window_showing(c, ids[0], buffer) is None {
                assert forall|w: u64| #[trigger] own.contains(w) implies !shows(c, w, buffer) by {
                    assert(list.contains(w));
                    let k = choose|k: int| 0 <= k < list.len() && list[k] == w;
                    assert(!window_lists::shows(c, list[k], buffer));
                }
            } else {
                let w = window_lists::frame_window_showing(c, ids[0], buffer)->0;
                assert(list.contains(w));
                assert(own.contains(w));
            }
        }
        match window_lists::frames_window_showing(c, ids, buffer) {
            Some(w) => {
                if window_lists::frame_window_showing(c, ids[0], buffer) is None {
                    let i = choose|i: int|
                        0 <= i < rest.len() && c.frame(#[trigger] rest[i]) is Some && windows_of(
                            c.windows@,
                            rest[i],
                        ).contains(w);
                    assert(ids[i + 1] == rest[i]);
                } else {
                    assert(c.frame(ids[0]) is Some);
                }
            },
            None => {
                assert forall|i: int, w: u64|
                    0 <= i < ids.len() && c.frame(ids[i]) is Some && #[trigger] windows_of(
                        c.windows@,
                        ids[i],
                    ).contains(w) implies !shows(c, w, buffer) by {
                    if i > 0 {
                        assert(rest[i - 1] == ids[i]);
                        assert(windows_of(c.windows@, rest[i - 1]).contains(w));
                    }
                }
            },
        }
    }
}

/// `(get-buffer-window BUFFER ALL-FRAMES)`: a window that shows the buffer, on a frame that
/// belongs to what is asked for, if there is any; `nil` only where none does. The selected
/// window is preferred.
pub proof fn law_window_that_shows_a_buffer(
    c: &mut Context,
    buffer: &Value,
    all_frames: Option<&Value>,
    r: Result<Value, Signal>,
    scope: AllFramesScope,
    b: u64,
)
    requires
        call_ensures(
            window_lists::builtin_get_buffer_window,
            (c, Some(buffer), all_frames),
            r,
        ),
        call_ensures(
            window_lists::decode_all_frames_scope,
            (&*old(c), all_frames),
            Ok::<AllFramesScope, Signal>(scope),
        ),
        buffer@ == Datum::Buffer(b),
        old(c).buffer(b) is Some,
        old(c).selected() is Some,
    ensures
        ({
            let a = *old(c);
            let base = a.selected_frame->0;
            &&& *final(c) == a
            &&& r is Ok
            &&& r->Ok_0@ is Window || r->Ok_0@ is Nil
            &&& r->Ok_0@ is Window ==> {
                let w = (r->Ok_0@)->Window_0;
                &&& shows(a, w, b)
                &&& exists|f: u64| #[trigger]
                    is_in_scope(a, base, scope, f) && windows_of(a.windows@, f).contains(w)
            }
            &&& r->Ok_0@ is Nil ==> forall|f: u64, w: u64|
                is_in_scope(a, base, scope, f) && a.frame(f) is Some && #[trigger] windows_of(
                    a.windows@,
                    f,
                ).contains(w) ==> !shows(a, w, b)
            &&& {
                let s = a.selected()->0.selected_window;
                is_in_scope(a, base, scope, base) && windows_of(a.windows@, base).contains(s)
                    && shows(a, s, b) ==> r->Ok_0@ == Datum::Window(s)
            }
        }),
{
    let a = *old(c);
    let base = a.selected_frame->0;
    let ids = window_lists::scope_frames(a, base, scope);
    lemma_frames_showing(a, ids, b);
    match window_lists::frames_window_showing(a, ids, b) {
        Some(w) => {
            let i = choose|i: int|
                0 <= i < ids.len() && a.frame(#[trigger] ids[i]) is Some && windows_of(
                    a.windows@,
                    ids[i],
                ).contains(w);
            lemma_scope(a, base, scope, ids[i]);
            assert(ids.contains(ids[i]));
            assert(is_in_scope(a, base, scope, ids[i]));
        },
        None => {
            assert forall|f: u64, w: u64|
                is_in_scope(a, base, scope, f) && a.frame(f) is Some && #[trigger] windows_of(
                    a.windows@,
                    f,
                ).contains(w) implies !shows(a, w, b) by {
                lemma_scope(a, base, scope, f);
                let i = choose|i: int| 0 <= i < ids.len() && ids[i] == f;
                assert(windows_of(a.windows@, ids[i]).contains(w));
            }
        },
    }
    let s = a.selected()->0.selected_window;
    lemma_windows_of(a.windows@, base);
    if is_in_scope(a, base, scope, base) && windows_of(a.windows@, base).contains(s) && shows(
        a,
        s,
        b,
    ) {
        window_lists::law_selected_window_wins(a, base, b);
        let members = window_lists::scope_members(a, base, scope);
        let sorted = window_lists::ascending(members);
        lemma_scope(a, base, scope, base);
        window_lists::law_ascending(members);
        window_lists::law_begun_at(sorted, base);
        lemma_in_multisets(ids, sorted, base);
        assert(ids[0] == base);
    }
}

/// A buffer that is not there is shown nowhere, and what names no buffer is refused.
pub proof fn law_buffer_that_is_sought(
    c: &mut Context,
    buffer: &Value,
    r: Result<Value, Signal>,
)
    requires
        call_ensures(
            window_lists::builtin_get_buffer_window,
            (c, Some(buffer), None::<&Value>),
            r,
        ),
        old(c).selected() is Some,
    ensures
        *final(c) == *old(c),
        buffer@ is Buffer && old(c).buffer((buffer@)->Buffer_0) is None ==> r is Ok && r->Ok_0@
            is Nil,
        buffer@ is Fixnum || buffer@ is Symbol || buffer@ is T || buffer@ is Window ==> r is Err
            && r->Err_0.condition == Condition::WrongTypeArgument,
{
}

} // verus!
