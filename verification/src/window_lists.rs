//! Which windows there are, in which order, on which frames.
use vstd::prelude::*;

use crate::lisp;
use crate::lisp::{Datum, Signal, Value};
use crate::window_state;
use crate::window_state::{Context, Frame, Window, WindowPredicate};

verus! {

/// The frames that a primitive looks at.
#[derive(Debug, Clone, Copy, PartialEq, Eq, Structural)]
pub enum AllFramesScope {
    BaseFrame,
    AllFrames,
    VisibleFrames,
    VisibleOrIconifiedFrames,
    SpecificFrame(u64),
}

/// The scope that an argument asks for; none where it is a frame that is gone.
pub open spec fn scope_of(c: Context, arg: Datum) -> Option<AllFramesScope> {
    if arg is T {
        Some(AllFramesScope::AllFrames)
    } else if lisp::is_symbol(arg, "visible"@) {
        Some(AllFramesScope::VisibleFrames)
    } else if arg == Datum::Fixnum(0) {
        Some(AllFramesScope::VisibleOrIconifiedFrames)
    } else {
        match arg {
            Datum::Frame(id) => if c.frame(id) is Some {
                Some(AllFramesScope::SpecificFrame(id))
            } else {
                None
            },
            _ => Some(AllFramesScope::BaseFrame),
        }
    }
}

/// Decodes an argument that says which frames to look at.
pub fn decode_all_frames_scope(c: &Context, arg: Option<&Value>) -> (r: Result<
    AllFramesScope,
    Signal,
>)
    ensures
        match scope_of(*c, lisp::given(arg)) {
            Some(s) => r == Ok::<AllFramesScope, Signal>(s),
            None => r matches Err(e) && lisp::is_wrong_type(
                e,
                "frame-live-p"@,
                lisp::given(arg),
            ),
        },
{
    proof {
        reveal_strlit("nil");
        reveal_strlit("t");
        reveal_strlit("visible");
        assert("nil"@.len() != "visible"@.len() && "t"@.len() != "visible"@.len());
    }
    let v: &Value = match arg {
        Some(v) => v,
        None => {
            return Ok(AllFramesScope::BaseFrame);
        },
    };
    if lisp::is_nil(v) {
        return Ok(AllFramesScope::BaseFrame);
    }
    if lisp::is_t(v) {
        return Ok(AllFramesScope::AllFrames);
    }
    if lisp::is_symbol_named(v, "visible") {
        return Ok(AllFramesScope::VisibleFrames);
    }
    match v {
        Value::Fixnum(n) => if *n == 0 {
            Ok(AllFramesScope::VisibleOrIconifiedFrames)
        } else {
            Ok(AllFramesScope::BaseFrame)
        },
        Value::Frame(id) => if c.get_frame(*id).is_some() {
            Ok(AllFramesScope::SpecificFrame(*id))
        } else {
            Err(lisp::wrong_type("frame-live-p", v))
        },
        _ => Ok(AllFramesScope::BaseFrame),
    }
}

/// A number put behind those that are not greater.
pub open spec fn placed(s: Seq<u64>, x: u64) -> Seq<u64>
    decreases s.len(),
{
    if s.len() == 0 || x < s[0] {
        seq![x] + s
    } else {
        seq![s[0]] + placed(s.subrange(1, s.len() as int), x)
    }
}

/// Numbers from the least to the greatest.
pub open spec fn ascending(s: Seq<u64>) -> Seq<u64>
    decreases s.len(),
{
    if s.len() == 0 {
        Seq::empty()
    } else {
        placed(ascending(s.drop_last()), s.last())
    }
}

pub open spec fn is_ascending(s: Seq<u64>) -> bool {
    forall|i: int, j: int| 0 <= i <= j < s.len() ==> s[i] <= s[j]
}

proof fn lemma_placed(s: Seq<u64>, x: u64, i: int)
    requires
        0 <= i <= s.len(),
        forall|k: int| 0 <= k < i ==> s[k] <= x,
        i < s.len() ==> x < s[i],
    ensures
        placed(s, x) == s.insert(i, x),
    decreases s.len(),
{
    if i == 0 {
        assert(seq![x] + s =~= s.insert(0, x));
    } else {
        let t = s.subrange(1, s.len() as int);
        assert forall|k: int| 0 <= k < i - 1 implies t[k] <= x by {
            assert(t[k] == s[k + 1]);
        }
        lemma_placed(t, x, i - 1);
        assert(seq![s[0]] + t.insert(i - 1, x) =~= s.insert(i, x));
    }
}

proof fn lemma_placed_ascends(s: Seq<u64>, x: u64)
    requires
        is_ascending(s),
    ensures
        is_ascending(placed(s, x)),
        placed(s, x).to_multiset() == s.to_multiset().insert(x),
        forall|y: u64| #[trigger] placed(s, x).contains(y) ==> y == x || s.contains(y),
    decreases s.len(),
{
    broadcast use vstd::seq_lib::group_to_multiset_ensures;

    if s.len() == 0 || x < s[0] {
        let r = seq![x] + s;
        assert forall|y: u64| #[trigger] r.contains(y) implies y == x || s.contains(y) by {
            let k = r.index_of(y);
            if k > 0 {
                assert(s[k - 1] == y);
            }
        }
        assert(r =~= Seq::<u64>::empty().push(x) + s);
        vstd::seq_lib::lemma_multiset_commutative(Seq::<u64>::empty().push(x), s);
        assert(Seq::<u64>::empty().push(x).to_multiset() =~= Seq::<u64>::empty().to_multiset().insert(
            x,
        ));
        assert(r.to_multiset() =~= s.to_multiset().insert(x));
    } else {
        let t = s.subrange(1, s.len() as int);
        let p = placed(t, x);
        assert forall|i: int, j: int| 0 <= i <= j < t.len() implies t[i] <= t[j] by {
            assert(t[i] == s[i + 1] && t[j] == s[j + 1]);
        }
        lemma_placed_ascends(t, x);
        let r = seq![s[0]] + p;
        assert forall|y: u64| #[trigger] r.contains(y) implies y == x || s.contains(y) by {
            let k = r.index_of(y);
            if k > 0 {
                assert(p[k - 1] == y);
                assert(p.contains(y));
                if y != x {
                    let m = t.index_of(y);
                    assert(s[m + 1] == y);
                }
            } else {
                assert(s[0] == y);
            }
        }
        assert forall|i: int, j: int| 0 <= i <= j < r.len() implies r[i] <= r[j] by {
            if i == 0 && j > 0 {
                assert(p.contains(p[j - 1]));
                if p[j - 1] != x {
                    let m = t.index_of(p[j - 1]);
                    assert(s[m + 1] == p[j - 1]);
                }
            }
        }
        let one = Seq::<u64>::empty().push(s[0]);
        assert(r =~= one + p);
        assert(s =~= one + t);
        vstd::seq_lib::lemma_multiset_commutative(one, p);
        vstd::seq_lib::lemma_multiset_commutative(one, t);
        assert(r.to_multiset() =~= s.to_multiset().insert(x));
    }
}

/// Putting numbers in order loses none and adds none.
pub proof fn law_ascending(s: Seq<u64>)
    ensures
        is_ascending(ascending(s)),
        ascending(s).to_multiset() == s.to_multiset(),
    decreases s.len(),
{
    broadcast use vstd::seq_lib::group_to_multiset_ensures;

    if s.len() == 0 {
        assert(s =~= Seq::empty());
    } else {
        law_ascending(s.drop_last());
        lemma_placed_ascends(ascending(s.drop_last()), s.last());
        assert(s =~= s.drop_last().push(s.last()));
    }
}

fn put_in_place(out: &mut Vec<u64>, x: u64)
    ensures
        is_ascending(old(out)@) ==> final(out)@ == placed(old(out)@, x),
{
    let mut i: usize = 0;
    while i < out.len() && out[i] <= x
        invariant
            i <= out.len(),
            out@ == old(out)@,
            forall|k: int| 0 <= k < i ==> out@[k] <= x,
        decreases out.len() - i,
    {
        i += 1;
    }
    proof {
        if is_ascending(old(out)@) {
            lemma_placed(out@, x, i as int);
        }
    }
    out.insert(i, x);
}

fn sort_ids(ids: &Vec<u64>) -> (r: Vec<u64>)
    ensures
        r@ == ascending(ids@),
{
    let mut out: Vec<u64> = Vec::new();
    let mut i: usize = 0;
    proof {
        assert(ids@.subrange(0, 0) =~= Seq::empty());
    }
    while i < ids.len()
        invariant
            i <= ids.len(),
            out@ == ascending(ids@.subrange(0, i as int)),
        decreases ids.len() - i,
    {
        proof {
            law_ascending(ids@.subrange(0, i as int));
            assert(ids@.subrange(0, i + 1).drop_last() =~= ids@.subrange(0, i as int));
        }
        put_in_place(&mut out, ids[i]);
        i += 1;
    }
    proof {
        assert(ids@.subrange(0, ids.len() as int) =~= ids@);
    }
    out
}

/// A run of numbers begun at one of them, where that one is there.
pub open spec fn begun_at(s: Seq<u64>, x: u64) -> Seq<u64> {
    match window_state::index_in(s, x) {
        Some(i) => s.subrange(i, s.len() as int) + s.subrange(0, i),
        None => s,
    }
}

/// Beginning a list at one of its windows loses none and adds none, and that window
/// comes first.
pub proof fn law_begun_at(s: Seq<u64>, x: u64)
    ensures
        begun_at(s, x).to_multiset() == s.to_multiset(),
        s.contains(x) ==> begun_at(s, x).len() > 0 && begun_at(s, x)[0] == x,
{
    window_state::lemma_index_in(s, x);
    match window_state::index_in(s, x) {
        Some(i) => {
            let a = s.subrange(0, i);
            let b = s.subrange(i, s.len() as int);
            assert(a + b =~= s);
            vstd::seq_lib::lemma_multiset_commutative(a, b);
            vstd::seq_lib::lemma_multiset_commutative(b, a);
            assert((b + a).to_multiset() =~= s.to_multiset());
        },
        None => {},
    }
}

fn begin_at(ids: &Vec<u64>, x: u64) -> (r: Vec<u64>)
    ensures
        r@ == begun_at(ids@, x),
{
    let n: usize = ids.len();
    let start: usize = match window_state::position(ids, x) {
        Some(i) => i,
        None => 0,
    };
    let mut out: Vec<u64> = Vec::new();
    let mut i: usize = start;
    while i < n
        invariant
            start <= i <= n,
            n == ids.len(),
            out@ == ids@.subrange(start as int, i as int),
        decreases n - i,
    {
        proof {
            assert(ids@.subrange(start as int, i + 1) =~= ids@.subrange(
                start as int,
                i as int,
            ).push(ids@[i as int]));
        }
        out.push(ids[i]);
        i += 1;
    }
    let ghost first = out@;
    let mut j: usize = 0;
    while j < start
        invariant
            j <= start <= n,
            n == ids.len(),
            out@ == first + ids@.subrange(0, j as int),
        decreases start - j,
    {
        proof {
            assert(first + ids@.subrange(0, j + 1) =~= (first + ids@.subrange(0, j as int)).push(
                ids@[j as int],
            ));
        }
        out.push(ids[j]);
        j += 1;
    }
    proof {
        assert(ids@.subrange(0, n as int) =~= ids@);
        assert(out@ =~= begun_at(ids@, x));
    }
    out
}

/// The frames that are visible.
pub open spec fn visible_ids(v: Seq<Frame>) -> Seq<u64>
    decreases v.len(),
{
    if v.len() == 0 {
        Seq::empty()
    } else if v.last().visible {
        visible_ids(v.drop_last()).push(v.last().id)
    } else {
        visible_ids(v.drop_last())
    }
}

fn list_visible(v: &Vec<Frame>) -> (r: Vec<u64>)
    ensures
        r@ == visible_ids(v@),
{
    let mut out: Vec<u64> = Vec::new();
    let mut i: usize = 0;
    proof {
        assert(v@.subrange(0, 0) =~= Seq::empty());
    }
    while i < v.len()
        invariant
            i <= v.len(),
            out@ == visible_ids(v@.subrange(0, i as int)),
        decreases v.len() - i,
    {
        proof {
            assert(v@.subrange(0, i + 1).drop_last() =~= v@.subrange(0, i as int));
        }
        if v[i].visible {
            out.push(v[i].id);
        }
        i += 1;
    }
    proof {
        assert(v@.subrange(0, v.len() as int) =~= v@);
    }
    out
}

pub fn frame_list(v: &Vec<Frame>) -> (r: Vec<u64>)
    ensures
        r@ == window_state::frame_ids(v@),
{
    let mut out: Vec<u64> = Vec::new();
    let mut i: usize = 0;
    while i < v.len()
        invariant
            i <= v.len(),
            out@ == window_state::frame_ids(v@.subrange(0, i as int)),
        decreases v.len() - i,
    {
        proof {
            assert(window_state::frame_ids(v@.subrange(0, i + 1)) =~= window_state::frame_ids(
                v@.subrange(0, i as int),
            ).push(v@[i as int].id));
        }
        out.push(v[i].id);
        i += 1;
    }
    proof {
        assert(v@.subrange(0, v.len() as int) =~= v@);
    }
    out
}

/// The frames of a scope.
pub open spec fn scope_members(c: Context, base: u64, scope: AllFramesScope) -> Seq<u64> {
    match scope {
        AllFramesScope::BaseFrame => seq![base],
        AllFramesScope::AllFrames => window_state::frame_ids(c.frames@),
        AllFramesScope::VisibleFrames => visible_ids(c.frames@),
        AllFramesScope::VisibleOrIconifiedFrames => visible_ids(c.frames@),
        AllFramesScope::SpecificFrame(id) => seq![id],
    }
}

/// The frames of a scope by their numbers, begun at the base frame.
pub open spec fn scope_frames(c: Context, base: u64, scope: AllFramesScope) -> Seq<u64> {
    begun_at(ascending(scope_members(c, base, scope)), base)
}

pub fn frame_ids_for_all_frames_scope(c: &Context, base: u64, scope: AllFramesScope) -> (r: Vec<
    u64,
>)
    ensures
        r@ == scope_frames(*c, base, scope),
{
    let members: Vec<u64> = match scope {
        AllFramesScope::BaseFrame => {
            let mut one: Vec<u64> = Vec::new();
            one.push(base);
            one
        },
        AllFramesScope::AllFrames => frame_list(&c.frames),
        AllFramesScope::VisibleFrames => list_visible(&c.frames),
        AllFramesScope::VisibleOrIconifiedFrames => list_visible(&c.frames),
        AllFramesScope::SpecificFrame(id) => {
            let mut one: Vec<u64> = Vec::new();
            one.push(id);
            one
        },
    };
    proof {
        assert(members@ =~= scope_members(*c, base, scope));
    }
    begin_at(&sort_ids(&members), base)
}

/// The windows of a frame's tree that show buffers, in the order of the tree. The
/// minibuffer is not among them.
pub open spec fn ordinary_windows(v: Seq<Window>, frame: u64) -> Seq<u64>
    decreases v.len(),
{
    if v.len() == 0 {
        Seq::empty()
    } else if v.last().frame == frame && v.last().leaf && !v.last().mini {
        ordinary_windows(v.drop_last(), frame).push(v.last().id)
    } else {
        ordinary_windows(v.drop_last(), frame)
    }
}

pub fn frame_window_list(v: &Vec<Window>, frame: u64) -> (r: Vec<u64>)
    ensures
        r@ == ordinary_windows(v@, frame),
{
    let mut out: Vec<u64> = Vec::new();
    let mut i: usize = 0;
    proof {
        assert(v@.subrange(0, 0) =~= Seq::empty());
    }
    while i < v.len()
        invariant
            i <= v.len(),
            out@ == ordinary_windows(v@.subrange(0, i as int), frame),
        decreases v.len() - i,
    {
        proof {
            assert(v@.subrange(0, i + 1).drop_last() =~= v@.subrange(0, i as int));
        }
        if v[i].frame == frame && v[i].leaf && !v[i].mini {
            out.push(v[i].id);
        }
        i += 1;
    }
    proof {
        assert(v@.subrange(0, v.len() as int) =~= v@);
    }
    out
}

pub open spec fn window_data(s: Seq<u64>) -> Seq<Datum> {
    Seq::new(s.len(), |i: int| Datum::Window(s[i]))
}

/// The list of windows of these numbers.
fn windows_value(ids: &Vec<u64>) -> (r: Value)
    ensures
        r@ == lisp::list_of(window_data(ids@)),
{
    let mut items: Vec<Value> = Vec::new();
    let mut i: usize = 0;
    while i < ids.len()
        invariant
            i <= ids.len(),
            lisp::data(items@) == window_data(ids@.subrange(0, i as int)),
        decreases ids.len() - i,
    {
        let w: Value = Value::Window(ids[i]);
        proof {
            lisp::lemma_data_push(items@, w);
            assert(window_data(ids@.subrange(0, i + 1)) =~= window_data(
                ids@.subrange(0, i as int),
            ).push(Datum::Window(ids@[i as int])));
        }
        items.push(w);
        i += 1;
    }
    proof {
        assert(ids@.subrange(0, ids.len() as int) =~= ids@);
    }
    lisp::list(items)
}

/// What the window argument of `window-list` comes to: the window that the list begins
/// at, or what the argument is not.
pub open spec fn list_start(c: Context, arg: Datum) -> Result<Option<u64>, Seq<char>> {
    if arg is Nil {
        Ok(None)
    } else {
        match lisp::window_named(arg) {
            Some(w) => if c.live_frame(w) is Some {
                Ok(Some(w))
            } else if c.is_window(w) {
                Err("window-live-p"@)
            } else {
                Err("windowp"@)
            },
            None => Err("windowp"@),
        }
    }
}

/// The windows of a frame begun at one of them; `with_mini` adds its minibuffer's.
pub open spec fn listed(c: Context, f: Frame, start: u64, with_mini: bool) -> Seq<u64> {
    let all = begun_at(ordinary_windows(c.windows@, f.id), start);
    if with_mini && f.minibuffer_window is Some {
        all.push(f.minibuffer_window->0)
    } else {
        all
    }
}

/// What `window-list` comes to.
pub open spec fn is_window_list(
    r: Result<Value, Signal>,
    c: Context,
    frame: Datum,
    minibuf: Datum,
    window: Datum,
) -> bool {
    match list_start(c, window) {
        Err(pred) => r matches Err(e) && lisp::is_wrong_type(e, pred, window),
        Ok(start) => match window_state::frame_target(c, frame) {
            None => r matches Err(e) && lisp::is_error(e, "Window is on a different frame"@),
            Some(id) => {
                let f = c.frame(id)->0;
                match start {
                    Some(w) => if c.live_frame(w) == Some(id) {
                        r matches Ok(v) && v@ == lisp::list_of(
                            window_data(listed(c, f, w, minibuf is T)),
                        )
                    } else {
                        r matches Err(e) && lisp::is_error(e, "Window is on a different frame"@)
                    },
                    None => r matches Ok(v) && v@ == lisp::list_of(
                        window_data(listed(c, f, f.selected_window, minibuf is T)),
                    ),
                }
            },
        },
    }
}

fn list_windows(c: &Context, f: &Frame, start: u64, with_mini: bool) -> (r: Value)
    ensures
        r@ == lisp::list_of(window_data(listed(*c, *f, start, with_mini))),
{
    let mut ids: Vec<u64> = begin_at(&frame_window_list(&c.windows, f.id), start);
    if with_mini {
        match f.minibuffer_window {
            Some(m) => {
                ids.push(m);
            },
            None => {},
        }
    }
    windows_value(&ids)
}

/// `(window-list FRAME MINIBUF WINDOW)`: the windows of a frame, begun at a window.
/// The window is looked at before the frame.
pub fn builtin_window_list(
    c: &mut Context,
    frame: Option<&Value>,
    minibuf: Option<&Value>,
    window: Option<&Value>,
) -> (r: Result<Value, Signal>)
    requires
        old(c).has_room(),
    ensures
        window_state::ensured(*old(c), *final(c)),
        is_window_list(r, *final(c), lisp::given(frame), lisp::given(minibuf), lisp::given(window)),
{
    let selected: u64 = window_state::ensure_selected_frame_id(c);
    let start: Option<u64> = match window {
        None => None,
        Some(v) => if lisp::is_nil(v) {
            None
        } else {
            match lisp::window_id_from_designator(v) {
                Some(w) => if c.find_window_frame_id(w).is_some() {
                    Some(w)
                } else if c.is_window_object_id(w) {
                    return Err(lisp::wrong_type("window-live-p", v));
                } else {
                    return Err(lisp::wrong_type("windowp", v));
                },
                None => {
                    return Err(lisp::wrong_type("windowp", v));
                },
            }
        },
    };
    let id: u64 = match frame {
        None => selected,
        Some(v) => match v {
            Value::Nil => selected,
            Value::Fixnum(n) => *n as u64,
            Value::Frame(id) => *id,
            _ => {
                return Err(lisp::error("Window is on a different frame"));
            },
        },
    };
    let with_mini: bool = match minibuf {
        Some(v) => lisp::is_t(v),
        None => false,
    };
    proof {
        window_state::lemma_index_in(window_state::frame_ids(c.frames@), id);
    }
    match c.get_frame(id) {
        None => Err(lisp::error("Window is on a different frame")),
        Some(f) => match start {
            Some(w) => match c.find_window_frame_id(w) {
                Some(on) => if on == id {
                    Ok(list_windows(c, f, w, with_mini))
                } else {
                    Err(lisp::error("Window is on a different frame"))
                },
                None => Err(lisp::error("Window is on a different frame")),
            },
            None => Ok(list_windows(c, f, f.selected_window, with_mini)),
        },
    }
}

/// Which minibuffers a list of windows holds.
#[derive(Debug, Clone, Copy, PartialEq, Eq, Structural)]
pub enum MinibufferListMode {
    Leave,
    Active(u64),
    All,
}

/// The minibuffers that an argument asks for: all for `t`, none for anything else that
/// is given, and the active one where it is left out.
pub open spec fn mini_mode(arg: Datum, active: Option<u64>) -> MinibufferListMode {
    match arg {
        Datum::T => MinibufferListMode::All,
        Datum::Nil => match active {
            Some(w) => MinibufferListMode::Active(w),
            None => MinibufferListMode::Leave,
        },
        _ => MinibufferListMode::Leave,
    }
}

/// Numbers behind others, without those that are there already.
pub open spec fn with_new(acc: Seq<u64>, more: Seq<u64>) -> Seq<u64>
    decreases more.len(),
{
    if more.len() == 0 {
        acc
    } else {
        let before = with_new(acc, more.drop_last());
        if before.contains(more.last()) {
            before
        } else {
            before.push(more.last())
        }
    }
}

pub open spec fn no_repeats(s: Seq<u64>) -> bool {
    forall|i: int, j: int| 0 <= i < j < s.len() ==> s[i] != s[j]
}

proof fn lemma_with_new(acc: Seq<u64>, more: Seq<u64>)
    requires
        no_repeats(acc),
    ensures
        no_repeats(with_new(acc, more)),
    decreases more.len(),
{
    if more.len() > 0 {
        lemma_with_new(acc, more.drop_last());
    }
}

fn add_new(acc: &mut Vec<u64>, more: &Vec<u64>)
    ensures
        final(acc)@ == with_new(old(acc)@, more@),
{
    let mut i: usize = 0;
    proof {
        assert(more@.subrange(0, 0) =~= Seq::empty());
    }
    while i < more.len()
        invariant
            i <= more.len(),
            acc@ == with_new(old(acc)@, more@.subrange(0, i as int)),
        decreases more.len() - i,
    {
        proof {
            assert(more@.subrange(0, i + 1).drop_last() =~= more@.subrange(0, i as int));
            window_state::lemma_index_in(acc@, more@[i as int]);
        }
        if window_state::position(acc, more[i]).is_none() {
            acc.push(more[i]);
        }
        i += 1;
    }
    proof {
        assert(more@.subrange(0, more.len() as int) =~= more@);
    }
}

/// What one frame adds to the list: its windows, begun at `start` on the base frame,
/// and its minibuffer.
pub open spec fn frame_share(
    c: Context,
    id: u64,
    base: u64,
    start: u64,
    mode: MinibufferListMode,
) -> Seq<u64> {
    match c.frame(id) {
        None => Seq::empty(),
        Some(f) => {
            let own = ordinary_windows(c.windows@, id);
            let all = if id == base {
                begun_at(own, start)
            } else {
                own
            };
            match mode {
                MinibufferListMode::Leave => all,
                MinibufferListMode::Active(w) => if f.minibuffer_window == Some(w) {
                    all.push(w)
                } else {
                    all
                },
                MinibufferListMode::All => match f.minibuffer_window {
                    Some(w) => all.push(w),
                    None => all,
                },
            }
        },
    }
}

fn share_of_frame(c: &Context, id: u64, base: u64, start: u64, mode: MinibufferListMode) -> (r: Vec<
    u64,
>)
    ensures
        r@ == frame_share(*c, id, base, start, mode),
{
    let f: &Frame = match c.get_frame(id) {
        Some(f) => f,
        None => {
            let none: Vec<u64> = Vec::new();
            proof {
                assert(none@ =~= Seq::empty());
            }
            return none;
        },
    };
    let own: Vec<u64> = frame_window_list(&c.windows, id);
    let mut all: Vec<u64> = if id == base {
        begin_at(&own, start)
    } else {
        own
    };
    match mode {
        MinibufferListMode::Leave => {},
        MinibufferListMode::Active(w) => match f.minibuffer_window {
            Some(m) => {
                if m == w {
                    all.push(w);
                }
            },
            None => {},
        },
        MinibufferListMode::All => match f.minibuffer_window {
            Some(m) => {
                all.push(m);
            },
            None => {},
        },
    }
    all
}

/// The windows of several frames, none of them twice.
pub open spec fn gathered(
    c: Context,
    ids: Seq<u64>,
    base: u64,
    start: u64,
    mode: MinibufferListMode,
) -> Seq<u64>
    decreases ids.len(),
{
    if ids.len() == 0 {
        Seq::empty()
    } else {
        with_new(
            gathered(c, ids.drop_last(), base, start, mode),
            frame_share(c, ids.last(), base, start, mode),
        )
    }
}

/// No window is listed twice.
pub proof fn law_gathered_once(
    c: Context,
    ids: Seq<u64>,
    base: u64,
    start: u64,
    mode: MinibufferListMode,
)
    ensures
        no_repeats(gathered(c, ids, base, start, mode)),
    decreases ids.len(),
{
    if ids.len() > 0 {
        law_gathered_once(c, ids.drop_last(), base, start, mode);
        lemma_with_new(
            gathered(c, ids.drop_last(), base, start, mode),
            frame_share(c, ids.last(), base, start, mode),
        );
    }
}

fn gather(c: &Context, ids: &Vec<u64>, base: u64, start: u64, mode: MinibufferListMode) -> (r: Vec<
    u64,
>)
    ensures
        r@ == gathered(*c, ids@, base, start, mode),
{
    let mut out: Vec<u64> = Vec::new();
    let mut i: usize = 0;
    proof {
        assert(ids@.subrange(0, 0) =~= Seq::empty());
        assert(out@ =~= Seq::empty());
    }
    while i < ids.len()
        invariant
            i <= ids.len(),
            out@ == gathered(*c, ids@.subrange(0, i as int), base, start, mode),
        decreases ids.len() - i,
    {
        proof {
            assert(ids@.subrange(0, i + 1).drop_last() =~= ids@.subrange(0, i as int));
        }
        let share: Vec<u64> = share_of_frame(c, ids[i], base, start, mode);
        add_new(&mut out, &share);
        i += 1;
    }
    proof {
        assert(ids@.subrange(0, ids.len() as int) =~= ids@);
    }
    out
}

/// The frame and the window that `window-list-1` begins at. A number is no window here.
pub open spec fn list_1_start(c: Context, arg: Datum) -> Option<(u64, u64)> {
    match arg {
        Datum::Nil => window_state::window_target(c, arg, WindowPredicate::Live),
        Datum::Window(w) => match c.live_frame(w) {
            Some(f) => Some((f, w)),
            None => None,
        },
        _ => None,
    }
}

/// The frames that `window-list-1` walks: those of the scope, or the base frame where
/// the scope is empty.
pub open spec fn walked_frames(c: Context, base: u64, scope: AllFramesScope) -> Seq<u64> {
    let ids = scope_frames(c, base, scope);
    if ids.len() == 0 {
        seq![base]
    } else {
        ids
    }
}

/// What `window-list-1` comes to.
pub open spec fn is_window_list_1(
    r: Result<Value, Signal>,
    c: Context,
    window: Datum,
    minibuf: Datum,
    all_frames: Datum,
) -> bool {
    match list_1_start(c, window) {
        None => r matches Err(e) && lisp::is_wrong_type(e, "window-live-p"@, window),
        Some((base, start)) => match scope_of(c, all_frames) {
            None => r matches Err(e) && lisp::is_wrong_type(e, "frame-live-p"@, all_frames),
            Some(scope) => r matches Ok(v) && v@ == lisp::list_of(
                window_data(
                    gathered(
                        c,
                        walked_frames(c, base, scope),
                        base,
                        start,
                        mini_mode(minibuf, c.active_minibuffer),
                    ),
                ),
            ),
        },
    }
}

/// `(window-list-1 WINDOW MINIBUF ALL-FRAMES)`: the live windows of the frames that
/// are asked for, begun at a window.
pub fn builtin_window_list_1(
    c: &mut Context,
    window: Option<&Value>,
    minibuf: Option<&Value>,
    all_frames: Option<&Value>,
) -> (r: Result<Value, Signal>)
    requires
        old(c).has_room(),
    ensures
        window_state::ensured(*old(c), *final(c)),
        is_window_list_1(
            r,
            *final(c),
            lisp::given(window),
            lisp::given(minibuf),
            lisp::given(all_frames),
        ),
{
    let _ = window_state::ensure_selected_frame_id(c);
    let begin: (u64, u64) = match window {
        Some(v) => match v {
            Value::Nil => match c.get_selected_frame() {
                Some(f) => (c.selected_frame.unwrap(), f.selected_window),
                None => {
                    return Err(lisp::wrong_type("window-live-p", v));
                },
            },
            Value::Window(w) => match c.find_window_frame_id(*w) {
                Some(f) => (f, *w),
                None => {
                    return Err(lisp::wrong_type("window-live-p", v));
                },
            },
            _ => {
                return Err(lisp::wrong_type("window-live-p", v));
            },
        },
        None => match c.get_selected_frame() {
            Some(f) => (c.selected_frame.unwrap(), f.selected_window),
            None => {
                return Err(lisp::wrong_type("window-live-p", &Value::Nil));
            },
        },
    };
    let scope: AllFramesScope = match decode_all_frames_scope(c, all_frames) {
        Ok(s) => s,
        Err(e) => {
            return Err(e);
        },
    };
    let mut ids: Vec<u64> = frame_ids_for_all_frames_scope(c, begin.0, scope);
    if ids.len() == 0 {
        ids.push(begin.0);
    }
    proof {
        assert(ids@ =~= walked_frames(*c, begin.0, scope));
    }
    let open_mode: MinibufferListMode = match c.active_minibuffer {
        Some(w) => MinibufferListMode::Active(w),
        None => MinibufferListMode::Leave,
    };
    let mode: MinibufferListMode = match minibuf {
        Some(v) => match v {
            Value::T => MinibufferListMode::All,
            Value::Nil => open_mode,
            _ => MinibufferListMode::Leave,
        },
        None => open_mode,
    };
    Ok(windows_value(&gather(c, &ids, begin.0, begin.1, mode)))
}

/// The first of some windows that shows a buffer.
pub open spec fn first_showing(c: Context, ids: Seq<u64>, buffer: u64) -> Option<u64>
    decreases ids.len(),
{
    if ids.len() == 0 {
        None
    } else if shows(c, ids[0], buffer) {
        Some(ids[0])
    } else {
        first_showing(c, ids.subrange(1, ids.len() as int), buffer)
    }
}

pub open spec fn shows(c: Context, w: u64, buffer: u64) -> bool {
    match c.window(w) {
        Some(win) => win.leaf && win.buffer == buffer,
        None => false,
    }
}

pub fn window_displays_buffer(c: &Context, w: u64, buffer: u64) -> (r: bool)
    ensures
        r == shows(*c, w, buffer),
{
    match c.get_window(w) {
        Some(win) => win.leaf && win.buffer == buffer,
        None => false,
    }
}

fn find_showing(c: &Context, ids: &Vec<u64>, buffer: u64) -> (r: Option<u64>)
    ensures
        r == first_showing(*c, ids@, buffer),
{
    let mut i: usize = 0;
    proof {
        assert(ids@.subrange(0, ids.len() as int) =~= ids@);
    }
    while i < ids.len()
        invariant
            i <= ids.len(),
            first_showing(*c, ids@, buffer) == first_showing(
                *c,
                ids@.subrange(i as int, ids.len() as int),
                buffer,
            ),
        decreases ids.len() - i,
    {
        let ghost rest = ids@.subrange(i as int, ids.len() as int);
        proof {
            assert(rest.subrange(1, rest.len() as int) =~= ids@.subrange(
                i + 1,
                ids.len() as int,
            ));
        }
        if window_displays_buffer(c, ids[i], buffer) {
            return Some(ids[i]);
        }
        i += 1;
    }
    None
}

/// The window of a frame that shows a buffer: the selected one, if it does.
pub open spec fn frame_window_showing(c: Context, id: u64, buffer: u64) -> Option<u64> {
    match c.frame(id) {
        Some(f) => first_showing(
            c,
            begun_at(ordinary_windows(c.windows@, id), f.selected_window),
            buffer,
        ),
        None => None,
    }
}

/// The first window on some frames that shows a buffer.
pub open spec fn frames_window_showing(c: Context, ids: Seq<u64>, buffer: u64) -> Option<u64>
    decreases ids.len(),
{
    if ids.len() == 0 {
        None
    } else {
        match frame_window_showing(c, ids[0], buffer) {
            Some(w) => Some(w),
            None => frames_window_showing(c, ids.subrange(1, ids.len() as int), buffer),
        }
    }
}

fn find_on_frames(c: &Context, ids: &Vec<u64>, buffer: u64) -> (r: Option<u64>)
    ensures
        r == frames_window_showing(*c, ids@, buffer),
{
    let mut i: usize = 0;
    proof {
        assert(ids@.subrange(0, ids.len() as int) =~= ids@);
    }
    while i < ids.len()
        invariant
            i <= ids.len(),
            frames_window_showing(*c, ids@, buffer) == frames_window_showing(
                *c,
                ids@.subrange(i as int, ids.len() as int),
                buffer,
            ),
        decreases ids.len() - i,
    {
        let ghost rest = ids@.subrange(i as int, ids.len() as int);
        proof {
            assert(rest.subrange(1, rest.len() as int) =~= ids@.subrange(
                i + 1,
                ids.len() as int,
            ));
        }
        match c.get_frame(ids[i]) {
            Some(f) => {
                let list: Vec<u64> = begin_at(
                    &frame_window_list(&c.windows, ids[i]),
                    f.selected_window,
                );
                match find_showing(c, &list, buffer) {
                    Some(w) => {
                        return Some(w);
                    },
                    None => {},
                }
            },
            None => {},
        }
        i += 1;
    }
    None
}

/// A window that is found shows the buffer.
pub proof fn law_found_window_shows(c: Context, ids: Seq<u64>, buffer: u64)
    ensures
        match first_showing(c, ids, buffer) {
            Some(w) => ids.contains(w) && shows(c, w, buffer),
            None => forall|i: int| 0 <= i < ids.len() ==> !shows(c, #[trigger] ids[i], buffer),
        },
    decreases ids.len(),
{
    if ids.len() > 0 {
        let t = ids.subrange(1, ids.len() as int);
        law_found_window_shows(c, t, buffer);
        if !shows(c, ids[0], buffer) {
            match first_showing(c, t, buffer) {
                Some(w) => {
                    let k = t.index_of(w);
                    assert(ids[k + 1] == w);
                },
                None => {
                    assert forall|i: int| 0 <= i < ids.len() implies !shows(
                        c,
                        #[trigger] ids[i],
                        buffer,
                    ) by {
                        if i > 0 {
                            assert(t[i - 1] == ids[i]);
                        }
                    }
                },
            }
        } else {
            assert(ids[0] == ids[0]);
        }
    }
}

/// The selected window wins where the buffer is shown more than once.
pub proof fn law_selected_window_wins(c: Context, id: u64, buffer: u64)
    requires
        c.frame(id) is Some,
        ordinary_windows(c.windows@, id).contains(c.frame(id)->0.selected_window),
        shows(c, c.frame(id)->0.selected_window, buffer),
    ensures
        frame_window_showing(c, id, buffer) == Some(c.frame(id)->0.selected_window),
{
    law_begun_at(ordinary_windows(c.windows@, id), c.frame(id)->0.selected_window);
}

/// What `get-buffer-window` is asked for: a buffer, nothing that could be shown, or
/// something that is no buffer at all.
pub enum SoughtBuffer {
    Sought(u64),
    Nothing,
    NoBuffer,
}

pub open spec fn sought(c: Context, arg: Datum) -> SoughtBuffer {
    match arg {
        Datum::Nil => match c.current_buffer {
            Some(id) => SoughtBuffer::Sought(id),
            None => SoughtBuffer::Nothing,
        },
        Datum::Text(name) => match window_state::buffer_named(c.buffers@, name) {
            Some(i) => SoughtBuffer::Sought(c.buffers@[i].id),
            None => SoughtBuffer::Nothing,
        },
        Datum::Buffer(id) => if c.buffer(id) is Some {
            SoughtBuffer::Sought(id)
        } else {
            SoughtBuffer::Nothing
        },
        _ => SoughtBuffer::NoBuffer,
    }
}

pub open spec fn window_or_nil(w: Option<u64>) -> Datum {
    match w {
        Some(id) => Datum::Window(id),
        None => Datum::Nil,
    }
}

/// `(get-buffer-window BUFFER ALL-FRAMES)`: a window that shows the buffer, or `nil`.
pub fn builtin_get_buffer_window(
    c: &mut Context,
    buffer: Option<&Value>,
    all_frames: Option<&Value>,
) -> (r: Result<Value, Signal>)
    requires
        old(c).has_room(),
    ensures
        window_state::ensured(*old(c), *final(c)),
        match sought(*final(c), lisp::given(buffer)) {
            SoughtBuffer::NoBuffer => r matches Err(e) && lisp::is_wrong_type(
                e,
                "stringp"@,
                lisp::given(buffer),
            ),
            SoughtBuffer::Nothing => r matches Ok(v) && v@ is Nil,
            SoughtBuffer::Sought(id) => match scope_of(*final(c), lisp::given(all_frames)) {
                None => r matches Err(e) && lisp::is_wrong_type(
                    e,
                    "frame-live-p"@,
                    lisp::given(all_frames),
                ),
                Some(scope) => r matches Ok(v) && v@ == window_or_nil(
                    frames_window_showing(
                        *final(c),
                        scope_frames(*final(c), final(c).selected_frame->0, scope),
                        id,
                    ),
                ),
            },
        },
{
    let base: u64 = window_state::ensure_selected_frame_id(c);
    let target: u64 = match buffer {
        None => match c.current_buffer {
            Some(id) => id,
            None => {
                return Ok(Value::Nil);
            },
        },
        Some(v) => match v {
            Value::Nil => match c.current_buffer {
                Some(id) => id,
                None => {
                    return Ok(Value::Nil);
                },
            },
            Value::Text(name) => match window_state::find_buffer_by_name(&c.buffers, name.as_str()) {
                Some(i) => c.buffers[i].id,
                None => {
                    return Ok(Value::Nil);
                },
            },
            Value::Buffer(id) => if c.get_buffer(*id).is_some() {
                *id
            } else {
                return Ok(Value::Nil);
            },
            _ => {
                return Err(lisp::wrong_type("stringp", v));
            },
        },
    };
    let scope: AllFramesScope = match decode_all_frames_scope(c, all_frames) {
        Ok(s) => s,
        Err(e) => {
            return Err(e);
        },
    };
    let ids: Vec<u64> = frame_ids_for_all_frames_scope(c, base, scope);
    match find_on_frames(c, &ids, target) {
        Some(w) => Ok(Value::Window(w)),
        None => Ok(Value::Nil),
    }
}

/// The place of a window in its frame's list, the first place where it is not there.
pub open spec fn place_in(s: Seq<u64>, w: u64) -> int {
    match window_state::index_in(s, w) {
        Some(i) => i,
        None => 0,
    }
}

/// The window behind another, the first behind the last.
pub open spec fn next_in(s: Seq<u64>, w: u64) -> u64 {
    let i = place_in(s, w);
    if i + 1 < s.len() {
        s[i + 1]
    } else {
        s[0]
    }
}

/// The window before another, the last before the first.
pub open spec fn previous_in(s: Seq<u64>, w: u64) -> u64 {
    let i = place_in(s, w);
    if i == 0 {
        s[s.len() - 1]
    } else {
        s[i - 1]
    }
}

/// Going forward and then back leads back, and the other way round.
pub proof fn law_next_and_previous(s: Seq<u64>, w: u64)
    requires
        no_repeats(s),
        s.contains(w),
    ensures
        previous_in(s, next_in(s, w)) == w,
        next_in(s, previous_in(s, w)) == w,
{
    window_state::lemma_index_in(s, w);
    window_state::lemma_index_in(s, next_in(s, w));
    window_state::lemma_index_in(s, previous_in(s, w));
    let i = place_in(s, w);
    assert(s.contains(s[if i + 1 < s.len() {
        i + 1
    } else {
        0
    }]));
    assert(s.contains(s[if i == 0 {
        s.len() - 1
    } else {
        i - 1
    }]));
}

/// Where so many steps forward lead.
pub open spec fn steps_from(s: Seq<u64>, w: u64, n: nat) -> u64
    decreases n,
{
    if n == 0 {
        w
    } else {
        next_in(s, steps_from(s, w, (n - 1) as nat))
    }
}

/// Steps forward go along the list, and on from its start.
proof fn lemma_steps(s: Seq<u64>, w: u64, n: nat)
    requires
        no_repeats(s),
        s.contains(w),
        n <= s.len(),
    ensures
        steps_from(s, w, n) == if place_in(s, w) + n < s.len() {
            s[place_in(s, w) + n]
        } else {
            s[place_in(s, w) + n - s.len()]
        },
    decreases n,
{
    window_state::lemma_index_in(s, w);
    if n > 0 {
        let m = (n - 1) as nat;
        lemma_steps(s, w, m);
        let x = steps_from(s, w, m);
        let at = if place_in(s, w) + m < s.len() {
            place_in(s, w) + m
        } else {
            place_in(s, w) + m - s.len()
        };
        assert(s[at] == x);
        window_state::lemma_index_found(s, x, at);
    }
}

/// As many steps forward as there are windows lead back, and visit each window once.
pub proof fn law_steps_visit_each_window_once(s: Seq<u64>, w: u64)
    requires
        no_repeats(s),
        s.contains(w),
    ensures
        steps_from(s, w, s.len()) == w,
        forall|x: u64|
            s.contains(x) ==> exists|n: nat| n < s.len() && #[trigger] steps_from(s, w, n) == x,
        forall|n: nat, m: nat|
            n < m < s.len() ==> #[trigger] steps_from(s, w, n) != #[trigger] steps_from(s, w, m),
{
    window_state::lemma_index_in(s, w);
    let k = place_in(s, w);
    let len = s.len();
    lemma_steps(s, w, len);
    assert forall|x: u64| s.contains(x) implies exists|n: nat|
        n < s.len() && #[trigger] steps_from(s, w, n) == x by {
        let i = choose|i: int| 0 <= i < len && s[i] == x;
        let n = if i >= k {
            (i - k) as nat
        } else {
            (i - k + len) as nat
        };
        lemma_steps(s, w, n);
        assert(steps_from(s, w, n) == x);
    }
    assert forall|n: nat, m: nat| n < m < s.len() implies #[trigger] steps_from(s, w, n)
        != #[trigger] steps_from(s, w, m) by {
        lemma_steps(s, w, n);
        lemma_steps(s, w, m);
    }
}

/// What a step from a window comes to.
pub open spec fn is_step(
    r: Result<Value, Signal>,
    c: Context,
    window: Datum,
    forward: bool,
) -> bool {
    match window_state::window_target(c, window, WindowPredicate::Live) {
        None => r matches Err(e) && lisp::is_wrong_type(e, "window-live-p"@, window),
        Some((f, w)) => if c.frame(f) is None {
            r matches Err(e) && lisp::is_error(e, "Frame not found"@)
        } else {
            let list = ordinary_windows(c.windows@, f);
            r matches Ok(v) && v@ == if list.len() == 0 {
                Datum::Nil
            } else if forward {
                Datum::Window(next_in(list, w))
            } else {
                Datum::Window(previous_in(list, w))
            }
        },
    }
}

fn step_window(c: &mut Context, window: Option<&Value>, forward: bool) -> (r: Result<Value, Signal>)
    requires
        old(c).has_room(),
    ensures
        window_state::ensured_for(*old(c), *final(c), lisp::given(window)),
        is_step(r, *final(c), lisp::given(window), forward),
{
    let (f, w): (u64, u64) = match window_state::resolve_window_id_with_pred(
        c,
        window,
        WindowPredicate::Live,
    ) {
        Ok(t) => t,
        Err(e) => {
            return Err(e);
        },
    };
    if c.get_frame(f).is_none() {
        return Err(lisp::error("Frame not found"));
    }
    let list: Vec<u64> = frame_window_list(&c.windows, f);
    if list.len() == 0 {
        return Ok(Value::Nil);
    }
    let i: usize = match window_state::position(&list, w) {
        Some(i) => i,
        None => 0,
    };
    if forward {
        if i + 1 < list.len() {
            Ok(Value::Window(list[i + 1]))
        } else {
            Ok(Value::Window(list[0]))
        }
    } else if i == 0 {
        Ok(Value::Window(list[list.len() - 1]))
    } else {
        Ok(Value::Window(list[i - 1]))
    }
}

/// `(next-window WINDOW)`: the window behind it on its frame.
pub fn builtin_next_window(c: &mut Context, window: Option<&Value>) -> (r: Result<Value, Signal>)
    requires
        old(c).has_room(),
    ensures
        window_state::ensured_for(*old(c), *final(c), lisp::given(window)),
        is_step(r, *final(c), lisp::given(window), true),
{
    step_window(c, window, true)
}

/// `(previous-window WINDOW)`: the window before it on its frame.
pub fn builtin_previous_window(c: &mut Context, window: Option<&Value>) -> (r: Result<Value, Signal>)
    requires
        old(c).has_room(),
    ensures
        window_state::ensured_for(*old(c), *final(c), lisp::given(window)),
        is_step(r, *final(c), lisp::given(window), false),
{
    step_window(c, window, false)
}

/// The first of some numbers that is not `x`.
pub open spec fn first_other(s: Seq<u64>, x: u64) -> Option<u64>
    decreases s.len(),
{
    if s.len() == 0 {
        None
    } else if s[0] != x {
        Some(s[0])
    } else {
        first_other(s.subrange(1, s.len() as int), x)
    }
}

fn find_other(list: &Vec<u64>, selected: u64) -> (r: Option<u64>)
    ensures
        r == first_other(list@, selected),
{
    let mut i: usize = 0;
    proof {
        assert(list@.subrange(0, list.len() as int) =~= list@);
    }
    while i < list.len()
        invariant
            i <= list.len(),
            first_other(list@, selected) == first_other(
                list@.subrange(i as int, list.len() as int),
                selected,
            ),
        decreases list.len() - i,
    {
        let ghost rest = list@.subrange(i as int, list.len() as int);
        proof {
            assert(rest.subrange(1, rest.len() as int) =~= list@.subrange(
                i + 1,
                list.len() as int,
            ));
        }
        if list[i] != selected {
            return Some(list[i]);
        }
        i += 1;
    }
    None
}

/// `(other-window-for-scrolling)`: another window of the selected frame.
pub fn builtin_other_window_for_scrolling(c: &mut Context) -> (r: Result<Value, Signal>)
    requires
        old(c).has_room(),
    ensures
        window_state::ensured(*old(c), *final(c)),
        ({
            let f = final(c).selected()->0;
            let list = ordinary_windows(final(c).windows@, f.id);
            if list.len() <= 1 {
                r matches Err(e) && lisp::is_error(e, "There is no other window"@)
            } else {
                r matches Ok(v) && v@ == Datum::Window(
                    match first_other(list, f.selected_window) {
                        Some(w) => w,
                        None => f.selected_window,
                    },
                )
            }
        }),
{
    let id: u64 = window_state::ensure_selected_frame_id(c);
    proof {
        window_state::lemma_index_in(window_state::frame_ids(c.frames@), id);
    }
    let selected: u64 = match c.get_frame(id) {
        Some(f) => f.selected_window,
        None => {
            return Err(lisp::error("No selected frame"));
        },
    };
    let list: Vec<u64> = frame_window_list(&c.windows, id);
    if list.len() <= 1 {
        return Err(lisp::error("There is no other window"));
    }
    match find_other(&list, selected) {
        Some(w) => Ok(Value::Window(w)),
        None => Ok(Value::Window(selected)),
    }
}

/// `(frame-first-window FRAME-OR-WINDOW)`: the first window of a frame.
pub fn builtin_frame_first_window(c: &mut Context, arg: Option<&Value>) -> (r: Result<Value, Signal>)
    requires
        old(c).has_room(),
    ensures
        window_state::ensured_for(*old(c), *final(c), lisp::given(arg)),
        match window_state::frame_or_window_target(*final(c), lisp::given(arg)) {
            None => r matches Err(e) && lisp::is_wrong_type(e, "frame-live-p"@, lisp::given(arg)),
            Some(id) => match final(c).frame(id) {
                None => r matches Err(e) && lisp::is_error(e, "Frame not found"@),
                Some(f) => {
                    let list = ordinary_windows(final(c).windows@, id);
                    r matches Ok(v) && v@ == Datum::Window(
                        if list.len() > 0 {
                            list[0]
                        } else {
                            f.selected_window
                        },
                    )
                },
            },
        },
{
    let id: u64 = match window_state::resolve_frame_or_window_frame_id(c, arg, "frame-live-p") {
        Ok(id) => id,
        Err(e) => {
            return Err(e);
        },
    };
    let f: &Frame = match c.get_frame(id) {
        Some(f) => f,
        None => {
            return Err(lisp::error("Frame not found"));
        },
    };
    let list: Vec<u64> = frame_window_list(&c.windows, id);
    if list.len() > 0 {
        Ok(Value::Window(list[0]))
    } else {
        Ok(Value::Window(f.selected_window))
    }
}

} // verus!
