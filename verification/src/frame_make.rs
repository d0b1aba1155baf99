//! How frames are made: what their parameters ask for, and what they get.
use vstd::prelude::*;

use crate::frame_size;
use crate::lisp;
use crate::lisp::{Datum, FrameSizeParam, Signal, Value};
use crate::text;
use crate::window_buffers;
use crate::window_geometry;
use crate::window_select;
use crate::window_state;
use crate::window_state::{Context, Frame, FrameSeed, Window};

verus! {

/// The outermost of the frames that a frame is in. A frame that was walked over ends
/// the walk.
pub open spec fn outermost(c: Context, id: u64, seen: Seq<u64>) -> Option<u64>
    decreases c.frames@.len() - seen.len(),
    when window_geometry::is_walk(c, seen)
{
    match c.frame(id) {
        None => None,
        Some(f) => if seen.contains(id) {
            Some(id)
        } else {
            match f.parent {
                None => Some(id),
                Some(p) => {
                    proof {
                        assert(window_geometry::is_walk(c, seen.push(id)));
                        window_geometry::lemma_walk_is_short(c, seen.push(id));
                    }
                    match outermost(c, p, seen.push(id)) {
                        Some(r) => Some(r),
                        None => Some(id),
                    }
                },
            }
        },
    }
}

/// The root frame of a frame.
pub open spec fn root_of(c: Context, id: u64) -> Option<u64> {
    outermost(c, id, Seq::empty())
}

pub fn root_frame_id(c: &Context, id: u64) -> (r: Option<u64>)
    ensures
        r == root_of(*c, id),
{
    if c.get_frame(id).is_none() {
        return None;
    }
    let mut at: u64 = id;
    let mut seen: Vec<u64> = Vec::new();
    let mut go: bool = true;
    proof {
        assert(seen@ =~= Seq::empty());
    }
    while go
        invariant
            window_geometry::is_walk(*c, seen@),
            seen@.len() <= c.frames@.len(),
            c.frame(at) is Some,
            go ==> root_of(*c, id) == outermost(*c, at, seen@),
            !go ==> root_of(*c, id) == Some(at),
        decreases
                c.frames@.len() - seen@.len() + if go {
                    1int
                } else {
                    0
                },
    {
        proof {
            window_state::lemma_index_in(seen@, at);
        }
        if window_state::position(&seen, at).is_some() {
            go = false;
        } else {
            let parent: Option<u64> = match c.get_frame(at) {
                Some(f) => f.parent,
                None => None,
            };
            match parent {
                None => {
                    go = false;
                },
                Some(p) => {
                    proof {
                        assert(window_geometry::is_walk(*c, seen@.push(at)));
                        window_geometry::lemma_walk_is_short(*c, seen@.push(at));
                    }
                    if c.get_frame(p).is_none() {
                        proof {
                            assert(outermost(*c, p, seen@.push(at)) is None);
                        }
                        go = false;
                    } else {
                        let ghost before = seen@;
                        seen.push(at);
                        proof {
                            lemma_outermost_is_found(*c, p, before.push(at));
                        }
                        at = p;
                    }
                },
            }
        }
    }
    Some(at)
}

/// A frame that is there has a root frame.
proof fn lemma_outermost_is_found(c: Context, id: u64, seen: Seq<u64>)
    requires
        window_geometry::is_walk(c, seen),
        c.frame(id) is Some,
    ensures
        outermost(c, id, seen) is Some,
{
}

/// A frame that is in no other is its own root.
pub proof fn law_root_of_root(c: Context, id: u64)
    requires
        c.frame(id) is Some,
        c.frame(id)->0.parent is None,
    ensures
        root_of(c, id) == Some(id),
{
}

/// The minibuffer that a child frame has: one of its own, that of another frame, or
/// nothing but a minibuffer.
#[derive(Debug, Clone, Copy, PartialEq, Eq, Structural)]
pub enum ChildMinibuffer {
    Own,
    Shared(u64),
    Only,
}

/// What the minibuffer parameter of a child frame comes to; none for a window that is
/// not the minibuffer of a frame in the same root frame.
pub open spec fn child_minibuffer(c: Context, parent: u64, param: Option<Datum>) -> Option<
    ChildMinibuffer,
> {
    match param {
        None => Some(ChildMinibuffer::Own),
        Some(d) => if d is Nil || lisp::is_symbol(d, "none"@) {
            match root_of(c, parent) {
                Some(root) => match c.frame(root)->0.minibuffer_window {
                    Some(w) => Some(ChildMinibuffer::Shared(w)),
                    None => Some(ChildMinibuffer::Own),
                },
                None => Some(ChildMinibuffer::Own),
            }
        } else if lisp::is_symbol(d, "only"@) {
            Some(ChildMinibuffer::Only)
        } else {
            match d {
                Datum::Window(w) => match c.valid_frame(w) {
                    Some(owner) => if (c.frame(owner) matches Some(f) && f.minibuffer_window
                        == Some(w)) && root_of(c, owner) == root_of(c, parent) {
                        Some(ChildMinibuffer::Shared(w))
                    } else {
                        None
                    },
                    None => None,
                },
                _ => Some(ChildMinibuffer::Own),
            }
        },
    }
}

pub open spec fn opt_datum(v: Option<Value>) -> Option<Datum> {
    match v {
        Some(x) => Some(x@),
        None => None,
    }
}

proof fn lemma_root_is_there(c: Context, id: u64, seen: Seq<u64>)
    requires
        window_geometry::is_walk(c, seen),
    ensures
        outermost(c, id, seen) matches Some(r) ==> c.frame(r) is Some,
    decreases c.frames@.len() - seen.len(),
{
    match c.frame(id) {
        None => {},
        Some(f) => {
            if !seen.contains(id) {
                match f.parent {
                    None => {},
                    Some(p) => {
                        assert(window_geometry::is_walk(c, seen.push(id)));
                        window_geometry::lemma_walk_is_short(c, seen.push(id));
                        lemma_root_is_there(c, p, seen.push(id));
                    },
                }
            }
        },
    }
}

pub fn resolve_child_shared_minibuffer(c: &Context, parent: u64, param: &Option<Value>) -> (r: Result<
    ChildMinibuffer,
    Signal,
>)
    ensures
        match child_minibuffer(*c, parent, opt_datum(*param)) {
            Some(m) => r == Ok::<ChildMinibuffer, Signal>(m),
            None => r matches Err(e) && lisp::is_error(
                e,
                "The `minibuffer' parameter does not specify a valid minibuffer window"@,
            ),
        },
{
    let v: &Value = match param {
        Some(v) => v,
        None => {
            return Ok(ChildMinibuffer::Own);
        },
    };
    if lisp::is_nil(v) || lisp::is_symbol_named(v, "none") {
        return match root_frame_id(c, parent) {
            Some(root) => {
                proof {
                    lemma_root_is_there(*c, parent, Seq::empty());
                }
                match c.get_frame(root) {
                    Some(f) => match f.minibuffer_window {
                        Some(w) => Ok(ChildMinibuffer::Shared(w)),
                        None => Ok(ChildMinibuffer::Own),
                    },
                    None => Ok(ChildMinibuffer::Own),
                }
            },
            None => Ok(ChildMinibuffer::Own),
        };
    }
    if lisp::is_symbol_named(v, "only") {
        return Ok(ChildMinibuffer::Only);
    }
    match v {
        Value::Window(w) => {
            let fits: bool = match c.find_valid_window_frame_id(*w) {
                Some(owner) => {
                    let is_mini: bool = window_buffers::is_minibuffer_window(c, owner, *w);
                    let here: Option<u64> = root_frame_id(c, owner);
                    let there: Option<u64> = root_frame_id(c, parent);
                    let same: bool = match (here, there) {
                        (Some(a), Some(b)) => a == b,
                        (None, None) => true,
                        _ => false,
                    };
                    is_mini && same
                },
                None => false,
            };
            if fits {
                Ok(ChildMinibuffer::Shared(*w))
            } else {
                Err(
                    lisp::error(
                        "The `minibuffer' parameter does not specify a valid minibuffer window",
                    ),
                )
            }
        },
        _ => Ok(ChildMinibuffer::Own),
    }
}

/// What a plain frame is asked to be.
#[derive(Debug)]
pub struct PlainFrameParams {
    pub width: Option<FrameSizeParam>,
    pub height: Option<FrameSizeParam>,
    pub name: Option<String>,
    pub parent: Option<u64>,
    pub left: i64,
    pub top: i64,
    pub visibility: Option<bool>,
    pub minibuffer: Option<Value>,
    pub undecorated: bool,
    pub no_accept_focus: bool,
    pub unsplittable: bool,
    pub all: Vec<(Value, Value)>,
}

/// What such parameters are.
pub struct PlainFrameModel {
    pub width: Option<FrameSizeParam>,
    pub height: Option<FrameSizeParam>,
    pub name: Option<Seq<char>>,
    pub parent: Option<u64>,
    pub left: i64,
    pub top: i64,
    pub visibility: Option<bool>,
    pub minibuffer: Option<Datum>,
    pub undecorated: bool,
    pub no_accept_focus: bool,
    pub unsplittable: bool,
    pub all: Seq<(Datum, Datum)>,
}

pub open spec fn pair_data(v: Seq<(Value, Value)>) -> Seq<(Datum, Datum)> {
    Seq::new(v.len(), |i: int| (v[i].0@, v[i].1@))
}

pub open spec fn opt_chars(s: Option<String>) -> Option<Seq<char>> {
    match s {
        Some(t) => Some(t@),
        None => None,
    }
}

impl View for PlainFrameParams {
    type V = PlainFrameModel;

    open spec fn view(&self) -> PlainFrameModel {
        PlainFrameModel {
            width: self.width,
            height: self.height,
            name: opt_chars(self.name),
            parent: self.parent,
            left: self.left,
            top: self.top,
            visibility: self.visibility,
            minibuffer: opt_datum(self.minibuffer),
            undecorated: self.undecorated,
            no_accept_focus: self.no_accept_focus,
            unsplittable: self.unsplittable,
            all: pair_data(self.all@),
        }
    }
}

pub open spec fn no_plain_params() -> PlainFrameModel {
    PlainFrameModel {
        width: None,
        height: None,
        name: None,
        parent: None,
        left: 0,
        top: 0,
        visibility: None,
        minibuffer: None,
        undecorated: false,
        no_accept_focus: false,
        unsplittable: false,
        all: Seq::empty(),
    }
}

/// What one parameter adds. One that does not make sense is kept with the others, and
/// changes nothing else.
pub open spec fn plain_param(c: Context, m: PlainFrameModel, key: Seq<char>, d: Datum) -> PlainFrameModel {
    if key == "width"@ {
        match lisp::size_param_of(d) {
            Some(s) => PlainFrameModel { width: Some(s), ..m },
            None => m,
        }
    } else if key == "height"@ {
        match lisp::size_param_of(d) {
            Some(s) => PlainFrameModel { height: Some(s), ..m },
            None => m,
        }
    } else if key == "name"@ {
        match lisp::frame_name_of(d) {
            Some(n) => PlainFrameModel { name: n, ..m },
            None => m,
        }
    } else if key == "parent-frame"@ {
        match d {
            Datum::Frame(id) => if c.frame(id) is Some {
                PlainFrameModel { parent: Some(id), ..m }
            } else {
                m
            },
            _ => m,
        }
    } else if key == "left"@ {
        match d {
            Datum::Fixnum(n) => PlainFrameModel { left: n as i64, ..m },
            _ => m,
        }
    } else if key == "top"@ {
        match d {
            Datum::Fixnum(n) => PlainFrameModel { top: n as i64, ..m },
            _ => m,
        }
    } else if key == "visibility"@ {
        PlainFrameModel { visibility: Some(!(d is Nil)), ..m }
    } else if key == "minibuffer"@ {
        PlainFrameModel { minibuffer: Some(d), ..m }
    } else if key == "undecorated"@ {
        PlainFrameModel { undecorated: !(d is Nil), ..m }
    } else if key == "no-accept-focus"@ {
        PlainFrameModel { no_accept_focus: !(d is Nil), ..m }
    } else if key == "unsplittable"@ {
        PlainFrameModel { unsplittable: !(d is Nil), ..m }
    } else {
        m
    }
}

/// What an entry of a parameter list adds: nothing, unless it is a pair that begins with
/// a symbol.
pub open spec fn plain_entry(c: Context, m: PlainFrameModel, d: Datum) -> PlainFrameModel {
    match d {
        Datum::Pair(k, v) => match lisp::symbol_name(*k) {
            Some(name) => plain_param(
                c,
                PlainFrameModel { all: m.all.push((*k, *v)), ..m },
                name,
                *v,
            ),
            None => m,
        },
        _ => m,
    }
}

/// What a list of parameters comes to, the later ones over the earlier ones.
pub open spec fn plain_params(c: Context, items: Seq<Datum>) -> PlainFrameModel
    decreases items.len(),
{
    if items.len() == 0 {
        no_plain_params()
    } else {
        plain_entry(c, plain_params(c, items.drop_last()), items.last())
    }
}

/// The items of a parameter list; what is no list has none.
pub open spec fn param_items(d: Datum) -> Seq<Datum> {
    match lisp::list_items(d) {
        Some(items) => items,
        None => Seq::empty(),
    }
}

fn take_plain_param(c: &Context, p: &mut PlainFrameParams, key: &str, v: &Value)
    ensures
        final(p)@ == plain_param(*c, old(p)@, key@, v@),
{
    if text::same(key, "width") {
        match lisp::parse_frame_size_param(v) {
            Some(s) => {
                p.width = Some(s);
            },
            None => {},
        }
    } else if text::same(key, "height") {
        match lisp::parse_frame_size_param(v) {
            Some(s) => {
                p.height = Some(s);
            },
            None => {},
        }
    } else if text::same(key, "name") {
        match lisp::frame_name_parameter_value(v) {
            Some(n) => {
                p.name = n;
            },
            None => {},
        }
    } else if text::same(key, "parent-frame") {
        match v {
            Value::Frame(id) => {
                if c.get_frame(*id).is_some() {
                    p.parent = Some(*id);
                }
            },
            _ => {},
        }
    } else if text::same(key, "left") {
        match v {
            Value::Fixnum(n) => {
                p.left = *n;
            },
            _ => {},
        }
    } else if text::same(key, "top") {
        match v {
            Value::Fixnum(n) => {
                p.top = *n;
            },
            _ => {},
        }
    } else if text::same(key, "visibility") {
        p.visibility = Some(!lisp::is_nil(v));
    } else if text::same(key, "minibuffer") {
        p.minibuffer = Some(lisp::copy(v));
    } else if text::same(key, "undecorated") {
        p.undecorated = !lisp::is_nil(v);
    } else if text::same(key, "no-accept-focus") {
        p.no_accept_focus = !lisp::is_nil(v);
    } else if text::same(key, "unsplittable") {
        p.unsplittable = !lisp::is_nil(v);
    }
}

fn take_plain_entry(c: &Context, p: &mut PlainFrameParams, item: &Value)
    ensures
        final(p)@ == plain_entry(*c, old(p)@, item@),
{
    match item {
        Value::Pair(k, v) => match lisp::name_of(k) {
            Some(name) => {
                let entry: (Value, Value) = (lisp::copy(k), lisp::copy(v));
                p.all.push(entry);
                proof {
                    assert(pair_data(p.all@) =~= pair_data(old(p).all@).push((k@, v@)));
                }
                take_plain_param(c, p, name, v);
            },
            None => {},
        },
        _ => {},
    }
}

/// Reads the parameters of a plain frame.
pub fn parse_plain_frame_params(c: &Context, params: Option<&Value>) -> (r: PlainFrameParams)
    ensures
        r@ == plain_params(*c, param_items(lisp::given(params))),
{
    let mut p: PlainFrameParams = PlainFrameParams {
        width: None,
        height: None,
        name: None,
        parent: None,
        left: 0,
        top: 0,
        visibility: None,
        minibuffer: None,
        undecorated: false,
        no_accept_focus: false,
        unsplittable: false,
        all: Vec::new(),
    };
    proof {
        assert(pair_data(p.all@) =~= Seq::empty());
        assert(lisp::list_items(Datum::Nil) == Some(Seq::<Datum>::empty()));
    }
    let items: Vec<Value> = match params {
        Some(v) => match lisp::list_to_vec(v) {
            Some(items) => items,
            None => Vec::new(),
        },
        None => Vec::new(),
    };
    let ghost all = lisp::data(items@);
    proof {
        assert(all =~= param_items(lisp::given(params)));
        assert(all.subrange(0, 0) =~= Seq::empty());
    }
    let mut i: usize = 0;
    while i < items.len()
        invariant
            i <= items.len(),
            all == lisp::data(items@),
            p@ == plain_params(*c, all.subrange(0, i as int)),
        decreases items.len() - i,
    {
        proof {
            assert(all.subrange(0, i + 1).drop_last() =~= all.subrange(0, i as int));
            assert(all.subrange(0, i + 1).last() == items@[i as int]@);
        }
        take_plain_entry(c, &mut p, &items[i]);
        i += 1;
    }
    proof {
        assert(all.subrange(0, all.len() as int) =~= all);
    }
    p
}

/// A side of a plain frame in cells: what is asked for, one at least, or a default.
pub open spec fn plain_side(size: Option<FrameSizeParam>, side: u32, otherwise: u32) -> u32 {
    match size {
        Some(s) => (frame_size::at_least(frame_size::size_in_cells(s, side), 1) as i64) as u32,
        None => otherwise,
    }
}

fn plain_side_of(size: Option<FrameSizeParam>, side: u32, otherwise: u32) -> (r: u32)
    ensures
        r == plain_side(size, side, otherwise),
{
    match size {
        Some(s) => {
            let n: i64 = frame_size::frame_size_param_to_cells(s, side);
            let k: i64 = if n >= 1 {
                n
            } else {
                1
            };
            k as u32
        },
        None => otherwise,
    }
}

/// The current buffer, or zero where there is none.
pub open spec fn current_or_zero(c: Context) -> u64 {
    match c.current_buffer {
        Some(id) => if c.buffer(id) is Some {
            id
        } else {
            0
        },
        None => 0,
    }
}

fn current_buffer_or_zero(c: &Context) -> (r: u64)
    ensures
        r == current_or_zero(*c),
{
    match c.current_buffer {
        Some(id) => if c.get_buffer(id).is_some() {
            id
        } else {
            0
        },
        None => 0,
    }
}

/// The place in front of which the children of a frame are, zero where it has none.
pub open spec fn top_child(v: Seq<Frame>, parent: u64) -> i64
    decreases v.len(),
{
    if v.len() == 0 {
        0
    } else {
        let before = top_child(v.drop_last(), parent);
        if v.last().parent == Some(parent) && v.last().z_order > before {
            v.last().z_order
        } else {
            before
        }
    }
}

pub fn max_child_z_order(v: &Vec<Frame>, parent: u64) -> (r: i64)
    ensures
        r == top_child(v@, parent),
{
    let mut top: i64 = 0;
    let mut i: usize = 0;
    proof {
        assert(v@.subrange(0, 0) =~= Seq::empty());
    }
    while i < v.len()
        invariant
            i <= v.len(),
            top == top_child(v@.subrange(0, i as int), parent),
        decreases v.len() - i,
    {
        proof {
            assert(v@.subrange(0, i + 1).drop_last() =~= v@.subrange(0, i as int));
        }
        match v[i].parent {
            Some(p) => {
                if p == parent && v[i].z_order > top {
                    top = v[i].z_order;
                }
            },
            None => {},
        }
        i += 1;
    }
    proof {
        assert(v@.subrange(0, v.len() as int) =~= v@);
    }
    top
}

/// A new child frame is put in front of its siblings.
pub proof fn law_new_child_is_in_front(v: Seq<Frame>, parent: u64)
    ensures
        forall|i: int|
            0 <= i < v.len() && (#[trigger] v[i]).parent == Some(parent) ==> v[i].z_order
                <= top_child(v, parent),
    decreases v.len(),
{
    if v.len() > 0 {
        law_new_child_is_in_front(v.drop_last(), parent);
        assert forall|i: int| 0 <= i < v.len() && (#[trigger] v[i]).parent == Some(parent) implies v[i].z_order
            <= top_child(v, parent) by {
            if i < v.len() - 1 {
                assert(v.drop_last()[i] == v[i]);
            }
        }
    }
}

/// The number behind another, the last one behind itself.
pub open spec fn behind(z: i64) -> i64 {
    window_select::ticked(z)
}

/// A frame that was made, and what is left to set on it, in this order.
#[derive(Debug)]
pub struct MadeFrame {
    pub frame: u64,
    /// The name was asked for, so that it is not made up again.
    pub explicit_name: bool,
    pub parameters: Vec<(Value, Value)>,
}

/// What is set on a plain frame besides what was asked for: its size.
pub open spec fn size_params(width: u32, height: u32) -> Seq<(Datum, Datum)> {
    seq![
        (Datum::Symbol("width"@), Datum::Fixnum(width as int)),
        (Datum::Symbol("height"@), Datum::Fixnum(height as int)),
    ]
}

/// What is set on a child frame besides what was asked for.
pub open spec fn child_params(
    width: u32,
    height: u32,
    minibuffer: ChildMinibuffer,
    parent: u64,
    left: i64,
    top: i64,
) -> Seq<(Datum, Datum)> {
    let shared = match minibuffer {
        ChildMinibuffer::Shared(w) => seq![(Datum::Symbol("minibuffer"@), Datum::Window(w))],
        _ => Seq::empty(),
    };
    size_params(width, height) + shared + place_params(Some(parent), left, top)
}

/// The parameters that say where a frame is.
pub open spec fn place_params(parent: Option<u64>, left: i64, top: i64) -> Seq<(Datum, Datum)> {
    seq![
        (
            Datum::Symbol("parent-frame"@),
            match parent {
                Some(p) => Datum::Frame(p),
                None => Datum::Nil,
            },
        ),
        (Datum::Symbol("left"@), Datum::Fixnum(left as int)),
        (Datum::Symbol("top"@), Datum::Fixnum(top as int)),
    ]
}

pub fn push_param(out: &mut Vec<(Value, Value)>, key: &str, v: Value)
    ensures
        pair_data(final(out)@) == pair_data(old(out)@).push((Datum::Symbol(key@), v@)),
{
    let ghost d = v@;
    let entry: (Value, Value) = (lisp::symbol(key), v);
    out.push(entry);
    proof {
        assert(pair_data(out@) =~= pair_data(old(out)@).push((Datum::Symbol(key@), d)));
    }
}

pub fn push_place_params(out: &mut Vec<(Value, Value)>, parent: Option<u64>, left: i64, top: i64)
    ensures
        pair_data(final(out)@) == pair_data(old(out)@) + place_params(parent, left, top),
{
    let ghost before = pair_data(out@);
    let p: Value = match parent {
        Some(p) => Value::Frame(p),
        None => Value::Nil,
    };
    push_param(out, "parent-frame", p);
    push_param(out, "left", Value::Fixnum(left));
    push_param(out, "top", Value::Fixnum(top));
    proof {
        assert(pair_data(out@) =~= before + place_params(parent, left, top));
    }
}

/// The session after the minibuffer of the frame that was made last was settled: one
/// that the frame does not need is gone.
pub open spec fn minibuffer_settled(
    a: Seq<Window>,
    b: Seq<Window>,
    minibuffer: ChildMinibuffer,
    mini_buffer: u64,
) -> bool {
    match minibuffer {
        ChildMinibuffer::Own => b == a,
        ChildMinibuffer::Shared(_) => b == a.drop_last(),
        ChildMinibuffer::Only => {
            let kept = a.drop_last();
            b == kept.update(
                kept.len() - 1,
                Window { buffer: mini_buffer, ..kept.last() },
            )
        },
    }
}

/// The child frame that a new frame becomes.
pub open spec fn as_child(
    f: Frame,
    m: PlainFrameModel,
    parent: u64,
    z_order: i64,
    minibuffer: ChildMinibuffer,
) -> Frame {
    Frame {
        parent: Some(parent),
        z_order: z_order,
        left: m.left,
        top: m.top,
        visible: match m.visibility {
            Some(v) => v,
            None => f.visible,
        },
        undecorated: m.undecorated,
        no_accept_focus: m.no_accept_focus,
        no_split: m.unsplittable || minibuffer == ChildMinibuffer::Only,
        minibuffer_window: match minibuffer {
            ChildMinibuffer::Own => f.minibuffer_window,
            ChildMinibuffer::Shared(w) => Some(w),
            ChildMinibuffer::Only => Some(f.root_window),
        },
        ..f
    }
}

/// What a new frame is made from on its parent's terminal.
pub open spec fn child_seed(c: Context, m: PlainFrameModel, p: Frame) -> FrameSeed {
    FrameSeed {
        terminal: p.terminal,
        width: frame_size::at_least(
            plain_side(m.width, p.char_width, 800) as int,
            1,
        ) as u32,
        height: frame_size::at_least(
            plain_side(m.height, p.char_height, 600) as int,
            1,
        ) as u32,
        char_width: frame_size::cell(p.char_width) as u32,
        char_height: frame_size::cell(p.char_height) as u32,
        initial: false,
        graphical: false,
        buffer: current_or_zero(c),
        mini_buffer: current_or_zero(c),
    }
}

/// What a plain frame in no other is made from.
pub open spec fn plain_seed(c: Context, m: PlainFrameModel) -> FrameSeed {
    FrameSeed {
        terminal: 0,
        width: plain_side(m.width, 1, 800),
        height: plain_side(m.height, 1, 600),
        char_width: 8,
        char_height: 16,
        initial: false,
        graphical: false,
        buffer: current_or_zero(c),
        mini_buffer: current_or_zero(c),
    }
}

pub open spec fn chosen_name(m: PlainFrameModel, generated: Seq<char>) -> Seq<char> {
    match m.name {
        Some(n) => n,
        None => generated,
    }
}

/// The name that the next frame without one gets.
pub open spec fn generated_name(c: Context) -> Seq<char> {
    "F"@ + text::decimal((c.frame_names + 1) as nat)
}

/// The session once a generated name is used up.
pub open spec fn name_taken(c: Context) -> Context {
    Context { frame_names: (c.frame_names + 1) as u64, ..c }
}

/// Uses up a generated name.
pub fn next_generated_tty_frame_name(c: &mut Context) -> (r: String)
    requires
        old(c).frame_names < u64::MAX,
    ensures
        r@ == generated_name(*old(c)),
        *final(c) == name_taken(*old(c)),
{
    c.frame_names = c.frame_names + 1;
    let number: String = text::decimal_text(c.frame_names);
    text::concat("F", number.as_str())
}

/// What making a plain frame comes to.
pub open spec fn is_plain_frame(
    r: Result<MadeFrame, Signal>,
    a: Context,
    b: Context,
    m: PlainFrameModel,
    generated: Seq<char>,
) -> bool {
    match m.parent {
        None => exists|n: Context| #[trigger]
            window_state::frame_added(a, n, chosen_name(m, generated), plain_seed(a, m))
                && is_plain_root(r, a, n, b, m),
        Some(parent) => exists|n: Context| #[trigger]
            window_state::frame_added(
                a,
                n,
                chosen_name(m, generated),
                child_seed(a, m, a.frame(parent)->0),
            ) && is_plain_child(r, a, n, b, m, parent),
    }
}

pub open spec fn is_plain_root(
    r: Result<MadeFrame, Signal>,
    a: Context,
    n: Context,
    b: Context,
    m: PlainFrameModel,
) -> bool {
    let f = n.frames@.last();
    let seed = plain_seed(a, m);
    &&& r matches Ok(made) && made.frame == a.next_frame && made.explicit_name == (m.name is Some)
        && pair_data(made.parameters@) == m.all + size_params(seed.width, seed.height)
    &&& b == (Context { frames: b.frames, ..n })
    &&& b.frames@ == n.frames@.update(
        n.frames@.len() - 1,
        Frame {
            visible: match m.visibility {
                Some(v) => v,
                None => f.visible,
            },
            undecorated: m.undecorated,
            no_accept_focus: m.no_accept_focus,
            no_split: m.unsplittable,
            ..f
        },
    )
}

/// A child frame is there even where its minibuffer parameter turns out to be wrong.
pub open spec fn is_plain_child(
    r: Result<MadeFrame, Signal>,
    a: Context,
    n: Context,
    b: Context,
    m: PlainFrameModel,
    parent: u64,
) -> bool {
    let f = n.frames@.last();
    let seed = child_seed(a, m, a.frame(parent)->0);
    match child_minibuffer(n, parent, m.minibuffer) {
        None => b == n && (r matches Err(e) && lisp::is_error(
            e,
            "The `minibuffer' parameter does not specify a valid minibuffer window"@,
        )),
        Some(minibuffer) => exists|q: Context, mini_buffer: u64| #[trigger]
            mini_at_hand(n, q, minibuffer, mini_buffer) && {
                &&& r matches Ok(made) && made.frame == a.next_frame && made.explicit_name == (
                m.name is Some) && pair_data(made.parameters@) == m.all + child_params(
                    seed.width,
                    seed.height,
                    minibuffer,
                    parent,
                    m.left,
                    m.top,
                )
                &&& b == (Context { frames: b.frames, windows: b.windows, ..q })
                &&& b.frames@ == n.frames@.update(
                    n.frames@.len() - 1,
                    as_child(f, m, parent, behind(top_child(n.frames@, parent)), minibuffer),
                )
                &&& minibuffer_settled(n.windows@, b.windows@, minibuffer, mini_buffer)
            },
    }
}

/// The session after the minibuffer's buffer was looked up, which only a frame that is
/// nothing but a minibuffer needs.
pub open spec fn mini_at_hand(
    n: Context,
    q: Context,
    minibuffer: ChildMinibuffer,
    mini_buffer: u64,
) -> bool {
    if minibuffer == ChildMinibuffer::Only {
        window_state::buffer_at_hand(n, q, " *Minibuf-0*"@, mini_buffer)
    } else {
        q == n
    }
}

pub fn settle_minibuffer(c: &mut Context, minibuffer: ChildMinibuffer, mini_buffer: u64)
    requires
        old(c).windows@.len() >= 2,
    ensures
        *final(c) == (Context { windows: final(c).windows, ..*old(c) }),
        minibuffer_settled(old(c).windows@, final(c).windows@, minibuffer, mini_buffer),
{
    match minibuffer {
        ChildMinibuffer::Own => {},
        ChildMinibuffer::Shared(_) => {
            let _ = c.windows.pop();
        },
        ChildMinibuffer::Only => {
            let _ = c.windows.pop();
            let k: usize = c.windows.len() - 1;
            c.windows[k].buffer = mini_buffer;
            proof {
                let kept = old(c).windows@.drop_last();
                assert(c.windows@ =~= kept.update(
                    kept.len() - 1,
                    Window { buffer: mini_buffer, ..kept.last() },
                ));
            }
        },
    }
}

fn shape_child(
    f: &mut Frame,
    p: &PlainFrameParams,
    parent: u64,
    z_order: i64,
    minibuffer: ChildMinibuffer,
)
    ensures
        *final(f) == as_child(*old(f), p@, parent, z_order, minibuffer),
{
    f.parent = Some(parent);
    f.z_order = z_order;
    f.left = p.left;
    f.top = p.top;
    match p.visibility {
        Some(v) => {
            f.visible = v;
        },
        None => {},
    }
    f.undecorated = p.undecorated;
    f.no_accept_focus = p.no_accept_focus;
    f.no_split = p.unsplittable;
    match minibuffer {
        ChildMinibuffer::Own => {},
        ChildMinibuffer::Shared(w) => {
            f.minibuffer_window = Some(w);
        },
        ChildMinibuffer::Only => {
            f.minibuffer_window = Some(f.root_window);
            f.no_split = true;
        },
    }
}

fn child_parameters(
    all: Vec<(Value, Value)>,
    width: u32,
    height: u32,
    minibuffer: ChildMinibuffer,
    parent: u64,
    left: i64,
    top: i64,
) -> (r: Vec<(Value, Value)>)
    ensures
        pair_data(r@) == pair_data(all@) + child_params(
            width,
            height,
            minibuffer,
            parent,
            left,
            top,
        ),
{
    let ghost given = pair_data(all@);
    let mut parameters: Vec<(Value, Value)> = all;
    push_param(&mut parameters, "width", Value::Fixnum(width as i64));
    push_param(&mut parameters, "height", Value::Fixnum(height as i64));
    match minibuffer {
        ChildMinibuffer::Shared(w) => {
            push_param(&mut parameters, "minibuffer", Value::Window(w));
        },
        _ => {},
    }
    push_place_params(&mut parameters, Some(parent), left, top);
    proof {
        assert(pair_data(parameters@) =~= given + child_params(
            width,
            height,
            minibuffer,
            parent,
            left,
            top,
        ));
    }
    parameters
}

fn finish_child(
    c: &mut Context,
    p: &PlainFrameParams,
    parent: u64,
    minibuffer: ChildMinibuffer,
    mini_buffer: u64,
)
    requires
        old(c).windows@.len() >= 2,
        old(c).frames@.len() >= 1,
    ensures
        *final(c) == (Context {
            frames: final(c).frames,
            windows: final(c).windows,
            ..*old(c)
        }),
        final(c).frames@ == old(c).frames@.update(
            old(c).frames@.len() - 1,
            as_child(
                old(c).frames@.last(),
                p@,
                parent,
                behind(top_child(old(c).frames@, parent)),
                minibuffer,
            ),
        ),
        minibuffer_settled(old(c).windows@, final(c).windows@, minibuffer, mini_buffer),
{
    let top: i64 = max_child_z_order(&c.frames, parent);
    let z_order: i64 = if top < 9_223_372_036_854_775_807 {
        top + 1
    } else {
        top
    };
    let k: usize = c.frames.len() - 1;
    shape_child(&mut c.frames[k], p, parent, z_order, minibuffer);
    settle_minibuffer(c, minibuffer, mini_buffer);
}

/// Makes a frame in the frame `parent`.
fn make_child(c: &mut Context, p: PlainFrameParams, parent: u64, name: &str) -> (r: Result<
    MadeFrame,
    Signal,
>)
    requires
        old(c).next_frame < u64::MAX,
        old(c).next_window < u64::MAX - 1,
        old(c).next_buffer < u64::MAX,
        old(c).frame(parent) is Some,
    ensures
        exists|n: Context| #[trigger]
            window_state::frame_added(
                *old(c),
                n,
                name@,
                child_seed(*old(c), p@, old(c).frame(parent)->0),
            ) && is_plain_child(r, *old(c), n, *final(c), p@, parent),
{
    let ghost m = p@;
    let buffer: u64 = current_buffer_or_zero(c);
    let (terminal, cw, ch): (u64, u32, u32) = match c.get_frame(parent) {
        Some(f) => (f.terminal, f.char_width, f.char_height),
        None => (0, 1, 1),
    };
    let raw_width: u32 = plain_side_of(p.width, cw, 800);
    let raw_height: u32 = plain_side_of(p.height, ch, 600);
    let seed: FrameSeed = FrameSeed {
        terminal: terminal,
        width: if raw_width >= 1 {
            raw_width
        } else {
            1
        },
        height: if raw_height >= 1 {
            raw_height
        } else {
            1
        },
        char_width: if cw >= 1 {
            cw
        } else {
            1
        },
        char_height: if ch >= 1 {
            ch
        } else {
            1
        },
        initial: false,
        graphical: false,
        buffer: buffer,
        mini_buffer: buffer,
    };
    proof {
        assert(seed == child_seed(*old(c), m, old(c).frame(parent)->0));
    }
    let id: u64 = c.add_frame(name, seed);
    let ghost n = *c;
    proof {
        assert(window_state::frame_added(*old(c), n, name@, seed));
    }
    let minibuffer: ChildMinibuffer = match resolve_child_shared_minibuffer(
        c,
        parent,
        &p.minibuffer,
    ) {
        Ok(x) => x,
        Err(e) => {
            return Err(e);
        },
    };
    let mini_buffer: u64 = match minibuffer {
        ChildMinibuffer::Only => c.find_or_create_buffer(" *Minibuf-0*"),
        _ => 0,
    };
    proof {
        assert(mini_at_hand(n, *c, minibuffer, mini_buffer));
    }
    finish_child(c, &p, parent, minibuffer, mini_buffer);
    let explicit_name: bool = p.name.is_some();
    let (left, top): (i64, i64) = (p.left, p.top);
    let parameters: Vec<(Value, Value)> = child_parameters(
        p.all,
        seed.width,
        seed.height,
        minibuffer,
        parent,
        left,
        top,
    );
    Ok(MadeFrame { frame: id, explicit_name: explicit_name, parameters: parameters })
}

/// Makes a frame that is in no other.
fn make_root(c: &mut Context, p: PlainFrameParams, name: &str) -> (r: Result<MadeFrame, Signal>)
    requires
        old(c).next_frame < u64::MAX,
        old(c).next_window < u64::MAX - 1,
    ensures
        exists|n: Context| #[trigger]
            window_state::frame_added(*old(c), n, name@, plain_seed(*old(c), p@))
                && is_plain_root(r, *old(c), n, *final(c), p@),
{
    let ghost m = p@;
    let buffer: u64 = current_buffer_or_zero(c);
    let width: u32 = plain_side_of(p.width, 1, 800);
    let height: u32 = plain_side_of(p.height, 1, 600);
    let seed: FrameSeed = FrameSeed {
        terminal: 0,
        width: width,
        height: height,
        char_width: 8,
        char_height: 16,
        initial: false,
        graphical: false,
        buffer: buffer,
        mini_buffer: buffer,
    };
    let id: u64 = c.add_frame(name, seed);
    let ghost n = *c;
    proof {
        assert(window_state::frame_added(*old(c), n, name@, plain_seed(*old(c), m)));
    }
    let k: usize = c.frames.len() - 1;
    match p.visibility {
        Some(v) => {
            c.frames[k].visible = v;
        },
        None => {},
    }
    c.frames[k].undecorated = p.undecorated;
    c.frames[k].no_accept_focus = p.no_accept_focus;
    c.frames[k].no_split = p.unsplittable;
    proof {
        assert(c.frames@ =~= n.frames@.update(k as int, c.frames@[k as int]));
    }
    let explicit_name: bool = p.name.is_some();
    let mut parameters: Vec<(Value, Value)> = p.all;
    push_param(&mut parameters, "width", Value::Fixnum(width as i64));
    push_param(&mut parameters, "height", Value::Fixnum(height as i64));
    proof {
        assert(pair_data(parameters@) =~= m.all + size_params(width, height));
    }
    Ok(MadeFrame { frame: id, explicit_name: explicit_name, parameters: parameters })
}

/// Makes a frame without a window system of its own: in another frame, where the
/// parameters say so. A generated name is used up even where the parameters give one.
pub fn make_frame_plain(c: &mut Context, params: Option<&Value>) -> (r: Result<MadeFrame, Signal>)
    requires
        old(c).has_room(),
    ensures
        is_plain_frame(
            r,
            name_taken(*old(c)),
            *final(c),
            plain_params(name_taken(*old(c)), param_items(lisp::given(params))),
            generated_name(*old(c)),
        ),
{
    let generated: String = next_generated_tty_frame_name(c);
    let p: PlainFrameParams = parse_plain_frame_params(c, params);
    let name: String = match &p.name {
        Some(n) => text::copy(n.as_str()),
        None => generated,
    };
    proof {
        lemma_plain_parent(*c, param_items(lisp::given(params)));
        assert(name@ == chosen_name(p@, generated_name(*old(c))));
    }
    match p.parent {
        Some(parent) => make_child(c, p, parent, name.as_str()),
        None => make_root(c, p, name.as_str()),
    }
}

/// Where the making of a frame succeeds, the frame has the name that its parameters give,
/// else the generated one; a generated name is used up in any case. So a frame of a given
/// name, like a mere use of a generated name, leaves the next frame without a name the
/// same one.
pub proof fn law_given_name_uses_up_a_generated_one(
    r: Result<MadeFrame, Signal>,
    a: Context,
    b: Context,
    m: PlainFrameModel,
)
    requires
        is_plain_frame(r, name_taken(a), b, m, generated_name(a)),
    ensures
        generated_name(b) == generated_name(name_taken(a)),
        b.frames@.len() == a.frames@.len() + 1,
        b.frames@.last().name@ == match m.name {
            Some(n) => n,
            None => generated_name(a),
        },
{
}

/// A parent that is read from parameters is there.
pub proof fn lemma_plain_parent(c: Context, items: Seq<Datum>)
    ensures
        plain_params(c, items).parent matches Some(p) ==> c.frame(p) is Some,
    decreases items.len(),
{
    if items.len() > 0 {
        lemma_plain_parent(c, items.drop_last());
    }
}

} // verus!
