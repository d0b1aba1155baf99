//! How graphical frames are made.
use vstd::prelude::*;

use crate::frame_make;
use crate::frame_make::ChildMinibuffer;
use crate::frame_size;
use crate::lisp;
use crate::lisp::{Datum, FrameSizeParam, Signal, Value};
use crate::text;
use crate::window_select;
use crate::window_state;
use crate::window_state::{Context, Frame, FrameSeed, Window};

verus! {

/// What a graphical frame is asked to be. `all` holds every parameter once, as it was
/// given last.
#[derive(Debug)]
pub struct ParsedGuiFrameParams {
    pub name: Option<String>,
    pub title: Option<String>,
    pub width: Option<FrameSizeParam>,
    pub height: Option<FrameSizeParam>,
    pub visibility: Option<bool>,
    pub parent_frame: Option<u64>,
    pub left: Option<i64>,
    pub top: Option<i64>,
    pub fullscreen: Option<Value>,
    pub minibuffer: Option<Value>,
    pub internal_border_width: Option<i64>,
    pub child_frame_border_width: Option<i64>,
    pub undecorated: bool,
    pub no_accept_focus: bool,
    pub unsplittable: bool,
    pub all: Vec<(String, Value)>,
}

/// What such parameters are.
pub struct GuiFrameModel {
    pub name: Option<Seq<char>>,
    pub title: Option<Seq<char>>,
    pub width: Option<FrameSizeParam>,
    pub height: Option<FrameSizeParam>,
    pub visibility: Option<bool>,
    pub parent_frame: Option<u64>,
    pub left: Option<i64>,
    pub top: Option<i64>,
    pub fullscreen: Option<Datum>,
    pub minibuffer: Option<Datum>,
    pub internal_border_width: Option<i64>,
    pub child_frame_border_width: Option<i64>,
    pub undecorated: bool,
    pub no_accept_focus: bool,
    pub unsplittable: bool,
    pub all: Seq<(Seq<char>, Datum)>,
}

pub open spec fn named_data(v: Seq<(String, Value)>) -> Seq<(Seq<char>, Datum)> {
    Seq::new(v.len(), |i: int| (v[i].0@, v[i].1@))
}

impl View for ParsedGuiFrameParams {
    type V = GuiFrameModel;

    open spec fn view(&self) -> GuiFrameModel {
        GuiFrameModel {
            name: frame_make::opt_chars(self.name),
            title: frame_make::opt_chars(self.title),
            width: self.width,
            height: self.height,
            visibility: self.visibility,
            parent_frame: self.parent_frame,
            left: self.left,
            top: self.top,
            fullscreen: frame_make::opt_datum(self.fullscreen),
            minibuffer: frame_make::opt_datum(self.minibuffer),
            internal_border_width: self.internal_border_width,
            child_frame_border_width: self.child_frame_border_width,
            undecorated: self.undecorated,
            no_accept_focus: self.no_accept_focus,
            unsplittable: self.unsplittable,
            all: named_data(self.all@),
        }
    }
}

pub open spec fn no_gui_params() -> GuiFrameModel {
    GuiFrameModel {
        name: None,
        title: None,
        width: None,
        height: None,
        visibility: None,
        parent_frame: None,
        left: None,
        top: None,
        fullscreen: None,
        minibuffer: None,
        internal_border_width: None,
        child_frame_border_width: None,
        undecorated: false,
        no_accept_focus: false,
        unsplittable: false,
        all: Seq::empty(),
    }
}

/// A table with a value for a key, in place of the one that it had.
pub open spec fn with_entry(s: Seq<(Seq<char>, Datum)>, key: Seq<char>, d: Datum) -> Seq<
    (Seq<char>, Datum),
>
    decreases s.len(),
{
    if s.len() == 0 {
        seq![(key, d)]
    } else if s[0].0 == key {
        seq![(key, d)] + s.subrange(1, s.len() as int)
    } else {
        seq![s[0]] + with_entry(s.subrange(1, s.len() as int), key, d)
    }
}

/// The value for a key.
pub open spec fn entry_of(s: Seq<(Seq<char>, Datum)>, key: Seq<char>) -> Option<Datum>
    decreases s.len(),
{
    if s.len() == 0 {
        None
    } else if s[0].0 == key {
        Some(s[0].1)
    } else {
        entry_of(s.subrange(1, s.len() as int), key)
    }
}

/// The value that was put in for a key is the one that is found; the others stay.
pub proof fn law_last_parameter_counts(s: Seq<(Seq<char>, Datum)>, key: Seq<char>, d: Datum)
    ensures
        entry_of(with_entry(s, key, d), key) == Some(d),
        forall|k: Seq<char>|
            k != key ==> #[trigger] entry_of(with_entry(s, key, d), k) == entry_of(s, k),
    decreases s.len(),
{
    let r = with_entry(s, key, d);
    if s.len() > 0 {
        let t = s.subrange(1, s.len() as int);
        if s[0].0 == key {
            assert(r.subrange(1, r.len() as int) =~= t);
        } else {
            law_last_parameter_counts(t, key, d);
            assert(r.subrange(1, r.len() as int) =~= with_entry(t, key, d));
            assert forall|k: Seq<char>| k != key implies #[trigger] entry_of(r, k) == entry_of(
                s,
                k,
            ) by {
                assert(entry_of(with_entry(t, key, d), k) == entry_of(t, k));
            }
        }
    } else {
        assert(r.subrange(1, r.len() as int) =~= Seq::empty());
        assert forall|k: Seq<char>| k != key implies #[trigger] entry_of(r, k) == entry_of(
            s,
            k,
        ) by {
            assert(entry_of(r.subrange(1, r.len() as int), k) is None);
        }
    }
}

proof fn lemma_entry_at(s: Seq<(Seq<char>, Datum)>, key: Seq<char>, d: Datum, i: int)
    requires
        0 <= i <= s.len(),
        forall|k: int| 0 <= k < i ==> (#[trigger] s[k]).0 != key,
        i < s.len() ==> s[i].0 == key,
    ensures
        with_entry(s, key, d) == if i < s.len() {
            s.update(i, (key, d))
        } else {
            s.push((key, d))
        },
        entry_of(s, key) == if i < s.len() {
            Some(s[i].1)
        } else {
            None
        },
    decreases s.len(),
{
    if s.len() == 0 {
        assert(seq![(key, d)] =~= s.push((key, d)));
    } else {
        let t = s.subrange(1, s.len() as int);
        if i == 0 {
            assert(seq![(key, d)] + t =~= s.update(0, (key, d)));
        } else {
            assert forall|k: int| 0 <= k < i - 1 implies (#[trigger] t[k]).0 != key by {
                assert(t[k] == s[k + 1]);
            }
            lemma_entry_at(t, key, d, i - 1);
            if i < s.len() {
                assert(seq![s[0]] + t.update(i - 1, (key, d)) =~= s.update(i, (key, d)));
            } else {
                assert(seq![s[0]] + t.push((key, d)) =~= s.push((key, d)));
            }
        }
    }
}

fn find_entry(v: &Vec<(String, Value)>, key: &str) -> (r: usize)
    ensures
        r <= v.len(),
        forall|k: int| 0 <= k < r ==> (#[trigger] named_data(v@)[k]).0 != key@,
        r < v.len() ==> named_data(v@)[r as int].0 == key@,
{
    let mut i: usize = 0;
    while i < v.len()
        invariant
            i <= v.len(),
            forall|k: int| 0 <= k < i ==> (#[trigger] named_data(v@)[k]).0 != key@,
        decreases v.len() - i,
    {
        if text::same(v[i].0.as_str(), key) {
            return i;
        }
        i += 1;
    }
    i
}

fn put_entry(v: &mut Vec<(String, Value)>, key: &str, value: &Value)
    ensures
        named_data(final(v)@) == with_entry(named_data(old(v)@), key@, value@),
{
    let i: usize = find_entry(v, key);
    proof {
        lemma_entry_at(named_data(v@), key@, value@, i as int);
    }
    let entry: (String, Value) = (text::copy(key), lisp::copy(value));
    if i < v.len() {
        v.set(i, entry);
        proof {
            assert(named_data(v@) =~= named_data(old(v)@).update(i as int, (key@, value@)));
        }
    } else {
        v.push(entry);
        proof {
            assert(named_data(v@) =~= named_data(old(v)@).push((key@, value@)));
        }
    }
}

/// A size, unless it is nothing.
pub open spec fn real_size(d: Datum) -> Option<FrameSizeParam> {
    match lisp::size_param_of(d) {
        Some(FrameSizeParam::Cells(n)) => if n == 0 {
            None
        } else {
            Some(FrameSizeParam::Cells(n))
        },
        Some(FrameSizeParam::TextPixels(px)) => if px == 0 {
            None
        } else {
            Some(FrameSizeParam::TextPixels(px))
        },
        None => None,
    }
}

fn parse_real_size(v: &Value) -> (r: Option<FrameSizeParam>)
    ensures
        r == real_size(v@),
{
    match lisp::parse_frame_size_param(v) {
        Some(s) => if s.is_zero() {
            None
        } else {
            Some(s)
        },
        None => None,
    }
}

pub open spec fn int_of(d: Datum) -> Option<i64> {
    match d {
        Datum::Fixnum(n) => Some(n as i64),
        _ => None,
    }
}

/// What one parameter adds. A later one counts even where it makes no sense.
pub open spec fn gui_param(m: GuiFrameModel, key: Seq<char>, d: Datum) -> GuiFrameModel {
    if key == "name"@ {
        GuiFrameModel { name: lisp::stringish(d), ..m }
    } else if key == "title"@ {
        GuiFrameModel { title: lisp::stringish(d), ..m }
    } else if key == "width"@ {
        GuiFrameModel { width: real_size(d), ..m }
    } else if key == "height"@ {
        GuiFrameModel { height: real_size(d), ..m }
    } else if key == "visibility"@ {
        GuiFrameModel { visibility: Some(!(d is Nil)), ..m }
    } else if key == "parent-frame"@ {
        match d {
            Datum::Frame(id) => GuiFrameModel { parent_frame: Some(id), ..m },
            _ => m,
        }
    } else if key == "left"@ {
        GuiFrameModel { left: int_of(d), ..m }
    } else if key == "top"@ {
        GuiFrameModel { top: int_of(d), ..m }
    } else if key == "fullscreen"@ {
        GuiFrameModel { fullscreen: Some(d), ..m }
    } else if key == "minibuffer"@ {
        GuiFrameModel { minibuffer: Some(d), ..m }
    } else if key == "internal-border-width"@ {
        GuiFrameModel { internal_border_width: int_of(d), ..m }
    } else if key == "child-frame-border-width"@ {
        GuiFrameModel { child_frame_border_width: int_of(d), ..m }
    } else if key == "undecorated"@ {
        GuiFrameModel { undecorated: !(d is Nil), ..m }
    } else if key == "no-accept-focus"@ {
        GuiFrameModel { no_accept_focus: !(d is Nil), ..m }
    } else if key == "unsplittable"@ {
        GuiFrameModel { unsplittable: !(d is Nil), ..m }
    } else {
        m
    }
}

pub open spec fn gui_entry(m: GuiFrameModel, d: Datum) -> GuiFrameModel {
    match d {
        Datum::Pair(k, v) => match lisp::symbol_name(*k) {
            Some(name) => gui_param(
                GuiFrameModel { all: with_entry(m.all, name, *v), ..m },
                name,
                *v,
            ),
            None => m,
        },
        _ => m,
    }
}

/// What a list of parameters comes to.
pub open spec fn gui_params(items: Seq<Datum>) -> GuiFrameModel
    decreases items.len(),
{
    if items.len() == 0 {
        no_gui_params()
    } else {
        gui_entry(gui_params(items.drop_last()), items.last())
    }
}

fn take_gui_param(p: &mut ParsedGuiFrameParams, key: &str, v: &Value)
    ensures
        final(p)@ == gui_param(old(p)@, key@, v@),
{
    if text::same(key, "name") {
        p.name = lisp::stringish_value(v);
    } else if text::same(key, "title") {
        p.title = lisp::stringish_value(v);
    } else if text::same(key, "width") {
        p.width = parse_real_size(v);
    } else if text::same(key, "height") {
        p.height = parse_real_size(v);
    } else if text::same(key, "visibility") {
        p.visibility = Some(!lisp::is_nil(v));
    } else if text::same(key, "parent-frame") {
        match v {
            Value::Frame(id) => {
                p.parent_frame = Some(*id);
            },
            _ => {},
        }
    } else if text::same(key, "left") {
        p.left = lisp::as_int(v);
    } else if text::same(key, "top") {
        p.top = lisp::as_int(v);
    } else if text::same(key, "fullscreen") {
        p.fullscreen = Some(lisp::copy(v));
    } else if text::same(key, "minibuffer") {
        p.minibuffer = Some(lisp::copy(v));
    } else if text::same(key, "internal-border-width") {
        p.internal_border_width = lisp::as_int(v);
    } else if text::same(key, "child-frame-border-width") {
        p.child_frame_border_width = lisp::as_int(v);
    } else if text::same(key, "undecorated") {
        p.undecorated = !lisp::is_nil(v);
    } else if text::same(key, "no-accept-focus") {
        p.no_accept_focus = !lisp::is_nil(v);
    } else if text::same(key, "unsplittable") {
        p.unsplittable = !lisp::is_nil(v);
    }
}

fn take_gui_entry(p: &mut ParsedGuiFrameParams, item: &Value)
    ensures
        final(p)@ == gui_entry(old(p)@, item@),
{
    match item {
        Value::Pair(k, v) => match lisp::name_of(k) {
            Some(name) => {
                put_entry(&mut p.all, name, v);
                take_gui_param(p, name, v);
            },
            None => {},
        },
        _ => {},
    }
}

/// Reads the parameters of a graphical frame.
pub fn parse_gui_frame_params(params: Option<&Value>) -> (r: ParsedGuiFrameParams)
    ensures
        r@ == gui_params(frame_make::param_items(lisp::given(params))),
{
    let mut p: ParsedGuiFrameParams = ParsedGuiFrameParams {
        name: None,
        title: None,
        width: None,
        height: None,
        visibility: None,
        parent_frame: None,
        left: None,
        top: None,
        fullscreen: None,
        minibuffer: None,
        internal_border_width: None,
        child_frame_border_width: None,
        undecorated: false,
        no_accept_focus: false,
        unsplittable: false,
        all: Vec::new(),
    };
    proof {
        assert(named_data(p.all@) =~= Seq::empty());
        assert(lisp::list_items(Datum::Nil) == Some(Seq::<Datum>::empty()));
    }
    let items: Vec<Value> = match params {
        Some(v) => match lisp::list_to_vec(v) {
            Some(items) => items,
            None => Vec::new(),
        },
        None => Vec::new(),
    };
    let ghost all = lisp::data(items@);
    proof {
        assert(all =~= frame_make::param_items(lisp::given(params)));
        assert(all.subrange(0, 0) =~= Seq::empty());
    }
    let mut i: usize = 0;
    while i < items.len()
        invariant
            i <= items.len(),
            all == lisp::data(items@),
            p@ == gui_params(all.subrange(0, i as int)),
        decreases items.len() - i,
    {
        proof {
            assert(all.subrange(0, i + 1).drop_last() =~= all.subrange(0, i as int));
            assert(all.subrange(0, i + 1).last() == items@[i as int]@);
        }
        take_gui_entry(&mut p, &items[i]);
        i += 1;
    }
    proof {
        assert(all.subrange(0, all.len() as int) =~= all);
    }
    p
}

/// The border that a frame is asked for: a child frame's own one before the general.
pub open spec fn effective_border(m: GuiFrameModel, is_child: bool) -> u32 {
    let asked = if is_child && m.child_frame_border_width is Some {
        m.child_frame_border_width
    } else {
        m.internal_border_width
    };
    match asked {
        Some(w) => (frame_size::at_least(w as int, 0) as i64) as u32,
        None => 0,
    }
}

pub fn parsed_effective_internal_border_width(p: &ParsedGuiFrameParams, is_child: bool) -> (r: u32)
    ensures
        r == effective_border(p@, is_child),
{
    let asked: Option<i64> = if is_child && p.child_frame_border_width.is_some() {
        p.child_frame_border_width
    } else {
        p.internal_border_width
    };
    match asked {
        Some(w) => {
            let n: i64 = if w >= 0 {
                w
            } else {
                0
            };
            n as u32
        },
        None => 0,
    }
}

/// What a new graphical frame takes over where nothing else is asked for.
#[derive(Debug, Clone, Copy, PartialEq, Eq, Structural)]
pub struct GuiFrameMetrics {
    pub width_px: u32,
    pub height_px: u32,
    pub char_width: u32,
    pub char_height: u32,
    pub minibuffer_height: u32,
}

/// The height of a frame's minibuffer, one cell at least.
pub open spec fn mini_height(c: Context, f: Frame) -> int {
    let least = frame_size::cell(f.char_height);
    match f.minibuffer_window {
        Some(w) => match c.window(w) {
            Some(win) => if win.mini && win.frame == f.id {
                frame_size::at_most(
                    frame_size::at_least(win.bounds.height as int, least),
                    u32::MAX as int,
                )
            } else {
                least
            },
            None => least,
        },
        None => least,
    }
}

fn minibuffer_height_of(c: &Context, f: &Frame) -> (r: u32)
    ensures
        r == mini_height(*c, *f),
{
    let least: u32 = if f.char_height >= 1 {
        f.char_height
    } else {
        1
    };
    match f.minibuffer_window {
        Some(w) => match c.get_window(w) {
            Some(win) => if win.mini && win.frame == f.id {
                let h: i64 = win.bounds.height;
                if h <= least as i64 {
                    least
                } else if h > 4_294_967_295 {
                    4_294_967_295
                } else {
                    h as u32
                }
            } else {
                least
            },
            None => least,
        },
        None => least,
    }
}

/// The metrics of a frame, as a child frame takes them over.
pub open spec fn frame_metrics(c: Context, f: Frame) -> GuiFrameMetrics {
    GuiFrameMetrics {
        width_px: frame_size::at_least(f.width as int, 1) as u32,
        height_px: frame_size::at_least(f.height as int, 1) as u32,
        char_width: frame_size::cell(f.char_width) as u32,
        char_height: frame_size::cell(f.char_height) as u32,
        minibuffer_height: mini_height(c, f) as u32,
    }
}

/// The metrics of a session: those of the selected frame, which is one pixel higher
/// than its minibuffer at least, else a default.
pub open spec fn current_metrics(c: Context) -> GuiFrameMetrics {
    match c.selected() {
        Some(f) => GuiFrameMetrics {
            height_px: frame_size::at_least(
                f.height as int,
                frame_size::at_most(mini_height(c, f) + 1, u32::MAX as int),
            ) as u32,
            ..frame_metrics(c, f)
        },
        None => GuiFrameMetrics {
            width_px: 960,
            height_px: 640,
            char_width: 8,
            char_height: 16,
            minibuffer_height: 32,
        },
    }
}

fn metrics_of_frame(c: &Context, f: &Frame) -> (r: GuiFrameMetrics)
    ensures
        r == frame_metrics(*c, *f),
{
    GuiFrameMetrics {
        width_px: if f.width >= 1 {
            f.width
        } else {
            1
        },
        height_px: if f.height >= 1 {
            f.height
        } else {
            1
        },
        char_width: if f.char_width >= 1 {
            f.char_width
        } else {
            1
        },
        char_height: if f.char_height >= 1 {
            f.char_height
        } else {
            1
        },
        minibuffer_height: minibuffer_height_of(c, f),
    }
}

pub fn current_gui_frame_metrics(c: &Context) -> (r: GuiFrameMetrics)
    ensures
        r == current_metrics(*c),
{
    match c.get_selected_frame() {
        Some(f) => {
            let own: GuiFrameMetrics = metrics_of_frame(c, f);
            let mini: u32 = own.minibuffer_height;
            let least: u32 = if mini < 4_294_967_295 {
                mini + 1
            } else {
                mini
            };
            GuiFrameMetrics {
                width_px: own.width_px,
                height_px: if f.height >= least {
                    f.height
                } else {
                    least
                },
                char_width: own.char_width,
                char_height: own.char_height,
                minibuffer_height: mini,
            }
        },
        None => GuiFrameMetrics {
            width_px: 960,
            height_px: 640,
            char_width: 8,
            char_height: 16,
            minibuffer_height: 32,
        },
    }
}

/// What the host of graphical frames says.
#[derive(Debug, Clone, Copy, PartialEq, Eq, Structural)]
pub struct HostFacts {
    /// The size of its first window.
    pub width: u32,
    pub height: u32,
    pub size_known: bool,
    /// Its first window waits for a frame.
    pub opening_pending: bool,
}

/// The size of the host's window, where it is one.
pub open spec fn host_size(h: Option<HostFacts>) -> Option<(u32, u32)> {
    match h {
        Some(x) => if x.size_known && x.width > 0 && x.height > 0 {
            Some((x.width, x.height))
        } else {
            None
        },
        None => None,
    }
}

pub fn current_primary_window_size(h: Option<HostFacts>) -> (r: Option<(u32, u32)>)
    ensures
        r == host_size(h),
{
    match h {
        Some(x) => if x.size_known && x.width > 0 && x.height > 0 {
            Some((x.width, x.height))
        } else {
            None
        },
        None => None,
    }
}

/// A side of a graphical frame: what is asked for, with the border; else that of its
/// parent; else that of the host's window; else a default.
pub open spec fn gui_side(
    asked: Option<FrameSizeParam>,
    side: u32,
    border: u32,
    is_child: bool,
    host: Option<u32>,
    own: u32,
) -> u32 {
    match asked {
        Some(s) => frame_size::at_most(
            frame_size::size_in_pixels(s, side) + 2 * border,
            u32::MAX as int,
        ) as u32,
        None => if is_child {
            own
        } else {
            match host {
                Some(n) => n,
                None => own,
            }
        },
    }
}

fn gui_side_of(
    asked: Option<FrameSizeParam>,
    side: u32,
    border: u32,
    is_child: bool,
    host: Option<u32>,
    own: u32,
) -> (r: u32)
    ensures
        r == gui_side(asked, side, border, is_child, host, own),
{
    match asked {
        Some(s) => {
            let px: u64 = frame_size::frame_size_param_to_pixels(s, side) as u64;
            let all: u64 = px + 2 * (border as u64);
            if all <= 4_294_967_295 {
                all as u32
            } else {
                4_294_967_295
            }
        },
        None => if is_child {
            own
        } else {
            match host {
                Some(n) => n,
                None => own,
            }
        },
    }
}

/// The first of some frames whose font is known.
pub open spec fn first_with_font(v: Seq<Frame>) -> Option<u64>
    decreases v.len(),
{
    if v.len() == 0 {
        None
    } else if v[0].has_font {
        Some(v[0].id)
    } else {
        first_with_font(v.subrange(1, v.len() as int))
    }
}

/// The frame whose font a new one takes over: none where a font is asked for; else the
/// parent, the selected frame, or any other whose font is known.
pub open spec fn font_source(c: Context, m: GuiFrameModel, parent: Option<u64>) -> Option<u64> {
    if entry_of(m.all, "font"@) is Some {
        None
    } else if parent is Some && c.frame(parent->0)->0.has_font {
        parent
    } else if c.selected() is Some && c.selected()->0.has_font {
        c.selected_frame
    } else {
        first_with_font(c.frames@)
    }
}

fn find_font(v: &Vec<Frame>) -> (r: Option<u64>)
    ensures
        r == first_with_font(v@),
{
    let mut i: usize = 0;
    proof {
        assert(v@.subrange(0, v.len() as int) =~= v@);
    }
    while i < v.len()
        invariant
            i <= v.len(),
            first_with_font(v@) == first_with_font(v@.subrange(i as int, v.len() as int)),
        decreases v.len() - i,
    {
        let ghost rest = v@.subrange(i as int, v.len() as int);
        proof {
            assert(rest.subrange(1, rest.len() as int) =~= v@.subrange(i + 1, v.len() as int));
        }
        if v[i].has_font {
            return Some(v[i].id);
        }
        i += 1;
    }
    None
}

fn find_font_source(c: &Context, p: &ParsedGuiFrameParams, parent: Option<u64>) -> (r: Option<u64>)
    requires
        parent matches Some(id) ==> c.frame(id) is Some,
    ensures
        r == font_source(*c, p@, parent),
{
    let at: usize = find_entry(&p.all, "font");
    proof {
        lemma_entry_at(named_data(p.all@), "font"@, Datum::Nil, at as int);
    }
    if at < p.all.len() {
        return None;
    }
    match parent {
        Some(id) => match c.get_frame(id) {
            Some(f) => {
                if f.has_font {
                    return parent;
                }
            },
            None => {},
        },
        None => {},
    }
    match c.get_selected_frame() {
        Some(f) => {
            if f.has_font {
                return c.selected_frame;
            }
        },
        None => {},
    }
    find_font(&c.frames)
}

/// What is decided of a graphical frame before it is made.
#[derive(Debug, Clone, Copy, PartialEq, Eq, Structural)]
pub struct GuiFramePlan {
    pub parent: Option<u64>,
    pub width: u32,
    pub height: u32,
    pub metrics: GuiFrameMetrics,
    pub font_from: Option<u64>,
    /// The frame whose display the new one is on.
    pub display_from: Option<u64>,
}

/// The parent that is asked for, if it is there.
pub open spec fn live_parent(c: Context, m: GuiFrameModel) -> Option<u64> {
    match m.parent_frame {
        Some(id) => if c.frame(id) is Some {
            Some(id)
        } else {
            None
        },
        None => None,
    }
}

pub open spec fn gui_plan(c: Context, m: GuiFrameModel, host: Option<HostFacts>) -> GuiFramePlan {
    let parent = live_parent(c, m);
    let is_child = parent is Some;
    let metrics = match parent {
        Some(id) => frame_metrics(c, c.frame(id)->0),
        None => current_metrics(c),
    };
    let border = effective_border(m, is_child);
    GuiFramePlan {
        parent: parent,
        width: gui_side(
            m.width,
            metrics.char_width,
            border,
            is_child,
            match host_size(host) {
                Some((w, _)) => Some(w),
                None => None,
            },
            metrics.width_px,
        ),
        height: gui_side(
            m.height,
            metrics.char_height,
            border,
            is_child,
            match host_size(host) {
                Some((_, h)) => Some(h),
                None => None,
            },
            metrics.height_px,
        ),
        metrics: metrics,
        font_from: font_source(c, m, parent),
        display_from: match parent {
            Some(id) => Some(id),
            None => match c.selected() {
                Some(_) => c.selected_frame,
                None => None,
            },
        },
    }
}

/// Decides of a graphical frame what does not depend on its minibuffer.
pub fn plan_gui_frame(c: &Context, p: &ParsedGuiFrameParams, host: Option<HostFacts>) -> (r:
    GuiFramePlan)
    ensures
        r == gui_plan(*c, p@, host),
{
    let parent: Option<u64> = match p.parent_frame {
        Some(id) => if c.get_frame(id).is_some() {
            Some(id)
        } else {
            None
        },
        None => None,
    };
    let is_child: bool = parent.is_some();
    let metrics: GuiFrameMetrics = match parent {
        Some(id) => match c.get_frame(id) {
            Some(f) => metrics_of_frame(c, f),
            None => current_gui_frame_metrics(c),
        },
        None => current_gui_frame_metrics(c),
    };
    let border: u32 = parsed_effective_internal_border_width(p, is_child);
    let size: Option<(u32, u32)> = current_primary_window_size(host);
    let (host_width, host_height): (Option<u32>, Option<u32>) = match size {
        Some((w, h)) => (Some(w), Some(h)),
        None => (None, None),
    };
    let display_from: Option<u64> = match parent {
        Some(id) => Some(id),
        None => match c.get_selected_frame() {
            Some(_) => c.selected_frame,
            None => None,
        },
    };
    GuiFramePlan {
        parent: parent,
        width: gui_side_of(
            p.width,
            metrics.char_width,
            border,
            is_child,
            host_width,
            metrics.width_px,
        ),
        height: gui_side_of(
            p.height,
            metrics.char_height,
            border,
            is_child,
            host_height,
            metrics.height_px,
        ),
        metrics: metrics,
        font_from: find_font_source(c, p, parent),
        display_from: display_from,
    }
}

/// What the host shows as a frame's title: its title, else its name, else that of the
/// program.
pub open spec fn host_title(m: GuiFrameModel) -> Seq<char> {
    match (m.title, m.name) {
        (Some(t), _) => t,
        (None, Some(n)) => n,
        (None, None) => "Neomacs"@,
    }
}

pub open spec fn gui_name(m: GuiFrameModel) -> Seq<char> {
    match m.name {
        Some(n) => n,
        None => host_title(m),
    }
}

fn title_for_host(p: &ParsedGuiFrameParams) -> (r: String)
    ensures
        r@ == host_title(p@),
{
    match &p.title {
        Some(t) => text::copy(t.as_str()),
        None => match &p.name {
            Some(n) => text::copy(n.as_str()),
            None => text::copy("Neomacs"),
        },
    }
}

/// A graphical frame that was made, and what is left to do for it.
#[derive(Debug)]
pub struct MadeGuiFrame {
    pub frame: u64,
    pub plan: GuiFramePlan,
    pub buffer: u64,
    pub title: Option<String>,
    pub host_title: String,
    /// The height that the minibuffer is given.
    pub minibuffer_height: u32,
    /// The host makes a window for the frame.
    pub realize: bool,
    /// Once it has, the frame is selected.
    pub adopt: bool,
    pub fullscreen: Option<Value>,
    pub asked: Vec<(String, Value)>,
    pub placed: Vec<(Value, Value)>,
}

/// The graphical frame that a new frame becomes.
pub open spec fn as_gui(
    f: Frame,
    m: GuiFrameModel,
    parent: Option<u64>,
    z_order: i64,
    minibuffer: ChildMinibuffer,
) -> Frame {
    Frame {
        visible: match m.visibility {
            Some(v) => v,
            None => f.visible,
        },
        parent: parent,
        z_order: if parent is Some {
            z_order
        } else {
            f.z_order
        },
        left: match m.left {
            Some(n) => n,
            None => 0,
        },
        top: match m.top {
            Some(n) => n,
            None => 0,
        },
        undecorated: m.undecorated,
        no_accept_focus: m.no_accept_focus,
        no_split: m.unsplittable || minibuffer == ChildMinibuffer::Only,
        minibuffer_window: match minibuffer {
            ChildMinibuffer::Own => f.minibuffer_window,
            ChildMinibuffer::Shared(w) => Some(w),
            ChildMinibuffer::Only => Some(f.root_window),
        },
        ..f
    }
}

fn shape_gui(
    f: &mut Frame,
    p: &ParsedGuiFrameParams,
    parent: Option<u64>,
    z_order: i64,
    minibuffer: ChildMinibuffer,
)
    ensures
        *final(f) == as_gui(*old(f), p@, parent, z_order, minibuffer),
{
    match p.visibility {
        Some(v) => {
            f.visible = v;
        },
        None => {},
    }
    f.parent = parent;
    if parent.is_some() {
        f.z_order = z_order;
    }
    f.left = match p.left {
        Some(n) => n,
        None => 0,
    };
    f.top = match p.top {
        Some(n) => n,
        None => 0,
    };
    f.undecorated = p.undecorated;
    f.no_accept_focus = p.no_accept_focus;
    f.no_split = p.unsplittable;
    match minibuffer {
        ChildMinibuffer::Own => {},
        ChildMinibuffer::Shared(w) => {
            f.minibuffer_window = Some(w);
        },
        ChildMinibuffer::Only => {
            f.minibuffer_window = Some(f.root_window);
            f.no_split = true;
        },
    }
}

/// The minibuffer of a new graphical frame: only a child frame has a choice.
pub open spec fn gui_minibuffer(c: Context, m: GuiFrameModel, parent: Option<u64>) -> Option<
    ChildMinibuffer,
> {
    match parent {
        Some(id) => frame_make::child_minibuffer(c, id, m.minibuffer),
        None => Some(ChildMinibuffer::Own),
    }
}

/// The buffer that the frame's minibuffer shows, and the session after it was looked
/// up. A frame that is nothing but a minibuffer has it made.
pub open spec fn gui_mini_at_hand(
    m: Context,
    q: Context,
    minibuffer: ChildMinibuffer,
    buffer: u64,
    mini_buffer: u64,
) -> bool {
    if minibuffer == ChildMinibuffer::Only {
        window_state::buffer_at_hand(m, q, " *Minibuf-0*"@, mini_buffer)
    } else {
        &&& q == m
        &&& mini_buffer == match window_state::buffer_named(m.buffers@, " *Minibuf-0*"@) {
            Some(i) => m.buffers@[i].id,
            None => buffer,
        }
    }
}

pub open spec fn gui_seed(plan: GuiFramePlan, buffer: u64, mini_buffer: u64) -> FrameSeed {
    FrameSeed {
        terminal: 0,
        width: plan.width,
        height: plan.height,
        char_width: plan.metrics.char_width,
        char_height: plan.metrics.char_height,
        initial: false,
        graphical: true,
        buffer: buffer,
        mini_buffer: mini_buffer,
    }
}

/// What is set on a graphical frame besides what was asked for.
pub open spec fn gui_placed(f: Frame, minibuffer: ChildMinibuffer) -> Seq<(Datum, Datum)> {
    frame_make::place_params(f.parent, f.left, f.top) + match minibuffer {
        ChildMinibuffer::Shared(w) => seq![(Datum::Symbol("minibuffer"@), Datum::Window(w))],
        _ => Seq::empty(),
    }
}

/// What making a graphical frame comes to.
pub open spec fn is_gui_frame(
    r: Result<MadeGuiFrame, Signal>,
    a: Context,
    b: Context,
    m: GuiFrameModel,
    host: Option<HostFacts>,
) -> bool {
    let plan = gui_plan(a, m, host);
    exists|n: Context, buffer: u64| #[trigger]
        window_state::current_at_hand(a, n, buffer) && match gui_minibuffer(n, m, plan.parent) {
            None => b == n && (r matches Err(e) && lisp::is_error(
                e,
                "The `minibuffer' parameter does not specify a valid minibuffer window"@,
            )),
            Some(minibuffer) => exists|q: Context, k: Context, mini_buffer: u64| #[trigger]
                gui_steps(n, q, k, m, plan, minibuffer, buffer, mini_buffer) && is_gui_result(
                    r,
                    n,
                    k,
                    b,
                    m,
                    plan,
                    minibuffer,
                    buffer,
                    mini_buffer,
                    host,
                ),
        }
}

pub open spec fn gui_steps(
    n: Context,
    q: Context,
    k: Context,
    m: GuiFrameModel,
    plan: GuiFramePlan,
    minibuffer: ChildMinibuffer,
    buffer: u64,
    mini_buffer: u64,
) -> bool {
    gui_mini_at_hand(n, q, minibuffer, buffer, mini_buffer) && window_state::frame_added(
        q,
        k,
        gui_name(m),
        gui_seed(plan, buffer, mini_buffer),
    )
}

pub open spec fn is_gui_result(
    r: Result<MadeGuiFrame, Signal>,
    n: Context,
    k: Context,
    b: Context,
    m: GuiFrameModel,
    plan: GuiFramePlan,
    minibuffer: ChildMinibuffer,
    buffer: u64,
    mini_buffer: u64,
    host: Option<HostFacts>,
) -> bool {
    let z = match plan.parent {
        Some(id) => frame_make::behind(frame_make::top_child(n.frames@, id)),
        None => 0,
    };
    let f = as_gui(k.frames@.last(), m, plan.parent, z, minibuffer);
    &&& b == (Context { frames: b.frames, windows: b.windows, ..k })
    &&& b.frames@ == k.frames@.update(k.frames@.len() - 1, f)
    &&& frame_make::minibuffer_settled(k.windows@, b.windows@, minibuffer, mini_buffer)
    &&& r matches Ok(made) && is_made(made, n, m, plan, f, minibuffer, buffer, host)
}

pub open spec fn is_made(
    made: MadeGuiFrame,
    n: Context,
    m: GuiFrameModel,
    plan: GuiFramePlan,
    f: Frame,
    minibuffer: ChildMinibuffer,
    buffer: u64,
    host: Option<HostFacts>,
) -> bool {
    &&& made.frame == n.next_frame
    &&& made.plan == plan
    &&& made.buffer == buffer
    &&& frame_make::opt_chars(made.title) == m.title
    &&& made.host_title@ == host_title(m)
    &&& made.minibuffer_height == frame_size::at_most(
        plan.metrics.minibuffer_height as int,
        plan.height as int,
    )
    &&& made.realize == (plan.parent is None && host is Some)
    &&& made.adopt == (plan.parent is None && (host matches Some(h) && h.opening_pending))
    &&& frame_make::opt_datum(made.fullscreen) == m.fullscreen
    &&& named_data(made.asked@) == m.all
    &&& frame_make::pair_data(made.placed@) == gui_placed(f, minibuffer)
}

fn gui_placed_params(f: &Frame, minibuffer: ChildMinibuffer) -> (r: Vec<(Value, Value)>)
    ensures
        frame_make::pair_data(r@) == gui_placed(*f, minibuffer),
{
    let mut out: Vec<(Value, Value)> = Vec::new();
    proof {
        assert(frame_make::pair_data(out@) =~= Seq::empty());
    }
    frame_make::push_place_params(&mut out, f.parent, f.left, f.top);
    match minibuffer {
        ChildMinibuffer::Shared(w) => {
            frame_make::push_param(&mut out, "minibuffer", Value::Window(w));
        },
        _ => {},
    }
    proof {
        assert(frame_make::pair_data(out@) =~= gui_placed(*f, minibuffer));
    }
    out
}

fn finish_gui(
    c: &mut Context,
    p: &ParsedGuiFrameParams,
    parent: Option<u64>,
    z_order: i64,
    minibuffer: ChildMinibuffer,
    mini_buffer: u64,
) -> (r: Vec<(Value, Value)>)
    requires
        old(c).windows@.len() >= 2,
        old(c).frames@.len() >= 1,
    ensures
        ({
            let f = as_gui(old(c).frames@.last(), p@, parent, z_order, minibuffer);
            &&& *final(c) == (Context {
                frames: final(c).frames,
                windows: final(c).windows,
                ..*old(c)
            })
            &&& final(c).frames@ == old(c).frames@.update(old(c).frames@.len() - 1, f)
            &&& frame_make::minibuffer_settled(
                old(c).windows@,
                final(c).windows@,
                minibuffer,
                mini_buffer,
            )
            &&& frame_make::pair_data(r@) == gui_placed(f, minibuffer)
        }),
{
    let k: usize = c.frames.len() - 1;
    shape_gui(&mut c.frames[k], p, parent, z_order, minibuffer);
    frame_make::settle_minibuffer(c, minibuffer, mini_buffer);
    gui_placed_params(&c.frames[k], minibuffer)
}

/// `(x-create-frame PARAMETERS)`: makes a graphical frame, as far as that does not take
/// a host. What the host has to do, and what is left to set, stands in the result; a
/// frame that is to be adopted is selected by `adopt_opening_frame` once the host has
/// done its part.
pub fn x_create_frame_impl(c: &mut Context, params: &Value, host: Option<HostFacts>) -> (r:
    Result<MadeGuiFrame, Signal>)
    requires
        old(c).has_room(),
    ensures
        is_gui_frame(
            r,
            *old(c),
            *final(c),
            gui_params(frame_make::param_items(params@)),
            host,
        ),
{
    let p: ParsedGuiFrameParams = parse_gui_frame_params(Some(params));
    let ghost m = p@;
    let plan: GuiFramePlan = plan_gui_frame(c, &p, host);
    let title: String = title_for_host(&p);
    let buffer: u64 = c.current_or_scratch();
    let ghost n = *c;
    proof {
        assert(window_state::current_at_hand(*old(c), n, buffer));
    }
    let minibuffer: ChildMinibuffer = match plan.parent {
        Some(id) => match frame_make::resolve_child_shared_minibuffer(c, id, &p.minibuffer) {
            Ok(x) => x,
            Err(e) => {
                return Err(e);
            },
        },
        None => ChildMinibuffer::Own,
    };
    let z_order: i64 = match plan.parent {
        Some(id) => {
            let top: i64 = frame_make::max_child_z_order(&c.frames, id);
            if top < 9_223_372_036_854_775_807 {
                top + 1
            } else {
                top
            }
        },
        None => 0,
    };
    let mini_buffer: u64 = match minibuffer {
        ChildMinibuffer::Only => c.find_or_create_buffer(" *Minibuf-0*"),
        _ => match window_state::find_buffer_by_name(&c.buffers, " *Minibuf-0*") {
            Some(i) => c.buffers[i].id,
            None => buffer,
        },
    };
    let ghost q = *c;
    let seed: FrameSeed = FrameSeed {
        terminal: 0,
        width: plan.width,
        height: plan.height,
        char_width: plan.metrics.char_width,
        char_height: plan.metrics.char_height,
        initial: false,
        graphical: true,
        buffer: buffer,
        mini_buffer: mini_buffer,
    };
    let id: u64 = match &p.name {
        Some(name) => c.add_frame(name.as_str(), seed),
        None => c.add_frame(title.as_str(), seed),
    };
    proof {
        assert(gui_steps(n, q, *c, m, plan, minibuffer, buffer, mini_buffer));
    }
    let placed: Vec<(Value, Value)> = finish_gui(
        c,
        &p,
        plan.parent,
        z_order,
        minibuffer,
        mini_buffer,
    );
    let pending: bool = match host {
        Some(h) => h.opening_pending,
        None => false,
    };
    let mini: u32 = plan.metrics.minibuffer_height;
    Ok(
        MadeGuiFrame {
            frame: id,
            plan: plan,
            buffer: buffer,
            title: p.title,
            host_title: title,
            minibuffer_height: if mini <= plan.height {
                mini
            } else {
                plan.height
            },
            realize: plan.parent.is_none() && host.is_some(),
            adopt: plan.parent.is_none() && pending,
            fullscreen: p.fullscreen,
            asked: p.all,
            placed: placed,
        },
    )
}

/// Selects a frame that took over the host's first window, and its buffer.
pub fn adopt_opening_frame(c: &mut Context, frame: u64, buffer: u64)
    ensures
        *final(c) == (Context {
            windows: final(c).windows,
            selected_frame: if old(c).frame(frame) is Some {
                Some(frame)
            } else {
                old(c).selected_frame
            },
            use_clock: if old(c).frame(frame) is Some {
                window_select::ticked(old(c).use_clock)
            } else {
                old(c).use_clock
            },
            current_buffer: if old(c).buffer(buffer) is Some {
                Some(buffer)
            } else {
                old(c).current_buffer
            },
            ..*old(c)
        }),
        final(c).windows@ == match old(c).frame(frame) {
            Some(f) => window_select::used_at(
                old(c).windows@,
                f.selected_window,
                window_select::ticked(old(c).use_clock),
            ),
            None => old(c).windows@,
        },
{
    let selected: Option<u64> = match c.get_frame(frame) {
        Some(f) => Some(f.selected_window),
        None => None,
    };
    match selected {
        Some(w) => {
            c.selected_frame = Some(frame);
            window_select::note_window_selected(c, w);
        },
        None => {},
    }
    if c.get_buffer(buffer).is_some() {
        c.current_buffer = Some(buffer);
    }
}

} // verus!
