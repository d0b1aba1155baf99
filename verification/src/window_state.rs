//! The frames, windows and buffers of an editing session, and how primitives find the
//! ones that their arguments name.
use vstd::prelude::*;

use crate::lisp;
use crate::lisp::{Datum, Signal, Value};
use crate::text;

verus! {

/// A rectangle on a frame, in pixels.
#[derive(Debug, Clone, Copy, PartialEq, Eq, Structural)]
pub struct Rect {
    pub x: i64,
    pub y: i64,
    pub width: i64,
    pub height: i64,
}

/// A cursor that is drawn in a window.
#[derive(Debug, Clone, Copy, PartialEq, Eq, Structural)]
pub struct DrawnCursor {
    pub x: i64,
    pub y: i64,
    pub width: i64,
    pub height: i64,
    pub ascent: i64,
}

/// What was last drawn of a window's cursor.
#[derive(Debug, Clone, Copy, PartialEq, Eq, Structural)]
pub struct CursorDisplay {
    pub on: bool,
    pub off: bool,
    pub cursor: Option<DrawnCursor>,
}

/// A window: a leaf that shows a buffer, or an inner node of its frame's window tree.
/// Positions count from one.
#[derive(Debug)]
pub struct Window {
    pub id: u64,
    pub frame: u64,
    pub leaf: bool,
    /// The leaf below the tree that its frame uses as minibuffer.
    pub mini: bool,
    pub buffer: u64,
    pub start: i64,
    pub point: i64,
    pub old_point: i64,
    pub hscroll: u64,
    pub min_hscroll: u64,
    pub suspend_auto_hscroll: bool,
    pub vscroll: i32,
    pub preserve_vscroll: bool,
    pub force_start: bool,
    pub end_valid: bool,
    pub left_margin: u64,
    pub right_margin: u64,
    pub use_time: i64,
    pub bounds: Rect,
    pub dedicated: Value,
    pub prev_buffers: Value,
    pub next_buffers: Value,
    pub cursor_type: Value,
    /// What was last drawn of its cursor, if anything was.
    pub display: Option<CursorDisplay>,
    /// Of an inner window: what it combines is not merged with what is around it.
    pub combination_limit: bool,
    /// The size in pixels that is staged for it.
    pub new_pixel: Option<i64>,
    /// The size in columns or lines that is staged for it.
    pub new_total: Option<i64>,
}

/// A frame.
#[derive(Debug)]
pub struct Frame {
    pub id: u64,
    pub name: String,
    pub terminal: u64,
    pub parent: Option<u64>,
    pub z_order: i64,
    pub left: i64,
    pub top: i64,
    pub width: u32,
    pub height: u32,
    pub char_width: u32,
    pub char_height: u32,
    pub initial: bool,
    pub graphical: bool,
    pub visible: bool,
    pub undecorated: bool,
    pub no_accept_focus: bool,
    pub no_split: bool,
    /// The frame's font is known.
    pub has_font: bool,
    pub root_window: u64,
    pub selected_window: u64,
    pub old_selected_window: Option<u64>,
    pub minibuffer_window: Option<u64>,
    pub buffer_list: Vec<u64>,
    pub buried_buffer_list: Vec<u64>,
}

/// A buffer: as much of one as windows need. `length` is the number of its characters.
#[derive(Debug)]
pub struct Buffer {
    pub id: u64,
    pub name: String,
    pub length: i64,
    pub point: i64,
    pub last_window_start: i64,
    pub last_selected_window: Option<u64>,
    pub display_count: Option<i64>,
    pub inhibit_hooks: bool,
    pub left_margin_width: Value,
    pub right_margin_width: Value,
    pub left_fringe_width: Value,
    pub right_fringe_width: Value,
    pub fringes_outside_margins: Value,
    pub vertical_scroll_bar: Value,
    pub horizontal_scroll_bar: Value,
    pub scroll_bar_width: Value,
    pub scroll_bar_height: Value,
}

/// A session.
#[derive(Debug)]
pub struct Context {
    pub frames: Vec<Frame>,
    pub windows: Vec<Window>,
    pub buffers: Vec<Buffer>,
    pub selected_frame: Option<u64>,
    pub current_buffer: Option<u64>,
    /// Windows that were deleted; values for them may still be around.
    pub dead_windows: Vec<u64>,
    /// The buffers that minibuffers use.
    pub minibuffer_buffers: Vec<u64>,
    pub active_minibuffer: Option<u64>,
    pub next_frame: u64,
    pub next_window: u64,
    pub next_buffer: u64,
    /// How many of the names `F1`, `F2` and so on are used up.
    pub frame_names: u64,
    pub use_clock: i64,
}

/// The first place of a number.
pub open spec fn index_in(s: Seq<u64>, x: u64) -> Option<int>
    decreases s.len(),
{
    if s.len() == 0 {
        None
    } else if s[0] == x {
        Some(0)
    } else {
        match index_in(s.subrange(1, s.len() as int), x) {
            Some(i) => Some(i + 1),
            None => None,
        }
    }
}

pub proof fn lemma_index_found(s: Seq<u64>, x: u64, i: int)
    requires
        0 <= i < s.len(),
        s[i] == x,
        forall|k: int| 0 <= k < i ==> s[k] != x,
    ensures
        index_in(s, x) == Some(i),
    decreases i,
{
    if i > 0 {
        let t = s.subrange(1, s.len() as int);
        assert forall|k: int| 0 <= k < i - 1 implies t[k] != x by {
            assert(t[k] == s[k + 1]);
        }
        lemma_index_found(t, x, i - 1);
    }
}

pub proof fn lemma_index_missing(s: Seq<u64>, x: u64)
    requires
        forall|k: int| 0 <= k < s.len() ==> s[k] != x,
    ensures
        index_in(s, x) is None,
    decreases s.len(),
{
    if s.len() > 0 {
        let t = s.subrange(1, s.len() as int);
        assert forall|k: int| 0 <= k < t.len() implies t[k] != x by {
            assert(t[k] == s[k + 1]);
        }
        lemma_index_missing(t, x);
    }
}

/// Where a number is first found, it stands; where it is not found, it is nowhere.
pub proof fn lemma_index_in(s: Seq<u64>, x: u64)
    ensures
        match index_in(s, x) {
            Some(i) => 0 <= i < s.len() && s[i] == x && forall|k: int| 0 <= k < i ==> s[k] != x,
            None => !s.contains(x),
        },
    decreases s.len(),
{
    if s.len() > 0 && s[0] != x {
        let t = s.subrange(1, s.len() as int);
        lemma_index_in(t, x);
        match index_in(t, x) {
            Some(i) => {
                assert forall|k: int| 0 <= k < i + 1 implies s[k] != x by {
                    if k > 0 {
                        assert(t[k - 1] == s[k]);
                    }
                }
            },
            None => {
                assert forall|k: int| 0 <= k < s.len() implies s[k] != x by {
                    if k > 0 {
                        assert(t[k - 1] == s[k]);
                    }
                }
            },
        }
    }
}

pub fn position(v: &Vec<u64>, x: u64) -> (r: Option<usize>)
    ensures
        match r {
            Some(i) => index_in(v@, x) == Some(i as int) && i < v.len(),
            None => index_in(v@, x) is None,
        },
{
    let mut i: usize = 0;
    while i < v.len()
        invariant
            i <= v.len(),
            forall|k: int| 0 <= k < i ==> v@[k] != x,
        decreases v.len() - i,
    {
        if v[i] == x {
            proof {
                lemma_index_found(v@, x, i as int);
            }
            return Some(i);
        }
        i += 1;
    }
    proof {
        lemma_index_missing(v@, x);
    }
    None
}

pub open spec fn frame_ids(v: Seq<Frame>) -> Seq<u64> {
    Seq::new(v.len(), |i: int| v[i].id)
}

pub open spec fn window_ids(v: Seq<Window>) -> Seq<u64> {
    Seq::new(v.len(), |i: int| v[i].id)
}

pub open spec fn buffer_ids(v: Seq<Buffer>) -> Seq<u64> {
    Seq::new(v.len(), |i: int| v[i].id)
}

pub open spec fn frame_place(v: Seq<Frame>, id: u64) -> Option<int> {
    index_in(frame_ids(v), id)
}

pub open spec fn window_place(v: Seq<Window>, id: u64) -> Option<int> {
    index_in(window_ids(v), id)
}

pub open spec fn buffer_place(v: Seq<Buffer>, id: u64) -> Option<int> {
    index_in(buffer_ids(v), id)
}

/// A frame of a number is there.
pub open spec fn has_frame(v: Seq<Frame>, id: u64) -> bool {
    exists|i: int| 0 <= i < v.len() && (#[trigger] v[i]).id == id
}

/// A frame has a window of a number, a leaf where one is asked for.
pub open spec fn owns(v: Seq<Window>, frame: u64, w: u64, leaf: bool) -> bool {
    exists|i: int|
        0 <= i < v.len() && (#[trigger] v[i]).id == w && v[i].frame == frame && (leaf ==> v[i].leaf)
}

/// The first buffer of a name.
pub open spec fn buffer_named(v: Seq<Buffer>, name: Seq<char>) -> Option<int>
    decreases v.len(),
{
    if v.len() == 0 {
        None
    } else if v[0].name@ == name {
        Some(0)
    } else {
        match buffer_named(v.subrange(1, v.len() as int), name) {
            Some(i) => Some(i + 1),
            None => None,
        }
    }
}

proof fn lemma_named_found(v: Seq<Buffer>, name: Seq<char>, i: int)
    requires
        0 <= i <= v.len(),
        i < v.len() ==> v[i].name@ == name,
        forall|k: int| 0 <= k < i ==> (#[trigger] v[k]).name@ != name,
    ensures
        buffer_named(v, name) == if i < v.len() {
            Some(i)
        } else {
            None
        },
    decreases i,
{
    if i > 0 {
        let t = v.subrange(1, v.len() as int);
        assert forall|k: int| 0 <= k < i - 1 implies (#[trigger] t[k]).name@ != name by {
            assert(t[k] == v[k + 1]);
        }
        lemma_named_found(t, name, i - 1);
    }
}

pub fn find_frame(v: &Vec<Frame>, id: u64) -> (r: Option<usize>)
    ensures
        match r {
            Some(i) => frame_place(v@, id) == Some(i as int) && i < v.len() && v@[i as int].id
                == id,
            None => frame_place(v@, id) is None,
        },
{
    let mut i: usize = 0;
    while i < v.len()
        invariant
            i <= v.len(),
            forall|k: int| 0 <= k < i ==> frame_ids(v@)[k] != id,
        decreases v.len() - i,
    {
        if v[i].id == id {
            proof {
                lemma_index_found(frame_ids(v@), id, i as int);
            }
            return Some(i);
        }
        i += 1;
    }
    proof {
        lemma_index_missing(frame_ids(v@), id);
    }
    None
}

pub fn find_window(v: &Vec<Window>, id: u64) -> (r: Option<usize>)
    ensures
        match r {
            Some(i) => window_place(v@, id) == Some(i as int) && i < v.len() && v@[i as int].id
                == id,
            None => window_place(v@, id) is None,
        },
{
    let mut i: usize = 0;
    while i < v.len()
        invariant
            i <= v.len(),
            forall|k: int| 0 <= k < i ==> window_ids(v@)[k] != id,
        decreases v.len() - i,
    {
        if v[i].id == id {
            proof {
                lemma_index_found(window_ids(v@), id, i as int);
            }
            return Some(i);
        }
        i += 1;
    }
    proof {
        lemma_index_missing(window_ids(v@), id);
    }
    None
}

pub fn find_buffer(v: &Vec<Buffer>, id: u64) -> (r: Option<usize>)
    ensures
        match r {
            Some(i) => buffer_place(v@, id) == Some(i as int) && i < v.len() && v@[i as int].id
                == id,
            None => buffer_place(v@, id) is None,
        },
{
    let mut i: usize = 0;
    while i < v.len()
        invariant
            i <= v.len(),
            forall|k: int| 0 <= k < i ==> buffer_ids(v@)[k] != id,
        decreases v.len() - i,
    {
        if v[i].id == id {
            proof {
                lemma_index_found(buffer_ids(v@), id, i as int);
            }
            return Some(i);
        }
        i += 1;
    }
    proof {
        lemma_index_missing(buffer_ids(v@), id);
    }
    None
}

pub fn find_buffer_by_name(v: &Vec<Buffer>, name: &str) -> (r: Option<usize>)
    ensures
        match r {
            Some(i) => buffer_named(v@, name@) == Some(i as int) && i < v.len()
                && v@[i as int].name@ == name@,
            None => buffer_named(v@, name@) is None,
        },
{
    let mut i: usize = 0;
    while i < v.len()
        invariant
            i <= v.len(),
            forall|k: int| 0 <= k < i ==> (#[trigger] v@[k]).name@ != name@,
        decreases v.len() - i,
    {
        if text::same(v[i].name.as_str(), name) {
            proof {
                lemma_named_found(v@, name@, i as int);
            }
            return Some(i);
        }
        i += 1;
    }
    proof {
        lemma_named_found(v@, name@, v.len() as int);
    }
    None
}

impl Context {
    /// The frame of a number.
    pub open spec fn frame(self, id: u64) -> Option<Frame> {
        match frame_place(self.frames@, id) {
            Some(i) => Some(self.frames@[i]),
            None => None,
        }
    }

    /// The window of a number.
    pub open spec fn window(self, id: u64) -> Option<Window> {
        match window_place(self.windows@, id) {
            Some(i) => Some(self.windows@[i]),
            None => None,
        }
    }

    /// The buffer of a number.
    pub open spec fn buffer(self, id: u64) -> Option<Buffer> {
        match buffer_place(self.buffers@, id) {
            Some(i) => Some(self.buffers@[i]),
            None => None,
        }
    }

    /// The selected frame.
    pub open spec fn selected(self) -> Option<Frame> {
        match self.selected_frame {
            Some(id) => self.frame(id),
            None => None,
        }
    }

    /// The frame of a live window, that is of a leaf.
    pub open spec fn live_frame(self, id: u64) -> Option<u64> {
        match self.window(id) {
            Some(w) => if w.leaf {
                Some(w.frame)
            } else {
                None
            },
            None => None,
        }
    }

    /// The frame of a window, leaf or not.
    pub open spec fn valid_frame(self, id: u64) -> Option<u64> {
        match self.window(id) {
            Some(w) => Some(w.frame),
            None => None,
        }
    }

    /// A window, or one that was deleted.
    pub open spec fn is_window(self, id: u64) -> bool {
        self.window(id) is Some || self.dead_windows@.contains(id)
    }

    /// The numbers that new objects get are not used up.
    pub open spec fn has_room(self) -> bool {
        self.next_frame < u64::MAX && self.next_window < u64::MAX - 1 && self.next_buffer < u64::MAX
            - 1 && self.frame_names < u64::MAX
    }

    /// Frames, windows and buffers are told apart by their numbers, which are used up, and
    /// numbers lead to what they name: a window to its frame, a frame to its root window,
    /// to its selected window and to the frame that it is in. No window is both there and
    /// deleted. The minibuffer of a frame may be that of a frame that is gone, and a window
    /// that was made while no buffer was current shows none.
    pub open spec fn wf(self) -> bool {
        &&& frame_ids(self.frames@).no_duplicates()
        &&& window_ids(self.windows@).no_duplicates()
        &&& buffer_ids(self.buffers@).no_duplicates()
        &&& forall|i: int|
            0 <= i < self.frames@.len() ==> {
                &&& (#[trigger] self.frames@[i]).id < self.next_frame
                &&& owns(self.windows@, self.frames@[i].id, self.frames@[i].root_window, false)
                &&& owns(self.windows@, self.frames@[i].id, self.frames@[i].selected_window, true)
                &&& self.frames@[i].parent matches Some(p) ==> has_frame(self.frames@, p)
            }
        &&& forall|i: int|
            0 <= i < self.windows@.len() ==> {
                &&& (#[trigger] self.windows@[i]).id < self.next_window
                &&& has_frame(self.frames@, self.windows@[i].frame)
            }
        &&& forall|i: int|
            0 <= i < self.buffers@.len() ==> (#[trigger] self.buffers@[i]).id < self.next_buffer
        &&& forall|i: int|
            0 <= i < self.dead_windows@.len() ==> {
                &&& #[trigger] self.dead_windows@[i] < self.next_window
                &&& !window_ids(self.windows@).contains(self.dead_windows@[i])
            }
        &&& self.selected_frame matches Some(id) ==> has_frame(self.frames@, id)
    }

    pub fn get_frame(&self, id: u64) -> (r: Option<&Frame>)
        ensures
            match r {
                Some(f) => self.frame(id) == Some(*f),
                None => self.frame(id) is None,
            },
    {
        match find_frame(&self.frames, id) {
            Some(i) => Some(&self.frames[i]),
            None => None,
        }
    }

    pub fn get_window(&self, id: u64) -> (r: Option<&Window>)
        ensures
            match r {
                Some(w) => self.window(id) == Some(*w),
                None => self.window(id) is None,
            },
    {
        match find_window(&self.windows, id) {
            Some(i) => Some(&self.windows[i]),
            None => None,
        }
    }

    pub fn get_buffer(&self, id: u64) -> (r: Option<&Buffer>)
        ensures
            match r {
                Some(b) => self.buffer(id) == Some(*b),
                None => self.buffer(id) is None,
            },
    {
        match find_buffer(&self.buffers, id) {
            Some(i) => Some(&self.buffers[i]),
            None => None,
        }
    }

    pub fn get_selected_frame(&self) -> (r: Option<&Frame>)
        ensures
            match r {
                Some(f) => self.selected() == Some(*f),
                None => self.selected() is None,
            },
    {
        match self.selected_frame {
            Some(id) => self.get_frame(id),
            None => None,
        }
    }

    pub fn find_window_frame_id(&self, id: u64) -> (r: Option<u64>)
        ensures
            r == self.live_frame(id),
    {
        match self.get_window(id) {
            Some(w) => if w.leaf {
                Some(w.frame)
            } else {
                None
            },
            None => None,
        }
    }

    pub fn find_valid_window_frame_id(&self, id: u64) -> (r: Option<u64>)
        ensures
            r == self.valid_frame(id),
    {
        match self.get_window(id) {
            Some(w) => Some(w.frame),
            None => None,
        }
    }

    pub fn is_window_object_id(&self, id: u64) -> (r: bool)
        ensures
            r == self.is_window(id),
    {
        match self.get_window(id) {
            Some(_) => true,
            None => {
                proof {
                    lemma_index_in(self.dead_windows@, id);
                }
                position(&self.dead_windows, id).is_some()
            },
        }
    }
}

/// A window as it is made: at the start of its buffer, with nothing set.
pub open spec fn is_blank_window(
    w: Window,
    id: u64,
    frame: u64,
    mini: bool,
    buffer: u64,
    bounds: Rect,
) -> bool {
    &&& w.id == id
    &&& w.frame == frame
    &&& w.leaf
    &&& w.mini == mini
    &&& w.buffer == buffer
    &&& w.bounds == bounds
    &&& w.start == 1 && w.point == 1 && w.old_point == 1
    &&& w.hscroll == 0 && w.min_hscroll == 0 && !w.suspend_auto_hscroll
    &&& w.vscroll == 0 && !w.preserve_vscroll && !w.force_start && !w.end_valid
    &&& w.left_margin == 0 && w.right_margin == 0 && w.use_time == 0
    &&& w.dedicated@ is Nil && w.prev_buffers@ is Nil && w.next_buffers@ is Nil
    &&& w.cursor_type@ is T && w.display is None
    &&& !w.combination_limit && w.new_pixel is None && w.new_total is None
}

fn blank_window(id: u64, frame: u64, mini: bool, buffer: u64, bounds: Rect) -> (w: Window)
    ensures
        is_blank_window(w, id, frame, mini, buffer, bounds),
{
    Window {
        id: id,
        frame: frame,
        leaf: true,
        mini: mini,
        buffer: buffer,
        start: 1,
        point: 1,
        old_point: 1,
        hscroll: 0,
        min_hscroll: 0,
        suspend_auto_hscroll: false,
        vscroll: 0,
        preserve_vscroll: false,
        force_start: false,
        end_valid: false,
        left_margin: 0,
        right_margin: 0,
        use_time: 0,
        bounds: bounds,
        dedicated: Value::Nil,
        prev_buffers: Value::Nil,
        next_buffers: Value::Nil,
        cursor_type: Value::T,
        display: None,
        combination_limit: false,
        new_pixel: None,
        new_total: None,
    }
}

/// A buffer as it is made: empty, with the settings that every buffer starts with.
pub open spec fn is_blank_buffer(b: Buffer, id: u64, name: Seq<char>) -> bool {
    &&& b.id == id
    &&& b.name@ == name
    &&& b.length == 0 && b.point == 1 && b.last_window_start == 1
    &&& b.last_selected_window is None && b.display_count == Some(0i64) && !b.inhibit_hooks
    &&& b.left_margin_width@ == Datum::Fixnum(0) && b.right_margin_width@ == Datum::Fixnum(0)
    &&& b.left_fringe_width@ is Nil && b.right_fringe_width@ is Nil
    &&& b.fringes_outside_margins@ is Nil
    &&& b.vertical_scroll_bar@ is T && b.horizontal_scroll_bar@ is T
    &&& b.scroll_bar_width@ is Nil && b.scroll_bar_height@ is Nil
}

fn blank_buffer(id: u64, name: &str) -> (b: Buffer)
    ensures
        is_blank_buffer(b, id, name@),
{
    Buffer {
        id: id,
        name: text::copy(name),
        length: 0,
        point: 1,
        last_window_start: 1,
        last_selected_window: None,
        display_count: Some(0),
        inhibit_hooks: false,
        left_margin_width: Value::Fixnum(0),
        right_margin_width: Value::Fixnum(0),
        left_fringe_width: Value::Nil,
        right_fringe_width: Value::Nil,
        fringes_outside_margins: Value::Nil,
        vertical_scroll_bar: Value::T,
        horizontal_scroll_bar: Value::T,
        scroll_bar_width: Value::Nil,
        scroll_bar_height: Value::Nil,
    }
}

/// What a frame is made from.
#[derive(Debug, Clone, Copy, PartialEq, Eq, Structural)]
pub struct FrameSeed {
    pub terminal: u64,
    pub width: u32,
    pub height: u32,
    pub char_width: u32,
    pub char_height: u32,
    pub initial: bool,
    pub graphical: bool,
    pub buffer: u64,
    pub mini_buffer: u64,
}

impl FrameSeed {
    /// The part of the frame above the minibuffer.
    pub open spec fn root_bounds(self) -> Rect {
        Rect {
            x: 0,
            y: 0,
            width: self.width as i64,
            height: if self.height >= self.char_height {
                (self.height - self.char_height) as i64
            } else {
                0
            },
        }
    }

    /// The line of the minibuffer.
    pub open spec fn mini_bounds(self) -> Rect {
        Rect {
            x: 0,
            y: self.root_bounds().height,
            width: self.width as i64,
            height: self.char_height as i64,
        }
    }
}

/// A frame as it is made from its seed, with the windows `root` and `root + 1`.
pub open spec fn is_blank_frame(
    f: Frame,
    id: u64,
    name: Seq<char>,
    seed: FrameSeed,
    root: u64,
) -> bool {
    &&& f.id == id
    &&& f.name@ == name
    &&& f.terminal == seed.terminal
    &&& f.parent is None && f.z_order == 0 && f.left == 0 && f.top == 0
    &&& f.width == seed.width && f.height == seed.height
    &&& f.char_width == seed.char_width && f.char_height == seed.char_height
    &&& f.initial == seed.initial && f.graphical == seed.graphical
    &&& f.visible && !f.undecorated && !f.no_accept_focus && !f.no_split
    &&& !f.has_font
    &&& f.root_window == root && f.selected_window == root
    &&& f.old_selected_window is None
    &&& f.minibuffer_window == Some((root + 1) as u64)
    &&& f.buffer_list@.len() == 0 && f.buried_buffer_list@.len() == 0
}

/// The session after a frame was made from a seed.
pub open spec fn frame_added(a: Context, b: Context, name: Seq<char>, seed: FrameSeed) -> bool {
    &&& b == (Context {
        frames: b.frames,
        windows: b.windows,
        selected_frame: if a.selected() is Some {
            a.selected_frame
        } else {
            Some(a.next_frame)
        },
        next_frame: (a.next_frame + 1) as u64,
        next_window: (a.next_window + 2) as u64,
        ..a
    })
    &&& b.frames@.len() == a.frames@.len() + 1
    &&& b.frames@.drop_last() == a.frames@
    &&& is_blank_frame(b.frames@.last(), a.next_frame, name, seed, a.next_window)
    &&& b.windows@.len() == a.windows@.len() + 2
    &&& b.windows@.subrange(0, a.windows@.len() as int) == a.windows@
    &&& is_blank_window(
        b.windows@[a.windows@.len() as int],
        a.next_window,
        a.next_frame,
        false,
        seed.buffer,
        seed.root_bounds(),
    )
    &&& is_blank_window(
        b.windows@[a.windows@.len() as int + 1],
        (a.next_window + 1) as u64,
        a.next_frame,
        true,
        seed.mini_buffer,
        seed.mini_bounds(),
    )
}

/// The session after a buffer of a name was looked up, and made where there was none.
pub open spec fn buffer_at_hand(a: Context, b: Context, name: Seq<char>, id: u64) -> bool {
    match buffer_named(a.buffers@, name) {
        Some(i) => b == a && id == a.buffers@[i].id,
        None => buffer_made(a, b, name, id),
    }
}

/// The seed of the frame that a session without one gets: eighty columns and
/// twenty-five lines of one unit each, one of them for the minibuffer.
pub open spec fn batch_seed(buffer: u64, mini_buffer: u64) -> FrameSeed {
    FrameSeed {
        terminal: 0,
        width: 80,
        height: 25,
        char_width: 1,
        char_height: 1,
        initial: true,
        graphical: false,
        buffer: buffer,
        mini_buffer: mini_buffer,
    }
}

/// The session after a frame was made for want of a selected one.
pub open spec fn batch_frame_made(a: Context, b: Context) -> bool {
    exists|m: Context, n: Context, buffer: u64, mini_buffer: u64|
        {
            &&& current_at_hand(a, m, buffer)
            &&& buffer_at_hand(m, n, " *Minibuf-0*"@, mini_buffer)
            &&& #[trigger] batch_made_from(m, n, b, buffer, mini_buffer)
        }
}

pub open spec fn batch_made_from(
    m: Context,
    n: Context,
    b: Context,
    buffer: u64,
    mini_buffer: u64,
) -> bool {
    frame_added(n, b, "F1"@, batch_seed(buffer, mini_buffer))
}

/// The session after the current buffer was looked up; a session without one uses the
/// scratch buffer.
pub open spec fn current_at_hand(a: Context, b: Context, id: u64) -> bool {
    match a.current_buffer {
        Some(c) => if a.buffer(c) is Some {
            b == a && id == c
        } else {
            buffer_made(a, b, "*scratch*"@, id)
        },
        None => buffer_made(a, b, "*scratch*"@, id),
    }
}

/// The session after a buffer was made.
pub open spec fn buffer_made(a: Context, b: Context, name: Seq<char>, id: u64) -> bool {
    &&& id == a.next_buffer
    &&& b == (Context { buffers: b.buffers, next_buffer: (a.next_buffer + 1) as u64, ..a })
    &&& b.buffers@.len() == a.buffers@.len() + 1
    &&& b.buffers@.drop_last() == a.buffers@
    &&& is_blank_buffer(b.buffers@.last(), a.next_buffer, name)
}

/// The session after it was made sure that a frame is selected.
pub open spec fn ensured(a: Context, b: Context) -> bool {
    if a.selected() is Some {
        b == a
    } else {
        batch_frame_made(a, b)
    }
}

impl Context {
    /// A session with a scratch buffer and no frame. The name `F1` is kept for the frame
    /// that it gets for want of another.
    pub fn new() -> (r: Context)
        ensures
            r.frames@.len() == 0 && r.windows@.len() == 0,
            r.buffers@.len() == 1 && is_blank_buffer(r.buffers@[0], 1, "*scratch*"@),
            r.selected_frame is None && r.current_buffer == Some(1u64),
            r.dead_windows@.len() == 0 && r.minibuffer_buffers@.len() == 0,
            r.active_minibuffer is None,
            r.next_frame == 1 && r.next_window == 1 && r.next_buffer == 2 && r.use_clock == 0,
            r.frame_names == 1,
            r.wf(),
    {
        let mut buffers: Vec<Buffer> = Vec::new();
        buffers.push(blank_buffer(1, "*scratch*"));
        Context {
            frames: Vec::new(),
            windows: Vec::new(),
            buffers: buffers,
            selected_frame: None,
            current_buffer: Some(1),
            dead_windows: Vec::new(),
            minibuffer_buffers: Vec::new(),
            active_minibuffer: None,
            next_frame: 1,
            next_window: 1,
            next_buffer: 2,
            frame_names: 1,
            use_clock: 0,
        }
    }

    /// Makes a buffer.
    pub fn create_buffer(&mut self, name: &str) -> (r: u64)
        requires
            old(self).next_buffer < u64::MAX,
        ensures
            buffer_made(*old(self), *final(self), name@, r),
    {
        let id: u64 = self.next_buffer;
        self.next_buffer = id + 1;
        self.buffers.push(blank_buffer(id, name));
        proof {
            assert(self.buffers@.drop_last() =~= old(self).buffers@);
        }
        id
    }

    /// The buffer of a name, which is made if there is none.
    pub fn find_or_create_buffer(&mut self, name: &str) -> (r: u64)
        requires
            old(self).next_buffer < u64::MAX,
        ensures
            buffer_at_hand(*old(self), *final(self), name@, r),
    {
        match find_buffer_by_name(&self.buffers, name) {
            Some(i) => self.buffers[i].id,
            None => self.create_buffer(name),
        }
    }

    /// The current buffer, or a new scratch buffer where there is none.
    pub fn current_or_scratch(&mut self) -> (r: u64)
        requires
            old(self).next_buffer < u64::MAX,
        ensures
            current_at_hand(*old(self), *final(self), r),
    {
        match self.current_buffer {
            Some(c) => {
                if self.get_buffer(c).is_some() {
                    return c;
                }
            },
            None => {},
        }
        self.create_buffer("*scratch*")
    }

    /// Makes a frame with one window and a minibuffer. The first frame is selected.
    pub fn add_frame(&mut self, name: &str, seed: FrameSeed) -> (r: u64)
        requires
            old(self).next_frame < u64::MAX,
            old(self).next_window < u64::MAX - 1,
        ensures
            r == old(self).next_frame,
            frame_added(*old(self), *final(self), name@, seed),
    {
        let id: u64 = self.next_frame;
        let root: u64 = self.next_window;
        let text_height: i64 = if seed.height >= seed.char_height {
            (seed.height - seed.char_height) as i64
        } else {
            0
        };
        let frame: Frame = Frame {
            id: id,
            name: text::copy(name),
            terminal: seed.terminal,
            parent: None,
            z_order: 0,
            left: 0,
            top: 0,
            width: seed.width,
            height: seed.height,
            char_width: seed.char_width,
            char_height: seed.char_height,
            initial: seed.initial,
            graphical: seed.graphical,
            visible: true,
            undecorated: false,
            no_accept_focus: false,
            no_split: false,
            has_font: false,
            root_window: root,
            selected_window: root,
            old_selected_window: None,
            minibuffer_window: Some(root + 1),
            buffer_list: Vec::new(),
            buried_buffer_list: Vec::new(),
        };
        let root_window: Window = blank_window(
            root,
            id,
            false,
            seed.buffer,
            Rect { x: 0, y: 0, width: seed.width as i64, height: text_height },
        );
        let mini_window: Window = blank_window(
            root + 1,
            id,
            true,
            seed.mini_buffer,
            Rect {
                x: 0,
                y: text_height,
                width: seed.width as i64,
                height: seed.char_height as i64,
            },
        );
        if self.get_selected_frame().is_none() {
            self.selected_frame = Some(id);
        }
        self.next_frame = id + 1;
        self.next_window = root + 2;
        self.frames.push(frame);
        self.windows.push(root_window);
        self.windows.push(mini_window);
        proof {
            assert(self.frames@.drop_last() =~= old(self).frames@);
            assert(self.windows@.subrange(0, old(self).windows@.len() as int) =~= old(
                self,
            ).windows@);
        }
        id
    }

    /// Makes a frame for a buffer, with cells of eight by sixteen pixels.
    pub fn create_frame(&mut self, name: &str, width: u32, height: u32, buffer: u64) -> (r: u64)
        requires
            old(self).next_frame < u64::MAX,
            old(self).next_window < u64::MAX - 1,
        ensures
            r == old(self).next_frame,
            frame_added(
                *old(self),
                *final(self),
                name@,
                (FrameSeed {
                    terminal: 0,
                    width: width,
                    height: height,
                    char_width: 8,
                    char_height: 16,
                    initial: false,
                    graphical: false,
                    buffer: buffer,
                    mini_buffer: buffer,
                }),
            ),
    {
        self.add_frame(
            name,
            FrameSeed {
                terminal: 0,
                width: width,
                height: height,
                char_width: 8,
                char_height: 16,
                initial: false,
                graphical: false,
                buffer: buffer,
                mini_buffer: buffer,
            },
        )
    }
}

/// The number of a new frame is not that of any other, so that the frame is found.
proof fn lemma_added_frame_is_selected(a: Context, b: Context, name: Seq<char>, seed: FrameSeed)
    requires
        frame_added(a, b, name, seed),
        a.selected() is None,
        a.next_frame < u64::MAX,
    ensures
        b.selected() is Some,
{
    lemma_index_in(frame_ids(b.frames@), a.next_frame);
    let n = a.frames@.len() as int;
    assert(frame_ids(b.frames@)[n] == a.next_frame);
}

/// Makes sure that a frame is selected, and gives its number. A session without one
/// gets the frame that a terminal of eighty columns has.
pub fn ensure_selected_frame_id(c: &mut Context) -> (r: u64)
    requires
        old(c).has_room(),
    ensures
        ensured(*old(c), *final(c)),
        final(c).selected() is Some,
        final(c).selected_frame == Some(r),
{
    match c.selected_frame {
        Some(id) => {
            if c.get_frame(id).is_some() {
                return id;
            }
        },
        None => {},
    }
    let buffer: u64 = c.current_or_scratch();
    let ghost m = *c;
    let mini_buffer: u64 = c.find_or_create_buffer(" *Minibuf-0*");
    let ghost n = *c;
    let seed: FrameSeed = FrameSeed {
        terminal: 0,
        width: 80,
        height: 25,
        char_width: 1,
        char_height: 1,
        initial: true,
        graphical: false,
        buffer: buffer,
        mini_buffer: mini_buffer,
    };
    proof {
        assert(n.frames == old(c).frames && n.selected_frame == old(c).selected_frame);
        assert(n.selected() is None);
    }
    let id: u64 = c.add_frame("F1", seed);
    proof {
        assert(batch_made_from(m, n, *c, buffer, mini_buffer));
        lemma_added_frame_is_selected(n, *c, "F1"@, seed);
    }
    id
}

/// What an argument that names a window has to be.
#[derive(Debug, Clone, Copy, PartialEq, Eq, Structural)]
pub enum WindowPredicate {
    Windowp,
    Valid,
    Live,
}

impl WindowPredicate {
    pub open spec fn spelled(self) -> Seq<char> {
        match self {
            WindowPredicate::Windowp => "windowp"@,
            WindowPredicate::Valid => "window-valid-p"@,
            WindowPredicate::Live => "window-live-p"@,
        }
    }

    pub fn name(self) -> (r: &'static str)
        ensures
            r@ == self.spelled(),
    {
        match self {
            WindowPredicate::Windowp => "windowp",
            WindowPredicate::Valid => "window-valid-p",
            WindowPredicate::Live => "window-live-p",
        }
    }
}

/// The frame and the window that an argument names: the selected window of the
/// selected frame for `nil`. Only `Valid` takes a window that is no leaf.
pub open spec fn window_target(c: Context, arg: Datum, pred: WindowPredicate) -> Option<(u64, u64)> {
    if arg is Nil {
        match c.selected() {
            Some(f) => Some((c.selected_frame->0, f.selected_window)),
            None => None,
        }
    } else {
        match lisp::window_named(arg) {
            Some(w) => {
                let frame = if pred == WindowPredicate::Valid {
                    c.valid_frame(w)
                } else {
                    c.live_frame(w)
                };
                match frame {
                    Some(f) => Some((f, w)),
                    None => None,
                }
            },
            None => None,
        }
    }
}

/// The session after an argument was looked at: a frame is made sure of where the
/// argument leaves the window open.
pub open spec fn ensured_for(a: Context, b: Context, arg: Datum) -> bool {
    if arg is Nil {
        ensured(a, b)
    } else {
        b == a
    }
}

/// The outcome of looking a window up.
pub open spec fn is_target(
    r: Result<(u64, u64), Signal>,
    c: Context,
    arg: Datum,
    pred: WindowPredicate,
) -> bool {
    match window_target(c, arg, pred) {
        Some(t) => r == Ok::<(u64, u64), Signal>(t),
        None => r matches Err(e) && lisp::is_wrong_type(e, pred.spelled(), arg),
    }
}

/// The frame and the window that an argument names.
pub fn resolve_window_id_with_pred(
    c: &mut Context,
    arg: Option<&Value>,
    pred: WindowPredicate,
) -> (r: Result<(u64, u64), Signal>)
    requires
        old(c).has_room(),
    ensures
        ensured_for(*old(c), *final(c), lisp::given(arg)),
        is_target(r, *final(c), lisp::given(arg), pred),
        lisp::given(arg) is Nil ==> r is Ok,
{
    let v: &Value = match arg {
        Some(v) => if lisp::is_nil(v) {
            let id: u64 = ensure_selected_frame_id(c);
            return selected_target(c, id, v, pred);
        } else {
            v
        },
        None => {
            let id: u64 = ensure_selected_frame_id(c);
            return selected_target(c, id, &Value::Nil, pred);
        },
    };
    match lisp::window_id_from_designator(v) {
        Some(w) => {
            let frame: Option<u64> = match pred {
                WindowPredicate::Valid => c.find_valid_window_frame_id(w),
                _ => c.find_window_frame_id(w),
            };
            match frame {
                Some(f) => Ok((f, w)),
                None => Err(lisp::wrong_type(pred.name(), v)),
            }
        },
        None => Err(lisp::wrong_type(pred.name(), v)),
    }
}

fn selected_target(c: &Context, id: u64, v: &Value, pred: WindowPredicate) -> (r: Result<
    (u64, u64),
    Signal,
>)
    requires
        c.selected() is Some,
        c.selected_frame == Some(id),
        v@ is Nil,
    ensures
        is_target(r, *c, Datum::Nil, pred),
        r is Ok,
{
    match c.get_frame(id) {
        Some(f) => Ok((id, f.selected_window)),
        None => Err(lisp::wrong_type(pred.name(), v)),
    }
}

/// The window that an argument names, which may be one that was deleted.
pub open spec fn object_target(c: Context, arg: Datum) -> Option<u64> {
    if arg is Nil {
        match c.selected() {
            Some(f) => Some(f.selected_window),
            None => None,
        }
    } else {
        match lisp::window_named(arg) {
            Some(w) => if c.is_window(w) {
                Some(w)
            } else {
                None
            },
            None => None,
        }
    }
}

pub fn resolve_window_object_id_with_pred(
    c: &mut Context,
    arg: Option<&Value>,
    pred: WindowPredicate,
) -> (r: Result<u64, Signal>)
    requires
        old(c).has_room(),
    ensures
        ensured_for(*old(c), *final(c), lisp::given(arg)),
        match object_target(*final(c), lisp::given(arg)) {
            Some(w) => r == Ok::<u64, Signal>(w),
            None => r matches Err(e) && lisp::is_wrong_type(
                e,
                pred.spelled(),
                lisp::given(arg),
            ),
        },
{
    let v: &Value = match arg {
        Some(v) => if lisp::is_nil(v) {
            return match resolve_window_id_with_pred(c, arg, pred) {
                Ok((_, w)) => Ok(w),
                Err(e) => Err(e),
            };
        } else {
            v
        },
        None => {
            return match resolve_window_id_with_pred(c, None, pred) {
                Ok((_, w)) => Ok(w),
                Err(e) => Err(e),
            };
        },
    };
    match lisp::window_id_from_designator(v) {
        Some(w) => if c.is_window_object_id(w) {
            Ok(w)
        } else {
            Err(lisp::wrong_type(pred.name(), v))
        },
        None => Err(lisp::wrong_type(pred.name(), v)),
    }
}

/// The frame and the window that an argument names, a window that is no leaf
/// included. What is no window at all is told from a window that is gone.
pub fn resolve_window_id_or_error(c: &mut Context, arg: Option<&Value>) -> (r: Result<
    (u64, u64),
    Signal,
>)
    requires
        old(c).has_room(),
    ensures
        ensured_for(*old(c), *final(c), lisp::given(arg)),
        match window_target(*final(c), lisp::given(arg), WindowPredicate::Valid) {
            Some(t) => r == Ok::<(u64, u64), Signal>(t),
            None => r matches Err(e) && lisp::is_wrong_type(
                e,
                if lisp::window_named(lisp::given(arg)) is Some {
                    "window-valid-p"@
                } else {
                    "windowp"@
                },
                lisp::given(arg),
            ),
        },
        lisp::given(arg) is Nil ==> r is Ok,
{
    let v: &Value = match arg {
        Some(v) => if lisp::is_nil(v) {
            return resolve_window_id_with_pred(c, arg, WindowPredicate::Live);
        } else {
            v
        },
        None => {
            return resolve_window_id_with_pred(c, None, WindowPredicate::Live);
        },
    };
    match lisp::window_id_from_designator(v) {
        Some(w) => match c.find_valid_window_frame_id(w) {
            Some(f) => Ok((f, w)),
            None => Err(lisp::wrong_type("window-valid-p", v)),
        },
        None => Err(lisp::wrong_type("windowp", v)),
    }
}

/// The frame that an argument names: the selected one for `nil`, or one by its number.
pub open spec fn frame_target(c: Context, arg: Datum) -> Option<u64> {
    match arg {
        Datum::Nil => match c.selected() {
            Some(_) => c.selected_frame,
            None => None,
        },
        Datum::Frame(id) => if c.frame(id) is Some {
            Some(id)
        } else {
            None
        },
        Datum::Fixnum(n) => {
            let id = (n as i64) as u64;
            if c.frame(id) is Some {
                Some(id)
            } else {
                None
            }
        },
        _ => None,
    }
}

pub fn resolve_frame_id(c: &mut Context, arg: Option<&Value>, predicate: &str) -> (r: Result<
    u64,
    Signal,
>)
    requires
        old(c).has_room(),
    ensures
        ensured_for(*old(c), *final(c), lisp::given(arg)),
        match frame_target(*final(c), lisp::given(arg)) {
            Some(id) => r == Ok::<u64, Signal>(id),
            None => r matches Err(e) && lisp::is_wrong_type(e, predicate@, lisp::given(arg)),
        },
        lisp::given(arg) is Nil ==> r is Ok,
{
    match arg {
        None => Ok(ensure_selected_frame_id(c)),
        Some(v) => match v {
            Value::Nil => Ok(ensure_selected_frame_id(c)),
            Value::Frame(id) => if c.get_frame(*id).is_some() {
                Ok(*id)
            } else {
                Err(lisp::wrong_type(predicate, v))
            },
            Value::Fixnum(n) => if c.get_frame(*n as u64).is_some() {
                Ok(*n as u64)
            } else {
                Err(lisp::wrong_type(predicate, v))
            },
            _ => Err(lisp::wrong_type(predicate, v)),
        },
    }
}

/// The frame that an argument names, or the frame of the window that it names. A
/// number is taken for a frame's first.
pub open spec fn frame_or_window_target(c: Context, arg: Datum) -> Option<u64> {
    match arg {
        Datum::Window(w) => c.valid_frame(w),
        Datum::Fixnum(n) => match frame_target(c, arg) {
            Some(id) => Some(id),
            None => c.valid_frame((n as i64) as u64),
        },
        _ => frame_target(c, arg),
    }
}

pub fn resolve_frame_or_window_frame_id(
    c: &mut Context,
    arg: Option<&Value>,
    predicate: &str,
) -> (r: Result<u64, Signal>)
    requires
        old(c).has_room(),
    ensures
        ensured_for(*old(c), *final(c), lisp::given(arg)),
        match frame_or_window_target(*final(c), lisp::given(arg)) {
            Some(id) => r == Ok::<u64, Signal>(id),
            None => r matches Err(e) && lisp::is_wrong_type(e, predicate@, lisp::given(arg)),
        },
        lisp::given(arg) is Nil ==> r is Ok,
{
    match arg {
        None => {},
        Some(v) => match v {
            Value::Window(w) => {
                return match c.find_valid_window_frame_id(*w) {
                    Some(f) => Ok(f),
                    None => Err(lisp::wrong_type(predicate, v)),
                };
            },
            Value::Fixnum(n) => {
                if c.get_frame(*n as u64).is_some() {
                    return Ok(*n as u64);
                }
                return match c.find_valid_window_frame_id(*n as u64) {
                    Some(f) => Ok(f),
                    None => Err(lisp::wrong_type(predicate, v)),
                };
            },
            _ => {},
        },
    }
    resolve_frame_id(c, arg, predicate)
}

/// Positions that a window can be given: from one to one behind the text.
pub open spec fn clamped(c: Context, w: u64, pos: int) -> Option<int> {
    if pos <= 0 {
        None
    } else {
        match c.window(w) {
            Some(win) => if win.leaf {
                match c.buffer(win.buffer) {
                    Some(b) => {
                        let end = if b.length >= 0 {
                            b.length as int + 1
                        } else {
                            1
                        };
                        Some(if pos <= end {
                            pos
                        } else {
                            end
                        })
                    },
                    None => Some(pos),
                }
            } else {
                Some(pos)
            },
            None => Some(pos),
        }
    }
}

/// The position for a window that is nearest to the one asked for; none where the one
/// asked for is before the text.
pub fn clamped_window_position(c: &Context, w: u64, pos: i64) -> (r: Option<i64>)
    ensures
        match r {
            Some(p) => clamped(*c, w, pos as int) == Some(p as int),
            None => clamped(*c, w, pos as int) is None,
        },
{
    if pos <= 0 {
        return None;
    }
    match c.get_window(w) {
        Some(win) => if win.leaf {
            match c.get_buffer(win.buffer) {
                Some(b) => {
                    let last: i64 = if b.length >= 0 {
                        b.length
                    } else {
                        0
                    };
                    if pos <= last {
                        Some(pos)
                    } else if last < 9_223_372_036_854_775_807 {
                        Some(last + 1)
                    } else {
                        Some(pos)
                    }
                },
                None => Some(pos),
            }
        } else {
            Some(pos)
        },
        None => Some(pos),
    }
}

/// A position that a window is given lies in the text of its buffer or just behind it,
/// and one that already does is kept.
pub proof fn law_clamped_position_is_in_text(c: Context, w: u64, pos: int)
    requires
        pos > 0,
        c.window(w) is Some,
        c.window(w)->0.leaf,
        c.buffer(c.window(w)->0.buffer) is Some,
        c.buffer(c.window(w)->0.buffer)->0.length >= 0,
    ensures
        ({
            let end = c.buffer(c.window(w)->0.buffer)->0.length + 1;
            &&& clamped(c, w, pos) is Some
            &&& 1 <= clamped(c, w, pos)->0 <= end
            &&& pos <= end ==> clamped(c, w, pos) == Some(pos)
            &&& clamped(c, w, clamped(c, w, pos)->0) == clamped(c, w, pos)
        }),
{
}

/// The session after one window was changed.
pub open spec fn window_changed(a: Context, b: Context, w: u64, new: Window) -> bool {
    &&& window_place(a.windows@, w) is Some
    &&& b == (Context { windows: b.windows, ..a })
    &&& b.windows@ == a.windows@.update(window_place(a.windows@, w)->0, new)
}

impl Context {
    /// Scrolls a window by pixels: gives it a start, and hides `new_vscroll_px` pixels
    /// of its first line, which it keeps as a number that is not positive. False if
    /// the window is gone.
    pub fn apply_pixel_scroll(&mut self, window_id: u64, new_start: i64, new_vscroll_px: i32) -> (r:
        bool)
        ensures
            match old(self).window(window_id) {
                Some(w) => if w.leaf && old(self).frame(w.frame) is Some {
                    r && window_changed(
                        *old(self),
                        *final(self),
                        window_id,
                        (Window {
                            start: new_start,
                            vscroll: if new_vscroll_px > 0 {
                                (-new_vscroll_px) as i32
                            } else {
                                0
                            },
                            ..w
                        }),
                    )
                } else {
                    !r && *final(self) == *old(self)
                },
                None => !r && *final(self) == *old(self),
            },
    {
        match self.find_window_frame_id(window_id) {
            Some(f) => {
                if self.get_frame(f).is_none() {
                    return false;
                }
            },
            None => {
                return false;
            },
        }
        match find_window(&self.windows, window_id) {
            Some(i) => {
                self.windows[i].start = new_start;
                self.windows[i].vscroll = if new_vscroll_px > 0 {
                    -new_vscroll_px
                } else {
                    0
                };
                proof {
                    let w = old(self).windows@[i as int];
                    assert(self.windows@ =~= old(self).windows@.update(
                        i as int,
                        Window { start: new_start, vscroll: self.windows@[i as int].vscroll, ..w },
                    ));
                }
                true
            },
            None => false,
        }
    }
}

} // verus!
