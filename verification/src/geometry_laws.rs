//! What measuring is for: the parts of a window make up the whole, cells fit in the pixels
//! that they are counted in, and a source that something stale leads to is compiled.
use vstd::prelude::*;

use crate::build_laws;
use crate::disk;
use crate::disk::Disk;
use crate::driver;
use crate::frame_size;
use crate::frame_size::FrameGeometry;
use crate::lisp::{Value, WindowBodyUnit};
use crate::makefile;
use crate::makefile::Rule;
use crate::paths;
use crate::paths::Collation;
use crate::select_laws;
use crate::text;
use crate::waves;
use crate::window_geometry;
use crate::window_geometry::{PartialWidth, WindowSides};
use crate::window_select;
use crate::window_state;
use crate::window_state::{Context, Rect, Window};

verus! {

proof fn lemma_division(px: int, side: int)
    requires
        px >= 0,
        side > 0,
    ensures
        (px / side) * side <= px < (px / side) * side + side,
        px / side >= 0,
{
    vstd::arithmetic::div_mod::lemma_fundamental_div_mod(px, side);
    assert(side * (px / side) == (px / side) * side) by (nonlinear_arith);
    vstd::arithmetic::div_mod::lemma_div_pos_is_pos(px, side);
}

/// As many cells as are counted fit, and no more; cells of no size are not counted.
pub proof fn law_cells_fit(px: i64, side: u32, r: i64, back: i64, neg: i64)
    requires
        call_ensures(window_geometry::cells_in, (px, side), r),
        back == -px,
        call_ensures(window_geometry::cells_in, (back, side), neg),
    ensures
        side == 0 ==> r == 0,
        side > 0 && px >= 0 ==> 0 <= r && r * side <= px < r * side + side,
        neg == -r,
{
    if side > 0 && px >= 0 {
        lemma_division(px as int, side as int);
    }
}

/// Lines fit in a window's height and columns in its width.
pub proof fn law_lines_and_columns(
    bounds: Rect,
    w: u32,
    h: u32,
    lines: i64,
    cols: i64,
    height: i64,
    width: i64,
)
    requires
        call_ensures(window_geometry::window_height_lines, (bounds, h), lines),
        call_ensures(window_geometry::window_width_cols, (bounds, w), cols),
        call_ensures(window_geometry::window_height_pixels, (bounds,), height),
        call_ensures(window_geometry::window_width_pixels, (bounds,), width),
        bounds.height >= 0,
        bounds.width >= 0,
        w > 0,
        h > 0,
    ensures
        height == bounds.height,
        width == bounds.width,
        lines * h <= height < lines * h + h,
        cols * w <= width < cols * w + w,
{
    lemma_division(bounds.height as int, h as int);
    lemma_division(bounds.width as int, w as int);
}

/// Sizes that no screen goes beyond.
pub open spec fn are_ordinary(s: WindowSides) -> bool {
    &&& s.left_margin <= 0xff_ffff
    &&& s.right_margin <= 0xff_ffff
    &&& 0 <= s.left_fringe <= 0xff_ffff
    &&& 0 <= s.right_fringe <= 0xff_ffff
    &&& 0 <= s.left_scroll_bar <= 0xff_ffff
    &&& 0 <= s.right_scroll_bar <= 0xff_ffff
    &&& 0 <= s.right_divider <= 0xff_ffff
    &&& 1 <= s.char_width <= 0xff_ffff
}

/// The two sides of a window and its body make up its width: each side has its scroll bar,
/// its margin and, on a graphical display, its fringe, and the right one what divides it
/// from the next window.
pub proof fn law_sides_and_body(bounds: Rect, s: WindowSides, o: (i64, i64), body: i64)
    requires
        call_ensures(window_geometry::window_body_horizontal_offsets_pixels, (s,), o),
        call_ensures(window_geometry::window_body_width_pixels, (bounds, s), body),
        0 <= bounds.width <= 0x7fff_ffff,
        are_ordinary(s),
    ensures
        o.0 + body + o.1 == bounds.width,
        s.graphical ==> o.0 == s.left_scroll_bar + s.left_fringe + s.left_margin * s.char_width,
        !s.graphical ==> o.0 == s.left_scroll_bar + s.left_margin * s.char_width,
        s.graphical && s.rightmost ==> o.1 == s.right_scroll_bar + s.right_fringe + s.right_margin
            * s.char_width,
        s.graphical && !s.rightmost ==> o.1 == s.right_scroll_bar + s.right_fringe + s.right_margin
            * s.char_width + s.right_divider,
        !s.graphical && s.rightmost ==> o.1 == s.right_scroll_bar + s.right_margin * s.char_width,
        !s.graphical && !s.rightmost && s.right_divider > 0 ==> o.1 == s.right_scroll_bar
            + s.right_margin * s.char_width + s.right_divider,
        !s.graphical && !s.rightmost && s.right_divider == 0 ==> o.1 == s.right_scroll_bar
            + s.right_margin * s.char_width + s.char_width,
{
    lemma_product(s.left_margin as int, s.char_width as int);
    lemma_product(s.right_margin as int, s.char_width as int);
}

proof fn lemma_product(a: int, b: int)
    by (nonlinear_arith)
    requires
        0 <= a <= 0xff_ffff,
        0 <= b <= 0xff_ffff,
    ensures
        0 <= a * b <= 0xffff_ffff_ffff,
{
}

/// A window is at an edge of its frame where nothing but the last pixel is left beyond it,
/// and what divides it from the next one is drawn only elsewhere.
pub proof fn law_at_the_edge(
    bounds: Rect,
    size: u32,
    right: bool,
    bottom: bool,
    at_edge: bool,
    p: Option<i64>,
    d: i64,
)
    requires
        call_ensures(window_geometry::window_is_rightmost, (bounds, size), right),
        call_ensures(window_geometry::window_is_bottommost, (bounds, size), bottom),
        call_ensures(window_geometry::window_divider_width, (at_edge, p), d),
    ensures
        right <==> size - (bounds.x + bounds.width) <= 1,
        bottom <==> size - (bounds.y + bounds.height) <= 1,
        at_edge ==> d == 0,
        p is None ==> d == 0,
        !at_edge && p is Some && p->0 >= 0 ==> d == p->0,
        d >= 0,
{
}

/// A window's body is its height but for the mode line; a minibuffer has none.
pub proof fn law_mode_line(
    bounds: Rect,
    h: u32,
    body: i64,
    mini: i64,
    lines: i64,
    mini_lines: i64,
    all: i64,
)
    requires
        call_ensures(window_geometry::window_body_height_pixels, (bounds, false, h), body),
        call_ensures(window_geometry::window_body_height_pixels, (bounds, true, h), mini),
        call_ensures(window_geometry::window_body_height_lines, (bounds, false, h), lines),
        call_ensures(window_geometry::window_body_height_lines, (bounds, true, h), mini_lines),
        call_ensures(window_geometry::window_height_lines, (bounds, h), all),
        bounds.height >= 0,
        all > i64::MIN,
    ensures
        mini == bounds.height,
        body + h == bounds.height,
        mini_lines == all,
        lines == all - 1,
{
}

/// What was drawn counts before what is laid out; pixels are pixels, and in lines as many
/// are counted as fit.
pub proof fn law_drawn_text(
    drawn: i64,
    bounds: Rect,
    mini: bool,
    h: u32,
    s: WindowSides,
    high: i64,
    lines: i64,
    wide: i64,
    cols: i64,
)
    requires
        call_ensures(
            window_geometry::window_text_height,
            (Some(drawn), bounds, mini, h, true),
            high,
        ),
        call_ensures(
            window_geometry::window_text_height,
            (Some(drawn), bounds, mini, h, false),
            lines,
        ),
        call_ensures(window_geometry::window_text_width, (Some(drawn), bounds, s, true), wide),
        call_ensures(window_geometry::window_text_width, (Some(drawn), bounds, s, false), cols),
        drawn >= 0,
        h >= 1,
        s.char_width >= 1,
    ensures
        high == drawn,
        lines * h <= drawn < lines * h + h,
        wide == drawn,
        cols * s.char_width <= drawn < cols * s.char_width + s.char_width,
{
    lemma_division(drawn as int, h as int);
    lemma_division(drawn as int, s.char_width as int);
}

/// Where nothing was drawn, the text is as large as the body.
pub proof fn law_text_not_drawn(
    bounds: Rect,
    mini: bool,
    h: u32,
    s: WindowSides,
    high: i64,
    body: i64,
    lines: i64,
    body_lines: i64,
    wide: i64,
    body_wide: i64,
)
    requires
        call_ensures(
            window_geometry::window_text_height,
            (None::<i64>, bounds, mini, h, true),
            high,
        ),
        call_ensures(window_geometry::window_body_height_pixels, (bounds, mini, h), body),
        call_ensures(
            window_geometry::window_text_height,
            (None::<i64>, bounds, mini, h, false),
            lines,
        ),
        call_ensures(window_geometry::window_body_height_lines, (bounds, mini, h), body_lines),
        call_ensures(window_geometry::window_text_width, (None::<i64>, bounds, s, true), wide),
        call_ensures(window_geometry::window_body_width_pixels, (bounds, s), body_wide),
    ensures
        high == body,
        lines == body_lines,
        wide == body_wide,
{
}

/// A body's height is what was drawn, else what is laid out, in the unit that is asked for.
pub proof fn law_body_height_in_units(
    displayed: Option<i64>,
    bounds: Rect,
    mini: bool,
    unit: WindowBodyUnit,
    h: u32,
    remapped: Option<u32>,
    r: i64,
    body: i64,
    px: i64,
    m: i64,
)
    requires
        call_ensures(
            window_geometry::window_body_height_for_window,
            (displayed, bounds, mini, unit, h, remapped),
            r,
        ),
        call_ensures(window_geometry::window_body_height_pixels, (bounds, mini, h), body),
        px == (if displayed is Some {
            displayed->0
        } else {
            body
        }),
        call_ensures(window_geometry::measure, (unit, px, h, remapped), m),
    ensures
        r == m,
        unit is Pixels ==> r == px,
{
}

/// Nothing and the empty value never truncate, a number does below so many columns, and
/// anything else always does.
pub proof fn law_partial_width(v: Option<&Value>, r: PartialWidth)
    requires
        call_ensures(window_geometry::partial_width_setting, (v,), r),
    ensures
        v is None ==> r is Never,
        v is Some && *(v->0) is Nil ==> r is Never,
        v is Some && *(v->0) is Fixnum ==> r == PartialWidth::Below((v->0)->Fixnum_0),
        v is Some && (*(v->0) is T || *(v->0) is Symbol || *(v->0) is Text) ==> r is Always,
{
}

/// What is not text around a frame: its bars above, its border on each side, and across also
/// fringes and scroll bars.
pub proof fn law_around_the_text(
    g: &FrameGeometry,
    bars: u32,
    border: u32,
    across: u32,
    down: u32,
)
    requires
        call_ensures(frame_size::frame_non_text_height_pixels, (g,), bars),
        call_ensures(frame_size::frame_internal_border_total_pixels, (g,), border),
        call_ensures(frame_size::frame_non_text_total_width_pixels, (g,), across),
        call_ensures(frame_size::frame_non_text_total_height_pixels, (g,), down),
        g.menu_bar_height <= 0xf_ffff,
        g.tool_bar_height <= 0xf_ffff,
        g.tab_bar_height <= 0xf_ffff,
        0 <= g.internal_border_width <= 0xf_ffff,
        0 <= g.horizontal_non_text_width <= 0xf_ffff,
    ensures
        bars == g.menu_bar_height + g.tool_bar_height + g.tab_bar_height,
        border == g.internal_border_width + g.internal_border_width,
        across == g.horizontal_non_text_width + border,
        down == bars + border,
{
}

/// A dimension is kept between its least value and the most that there is.
pub proof fn law_dimension_is_kept_in_bounds(value: i64, low: i64, r: i64)
    requires
        call_ensures(frame_size::clamp_frame_dimension, (value, low), r),
        0 <= low <= u32::MAX,
    ensures
        low <= r <= u32::MAX,
        low <= value <= u32::MAX ==> r == value,
        value < low ==> r == low,
        value > u32::MAX ==> r == u32::MAX,
{
}

/// A frame has the lines that it has but for those of its bars, where it shows them, and one
/// at least.
pub proof fn law_realized_lines(g: &FrameGeometry, r: i64, top: bool)
    requires
        call_ensures(frame_size::frame_realized_lines, (g,), r),
        call_ensures(frame_size::frame_is_top_level_non_window, (g,), top),
    ensures
        r >= 1,
        g.displays_chrome && g.lines - g.top_margin >= 1 ==> r + g.top_margin == g.lines,
        !g.displays_chrome && g.lines >= 1 ==> r == g.lines,
        top <==> !(g.graphical || g.is_child),
{
}

/// What is compiled in the end: all that is stale at first, all that depends on something
/// compiled, and what is in neither way led to is left alone.
pub proof fn law_closure(
    sources: &Vec<String>,
    rules: &Vec<Rule>,
    initial: &Vec<String>,
    r: Vec<String>,
    i: int,
    k: int,
)
    requires
        call_ensures(waves::compile_main_rebuild_closure, (sources, rules, initial), r),
    ensures
        0 <= i < initial@.len() ==> paths::has_name(
            Collation::Path,
            text::texts(r@),
            initial@[i]@,
        ),
        0 <= i < sources@.len() && 0 <= k < sources@.len() && makefile::depends(
            makefile::rule_models(rules@),
            sources@[i]@,
            sources@[k]@,
        ) && paths::has_name(Collation::Path, text::texts(r@), sources@[k]@) ==> paths::has_name(
            Collation::Path,
            text::texts(r@),
            sources@[i]@,
        ),
        initial@.len() == 0 ==> r@.len() == 0,
{
    let (s, m, a) = (text::texts(sources@), makefile::rule_models(rules@), text::texts(initial@));
    let v = text::texts(r@);
    if 0 <= i < initial@.len() {
        let x = initial@[i]@;
        assert(a[i] == x);
        assert(paths::same_name(Collation::Path, a[i], x));
        assert(waves::rebuilt_within(s, m, a, x, 0));
        assert(waves::rebuilt(s, m, a, x));
        assert(paths::has_name(Collation::Path, v, x));
    }
    if 0 <= i < sources@.len() && 0 <= k < sources@.len() && makefile::depends(
        m,
        sources@[i]@,
        sources@[k]@,
    ) && paths::has_name(Collation::Path, v, sources@[k]@) {
        let (x, y) = (sources@[i]@, sources@[k]@);
        assert(s[i] == x && s[k] == y);
        assert(waves::rebuilt(s, m, a, y));
        let n = choose|n: nat| waves::rebuilt_within(s, m, a, y, n);
        assert(paths::same_name(Collation::Path, s[i], x));
        assert(paths::has_name(Collation::Path, s, x));
        assert(makefile::depends(m, x, s[k]) && waves::rebuilt_within(s, m, a, s[k], n));
        assert(waves::rebuilt_within(s, m, a, x, n + 1));
        assert(waves::rebuilt(s, m, a, x));
        assert(paths::has_name(Collation::Path, v, x));
    }
    if initial@.len() == 0 && r@.len() > 0 {
        let x = v[0];
        assert(paths::same_name(Collation::Path, v[0], x));
        assert(paths::has_name(Collation::Path, v, x));
        assert(waves::rebuilt(s, m, a, x));
        let n = choose|n: nat| waves::rebuilt_within(s, m, a, x, n);
        lemma_nothing_stale(s, m, x, n);
        assert(a =~= Seq::empty());
    }
}

proof fn lemma_nothing_stale(
    s: Seq<Seq<char>>,
    m: Seq<makefile::RuleModel>,
    x: Seq<char>,
    n: nat,
)
    ensures
        !waves::rebuilt_within(s, m, Seq::empty(), x, n),
    decreases n,
{
    let e = Seq::<Seq<char>>::empty();
    assert(!paths::has_name(Collation::Path, e, x));
    if waves::rebuilt_within(s, m, e, x, n) {
        let k = choose|k: int|
            0 <= k < s.len() && makefile::depends(m, x, #[trigger] s[k]) && waves::rebuilt_within(
                s,
                m,
                e,
                s[k],
                (n - 1) as nat,
            );
        lemma_nothing_stale(s, m, s[k], (n - 1) as nat);
    }
}

/// One source depends on another where a rule that makes the one names the other.
pub proof fn law_source_depends(
    rules: &Vec<Rule>,
    source: &str,
    dep: &str,
    r: bool,
    i: int,
    t: int,
    d: int,
)
    requires
        call_ensures(waves::source_depends, (rules, source, dep), r),
    ensures
        0 <= i < rules@.len() && 0 <= t < rules@[i].targets@.len() && rules@[i].targets@[t]@
            == source@ && 0 <= d < rules@[i].deps@.len() && rules@[i].deps@[d]@ == dep@ ==> r,
        rules@.len() == 0 ==> !r,
{
    let m = makefile::rule_models(rules@);
    if 0 <= i < rules@.len() && 0 <= t < rules@[i].targets@.len() && rules@[i].targets@[t]@
        == source@ && 0 <= d < rules@[i].deps@.len() && rules@[i].deps@[d]@ == dep@ {
        assert(m[i] == rules@[i].model());
        assert(paths::same_name(Collation::Path, m[i].targets[t], source@));
        assert(paths::same_name(Collation::Path, m[i].deps[d], dep@));
        assert(paths::has_name(Collation::Path, m[i].targets, source@));
        assert(paths::has_name(Collation::Path, m[i].deps, dep@));
    }
}

/// Compiled files whose source is gone, and no others.
pub proof fn law_orphans(disk: &Disk, files: &Vec<String>, r: Vec<String>, k: int)
    requires
        call_ensures(driver::lisp_bytecode_without_source, (disk, files), r),
        0 <= k < files@.len(),
    ensures
        text::texts(r@).contains(files@[k]@) <==> !disk.file_at(
            paths::with_extension_of(files@[k]@, "el"@),
        ),
{
    let v = text::texts(files@);
    let p = |s: Seq<char>| driver::has_no_source(*disk, s);
    build_laws::lemma_filtered(v, p);
    assert(v[k] == files@[k]@);
    assert(v.filter(p).contains(v[k]) == p(v[k]));
}

/// A dry run compiles everything first; a real one what is stale.
pub proof fn law_compiled_first(disk: &Disk, files: &Vec<String>, dry: Vec<String>, r: Vec<String>, k: int)
    requires
        call_ensures(driver::compile_first_sources_to_compile, (disk, true, files), dry),
        call_ensures(driver::compile_first_sources_to_compile, (disk, false, files), r),
        0 <= k < files@.len(),
    ensures
        text::texts(dry@).contains(files@[k]@),
        text::texts(r@).contains(files@[k]@) <==> disk::bytecode_stale(*disk, files@[k]@),
{
    let v = text::texts(files@);
    let p = |s: Seq<char>| driver::compile_first_due(*disk, true, s);
    let q = |s: Seq<char>| driver::compile_first_due(*disk, false, s);
    build_laws::lemma_filtered(v, p);
    build_laws::lemma_filtered(v, q);
    assert(v[k] == files@[k]@);
    assert(v.filter(p).contains(v[k]) == p(v[k]));
    assert(v.filter(q).contains(v[k]) == q(v[k]));
}

proof fn lemma_with_bytecode(v: Seq<Seq<char>>, k: int)
    requires
        0 <= k < v.len(),
    ensures
        driver::with_bytecode(v).len() == 2 * v.len(),
        driver::with_bytecode(v)[2 * k] == v[k],
        driver::with_bytecode(v)[2 * k + 1] == paths::with_extension_of(v[k], "elc"@),
    decreases v.len(),
{
    if v.len() > 1 {
        lemma_with_bytecode(v.drop_last(), if k < v.len() - 1 {
            k
        } else {
            0
        });
    }
    assert(v.len() == 1 ==> driver::with_bytecode(v.drop_last()).len() == 0);
}

/// Each file that is made comes with its compiled form right behind it.
pub proof fn law_files_and_their_compiled_forms(files: &Vec<String>, r: Vec<String>, k: int)
    requires
        call_ensures(driver::secondary_loaddefs_artifacts, (files,), r),
        0 <= k < files@.len(),
    ensures
        r@.len() == 2 * files@.len(),
        r@[2 * k]@ == files@[k]@,
        r@[2 * k + 1]@ == paths::with_extension_of(files@[k]@, "elc"@),
{
    let v = text::texts(files@);
    lemma_with_bytecode(v, k);
    let t = text::texts(r@);
    assert(v[k] == files@[k]@);
    assert(t[2 * k] == r@[2 * k]@ && t[2 * k + 1] == r@[2 * k + 1]@);
}

/// A window that is selected is used at the time that the clock then shows, which is later
/// than any before; no other window is touched.
pub proof fn law_selected_window_is_used(c: &mut Context, w: u64)
    requires
        call_ensures(window_select::note_window_selected, (c, w), ()),
        old(c).use_clock < i64::MAX,
    ensures
        final(c).use_clock == old(c).use_clock + 1,
        old(c).window(w) matches Some(x) ==> final(c).window(w) == Some(
            Window { use_time: final(c).use_clock, ..x },
        ),
        forall|x: u64| x != w ==> #[trigger] final(c).window(x) == old(c).window(x),
        final(c).frames == old(c).frames,
        final(c).buffers == old(c).buffers,
        final(c).selected_frame == old(c).selected_frame,
{
    let v = old(c).windows@;
    if let Some(j) = window_state::window_place(v, w) {
        window_state::lemma_index_in(window_state::window_ids(v), w);
        select_laws::lemma_one_window(*old(c), *final(c), j, w);
    }
}

/// The window that a frame has selected and what it shows, where it shows a text.
pub proof fn law_selected_of_a_frame(c: &Context, frame: u64, r: Option<(u64, u64)>)
    requires
        call_ensures(window_select::selected_window_buffer_state_in_frame, (c, frame), r),
    ensures
        c.frame(frame) is None ==> r is None,
        c.frame(frame) matches Some(f) ==> match c.window(f.selected_window) {
            None => r is None,
            Some(w) => r == (if w.leaf {
                Some((w.id, w.buffer))
            } else {
                None::<(u64, u64)>
            }),
        },
{
}

} // verus!
