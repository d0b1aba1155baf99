//! What settings are for: each one goes where it is named for, and what cannot be used is
//! refused.
use vstd::prelude::*;

use crate::build_laws;
use crate::build_options;
use crate::disk;
use crate::disk::Disk;
use crate::lisp::{Signal, Value};
use crate::text;
use crate::window_buffers;
use crate::window_buffers::WindowBufferDisplayDefaults;
use crate::window_state;
use crate::window_state::{Buffer, Context, WindowPredicate};

verus! {

/// A setting in pixels or columns: the number, or none where nothing is set.
pub open spec fn is_setting(v: Value, n: Option<i32>) -> bool {
    match v {
        Value::Nil => n is None,
        Value::Fixnum(k) => n is Some && n->0 == k,
        _ => false,
    }
}

/// A margin: the number of columns, or none.
pub open spec fn is_margin(v: Value, n: u64) -> bool {
    match v {
        Value::Nil => n == 0,
        Value::Fixnum(k) => n == k,
        _ => false,
    }
}

/// What a buffer says of its windows goes where it says: left is left, right is right, the
/// width is that of the vertical bar and the height that of the horizontal one.
pub proof fn law_settings_of_a_buffer(b: &Buffer, r: Result<WindowBufferDisplayDefaults, Signal>)
    requires
        call_ensures(window_buffers::buffer_display_defaults, (b,), r),
        r is Ok,
    ensures
        is_margin(b.left_margin_width, r->Ok_0.left_margin),
        is_margin(b.right_margin_width, r->Ok_0.right_margin),
        is_setting(b.left_fringe_width, r->Ok_0.left_fringe),
        is_setting(b.right_fringe_width, r->Ok_0.right_fringe),
        is_setting(b.scroll_bar_width, r->Ok_0.scroll_bar_width),
        is_setting(b.scroll_bar_height, r->Ok_0.scroll_bar_height),
        r->Ok_0.vertical_scroll_bar@ == b.vertical_scroll_bar@,
        r->Ok_0.horizontal_scroll_bar@ == b.horizontal_scroll_bar@,
        r->Ok_0.fringes_outside_margins == !(b.fringes_outside_margins is Nil),
{
}

/// Settings that are not set can be used, and numbers that fit; others cannot.
pub proof fn law_settings_are_refused(b: &Buffer, r: Result<WindowBufferDisplayDefaults, Signal>)
    requires
        call_ensures(window_buffers::buffer_display_defaults, (b,), r),
    ensures
        b.left_margin_width is Nil && b.right_margin_width is Nil && b.left_fringe_width is Nil
            && b.right_fringe_width is Nil && b.scroll_bar_width is Nil && b.scroll_bar_height is Nil
            && (b.vertical_scroll_bar is Nil || b.vertical_scroll_bar is T) && (
        b.horizontal_scroll_bar is Nil || b.horizontal_scroll_bar is T) ==> r is Ok,
        b.left_margin_width is Text ==> r is Err && r->Err_0.condition is WrongTypeArgument,
        b.right_margin_width is Text ==> r is Err,
        b.left_fringe_width is Text || b.right_fringe_width is Text || b.scroll_bar_width is Text
            || b.scroll_bar_height is Text || b.vertical_scroll_bar is Text
            || b.horizontal_scroll_bar is Text ==> r is Err,
        b.left_margin_width matches Value::Fixnum(n) ==> (n < 0 ==> r is Err
            && r->Err_0.condition is ArgsOutOfRange),
{
}

/// Where scroll bars can be: vertical ones to the left or to the right, horizontal ones at
/// the bottom, and both where they are by default or nowhere.
pub proof fn law_scroll_bars(v: &Value, vertical: bool, horizontal: bool)
    requires
        call_ensures(window_buffers::valid_vertical_scroll_bar_type, (v,), vertical),
        call_ensures(window_buffers::valid_horizontal_scroll_bar_type, (v,), horizontal),
    ensures
        *v is Nil || *v is T ==> vertical && horizontal,
        *v is Symbol ==> vertical == ((v->Symbol_0)@ == "left"@ || (v->Symbol_0)@ == "right"@),
        *v is Symbol ==> horizontal == ((v->Symbol_0)@ == "bottom"@),
        *v is Fixnum || *v is Text || *v is Pair || *v is Float ==> !vertical && !horizontal,
{
}

proof fn lemma_first_non_file(disk: Disk, v: Seq<Seq<char>>)
    ensures
        disk::first_non_file(disk, v) is None <==> forall|i: int|
            0 <= i < v.len() ==> disk.file_at(#[trigger] v[i]),
    decreases v.len(),
{
    if v.len() > 0 {
        let t = v.subrange(1, v.len() as int);
        lemma_first_non_file(disk, t);
        if disk.file_at(v[0]) {
            assert forall|i: int| 0 <= i < t.len() implies t[i] == #[trigger] v[i + 1] by {}
            if forall|i: int| 0 <= i < t.len() ==> disk.file_at(#[trigger] t[i]) {
                assert forall|i: int| 0 <= i < v.len() implies disk.file_at(#[trigger] v[i]) by {
                    if i > 0 {
                        assert(t[i - 1] == v[i]);
                    }
                }
            } else {
                let i = choose|i: int| 0 <= i < t.len() && !disk.file_at(#[trigger] t[i]);
                assert(!disk.file_at(v[i + 1]));
            }
        }
    }
}

/// Inputs are in order where every one of them is a file.
pub proof fn law_inputs_are_files(
    disk: &Disk,
    inputs: &Vec<String>,
    r: Result<(), String>,
    path: &str,
    one: Result<(), String>,
    k: int,
)
    requires
        call_ensures(disk::ensure_generation_inputs, (disk, inputs), r),
        0 <= k < inputs@.len(),
        path@ == inputs@[k]@,
        call_ensures(disk::ensure_generation_input, (disk, path), one),
    ensures
        one is Ok <==> disk.file_at(path@),
        r is Ok ==> one is Ok,
        (forall|i: int| 0 <= i < inputs@.len() ==> disk.file_at((#[trigger] inputs@[i])@)) ==> r
            is Ok,
{
    let v = text::texts(inputs@);
    lemma_first_non_file(*disk, v);
    assert(v[k] == inputs@[k]@);
    if forall|i: int| 0 <= i < inputs@.len() ==> disk.file_at((#[trigger] inputs@[i])@) {
        assert forall|i: int| 0 <= i < v.len() implies disk.file_at(#[trigger] v[i]) by {
            assert(v[i] == inputs@[i]@);
        }
    }
}

/// What is there is removed; a dry run names all of it.
pub proof fn law_removed_files(
    disk: &Disk,
    files: &Vec<String>,
    r: Vec<String>,
    dry: Vec<String>,
    k: int,
)
    requires
        call_ensures(disk::files_to_remove, (disk, false, files), r),
        call_ensures(disk::files_to_remove, (disk, true, files), dry),
        0 <= k < files@.len(),
    ensures
        text::texts(r@).contains(files@[k]@) <==> disk.present(files@[k]@),
        text::texts(dry@).contains(files@[k]@),
{
    lemma_removable(*disk, false, text::texts(files@), k);
    lemma_removable(*disk, true, text::texts(files@), k);
    assert(text::texts(files@)[k] == files@[k]@);
}

proof fn lemma_removable(disk: Disk, dry_run: bool, v: Seq<Seq<char>>, k: int)
    requires
        0 <= k < v.len(),
    ensures
        disk::removable(disk, dry_run, v).contains(v[k]) <==> dry_run || disk.present(v[k]),
{
    let p = |p: Seq<char>| dry_run || disk.present(p);
    build_laws::lemma_filtered(v, p);
    assert(disk::removable(disk, dry_run, v) == v.filter(p));
    assert(v.filter(p).contains(v[k]) == p(v[k]));
}

/// What stands between two commas is a feature, without the blanks around it, unless there
/// is nothing but blanks.
pub proof fn law_features(value: &str, r: Vec<String>, k: int)
    requires
        call_ensures(build_options::parse_features, (value,), r),
        0 <= k < text::split_at_char(value@, ',').len(),
    ensures
        text::trimmed(text::split_at_char(value@, ',')[k]).len() > 0 <==> text::texts(r@).contains(
            text::trimmed(text::split_at_char(value@, ',')[k]),
        ),
{
    let parts = text::split_at_char(value@, ',');
    let v = parts.map_values(|p: Seq<char>| text::trimmed(p));
    let p = |p: Seq<char>| p.len() > 0;
    build_laws::lemma_filtered(v, p);
    assert(v[k] == text::trimmed(parts[k]));
    assert(v.filter(p).contains(v[k]) == p(v[k]));
}

/// A window that is asked for is found where it is one, whatever frame is selected; none
/// means the selected one.
pub proof fn law_window_argument(c: &mut Context, v: &Value, r: Result<(u64, u64), Signal>)
    requires
        call_ensures(window_state::resolve_window_id_or_error, (c, Some(v)), r),
    ensures
        *v is Nil ==> r is Ok && final(c).selected_frame == Some((r->Ok_0).0) && (
        final(c).selected() matches Some(f) && f.selected_window == (r->Ok_0).1),
        !(*v is Nil) ==> *final(c) == *old(c),
        *v is Window ==> (r is Ok <==> old(c).valid_frame(v->Window_0) is Some),
        *v is Window && r is Ok ==> (r->Ok_0).1 == v->Window_0 && old(c).valid_frame(v->Window_0)
            == Some((r->Ok_0).0),
        *v is Text || *v is Symbol || *v is Pair ==> r is Err && r->Err_0.condition
            is WrongTypeArgument,
{
}

/// A window object is any window that is or was.
pub proof fn law_window_object(
    c: &mut Context,
    v: &Value,
    p: WindowPredicate,
    r: Result<u64, Signal>,
)
    requires
        call_ensures(window_state::resolve_window_object_id_with_pred, (c, Some(v), p), r),
    ensures
        !(*v is Nil) ==> *final(c) == *old(c),
        *v is Window ==> (r is Ok <==> old(c).is_window(v->Window_0)),
        *v is Window && r is Ok ==> r->Ok_0 == v->Window_0,
        *v is Text || *v is Symbol || *v is Pair ==> r is Err,
        *v is Nil && r is Ok ==> (final(c).selected() matches Some(f) && f.selected_window
            == r->Ok_0),
{
}

} // verus!
