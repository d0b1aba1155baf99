//! What reading a Lisp value is for: what it holds comes out as it is, what does not fit is
//! refused, and what was made of parts comes apart into the same parts.
use vstd::prelude::*;

use crate::lisp;
use crate::lisp::{
    Datum, FrameSizeParam, IntegerOrMarkerArg, Number, Signal, SplitWindowSide, Value,
    WindowBodyUnit,
};

verus! {

/// A whole number is read as itself, and nothing else is read as one: the value is in the
/// signal, behind the test that it failed.
pub proof fn law_whole_number(v: &Value, r: Result<i64, Signal>, o: Option<i64>)
    requires
        call_ensures(lisp::expect_int, (v,), r),
        call_ensures(lisp::as_int, (v,), o),
    ensures
        *v is Fixnum ==> r is Ok && r->Ok_0 == v->Fixnum_0 && o == Some(v->Fixnum_0),
        !(*v is Fixnum) ==> r is Err && o is None && r->Err_0.condition is WrongTypeArgument
            && r->Err_0.data@.len() == 2 && r->Err_0.data@[0]@ == Datum::Symbol("integerp"@)
            && r->Err_0.data@[1]@ == v@,
{
    if r is Err {
        let d = lisp::data(r->Err_0.data@);
        assert(d.len() == 2);
        assert(d[0] == r->Err_0.data@[0]@ && d[1] == r->Err_0.data@[1]@);
    }
}

/// A number is read as itself, whole or not.
pub proof fn law_number(
    v: &Value,
    r: Result<Number, Signal>,
    m: Result<Number, Signal>,
)
    requires
        call_ensures(lisp::expect_number, (v,), r),
        call_ensures(lisp::expect_number_or_marker, (v,), m),
    ensures
        *v is Fixnum ==> r == Ok::<Number, Signal>(Number::Fixnum(v->Fixnum_0)) && m == Ok::<
            Number,
            Signal,
        >(Number::Fixnum(v->Fixnum_0)),
        *v is Float ==> r == Ok::<Number, Signal>(Number::Float(v->Float_0)) && m == Ok::<
            Number,
            Signal,
        >(Number::Float(v->Float_0)),
        !(*v is Fixnum) && !(*v is Float) ==> r is Err && m is Err,
{
}

/// A string is read as its text; nothing else names a buffer.
pub proof fn law_buffer_name(v: &Value, r: Result<String, Signal>)
    requires
        call_ensures(lisp::expect_buffer_name_string, (v,), r),
    ensures
        *v is Text ==> r is Ok && (r->Ok_0)@ == (v->Text_0)@,
        !(*v is Text) ==> r is Err,
{
}

/// A margin is a whole number of columns; no margin is none of them.
pub proof fn law_margin(v: &Value, r: Result<u64, Signal>)
    requires
        call_ensures(lisp::expect_margin_width, (v,), r),
    ensures
        *v is Nil ==> r == Ok::<u64, Signal>(0),
        *v is Fixnum && 0 <= v->Fixnum_0 <= i32::MAX ==> r is Ok && r->Ok_0 == v->Fixnum_0,
        *v is Fixnum && !(0 <= v->Fixnum_0 <= i32::MAX) ==> r is Err
            && r->Err_0.condition is ArgsOutOfRange,
        !(*v is Nil) && !(*v is Fixnum) ==> r is Err && r->Err_0.condition is WrongTypeArgument,
{
}

/// A dimension that is given is itself; one that is not is none.
pub proof fn law_dimension(v: &Value, r: Result<Option<i32>, Signal>)
    requires
        call_ensures(lisp::optional_dimension, (v,), r),
    ensures
        *v is Nil ==> r == Ok::<Option<i32>, Signal>(None),
        *v is Fixnum && i32::MIN <= v->Fixnum_0 <= i32::MAX ==> r is Ok && r->Ok_0 is Some
            && (r->Ok_0)->0 == v->Fixnum_0,
        *v is Fixnum && !(i32::MIN <= v->Fixnum_0 <= i32::MAX) ==> r is Err
            && r->Err_0.condition is ArgsOutOfRange,
        !(*v is Nil) && !(*v is Fixnum) ==> r is Err && r->Err_0.condition is WrongTypeArgument,
{
}

/// A position is a whole number or where a marker is.
pub proof fn law_position(v: &Value, r: Result<IntegerOrMarkerArg, Signal>)
    requires
        call_ensures(lisp::parse_integer_or_marker_arg, (v,), r),
    ensures
        *v is Fixnum ==> r == Ok::<IntegerOrMarkerArg, Signal>(
            IntegerOrMarkerArg::Int(v->Fixnum_0),
        ),
        *v is Marker ==> r == Ok::<IntegerOrMarkerArg, Signal>(
            IntegerOrMarkerArg::Marker(v->Marker_1),
        ),
        !(*v is Fixnum) && !(*v is Marker) ==> r is Err,
{
}

/// A frame's size is so many cells, or so many pixels of text.
pub proof fn law_frame_size_param(v: &Value, r: Option<FrameSizeParam>)
    requires
        call_ensures(lisp::parse_frame_size_param, (v,), r),
    ensures
        *v is Fixnum && v->Fixnum_0 >= 0 ==> r == Some(FrameSizeParam::Cells(v->Fixnum_0)),
        *v is Fixnum && v->Fixnum_0 < 0 ==> r is None,
        *v is Pair && *v->Pair_0 is Symbol && (v->Pair_0->Symbol_0)@ == "text-pixels"@ && *v->Pair_1
            is Fixnum && 0 <= v->Pair_1->Fixnum_0 <= u32::MAX ==> r is Some && r->0 is TextPixels
            && (r->0)->TextPixels_0 == v->Pair_1->Fixnum_0,
        *v is Pair && *v->Pair_1 is Fixnum && !(0 <= v->Pair_1->Fixnum_0 <= u32::MAX) ==> r is None,
        *v is Pair && !(*v->Pair_1 is Fixnum) ==> r is None,
        *v is Nil || *v is T || *v is Float || *v is Text || *v is Symbol ==> r is None,
{
    reveal_with_fuel(lisp::datum, 3);
}

/// A size of nothing is nothing in either unit.
pub proof fn law_zero_size(p: FrameSizeParam, r: bool)
    requires
        call_ensures(FrameSizeParam::is_zero, (p,), r),
    ensures
        p is Cells ==> r == (p->Cells_0 == 0),
        p is TextPixels ==> r == (p->TextPixels_0 == 0),
{
}

/// A window is told by itself or by its number.
pub proof fn law_window_designator(v: &Value, r: Option<u64>)
    requires
        call_ensures(lisp::window_id_from_designator, (v,), r),
    ensures
        *v is Window ==> r == Some(v->Window_0),
        *v is Fixnum && v->Fixnum_0 >= 0 ==> r is Some && r->0 == v->Fixnum_0,
        *v is Fixnum && v->Fixnum_0 < 0 ==> r is None,
        !(*v is Window) && !(*v is Fixnum) ==> r is None,
{
}

/// A frame's name is a string's text or a symbol's name; no name is none.
pub proof fn law_frame_name(v: &Value, r: Option<Option<String>>, s: Option<String>)
    requires
        call_ensures(lisp::frame_name_parameter_value, (v,), r),
        call_ensures(lisp::stringish_value, (v,), s),
    ensures
        *v is Nil ==> r == Some(None::<String>) && s is None,
        *v is Text ==> r is Some && r->0 is Some && ((r->0)->0)@ == (v->Text_0)@ && s is Some && (
        s->0)@ == (v->Text_0)@,
        *v is Symbol ==> r is Some && r->0 is Some && ((r->0)->0)@ == (v->Symbol_0)@ && s is Some
            && (s->0)@ == (v->Symbol_0)@,
        !(*v is Nil) && !(*v is Text) && !(*v is Symbol) ==> r is None && s is None,
{
}

/// A body's size is in characters unless something is given: then in pixels, but for the one
/// symbol that asks for remapped characters.
pub proof fn law_body_unit(v: Option<&Value>, r: WindowBodyUnit)
    requires
        call_ensures(lisp::window_body_unit_from_lisp, (v,), r),
    ensures
        v is None ==> r is CanonicalChars,
        v is Some && *(v->0) is Nil ==> r is CanonicalChars,
        v is Some && *(v->0) is Symbol ==> (if ((v->0)->Symbol_0)@ == "remap"@ {
            r is RemappedChars
        } else {
            r is Pixels
        }),
        v is Some && (*(v->0) is T || *(v->0) is Fixnum || *(v->0) is Text) ==> r is Pixels,
{
    reveal_strlit("remap");
    reveal_strlit("t");
    assert("t"@.len() == 1 && "remap"@.len() == 5);
}

/// A side that is spelled out is that side; below is where a window is split when nothing is
/// said, and to the right when it is merely asked for.
pub proof fn law_side(side: SplitWindowSide, name: &str, v: &Value, r: Option<SplitWindowSide>)
    requires
        call_ensures(SplitWindowSide::name, (side,), name),
        call_ensures(SplitWindowSide::from_lisp_value, (v,), r),
    ensures
        *v is Symbol && (v->Symbol_0)@ == name@ ==> r == Some(side),
        *v is Nil ==> r == Some(SplitWindowSide::Below),
        *v is T ==> r == Some(SplitWindowSide::Right),
        *v is Fixnum || *v is Text || *v is Pair ==> r is None,
{
    lemma_sides();
}

proof fn lemma_sides()
    ensures
        "above"@ != "below"@,
        "above"@ != "left"@,
        "above"@ != "right"@,
        "below"@ != "left"@,
        "below"@ != "right"@,
        "left"@ != "right"@,
{
    reveal_strlit("above");
    reveal_strlit("below");
    reveal_strlit("left");
    reveal_strlit("right");
    assert("above"@[0] == 'a' && "below"@[0] == 'b' && "left"@[0] == 'l' && "right"@[0] == 'r');
}

/// Two sides are opposite where they lie on the same axis and one of them is before.
pub proof fn law_sides_differ(
    a: SplitWindowSide,
    b: SplitWindowSide,
    ha: bool,
    hb: bool,
    ba: bool,
    bb: bool,
)
    requires
        call_ensures(SplitWindowSide::is_horizontal, (a,), ha),
        call_ensures(SplitWindowSide::is_horizontal, (b,), hb),
        call_ensures(SplitWindowSide::is_before, (a,), ba),
        call_ensures(SplitWindowSide::is_before, (b,), bb),
    ensures
        ha == hb && ba == bb ==> a == b,
        a is Left || a is Right ==> ha,
        a is Above || a is Left ==> ba,
        a is Below || a is Right ==> !ba,
        a is Above || a is Below ==> !ha,
{
}

/// The shapes of a cursor: a box, a hollow box or a bar, upright or flat, and all but the
/// hollow one with a width too.
pub proof fn law_cursor_type(v: &Value, r: bool)
    requires
        call_ensures(lisp::is_valid_cursor_type, (v,), r),
    ensures
        *v is Nil || *v is T ==> r,
        *v is Symbol && ((v->Symbol_0)@ == "box"@ || (v->Symbol_0)@ == "hollow"@ || (v->Symbol_0)@
            == "bar"@ || (v->Symbol_0)@ == "hbar"@) ==> r,
        *v is Pair && *v->Pair_0 is Symbol && ((v->Pair_0->Symbol_0)@ == "box"@ || (
        v->Pair_0->Symbol_0)@ == "bar"@ || (v->Pair_0->Symbol_0)@ == "hbar"@) && *v->Pair_1
            is Fixnum ==> r,
        *v is Pair && !(*v->Pair_1 is Fixnum) ==> !r,
        *v is Pair && *v->Pair_0 is Symbol && (v->Pair_0->Symbol_0)@ == "hollow"@ ==> !r,
        *v is Fixnum || *v is Float || *v is Text || *v is Window ==> !r,
{
    reveal_with_fuel(lisp::datum, 3);
    reveal_strlit("box");
    reveal_strlit("hollow");
    reveal_strlit("bar");
    reveal_strlit("hbar");
    assert("hollow"@.len() == 6 && "box"@.len() == 3 && "bar"@.len() == 3 && "hbar"@.len() == 4);
}

proof fn lemma_items_of_list(items: Seq<Datum>)
    ensures
        lisp::list_items(lisp::list_of(items)) == Some(items),
    decreases items.len(),
{
    if items.len() == 0 {
        assert(items =~= Seq::empty());
    } else {
        let rest = items.subrange(1, items.len() as int);
        lemma_items_of_list(rest);
        assert(seq![items[0]] + rest =~= items);
    }
}

/// A list comes apart into what it was made of.
pub proof fn law_list_comes_apart(items: Vec<Value>, l: Value, r: Option<Vec<Value>>, k: int)
    requires
        call_ensures(lisp::list, (items,), l),
        call_ensures(lisp::list_to_vec, (&l,), r),
        0 <= k < items@.len(),
    ensures
        r is Some,
        (r->0)@.len() == items@.len(),
        (r->0)@[k]@ == items@[k]@,
{
    let d = lisp::data(items@);
    lemma_items_of_list(d);
    let e = lisp::data((r->0)@);
    assert(e == d);
    assert(e[k] == (r->0)@[k]@ && d[k] == items@[k]@);
}

/// What ends in something other than nothing is no list.
pub proof fn law_not_a_list(v: &Value, r: Option<Vec<Value>>)
    requires
        call_ensures(lisp::list_to_vec, (v,), r),
    ensures
        *v is Nil ==> r is Some && (r->0)@.len() == 0,
        *v is T || *v is Fixnum || *v is Text || *v is Symbol ==> r is None,
        *v is Pair && !(*v->Pair_1 is Pair) && !(*v->Pair_1 is Nil) ==> r is None,
{
    reveal_with_fuel(lisp::datum, 3);
    reveal_with_fuel(lisp::list_items, 3);
    if *v is Nil {
        assert(lisp::data((r->0)@).len() == 0);
    }
}

/// The names of the two constants, and of a symbol; what is named so is told by that name and
/// by no other.
pub proof fn law_name_of_a_symbol(v: &Value, r: Option<&str>, n: &str, named: bool)
    requires
        call_ensures(lisp::name_of, (v,), r),
        call_ensures(lisp::is_symbol_named, (v, n), named),
    ensures
        *v is Nil ==> r is Some && (r->0)@ == "nil"@,
        *v is T ==> r is Some && (r->0)@ == "t"@,
        *v is Symbol ==> r is Some && (r->0)@ == (v->Symbol_0)@,
        !(*v is Nil) && !(*v is T) && !(*v is Symbol) ==> r is None && !named,
        r is Some ==> named == ((r->0)@ == n@),
{
}

/// Truth is the one constant and falsehood the other.
pub proof fn law_truth(b: bool, v: Value, nil: bool, t: bool, given: bool)
    requires
        call_ensures(lisp::truth, (b,), v),
        call_ensures(lisp::is_nil, (&v,), nil),
        call_ensures(lisp::is_t, (&v,), t),
        call_ensures(lisp::is_given, (Some(&v),), given),
    ensures
        t == b,
        nil == !b,
        given == b,
{
}

/// A number that is out of range is told with the range.
pub proof fn law_out_of_range(v: &Value, low: i64, high: i64, r: Signal)
    requires
        call_ensures(lisp::out_of_range, (v, low, high), r),
    ensures
        r.condition is ArgsOutOfRange,
        r.data@.len() == 3,
        r.data@[0]@ == v@,
        r.data@[1]@ == Datum::Fixnum(low as int),
        r.data@[2]@ == Datum::Fixnum(high as int),
{
    let d = lisp::data(r.data@);
    assert(d.len() == 3);
    assert(d[0] == r.data@[0]@ && d[1] == r.data@[1]@ && d[2] == r.data@[2]@);
}

/// An error is told with its message.
pub proof fn law_error(message: &str, r: Signal)
    requires
        call_ensures(lisp::error, (message,), r),
    ensures
        r.condition is Error,
        r.data@.len() == 1,
        r.data@[0]@ == Datum::Text(message@),
{
    let d = lisp::data(r.data@);
    assert(d.len() == 1);
    assert(d[0] == r.data@[0]@);
}

} // verus!
