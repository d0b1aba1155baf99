//! What scrolling is for: how far a window goes, where it begins then, and where point is.
use vstd::prelude::*;

use crate::lisp;
use crate::lisp::{Condition, Datum, Value};
use crate::window_scroll;
use crate::window_scroll::{ScrollAction, ScrollAnswer, ScrollArg, ScrollFacts, ScrollPhase};

verus! {

/// A scroll goes as many screen lines as it was asked for, from the window's start where
/// point is visible, else from the start that was found for it. It goes nowhere else.
pub proof fn law_scroll_goes_as_far_as_asked(
    f: ScrollFacts,
    phase: ScrollPhase,
    answer: ScrollAnswer,
    r: ScrollAction,
)
    requires
        call_ensures(window_scroll::scroll_by_screen_lines, (f, phase, answer), r),
    ensures
        r matches ScrollAction::Move { from, lines, then } ==> match then {
            ScrollPhase::Forward => lines == f.lines && lines > 0 && (answer
                == ScrollAnswer::Visible(true) && from == f.window_start || answer
                == ScrollAnswer::At(from)),
            ScrollPhase::Backward => lines == f.lines && lines < 0 && from > f.begin && (answer
                == ScrollAnswer::Visible(true) && from == f.window_start || answer
                == ScrollAnswer::At(from)),
            ScrollPhase::Recovery => from == f.point && answer == ScrollAnswer::Visible(false),
            ScrollPhase::Viewport { start } => from == start && lines == f.body_height && answer
                == ScrollAnswer::At(start) && phase is Backward,
            ScrollPhase::LastLine { start } => lines == -1 && answer == ScrollAnswer::At(from)
                && phase == (ScrollPhase::Viewport { start }),
            ScrollPhase::Visibility => false,
        },
{
}

/// Scrolling forward with point in view: the window begins where the motion by the count
/// ended, and point is there where it would be left behind, else stays. A motion that runs
/// into the end of the text is an error.
pub proof fn law_scroll_forward(f: ScrollFacts, first: ScrollAction, p: i64, second: ScrollAction)
    requires
        f.lines > 0,
        call_ensures(
            window_scroll::scroll_by_screen_lines,
            (f, ScrollPhase::Visibility, ScrollAnswer::Visible(true)),
            first,
        ),
        call_ensures(
            window_scroll::scroll_by_screen_lines,
            (f, ScrollPhase::Forward, ScrollAnswer::At(p)),
            second,
        ),
    ensures
        first == (ScrollAction::Move {
            from: f.window_start,
            lines: f.lines,
            then: ScrollPhase::Forward,
        }),
        p >= f.end ==> second == ScrollAction::Fail(Condition::EndOfBuffer),
        p < f.end && p <= f.point ==> second == (ScrollAction::Done { start: p, point: f.point }),
        p < f.end && p > f.point ==> second == (ScrollAction::Done { start: p, point: p }),
{
}

/// Scrolling backward with point in view: a window at the beginning of the text does not
/// move; else it begins where the motion by the count ended, `p`. The window then ends at
/// `e`. Point stays where it is shown, and is put on the last line that is shown, `l`, where
/// it fell below.
pub proof fn law_scroll_backward(
    f: ScrollFacts,
    first: ScrollAction,
    p: i64,
    second: ScrollAction,
    e: i64,
    third: ScrollAction,
    l: i64,
    fourth: ScrollAction,
)
    requires
        f.lines < 0,
        call_ensures(
            window_scroll::scroll_by_screen_lines,
            (f, ScrollPhase::Visibility, ScrollAnswer::Visible(true)),
            first,
        ),
        call_ensures(
            window_scroll::scroll_by_screen_lines,
            (f, ScrollPhase::Backward, ScrollAnswer::At(p)),
            second,
        ),
        call_ensures(
            window_scroll::scroll_by_screen_lines,
            (f, ScrollPhase::Viewport { start: p }, ScrollAnswer::At(e)),
            third,
        ),
        call_ensures(
            window_scroll::scroll_by_screen_lines,
            (f, ScrollPhase::LastLine { start: p }, ScrollAnswer::At(l)),
            fourth,
        ),
    ensures
        f.window_start <= f.begin ==> first == ScrollAction::Fail(Condition::BeginningOfBuffer),
        f.window_start > f.begin ==> first == (ScrollAction::Move {
            from: f.window_start,
            lines: f.lines,
            then: ScrollPhase::Backward,
        }),
        second == (ScrollAction::Move {
            from: p,
            lines: f.body_height,
            then: ScrollPhase::Viewport { start: p },
        }),
        f.point < p || f.point < e || (e == f.end && f.point == e) ==> third
            == (ScrollAction::Done { start: p, point: f.point }),
        f.point >= p && f.point >= e && (e != f.end || f.point > e) ==> third
            == (ScrollAction::Move { from: e, lines: -1i64, then: ScrollPhase::LastLine { start: p } }),
        fourth == (ScrollAction::Done { start: p, point: l }),
{
}

/// A point that is not visible is put in the middle of the window, half of its lines from
/// the top, and the scroll goes on from the start that this gives as from any other.
pub proof fn law_scroll_recovers_point_first(
    f: ScrollFacts,
    p: i64,
    first: ScrollAction,
    recovered: ScrollAction,
    usual: ScrollAction,
)
    requires
        f.body_height >= 1,
        call_ensures(
            window_scroll::scroll_by_screen_lines,
            (f, ScrollPhase::Visibility, ScrollAnswer::Visible(false)),
            first,
        ),
        call_ensures(
            window_scroll::scroll_by_screen_lines,
            (f, ScrollPhase::Recovery, ScrollAnswer::At(p)),
            recovered,
        ),
        call_ensures(
            window_scroll::scroll_by_screen_lines,
            (
                ScrollFacts { window_start: p, ..f },
                ScrollPhase::Visibility,
                ScrollAnswer::Visible(true),
            ),
            usual,
        ),
    ensures
        first matches ScrollAction::Move { from, lines, then } && from == f.point && then
            == ScrollPhase::Recovery && lines <= 0 && (-2 * lines == f.body_height || -2 * lines
            == f.body_height - 1),
        recovered == usual,
{
}

/// A scroll by no lines leaves the window and point.
pub proof fn law_scroll_by_nothing(f: ScrollFacts, r: ScrollAction)
    requires
        f.lines == 0,
        call_ensures(
            window_scroll::scroll_by_screen_lines,
            (f, ScrollPhase::Visibility, ScrollAnswer::Visible(true)),
            r,
        ),
    ensures
        r == (ScrollAction::Done { start: f.window_start, point: f.point }),
{
}

/// A scroll command that is given a number scrolls by so many lines; one that is given
/// nothing scrolls by what the window shows but for the lines that stay in view, and `-`
/// turns it round. Scrolling down is scrolling up the other way.
pub proof fn law_scroll_argument(
    v: Option<&Value>,
    arg: ScrollArg,
    body: i64,
    context: i64,
    up: i64,
    down: i64,
)
    requires
        call_ensures(window_scroll::decode_scroll_arg, (v,), arg),
        call_ensures(window_scroll::scroll_lines, (arg, body, context, false), up),
        call_ensures(window_scroll::scroll_lines, (arg, body, context, true), down),
    ensures
        lisp::given(v) matches Datum::Fixnum(n) ==> up == n,
        lisp::given(v) is Nil && body > context ==> up + context == body,
        lisp::given(v) is Nil && body <= context ==> up == 1,
        lisp::given(v) == Datum::Symbol("-"@) && body > context ==> context - up == body,
        down == -up,
{
    reveal_strlit("-");
    match v {
        Some(x) => match *x {
            Value::Fixnum(_) => {},
            _ => {},
        },
        None => {},
    }
}

/// `recenter` with a number that is not negative puts point so many lines below the top,
/// with a negative one so many above the bottom, and else in the middle.
pub proof fn law_recenter_line(arg: Option<&Value>, body: i64, line: i64)
    requires
        call_ensures(window_scroll::recenter_target_line, (arg, body), line),
        body >= 0,
    ensures
        lisp::given(arg) matches Datum::Fixnum(n) ==> {
            &&& n >= 0 ==> line == n
            &&& n < 0 && body + n >= 0 ==> line == body + n
            &&& body + n < 0 ==> line == 0
        },
        !(lisp::given(arg) is Fixnum) ==> 2 * line == body || 2 * line == body - 1,
{
}

} // verus!
