use neomacs_core::lisp::{
    expect_buffer_name_string, expect_int, expect_margin_width, expect_number,
    expect_number_or_marker, list, list_to_vec,
    optional_dimension, pair, parse_frame_size_param, parse_integer_or_marker_arg, string, symbol,
    window_body_unit_from_lisp, Condition, FrameSizeParam, IntegerOrMarkerArg, Number,
    SplitWindowSide, Value, WindowBodyUnit,
};
use neomacs_core::window_buffers::{
    builtin_set_window_buffer, discard_buffers_from_window_history, filtered_window_prev_buffers,
    finish_set_window_buffer, record_window_buffer_change_history, WindowBufferHistoryChange,
};
use neomacs_core::window_geometry::{
    measure, partial_width_setting, window_body_horizontal_offsets_pixels, window_body_width_pixels,
    window_chrome_height, window_divider_width, window_height_lines, window_is_rightmost,
    window_truncates_lines_for_motion, ChromeHeights, PartialWidth, WindowChromeMetric,
    WindowSides,
};
use neomacs_core::window_lists::{
    builtin_frame_first_window, builtin_get_buffer_window, builtin_next_window,
    builtin_other_window_for_scrolling, builtin_previous_window, builtin_window_list,
    builtin_window_list_1, decode_all_frames_scope, AllFramesScope,
};
use neomacs_core::window_measures::{
    builtin_window_body_height, builtin_window_body_width, builtin_window_end,
    builtin_window_fringes, builtin_window_mode_line_height, builtin_window_pixel_left,
    builtin_window_pixel_top, builtin_window_right_divider_width, builtin_window_scroll_bar_width,
    builtin_window_bottom_divider_width, builtin_window_header_line_height,
    builtin_window_pixel_height, builtin_window_pixel_width, builtin_window_scroll_bar_height,
    builtin_window_tab_line_height, builtin_window_text_height, builtin_window_text_width,
    recenter_backward_origin, scroll_start, window_total_height_impl, window_total_width_impl,
    Accessible, FringeSlots, RecenterOrigin, WindowTrim, RECENTER_ELSEWHERE,
};
use neomacs_core::window_queries::{
    builtin_active_minibuffer_window, builtin_combine_windows, builtin_delete_window_internal,
    builtin_force_window_update, builtin_old_selected_window, builtin_selected_window,
    builtin_set_window_combination_limit, builtin_uncombine_window, builtin_window_old_buffer,
    builtin_window_resize_apply, decode_delete_other_windows,
    builtin_set_window_hscroll, builtin_set_window_margins, builtin_set_window_scroll_bars,
    builtin_window_buffer, builtin_window_combination_limit, builtin_window_cursor_info,
    builtin_window_discard_buffer_from_window, builtin_window_frame, builtin_window_live_p,
    builtin_window_margins, builtin_window_minibuffer_p, builtin_window_valid_p, builtin_windowp,
    builtin_set_window_fringes, builtin_window_resize_apply_total, bump_target,
    decode_split_window, finish_window_resize_apply_total, frame_window_slot, set_window_slot,
    window_number, window_slot, FrameSlot, WindowNumber, WindowSlot,
};
use neomacs_core::window_scroll::{
    apply_recenter, apply_scroll, builtin_scroll_left, builtin_scroll_right,
    builtin_set_window_point, builtin_set_window_start, builtin_window_point, decode_scroll_arg,
    recenter_target_line, scroll_by_screen_lines, scroll_lines, PointViewportLocation,
    ScreenLineViewport, ScrollAction, ScrollAnswer, ScrollArg, ScrollFacts, ScrollPhase,
};
use neomacs_core::window_select::{
    builtin_select_window, builtin_set_frame_selected_window, record_buffer,
};
use neomacs_core::window_state::{
    clamped_window_position, ensure_selected_frame_id, resolve_frame_id,
    resolve_frame_or_window_frame_id, resolve_window_id_or_error, resolve_window_id_with_pred,
    resolve_window_object_id_with_pred, Context, Rect, Window, WindowPredicate, CursorDisplay, DrawnCursor};

/// A frame of a hundred columns and thirty-seven lines that shows the scratch buffer.
fn session() -> (Context, u64, u64) {
    let mut c = Context::new();
    let frame = c.create_frame("main", 800, 600, 1);
    let window = c.get_frame(frame).expect("frame").selected_window;
    (c, frame, window)
}

/// Puts a second window beside the first one.
fn add_window(c: &mut Context, frame: u64, buffer: u64) -> u64 {
    let id = c.next_window;
    c.next_window += 1;
    c.windows.push(Window {
        id,
        frame,
        leaf: true,
        mini: false,
        buffer,
        start: 1,
        point: 1,
        old_point: 1,
        hscroll: 0,
        min_hscroll: 0,
        suspend_auto_hscroll: false,
        vscroll: 0,
        preserve_vscroll: false,
        force_start: false,
        end_valid: true,
        left_margin: 0,
        right_margin: 0,
        use_time: 0,
        bounds: Rect {
            x: 400,
            y: 0,
            width: 400,
            height: 584,
        },
        dedicated: Value::Nil,
        prev_buffers: Value::Nil,
        next_buffers: Value::Nil,
        cursor_type: Value::T,
        display: None,
        combination_limit: false,
        new_pixel: None,
        new_total: None,
    });
    id
}

fn ids(value: &Value) -> Vec<u64> {
    list_to_vec(value)
        .expect("a list")
        .iter()
        .map(|item| match item {
            Value::Window(id) => *id,
            other => panic!("no window: {other:?}"),
        })
        .collect()
}

#[test]
fn apply_pixel_scroll_sets_vscroll_and_start() {
    let mut eval = Context::new();
    let buf_id = eval.current_buffer.expect("current buffer");
    let frame_id = eval.create_frame("pscroll", 400, 300, buf_id);
    let wid = eval.get_frame(frame_id).expect("frame").selected_window;

    assert!(eval.apply_pixel_scroll(wid, 1, 7));

    let window = eval.get_window(wid).expect("window");
    if !window.leaf {
        panic!("expected leaf window");
    }
    assert_eq!(window.start, 1, "window-start set to one-based 1");
    assert_eq!(window.vscroll, -7, "vscroll stored as negated residual");
}

#[test]
fn pixel_scroll_hides_nothing_for_a_negative_amount_and_needs_a_window() {
    let (mut c, _, w) = session();
    assert!(c.apply_pixel_scroll(w, 3, -4));
    assert_eq!(c.get_window(w).expect("window").vscroll, 0);
    assert_eq!(c.get_window(w).expect("window").start, 3);
    assert!(!c.apply_pixel_scroll(999, 1, 1));
}

#[test]
fn a_session_without_a_frame_gets_one() {
    let mut c = Context::new();
    let id = ensure_selected_frame_id(&mut c);
    let frame = c.get_frame(id).expect("frame");
    assert_eq!(frame.name, "F1");
    assert_eq!((frame.width, frame.height), (80, 25));
    assert!(frame.initial);
    assert_eq!(ensure_selected_frame_id(&mut c), id);
    assert_eq!(c.frames.len(), 1);
}

#[test]
fn windows_are_resolved_or_refused() {
    let (mut c, frame, w) = session();
    assert_eq!(
        resolve_window_id_with_pred(&mut c, None, WindowPredicate::Live),
        Ok((frame, w))
    );
    assert_eq!(
        resolve_window_id_with_pred(&mut c, Some(&Value::Window(w)), WindowPredicate::Live),
        Ok((frame, w))
    );
    let refused =
        resolve_window_id_with_pred(&mut c, Some(&Value::Window(77)), WindowPredicate::Live)
            .unwrap_err();
    assert_eq!(refused.condition, Condition::WrongTypeArgument);
    assert_eq!(refused.data[0], symbol("window-live-p"));
    assert_eq!(
        resolve_window_object_id_with_pred(&mut c, None, WindowPredicate::Windowp),
        Ok(w)
    );
    let none = resolve_window_id_or_error(&mut c, Some(&Value::T)).unwrap_err();
    assert_eq!(none.data[0], symbol("windowp"));
    let gone = resolve_window_id_or_error(&mut c, Some(&Value::Window(77))).unwrap_err();
    assert_eq!(gone.data[0], symbol("window-valid-p"));
}

#[test]
fn frames_are_resolved_or_refused() {
    let (mut c, frame, w) = session();
    assert_eq!(resolve_frame_id(&mut c, None, "frame-live-p"), Ok(frame));
    assert_eq!(
        resolve_frame_id(&mut c, Some(&Value::Fixnum(frame as i64)), "frame-live-p"),
        Ok(frame)
    );
    assert!(resolve_frame_id(&mut c, Some(&Value::T), "frame-live-p").is_err());
    assert_eq!(
        resolve_frame_or_window_frame_id(&mut c, Some(&Value::Window(w)), "frame-live-p"),
        Ok(frame)
    );
}

#[test]
fn window_lists_begin_where_they_are_asked_to() {
    let (mut c, frame, first) = session();
    let second = add_window(&mut c, frame, 1);
    let all = builtin_window_list(&mut c, None, None, None).unwrap();
    assert_eq!(ids(&all), vec![first, second]);
    let from_second =
        builtin_window_list(&mut c, None, None, Some(&Value::Window(second))).unwrap();
    assert_eq!(ids(&from_second), vec![second, first]);
    let with_mini = builtin_window_list(&mut c, None, Some(&Value::T), None).unwrap();
    assert_eq!(ids(&with_mini).len(), 3);
    let one = builtin_window_list_1(&mut c, None, None, None).unwrap();
    assert_eq!(ids(&one)[0], first);
}

#[test]
fn next_and_previous_window_undo_each_other() {
    let (mut c, frame, first) = session();
    let second = add_window(&mut c, frame, 1);
    let next = builtin_next_window(&mut c, Some(&Value::Window(first))).unwrap();
    assert_eq!(next, Value::Window(second));
    let back = builtin_previous_window(&mut c, Some(&next)).unwrap();
    assert_eq!(back, Value::Window(first));
    assert_eq!(
        builtin_next_window(&mut c, Some(&Value::Window(second))).unwrap(),
        Value::Window(first)
    );
}

#[test]
fn the_selected_window_wins_among_those_that_show_a_buffer() {
    let (mut c, frame, first) = session();
    let second = add_window(&mut c, frame, 1);
    assert_eq!(
        builtin_get_buffer_window(&mut c, Some(&Value::Buffer(1)), None).unwrap(),
        Value::Window(first)
    );
    let other = c.create_buffer("notes");
    c.windows.iter_mut().for_each(|w| {
        if w.id == second {
            w.buffer = other;
        }
    });
    assert_eq!(
        builtin_get_buffer_window(&mut c, Some(&string("notes")), None).unwrap(),
        Value::Window(second)
    );
    assert_eq!(
        builtin_get_buffer_window(&mut c, Some(&string("nothing")), None).unwrap(),
        Value::Nil
    );
}

#[test]
fn scrolling_goes_to_the_other_window() {
    let (mut c, frame, _) = session();
    let alone = builtin_other_window_for_scrolling(&mut c);
    assert!(alone.is_err());
    let second = add_window(&mut c, frame, 1);
    assert_eq!(
        builtin_other_window_for_scrolling(&mut c).unwrap(),
        Value::Window(second)
    );
    assert!(builtin_frame_first_window(&mut c, None).is_ok());
}

#[test]
fn scopes_of_frames_are_decoded() {
    let (c, frame, _) = session();
    assert_eq!(
        decode_all_frames_scope(&c, None).unwrap(),
        AllFramesScope::BaseFrame
    );
    assert_eq!(
        decode_all_frames_scope(&c, Some(&Value::T)).unwrap(),
        AllFramesScope::AllFrames
    );
    assert_eq!(
        decode_all_frames_scope(&c, Some(&symbol("visible"))).unwrap(),
        AllFramesScope::VisibleFrames
    );
    assert_eq!(
        decode_all_frames_scope(&c, Some(&Value::Fixnum(0))).unwrap(),
        AllFramesScope::VisibleOrIconifiedFrames
    );
    assert_eq!(
        decode_all_frames_scope(&c, Some(&Value::Frame(frame))).unwrap(),
        AllFramesScope::SpecificFrame(frame)
    );
}

#[test]
fn a_window_shows_the_buffer_it_is_given() {
    let (mut c, _, w) = session();
    let notes = c.create_buffer("notes");
    let step =
        builtin_set_window_buffer(&mut c, &Value::Window(w), &Value::Buffer(notes), None)
            .unwrap();
    assert_eq!((step.window, step.buffer), (w, notes));
    assert!(!step.keep_margins);
    finish_set_window_buffer(&mut c, step).unwrap();
    assert_eq!(c.get_window(w).expect("window").buffer, notes);
    assert_eq!(
        builtin_window_buffer(&mut c, Some(&Value::Window(w))).unwrap(),
        Value::Buffer(notes)
    );
    let missing = builtin_set_window_buffer(&mut c, &Value::Nil, &string("nothing"), None).unwrap_err();
    assert_eq!(missing.condition, Condition::WrongTypeArgument);
    assert_eq!(missing.data, vec![symbol("bufferp"), Value::Nil]);
    let deleted = builtin_set_window_buffer(&mut c, &Value::Nil, &Value::Buffer(99), None).unwrap_err();
    assert_eq!(deleted.condition, Condition::Error);
    let wrong = builtin_set_window_buffer(&mut c, &Value::Nil, &Value::T, None).unwrap_err();
    assert_eq!(wrong.data, vec![symbol("stringp"), Value::T]);
}

#[test]
fn history_keeps_the_outgoing_buffer_once() {
    let (mut c, frame, w) = session();
    let change = WindowBufferHistoryChange {
        outgoing_buffer_id: 1,
        incoming_buffer_id: 2,
        outgoing_window_start: 1,
        outgoing_window_point: 5,
    };
    assert!(record_window_buffer_change_history(&mut c, frame, w, change).unwrap());
    assert!(record_window_buffer_change_history(&mut c, frame, w, change).unwrap());
    let kept = list_to_vec(&c.get_window(w).expect("window").prev_buffers).expect("a list");
    assert_eq!(kept.len(), 1);
    discard_buffers_from_window_history(&mut c, w, &vec![1]).unwrap();
    assert_eq!(c.get_window(w).expect("window").prev_buffers, Value::Nil);
    let entry = list(vec![
        Value::Buffer(4),
        Value::Marker(Some(4), Some(1)),
        Value::Marker(Some(4), Some(1)),
    ]);
    let history = list(vec![entry]);
    assert_eq!(
        filtered_window_prev_buffers(&history, &vec![4]).unwrap().len(),
        0
    );
    assert_eq!(
        filtered_window_prev_buffers(&history, &vec![5]).unwrap().len(),
        1
    );
}

#[test]
fn a_buffer_is_discarded_from_a_window() {
    let (mut c, _, w) = session();
    assert!(builtin_window_discard_buffer_from_window(
        &mut c,
        &Value::Buffer(1),
        &Value::Window(w)
    )
    .is_ok());
    assert!(
        builtin_window_discard_buffer_from_window(&mut c, &Value::Nil, &Value::Window(w)).is_err()
    );
}

#[test]
fn selecting_a_window_selects_it() {
    let (mut c, frame, _) = session();
    let notes = c.create_buffer("notes");
    let second = add_window(&mut c, frame, notes);
    let selected = builtin_select_window(&mut c, &Value::Window(second), None).unwrap();
    assert_eq!(selected.window, second);
    assert_eq!(builtin_selected_window(&mut c), second);
    assert_eq!(c.current_buffer, Some(notes));
    assert_eq!(c.get_frame(frame).expect("frame").buffer_list, vec![notes]);
    let refused = builtin_select_window(&mut c, &Value::Nil, None).unwrap_err();
    assert_eq!(refused.condition, Condition::WrongTypeArgument);
}

#[test]
fn a_frame_keeps_its_own_selected_window() {
    let (mut c, frame, first) = session();
    let second = add_window(&mut c, frame, 1);
    assert!(
        builtin_set_frame_selected_window(&mut c, &Value::Nil, &Value::Window(second), None).is_ok()
    );
    assert_eq!(c.get_frame(frame).expect("frame").selected_window, second);
    assert!(builtin_set_frame_selected_window(&mut c, &Value::Nil, &Value::Window(first), None).is_ok());
}

#[test]
fn a_recorded_buffer_comes_first() {
    let (mut c, frame, _) = session();
    let notes = c.create_buffer("notes");
    record_buffer(&mut c, 1, frame);
    record_buffer(&mut c, notes, frame);
    record_buffer(&mut c, 1, frame);
    assert_eq!(c.get_frame(frame).expect("frame").buffer_list, vec![1, notes]);
}

#[test]
fn point_and_start_are_read_back() {
    let (mut c, frame, _) = session();
    let notes = c.create_buffer("notes");
    let second = add_window(&mut c, frame, notes);
    c.buffers.iter_mut().for_each(|b| b.length = 100);
    let w = Value::Window(second);
    assert_eq!(
        builtin_set_window_point(&mut c, &w, &Value::Fixnum(40)).unwrap(),
        Value::Fixnum(40)
    );
    assert_eq!(builtin_window_point(&mut c, Some(&w)), Ok(40));
    builtin_set_window_start(&mut c, &w, &Value::Fixnum(12), None).unwrap();
    assert_eq!(window_number(&mut c, Some(&w), WindowNumber::Start), Ok(12));
    assert!(c.get_window(second).expect("window").force_start);
    assert_eq!(clamped_window_position(&c, second, 500), Some(101));
    assert_eq!(clamped_window_position(&c, second, 0), None);
    assert!(builtin_set_window_point(&mut c, &w, &Value::T).is_err());
}

#[test]
fn sideways_and_back_is_where_it_was() {
    let (mut c, _, w) = session();
    assert_eq!(builtin_scroll_left(&mut c, Some(10), false), Ok(10));
    assert_eq!(builtin_scroll_right(&mut c, Some(10), false), Ok(0));
    assert_eq!(builtin_scroll_right(&mut c, Some(10), false), Ok(0));
    assert_eq!(builtin_scroll_left(&mut c, None, true), Ok(98));
    assert_eq!(c.get_window(w).expect("window").min_hscroll, 98);
    assert_eq!(builtin_set_window_hscroll(&mut c, &Value::Nil, -5), Ok(0));
}

#[test]
fn scroll_arguments_become_lines() {
    assert_eq!(decode_scroll_arg(None), ScrollArg::Windowful);
    assert_eq!(decode_scroll_arg(Some(&symbol("-"))), ScrollArg::OtherWay);
    assert_eq!(decode_scroll_arg(Some(&Value::Fixnum(3))), ScrollArg::Lines(3));
    assert_eq!(decode_scroll_arg(Some(&Value::T)), ScrollArg::Lines(1));
    assert_eq!(scroll_lines(ScrollArg::Windowful, 24, 2, false), 22);
    assert_eq!(scroll_lines(ScrollArg::Windowful, 24, 2, true), -22);
    assert_eq!(scroll_lines(ScrollArg::OtherWay, 24, 2, false), -22);
    assert_eq!(scroll_lines(ScrollArg::Lines(3), 24, 2, true), -3);
    assert_eq!(scroll_lines(ScrollArg::Windowful, 1, 2, false), 1);
}

#[test]
fn a_scroll_asks_where_point_is_first() {
    let facts = ScrollFacts {
        point: 10,
        begin: 1,
        end: 1000,
        window_start: 1,
        body_height: 20,
        lines: 5,
    };
    let first = scroll_by_screen_lines(facts, ScrollPhase::Visibility, ScrollAnswer::Visible(true));
    assert!(matches!(first, ScrollAction::Move { .. }));
    let viewport = ScreenLineViewport {
        start: 10,
        exclusive_end: 50,
        buffer_end: 100,
    };
    assert_eq!(viewport.locate(5), PointViewportLocation::Before);
    assert_eq!(viewport.locate(10), PointViewportLocation::Visible);
    assert_eq!(viewport.locate(50), PointViewportLocation::After);
}

#[test]
fn what_a_scroll_came_to_is_applied() {
    let (mut c, _, w) = session();
    c.buffers[0].length = 100;
    apply_scroll(&mut c, w, 1, 30, 45);
    let window = c.get_window(w).expect("window");
    assert_eq!((window.start, window.point), (30, 45));
    assert!(window.force_start);
    assert_eq!(c.buffers[0].point, 45);
    apply_recenter(&mut c, w, 20);
    assert_eq!(c.get_window(w).expect("window").start, 20);
}

#[test]
fn recenter_counts_from_either_end() {
    assert_eq!(recenter_target_line(Some(&Value::Fixnum(3)), 24), 3);
    assert_eq!(recenter_target_line(Some(&Value::Fixnum(-1)), 24), 23);
    assert_eq!(recenter_target_line(Some(&Value::Fixnum(-30)), 24), 0);
    assert_eq!(recenter_target_line(None, 24), 12);
    assert_eq!(recenter_target_line(Some(&Value::T), 25), 12);
}

#[test]
fn recenter_starts_from_the_selected_window() {
    let (mut c, frame, w) = session();
    c.buffers[0].length = 100;
    c.buffers[0].point = 60;
    assert_eq!(
        recenter_backward_origin(&mut c, None, None, RECENTER_ELSEWHERE),
        Ok(Some(RecenterOrigin {
            frame,
            window: w,
            buffer: 1,
            point: 60,
            lines: 17,
        }))
    );
    assert_eq!(
        recenter_backward_origin(&mut c, None, Some(320), RECENTER_ELSEWHERE)
            .unwrap()
            .expect("an origin")
            .lines,
        10
    );
    c.current_buffer = None;
    let refused = recenter_backward_origin(&mut c, None, None, RECENTER_ELSEWHERE).unwrap_err();
    assert_eq!(refused.condition, Condition::Error);
    assert_eq!(
        refused.data,
        vec![string("`recenter'ing a window that does not display current-buffer")]
    );
    let curved = "‘recenter’ing a window that does not display current-buffer";
    let refused = recenter_backward_origin(&mut c, None, None, curved).unwrap_err();
    assert_eq!(refused.data, vec![string(curved)]);
}

#[test]
fn windows_are_measured_in_cells_and_pixels() {
    let (mut c, frame, first) = session();
    let second = add_window(&mut c, frame, 1);
    let w = Value::Window(second);
    assert_eq!(window_total_width_impl(&mut c, Some(&w)), Ok(50));
    assert_eq!(window_total_height_impl(&mut c, Some(&w)), Ok(36));
    assert_eq!(builtin_window_pixel_left(&mut c, Some(&w)), Ok(50));
    assert_eq!(builtin_window_pixel_top(&mut c, None), Ok(0));
    assert_eq!(
        builtin_window_body_height(&mut c, Some(&w), None, None, None),
        Ok(35)
    );
    assert_eq!(
        builtin_window_body_height(&mut c, Some(&w), Some(&Value::T), None, None),
        Ok(568)
    );
    assert_eq!(
        builtin_window_body_height(&mut c, Some(&w), Some(&symbol("remap")), Some(100), Some(20)),
        Ok(5)
    );
    let trim = WindowTrim {
        left_fringe: 8,
        right_fringe: 8,
        left_scroll_bar: 0,
        right_scroll_bar: 0,
        right_divider: 0,
    };
    assert_eq!(
        builtin_window_body_width(&mut c, Some(&w), None, None, trim, None),
        Ok(50)
    );
    assert_eq!(
        builtin_window_text_width(&mut c, Some(&w), Some(&Value::T), None, trim),
        Ok(400)
    );
    assert_eq!(
        builtin_window_text_height(&mut c, Some(&w), None, Some(330)),
        Ok(20)
    );
    assert_eq!(
        builtin_window_right_divider_width(&mut c, Some(&w), Some(6)),
        Ok(0)
    );
    assert_eq!(
        builtin_window_mode_line_height(&mut c, Some(&Value::Window(first)), None, None),
        Ok(1)
    );
    assert!(window_total_width_impl(&mut c, Some(&Value::Window(99))).is_err());
}

#[test]
fn the_end_of_a_window_is_as_recorded_unless_a_current_one_is_wanted() {
    let (mut c, _, _) = session();
    assert_eq!(
        builtin_window_end(&mut c, None, None, false, 40, Some(50)),
        Ok(Some(40))
    );
    assert_eq!(
        builtin_window_end(&mut c, None, Some(&Value::T), false, 40, Some(50)),
        Ok(Some(50))
    );
    assert_eq!(
        builtin_window_end(&mut c, None, Some(&Value::T), true, 40, Some(50)),
        Ok(Some(40))
    );
}

#[test]
fn fringes_and_scroll_bars_are_as_displayed() {
    let (mut c, _, _) = session();
    let kept = FringeSlots {
        left: 8,
        right: 4,
        outside_margins: true,
        persistent: false,
    };
    assert_eq!(
        builtin_window_fringes(&mut c, None, None, Some(kept)).unwrap(),
        list(vec![
            Value::Fixnum(8),
            Value::Fixnum(4),
            Value::T,
            Value::Nil
        ])
    );
    assert_eq!(
        builtin_window_fringes(&mut c, None, Some((None, Some(3))), Some(kept)).unwrap(),
        list(vec![
            Value::Fixnum(0),
            Value::Fixnum(3),
            Value::T,
            Value::Nil
        ])
    );
    assert_eq!(
        builtin_window_scroll_bar_width(&mut c, None, Some((None, Some(16))), 9),
        Ok(16)
    );
    assert_eq!(
        builtin_window_scroll_bar_width(&mut c, None, None, 9),
        Ok(9)
    );
}

#[test]
fn the_body_and_its_sides_are_the_window() {
    let bounds = Rect {
        x: 0,
        y: 0,
        width: 400,
        height: 160,
    };
    let sides = WindowSides {
        left_margin: 2,
        right_margin: 1,
        left_fringe: 8,
        right_fringe: 8,
        left_scroll_bar: 0,
        right_scroll_bar: 16,
        rightmost: false,
        right_divider: 3,
        graphical: true,
        char_width: 10,
    };
    let (left, right) = window_body_horizontal_offsets_pixels(sides);
    assert_eq!((left, right), (28, 37));
    assert_eq!(window_body_width_pixels(bounds, sides) + left + right, 400);
    assert_eq!(window_height_lines(bounds, 16), 10);
    assert_eq!(window_height_lines(bounds, 0), 0);
    assert_eq!(measure(WindowBodyUnit::Pixels, 33, 8, None), 33);
    assert_eq!(measure(WindowBodyUnit::CanonicalChars, 33, 8, None), 4);
    assert!(window_is_rightmost(bounds, 401));
    assert!(!window_is_rightmost(bounds, 402));
    assert_eq!(window_divider_width(false, Some(4)), 4);
    assert_eq!(window_divider_width(false, Some(-4)), 0);
    assert_eq!(window_divider_width(true, Some(4)), 0);
}

#[test]
fn chrome_is_as_displayed_recorded_or_by_default() {
    let regions = ChromeHeights {
        mode_line: Some(20),
        header_line: None,
        tab_line: None,
    };
    let recorded = ChromeHeights {
        mode_line: 7,
        header_line: -1,
        tab_line: 0,
    };
    assert_eq!(
        window_chrome_height(Some(regions), Some(recorded), WindowChromeMetric::ModeLine, 1),
        20
    );
    assert_eq!(
        window_chrome_height(Some(regions), Some(recorded), WindowChromeMetric::HeaderLine, 1),
        0
    );
    assert_eq!(
        window_chrome_height(None, Some(recorded), WindowChromeMetric::HeaderLine, 1),
        0
    );
    assert_eq!(
        window_chrome_height(None, None, WindowChromeMetric::ModeLine, 1),
        1
    );
}

#[test]
fn narrow_windows_truncate_lines() {
    let narrow = Some((0, 40, 80));
    assert!(window_truncates_lines_for_motion(narrow, false, PartialWidth::Always));
    assert!(window_truncates_lines_for_motion(narrow, false, PartialWidth::Below(50)));
    assert!(!window_truncates_lines_for_motion(narrow, false, PartialWidth::Below(40)));
    assert!(!window_truncates_lines_for_motion(narrow, false, PartialWidth::Never));
    assert!(window_truncates_lines_for_motion(narrow, true, PartialWidth::Never));
    let full = Some((0, 80, 80));
    assert!(!window_truncates_lines_for_motion(full, false, PartialWidth::Always));
    let sideways = Some((3, 80, 80));
    assert!(window_truncates_lines_for_motion(sideways, false, PartialWidth::Never));
    assert!(!window_truncates_lines_for_motion(None, true, PartialWidth::Always));
}

#[test]
fn windows_answer_what_they_are() {
    let (mut c, frame, w) = session();
    let value = Value::Window(w);
    assert!(builtin_windowp(&c, &value));
    assert!(builtin_window_valid_p(&c, &value));
    assert!(builtin_window_live_p(&c, &value));
    assert!(!builtin_window_live_p(&c, &Value::Window(99)));
    assert!(!builtin_windowp(&c, &Value::Nil));
    assert_eq!(builtin_window_frame(&mut c, Some(&value)), Ok(frame));
    assert_eq!(builtin_window_minibuffer_p(&mut c, Some(&value)), Ok(false));
    let mini = c
        .get_frame(frame)
        .expect("frame")
        .minibuffer_window
        .expect("a minibuffer");
    assert_eq!(
        frame_window_slot(&mut c, None, FrameSlot::Minibuffer).unwrap(),
        Value::Window(mini)
    );
    assert_eq!(
        frame_window_slot(&mut c, None, FrameSlot::Root).unwrap(),
        value
    );
    assert_eq!(bump_target(&mut c, None), Ok((w, w)));
}

#[test]
fn a_slot_is_read_back() {
    let (mut c, _, _) = session();
    let entry = pair(Value::Buffer(1), Value::Nil);
    set_window_slot(&mut c, &Value::Nil, WindowSlot::PrevBuffers, &entry).unwrap();
    assert_eq!(
        window_slot(&mut c, None, WindowSlot::PrevBuffers).unwrap(),
        entry
    );
    set_window_slot(&mut c, &Value::Nil, WindowSlot::Dedicated, &Value::T).unwrap();
    assert_eq!(
        window_slot(&mut c, None, WindowSlot::Dedicated).unwrap(),
        Value::T
    );
}

#[test]
fn margins_are_set_and_told() {
    let (mut c, _, w) = session();
    assert!(
        builtin_set_window_margins(&mut c, &Value::Nil, &Value::Fixnum(3), Some(&Value::Fixnum(2)))
            .unwrap()
    );
    let window = c.get_window(w).expect("window");
    assert_eq!((window.left_margin, window.right_margin), (3, 2));
    assert_eq!(
        builtin_window_margins(&mut c, None, None),
        Ok(pair(Value::Fixnum(3), Value::Fixnum(2)))
    );
    assert_eq!(
        builtin_window_margins(&mut c, Some(&Value::Window(w)), Some((0, 4))),
        Ok(pair(Value::Nil, Value::Fixnum(4)))
    );
    assert!(builtin_window_margins(&mut c, Some(&Value::Window(99)), None).is_err());
    assert!(builtin_set_window_margins(&mut c, &Value::Nil, &Value::Fixnum(-1), None).is_err());
}

#[test]
fn fringe_and_scroll_bar_requests_are_decoded() {
    let (mut c, frame, w) = session();
    let shown = Value::Window(w);
    let five = Value::Fixnum(5);
    assert_eq!(
        builtin_set_window_fringes(&mut c, &shown, &five, None, None, None),
        Ok(None)
    );
    assert!(
        builtin_set_window_scroll_bars(&mut c, &shown, Some(&five), None, None, None, None)
            .unwrap()
            .is_none()
    );
    let place = c.frames.iter().position(|f| f.id == frame).expect("frame");
    c.frames[place].graphical = true;
    let (on, request) = builtin_set_window_fringes(&mut c, &shown, &five, None, None, None)
        .unwrap()
        .expect("a request");
    assert_eq!(on, w);
    assert_eq!((request.left, request.right), (Some(5), Some(5)));
    let large = Value::Fixnum(1 << 40);
    assert!(builtin_set_window_fringes(&mut c, &shown, &large, None, None, None).is_err());
    let refused =
        builtin_set_window_fringes(&mut c, &Value::Window(99), &large, None, None, None)
            .unwrap_err();
    assert_eq!(refused.data[0], symbol("window-live-p"));
    let width = Value::Fixnum(12);
    let (on, bars) =
        builtin_set_window_scroll_bars(&mut c, &shown, Some(&width), None, None, None, None)
            .unwrap()
            .expect("a request");
    assert_eq!((on, bars.width), (w, Some(12)));
    assert_eq!(bars.vertical_type, Value::T);
    let refused =
        builtin_set_window_scroll_bars(&mut c, &Value::T, None, None, None, None, None)
            .unwrap_err();
    assert_eq!(refused.data[0], symbol("window-live-p"));
}

#[test]
fn splits_are_decoded() {
    let (mut c, frame, w) = session();
    let request = decode_split_window(
        &mut c,
        &Value::Window(w),
        &Value::Fixnum(10),
        &symbol("left"),
    )
    .unwrap();
    assert_eq!((request.frame, request.window), (frame, w));
    assert!(request.horizontal);
    assert!(request.before);
    assert_eq!(request.size, Some(10));
    assert!(SplitWindowSide::Left.is_horizontal());
    assert!(!SplitWindowSide::Below.is_before());
    assert_eq!(
        SplitWindowSide::from_lisp_value(&symbol(SplitWindowSide::Above.name())),
        Some(SplitWindowSide::Above)
    );
}

#[test]
fn combinations_and_updates_need_windows() {
    let (mut c, frame, w) = session();
    assert!(builtin_combine_windows(&mut c, &Value::Window(99), &Value::Nil).is_err());
    assert!(builtin_force_window_update(&c, None));
    let leaf = Value::Window(w);
    let refused = builtin_window_combination_limit(&mut c, &leaf).unwrap_err();
    assert_eq!(
        refused.data,
        vec![string(
            "Combination limit is meaningful for internal windows only"
        )]
    );
    assert!(builtin_set_window_combination_limit(&mut c, &leaf, &Value::T).is_err());
    let inner = add_window(&mut c, frame, 1);
    let place = c.windows.iter().position(|w| w.id == inner).expect("window");
    c.windows[place].leaf = false;
    let node = Value::Window(inner);
    assert_eq!(builtin_window_combination_limit(&mut c, &node), Ok(false));
    assert_eq!(
        builtin_set_window_combination_limit(&mut c, &node, &Value::Fixnum(3)),
        Ok(Value::Fixnum(3))
    );
    assert_eq!(builtin_window_combination_limit(&mut c, &node), Ok(true));
    assert_eq!(
        builtin_set_window_combination_limit(&mut c, &node, &Value::Nil),
        Ok(Value::Nil)
    );
    assert_eq!(builtin_window_combination_limit(&mut c, &node), Ok(false));
    let refused = builtin_window_combination_limit(&mut c, &Value::Window(99)).unwrap_err();
    assert_eq!(refused.data[0], symbol("window-valid-p"));
}

#[test]
fn a_cursor_that_is_drawn_is_told() {
    let cursor = DrawnCursor {
        x: 1,
        y: 2,
        width: 8,
        height: 16,
        ascent: 12,
    };
    let on = CursorDisplay {
        on: true,
        off: false,
        cursor: Some(cursor),
    };
    let (mut c, _, w) = session();
    assert!(builtin_window_cursor_info(&mut c, None).unwrap().is_none());
    let place = c.windows.iter().position(|x| x.id == w).expect("window");
    c.windows[place].display = Some(on);
    c.windows[place].cursor_type = symbol("bar");
    let info = builtin_window_cursor_info(&mut c, Some(&Value::Window(w)))
        .unwrap()
        .expect("a cursor");
    assert_eq!(info.cursor, cursor);
    assert_eq!(info.cursor_type, symbol("bar"));
    let off = CursorDisplay { off: true, ..on };
    c.windows[place].display = Some(off);
    assert!(builtin_window_cursor_info(&mut c, None).unwrap().is_none());
    assert!(builtin_window_cursor_info(&mut c, Some(&Value::Window(99))).is_err());
}

#[test]
fn lisp_arguments_are_checked() {
    assert_eq!(expect_int(&Value::Fixnum(4)), Ok(4));
    let refused = expect_int(&Value::T).unwrap_err();
    assert_eq!(refused.data[0], symbol("integerp"));
    assert_eq!(expect_number(&Value::Float(7)), Ok(Number::Float(7)));
    assert_eq!(expect_number(&Value::Fixnum(7)), Ok(Number::Fixnum(7)));
    assert!(expect_number(&Value::Nil).is_err());
    assert_eq!(expect_margin_width(&Value::Nil), Ok(0));
    assert_eq!(expect_margin_width(&Value::Fixnum(9)), Ok(9));
    assert!(expect_margin_width(&Value::Fixnum(1 << 40)).is_err());
    assert_eq!(optional_dimension(&Value::Nil), Ok(None));
    assert_eq!(optional_dimension(&Value::Fixnum(3)), Ok(Some(3)));
    assert_eq!(
        expect_buffer_name_string(&string("notes")),
        Ok("notes".to_string())
    );
    assert!(expect_buffer_name_string(&Value::Nil).is_err());
    assert_eq!(
        window_body_unit_from_lisp(Some(&symbol("remap"))),
        WindowBodyUnit::RemappedChars
    );
    assert_eq!(
        parse_integer_or_marker_arg(&Value::Marker(Some(1), Some(9))),
        Ok(IntegerOrMarkerArg::Marker(Some(9)))
    );
    assert_eq!(
        parse_frame_size_param(&Value::Fixnum(80)),
        Some(FrameSizeParam::Cells(80))
    );
    assert_eq!(
        parse_frame_size_param(&pair(symbol("text-pixels"), Value::Fixnum(640))),
        Some(FrameSizeParam::TextPixels(640))
    );
}

#[test]
fn a_list_reads_back() {
    let items = vec![Value::Fixnum(1), symbol("a"), string("b")];
    let all = list(vec![Value::Fixnum(1), symbol("a"), string("b")]);
    assert_eq!(list_to_vec(&all), Some(items));
    assert_eq!(list_to_vec(&pair(Value::T, Value::T)), None);
    assert_eq!(list_to_vec(&Value::Nil), Some(vec![]));
}

#[test]
fn the_minibuffer_in_use_is_told() {
    let (mut c, _, w) = session();
    assert_eq!(builtin_active_minibuffer_window(&c), Value::Nil);
    c.active_minibuffer = Some(w);
    assert_eq!(builtin_active_minibuffer_window(&c), Value::Window(w));
}

#[test]
fn no_buffer_of_an_earlier_display_is_kept() {
    let (mut c, _, w) = session();
    assert_eq!(
        builtin_window_old_buffer(&mut c, Some(&Value::Window(w))),
        Ok(Value::Nil)
    );
    assert!(builtin_window_old_buffer(&mut c, Some(&Value::Window(99))).is_err());
    assert_eq!(builtin_old_selected_window(&mut c, None), w);
    assert_eq!(builtin_old_selected_window(&mut c, Some(42)), 42);
}

#[test]
fn the_sole_window_and_the_minibuffer_are_not_deleted() {
    let (mut c, frame, w) = session();
    let mini = c
        .get_frame(frame)
        .expect("frame")
        .minibuffer_window
        .expect("a minibuffer");
    assert!(builtin_delete_window_internal(&mut c, &Value::Window(w)).is_err());
    assert!(builtin_delete_window_internal(&mut c, &Value::Window(mini)).is_err());
    assert!(builtin_delete_window_internal(&mut c, &Value::Window(99)).is_err());
    c.dead_windows.push(99);
    assert_eq!(
        builtin_delete_window_internal(&mut c, &Value::Window(99)),
        Ok(None)
    );
    assert_eq!(builtin_uncombine_window(&mut c, &Value::Nil), Ok(()));
    assert!(builtin_uncombine_window(&mut c, &Value::Window(mini)).is_err());
}

#[test]
fn other_windows_go_below_the_root_that_is_named() {
    let (mut c, frame, w) = session();
    let root = c.get_frame(frame).expect("frame").root_window;
    assert_eq!(
        decode_delete_other_windows(&mut c, None, None),
        Ok((frame, w, root))
    );
    assert_eq!(
        decode_delete_other_windows(&mut c, None, Some(&Value::Window(w))),
        Ok((frame, w, w))
    );
    assert!(decode_delete_other_windows(&mut c, Some(&Value::Window(99)), None).is_err());
    assert!(decode_delete_other_windows(&mut c, None, Some(&Value::Window(99))).is_err());
}

#[test]
fn staged_sizes_apply_where_they_add_up() {
    let (mut c, frame, w) = session();
    let place = c.windows.iter().position(|x| x.id == w).expect("window");
    let bounds = c.windows[place].bounds;
    assert_eq!(
        builtin_window_resize_apply(&mut c, None, None, true),
        Ok(Some(frame))
    );
    assert_eq!(
        builtin_window_resize_apply(&mut c, None, None, false),
        Ok(None)
    );
    c.windows[place].new_pixel = Some(bounds.height);
    assert_eq!(
        builtin_window_resize_apply(&mut c, Some(&Value::Frame(frame)), None, true),
        Ok(Some(frame))
    );
    assert_eq!(
        builtin_window_resize_apply(&mut c, None, Some(&Value::T), true),
        Ok(None)
    );
    let refused =
        builtin_window_resize_apply(&mut c, Some(&Value::Frame(99)), None, true).unwrap_err();
    assert_eq!(refused.data[0], symbol("frame-live-p"));
}

#[test]
fn total_sizes_count_from_below_the_bars() {
    let (mut c, frame, w) = session();
    let root = builtin_window_resize_apply_total(&mut c, None, None, 2).unwrap();
    assert_eq!(
        (root.frame, root.horizontal, root.left_col, root.top_line),
        (frame, false, 0, 2)
    );
    assert!(builtin_window_resize_apply_total(&mut c, Some(&Value::T), None, 2).is_err());
    let mini = c.windows.iter().position(|x| x.mini).expect("minibuffer");
    let before = c.windows[mini].bounds;
    finish_window_resize_apply_total(&mut c, root);
    assert_eq!(c.windows[mini].bounds, before);
    c.windows[mini].new_total = Some(3);
    let sideways = builtin_window_resize_apply_total(&mut c, None, Some(&Value::T), 2).unwrap();
    finish_window_resize_apply_total(&mut c, sideways);
    assert_eq!(c.windows[mini].new_total, Some(3));
    finish_window_resize_apply_total(&mut c, root);
    let above = c.get_window(w).expect("window").bounds;
    let line = i64::from(c.get_frame(frame).expect("frame").char_height);
    let after = c.windows[mini].bounds;
    assert_eq!((after.x, after.width), (before.x, before.width));
    assert_eq!((after.y, after.height), (above.y + above.height, 3 * line));
    assert_eq!(c.windows[mini].new_total, None);
}

#[test]
fn windows_without_lines_above_or_dividers_measure_none() {
    let (mut c, _, w) = session();
    let value = Value::Window(w);
    let bounds = c.get_window(w).expect("window").bounds;
    assert_eq!(
        builtin_window_pixel_width(&mut c, Some(&value)),
        Ok(bounds.width)
    );
    assert_eq!(
        builtin_window_pixel_height(&mut c, Some(&value)),
        Ok(bounds.height)
    );
    assert_eq!(
        builtin_window_header_line_height(&mut c, Some(&value), None, None),
        Ok(0)
    );
    assert_eq!(
        builtin_window_tab_line_height(&mut c, Some(&value), None, None),
        Ok(0)
    );
    assert_eq!(
        builtin_window_bottom_divider_width(&mut c, Some(&value), None),
        Ok(0)
    );
    assert_eq!(
        builtin_window_scroll_bar_height(&mut c, Some(&value), None, 14),
        Ok(14)
    );
    assert_eq!(
        builtin_window_scroll_bar_height(&mut c, Some(&value), Some(Some(9)), 14),
        Ok(9)
    );
    assert_eq!(
        builtin_window_scroll_bar_height(&mut c, Some(&value), Some(None), 14),
        Ok(0)
    );
}

#[test]
fn an_update_is_forced_for_a_buffer_that_is_shown() {
    let (mut c, _, w) = session();
    let hidden = c.create_buffer("hidden");
    assert!(builtin_force_window_update(&c, Some(&Value::Window(w))));
    assert!(!builtin_force_window_update(&c, Some(&Value::Window(99))));
    assert!(builtin_force_window_update(&c, Some(&Value::Buffer(1))));
    assert!(!builtin_force_window_update(&c, Some(&Value::Buffer(hidden))));
    assert!(builtin_force_window_update(
        &c,
        Some(&Value::Text("*scratch*".to_string()))
    ));
    assert!(!builtin_force_window_update(
        &c,
        Some(&Value::Text("hidden".to_string()))
    ));
    assert!(!builtin_force_window_update(
        &c,
        Some(&Value::Text("no such buffer".to_string()))
    ));
    assert!(!builtin_force_window_update(&c, Some(&Value::Fixnum(1))));
}

#[test]
fn a_scroll_starts_from_what_can_be_reached() {
    let (mut c, frame, w) = session();
    c.buffers[0].length = 100;
    c.buffers[0].point = 90;
    c.windows[0].start = 3;
    let region = Accessible { begin: 10, end: 50 };
    let start = scroll_start(&mut c, Some(320), region, 2)
        .unwrap()
        .expect("a window with text");
    assert_eq!((start.frame, start.window, start.buffer), (frame, w, 1));
    assert_eq!(
        start.facts,
        ScrollFacts {
            point: 50,
            begin: 10,
            end: 50,
            window_start: 10,
            body_height: 20,
            lines: 2,
        }
    );
    let low = scroll_start(&mut c, Some(0), region, 2)
        .unwrap()
        .expect("a window with text");
    assert_eq!(low.facts.body_height, 1);
    c.windows[0].buffer = 77;
    assert_eq!(scroll_start(&mut c, None, region, 2), Ok(None));
}

#[test]
fn steps_lead_round_the_windows_of_a_frame() {
    let (mut c, frame, first) = session();
    add_window(&mut c, frame, 1);
    add_window(&mut c, frame, 1);
    let mut at = Value::Window(first);
    let mut seen = Vec::new();
    for _ in 0..3 {
        let next = builtin_next_window(&mut c, Some(&at)).unwrap();
        assert_eq!(builtin_previous_window(&mut c, Some(&next)).unwrap(), at);
        assert!(!seen.contains(&next));
        seen.push(next);
        at = match seen.last() {
            Some(Value::Window(w)) => Value::Window(*w),
            _ => Value::Nil,
        };
    }
    assert_eq!(at, Value::Window(first));
}

#[test]
fn a_window_keeps_its_display_state_with_its_buffer_and_margins() {
    let (mut c, _, _) = session();
    let kept = builtin_set_window_buffer(&mut c, &Value::Nil, &Value::Buffer(1), Some(&Value::T)).unwrap();
    let done = finish_set_window_buffer(&mut c, kept).unwrap();
    assert!(done.keep_display_state);
    assert!(done.defaults.is_none());
    let anew = builtin_set_window_buffer(&mut c, &Value::Nil, &Value::Buffer(1), None).unwrap();
    let done = finish_set_window_buffer(&mut c, anew).unwrap();
    assert!(!done.keep_display_state);
    assert!(done.defaults.is_some());
}

#[test]
fn a_number_or_marker_is_a_number_or_refused_by_that_name() {
    assert_eq!(
        expect_number_or_marker(&Value::Fixnum(7)),
        Ok(Number::Fixnum(7))
    );
    let refused = expect_number_or_marker(&string("x")).unwrap_err();
    assert_eq!(refused.condition, Condition::WrongTypeArgument);
    assert_eq!(
        refused.data,
        vec![symbol("number-or-marker-p"), string("x")]
    );
}

#[test]
fn partial_width_windows_are_cut_off_by_their_setting() {
    assert_eq!(partial_width_setting(None), PartialWidth::Never);
    assert_eq!(partial_width_setting(Some(&Value::Nil)), PartialWidth::Never);
    assert_eq!(
        partial_width_setting(Some(&Value::Fixnum(50))),
        PartialWidth::Below(50)
    );
    assert_eq!(partial_width_setting(Some(&Value::T)), PartialWidth::Always);
}
