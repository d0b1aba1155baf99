use neomacs_core::bootstrap_vars::{register_bootstrap_vars, Definition, Obarray};
use neomacs_core::frame_delete::{
    begin_delete_frame, delete_frame_owned, direct_child_frame_ids, other_frames,
    plan_delete_frame, DeleteFrameMode, DeletionAction, DeletionEvent, FrameDeletion, HostNotice,
};
use neomacs_core::frame_gui::{
    adopt_opening_frame, current_gui_frame_metrics, current_primary_window_size,
    parse_gui_frame_params, parsed_effective_internal_border_width, x_create_frame_impl, HostFacts,
};
use neomacs_core::frame_make::{
    make_frame_plain, max_child_z_order, next_generated_tty_frame_name, parse_plain_frame_params,
    resolve_child_shared_minibuffer, root_frame_id, ChildMinibuffer,
};
use neomacs_core::frame_size::{
    clamp_frame_dimension, flush_pending_live_gui_resize, frame_is_top_level_non_window,
    frame_realized_lines, frame_size_param_to_cells, frame_size_param_to_pixels,
    frame_text_height_pixels, frame_text_width_pixels, frame_total_cols, frame_total_lines,
    request_live_gui_frame_resize, resize_live_gui_frame, set_frame_text_size, FrameGeometry,
    FrameResizeRequest, PendingResize, ResizeWork,
};
use neomacs_core::lisp::{list, pair, string, symbol, Condition, FrameSizeParam, Value};
use neomacs_core::window_geometry::{
    builtin_tty_frame_at, edges_value, frame_root_position, neomacs_frame_edges, tty_frame_edges,
    Edges,
};
use neomacs_core::window_measures::{
    builtin_neomacs_frame_edges, builtin_tty_frame_edges, builtin_tty_frame_geometry,
};
use neomacs_core::window_state::Context;

fn session() -> (Context, u64) {
    let mut c = Context::new();
    let frame = c.create_frame("main", 800, 600, 1);
    (c, frame)
}

fn params(entries: Vec<(&str, Value)>) -> Value {
    list(
        entries
            .into_iter()
            .map(|(name, value)| pair(symbol(name), value))
            .collect(),
    )
}

fn geometry() -> FrameGeometry {
    FrameGeometry {
        width: 800,
        height: 600,
        char_width: 8,
        char_height: 16,
        menu_bar_height: 0,
        tool_bar_height: 0,
        tab_bar_height: 0,
        horizontal_non_text_width: 0,
        internal_border_width: 0,
        is_child: false,
        graphical: true,
        has_minibuffer: true,
        displays_chrome: true,
        top_margin: 0,
        columns: 100,
        lines: 37,
        total_cols_param: None,
        total_lines_param: None,
        width_param: None,
        height_param: None,
        text_lines_param: None,
        resize_pending: false,
    }
}

#[test]
fn a_plain_frame_is_made_from_its_parameters() {
    let (mut c, _) = session();
    let made = make_frame_plain(
        &mut c,
        Some(&params(vec![
            ("name", string("notes")),
            ("width", Value::Fixnum(40)),
            ("height", Value::Fixnum(10)),
        ])),
    )
    .unwrap();
    let frame = c.get_frame(made.frame).expect("frame");
    assert_eq!(frame.name, "notes");
    assert!(made.explicit_name);
    assert!(frame.parent.is_none());
    let other = make_frame_plain(&mut c, None).unwrap();
    assert_eq!(c.get_frame(other.frame).expect("frame").name, "F3");
    assert!(!other.explicit_name);
}

#[test]
fn a_new_child_frame_is_in_front() {
    let (mut c, parent) = session();
    let first = make_frame_plain(
        &mut c,
        Some(&params(vec![("parent-frame", Value::Frame(parent))])),
    )
    .unwrap()
    .frame;
    let second = make_frame_plain(
        &mut c,
        Some(&params(vec![("parent-frame", Value::Frame(parent))])),
    )
    .unwrap()
    .frame;
    let z = |id: u64| c.get_frame(id).expect("frame").z_order;
    assert!(z(second) > z(first));
    assert_eq!(max_child_z_order(&c.frames, parent), z(second));
    assert_eq!(root_frame_id(&c, second), Some(parent));
    assert_eq!(root_frame_id(&c, parent), Some(parent));
    assert_eq!(direct_child_frame_ids(&c, parent), vec![first, second]);
}

#[test]
fn a_child_shares_the_minibuffer_it_is_told_to() {
    let (c, parent) = session();
    let mini = c
        .get_frame(parent)
        .expect("frame")
        .minibuffer_window
        .expect("a minibuffer");
    assert_eq!(
        resolve_child_shared_minibuffer(&c, parent, &Some(Value::Nil)),
        Ok(ChildMinibuffer::Shared(mini))
    );
    assert_eq!(
        resolve_child_shared_minibuffer(&c, parent, &Some(Value::T)),
        Ok(ChildMinibuffer::Own)
    );
    assert_eq!(
        resolve_child_shared_minibuffer(&c, parent, &Some(symbol("only"))),
        Ok(ChildMinibuffer::Only)
    );
}

#[test]
fn the_first_of_two_plain_parameters_is_read() {
    let (c, _) = session();
    let parsed = parse_plain_frame_params(
        &c,
        Some(&params(vec![
            ("left", Value::Fixnum(3)),
            ("top", Value::Fixnum(4)),
        ])),
    );
    assert_eq!((parsed.left, parsed.top), (3, 4));
    assert!(parsed.parent.is_none());
}

#[test]
fn a_graphical_frame_is_made_from_its_parameters() {
    let (mut c, _) = session();
    let host = HostFacts {
        width: 1000,
        height: 700,
        size_known: true,
        opening_pending: false,
    };
    let made = x_create_frame_impl(
        &mut c,
        &params(vec![
            ("name", string("editor")),
            ("width", pair(symbol("text-pixels"), Value::Fixnum(640))),
        ]),
        Some(host),
    )
    .unwrap();
    let frame = c.get_frame(made.frame).expect("frame");
    assert!(frame.graphical);
    assert_eq!(frame.name, "editor");
    assert_eq!(current_primary_window_size(Some(host)), Some((1000, 700)));
    assert_eq!(current_primary_window_size(None), None);
    adopt_opening_frame(&mut c, made.frame, made.buffer);
    assert_eq!(c.selected_frame, Some(made.frame));
}

#[test]
fn the_last_of_two_graphical_parameters_counts() {
    let parsed = parse_gui_frame_params(Some(&params(vec![
        ("internal-border-width", Value::Fixnum(2)),
        ("internal-border-width", Value::Fixnum(5)),
    ])));
    assert_eq!(parsed.internal_border_width, Some(5));
    assert_eq!(parsed_effective_internal_border_width(&parsed, false), 5);
    let (c, _) = session();
    let metrics = current_gui_frame_metrics(&c);
    assert!(metrics.char_width > 0);
}

#[test]
fn the_only_frame_stays() {
    let (mut c, frame) = session();
    assert!(!other_frames(&c, frame, true));
    let refused = begin_delete_frame(
        &c,
        frame,
        DeleteFrameMode::Public {
            force_non_nil: true,
        },
    )
    .unwrap_err();
    assert_eq!(refused.condition, Condition::Error);
    let second = c.create_frame("other", 400, 300, 1);
    c.frames.iter_mut().for_each(|f| {
        if f.id == second {
            f.visible = false;
        }
    });
    assert!(!other_frames(&c, frame, false));
    assert!(other_frames(&c, frame, true));
}

#[test]
fn a_deleted_frame_is_gone_with_its_windows() {
    let (mut c, frame) = session();
    let second = c.create_frame("other", 400, 300, 1);
    let mode = DeleteFrameMode::Public {
        force_non_nil: false,
    };
    assert_eq!(begin_delete_frame(&c, frame, mode), Ok(Some(vec![])));
    let plan = plan_delete_frame(&c, frame, mode).expect("a plan");
    let done = delete_frame_owned(&mut c, plan, Some(second), true).expect("it was there");
    assert!(c.get_frame(frame).is_none());
    assert!(c.windows.iter().all(|w| w.frame == second));
    assert_eq!(c.selected_frame, Some(second));
    assert_eq!(done.notice, HostNotice::Nothing);
    assert!(done.run_hooks);
    assert!(!done.delete_terminal);
    assert!(delete_frame_owned(&mut c, plan, Some(second), true).is_none());
}

#[test]
fn sizes_go_between_cells_and_pixels() {
    assert_eq!(frame_size_param_to_pixels(FrameSizeParam::Cells(80), 8), 640);
    assert_eq!(
        frame_size_param_to_cells(FrameSizeParam::TextPixels(640), 8),
        80
    );
    assert_eq!(clamp_frame_dimension(3, 10), 10);
    assert_eq!(clamp_frame_dimension(30, 10), 30);
    let g = geometry();
    assert_eq!(frame_total_cols(&g), 100);
    assert_eq!(frame_total_lines(&g), 37);
    assert_eq!(frame_text_width_pixels(&g), 800);
    assert_eq!(frame_text_height_pixels(&g), 600);
}

#[test]
fn a_text_size_has_a_minimum() {
    let mut g = geometry();
    set_frame_text_size(&mut g, 1, 1);
    assert_eq!(g.width_param, Some(10));
    assert_eq!(g.text_lines_param, Some(5));
}

#[test]
fn pretending_to_resize_keeps_the_pixels() {
    let mut g = geometry();
    resize_live_gui_frame(&mut g, 400, 320, true, false);
    assert_eq!((g.width, g.height), (800, 600));
    let mut live = geometry();
    request_live_gui_frame_resize(&mut live, 400, 320, false, true);
    assert_eq!((live.char_width, live.char_height), (8, 16));
}

#[test]
fn frames_have_edges() {
    let (mut c, frame) = session();
    let f = c.get_frame(frame).expect("frame");
    let edges = Edges {
        left: 0,
        top: 0,
        right: 800,
        bottom: 600,
    };
    assert_eq!(tty_frame_edges(f), Some(edges));
    assert_eq!(neomacs_frame_edges(f, 0, 0, 4, None), None);
    assert_eq!(
        builtin_tty_frame_edges(&mut c, None).unwrap(),
        edges_value(edges)
    );
    assert_ne!(builtin_tty_frame_geometry(&mut c, None).unwrap(), Value::Nil);
    assert_eq!(
        builtin_neomacs_frame_edges(&mut c, None, None, Some((1, 1)), 4).unwrap(),
        Value::Nil
    );
    c.frames.iter_mut().for_each(|f| f.graphical = true);
    assert_eq!(
        builtin_neomacs_frame_edges(&mut c, None, Some(&symbol("inner-edges")), Some((10, 20)), 4)
            .unwrap(),
        edges_value(Edges {
            left: 14,
            top: 24,
            right: 806,
            bottom: 616,
        })
    );
    assert!(builtin_neomacs_frame_edges(&mut c, None, None, None, 4).is_err());
    assert_eq!(frame_root_position(&c, frame), (0, 0));
}

#[test]
fn the_topmost_frame_is_found_at_a_place() {
    let (c, frame) = session();
    let hit = builtin_tty_frame_at(&c, &vec![frame], &Value::Fixnum(10), &Value::Fixnum(20))
        .expect("a frame is there");
    assert_eq!((hit.frame, hit.x, hit.y), (frame, 10, 20));
    assert!(
        builtin_tty_frame_at(&c, &vec![frame], &Value::Fixnum(900), &Value::Fixnum(20)).is_none()
    );
    assert!(builtin_tty_frame_at(&c, &vec![frame], &Value::T, &Value::Fixnum(20)).is_none());
}

#[test]
fn the_variables_of_the_window_system_are_registered() {
    let mut obarray = Obarray::new();
    register_bootstrap_vars(&mut obarray);
    let recenter = obarray.lookup("recenter-redisplay").expect("defined");
    assert_eq!(recenter.value, Some(symbol("tty")));
    assert!(recenter.special);
    let limit = obarray.lookup("window-combination-limit").expect("defined");
    assert_eq!(limit.value, Some(symbol("window-size")));
    let hooks = obarray.lookup("delete-frame-functions").expect("defined");
    assert_eq!(hooks.value, Some(Value::Nil));
    assert!(hooks.special);
    assert!(obarray.lookup("no-such-variable").is_none());
}

#[test]
fn a_definition_changes_its_variable_only() {
    let mut obarray = Obarray::new();
    obarray.define(Definition::SetValue("one", Value::Fixnum(1)));
    obarray.define(Definition::DefineInt("two", 2));
    obarray.define(Definition::MakeSpecial("one"));
    let one = obarray.lookup("one").expect("defined");
    assert_eq!(one.value, Some(Value::Fixnum(1)));
    assert!(one.special && !one.integer);
    let two = obarray.lookup("two").expect("defined");
    assert_eq!(two.value, Some(Value::Fixnum(2)));
    assert!(two.special && two.integer);
}

#[test]
fn a_given_name_uses_up_a_generated_one() {
    let (mut named, _) = session();
    let (mut skipped, _) = session();
    make_frame_plain(&mut named, Some(&params(vec![("name", string("X"))]))).unwrap();
    assert_eq!(next_generated_tty_frame_name(&mut skipped), "F2");
    let a = make_frame_plain(&mut named, None).unwrap();
    let b = make_frame_plain(&mut skipped, None).unwrap();
    assert_eq!(named.get_frame(a.frame).expect("frame").name, "F3");
    assert_eq!(skipped.get_frame(b.frame).expect("frame").name, "F3");
}

fn child_of(c: &mut Context, parent: u64) -> u64 {
    make_frame_plain(
        c,
        Some(&params(vec![("parent-frame", Value::Frame(parent))])),
    )
    .unwrap()
    .frame
}

/// Runs a deletion to its end; the frames whose hooks were run, and how it ended.
fn delete(c: &mut Context, frame: u64, successor: Option<u64>) -> (Vec<u64>, bool) {
    let mut deletion = FrameDeletion::start(
        frame,
        DeleteFrameMode::Public {
            force_non_nil: false,
        },
    );
    let mut order = Vec::new();
    loop {
        let done = DeletionEvent::Done {
            successor,
            has_host: true,
        };
        match deletion.advance(c, done) {
            DeletionAction::RunHooks { frame, now } => {
                assert!(now);
                order.push(frame);
            }
            DeletionAction::RunAfterHooks { .. }
            | DeletionAction::Proceed
            | DeletionAction::TellHost { .. }
            | DeletionAction::DeleteTerminal(_) => {}
            DeletionAction::Finish => return (order, true),
            DeletionAction::Fail(_) => return (order, false),
        }
    }
}

#[test]
fn the_frames_in_a_frame_are_deleted_before_it() {
    let (mut c, first) = session();
    let top = make_frame_plain(&mut c, None).unwrap().frame;
    let child = child_of(&mut c, top);
    let grandchild = child_of(&mut c, child);
    let other = child_of(&mut c, top);
    let stranger = child_of(&mut c, first);
    assert_eq!(
        delete(&mut c, top, Some(first)),
        (vec![grandchild, child, other, top], true)
    );
    for gone in [top, child, grandchild, other] {
        assert!(c.get_frame(gone).is_none());
    }
    assert!(c.get_frame(first).is_some());
    assert!(c.get_frame(stranger).is_some());
}

#[test]
fn the_deletion_of_a_frame_that_is_gone_changes_nothing() {
    let (mut c, _) = session();
    let before = format!("{c:?}");
    assert_eq!(delete(&mut c, 99, None), (vec![], true));
    assert_eq!(format!("{c:?}"), before);
}

#[test]
fn the_only_frame_is_not_deleted_and_a_signal_ends_a_deletion() {
    let (mut c, first) = session();
    assert_eq!(delete(&mut c, first, None), (vec![], false));
    assert!(c.get_frame(first).is_some());
    let other = make_frame_plain(&mut c, None).unwrap().frame;
    let mut deletion = FrameDeletion::start(other, DeleteFrameMode::Noelisp);
    let signal = neomacs_core::lisp::error("stop");
    assert!(matches!(
        deletion.advance(&mut c, DeletionEvent::Signalled(signal)),
        DeletionAction::Fail(_)
    ));
    assert!(deletion.jobs.is_empty());
    assert!(c.get_frame(other).is_some());
}

#[test]
fn the_lines_of_a_terminal_frame_leave_out_the_bars_that_are_shown() {
    let mut g = geometry();
    g.graphical = false;
    g.top_margin = 2;
    assert!(frame_is_top_level_non_window(&g));
    assert_eq!(frame_realized_lines(&g), 35);
    g.displays_chrome = false;
    assert_eq!(frame_realized_lines(&g), 37);
    g.displays_chrome = true;
    g.top_margin = 90;
    assert_eq!(frame_realized_lines(&g), 1);
    g.is_child = true;
    assert!(!frame_is_top_level_non_window(&g));
    assert!(!frame_is_top_level_non_window(&geometry()));
}

#[test]
fn a_size_can_be_asked_for_in_pixels_or_in_cells() {
    let mut g = geometry();
    g.menu_bar_height = 20;
    let cells = FrameResizeRequest::Cells {
        cols: 40,
        total_lines: 10,
    };
    assert_eq!(cells.text_pixels(&g), (320, 140));
    assert_eq!(cells.logical_size(&g), (40, 10));
    let pixels = FrameResizeRequest::TextPixels {
        width: 100,
        height: 0,
    };
    assert_eq!(pixels.text_pixels(&g), (100, 1));
    assert_eq!(pixels.logical_size(&g), (12, 1));
}

#[test]
fn a_resize_that_waits_is_done_or_handed_to_the_host() {
    let waiting = PendingResize {
        width_cols: 40,
        total_lines: 10,
        host_request_sent: false,
    };
    let mut g = geometry();
    g.resize_pending = true;
    assert_eq!(
        flush_pending_live_gui_resize(&mut g, None, true),
        (false, ResizeWork::Nothing)
    );
    assert!(g.resize_pending);
    assert_eq!(
        flush_pending_live_gui_resize(&mut g, Some(waiting), true),
        (
            true,
            ResizeWork::AskHost {
                width: 320,
                height: 160
            }
        )
    );
    assert!(!g.resize_pending);
    assert_eq!((g.width, g.height), (800, 600));
    let sent = PendingResize {
        host_request_sent: true,
        ..waiting
    };
    assert_eq!(
        flush_pending_live_gui_resize(&mut g, Some(sent), true),
        (true, ResizeWork::Nothing)
    );
    assert_eq!(
        flush_pending_live_gui_resize(&mut g, Some(waiting), false),
        (
            false,
            ResizeWork::LayOut {
                width: 320,
                height: 160
            }
        )
    );
    assert_eq!((g.width, g.height), (320, 160));
}
