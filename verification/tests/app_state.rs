use prowl::app::{clamp_interval, App, History, KeyEffect, KeyPress, H_SCROLL_STEP};
use prowl::format::Percent;
use prowl::process::{IoTotals, Node, Pid, Tree};
use prowl::time::TimeSpan;

fn fixture() -> App {
    App::new(false, 8, TimeSpan::from_millis(1000))
}

#[test]
fn h_scroll_starts_at_zero() {
    assert_eq!(fixture().h_scroll(), 0);
}

#[test]
fn scroll_left_at_zero_does_not_underflow() {
    let mut app = fixture();
    app.scroll_left();
    assert_eq!(app.h_scroll(), 0);
}

#[test]
fn scroll_right_advances_by_step() {
    let mut app = fixture();
    app.scroll_right();
    assert_eq!(app.h_scroll(), H_SCROLL_STEP);
}

#[test]
fn scroll_left_after_right_returns_to_zero() {
    let mut app = fixture();
    app.scroll_right();
    app.scroll_left();
    assert_eq!(app.h_scroll(), 0);
}

#[test]
fn clamp_h_scroll_caps_above_max() {
    let mut app = fixture();
    app.scroll_right();
    app.scroll_right();
    app.clamp_h_scroll(2);
    assert_eq!(app.h_scroll(), 2);
}

#[test]
fn clamp_h_scroll_leaves_value_below_max_untouched() {
    let mut app = fixture();
    app.scroll_right();
    app.clamp_h_scroll(usize::MAX);
    assert_eq!(app.h_scroll(), H_SCROLL_STEP);
}

#[test]
fn scroll_to_start_resets_offset() {
    let mut app = fixture();
    app.scroll_right();
    app.scroll_right();
    app.scroll_to_start();
    assert_eq!(app.h_scroll(), 0);
}

#[test]
fn scroll_to_end_overshoots_then_clamps() {
    let mut app = fixture();
    app.scroll_to_end();
    app.clamp_h_scroll(42);
    assert_eq!(app.h_scroll(), 42);
}

fn node(pid: i32, name: &str, cmd: &str, is_thread: bool, cpu_bits: u64) -> Node {
    Node::new(
        Pid::new(pid),
        name.to_owned(),
        cmd.to_owned(),
        "alice".to_owned(),
        'S',
        Percent::from_bits(cpu_bits),
        0,
        Percent::from_bits(cpu_bits + 1),
        IoTotals::default(),
        TimeSpan::zero(),
        TimeSpan::zero(),
        String::new(),
        is_thread,
    )
}

/// myapp [1234] with children worker [1235] (which owns thread helper [200])
/// and logger [1236].
fn sample_tree() -> Tree {
    let mut root = node(1234, "myapp", "/usr/bin/myapp --serve", false, 10);
    let mut worker = node(1235, "worker", "/usr/bin/myapp worker", false, 20);
    worker.push_child(node(200, "helper", "helper", true, 30));
    let logger = node(1236, "logger", "/usr/bin/myapp logger", false, 40);
    root.push_child(worker);
    root.push_child(logger);
    Tree::from(root)
}

fn pids(app: &App) -> Vec<i32> {
    app.flat_rows().iter().map(|r| r.pid().get()).collect()
}

#[test]
fn new_clamps_the_interval_and_cpu_count() {
    let app = App::new(true, 0, TimeSpan::from_millis(5));
    assert_eq!(app.cpu_count(), 1);
    assert_eq!(app.interval(), TimeSpan::from_millis(100));
    assert!(app.show_threads());
    let slow = App::new(false, 4, TimeSpan::from_secs(3600));
    assert_eq!(slow.interval(), TimeSpan::from_millis(60_000));
    assert_eq!(clamp_interval(TimeSpan::from_millis(250)), TimeSpan::from_millis(250));
}

#[test]
fn interval_steps_by_one_hundred_ms_within_bounds() {
    let mut app = App::new(false, 1, TimeSpan::from_millis(100));
    assert!(!app.step_interval_down());
    assert_eq!(app.interval(), TimeSpan::from_millis(100));
    assert!(app.step_interval_up());
    assert_eq!(app.interval(), TimeSpan::from_millis(200));
    assert!(app.step_interval_down());
    assert_eq!(app.interval(), TimeSpan::from_millis(100));
    let mut top = App::new(false, 1, TimeSpan::from_millis(59_950));
    assert!(top.step_interval_up());
    assert_eq!(top.interval(), TimeSpan::from_millis(60_000));
    assert!(!top.step_interval_up());
}

#[test]
fn snapshot_fills_rows_name_and_histories() {
    let mut app = fixture();
    app.apply_snapshot(sample_tree());
    assert_eq!(app.name(), "myapp");
    assert_eq!(pids(&app), vec![1234, 1235, 1236]);
    assert_eq!(app.cpu_history().iter().iter().map(|p| p.to_bits()).collect::<Vec<_>>(), vec![10]);
    assert_eq!(app.mem_history().iter().iter().map(|p| p.to_bits()).collect::<Vec<_>>(), vec![11]);
    assert_eq!(app.root().unwrap().pid().get(), 1234);
    // an empty snapshot changes nothing
    app.apply_snapshot(Tree::default());
    assert_eq!(app.name(), "myapp");
    assert_eq!(app.cpu_history().len(), 1);
}

#[test]
fn toggling_threads_shows_and_hides_thread_rows() {
    let mut app = fixture();
    app.apply_snapshot(sample_tree());
    app.toggle_threads();
    assert_eq!(pids(&app), vec![1234, 1235, 200, 1236]);
    app.toggle_threads();
    assert_eq!(pids(&app), vec![1234, 1235, 1236]);
}

#[test]
fn connectors_draw_the_tree() {
    let mut app = App::new(true, 8, TimeSpan::from_millis(1000));
    app.apply_snapshot(sample_tree());
    let conns: Vec<String> = app.flat_rows().iter().map(|r| r.connector().to_owned()).collect();
    assert_eq!(conns, vec!["", "├─ ", "│  └─ ", "└─ "]);
    let rows = app.flat_rows();
    assert!(rows[0].has_children());
    assert!(rows[1].has_children());
    assert!(!rows[2].has_children());
    assert!(rows[2].is_thread());
}

#[test]
fn selection_moves_within_rows_and_collapse_folds_subtree() {
    let mut app = App::new(true, 8, TimeSpan::from_millis(1000));
    app.apply_snapshot(sample_tree());
    app.move_up();
    assert_eq!(app.selected(), 0);
    app.move_down();
    assert_eq!(app.selected(), 1);
    app.toggle_collapse();
    assert_eq!(pids(&app), vec![1234, 1235, 1236]);
    assert!(app.flat_rows()[1].is_collapsed());
    app.move_to_bottom();
    assert_eq!(app.selected(), 2);
    app.move_down();
    assert_eq!(app.selected(), 2);
    app.move_to_top();
    assert_eq!(app.selected(), 0);
    app.move_down();
    app.toggle_collapse();
    assert_eq!(pids(&app), vec![1234, 1235, 200, 1236]);
}

#[test]
fn selection_is_clamped_when_rows_shrink() {
    let mut app = App::new(true, 8, TimeSpan::from_millis(1000));
    app.apply_snapshot(sample_tree());
    app.move_to_bottom();
    assert_eq!(app.selected(), 3);
    app.toggle_threads();
    assert_eq!(app.selected(), 2);
}

#[test]
fn scroll_follows_selection() {
    let mut app = App::new(true, 8, TimeSpan::from_millis(1000));
    app.set_visible_rows(2);
    app.apply_snapshot(sample_tree());
    app.move_to_bottom();
    assert_eq!(app.table_offset(), 2);
    assert_eq!(app.table_selected(), Some(3));
    app.move_to_top();
    assert_eq!(app.table_offset(), 0);
    assert_eq!(app.table_selected(), Some(0));
}

#[test]
fn filter_keeps_matches_and_their_ancestors() {
    let mut app = App::new(true, 8, TimeSpan::from_millis(1000));
    app.apply_snapshot(sample_tree());
    app.enter_filter_input();
    for c in "HELP".chars() {
        app.push_filter_char(c);
    }
    assert_eq!(app.filter(), "HELP");
    assert_eq!(pids(&app), vec![1234, 1235, 200]);
    app.pop_filter_char();
    assert_eq!(app.filter(), "HEL");
    assert!(app.clear_filter());
    assert!(!app.filter_input());
    assert_eq!(app.filter(), "");
    assert_eq!(pids(&app), vec![1234, 1235, 200, 1236]);
    assert!(!app.clear_filter());
    app.push_filter_char('z');
    assert!(pids(&app).is_empty());
}

#[test]
fn detail_toggles_open_and_closed() {
    let mut app = fixture();
    app.apply_snapshot(sample_tree());
    app.move_down();
    assert_eq!(app.toggle_detail().map(|p| p.get()), Some(1235));
    assert_eq!(app.detail_pid().map(|p| p.get()), Some(1235));
    assert_eq!(app.toggle_detail(), None);
    assert_eq!(app.detail_pid(), None);
    assert!(!app.close_detail());
    let _ = app.toggle_detail();
    assert!(app.close_detail());
    assert!(app.detail_info().is_none());
}

#[test]
fn mark_exited_sets_the_flag() {
    let mut app = fixture();
    assert!(!app.exited());
    app.mark_exited();
    assert!(app.exited());
}

#[test]
fn history_keeps_only_the_latest_samples() {
    let mut h = History::new(3);
    assert!(h.is_empty());
    for bits in 1..=5u64 {
        h.push(Percent::from_bits(bits));
    }
    assert_eq!(h.len(), 3);
    let kept: Vec<u64> = h.iter().iter().map(|p| p.to_bits()).collect();
    assert_eq!(kept, vec![3, 4, 5]);
}

#[test]
fn keys_in_the_filter_prompt_edit_the_filter() {
    let mut app = fixture();
    app.apply_snapshot(sample_tree());
    assert_eq!(app.on_key(KeyPress::Char('f'), false), KeyEffect::Continue);
    assert!(app.filter_input());
    // 'q' and 't' are text while the prompt is open
    assert_eq!(app.on_key(KeyPress::Char('q'), false), KeyEffect::Continue);
    assert_eq!(app.on_key(KeyPress::Char('t'), false), KeyEffect::Continue);
    assert_eq!(app.filter(), "qt");
    assert!(!app.show_threads());
    assert_eq!(app.on_key(KeyPress::Backspace, false), KeyEffect::Continue);
    assert_eq!(app.filter(), "q");
    // Enter leaves the prompt and keeps the filter
    assert_eq!(app.on_key(KeyPress::Enter, false), KeyEffect::Continue);
    assert!(!app.filter_input());
    assert_eq!(app.filter(), "q");
    // Delete clears it
    assert_eq!(app.on_key(KeyPress::Delete, false), KeyEffect::Continue);
    assert_eq!(app.filter(), "");
    assert_eq!(pids(&app), vec![1234, 1235, 1236]);
}

#[test]
fn escape_leaves_prompt_then_closes_detail_then_quits() {
    let mut app = fixture();
    app.apply_snapshot(sample_tree());
    app.on_key(KeyPress::Down, false);
    assert_eq!(app.on_key(KeyPress::Enter, false), KeyEffect::FetchDetail(Pid::new(1235)));
    assert_eq!(app.on_key(KeyPress::Char('f'), false), KeyEffect::Continue);
    assert_eq!(app.on_key(KeyPress::Esc, false), KeyEffect::Continue);
    assert!(!app.filter_input());
    assert_eq!(app.detail_pid(), Some(Pid::new(1235)));
    assert_eq!(app.on_key(KeyPress::Esc, false), KeyEffect::Continue);
    assert_eq!(app.detail_pid(), None);
    assert_eq!(app.on_key(KeyPress::Esc, false), KeyEffect::Quit);
    assert_eq!(app.on_key(KeyPress::Char('q'), false), KeyEffect::Quit);
}

#[test]
fn enter_on_the_open_row_closes_without_fetching() {
    let mut app = fixture();
    app.apply_snapshot(sample_tree());
    assert_eq!(app.on_key(KeyPress::Enter, false), KeyEffect::FetchDetail(Pid::new(1234)));
    assert_eq!(app.on_key(KeyPress::Enter, false), KeyEffect::Continue);
    assert_eq!(app.detail_pid(), None);
}

#[test]
fn arrows_move_and_ctrl_arrows_jump() {
    let mut app = fixture();
    app.apply_snapshot(sample_tree());
    app.on_key(KeyPress::Down, true);
    assert_eq!(app.selected(), 2);
    app.on_key(KeyPress::Up, false);
    assert_eq!(app.selected(), 1);
    app.on_key(KeyPress::Up, true);
    assert_eq!(app.selected(), 0);
    app.on_key(KeyPress::Right, false);
    assert_eq!(app.h_scroll(), H_SCROLL_STEP);
    app.on_key(KeyPress::Right, true);
    assert_eq!(app.h_scroll(), usize::MAX);
    app.on_key(KeyPress::Left, true);
    assert_eq!(app.h_scroll(), 0);
    assert_eq!(app.on_key(KeyPress::Other, false), KeyEffect::Continue);
}

#[test]
fn space_collapses_and_t_toggles_threads() {
    let mut app = fixture();
    app.apply_snapshot(sample_tree());
    app.on_key(KeyPress::Char('t'), false);
    assert_eq!(pids(&app), vec![1234, 1235, 200, 1236]);
    app.on_key(KeyPress::Down, false);
    app.on_key(KeyPress::Char(' '), false);
    assert_eq!(pids(&app), vec![1234, 1235, 1236]);
}

#[test]
fn interval_keys_publish_only_changes() {
    let mut app = App::new(false, 1, TimeSpan::from_millis(100));
    assert_eq!(app.on_key(KeyPress::Char('-'), false), KeyEffect::Continue);
    assert_eq!(
        app.on_key(KeyPress::Char('+'), false),
        KeyEffect::PublishInterval(TimeSpan::from_millis(200))
    );
    assert_eq!(
        app.on_key(KeyPress::Char('='), false),
        KeyEffect::PublishInterval(TimeSpan::from_millis(300))
    );
    assert_eq!(
        app.on_key(KeyPress::Char('-'), false),
        KeyEffect::PublishInterval(TimeSpan::from_millis(200))
    );
    assert_eq!(app.interval(), TimeSpan::from_millis(200));
}

#[test]
fn snapshots_refresh_and_report_the_open_panel() {
    let mut app = fixture();
    assert_eq!(app.on_snapshot(Some(sample_tree())), None);
    assert_eq!(app.name(), "myapp");
    app.on_key(KeyPress::Enter, false);
    assert_eq!(app.on_snapshot(Some(sample_tree())), Some(Pid::new(1234)));
    assert_eq!(app.cpu_history().len(), 2);
    assert_eq!(app.on_snapshot(None), Some(Pid::new(1234)));
    assert!(app.exited());
}

#[test]
fn filter_tab_shows_text_and_caret() {
    let mut app = fixture();
    assert_eq!(app.filter_tab(), None);
    app.on_key(KeyPress::Char('f'), false);
    assert_eq!(app.filter_tab().as_deref(), Some("_"));
    app.on_key(KeyPress::Char('w'), false);
    assert_eq!(app.filter_tab().as_deref(), Some("w_"));
    app.on_key(KeyPress::Enter, false);
    assert_eq!(app.filter_tab().as_deref(), Some("w"));
    app.on_key(KeyPress::Delete, false);
    assert_eq!(app.filter_tab(), None);
}
