use prowl::app::App;
use prowl::format::{format_duration, state_word, Percent};
use prowl::process::{IoTotals, Node, Pid, ProcessDetail, Tree};
use prowl::time::TimeSpan;
use prowl::ui::detail::{
    detail_height, fd_usage_text, oom_score_tone, oom_text, state_tone, Tone, PROCESS_HEIGHT, THREAD_HEIGHT,
};
use prowl::ui::tree::{compose_command, max_h_scroll, skip_chars, visible_rows_for_height, ColumnSet};

#[test]
fn column_sets_shrink_with_width() {
    let full = ColumnSet::for_width(120);
    assert!(full.user && full.res && full.elapsed && full.cpu_time);
    let c = ColumnSet::for_width(119);
    assert!(c.user && c.res && c.elapsed && !c.cpu_time);
    let c = ColumnSet::for_width(99);
    assert!(c.user && c.res && !c.elapsed);
    let c = ColumnSet::for_width(79);
    assert!(c.user && !c.res);
    let c = ColumnSet::for_width(69);
    assert!(!c.user && !c.res && !c.elapsed && !c.cpu_time);
    let c = ColumnSet::for_width(10);
    assert!(!c.user);
}

#[test]
fn command_width_subtracts_fixed_columns_and_gaps() {
    // PID 8 + USER 9 + CPU 5 + RES 8 + ELAPSED 9 + CPUT 9 = 48, seven columns => 6 gaps
    assert_eq!(ColumnSet::for_width(120).command_width(118), 118 - 48 - 6);
    // PID 8 + CPU 5 = 13, three columns => 2 gaps
    assert_eq!(ColumnSet::for_width(58).command_width(58), 58 - 13 - 2);
    assert_eq!(ColumnSet::for_width(10).command_width(10), 0);
    assert_eq!(visible_rows_for_height(14), 11);
    assert_eq!(visible_rows_for_height(2), 0);
    assert_eq!(max_h_scroll(50, 20), 30);
    assert_eq!(max_h_scroll(10, 20), 0);
}

fn node(pid: i32, name: &str, is_thread: bool) -> Node {
    Node::new(
        Pid::new(pid),
        name.to_owned(),
        name.to_owned(),
        String::new(),
        'S',
        Percent::zero(),
        0,
        Percent::zero(),
        IoTotals::default(),
        TimeSpan::zero(),
        TimeSpan::zero(),
        String::new(),
        is_thread,
    )
}

fn app_with_thread() -> App {
    let mut root = node(1, "root", false);
    let mut child = node(2, "child", false);
    child.push_child(node(3, "thr", true));
    root.push_child(child);
    let mut app = App::new(true, 1, TimeSpan::from_millis(1000));
    app.apply_snapshot(Tree::from(root));
    app
}

#[test]
fn command_cells_carry_connector_and_marker() {
    let mut app = app_with_thread();
    let rows = app.flat_rows();
    assert_eq!(compose_command(&rows[0]), "▾ root");
    assert_eq!(compose_command(&rows[1]), "└─ ▾ child");
    assert_eq!(compose_command(&rows[2]), "   └─ thr");
    app.move_down();
    app.toggle_collapse();
    assert_eq!(compose_command(&app.flat_rows()[1]), "└─ ▸ child");
    assert_eq!(skip_chars("└─ ▸ child", 5), "child");
    assert_eq!(skip_chars("ab", 5), "");
}

fn detail(pid: i32, is_thread: bool) -> ProcessDetail {
    ProcessDetail {
        pid: Pid::new(pid),
        is_thread,
        tgid: Pid::new(pid),
        state: 'S',
        exe: None,
        cwd: None,
        fd_count: 0,
        fd_soft_limit: None,
        environ: Vec::new(),
        nice: 0,
        priority: 20,
        policy: None,
        rt_priority: None,
        last_cpu: None,
        vm_hwm_kb: None,
        vm_size_kb: None,
        vm_rss_kb: None,
        vm_data_kb: None,
        vm_stack_kb: None,
        vm_swap_kb: None,
        voluntary_ctxt_switches: None,
        nonvoluntary_ctxt_switches: None,
        minor_faults: 0,
        major_faults: 0,
        user_cpu_time: TimeSpan::zero(),
        system_cpu_time: TimeSpan::zero(),
        wchan: None,
        oom_score: None,
        oom_score_adj: None,
        thread_count: None,
        cgroup: None,
    }
}

#[test]
fn detail_height_follows_the_target_kind() {
    let mut app = app_with_thread();
    assert_eq!(detail_height(&app), PROCESS_HEIGHT);
    app.move_to_bottom();
    assert_eq!(app.toggle_detail().map(|p| p.get()), Some(3));
    // before the detail arrives the row decides
    assert_eq!(detail_height(&app), THREAD_HEIGHT);
    app.set_detail_info(detail(3, false));
    assert_eq!(detail_height(&app), PROCESS_HEIGHT);
    app.set_detail_info(detail(3, true));
    assert_eq!(detail_height(&app), THREAD_HEIGHT);
}

#[test]
fn tones_follow_state_and_oom_score() {
    assert_eq!(state_tone('R'), Tone::Green);
    assert_eq!(state_tone('S'), Tone::Yellow);
    assert_eq!(state_tone('D'), Tone::Magenta);
    assert_eq!(state_tone('t'), Tone::Cyan);
    assert_eq!(state_tone('Z'), Tone::Red);
    assert_eq!(state_tone('?'), Tone::White);
    assert_eq!(oom_score_tone(200), Tone::Green);
    assert_eq!(oom_score_tone(201), Tone::White);
    assert_eq!(oom_score_tone(800), Tone::Yellow);
    assert_eq!(oom_score_tone(801), Tone::Red);
}

#[test]
fn time_spans_convert_and_saturate() {
    let t = TimeSpan::from_parts(3, 250_000_000).unwrap();
    assert_eq!(t.as_millis(), 3250);
    assert_eq!(t.as_secs(), 3);
    assert_eq!(t.subsec_nanos(), 250_000_000);
    assert_eq!(t.as_nanos(), 3_250_000_000);
    assert!(TimeSpan::from_parts(1, 1_000_000_000).is_none());
    assert_eq!(TimeSpan::from_secs(1).saturating_sub(TimeSpan::from_secs(2)), TimeSpan::zero());
    assert_eq!(TimeSpan::from_nanos(5).saturating_add(TimeSpan::from_nanos(6)).as_nanos(), 11);
    assert_eq!(Percent::from_bits(12.5f64.to_bits()).to_bits(), 12.5f64.to_bits());
}

#[test]
fn saturating_sums_regroup() {
    let big = TimeSpan::from_secs(u64::MAX);
    let a = TimeSpan::from_nanos(900_000_000);
    let b = TimeSpan::from_nanos(200_000_000);
    let left = big.saturating_add(a).saturating_add(b);
    let right = big.saturating_add(a.saturating_add(b));
    assert_eq!(left, right);
    assert_eq!(left.as_secs(), u64::MAX);
    assert_eq!(left.subsec_nanos(), 999_999_999);
    let small = TimeSpan::from_nanos(1).saturating_add(a).saturating_add(b);
    assert_eq!(small, TimeSpan::from_nanos(1).saturating_add(a.saturating_add(b)));
    assert_eq!(small.as_nanos(), 1_100_000_001);
}

#[test]
fn durations_read_as_clock_faces() {
    assert_eq!(format_duration(TimeSpan::zero()), "00:00");
    assert_eq!(format_duration(TimeSpan::from_millis(65_999)), "01:05");
    assert_eq!(format_duration(TimeSpan::from_secs(3599)), "59:59");
    assert_eq!(format_duration(TimeSpan::from_secs(3600)), "1:00:00");
    assert_eq!(format_duration(TimeSpan::from_secs(3725)), "1:02:05");
    assert_eq!(format_duration(TimeSpan::from_secs(100 * 3600 + 61)), "100:01:01");
}

#[test]
fn task_states_have_words() {
    assert_eq!(state_word('R'), "running");
    assert_eq!(state_word('S'), "sleeping");
    assert_eq!(state_word('D'), "disk sleep");
    assert_eq!(state_word('Z'), "zombie");
    assert_eq!(state_word('x'), "dead");
    assert_eq!(state_word('X'), "dead");
    assert_eq!(state_word('?'), "unknown");
}

#[test]
fn fd_and_oom_readings() {
    assert_eq!(fd_usage_text(12, Some(1024)), "12 / 1024");
    assert_eq!(fd_usage_text(0, None), "0 / ∞");
    assert_eq!(oom_text(Some(667), Some(0)).as_deref(), Some("667 (+0)"));
    assert_eq!(oom_text(Some(5), Some(-1000)).as_deref(), Some("5 (-1000)"));
    assert_eq!(oom_text(Some(5), Some(200)).as_deref(), Some("5 (+200)"));
    assert_eq!(oom_text(Some(5), None).as_deref(), Some("5"));
    assert_eq!(oom_text(None, Some(3)), None);
    assert_eq!(format!("{:+}", -32768i16), "-32768");
    assert_eq!(oom_text(Some(0), Some(i16::MIN)).as_deref(), Some("0 (-32768)"));
}
