use std::collections::HashMap;

use prowl::cli::parse_millis;
use prowl::environ::{checked_environ_strip, detail_environ, environ_strip, sort_environ, str_lt};
use prowl::process::{Pid, SchedPolicy};
use prowl::sample::{
    children_of, command_line, compute_elapsed, first_cgroup_path, normalize_wchan, other_tasks,
    resolve_user, rss_bytes, split_lines, thread_group, thread_name, tick_delta,
    uid_map_from_passwd,
};
use prowl::text::{contains_chars, parse_unsigned_str, IntParseError};
use prowl::time::TimeSpan;

fn s(x: &str) -> String {
    x.to_owned()
}

#[test]
fn parse_millis_accepts_positive_integers() {
    assert_eq!(parse_millis("1000"), Ok(TimeSpan::from_millis(1000)));
    assert_eq!(parse_millis("+5"), Ok(TimeSpan::from_millis(5)));
}

#[test]
fn parse_millis_rejects_with_std_messages() {
    assert_eq!(parse_millis("0"), Err(s("value must be at least 1ms")));
    assert_eq!(parse_millis(""), Err(s("cannot parse integer from empty string")));
    assert_eq!(parse_millis("12a"), Err(s("invalid digit found in string")));
    assert_eq!(parse_millis("-1"), Err(s("invalid digit found in string")));
    assert_eq!(parse_millis("+"), Err(s("invalid digit found in string")));
    assert_eq!(
        parse_millis("18446744073709551616"),
        Err(s("number too large to fit in target type"))
    );
    // the first failure wins: overflow before the bad character
    assert_eq!(
        parse_millis("99999999999999999999x"),
        Err(s("number too large to fit in target type"))
    );
}

#[test]
fn unsigned_parsing_matches_the_standard_library() {
    for text in ["0", "42", "+7", "4294967295", "4294967296", "", "+", "-", "1 2", "٣"] {
        let expected = text.parse::<u32>().map(u64::from).map_err(|e| e.to_string());
        let got = parse_unsigned_str(text, u32::MAX as u64).map_err(|e: IntParseError| e.message());
        assert_eq!(got, expected, "parsing {text:?}");
    }
}

#[test]
fn lines_split_like_str_lines() {
    for text in ["", "a", "a\n", "a\r\nb", "foo\r\nbar\n\nbaz\r", "\n\n", "x\ry"] {
        let expected: Vec<Vec<char>> = text.lines().map(|l| l.chars().collect()).collect();
        assert_eq!(split_lines(text), expected, "splitting {text:?}");
    }
}

#[test]
fn passwd_lines_map_uids_to_names_and_skip_malformed_ones() {
    let passwd = "root:x:0:0:root:/root:/bin/bash\n\
                  broken line\n\
                  nobody:x:65534:65534::/:/sbin/nologin\r\n\
                  bad:x:notanumber:1\n\
                  short:x\n\
                  alice:x:1000:1000::/home/alice:/bin/sh\n\
                  alias:x:1000:1000::/:/bin/sh";
    let map = uid_map_from_passwd(passwd);
    assert_eq!(map.len(), 3);
    assert_eq!(map.get(&0).map(String::as_str), Some("root"));
    assert_eq!(map.get(&65534).map(String::as_str), Some("nobody"));
    // later lines win
    assert_eq!(map.get(&1000).map(String::as_str), Some("alias"));
    assert!(uid_map_from_passwd("").is_empty());
}

#[test]
fn resolve_user_falls_back_to_the_numeric_uid() {
    let mut map = HashMap::new();
    map.insert(1000u32, s("alice"));
    assert_eq!(resolve_user(Some(1000), &map), "alice");
    assert_eq!(resolve_user(Some(4242), &map), "4242");
    assert_eq!(resolve_user(Some(0), &map), "0");
    assert_eq!(resolve_user(None, &map), "");
}

#[test]
fn cgroup_path_is_the_first_informative_one() {
    assert_eq!(first_cgroup_path("0::/user.slice/session.scope\n"), Some(s("/user.slice/session.scope")));
    assert_eq!(
        first_cgroup_path("12:cpu:/\n11:memory:\n10:pids:/system.slice/a:b.service\n"),
        Some(s("/system.slice/a:b.service"))
    );
    assert_eq!(first_cgroup_path("0::/\n"), None);
    assert_eq!(first_cgroup_path("no colons here\n"), None);
    assert_eq!(first_cgroup_path(""), None);
}

#[test]
fn command_line_joins_arguments_or_falls_back_to_comm() {
    assert_eq!(command_line(Some(vec![s("/bin/sleep"), s("10")]), "sleep"), "/bin/sleep 10");
    assert_eq!(command_line(Some(vec![s("solo")]), "x"), "solo");
    assert_eq!(command_line(Some(Vec::new()), "kworker/0:1"), "kworker/0:1");
    assert_eq!(command_line(None, "init"), "init");
}

#[test]
fn wchan_is_trimmed_and_running_markers_dropped() {
    assert_eq!(normalize_wchan(Some(s("  futex_wait_queue \n"))), Some(s("futex_wait_queue")));
    assert_eq!(normalize_wchan(Some(s("0"))), None);
    assert_eq!(normalize_wchan(Some(s(" 0\n"))), None);
    assert_eq!(normalize_wchan(Some(s("   "))), None);
    assert_eq!(normalize_wchan(None), None);
}

#[test]
fn thread_name_trims_trailing_whitespace() {
    assert_eq!(thread_name(Some(s("worker-1\n")), "worker-"), "worker-1");
    assert_eq!(thread_name(None, "comm"), "comm");
}

#[test]
fn thread_group_marks_non_leaders_as_threads() {
    let (tgid, is_thread) = thread_group(Pid::new(200), Some(1235));
    assert_eq!((tgid.get(), is_thread), (1235, true));
    let (tgid, is_thread) = thread_group(Pid::new(1234), Some(1234));
    assert_eq!((tgid.get(), is_thread), (1234, false));
    let (tgid, is_thread) = thread_group(Pid::new(7), None);
    assert_eq!((tgid.get(), is_thread), (7, false));
}

#[test]
fn elapsed_counts_from_boot_plus_start_ticks() {
    // booted at 1000 s, started 500 ticks (5 s at 100 Hz) later, now 1105 s
    assert_eq!(compute_elapsed(1000, 500, 100, Some(1105)), TimeSpan::from_secs(100));
    // zero ticks per second is treated as one
    assert_eq!(compute_elapsed(0, 7, 0, Some(10)), TimeSpan::from_secs(3));
    // a clock behind the start gives zero, as does an unknown clock
    assert_eq!(compute_elapsed(1000, 0, 100, Some(10)), TimeSpan::zero());
    assert_eq!(compute_elapsed(1000, 0, 100, None), TimeSpan::zero());
}

#[test]
fn tick_delta_is_zero_first_then_the_difference() {
    let mut prev = HashMap::new();
    assert_eq!(tick_delta(&mut prev, Pid::new(5), 100), 0);
    assert_eq!(tick_delta(&mut prev, Pid::new(5), 130), 30);
    assert_eq!(prev.get(&5), Some(&130));
    // a counter that went backwards saturates at zero
    assert_eq!(tick_delta(&mut prev, Pid::new(5), 10), 0);
}

#[test]
fn rss_is_pages_times_page_size() {
    assert_eq!(rss_bytes(3, 4096), 12288);
}

#[test]
fn children_and_tasks_are_filtered_in_order() {
    let procs = vec![(10, 1), (11, 2), (12, 1), (13, 12)];
    let kids: Vec<i32> = children_of(&procs, Pid::new(1)).iter().map(|p| p.get()).collect();
    assert_eq!(kids, vec![10, 12]);
    let tids: Vec<i32> = other_tasks(&vec![40, 41, 42], Pid::new(40)).iter().map(|p| p.get()).collect();
    assert_eq!(tids, vec![41, 42]);
}

#[test]
fn sched_policy_decodes_and_labels() {
    assert_eq!(SchedPolicy::from_raw(0), SchedPolicy::Normal);
    assert_eq!(SchedPolicy::from_raw(5), SchedPolicy::Idle);
    assert_eq!(SchedPolicy::from_raw(4), SchedPolicy::Unknown(4));
    assert_eq!(SchedPolicy::Normal.label(), "OTHER");
    assert_eq!(SchedPolicy::RoundRobin.label(), "RR");
    assert_eq!(SchedPolicy::Deadline.label(), "DEADLINE");
    assert_eq!(SchedPolicy::Unknown(4).label(), "?(4)");
    assert_eq!(SchedPolicy::Unknown(4294967295).label(), "?(4294967295)");
}

#[test]
fn environ_sorts_by_name_keeping_duplicates_in_order() {
    let env = vec![(s("PATH"), s("/bin")), (s("HOME"), s("/root")), (s("A"), s("1")), (s("HOME"), s("/tmp"))];
    let sorted = sort_environ(env);
    assert_eq!(
        sorted,
        vec![(s("A"), s("1")), (s("HOME"), s("/root")), (s("HOME"), s("/tmp")), (s("PATH"), s("/bin"))]
    );
    assert!(detail_environ(true, vec![(s("X"), s("1"))]).is_empty());
    assert_eq!(detail_environ(false, vec![(s("b"), s("2")), (s("a"), s("1"))])[0].0, "a");
    assert!(str_lt("ab", "b"));
    assert!(str_lt("a", "ab"));
    assert!(!str_lt("b", "b"));
}

#[test]
fn environ_strip_prefers_well_known_variables_and_fits_the_width() {
    let env = vec![
        (s("HOME"), s("/home/alice")),
        (s("LANG"), s("en_US.UTF-8")),
        (s("SHELL"), s("/bin/bash")),
        (s("USER"), s("alice")),
        (s("ZED"), s("1")),
    ];
    let strip = environ_strip(&env, 200);
    let names: Vec<&str> = strip.iter().map(|e| e.name.as_str()).collect();
    assert_eq!(names, vec!["SHELL", "HOME", "USER", "LANG", "ZED"]);
    // " env: " (6) + "SHELL=/bin/bash" (15) + "  HOME=/home/alice" (18) = 39
    assert_eq!(environ_strip(&env, 39).len(), 2);
    assert_eq!(environ_strip(&env, 38).len(), 1);
    assert!(environ_strip(&env, 9).is_empty());
    assert!(environ_strip(&Vec::new(), 100).is_empty());
    let long = vec![(s("K"), "v".repeat(40))];
    let cut = environ_strip(&long, 100);
    assert!(cut[0].cut);
    assert_eq!(cut[0].value, "v".repeat(30));
}

#[test]
fn substring_search_finds_runs() {
    let hay: Vec<char> = "hello world".chars().collect();
    let yes: Vec<char> = "o w".chars().collect();
    let no: Vec<char> = "ow".chars().collect();
    assert!(contains_chars(&hay, &yes));
    assert!(!contains_chars(&hay, &no));
    assert!(contains_chars(&hay, &Vec::new()));
}

#[test]
fn strip_refuses_a_reached_value_it_cannot_cut() {
    // 29 ASCII bytes then a two-byte character straddling byte 30
    let awkward = format!("{}é{}", "a".repeat(29), "b".repeat(10));
    let env = vec![(s("A"), s("x")), (s("B"), awkward.clone())];
    assert!(checked_environ_strip(&env, 100).is_none());
    // never reached: the first entry alone already overflows this width
    let far = vec![(s("A"), "y".repeat(20)), (s("B"), s("x")), (s("C"), awkward.clone())];
    assert!(checked_environ_strip(&far, 20).is_some());
    // nothing is cut in an area narrower than 10
    assert_eq!(checked_environ_strip(&env, 9).map(|v| v.len()), Some(0));
    let fine = checked_environ_strip(&vec![(s("K"), "v".repeat(40))], 100).unwrap();
    assert_eq!(fine[0].value, "v".repeat(30));
}
