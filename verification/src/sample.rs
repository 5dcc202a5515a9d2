//! Decisions made while sampling `/proc`: splitting and reading the text
//! files it exposes, and turning raw counters into the values the tree
//! shows.  Reading the files is left to the caller; everything here works
//! on what was read.

use std::collections::HashMap;

use vstd::prelude::*;

use crate::process::Pid;
use crate::text::{
    chars_of, decimal, parse_unsigned, parse_unsigned_chars, push_decimal, push_str, trimmed,
    trimmed_end, string_of, trim, trim_end,
};
use crate::time::{TimeSpan, NANOS_PER_SEC};

verus! {

broadcast use vstd::std_specs::hash::group_hash_axioms;

/// A line without its line terminator's carriage return, if it has one.
pub open spec fn strip_cr(line: Seq<char>) -> Seq<char> {
    if line.len() > 0 && line.last() == '\r' {
        line.drop_last()
    } else {
        line
    }
}

/// The lines finished so far, and the line still being read, after reading
/// `s` from left to right.
pub open spec fn lines_scan(s: Seq<char>) -> (Seq<Seq<char>>, Seq<char>)
    decreases s.len(),
{
    if s.len() == 0 {
        (Seq::empty(), Seq::empty())
    } else {
        let (done, cur) = lines_scan(s.drop_last());
        if s.last() == '\n' {
            (done.push(strip_cr(cur)), Seq::empty())
        } else {
            (done, cur.push(s.last()))
        }
    }
}

/// The lines of `s` as `str::lines` yields them: split after each `\n`,
/// the `\n` and a `\r` right before it removed, and no empty last line
/// after a final `\n`.
pub open spec fn spec_lines(s: Seq<char>) -> Seq<Seq<char>> {
    let (done, cur) = lines_scan(s);
    if cur.len() == 0 {
        done
    } else {
        done.push(cur)
    }
}

/// The character views of a list of character vectors.
pub open spec fn char_views(v: Seq<Vec<char>>) -> Seq<Seq<char>> {
    v.map_values(|x: Vec<char>| x@)
}

/// The lines of `s` (see `spec_lines`).
pub fn split_lines(s: &str) -> (r: Vec<Vec<char>>)
    ensures
        char_views(r@) == spec_lines(s@),
{
    let chars = chars_of(s);
    let n = chars.len();
    let mut done: Vec<Vec<char>> = Vec::new();
    let mut cur: Vec<char> = Vec::new();
    let mut i: usize = 0;
    while i < n
        invariant
            n == chars@.len(),
            chars@ == s@,
            i <= n,
            (char_views(done@), cur@) == lines_scan(chars@.take(i as int)),
        decreases n - i,
    {
        let c = chars[i];
        proof {
            assert(chars@.take(i + 1).drop_last() =~= chars@.take(i as int));
        }
        if c == '\n' {
            let len = cur.len();
            if len > 0 && cur[len - 1] == '\r' {
                cur.pop();
            }
            let line = cur;
            cur = Vec::new();
            done.push(line);
            assert(char_views(done@) =~= lines_scan(chars@.take(i + 1)).0);
        } else {
            cur.push(c);
        }
        i = i + 1;
    }
    proof {
        assert(chars@.take(n as int) =~= chars@);
    }
    if cur.len() > 0 {
        done.push(cur);
        assert(char_views(done@) =~= spec_lines(s@));
    }
    done
}

/// The first position at or after `from` that holds `c`, or the length of
/// `s` if there is none.
pub open spec fn index_of(s: Seq<char>, c: char, from: int) -> int
    decreases s.len() - from,
{
    if from >= s.len() {
        s.len() as int
    } else if s[from] == c {
        from
    } else {
        index_of(s, c, from + 1)
    }
}

/// The first position at or after `from` holding `c`, or `s.len()`.
fn find_char(s: &Vec<char>, c: char, from: usize) -> (r: usize)
    requires
        from <= s@.len(),
    ensures
        r == index_of(s@, c, from as int),
        from <= r <= s@.len(),
{
    let mut i = from;
    while i < s.len()
        invariant
            from <= i <= s@.len(),
            index_of(s@, c, from as int) == index_of(s@, c, i as int),
        decreases s@.len() - i,
    {
        if s[i] == c {
            return i;
        }
        i = i + 1;
    }
    i
}

/// The `(uid, name)` a `/etc/passwd` line names: the name is the first
/// `:`-separated field, and the uid is the third field parsed as a `u32`.
/// Lines with fewer than three fields, or an unparsable uid, name nothing.
pub open spec fn passwd_entry(line: Seq<char>) -> Option<(u32, Seq<char>)> {
    let c1 = index_of(line, ':', 0);
    let c2 = index_of(line, ':', c1 + 1);
    let c3 = index_of(line, ':', c2 + 1);
    if c1 >= line.len() || c2 >= line.len() {
        None
    } else {
        match parse_unsigned(line.subrange(c2 + 1, c3), u32::MAX as nat) {
            Ok(uid) => Some((uid as u32, line.subrange(0, c1))),
            Err(_) => None,
        }
    }
}

/// The uid-to-name map of a list of passwd lines: later lines win.
pub open spec fn uid_map_of(lines: Seq<Seq<char>>) -> Map<u32, Seq<char>>
    decreases lines.len(),
{
    if lines.len() == 0 {
        Map::empty()
    } else {
        let m = uid_map_of(lines.drop_last());
        match passwd_entry(lines.last()) {
            Some((uid, name)) => m.insert(uid, name),
            None => m,
        }
    }
}

/// `m` holds exactly the names of `expected`, by uid.
pub open spec fn names_match(m: Map<u32, String>, expected: Map<u32, Seq<char>>) -> bool {
    &&& m.dom() == expected.dom()
    &&& forall|k: u32| #[trigger] m.dom().contains(k) ==> m[k]@ == expected[k]
}

fn passwd_entry_exec(line: &Vec<char>) -> (r: Option<(u32, String)>)
    ensures
        match passwd_entry(line@) {
            Some((uid, name)) => r matches Some((u, n)) && u == uid && n@ == name,
            None => r is None,
        },
{
    let c1 = find_char(line, ':', 0);
    if c1 >= line.len() {
        return None;
    }
    let c2 = find_char(line, ':', c1 + 1);
    if c2 >= line.len() {
        return None;
    }
    let c3 = find_char(line, ':', c2 + 1);
    match parse_unsigned_chars(line, c2 + 1, c3, u32::MAX as u64) {
        Ok(uid) => Some((uid as u32, string_of(line, 0, c1))),
        Err(_) => None,
    }
}

/// Parse `/etc/passwd` text into a `uid → username` map.
///
/// Malformed lines are skipped; when several lines name the same uid, the
/// last one wins.
pub fn uid_map_from_passwd(content: &str) -> (r: HashMap<u32, String>)
    ensures
        names_match(r@, uid_map_of(spec_lines(content@))),
{
    let lines = split_lines(content);
    let ghost ls = char_views(lines@);
    let mut map: HashMap<u32, String> = HashMap::new();
    let mut i: usize = 0;
    while i < lines.len()
        invariant
            i <= lines@.len(),
            ls == char_views(lines@),
            ls == spec_lines(content@),
            names_match(map@, uid_map_of(ls.take(i as int))),
        decreases lines@.len() - i,
    {
        proof {
            assert(ls.take(i + 1).drop_last() =~= ls.take(i as int));
        }
        match passwd_entry_exec(&lines[i]) {
            Some((uid, name)) => {
                map.insert(uid, name);
            },
            None => {},
        }
        i = i + 1;
        assert(names_match(map@, uid_map_of(ls.take(i as int))));
    }
    proof {
        assert(ls.take(lines@.len() as int) =~= ls);
    }
    map
}

/// The cgroup path of a `/proc/<pid>/cgroup` line: everything after its
/// second `:`, if it has two.
pub open spec fn cgroup_field(line: Seq<char>) -> Option<Seq<char>> {
    let c1 = index_of(line, ':', 0);
    let c2 = index_of(line, ':', c1 + 1);
    if c1 >= line.len() || c2 >= line.len() {
        None
    } else {
        Some(line.subrange(c2 + 1, line.len() as int))
    }
}

/// A path worth showing: neither empty nor the root `/`.
pub open spec fn informative_path(p: Seq<char>) -> bool {
    p.len() > 0 && p != "/"@
}

/// The first informative cgroup path among `lines`, if any.
pub open spec fn first_cgroup(lines: Seq<Seq<char>>) -> Option<Seq<char>>
    decreases lines.len(),
{
    if lines.len() == 0 {
        None
    } else {
        match first_cgroup(lines.drop_last()) {
            Some(p) => Some(p),
            None => match cgroup_field(lines.last()) {
                Some(p) => if informative_path(p) {
                    Some(p)
                } else {
                    None
                },
                None => None,
            },
        }
    }
}

/// Whether the characters are exactly `/`.
fn is_root_path(chars: &Vec<char>, start: usize) -> (r: bool)
    requires
        start <= chars@.len(),
    ensures
        r == (chars@.subrange(start as int, chars@.len() as int) == "/"@),
{
    proof {
        reveal_strlit("/");
    }
    if chars.len() - start == 1 && chars[start] == '/' {
        assert(chars@.subrange(start as int, chars@.len() as int) =~= "/"@);
        true
    } else {
        assert(chars@.subrange(start as int, chars@.len() as int).len() != 1 || chars@.subrange(
            start as int,
            chars@.len() as int,
        )[0] != '/');
        false
    }
}

/// The first informative cgroup path in `/proc/<pid>/cgroup` text.
///
/// Cgroup v2 emits a single `0::<path>` line; v1 emits one line per
/// controller.  Either way the path is the part after the second colon;
/// the first one that is neither empty nor `/` identifies the slice,
/// scope or container the task lives in.
pub fn first_cgroup_path(raw: &str) -> (r: Option<String>)
    ensures
        match first_cgroup(spec_lines(raw@)) {
            Some(p) => r matches Some(s) && s@ == p,
            None => r is None,
        },
{
    let lines = split_lines(raw);
    let ghost ls = char_views(lines@);
    let mut i: usize = 0;
    while i < lines.len()
        invariant
            i <= lines@.len(),
            ls == char_views(lines@),
            ls == spec_lines(raw@),
            first_cgroup(ls.take(i as int)) is None,
        decreases lines@.len() - i,
    {
        proof {
            assert(ls.take(i + 1).drop_last() =~= ls.take(i as int));
        }
        let line = &lines[i];
        let c1 = find_char(line, ':', 0);
        if c1 < line.len() {
            let c2 = find_char(line, ':', c1 + 1);
            if c2 < line.len() {
                if c2 + 1 < line.len() && !is_root_path(line, c2 + 1) {
                    proof {
                        lemma_first_cgroup_extends(ls, i as int + 1);
                    }
                    return Some(string_of(line, c2 + 1, line.len()));
                }
            }
        }
        i = i + 1;
    }
    proof {
        assert(ls.take(lines@.len() as int) =~= ls);
    }
    None
}

/// Once a prefix of the lines has an answer, every longer prefix keeps it.
proof fn lemma_first_cgroup_extends(ls: Seq<Seq<char>>, k: int)
    requires
        0 <= k <= ls.len(),
        first_cgroup(ls.take(k)) is Some,
    ensures
        first_cgroup(ls) == first_cgroup(ls.take(k)),
    decreases ls.len() - k,
{
    if k < ls.len() {
        assert(ls.take(k + 1).drop_last() =~= ls.take(k));
        lemma_first_cgroup_extends(ls, k + 1);
    } else {
        assert(ls.take(k) =~= ls);
    }
}

/// `args` joined with single spaces.
pub open spec fn joined_args(args: Seq<Seq<char>>) -> Seq<char>
    decreases args.len(),
{
    if args.len() == 0 {
        Seq::empty()
    } else if args.len() == 1 {
        args[0]
    } else {
        joined_args(args.drop_last()) + " "@ + args.last()
    }
}

/// The string views of a list of strings.
pub open spec fn string_views(v: Seq<String>) -> Seq<Seq<char>> {
    v.map_values(|s: String| s@)
}

/// The command line shown for a process: its arguments joined by spaces,
/// or its short `comm` name when it has no arguments (kernel threads and
/// processes whose `/proc/<pid>/cmdline` is empty or unreadable).
pub fn command_line(args: Option<Vec<String>>, comm: &str) -> (r: String)
    ensures
        match args {
            Some(a) => if a@.len() > 0 {
                r@ == joined_args(string_views(a@))
            } else {
                r@ == comm@
            },
            None => r@ == comm@,
        },
{
    match args {
        Some(a) => {
            if a.len() == 0 {
                return comm.to_owned();
            }
            let ghost av = string_views(a@);
            let mut out = a[0].clone();
            let mut i: usize = 1;
            assert(av.take(1) =~= seq![av[0]]);
            while i < a.len()
                invariant
                    1 <= i <= a@.len(),
                    av == string_views(a@),
                    out@ == joined_args(av.take(i as int)),
                decreases a@.len() - i,
            {
                proof {
                    assert(av.take(i + 1).drop_last() =~= av.take(i as int));
                }
                push_str(&mut out, " ");
                push_str(&mut out, a[i].as_str());
                i = i + 1;
            }
            assert(av.take(a@.len() as int) =~= av);
            out
        },
        None => comm.to_owned(),
    }
}

/// The thread group a task belongs to, and whether the task is a thread
/// rather than the group's leader.  Without a readable status the task is
/// taken to lead its own group.
pub fn thread_group(pid: Pid, status_tgid: Option<i32>) -> (r: (Pid, bool))
    ensures
        r.0@ == match status_tgid {
            Some(t) => t,
            None => pid@,
        },
        r.1 == (r.0@ != pid@),
{
    let tgid = match status_tgid {
        Some(t) => Pid::new(t),
        None => pid,
    };
    let is_thread = tgid.get() != pid.get();
    (tgid, is_thread)
}

/// How long a task has run, in whole seconds: from boot time plus its
/// start tick (converted with at least one tick per second) to now, or
/// zero when now is unknown or earlier.
pub open spec fn elapsed_secs(boot_secs: u64, starttime: u64, ticks_per_second: u64, now_secs: Option<u64>) -> nat {
    let ticks = if ticks_per_second >= 1 { ticks_per_second } else { 1 };
    let start = boot_secs + starttime / ticks;
    let start_sat = if start > u64::MAX { u64::MAX as int } else { start };
    match now_secs {
        Some(now) => if now >= start_sat { (now - start_sat) as nat } else { 0 },
        None => 0,
    }
}

/// Compute how long a process has been running.
///
/// `starttime` is clock ticks since boot (from `/proc/<pid>/stat`).
pub fn compute_elapsed(boot_secs: u64, starttime: u64, ticks_per_second: u64, now_secs: Option<u64>) -> (r: TimeSpan)
    ensures
        r@ == elapsed_secs(boot_secs, starttime, ticks_per_second, now_secs) * NANOS_PER_SEC,
{
    let ticks = if ticks_per_second >= 1 { ticks_per_second } else { 1 };
    let start_secs = boot_secs.saturating_add(starttime / ticks);
    let now = match now_secs {
        Some(n) => n,
        None => start_secs,
    };
    TimeSpan::from_secs(now.saturating_sub(start_secs))
}

/// The ticks a task consumed since its previous sample, which is zero on
/// its first sample; the sample is then remembered for next time.
pub fn tick_delta(prev_ticks: &mut HashMap<i32, u64>, pid: Pid, current_ticks: u64) -> (r: u64)
    ensures
        final(prev_ticks)@ == old(prev_ticks)@.insert(pid@, current_ticks),
        r == if old(prev_ticks)@.contains_key(pid@) && old(prev_ticks)@[pid@] <= current_ticks {
            (current_ticks - old(prev_ticks)@[pid@]) as u64
        } else {
            0
        },
{
    let key = pid.get();
    let previous = match prev_ticks.get(&key) {
        Some(p) => *p,
        None => current_ticks,
    };
    let delta = current_ticks.saturating_sub(previous);
    prev_ticks.insert(key, current_ticks);
    delta
}

/// Resident memory in bytes: `rss` pages of `page_size` bytes each.
pub fn rss_bytes(rss_pages: u64, page_size: u64) -> (r: u64)
    requires
        rss_pages * page_size <= u64::MAX,
    ensures
        r == rss_pages * page_size,
{
    rss_pages * page_size
}

/// The PIDs, in order, of the processes whose parent is `parent`.
pub fn children_of(procs: &Vec<(i32, i32)>, parent: Pid) -> (r: Vec<Pid>)
    ensures
        r@.map_values(|p: Pid| p@) == procs@.filter(|e: (i32, i32)| e.1 == parent@).map_values(
            |e: (i32, i32)| e.0,
        ),
{
    let mut out: Vec<Pid> = Vec::new();
    let mut i: usize = 0;
    let ghost pred = |e: (i32, i32)| e.1 == parent@;
    while i < procs.len()
        invariant
            i <= procs@.len(),
            pred == (|e: (i32, i32)| e.1 == parent@),
            out@.map_values(|p: Pid| p@) == procs@.take(i as int).filter(pred).map_values(
                |e: (i32, i32)| e.0,
            ),
        decreases procs@.len() - i,
    {
        let (pid, ppid) = procs[i];
        let ghost before = out@;
        if ppid == parent.get() {
            out.push(Pid::new(pid));
            assert(out@.map_values(|p: Pid| p@) =~= before.map_values(|p: Pid| p@).push(pid));
        } else {
            assert(out@ == before);
        }
        assert(out@.map_values(|p: Pid| p@) =~= procs@.take(i + 1).filter(pred).map_values(
            |e: (i32, i32)| e.0,
        )) by {
            let s0 = procs@.take(i as int);
            let s1 = procs@.take(i + 1);
            assert(s1.drop_last() =~= s0);
            assert(s1.last() == (pid, ppid));
            assert(s1.filter(pred) == if pred((pid, ppid)) {
                s0.filter(pred).push((pid, ppid))
            } else {
                s0.filter(pred)
            }) by {
                reveal_with_fuel(Seq::filter, 1);
            }
        }
        i = i + 1;
    }
    proof {
        assert(procs@.take(procs@.len() as int) =~= procs@);
    }
    out
}

/// The task IDs of a process other than the process itself (the main
/// thread has `tid == pid`), in order.
pub fn other_tasks(tids: &Vec<i32>, pid: Pid) -> (r: Vec<Pid>)
    ensures
        r@.map_values(|p: Pid| p@) == tids@.filter(|t: i32| t != pid@),
{
    let mut out: Vec<Pid> = Vec::new();
    let mut i: usize = 0;
    let ghost pred = |t: i32| t != pid@;
    while i < tids.len()
        invariant
            i <= tids@.len(),
            pred == (|t: i32| t != pid@),
            out@.map_values(|p: Pid| p@) == tids@.take(i as int).filter(pred),
        decreases tids@.len() - i,
    {
        let t = tids[i];
        let ghost before = out@;
        if t != pid.get() {
            out.push(Pid::new(t));
            assert(out@.map_values(|p: Pid| p@) =~= before.map_values(|p: Pid| p@).push(t));
        } else {
            assert(out@ == before);
        }
        assert(out@.map_values(|p: Pid| p@) =~= tids@.take(i + 1).filter(pred)) by {
            let s0 = tids@.take(i as int);
            let s1 = tids@.take(i + 1);
            assert(s1.drop_last() =~= s0);
            assert(s1.last() == t);
            assert(s1.filter(pred) == if pred(t) {
                s0.filter(pred).push(t)
            } else {
                s0.filter(pred)
            }) by {
                reveal_with_fuel(Seq::filter, 1);
            }
        }
        i = i + 1;
    }
    proof {
        assert(tids@.take(tids@.len() as int) =~= tids@);
    }
    out
}

/// The wait channel worth showing: the trimmed kernel function name, or
/// nothing when it is empty or `0` (both mean the task is running).
pub open spec fn shown_wchan(raw: Option<Seq<char>>) -> Option<Seq<char>> {
    match raw {
        Some(w) => {
            let t = trimmed(w);
            if t.len() > 0 && t != "0"@ {
                Some(t)
            } else {
                None
            }
        },
        None => None,
    }
}

/// Normalise a raw `/proc/<pid>/wchan` reading (see `shown_wchan`).
pub fn normalize_wchan(raw: Option<String>) -> (r: Option<String>)
    ensures
        match shown_wchan(
            match raw {
                Some(w) => Some(w@),
                None => None,
            },
        ) {
            Some(t) => r matches Some(s) && s@ == t,
            None => r is None,
        },
{
    proof {
        reveal_strlit("0");
    }
    match raw {
        None => None,
        Some(w) => {
            let t = trim(w.as_str());
            let chars = chars_of(t);
            if chars.len() == 0 {
                return None;
            }
            if chars.len() == 1 && chars[0] == '0' {
                assert(t@ =~= "0"@);
                return None;
            }
            assert(t@ != "0"@) by {
                if t@ == "0"@ {
                    assert(chars@.len() == 1 && chars@[0] == '0');
                }
            }
            Some(t.to_owned())
        },
    }
}

/// The display name of a thread: its `/proc/<pid>/task/<tid>/comm`
/// contents without trailing whitespace, or its `stat` name when that file
/// could not be read.
pub fn thread_name(comm_file: Option<String>, stat_comm: &str) -> (r: String)
    ensures
        r@ == match comm_file {
            Some(c) => trimmed_end(c@),
            None => stat_comm@,
        },
{
    match comm_file {
        Some(c) => trim_end(c.as_str()).to_owned(),
        None => stat_comm.to_owned(),
    }
}

/// The user name shown for a process: the passwd name of its effective
/// uid, or the uid in decimal when passwd does not know it; empty when the
/// uid could not be read.
pub fn resolve_user(euid: Option<u32>, uid_map: &HashMap<u32, String>) -> (r: String)
    ensures
        r@ == match euid {
            None => Seq::<char>::empty(),
            Some(u) => if uid_map@.contains_key(u) {
                uid_map@[u]@
            } else {
                decimal(u as nat)
            },
        },
{
    match euid {
        None => String::new(),
        Some(u) => match uid_map.get(&u) {
            Some(name) => name.clone(),
            None => {
                let mut s = String::new();
                push_decimal(&mut s, u as u64);
                s
            },
        },
    }
}

} // verus!
