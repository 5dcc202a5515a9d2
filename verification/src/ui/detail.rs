//! Layout rules of the detail panel: its height, the tones of the state
//! badge and the OOM score, and the texts of the FD and OOM readings.

use vstd::prelude::*;

use crate::app::App;
use crate::format::state_word_text;
use crate::process::Pid;
use crate::text::{decimal, push_char, push_decimal, push_str};
use crate::tree::{views, RowView};

verus! {

/// Outer height for the panel when showing a full process.
pub const PROCESS_HEIGHT: u16 = 13;

/// Outer height for the panel when showing a single thread.
pub const THREAD_HEIGHT: u16 = 10;

/// The position of the first row at or after `from` that shows `pid`, or
/// the number of rows if none does.
pub open spec fn first_row_of(rows: Seq<RowView>, pid: Pid, from: int) -> int
    decreases rows.len() - from,
{
    if from >= rows.len() {
        rows.len() as int
    } else if rows[from].pid == pid {
        from
    } else {
        first_row_of(rows, pid, from + 1)
    }
}

/// Pick the detail-panel height for the currently-selected detail target.
///
/// Threads get a shorter panel because they omit the memory / FDs /
/// environ rows that processes carry.  The fetched detail decides when it
/// is there; before the first fetch the row of the same PID decides; with
/// neither, or with no panel open, the process height applies.
pub fn detail_height(app: &App) -> (r: u16)
    ensures
        r == match app@.detail_pid {
            None => PROCESS_HEIGHT,
            Some(pid) => match app@.detail_info {
                Some(info) => if info.is_thread { THREAD_HEIGHT } else { PROCESS_HEIGHT },
                None => {
                    let k = first_row_of(app@.rows, pid, 0);
                    if k < app@.rows.len() && app@.rows[k].is_thread {
                        THREAD_HEIGHT
                    } else {
                        PROCESS_HEIGHT
                    }
                },
            },
        },
{
    let pid = match app.detail_pid() {
        None => return PROCESS_HEIGHT,
        Some(p) => p,
    };
    if let Some(info) = app.detail_info() {
        return if info.is_thread {
            THREAD_HEIGHT
        } else {
            PROCESS_HEIGHT
        };
    }
    let rows = app.flat_rows();
    let ghost rv = app@.rows;
    let mut i: usize = 0;
    while i < rows.len()
        invariant
            views(rows@) == rv,
            rv == app@.rows,
            app@.detail_pid == Some(pid),
            app@.detail_info is None,
            i <= rows@.len(),
            first_row_of(rv, pid, 0) == first_row_of(rv, pid, i as int),
        decreases rows@.len() - i,
    {
        assert(rv[i as int] == rows@[i as int]@);
        if rows[i].pid() == pid {
            let t = rows[i].is_thread();
            assert(first_row_of(rv, pid, i as int) == i);
            return if t {
                THREAD_HEIGHT
            } else {
                PROCESS_HEIGHT
            };
        }
        i = i + 1;
    }
    PROCESS_HEIGHT
}

/// A display tone; the front end maps each to a colour.
#[derive(Clone, Copy, Debug, PartialEq, Eq, Structural)]
pub enum Tone {
    Green,
    Yellow,
    Magenta,
    Cyan,
    Red,
    White,
}

/// The tone of a kernel state character: green = running, yellow =
/// sleeping or idle, magenta = uninterruptible or paging, cyan = stopped
/// or traced, red = zombie or dead.
pub open spec fn state_tone_of(state: char) -> Tone {
    if state == 'R' {
        Tone::Green
    } else if state == 'S' || state == 'I' {
        Tone::Yellow
    } else if state == 'D' || state == 'K' || state == 'W' {
        Tone::Magenta
    } else if state == 'T' || state == 't' {
        Tone::Cyan
    } else if state == 'Z' || state == 'X' || state == 'x' {
        Tone::Red
    } else {
        Tone::White
    }
}

/// Map a kernel state character to its display tone.
pub fn state_tone(state: char) -> (r: Tone)
    ensures
        r == state_tone_of(state),
{
    match state {
        'R' => Tone::Green,
        'S' | 'I' => Tone::Yellow,
        'D' | 'K' | 'W' => Tone::Magenta,
        'T' | 't' => Tone::Cyan,
        'Z' | 'X' | 'x' => Tone::Red,
        _ => Tone::White,
    }
}

/// The tone of an OOM score (0..=1000): green up to 200, neutral up to
/// 500, yellow up to 800, red above.
pub open spec fn oom_score_tone_of(score: u16) -> Tone {
    if score <= 200 {
        Tone::Green
    } else if score <= 500 {
        Tone::White
    } else if score <= 800 {
        Tone::Yellow
    } else {
        Tone::Red
    }
}

/// OOM score tone: low = neutral, mid = yellow, high = red.
pub fn oom_score_tone(score: u16) -> (r: Tone)
    ensures
        r == oom_score_tone_of(score),
{
    match score {
        0..=200 => Tone::Green,
        201..=500 => Tone::White,
        501..=800 => Tone::Yellow,
        _ => Tone::Red,
    }
}

/// States that the kernel groups together share a tone: stopped and traced
/// tasks are cyan, and only a zombie or dead task is red; running alone is
/// green.
pub proof fn law_state_tones_group_states(a: char, b: char)
    ensures
        (state_tone_of(a) == Tone::Red) == (a == 'Z' || a == 'X' || a == 'x'),
        (state_tone_of(a) == Tone::Cyan) == (a == 'T' || a == 't'),
        (state_tone_of(a) == Tone::Green) == (a == 'R'),
        (a == 'T' || a == 't') && (b == 'T' || b == 't') ==> state_tone_of(a) == state_tone_of(b),
        (a == 'S' || a == 'I') && (b == 'S' || b == 'I') ==> state_tone_of(a) == state_tone_of(b),
        (a == 'D' || a == 'K' || a == 'W') && (b == 'D' || b == 'K' || b == 'W') ==> state_tone_of(a)
            == state_tone_of(b),
{
}

/// The badge's word and its tone tell the same story: a running task is
/// green, sleeping or idle yellow, waiting in the kernel (disk sleep,
/// wakekill, paging) magenta, stopped or traced cyan, zombie or dead red,
/// and an unknown state white.
pub proof fn law_badge_word_matches_tone(c: char)
    ensures
        (state_tone_of(c) == Tone::Green) == (state_word_text(c) == "running"@),
        (state_tone_of(c) == Tone::Yellow) == (state_word_text(c) == "sleeping"@ || state_word_text(c)
            == "idle"@),
        (state_tone_of(c) == Tone::Magenta) == (state_word_text(c) == "disk sleep"@ || state_word_text(c)
            == "wakekill"@ || state_word_text(c) == "paging"@),
        (state_tone_of(c) == Tone::Cyan) == (state_word_text(c) == "stopped"@ || state_word_text(c)
            == "traced"@),
        (state_tone_of(c) == Tone::Red) == (state_word_text(c) == "zombie"@ || state_word_text(c) == "dead"@),
        (state_tone_of(c) == Tone::White) == (state_word_text(c) == "unknown"@),
{
    reveal_strlit("running");
    reveal_strlit("sleeping");
    reveal_strlit("idle");
    reveal_strlit("disk sleep");
    reveal_strlit("stopped");
    reveal_strlit("traced");
    reveal_strlit("zombie");
    reveal_strlit("dead");
    reveal_strlit("wakekill");
    reveal_strlit("paging");
    reveal_strlit("unknown");
    assert("running"@.len() == 7 && "running"@[0] == 'r');
    assert("sleeping"@.len() == 8 && "sleeping"@[0] == 's');
    assert("idle"@.len() == 4 && "idle"@[0] == 'i');
    assert("disk sleep"@.len() == 10 && "disk sleep"@[0] == 'd');
    assert("stopped"@.len() == 7 && "stopped"@[0] == 's');
    assert("traced"@.len() == 6 && "traced"@[0] == 't');
    assert("zombie"@.len() == 6 && "zombie"@[0] == 'z');
    assert("dead"@.len() == 4 && "dead"@[0] == 'd');
    assert("wakekill"@.len() == 8 && "wakekill"@[0] == 'w');
    assert("paging"@.len() == 6 && "paging"@[0] == 'p');
    assert("unknown"@.len() == 7 && "unknown"@[0] == 'u');
}

/// The panel sizes itself by the first row of the open PID: the position
/// found shows that PID and no row before it does; when none does, it is
/// the number of rows.
pub proof fn law_first_row_of_finds_the_first(rows: Seq<RowView>, pid: Pid, from: int)
    requires
        0 <= from <= rows.len(),
    ensures
        from <= first_row_of(rows, pid, from) <= rows.len(),
        first_row_of(rows, pid, from) < rows.len() ==> rows[first_row_of(rows, pid, from)].pid == pid,
        forall|j: int| from <= j < first_row_of(rows, pid, from) ==> rows[j].pid != pid,
    decreases rows.len() - from,
{
    if from < rows.len() && rows[from].pid != pid {
        law_first_row_of_finds_the_first(rows, pid, from + 1);
    }
}

/// How alarming a tone is for an OOM score: green, then neutral, then
/// yellow, then red.
pub open spec fn oom_severity(t: Tone) -> int {
    match t {
        Tone::Green => 0,
        Tone::White => 1,
        Tone::Yellow => 2,
        _ => 3,
    }
}

/// A higher OOM score never gets a calmer tone, and the scale spans all
/// four: 0 is green and the kernel's maximum, 1000, is red.
pub proof fn law_oom_tone_rises_with_score(a: u16, b: u16)
    ensures
        a <= b ==> oom_severity(oom_score_tone_of(a)) <= oom_severity(oom_score_tone_of(b)),
        oom_score_tone_of(0) == Tone::Green,
        oom_score_tone_of(1000) == Tone::Red,
        oom_score_tone_of(a) != Tone::Cyan && oom_score_tone_of(a) != Tone::Magenta,
{
}

/// `n` written with its sign, as `{:+}` writes it: `+0`, `+5`, `-5`.
pub open spec fn signed_text(n: int) -> Seq<char> {
    if n < 0 {
        seq!['-'] + decimal((-n) as nat)
    } else {
        seq!['+'] + decimal(n as nat)
    }
}

/// Open descriptors against the soft limit: `used / limit`, with `∞` for
/// an unlimited one.
pub open spec fn fd_usage_text_of(used: nat, soft_limit: Option<u64>) -> Seq<char> {
    decimal(used) + " / "@ + match soft_limit {
        Some(l) => decimal(l as nat),
        None => "∞"@,
    }
}

/// The FD reading of the detail panel (see `fd_usage_text_of`).
pub fn fd_usage_text(used: usize, soft_limit: Option<u64>) -> (r: String)
    ensures
        r@ == fd_usage_text_of(used as nat, soft_limit),
{
    let mut out = String::new();
    push_decimal(&mut out, used as u64);
    push_str(&mut out, " / ");
    match soft_limit {
        Some(l) => push_decimal(&mut out, l),
        None => push_str(&mut out, "∞"),
    }
    assert(out@ =~= fd_usage_text_of(used as nat, soft_limit));
    out
}

/// The OOM reading: the score with its adjustment in brackets, the score
/// alone when the adjustment is unknown, nothing without a score.
pub open spec fn oom_text_of(score: Option<u16>, adj: Option<i16>) -> Option<Seq<char>> {
    match score {
        Some(s) => match adj {
            Some(a) => Some(decimal(s as nat) + " ("@ + signed_text(a as int) + ")"@),
            None => Some(decimal(s as nat)),
        },
        None => None,
    }
}

/// The OOM reading of the detail panel (see `oom_text_of`).
pub fn oom_text(score: Option<u16>, adj: Option<i16>) -> (r: Option<String>)
    ensures
        match oom_text_of(score, adj) {
            Some(t) => r matches Some(s) && s@ == t,
            None => r is None,
        },
{
    match score {
        None => None,
        Some(s) => {
            let mut out = String::new();
            push_decimal(&mut out, s as u64);
            match adj {
                None => {},
                Some(a) => {
                    push_str(&mut out, " (");
                    let magnitude: u64 = if a < 0 {
                        push_char(&mut out, '-');
                        (-(a as i32)) as u64
                    } else {
                        push_char(&mut out, '+');
                        a as u64
                    };
                    push_decimal(&mut out, magnitude);
                    push_str(&mut out, ")");
                    assert(out@ =~= decimal(s as nat) + " ("@ + signed_text(a as int) + ")"@);
                },
            }
            Some(out)
        },
    }
}

} // verus!
