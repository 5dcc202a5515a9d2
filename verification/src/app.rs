//! Application state — the view model behind the TUI.
//!
//! `App` holds only what the renderer needs: the latest process snapshot,
//! rolling metric history for sparklines, selection/scroll state, and display
//! preferences.  Every change that affects what the table shows re-flattens
//! the snapshot, so the rows, the selection and the scroll offset always
//! agree with the current tree and preferences.

use std::collections::{HashSet, VecDeque};

use vstd::prelude::*;

use crate::format::Percent;
use crate::process::{Node, Pid, ProcessDetail, Tree};
use crate::text::{pop_char, push_char};
use crate::time::{lemma_span_of_millis, span_of_millis, TimeSpan, NANOS_PER_MILLI};
use crate::tree::{flatten, flatten_spec, views, Row, RowView};

verus! {

broadcast use vstd::std_specs::hash::group_hash_axioms;

/// Number of samples each sparkline history keeps.
pub const HISTORY_CAPACITY: usize = 200;

/// Polling-rate adjustment step for the +/- key bindings.
pub const INTERVAL_STEP_MS: u64 = 100;

/// Fastest polling rate.
pub const INTERVAL_MIN_MS: u64 = 100;

/// Slowest polling rate.
pub const INTERVAL_MAX_MS: u64 = 60_000;

/// Number of characters shifted per Left/Right keypress in the tree view.
pub const H_SCROLL_STEP: usize = 4;

/// The last `capacity` elements of `s` (all of `s` if it is shorter).
pub open spec fn window<T>(s: Seq<T>, capacity: nat) -> Seq<T> {
    if s.len() <= capacity {
        s
    } else {
        s.subrange(s.len() - capacity, s.len() as int)
    }
}

/// Bounded ring buffer of `Percent` samples for sparkline graphs.
pub struct History {
    values: VecDeque<Percent>,
    capacity: usize,
}

impl View for History {
    type V = Seq<Percent>;

    /// The stored samples, oldest first.
    closed spec fn view(&self) -> Seq<Percent> {
        self.values@
    }
}

impl History {
    pub closed spec fn spec_capacity(&self) -> nat {
        self.capacity as nat
    }

    /// The buffer never holds more samples than its capacity allows.
    pub open spec fn wf(&self) -> bool {
        self@.len() <= self.spec_capacity()
    }

    /// An empty history that keeps at most `capacity` samples.
    pub fn new(capacity: usize) -> (r: Self)
        ensures
            r@ == Seq::<Percent>::empty(),
            r.spec_capacity() == capacity,
            r.wf(),
    {
        Self { values: VecDeque::new(), capacity }
    }

    /// Record a sample, dropping the oldest one once the buffer is full.
    pub fn push(&mut self, p: Percent)
        requires
            old(self).wf(),
        ensures
            final(self)@ == window(old(self)@.push(p), old(self).spec_capacity()),
            final(self).spec_capacity() == old(self).spec_capacity(),
            final(self).wf(),
    {
        self.values.push_back(p);
        if self.values.len() > self.capacity {
            let _ = self.values.pop_front();
        }
        proof {
            let s = old(self)@.push(p);
            if s.len() > self.capacity {
                assert(self.values@ =~= s.subrange(s.len() - self.capacity, s.len() as int));
            }
        }
    }

    /// The stored samples, oldest first.
    pub fn iter(&self) -> (r: Vec<Percent>)
        ensures
            r@ == self@,
    {
        let mut out: Vec<Percent> = Vec::new();
        let n = self.values.len();
        let mut i: usize = 0;
        while i < n
            invariant
                n == self.values@.len(),
                i <= n,
                out@ == self.values@.take(i as int),
            decreases n - i,
        {
            out.push(self.values[i]);
            i = i + 1;
            assert(out@ =~= self.values@.take(i as int));
        }
        assert(self.values@.take(n as int) =~= self.values@);
        out
    }

    pub fn len(&self) -> (r: usize)
        ensures
            r == self@.len(),
    {
        self.values.len()
    }

    pub fn is_empty(&self) -> (r: bool)
        ensures
            r == (self@.len() == 0),
    {
        self.values.len() == 0
    }
}

/// Pushing onto a window of the history so far keeps the same window as
/// pushing onto the whole history: a bounded history always holds the
/// latest `capacity` samples ever pushed.
pub proof fn law_window_push<T>(s: Seq<T>, x: T, capacity: nat)
    ensures
        window(window(s, capacity).push(x), capacity) =~= window(s.push(x), capacity),
{
}

/// A bounded history keeps the newest samples: after a push the newest
/// sample is last, the history holds as many samples as were pushed up to
/// its capacity, nothing is dropped below capacity, and the samples kept
/// are the latest ones in the order they came.
pub proof fn law_window_keeps_newest<T>(s: Seq<T>, x: T, capacity: nat)
    requires
        capacity > 0,
    ensures
        window(s.push(x), capacity).last() == x,
        window(s.push(x), capacity).len() == if s.len() + 1 <= capacity { s.len() + 1 } else { capacity },
        s.len() < capacity ==> window(s.push(x), capacity) == s.push(x),
        forall|i: int|
            0 <= i < window(s.push(x), capacity).len() ==> #[trigger] window(s.push(x), capacity)[i]
                == s.push(x)[s.len() + 1 - window(s.push(x), capacity).len() + i],
{
}

/// Every field of the view model, as mathematical values.
pub struct AppView {
    pub root: Option<Tree>,
    pub name: Seq<char>,
    pub rows: Seq<RowView>,
    pub selected: usize,
    pub table_offset: usize,
    pub table_selected: Option<usize>,
    pub show_threads: bool,
    pub exited: bool,
    pub visible_rows: usize,
    pub collapsed: Set<i32>,
    pub cpu_history: Seq<Percent>,
    pub mem_history: Seq<Percent>,
    pub cpu_count: usize,
    pub interval: TimeSpan,
    pub h_scroll: usize,
    pub detail_pid: Option<Pid>,
    pub detail_info: Option<ProcessDetail>,
    pub filter: Seq<char>,
    pub filter_input: bool,
}

/// The scroll offset one step further right, saturating at `usize::MAX`.
pub open spec fn scrolled_right(h: usize) -> usize {
    if h + H_SCROLL_STEP <= usize::MAX {
        (h + H_SCROLL_STEP) as usize
    } else {
        usize::MAX
    }
}

/// The scroll offset one step further left, saturating at zero.
pub open spec fn scrolled_left(h: usize) -> usize {
    if h >= H_SCROLL_STEP {
        (h - H_SCROLL_STEP) as usize
    } else {
        0
    }
}

/// The interval, in milliseconds, one step slower, capped at the maximum.
pub open spec fn stepped_up(ms: nat) -> nat {
    if ms + INTERVAL_STEP_MS > INTERVAL_MAX_MS {
        INTERVAL_MAX_MS as nat
    } else {
        (ms + INTERVAL_STEP_MS) as nat
    }
}

/// The interval, in milliseconds, one step faster, floored at the minimum.
pub open spec fn stepped_down(ms: nat) -> nat {
    if ms < INTERVAL_MIN_MS + INTERVAL_STEP_MS {
        INTERVAL_MIN_MS as nat
    } else {
        (ms - INTERVAL_STEP_MS) as nat
    }
}

/// The interval in whole milliseconds.
pub open spec fn millis_of(t: TimeSpan) -> nat {
    t@ / (NANOS_PER_MILLI as nat)
}

/// A polling interval the +/- keys can produce: a whole number of
/// milliseconds between the minimum and the maximum.
pub open spec fn interval_ok(t: TimeSpan) -> bool {
    &&& t@ % (NANOS_PER_MILLI as nat) == 0
    &&& INTERVAL_MIN_MS <= millis_of(t) <= INTERVAL_MAX_MS
}

/// `ms` clamped into the supported interval range.
pub open spec fn clamp_ms(ms: int) -> int {
    if ms < INTERVAL_MIN_MS {
        INTERVAL_MIN_MS as int
    } else if ms > INTERVAL_MAX_MS {
        INTERVAL_MAX_MS as int
    } else {
        ms
    }
}

/// The selection after the row list changed length: pulled back onto the
/// last row if it fell off the end.
pub open spec fn clamp_selection(selected: usize, len: nat) -> usize {
    if len > 0 && selected >= len {
        (len - 1) as usize
    } else {
        selected
    }
}

/// The first visible row after scrolling just far enough to show `selected`
/// in a window of `visible` rows that starts at `offset`.
pub open spec fn scrolled_offset(offset: usize, selected: usize, visible: usize) -> usize {
    if selected < offset {
        selected
    } else if selected - offset >= visible {
        (selected + 1 - visible) as usize
    } else {
        offset
    }
}

/// The table scroll state brought in line with the selection.  Nothing
/// moves while no rows are visible.
pub open spec fn synced(v: AppView) -> AppView {
    if v.visible_rows == 0 {
        v
    } else {
        AppView {
            table_offset: scrolled_offset(v.table_offset, v.selected, v.visible_rows),
            table_selected: Some(v.selected),
            ..v
        }
    }
}

/// The state after re-flattening the snapshot under the current
/// preferences, re-clamping the selection and re-syncing the scroll.
pub open spec fn refreshed(v: AppView) -> AppView {
    let rows = match v.root {
        Some(t) => flatten_spec(t, v.show_threads, v.collapsed, v.filter),
        None => v.rows,
    };
    synced(AppView { rows, selected: clamp_selection(v.selected, rows.len()), ..v })
}

/// The rows on screen are exactly the flattening of the current snapshot
/// under the current preferences.
pub open spec fn rows_current(v: AppView) -> bool {
    match v.root {
        Some(t) => v.rows == flatten_spec(t, v.show_threads, v.collapsed, v.filter),
        None => v.rows.len() == 0,
    }
}

pub struct App {
    root: Option<Tree>,
    /// Name of the observed root process; displayed in the header title.
    name: String,
    flat_rows: Vec<Row>,
    /// Index into `flat_rows` for keyboard selection.
    selected: usize,
    /// First row of the table viewport.
    table_offset: usize,
    /// Row the table highlights.
    table_selected: Option<usize>,
    show_threads: bool,
    /// Set to `true` when the monitored PID has disappeared.
    exited: bool,
    /// Number of tree rows currently visible on screen; set by the renderer.
    visible_rows: usize,
    /// PIDs whose subtrees are collapsed in the tree view.
    collapsed: HashSet<i32>,
    /// CPU% per sample — feeds the header sparkline.
    cpu_history: History,
    /// MEM% per sample — feeds the header sparkline.
    mem_history: History,
    /// Total logical CPU count.
    cpu_count: usize,
    /// Current sampling interval, adjustable via the +/- keys.
    interval: TimeSpan,
    /// Horizontal scroll offset (in characters) applied to the Command column.
    h_scroll: usize,
    /// PID currently shown in the detail panel; `None` when the panel is hidden.
    detail_pid: Option<Pid>,
    /// Last fetched detail data for `detail_pid`.  Cleared when the panel closes.
    detail_info: Option<ProcessDetail>,
    /// Case-insensitive substring filter applied to the tree.  Empty = no filter.
    filter: String,
    /// `true` while the user is typing into the filter buffer.
    filter_input: bool,
}

impl View for App {
    type V = AppView;

    closed spec fn view(&self) -> AppView {
        AppView {
            root: self.root,
            name: self.name@,
            rows: views(self.flat_rows@),
            selected: self.selected,
            table_offset: self.table_offset,
            table_selected: self.table_selected,
            show_threads: self.show_threads,
            exited: self.exited,
            visible_rows: self.visible_rows,
            collapsed: self.collapsed@,
            cpu_history: self.cpu_history@,
            mem_history: self.mem_history@,
            cpu_count: self.cpu_count,
            interval: self.interval,
            h_scroll: self.h_scroll,
            detail_pid: self.detail_pid,
            detail_info: self.detail_info,
            filter: self.filter@,
            filter_input: self.filter_input,
        }
    }
}

impl App {
    /// The internal invariant: both histories are bounded by
    /// `HISTORY_CAPACITY`, the interval is one the +/- keys can produce,
    /// there is at least one CPU, the rows reflect the snapshot, and the
    /// selection indexes a row whenever there are rows.
    pub closed spec fn wf(&self) -> bool {
        &&& self.cpu_history.wf()
        &&& self.mem_history.wf()
        &&& self.cpu_history.spec_capacity() == HISTORY_CAPACITY
        &&& self.mem_history.spec_capacity() == HISTORY_CAPACITY
        &&& interval_ok(self.interval)
        &&& self.cpu_count >= 1
        &&& rows_current(self@)
        &&& self@.rows.len() > 0 ==> self.selected < self@.rows.len()
    }

    /// What the invariant promises about the visible state: bounded
    /// histories, an interval the +/- keys can produce, at least one CPU,
    /// rows that reflect the snapshot, and a selection on a row whenever
    /// there are rows.
    pub proof fn law_state_invariant(&self)
        requires
            self.wf(),
        ensures
            self@.cpu_history.len() <= HISTORY_CAPACITY,
            self@.mem_history.len() <= HISTORY_CAPACITY,
            interval_ok(self@.interval),
            self@.cpu_count >= 1,
            rows_current(self@),
            self@.rows.len() > 0 ==> self@.selected < self@.rows.len(),
    {
    }

    pub fn new(show_threads: bool, cpu_count: usize, interval: TimeSpan) -> (r: Self)
        ensures
            r.wf(),
            r@ == (AppView {
                root: None,
                name: Seq::empty(),
                rows: Seq::empty(),
                selected: 0,
                table_offset: 0,
                table_selected: None,
                show_threads,
                exited: false,
                visible_rows: 20,
                collapsed: Set::empty(),
                cpu_history: Seq::empty(),
                mem_history: Seq::empty(),
                cpu_count: if cpu_count >= 1 { cpu_count } else { 1 },
                interval: r@.interval,
                h_scroll: 0,
                detail_pid: None,
                detail_info: None,
                filter: Seq::empty(),
                filter_input: false,
            }),
            r@.interval@ == clamp_ms((interval@ / (NANOS_PER_MILLI as nat)) as u64 as int)
                * NANOS_PER_MILLI,
    {
        let flat_rows: Vec<Row> = Vec::new();
        let app = Self {
            root: None,
            name: String::new(),
            flat_rows,
            selected: 0,
            table_offset: 0,
            table_selected: None,
            show_threads,
            exited: false,
            visible_rows: 20,
            collapsed: HashSet::new(),
            cpu_history: History::new(HISTORY_CAPACITY),
            mem_history: History::new(HISTORY_CAPACITY),
            cpu_count: if cpu_count >= 1 { cpu_count } else { 1 },
            interval: clamp_interval(interval),
            h_scroll: 0,
            detail_pid: None,
            detail_info: None,
            filter: String::new(),
            filter_input: false,
        };
        assert(app@.rows =~= Seq::<RowView>::empty());
        app
    }
}

impl App {
    // --- Read accessors ---

    pub fn root(&self) -> (r: Option<&Node>)
        ensures
            r is Some <==> (self@.root matches Some(t) && t.spec_nodes().len() > 0),
            r matches Some(n) ==> (self@.root matches Some(t) && *n == t.spec_nodes()[0]),
    {
        match &self.root {
            Some(t) => t.root(),
            None => None,
        }
    }

    pub fn name(&self) -> (r: &str)
        ensures
            r@ == self@.name,
    {
        self.name.as_str()
    }

    pub fn flat_rows(&self) -> (r: &[Row])
        ensures
            views(r@) == self@.rows,
    {
        self.flat_rows.as_slice()
    }

    pub fn selected(&self) -> (r: usize)
        ensures
            r == self@.selected,
    {
        self.selected
    }

    pub fn show_threads(&self) -> (r: bool)
        ensures
            r == self@.show_threads,
    {
        self.show_threads
    }

    pub fn exited(&self) -> (r: bool)
        ensures
            r == self@.exited,
    {
        self.exited
    }

    pub fn cpu_history(&self) -> (r: &History)
        ensures
            r@ == self@.cpu_history,
    {
        &self.cpu_history
    }

    pub fn mem_history(&self) -> (r: &History)
        ensures
            r@ == self@.mem_history,
    {
        &self.mem_history
    }

    pub fn cpu_count(&self) -> (r: usize)
        ensures
            r == self@.cpu_count,
    {
        self.cpu_count
    }

    pub fn interval(&self) -> (r: TimeSpan)
        ensures
            r == self@.interval,
    {
        self.interval
    }

    pub fn h_scroll(&self) -> (r: usize)
        ensures
            r == self@.h_scroll,
    {
        self.h_scroll
    }

    pub fn detail_pid(&self) -> (r: Option<Pid>)
        ensures
            r == self@.detail_pid,
    {
        self.detail_pid
    }

    pub fn detail_info(&self) -> (r: Option<&ProcessDetail>)
        ensures
            r is Some <==> self@.detail_info is Some,
            r matches Some(d) ==> self@.detail_info == Some(*d),
    {
        match &self.detail_info {
            Some(d) => Some(d),
            None => None,
        }
    }

    pub fn filter(&self) -> (r: &str)
        ensures
            r@ == self@.filter,
    {
        self.filter.as_str()
    }

    pub fn filter_input(&self) -> (r: bool)
        ensures
            r == self@.filter_input,
    {
        self.filter_input
    }

    /// First row of the table viewport.
    pub fn table_offset(&self) -> (r: usize)
        ensures
            r == self@.table_offset,
    {
        self.table_offset
    }

    /// Row the table highlights.
    pub fn table_selected(&self) -> (r: Option<usize>)
        ensures
            r == self@.table_selected,
    {
        self.table_selected
    }

    /// Record the viewport offset the table widget settled on while drawing.
    pub fn set_table_offset(&mut self, offset: usize)
        requires
            old(self).wf(),
        ensures
            final(self).wf(),
            final(self)@ == (AppView { table_offset: offset, ..old(self)@ }),
    {
        self.table_offset = offset;
    }

    // --- Scroll and interval controls ---

    /// Shift the command column rightward.  Saturates at the top of the
    /// range; the renderer applies a per-frame upper bound.
    pub fn scroll_right(&mut self)
        requires
            old(self).wf(),
        ensures
            final(self).wf(),
            final(self)@ == (AppView {
                h_scroll: scrolled_right(old(self)@.h_scroll),
                ..old(self)@
            }),
    {
        self.h_scroll = self.h_scroll.saturating_add(H_SCROLL_STEP);
    }

    /// Shift the command column leftward.  Saturates at zero.
    pub fn scroll_left(&mut self)
        requires
            old(self).wf(),
        ensures
            final(self).wf(),
            final(self)@ == (AppView {
                h_scroll: scrolled_left(old(self)@.h_scroll),
                ..old(self)@
            }),
    {
        self.h_scroll = self.h_scroll.saturating_sub(H_SCROLL_STEP);
    }

    /// Cap `h_scroll` to a renderer-supplied maximum offset.
    pub fn clamp_h_scroll(&mut self, max: usize)
        requires
            old(self).wf(),
        ensures
            final(self).wf(),
            final(self)@ == (AppView {
                h_scroll: if old(self)@.h_scroll > max { max } else { old(self)@.h_scroll },
                ..old(self)@
            }),
    {
        if self.h_scroll > max {
            self.h_scroll = max;
        }
    }

    /// Increase the sampling interval by one step (slower polling).
    /// Returns `true` if the value changed.
    pub fn step_interval_up(&mut self) -> (changed: bool)
        requires
            old(self).wf(),
        ensures
            final(self).wf(),
            ({
                let ms = millis_of(old(self)@.interval);
                let next = stepped_up(ms);
                &&& changed == (next != ms)
                &&& millis_of(final(self)@.interval) == next
                &&& final(self)@ == (AppView { interval: span_of_millis(next), ..old(self)@ })
            }),
    {
        proof {
            TimeSpan::lemma_view_eq(self.interval, self.interval);
        }
        let whole = self.interval.as_millis();
        assert(whole <= INTERVAL_MAX_MS);
        let ms = whole as u64;
        let next_ms = ms.saturating_add(INTERVAL_STEP_MS);
        let new = TimeSpan::from_millis(if next_ms < INTERVAL_MAX_MS { next_ms } else { INTERVAL_MAX_MS });
        proof {
            let m = if next_ms < INTERVAL_MAX_MS { next_ms } else { INTERVAL_MAX_MS };
            assert(new@ % (NANOS_PER_MILLI as nat) == 0 && new@ / (NANOS_PER_MILLI as nat) == m) by (nonlinear_arith)
                requires
                    new@ == m * NANOS_PER_MILLI,
            ;
        }
        proof {
            TimeSpan::lemma_view_eq(new, self.interval);
        }
        if new != self.interval {
            self.interval = new;
            true
        } else {
            false
        }
    }

    /// Decrease the sampling interval by one step (faster polling).
    /// Returns `true` if the value changed.
    pub fn step_interval_down(&mut self) -> (changed: bool)
        requires
            old(self).wf(),
        ensures
            final(self).wf(),
            ({
                let ms = millis_of(old(self)@.interval);
                let next = stepped_down(ms);
                &&& changed == (next != ms)
                &&& millis_of(final(self)@.interval) == next
                &&& final(self)@ == (AppView { interval: span_of_millis(next), ..old(self)@ })
            }),
    {
        proof {
            TimeSpan::lemma_view_eq(self.interval, self.interval);
        }
        let whole = self.interval.as_millis();
        assert(whole <= INTERVAL_MAX_MS);
        let current_ms = whole as u64;
        let next_ms = current_ms.saturating_sub(INTERVAL_STEP_MS);
        let new = TimeSpan::from_millis(if next_ms > INTERVAL_MIN_MS { next_ms } else { INTERVAL_MIN_MS });
        proof {
            let m = if next_ms > INTERVAL_MIN_MS { next_ms } else { INTERVAL_MIN_MS };
            assert(new@ % (NANOS_PER_MILLI as nat) == 0 && new@ / (NANOS_PER_MILLI as nat) == m) by (nonlinear_arith)
                requires
                    new@ == m * NANOS_PER_MILLI,
            ;
        }
        proof {
            TimeSpan::lemma_view_eq(new, self.interval);
        }
        if new != self.interval {
            self.interval = new;
            true
        } else {
            false
        }
    }

    /// Update how many tree rows are visible on screen.
    pub fn set_visible_rows(&mut self, n: usize)
        requires
            old(self).wf(),
        ensures
            final(self).wf(),
            final(self)@ == (AppView { visible_rows: n, ..old(self)@ }),
    {
        self.visible_rows = n;
    }

    /// Bring the table viewport in line with the selection: scroll just far
    /// enough that the selected row is inside the visible window.
    fn sync_scroll(&mut self)
        ensures
            final(self)@ == synced(old(self)@),
            final(self).same_inner(*old(self)),
    {
        if self.visible_rows == 0 {
            return;
        }
        let offset = self.table_offset;
        if self.selected < offset {
            self.table_offset = self.selected;
        } else if self.selected - offset >= self.visible_rows {
            self.table_offset = self.selected - self.visible_rows + 1;
        }
        self.table_selected = Some(self.selected);
    }

    /// The fields the view does not expose are unchanged.
    closed spec fn same_inner(&self, other: App) -> bool {
        &&& self.cpu_history.spec_capacity() == other.cpu_history.spec_capacity()
        &&& self.mem_history.spec_capacity() == other.mem_history.spec_capacity()
    }

    /// Re-flatten the snapshot under the current preferences and filter,
    /// then re-clamp the selection and re-sync the scroll offset.
    fn refresh_rows(&mut self)
        ensures
            final(self)@ == refreshed(old(self)@),
            final(self).same_inner(*old(self)),
    {
        if let Some(tree) = &self.root {
            self.flat_rows = flatten(tree, self.show_threads, &self.collapsed, self.filter.as_str());
        }
        if self.flat_rows.len() > 0 && self.selected >= self.flat_rows.len() {
            self.selected = self.flat_rows.len() - 1;
        }
        self.sync_scroll();
    }
}

/// The snapshot after a refresh: the rows reflect it and the selection
/// indexes a row whenever there are rows.
proof fn lemma_refreshed_consistent(v: AppView)
    requires
        v.root is None ==> v.rows.len() == 0,
    ensures
        rows_current(refreshed(v)),
        refreshed(v).rows.len() > 0 ==> refreshed(v).selected < refreshed(v).rows.len(),
{
}

/// The PID set after toggling `pid`: removed if present, added otherwise.
pub open spec fn toggled(s: Set<i32>, pid: i32) -> Set<i32> {
    if s.contains(pid) {
        s.remove(pid)
    } else {
        s.insert(pid)
    }
}

impl App {
    // --- State mutation methods ---

    /// Replace the current snapshot with a freshly collected one: the root's
    /// name becomes the title, its CPU% and MEM% join the histories, and
    /// the rows are re-flattened.  A tree without a root changes nothing.
    pub fn apply_snapshot(&mut self, tree: Tree)
        requires
            old(self).wf(),
        ensures
            final(self).wf(),
            tree.spec_nodes().len() == 0 ==> final(self)@ == old(self)@,
            tree.spec_nodes().len() > 0 ==> final(self)@ == refreshed(
                AppView {
                    root: Some(tree),
                    name: tree.spec_nodes()[0].spec_name(),
                    cpu_history: window(
                        old(self)@.cpu_history.push(tree.spec_nodes()[0].spec_cpu_pct()),
                        HISTORY_CAPACITY as nat,
                    ),
                    mem_history: window(
                        old(self)@.mem_history.push(tree.spec_nodes()[0].spec_mem_pct()),
                        HISTORY_CAPACITY as nat,
                    ),
                    ..old(self)@
                },
            ),
    {
        let (name, cpu, mem) = match tree.root() {
            None => return ,
            Some(root) => (root.name().to_owned(), root.cpu_pct(), root.mem_pct()),
        };
        self.name = name;
        self.cpu_history.push(cpu);
        self.mem_history.push(mem);
        self.root = Some(tree);
        proof {
            lemma_refreshed_consistent(self@);
        }
        self.refresh_rows();
    }

    pub fn mark_exited(&mut self)
        requires
            old(self).wf(),
        ensures
            final(self).wf(),
            final(self)@ == (AppView { exited: true, ..old(self)@ }),
    {
        self.exited = true;
    }

    /// Move the selection one row up (not past the first row).
    pub fn move_up(&mut self)
        requires
            old(self).wf(),
        ensures
            final(self).wf(),
            final(self)@ == synced(
                AppView {
                    selected: if old(self)@.selected > 0 {
                        (old(self)@.selected - 1) as usize
                    } else {
                        0
                    },
                    ..old(self)@
                },
            ),
    {
        self.selected = self.selected.saturating_sub(1);
        self.sync_scroll();
    }

    /// Move the selection one row down (not past the last row).
    pub fn move_down(&mut self)
        requires
            old(self).wf(),
        ensures
            final(self).wf(),
            final(self)@ == synced(
                AppView {
                    selected: if old(self)@.rows.len() > 0 && old(self)@.selected + 1 < old(
                        self,
                    )@.rows.len() {
                        (old(self)@.selected + 1) as usize
                    } else if old(self)@.rows.len() > 0 {
                        (old(self)@.rows.len() - 1) as usize
                    } else {
                        old(self)@.selected
                    },
                    ..old(self)@
                },
            ),
    {
        if self.flat_rows.len() > 0 {
            let last = self.flat_rows.len() - 1;
            self.selected = if self.selected + 1 < last {
                self.selected + 1
            } else {
                last
            };
        }
        self.sync_scroll();
    }

    /// Jump the selection to the first visible row.
    pub fn move_to_top(&mut self)
        requires
            old(self).wf(),
        ensures
            final(self).wf(),
            final(self)@ == synced(AppView { selected: 0, ..old(self)@ }),
    {
        self.selected = 0;
        self.sync_scroll();
    }

    /// Jump the selection to the last visible row.
    pub fn move_to_bottom(&mut self)
        requires
            old(self).wf(),
        ensures
            final(self).wf(),
            final(self)@ == synced(
                AppView {
                    selected: if old(self)@.rows.len() > 0 {
                        (old(self)@.rows.len() - 1) as usize
                    } else {
                        old(self)@.selected
                    },
                    ..old(self)@
                },
            ),
    {
        if self.flat_rows.len() > 0 {
            self.selected = self.flat_rows.len() - 1;
        }
        self.sync_scroll();
    }

    /// Reset the horizontal scroll to the leftmost position.
    pub fn scroll_to_start(&mut self)
        requires
            old(self).wf(),
        ensures
            final(self).wf(),
            final(self)@ == (AppView { h_scroll: 0, ..old(self)@ }),
    {
        self.h_scroll = 0;
    }

    /// Park the horizontal scroll at the rightmost position by
    /// overshooting; the renderer's next `clamp_h_scroll` reduces it.
    pub fn scroll_to_end(&mut self)
        requires
            old(self).wf(),
        ensures
            final(self).wf(),
            final(self)@ == (AppView { h_scroll: usize::MAX, ..old(self)@ }),
    {
        self.h_scroll = usize::MAX;
    }

    /// Toggle thread visibility using the already-cached snapshot.
    pub fn toggle_threads(&mut self)
        requires
            old(self).wf(),
        ensures
            final(self).wf(),
            final(self)@ == refreshed(AppView { show_threads: !old(self)@.show_threads, ..old(self)@ }),
    {
        self.show_threads = !self.show_threads;
        proof {
            lemma_refreshed_consistent(self@);
        }
        self.refresh_rows();
    }

    /// Toggle collapse state of the currently selected node's subtree.
    pub fn toggle_collapse(&mut self)
        requires
            old(self).wf(),
        ensures
            final(self).wf(),
            old(self)@.selected < old(self)@.rows.len() ==> final(self)@ == refreshed(
                AppView {
                    collapsed: toggled(
                        old(self)@.collapsed,
                        old(self)@.rows[old(self)@.selected as int].pid@,
                    ),
                    ..old(self)@
                },
            ),
            old(self)@.selected >= old(self)@.rows.len() ==> final(self)@ == old(self)@,
    {
        if self.selected < self.flat_rows.len() {
            let pid = self.flat_rows[self.selected].pid().get();
            assert(pid == old(self)@.rows[old(self)@.selected as int].pid@);
            let ghost before = self.collapsed@;
            if !self.collapsed.remove(&pid) {
                self.collapsed.insert(pid);
                assert(self.collapsed@ =~= toggled(before, pid));
            } else {
                assert(self.collapsed@ =~= toggled(before, pid));
            }
            proof {
                lemma_refreshed_consistent(self@);
            }
            self.refresh_rows();
        }
    }

    /// Toggle the detail panel for the currently selected row.
    ///
    /// If the panel already shows the selected PID it closes and `None`
    /// comes back; otherwise it opens for the selected PID, which comes
    /// back so the caller can fetch its detail.  With no selected row
    /// nothing changes.
    pub fn toggle_detail(&mut self) -> (r: Option<Pid>)
        requires
            old(self).wf(),
        ensures
            final(self).wf(),
            old(self)@.selected >= old(self)@.rows.len() ==> r is None && final(self)@ == old(self)@,
            old(self)@.selected < old(self)@.rows.len() ==> ({
                let pid = old(self)@.rows[old(self)@.selected as int].pid;
                if old(self)@.detail_pid == Some(pid) {
                    &&& r is None
                    &&& final(self)@ == (AppView { detail_pid: None, detail_info: None, ..old(self)@ })
                } else {
                    &&& r == Some(pid)
                    &&& final(self)@ == (AppView {
                        detail_pid: Some(pid),
                        detail_info: None,
                        ..old(self)@
                    })
                }
            }),
    {
        if self.selected < self.flat_rows.len() {
            let pid = self.flat_rows[self.selected].pid();
            let same = match self.detail_pid {
                Some(open) => open == pid,
                None => false,
            };
            if same {
                self.detail_pid = None;
                self.detail_info = None;
                None
            } else {
                self.detail_pid = Some(pid);
                self.detail_info = None;
                Some(pid)
            }
        } else {
            None
        }
    }

    /// Store freshly fetched detail info for the currently open panel.
    pub fn set_detail_info(&mut self, info: ProcessDetail)
        requires
            old(self).wf(),
        ensures
            final(self).wf(),
            final(self)@ == (AppView { detail_info: Some(info), ..old(self)@ }),
    {
        self.detail_info = Some(info);
    }

    /// Enter filter-input mode without touching the current filter text.
    pub fn enter_filter_input(&mut self)
        requires
            old(self).wf(),
        ensures
            final(self).wf(),
            final(self)@ == (AppView { filter_input: true, ..old(self)@ }),
    {
        self.filter_input = true;
    }

    /// Leave filter-input mode; the filter itself stays in effect.
    pub fn exit_filter_input(&mut self)
        requires
            old(self).wf(),
        ensures
            final(self).wf(),
            final(self)@ == (AppView { filter_input: false, ..old(self)@ }),
    {
        self.filter_input = false;
    }

    /// Append a character to the filter and re-flatten the tree.
    pub fn push_filter_char(&mut self, c: char)
        requires
            old(self).wf(),
        ensures
            final(self).wf(),
            final(self)@ == refreshed(AppView { filter: old(self)@.filter.push(c), ..old(self)@ }),
    {
        push_char(&mut self.filter, c);
        proof {
            lemma_refreshed_consistent(self@);
        }
        self.refresh_rows();
    }

    /// Remove the last character of the filter and re-flatten; nothing
    /// happens when the filter is empty.
    pub fn pop_filter_char(&mut self)
        requires
            old(self).wf(),
        ensures
            final(self).wf(),
            old(self)@.filter.len() == 0 ==> final(self)@ == old(self)@,
            old(self)@.filter.len() > 0 ==> final(self)@ == refreshed(
                AppView { filter: old(self)@.filter.drop_last(), ..old(self)@ },
            ),
    {
        if pop_char(&mut self.filter).is_some() {
            proof {
                lemma_refreshed_consistent(self@);
            }
            self.refresh_rows();
        }
    }

    /// Clear the filter and leave input mode.  Returns `true` if anything
    /// changed (the filter was non-empty or input mode was active); only
    /// then is the tree re-flattened.
    pub fn clear_filter(&mut self) -> (changed: bool)
        requires
            old(self).wf(),
        ensures
            final(self).wf(),
            changed == (old(self)@.filter.len() > 0 || old(self)@.filter_input),
            !changed ==> final(self)@ == old(self)@,
            changed ==> final(self)@ == refreshed(
                AppView { filter: Seq::empty(), filter_input: false, ..old(self)@ },
            ),
    {
        let changed = !self.filter.as_str().is_empty() || self.filter_input;
        self.filter = String::new();
        self.filter_input = false;
        if changed {
            proof {
                lemma_refreshed_consistent(self@);
            }
            self.refresh_rows();
        } else {
            assert(self@.filter =~= old(self)@.filter);
            assert(self@ == old(self)@);
        }
        changed
    }

    /// Close the detail panel if it is open.  Returns `true` if it was open.
    pub fn close_detail(&mut self) -> (was_open: bool)
        requires
            old(self).wf(),
        ensures
            final(self).wf(),
            was_open == old(self)@.detail_pid is Some,
            was_open ==> final(self)@ == (AppView { detail_pid: None, detail_info: None, ..old(self)@ }),
            !was_open ==> final(self)@ == old(self)@,
    {
        if self.detail_pid.is_some() {
            self.detail_pid = None;
            self.detail_info = None;
            true
        } else {
            false
        }
    }
}

// --- Input events ---

/// A key the monitor reacts to, as the terminal reported it.
#[derive(Clone, Copy, Debug, PartialEq, Eq, Structural)]
pub enum KeyPress {
    Char(char),
    Backspace,
    Enter,
    Delete,
    Esc,
    Up,
    Down,
    Left,
    Right,
    Other,
}

/// What the event loop has to do after a key was handled.
#[derive(Clone, Copy, Debug, PartialEq, Eq, Structural)]
pub enum KeyEffect {
    /// Redraw and wait for the next event.
    Continue,
    /// Leave the monitor.
    Quit,
    /// The detail panel opened for this PID: fetch its detail.
    FetchDetail(Pid),
    /// The polling interval changed to this span: tell the sampler.
    PublishInterval(TimeSpan),
}

/// The selection one row up, with the scroll re-synced.
pub open spec fn moved_up(v: AppView) -> AppView {
    synced(AppView { selected: if v.selected > 0 { (v.selected - 1) as usize } else { 0 }, ..v })
}

/// The selection one row down (pulled back onto the last row), with the
/// scroll re-synced.
pub open spec fn moved_down(v: AppView) -> AppView {
    synced(
        AppView {
            selected: if v.rows.len() > 0 && v.selected + 1 < v.rows.len() {
                (v.selected + 1) as usize
            } else if v.rows.len() > 0 {
                (v.rows.len() - 1) as usize
            } else {
                v.selected
            },
            ..v
        },
    )
}

/// The selection on the last row, with the scroll re-synced.
pub open spec fn moved_to_bottom(v: AppView) -> AppView {
    synced(
        AppView {
            selected: if v.rows.len() > 0 { (v.rows.len() - 1) as usize } else { v.selected },
            ..v
        },
    )
}

/// The selected row's subtree collapsed or expanded; nothing without a
/// selected row.
pub open spec fn collapse_toggled(v: AppView) -> AppView {
    if v.selected < v.rows.len() {
        refreshed(AppView { collapsed: toggled(v.collapsed, v.rows[v.selected as int].pid@), ..v })
    } else {
        v
    }
}

/// The detail panel closed if it showed the selected row, else opened for
/// it; nothing without a selected row.
pub open spec fn detail_toggled(v: AppView) -> AppView {
    if v.selected < v.rows.len() {
        let pid = v.rows[v.selected as int].pid;
        if v.detail_pid == Some(pid) {
            AppView { detail_pid: None, detail_info: None, ..v }
        } else {
            AppView { detail_pid: Some(pid), detail_info: None, ..v }
        }
    } else {
        v
    }
}

/// The detail panel closed, if it was open.
pub open spec fn detail_closed(v: AppView) -> AppView {
    if v.detail_pid is Some {
        AppView { detail_pid: None, detail_info: None, ..v }
    } else {
        v
    }
}

/// The last filter character removed, if there is one.
pub open spec fn filter_popped(v: AppView) -> AppView {
    if v.filter.len() > 0 {
        refreshed(AppView { filter: v.filter.drop_last(), ..v })
    } else {
        v
    }
}

/// The filter emptied and the prompt closed, if either was in use.
pub open spec fn filter_cleared(v: AppView) -> AppView {
    if v.filter.len() > 0 || v.filter_input {
        refreshed(AppView { filter: Seq::empty(), filter_input: false, ..v })
    } else {
        v
    }
}

/// The interval set to `ms` milliseconds.
pub open spec fn with_interval(v: AppView, ms: nat) -> AppView {
    AppView { interval: span_of_millis(ms), ..v }
}

/// The view state after `key` (with Ctrl held when `ctrl`).  The prompt
/// arms come first: while the filter prompt is open, characters,
/// Backspace and Enter edit the filter.  Esc leaves the prompt, else
/// closes the detail panel; otherwise (like `q`) it leaves the state as it
/// is and the loop quits.
pub open spec fn key_state(v: AppView, key: KeyPress, ctrl: bool) -> AppView {
    match key {
        KeyPress::Char(c) => {
            if v.filter_input {
                refreshed(AppView { filter: v.filter.push(c), ..v })
            } else if c == 'f' {
                AppView { filter_input: true, ..v }
            } else if c == 't' {
                refreshed(AppView { show_threads: !v.show_threads, ..v })
            } else if c == ' ' {
                collapse_toggled(v)
            } else if c == '+' || c == '=' {
                with_interval(v, stepped_up(millis_of(v.interval)))
            } else if c == '-' {
                with_interval(v, stepped_down(millis_of(v.interval)))
            } else {
                v
            }
        },
        KeyPress::Backspace => if v.filter_input {
            filter_popped(v)
        } else {
            v
        },
        KeyPress::Enter => if v.filter_input {
            AppView { filter_input: false, ..v }
        } else {
            detail_toggled(v)
        },
        KeyPress::Delete => filter_cleared(v),
        KeyPress::Esc => if v.filter_input {
            AppView { filter_input: false, ..v }
        } else {
            detail_closed(v)
        },
        KeyPress::Up => if ctrl {
            synced(AppView { selected: 0, ..v })
        } else {
            moved_up(v)
        },
        KeyPress::Down => if ctrl {
            moved_to_bottom(v)
        } else {
            moved_down(v)
        },
        KeyPress::Left => AppView {
            h_scroll: if ctrl { 0 } else { scrolled_left(v.h_scroll) },
            ..v
        },
        KeyPress::Right => AppView {
            h_scroll: if ctrl { usize::MAX } else { scrolled_right(v.h_scroll) },
            ..v
        },
        KeyPress::Other => v,
    }
}

/// What the loop does after `key`: `q` quits (outside the prompt), Esc
/// quits when there is neither a prompt nor a panel to close, Enter
/// fetches detail when it opened the panel, and `+`/`=`/`-` publish the
/// interval when it changed.
pub open spec fn key_effect(v: AppView, key: KeyPress, ctrl: bool) -> KeyEffect {
    match key {
        KeyPress::Char(c) => {
            let ms = millis_of(v.interval);
            if v.filter_input {
                KeyEffect::Continue
            } else if c == 'q' {
                KeyEffect::Quit
            } else if (c == '+' || c == '=') && stepped_up(ms) != ms {
                KeyEffect::PublishInterval(span_of_millis(stepped_up(ms)))
            } else if c == '-' && stepped_down(ms) != ms {
                KeyEffect::PublishInterval(span_of_millis(stepped_down(ms)))
            } else {
                KeyEffect::Continue
            }
        },
        KeyPress::Enter => {
            if !v.filter_input && v.selected < v.rows.len() && v.detail_pid != Some(
                v.rows[v.selected as int].pid,
            ) {
                KeyEffect::FetchDetail(v.rows[v.selected as int].pid)
            } else {
                KeyEffect::Continue
            }
        },
        KeyPress::Esc => if !v.filter_input && v.detail_pid is None {
            KeyEffect::Quit
        } else {
            KeyEffect::Continue
        },
        _ => KeyEffect::Continue,
    }
}

/// The view state after a snapshot: a tree with a root replaces the
/// snapshot, extends the histories and re-flattens; an empty tree changes
/// nothing.
pub open spec fn snapshot_applied(v: AppView, tree: Tree) -> AppView {
    if tree.spec_nodes().len() == 0 {
        v
    } else {
        refreshed(
            AppView {
                root: Some(tree),
                name: tree.spec_nodes()[0].spec_name(),
                cpu_history: window(
                    v.cpu_history.push(tree.spec_nodes()[0].spec_cpu_pct()),
                    HISTORY_CAPACITY as nat,
                ),
                mem_history: window(
                    v.mem_history.push(tree.spec_nodes()[0].spec_mem_pct()),
                    HISTORY_CAPACITY as nat,
                ),
                ..v
            },
        )
    }
}

impl App {
    /// Handle one key press: update the view state and tell the event loop
    /// what to do next.
    pub fn on_key(&mut self, key: KeyPress, ctrl: bool) -> (e: KeyEffect)
        requires
            old(self).wf(),
        ensures
            final(self).wf(),
            e == key_effect(old(self)@, key, ctrl),
            final(self)@ == key_state(old(self)@, key, ctrl),
    {
        match key {
            KeyPress::Char(c) => {
                if self.filter_input {
                    self.push_filter_char(c);
                    KeyEffect::Continue
                } else if c == 'q' {
                    KeyEffect::Quit
                } else if c == 'f' {
                    self.enter_filter_input();
                    KeyEffect::Continue
                } else if c == 't' {
                    self.toggle_threads();
                    KeyEffect::Continue
                } else if c == ' ' {
                    self.toggle_collapse();
                    KeyEffect::Continue
                } else if c == '+' || c == '=' {
                    if self.step_interval_up() {
                        KeyEffect::PublishInterval(self.interval)
                    } else {
                        KeyEffect::Continue
                    }
                } else if c == '-' {
                    if self.step_interval_down() {
                        KeyEffect::PublishInterval(self.interval)
                    } else {
                        KeyEffect::Continue
                    }
                } else {
                    KeyEffect::Continue
                }
            },
            KeyPress::Backspace => {
                if self.filter_input {
                    self.pop_filter_char();
                }
                KeyEffect::Continue
            },
            KeyPress::Enter => {
                if self.filter_input {
                    self.exit_filter_input();
                    KeyEffect::Continue
                } else {
                    match self.toggle_detail() {
                        Some(pid) => KeyEffect::FetchDetail(pid),
                        None => KeyEffect::Continue,
                    }
                }
            },
            KeyPress::Delete => {
                let _ = self.clear_filter();
                KeyEffect::Continue
            },
            KeyPress::Esc => {
                if self.filter_input {
                    self.exit_filter_input();
                    KeyEffect::Continue
                } else if self.close_detail() {
                    KeyEffect::Continue
                } else {
                    KeyEffect::Quit
                }
            },
            KeyPress::Up => {
                if ctrl {
                    self.move_to_top();
                } else {
                    self.move_up();
                }
                KeyEffect::Continue
            },
            KeyPress::Down => {
                if ctrl {
                    self.move_to_bottom();
                } else {
                    self.move_down();
                }
                KeyEffect::Continue
            },
            KeyPress::Left => {
                if ctrl {
                    self.scroll_to_start();
                } else {
                    self.scroll_left();
                }
                KeyEffect::Continue
            },
            KeyPress::Right => {
                if ctrl {
                    self.scroll_to_end();
                } else {
                    self.scroll_right();
                }
                KeyEffect::Continue
            },
            KeyPress::Other => KeyEffect::Continue,
        }
    }

    /// The text of the filter tab after its label: the filter, followed by
    /// a caret while the prompt is open; nothing while the filter is
    /// neither set nor being edited.
    pub fn filter_tab(&self) -> (r: Option<String>)
        ensures
            r is Some <==> (self@.filter_input || self@.filter.len() > 0),
            r matches Some(t) ==> t@ == self@.filter + if self@.filter_input {
                seq!['_']
            } else {
                Seq::empty()
            },
    {
        if self.filter_input || !self.filter.as_str().is_empty() {
            let mut t = self.filter.clone();
            if self.filter_input {
                push_char(&mut t, '_');
            }
            assert(t@ =~= self@.filter + if self@.filter_input {
                seq!['_']
            } else {
                Seq::empty()
            });
            Some(t)
        } else {
            None
        }
    }

    /// Take in what the sampler sent: a tree replaces the snapshot, `None`
    /// (the process is gone) marks the monitor as exited.  Returns the PID
    /// whose open detail panel should be fetched again.
    pub fn on_snapshot(&mut self, snap: Option<Tree>) -> (refetch: Option<Pid>)
        requires
            old(self).wf(),
        ensures
            final(self).wf(),
            snap matches Some(t) ==> final(self)@ == snapshot_applied(old(self)@, t),
            snap is None ==> final(self)@ == (AppView { exited: true, ..old(self)@ }),
            refetch == old(self)@.detail_pid,
    {
        match snap {
            Some(tree) => self.apply_snapshot(tree),
            None => self.mark_exited(),
        }
        self.detail_pid
    }
}

/// Plain Left undoes plain Right: the command column comes back to where
/// it was unless the step right saturated; a plain Left never scrolls
/// back more than one step, and stops at the first column.
pub proof fn law_left_undoes_right(v: AppView)
    ensures
        v.h_scroll + H_SCROLL_STEP <= usize::MAX ==> key_state(
            key_state(v, KeyPress::Right, false),
            KeyPress::Left,
            false,
        ).h_scroll == v.h_scroll,
        v.h_scroll >= H_SCROLL_STEP ==> key_state(v, KeyPress::Left, false).h_scroll + H_SCROLL_STEP
            == v.h_scroll,
        v.h_scroll < H_SCROLL_STEP ==> key_state(v, KeyPress::Left, false).h_scroll == 0,
        key_state(v, KeyPress::Right, false).h_scroll >= v.h_scroll,
{
}

/// Ctrl+Left and Ctrl+Right jump to the first and the furthest column;
/// the arrows move nothing but the horizontal scroll.
pub proof fn law_ctrl_arrows_jump_to_the_ends(v: AppView, ctrl: bool)
    ensures
        key_state(v, KeyPress::Left, true).h_scroll == 0,
        key_state(v, KeyPress::Right, true).h_scroll == usize::MAX,
        key_state(v, KeyPress::Left, ctrl) == (AppView { h_scroll: key_state(v, KeyPress::Left, ctrl).h_scroll, ..v }),
        key_state(v, KeyPress::Right, ctrl) == (AppView { h_scroll: key_state(v, KeyPress::Right, ctrl).h_scroll, ..v }),
        key_effect(v, KeyPress::Left, ctrl) == KeyEffect::Continue,
        key_effect(v, KeyPress::Right, ctrl) == KeyEffect::Continue,
{
}

/// Plain Down then plain Up comes back to the same row when there is a
/// row below; Up steps one row towards the top and stops there; Ctrl+Up
/// selects the first row and Ctrl+Down the last.
pub proof fn law_vertical_navigation(v: AppView)
    requires
        v.rows.len() <= usize::MAX,
    ensures
        v.selected + 1 < v.rows.len() ==> key_state(key_state(v, KeyPress::Down, false), KeyPress::Up, false).selected
            == v.selected,
        v.selected + 1 < v.rows.len() ==> key_state(v, KeyPress::Down, false).selected == v.selected + 1,
        v.selected > 0 ==> key_state(v, KeyPress::Up, false).selected + 1 == v.selected,
        v.selected == 0 ==> key_state(v, KeyPress::Up, false).selected == 0,
        key_state(v, KeyPress::Up, true).selected == 0,
        v.rows.len() > 0 ==> key_state(v, KeyPress::Down, true).selected + 1 == v.rows.len(),
{
    let down = key_state(v, KeyPress::Down, false);
    assert(down == moved_down(v));
    if v.selected + 1 < v.rows.len() {
        assert(down.selected == v.selected + 1);
        assert(down.rows == v.rows);
        assert(key_state(down, KeyPress::Up, false) == moved_up(down));
    }
    assert(key_state(v, KeyPress::Up, false) == moved_up(v));
    assert(key_state(v, KeyPress::Down, true) == moved_to_bottom(v));
}

/// While the filter prompt is open, every character (including `q`) is
/// typed into the filter and nothing quits; Backspace takes the last one
/// back out; outside the prompt, `q` quits and leaves the state alone.
pub proof fn law_prompt_captures_keys(v: AppView, c: char, ctrl: bool)
    ensures
        v.filter_input ==> key_state(v, KeyPress::Char(c), ctrl).filter == v.filter.push(c),
        v.filter_input ==> key_effect(v, KeyPress::Char(c), ctrl) == KeyEffect::Continue,
        v.filter_input ==> key_state(key_state(v, KeyPress::Char(c), ctrl), KeyPress::Backspace, ctrl).filter
            == v.filter,
        !v.filter_input ==> key_effect(v, KeyPress::Char('q'), ctrl) == KeyEffect::Quit,
        !v.filter_input ==> key_state(v, KeyPress::Char('q'), ctrl) == v,
        key_state(v, KeyPress::Delete, ctrl).filter.len() == 0,
        !key_state(v, KeyPress::Delete, ctrl).filter_input,
{
    assert(v.filter.push(c).drop_last() =~= v.filter);
}

/// Esc backs out one level at a time: it leaves the filter prompt if it is
/// open, else closes the detail panel if it is open, and quits only when
/// neither is.
pub proof fn law_escape_backs_out(v: AppView, ctrl: bool)
    ensures
        (key_effect(v, KeyPress::Esc, ctrl) == KeyEffect::Quit) == (!v.filter_input && v.detail_pid is None),
        v.filter_input ==> !key_state(v, KeyPress::Esc, ctrl).filter_input
            && key_state(v, KeyPress::Esc, ctrl).detail_pid == v.detail_pid,
        !v.filter_input ==> key_state(v, KeyPress::Esc, ctrl).detail_pid is None,
{
}

/// Enter outside the prompt asks for a detail fetch exactly for the panel
/// it has just opened, on the selected row.
pub proof fn law_enter_fetches_what_it_opens(v: AppView, ctrl: bool)
    ensures
        key_effect(v, KeyPress::Enter, ctrl) matches KeyEffect::FetchDetail(p) ==> {
            &&& key_state(v, KeyPress::Enter, ctrl).detail_pid == Some(p)
            &&& v.detail_pid != Some(p)
            &&& v.selected < v.rows.len() && v.rows[v.selected as int].pid == p
        },
        !v.filter_input && v.selected < v.rows.len() && v.detail_pid == Some(v.rows[v.selected as int].pid)
            ==> key_state(v, KeyPress::Enter, ctrl).detail_pid is None && key_effect(v, KeyPress::Enter, ctrl)
            == KeyEffect::Continue,
{
}

/// `+` (or `=`) slows polling and `-` speeds it up by one step; the new
/// interval is published exactly when it changed, and a step one way is
/// undone by a step the other way away from the bounds.
pub proof fn law_interval_keys(v: AppView, ctrl: bool)
    requires
        interval_ok(v.interval),
    ensures
        key_effect(v, KeyPress::Char('+'), ctrl) matches KeyEffect::PublishInterval(t) ==> t == key_state(
            v,
            KeyPress::Char('+'),
            ctrl,
        ).interval && t != v.interval,
        key_effect(v, KeyPress::Char('-'), ctrl) matches KeyEffect::PublishInterval(t) ==> t == key_state(
            v,
            KeyPress::Char('-'),
            ctrl,
        ).interval && t != v.interval,
        !v.filter_input && millis_of(v.interval) + INTERVAL_STEP_MS <= INTERVAL_MAX_MS ==> millis_of(
            key_state(v, KeyPress::Char('+'), ctrl).interval,
        ) == millis_of(v.interval) + INTERVAL_STEP_MS,
        !v.filter_input && millis_of(v.interval) >= INTERVAL_MIN_MS + INTERVAL_STEP_MS ==> millis_of(
            key_state(v, KeyPress::Char('-'), ctrl).interval,
        ) + INTERVAL_STEP_MS == millis_of(v.interval),
        !v.filter_input && millis_of(v.interval) + INTERVAL_STEP_MS <= INTERVAL_MAX_MS ==> key_state(
            key_state(v, KeyPress::Char('+'), ctrl),
            KeyPress::Char('-'),
            ctrl,
        ).interval == v.interval,
{
    let ms = millis_of(v.interval);
    assert(ms <= u64::MAX);
    lemma_span_of_millis(stepped_up(ms));
    lemma_span_of_millis(stepped_down(ms));
    lemma_span_of_millis(ms);
    TimeSpan::lemma_view_eq(span_of_millis(ms), v.interval);
    assert(span_of_millis(stepped_up(ms))@ / (NANOS_PER_MILLI as nat) == stepped_up(ms)) by (nonlinear_arith)
        requires
            span_of_millis(stepped_up(ms))@ == stepped_up(ms) * NANOS_PER_MILLI,
    ;
    assert(span_of_millis(stepped_down(ms))@ / (NANOS_PER_MILLI as nat) == stepped_down(ms)) by (nonlinear_arith)
        requires
            span_of_millis(stepped_down(ms))@ == stepped_down(ms) * NANOS_PER_MILLI,
    ;
    assert(v.interval@ == ms * NANOS_PER_MILLI) by (nonlinear_arith)
        requires
            v.interval@ % (NANOS_PER_MILLI as nat) == 0,
            ms == v.interval@ / (NANOS_PER_MILLI as nat),
    ;
    if stepped_up(ms) != ms {
        TimeSpan::lemma_view_eq(span_of_millis(stepped_up(ms)), v.interval);
    }
    if stepped_down(ms) != ms {
        TimeSpan::lemma_view_eq(span_of_millis(stepped_down(ms)), v.interval);
    }
}

/// The snapshot arm of the loop: a snapshot with a root becomes the root
/// shown, its CPU sample is the newest in the history, and the selection
/// stays on a row; `None` only marks the monitor as exited.
pub proof fn law_snapshot_takes_the_new_root(v: AppView, tree: Tree)
    requires
        tree.spec_nodes().len() > 0,
        HISTORY_CAPACITY > 0,
    ensures
        snapshot_applied(v, tree).root == Some(tree),
        snapshot_applied(v, tree).cpu_history.last() == tree.spec_nodes()[0].spec_cpu_pct(),
        snapshot_applied(v, tree).mem_history.last() == tree.spec_nodes()[0].spec_mem_pct(),
        snapshot_applied(v, tree).rows.len() > 0 ==> snapshot_applied(v, tree).selected
            < snapshot_applied(v, tree).rows.len(),
        snapshot_applied(v, tree).detail_pid == v.detail_pid,
{
}

/// Scrolling right and then left returns to the same column, unless the
/// step right saturated.
pub proof fn law_scroll_right_then_left(h: usize)
    requires
        h + H_SCROLL_STEP <= usize::MAX,
    ensures
        scrolled_left(scrolled_right(h)) == h,
{
}

/// Stepping the interval up and then down returns to it, unless it was
/// already at the maximum; the reverse holds unless it was at the minimum.
pub proof fn law_interval_steps_undo(ms: nat)
    requires
        INTERVAL_MIN_MS <= ms <= INTERVAL_MAX_MS,
    ensures
        ms < INTERVAL_MAX_MS && (ms - INTERVAL_MIN_MS) % (INTERVAL_STEP_MS as int) == 0
            ==> stepped_down(stepped_up(ms)) == ms,
        ms > INTERVAL_MIN_MS && (ms - INTERVAL_MIN_MS) % (INTERVAL_STEP_MS as int) == 0
            ==> stepped_up(stepped_down(ms)) == ms,
        INTERVAL_MIN_MS <= stepped_up(ms) <= INTERVAL_MAX_MS,
        INTERVAL_MIN_MS <= stepped_down(ms) <= INTERVAL_MAX_MS,
{
}

/// Toggling the same PID twice leaves the collapsed set as it was.
pub proof fn law_toggle_twice(s: Set<i32>, pid: i32)
    ensures
        toggled(toggled(s, pid), pid) =~= s,
{
}

/// After the scroll state is synced, the selected row lies inside the
/// visible window whenever there is room for at least one row.
pub proof fn law_selection_visible(v: AppView)
    requires
        v.visible_rows > 0,
    ensures
        synced(v).table_offset <= v.selected < synced(v).table_offset + v.visible_rows,
        synced(v).table_selected == Some(v.selected),
{
}

/// Syncing the scroll touches nothing but the table's offset and
/// highlighted row; it keeps the offset when the selection is already in
/// view, and changes nothing at all while no rows are visible.
pub proof fn law_sync_moves_only_the_table(v: AppView)
    ensures
        synced(v) == (AppView {
            table_offset: synced(v).table_offset,
            table_selected: synced(v).table_selected,
            ..v
        }),
        v.visible_rows == 0 ==> synced(v) == v,
        v.visible_rows > 0 && v.table_offset <= v.selected < v.table_offset + v.visible_rows
            ==> synced(v).table_offset == v.table_offset,
{
}

/// Syncing scrolls as little as possible: of all offsets that keep the
/// selected row in view, it takes one nearest the old offset.  So a
/// selection above the view becomes its top row, one below it becomes its
/// bottom row, and one in view moves nothing.
pub proof fn law_sync_scrolls_minimally(v: AppView, other: int)
    requires
        v.visible_rows > 0,
        0 <= other <= v.selected < other + v.visible_rows,
    ensures
        synced(v).table_offset <= v.selected < synced(v).table_offset + v.visible_rows,
        abs_diff(synced(v).table_offset as int, v.table_offset as int) <= abs_diff(other, v.table_offset as int),
        v.selected < v.table_offset ==> synced(v).table_offset == v.selected,
        v.selected >= v.table_offset + v.visible_rows ==> synced(v).table_offset + v.visible_rows == v.selected + 1,
{
}

/// The distance between two integers.
pub open spec fn abs_diff(a: int, b: int) -> int {
    if a >= b {
        a - b
    } else {
        b - a
    }
}

/// A refresh shows the flattening of the snapshot (when there is one),
/// keeps the selection unless it fell off the end of the rows, in which
/// case it moves to the last row, and then syncs the scroll.
pub proof fn law_refresh_rows_and_selection(v: AppView)
    ensures
        v.root matches Some(t) ==> refreshed(v).rows == flatten_spec(
            t,
            v.show_threads,
            v.collapsed,
            v.filter,
        ),
        v.root is None ==> refreshed(v).rows == v.rows,
        refreshed(v).rows.len() > 0 ==> refreshed(v).selected as int == if v.selected
            < refreshed(v).rows.len() {
            v.selected as int
        } else {
            refreshed(v).rows.len() - 1
        },
        refreshed(v).rows.len() == 0 ==> refreshed(v).selected == v.selected,
        refreshed(v) == synced(
            AppView { rows: refreshed(v).rows, selected: refreshed(v).selected, ..v },
        ),
{
}

/// A refresh right after a refresh changes nothing: the rows, the
/// selection and the scroll state are already in line with the snapshot.
pub proof fn law_refresh_idempotent(v: AppView)
    ensures
        refreshed(refreshed(v)) == refreshed(v),
{
}

/// Showing and then hiding threads again (or the reverse) brings back the
/// same rows: the rows depend only on the snapshot and the preferences.
pub proof fn law_toggle_threads_twice_restores_rows(v: AppView)
    requires
        rows_current(v),
    ensures
        ({
            let once = refreshed(AppView { show_threads: !v.show_threads, ..v });
            let twice = refreshed(AppView { show_threads: !once.show_threads, ..once });
            twice.rows == v.rows
        }),
{
}

/// Clamp an arbitrary interval into the supported range so the initial
/// value matches what +/- can later produce.  The millisecond count is
/// first narrowed to 64 bits.
pub fn clamp_interval(d: TimeSpan) -> (r: TimeSpan)
    ensures
        r@ == clamp_ms((d@ / (NANOS_PER_MILLI as nat)) as u64 as int) * NANOS_PER_MILLI,
        interval_ok(r),
{
    let raw = d.as_millis() as u64;
    let ms = if raw < INTERVAL_MIN_MS {
        INTERVAL_MIN_MS
    } else if raw > INTERVAL_MAX_MS {
        INTERVAL_MAX_MS
    } else {
        raw
    };
    let r = TimeSpan::from_millis(ms);
    assert(r@ % (NANOS_PER_MILLI as nat) == 0 && r@ / (NANOS_PER_MILLI as nat) == ms) by (nonlinear_arith)
        requires
            r@ == ms * NANOS_PER_MILLI,
    ;
    r
}

} // verus!
