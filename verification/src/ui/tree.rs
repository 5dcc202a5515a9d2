//! Layout rules of the tree table: which optional columns fit at a given
//! width, how wide the Command column is, and what each Command cell reads.

use vstd::prelude::*;

use crate::text::{chars_of, push_str, string_of};
use crate::tree::{Row, RowView};

verus! {

/// Which optional columns are visible at the current terminal width.
#[derive(Clone, Copy, Debug, PartialEq, Eq, Structural)]
pub struct ColumnSet {
    pub user: bool,
    pub res: bool,
    pub elapsed: bool,
    /// Show accumulated CPU time alongside wall-clock elapsed.
    pub cpu_time: bool,
}

/// The richest column set for inner width `w`: all four columns from 120,
/// without CPU time from 100, without ELAPSED from 80, without RES from 70,
/// without USER from 50, and below that only PID, CPU% and Command.
pub open spec fn columns_for(w: u16) -> ColumnSet {
    ColumnSet {
        user: w >= 70,
        res: w >= 80,
        elapsed: w >= 100,
        cpu_time: w >= 120,
    }
}

/// Width of the PID column.
pub const PID_WIDTH: u16 = 8;
/// Width of the USER column.
pub const USER_WIDTH: u16 = 9;
/// Width of the CPU% column.
pub const CPU_WIDTH: u16 = 5;
/// Width of the RES column.
pub const RES_WIDTH: u16 = 8;
/// Width of the ELAPSED column.
pub const ELAPSED_WIDTH: u16 = 9;
/// Width of the CPU time column.
pub const CPU_TIME_WIDTH: u16 = 9;

/// Rows taken by the table's top border, header row and bottom border.
pub const TABLE_CHROME_ROWS: usize = 3;

impl ColumnSet {
    /// Pick the richest column set that leaves room for the Command column.
    pub fn for_width(w: u16) -> (r: Self)
        ensures
            r == columns_for(w),
    {
        if w >= 120 {
            Self { user: true, res: true, elapsed: true, cpu_time: true }
        } else if w >= 100 {
            Self { user: true, res: true, elapsed: true, cpu_time: false }
        } else if w >= 80 {
            Self { user: true, res: true, elapsed: false, cpu_time: false }
        } else if w >= 70 {
            Self { user: true, res: false, elapsed: false, cpu_time: false }
        } else if w >= 50 {
            Self { user: false, res: false, elapsed: false, cpu_time: false }
        } else {
            Self { user: false, res: false, elapsed: false, cpu_time: false }
        }
    }

    /// The total width of the fixed-width columns shown.
    pub open spec fn spec_fixed_width(self) -> nat {
        (PID_WIDTH + CPU_WIDTH + (if self.user { USER_WIDTH } else { 0 }) + (if self.res {
            RES_WIDTH
        } else {
            0
        }) + (if self.elapsed { ELAPSED_WIDTH } else { 0 }) + (if self.cpu_time {
            CPU_TIME_WIDTH
        } else {
            0
        })) as nat
    }

    /// The number of columns shown, Command included.
    pub open spec fn spec_column_count(self) -> nat {
        (3 + (if self.user { 1int } else { 0 }) + (if self.res { 1int } else { 0 }) + (if self.elapsed {
            1int
        } else {
            0
        }) + (if self.cpu_time { 1int } else { 0 })) as nat
    }

    /// The width left for the Command column inside a table of inner width
    /// `inner_width`: the fixed columns and the one-cell gaps between all
    /// columns are taken off, stopping at zero.
    pub open spec fn spec_command_width(self, inner_width: u16) -> nat {
        if inner_width >= self.spec_fixed_width() + self.spec_column_count() - 1 {
            (inner_width - self.spec_fixed_width() - (self.spec_column_count() - 1)) as nat
        } else {
            0
        }
    }

    /// The width left for the Command column inside a table of inner width
    /// `inner_width`: the fixed columns and the one-cell gaps between all
    /// columns are taken off, stopping at zero.
    pub fn command_width(self, inner_width: u16) -> (r: usize)
        ensures
            r == self.spec_command_width(inner_width),
    {
        let mut fixed: u16 = PID_WIDTH + CPU_WIDTH;
        let mut count: u16 = 3;
        if self.user {
            fixed = fixed + USER_WIDTH;
            count = count + 1;
        }
        if self.res {
            fixed = fixed + RES_WIDTH;
            count = count + 1;
        }
        if self.elapsed {
            fixed = fixed + ELAPSED_WIDTH;
            count = count + 1;
        }
        if self.cpu_time {
            fixed = fixed + CPU_TIME_WIDTH;
            count = count + 1;
        }
        let spacing = count - 1;
        inner_width.saturating_sub(fixed).saturating_sub(spacing) as usize
    }
}

/// Columns give way in a fixed order as the table narrows (CPU time first,
/// then ELAPSED, RES and USER): widening never hides a column, and any
/// column shown implies the ones that give way after it are shown too.
pub proof fn law_columns_give_way_in_order(w1: u16, w2: u16)
    ensures
        w1 <= w2 ==> {
            &&& columns_for(w1).user ==> columns_for(w2).user
            &&& columns_for(w1).res ==> columns_for(w2).res
            &&& columns_for(w1).elapsed ==> columns_for(w2).elapsed
            &&& columns_for(w1).cpu_time ==> columns_for(w2).cpu_time
        },
        columns_for(w1).cpu_time ==> columns_for(w1).elapsed,
        columns_for(w1).elapsed ==> columns_for(w1).res,
        columns_for(w1).res ==> columns_for(w1).user,
{
}

/// Every column set chosen from width 50 up leaves the Command column at
/// least 25 cells.
pub proof fn law_command_column_keeps_room(w: u16)
    requires
        w >= 50,
    ensures
        columns_for(w).spec_command_width(w) >= 25,
{
}

/// How many table rows fit in an area `height` cells tall.
pub fn visible_rows_for_height(height: u16) -> (r: usize)
    ensures
        r == if height >= TABLE_CHROME_ROWS { (height - TABLE_CHROME_ROWS) as nat } else { 0 },
{
    (height as usize).saturating_sub(TABLE_CHROME_ROWS)
}

/// The largest useful horizontal scroll: how far the longest Command text
/// overhangs the column.
pub fn max_h_scroll(longest_command: usize, command_width: usize) -> (r: usize)
    ensures
        r == if longest_command >= command_width { (longest_command - command_width) as nat } else { 0 },
{
    longest_command.saturating_sub(command_width)
}

/// The marker in front of a command that has children: a right-pointing
/// triangle when folded, a down-pointing one when open, nothing for leaves.
pub open spec fn collapse_marker(row: RowView) -> Seq<char> {
    if row.has_children {
        if row.is_collapsed { "\u{25b8} "@ } else { "\u{25be} "@ }
    } else {
        Seq::empty()
    }
}

/// The full text of a row's Command cell: connector, collapse marker, and
/// command line.
pub open spec fn composed_command(row: RowView) -> Seq<char> {
    row.connector + collapse_marker(row) + row.cmdline
}

/// Compose the full Command-column text for a row.
pub fn compose_command(row: &Row) -> (r: String)
    ensures
        r@ == composed_command(row@),
{
    let mut s = row.connector().to_owned();
    if row.has_children() {
        if row.is_collapsed() {
            push_str(&mut s, "\u{25b8} ");
        } else {
            push_str(&mut s, "\u{25be} ");
        }
    }
    push_str(&mut s, row.cmdline());
    s
}

/// `s` without its first `n` characters (empty if it has fewer).
pub fn skip_chars(s: &str, n: usize) -> (r: String)
    ensures
        r@ == if n <= s@.len() { s@.skip(n as int) } else { Seq::empty() },
{
    let chars = chars_of(s);
    if n >= chars.len() {
        let r = String::new();
        assert(r@ =~= if n <= s@.len() { s@.skip(n as int) } else { Seq::empty() });
        r
    } else {
        string_of(&chars, n, chars.len())
    }
}

} // verus!
