//! Flattening of the process tree into the rows of the tree table:
//! depth-first, parents before children, with box-drawing connectors,
//! threads hidden unless asked for, collapsed subtrees folded away, and an
//! optional case-insensitive substring filter that keeps matching nodes
//! together with the ancestors that lead to them.

use std::collections::HashSet;

use vstd::prelude::*;

use crate::format::Percent;
use crate::process::{
    each_node, forest_sum, lemma_child_decreases, lemma_forest_sum_empty, lemma_forest_sum_take, Node, Pid, Tree,
};
use crate::text::{
    chars_of, contains_chars, lemma_empty_needle, push_str, seq_contains, spec_to_lowercase,
    to_lowercase,
};
use crate::time::TimeSpan;

verus! {

broadcast use vstd::std_specs::hash::group_hash_axioms;

/// What a table row shows, as mathematical values.
pub struct RowView {
    pub pid: Pid,
    pub is_thread: bool,
    pub cmdline: Seq<char>,
    pub user: Seq<char>,
    pub state: char,
    pub cpu_pct: Percent,
    pub mem_rss_bytes: u64,
    pub elapsed: TimeSpan,
    pub cpu_time: TimeSpan,
    pub connector: Seq<char>,
    pub has_children: bool,
    pub is_collapsed: bool,
}

/// One visible line of the tree table.
pub struct Row {
    pid: Pid,
    is_thread: bool,
    cmdline: String,
    user: String,
    state: char,
    cpu_pct: Percent,
    mem_rss_bytes: u64,
    elapsed: TimeSpan,
    cpu_time: TimeSpan,
    connector: String,
    has_children: bool,
    is_collapsed: bool,
}

impl View for Row {
    type V = RowView;

    closed spec fn view(&self) -> RowView {
        RowView {
            pid: self.pid,
            is_thread: self.is_thread,
            cmdline: self.cmdline@,
            user: self.user@,
            state: self.state,
            cpu_pct: self.cpu_pct,
            mem_rss_bytes: self.mem_rss_bytes,
            elapsed: self.elapsed,
            cpu_time: self.cpu_time,
            connector: self.connector@,
            has_children: self.has_children,
            is_collapsed: self.is_collapsed,
        }
    }
}

impl Row {
    pub fn pid(&self) -> (r: Pid)
        ensures
            r == self@.pid,
    {
        self.pid
    }

    pub fn is_thread(&self) -> (r: bool)
        ensures
            r == self@.is_thread,
    {
        self.is_thread
    }

    pub fn cmdline(&self) -> (r: &str)
        ensures
            r@ == self@.cmdline,
    {
        self.cmdline.as_str()
    }

    pub fn user(&self) -> (r: &str)
        ensures
            r@ == self@.user,
    {
        self.user.as_str()
    }

    pub fn state(&self) -> (r: char)
        ensures
            r == self@.state,
    {
        self.state
    }

    pub fn cpu_pct(&self) -> (r: Percent)
        ensures
            r == self@.cpu_pct,
    {
        self.cpu_pct
    }

    pub fn mem_rss_bytes(&self) -> (r: u64)
        ensures
            r == self@.mem_rss_bytes,
    {
        self.mem_rss_bytes
    }

    pub fn elapsed(&self) -> (r: TimeSpan)
        ensures
            r == self@.elapsed,
    {
        self.elapsed
    }

    pub fn cpu_time(&self) -> (r: TimeSpan)
        ensures
            r == self@.cpu_time,
    {
        self.cpu_time
    }

    /// The box-drawing prefix that places this row in the tree.
    pub fn connector(&self) -> (r: &str)
        ensures
            r@ == self@.connector,
    {
        self.connector.as_str()
    }

    /// Whether the node has children that the current view would show.
    pub fn has_children(&self) -> (r: bool)
        ensures
            r == self@.has_children,
    {
        self.has_children
    }

    /// Whether the node's subtree is folded away.
    pub fn is_collapsed(&self) -> (r: bool)
        ensures
            r == self@.is_collapsed,
    {
        self.is_collapsed
    }
}

/// The row views of a list of rows.
pub open spec fn views(rows: Seq<Row>) -> Seq<RowView> {
    rows.map_values(|r: Row| r@)
}

/// The connector in front of a child: a tee, or an elbow for the last one.
pub open spec fn branch(last: bool) -> Seq<char> {
    if last { "\u{2514}\u{2500} "@ } else { "\u{251c}\u{2500} "@ }
}

/// What the rows below a child carry in that child's column: a vertical
/// bar while later siblings follow, blanks after the last one.
pub open spec fn indent(last: bool) -> Seq<char> {
    if last { "   "@ } else { "\u{2502}  "@ }
}

/// The node's command line or name contains `needle` once lower-cased.
pub open spec fn node_matches(n: Node, needle: Seq<char>) -> bool {
    seq_contains(spec_to_lowercase(n.spec_cmdline()), needle) || seq_contains(
        spec_to_lowercase(n.spec_name()),
        needle,
    )
}

/// Whether `n` appears in the table: threads only when they are shown,
/// and only nodes that match the filter or lead to a shown node that does.
pub open spec fn node_shown(n: Node, show_threads: bool, needle: Seq<char>) -> bool
    decreases n, 1int, 0int,
{
    (show_threads || !n.spec_is_thread()) && (node_matches(n, needle) || shown_from(
        n,
        0,
        show_threads,
        needle,
    ))
}

/// Whether any child of `p` at position `k` or later is shown.
pub open spec fn shown_from(p: Node, k: int, show_threads: bool, needle: Seq<char>) -> bool
    decreases p, 0int, p.spec_children().len() - k,
{
    if 0 <= k < p.spec_children().len() {
        proof {
            lemma_child_decreases(p, k);
        }
        node_shown(p.spec_children()[k], show_threads, needle) || shown_from(
            p,
            k + 1,
            show_threads,
            needle,
        )
    } else {
        false
    }
}

/// The row for node `n` itself.
pub open spec fn row_view(n: Node, connector: Seq<char>, has_children: bool, is_collapsed: bool) -> RowView {
    RowView {
        pid: n.spec_pid(),
        is_thread: n.spec_is_thread(),
        cmdline: n.spec_cmdline(),
        user: n.spec_user(),
        state: n.spec_state(),
        cpu_pct: n.spec_cpu_pct(),
        mem_rss_bytes: n.spec_mem_rss_bytes(),
        elapsed: n.spec_elapsed(),
        cpu_time: n.spec_cpu_time(),
        connector,
        has_children,
        is_collapsed,
    }
}

/// The rows of a shown node: its own row, then, unless it is collapsed,
/// the rows of its shown children.
pub open spec fn node_rows(
    n: Node,
    connector: Seq<char>,
    child_prefix: Seq<char>,
    show_threads: bool,
    collapsed: Set<i32>,
    needle: Seq<char>,
) -> Seq<RowView>
    decreases n, 1int, 0int,
{
    let is_collapsed = collapsed.contains(n.spec_pid()@);
    seq![row_view(n, connector, shown_from(n, 0, show_threads, needle), is_collapsed)] + if is_collapsed {
        Seq::<RowView>::empty()
    } else {
        rows_from(n, 0, child_prefix, show_threads, collapsed, needle)
    }
}

/// The rows of the shown children of `p` from position `k` on.
pub open spec fn rows_from(
    p: Node,
    k: int,
    prefix: Seq<char>,
    show_threads: bool,
    collapsed: Set<i32>,
    needle: Seq<char>,
) -> Seq<RowView>
    decreases p, 0int, p.spec_children().len() - k,
{
    if 0 <= k < p.spec_children().len() {
        proof {
            lemma_child_decreases(p, k);
        }
        let c = p.spec_children()[k];
        let last = !shown_from(p, k + 1, show_threads, needle);
        let here = if node_shown(c, show_threads, needle) {
            node_rows(
                c,
                prefix + branch(last),
                prefix + indent(last),
                show_threads,
                collapsed,
                needle,
            )
        } else {
            Seq::<RowView>::empty()
        };
        here + rows_from(p, k + 1, prefix, show_threads, collapsed, needle)
    } else {
        Seq::<RowView>::empty()
    }
}

/// The table rows for `tree` under the given display preferences.
pub open spec fn flatten_spec(
    tree: Tree,
    show_threads: bool,
    collapsed: Set<i32>,
    filter: Seq<char>,
) -> Seq<RowView> {
    let needle = spec_to_lowercase(filter);
    if tree.spec_nodes().len() > 0 && node_shown(tree.spec_nodes()[0], show_threads, needle) {
        node_rows(tree.spec_nodes()[0], Seq::empty(), Seq::empty(), show_threads, collapsed, needle)
    } else {
        Seq::<RowView>::empty()
    }
}

/// The table starts with the root's own row, drawn without a connector.
pub proof fn law_root_row_first(tree: Tree, show_threads: bool, collapsed: Set<i32>, filter: Seq<char>)
    requires
        tree.spec_nodes().len() > 0,
        node_shown(tree.spec_nodes()[0], show_threads, spec_to_lowercase(filter)),
    ensures
        flatten_spec(tree, show_threads, collapsed, filter).len() > 0,
        flatten_spec(tree, show_threads, collapsed, filter)[0].pid == tree.spec_nodes()[0].spec_pid(),
        flatten_spec(tree, show_threads, collapsed, filter)[0].connector.len() == 0,
{
}

/// The filter ignores case on both sides: a root that may be shown and
/// whose command line or name contains the filter once both are
/// lower-cased heads the table.
pub proof fn law_filter_ignores_case(tree: Tree, show_threads: bool, collapsed: Set<i32>, filter: Seq<char>)
    requires
        tree.spec_nodes().len() > 0,
        show_threads || !tree.spec_nodes()[0].spec_is_thread(),
        seq_contains(spec_to_lowercase(tree.spec_nodes()[0].spec_cmdline()), spec_to_lowercase(filter))
            || seq_contains(spec_to_lowercase(tree.spec_nodes()[0].spec_name()), spec_to_lowercase(filter)),
    ensures
        flatten_spec(tree, show_threads, collapsed, filter).len() > 0,
        flatten_spec(tree, show_threads, collapsed, filter)[0].pid == tree.spec_nodes()[0].spec_pid(),
{
}

/// A childless root that contains the filter in neither its command line
/// nor its name (both lower-cased, like the filter) leaves the table empty.
pub proof fn law_unmatched_leaf_is_hidden(tree: Tree, show_threads: bool, collapsed: Set<i32>, filter: Seq<char>)
    requires
        tree.spec_nodes().len() > 0,
        tree.spec_nodes()[0].spec_children().len() == 0,
        !seq_contains(spec_to_lowercase(tree.spec_nodes()[0].spec_cmdline()), spec_to_lowercase(filter)),
        !seq_contains(spec_to_lowercase(tree.spec_nodes()[0].spec_name()), spec_to_lowercase(filter)),
    ensures
        flatten_spec(tree, show_threads, collapsed, filter).len() == 0,
{
    assert(!shown_from(tree.spec_nodes()[0], 0, show_threads, spec_to_lowercase(filter)));
}

/// Threads are hidden unless shown: a thread root never heads the table
/// while threads are hidden, whatever the filter.
pub proof fn law_hidden_thread_root(tree: Tree, collapsed: Set<i32>, filter: Seq<char>)
    requires
        tree.spec_nodes().len() > 0,
        tree.spec_nodes()[0].spec_is_thread(),
    ensures
        flatten_spec(tree, false, collapsed, filter).len() == 0,
{
}

/// The table walks the tree depth first and draws its branches: for a
/// root with children `a` (which has one child `g`) and `b`, the rows are
/// the root, `a` on a tee, `g` under a bar and an elbow (its parent has a
/// later sibling), and `b`, the last child, on an elbow.
pub proof fn law_depth_first_with_connectors(tree: Tree, filter: Seq<char>)
    requires
        tree.spec_nodes().len() > 0,
        spec_to_lowercase(filter).len() == 0,
        tree.spec_nodes()[0].spec_children().len() == 2,
        tree.spec_nodes()[0].spec_children()[0].spec_children().len() == 1,
        tree.spec_nodes()[0].spec_children()[0].spec_children()[0].spec_children().len() == 0,
        tree.spec_nodes()[0].spec_children()[1].spec_children().len() == 0,
    ensures
        ({
            let root = tree.spec_nodes()[0];
            let a = root.spec_children()[0];
            let g = a.spec_children()[0];
            let b = root.spec_children()[1];
            let rows = flatten_spec(tree, true, Set::empty(), filter);
            &&& rows.len() == 4
            &&& rows[0].pid == root.spec_pid() && rows[0].connector == Seq::<char>::empty()
            &&& rows[1].pid == a.spec_pid() && rows[1].connector == "\u{251c}\u{2500} "@
            &&& rows[2].pid == g.spec_pid() && rows[2].connector == "\u{2502}  "@ + "\u{2514}\u{2500} "@
            &&& rows[3].pid == b.spec_pid() && rows[3].connector == "\u{2514}\u{2500} "@
            &&& rows[0].has_children && rows[1].has_children && !rows[2].has_children && !rows[3].has_children
        }),
{
    let root = tree.spec_nodes()[0];
    let a = root.spec_children()[0];
    let g = a.spec_children()[0];
    let b = root.spec_children()[1];
    let e = Seq::<char>::empty();
    assert(spec_to_lowercase(filter) =~= e);
    lemma_every_node_shown(root);
    lemma_every_node_shown(a);
    lemma_every_node_shown(g);
    lemma_every_node_shown(b);
    lemma_child_decreases(root, 0);
    lemma_child_decreases(root, 1);
    lemma_child_decreases(a, 0);
    let none = Set::<i32>::empty();
    assert(!shown_from(g, 0, true, e));
    assert(!shown_from(b, 0, true, e));
    assert(!shown_from(a, 1, true, e));
    assert(shown_from(a, 0, true, e));
    assert(!shown_from(root, 2, true, e));
    assert(shown_from(root, 1, true, e));
    assert(shown_from(root, 0, true, e));
    let gr = node_rows(g, e + branch(false) + indent(true), e + branch(false) + indent(true), true, none, e);
    assert(rows_from(g, 0, e + indent(false) + indent(true), true, none, e) =~= Seq::<RowView>::empty());
    assert(rows_from(a, 1, e + indent(false), true, none, e) =~= Seq::<RowView>::empty());
    assert(rows_from(b, 0, e + indent(true), true, none, e) =~= Seq::<RowView>::empty());
    assert(rows_from(root, 2, e, true, none, e) =~= Seq::<RowView>::empty());
    let ga = node_rows(g, e + indent(false) + branch(true), e + indent(false) + indent(true), true, none, e);
    assert(ga =~= seq![row_view(g, e + indent(false) + branch(true), false, false)]);
    let ar = node_rows(a, e + branch(false), e + indent(false), true, none, e);
    assert(rows_from(a, 0, e + indent(false), true, none, e) =~= ga);
    assert(ar =~= seq![row_view(a, e + branch(false), true, false)] + ga);
    let br = node_rows(b, e + branch(true), e + indent(true), true, none, e);
    assert(br =~= seq![row_view(b, e + branch(true), false, false)]);
    assert(rows_from(root, 1, e, true, none, e) =~= br);
    assert(rows_from(root, 0, e, true, none, e) =~= ar + br);
    let rows = flatten_spec(tree, true, none, filter);
    assert(rows =~= seq![row_view(root, e, true, false)] + ar + br);
    assert(e + branch(false) =~= branch(false));
    assert(e + branch(true) =~= branch(true));
    assert(e + indent(false) + branch(true) =~= indent(false) + branch(true));
}

/// The filter keeps the ancestors of a match: a root with a single
/// childless child that matches the filter is shown above it, whether or
/// not the root matches itself.
pub proof fn law_filter_keeps_ancestors(tree: Tree, collapsed: Set<i32>, filter: Seq<char>)
    requires
        tree.spec_nodes().len() > 0,
        !tree.spec_nodes()[0].spec_is_thread(),
        !collapsed.contains(tree.spec_nodes()[0].spec_pid()@),
        tree.spec_nodes()[0].spec_children().len() == 1,
        !tree.spec_nodes()[0].spec_children()[0].spec_is_thread(),
        tree.spec_nodes()[0].spec_children()[0].spec_children().len() == 0,
        seq_contains(
            spec_to_lowercase(tree.spec_nodes()[0].spec_children()[0].spec_cmdline()),
            spec_to_lowercase(filter),
        ),
    ensures
        ({
            let rows = flatten_spec(tree, false, collapsed, filter);
            &&& rows.len() == 2
            &&& rows[0].pid == tree.spec_nodes()[0].spec_pid()
            &&& rows[1].pid == tree.spec_nodes()[0].spec_children()[0].spec_pid()
            &&& rows[1].connector == "\u{2514}\u{2500} "@
        }),
{
    let root = tree.spec_nodes()[0];
    let c = root.spec_children()[0];
    let e = Seq::<char>::empty();
    let needle = spec_to_lowercase(filter);
    lemma_child_decreases(root, 0);
    assert(node_shown(c, false, needle));
    assert(!shown_from(root, 1, false, needle));
    assert(shown_from(root, 0, false, needle));
    assert(!shown_from(c, 0, false, needle));
    assert(rows_from(c, 0, e + indent(true), false, collapsed, needle) =~= Seq::<RowView>::empty());
    assert(rows_from(root, 1, e, false, collapsed, needle) =~= Seq::<RowView>::empty());
    let cr = node_rows(c, e + branch(true), e + indent(true), false, collapsed, needle);
    assert(cr.len() >= 1 && cr[0].pid == c.spec_pid());
    assert(rows_from(root, 0, e, false, collapsed, needle) =~= cr);
    assert(e + branch(true) =~= branch(true));
    if collapsed.contains(c.spec_pid()@) {
        assert(cr =~= seq![row_view(c, branch(true), false, true)]);
    } else {
        assert(cr =~= seq![row_view(c, branch(true), false, false)]);
    }
}

/// With threads shown, nothing collapsed and a filter that matches
/// everything, the table lists every node of the tree: one row per node.
pub proof fn law_full_view_lists_every_node(tree: Tree, filter: Seq<char>)
    requires
        tree.spec_nodes().len() > 0,
        spec_to_lowercase(filter).len() == 0,
    ensures
        flatten_spec(tree, true, Set::empty(), filter).len() == tree.spec_nodes()[0].spec_size(),
{
    let root = tree.spec_nodes()[0];
    assert(spec_to_lowercase(filter) =~= Seq::<char>::empty());
    lemma_every_node_shown(root);
    lemma_node_rows_count(root, Seq::empty(), Seq::empty());
}

/// A collapsed node keeps its own row and hides everything below it.
pub proof fn law_collapsed_node_is_one_row(
    n: Node,
    connector: Seq<char>,
    child_prefix: Seq<char>,
    show_threads: bool,
    collapsed: Set<i32>,
    needle: Seq<char>,
)
    requires
        collapsed.contains(n.spec_pid()@),
    ensures
        node_rows(n, connector, child_prefix, show_threads, collapsed, needle).len() == 1,
        node_rows(n, connector, child_prefix, show_threads, collapsed, needle)[0].is_collapsed,
{
}

/// An empty needle shows every node when threads are shown.
proof fn lemma_every_node_shown(n: Node)
    ensures
        node_shown(n, true, Seq::empty()),
{
    lemma_empty_needle(spec_to_lowercase(n.spec_cmdline()));
}

/// In the full view a node contributes one row per node of its subtree.
proof fn lemma_node_rows_count(n: Node, connector: Seq<char>, child_prefix: Seq<char>)
    ensures
        node_rows(n, connector, child_prefix, true, Set::empty(), Seq::empty()).len() == n.spec_size(),
    decreases n, 1int, 0int,
{
    lemma_rows_from_count(n, 0, child_prefix);
    assert(n.spec_children().take(0) =~= Seq::<Node>::empty());
    lemma_forest_sum_empty(each_node());
    assert(!Set::<i32>::empty().contains(n.spec_pid()@));
    assert(each_node()(n) == 1);
    let rest = rows_from(n, 0, child_prefix, true, Set::empty(), Seq::empty());
    assert(node_rows(n, connector, child_prefix, true, Set::empty(), Seq::empty()) == seq![
        row_view(n, connector, shown_from(n, 0, true, Seq::empty()), false),
    ] + rest);
}

/// In the full view the children of `p` from position `k` on contribute
/// one row per node of their subtrees.
proof fn lemma_rows_from_count(p: Node, k: int, prefix: Seq<char>)
    requires
        0 <= k <= p.spec_children().len(),
    ensures
        rows_from(p, k, prefix, true, Set::empty(), Seq::empty()).len() + forest_sum(
            p.spec_children().take(k),
            each_node(),
        ) == forest_sum(p.spec_children(), each_node()),
    decreases p, 0int, p.spec_children().len() - k,
{
    let cs = p.spec_children();
    if k < cs.len() {
        lemma_child_decreases(p, k);
        let c = cs[k];
        lemma_every_node_shown(c);
        let last = !shown_from(p, k + 1, true, Seq::empty());
        lemma_node_rows_count(c, prefix + branch(last), prefix + indent(last));
        lemma_rows_from_count(p, k + 1, prefix);
        lemma_forest_sum_take(cs, k, each_node());
    } else {
        assert(cs.take(k) =~= cs);
    }
}

/// With threads hidden, no row of the table is a thread.
pub proof fn law_hidden_threads_stay_hidden(tree: Tree, collapsed: Set<i32>, filter: Seq<char>)
    ensures
        forall|i: int|
            0 <= i < flatten_spec(tree, false, collapsed, filter).len() ==> !(#[trigger] flatten_spec(
                tree,
                false,
                collapsed,
                filter,
            )[i]).is_thread,
{
    let needle = spec_to_lowercase(filter);
    if tree.spec_nodes().len() > 0 && node_shown(tree.spec_nodes()[0], false, needle) {
        lemma_node_rows_no_threads(tree.spec_nodes()[0], Seq::empty(), Seq::empty(), collapsed, needle);
    }
}

/// The rows of a shown node, with threads hidden, hold no thread.
proof fn lemma_node_rows_no_threads(
    n: Node,
    connector: Seq<char>,
    child_prefix: Seq<char>,
    collapsed: Set<i32>,
    needle: Seq<char>,
)
    requires
        node_shown(n, false, needle),
    ensures
        forall|i: int|
            0 <= i < node_rows(n, connector, child_prefix, false, collapsed, needle).len()
                ==> !(#[trigger] node_rows(n, connector, child_prefix, false, collapsed, needle)[i]).is_thread,
    decreases n, 1int, 0int,
{
    lemma_rows_from_no_threads(n, 0, child_prefix, collapsed, needle);
    let rows = node_rows(n, connector, child_prefix, false, collapsed, needle);
    let is_collapsed = collapsed.contains(n.spec_pid()@);
    let rest = if is_collapsed {
        Seq::<RowView>::empty()
    } else {
        rows_from(n, 0, child_prefix, false, collapsed, needle)
    };
    assert(rows == seq![row_view(n, connector, shown_from(n, 0, false, needle), is_collapsed)] + rest);
    assert forall|i: int| 0 <= i < rows.len() implies !(#[trigger] rows[i]).is_thread by {
        if i > 0 {
            assert(rows[i] == rest[i - 1]);
        }
    }
}

/// The rows of the shown children of `p`, with threads hidden, hold no thread.
proof fn lemma_rows_from_no_threads(
    p: Node,
    k: int,
    prefix: Seq<char>,
    collapsed: Set<i32>,
    needle: Seq<char>,
)
    ensures
        forall|i: int|
            0 <= i < rows_from(p, k, prefix, false, collapsed, needle).len()
                ==> !(#[trigger] rows_from(p, k, prefix, false, collapsed, needle)[i]).is_thread,
    decreases p, 0int, p.spec_children().len() - k,
{
    if 0 <= k < p.spec_children().len() {
        lemma_child_decreases(p, k);
        let c = p.spec_children()[k];
        let last = !shown_from(p, k + 1, false, needle);
        let here = if node_shown(c, false, needle) {
            lemma_node_rows_no_threads(c, prefix + branch(last), prefix + indent(last), collapsed, needle);
            node_rows(c, prefix + branch(last), prefix + indent(last), false, collapsed, needle)
        } else {
            Seq::<RowView>::empty()
        };
        lemma_rows_from_no_threads(p, k + 1, prefix, collapsed, needle);
        let rest = rows_from(p, k + 1, prefix, false, collapsed, needle);
        let rows = rows_from(p, k, prefix, false, collapsed, needle);
        assert(rows == here + rest);
        assert forall|i: int| 0 <= i < rows.len() implies !(#[trigger] rows[i]).is_thread by {
            if i < here.len() {
                assert(rows[i] == here[i]);
            } else {
                assert(rows[i] == rest[i - here.len()]);
            }
        }
    }
}

fn node_matches_exec(n: &Node, needle: &Vec<char>) -> (r: bool)
    ensures
        r == node_matches(*n, needle@),
{
    let cmd = to_lowercase(n.cmdline());
    if contains_chars(&chars_of(cmd.as_str()), needle) {
        return true;
    }
    let name = to_lowercase(n.name());
    contains_chars(&chars_of(name.as_str()), needle)
}

fn node_shown_exec(n: &Node, show_threads: bool, needle: &Vec<char>) -> (r: bool)
    ensures
        r == node_shown(*n, show_threads, needle@),
    decreases n, 1int, 0int,
{
    if !show_threads && n.is_thread() {
        return false;
    }
    node_matches_exec(n, needle) || shown_from_exec(n, 0, show_threads, needle)
}

fn shown_from_exec(p: &Node, k: usize, show_threads: bool, needle: &Vec<char>) -> (r: bool)
    ensures
        r == shown_from(*p, k as int, show_threads, needle@),
    decreases p, 0int, 0int,
{
    let children = p.children();
    let len = children.len();
    let mut j = k;
    while j < len
        invariant
            children@ == p.spec_children(),
            len == children@.len(),
            k <= j || len <= k,
            len <= k ==> j == k,
            shown_from(*p, k as int, show_threads, needle@) == shown_from(
                *p,
                j as int,
                show_threads,
                needle@,
            ),
        decreases len - j,
    {
        proof {
            lemma_child_decreases(*p, j as int);
        }
        if node_shown_exec(&children[j], show_threads, needle) {
            return true;
        }
        j = j + 1;
    }
    false
}

fn make_row(n: &Node, connector: String, has_children: bool, is_collapsed: bool) -> (r: Row)
    ensures
        r@ == row_view(*n, connector@, has_children, is_collapsed),
{
    Row {
        pid: n.pid(),
        is_thread: n.is_thread(),
        cmdline: n.cmdline().to_owned(),
        user: n.user().to_owned(),
        state: n.state(),
        cpu_pct: n.cpu_pct(),
        mem_rss_bytes: n.mem_rss_bytes(),
        elapsed: n.elapsed(),
        cpu_time: n.cpu_time(),
        connector,
        has_children,
        is_collapsed,
    }
}

/// `prefix` followed by `tail`, as a new string.
fn joined(prefix: &String, tail: &str) -> (r: String)
    ensures
        r@ == prefix@ + tail@,
{
    let mut s = prefix.clone();
    push_str(&mut s, tail);
    s
}

fn push_row(out: &mut Vec<Row>, row: Row)
    ensures
        views(final(out)@) == views(old(out)@).push(row@),
{
    out.push(row);
    assert(views(out@) =~= views(old(out)@).push(row@));
}

fn push_node_rows(
    n: &Node,
    connector: String,
    child_prefix: &String,
    show_threads: bool,
    collapsed: &HashSet<i32>,
    needle: &Vec<char>,
    out: &mut Vec<Row>,
)
    ensures
        views(final(out)@) == views(old(out)@) + node_rows(
            *n,
            connector@,
            child_prefix@,
            show_threads,
            collapsed@,
            needle@,
        ),
    decreases n, 1int, 0int,
{
    let has_children = shown_from_exec(n, 0, show_threads, needle);
    let is_collapsed = collapsed.contains(&n.pid().get());
    let ghost c = connector@;
    push_row(out, make_row(n, connector, has_children, is_collapsed));
    if !is_collapsed {
        let ghost mid = views(out@);
        push_rows_from(n, child_prefix, show_threads, collapsed, needle, out);
        assert(views(out@) =~= views(old(out)@) + node_rows(
            *n,
            c,
            child_prefix@,
            show_threads,
            collapsed@,
            needle@,
        ));
    } else {
        assert(views(out@) =~= views(old(out)@) + node_rows(
            *n,
            c,
            child_prefix@,
            show_threads,
            collapsed@,
            needle@,
        ));
    }
}

fn push_rows_from(
    p: &Node,
    prefix: &String,
    show_threads: bool,
    collapsed: &HashSet<i32>,
    needle: &Vec<char>,
    out: &mut Vec<Row>,
)
    ensures
        views(final(out)@) == views(old(out)@) + rows_from(
            *p,
            0,
            prefix@,
            show_threads,
            collapsed@,
            needle@,
        ),
    decreases p, 0int, 0int,
{
    let children = p.children();
    let len = children.len();
    let ghost start = views(out@);
    let mut k: usize = 0;
    while k < len
        invariant
            children@ == p.spec_children(),
            len == children@.len(),
            k <= len,
            start + rows_from(*p, 0, prefix@, show_threads, collapsed@, needle@) == views(out@)
                + rows_from(*p, k as int, prefix@, show_threads, collapsed@, needle@),
        decreases len - k,
    {
        proof {
            lemma_child_decreases(*p, k as int);
        }
        let ghost before = views(out@);
        let child = &children[k];
        if node_shown_exec(child, show_threads, needle) {
            let last = !shown_from_exec(p, k + 1, show_threads, needle);
            let (conn_tail, indent_tail) = if last {
                ("\u{2514}\u{2500} ", "   ")
            } else {
                ("\u{251c}\u{2500} ", "\u{2502}  ")
            };
            let connector = joined(prefix, conn_tail);
            let child_prefix = joined(prefix, indent_tail);
            push_node_rows(child, connector, &child_prefix, show_threads, collapsed, needle, out);
        }
        assert(views(out@) + rows_from(*p, k + 1, prefix@, show_threads, collapsed@, needle@)
            =~= before + rows_from(*p, k as int, prefix@, show_threads, collapsed@, needle@));
        k = k + 1;
    }
    assert(rows_from(*p, len as int, prefix@, show_threads, collapsed@, needle@) =~= Seq::<
        RowView,
    >::empty());
    assert(views(out@) =~= start + rows_from(*p, 0, prefix@, show_threads, collapsed@, needle@));
}

/// Flatten `tree` into table rows: the root first, then each shown child
/// subtree in order (see `flatten_spec`).  Threads are kept only when
/// `show_threads` is set; nodes whose PID is in `collapsed` keep their own
/// row but hide their subtree; a non-empty `filter` keeps the nodes whose
/// command line or name contains it, ignoring case, and their ancestors.
pub fn flatten(tree: &Tree, show_threads: bool, collapsed: &HashSet<i32>, filter: &str) -> (r: Vec<Row>)
    ensures
        views(r@) == flatten_spec(*tree, show_threads, collapsed@, filter@),
{
    let lowered = to_lowercase(filter);
    let needle = chars_of(lowered.as_str());
    let mut out: Vec<Row> = Vec::new();
    match tree.root() {
        None => {},
        Some(root) => {
            if node_shown_exec(root, show_threads, &needle) {
                let empty = String::new();
                push_node_rows(root, String::new(), &empty, show_threads, collapsed, &needle, &mut out);
            }
        },
    }
    assert(views(out@) =~= flatten_spec(*tree, show_threads, collapsed@, filter@));
    out
}

} // verus!
