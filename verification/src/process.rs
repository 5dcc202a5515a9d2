//! The process-tree data model: identifiers, per-task metrics, and the tree
//! of processes and threads below a watched root, with its aggregates.

use vstd::prelude::*;

use crate::format::Percent;
use crate::text::{decimal, push_decimal, push_str};
use crate::time::{min_nat, TimeSpan, MAX_NANOS};

verus! {

broadcast use vstd::std_specs::vec::group_vec_axioms;

/// Newtype wrapping a Linux process/thread ID.
#[derive(Copy, Clone, PartialEq, Eq, Hash, Debug, Structural)]
pub struct Pid(i32);

impl View for Pid {
    type V = i32;

    closed spec fn view(&self) -> i32 {
        self.0
    }
}

impl Pid {
    /// Two PIDs are equal exactly when their raw values are.
    pub proof fn lemma_view_eq(a: Pid, b: Pid)
        ensures
            a == b <==> a@ == b@,
    {
    }

    pub fn new(pid: i32) -> (r: Self)
        ensures
            r@ == pid,
    {
        Pid(pid)
    }

    /// Return the raw `i32` value.
    pub fn get(self) -> (r: i32)
        ensures
            r == self@,
    {
        self.0
    }
}

/// Cumulative read and write bytes for a process.
#[derive(Copy, Clone, Debug)]
pub struct IoTotals {
    read: u64,
    write: u64,
}

impl IoTotals {
    pub closed spec fn spec_read(self) -> u64 {
        self.read
    }

    pub closed spec fn spec_write(self) -> u64 {
        self.write
    }

    pub fn new(read: u64, write: u64) -> (r: Self)
        ensures
            r.spec_read() == read,
            r.spec_write() == write,
    {
        Self { read, write }
    }

    pub fn read(self) -> (r: u64)
        ensures
            r == self.spec_read(),
    {
        self.read
    }

    pub fn write(self) -> (r: u64)
        ensures
            r == self.spec_write(),
    {
        self.write
    }
}

impl Default for IoTotals {
    /// No bytes read or written.
    fn default() -> (r: Self)
        ensures
            r.spec_read() == 0,
            r.spec_write() == 0,
    {
        Self { read: 0, write: 0 }
    }
}

/// System-level constants needed for CPU/memory percentage calculations.
///
/// Collected once at startup and passed through the sampling call chain
/// so callers don't have to remember unit conversions.
#[derive(Copy, Clone, Debug)]
pub struct SystemConfig {
    ticks_per_second: u64,
    page_size: u64,
    /// Total physical RAM in bytes (already multiplied from kilobytes at construction).
    mem_total_bytes: u64,
}

impl SystemConfig {
    pub closed spec fn spec_ticks_per_second(self) -> u64 {
        self.ticks_per_second
    }

    pub closed spec fn spec_page_size(self) -> u64 {
        self.page_size
    }

    pub closed spec fn spec_mem_total_bytes(self) -> u64 {
        self.mem_total_bytes
    }

    pub fn new(ticks_per_second: u64, page_size: u64, mem_total_bytes: u64) -> (r: Self)
        ensures
            r.spec_ticks_per_second() == ticks_per_second,
            r.spec_page_size() == page_size,
            r.spec_mem_total_bytes() == mem_total_bytes,
    {
        Self { ticks_per_second, page_size, mem_total_bytes }
    }

    pub fn ticks_per_second(self) -> (r: u64)
        ensures
            r == self.spec_ticks_per_second(),
    {
        self.ticks_per_second
    }

    pub fn page_size(self) -> (r: u64)
        ensures
            r == self.spec_page_size(),
    {
        self.page_size
    }

    pub fn mem_total_bytes(self) -> (r: u64)
        ensures
            r == self.spec_mem_total_bytes(),
    {
        self.mem_total_bytes
    }
}

/// A process tree rooted at a single `Node`.
///
/// The first node is the root; building from a list of nodes makes the
/// first one the root and appends the rest as its direct children.
pub struct Tree {
    nodes: Vec<Node>,
}

/// Full process/thread node in the tree.
pub struct Node {
    pid: Pid,
    name: String,
    cmdline: String,
    user: String,
    state: char,
    cpu_pct: Percent,
    mem_rss_bytes: u64,
    mem_pct: Percent,
    /// Cumulative read/write bytes from `/proc/<pid>/io` (0 on permission denied).
    io: IoTotals,
    elapsed: TimeSpan,
    /// Total CPU time consumed (utime + stime from `/proc/<pid>/stat`).
    cpu_time: TimeSpan,
    parent_name: String,
    children: Tree,
    is_thread: bool,
}

impl Tree {
    /// The top-level nodes; a tree built by this library has at most one.
    pub closed spec fn spec_nodes(self) -> Seq<Node> {
        self.nodes@
    }

    /// The root node, if the tree is non-empty.
    pub fn root(&self) -> (r: Option<&Node>)
        ensures
            r is Some <==> self.spec_nodes().len() > 0,
            r matches Some(n) ==> *n == self.spec_nodes()[0],
    {
        if self.nodes.len() == 0 {
            None
        } else {
            Some(&self.nodes[0])
        }
    }

    /// Consume the tree and return the root node, if non-empty.
    pub fn into_root(self) -> (r: Option<Node>)
        ensures
            r is Some <==> self.spec_nodes().len() > 0,
            r matches Some(n) ==> n == self.spec_nodes()[0],
    {
        let mut nodes = self.nodes;
        if nodes.len() == 0 {
            None
        } else {
            Some(nodes.remove(0))
        }
    }

    /// The tree whose only node is `node`.
    pub fn from(node: Node) -> (r: Tree)
        ensures
            r.spec_nodes() == seq![node],
    {
        let mut nodes = Vec::new();
        nodes.push(node);
        Tree { nodes }
    }

    /// Build a tree: the first node becomes the root, and every following
    /// node is appended, in order, as a direct child of it.
    pub fn from_nodes(nodes: Vec<Node>) -> (r: Tree)
        ensures
            nodes@.len() == 0 ==> r.spec_nodes().len() == 0,
            nodes@.len() > 0 ==> {
                &&& r.spec_nodes().len() == 1
                &&& r.spec_nodes()[0].same_fields(nodes@[0])
                &&& r.spec_nodes()[0].spec_children() == nodes@[0].spec_children() + nodes@.drop_first()
            },
    {
        let mut rest = nodes;
        if rest.len() == 0 {
            return Tree::default();
        }
        let mut root = rest.remove(0);
        root.children.nodes.append(&mut rest);
        Tree::from(root)
    }

    /// Append `nodes`, in order, as further top-level nodes.
    pub fn extend(&mut self, nodes: Vec<Node>)
        ensures
            final(self).spec_nodes() == old(self).spec_nodes() + nodes@,
    {
        let mut more = nodes;
        self.nodes.append(&mut more);
    }
}

impl Default for Tree {
    /// The empty tree.
    fn default() -> (r: Tree)
        ensures
            r.spec_nodes().len() == 0,
    {
        Tree { nodes: Vec::new() }
    }
}

/// The sum of `weight` over every node of `forest`, at every depth.
pub closed spec fn forest_sum(forest: Seq<Node>, weight: spec_fn(Node) -> nat) -> nat
    decreases forest,
{
    if forest.len() == 0 {
        0
    } else {
        let last = forest.last();
        forest_sum(forest.drop_last(), weight) + weight(last) + forest_sum(
            last.children.nodes@,
            weight,
        )
    }
}

/// The sum of `weight` over `node` and every node below it.
pub open spec fn subtree_sum(node: Node, weight: spec_fn(Node) -> nat) -> nat {
    weight(node) + forest_sum(node.spec_children(), weight)
}

/// Weight 1 on every node: sums count nodes.
pub open spec fn each_node() -> spec_fn(Node) -> nat {
    |n: Node| 1nat
}

/// Weight 1 on thread nodes only.
pub open spec fn each_thread() -> spec_fn(Node) -> nat {
    |n: Node| if n.spec_is_thread() { 1nat } else { 0nat }
}

/// Weight 1 on process (non-thread) nodes only.
pub open spec fn each_process() -> spec_fn(Node) -> nat {
    |n: Node| if n.spec_is_thread() { 0nat } else { 1nat }
}

/// A process node weighs its own CPU time; a thread node weighs nothing.
pub open spec fn process_cpu_nanos() -> spec_fn(Node) -> nat {
    |n: Node| if n.spec_is_thread() { 0nat } else { n.spec_cpu_time()@ }
}

/// Every node below `node` is a thread or a process, never both: the
/// thread count and the process count below a node add up to the number
/// of nodes below it.
pub proof fn law_descendants_partition(node: Node)
    ensures
        forest_sum(node.spec_children(), each_thread()) + forest_sum(node.spec_children(), each_process())
            == node.spec_size() - 1,
{
    lemma_threads_plus_processes(node.spec_children());
}

/// Aggregates are additive over children: appending a child adds exactly
/// that child's subtree to every sum over the children.
pub proof fn law_push_child_adds(children: Seq<Node>, child: Node, weight: spec_fn(Node) -> nat)
    ensures
        forest_sum(children.push(child), weight) == forest_sum(children, weight) + subtree_sum(
            child,
            weight,
        ),
{
    assert(children.push(child).drop_last() =~= children);
}

/// A node's children are strictly smaller than the node, so recursion over
/// children terminates.
pub proof fn lemma_child_decreases(node: Node, i: int)
    requires
        0 <= i < node.spec_children().len(),
    ensures
        decreases_to!(node => node.spec_children()[i]),
{
    assert(decreases_to!(node.children.nodes => node.children.nodes@));
    assert(decreases_to!(node => node.children.nodes@[i]));
}

/// The sum over no nodes is zero.
pub proof fn lemma_forest_sum_empty(weight: spec_fn(Node) -> nat)
    ensures
        forest_sum(Seq::empty(), weight) == 0,
{
}

/// Adding the next sibling to a prefix of a forest adds that sibling's subtree.
pub proof fn lemma_forest_sum_take(forest: Seq<Node>, i: int, weight: spec_fn(Node) -> nat)
    requires
        0 <= i < forest.len(),
    ensures
        forest_sum(forest.take(i + 1), weight) == forest_sum(forest.take(i), weight)
            + subtree_sum(forest[i], weight),
{
    assert(forest.take(i + 1).drop_last() =~= forest.take(i));
}

/// Sums are monotone in the weight.
pub proof fn lemma_forest_sum_mono(
    forest: Seq<Node>,
    small: spec_fn(Node) -> nat,
    large: spec_fn(Node) -> nat,
)
    requires
        forall|n: Node| #[trigger] small(n) <= large(n),
    ensures
        forest_sum(forest, small) <= forest_sum(forest, large),
    decreases forest,
{
    if forest.len() > 0 {
        lemma_forest_sum_mono(forest.drop_last(), small, large);
        lemma_forest_sum_mono(forest.last().children.nodes@, small, large);
    }
}

/// A weight of at most one per node sums to at most the number of nodes.
proof fn lemma_unit_weight_bounded(node: Node, weight: spec_fn(Node) -> nat)
    requires
        forall|n: Node| #[trigger] weight(n) <= 1,
    ensures
        subtree_sum(node, weight) <= subtree_sum(node, each_node()),
{
    lemma_forest_sum_mono(node.spec_children(), weight, each_node());
}

/// Every node below `node` is either a thread or a process: the two
/// counts add up to the number of nodes below it.
pub proof fn lemma_threads_plus_processes(forest: Seq<Node>)
    ensures
        forest_sum(forest, each_thread()) + forest_sum(forest, each_process()) == forest_sum(
            forest,
            each_node(),
        ),
    decreases forest,
{
    if forest.len() > 0 {
        lemma_threads_plus_processes(forest.drop_last());
        lemma_threads_plus_processes(forest.last().children.nodes@);
    }
}

impl Node {
    pub closed spec fn spec_pid(self) -> Pid {
        self.pid
    }

    pub closed spec fn spec_name(self) -> Seq<char> {
        self.name@
    }

    pub closed spec fn spec_cmdline(self) -> Seq<char> {
        self.cmdline@
    }

    pub closed spec fn spec_user(self) -> Seq<char> {
        self.user@
    }

    pub closed spec fn spec_state(self) -> char {
        self.state
    }

    pub closed spec fn spec_cpu_pct(self) -> Percent {
        self.cpu_pct
    }

    pub closed spec fn spec_mem_rss_bytes(self) -> u64 {
        self.mem_rss_bytes
    }

    pub closed spec fn spec_mem_pct(self) -> Percent {
        self.mem_pct
    }

    pub closed spec fn spec_io(self) -> IoTotals {
        self.io
    }

    pub closed spec fn spec_elapsed(self) -> TimeSpan {
        self.elapsed
    }

    pub closed spec fn spec_cpu_time(self) -> TimeSpan {
        self.cpu_time
    }

    pub closed spec fn spec_parent_name(self) -> Seq<char> {
        self.parent_name@
    }

    /// The direct children, in order.
    pub closed spec fn spec_children(self) -> Seq<Node> {
        self.children.nodes@
    }

    pub closed spec fn spec_is_thread(self) -> bool {
        self.is_thread
    }

    /// `self` and `other` agree on every field but their children.
    pub open spec fn same_fields(self, other: Node) -> bool {
        &&& self.spec_pid() == other.spec_pid()
        &&& self.spec_name() == other.spec_name()
        &&& self.spec_cmdline() == other.spec_cmdline()
        &&& self.spec_user() == other.spec_user()
        &&& self.spec_state() == other.spec_state()
        &&& self.spec_cpu_pct() == other.spec_cpu_pct()
        &&& self.spec_mem_rss_bytes() == other.spec_mem_rss_bytes()
        &&& self.spec_mem_pct() == other.spec_mem_pct()
        &&& self.spec_io() == other.spec_io()
        &&& self.spec_elapsed() == other.spec_elapsed()
        &&& self.spec_cpu_time() == other.spec_cpu_time()
        &&& self.spec_parent_name() == other.spec_parent_name()
        &&& self.spec_is_thread() == other.spec_is_thread()
    }

    /// The number of nodes in this subtree, `self` included.
    pub open spec fn spec_size(self) -> nat {
        subtree_sum(self, each_node())
    }

    /// Build a leaf node (no children) from sampled values.
    pub fn new(
        pid: Pid,
        name: String,
        cmdline: String,
        user: String,
        state: char,
        cpu_pct: Percent,
        mem_rss_bytes: u64,
        mem_pct: Percent,
        io: IoTotals,
        elapsed: TimeSpan,
        cpu_time: TimeSpan,
        parent_name: String,
        is_thread: bool,
    ) -> (r: Node)
        ensures
            r.spec_pid() == pid,
            r.spec_name() == name@,
            r.spec_cmdline() == cmdline@,
            r.spec_user() == user@,
            r.spec_state() == state,
            r.spec_cpu_pct() == cpu_pct,
            r.spec_mem_rss_bytes() == mem_rss_bytes,
            r.spec_mem_pct() == mem_pct,
            r.spec_io() == io,
            r.spec_elapsed() == elapsed,
            r.spec_cpu_time() == cpu_time,
            r.spec_parent_name() == parent_name@,
            r.spec_children() == Seq::<Node>::empty(),
            r.spec_is_thread() == is_thread,
    {
        Node {
            pid,
            name,
            cmdline,
            user,
            state,
            cpu_pct,
            mem_rss_bytes,
            mem_pct,
            io,
            elapsed,
            cpu_time,
            parent_name,
            children: Tree { nodes: Vec::new() },
            is_thread,
        }
    }

    /// Append a fully-formed child `Node` as the last direct child.
    pub fn push_child(&mut self, child: Node)
        ensures
            final(self).spec_children() == old(self).spec_children().push(child),
            final(self).same_fields(*old(self)),
    {
        self.children.nodes.push(child);
    }

    pub fn pid(&self) -> (r: Pid)
        ensures
            r == self.spec_pid(),
    {
        self.pid
    }

    pub fn name(&self) -> (r: &str)
        ensures
            r@ == self.spec_name(),
    {
        self.name.as_str()
    }

    pub fn cmdline(&self) -> (r: &str)
        ensures
            r@ == self.spec_cmdline(),
    {
        self.cmdline.as_str()
    }

    pub fn user(&self) -> (r: &str)
        ensures
            r@ == self.spec_user(),
    {
        self.user.as_str()
    }

    pub fn state(&self) -> (r: char)
        ensures
            r == self.spec_state(),
    {
        self.state
    }

    pub fn cpu_pct(&self) -> (r: Percent)
        ensures
            r == self.spec_cpu_pct(),
    {
        self.cpu_pct
    }

    pub fn mem_rss_bytes(&self) -> (r: u64)
        ensures
            r == self.spec_mem_rss_bytes(),
    {
        self.mem_rss_bytes
    }

    pub fn mem_pct(&self) -> (r: Percent)
        ensures
            r == self.spec_mem_pct(),
    {
        self.mem_pct
    }

    pub fn io(&self) -> (r: IoTotals)
        ensures
            r == self.spec_io(),
    {
        self.io
    }

    pub fn elapsed(&self) -> (r: TimeSpan)
        ensures
            r == self.spec_elapsed(),
    {
        self.elapsed
    }

    pub fn cpu_time(&self) -> (r: TimeSpan)
        ensures
            r == self.spec_cpu_time(),
    {
        self.cpu_time
    }

    pub fn parent_name(&self) -> (r: &str)
        ensures
            r@ == self.spec_parent_name(),
    {
        self.parent_name.as_str()
    }

    pub fn children(&self) -> (r: &[Node])
        ensures
            r@ == self.spec_children(),
    {
        self.children.nodes.as_slice()
    }

    pub fn is_thread(&self) -> (r: bool)
        ensures
            r == self.spec_is_thread(),
    {
        self.is_thread
    }

    /// Count all thread nodes contained in this subtree, excluding `self`.
    pub fn thread_count(&self) -> (r: usize)
        requires
            self.spec_size() <= usize::MAX,
        ensures
            r == forest_sum(self.spec_children(), each_thread()),
    {
        let r = self.thread_count_inclusive();
        r - if self.is_thread { 1 } else { 0 }
    }

    /// Count all descendant process nodes in this subtree, excluding `self`.
    pub fn subprocess_count(&self) -> (r: usize)
        requires
            self.spec_size() <= usize::MAX,
        ensures
            r == forest_sum(self.spec_children(), each_process()),
    {
        let r = self.subprocess_count_inclusive();
        r - if self.is_thread { 0 } else { 1 }
    }

    /// Sum CPU time across all descendant process nodes, excluding `self`,
    /// saturating at the longest representable span.
    pub fn subprocess_cpu_time(&self) -> (r: TimeSpan)
        ensures
            r@ == min_nat(forest_sum(self.spec_children(), process_cpu_nanos()), MAX_NANOS as nat),
    {
        let mut acc = TimeSpan::zero();
        let n = self.children.nodes.len();
        let ghost forest = self.children.nodes@;
        for i in 0..n
            invariant
                n == forest.len(),
                forest == self.children.nodes@,
                acc@ == min_nat(forest_sum(forest.take(i as int), process_cpu_nanos()), MAX_NANOS as nat),
        {
            let child_total = self.children.nodes[i].subprocess_cpu_time_inclusive();
            proof {
                lemma_forest_sum_take(forest, i as int, process_cpu_nanos());
                lemma_sum_saturated(
                    forest_sum(forest.take(i as int), process_cpu_nanos()),
                    subtree_sum(forest[i as int], process_cpu_nanos()),
                );
            }
            acc = acc.saturating_add(child_total);
        }
        proof {
            assert(forest.take(n as int) =~= forest);
        }
        acc
    }

    fn thread_count_inclusive(&self) -> (r: usize)
        requires
            self.spec_size() <= usize::MAX,
        ensures
            r == subtree_sum(*self, each_thread()),
        decreases self,
    {
        let mut acc: usize = if self.is_thread { 1 } else { 0 };
        let n = self.children.nodes.len();
        let ghost forest = self.children.nodes@;
        proof {
            lemma_unit_weight_bounded(*self, each_thread());
        }
        for i in 0..n
            invariant
                n == forest.len(),
                forest == self.children.nodes@,
                forest == self.spec_children(),
                self.spec_size() <= usize::MAX,
                acc == each_thread()(*self) + forest_sum(forest.take(i as int), each_thread()),
        {
            proof {
                lemma_forest_sum_take(forest, i as int, each_node());
                lemma_forest_sum_take(forest, i as int, each_thread());
                lemma_prefix_bounded(forest, i as int + 1, each_node());
                lemma_unit_weight_bounded(forest[i as int], each_thread());
                lemma_forest_sum_mono(forest.take(i as int + 1), each_thread(), each_node());
            }
            let c = self.children.nodes[i].thread_count_inclusive();
            acc = acc + c;
        }
        proof {
            assert(forest.take(n as int) =~= forest);
        }
        acc
    }

    fn subprocess_count_inclusive(&self) -> (r: usize)
        requires
            self.spec_size() <= usize::MAX,
        ensures
            r == subtree_sum(*self, each_process()),
        decreases self,
    {
        let mut acc: usize = if self.is_thread { 0 } else { 1 };
        let n = self.children.nodes.len();
        let ghost forest = self.children.nodes@;
        for i in 0..n
            invariant
                n == forest.len(),
                forest == self.children.nodes@,
                forest == self.spec_children(),
                self.spec_size() <= usize::MAX,
                acc == each_process()(*self) + forest_sum(forest.take(i as int), each_process()),
        {
            proof {
                lemma_forest_sum_take(forest, i as int, each_node());
                lemma_forest_sum_take(forest, i as int, each_process());
                lemma_prefix_bounded(forest, i as int + 1, each_node());
                lemma_unit_weight_bounded(forest[i as int], each_process());
                lemma_forest_sum_mono(forest.take(i as int + 1), each_process(), each_node());
            }
            let c = self.children.nodes[i].subprocess_count_inclusive();
            acc = acc + c;
        }
        proof {
            assert(forest.take(n as int) =~= forest);
        }
        acc
    }

    fn subprocess_cpu_time_inclusive(&self) -> (r: TimeSpan)
        ensures
            r@ == min_nat(subtree_sum(*self, process_cpu_nanos()), MAX_NANOS as nat),
        decreases self,
    {
        let own = if self.is_thread {
            TimeSpan::zero()
        } else {
            self.cpu_time
        };
        proof {
            use_type_invariant(&self.cpu_time);
        }
        let mut acc = own;
        let n = self.children.nodes.len();
        let ghost forest = self.children.nodes@;
        for i in 0..n
            invariant
                n == forest.len(),
                forest == self.children.nodes@,
                forest == self.spec_children(),
                acc@ == min_nat(
                    process_cpu_nanos()(*self) + forest_sum(forest.take(i as int), process_cpu_nanos()),
                    MAX_NANOS as nat,
                ),
        {
            let child_total = self.children.nodes[i].subprocess_cpu_time_inclusive();
            proof {
                lemma_forest_sum_take(forest, i as int, process_cpu_nanos());
                lemma_sum_saturated(
                    process_cpu_nanos()(*self) + forest_sum(forest.take(i as int), process_cpu_nanos()),
                    subtree_sum(forest[i as int], process_cpu_nanos()),
                );
            }
            acc = acc.saturating_add(child_total);
        }
        proof {
            assert(forest.take(n as int) =~= forest);
        }
        acc
    }
}

/// Saturating two partial sums, then their sum, saturates the total.
proof fn lemma_sum_saturated(a: nat, b: nat)
    ensures
        min_nat(min_nat(a, MAX_NANOS as nat) + min_nat(b, MAX_NANOS as nat), MAX_NANOS as nat)
            == min_nat(a + b, MAX_NANOS as nat),
{
}

/// A prefix of a forest holds no more nodes than the whole forest.
proof fn lemma_prefix_bounded(forest: Seq<Node>, i: int, weight: spec_fn(Node) -> nat)
    requires
        0 <= i <= forest.len(),
    ensures
        forest_sum(forest.take(i), weight) <= forest_sum(forest, weight),
    decreases forest.len() - i,
{
    if i < forest.len() {
        lemma_forest_sum_take(forest, i, weight);
        lemma_prefix_bounded(forest, i + 1, weight);
    } else {
        assert(forest.take(i) =~= forest);
    }
}

/// Linux scheduling policy.
///
/// Mirrors the small set of `SCHED_*` constants exposed via
/// `/proc/<pid>/stat`'s `policy` field.  Unknown values keep the raw integer
/// for diagnostic display.
#[derive(Copy, Clone, Debug, PartialEq, Eq, Structural)]
pub enum SchedPolicy {
    Normal,
    Fifo,
    RoundRobin,
    Batch,
    Idle,
    Deadline,
    Unknown(u32),
}

/// The policy that the kernel's raw `policy` value stands for
/// (`SCHED_NORMAL`=0, `FIFO`=1, `RR`=2, `BATCH`=3, `IDLE`=5, `DEADLINE`=6).
pub open spec fn policy_of(raw: u32) -> SchedPolicy {
    if raw == 0 {
        SchedPolicy::Normal
    } else if raw == 1 {
        SchedPolicy::Fifo
    } else if raw == 2 {
        SchedPolicy::RoundRobin
    } else if raw == 3 {
        SchedPolicy::Batch
    } else if raw == 5 {
        SchedPolicy::Idle
    } else if raw == 6 {
        SchedPolicy::Deadline
    } else {
        SchedPolicy::Unknown(raw)
    }
}

/// The short label shown for a policy; unknown values show as `?(raw)`.
pub open spec fn policy_label(p: SchedPolicy) -> Seq<char> {
    match p {
        SchedPolicy::Normal => "OTHER"@,
        SchedPolicy::Fifo => "FIFO"@,
        SchedPolicy::RoundRobin => "RR"@,
        SchedPolicy::Batch => "BATCH"@,
        SchedPolicy::Idle => "IDLE"@,
        SchedPolicy::Deadline => "DEADLINE"@,
        SchedPolicy::Unknown(raw) => "?("@ + decimal(raw as nat) + ")"@,
    }
}

/// The name of the `SCHED_*` constant that `<linux/sched.h>` gives the
/// number `raw`, as the detail panel shows it (`SCHED_NORMAL` is shown by
/// its other name, `OTHER`); `None` for a number it does not define.
pub open spec fn sched_constant_name(raw: u32) -> Option<Seq<char>> {
    if raw == 0 {
        Some("OTHER"@)
    } else if raw == 1 {
        Some("FIFO"@)
    } else if raw == 2 {
        Some("RR"@)
    } else if raw == 3 {
        Some("BATCH"@)
    } else if raw == 5 {
        Some("IDLE"@)
    } else if raw == 6 {
        Some("DEADLINE"@)
    } else {
        None
    }
}

/// Decoding then labelling names the kernel's constant: the label of the
/// policy decoded from `raw` is the name `<linux/sched.h>` gives `raw`,
/// and a number it does not define shows as `?(raw)`.
pub proof fn law_decoded_label_names_the_constant(raw: u32)
    ensures
        policy_label(policy_of(raw)) == match sched_constant_name(raw) {
            Some(name) => name,
            None => "?("@ + decimal(raw as nat) + ")"@,
        },
{
}

/// Decoding loses nothing: different raw numbers decode to different
/// policies, and an unknown number is kept as it came.
pub proof fn law_decoding_is_injective(a: u32, b: u32)
    ensures
        policy_of(a) == policy_of(b) ==> a == b,
        policy_of(a) matches SchedPolicy::Unknown(r) ==> r == a && sched_constant_name(a) is None,
{
}

impl SchedPolicy {
    /// Decode the kernel's raw `policy` value.
    pub fn from_raw(raw: u32) -> (r: Self)
        ensures
            r == policy_of(raw),
    {
        match raw {
            0 => Self::Normal,
            1 => Self::Fifo,
            2 => Self::RoundRobin,
            3 => Self::Batch,
            5 => Self::Idle,
            6 => Self::Deadline,
            other => Self::Unknown(other),
        }
    }

    pub fn label(self) -> (r: String)
        ensures
            r@ == policy_label(self),
    {
        match self {
            Self::Normal => "OTHER".to_owned(),
            Self::Fifo => "FIFO".to_owned(),
            Self::RoundRobin => "RR".to_owned(),
            Self::Batch => "BATCH".to_owned(),
            Self::Idle => "IDLE".to_owned(),
            Self::Deadline => "DEADLINE".to_owned(),
            Self::Unknown(raw) => {
                let mut s = "?(".to_owned();
                push_decimal(&mut s, raw as u64);
                push_str(&mut s, ")");
                s
            },
        }
    }
}

/// Detailed information about a single process or thread, fetched on-demand
/// when the user opens the detail panel.
///
/// `is_thread` selects between two renderer layouts: the process layout
/// shows process-wide context (memory, FDs, environ, cgroup) while the
/// thread layout drops those fields (they belong to the parent process)
/// and emphasises per-task scheduling and activity counters.
pub struct ProcessDetail {
    pub pid: Pid,
    /// True when this PID is a non-leader thread (`tgid != pid`).
    pub is_thread: bool,
    /// Thread group ID — equals the parent process's PID for threads.
    pub tgid: Pid,
    pub state: char,
    pub exe: Option<String>,
    pub cwd: Option<String>,
    pub fd_count: usize,
    /// Soft `RLIMIT_NOFILE` (None for unlimited / unknown).
    pub fd_soft_limit: Option<u64>,
    /// Environment variables as (key, value) pairs, sorted by key.
    pub environ: Vec<(String, String)>,
    pub nice: i64,
    pub priority: i64,
    pub policy: Option<SchedPolicy>,
    pub rt_priority: Option<u32>,
    /// Last logical CPU the task ran on.
    pub last_cpu: Option<i32>,
    /// Resident-set high water mark — peak resident memory.
    pub vm_hwm_kb: Option<u64>,
    pub vm_size_kb: Option<u64>,
    pub vm_rss_kb: Option<u64>,
    pub vm_data_kb: Option<u64>,
    pub vm_stack_kb: Option<u64>,
    pub vm_swap_kb: Option<u64>,
    pub voluntary_ctxt_switches: Option<u64>,
    pub nonvoluntary_ctxt_switches: Option<u64>,
    /// Minor page faults — page reclaims that did not require disk I/O.
    pub minor_faults: u64,
    /// Major page faults — required reading a page from disk.
    pub major_faults: u64,
    pub user_cpu_time: TimeSpan,
    pub system_cpu_time: TimeSpan,
    /// Kernel function the task is sleeping in, when applicable.
    pub wchan: Option<String>,
    pub oom_score: Option<u16>,
    pub oom_score_adj: Option<i16>,
    pub thread_count: Option<u64>,
    /// First non-empty cgroup path from `/proc/<pid>/cgroup`.
    pub cgroup: Option<String>,
}

} // verus!
