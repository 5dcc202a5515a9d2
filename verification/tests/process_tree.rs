use prowl::format::Percent;
use prowl::process::{IoTotals, Node, Pid, Tree};
use prowl::time::TimeSpan;

fn make_test_node(pid: i32, name: &str) -> Node {
    Node::new(
        Pid::new(pid),
        name.to_owned(),
        String::new(),
        String::new(),
        'S',
        Percent::zero(),
        0,
        Percent::zero(),
        IoTotals::default(),
        TimeSpan::zero(),
        TimeSpan::zero(),
        String::new(),
        false,
    )
}

fn make_test_thread(pid: i32, name: &str) -> Node {
    Node::new(
        Pid::new(pid),
        name.to_owned(),
        String::new(),
        String::new(),
        'S',
        Percent::zero(),
        0,
        Percent::zero(),
        IoTotals::default(),
        TimeSpan::zero(),
        TimeSpan::zero(),
        String::new(),
        true,
    )
}

fn with_cpu_time(pid: i32, name: &str, is_thread: bool, cpu: TimeSpan) -> Node {
    Node::new(
        Pid::new(pid),
        name.to_owned(),
        String::new(),
        String::new(),
        'S',
        Percent::zero(),
        0,
        Percent::zero(),
        IoTotals::default(),
        TimeSpan::zero(),
        cpu,
        String::new(),
        is_thread,
    )
}

#[test]
fn counts_threads_and_subprocesses_recursively() {
    let mut root = make_test_node(1, "root");
    let mut child = make_test_node(2, "child");

    child.push_child(make_test_node(3, "grandchild"));
    child.push_child(make_test_thread(11, "thread-b"));
    root.push_child(child);
    root.push_child(make_test_thread(10, "thread-a"));

    assert_eq!(root.thread_count(), 2);
    assert_eq!(root.subprocess_count(), 2);
}

#[test]
fn sums_subprocess_cpu_time_recursively_excluding_threads() {
    let mut root = with_cpu_time(1, "root", false, TimeSpan::from_secs(5));
    let mut child = with_cpu_time(2, "child", false, TimeSpan::from_secs(7));
    let grandchild = with_cpu_time(3, "grandchild", false, TimeSpan::from_secs(11));
    let thread = with_cpu_time(10, "thread", true, TimeSpan::from_secs(13));

    child.push_child(grandchild);
    root.push_child(child);
    root.push_child(thread);

    assert_eq!(root.subprocess_cpu_time(), TimeSpan::from_secs(18));
}

#[test]
fn leaf_has_no_descendants() {
    let node = make_test_node(7, "leaf");
    assert_eq!(node.thread_count(), 0);
    assert_eq!(node.subprocess_count(), 0);
    assert_eq!(node.subprocess_cpu_time(), TimeSpan::zero());
}

#[test]
fn cpu_time_sum_saturates_at_the_longest_span() {
    let max = TimeSpan::from_parts(u64::MAX, 999_999_999).unwrap();
    let mut root = make_test_node(1, "root");
    root.push_child(with_cpu_time(2, "a", false, max));
    root.push_child(with_cpu_time(3, "b", false, TimeSpan::from_secs(1)));
    assert_eq!(root.subprocess_cpu_time(), max);
}

#[test]
fn threads_and_processes_partition_the_descendants() {
    let mut root = make_test_node(1, "root");
    let mut a = make_test_node(2, "a");
    a.push_child(make_test_thread(20, "t1"));
    a.push_child(make_test_thread(21, "t2"));
    a.push_child(make_test_node(22, "b"));
    root.push_child(a);
    root.push_child(make_test_thread(30, "t3"));
    // five descendants in all
    assert_eq!(root.thread_count() + root.subprocess_count(), 5);
    assert_eq!(root.thread_count(), 3);
}

#[test]
fn tree_from_nodes_makes_the_rest_children_of_the_first() {
    let tree = Tree::from_nodes(vec![
        make_test_node(1, "root"),
        make_test_node(2, "a"),
        make_test_thread(3, "t"),
    ]);
    let root = tree.root().unwrap();
    assert_eq!(root.pid().get(), 1);
    assert_eq!(root.children().len(), 2);
    assert_eq!(root.children()[0].pid().get(), 2);
    assert_eq!(root.children()[1].pid().get(), 3);
    assert!(Tree::from_nodes(Vec::new()).root().is_none());
    assert_eq!(tree.into_root().unwrap().name(), "root");
}

#[test]
fn tree_extend_appends_top_level_nodes() {
    let mut tree = Tree::from(make_test_node(1, "root"));
    tree.extend(vec![make_test_node(2, "other")]);
    assert_eq!(tree.root().unwrap().pid().get(), 1);
    assert!(Tree::default().root().is_none());
}
