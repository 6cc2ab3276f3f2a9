use uffs::walker::DirNode;
use uffs::walker::WalkStrategy;
use uffs::walker::drain_tree;

fn leaf(files: u64) -> DirNode {
    DirNode { files, denied: false, children: Vec::new() }
}

fn node(files: u64, children: Vec<DirNode>) -> DirNode {
    DirNode { files, denied: false, children }
}

fn denied_node(files: u64, children: Vec<DirNode>) -> DirNode {
    DirNode { files, denied: true, children }
}

fn sample_tree() -> DirNode {
    node(2, vec![leaf(3), node(1, vec![leaf(4)])])
}

#[test]
fn counts_match_tree_totals() {
    // 2 + 3 + 1 + 4 files, 3 subdirectories below the root.
    let r = drain_tree(sample_tree(), WalkStrategy::BulkSyscall);
    assert_eq!(r.files, 10);
    assert_eq!(r.dirs, 3);
}

#[test]
fn all_strategies_agree() {
    let a = drain_tree(sample_tree(), WalkStrategy::BoundedConcurrent);
    let b = drain_tree(sample_tree(), WalkStrategy::UnboundedSequential);
    let c = drain_tree(sample_tree(), WalkStrategy::NativeRecursive);
    let d = drain_tree(sample_tree(), WalkStrategy::BulkSyscall);
    assert_eq!((a.files, a.dirs), (10, 3));
    assert_eq!((b.files, b.dirs), (10, 3));
    assert_eq!((c.files, c.dirs), (10, 3));
    assert_eq!((d.files, d.dirs), (10, 3));
}

#[test]
fn repeated_runs_agree() {
    let r1 = drain_tree(sample_tree(), WalkStrategy::BulkSyscall);
    let r2 = drain_tree(sample_tree(), WalkStrategy::BulkSyscall);
    assert_eq!(r1.files, r2.files);
    assert_eq!(r1.dirs, r2.dirs);
    assert_eq!(r1.pops, r2.pops);
}

#[test]
fn pops_at_most_dirs_plus_one() {
    let r = drain_tree(sample_tree(), WalkStrategy::BulkSyscall);
    assert!(r.pops <= r.dirs + 1);
    assert_eq!(r.pops, 4);
}

#[test]
fn empty_root_yields_nothing() {
    let r = drain_tree(leaf(0), WalkStrategy::BulkSyscall);
    assert_eq!(r.files, 0);
    assert_eq!(r.dirs, 0);
    assert_eq!(r.pops, 1);
}

#[test]
fn denied_subtree_contributes_nothing() {
    // Same shape as sample_tree, but the subtree under `b` is denied:
    // `b` is still discovered and counted by the root, its contents are not.
    let tree = node(2, vec![leaf(3), denied_node(1, vec![leaf(4)])]);
    let r = drain_tree(tree, WalkStrategy::BulkSyscall);
    assert_eq!(r.files, 5); // 2 + 3; nothing from the denied subtree
    assert_eq!(r.dirs, 2); // both children counted, nothing below `b`
}

#[test]
fn denied_subtree_leaves_siblings_alone() {
    let with_contents = node(2, vec![leaf(3), denied_node(1, vec![leaf(4)])]);
    let pruned = node(2, vec![leaf(3), denied_node(0, vec![])]);
    let r1 = drain_tree(with_contents, WalkStrategy::BulkSyscall);
    let r2 = drain_tree(pruned, WalkStrategy::BulkSyscall);
    assert_eq!(r1.files, r2.files);
    assert_eq!(r1.dirs, r2.dirs);
}

#[test]
fn deep_chain_terminates_with_exact_pops() {
    // A chain of 100 directories, one file each.
    let mut tree = leaf(1);
    for _ in 0..99 {
        tree = node(1, vec![tree]);
    }
    let r = drain_tree(tree, WalkStrategy::BoundedConcurrent);
    assert_eq!(r.files, 100);
    assert_eq!(r.dirs, 99);
    assert_eq!(r.pops, 100);
}
