//! Directory-tree traversal: a frontier of pending directories is drained,
//! classifying each directory's entries and accumulating file and directory
//! counts.
//!
//! The tree being walked is modelled as an owned snapshot (`DirNode`): each
//! node knows how many plain files sit directly inside it, whether listing it
//! is denied, and its subdirectories. Draining a frontier seeded with the
//! root visits every reachable directory exactly once.

use vstd::prelude::*;

verus! {

/// One directory of a finite, acyclic, non-hardlinked directory tree.
///
/// `denied` marks a directory whose listing fails benignly (access denied,
/// path not found): it is still discovered and counted by its parent, but
/// its own contents contribute nothing.
pub struct DirNode {
    /// Number of plain files directly inside this directory.
    pub files: u64,
    /// Listing this directory fails benignly; its contents stay invisible.
    pub denied: bool,
    /// Immediate subdirectories.
    pub children: Vec<DirNode>,
}

/// Files a traversal started at `t` reports: none if `t` cannot be listed,
/// otherwise `t`'s own files plus those of its subtrees.
pub open spec fn visible_files(t: DirNode) -> nat
    decreases t,
{
    if t.denied {
        0
    } else {
        t.files as nat + files_of(t.children@)
    }
}

/// Sum of `visible_files` over a sequence of directories.
pub open spec fn files_of(s: Seq<DirNode>) -> nat
    decreases s,
{
    if s.len() == 0 {
        0
    } else {
        visible_files(s[0]) + files_of(s.drop_first())
    }
}

/// Directories a traversal started at `t` reports: each child that `t`
/// discovers counts once, whether or not that child can itself be listed.
pub open spec fn visible_dirs(t: DirNode) -> nat
    decreases t,
{
    if t.denied {
        0
    } else {
        t.children@.len() + dirs_of(t.children@)
    }
}

/// Sum of `visible_dirs` over a sequence of directories.
pub open spec fn dirs_of(s: Seq<DirNode>) -> nat
    decreases s,
{
    if s.len() == 0 {
        0
    } else {
        visible_dirs(s[0]) + dirs_of(s.drop_first())
    }
}

/// Number of frontier pops a traversal of `t` performs: `t` itself is popped
/// once, and every discovered subdirectory is popped in turn.
pub open spec fn expansions(t: DirNode) -> nat
    decreases t,
{
    if t.denied {
        1
    } else {
        1 + pops_of(t.children@)
    }
}

/// Sum of `expansions` over a sequence of directories.
pub open spec fn pops_of(s: Seq<DirNode>) -> nat
    decreases s,
{
    if s.len() == 0 {
        0
    } else {
        expansions(s[0]) + pops_of(s.drop_first())
    }
}

/// All files recorded in the snapshot, whether reachable or not.
pub open spec fn total_files(t: DirNode) -> nat
    decreases t,
{
    t.files as nat + tfiles_of(t.children@)
}

/// Sum of `total_files` over a sequence of directories.
pub open spec fn tfiles_of(s: Seq<DirNode>) -> nat
    decreases s,
{
    if s.len() == 0 {
        0
    } else {
        total_files(s[0]) + tfiles_of(s.drop_first())
    }
}

/// Number of directories in the snapshot, the root included.
pub open spec fn node_count(t: DirNode) -> nat
    decreases t,
{
    1 + nodes_of(t.children@)
}

/// Sum of `node_count` over a sequence of directories.
pub open spec fn nodes_of(s: Seq<DirNode>) -> nat
    decreases s,
{
    if s.len() == 0 {
        0
    } else {
        node_count(s[0]) + nodes_of(s.drop_first())
    }
}

/// No directory in the tree refuses to be listed.
pub open spec fn all_accessible(t: DirNode) -> bool
    decreases t,
{
    &&& !t.denied
    &&& forall|i: int|
        0 <= i < t.children@.len() ==> all_accessible(#[trigger] t.children@[i])
}

/// The three per-directory sums all distribute over concatenation.
proof fn lemma_sums_concat(a: Seq<DirNode>, b: Seq<DirNode>)
    ensures
        files_of(a + b) == files_of(a) + files_of(b),
        dirs_of(a + b) == dirs_of(a) + dirs_of(b),
        pops_of(a + b) == pops_of(a) + pops_of(b),
    decreases a,
{
    if a.len() == 0 {
        assert(a + b =~= b);
    } else {
        assert((a + b).drop_first() =~= a.drop_first() + b);
        lemma_sums_concat(a.drop_first(), b);
    }
}

/// The three per-directory sums over a one-directory sequence.
proof fn lemma_sums_singleton(t: DirNode)
    ensures
        files_of(seq![t]) == visible_files(t),
        dirs_of(seq![t]) == visible_dirs(t),
        pops_of(seq![t]) == expansions(t),
{
    assert(seq![t].len() == 1);
    assert(seq![t][0] == t);
    assert(seq![t].drop_first() =~= Seq::<DirNode>::empty());
    assert(files_of(Seq::<DirNode>::empty()) == 0);
    assert(dirs_of(Seq::<DirNode>::empty()) == 0);
    assert(pops_of(Seq::<DirNode>::empty()) == 0);
}

/// A drained tree always has at least one pop: its root.
proof fn lemma_expansions_pos(t: DirNode)
    ensures
        expansions(t) >= 1,
{
}

/// How one traversal drains the frontier: the four strategies differ in
/// concurrency and in the enumeration primitive they lean on, never in
/// which directories they visit.
#[derive(Clone, Copy, PartialEq, Eq, Structural)]
pub enum WalkStrategy {
    /// Admission-controlled concurrent expansion, a bounded number in flight.
    BoundedConcurrent,
    /// One directory at a time; the timing baseline.
    UnboundedSequential,
    /// A whole subtree delegated to a recursive-walk collaborator.
    NativeRecursive,
    /// One admission-free unit per pop over a batched enumeration call.
    BulkSyscall,
}

/// What one traversal reports: file count, directory count, and how many
/// frontier pops it took.
pub struct WalkCounts {
    pub files: u64,
    pub dirs: u64,
    pub pops: u64,
}

/// The one result any strategy may report for the tree `t`.
pub open spec fn is_walk_result(t: DirNode, r: WalkCounts) -> bool {
    &&& r.files == visible_files(t)
    &&& r.dirs == visible_dirs(t)
    &&& r.pops == expansions(t)
}

/// Drain a frontier seeded with `root`: pop a directory, classify its
/// entries, count its files, and count and re-queue its subdirectories,
/// until nothing is pending. A directory that cannot be listed contributes
/// nothing of its own; its siblings are unaffected.
///
/// The strategy decides which pending directory a pop takes (the
/// admission-controlled strategy completes expansions oldest-first, the
/// others newest-first); the counts it reports do not depend on it.
pub fn drain_tree(root: DirNode, strategy: WalkStrategy) -> (r: WalkCounts)
    requires
        visible_files(root) <= u64::MAX,
        visible_dirs(root) <= u64::MAX,
        expansions(root) <= u64::MAX,
    ensures
        is_walk_result(root, r),
{
    let ghost root0 = root;
    let mut files_found: u64 = 0;
    let mut dirs_found: u64 = 0;
    let mut pops: u64 = 0;
    let mut frontier: Vec<DirNode> = Vec::new();
    proof {
        lemma_sums_singleton(root0);
        assert(frontier@.push(root) =~= seq![root]);
    }
    frontier.push(root);
    while frontier.len() > 0
        invariant
            files_found + files_of(frontier@) == visible_files(root0),
            dirs_found + dirs_of(frontier@) == visible_dirs(root0),
            pops + pops_of(frontier@) == expansions(root0),
            visible_files(root0) <= u64::MAX,
            visible_dirs(root0) <= u64::MAX,
            expansions(root0) <= u64::MAX,
        decreases pops_of(frontier@),
    {
        let node = match strategy {
            WalkStrategy::BoundedConcurrent => {
                proof {
                    assert(frontier@ =~= seq![frontier@[0]] + frontier@.drop_first());
                    lemma_sums_singleton(frontier@[0]);
                    lemma_sums_concat(seq![frontier@[0]], frontier@.drop_first());
                    assert(frontier@.remove(0) =~= frontier@.drop_first());
                }
                frontier.remove(0)
            },
            _ => {
                proof {
                    assert(frontier@ =~= frontier@.drop_last() + seq![frontier@.last()]);
                    lemma_sums_singleton(frontier@.last());
                    lemma_sums_concat(frontier@.drop_last(), seq![frontier@.last()]);
                }
                frontier.pop().unwrap()
            },
        };
        proof {
            lemma_expansions_pos(node);
        }
        pops = pops + 1;
        if !node.denied {
            let DirNode { files, denied: _, children: mut cs } = node;
            files_found = files_found + files;
            dirs_found = dirs_found + (cs.len() as u64);
            let ghost fr0 = frontier@;
            let ghost cs0 = cs@;
            while cs.len() > 0
                invariant
                    files_of(frontier@) == files_of(fr0) + files_of(cs0) - files_of(cs@),
                    dirs_of(frontier@) == dirs_of(fr0) + dirs_of(cs0) - dirs_of(cs@),
                    pops_of(frontier@) == pops_of(fr0) + pops_of(cs0) - pops_of(cs@),
                decreases cs.len(),
            {
                proof {
                    assert(cs@ =~= cs@.drop_last() + seq![cs@.last()]);
                    lemma_sums_singleton(cs@.last());
                    lemma_sums_concat(cs@.drop_last(), seq![cs@.last()]);
                    assert(frontier@.push(cs@.last()) =~= frontier@ + seq![cs@.last()]);
                    lemma_sums_concat(frontier@, seq![cs@.last()]);
                }
                let c = cs.pop().unwrap();
                frontier.push(c);
            }
        }
    }
    WalkCounts { files: files_found, dirs: dirs_found, pops }
}

/// On a tree whose every directory can be listed, a traversal reports
/// exactly the tree's file total and exactly its subdirectory total: with
/// N files and M subdirectories below the root, the counts are N and M.
pub proof fn lemma_accessible_counts(t: DirNode)
    requires
        all_accessible(t),
    ensures
        visible_files(t) == total_files(t),
        visible_dirs(t) + 1 == node_count(t),
    decreases t,
{
    lemma_accessible_counts_seq(t.children@);
}

proof fn lemma_accessible_counts_seq(s: Seq<DirNode>)
    requires
        forall|i: int| 0 <= i < s.len() ==> all_accessible(#[trigger] s[i]),
    ensures
        files_of(s) == tfiles_of(s),
        dirs_of(s) + s.len() == nodes_of(s),
    decreases s,
{
    if s.len() > 0 {
        lemma_accessible_counts(s[0]);
        assert(forall|i: int|
            0 <= i < s.drop_first().len() ==> all_accessible(#[trigger] s.drop_first()[i]));
        lemma_accessible_counts_seq(s.drop_first());
    }
}

/// Repeated traversals of one static tree agree: the counts any run
/// reports are a function of the tree alone, whichever strategy drained
/// the frontier and in whatever order directories were popped.
pub proof fn lemma_walk_result_unique(t: DirNode, r1: WalkCounts, r2: WalkCounts)
    requires
        is_walk_result(t, r1),
        is_walk_result(t, r2),
    ensures
        r1.files == r2.files,
        r1.dirs == r2.dirs,
        r1.pops == r2.pops,
{
}

/// A traversal empties its frontier in at most M + 1 pops, M being the
/// directory count it reports.
pub proof fn lemma_termination_bound(t: DirNode)
    ensures
        expansions(t) <= visible_dirs(t) + 1,
    decreases t,
{
    if !t.denied {
        lemma_termination_bound_seq(t.children@);
    }
}

proof fn lemma_termination_bound_seq(s: Seq<DirNode>)
    ensures
        pops_of(s) <= dirs_of(s) + s.len(),
    decreases s,
{
    if s.len() > 0 {
        lemma_termination_bound(s[0]);
        lemma_termination_bound_seq(s.drop_first());
    }
}

proof fn lemma_sums_pointwise(a: Seq<DirNode>, b: Seq<DirNode>)
    requires
        a.len() == b.len(),
        forall|j: int|
            0 <= j < a.len() ==> visible_files(#[trigger] a[j]) == visible_files(b[j])
                && visible_dirs(a[j]) == visible_dirs(b[j]),
    ensures
        files_of(a) == files_of(b),
        dirs_of(a) == dirs_of(b),
    decreases a,
{
    if a.len() > 0 {
        assert(forall|j: int|
            0 <= j < a.drop_first().len() ==> visible_files(#[trigger] a.drop_first()[j])
                == visible_files(b.drop_first()[j])
                && visible_dirs(a.drop_first()[j]) == visible_dirs(b.drop_first()[j]));
        lemma_sums_pointwise(a.drop_first(), b.drop_first());
    }
}

/// A subdirectory whose listing is denied contributes no files and no
/// directories of its own, and leaves its siblings' contributions alone:
/// two trees that agree everywhere except inside one denied child report
/// the same counts.
pub proof fn lemma_fault_isolation(u: DirNode, v: DirNode, i: int)
    requires
        !u.denied,
        !v.denied,
        u.files == v.files,
        u.children@.len() == v.children@.len(),
        0 <= i < u.children@.len(),
        u.children@[i].denied,
        v.children@[i].denied,
        forall|j: int|
            0 <= j < u.children@.len() && j != i ==> u.children@[j] == #[trigger] v.children@[j],
    ensures
        visible_files(u) == visible_files(v),
        visible_dirs(u) == visible_dirs(v),
{
    assert(visible_files(u.children@[i]) == 0);
    assert(visible_files(v.children@[i]) == 0);
    assert(visible_dirs(u.children@[i]) == 0);
    assert(visible_dirs(v.children@[i]) == 0);
    lemma_sums_pointwise(u.children@, v.children@);
}

} // verus!
