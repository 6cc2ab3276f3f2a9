//! Shared traversal state: a frontier of pending directory paths and the
//! two append-only accumulators a traversal fills.
//!
//! One traversal owns one `TraversalState`. An expansion unit pops a
//! pending path, lists it outside this crate, and hands the discovered
//! files and subdirectories back to `merge_expansion`, which splices them
//! in as one step — so the frontier can never look empty while results of
//! a popped directory are still unmerged.

use vstd::prelude::*;

verus! {

/// The two append-only accumulators of one traversal.
pub struct ResultSet {
    files: Vec<String>,
    dirs: Vec<String>,
}

impl View for ResultSet {
    type V = (Seq<Seq<char>>, Seq<Seq<char>>);

    closed spec fn view(&self) -> (Seq<Seq<char>>, Seq<Seq<char>>) {
        (self.files.deep_view(), self.dirs.deep_view())
    }
}

impl ResultSet {
    /// An empty result set.
    pub fn new() -> (r: ResultSet)
        ensures
            r@.0 == Seq::<Seq<char>>::empty(),
            r@.1 == Seq::<Seq<char>>::empty(),
    {
        ResultSet { files: Vec::new(), dirs: Vec::new() }
    }

    /// Append one file path; everything recorded before stays.
    pub fn record_file(&mut self, path: String)
        ensures
            final(self)@.0 == old(self)@.0.push(path@),
            final(self)@.1 == old(self)@.1,
    {
        self.files.push(path);
        proof {
            assert(final(self)@.0 =~= old(self)@.0.push(path@));
        }
    }

    /// Append one directory path; everything recorded before stays.
    pub fn record_dir(&mut self, path: String)
        ensures
            final(self)@.0 == old(self)@.0,
            final(self)@.1 == old(self)@.1.push(path@),
    {
        self.dirs.push(path);
        proof {
            assert(final(self)@.1 =~= old(self)@.1.push(path@));
        }
    }

    /// How many file paths have been recorded.
    pub fn num_files(&self) -> (n: usize)
        ensures
            n == self@.0.len(),
    {
        self.files.len()
    }

    /// How many directory paths have been recorded.
    pub fn num_dirs(&self) -> (n: usize)
        ensures
            n == self@.1.len(),
    {
        self.dirs.len()
    }

    /// Give up the accumulators: all recorded files, and all recorded
    /// directories.
    pub fn into_parts(self) -> (r: (Vec<String>, Vec<String>))
        ensures
            r.0.deep_view() == self@.0,
            r.1.deep_view() == self@.1,
    {
        (self.files, self.dirs)
    }
}

/// Two expansions' contributions merged in either order leave the same
/// recorded paths: an accumulator's contents, compared as a multiset,
/// never depend on the order in which concurrent expansion units
/// complete, only on what they found.
pub proof fn lemma_merge_order_irrelevant(
    base: Seq<Seq<char>>,
    a: Seq<Seq<char>>,
    b: Seq<Seq<char>>,
)
    ensures
        (base + a + b).to_multiset() == (base + b + a).to_multiset(),
{
    broadcast use vstd::multiset::group_multiset_axioms;

    vstd::seq_lib::lemma_multiset_commutative(base + a, b);
    vstd::seq_lib::lemma_multiset_commutative(base + b, a);
    vstd::seq_lib::lemma_multiset_commutative(base, a);
    vstd::seq_lib::lemma_multiset_commutative(base, b);
    assert((base + a + b).to_multiset() =~= (base + b + a).to_multiset());
}

/// Directories discovered but not yet expanded.
pub struct PathFrontier {
    pending: Vec<String>,
}

impl View for PathFrontier {
    type V = Seq<Seq<char>>;

    closed spec fn view(&self) -> Seq<Seq<char>> {
        self.pending.deep_view()
    }
}

impl PathFrontier {
    /// An empty frontier.
    pub fn new() -> (r: PathFrontier)
        ensures
            r@ == Seq::<Seq<char>>::empty(),
    {
        PathFrontier { pending: Vec::new() }
    }

    /// Queue one pending directory.
    pub fn push(&mut self, path: String)
        ensures
            final(self)@ == old(self)@.push(path@),
    {
        self.pending.push(path);
        proof {
            assert(final(self)@ =~= old(self)@.push(path@));
        }
    }

    /// Take one pending directory, newest first; `None` exactly when
    /// nothing is pending.
    pub fn pop(&mut self) -> (r: Option<String>)
        ensures
            old(self)@.len() == 0 ==> r is None && final(self)@ == old(self)@,
            old(self)@.len() > 0 ==> (r matches Some(p) && p@ == old(self)@.last()
                && final(self)@ == old(self)@.drop_last()),
    {
        let r = self.pending.pop();
        proof {
            if old(self)@.len() > 0 {
                assert(final(self)@ =~= old(self)@.drop_last());
            }
        }
        r
    }

    /// How many directories are pending.
    pub fn len(&self) -> (n: usize)
        ensures
            n == self@.len(),
    {
        self.pending.len()
    }
}

/// Everything one traversal mutates: its frontier and its accumulators.
pub struct TraversalState {
    pub frontier: PathFrontier,
    pub results: ResultSet,
}

impl TraversalState {
    /// A traversal about to start from `root`: the frontier holds the root
    /// alone and nothing has been recorded.
    pub fn seeded(root: String) -> (r: TraversalState)
        ensures
            r.frontier@ == Seq::<Seq<char>>::empty().push(root@),
            r.results@.0 == Seq::<Seq<char>>::empty(),
            r.results@.1 == Seq::<Seq<char>>::empty(),
    {
        let mut frontier = PathFrontier::new();
        frontier.push(root);
        TraversalState { frontier, results: ResultSet::new() }
    }

    /// Merge one expansion: the popped directory's files are recorded, and
    /// each discovered subdirectory is both recorded and queued for its own
    /// expansion. Nothing already accumulated is touched.
    pub fn merge_expansion(&mut self, new_files: &Vec<String>, new_dirs: &Vec<String>)
        ensures
            final(self).results@.0 == old(self).results@.0 + new_files.deep_view(),
            final(self).results@.1 == old(self).results@.1 + new_dirs.deep_view(),
            final(self).frontier@ == old(self).frontier@ + new_dirs.deep_view(),
    {
        let n_files = new_files.len();
        let mut i: usize = 0;
        while i < n_files
            invariant
                i <= n_files,
                n_files == new_files@.len(),
                self.results@.0 == old(self).results@.0 + new_files.deep_view().take(i as int),
                self.results@.1 == old(self).results@.1,
                self.frontier@ == old(self).frontier@,
            decreases n_files - i,
        {
            let p = new_files[i].clone();
            proof {
                assert(old(self).results@.0 + new_files.deep_view().take(i + 1) =~= (old(
                    self,
                ).results@.0 + new_files.deep_view().take(i as int)).push(
                    new_files.deep_view()[i as int],
                ));
            }
            self.results.record_file(p);
            i = i + 1;
        }
        proof {
            assert(new_files.deep_view().take(n_files as int) =~= new_files.deep_view());
        }
        let n_dirs = new_dirs.len();
        let mut j: usize = 0;
        while j < n_dirs
            invariant
                j <= n_dirs,
                n_dirs == new_dirs@.len(),
                self.results@.0 == old(self).results@.0 + new_files.deep_view(),
                self.results@.1 == old(self).results@.1 + new_dirs.deep_view().take(j as int),
                self.frontier@ == old(self).frontier@ + new_dirs.deep_view().take(j as int),
            decreases n_dirs - j,
        {
            let d = new_dirs[j].clone();
            let d2 = new_dirs[j].clone();
            proof {
                assert(old(self).results@.1 + new_dirs.deep_view().take(j + 1) =~= (old(
                    self,
                ).results@.1 + new_dirs.deep_view().take(j as int)).push(
                    new_dirs.deep_view()[j as int],
                ));
                assert(old(self).frontier@ + new_dirs.deep_view().take(j + 1) =~= (old(
                    self,
                ).frontier@ + new_dirs.deep_view().take(j as int)).push(
                    new_dirs.deep_view()[j as int],
                ));
            }
            self.results.record_dir(d);
            self.frontier.push(d2);
            j = j + 1;
        }
        proof {
            assert(new_dirs.deep_view().take(n_dirs as int) =~= new_dirs.deep_view());
        }
    }
}

} // verus!
