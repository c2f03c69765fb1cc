//! The directory tree a disk analysis builds while the file system is walked.
//!
//! Every directory becomes a node; every file adds its size to the directory it sits in and to
//! every directory above that. The walk itself is the caller's part: it reports each entry, with
//! its depth below the root, in the order a depth-first walk meets them.

use vstd::prelude::*;

verus! {

/// Whether node `a` is node `d` or one of the directories above it.
pub open spec fn under(parents: Seq<Option<usize>>, a: int, d: int) -> bool
    decreases d,
{
    if d == a {
        true
    } else if d <= 0 || d >= parents.len() {
        false
    } else {
        match parents[d] {
            Some(p) => p < d && under(parents, a, p as int),
            None => false,
        }
    }
}

/// Every node but the root hangs from an earlier one; the root hangs from nothing.
pub open spec fn well_linked(parents: Seq<Option<usize>>) -> bool {
    &&& parents.len() >= 1
    &&& parents[0] is None
    &&& forall|i: int| 1 <= i < parents.len() ==> (#[trigger] parents[i] matches Some(p) && p < i)
}

/// Bytes of the files (each `(directory, size)`) that sit at or below node `i`.
pub open spec fn bytes_under(parents: Seq<Option<usize>>, files: Seq<(int, nat)>, i: int) -> nat
    decreases files.len(),
{
    if files.len() == 0 {
        0
    } else {
        bytes_under(parents, files.drop_last(), i) + if under(parents, i, files.last().0) {
            files.last().1
        } else {
            0
        }
    }
}

/// How many of the files sit at or below node `i`.
pub open spec fn files_under(parents: Seq<Option<usize>>, files: Seq<(int, nat)>, i: int) -> nat
    decreases files.len(),
{
    if files.len() == 0 {
        0
    } else {
        files_under(parents, files.drop_last(), i) + if under(parents, i, files.last().0) {
            1nat
        } else {
            0nat
        }
    }
}

/// Bytes of the files directly inside node `i`.
pub open spec fn own_bytes(files: Seq<(int, nat)>, i: int) -> nat
    decreases files.len(),
{
    if files.len() == 0 {
        0
    } else {
        own_bytes(files.drop_last(), i) + if files.last().0 == i {
            files.last().1
        } else {
            0
        }
    }
}

/// Sum of all the file sizes.
pub open spec fn all_bytes(files: Seq<(int, nat)>) -> nat
    decreases files.len(),
{
    if files.len() == 0 {
        0
    } else {
        all_bytes(files.drop_last()) + files.last().1
    }
}

/// How many of the first `n` nodes, the root apart, lie strictly below node `i`.
pub open spec fn dirs_below(parents: Seq<Option<usize>>, i: int, n: int) -> nat
    decreases n,
{
    if n <= 1 {
        0
    } else {
        dirs_below(parents, i, n - 1) + if n - 1 != i && under(parents, i, n - 1) {
            1nat
        } else {
            0nat
        }
    }
}

/// How many of the first `n` nodes hang directly from node `i`.
pub open spec fn children_of(parents: Seq<Option<usize>>, i: int, n: int) -> nat
    decreases n,
{
    if n <= 0 {
        0
    } else {
        children_of(parents, i, n - 1) + if parents[n - 1] matches Some(p) && p as int == i {
            1nat
        } else {
            0nat
        }
    }
}

pub proof fn lemma_under_le(parents: Seq<Option<usize>>, a: int, d: int)
    ensures
        under(parents, a, d) ==> a <= d,
    decreases d,
{
    if d != a && 0 < d < parents.len() {
        if let Some(p) = parents[d] {
            if p < d {
                lemma_under_le(parents, a, p as int);
            }
        }
    }
}

/// Adding a node changes nothing about the nodes before it.
pub proof fn lemma_under_frame(parents: Seq<Option<usize>>, x: Option<usize>, a: int, d: int)
    requires
        -1 <= d < parents.len(),
    ensures
        under(parents.push(x), a, d) == under(parents, a, d),
    decreases d,
{
    if d != a && 0 < d {
        if let Some(p) = parents[d] {
            if p < d {
                lemma_under_frame(parents, x, a, p as int);
            }
        }
    }
}

/// The directories above a node form a chain: of two of them, the lower one lies under the
/// other.
pub proof fn lemma_chain(parents: Seq<Option<usize>>, a: int, c: int, d: int)
    requires
        under(parents, a, d),
        under(parents, c, d),
        a <= c,
    ensures
        under(parents, a, c),
    decreases d,
{
    if d != c {
        lemma_under_le(parents, c, d);
        if let Some(p) = parents[d] {
            if a == d {
                lemma_under_le(parents, c, d);
            } else {
                lemma_chain(parents, a, c, p as int);
            }
        }
    }
}

pub proof fn lemma_bytes_frame(parents: Seq<Option<usize>>, x: Option<usize>, files: Seq<(int, nat)>, i: int)
    requires
        forall|k: int| 0 <= k < files.len() ==> -1 <= #[trigger] files[k].0 < parents.len(),
    ensures
        bytes_under(parents.push(x), files, i) == bytes_under(parents, files, i),
        files_under(parents.push(x), files, i) == files_under(parents, files, i),
    decreases files.len(),
{
    if files.len() > 0 {
        assert forall|k: int| 0 <= k < files.drop_last().len() implies -1 <= #[trigger] files.drop_last()[k].0 < parents.len() by {
            assert(files.drop_last()[k] == files[k]);
        }
        lemma_bytes_frame(parents, x, files.drop_last(), i);
        lemma_under_frame(parents, x, i, files.last().0);
    }
}

pub proof fn lemma_dirs_frame(parents: Seq<Option<usize>>, x: Option<usize>, i: int, n: int)
    requires
        n <= parents.len(),
    ensures
        dirs_below(parents.push(x), i, n) == dirs_below(parents, i, n),
        children_of(parents.push(x), i, n) == children_of(parents, i, n),
    decreases n,
{
    if n > 0 {
        lemma_dirs_frame(parents, x, i, n - 1);
        lemma_under_frame(parents, x, i, n - 1);
    }
}

pub proof fn lemma_bytes_bounded(parents: Seq<Option<usize>>, files: Seq<(int, nat)>, i: int)
    ensures
        bytes_under(parents, files, i) <= all_bytes(files),
        own_bytes(files, i) <= all_bytes(files),
        files_under(parents, files, i) <= files.len(),
    decreases files.len(),
{
    if files.len() > 0 {
        lemma_bytes_bounded(parents, files.drop_last(), i);
    }
}

pub proof fn lemma_dirs_bounded(parents: Seq<Option<usize>>, i: int, n: int)
    ensures
        dirs_below(parents, i, n) <= if n > 0 { n } else { 0 },
        children_of(parents, i, n) <= if n > 0 { n } else { 0 },
    decreases n,
{
    if n > 0 {
        lemma_dirs_bounded(parents, i, n - 1);
    }
}

/// Counts of nodes and bytes kept for every directory.
pub struct Tree {
    pub names: Vec<String>,
    pub paths: Vec<String>,
    pub parents: Vec<Option<usize>>,
    pub sizes: Vec<u64>,
    pub files: Vec<u64>,
    pub dirs: Vec<u64>,
    pub own: Vec<u64>,
    pub child_dirs: Vec<usize>,
    /// The directories on the way down to the entry the walk reported last.
    pub stack: Vec<usize>,
    pub total_files: u64,
    pub total_bytes: u64,
    /// Every file reported so far: the directory it sits in, and its size. A file that was
    /// forgotten since sits in no directory (-1).
    pub log: Ghost<Seq<(int, nat)>>,
}

impl Tree {
    /// The tree's counts are those of the files and directories reported.
    pub open spec fn wf(&self) -> bool {
        let n = self.parents@.len();
        let ps = self.parents@;
        let log = self.log@;
        &&& well_linked(ps)
        &&& self.names@.len() == n
        &&& self.paths@.len() == n
        &&& self.sizes@.len() == n
        &&& self.files@.len() == n
        &&& self.dirs@.len() == n
        &&& self.own@.len() == n
        &&& self.child_dirs@.len() == n
        &&& self.stack@.len() >= 1
        &&& self.stack@[0] == 0
        &&& forall|k: int| 0 <= k < self.stack@.len() ==> (#[trigger] self.stack@[k]) < n
        &&& forall|k: int| 0 <= k < log.len() ==> -1 <= #[trigger] log[k].0 < n
        &&& self.total_files == log.len()
        &&& self.total_bytes == all_bytes(log)
        &&& forall|i: int| 0 <= i < n ==> #[trigger] self.sizes@[i] == bytes_under(ps, log, i)
        &&& forall|i: int| 0 <= i < n ==> #[trigger] self.files@[i] == files_under(ps, log, i)
        &&& forall|i: int| 0 <= i < n ==> #[trigger] self.own@[i] == own_bytes(log, i)
        &&& forall|i: int| 0 <= i < n ==> #[trigger] self.dirs@[i] == dirs_below(ps, i, n as int)
        &&& forall|i: int| 0 <= i < n ==> #[trigger] self.child_dirs@[i] == children_of(ps, i, n as int)
    }

    /// A tree holding only its root.
    pub fn new(root_name: String, root_path: String) -> (r: Self)
        ensures
            r.wf(),
            r.parents@ == seq![None::<usize>],
            r.names@ == seq![root_name],
            r.paths@ == seq![root_path],
            r.log@.len() == 0,
    {
        let mut names: Vec<String> = Vec::new();
        names.push(root_name);
        let mut paths: Vec<String> = Vec::new();
        paths.push(root_path);
        let mut parents: Vec<Option<usize>> = Vec::new();
        parents.push(None);
        let mut sizes: Vec<u64> = Vec::new();
        sizes.push(0);
        let mut files: Vec<u64> = Vec::new();
        files.push(0);
        let mut dirs: Vec<u64> = Vec::new();
        dirs.push(0);
        let mut own: Vec<u64> = Vec::new();
        own.push(0);
        let mut child_dirs: Vec<usize> = Vec::new();
        child_dirs.push(0);
        let mut stack: Vec<usize> = Vec::new();
        stack.push(0);
        let r = Tree {
            names,
            paths,
            parents,
            sizes,
            files,
            dirs,
            own,
            child_dirs,
            stack,
            total_files: 0,
            total_bytes: 0,
            log: Ghost(Seq::empty()),
        };
        assert(r.parents@ =~= seq![None::<usize>]);
        assert(r.names@ =~= seq![r.names@[0]]);
        assert(r.paths@ =~= seq![r.paths@[0]]);
        assert(children_of(r.parents@, 0, 1) == 0) by {
            reveal_with_fuel(children_of, 2);
        }
        assert(bytes_under(r.parents@, r.log@, 0) == 0);
        assert(files_under(r.parents@, r.log@, 0) == 0);
        assert(own_bytes(r.log@, 0) == 0);
        assert(dirs_below(r.parents@, 0, 1) == 0);
        r
    }

    /// The directory an entry at `depth` below the root sits in: the walk has climbed back to
    /// depth `depth - 1`.
    fn climb_to(&mut self, depth: usize) -> (parent: usize)
        requires
            old(self).wf(),
            depth >= 1,
        ensures
            final(self).wf(),
            final(self).parents@ == old(self).parents@,
            final(self).log@ == old(self).log@,
            final(self).names@ == old(self).names@,
            final(self).paths@ == old(self).paths@,
            final(self).sizes@ == old(self).sizes@,
            final(self).files@ == old(self).files@,
            final(self).total_bytes == old(self).total_bytes,
            parent < final(self).parents@.len(),
            final(self).stack@.len() >= 1,
            parent == final(self).stack@.last(),
            final(self).stack@ == old(self).stack@.take(if depth < old(self).stack@.len() { depth as int } else { old(self).stack@.len() as int }),
    {
        if depth < self.stack.len() {
            self.stack.truncate(depth);
        }
        let parent = self.stack[self.stack.len() - 1];
        assert(self.stack@ =~= old(self).stack@.take(if depth < old(self).stack@.len() { depth as int } else { old(self).stack@.len() as int }));
        parent
    }

    /// Adds a directory met at `depth` below the root.
    pub fn add_dir(&mut self, depth: usize, name: String, path: String) -> (idx: usize)
        requires
            old(self).wf(),
            depth >= 1,
            old(self).parents@.len() < usize::MAX,
        ensures
            final(self).wf(),
            idx == old(self).parents@.len(),
            final(self).parents@ == old(self).parents@.push(Some(old(self).stack@[if depth < old(self).stack@.len() { depth - 1 } else { old(self).stack@.len() - 1 }])),
            final(self).names@ == old(self).names@.push(name),
            final(self).paths@ == old(self).paths@.push(path),
            final(self).log@ == old(self).log@,
            final(self).stack@.last() == idx,
    {
        let parent = self.climb_to(depth);
        let idx = self.parents.len();
        let ghost ps = self.parents@;
        let ghost log = self.log@;
        let ghost n = ps.len();
        self.names.push(name);
        self.paths.push(path);
        self.parents.push(Some(parent));
        let ghost ps2 = self.parents@;
        assert(ps2 == ps.push(Some(parent)));
        proof {
            lemma_bytes_frame(ps, Some(parent), log, 0);
            assert forall|i: int| 0 <= i < n implies bytes_under(ps2, log, i) == bytes_under(ps, log, i) && files_under(ps2, log, i) == files_under(ps, log, i) by {
                lemma_bytes_frame(ps, Some(parent), log, i);
            }
            assert forall|i: int| 0 <= i < n implies dirs_below(ps2, i, n as int) == dirs_below(ps, i, n as int) && children_of(ps2, i, n as int) == children_of(ps, i, n as int) by {
                lemma_dirs_frame(ps, Some(parent), i, n as int);
            }
            assert(under(ps2, idx as int, idx as int));
            assert forall|k: int| 0 <= k < log.len() implies !under(ps2, idx as int, #[trigger] log[k].0) by {
                lemma_under_le(ps2, idx as int, log[k].0);
            }
            assert(bytes_under(ps2, log, idx as int) == 0) by {
                lemma_nothing_under_new(ps2, log, idx as int);
            }
            assert forall|i: int| 1 <= i < ps2.len() implies (#[trigger] ps2[i] matches Some(p) && p < i) by {
                if i < n {
                    assert(ps2[i] == ps[i]);
                }
            }
        }
        self.sizes.push(0);
        self.files.push(0);
        self.own.push(0);
        self.dirs.push(0);
        self.child_dirs.push(0);
        proof {
            lemma_own_none(log, idx as int);
            lemma_dirs_new(ps2, idx as int);
        }
        let cp = self.child_dirs[parent];
        proof {
            lemma_dirs_bounded(ps2, parent as int, n as int + 1);
            assert(children_of(ps2, parent as int, n as int + 1) == children_of(ps, parent as int, n as int) + 1);
        }
        self.child_dirs.set(parent, cp + 1);
        proof {
            assert forall|i: int| 0 <= i < n + 1 implies #[trigger] self.child_dirs@[i] == children_of(ps2, i, n + 1int) by {
                if i < n {
                    lemma_dirs_frame(ps, Some(parent), i, n as int);
                }
            }
        }
        let ghost stack0 = self.stack@;
        self.add_dir_counts(parent, Ghost(ps));
        self.stack.push(idx);
        proof {
            assert forall|k: int| 0 <= k < self.stack@.len() implies (#[trigger] self.stack@[k]) < n + 1 by {
                if k < stack0.len() {
                    assert(self.stack@[k] == stack0[k]);
                }
            }
            assert forall|k: int| 0 <= k < log.len() implies -1 <= #[trigger] log[k].0 < n + 1 by {}
            assert forall|i: int| 0 <= i < n + 1 implies #[trigger] self.sizes@[i] == bytes_under(ps2, log, i) by {
                if i == n {
                    lemma_nothing_under_new(ps2, log, idx as int);
                }
            }
            assert forall|i: int| 0 <= i < n + 1 implies #[trigger] self.files@[i] == files_under(ps2, log, i) by {
                if i == n {
                    lemma_nothing_under_new(ps2, log, idx as int);
                }
            }
            assert forall|i: int| 0 <= i < n + 1 implies #[trigger] self.own@[i] == own_bytes(log, i) by {
            }
        }
        idx
    }

    /// Adds one to the directory count of `parent` and every directory above it, for the node
    /// just added under `parent`.
    fn add_dir_counts(&mut self, parent: usize, ghost_old: Ghost<Seq<Option<usize>>>)
        requires
            well_linked(old(self).parents@),
            old(self).parents@ == ghost_old@.push(Some(parent)),
            parent < ghost_old@.len(),
            ghost_old@.len() < usize::MAX,
            old(self).dirs@.len() == old(self).parents@.len(),
            forall|i: int| 0 <= i < ghost_old@.len() ==> #[trigger] old(self).dirs@[i] == dirs_below(ghost_old@, i, ghost_old@.len() as int),
            old(self).dirs@[ghost_old@.len() as int] == 0,
        ensures
            final(self).dirs@.len() == old(self).dirs@.len(),
            forall|i: int| 0 <= i < final(self).parents@.len() ==> #[trigger] final(self).dirs@[i] == dirs_below(final(self).parents@, i, final(self).parents@.len() as int),
            final(self).parents@ == old(self).parents@,
            final(self).names@ == old(self).names@,
            final(self).paths@ == old(self).paths@,
            final(self).sizes@ == old(self).sizes@,
            final(self).files@ == old(self).files@,
            final(self).own@ == old(self).own@,
            final(self).child_dirs@ == old(self).child_dirs@,
            final(self).stack@ == old(self).stack@,
            final(self).total_files == old(self).total_files,
            final(self).total_bytes == old(self).total_bytes,
            final(self).log@ == old(self).log@,
    {
        let ghost ps = self.parents@;
        let ghost ps0 = ghost_old@;
        let ghost n = ps0.len();
        let ghost base = self.dirs@;
        proof {
            assert forall|i: int| 0 <= i < n implies dirs_below(ps, i, n as int) == dirs_below(ps0, i, n as int) by {
                lemma_dirs_frame(ps0, Some(parent), i, n as int);
            }
            assert forall|i: int| 0 <= i < n implies #[trigger] dirs_below(ps, i, n + 1int) == dirs_below(ps, i, n as int) + if under(ps0, i, parent as int) { 1nat } else { 0nat } by {
                lemma_under_frame(ps0, Some(parent), i, parent as int);
            }
            assert forall|i: int| 0 <= i < n implies #[trigger] self.dirs@[i] == base[i] + if under(ps0, i, parent as int) && i > parent { 1nat } else { 0nat } by {
                lemma_under_le(ps0, i, parent as int);
            }
            assert forall|i: int| 1 <= i < ps0.len() implies (#[trigger] ps0[i] matches Some(p) && p < i) by {
                assert(ps0[i] == ps[i]);
            }
            assert(ps0[0] == ps[0]);
        }
        let mut cur: usize = parent;
        loop
            invariant_except_break
                forall|i: int| 0 <= i < n ==> #[trigger] self.dirs@[i] == base[i] + if under(ps0, i, parent as int) && i > cur { 1nat } else { 0nat },
            invariant
                well_linked(ps),
                well_linked(ps0),
                ps == self.parents@,
                ps == ps0.push(Some(parent)),
                n == ps0.len(),
                n < usize::MAX,
                parent < n,
                cur < n,
                under(ps0, cur as int, parent as int),
                self.dirs@.len() == n + 1,
                self.dirs@[n as int] == 0,
                forall|i: int| 0 <= i < n ==> base[i] == dirs_below(ps0, i, n as int),
                self.names@ == old(self).names@,
                self.paths@ == old(self).paths@,
                self.sizes@ == old(self).sizes@,
                self.files@ == old(self).files@,
                self.own@ == old(self).own@,
                self.child_dirs@ == old(self).child_dirs@,
                self.stack@ == old(self).stack@,
                self.total_files == old(self).total_files,
                self.total_bytes == old(self).total_bytes,
                self.log@ == old(self).log@,
            ensures
                self.dirs@.len() == n + 1,
                self.dirs@[n as int] == 0,
                forall|i: int| 0 <= i < n ==> #[trigger] self.dirs@[i] == base[i] + if under(ps0, i, parent as int) { 1nat } else { 0nat },
                self.names@ == old(self).names@,
                self.paths@ == old(self).paths@,
                self.sizes@ == old(self).sizes@,
                self.files@ == old(self).files@,
                self.own@ == old(self).own@,
                self.child_dirs@ == old(self).child_dirs@,
                self.stack@ == old(self).stack@,
                self.total_files == old(self).total_files,
                self.total_bytes == old(self).total_bytes,
                self.log@ == old(self).log@,
                self.parents@ == ps,
            decreases cur,
        {
            let d = self.dirs[cur];
            proof {
                lemma_dirs_bounded(ps0, cur as int, n as int);
                assert(d == base[cur as int]);
            }
            self.dirs.set(cur, d + 1);
            match self.parents[cur] {
                None => {
                    proof {
                        assert(cur == 0) by {
                            if cur > 0 {
                                assert(ps[cur as int] matches Some(p) && p < cur);
                            }
                        }
                        assert forall|i: int| 0 <= i < n implies #[trigger] self.dirs@[i] == base[i] + if under(ps0, i, parent as int) { 1nat } else { 0nat } by {
                            if i > 0 {
                            }
                        }
                    }
                    break;
                },
                Some(p) => {
                    proof {
                        assert(ps[cur as int] == ps0[cur as int]);
                        assert(cur > 0) by {
                            assert(ps0[0] is None) by {
                                assert(ps[0] == ps0[0]);
                            }
                        }
                        assert(p < cur) by {
                            assert(ps[cur as int] matches Some(q) && q < cur);
                        }
                        assert(under(ps0, p as int, parent as int)) by {
                            lemma_up_one(ps0, cur as int, parent as int, p);
                        }
                        assert forall|i: int| 0 <= i < n implies #[trigger] self.dirs@[i] == base[i] + if under(ps0, i, parent as int) && i > p { 1nat } else { 0nat } by {
                            if under(ps0, i, parent as int) && p < i && i < cur {
                                lemma_chain(ps0, i, cur as int, parent as int);
                                lemma_step_down(ps0, i, cur as int, p);
                            }
                        }
                    }
                    cur = p;
                },
            }
        }
        proof {
            assert forall|i: int| 0 <= i < ps.len() implies #[trigger] self.dirs@[i] == dirs_below(ps, i, ps.len() as int) by {
                if i < n {
                    assert(dirs_below(ps, i, n + 1int) == dirs_below(ps, i, n as int) + if under(ps0, i, parent as int) { 1nat } else { 0nat }) by {
                        lemma_under_frame(ps0, Some(parent), i, parent as int);
                    }
                    lemma_dirs_frame(ps0, Some(parent), i, n as int);
                } else {
                    lemma_dirs_new(ps, i);
                }
            }
        }
    }

    /// Adds a file met at `depth` below the root. `size` is what it takes on disk, or 0 for a
    /// hard link to a file already counted.
    pub fn add_file(&mut self, depth: usize, size: u64) -> (dir: usize)
        requires
            old(self).wf(),
            depth >= 1,
            old(self).total_bytes + size <= u64::MAX,
            old(self).total_files < u64::MAX,
        ensures
            final(self).wf(),
            dir < old(self).parents@.len(),
            dir == old(self).stack@[if depth < old(self).stack@.len() { depth - 1 } else { old(self).stack@.len() - 1 }],
            final(self).log@ == old(self).log@.push((dir as int, size as nat)),
            final(self).parents@ == old(self).parents@,
            final(self).names@ == old(self).names@,
            final(self).paths@ == old(self).paths@,
    {
        let dir = self.climb_to(depth);
        let ghost ps = self.parents@;
        proof {
            assert forall|i: int| 0 <= i < ps.len() implies !(under(ps, i, dir as int) && i > dir) by {
                lemma_under_le(ps, i, dir as int);
            }
        }
        let ghost log = self.log@;
        let ghost log2 = log.push((dir as int, size as nat));
        let ghost n = ps.len();
        proof {
            assert(log2.drop_last() == log);
            lemma_bytes_bounded(ps, log, dir as int);
        }
        self.total_files = self.total_files + 1;
        self.total_bytes = self.total_bytes + size;
        let o = self.own[dir];
        self.own.set(dir, o + size);
        let ghost base_sizes = self.sizes@;
        let ghost base_files = self.files@;
        let ghost own1 = self.own@;
        let ghost dirs0 = self.dirs@;
        let ghost cd0 = self.child_dirs@;
        let ghost names0 = self.names@;
        let ghost paths0 = self.paths@;
        let ghost stack0 = self.stack@;
        let ghost tf = self.total_files;
        let ghost tb = self.total_bytes;
        let mut cur: usize = dir;
        loop
            invariant_except_break
                forall|i: int| 0 <= i < n ==> #[trigger] self.sizes@[i] == base_sizes[i] + if under(ps, i, dir as int) && i > cur { size as nat } else { 0nat },
                forall|i: int| 0 <= i < n ==> #[trigger] self.files@[i] == base_files[i] + if under(ps, i, dir as int) && i > cur { 1nat } else { 0nat },
            invariant
                well_linked(ps),
                ps == self.parents@,
                n == ps.len(),
                dir < n,
                cur < n,
                under(ps, cur as int, dir as int),
                self.sizes@.len() == n,
                self.files@.len() == n,
                forall|i: int| 0 <= i < n ==> base_sizes[i] == bytes_under(ps, log, i),
                forall|i: int| 0 <= i < n ==> base_files[i] == files_under(ps, log, i),
                all_bytes(log) + size <= u64::MAX,
                log.len() < u64::MAX,
                self.own@ == own1,
                self.dirs@ == dirs0,
                self.child_dirs@ == cd0,
                self.names@ == names0,
                self.paths@ == paths0,
                self.stack@ == stack0,
                self.total_files == tf,
                self.total_bytes == tb,
                self.log@ == log,
            ensures
                self.sizes@.len() == n,
                self.files@.len() == n,
                forall|i: int| 0 <= i < n ==> #[trigger] self.sizes@[i] == base_sizes[i] + if under(ps, i, dir as int) { size as nat } else { 0nat },
                forall|i: int| 0 <= i < n ==> #[trigger] self.files@[i] == base_files[i] + if under(ps, i, dir as int) { 1nat } else { 0nat },
                ps == self.parents@,
                self.own@ == own1,
                self.dirs@ == dirs0,
                self.child_dirs@ == cd0,
                self.names@ == names0,
                self.paths@ == paths0,
                self.stack@ == stack0,
                self.total_files == tf,
                self.total_bytes == tb,
                self.log@ == log,
            decreases cur,
        {
            proof {
                lemma_bytes_bounded(ps, log, cur as int);
            }
            let s = self.sizes[cur];
            let f = self.files[cur];
            self.sizes.set(cur, s + size);
            self.files.set(cur, f + 1);
            match self.parents[cur] {
                None => {
                    proof {
                        assert(cur == 0) by {
                            if cur > 0 {
                                assert(ps[cur as int] matches Some(p) && p < cur);
                            }
                        }
                    }
                    break;
                },
                Some(p) => {
                    proof {
                        assert(cur > 0);
                        assert(p < cur) by {
                            assert(ps[cur as int] matches Some(q) && q < cur);
                        }
                        lemma_up_one(ps, cur as int, dir as int, p);
                        assert forall|i: int| 0 <= i < n implies (under(ps, i, dir as int) && i > p) == ((under(ps, i, dir as int) && i > cur) || i == cur) by {
                            if under(ps, i, dir as int) && p < i && i < cur {
                                lemma_chain(ps, i, cur as int, dir as int);
                                lemma_step_down(ps, i, cur as int, p);
                            }
                        }
                    }
                    cur = p;
                },
            }
        }
        self.log = Ghost(log2);
        proof {
            assert(log2.drop_last() =~= log);
            assert forall|i: int| 0 <= i < n implies #[trigger] self.sizes@[i] == bytes_under(ps, log2, i) by {}
            assert forall|i: int| 0 <= i < n implies #[trigger] self.files@[i] == files_under(ps, log2, i) by {}
            assert forall|i: int| 0 <= i < n implies #[trigger] self.own@[i] == own_bytes(log2, i) by {}
            assert forall|k: int| 0 <= k < log2.len() implies -1 <= #[trigger] log2[k].0 < n by {
                if k < log.len() {
                    assert(log2[k] == log[k]);
                }
            }
        }
        dir
    }
    /// Takes a file reported earlier back out of the counts: its bytes and its one file leave
    /// the directory it sat in and every directory above it, and the file sits nowhere after.
    pub fn forget_file(&mut self, entry: Ghost<int>, dir: usize, size: u64)
        requires
            old(self).wf(),
            0 <= entry@ < old(self).log@.len(),
            old(self).log@[entry@] == (dir as int, size as nat),
        ensures
            final(self).wf(),
            final(self).log@ == old(self).log@.update(entry@, (-1int, size as nat)),
            final(self).parents@ == old(self).parents@,
            final(self).names@ == old(self).names@,
            final(self).paths@ == old(self).paths@,
    {
        let ghost ps = self.parents@;
        let ghost log = self.log@;
        let ghost k = entry@;
        let ghost log2 = log.update(k, (-1int, size as nat));
        let ghost n = ps.len();
        proof {
            assert(0 <= log[k].0 < n);
            assert forall|i: int| 0 <= i < n implies #[trigger] bytes_under(ps, log2, i) + (if under(ps, i, dir as int) { size as nat } else { 0nat }) == bytes_under(ps, log, i) by {
                lemma_forget_counts(ps, log, k, i);
            }
            assert forall|i: int| 0 <= i < n implies #[trigger] files_under(ps, log2, i) + (if under(ps, i, dir as int) { 1nat } else { 0nat }) == files_under(ps, log, i) by {
                lemma_forget_counts(ps, log, k, i);
            }
            lemma_forget_counts(ps, log, k, 0);
            lemma_forget_counts(ps, log, k, dir as int);
            assert forall|i: int| 0 <= i < ps.len() implies !(under(ps, i, dir as int) && i > dir) by {
                lemma_under_le(ps, i, dir as int);
            }
        }
        let o = self.own[dir];
        self.own.set(dir, o - size);
        let ghost base_sizes = self.sizes@;
        let ghost base_files = self.files@;
        let ghost own1 = self.own@;
        let ghost dirs0 = self.dirs@;
        let ghost cd0 = self.child_dirs@;
        let ghost names0 = self.names@;
        let ghost paths0 = self.paths@;
        let ghost stack0 = self.stack@;
        let ghost tf = self.total_files;
        let ghost tb = self.total_bytes;
        let mut cur: usize = dir;
        loop
            invariant_except_break
                forall|i: int| 0 <= i < n ==> #[trigger] self.sizes@[i] + (if under(ps, i, dir as int) && i > cur { size as nat } else { 0nat }) == base_sizes[i],
                forall|i: int| 0 <= i < n ==> #[trigger] self.files@[i] + (if under(ps, i, dir as int) && i > cur { 1nat } else { 0nat }) == base_files[i],
            invariant
                well_linked(ps),
                ps == self.parents@,
                n == ps.len(),
                dir < n,
                cur < n,
                under(ps, cur as int, dir as int),
                self.sizes@.len() == n,
                self.files@.len() == n,
                forall|i: int| 0 <= i < n ==> #[trigger] base_sizes[i] == bytes_under(ps, log, i),
                forall|i: int| 0 <= i < n ==> #[trigger] base_files[i] == files_under(ps, log, i),
                forall|i: int| 0 <= i < n ==> #[trigger] bytes_under(ps, log2, i) + (if under(ps, i, dir as int) { size as nat } else { 0nat }) == bytes_under(ps, log, i),
                forall|i: int| 0 <= i < n ==> #[trigger] files_under(ps, log2, i) + (if under(ps, i, dir as int) { 1nat } else { 0nat }) == files_under(ps, log, i),
                self.own@ == own1,
                self.dirs@ == dirs0,
                self.child_dirs@ == cd0,
                self.names@ == names0,
                self.paths@ == paths0,
                self.stack@ == stack0,
                self.total_files == tf,
                self.total_bytes == tb,
                self.log@ == log,
            ensures
                self.sizes@.len() == n,
                self.files@.len() == n,
                forall|i: int| 0 <= i < n ==> #[trigger] self.sizes@[i] + (if under(ps, i, dir as int) { size as nat } else { 0nat }) == base_sizes[i],
                forall|i: int| 0 <= i < n ==> #[trigger] self.files@[i] + (if under(ps, i, dir as int) { 1nat } else { 0nat }) == base_files[i],
                ps == self.parents@,
                self.own@ == own1,
                self.dirs@ == dirs0,
                self.child_dirs@ == cd0,
                self.names@ == names0,
                self.paths@ == paths0,
                self.stack@ == stack0,
                self.total_files == tf,
                self.total_bytes == tb,
                self.log@ == log,
            decreases cur,
        {
            let s = self.sizes[cur];
            let f = self.files[cur];
            proof {
                assert(bytes_under(ps, log2, cur as int) + size == bytes_under(ps, log, cur as int));
                assert(files_under(ps, log2, cur as int) + 1 == files_under(ps, log, cur as int));
            }
            self.sizes.set(cur, s.saturating_sub(size));
            self.files.set(cur, f.saturating_sub(1));
            match self.parents[cur] {
                None => {
                    proof {
                        assert(cur == 0) by {
                            if cur > 0 {
                                assert(ps[cur as int] matches Some(p) && p < cur);
                            }
                        }
                    }
                    break;
                },
                Some(p) => {
                    proof {
                        assert(cur > 0);
                        assert(p < cur) by {
                            assert(ps[cur as int] matches Some(q) && q < cur);
                        }
                        lemma_up_one(ps, cur as int, dir as int, p);
                        assert forall|i: int| 0 <= i < n implies (under(ps, i, dir as int) && i > p) == ((under(ps, i, dir as int) && i > cur) || i == cur) by {
                            if under(ps, i, dir as int) && p < i && i < cur {
                                lemma_chain(ps, i, cur as int, dir as int);
                                lemma_step_down(ps, i, cur as int, p);
                            }
                        }
                    }
                    cur = p;
                },
            }
        }
        self.log = Ghost(log2);
        proof {
            assert forall|i: int| 0 <= i < n implies #[trigger] self.sizes@[i] == bytes_under(ps, log2, i) by {}
            assert forall|i: int| 0 <= i < n implies #[trigger] self.files@[i] == files_under(ps, log2, i) by {}
            assert forall|i: int| 0 <= i < n implies #[trigger] self.own@[i] == own_bytes(log2, i) by {
                lemma_forget_counts(ps, log, k, i);
            }
            assert forall|j: int| 0 <= j < log2.len() implies -1 <= #[trigger] log2[j].0 < n by {
                if j != k {
                    assert(log2[j] == log[j]);
                }
            }
        }
    }
}

/// Moving one file out of every directory takes its share off every count that held it.
proof fn lemma_forget_counts(ps: Seq<Option<usize>>, log: Seq<(int, nat)>, k: int, i: int)
    requires
        0 <= k < log.len(),
        0 <= i,
    ensures
        bytes_under(ps, log.update(k, (-1int, log[k].1)), i) + (if under(ps, i, log[k].0) { log[k].1 } else { 0nat }) == bytes_under(ps, log, i),
        files_under(ps, log.update(k, (-1int, log[k].1)), i) + (if under(ps, i, log[k].0) { 1nat } else { 0nat }) == files_under(ps, log, i),
        own_bytes(log.update(k, (-1int, log[k].1)), i) + (if log[k].0 == i { log[k].1 } else { 0nat }) == own_bytes(log, i),
        all_bytes(log.update(k, (-1int, log[k].1))) == all_bytes(log),
    decreases log.len(),
{
    let log2 = log.update(k, (-1int, log[k].1));
    assert(!under(ps, i, -1));
    if k == log.len() - 1 {
        assert(log2.drop_last() =~= log.drop_last());
    } else {
        assert(log2.drop_last() =~= log.drop_last().update(k, (-1int, log[k].1)));
        assert(log.drop_last()[k] == log[k]);
        lemma_forget_counts(ps, log.drop_last(), k, i);
    }
}

/// A new node has nothing under it yet.
proof fn lemma_nothing_under_new(ps: Seq<Option<usize>>, log: Seq<(int, nat)>, idx: int)
    requires
        forall|k: int| 0 <= k < log.len() ==> !under(ps, idx, #[trigger] log[k].0),
    ensures
        bytes_under(ps, log, idx) == 0,
        files_under(ps, log, idx) == 0,
    decreases log.len(),
{
    if log.len() > 0 {
        assert forall|k: int| 0 <= k < log.drop_last().len() implies !under(ps, idx, #[trigger] log.drop_last()[k].0) by {
            assert(log.drop_last()[k] == log[k]);
        }
        lemma_nothing_under_new(ps, log.drop_last(), idx);
        assert(!under(ps, idx, log[log.len() - 1].0));
    }
}

proof fn lemma_own_none(log: Seq<(int, nat)>, idx: int)
    requires
        forall|k: int| 0 <= k < log.len() ==> #[trigger] log[k].0 < idx,
    ensures
        own_bytes(log, idx) == 0,
    decreases log.len(),
{
    if log.len() > 0 {
        assert forall|k: int| 0 <= k < log.drop_last().len() implies #[trigger] log.drop_last()[k].0 < idx by {
            assert(log.drop_last()[k] == log[k]);
        }
        lemma_own_none(log.drop_last(), idx);
        assert(log[log.len() - 1].0 < idx);
    }
}

/// The newest node has nothing below it and no children.
proof fn lemma_dirs_new(ps: Seq<Option<usize>>, idx: int)
    requires
        well_linked(ps),
        idx == ps.len() - 1,
    ensures
        dirs_below(ps, idx, ps.len() as int) == 0,
        children_of(ps, idx, ps.len() as int) == 0,
{
    lemma_dirs_new_upto(ps, idx, ps.len() as int);
}

proof fn lemma_dirs_new_upto(ps: Seq<Option<usize>>, idx: int, n: int)
    requires
        well_linked(ps),
        idx == ps.len() - 1,
        n <= ps.len(),
    ensures
        dirs_below(ps, idx, n) == 0,
        children_of(ps, idx, n) == 0,
    decreases n,
{
    if n > 0 {
        lemma_dirs_new_upto(ps, idx, n - 1);
        lemma_under_le(ps, idx, n - 1);
        if n - 1 >= 1 {
            assert(ps[n - 1] matches Some(p) && p < n - 1);
        }
    }
}

/// Going up one step from `c`, an ancestor of `d`, stays among the ancestors of `d`.
proof fn lemma_up_one(ps: Seq<Option<usize>>, c: int, d: int, p: usize)
    requires
        well_linked(ps),
        0 < c < ps.len(),
        ps[c] == Some(p),
        under(ps, c, d),
        0 <= d < ps.len(),
    ensures
        under(ps, p as int, d),
    decreases d,
{
    if d == c {
        assert(ps[c] matches Some(q) && q < c);
        assert(under(ps, p as int, p as int));
    } else {
        lemma_under_le(ps, c, d);
        if let Some(q) = ps[d] {
            lemma_up_one(ps, c, q as int, p);
        }
    }
}

/// An ancestor strictly above `c` lies at or above `c`'s parent.
proof fn lemma_step_down(ps: Seq<Option<usize>>, i: int, c: int, p: usize)
    requires
        well_linked(ps),
        0 < c < ps.len(),
        ps[c] == Some(p),
        under(ps, i, c),
        i < c,
    ensures
        under(ps, i, p as int),
        i <= p,
{
    lemma_under_le(ps, i, p as int);
}


/// The root lies above every directory.
pub proof fn lemma_root_above_all(ps: Seq<Option<usize>>, d: int)
    requires
        well_linked(ps),
        0 <= d < ps.len(),
    ensures
        under(ps, 0, d),
    decreases d,
{
    if d > 0 {
        assert(ps[d] matches Some(p) && p < d);
        if let Some(p) = ps[d] {
            lemma_root_above_all(ps, p as int);
        }
    }
}

/// The root holds every file of the walk that still sits in a directory: its size is the sum
/// of their sizes, and its file count their number.
pub proof fn lemma_root_holds_all(ps: Seq<Option<usize>>, log: Seq<(int, nat)>)
    requires
        well_linked(ps),
        forall|k: int| 0 <= k < log.len() ==> 0 <= #[trigger] log[k].0 < ps.len(),
    ensures
        bytes_under(ps, log, 0) == all_bytes(log),
        files_under(ps, log, 0) == log.len(),
    decreases log.len(),
{
    if log.len() > 0 {
        assert forall|k: int| 0 <= k < log.drop_last().len() implies 0 <= #[trigger] log.drop_last()[k].0 < ps.len() by {
            assert(log.drop_last()[k] == log[k]);
        }
        lemma_root_holds_all(ps, log.drop_last());
        lemma_root_above_all(ps, log[log.len() - 1].0);
    }
}

} // verus!
