//! What a directory listing shows: the entries the policy lets a reader see, in name order.
use vstd::prelude::*;

use crate::config::{join_path, path_join};
use crate::fsops::{
    file_name_of, path_file_name, relative_to, to_relative_path, FsEntry, FsEntryKind, TreeNode,
    TREE_ENTRY_CAP,
};
use crate::path::RelativePath;
use crate::mount::{Mount, MountPolicy, PolicyModel};
use crate::policy::{
    cache_after_compile, check_read_path, compiled_policy, lemma_read_outcome_ok, read_allowed,
    PolicyEngine,
};
use crate::scope::{compare_text, lemma_seq_lt_order, seq_lt};
use crate::text::opt_text;

verus! {

broadcast use {vstd::string::group_string_axioms, vstd::multiset::group_multiset_axioms};

/// What the daemon read from disk about one directory entry: its name, its path, where it
/// canonicalises to (if it does), its kind, length and modification time (nanoseconds
/// since the Unix epoch).
#[derive(Debug)]
pub struct EntrySnapshot {
    pub name: String,
    pub path: String,
    pub canonical: Option<String>,
    pub is_dir: bool,
    pub is_file: bool,
    pub len: u64,
    pub modified_at: i128,
}

/// The size a listing shows: the length of a regular file, nothing for anything else.
pub open spec fn snapshot_size(e: EntrySnapshot) -> Option<u64> {
    if e.is_file {
        Some(e.len)
    } else {
        None
    }
}

/// Whether the policy `p` lets an entry be listed: it lies under the root and may be read.
pub open spec fn entry_visible(p: PolicyModel, root: Seq<char>, e: EntrySnapshot) -> bool {
    match relative_to(root, e.path@) {
        None => false,
        Some(rel) => read_allowed(p, rel, root, opt_text(e.canonical), snapshot_size(e)),
    }
}

/// Whether the policy lets the entry `e` be seen under `root`.
fn entry_is_visible(policy: &MountPolicy, root: &str, e: &EntrySnapshot) -> (r: bool)
    ensures
        r == entry_visible(policy@, root@, *e),
{
    match to_relative_path(root, e.path.as_str()) {
        None => false,
        Some(relative) => {
            let size = if e.is_file {
                Some(e.len)
            } else {
                None
            };
            let canonical = match &e.canonical {
                Some(c) => Some(c.clone()),
                None => None,
            };
            let outcome = check_read_path(policy, &relative, root, canonical, size);
            proof {
                lemma_read_outcome_ok(
                    policy@,
                    relative@,
                    root@,
                    opt_text(e.canonical),
                    snapshot_size(*e),
                    outcome,
                );
            }
            outcome.is_ok()
        },
    }
}

/// Whether a tree walk takes in the child entry `child` of a directory: as in a listing, it
/// must lie under the canonical mount root `root` and the mount's policy must let it be read.
pub fn tree_child_admitted(
    engine: &mut PolicyEngine,
    mount: &Mount,
    root: &str,
    child: &EntrySnapshot,
) -> (r: bool)
    ensures
        final(engine).cache() == cache_after_compile(
            old(engine).cache(),
            mount.name@,
            mount.policy@,
        ),
        r == entry_visible(
            compiled_policy(old(engine).cache(), mount.name@, mount.policy@),
            root@,
            *child,
        ),
        r == (relative_to(root@, child.path@) is Some && read_allowed(
            compiled_policy(old(engine).cache(), mount.name@, mount.policy@),
            relative_to(root@, child.path@)->Some_0,
            root@,
            opt_text(child.canonical),
            if child.is_file {
                Some(child.len)
            } else {
                None
            },
        )),
{
    let compiled = engine.policy_for(mount);
    entry_is_visible(&compiled.policy, root, child)
}

/// The listing line of an entry.
pub open spec fn listed(e: EntrySnapshot) -> FsEntry {
    FsEntry {
        name: e.name,
        kind: if e.is_dir {
            FsEntryKind::Dir
        } else {
            FsEntryKind::File
        },
        size: snapshot_size(e),
        modified_at: e.modified_at,
    }
}

/// Whether entries are in name order.
pub open spec fn sorted_by_name(s: Seq<FsEntry>) -> bool {
    forall|i: int, j: int| 0 <= i <= j < s.len() ==> !seq_lt((#[trigger] s[j]).name@, (#[trigger] s[i]).name@)
}

/// Every entry of a listing comes from one of the snapshot's entries, with its name and
/// time, and that entry lies under the root at a path the policy lets a reader read with its
/// size: a hidden, deny-read or escaping entry is never listed.
pub proof fn lemma_listed_entries_readable(
    p: PolicyModel,
    root: Seq<char>,
    pred: spec_fn(EntrySnapshot) -> bool,
    snap: Seq<EntrySnapshot>,
    r: Seq<FsEntry>,
)
    requires
        forall|e: EntrySnapshot| #[trigger] pred(e) ==> entry_visible(p, root, e),
        r.to_multiset() == snap.filter(pred).map_values(|e: EntrySnapshot| listed(e)).to_multiset(),
    ensures
        forall|k: int|
            #![trigger r[k]]
            0 <= k < r.len() ==> exists|j: int|
                #![trigger snap[j]]
                0 <= j < snap.len() && r[k].name == snap[j].name && r[k].modified_at
                    == snap[j].modified_at && relative_to(root, snap[j].path@) is Some
                    && read_allowed(
                    p,
                    relative_to(root, snap[j].path@)->Some_0,
                    root,
                    opt_text(snap[j].canonical),
                    if snap[j].is_file {
                        Some(snap[j].len)
                    } else {
                        None
                    },
                ),
{
    let f = snap.filter(pred);
    let m = f.map_values(|e: EntrySnapshot| listed(e));
    assert forall|k: int| #![trigger r[k]] 0 <= k < r.len() implies exists|j: int|
        #![trigger snap[j]]
        0 <= j < snap.len() && r[k].name == snap[j].name && r[k].modified_at == snap[j].modified_at
            && relative_to(root, snap[j].path@) is Some && read_allowed(
            p,
            relative_to(root, snap[j].path@)->Some_0,
            root,
            opt_text(snap[j].canonical),
            if snap[j].is_file {
                Some(snap[j].len)
            } else {
                None
            },
        ) by {
        let x = r[k];
        assert(r.contains(x));
        r.to_multiset_ensures();
        m.to_multiset_ensures();
        assert(r.to_multiset().count(x) > 0);
        assert(m.to_multiset().count(x) > 0);
        assert(m.contains(x));
        let i = choose|i: int| 0 <= i < m.len() && m[i] == x;
        assert(m[i] == listed(f[i]));
        snap.lemma_filter_pred(pred, i);
        assert(f.contains(f[i]));
        snap.lemma_filter_contains_rev(pred, f[i]);
        let j = choose|j: int| 0 <= j < snap.len() && snap[j] == f[i];
        assert(entry_visible(p, root, snap[j]));
    }
}

/// The entries of a directory that a reader of `mount` may see, sorted by name. `root` is
/// the canonical mount root and `snapshot` what was read from the directory.
pub fn list_entries(
    engine: &mut PolicyEngine,
    mount: &Mount,
    root: &str,
    snapshot: Vec<EntrySnapshot>,
) -> (r: Vec<FsEntry>)
    ensures
        final(engine).cache() == cache_after_compile(
            old(engine).cache(),
            mount.name@,
            mount.policy@,
        ),
        r@.to_multiset() == snapshot@.filter(
            |e: EntrySnapshot|
                entry_visible(
                    compiled_policy(old(engine).cache(), mount.name@, mount.policy@),
                    root@,
                    e,
                ),
        ).map_values(|e: EntrySnapshot| listed(e)).to_multiset(),
        sorted_by_name(r@),
        forall|k: int|
            #![trigger r@[k]]
            0 <= k < r@.len() ==> exists|j: int|
                #![trigger snapshot@[j]]
                0 <= j < snapshot@.len() && r@[k].name == snapshot@[j].name && r@[k].modified_at
                    == snapshot@[j].modified_at && relative_to(root@, snapshot@[j].path@) is Some
                    && read_allowed(
                    compiled_policy(old(engine).cache(), mount.name@, mount.policy@),
                    relative_to(root@, snapshot@[j].path@)->Some_0,
                    root@,
                    opt_text(snapshot@[j].canonical),
                    if snapshot@[j].is_file {
                        Some(snapshot@[j].len)
                    } else {
                        None
                    },
                ),
{
    let compiled = engine.policy_for(mount);
    let ghost p = compiled.policy@;
    let ghost pred = |e: EntrySnapshot| entry_visible(p, root@, e);
    let ghost all = snapshot@;
    let mut sorted: Vec<FsEntry> = Vec::new();
    let mut rest = snapshot;
    let n: usize = rest.len();
    let mut i: usize = 0;
    proof {
        assert(all.take(0) =~= Seq::<EntrySnapshot>::empty());
        reveal(Seq::filter);
        assert(rest@ =~= all.skip(0));
        assert(all.take(0).filter(pred).map_values(|e: EntrySnapshot| listed(e)) =~= Seq::<
            FsEntry,
        >::empty());
    }
    while i < n
        invariant
            pred == (|e: EntrySnapshot| entry_visible(p, root@, e)),
            p == compiled.policy@,
            0 <= i <= n,
            all.len() == n,
            rest@ == all.skip(i as int),
            sorted_by_name(sorted@),
            sorted@.to_multiset() == all.take(i as int).filter(pred).map_values(
                |e: EntrySnapshot| listed(e),
            ).to_multiset(),
        decreases n - i,
    {
        let e = rest.remove(0);
        let ghost ge = e;
        proof {
            assert(ge == all[i as int]);
            assert(all.take(i + 1) =~= all.take(i as int).push(ge));
            all.take(i as int).lemma_filter_push(ge, pred);
            assert(rest@ =~= all.skip(i + 1));
        }
        let visible = entry_is_visible(&compiled.policy, root, &e);
        if visible {
            let entry = FsEntry {
                name: e.name,
                kind: if e.is_dir {
                    FsEntryKind::Dir
                } else {
                    FsEntryKind::File
                },
                size: if e.is_file {
                    Some(e.len)
                } else {
                    None
                },
                modified_at: e.modified_at,
            };
            let mut k: usize = 0;
            while k < sorted.len() && compare_text(entry.name.as_str(), sorted[k].name.as_str())
                != -1
                invariant
                    0 <= k <= sorted@.len(),
                    forall|j: int| 0 <= j < k ==> !seq_lt(entry.name@, (#[trigger] sorted@[j]).name@),
                decreases sorted@.len() - k,
            {
                k = k + 1;
            }
            let ghost before = sorted@;
            let ghost ent = entry;
            let ghost prior = all.take(i as int).filter(pred).map_values(|x: EntrySnapshot| listed(x));
            sorted.insert(k, entry);
            proof {
                assert(ent == listed(ge));
                if k < before.len() {
                    assert(seq_lt(ent.name@, before[k as int].name@));
                }
                assert(sorted@ == before.insert(k as int, ent));
                assert forall|a: int, b: int| 0 <= a <= b < sorted@.len() implies !seq_lt(
                    (#[trigger] sorted@[b]).name@,
                    (#[trigger] sorted@[a]).name@,
                ) by {
                    if a < k && b < k {
                        assert(sorted@[a] == before[a] && sorted@[b] == before[b]);
                        assert(!seq_lt(before[b].name@, before[a].name@));
                    } else if a < k && b == k {
                        assert(sorted@[a] == before[a] && sorted@[b] == ent);
                        assert(!seq_lt(ent.name@, before[a].name@));
                    } else if a < k && b > k {
                        assert(sorted@[a] == before[a] && sorted@[b] == before[b - 1]);
                        assert(!seq_lt(before[b - 1].name@, before[a].name@));
                    } else if a == k && b == k {
                        lemma_seq_lt_order(ent.name@, ent.name@, ent.name@);
                    } else if a == k && b > k {
                        assert(sorted@[a] == ent && sorted@[b] == before[b - 1]);
                        assert(!seq_lt(before[b - 1].name@, before[k as int].name@));
                        lemma_seq_lt_order(before[b - 1].name@, ent.name@, before[k as int].name@);
                    } else {
                        assert(sorted@[a] == before[a - 1] && sorted@[b] == before[b - 1]);
                        assert(!seq_lt(before[b - 1].name@, before[a - 1].name@));
                    }
                }
                assert(sorted@.remove(k as int) =~= before);
                assert(sorted@[k as int] == ent);
                vstd::seq_lib::to_multiset_remove(sorted@, k as int);
                sorted@.to_multiset_ensures();
                assert(sorted@.contains(ent));
                assert(sorted@.to_multiset() =~= before.to_multiset().insert(ent));
                assert(all.take(i + 1).filter(pred) == all.take(i as int).filter(pred).push(ge));
                assert(all.take(i + 1).filter(pred).map_values(|x: EntrySnapshot| listed(x))
                    =~= prior.push(ent));
                vstd::seq_lib::to_multiset_build(prior, ent);
            }
        } else {
            proof {
                assert(!pred(ge));
                assert(all.take(i + 1).filter(pred) == all.take(i as int).filter(pred));
            }
        }
        i = i + 1;
    }
    proof {
        assert(all.take(n as int) =~= all);
        lemma_listed_entries_readable(p, root@, pred, all, sorted@);
    }
    sorted
}

/// Whether tree nodes are in name order.
pub open spec fn nodes_sorted_by_name(s: Seq<TreeNode>) -> bool {
    forall|i: int, j: int| 0 <= i <= j < s.len() ==> !seq_lt((#[trigger] s[j]).name@, (#[trigger] s[i]).name@)
}

/// Sorts the children of a tree node by name.
pub fn sort_nodes_by_name(nodes: Vec<TreeNode>) -> (r: Vec<TreeNode>)
    ensures
        r@.to_multiset() == nodes@.to_multiset(),
        nodes_sorted_by_name(r@),
{
    let ghost all = nodes@;
    let mut sorted: Vec<TreeNode> = Vec::new();
    let mut rest = nodes;
    let n: usize = rest.len();
    let mut i: usize = 0;
    proof {
        assert(all.take(0) =~= Seq::<TreeNode>::empty());
        assert(rest@ =~= all.skip(0));
    }
    while i < n
        invariant
            0 <= i <= n,
            all.len() == n,
            rest@ == all.skip(i as int),
            nodes_sorted_by_name(sorted@),
            sorted@.to_multiset() == all.take(i as int).to_multiset(),
        decreases n - i,
    {
        let node = rest.remove(0);
        let ghost g = node;
        proof {
            assert(g == all[i as int]);
            assert(all.take(i + 1) =~= all.take(i as int).push(g));
            assert(rest@ =~= all.skip(i + 1));
        }
        let mut k: usize = 0;
        while k < sorted.len() && compare_text(node.name.as_str(), sorted[k].name.as_str()) != -1
            invariant
                0 <= k <= sorted@.len(),
                forall|j: int| 0 <= j < k ==> !seq_lt(node.name@, (#[trigger] sorted@[j]).name@),
            decreases sorted@.len() - k,
        {
            k = k + 1;
        }
        let ghost before = sorted@;
        sorted.insert(k, node);
        proof {
            if k < before.len() {
                assert(seq_lt(g.name@, before[k as int].name@));
            }
            assert(sorted@ == before.insert(k as int, g));
            assert forall|a: int, b: int| 0 <= a <= b < sorted@.len() implies !seq_lt(
                (#[trigger] sorted@[b]).name@,
                (#[trigger] sorted@[a]).name@,
            ) by {
                if a < k && b < k {
                    assert(sorted@[a] == before[a] && sorted@[b] == before[b]);
                    assert(!seq_lt(before[b].name@, before[a].name@));
                } else if a < k && b == k {
                    assert(sorted@[a] == before[a] && sorted@[b] == g);
                } else if a < k && b > k {
                    assert(sorted@[a] == before[a] && sorted@[b] == before[b - 1]);
                    assert(!seq_lt(before[b - 1].name@, before[a].name@));
                } else if a == k && b == k {
                    lemma_seq_lt_order(g.name@, g.name@, g.name@);
                } else if a == k && b > k {
                    assert(sorted@[a] == g && sorted@[b] == before[b - 1]);
                    assert(!seq_lt(before[b - 1].name@, before[k as int].name@));
                    lemma_seq_lt_order(before[b - 1].name@, g.name@, before[k as int].name@);
                } else {
                    assert(sorted@[a] == before[a - 1] && sorted@[b] == before[b - 1]);
                    assert(!seq_lt(before[b - 1].name@, before[a - 1].name@));
                }
            }
            assert(sorted@.remove(k as int) =~= before);
            vstd::seq_lib::to_multiset_remove(sorted@, k as int);
            sorted@.to_multiset_ensures();
            assert(sorted@.contains(g));
            assert(sorted@.to_multiset() =~= before.to_multiset().insert(g));
            vstd::seq_lib::to_multiset_build(all.take(i as int), g);
        }
        i = i + 1;
    }
    proof {
        assert(all.take(n as int) =~= all);
    }
    sorted
}

/// How far a tree walk has gone: how many nodes it has visited, and whether it was cut
/// short because the count passed the entry cap.
#[derive(Debug)]
pub struct TreeBudget {
    seen: usize,
    truncated: bool,
}

impl TreeBudget {
    #[verifier::type_invariant]
    spec fn well_formed(self) -> bool {
        &&& self.seen <= TREE_ENTRY_CAP + 1
        &&& (self.truncated <==> self.seen > TREE_ENTRY_CAP)
    }

    /// The number of nodes visited.
    pub closed spec fn seen(&self) -> nat {
        self.seen as nat
    }

    /// Whether the walk was cut.
    pub closed spec fn is_truncated(&self) -> bool {
        self.truncated
    }

    /// A walk that has visited nothing.
    pub fn new() -> (b: TreeBudget)
        ensures
            b.seen() == 0,
            !b.is_truncated(),
    {
        TreeBudget { seen: 0, truncated: false }
    }

    /// Counts a node about to be visited. When the count passes the entry cap the walk is
    /// cut: that node is shown as a bare directory and nothing more is visited. A walk
    /// that was cut visits no further node, so it never counts past one over the cap.
    pub fn visit(&mut self) -> (within: bool)
        requires
            !old(self).is_truncated(),
        ensures
            final(self).seen() == old(self).seen() + 1,
            final(self).is_truncated() == (old(self).seen() + 1 > TREE_ENTRY_CAP),
            final(self).seen() <= TREE_ENTRY_CAP + 1,
            within == !final(self).is_truncated(),
    {
        proof {
            use_type_invariant(&*self);
        }
        let seen = self.seen + 1;
        let truncated = seen > TREE_ENTRY_CAP;
        *self = TreeBudget { seen, truncated };
        !truncated
    }

    /// Whether the walk was cut.
    pub fn truncated(&self) -> (r: bool)
        ensures
            r == self.is_truncated(),
    {
        self.truncated
    }

    /// Whether the walk goes into the entries of a node: it must be a directory, depth must
    /// remain, and the walk must not have been cut.
    pub fn descends(&self, is_dir: bool, depth: u8) -> (r: bool)
        ensures
            r == (is_dir && depth > 0 && !self.is_truncated()),
    {
        is_dir && depth > 0 && !self.truncated
    }
}

/// The depth left `n` levels below a node at depth `d`: one less per level, never below 0.
pub open spec fn depth_after(d: u8, n: nat) -> int
    decreases n,
{
    if n == 0 {
        d as int
    } else if depth_after(d, (n - 1) as nat) <= 0 {
        0
    } else {
        depth_after(d, (n - 1) as nat) - 1
    }
}

/// A walk started at depth `d` has depth `d - n` left `n` levels down and none from `d` levels
/// down, where `TreeBudget::descends` is false: no node more than `d` levels below the root is
/// visited.
pub proof fn lemma_walk_depth_bound(d: u8, n: nat)
    ensures
        depth_after(d, n) == (if n >= d {
            0
        } else {
            d - n
        }),
    decreases n,
{
    if n > 0 {
        lemma_walk_depth_bound(d, (n - 1) as nat);
    }
}

/// The depth left for the children of a node at `depth`.
pub fn child_depth(depth: u8) -> (d: u8)
    ensures
        d == (if depth == 0 {
            0
        } else {
            depth - 1
        }),
        d == depth_after(depth, 1),
{
    proof {
        assert(depth_after(depth, 0) == depth as int);
    }
    if depth == 0 {
        0
    } else {
        depth - 1
    }
}

/// The node shown where a walk was cut: a bare directory.
pub fn cut_node(name: String) -> (n: TreeNode)
    ensures
        n.name == name,
        n.kind == FsEntryKind::Dir,
        n.size is None,
        n.modified_at is None,
        n.children@.len() == 0,
{
    TreeNode { name, kind: FsEntryKind::Dir, size: None, modified_at: None, children: Vec::new() }
}

/// The node for a path read from disk, before its children are added: a directory or a
/// file, the length of a regular file, and its modification time.
pub fn tree_node(name: String, is_dir: bool, is_file: bool, len: u64, modified_at: i128) -> (n: TreeNode)
    ensures
        n.name == name,
        n.kind == (if is_dir {
            FsEntryKind::Dir
        } else {
            FsEntryKind::File
        }),
        n.size == (if is_file {
            Some(len)
        } else {
            None
        }),
        n.modified_at == Some(modified_at),
        n.children@.len() == 0,
{
    TreeNode {
        name,
        kind: if is_dir {
            FsEntryKind::Dir
        } else {
            FsEntryKind::File
        },
        size: if is_file {
            Some(len)
        } else {
            None
        },
        modified_at: Some(modified_at),
        children: Vec::new(),
    }
}

/// The name of the root node of a tree: empty for the mount root, otherwise the file name
/// of the path (empty when it has none).
pub fn tree_root_name(relative: &RelativePath) -> (n: String)
    ensures
        n@ == (if relative@.len() == 0 {
            Seq::<char>::empty()
        } else {
            match path_file_name(relative@) {
                Some(f) => f,
                None => Seq::<char>::empty(),
            }
        }),
{
    if relative.is_root() {
        return String::new();
    }
    match file_name_of(relative.as_str()) {
        Some(name) => name,
        None => String::new(),
    }
}

/// Where the summary of a path is read from: a directory's `index.md`, or the file itself
/// when it is an `index.md`.
pub open spec fn summary_file(resolved: Seq<char>, is_dir: bool) -> Option<Seq<char>> {
    if is_dir {
        Some(path_join(resolved, "index.md"@))
    } else if path_file_name(resolved) == Some("index.md"@) {
        Some(resolved)
    } else {
        None
    }
}

/// The file whose front matter summarises the path `resolved`, if any.
pub fn summary_source(resolved: &str, is_dir: bool) -> (r: Option<String>)
    ensures
        crate::text::opt_text(r) == summary_file(resolved@, is_dir),
{
    if is_dir {
        return Some(join_path(resolved, "index.md"));
    }
    match file_name_of(resolved) {
        Some(name) => if crate::text::str_eq(name.as_str(), "index.md") {
            Some(resolved.to_owned())
        } else {
            None
        },
        None => None,
    }
}

} // verus!
