//! A device-property node graph owned by an external subsystem, reference
//! counted handles to its nodes, and lazy cursors over its enumerations.
//!
//! `Graph` plays the owning collaborator: it allocates nodes, keeps one
//! reference count per node, and answers the stateless enumeration queries
//! (`next_child`, `next_endpoint`, `get_parent`). `Node` is a handle that
//! owns exactly one unit of one node's reference count. `NodeIterator`
//! walks one enumeration of a root node, one step per call, retaining the
//! root and the current position for as long as it lives.

use vstd::prelude::*;
use vstd::pervasive::VecAdditionalExecFns;

verus! {

/// One step of a stateless enumeration of `s`: the first entry when no
/// previous entry is given; the entry after the first occurrence of the
/// previous one; nothing when the previous entry is last or not listed.
/// Calling it again with the same arguments gives the same answer.
pub open spec fn step_in(s: Seq<usize>, prev: Option<usize>) -> Option<usize>
    decreases s.len(),
{
    match prev {
        None => if s.len() == 0 { None } else { Some(s[0]) },
        Some(p) => if s.len() == 0 {
            None
        } else if s[0] == p {
            if s.len() >= 2 { Some(s[1]) } else { None }
        } else {
            step_in(s.subrange(1, s.len() as int), prev)
        },
    }
}

/// What the step after the first occurrence of `s[i]` is: the entry one
/// past `i`, or nothing when `i` is last.
pub proof fn lemma_step_found(s: Seq<usize>, p: usize, i: int)
    requires
        0 <= i < s.len(),
        s[i] == p,
        forall|j: int| 0 <= j < i ==> s[j] != p,
    ensures
        step_in(s, Some(p)) == (if i + 1 < s.len() { Some(s[i + 1]) } else { None::<usize> }),
    decreases i,
{
    if i == 0 {
    } else {
        let t = s.subrange(1, s.len() as int);
        assert(s[0] != p);
        assert(t[i - 1] == p);
        assert forall|j: int| 0 <= j < i - 1 implies t[j] != p by {
            assert(t[j] == s[j + 1]);
        }
        lemma_step_found(t, p, i - 1);
        if i + 1 < s.len() {
            assert(t[i] == s[i + 1]);
        }
    }
}

/// An entry that is not listed has no successor.
pub proof fn lemma_step_absent(s: Seq<usize>, p: usize)
    requires
        forall|j: int| 0 <= j < s.len() ==> s[j] != p,
    ensures
        step_in(s, Some(p)) == None::<usize>,
    decreases s.len(),
{
    if s.len() > 0 {
        let t = s.subrange(1, s.len() as int);
        assert forall|j: int| 0 <= j < t.len() implies t[j] != p by {
            assert(t[j] == s[j + 1]);
        }
        lemma_step_absent(t, p);
    }
}

/// What the `k`-th advance of a cursor yields over an enumeration `s`:
/// the `k`-th entry while any remain, nothing from then on.
pub open spec fn cursor_yield(s: Seq<usize>, k: nat) -> Option<usize> {
    if k < s.len() { Some(s[k as int]) } else { None }
}

/// In an enumeration without duplicates, stepping from the `k`-th entry
/// yielded reaches exactly what the next advance owes: entry `k + 1`, or
/// exhaustion past the end.
pub proof fn lemma_step_from_position(s: Seq<usize>, k: nat)
    requires
        s.no_duplicates(),
        1 <= k <= s.len(),
    ensures
        step_in(s, Some(s[k - 1])) == cursor_yield(s, k),
{
    lemma_step_found(s, s[k - 1], k - 1);
}

/// The reference counts after one unit is acquired on node `i`.
pub open spec fn counts_inc(c: Seq<nat>, i: int) -> Seq<nat> {
    c.update(i, c[i] + 1)
}

/// The reference counts after one unit is released on node `i`.
pub open spec fn counts_dec(c: Seq<nat>, i: int) -> Seq<nat> {
    c.update(i, (c[i] - 1) as nat)
}

/// Law: acquiring one reference unit on a node and then releasing one on
/// the same node leaves every node's reference count exactly as it was.
/// This is what a handle cloned and then dropped does to the graph.
pub proof fn lemma_clone_release_balanced(c: Seq<nat>, i: int)
    requires
        0 <= i < c.len(),
    ensures
        counts_dec(counts_inc(c, i), i) == c,
{
    assert(counts_dec(counts_inc(c, i), i) =~= c);
}

/// Law: over an enumeration of `n` entries, a cursor is owed a node at
/// each of its first `n` advances and exhaustion at every advance after
/// them.
pub proof fn lemma_finite_traversal(s: Seq<usize>, k: nat)
    ensures
        k < s.len() ==> cursor_yield(s, k) == Some(s[k as int]),
        k >= s.len() ==> cursor_yield(s, k) is None,
{
}

/// Law: over an empty enumeration the very first advance, and every
/// advance after it, is owed exhaustion — zero nodes are yielded.
pub proof fn lemma_empty_traversal(s: Seq<usize>, k: nat)
    requires
        s.len() == 0,
    ensures
        cursor_yield(s, k) is None,
{
}

/// Law: what an advance yields is a function of the graph, the root, the
/// strategy and the number of nodes yielded before — never of the
/// cursor's identity. Two cursors built over the same root with the same
/// strategy and advanced equally often are owed the same answer next.
pub proof fn lemma_cursor_determinism(g: Graph, a: NodeIterator, b: NodeIterator)
    requires
        a.root_id() == b.root_id(),
        a.strategy() == b.strategy(),
        a.yielded() == b.yielded(),
    ensures
        cursor_yield(enum_seq(g, a.strategy(), a.root_id() as int), a.yielded())
            == cursor_yield(enum_seq(g, b.strategy(), b.root_id() as int), b.yielded()),
{
}

/// One node as the owning subsystem keeps it: its place in the graph.
/// The reference count lives in a parallel vector of the graph.
struct Entry {
    parent: Option<usize>,
    children: Vec<usize>,
    endpoints: Vec<usize>,
}

/// The owning subsystem: allocates nodes, counts references, and
/// enumerates children, endpoints and parents.
pub struct Graph {
    refcounts: Vec<u64>,
    entries: Vec<Entry>,
}

impl Graph {
    /// How many nodes the subsystem has ever allocated.
    pub closed spec fn node_count(self) -> nat {
        self.entries@.len()
    }

    /// The reference count of every node, by node identifier.
    pub closed spec fn counts(self) -> Seq<nat> {
        Seq::new(self.refcounts@.len(), |i: int| self.refcounts@[i] as nat)
    }

    /// The child enumeration of a node, in subsystem order.
    pub closed spec fn children_seq(self, id: int) -> Seq<usize> {
        self.entries@[id].children@
    }

    /// The endpoint enumeration of a node, in subsystem order.
    pub closed spec fn endpoints_seq(self, id: int) -> Seq<usize> {
        self.entries@[id].endpoints@
    }

    /// The parent of a node, if it has one.
    pub closed spec fn parent_of(self, id: int) -> Option<usize> {
        self.entries@[id].parent
    }

    /// A node identifier names a node of this graph.
    pub open spec fn valid(self, id: usize) -> bool {
        id < self.node_count()
    }

    /// A node is live while its reference count has not reached zero;
    /// at zero the subsystem has reclaimed it.
    pub open spec fn live(self, id: usize) -> bool {
        self.valid(id) && self.counts()[id as int] >= 1
    }

    /// An enumeration list owned by node `owner` is well formed: every
    /// listed identifier names a node other than the owner itself, and no
    /// identifier is listed twice.
    pub open spec fn list_ok(self, owner: int, s: Seq<usize>) -> bool {
        s.no_duplicates()
            && forall|j: int| 0 <= j < s.len() ==> self.valid(#[trigger] s[j]) && s[j] != owner
    }

    /// The graph's own invariant.
    pub open spec fn wf(self) -> bool {
        &&& self.counts().len() == self.node_count()
        &&& forall|i: int| 0 <= i < self.node_count() ==> self.list_ok(i, #[trigger] self.children_seq(i))
        &&& forall|i: int| 0 <= i < self.node_count() ==> self.list_ok(i, #[trigger] self.endpoints_seq(i))
        &&& forall|i: int| 0 <= i < self.node_count() ==> (match #[trigger] self.parent_of(i) {
                Some(p) => self.valid(p),
                None => true,
            })
    }

    /// Two graphs have the same nodes and the same shape; only the
    /// reference counts may differ.
    pub open spec fn same_structure(self, other: Graph) -> bool {
        &&& self.node_count() == other.node_count()
        &&& forall|i: int| 0 <= i < self.node_count() ==> #[trigger] self.children_seq(i) == other.children_seq(i)
        &&& forall|i: int| 0 <= i < self.node_count() ==> #[trigger] self.endpoints_seq(i) == other.endpoints_seq(i)
        &&& forall|i: int| 0 <= i < self.node_count() ==> #[trigger] self.parent_of(i) == other.parent_of(i)
    }

    /// An empty graph: no nodes at all.
    pub fn new() -> (r: Graph)
        ensures
            r.wf(),
            r.node_count() == 0,
    {
        Graph { refcounts: Vec::new(), entries: Vec::new() }
    }

    /// Allocates a fresh node with no parent. The subsystem itself holds
    /// the node's first reference unit, so the node starts live.
    pub fn add_root(&mut self) -> (r: usize)
        requires
            old(self).wf(),
            old(self).node_count() < usize::MAX,
        ensures
            final(self).wf(),
            r == old(self).node_count(),
            final(self).node_count() == old(self).node_count() + 1,
            final(self).counts() == old(self).counts().push(1nat),
            final(self).parent_of(r as int) == Option::<usize>::None,
            final(self).children_seq(r as int) == Seq::<usize>::empty(),
            final(self).endpoints_seq(r as int) == Seq::<usize>::empty(),
            forall|i: int| 0 <= i < old(self).node_count() ==> #[trigger] final(self).children_seq(i) == old(self).children_seq(i),
            forall|i: int| 0 <= i < old(self).node_count() ==> #[trigger] final(self).endpoints_seq(i) == old(self).endpoints_seq(i),
            forall|i: int| 0 <= i < old(self).node_count() ==> #[trigger] final(self).parent_of(i) == old(self).parent_of(i),
    {
        let ghost g0 = *self;
        let id = self.entries.len();
        self.refcounts.push(1);
        self.entries.push(Entry { parent: None, children: Vec::new(), endpoints: Vec::new() });
        proof {
            assert(self.counts() =~= g0.counts().push(1nat));
            assert(self.children_seq(id as int) =~= Seq::<usize>::empty());
            assert(self.endpoints_seq(id as int) =~= Seq::<usize>::empty());
            assert forall|i: int| 0 <= i < self.node_count() implies
                self.list_ok(i, #[trigger] self.children_seq(i)) by {
                if i < g0.node_count() {
                    assert(self.children_seq(i) == g0.children_seq(i));
                    assert(g0.list_ok(i, g0.children_seq(i)));
                }
            }
            assert forall|i: int| 0 <= i < self.node_count() implies
                self.list_ok(i, #[trigger] self.endpoints_seq(i)) by {
                if i < g0.node_count() {
                    assert(self.endpoints_seq(i) == g0.endpoints_seq(i));
                    assert(g0.list_ok(i, g0.endpoints_seq(i)));
                }
            }
            assert forall|i: int| 0 <= i < self.node_count() implies
                (match #[trigger] self.parent_of(i) {
                    Some(p) => self.valid(p),
                    None => true,
                }) by {
                if i < g0.node_count() {
                    assert(self.parent_of(i) == g0.parent_of(i));
                }
            }
        }
        id
    }

    /// Allocates a fresh node as the last child of `parent`. The new node
    /// joins the end of the parent's child enumeration, and the subsystem
    /// holds its first reference unit.
    pub fn add_child(&mut self, parent: usize) -> (r: usize)
        requires
            old(self).wf(),
            old(self).valid(parent),
            old(self).node_count() < usize::MAX,
        ensures
            final(self).wf(),
            r == old(self).node_count(),
            final(self).node_count() == old(self).node_count() + 1,
            final(self).counts() == old(self).counts().push(1nat),
            final(self).parent_of(r as int) == Some(parent),
            final(self).children_seq(r as int) == Seq::<usize>::empty(),
            final(self).endpoints_seq(r as int) == Seq::<usize>::empty(),
            final(self).children_seq(parent as int) == old(self).children_seq(parent as int).push(r),
            forall|i: int| 0 <= i < old(self).node_count() && i != parent ==> #[trigger] final(self).children_seq(i) == old(self).children_seq(i),
            forall|i: int| 0 <= i < old(self).node_count() ==> #[trigger] final(self).endpoints_seq(i) == old(self).endpoints_seq(i),
            forall|i: int| 0 <= i < old(self).node_count() ==> #[trigger] final(self).parent_of(i) == old(self).parent_of(i),
    {
        let ghost g0 = *self;
        let id = self.entries.len();
        self.refcounts.push(1);
        self.entries.push(Entry { parent: Some(parent), children: Vec::new(), endpoints: Vec::new() });
        let e = &mut self.entries[parent];
        e.children.push(id);
        proof {
            lemma_wf_grown(g0, *self, id, parent as int, true);
        }
        id
    }

    /// Allocates a fresh node as the last endpoint of `owner`. The new
    /// node joins the end of the owner's endpoint enumeration, and the
    /// subsystem holds its first reference unit.
    pub fn add_endpoint(&mut self, owner: usize) -> (r: usize)
        requires
            old(self).wf(),
            old(self).valid(owner),
            old(self).node_count() < usize::MAX,
        ensures
            final(self).wf(),
            r == old(self).node_count(),
            final(self).node_count() == old(self).node_count() + 1,
            final(self).counts() == old(self).counts().push(1nat),
            final(self).parent_of(r as int) == Some(owner),
            final(self).children_seq(r as int) == Seq::<usize>::empty(),
            final(self).endpoints_seq(r as int) == Seq::<usize>::empty(),
            final(self).endpoints_seq(owner as int) == old(self).endpoints_seq(owner as int).push(r),
            forall|i: int| 0 <= i < old(self).node_count() && i != owner ==> #[trigger] final(self).endpoints_seq(i) == old(self).endpoints_seq(i),
            forall|i: int| 0 <= i < old(self).node_count() ==> #[trigger] final(self).children_seq(i) == old(self).children_seq(i),
            forall|i: int| 0 <= i < old(self).node_count() ==> #[trigger] final(self).parent_of(i) == old(self).parent_of(i),
    {
        let ghost g0 = *self;
        let id = self.entries.len();
        self.refcounts.push(1);
        self.entries.push(Entry { parent: Some(owner), children: Vec::new(), endpoints: Vec::new() });
        let e = &mut self.entries[owner];
        e.endpoints.push(id);
        proof {
            lemma_wf_grown(g0, *self, id, owner as int, false);
        }
        id
    }

    /// How many nodes the subsystem has allocated, as a machine word.
    pub fn len(&self) -> (r: usize)
        ensures
            r == self.node_count(),
    {
        self.entries.len()
    }

    /// The reference count the subsystem keeps for a node.
    pub fn refcount(&self, id: usize) -> (r: u64)
        requires
            self.wf(),
            self.valid(id),
        ensures
            r as nat == self.counts()[id as int],
    {
        self.refcounts[id]
    }

    /// The parent query of the owning subsystem: the parent's identifier,
    /// or nothing for a node at the top of the graph.
    pub fn get_parent(&self, id: usize) -> (r: Option<usize>)
        requires
            self.wf(),
            self.valid(id),
        ensures
            r == self.parent_of(id as int),
    {
        self.entries[id].parent
    }

    /// The child-enumeration query of the owning subsystem: one step
    /// through the children of `root`, stateless in `prev`.
    pub fn next_child(&self, root: usize, prev: Option<usize>) -> (r: Option<usize>)
        requires
            self.wf(),
            self.valid(root),
        ensures
            r == step_in(self.children_seq(root as int), prev),
    {
        Graph::enum_step(&self.entries[root].children, prev)
    }

    /// The endpoint-enumeration query of the owning subsystem: one step
    /// through the endpoints of `root`, stateless in `prev`.
    pub fn next_endpoint(&self, root: usize, prev: Option<usize>) -> (r: Option<usize>)
        requires
            self.wf(),
            self.valid(root),
        ensures
            r == step_in(self.endpoints_seq(root as int), prev),
    {
        Graph::enum_step(&self.entries[root].endpoints, prev)
    }

    /// One step through an enumeration list.
    fn enum_step(list: &Vec<usize>, prev: Option<usize>) -> (r: Option<usize>)
        ensures
            r == step_in(list@, prev),
    {
        match prev {
            None => {
                if list.len() == 0 {
                    None
                } else {
                    Some(list[0])
                }
            }
            Some(p) => {
                let mut i: usize = 0;
                while i < list.len()
                    invariant
                        i <= list@.len(),
                        prev == Some(p),
                        forall|j: int| 0 <= j < i ==> list@[j] != p,
                    decreases list@.len() - i,
                {
                    if list[i] == p {
                        proof {
                            lemma_step_found(list@, p, i as int);
                        }
                        if i + 1 < list.len() {
                            return Some(list[i + 1]);
                        } else {
                            return None;
                        }
                    }
                    i = i + 1;
                }
                proof {
                    lemma_step_absent(list@, p);
                }
                None
            }
        }
    }

    /// Acquires one reference unit on a node and hands it out as a handle.
    fn acquire_unit(&mut self, id: usize) -> (r: Node)
        requires
            old(self).wf(),
            old(self).valid(id),
            old(self).counts()[id as int] + 1 <= u64::MAX,
        ensures
            final(self).wf(),
            final(self).same_structure(*old(self)),
            final(self).counts() == counts_inc(old(self).counts(), id as int),
            r.id() == id,
            r.wf(*final(self)),
    {
        let ghost g0 = *self;
        let c = self.refcounts[id];
        self.refcounts.set(id, c + 1);
        proof {
            assert(self.counts() =~= counts_inc(g0.counts(), id as int));
            assert(self.same_structure(g0));
            lemma_wf_same_structure(g0, *self);
        }
        Node { raw_id: id }
    }

    /// Releases one reference unit on a node.
    fn release_unit(&mut self, id: usize)
        requires
            old(self).wf(),
            old(self).live(id),
        ensures
            final(self).wf(),
            final(self).same_structure(*old(self)),
            final(self).counts() == counts_dec(old(self).counts(), id as int),
    {
        let ghost g0 = *self;
        let c = self.refcounts[id];
        self.refcounts.set(id, c - 1);
        proof {
            assert(self.counts() =~= counts_dec(g0.counts(), id as int));
            assert(self.same_structure(g0));
            lemma_wf_same_structure(g0, *self);
        }
    }
}

/// A well-formed graph stays well formed when one fresh node is appended
/// and listed at the end of one enumeration of an existing node.
proof fn lemma_wf_grown(a: Graph, b: Graph, id: usize, attach: int, to_children: bool)
    requires
        a.wf(),
        0 <= attach < a.node_count(),
        id == a.node_count(),
        b.node_count() == a.node_count() + 1,
        b.counts().len() == b.node_count(),
        b.children_seq(id as int) == Seq::<usize>::empty(),
        b.endpoints_seq(id as int) == Seq::<usize>::empty(),
        match b.parent_of(id as int) {
            Some(p) => b.valid(p),
            None => true,
        },
        to_children ==> b.children_seq(attach) == a.children_seq(attach).push(id),
        to_children ==> forall|i: int| 0 <= i < a.node_count() && i != attach ==> #[trigger] b.children_seq(i) == a.children_seq(i),
        to_children ==> forall|i: int| 0 <= i < a.node_count() ==> #[trigger] b.endpoints_seq(i) == a.endpoints_seq(i),
        !to_children ==> b.endpoints_seq(attach) == a.endpoints_seq(attach).push(id),
        !to_children ==> forall|i: int| 0 <= i < a.node_count() && i != attach ==> #[trigger] b.endpoints_seq(i) == a.endpoints_seq(i),
        !to_children ==> forall|i: int| 0 <= i < a.node_count() ==> #[trigger] b.children_seq(i) == a.children_seq(i),
        forall|i: int| 0 <= i < a.node_count() ==> #[trigger] b.parent_of(i) == a.parent_of(i),
    ensures
        b.wf(),
{
    assert forall|i: int| 0 <= i < b.node_count() implies
        b.list_ok(i, #[trigger] b.children_seq(i)) by {
        lemma_grown_list_ok(a, b, id, attach, to_children, i, true);
    }
    assert forall|i: int| 0 <= i < b.node_count() implies
        b.list_ok(i, #[trigger] b.endpoints_seq(i)) by {
        lemma_grown_list_ok(a, b, id, attach, to_children, i, false);
    }
    assert forall|i: int| 0 <= i < b.node_count() implies
        (match #[trigger] b.parent_of(i) {
            Some(p) => b.valid(p),
            None => true,
        }) by {
        if i < a.node_count() {
            assert(b.parent_of(i) == a.parent_of(i));
        }
    }
}

/// One enumeration list of the grown graph is well formed.
proof fn lemma_grown_list_ok(a: Graph, b: Graph, id: usize, attach: int, to_children: bool, i: int, of_children: bool)
    requires
        a.wf(),
        0 <= attach < a.node_count(),
        id == a.node_count(),
        b.node_count() == a.node_count() + 1,
        0 <= i < b.node_count(),
        b.children_seq(id as int) == Seq::<usize>::empty(),
        b.endpoints_seq(id as int) == Seq::<usize>::empty(),
        to_children ==> b.children_seq(attach) == a.children_seq(attach).push(id),
        to_children ==> forall|k: int| 0 <= k < a.node_count() && k != attach ==> #[trigger] b.children_seq(k) == a.children_seq(k),
        to_children ==> forall|k: int| 0 <= k < a.node_count() ==> #[trigger] b.endpoints_seq(k) == a.endpoints_seq(k),
        !to_children ==> b.endpoints_seq(attach) == a.endpoints_seq(attach).push(id),
        !to_children ==> forall|k: int| 0 <= k < a.node_count() && k != attach ==> #[trigger] b.endpoints_seq(k) == a.endpoints_seq(k),
        !to_children ==> forall|k: int| 0 <= k < a.node_count() ==> #[trigger] b.children_seq(k) == a.children_seq(k),
    ensures
        of_children ==> b.list_ok(i, b.children_seq(i)),
        !of_children ==> b.list_ok(i, b.endpoints_seq(i)),
{
    let t = if of_children { b.children_seq(i) } else { b.endpoints_seq(i) };
    if i == id {
        assert(t.len() == 0);
    } else if of_children == to_children && i == attach {
        let s = if of_children { a.children_seq(i) } else { a.endpoints_seq(i) };
        assert(a.list_ok(i, s));
        assert(t == s.push(id));
        assert forall|j: int| 0 <= j < t.len() implies b.valid(#[trigger] t[j]) by {
            if j < s.len() {
                assert(t[j] == s[j]);
                assert(a.valid(s[j]));
            } else {
                assert(t[j] == id);
            }
        }
        assert forall|j: int, k: int|
            0 <= j < t.len() && 0 <= k < t.len() && j != k implies t[j] != t[k] by {
            if j < s.len() && k < s.len() {
                assert(s.no_duplicates());
                assert(s[j] != s[k]);
            } else if j < s.len() {
                assert(a.valid(s[j]));
                assert(t[k] == id);
            } else {
                assert(t[j] == id);
                assert(a.valid(s[k]));
            }
        }
        assert(t.no_duplicates());
    } else {
        let s = if of_children { a.children_seq(i) } else { a.endpoints_seq(i) };
        assert(t == s);
        assert(a.list_ok(i, s));
        assert forall|j: int| 0 <= j < t.len() implies b.valid(#[trigger] t[j]) by {
            assert(a.valid(s[j]));
        }
    }
}

/// A graph whose shape equals a well-formed graph's is well formed itself.
proof fn lemma_wf_same_structure(a: Graph, b: Graph)
    requires
        a.wf(),
        a.same_structure(b),
        b.counts().len() == b.node_count(),
    ensures
        b.wf(),
{
    assert forall|i: int| 0 <= i < b.node_count() implies
        b.list_ok(i, #[trigger] b.children_seq(i)) by {
        assert(b.children_seq(i) == a.children_seq(i));
        assert(a.list_ok(i, a.children_seq(i)));
    }
    assert forall|i: int| 0 <= i < b.node_count() implies
        b.list_ok(i, #[trigger] b.endpoints_seq(i)) by {
        assert(b.endpoints_seq(i) == a.endpoints_seq(i));
        assert(a.list_ok(i, a.endpoints_seq(i)));
    }
    assert forall|i: int| 0 <= i < b.node_count() implies
        (match #[trigger] b.parent_of(i) {
            Some(p) => b.valid(p),
            None => true,
        }) by {
        assert(b.parent_of(i) == a.parent_of(i));
    }
}

/// A shared, reference-counted handle naming one node of the graph. Each
/// live handle owns exactly one unit of its node's reference count: the
/// unit is taken when the handle is made and given back exactly once, by
/// [`Node::release`]. A handle is deliberately neither `Copy` nor `Clone`;
/// a second handle to the same node comes only from [`Node::clone_in`],
/// which takes its own unit.
pub struct Node {
    raw_id: usize,
}

impl Node {
    /// The identifier of the node this handle names.
    pub closed spec fn id(self) -> usize {
        self.raw_id
    }

    /// A handle is well formed for a graph when its node is live there.
    pub open spec fn wf(self, g: Graph) -> bool {
        g.live(self.id())
    }

    /// The raw identifier, for looking the node up with the subsystem.
    pub fn node_id(&self) -> (r: usize)
        ensures
            r == self.id(),
    {
        self.raw_id
    }

    /// Acquires a handle from a raw identifier that may be absent.
    /// An identifier that names no live node is a valid outcome, answered
    /// with `None` and no change to the graph; it is never an error.
    pub fn from(g: &mut Graph, id: usize) -> (r: Option<Node>)
        requires
            old(g).wf(),
            old(g).live(id) ==> old(g).counts()[id as int] + 1 <= u64::MAX,
        ensures
            final(g).wf(),
            final(g).same_structure(*old(g)),
            r is Some <==> old(g).live(id),
            match r {
                Some(n) => n.id() == id && n.wf(*final(g))
                    && final(g).counts() == counts_inc(old(g).counts(), id as int),
                None => *final(g) == *old(g),
            },
    {
        if id < g.entries.len() && g.refcounts[id] >= 1 {
            Some(g.acquire_unit(id))
        } else {
            None
        }
    }

    /// A new handle to the same node, owning its own reference unit.
    /// It cannot fail: this handle's own unit keeps the count at one or
    /// more, so the node cannot have been reclaimed.
    pub fn clone_in(&self, g: &mut Graph) -> (r: Node)
        requires
            old(g).wf(),
            self.wf(*old(g)),
            old(g).counts()[self.id() as int] + 1 <= u64::MAX,
        ensures
            final(g).wf(),
            final(g).same_structure(*old(g)),
            final(g).counts() == counts_inc(old(g).counts(), self.id() as int),
            r.id() == self.id(),
            r.wf(*final(g)),
            self.wf(*final(g)),
    {
        g.acquire_unit(self.raw_id)
    }

    /// Gives the handle's reference unit back to the subsystem. Consumes
    /// the handle, so each handle releases exactly once; when the last
    /// unit goes, the count reaches zero and the subsystem reclaims the
    /// node.
    pub fn release(self, g: &mut Graph)
        requires
            old(g).wf(),
            self.wf(*old(g)),
        ensures
            final(g).wf(),
            final(g).same_structure(*old(g)),
            final(g).counts() == counts_dec(old(g).counts(), self.id() as int),
    {
        g.release_unit(self.raw_id);
    }

    /// The parent of the node, as a fresh handle owning its own unit, or
    /// `None` for a node with no parent.
    pub fn parent(node: &Node, g: &mut Graph) -> (r: Option<Node>)
        requires
            old(g).wf(),
            node.wf(*old(g)),
            match old(g).parent_of(node.id() as int) {
                Some(p) => old(g).counts()[p as int] + 1 <= u64::MAX,
                None => true,
            },
        ensures
            final(g).wf(),
            final(g).same_structure(*old(g)),
            r is Some <==> old(g).parent_of(node.id() as int) is Some,
            match r {
                Some(n) => old(g).parent_of(node.id() as int) == Some(n.id())
                    && n.wf(*final(g))
                    && final(g).counts() == counts_inc(old(g).counts(), n.id() as int),
                None => *final(g) == *old(g),
            },
    {
        let p = g.get_parent(node.raw_id);
        match p {
            Some(pid) => Some(g.acquire_unit(pid)),
            None => None,
        }
    }
}

/// Which enumeration of the root a cursor walks: its successor strategy,
/// chosen at construction.
#[derive(Clone, Copy, PartialEq, Eq, Structural)]
pub enum Strategy {
    Endpoints,
    Children,
}

/// The enumeration a strategy walks below a root node.
pub open spec fn enum_seq(g: Graph, strat: Strategy, root: int) -> Seq<usize> {
    match strat {
        Strategy::Endpoints => g.endpoints_seq(root),
        Strategy::Children => g.children_seq(root),
    }
}

/// A lazy, forward-only cursor over one enumeration of a root node. It
/// retains the root for its whole life and the current position, if any,
/// as a handle of its own; one subsystem query is made per call to
/// [`NodeIterator::next`]. Once the enumeration ends the cursor is
/// exhausted for good: every later call answers `None` without touching
/// the subsystem.
pub struct NodeIterator {
    handle: Node,
    curr_node: Option<Node>,
    next_fn: Strategy,
    exhausted: bool,
    yielded: Ghost<nat>,
}

impl NodeIterator {
    /// The identifier of the retained root node.
    pub closed spec fn root_id(self) -> usize {
        self.handle.id()
    }

    /// The successor strategy the cursor was built with.
    pub closed spec fn strategy(self) -> Strategy {
        self.next_fn
    }

    /// The identifier of the currently held position, if the cursor holds
    /// one.
    pub closed spec fn position(self) -> Option<usize> {
        match self.curr_node {
            Some(n) => Some(n.id()),
            None => None,
        }
    }

    /// Whether the enumeration has ended; a terminal state.
    pub closed spec fn is_exhausted(self) -> bool {
        self.exhausted
    }

    /// How many nodes the cursor has yielded so far.
    pub closed spec fn yielded(self) -> nat {
        self.yielded@
    }

    /// A cursor is well formed for a graph when its root is live there
    /// and its position, if held, is the node it yielded last: the entry
    /// of the enumeration just before the next one owed.
    pub open spec fn wf(self, g: Graph) -> bool {
        let s = enum_seq(g, self.strategy(), self.root_id() as int);
        &&& g.wf()
        &&& g.live(self.root_id())
        &&& match self.position() {
            None => self.is_exhausted() || self.yielded() == 0,
            Some(pid) => {
                &&& !self.is_exhausted()
                &&& g.live(pid)
                &&& 1 <= self.yielded() <= s.len()
                &&& s[self.yielded() - 1] == pid
            }
        }
    }

    /// Advances the cursor one step: asks the subsystem for the entry
    /// after the current position, and either yields a fresh handle to it
    /// (keeping a second handle as the new position, and releasing the
    /// old position) or, at the end of the enumeration, releases the old
    /// position and becomes exhausted. An exhausted cursor stays
    /// exhausted and keeps answering `None`, with no change to anything.
    pub fn next(&mut self, g: &mut Graph) -> (r: Option<Node>)
        requires
            old(self).wf(*old(g)),
            !old(self).is_exhausted() ==> match cursor_yield(
                enum_seq(*old(g), old(self).strategy(), old(self).root_id() as int),
                old(self).yielded(),
            ) {
                Some(nid) => old(g).counts()[nid as int] + 2 <= u64::MAX,
                None => true,
            },
        ensures
            final(self).wf(*final(g)),
            final(g).same_structure(*old(g)),
            final(self).root_id() == old(self).root_id(),
            final(self).strategy() == old(self).strategy(),
            old(self).is_exhausted() ==> {
                &&& r is None
                &&& *final(self) == *old(self)
                &&& *final(g) == *old(g)
            },
            !old(self).is_exhausted() ==> {
                let s = enum_seq(*old(g), old(self).strategy(), old(self).root_id() as int);
                let y = cursor_yield(s, old(self).yielded());
                &&& (match r {
                    Some(n) => Some(n.id()),
                    None => None::<usize>,
                }) == y
                &&& match y {
                    Some(nid) => {
                        &&& r is Some && r->0.wf(*final(g))
                        &&& !final(self).is_exhausted()
                        &&& final(self).position() == Some(nid)
                        &&& final(self).yielded() == old(self).yielded() + 1
                        &&& final(g).counts() == (match old(self).position() {
                            Some(pid) => counts_dec(
                                counts_inc(counts_inc(old(g).counts(), nid as int), nid as int),
                                pid as int,
                            ),
                            None => counts_inc(counts_inc(old(g).counts(), nid as int), nid as int),
                        })
                    }
                    None => {
                        &&& final(self).is_exhausted()
                        &&& final(self).position() is None
                        &&& final(self).yielded() == old(self).yielded()
                        &&& final(g).counts() == (match old(self).position() {
                            Some(pid) => counts_dec(old(g).counts(), pid as int),
                            None => old(g).counts(),
                        })
                    }
                }
            },
    {
        if self.exhausted {
            return None;
        }
        let ghost g0 = *g;
        let ghost it0 = *self;
        let ghost s = enum_seq(g0, it0.strategy(), it0.root_id() as int);
        let root_id = self.handle.node_id();
        let prev: Option<usize> = match &self.curr_node {
            None => None,
            Some(h) => Some(h.node_id()),
        };
        let nxt: Option<usize> = match self.next_fn {
            Strategy::Endpoints => g.next_endpoint(root_id, prev),
            Strategy::Children => g.next_child(root_id, prev),
        };
        proof {
            assert(g0.list_ok(root_id as int, g0.children_seq(root_id as int)));
            assert(g0.list_ok(root_id as int, g0.endpoints_seq(root_id as int)));
            match prev {
                None => {}
                Some(p) => {
                    lemma_step_from_position(s, it0.yielded());
                }
            }
            assert(nxt == cursor_yield(s, it0.yielded()));
        }
        match nxt {
            Some(nid) => {
                let pos = g.acquire_unit(nid);
                let out = g.acquire_unit(nid);
                let old_pos = self.curr_node.take();
                self.curr_node = Some(pos);
                proof {
                    self.yielded@ = it0.yielded() + 1;
                }
                match old_pos {
                    Some(h) => {
                        proof {
                            assert(s[it0.yielded() - 1] == h.id());
                            assert(s[it0.yielded() as int] == nid);
                            assert(s.no_duplicates());
                            assert(h.id() != nid);
                            assert(h.id() != root_id);
                            assert(nid != root_id);
                        }
                        h.release(g);
                    }
                    None => {}
                }
                Some(out)
            }
            None => {
                let old_pos = self.curr_node.take();
                match old_pos {
                    Some(h) => {
                        proof {
                            assert(s[it0.yielded() - 1] == h.id());
                            assert(h.id() != root_id);
                        }
                        h.release(g);
                    }
                    None => {}
                }
                self.exhausted = true;
                None
            }
        }
    }

    /// Drives a fresh cursor to exhaustion and gathers, in order, the
    /// identifier of every node it yields: exactly the root's whole
    /// enumeration under the cursor's strategy, however long it is. Each
    /// yielded handle is released as soon as it is noted and the cursor
    /// itself is released at the end, so apart from the cursor's own
    /// root unit going back, the walk leaves every reference count as it
    /// found it.
    pub fn collect_ids(self, g: &mut Graph) -> (r: Vec<usize>)
        requires
            self.wf(*old(g)),
            !self.is_exhausted(),
            self.yielded() == 0,
            self.position() is None,
            forall|i: int| 0 <= i < old(g).counts().len()
                ==> #[trigger] old(g).counts()[i] + 3 <= u64::MAX,
        ensures
            final(g).wf(),
            final(g).same_structure(*old(g)),
            final(g).counts() == counts_dec(old(g).counts(), self.root_id() as int),
            r@ == enum_seq(*old(g), self.strategy(), self.root_id() as int),
    {
        let ghost g0 = *g;
        let ghost root = self.root_id();
        let ghost strat = self.strategy();
        let ghost s = enum_seq(g0, strat, root as int);
        let mut it = self;
        let mut ids: Vec<usize> = Vec::new();
        let mut done = false;
        proof {
            assert(g0.list_ok(root as int, s));
        }
        while !done
            invariant
                g.wf(),
                g.same_structure(g0),
                it.wf(*g),
                it.root_id() == root,
                it.strategy() == strat,
                s == enum_seq(*g, strat, root as int),
                g0.wf(),
                g0.list_ok(root as int, s),
                forall|i: int| 0 <= i < g0.counts().len()
                    ==> #[trigger] g0.counts()[i] + 3 <= u64::MAX,
                ids@.len() == it.yielded(),
                it.yielded() <= s.len(),
                ids@ == s.take(it.yielded() as int),
                !done ==> !it.is_exhausted(),
                !done && it.yielded() == 0 ==> g.counts() == g0.counts(),
                !done && it.yielded() >= 1 ==> g.counts() == counts_inc(
                    g0.counts(),
                    s[it.yielded() - 1] as int,
                ),
                done ==> it.is_exhausted() && it.yielded() == s.len()
                    && g.counts() == g0.counts(),
            decreases s.len() - it.yielded() + (if done { 0int } else { 1int }),
        {
            let ghost k = it.yielded();
            proof {
                match cursor_yield(s, k) {
                    Some(nid_u) => {
                        let nid = nid_u as int;
                        assert(k < s.len() && s[k as int] == nid_u);
                        assert(g0.valid(nid_u));
                        assert(g0.counts()[nid] + 3 <= u64::MAX);
                        if k >= 1 {
                            assert(s[k - 1] != s[k as int]);
                            assert(g.counts()[nid] == g0.counts()[nid]);
                        }
                        assert(g.counts()[nid] + 2 <= u64::MAX);
                    }
                    None => {}
                }
            }
            match it.next(g) {
                Some(h) => {
                    proof {
                        assert(cursor_yield(s, k) == Some(h.id()));
                        assert(h.id() == s[k as int]);
                        assert(ids@.push(s[k as int]) =~= s.take(k as int + 1));
                        if k >= 1 {
                            assert(s[k - 1] != s[k as int]);
                        }
                    }
                    ids.push(h.node_id());
                    h.release(g);
                    proof {
                        assert(g.counts() =~= counts_inc(g0.counts(), s[k as int] as int));
                    }
                }
                None => {
                    done = true;
                    proof {
                        assert(cursor_yield(s, k) is None);
                        assert(k == s.len());
                        assert(ids@ =~= s);
                        if k >= 1 {
                            assert(g.counts() =~= g0.counts());
                        }
                    }
                }
            }
        }
        it.release(g);
        proof {
            assert(g.counts() =~= counts_dec(g0.counts(), root as int));
        }
        ids
    }

    /// Gives back everything the cursor owns: the root's reference unit
    /// and, when a position is held, that handle's unit too — exactly
    /// those, nothing else. Dropping a traversal midway is just this.
    pub fn release(self, g: &mut Graph)
        requires
            self.wf(*old(g)),
        ensures
            final(g).wf(),
            final(g).same_structure(*old(g)),
            final(g).counts() == (match self.position() {
                Some(pid) => counts_dec(
                    counts_dec(old(g).counts(), self.root_id() as int),
                    pid as int,
                ),
                None => counts_dec(old(g).counts(), self.root_id() as int),
            }),
    {
        let ghost g0 = *g;
        let NodeIterator { handle, curr_node, next_fn: _, exhausted: _, yielded: _ } = self;
        proof {
            match self.position() {
                Some(pid) => {
                    assert(g0.list_ok(handle.id() as int, enum_seq(g0, self.strategy(), handle.id() as int)));
                    assert(pid != handle.id());
                }
                None => {}
            }
        }
        handle.release(g);
        match curr_node {
            Some(h) => h.release(g),
            None => {}
        }
    }
}

impl Node {
    /// A cursor over the endpoint enumeration of `node`, which the cursor
    /// retains as its root. Fresh: nothing yielded yet.
    pub fn endpoints(node: Node) -> (r: NodeIterator)
        ensures
            r.root_id() == node.id(),
            r.strategy() == Strategy::Endpoints,
            r.yielded() == 0,
            !r.is_exhausted(),
            r.position() is None,
    {
        NodeIterator {
            handle: node,
            curr_node: None,
            next_fn: Strategy::Endpoints,
            exhausted: false,
            yielded: Ghost(0),
        }
    }

    /// A cursor over the child enumeration of `node`, which the cursor
    /// retains as its root. Fresh: nothing yielded yet.
    pub fn children(node: Node) -> (r: NodeIterator)
        ensures
            r.root_id() == node.id(),
            r.strategy() == Strategy::Children,
            r.yielded() == 0,
            !r.is_exhausted(),
            r.position() is None,
    {
        NodeIterator {
            handle: node,
            curr_node: None,
            next_fn: Strategy::Children,
            exhausted: false,
            yielded: Ghost(0),
        }
    }
}

} // verus!
