//! The module-dependency graph: one node per module directory, edges from a
//! module to the modules its invocation blocks reference (`depends_on`) and
//! the inverse back-references (`used_by`).
//!
//! The graph is keyed by canonical absolute path strings.  `build_dependency_graph`
//! establishes the symmetry invariant: for modules A and B both present in the
//! graph, B is in A's `depends_on` exactly when A is in B's `used_by`.

use vstd::prelude::*;
use crate::text::strs;

verus! {

/// One module directory: its outgoing dependency edges, the inverse
/// back-references, and its statefulness classification.
pub struct Module {
    pub depends_on: Vec<String>,
    pub used_by: Vec<String>,
    pub is_stateful: bool,
}

/// A graph node: the module's canonical absolute path and its record.
pub struct GraphEntry {
    pub path: String,
    pub module: Module,
}

/// Mapping from canonical module path to [`Module`], in insertion order.
pub struct ModuleGraph {
    pub entries: Vec<GraphEntry>,
}

impl ModuleGraph {
    /// The module paths, in insertion order.
    pub open spec fn keys(self) -> Seq<Seq<char>> {
        self.entries@.map_values(|e: GraphEntry| e.path@)
    }

    /// Well-formed: no path occurs twice.
    pub open spec fn wf(self) -> bool {
        forall|i: int, j: int|
            0 <= i < j < self.entries@.len() ==> self.keys()[i] != self.keys()[j]
    }

    pub open spec fn has_key(self, p: Seq<char>) -> bool {
        self.keys().contains(p)
    }

    pub open spec fn index_of_key(self, p: Seq<char>) -> int {
        choose|i: int| 0 <= i < self.entries@.len() && self.keys()[i] == p
    }

    /// The module stored under path `p` (meaningful only when `has_key(p)`).
    pub open spec fn module_of(self, p: Seq<char>) -> Module {
        self.entries@[self.index_of_key(p)].module
    }

    pub open spec fn depends_of(self, p: Seq<char>) -> Seq<Seq<char>> {
        strs(self.module_of(p).depends_on@)
    }

    pub open spec fn used_by_of(self, p: Seq<char>) -> Seq<Seq<char>> {
        strs(self.module_of(p).used_by@)
    }

    pub open spec fn stateful_of(self, p: Seq<char>) -> bool {
        self.module_of(p).is_stateful
    }

    /// Graph symmetry: dependency edges and back-references mirror each other
    /// for every pair of modules present in the graph.
    pub open spec fn symmetric(self) -> bool {
        forall|a: Seq<char>, b: Seq<char>|
            self.has_key(a) && self.has_key(b) ==> (self.depends_of(a).contains(b)
                <==> self.used_by_of(b).contains(a))
    }

    /// In a well-formed graph, the key at position `i` indexes back to `i`.
    pub proof fn lemma_key_at(self, i: int)
        requires
            self.wf(),
            0 <= i < self.entries@.len(),
        ensures
            self.index_of_key(self.keys()[i]) == i,
            self.has_key(self.keys()[i]),
    {
        let p = self.keys()[i];
        assert(self.keys().contains(p));
        let j = self.index_of_key(p);
        assert(0 <= j < self.entries@.len() && self.keys()[j] == p);
        if i != j {
            assert(false);
        }
    }

    /// Creates an empty graph.
    pub fn new() -> (g: ModuleGraph)
        ensures
            g.wf(),
            g.entries@.len() == 0,
            forall|p: Seq<char>| !g.has_key(p),
    {
        let g = ModuleGraph { entries: Vec::new() };
        proof {
            assert(forall|p: Seq<char>| !g.keys().contains(p));
        }
        g
    }

    /// Index of the entry whose path equals `path`, if any.
    fn find_index(&self, path: &String) -> (r: Option<usize>)
        requires
            self.wf(),
        ensures
            match r {
                Some(i) => i < self.entries@.len() && self.keys()[i as int] == path@
                    && self.index_of_key(path@) == i && self.has_key(path@),
                None => !self.has_key(path@),
            },
    {
        let n: usize = self.entries.len();
        let mut i: usize = 0;
        while i < n
            invariant
                n == self.entries@.len(),
                i <= n,
                self.wf(),
                forall|k: int| 0 <= k < i ==> self.keys()[k] != path@,
            decreases n - i,
        {
            if crate::text::str_eq(self.entries[i].path.as_str(), path.as_str()) {
                proof {
                    self.lemma_key_at(i as int);
                }
                return Some(i);
            }
            i += 1;
        }
        proof {
            if self.has_key(path@) {
                let j = choose|j: int|
                    0 <= j < self.keys().len() && self.keys()[j] == path@;
                assert(self.keys()[j] != path@);
            }
        }
        None
    }

    /// Whether a module with this path is present.
    pub fn contains_module(&self, path: &String) -> (r: bool)
        requires
            self.wf(),
        ensures
            r == self.has_key(path@),
    {
        self.find_index(path).is_some()
    }

    /// A reference to the module stored under `path`.
    pub fn get(&self, path: &String) -> (r: Option<&Module>)
        requires
            self.wf(),
        ensures
            match r {
                Some(m) => self.has_key(path@) && *m == self.module_of(path@),
                None => !self.has_key(path@),
            },
    {
        match self.find_index(path) {
            Some(i) => Some(&self.entries[i].module),
            None => None,
        }
    }

    /// Records a module directory; a path already present keeps its record,
    /// as discovery only counts the first sighting of a directory.
    pub fn insert_module(&mut self, path: String, is_stateful: bool)
        requires
            old(self).wf(),
        ensures
            final(self).wf(),
            old(self).has_key(path@) ==> *final(self) == *old(self),
            !old(self).has_key(path@) ==> final(self).entries@ == old(self).entries@.push(
                GraphEntry {
                    path,
                    module: Module {
                        depends_on: final(self).module_of(path@).depends_on,
                        used_by: final(self).module_of(path@).used_by,
                        is_stateful,
                    },
                },
            ) && final(self).has_key(path@) && final(self).module_of(path@).depends_on@.len() == 0
                && final(self).module_of(path@).used_by@.len() == 0 && final(self).module_of(
                path@,
            ).is_stateful == is_stateful,
            forall|q: Seq<char>|
                final(self).has_key(q) <==> old(self).has_key(q) || q == path@,
            forall|q: Seq<char>|
                old(self).has_key(q) ==> final(self).module_of(q) == old(self).module_of(q),
    {
        let ghost pre = *self;
        if self.find_index(&path).is_some() {
            proof {
                assert(forall|q: Seq<char>|
                    final(self).has_key(q) <==> pre.has_key(q) || q == path@);
            }
            return ;
        }
        let entry = GraphEntry {
            path,
            module: Module { depends_on: Vec::new(), used_by: Vec::new(), is_stateful: is_stateful },
        };
        self.entries.push(entry);
        proof {
            let n = pre.entries@.len() as int;
            assert(self.keys() =~= pre.keys().push(self.entries@[n].path@));
            assert forall|i: int, j: int|
                0 <= i < j < self.entries@.len() implies self.keys()[i] != self.keys()[j] by {
                if j < n {
                } else {
                    assert(self.keys()[j] == self.entries@[n].path@);
                    if pre.has_key(self.keys()[j]) {
                        assert(false);
                    }
                    assert(pre.keys().contains(self.keys()[i]) == false ==> false) by {
                        assert(self.keys()[i] == pre.keys()[i]);
                        assert(pre.keys().contains(pre.keys()[i]));
                    }
                }
            }
            self.lemma_key_at(n);
            assert forall|q: Seq<char>| pre.has_key(q) implies final(self).module_of(q) == pre.module_of(
                q,
            ) by {
                let i = pre.index_of_key(q);
                assert(0 <= i < n && pre.keys()[i] == q);
                assert(self.keys()[i] == q);
                self.lemma_key_at(i);
            }
            assert forall|q: Seq<char>|
                final(self).has_key(q) <==> pre.has_key(q) || q == path@ by {
                if self.keys().contains(q) {
                    let i = choose|i: int| 0 <= i < self.keys().len() && self.keys()[i] == q;
                    if i < n {
                        assert(pre.keys()[i] == q);
                        assert(pre.keys().contains(q));
                    }
                } else {
                    if pre.has_key(q) {
                        let i = pre.index_of_key(q);
                        assert(self.keys()[i] == q);
                    }
                    if q == path@ {
                        assert(self.keys()[n] == q);
                    }
                }
            }
        }
    }

    /// Adds one dependency edge: `to` is appended to `from`'s `depends_on`
    /// when `from` is a known module, and `from` is appended to `to`'s
    /// `used_by` when `to` is a known module.
    pub fn add_dependency(&mut self, from: &String, to: &String)
        requires
            old(self).wf(),
        ensures
            final(self).wf(),
            final(self).keys() == old(self).keys(),
            forall|p: Seq<char>|
                old(self).has_key(p) ==> final(self).stateful_of(p) == old(self).stateful_of(p),
            forall|p: Seq<char>|
                old(self).has_key(p) ==> final(self).depends_of(p) == if p == from@ {
                    old(self).depends_of(p).push(to@)
                } else {
                    old(self).depends_of(p)
                },
            forall|p: Seq<char>|
                old(self).has_key(p) ==> final(self).used_by_of(p) == if p == to@ {
                    old(self).used_by_of(p).push(from@)
                } else {
                    old(self).used_by_of(p)
                },
    {
        let ghost pre = *self;
        if let Some(i) = self.find_index(from) {
            let mut e = self.entries.remove(i);
            e.module.depends_on.push(to.clone());
            self.entries.insert(i, e);
            proof {
                assert(self.entries@ =~= pre.entries@.update(
                    i as int,
                    self.entries@[i as int],
                ));
                assert(self.keys() =~= pre.keys());
                lemma_same_keys_same_lookup(pre, *self);
                assert(strs(self.entries@[i as int].module.depends_on@) =~= strs(
                    pre.entries@[i as int].module.depends_on@,
                ).push(to@));
                assert forall|p: Seq<char>| pre.has_key(p) implies self.depends_of(p) == if p
                    == from@ {
                    pre.depends_of(p).push(to@)
                } else {
                    pre.depends_of(p)
                } by {
                    let k = pre.index_of_key(p);
                    pre.lemma_key_at(k);
                    self.lemma_key_at(k);
                    if p == from@ {
                        assert(k == i as int);
                    } else {
                        assert(k != i as int);
                        assert(self.entries@[k] == pre.entries@[k]);
                    }
                }
            }
        }
        let ghost mid = *self;
        if let Some(i) = self.find_index(to) {
            let mut e = self.entries.remove(i);
            e.module.used_by.push(from.clone());
            self.entries.insert(i, e);
            proof {
                assert(self.entries@ =~= mid.entries@.update(
                    i as int,
                    self.entries@[i as int],
                ));
                assert(self.keys() =~= mid.keys());
                lemma_same_keys_same_lookup(mid, *self);
                assert(strs(self.entries@[i as int].module.used_by@) =~= strs(
                    mid.entries@[i as int].module.used_by@,
                ).push(from@));
                assert forall|p: Seq<char>| mid.has_key(p) implies self.used_by_of(p) == if p
                    == to@ {
                    mid.used_by_of(p).push(from@)
                } else {
                    mid.used_by_of(p)
                } by {
                    let k = mid.index_of_key(p);
                    mid.lemma_key_at(k);
                    self.lemma_key_at(k);
                    if p == to@ {
                        assert(k == i as int);
                    } else {
                        assert(k != i as int);
                        assert(self.entries@[k] == mid.entries@[k]);
                    }
                }
                assert forall|p: Seq<char>| mid.has_key(p) implies self.depends_of(p)
                    == mid.depends_of(p) && self.stateful_of(p) == mid.stateful_of(p) by {
                    let k = mid.index_of_key(p);
                    mid.lemma_key_at(k);
                    self.lemma_key_at(k);
                    if k == i as int {
                        assert(self.entries@[k].module.depends_on == mid.entries@[k].module.depends_on);
                        assert(strs(self.entries@[k].module.depends_on@) =~= strs(
                            mid.entries@[k].module.depends_on@,
                        ));
                    } else {
                        assert(self.entries@[k] == mid.entries@[k]);
                    }
                }
            }
        }
        proof {
            assert forall|p: Seq<char>| pre.has_key(p) implies final(self).stateful_of(p)
                == pre.stateful_of(p) by {
                if !mid.has_key(p) {
                    assert(false);
                }
            }
        }
    }

    /// The paths of all stateful modules, in insertion order.
    pub fn stateful_modules(&self) -> (r: Vec<String>)
        ensures
            strs(r@) == stateful_keys(self.entries@),
    {
        let n: usize = self.entries.len();
        let mut r: Vec<String> = Vec::new();
        let mut i: usize = 0;
        while i < n
            invariant
                n == self.entries@.len(),
                i <= n,
                strs(r@) == stateful_keys(self.entries@.take(i as int)),
            decreases n - i,
        {
            proof {
                assert(self.entries@.take(i + 1).drop_last() =~= self.entries@.take(i as int));
            }
            if self.entries[i].module.is_stateful {
                r.push(self.entries[i].path.clone());
                proof {
                    assert(strs(r@) =~= strs(r@.drop_last()).push(self.entries@[i as int].path@));
                }
            }
            i += 1;
        }
        proof {
            assert(self.entries@.take(n as int) =~= self.entries@);
        }
        r
    }
}

/// Two graphs with equal key sequences agree on `index_of_key` for present keys.
proof fn lemma_same_keys_same_lookup(a: ModuleGraph, b: ModuleGraph)
    requires
        a.wf(),
        a.keys() == b.keys(),
    ensures
        b.wf(),
        forall|p: Seq<char>| a.has_key(p) ==> #[trigger] b.index_of_key(p) == a.index_of_key(p),
        forall|p: Seq<char>| a.has_key(p) == b.has_key(p),
{
    assert forall|p: Seq<char>| a.has_key(p) implies #[trigger] b.index_of_key(p)
        == a.index_of_key(p) by {
        let i = a.index_of_key(p);
        a.lemma_key_at(i);
        assert(b.keys()[i] == p);
        b.lemma_key_at(i);
    }
}

/// The paths of the stateful entries of `es`, in order.
pub open spec fn stateful_keys(es: Seq<GraphEntry>) -> Seq<Seq<char>>
    decreases es.len(),
{
    if es.len() == 0 {
        Seq::empty()
    } else if es.last().module.is_stateful {
        stateful_keys(es.drop_last()).push(es.last().path@)
    } else {
        stateful_keys(es.drop_last())
    }
}

/// Whether the pair `(a, b)` occurs among the collected dependency pairs.
pub open spec fn has_edge(deps: Seq<(String, String)>, a: Seq<char>, b: Seq<char>) -> bool {
    exists|k: int| 0 <= k < deps.len() && deps[k].0@ == a && deps[k].1@ == b
}

/// Resolves collected `(module, dependency)` pairs into graph edges.
///
/// Starting from a graph whose modules carry no edges yet, this records each
/// pair on both sides where the endpoint is a known module.  The resulting
/// graph is symmetric: for any two modules A and B in the graph, B is in A's
/// `depends_on` exactly when A is in B's `used_by`, and both hold exactly
/// when the pair (A, B) was collected.
pub fn build_dependency_graph(graph: &mut ModuleGraph, deps: &Vec<(String, String)>)
    requires
        old(graph).wf(),
        forall|p: Seq<char>|
            old(graph).has_key(p) ==> old(graph).depends_of(p).len() == 0 && old(
                graph,
            ).used_by_of(p).len() == 0,
    ensures
        final(graph).wf(),
        final(graph).keys() == old(graph).keys(),
        forall|p: Seq<char>|
            old(graph).has_key(p) ==> final(graph).stateful_of(p) == old(graph).stateful_of(p),
        forall|a: Seq<char>, b: Seq<char>|
            final(graph).has_key(a) ==> (final(graph).depends_of(a).contains(b) <==> has_edge(
                deps@,
                a,
                b,
            )),
        forall|a: Seq<char>, b: Seq<char>|
            final(graph).has_key(b) ==> (final(graph).used_by_of(b).contains(a) <==> has_edge(
                deps@,
                a,
                b,
            )),
        final(graph).symmetric(),
{
    let ghost pre = *graph;
    let n: usize = deps.len();
    let mut k: usize = 0;
    while k < n
        invariant
            n == deps@.len(),
            k <= n,
            graph.wf(),
            graph.keys() == pre.keys(),
            forall|p: Seq<char>|
                pre.has_key(p) ==> graph.stateful_of(p) == pre.stateful_of(p),
            forall|a: Seq<char>, b: Seq<char>|
                graph.has_key(a) ==> (graph.depends_of(a).contains(b) <==> has_edge(
                    deps@.take(k as int),
                    a,
                    b,
                )),
            forall|a: Seq<char>, b: Seq<char>|
                graph.has_key(b) ==> (graph.used_by_of(b).contains(a) <==> has_edge(
                    deps@.take(k as int),
                    a,
                    b,
                )),
        decreases n - k,
    {
        let ghost before = *graph;
        graph.add_dependency(&deps[k].0, &deps[k].1);
        proof {
            let from = deps@[k as int].0@;
            let to = deps@[k as int].1@;
            assert forall|a: Seq<char>, b: Seq<char>| graph.has_key(a) implies (
            graph.depends_of(a).contains(b) <==> has_edge(deps@.take(k + 1), a, b)) by {
                lemma_edge_take_step(deps@, k as int, a, b);
                assert(before.has_key(a));
                if a == from {
                    assert(graph.depends_of(a) == before.depends_of(a).push(to));
                    lemma_push_contains(before.depends_of(a), to, b);
                } else {
                    assert(graph.depends_of(a) == before.depends_of(a));
                }
            }
            assert forall|a: Seq<char>, b: Seq<char>| graph.has_key(b) implies (
            graph.used_by_of(b).contains(a) <==> has_edge(deps@.take(k + 1), a, b)) by {
                lemma_edge_take_step(deps@, k as int, a, b);
                assert(before.has_key(b));
                if b == to {
                    assert(graph.used_by_of(b) == before.used_by_of(b).push(from));
                    lemma_push_contains(before.used_by_of(b), from, a);
                } else {
                    assert(graph.used_by_of(b) == before.used_by_of(b));
                }
            }
        }
        k += 1;
    }
    proof {
        assert(deps@.take(n as int) =~= deps@);
        assert forall|a: Seq<char>, b: Seq<char>|
            graph.has_key(a) && graph.has_key(b) implies (graph.depends_of(a).contains(b)
            <==> graph.used_by_of(b).contains(a)) by {
            assert(graph.depends_of(a).contains(b) <==> has_edge(deps@, a, b));
            assert(graph.used_by_of(b).contains(a) <==> has_edge(deps@, a, b));
        }
    }
}

/// Membership in a pushed sequence.
proof fn lemma_push_contains<A>(s: Seq<A>, x: A, y: A)
    ensures
        s.push(x).contains(y) <==> s.contains(y) || x == y,
{
    if s.push(x).contains(y) {
        let i = choose|i: int| 0 <= i < s.push(x).len() && s.push(x)[i] == y;
        if i < s.len() {
            assert(s[i] == y);
        }
    }
    if s.contains(y) {
        let i = choose|i: int| 0 <= i < s.len() && s[i] == y;
        assert(s.push(x)[i] == y);
    }
    if x == y {
        assert(s.push(x)[s.len() as int] == y);
    }
}

/// Extending the examined prefix of the pair list by one element adds
/// exactly the edge of that element.
proof fn lemma_edge_take_step(deps: Seq<(String, String)>, k: int, a: Seq<char>, b: Seq<char>)
    requires
        0 <= k < deps.len(),
    ensures
        has_edge(deps.take(k + 1), a, b) <==> has_edge(deps.take(k), a, b) || (deps[k].0@ == a
            && deps[k].1@ == b),
{
    if has_edge(deps.take(k + 1), a, b) {
        let e = choose|e: int|
            0 <= e < deps.take(k + 1).len() && #[trigger] deps.take(k + 1)[e].0@ == a && deps.take(
                k + 1,
            )[e].1@ == b;
        if e < k {
            assert(deps.take(k)[e] == deps[e]);
            assert(deps.take(k)[e].0@ == a && deps.take(k)[e].1@ == b);
            assert(has_edge(deps.take(k), a, b));
        } else {
            assert(deps.take(k + 1)[e] == deps[k]);
        }
    }
    if has_edge(deps.take(k), a, b) {
        let e = choose|e: int|
            0 <= e < deps.take(k).len() && #[trigger] deps.take(k)[e].0@ == a && deps.take(
                k,
            )[e].1@ == b;
        assert(deps.take(k + 1)[e] == deps[e]);
        assert(deps.take(k + 1)[e].0@ == a && deps.take(k + 1)[e].1@ == b);
        assert(has_edge(deps.take(k + 1), a, b));
    }
    if deps[k].0@ == a && deps[k].1@ == b {
        assert(deps.take(k + 1)[k] == deps[k]);
        assert(deps.take(k + 1)[k].0@ == a && deps.take(k + 1)[k].1@ == b);
        assert(has_edge(deps.take(k + 1), a, b));
    }
}

} // verus!
