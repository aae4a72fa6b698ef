//! From a set of changed files to the ordered, duplicate-free list of
//! affected stateful modules.
//!
//! Each changed file is attributed to the module whose directory is its
//! longest matching path prefix.  A touched stateful module is affected
//! itself; a touched stateless module makes every stateful module in its
//! `used_by` set affected (one hop only).  Output order is insertion order
//! with duplicates removed.

use vstd::prelude::*;
use crate::graph::ModuleGraph;
use crate::paths::is_dir_prefix;
use crate::text::{
    chars_of, ends_with_chars, has_substring, lex_le, lex_lt, lemma_lex_le_antisymmetric,
    lemma_lex_le_total, lemma_lex_le_transitive, seq_ends_with, str_eq, str_lt, strs,
};

verus! {

/// The module (by path) owning file `f`: the longest dir-prefix among `keys`,
/// the earliest on ties.
pub open spec fn best_module_from(keys: Seq<Seq<char>>, f: Seq<char>) -> Option<Seq<char>>
    decreases keys.len(),
{
    if keys.len() == 0 {
        None::<Seq<char>>
    } else {
        let pre = best_module_from(keys.drop_last(), f);
        let k = keys.last();
        if is_dir_prefix(k, f) && (pre is None || pre->0.len() < k.len()) {
            Some(k)
        } else {
            pre
        }
    }
}

/// The module owning file `f` in graph `g`.
pub open spec fn module_for_file_spec(g: ModuleGraph, f: Seq<char>) -> Option<Seq<char>> {
    best_module_from(g.keys(), f)
}

/// Marks the stateful modules among `users` (from index `i` on) as affected.
pub open spec fn add_users(
    g: ModuleGraph,
    users: Seq<Seq<char>>,
    i: int,
    acc: Seq<Seq<char>>,
) -> Seq<Seq<char>>
    decreases users.len() - i
        when 0 <= i <= users.len()
{
    if i < 0 || i >= users.len() {
        acc
    } else {
        let u = users[i];
        let acc2 = if g.has_key(u) && g.stateful_of(u) && !acc.contains(u) {
            acc.push(u)
        } else {
            acc
        };
        add_users(g, users, i + 1, acc2)
    }
}

/// The affected modules after marking module `p` as touched: a stateful
/// module joins the list itself (once); a stateless one contributes the
/// stateful modules that use it.
pub open spec fn mark_spec(g: ModuleGraph, p: Seq<char>, acc: Seq<Seq<char>>) -> Seq<Seq<char>> {
    if !g.has_key(p) {
        acc
    } else if g.stateful_of(p) {
        if acc.contains(p) {
            acc
        } else {
            acc.push(p)
        }
    } else {
        add_users(g, g.used_by_of(p), 0, acc)
    }
}

/// Folds the changed files (from index `i` on) through the graph.
pub open spec fn process_spec(
    g: ModuleGraph,
    files: Seq<Seq<char>>,
    i: int,
    acc: Seq<Seq<char>>,
) -> Seq<Seq<char>>
    decreases files.len() - i
        when 0 <= i <= files.len()
{
    if i < 0 || i >= files.len() {
        acc
    } else {
        let acc2 = match module_for_file_spec(g, files[i]) {
            Some(m) => mark_spec(g, m, acc),
            None => acc,
        };
        process_spec(g, files, i + 1, acc2)
    }
}

/// The affected stateful modules of a change set.
pub open spec fn affected_modules_spec(g: ModuleGraph, files: Seq<Seq<char>>) -> Seq<Seq<char>> {
    process_spec(g, files, 0, Seq::empty())
}

/// Whether a string occurs in the vector.
pub fn contains_string(v: &Vec<String>, s: &String) -> (r: bool)
    ensures
        r == strs(v@).contains(s@),
{
    let n: usize = v.len();
    let mut i: usize = 0;
    while i < n
        invariant
            n == v@.len(),
            i <= n,
            forall|k: int| 0 <= k < i ==> strs(v@)[k] != s@,
        decreases n - i,
    {
        if str_eq(v[i].as_str(), s.as_str()) {
            proof {
                assert(strs(v@)[i as int] == s@);
            }
            return true;
        }
        i += 1;
    }
    proof {
        if strs(v@).contains(s@) {
            let j = choose|j: int| 0 <= j < strs(v@).len() && strs(v@)[j] == s@;
            assert(strs(v@)[j] != s@);
        }
    }
    false
}

/// Finds the module owning `file`: the entry whose path is the longest
/// directory prefix of it.
pub fn module_for_file(graph: &ModuleGraph, file: &String) -> (r: Option<String>)
    requires
        graph.wf(),
    ensures
        match r {
            Some(m) => module_for_file_spec(*graph, file@) == Some(m@),
            None => module_for_file_spec(*graph, file@) is None,
        },
{
    let n: usize = graph.entries.len();
    let mut best: Option<usize> = None;
    let mut i: usize = 0;
    while i < n
        invariant
            n == graph.entries@.len(),
            i <= n,
            match best {
                Some(bi) => bi < i && best_module_from(graph.keys().take(i as int), file@) == Some(
                    graph.keys()[bi as int],
                ),
                None => best_module_from(graph.keys().take(i as int), file@) is None,
            },
        decreases n - i,
    {
        proof {
            assert(graph.keys().take(i + 1).drop_last() =~= graph.keys().take(i as int));
            assert(graph.keys().take(i + 1).last() == graph.keys()[i as int]);
        }
        let under = crate::paths::is_path_under(file.as_str(), graph.entries[i].path.as_str());
        if under {
            match best {
                Some(bi) => {
                    if graph.entries[bi].path.as_str().unicode_len()
                        < graph.entries[i].path.as_str().unicode_len() {
                        best = Some(i);
                    }
                },
                None => {
                    best = Some(i);
                },
            }
        }
        i += 1;
    }
    proof {
        assert(graph.keys().take(n as int) =~= graph.keys());
    }
    match best {
        Some(bi) => Some(graph.entries[bi].path.clone()),
        None => None,
    }
}

/// Marks module `path` as touched, appending the affected stateful
/// modules to `affected` exactly as [`mark_spec`] says.
pub fn mark_module_changed(graph: &ModuleGraph, path: &String, affected: &mut Vec<String>)
    requires
        graph.wf(),
    ensures
        strs(final(affected)@) == mark_spec(*graph, path@, strs(old(affected)@)),
{
    let found = graph.get(path);
    match found {
        None => {},
        Some(m) => {
            if m.is_stateful {
                if !contains_string(affected, path) {
                    affected.push(path.clone());
                    proof {
                        assert(strs(affected@) =~= strs(affected@.drop_last()).push(path@));
                    }
                }
            } else {
                let users = &m.used_by;
                let un: usize = users.len();
                let mut j: usize = 0;
                proof {
                    assert(strs(users@) == graph.used_by_of(path@));
                }
                while j < un
                    invariant
                        un == users@.len(),
                        j <= un,
                        graph.wf(),
                        strs(users@) == graph.used_by_of(path@),
                        add_users(*graph, strs(users@), j as int, strs(affected@)) == add_users(
                            *graph,
                            strs(users@),
                            0,
                            strs(old(affected)@),
                        ),
                    decreases un - j,
                {
                    let ghost acc_pre = strs(affected@);
                    let u = &users[j];
                    proof {
                        assert(strs(users@)[j as int] == u@);
                    }
                    let keep = match graph.get(u) {
                        Some(um) => um.is_stateful,
                        None => false,
                    };
                    if keep {
                        if !contains_string(affected, u) {
                            affected.push(u.clone());
                            proof {
                                assert(strs(affected@) =~= acc_pre.push(u@));
                            }
                        }
                    }
                    proof {
                        assert(add_users(*graph, strs(users@), j as int, acc_pre) == add_users(
                            *graph,
                            strs(users@),
                            j + 1,
                            strs(affected@),
                        ));
                    }
                    j += 1;
                }
            }
        },
    }
}

/// Maps every changed file to its owning module and folds the propagation
/// rule over the graph; the result is the ordered, duplicate-free list of
/// affected stateful module paths.
pub fn process_changed_modules(changed_files: &Vec<String>, graph: &ModuleGraph) -> (r: Result<
    Vec<String>,
    String,
>)
    requires
        graph.wf(),
    ensures
        r is Ok,
        strs(r->Ok_0@) == affected_modules_spec(*graph, strs(changed_files@)),
{
    let n: usize = changed_files.len();
    let mut affected: Vec<String> = Vec::new();
    proof {
        assert(strs(affected@) =~= Seq::<Seq<char>>::empty());
    }
    let mut i: usize = 0;
    while i < n
        invariant
            n == changed_files@.len(),
            i <= n,
            graph.wf(),
            process_spec(*graph, strs(changed_files@), i as int, strs(affected@))
                == affected_modules_spec(*graph, strs(changed_files@)),
        decreases n - i,
    {
        let ghost acc_pre = strs(affected@);
        proof {
            assert(strs(changed_files@)[i as int] == changed_files@[i as int]@);
        }
        let owner = module_for_file(graph, &changed_files[i]);
        match owner {
            Some(m) => {
                mark_module_changed(graph, &m, &mut affected);
            },
            None => {},
        }
        proof {
            assert(process_spec(*graph, strs(changed_files@), i as int, acc_pre) == process_spec(
                *graph,
                strs(changed_files@),
                i + 1,
                strs(affected@),
            ));
        }
        i += 1;
    }
    Ok(affected)
}

// ---------------------------------------------------------------------------
// Laws of the propagation rule.
// ---------------------------------------------------------------------------
proof fn lemma_push_new_no_dups(s: Seq<Seq<char>>, x: Seq<char>)
    requires
        s.no_duplicates(),
        !s.contains(x),
    ensures
        s.push(x).no_duplicates(),
{
    let t = s.push(x);
    assert forall|i: int, j: int| 0 <= i < j < t.len() implies t[i] != t[j] by {
        if j < s.len() {
        } else {
            assert(t[j] == x);
            assert(t[i] == s[i]);
            if s[i] == x {
                assert(s.contains(x));
            }
        }
    }
}

proof fn lemma_add_users_no_dups(g: ModuleGraph, users: Seq<Seq<char>>, i: int, acc: Seq<Seq<char>>)
    requires
        0 <= i <= users.len(),
        acc.no_duplicates(),
    ensures
        add_users(g, users, i, acc).no_duplicates(),
    decreases users.len() - i,
{
    if i < users.len() {
        let u = users[i];
        if g.has_key(u) && g.stateful_of(u) && !acc.contains(u) {
            lemma_push_new_no_dups(acc, u);
            lemma_add_users_no_dups(g, users, i + 1, acc.push(u));
        } else {
            lemma_add_users_no_dups(g, users, i + 1, acc);
        }
    }
}

proof fn lemma_mark_no_dups(g: ModuleGraph, p: Seq<char>, acc: Seq<Seq<char>>)
    requires
        acc.no_duplicates(),
    ensures
        mark_spec(g, p, acc).no_duplicates(),
{
    if !g.has_key(p) {
    } else if g.stateful_of(p) {
        if !acc.contains(p) {
            lemma_push_new_no_dups(acc, p);
        }
    } else {
        lemma_add_users_no_dups(g, g.used_by_of(p), 0, acc);
    }
}

proof fn lemma_process_no_dups(g: ModuleGraph, files: Seq<Seq<char>>, i: int, acc: Seq<Seq<char>>)
    requires
        0 <= i <= files.len(),
        acc.no_duplicates(),
    ensures
        process_spec(g, files, i, acc).no_duplicates(),
    decreases files.len() - i,
{
    if i < files.len() {
        match module_for_file_spec(g, files[i]) {
            Some(m) => {
                lemma_mark_no_dups(g, m, acc);
                lemma_process_no_dups(g, files, i + 1, mark_spec(g, m, acc));
            },
            None => {
                lemma_process_no_dups(g, files, i + 1, acc);
            },
        }
    }
}

/// De-duplication: for any graph and any change set, the affected-modules
/// list holds each module at most once — in particular, a change set mapping
/// to the same module twice yields that module once.
pub proof fn lemma_affected_no_duplicates(g: ModuleGraph, files: Seq<Seq<char>>)
    ensures
        affected_modules_spec(g, files).no_duplicates(),
{
    assert(Seq::<Seq<char>>::empty().no_duplicates());
    lemma_process_no_dups(g, files, 0, Seq::empty());
}

proof fn lemma_add_users_preserves(
    g: ModuleGraph,
    users: Seq<Seq<char>>,
    i: int,
    acc: Seq<Seq<char>>,
    x: Seq<char>,
)
    requires
        0 <= i <= users.len(),
        acc.contains(x),
    ensures
        add_users(g, users, i, acc).contains(x),
    decreases users.len() - i,
{
    if i < users.len() {
        let u = users[i];
        if g.has_key(u) && g.stateful_of(u) && !acc.contains(u) {
            assert(acc.push(u).contains(x)) by {
                let j = choose|j: int| 0 <= j < acc.len() && acc[j] == x;
                assert(acc.push(u)[j] == x);
            }
            lemma_add_users_preserves(g, users, i + 1, acc.push(u), x);
        } else {
            lemma_add_users_preserves(g, users, i + 1, acc, x);
        }
    }
}

proof fn lemma_mark_preserves(g: ModuleGraph, p: Seq<char>, acc: Seq<Seq<char>>, x: Seq<char>)
    requires
        acc.contains(x),
    ensures
        mark_spec(g, p, acc).contains(x),
{
    if g.has_key(p) {
        if g.stateful_of(p) {
            if !acc.contains(p) {
                let j = choose|j: int| 0 <= j < acc.len() && acc[j] == x;
                assert(acc.push(p)[j] == x);
            }
        } else {
            lemma_add_users_preserves(g, g.used_by_of(p), 0, acc, x);
        }
    }
}

proof fn lemma_process_preserves(
    g: ModuleGraph,
    files: Seq<Seq<char>>,
    i: int,
    acc: Seq<Seq<char>>,
    x: Seq<char>,
)
    requires
        0 <= i <= files.len(),
        acc.contains(x),
    ensures
        process_spec(g, files, i, acc).contains(x),
    decreases files.len() - i,
{
    if i < files.len() {
        match module_for_file_spec(g, files[i]) {
            Some(m) => {
                lemma_mark_preserves(g, m, acc, x);
                lemma_process_preserves(g, files, i + 1, mark_spec(g, m, acc), x);
            },
            None => {
                lemma_process_preserves(g, files, i + 1, acc, x);
            },
        }
    }
}

/// Direct propagation: a change set that touches a stateful module directly
/// puts that module in the affected list, dependents or not.
pub proof fn lemma_touched_stateful_affected(
    g: ModuleGraph,
    files: Seq<Seq<char>>,
    j: int,
    c: Seq<char>,
)
    requires
        0 <= j < files.len(),
        module_for_file_spec(g, files[j]) == Some(c),
        g.has_key(c),
        g.stateful_of(c),
    ensures
        affected_modules_spec(g, files).contains(c),
{
    lemma_process_hits(g, files, 0, j, Seq::empty(), c);
}

proof fn lemma_process_hits(
    g: ModuleGraph,
    files: Seq<Seq<char>>,
    i: int,
    j: int,
    acc: Seq<Seq<char>>,
    c: Seq<char>,
)
    requires
        0 <= i <= j < files.len(),
        module_for_file_spec(g, files[j]) == Some(c),
        g.has_key(c),
        g.stateful_of(c),
    ensures
        process_spec(g, files, i, acc).contains(c),
    decreases files.len() - i,
{
    if i == j {
        let acc2 = mark_spec(g, c, acc);
        assert(acc2.contains(c)) by {
            if acc.contains(c) {
                lemma_mark_preserves(g, c, acc, c);
            } else {
                assert(acc.push(c)[acc.len() as int] == c);
            }
        }
        lemma_process_preserves(g, files, i + 1, acc2, c);
    } else {
        match module_for_file_spec(g, files[i]) {
            Some(m) => {
                lemma_process_hits(g, files, i + 1, j, mark_spec(g, m, acc), c);
            },
            None => {
                lemma_process_hits(g, files, i + 1, j, acc, c);
            },
        }
    }
}

/// One-hop propagation through a stateless module: when stateful `a` depends
/// on stateless `b` as its single user, a change set holding one file owned
/// by `b` yields exactly `[a]`.
pub proof fn lemma_stateless_change_propagates(
    g: ModuleGraph,
    f: Seq<char>,
    a: Seq<char>,
    b: Seq<char>,
)
    requires
        g.has_key(a),
        g.has_key(b),
        g.stateful_of(a),
        !g.stateful_of(b),
        g.depends_of(a).contains(b),
        g.used_by_of(b) == seq![a],
        module_for_file_spec(g, f) == Some(b),
    ensures
        affected_modules_spec(g, seq![f]) == seq![a],
{
    let files = seq![f];
    let acc0 = Seq::<Seq<char>>::empty();
    assert(process_spec(g, files, 0, acc0) == process_spec(g, files, 1, mark_spec(g, b, acc0)));
    assert(mark_spec(g, b, acc0) == add_users(g, seq![a], 0, acc0));
    assert(!acc0.contains(a));
    assert(add_users(g, seq![a], 0, acc0) == add_users(g, seq![a], 1, acc0.push(a)));
    assert(add_users(g, seq![a], 1, acc0.push(a)) == acc0.push(a));
    assert(acc0.push(a) =~= seq![a]);
}

// ---------------------------------------------------------------------------
// The change-set orchestration around the propagation rule.
// ---------------------------------------------------------------------------
/// Sorted strictly ascending in code-point order — hence duplicate-free.
pub open spec fn strictly_sorted(ps: Seq<Seq<char>>) -> bool {
    forall|k: int, l: int| 0 <= k < l < ps.len() ==> lex_lt(ps[k], ps[l])
}

/// `r` holds exactly the `.tf`-suffixed members of the first `i` files.
pub open spec fn tf_members(r: Seq<Seq<char>>, files: Seq<Seq<char>>, i: int) -> bool {
    forall|x: Seq<char>|
        #[trigger] r.contains(x) <==> files.take(i).contains(x) && seq_ends_with(x, ".tf"@)
}

/// Inserts `s` into a strictly sorted vector, keeping it strictly sorted;
/// a string already present is not inserted again.
fn insert_sorted(v: &mut Vec<String>, s: String)
    requires
        strictly_sorted(strs(old(v)@)),
    ensures
        strictly_sorted(strs(final(v)@)),
        forall|x: Seq<char>|
            strs(final(v)@).contains(x) <==> strs(old(v)@).contains(x) || x == s@,
{
    let n: usize = v.len();
    let mut i: usize = 0;
    while i < n && str_lt(v[i].as_str(), s.as_str())
        invariant
            n == v@.len(),
            i <= n,
            v@ == old(v)@,
            forall|k: int| 0 <= k < i ==> lex_lt(strs(v@)[k], s@),
        decreases n - i,
    {
        i += 1;
    }
    if i < n && str_eq(v[i].as_str(), s.as_str()) {
        proof {
            assert(strs(v@)[i as int] == s@);
            assert(strs(v@).contains(s@));
        }
        return ;
    }
    let ghost pre = strs(v@);
    proof {
        if i < n {
            assert(!lex_lt(pre[i as int], s@));
            assert(pre[i as int] != s@);
            assert(lex_lt(s@, pre[i as int])) by {
                lemma_lex_le_total(pre[i as int], s@);
                if lex_le(pre[i as int], s@) {
                    assert(lex_lt(pre[i as int], s@));
                }
            }
        }
    }
    v.insert(i, s);
    proof {
        assert(strs(v@) =~= pre.insert(i as int, s@));
        let cur = strs(v@);
        assert forall|k: int, l: int| 0 <= k < l < cur.len() implies lex_lt(cur[k], cur[l]) by {
            if l < i {
                assert(cur[k] == pre[k] && cur[l] == pre[l]);
            } else if l == i {
                assert(cur[k] == pre[k] && cur[l] == s@);
            } else if k < i {
                assert(cur[k] == pre[k] && cur[l] == pre[l - 1]);
                if l - 1 == i as int {
                    assert(lex_lt(pre[k], s@));
                    assert(lex_lt(cur[k], cur[l])) by {
                        lemma_lex_lt_transitive(pre[k], s@, pre[i as int]);
                    }
                } else {
                    assert(lex_lt(pre[k], pre[l - 1]));
                }
            } else if k == i {
                assert(cur[k] == s@ && cur[l] == pre[l - 1]);
                if l - 1 == i as int {
                } else {
                    assert(lex_lt(pre[i as int], pre[l - 1]));
                    lemma_lex_lt_transitive(s@, pre[i as int], pre[l - 1]);
                }
            } else {
                assert(cur[k] == pre[k - 1] && cur[l] == pre[l - 1]);
                assert(lex_lt(pre[k - 1], pre[l - 1]));
            }
        }
        assert forall|x: Seq<char>| cur.contains(x) <==> pre.contains(x) || x == s@ by {
            if cur.contains(x) {
                let j = choose|j: int| 0 <= j < cur.len() && cur[j] == x;
                if j < i {
                    assert(pre[j] == x);
                    assert(pre.contains(x));
                } else if j > i {
                    assert(pre[j - 1] == x);
                    assert(pre.contains(x));
                }
            }
            if pre.contains(x) {
                let j = choose|j: int| 0 <= j < pre.len() && pre[j] == x;
                if j < i {
                    assert(cur[j] == x);
                } else {
                    assert(cur[j + 1] == x);
                }
                assert(cur.contains(x));
            }
            if x == s@ {
                assert(cur[i as int] == x);
                assert(cur.contains(x));
            }
        }
    }
}

/// Strict order is transitive.
proof fn lemma_lex_lt_transitive(a: Seq<char>, b: Seq<char>, c: Seq<char>)
    requires
        lex_lt(a, b),
        lex_lt(b, c),
    ensures
        lex_lt(a, c),
{
    lemma_lex_le_transitive(a, b, c);
    if a == c {
        lemma_lex_le_antisymmetric(b, c);
    }
}

/// Normalizes a raw changed-file list into the change set: the
/// recognized-extension files, sorted and de-duplicated.
pub fn normalize_changed_files(files: &Vec<String>) -> (r: Vec<String>)
    ensures
        strictly_sorted(strs(r@)),
        forall|x: Seq<char>|
            strs(r@).contains(x) <==> strs(files@).contains(x) && seq_ends_with(x, ".tf"@),
{
    let n: usize = files.len();
    let mut r: Vec<String> = Vec::new();
    let pat = chars_of(".tf");
    proof {
        assert(tf_members(strs(r@), strs(files@), 0)) by {
            assert(forall|x: Seq<char>| !strs(r@).contains(x));
            assert(forall|x: Seq<char>| !strs(files@).take(0).contains(x));
        }
    }
    let mut i: usize = 0;
    while i < n
        invariant
            n == files@.len(),
            i <= n,
            pat@ == ".tf"@,
            strictly_sorted(strs(r@)),
            tf_members(strs(r@), strs(files@), i as int),
        decreases n - i,
    {
        let ghost fv = strs(files@);
        proof {
            assert(fv[i as int] == files@[i as int]@);
        }
        let cs = chars_of(files[i].as_str());
        let is_tf = ends_with_chars(&cs, &pat);
        let ghost r_pre = strs(r@);
        proof {
            assert(tf_members(r_pre, fv, i as int));
        }
        if is_tf {
            insert_sorted(&mut r, files[i].clone());
        }
        proof {
            assert forall|x: Seq<char>|
                #[trigger] strs(r@).contains(x) <==> fv.take(i + 1).contains(x) && seq_ends_with(
                    x,
                    ".tf"@,
                ) by {
                assert(is_tf == seq_ends_with(fv[i as int], ".tf"@));
                assert(r_pre.contains(x) <==> fv.take(i as int).contains(x) && seq_ends_with(
                    x,
                    ".tf"@,
                ));
                if is_tf {
                    assert(strs(r@).contains(x) <==> r_pre.contains(x) || x == fv[i as int]);
                } else {
                    assert(strs(r@) == r_pre);
                }
                assert(fv.take(i + 1).contains(x) <==> fv.take(i as int).contains(x) || x == fv[i
                    as int]) by {
                    if fv.take(i + 1).contains(x) {
                        let j = choose|j: int|
                            0 <= j < fv.take(i + 1).len() && #[trigger] fv.take(i + 1)[j] == x;
                        if j < i {
                            assert(fv.take(i as int)[j] == x);
                        }
                    }
                    if fv.take(i as int).contains(x) {
                        let j = choose|j: int|
                            0 <= j < fv.take(i as int).len() && #[trigger] fv.take(
                                i as int,
                            )[j] == x;
                        assert(fv.take(i + 1)[j] == x);
                    }
                    if x == fv[i as int] {
                        assert(fv.take(i + 1)[i as int] == x);
                    }
                }
            }
            assert(tf_members(strs(r@), strs(files@), i + 1));
        }
        i += 1;
    }
    proof {
        assert(tf_members(strs(r@), strs(files@), n as int));
        assert(strs(files@).take(n as int) =~= strs(files@));
        assert forall|x: Seq<char>|
            #[trigger] strs(r@).contains(x) <==> strs(files@).contains(x) && seq_ends_with(
                x,
                ".tf"@,
            ) by {
            assert(strs(r@).contains(x) <==> strs(files@).take(n as int).contains(x)
                && seq_ends_with(x, ".tf"@));
        }
    }
    r
}

/// Which module paths a path-substring filter keeps.
pub open spec fn keeps_path(p: Seq<char>, root: Seq<char>) -> bool {
    has_substring(p, seq!['/'] + root + seq!['/']) || seq_ends_with(p, seq!['/'] + root)
}

pub open spec fn filter_paths(ps: Seq<Seq<char>>, root: Seq<char>) -> Seq<Seq<char>>
    decreases ps.len(),
{
    if ps.len() == 0 {
        Seq::empty()
    } else if keeps_path(ps.last(), root) {
        filter_paths(ps.drop_last(), root).push(ps.last())
    } else {
        filter_paths(ps.drop_last(), root)
    }
}

/// Narrows a module list to the modules under the directory named `root`:
/// those whose path contains `/root/` or ends with `/root`.
pub fn filter_modules_by_path(modules: &Vec<String>, root: &str) -> (r: Vec<String>)
    ensures
        strs(r@) == filter_paths(strs(modules@), root@),
{
    let n: usize = modules.len();
    let mut r: Vec<String> = Vec::new();
    let mut mid: Vec<char> = Vec::new();
    mid.push('/');
    crate::text::append_str(&mut mid, root);
    mid.push('/');
    let mut tail: Vec<char> = Vec::new();
    tail.push('/');
    crate::text::append_str(&mut tail, root);
    proof {
        assert(mid@ =~= seq!['/'] + root@ + seq!['/']);
        assert(tail@ =~= seq!['/'] + root@);
    }
    let mut i: usize = 0;
    while i < n
        invariant
            n == modules@.len(),
            i <= n,
            mid@ == seq!['/'] + root@ + seq!['/'],
            tail@ == seq!['/'] + root@,
            strs(r@) == filter_paths(strs(modules@).take(i as int), root@),
        decreases n - i,
    {
        proof {
            assert(strs(modules@).take(i + 1).drop_last() =~= strs(modules@).take(i as int));
            assert(strs(modules@).take(i + 1).last() == modules@[i as int]@);
        }
        let cs = chars_of(modules[i].as_str());
        if crate::text::contains_seq(&cs, &mid) || ends_with_chars(&cs, &tail) {
            r.push(modules[i].clone());
            proof {
                assert(strs(r@) =~= strs(r@.drop_last()).push(modules@[i as int]@));
            }
        }
        i += 1;
    }
    proof {
        assert(strs(modules@).take(n as int) =~= strs(modules@));
    }
    r
}

/// The affected modules of one run: with `all` set, every stateful module;
/// otherwise the change set folded through the graph, narrowed by the path
/// filter when `root_dir` is not `.`.
pub fn get_changed_modules(
    graph: &ModuleGraph,
    all: bool,
    changed_files: &Vec<String>,
    root_dir: &str,
) -> (r: Result<Vec<String>, String>)
    requires
        graph.wf(),
    ensures
        r is Ok,
        all ==> strs(r->Ok_0@) == crate::graph::stateful_keys(graph.entries@),
        !all && root_dir@ == "."@ ==> strs(r->Ok_0@) == affected_modules_spec(
            *graph,
            strs(changed_files@),
        ),
        !all && root_dir@ != "."@ ==> strs(r->Ok_0@) == filter_paths(
            affected_modules_spec(*graph, strs(changed_files@)),
            root_dir@,
        ),
{
    if all {
        return Ok(graph.stateful_modules());
    }
    let affected = match process_changed_modules(changed_files, graph) {
        Ok(a) => a,
        Err(e) => {
            return Err(e);
        },
    };
    if str_eq(root_dir, ".") {
        Ok(affected)
    } else {
        Ok(filter_modules_by_path(&affected, root_dir))
    }
}

/// How the change detector obtains its change set.
#[derive(PartialEq, Eq, Structural, Clone, Copy, Debug)]
pub enum DetectionMode {
    /// Skip version control: every stateful module is processed.
    AllStateful,
    /// On the trunk branch with a CI change-in-progress signal: use the
    /// pipeline-supplied commits, then merge-base, then recent commits, then
    /// uncommitted changes.
    PipelineChange,
    /// On the trunk branch locally: recent commits, then uncommitted
    /// changes, then the latest reference point.
    LocalTrunk,
    /// On any other branch: merge-base against the trunk plus uncommitted
    /// changes.
    FeatureBranch,
}

/// Chooses the change-detection strategy family from the run flags, the
/// current and default branch names, and the CI change-in-progress signal.
pub fn detection_mode(
    all: bool,
    current_branch: &str,
    default_branch: &str,
    pr_number: Option<&String>,
) -> (r: DetectionMode)
    ensures
        r == (if all {
            DetectionMode::AllStateful
        } else if current_branch@ == default_branch@ {
            match pr_number {
                Some(p) if p@.len() > 0 => DetectionMode::PipelineChange,
                _ => DetectionMode::LocalTrunk,
            }
        } else {
            DetectionMode::FeatureBranch
        }),
{
    if all {
        return DetectionMode::AllStateful;
    }
    if str_eq(current_branch, default_branch) {
        match pr_number {
            Some(p) => {
                if p.as_str().unicode_len() > 0 {
                    DetectionMode::PipelineChange
                } else {
                    DetectionMode::LocalTrunk
                }
            },
            None => DetectionMode::LocalTrunk,
        }
    } else {
        DetectionMode::FeatureBranch
    }
}

} // verus!
