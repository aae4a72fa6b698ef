//! Line-oriented detection of module-invocation blocks and backend blocks in
//! module source files, the statefulness classifier built on them, and the
//! extraction of dependency edges from module-invocation `source` lines.
//!
//! No full grammar is parsed: a module invocation is recognized by a line
//! whose trimmed form starts with `module` and contains `{`, its `source`
//! assignment by a line inside that block with exactly one `=`, and a backend
//! by a `backend "..."` line nested inside a top-level `terraform` block,
//! tracked by brace counting.

use vstd::prelude::*;
use crate::text::{
    chars_of, contains_char, contains_seq, find_char, has_substring, index_of_char,
    seq_starts_with, starts_with_chars, strs, subrange_chars,
    trim_chars, trim_quote_chars, trim_quotes_spec, trim_spec,
};
use crate::paths::{join_path, join_path_spec};

verus! {

/// The lines of one module source file.
pub struct TfFile {
    pub lines: Vec<String>,
}

/// The path of a module directory together with the lines of each of its
/// source files.
pub struct ModuleSources {
    pub path: String,
    pub files: Vec<TfFile>,
}

pub open spec fn file_lines(f: TfFile) -> Seq<Seq<char>> {
    strs(f.lines@)
}

/// A trimmed line that opens a module-invocation block.
pub open spec fn is_module_open_line(t: Seq<char>) -> bool {
    seq_starts_with(t, "module"@) && t.contains('{')
}

/// A trimmed line the backend scanner ignores: blank or a comment.
pub open spec fn is_skip_line(t: Seq<char>) -> bool {
    t.len() == 0 || t[0] == '#' || seq_starts_with(t, "//"@)
}

/// A trimmed line that opens a `terraform` block.
pub open spec fn is_terraform_open_line(t: Seq<char>) -> bool {
    seq_starts_with(t, "terraform"@) && t.contains('{')
}

/// A trimmed line that declares a backend.
pub open spec fn is_backend_line(t: Seq<char>) -> bool {
    seq_starts_with(t, "backend"@) && t.contains('"')
}

/// Whether any line of `ls` opens a module-invocation block.
pub open spec fn lines_have_module_open(ls: Seq<Seq<char>>) -> bool {
    exists|i: int| 0 <= i < ls.len() && is_module_open_line(trim_spec(ls[i]))
}

/// The backend scanner from line `i` on, given whether the scan stands inside
/// a top-level `terraform` block and at which brace depth.
pub open spec fn backend_scan(ls: Seq<Seq<char>>, i: int, in_tf: bool, depth: int) -> bool
    decreases ls.len() - i
        when 0 <= i <= ls.len()
{
    if i < 0 || i >= ls.len() {
        false
    } else {
        let t = trim_spec(ls[i]);
        if is_skip_line(t) {
            backend_scan(ls, i + 1, in_tf, depth)
        } else if is_terraform_open_line(t) {
            backend_scan(ls, i + 1, true, depth + 1)
        } else if in_tf && is_backend_line(t) {
            true
        } else {
            let d1 = if t.contains('{') {
                depth + 1
            } else {
                depth
            };
            let d2 = if t.contains('}') {
                d1 - 1
            } else {
                d1
            };
            let tf2 = if t.contains('}') && d2 == 0 {
                false
            } else {
                in_tf
            };
            backend_scan(ls, i + 1, tf2, d2)
        }
    }
}

/// Whether one file declares a backend inside a `terraform` block.
pub open spec fn file_has_backend(ls: Seq<Seq<char>>) -> bool {
    backend_scan(ls, 0, false, 0)
}

pub open spec fn files_have_module_block(files: Seq<TfFile>) -> bool {
    exists|i: int| 0 <= i < files.len() && lines_have_module_open(file_lines(files[i]))
}

pub open spec fn files_have_backend_block(files: Seq<TfFile>) -> bool {
    exists|i: int| 0 <= i < files.len() && file_has_backend(file_lines(files[i]))
}

/// The statefulness rule: a module is stateful when it invokes other modules,
/// else when it declares a backend, else when a local state file sits beside
/// its sources; otherwise it is a stateless library module.
pub open spec fn classify_stateful(files: Seq<TfFile>, has_state_file: bool) -> bool {
    files_have_module_block(files) || files_have_backend_block(files) || has_state_file
}

/// The classifier is determined by the three detections alone: a module with
/// a module-invocation block is stateful regardless of any backend also
/// present; one with only a backend block is stateful; one with neither and
/// no local state file is stateless.
pub proof fn lemma_classifier_determinism(files: Seq<TfFile>, has_state_file: bool)
    ensures
        files_have_module_block(files) ==> classify_stateful(files, has_state_file),
        files_have_backend_block(files) ==> classify_stateful(files, has_state_file),
        !files_have_module_block(files) && !files_have_backend_block(files) && !has_state_file
            ==> !classify_stateful(files, has_state_file),
{
}

fn line_trimmed(line: &String) -> (t: Vec<char>)
    ensures
        t@ == trim_spec(line@),
{
    let cs = chars_of(line.as_str());
    trim_chars(&cs)
}

fn is_module_open(t: &Vec<char>) -> (r: bool)
    ensures
        r == is_module_open_line(t@),
{
    let pat = chars_of("module");
    starts_with_chars(t, &pat) && contains_char(t, '{')
}

/// Whether any line of the file opens a module-invocation block.
pub fn has_module_block(lines: &Vec<String>) -> (r: bool)
    ensures
        r == lines_have_module_open(strs(lines@)),
{
    let n: usize = lines.len();
    let mut i: usize = 0;
    while i < n
        invariant
            n == lines@.len(),
            i <= n,
            forall|k: int| 0 <= k < i ==> !is_module_open_line(trim_spec(strs(lines@)[k])),
        decreases n - i,
    {
        let t = line_trimmed(&lines[i]);
        if is_module_open(&t) {
            proof {
                assert(is_module_open_line(trim_spec(strs(lines@)[i as int])));
            }
            return true;
        }
        i += 1;
    }
    false
}

/// Whether the file declares a backend inside a top-level `terraform` block.
pub fn file_declares_backend(lines: &Vec<String>) -> (r: bool)
    ensures
        r == file_has_backend(strs(lines@)),
{
    let n: usize = lines.len();
    let mut i: usize = 0;
    let mut in_tf: bool = false;
    let mut depth: i128 = 0;
    let pat_slashes = chars_of("//");
    let pat_terraform = chars_of("terraform");
    let pat_backend = chars_of("backend");
    while i < n
        invariant
            n == lines@.len(),
            i <= n,
            pat_slashes@ == "//"@,
            pat_terraform@ == "terraform"@,
            pat_backend@ == "backend"@,
            -(i as int) <= depth <= i as int,
            file_has_backend(strs(lines@)) == backend_scan(
                strs(lines@),
                i as int,
                in_tf,
                depth as int,
            ),
        decreases n - i,
    {
        let ghost tv = trim_spec(strs(lines@)[i as int]);
        let t = line_trimmed(&lines[i]);
        proof {
            assert(strs(lines@)[i as int] == lines@[i as int]@);
            assert(t@ == tv);
        }
        let skip: bool = t.len() == 0 || t[0] == '#' || starts_with_chars(&t, &pat_slashes);
        if skip {
            proof {
                assert(is_skip_line(tv));
                assert(backend_scan(strs(lines@), i as int, in_tf, depth as int) == backend_scan(
                    strs(lines@),
                    i + 1,
                    in_tf,
                    depth as int,
                ));
            }
        } else if starts_with_chars(&t, &pat_terraform) && contains_char(&t, '{') {
            proof {
                assert(!is_skip_line(tv) && is_terraform_open_line(tv));
                assert(backend_scan(strs(lines@), i as int, in_tf, depth as int) == backend_scan(
                    strs(lines@),
                    i + 1,
                    true,
                    depth + 1,
                ));
            }
            in_tf = true;
            depth = depth + 1;
        } else if in_tf && starts_with_chars(&t, &pat_backend) && contains_char(&t, '"') {
            proof {
                assert(!is_skip_line(tv) && !is_terraform_open_line(tv) && is_backend_line(tv));
                assert(backend_scan(strs(lines@), i as int, in_tf, depth as int));
            }
            return true;
        } else {
            proof {
                assert(!is_skip_line(tv) && !is_terraform_open_line(tv) && !(in_tf
                    && is_backend_line(tv)));
            }
            let ghost tf_old = in_tf;
            let ghost d_old = depth as int;
            if contains_char(&t, '{') {
                depth = depth + 1;
            }
            if contains_char(&t, '}') {
                depth = depth - 1;
                if depth == 0 {
                    in_tf = false;
                }
            }
            proof {
                let sd1: int = if tv.contains('{') {
                    d_old + 1
                } else {
                    d_old
                };
                let sd2: int = if tv.contains('}') {
                    sd1 - 1
                } else {
                    sd1
                };
                let stf2: bool = if tv.contains('}') && sd2 == 0 {
                    false
                } else {
                    tf_old
                };
                assert(depth as int == sd2);
                assert(in_tf == stf2);
                assert(backend_scan(strs(lines@), i as int, tf_old, d_old) == backend_scan(
                    strs(lines@),
                    i + 1,
                    stf2,
                    sd2,
                ));
            }
        }
        i += 1;
    }
    false
}

/// Classifies one module from the lines of its source files and whether a
/// local state file sits beside them.
pub fn has_backend_config(files: &Vec<TfFile>, has_state_file: bool) -> (r: bool)
    ensures
        r == classify_stateful(files@, has_state_file),
{
    let n: usize = files.len();
    let mut i: usize = 0;
    while i < n
        invariant
            n == files@.len(),
            i <= n,
            forall|k: int| 0 <= k < i ==> !lines_have_module_open(file_lines(files@[k])),
        decreases n - i,
    {
        if has_module_block(&files[i].lines) {
            proof {
                assert(lines_have_module_open(file_lines(files@[i as int])));
            }
            return true;
        }
        i += 1;
    }
    let mut j: usize = 0;
    while j < n
        invariant
            n == files@.len(),
            j <= n,
            forall|k: int| 0 <= k < n ==> !lines_have_module_open(file_lines(files@[k])),
            forall|k: int| 0 <= k < j ==> !file_has_backend(file_lines(files@[k])),
        decreases n - j,
    {
        if file_declares_backend(&files[j].lines) {
            proof {
                assert(file_has_backend(file_lines(files@[j as int])));
            }
            return true;
        }
        j += 1;
    }
    proof {
        if files_have_module_block(files@) {
            let w = choose|w: int|
                0 <= w < files@.len() && lines_have_module_open(file_lines(files@[w]));
            assert(false);
        }
        if files_have_backend_block(files@) {
            let w = choose|w: int|
                0 <= w < files@.len() && file_has_backend(file_lines(files@[w]));
            assert(false);
        }
    }
    has_state_file
}

/// The dependency paths named by a `source` line: the trimmed text after the
/// single `=`, unquoted and resolved against the module directory.
pub open spec fn source_of_line(t: Seq<char>, dir: Seq<char>) -> Seq<char> {
    join_path_spec(
        dir,
        trim_quotes_spec(trim_spec(t.subrange(find_char(t, '=') + 1, t.len() as int))),
    )
}

/// Exactly one occurrence of `c` in `s`: one is found, none follows it.
pub open spec fn exactly_one_char(s: Seq<char>, c: char) -> bool {
    find_char(s, c) < s.len() && !s.subrange(find_char(s, c) + 1, s.len() as int).contains(c)
}

/// Whether a trimmed in-block line carries a `source` assignment: the text
/// mentions `source` and splits on `=` into exactly two parts.
pub open spec fn is_source_line(t: Seq<char>) -> bool {
    has_substring(t, "source"@) && exactly_one_char(t, '=')
}

/// The module-invocation scanner from line `i` on: resolved `source` paths of
/// lines inside invocation blocks, in order.
pub open spec fn deps_scan(ls: Seq<Seq<char>>, i: int, in_block: bool, dir: Seq<char>) -> Seq<
    Seq<char>,
>
    decreases ls.len() - i
        when 0 <= i <= ls.len()
{
    if i < 0 || i >= ls.len() {
        Seq::empty()
    } else {
        let t = trim_spec(ls[i]);
        if !in_block {
            if is_module_open_line(t) {
                deps_scan(ls, i + 1, true, dir)
            } else {
                deps_scan(ls, i + 1, false, dir)
            }
        } else {
            let here: Seq<Seq<char>> = if is_source_line(t) {
                seq![source_of_line(t, dir)]
            } else {
                Seq::empty()
            };
            here + deps_scan(ls, i + 1, !t.contains('}'), dir)
        }
    }
}

/// The resolved dependency paths of one file's lines.
pub open spec fn find_deps_spec(ls: Seq<Seq<char>>, dir: Seq<char>) -> Seq<Seq<char>> {
    deps_scan(ls, 0, false, dir)
}

/// Extracts the module paths referenced by the invocation blocks of a file,
/// resolved against `current_dir`.
pub fn find_module_dependencies(lines: &Vec<String>, current_dir: &str) -> (r: Vec<String>)
    ensures
        strs(r@) == find_deps_spec(strs(lines@), current_dir@),
{
    let n: usize = lines.len();
    let mut r: Vec<String> = Vec::new();
    let mut i: usize = 0;
    let mut in_block: bool = false;
    let pat_source = chars_of("source");
    while i < n
        invariant
            n == lines@.len(),
            i <= n,
            pat_source@ == "source"@,
            strs(r@) + deps_scan(strs(lines@), i as int, in_block, current_dir@) == find_deps_spec(
                strs(lines@),
                current_dir@,
            ),
        decreases n - i,
    {
        let ghost tv = trim_spec(strs(lines@)[i as int]);
        let t = line_trimmed(&lines[i]);
        proof {
            assert(strs(lines@)[i as int] == lines@[i as int]@);
            assert(t@ == tv);
        }
        if !in_block {
            if is_module_open(&t) {
                in_block = true;
            }
        } else {
            let mut sourced: bool = false;
            if contains_seq(&t, &pat_source) {
                let eq = index_of_char(&t, '=');
                if eq < t.len() {
                    let after = subrange_chars(&t, eq + 1, t.len());
                    let eq2 = index_of_char(&after, '=');
                    if eq2 == after.len() {
                        proof {
                            assert(!after@.contains('='));
                            assert(is_source_line(tv));
                        }
                        sourced = true;
                        let trimmed = trim_chars(&after);
                        let src = trim_quote_chars(&trimmed);
                        let dep = join_path(current_dir, &src);
                        r.push(dep);
                        proof {
                            assert(strs(r@) =~= strs(r@.drop_last()).push(
                                source_of_line(tv, current_dir@),
                            ));
                            assert(strs(r@.drop_last()) + (seq![source_of_line(tv, current_dir@)]
                                + deps_scan(
                                strs(lines@),
                                i + 1,
                                !tv.contains('}'),
                                current_dir@,
                            )) =~= strs(r@) + deps_scan(
                                strs(lines@),
                                i + 1,
                                !tv.contains('}'),
                                current_dir@,
                            ));
                        }
                    } else {
                        proof {
                            assert(after@[eq2 as int] == '=');
                            assert(after@.contains('='));
                            assert(!exactly_one_char(tv, '='));
                        }
                    }
                } else {
                    proof {
                        assert(find_char(tv, '=') == tv.len());
                        assert(!exactly_one_char(tv, '='));
                    }
                }
            }
            proof {
                if !sourced {
                    assert(!is_source_line(tv));
                    assert(Seq::<Seq<char>>::empty() + deps_scan(
                        strs(lines@),
                        i + 1,
                        !tv.contains('}'),
                        current_dir@,
                    ) =~= deps_scan(strs(lines@), i + 1, !tv.contains('}'), current_dir@));
                }
            }
            in_block = !contains_char(&t, '}');
        }
        i += 1;
    }
    proof {
        assert(strs(r@) + Seq::<Seq<char>>::empty() =~= strs(r@));
    }
    r
}

/// The dependencies contributed by a sequence of files, in file order.
pub open spec fn deps_of_files(fs: Seq<TfFile>, dir: Seq<char>) -> Seq<Seq<char>>
    decreases fs.len(),
{
    if fs.len() == 0 {
        Seq::empty()
    } else {
        deps_of_files(fs.drop_last(), dir) + find_deps_spec(file_lines(fs.last()), dir)
    }
}

/// Each dependency of `ds` tagged with the module path `p`.
pub open spec fn tag_pairs(p: Seq<char>, ds: Seq<Seq<char>>) -> Seq<(Seq<char>, Seq<char>)> {
    ds.map_values(|d: Seq<char>| (p, d))
}

/// The `(module, dependency)` pairs contributed by a sequence of modules.
pub open spec fn pairs_of_modules(ms: Seq<ModuleSources>) -> Seq<(Seq<char>, Seq<char>)>
    decreases ms.len(),
{
    if ms.len() == 0 {
        Seq::empty()
    } else {
        pairs_of_modules(ms.drop_last()) + tag_pairs(
            ms.last().path@,
            deps_of_files(ms.last().files@, ms.last().path@),
        )
    }
}

pub open spec fn pairs_view(v: Seq<(String, String)>) -> Seq<(Seq<char>, Seq<char>)> {
    v.map_values(|p: (String, String)| (p.0@, p.1@))
}

/// Collects every `(module, dependency)` pair named by the invocation blocks
/// of the given modules' sources.
pub fn collect_dependencies(sources: &Vec<ModuleSources>) -> (r: Vec<(String, String)>)
    ensures
        pairs_view(r@) == pairs_of_modules(sources@),
{
    let n: usize = sources.len();
    let mut r: Vec<(String, String)> = Vec::new();
    let mut i: usize = 0;
    proof {
        assert(pairs_view(r@) =~= pairs_of_modules(sources@.take(0)));
    }
    while i < n
        invariant
            n == sources@.len(),
            i <= n,
            pairs_view(r@) == pairs_of_modules(sources@.take(i as int)),
        decreases n - i,
    {
        let m = &sources[i];
        let fn_count: usize = m.files.len();
        let mut j: usize = 0;
        while j < fn_count
            invariant
                fn_count == m.files@.len(),
                j <= fn_count,
                m == sources@[i as int],
                i < n == sources@.len(),
                pairs_view(r@) == pairs_of_modules(sources@.take(i as int)) + tag_pairs(
                    m.path@,
                    deps_of_files(m.files@.take(j as int), m.path@),
                ),
            decreases fn_count - j,
        {
            let deps = find_module_dependencies(&m.files[j].lines, m.path.as_str());
            let dn: usize = deps.len();
            let mut k: usize = 0;
            while k < dn
                invariant
                    dn == deps@.len(),
                    k <= dn,
                    j < fn_count == m.files@.len(),
                    m == sources@[i as int],
                    i < n == sources@.len(),
                    strs(deps@) == find_deps_spec(file_lines(m.files@[j as int]), m.path@),
                    pairs_view(r@) == pairs_of_modules(sources@.take(i as int)) + tag_pairs(
                        m.path@,
                        deps_of_files(m.files@.take(j as int), m.path@) + strs(deps@).take(
                            k as int,
                        ),
                    ),
                decreases dn - k,
            {
                r.push((m.path.clone(), deps[k].clone()));
                proof {
                    let base = deps_of_files(m.files@.take(j as int), m.path@);
                    assert(base + strs(deps@).take(k + 1) =~= (base + strs(deps@).take(
                        k as int,
                    )).push(deps@[k as int]@));
                    assert(tag_pairs(m.path@, (base + strs(deps@).take(k as int)).push(
                        deps@[k as int]@,
                    )) =~= tag_pairs(m.path@, base + strs(deps@).take(k as int)).push(
                        (m.path@, deps@[k as int]@),
                    ));
                    assert(pairs_view(r@) =~= pairs_view(r@.drop_last()).push(
                        (m.path@, deps@[k as int]@),
                    ));
                    assert(pairs_of_modules(sources@.take(i as int)) + tag_pairs(
                        m.path@,
                        base + strs(deps@).take(k as int),
                    ).push((m.path@, deps@[k as int]@)) =~= (pairs_of_modules(
                        sources@.take(i as int),
                    ) + tag_pairs(m.path@, base + strs(deps@).take(k as int))).push(
                        (m.path@, deps@[k as int]@),
                    ));
                }
                k += 1;
            }
            proof {
                assert(strs(deps@).take(dn as int) =~= strs(deps@));
                assert(m.files@.take(j + 1).drop_last() =~= m.files@.take(j as int));
                assert(m.files@.take(j + 1).last() == m.files@[j as int]);
                assert(deps_of_files(m.files@.take(j + 1), m.path@) =~= deps_of_files(
                    m.files@.take(j as int),
                    m.path@,
                ) + strs(deps@));
            }
            j += 1;
        }
        proof {
            assert(m.files@.take(fn_count as int) =~= m.files@);
            assert(sources@.take(i + 1).drop_last() =~= sources@.take(i as int));
            assert(sources@.take(i + 1).last() == sources@[i as int]);
            assert(tag_pairs(m.path@, deps_of_files(m.files@, m.path@) + Seq::<Seq<char>>::empty())
                =~= tag_pairs(m.path@, deps_of_files(m.files@, m.path@)));
            assert(deps_of_files(m.files@, m.path@) + Seq::<Seq<char>>::empty() =~= deps_of_files(
                m.files@,
                m.path@,
            ));
        }
        i += 1;
    }
    proof {
        assert(sources@.take(n as int) =~= sources@);
    }
    r
}

/// Whether the pair `(a, b)` occurs among view-level pairs.
pub open spec fn has_pair(ps: Seq<(Seq<char>, Seq<char>)>, a: Seq<char>, b: Seq<char>) -> bool {
    exists|k: int| 0 <= k < ps.len() && ps[k] == (a, b)
}

proof fn lemma_edge_pairs(deps: Seq<(String, String)>, a: Seq<char>, b: Seq<char>)
    ensures
        crate::graph::has_edge(deps, a, b) <==> has_pair(pairs_view(deps), a, b),
{
    if crate::graph::has_edge(deps, a, b) {
        let k = choose|k: int| 0 <= k < deps.len() && deps[k].0@ == a && deps[k].1@ == b;
        assert(pairs_view(deps)[k] == (a, b));
        assert(has_pair(pairs_view(deps), a, b));
    }
    if has_pair(pairs_view(deps), a, b) {
        let k = choose|k: int| 0 <= k < pairs_view(deps).len() && pairs_view(deps)[k] == (a, b);
        assert(deps[k].0@ == a && deps[k].1@ == b);
        assert(crate::graph::has_edge(deps, a, b));
    }
}

/// Builds the whole module graph from discovered module sources: one node
/// per module, classified by its file contents and state-file flag, and the
/// dependency edges its invocation blocks name.  The result is well-formed
/// and symmetric, and an edge stands exactly where a `(module, dependency)`
/// pair was collected from the sources.
pub fn build_module_graph(
    sources: &Vec<ModuleSources>,
    state_flags: &Vec<bool>,
) -> (g: crate::graph::ModuleGraph)
    requires
        sources@.len() == state_flags@.len(),
        forall|i: int, j: int|
            0 <= i < j < sources@.len() ==> (#[trigger] sources@[i]).path@ != (
            #[trigger] sources@[j]).path@,
    ensures
        g.wf(),
        g.symmetric(),
        forall|p: Seq<char>|
            g.has_key(p) <==> exists|i: int| 0 <= i < sources@.len() && (#[trigger] sources@[i]).path@
                == p,
        forall|i: int|
            0 <= i < sources@.len() ==> g.stateful_of((#[trigger] sources@[i]).path@)
                == classify_stateful(sources@[i].files@, state_flags@[i]),
        forall|a: Seq<char>, b: Seq<char>|
            g.has_key(a) ==> (g.depends_of(a).contains(b) <==> has_pair(
                pairs_of_modules(sources@),
                a,
                b,
            )),
        forall|a: Seq<char>, b: Seq<char>|
            g.has_key(b) ==> (g.used_by_of(b).contains(a) <==> has_pair(
                pairs_of_modules(sources@),
                a,
                b,
            )),
{
    let mut g = crate::graph::ModuleGraph::new();
    let n: usize = sources.len();
    let mut i: usize = 0;
    while i < n
        invariant
            n == sources@.len(),
            n == state_flags@.len(),
            i <= n,
            g.wf(),
            forall|i2: int, j2: int|
                0 <= i2 < j2 < sources@.len() ==> (#[trigger] sources@[i2]).path@ != (
                #[trigger] sources@[j2]).path@,
            forall|p: Seq<char>|
                g.has_key(p) <==> exists|k: int| 0 <= k < i && (#[trigger] sources@[k]).path@ == p,
            forall|k: int|
                0 <= k < i ==> g.stateful_of((#[trigger] sources@[k]).path@) == classify_stateful(
                    sources@[k].files@,
                    state_flags@[k],
                ),
            forall|p: Seq<char>|
                g.has_key(p) ==> g.depends_of(p).len() == 0 && g.used_by_of(p).len() == 0,
        decreases n - i,
    {
        let stateful = has_backend_config(&sources[i].files, state_flags[i]);
        proof {
            if g.has_key(sources@[i as int].path@) {
                let k = choose|k: int|
                    0 <= k < i && (#[trigger] sources@[k]).path@ == sources@[i as int].path@;
                assert(false);
            }
        }
        g.insert_module(sources[i].path.clone(), stateful);
        proof {
            assert(g.stateful_of(sources@[i as int].path@) == classify_stateful(
                sources@[i as int].files@,
                state_flags@[i as int],
            ));
            assert(g.depends_of(sources@[i as int].path@).len() == 0);
            assert(g.used_by_of(sources@[i as int].path@).len() == 0);
            assert forall|p: Seq<char>|
                g.has_key(p) <==> exists|k: int|
                    0 <= k < i + 1 && (#[trigger] sources@[k]).path@ == p by {
                if g.has_key(p) {
                    if p == sources@[i as int].path@ {
                        assert(sources@[i as int].path@ == p);
                    }
                }
            }
        }
        i += 1;
    }
    let ghost mid = g;
    let deps = collect_dependencies(sources);
    crate::graph::build_dependency_graph(&mut g, &deps);
    proof {
        assert(g.keys() == mid.keys());
        assert forall|p: Seq<char>|
            g.has_key(p) <==> exists|k: int|
                0 <= k < sources@.len() && (#[trigger] sources@[k]).path@ == p by {
            assert(g.has_key(p) == mid.has_key(p));
        }
        assert forall|k: int|
            0 <= k < sources@.len() implies g.stateful_of((#[trigger] sources@[k]).path@)
            == classify_stateful(sources@[k].files@, state_flags@[k]) by {
            assert(mid.has_key(sources@[k].path@));
        }
        assert forall|a: Seq<char>, b: Seq<char>| g.has_key(a) implies (g.depends_of(a).contains(
            b,
        ) <==> has_pair(pairs_of_modules(sources@), a, b)) by {
            lemma_edge_pairs(deps@, a, b);
        }
        assert forall|a: Seq<char>, b: Seq<char>| g.has_key(b) implies (g.used_by_of(b).contains(
            a,
        ) <==> has_pair(pairs_of_modules(sources@), a, b)) by {
            lemma_edge_pairs(deps@, a, b);
        }
    }
    g
}

} // verus!
