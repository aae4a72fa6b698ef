//! Presentation helpers: compact module paths, workspace names and lists,
//! status lines, and durations.  All of them build their strings by
//! character-level concatenation with exact contracts.

use vstd::prelude::*;
use crate::paths::{is_dir_prefix, split_on};
use crate::text::{
    append_chars, append_str, chars_of, decimal_of, str_eq, string_from_chars,
    strs, subrange_chars, u64_to_string,
};

verus! {

/// A workspace name for display: the name itself, or `default` when absent.
pub open spec fn format_workspace_spec(workspace: Option<&str>) -> Seq<char> {
    match workspace {
        Some(w) => w@,
        None => "default"@,
    }
}

/// Formats a workspace name for display.
pub fn format_workspace(workspace: Option<&str>) -> (r: String)
    ensures
        r@ == format_workspace_spec(workspace),
{
    match workspace {
        Some(w) => w.to_owned(),
        None => String::from_str("default"),
    }
}

/// `w` wrapped in double quotes.
pub open spec fn quoted(w: Seq<char>) -> Seq<char> {
    "\""@ + w + "\""@
}

/// The quoted workspace names joined by `, `.
pub open spec fn quoted_join(ws: Seq<Seq<char>>) -> Seq<char>
    decreases ws.len(),
{
    if ws.len() == 0 {
        Seq::empty()
    } else if ws.len() == 1 {
        quoted(ws[0])
    } else {
        quoted_join(ws.drop_last()) + ", "@ + quoted(ws.last())
    }
}

/// The list display: a bracketed quoted list, truncated after three names
/// with a `(+N more)` tail.  Names are rendered without escaping.
pub open spec fn format_workspace_list_spec(ws: Seq<Seq<char>>) -> Seq<char> {
    if ws.len() <= 3 {
        "["@ + quoted_join(ws) + "]"@
    } else {
        "["@ + quoted_join(ws.take(3)) + "]"@ + " (+"@ + decimal_of((ws.len() - 3) as nat)
            + " more)"@
    }
}

/// Formats a list of workspaces for display, truncated after three names.
pub fn format_workspace_list(workspaces: &Vec<String>) -> (r: String)
    ensures
        r@ == format_workspace_list_spec(strs(workspaces@)),
{
    let n: usize = workspaces.len();
    let shown: usize = if n <= 3 {
        n
    } else {
        3
    };
    let mut out: Vec<char> = Vec::new();
    append_str(&mut out, "[");
    proof {
        assert(out@ =~= "["@ + quoted_join(strs(workspaces@).take(0)));
    }
    let mut i: usize = 0;
    while i < shown
        invariant
            shown <= n == workspaces@.len(),
            i <= shown,
            out@ == "["@ + quoted_join(strs(workspaces@).take(i as int)),
        decreases shown - i,
    {
        if i > 0 {
            append_str(&mut out, ", ");
        }
        append_str(&mut out, "\"");
        append_str(&mut out, workspaces[i].as_str());
        append_str(&mut out, "\"");
        proof {
            let views = strs(workspaces@);
            assert(views.take(i + 1).drop_last() =~= views.take(i as int));
            assert(views.take(i + 1).last() == views[i as int]);
            if i == 0 {
                assert(out@ =~= "["@ + quoted(views[0]));
                assert(quoted_join(views.take(1)) == quoted(views.take(1)[0]));
                assert(views.take(1)[0] == views[0]);
            } else {
                assert(out@ =~= "["@ + (quoted_join(views.take(i as int)) + ", "@ + quoted(
                    views[i as int],
                )));
            }
        }
        i += 1;
    }
    append_str(&mut out, "]");
    if n <= 3 {
        proof {
            assert(strs(workspaces@).take(n as int) =~= strs(workspaces@));
            assert(out@ =~= "["@ + quoted_join(strs(workspaces@)) + "]"@);
        }
        string_from_chars(&out)
    } else {
        append_str(&mut out, " (+");
        let more = u64_to_string((n - 3) as u64);
        append_str(&mut out, more.as_str());
        append_str(&mut out, " more)");
        proof {
            assert(out@ =~= "["@ + quoted_join(strs(workspaces@).take(3)) + "]"@ + " (+"@
                + decimal_of((strs(workspaces@).len() - 3) as nat) + " more)"@);
        }
        string_from_chars(&out)
    }
}

/// The largest offset `<= i` at which `p` occurs in `s`, or `-1`.
pub open spec fn rfind_sub(s: Seq<char>, p: Seq<char>, i: int) -> int
    decreases i + 1
        when i >= -1
{
    if i < 0 {
        -1
    } else if i + p.len() <= s.len() && s.subrange(i, i + p.len()) == p {
        i
    } else {
        rfind_sub(s, p, i - 1)
    }
}

/// Whether `p` occurs in `s` at offset `j`.
fn match_at(s: &Vec<char>, p: &Vec<char>, j: usize) -> (r: bool)
    requires
        j <= s@.len(),
    ensures
        r == (j + p@.len() <= s@.len() && s@.subrange(j as int, j + p@.len()) == p@),
{
    let pn: usize = p.len();
    if s.len() - j < pn {
        return false;
    }
    let mut k: usize = 0;
    while k < pn
        invariant
            pn == p@.len(),
            j + pn <= s@.len(),
            s@.len() <= usize::MAX,
            k <= pn,
            forall|m: int| 0 <= m < k ==> s@[j + m] == p@[m],
        decreases pn - k,
    {
        if s[j + k] != p[k] {
            proof {
                if s@.subrange(j as int, j + p@.len()) == p@ {
                    assert(s@.subrange(j as int, j + p@.len())[k as int] == p@[k as int]);
                }
            }
            return false;
        }
        k += 1;
    }
    proof {
        assert(s@.subrange(j as int, j + p@.len()) =~= p@);
    }
    true
}

/// The last occurrence of `p` in `s`, or `s.len()` when there is none.
fn rfind(s: &Vec<char>, p: &Vec<char>) -> (r: usize)
    ensures
        r <= s@.len(),
        r < s@.len() ==> rfind_sub(s@, p@, s@.len() - 1) == r,
        r == s@.len() ==> rfind_sub(s@, p@, s@.len() - 1) == -1 || (s@.len() == 0 && p@.len()
            == 0),
{
    let n: usize = s.len();
    if n == 0 {
        return 0;
    }
    let mut j: usize = n;
    while j > 0
        invariant
            n == s@.len(),
            j <= n,
            rfind_sub(s@, p@, n - 1) == rfind_sub(s@, p@, j - 1),
        decreases j,
    {
        j -= 1;
        if match_at(s, p, j) {
            return j;
        }
        proof {
            assert(rfind_sub(s@, p@, j as int) == rfind_sub(s@, p@, j - 1));
        }
    }
    n
}

/// The non-empty segments among `parts`.
pub open spec fn ne_segs(parts: Seq<Seq<char>>) -> Seq<Seq<char>>
    decreases parts.len(),
{
    if parts.len() == 0 {
        Seq::empty()
    } else if parts.last().len() > 0 {
        ne_segs(parts.drop_last()).push(parts.last())
    } else {
        ne_segs(parts.drop_last())
    }
}

/// The last three segments joined with `/`.
pub open spec fn last_three(segs: Seq<Seq<char>>) -> Seq<char> {
    segs[segs.len() - 3] + "/"@ + segs[segs.len() - 2] + "/"@ + segs[segs.len() - 1]
}

/// The compact display form of a module path: relative to the working
/// directory when under it; else from the last occurrence of a project
/// indicator (`terraform`, `infrastructure`, `modules`); else the last three
/// path segments when there are more; else the path itself.
pub open spec fn format_module_path_spec(path: Seq<char>, cwd: Seq<char>) -> Seq<char> {
    if cwd == path {
        Seq::empty()
    } else if is_dir_prefix(cwd, path) {
        path.subrange(cwd.len() as int + 1, path.len() as int)
    } else if rfind_sub(path, "terraform"@, path.len() - 1) >= 0 {
        path.subrange(rfind_sub(path, "terraform"@, path.len() - 1), path.len() as int)
    } else if rfind_sub(path, "infrastructure"@, path.len() - 1) >= 0 {
        path.subrange(rfind_sub(path, "infrastructure"@, path.len() - 1), path.len() as int)
    } else if rfind_sub(path, "modules"@, path.len() - 1) >= 0 {
        path.subrange(rfind_sub(path, "modules"@, path.len() - 1), path.len() as int)
    } else if ne_segs(split_on(path, '/')).len() > 3 {
        last_three(ne_segs(split_on(path, '/')))
    } else {
        path
    }
}

/// Compacts an absolute module path for display, relative to `current_dir`.
pub fn format_module_path(path: &str, current_dir: &str) -> (r: String)
    ensures
        r@ == format_module_path_spec(path@, current_dir@),
{
    let pc = chars_of(path);
    if str_eq(path, current_dir) {
        let empty: Vec<char> = Vec::new();
        proof {
            assert(empty@ =~= Seq::<char>::empty());
        }
        return string_from_chars(&empty);
    }
    if crate::paths::is_path_under(path, current_dir) {
        let pn: usize = pc.len();
        proof {
            assert(current_dir@.len() < path@.len());
            assert(path@.len() == pn);
        }
        let cut: usize = current_dir.unicode_len() + 1;
        let rest = subrange_chars(&pc, cut, pc.len());
        return string_from_chars(&rest);
    }
    let ind1 = chars_of("terraform");
    let p1 = rfind(&pc, &ind1);
    if p1 < pc.len() {
        let rest = subrange_chars(&pc, p1, pc.len());
        return string_from_chars(&rest);
    }
    let ind2 = chars_of("infrastructure");
    let p2 = rfind(&pc, &ind2);
    if p2 < pc.len() {
        let rest = subrange_chars(&pc, p2, pc.len());
        return string_from_chars(&rest);
    }
    let ind3 = chars_of("modules");
    let p3 = rfind(&pc, &ind3);
    if p3 < pc.len() {
        let rest = subrange_chars(&pc, p3, pc.len());
        return string_from_chars(&rest);
    }
    let parts = crate::paths::split_on_char(&pc, '/');
    let mut segs: Vec<Vec<char>> = Vec::new();
    let n: usize = parts.len();
    let mut i: usize = 0;
    while i < n
        invariant
            n == parts@.len(),
            i <= n,
            crate::paths::deep(segs@) == ne_segs(crate::paths::deep(parts@).take(i as int)),
        decreases n - i,
    {
        proof {
            assert(crate::paths::deep(parts@).take(i + 1).drop_last() =~= crate::paths::deep(
                parts@,
            ).take(i as int));
            assert(crate::paths::deep(parts@).take(i + 1).last() == parts@[i as int]@);
        }
        if parts[i].len() > 0 {
            segs.push(subrange_chars(&parts[i], 0, parts[i].len()));
            proof {
                assert(parts@[i as int]@.subrange(0, parts@[i as int]@.len() as int) =~= parts@[i
                    as int]@);
                assert(crate::paths::deep(segs@) =~= ne_segs(
                    crate::paths::deep(parts@).take(i as int),
                ).push(parts@[i as int]@));
            }
        }
        i += 1;
    }
    proof {
        assert(crate::paths::deep(parts@).take(n as int) =~= crate::paths::deep(parts@));
    }
    if segs.len() > 3 {
        let m: usize = segs.len();
        let mut out: Vec<char> = Vec::new();
        append_chars(&mut out, &segs[m - 3]);
        append_str(&mut out, "/");
        append_chars(&mut out, &segs[m - 2]);
        append_str(&mut out, "/");
        append_chars(&mut out, &segs[m - 1]);
        proof {
            assert(crate::paths::deep(segs@)[m - 3] == segs@[m - 3]@);
            assert(crate::paths::deep(segs@)[m - 2] == segs@[m - 2]@);
            assert(crate::paths::deep(segs@)[m - 1] == segs@[m - 1]@);
            assert(out@ =~= last_three(crate::paths::deep(segs@)));
        }
        string_from_chars(&out)
    } else {
        path.to_owned()
    }
}

/// The status line of one module: the compact path, the workspace when it is
/// named and not `default`, and the status text.
pub open spec fn format_module_status_spec(
    path: Seq<char>,
    cwd: Seq<char>,
    workspace: Option<&str>,
    status: Seq<char>,
) -> Seq<char> {
    let dp = format_module_path_spec(path, cwd);
    let shown = match workspace {
        Some(w) => w@ != "default"@,
        None => false,
    };
    if shown {
        dp + " ("@ + format_workspace_spec(workspace) + "): "@ + status
    } else {
        dp + ": "@ + status
    }
}

/// One compact status line for module processing.
pub fn format_module_status(
    path: &str,
    current_dir: &str,
    workspace: Option<&str>,
    status: &str,
) -> (r: String)
    ensures
        r@ == format_module_status_spec(path@, current_dir@, workspace, status@),
{
    let dp = format_module_path(path, current_dir);
    let shown: bool = match workspace {
        Some(w) => !str_eq(w, "default"),
        None => false,
    };
    let mut out: Vec<char> = Vec::new();
    append_str(&mut out, dp.as_str());
    if shown {
        append_str(&mut out, " (");
        let ws = format_workspace(workspace);
        append_str(&mut out, ws.as_str());
        append_str(&mut out, "): ");
        append_str(&mut out, status);
        proof {
            assert(out@ =~= format_module_status_spec(path@, current_dir@, workspace, status@));
        }
    } else {
        append_str(&mut out, ": ");
        append_str(&mut out, status);
        proof {
            assert(out@ =~= format_module_status_spec(path@, current_dir@, workspace, status@));
        }
    }
    string_from_chars(&out)
}

/// The duration display: milliseconds below one second, seconds with one
/// (truncated) decimal below one minute, else whole minutes and seconds.
pub open spec fn format_duration_spec(ms: nat) -> Seq<char> {
    if ms < 1000 {
        decimal_of(ms) + "ms"@
    } else if ms < 60000 {
        decimal_of(ms / 1000) + "."@ + decimal_of((ms % 1000) / 100) + "s"@
    } else {
        decimal_of(ms / 60000) + "m "@ + decimal_of((ms / 1000) % 60) + "s"@
    }
}

/// Formats a duration given in milliseconds.
pub fn format_duration(ms: u64) -> (r: String)
    ensures
        r@ == format_duration_spec(ms as nat),
{
    let mut out: Vec<char> = Vec::new();
    if ms < 1000 {
        let d = u64_to_string(ms);
        append_str(&mut out, d.as_str());
        append_str(&mut out, "ms");
        proof {
            assert(out@ =~= format_duration_spec(ms as nat));
        }
    } else if ms < 60000 {
        let secs = u64_to_string(ms / 1000);
        let tenths = u64_to_string((ms % 1000) / 100);
        append_str(&mut out, secs.as_str());
        append_str(&mut out, ".");
        append_str(&mut out, tenths.as_str());
        append_str(&mut out, "s");
        proof {
            assert(out@ =~= format_duration_spec(ms as nat));
        }
    } else {
        let mins = u64_to_string(ms / 60000);
        let secs = u64_to_string((ms / 1000) % 60);
        append_str(&mut out, mins.as_str());
        append_str(&mut out, "m ");
        append_str(&mut out, secs.as_str());
        append_str(&mut out, "s");
        proof {
            assert(out@ =~= format_duration_spec(ms as nat));
        }
    }
    string_from_chars(&out)
}

} // verus!
