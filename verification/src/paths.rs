//! Lexical path arithmetic over `/`-separated absolute paths.
//!
//! Module identity in the graph is a canonical absolute directory path, so
//! joining and normalizing paths is plain string work: splitting on `/`,
//! folding `.`/`..`/empty segments through a stack, and rendering the result.
//! Symbolic links are not resolved; callers that need that hand the library
//! already-canonical paths.

use vstd::prelude::*;
use crate::text::{
    lemma_find_char_bound,
    append_chars, append_str, chars_of, find_char, index_of_char, seq_starts_with,
    string_from_chars, subrange_chars,
};

verus! {

/// Splits `s` on the separator `c`; the result always has at least one part.
pub open spec fn split_on(s: Seq<char>, c: char) -> Seq<Seq<char>>
    decreases s.len(),
{
    let i = find_char(s, c);
    if 0 <= i < s.len() {
        seq![s.subrange(0, i)] + split_on(s.subrange(i + 1, s.len() as int), c)
    } else {
        seq![s]
    }
}

/// Folds path segments left to right: empty and `.` segments vanish, `..`
/// pops the previous segment (at the root it is ignored), anything else is
/// kept.
pub open spec fn norm_stack(segs: Seq<Seq<char>>) -> Seq<Seq<char>>
    decreases segs.len(),
{
    if segs.len() == 0 {
        Seq::empty()
    } else {
        let pre = norm_stack(segs.drop_last());
        let last = segs.last();
        if last =~= Seq::<char>::empty() || last =~= seq!['.'] {
            pre
        } else if last =~= seq!['.', '.'] {
            if pre.len() > 0 {
                pre.drop_last()
            } else {
                pre
            }
        } else {
            pre.push(last)
        }
    }
}

/// Renders segments as `/seg/seg/...`; no segments render as `/`.
pub open spec fn render_parts(segs: Seq<Seq<char>>) -> Seq<char>
    decreases segs.len(),
{
    if segs.len() == 0 {
        Seq::empty()
    } else {
        render_parts(segs.drop_last()) + seq!['/'] + segs.last()
    }
}

pub open spec fn render_abs(segs: Seq<Seq<char>>) -> Seq<char> {
    if segs.len() == 0 {
        seq!['/']
    } else {
        render_parts(segs)
    }
}

pub open spec fn is_absolute_path(p: Seq<char>) -> bool {
    p.len() > 0 && p[0] == '/'
}

/// Lexical normalization of an absolute path.
pub open spec fn normalize_abs(p: Seq<char>) -> Seq<char> {
    render_abs(norm_stack(split_on(p, '/')))
}

/// The normalized absolute path named by `src` relative to the directory
/// `dir`: `src` itself when absolute, else `dir/src`.
pub open spec fn join_path_spec(dir: Seq<char>, src: Seq<char>) -> Seq<char> {
    if is_absolute_path(src) {
        normalize_abs(src)
    } else {
        normalize_abs(dir + seq!['/'] + src)
    }
}

/// `dir` is `file` itself or a directory above it.
pub open spec fn is_dir_prefix(dir: Seq<char>, file: Seq<char>) -> bool {
    dir == file || (seq_starts_with(file, dir) && dir.len() < file.len() && file[dir.len() as int]
        == '/')
}

/// The view of each character vector in `v`.
pub open spec fn deep(v: Seq<Vec<char>>) -> Seq<Seq<char>> {
    v.map_values(|x: Vec<char>| x@)
}

/// Splits a character vector on the separator `c`.
pub fn split_on_char(s: &Vec<char>, c: char) -> (parts: Vec<Vec<char>>)
    ensures
        deep(parts@) == split_on(s@, c),
{
    let n: usize = s.len();
    let mut parts: Vec<Vec<char>> = Vec::new();
    let mut start: usize = 0;
    proof {
        assert(s@.subrange(0, n as int) =~= s@);
        assert(deep(parts@) + split_on(s@, c) =~= split_on(s@, c));
    }
    loop
        invariant
            start <= n,
            n == s@.len(),
            s@.len() <= usize::MAX,
            deep(parts@) + split_on(s@.subrange(start as int, n as int), c) == split_on(s@, c),
        decreases n - start,
    {
        let rest = subrange_chars(s, start, n);
        let i = index_of_char(&rest, c);
        if i == rest.len() {
            parts.push(rest);
            proof {
                assert(deep(parts@) =~= deep(parts@.drop_last()).push(s@.subrange(
                    start as int,
                    n as int,
                )));
                assert(split_on(s@.subrange(start as int, n as int), c) == seq![
                    s@.subrange(start as int, n as int),
                ]);
                assert(deep(parts@) =~= split_on(s@, c));
            }
            return parts;
        }
        let part = subrange_chars(&rest, 0, i);
        parts.push(part);
        proof {
            let restv = s@.subrange(start as int, n as int);
            assert(split_on(restv, c) == seq![restv.subrange(0, i as int)] + split_on(
                restv.subrange(i + 1, restv.len() as int),
                c,
            ));
            assert(restv.subrange(i + 1, restv.len() as int) =~= s@.subrange(
                start + i + 1,
                n as int,
            ));
            assert(deep(parts@) =~= deep(parts@.drop_last()).push(restv.subrange(0, i as int)));
            assert(deep(parts@) + split_on(s@.subrange(start + i + 1, n as int), c) =~= deep(
                parts@.drop_last(),
            ) + split_on(restv, c));
        }
        start = start + i + 1;
    }
}

fn seg_is_empty(s: &Vec<char>) -> (r: bool)
    ensures
        r == (s@ =~= Seq::<char>::empty()),
{
    let r = s.len() == 0;
    proof {
        if s@.len() == 0 {
            assert(s@ =~= Seq::<char>::empty());
        }
    }
    r
}

fn seg_is_dot(s: &Vec<char>) -> (r: bool)
    ensures
        r == (s@ =~= seq!['.']),
{
    if s.len() == 1 && s[0] == '.' {
        proof {
            assert(s@ =~= seq!['.']);
        }
        true
    } else {
        false
    }
}

fn seg_is_dotdot(s: &Vec<char>) -> (r: bool)
    ensures
        r == (s@ =~= seq!['.', '.']),
{
    if s.len() == 2 && s[0] == '.' && s[1] == '.' {
        proof {
            assert(s@ =~= seq!['.', '.']);
        }
        true
    } else {
        false
    }
}

/// Applies [`norm_stack`] to a segment list.
pub fn normalize_segments(parts: &Vec<Vec<char>>) -> (stack: Vec<Vec<char>>)
    ensures
        deep(stack@) == norm_stack(deep(parts@)),
{
    let n: usize = parts.len();
    let mut stack: Vec<Vec<char>> = Vec::new();
    let mut i: usize = 0;
    while i < n
        invariant
            n == parts@.len(),
            i <= n,
            deep(stack@) == norm_stack(deep(parts@).take(i as int)),
        decreases n - i,
    {
        proof {
            assert(deep(parts@).take(i + 1).drop_last() =~= deep(parts@).take(i as int));
            assert(deep(parts@).take(i + 1).last() == parts@[i as int]@);
        }
        let seg = &parts[i];
        if seg_is_empty(seg) || seg_is_dot(seg) {
        } else if seg_is_dotdot(seg) {
            if stack.len() > 0 {
                stack.pop();
                proof {
                    assert(deep(stack@) =~= norm_stack(deep(parts@).take(i as int)).drop_last());
                }
            }
        } else {
            stack.push(subrange_chars(seg, 0, seg.len()));
            proof {
                assert(parts@[i as int]@.subrange(0, parts@[i as int]@.len() as int) =~= parts@[i
                    as int]@);
                assert(deep(stack@) =~= norm_stack(deep(parts@).take(i as int)).push(parts@[i
                    as int]@));
            }
        }
        i += 1;
    }
    proof {
        assert(deep(parts@).take(n as int) =~= deep(parts@));
    }
    stack
}

/// Renders a normalized segment stack as an absolute path.
pub fn render_abs_path(segs: &Vec<Vec<char>>) -> (r: Vec<char>)
    ensures
        r@ == render_abs(deep(segs@)),
{
    let n: usize = segs.len();
    if n == 0 {
        let mut r: Vec<char> = Vec::new();
        r.push('/');
        proof {
            assert(r@ =~= seq!['/']);
        }
        return r;
    }
    let mut r: Vec<char> = Vec::new();
    let mut i: usize = 0;
    while i < n
        invariant
            n == segs@.len(),
            i <= n,
            r@ == render_parts(deep(segs@).take(i as int)),
        decreases n - i,
    {
        r.push('/');
        append_chars(&mut r, &segs[i]);
        proof {
            assert(deep(segs@).take(i + 1).drop_last() =~= deep(segs@).take(i as int));
            assert(r@ =~= render_parts(deep(segs@).take(i as int)) + seq!['/'] + deep(segs@).take(
                i + 1,
            ).last());
        }
        i += 1;
    }
    proof {
        assert(deep(segs@).take(n as int) =~= deep(segs@));
    }
    r
}

/// Lexically normalizes the character vector of an absolute path.
pub fn normalize_path_chars(p: &Vec<char>) -> (r: Vec<char>)
    ensures
        r@ == normalize_abs(p@),
{
    let parts = split_on_char(p, '/');
    let stack = normalize_segments(&parts);
    render_abs_path(&stack)
}

/// Resolves `src` against the directory `dir` and normalizes the result.
pub fn join_path(dir: &str, src: &Vec<char>) -> (r: String)
    ensures
        r@ == join_path_spec(dir@, src@),
{
    let absolute: bool = src.len() > 0 && src[0] == '/';
    if absolute {
        let out = normalize_path_chars(src);
        string_from_chars(&out)
    } else {
        let mut joined: Vec<char> = Vec::new();
        append_str(&mut joined, dir);
        joined.push('/');
        append_chars(&mut joined, src);
        proof {
            assert(joined@ =~= dir@ + seq!['/'] + src@);
        }
        let out = normalize_path_chars(&joined);
        string_from_chars(&out)
    }
}

/// Whether `file` lies in the directory `dir` (or is `dir` itself).
pub fn is_path_under(file: &str, dir: &str) -> (r: bool)
    ensures
        r == is_dir_prefix(dir@, file@),
{
    let fc = chars_of(file);
    let dc = chars_of(dir);
    if fc.len() == dc.len() {
        let e = crate::text::str_eq(file, dir);
        if e {
            return true;
        }
        proof {
            if seq_starts_with(file@, dir@) && dir@.len() < file@.len() {
                assert(false);
            }
        }
        return false;
    }
    if dc.len() < fc.len() {
        if crate::text::starts_with_chars(&fc, &dc) {
            if fc[dc.len()] == '/' {
                return true;
            }
        }
        return false;
    }
    proof {
        assert(!seq_starts_with(file@, dir@));
    }
    false
}

proof fn lemma_split_on_nonempty(s: Seq<char>, c: char)
    ensures
        split_on(s, c).len() >= 1,
        split_on(s, c).last() == last_component_by(s, c),
    decreases s.len(),
{
    crate::text::lemma_find_char_bound(s, c);
    let i = find_char(s, c);
    if i != s.len() {
        lemma_split_on_nonempty(s.subrange(i + 1, s.len() as int), c);
    }
}

/// The final component of `p` when split on `c`.
pub open spec fn last_component_by(p: Seq<char>, c: char) -> Seq<char>
    decreases p.len(),
{
    let i = find_char(p, c);
    if 0 <= i < p.len() {
        last_component_by(p.subrange(i + 1, p.len() as int), c)
    } else {
        p
    }
}

/// The file (or directory) name of a path: everything after the last `/`.
pub fn file_name_of(path: &str) -> (r: String)
    ensures
        r@ == last_component_by(path@, '/'),
{
    let cs = chars_of(path);
    let parts = split_on_char(&cs, '/');
    proof {
        lemma_split_on_nonempty(path@, '/');
        assert(deep(parts@).last() == parts@.last()@);
    }
    let last = &parts[parts.len() - 1];
    string_from_chars(last)
}

} // verus!
