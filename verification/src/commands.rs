//! The decision core of the commands: reading the flag values, narrowing the
//! affected modules by the path argument, choosing the effective parallelism,
//! and deciding whether there is anything to do.  The surrounding program
//! performs the I/O on each side of these decisions.

use vstd::prelude::*;
use crate::changes::{filter_paths, filter_modules_by_path};
use crate::cli::{parse_bool_or, parse_bool_flag, parse_bool_string, ApplyArgs};
use crate::text::{str_eq, strs};

verus! {

/// What an apply run will do, decided from the arguments and the affected
/// modules: the parsed flags, the modules left after the path filter, the
/// effective parallelism, and whether there is any work at all.
pub struct ApplyDecision {
    /// Plan instead of apply (the default unless `--dry-run=false`).
    pub dry_run: bool,
    /// All stateful modules were requested, changes ignored.
    pub all: bool,
    /// Stream command output; forces sequential processing.
    pub watch: bool,
    /// The modules to process, after the path filter.
    pub modules: Vec<String>,
    /// The parallelism handed to the scheduler: 1 under watch, else the
    /// requested count capped at 4.
    pub parallel_limit: usize,
    /// Whether any module is left to process.
    pub proceed: bool,
}

/// The effective parallelism rule: watch mode forces 1; otherwise the
/// requested count, capped at 4.
pub open spec fn effective_parallel(watch: bool, parallel: u32) -> int {
    if watch {
        1
    } else if parallel > 4 {
        4
    } else {
        parallel as int
    }
}

/// Decides an apply run: parses the flags (`--dry-run` defaults to on, and
/// an unreadable value falls back to on), narrows `affected_modules` by the
/// path argument unless it is `.`, and reports whether anything is left.
pub fn execute(args: &ApplyArgs, affected_modules: &Vec<String>) -> (r: ApplyDecision)
    ensures
        r.dry_run == parse_bool_or(args.dry_run@, true),
        r.all == (match args.all {
            Some(v) => parse_bool_or(v@, true),
            None => false,
        }),
        r.watch == (match args.watch {
            Some(v) => parse_bool_or(v@, true),
            None => false,
        }),
        args.path@ == "."@ ==> strs(r.modules@) == strs(affected_modules@),
        args.path@ != "."@ ==> strs(r.modules@) == filter_paths(
            strs(affected_modules@),
            args.path@,
        ),
        r.parallel_limit == effective_parallel(r.watch, args.parallel),
        r.proceed == (r.modules@.len() > 0),
{
    let dry_run = parse_bool_string(args.dry_run.as_str(), true);
    let all = parse_bool_flag(&args.all, true);
    let watch = parse_bool_flag(&args.watch, true);
    let modules: Vec<String> = if str_eq(args.path.as_str(), ".") {
        crate::config::clone_strings(affected_modules)
    } else {
        filter_modules_by_path(affected_modules, args.path.as_str())
    };
    let parallel_limit: usize = if watch {
        1
    } else if args.parallel > 4 {
        4
    } else {
        args.parallel as usize
    };
    let proceed = modules.len() > 0;
    ApplyDecision { dry_run, all, watch, modules, parallel_limit, proceed }
}

/// First-occurrence de-duplication of modules by their directory name, as
/// the scan report lists each module name once.
pub open spec fn dedup_by_name(ms: Seq<Seq<char>>, i: int, seen: Seq<Seq<char>>) -> Seq<Seq<char>>
    decreases ms.len() - i
        when 0 <= i <= ms.len()
{
    if i < 0 || i >= ms.len() {
        Seq::empty()
    } else {
        let name = crate::paths::last_component_by(ms[i], '/');
        if seen.contains(name) {
            dedup_by_name(ms, i + 1, seen)
        } else {
            seq![ms[i]] + dedup_by_name(ms, i + 1, seen.push(name))
        }
    }
}

/// Keeps the first module for each directory name, in order.
pub fn dedup_module_names(modules: &Vec<String>) -> (r: Vec<String>)
    ensures
        strs(r@) == dedup_by_name(strs(modules@), 0, Seq::empty()),
{
    let n: usize = modules.len();
    let mut r: Vec<String> = Vec::new();
    let mut seen: Vec<String> = Vec::new();
    proof {
        assert(strs(seen@) =~= Seq::<Seq<char>>::empty());
    }
    let mut i: usize = 0;
    while i < n
        invariant
            n == modules@.len(),
            i <= n,
            strs(r@) + dedup_by_name(strs(modules@), i as int, strs(seen@)) == dedup_by_name(
                strs(modules@),
                0,
                Seq::empty(),
            ),
        decreases n - i,
    {
        let ghost seen_pre = strs(seen@);
        let ghost r_pre = strs(r@);
        proof {
            assert(strs(modules@)[i as int] == modules@[i as int]@);
        }
        let name = crate::paths::file_name_of(modules[i].as_str());
        if !crate::changes::contains_string(&seen, &name) {
            seen.push(name);
            r.push(modules[i].clone());
            proof {
                assert(strs(seen@) =~= seen_pre.push(
                    crate::paths::last_component_by(modules@[i as int]@, '/'),
                ));
                assert(strs(r@) =~= r_pre.push(modules@[i as int]@));
                assert(r_pre + (seq![strs(modules@)[i as int]] + dedup_by_name(
                    strs(modules@),
                    i + 1,
                    strs(seen@),
                )) =~= strs(r@) + dedup_by_name(strs(modules@), i + 1, strs(seen@)));
            }
        }
        i += 1;
    }
    proof {
        assert(strs(r@) + Seq::<Seq<char>>::empty() =~= strs(r@));
    }
    r
}

} // verus!
