//! Configuration data: per-workspace variable-file maps, global and
//! per-module settings, the configuration-file search order and format
//! detection, and validation of a loaded configuration.
//!
//! Maps are association lists looked up by first match; an insert prepends,
//! so the newest binding wins, matching replace-on-insert semantics.

use vstd::prelude::*;
use vstd::string::StrSliceExecFns;
use crate::paths::is_absolute_path;
use crate::text::{
    append_str, chars_of, ends_with_chars, find_char, index_of_char, seq_ends_with,
    seq_starts_with, starts_with_chars, str_eq, string_from_chars, strs, subrange_chars,
    trim_chars, trim_spec,
};

verus! {

// ---------------------------------------------------------------------------
// Workspace -> variable files map.
// ---------------------------------------------------------------------------
/// Mapping of workspace names to their specific variable files.
pub struct WorkspaceVarFiles {
    pub workspaces: Vec<(String, Vec<String>)>,
}

/// First-match lookup in a workspace map, from index `i` on.
pub open spec fn ws_lookup_from(
    es: Seq<(String, Vec<String>)>,
    i: int,
    w: Seq<char>,
) -> Option<Seq<Seq<char>>>
    decreases es.len() - i
        when 0 <= i <= es.len()
{
    if i < 0 || i >= es.len() {
        None::<Seq<Seq<char>>>
    } else if es[i].0@ == w {
        Some(strs(es[i].1@))
    } else {
        ws_lookup_from(es, i + 1, w)
    }
}

/// The variable files bound to workspace `w`, if any.
pub open spec fn ws_lookup(es: Seq<(String, Vec<String>)>, w: Seq<char>) -> Option<Seq<Seq<char>>> {
    ws_lookup_from(es, 0, w)
}

proof fn lemma_ws_lookup_shift(
    es: Seq<(String, Vec<String>)>,
    x: (String, Vec<String>),
    i: int,
    w: Seq<char>,
)
    requires
        0 <= i <= es.len(),
    ensures
        ws_lookup_from(seq![x] + es, i + 1, w) == ws_lookup_from(es, i, w),
    decreases es.len() - i,
{
    let es2 = seq![x] + es;
    assert(es2[i + 1] == es[i] || i == es.len());
    if i < es.len() {
        lemma_ws_lookup_shift(es, x, i + 1, w);
    }
}

impl WorkspaceVarFiles {
    /// An empty map.
    pub fn new() -> (r: WorkspaceVarFiles)
        ensures
            r.workspaces@.len() == 0,
            forall|w: Seq<char>| ws_lookup(r.workspaces@, w) is None,
    {
        WorkspaceVarFiles { workspaces: Vec::new() }
    }

    /// Binds `workspace` to `files`; an existing binding is shadowed.
    pub fn insert(&mut self, workspace: String, files: Vec<String>)
        ensures
            forall|w: Seq<char>|
                #[trigger] ws_lookup(final(self).workspaces@, w) == if w == workspace@ {
                    Some(strs(files@))
                } else {
                    ws_lookup(old(self).workspaces@, w)
                },
    {
        let ghost pre = self.workspaces@;
        let ghost pair = (workspace, files);
        self.workspaces.insert(0, (workspace, files));
        proof {
            assert(self.workspaces@ =~= seq![pair] + pre);
            assert forall|w: Seq<char>|
                #[trigger] ws_lookup(self.workspaces@, w) == if w == pair.0@ {
                    Some(strs(pair.1@))
                } else {
                    ws_lookup(pre, w)
                } by {
                if w != pair.0@ {
                    lemma_ws_lookup_shift(pre, pair, 0, w);
                }
            }
        }
    }

    /// The variable files for a specific workspace, empty when unbound.
    pub fn get_workspace_files(&self, workspace: &str) -> (r: Vec<String>)
        ensures
            strs(r@) == match ws_lookup(self.workspaces@, workspace@) {
                Some(fs) => fs,
                None => Seq::<Seq<char>>::empty(),
            },
    {
        let n: usize = self.workspaces.len();
        let mut i: usize = 0;
        while i < n
            invariant
                n == self.workspaces@.len(),
                i <= n,
                ws_lookup_from(self.workspaces@, i as int, workspace@) == ws_lookup(
                    self.workspaces@,
                    workspace@,
                ),
            decreases n - i,
        {
            if str_eq(self.workspaces[i].0.as_str(), workspace) {
                let r = clone_strings(&self.workspaces[i].1);
                return r;
            }
            i += 1;
        }
        let r: Vec<String> = Vec::new();
        proof {
            assert(strs(r@) =~= Seq::<Seq<char>>::empty());
        }
        r
    }

    /// Whether a workspace has specific variable files.
    pub fn has_workspace(&self, workspace: &str) -> (r: bool)
        ensures
            r == (ws_lookup(self.workspaces@, workspace@) is Some),
    {
        let n: usize = self.workspaces.len();
        let mut i: usize = 0;
        while i < n
            invariant
                n == self.workspaces@.len(),
                i <= n,
                ws_lookup_from(self.workspaces@, i as int, workspace@) == ws_lookup(
                    self.workspaces@,
                    workspace@,
                ),
            decreases n - i,
        {
            if str_eq(self.workspaces[i].0.as_str(), workspace) {
                return true;
            }
            i += 1;
        }
        false
    }
}

/// A copy of a string vector with the same contents.
pub fn clone_strings(v: &Vec<String>) -> (r: Vec<String>)
    ensures
        r@ == v@,
{
    let n: usize = v.len();
    let mut r: Vec<String> = Vec::new();
    let mut i: usize = 0;
    while i < n
        invariant
            n == v@.len(),
            i <= n,
            r@ == v@.take(i as int),
        decreases n - i,
    {
        r.push(v[i].clone());
        proof {
            assert(v@.take(i + 1) =~= v@.take(i as int).push(v@[i as int]));
        }
        i += 1;
    }
    proof {
        assert(v@.take(n as int) =~= v@);
    }
    r
}

// ---------------------------------------------------------------------------
// Global and per-module settings.
// ---------------------------------------------------------------------------
/// Settings applied to all modules.
pub struct GlobalConfig {
    /// Workspaces to ignore globally.
    pub ignore_workspaces: Vec<String>,
    /// Variable files applied to every module.
    pub var_files: Vec<String>,
    /// Global workspace variable-file mappings.
    pub workspace_var_files: Option<WorkspaceVarFiles>,
}

/// Settings for one module.
pub struct ModuleConfig {
    /// Workspaces to ignore for this module.
    pub ignore_workspaces: Vec<String>,
    /// Variable files for this module.
    pub var_files: Vec<String>,
    /// Module-specific workspace variable-file mappings.
    pub workspace_var_files: Option<WorkspaceVarFiles>,
}

impl GlobalConfig {
    /// A configuration with nothing set.
    pub fn empty() -> (r: GlobalConfig)
        ensures
            r.ignore_workspaces@.len() == 0,
            r.var_files@.len() == 0,
            r.workspace_var_files is None,
    {
        GlobalConfig {
            ignore_workspaces: Vec::new(),
            var_files: Vec::new(),
            workspace_var_files: None,
        }
    }
}

impl ModuleConfig {
    /// A configuration with nothing set.
    pub fn empty() -> (r: ModuleConfig)
        ensures
            r.ignore_workspaces@.len() == 0,
            r.var_files@.len() == 0,
            r.workspace_var_files is None,
    {
        ModuleConfig {
            ignore_workspaces: Vec::new(),
            var_files: Vec::new(),
            workspace_var_files: None,
        }
    }
}

/// First-match lookup in the module-configuration map, from index `i` on;
/// the result is the index of the binding.
pub open spec fn mc_lookup_from(es: Seq<(String, ModuleConfig)>, i: int, m: Seq<char>) -> Option<
    int,
>
    decreases es.len() - i
        when 0 <= i <= es.len()
{
    if i < 0 || i >= es.len() {
        None::<int>
    } else if es[i].0@ == m {
        Some(i)
    } else {
        mc_lookup_from(es, i + 1, m)
    }
}

pub open spec fn mc_lookup(es: Seq<(String, ModuleConfig)>, m: Seq<char>) -> Option<int> {
    mc_lookup_from(es, 0, m)
}

proof fn lemma_mc_lookup_shift(
    es: Seq<(String, ModuleConfig)>,
    x: (String, ModuleConfig),
    i: int,
    m: Seq<char>,
)
    requires
        0 <= i <= es.len(),
    ensures
        shifted_index(mc_lookup_from(seq![x] + es, i + 1, m)) == mc_lookup_from(es, i, m),
    decreases es.len() - i,
{
    let es2 = seq![x] + es;
    assert(es2[i + 1] == es[i] || i == es.len());
    if i < es.len() {
        lemma_mc_lookup_shift(es, x, i + 1, m);
    }
}

/// Shifts a found index down by one (for reasoning about a prepended entry).
pub open spec fn shifted_index(r: Option<int>) -> Option<int> {
    match r {
        Some(i) => Some(i - 1),
        None => None::<int>,
    }
}

/// The root configuration: global settings and per-module settings.
pub struct SolarboatConfig {
    /// Global configuration settings.
    pub global: GlobalConfig,
    /// Module-specific configurations, keyed by module path.
    pub modules: Vec<(String, ModuleConfig)>,
}

impl SolarboatConfig {
    /// A configuration with nothing set.
    pub fn empty() -> (r: SolarboatConfig)
        ensures
            r.global.ignore_workspaces@.len() == 0,
            r.global.var_files@.len() == 0,
            r.global.workspace_var_files is None,
            r.modules@.len() == 0,
    {
        SolarboatConfig { global: GlobalConfig::empty(), modules: Vec::new() }
    }

    /// Binds module `path` to `config`; an existing binding is shadowed.
    pub fn insert_module(&mut self, path: String, config: ModuleConfig)
        ensures
            final(self).global == old(self).global,
            final(self).modules@ == seq![(path, config)] + old(self).modules@,
            forall|m: Seq<char>|
                #[trigger] mc_lookup(final(self).modules@, m) == if m == path@ {
                    Some(0int)
                } else {
                    match mc_lookup(old(self).modules@, m) {
                        Some(i) => Some(i + 1),
                        None => None::<int>,
                    }
                },
    {
        let ghost pre = self.modules@;
        let ghost pair = (path, config);
        self.modules.insert(0, (path, config));
        proof {
            assert(self.modules@ =~= seq![pair] + pre);
            assert forall|m: Seq<char>|
                #[trigger] mc_lookup(self.modules@, m) == if m == pair.0@ {
                    Some(0int)
                } else {
                    match mc_lookup(pre, m) {
                        Some(i) => Some(i + 1),
                        None => None::<int>,
                    }
                } by {
                if m != pair.0@ {
                    lemma_mc_lookup_shift(pre, pair, 0, m);
                }
            }
        }
    }

    /// The configuration of module `m`, if one is bound.
    pub fn module_config(&self, m: &str) -> (r: Option<&ModuleConfig>)
        ensures
            match r {
                Some(c) => mc_lookup(self.modules@, m@) is Some && *c == self.modules@[mc_lookup(
                    self.modules@,
                    m@,
                )->0].1,
                None => mc_lookup(self.modules@, m@) is None,
            },
    {
        let n: usize = self.modules.len();
        let mut i: usize = 0;
        while i < n
            invariant
                n == self.modules@.len(),
                i <= n,
                mc_lookup_from(self.modules@, i as int, m@) == mc_lookup(self.modules@, m@),
            decreases n - i,
        {
            if str_eq(self.modules[i].0.as_str(), m) {
                return Some(&self.modules[i].1);
            }
            i += 1;
        }
        None
    }
}

// ---------------------------------------------------------------------------
// Configuration file discovery and validation.
// ---------------------------------------------------------------------------
/// Loader for configuration files: holds the directory searched, and decides
/// the search order, the format, and the validation warnings.  Reading the
/// files themselves is its caller's job; existence information comes in as
/// plain values.
pub struct ConfigLoader {
    /// The directory where configuration files are searched.
    pub search_dir: String,
}

/// The fixed configuration file names, in search order.
pub open spec fn default_config_names() -> Seq<Seq<char>> {
    seq!["solarboat.json"@, "solarboat.yml"@, "solarboat.yaml"@]
}

/// The environment-specific names for environment `e`.
pub open spec fn env_config_names(e: Seq<char>) -> Seq<Seq<char>> {
    seq![
        "solarboat."@ + e + ".json"@,
        "solarboat."@ + e + ".yml"@,
        "solarboat."@ + e + ".yaml"@,
    ]
}

/// The search order given the optional environment-name override: with a
/// non-blank environment, its specific names come first.
pub open spec fn search_order_spec(env: Option<Seq<char>>) -> Seq<Seq<char>> {
    match env {
        Some(e) => if trim_spec(e).len() > 0 {
            env_config_names(e) + default_config_names()
        } else {
            default_config_names()
        },
        None => default_config_names(),
    }
}

/// Index of the first `true` in `ex`, from `i` on (or `ex.len()`).
pub open spec fn first_true_from(ex: Seq<bool>, i: int) -> int
    decreases ex.len() - i
        when 0 <= i <= ex.len()
{
    if i < 0 || i >= ex.len() {
        ex.len() as int
    } else if ex[i] {
        i
    } else {
        first_true_from(ex, i + 1)
    }
}

/// `file` joined onto `dir` the way a path join works: an absolute `file`
/// stands alone; otherwise a single separator is placed between the parts.
pub open spec fn plain_join(dir: Seq<char>, file: Seq<char>) -> Seq<char> {
    if is_absolute_path(file) {
        file
    } else if dir.len() == 0 {
        file
    } else if dir[dir.len() - 1] == '/' {
        dir + file
    } else {
        dir + seq!['/'] + file
    }
}

/// Joins `file` onto `dir` as [`plain_join`] says.
pub fn join_under(dir: &str, file: &str) -> (r: String)
    ensures
        r@ == plain_join(dir@, file@),
{
    let fc = chars_of(file);
    let absolute: bool = fc.len() > 0 && fc[0] == '/';
    if absolute {
        let mut out: Vec<char> = Vec::new();
        crate::text::append_chars(&mut out, &fc);
        proof {
            assert(out@ =~= file@);
        }
        return string_from_chars(&out);
    }
    let dc = chars_of(dir);
    let mut out: Vec<char> = Vec::new();
    crate::text::append_chars(&mut out, &dc);
    if dc.len() == 0 {
        crate::text::append_chars(&mut out, &fc);
        proof {
            assert(out@ =~= file@);
        }
        return string_from_chars(&out);
    }
    if dc[dc.len() - 1] != '/' {
        out.push('/');
    }
    crate::text::append_chars(&mut out, &fc);
    proof {
        if dir@[dir@.len() - 1] == '/' {
            assert(out@ =~= dir@ + file@);
        } else {
            assert(out@ =~= dir@ + seq!['/'] + file@);
        }
    }
    string_from_chars(&out)
}

/// The configuration format, decided by file extension, else by content.
#[derive(PartialEq, Eq, Structural, Clone, Copy, Debug)]
pub enum ConfigFormat {
    Json,
    Yaml,
}

/// The format rule: a `.json` path parses as JSON, `.yml`/`.yaml` as YAML;
/// any other name goes by content, JSON when it starts with `{`.
pub open spec fn config_format_spec(path: Seq<char>, content: Seq<char>) -> ConfigFormat {
    if seq_ends_with(path, ".json"@) {
        ConfigFormat::Json
    } else if seq_ends_with(path, ".yml"@) || seq_ends_with(path, ".yaml"@) {
        ConfigFormat::Yaml
    } else if seq_starts_with(trim_spec(content), "{"@) {
        ConfigFormat::Json
    } else {
        ConfigFormat::Yaml
    }
}

/// Decides how a configuration file's text is to be parsed.
pub fn config_format(path: &str, content: &str) -> (r: ConfigFormat)
    ensures
        r == config_format_spec(path@, content@),
{
    let pc = chars_of(path);
    if ends_with_chars(&pc, &chars_of(".json")) {
        return ConfigFormat::Json;
    }
    if ends_with_chars(&pc, &chars_of(".yml")) || ends_with_chars(&pc, &chars_of(".yaml")) {
        return ConfigFormat::Yaml;
    }
    let cc = chars_of(content);
    let t = trim_chars(&cc);
    if starts_with_chars(&t, &chars_of("{")) {
        ConfigFormat::Json
    } else {
        ConfigFormat::Yaml
    }
}

impl ConfigLoader {
    /// A loader that searches `search_dir`.
    pub fn new(search_dir: String) -> (r: ConfigLoader)
        ensures
            r.search_dir == search_dir,
    {
        ConfigLoader { search_dir }
    }

    /// The configuration file names to try, in order, given the optional
    /// environment-name override.
    pub fn config_search_order(&self, env: Option<&String>) -> (r: Vec<String>)
        ensures
            strs(r@) == search_order_spec(
                match env {
                    Some(e) => Some(e@),
                    None => None::<Seq<char>>,
                },
            ),
    {
        let mut names: Vec<String> = Vec::new();
        match env {
            Some(e) => {
                let ec = chars_of(e.as_str());
                let t = trim_chars(&ec);
                if t.len() > 0 {
                    let mut a: Vec<char> = Vec::new();
                    append_str(&mut a, "solarboat.");
                    crate::text::append_chars(&mut a, &ec);
                    let mut aj = a.clone();
                    let mut ay = a.clone();
                    let mut al = a.clone();
                    proof {
                        assert(aj@ == a@ && ay@ == a@ && al@ == a@);
                    }
                    append_str(&mut aj, ".json");
                    append_str(&mut ay, ".yml");
                    append_str(&mut al, ".yaml");
                    names.push(string_from_chars(&aj));
                    names.push(string_from_chars(&ay));
                    names.push(string_from_chars(&al));
                    proof {
                        assert(aj@ =~= "solarboat."@ + e@ + ".json"@);
                        assert(ay@ =~= "solarboat."@ + e@ + ".yml"@);
                        assert(al@ =~= "solarboat."@ + e@ + ".yaml"@);
                        assert(strs(names@) =~= env_config_names(e@));
                    }
                }
            },
            None => {},
        }
        let ghost base = strs(names@);
        names.push(String::from_str("solarboat.json"));
        names.push(String::from_str("solarboat.yml"));
        names.push(String::from_str("solarboat.yaml"));
        proof {
            assert(strs(names@) =~= base + default_config_names());
            match env {
                Some(e) => {
                    if trim_spec(e@).len() > 0 {
                        assert(strs(names@) =~= env_config_names(e@) + default_config_names());
                    } else {
                        assert(base =~= Seq::<Seq<char>>::empty());
                        assert(strs(names@) =~= default_config_names());
                    }
                },
                None => {
                    assert(base =~= Seq::<Seq<char>>::empty());
                    assert(strs(names@) =~= default_config_names());
                },
            }
        }
        names
    }

    /// The first name marked present, joined under the search directory;
    /// `None` when none exists.  `exists` holds one flag per name.
    pub fn find_config_file(&self, names: &Vec<String>, exists: &Vec<bool>) -> (r: Option<String>)
        requires
            names@.len() == exists@.len(),
        ensures
            match r {
                Some(p) => first_true_from(exists@, 0) < exists@.len() && p@ == plain_join(
                    self.search_dir@,
                    names@[first_true_from(exists@, 0)]@,
                ),
                None => first_true_from(exists@, 0) == exists@.len(),
            },
    {
        let n: usize = names.len();
        let mut i: usize = 0;
        while i < n
            invariant
                n == names@.len(),
                n == exists@.len(),
                i <= n,
                first_true_from(exists@, i as int) == first_true_from(exists@, 0),
            decreases n - i,
        {
            if exists[i] {
                let p = join_under(self.search_dir.as_str(), names[i].as_str());
                return Some(p);
            }
            i += 1;
        }
        None
    }

    /// The message recorded for a missing variable file.
    pub open spec fn missing_var_file_msg(f: Seq<char>, context: Seq<char>, checked: Seq<char>) -> Seq<
        char,
    > {
        "Var file '"@ + f + "' for "@ + context + " does not exist (checked: "@ + checked + ")"@
    }

    /// The module path quoted inside a validation context string: the text
    /// between its first two single quotes, or empty.
    pub open spec fn quoted_module(context: Seq<char>) -> Seq<char> {
        let i1 = find_char(context, '\'');
        if i1 == context.len() {
            Seq::empty()
        } else {
            let rest = context.subrange(i1 + 1, context.len() as int);
            let i2 = find_char(rest, '\'');
            if i2 == rest.len() {
                Seq::empty()
            } else {
                rest.subrange(0, i2)
            }
        }
    }

    /// The path at which a variable file is checked: the file itself when
    /// absolute; under the named module's directory for a module context;
    /// else under the search directory.
    pub open spec fn checked_path_spec(
        search_dir: Seq<char>,
        f: Seq<char>,
        context: Seq<char>,
    ) -> Seq<char> {
        if is_absolute_path(f) {
            f
        } else if seq_starts_with(context, "module"@) {
            plain_join(plain_join(search_dir, Self::quoted_module(context)), f)
        } else {
            plain_join(search_dir, f)
        }
    }

    /// The warnings added by checking `var_files` (with `exists` flags) in a
    /// given context, from index `i` on.
    pub open spec fn var_file_warnings(
        search_dir: Seq<char>,
        fs: Seq<Seq<char>>,
        exists: Seq<bool>,
        context: Seq<char>,
        i: int,
        acc: Seq<Seq<char>>,
    ) -> Seq<Seq<char>>
        decreases fs.len() - i
            when 0 <= i <= fs.len() && fs.len() == exists.len()
    {
        if i < 0 || i >= fs.len() {
            acc
        } else {
            let acc2 = if !exists[i] {
                acc.push(
                    Self::missing_var_file_msg(
                        fs[i],
                        context,
                        Self::checked_path_spec(search_dir, fs[i], context),
                    ),
                )
            } else {
                acc
            };
            Self::var_file_warnings(search_dir, fs, exists, context, i + 1, acc2)
        }
    }

    /// The path at which a variable file would be checked for existence.
    pub fn checked_path(&self, f: &String, context: &str) -> (r: String)
        ensures
            r@ == Self::checked_path_spec(self.search_dir@, f@, context@),
    {
        let fc = chars_of(f.as_str());
        let absolute: bool = fc.len() > 0 && fc[0] == '/';
        if absolute {
            return f.clone();
        }
        let cc = chars_of(context);
        if starts_with_chars(&cc, &chars_of("module")) {
            let i1 = index_of_char(&cc, '\'');
            if i1 < cc.len() {
                let rest = subrange_chars(&cc, i1 + 1, cc.len());
                let i2 = index_of_char(&rest, '\'');
                if i2 < rest.len() {
                    let quoted = subrange_chars(&rest, 0, i2);
                    let module_dir = join_under(
                        self.search_dir.as_str(),
                        string_from_chars(&quoted).as_str(),
                    );
                    return join_under(module_dir.as_str(), f.as_str());
                }
                let empty_mod: Vec<char> = Vec::new();
                let module_dir = join_under(
                    self.search_dir.as_str(),
                    string_from_chars(&empty_mod).as_str(),
                );
                proof {
                    assert(Self::quoted_module(context@) =~= Seq::<char>::empty());
                    assert(empty_mod@ =~= Seq::<char>::empty());
                }
                return join_under(module_dir.as_str(), f.as_str());
            }
            let empty_mod: Vec<char> = Vec::new();
            let module_dir = join_under(
                self.search_dir.as_str(),
                string_from_chars(&empty_mod).as_str(),
            );
            proof {
                assert(Self::quoted_module(context@) =~= Seq::<char>::empty());
                assert(empty_mod@ =~= Seq::<char>::empty());
            }
            return join_under(module_dir.as_str(), f.as_str());
        }
        join_under(self.search_dir.as_str(), f.as_str())
    }

    /// Checks variable-file paths: for every file whose `exists` flag is
    /// false, one warning naming the file, the context and the checked path
    /// is appended to `warnings`.
    pub fn validate_var_files(
        &self,
        var_files: &Vec<String>,
        context: &str,
        exists: &Vec<bool>,
        warnings: &mut Vec<String>,
    )
        requires
            var_files@.len() == exists@.len(),
        ensures
            strs(final(warnings)@) == Self::var_file_warnings(
                self.search_dir@,
                strs(var_files@),
                exists@,
                context@,
                0,
                strs(old(warnings)@),
            ),
    {
        let n: usize = var_files.len();
        let mut i: usize = 0;
        while i < n
            invariant
                n == var_files@.len(),
                n == exists@.len(),
                i <= n,
                Self::var_file_warnings(
                    self.search_dir@,
                    strs(var_files@),
                    exists@,
                    context@,
                    i as int,
                    strs(warnings@),
                ) == Self::var_file_warnings(
                    self.search_dir@,
                    strs(var_files@),
                    exists@,
                    context@,
                    0,
                    strs(old(warnings)@),
                ),
            decreases n - i,
        {
            let ghost acc_pre = strs(warnings@);
            proof {
                assert(strs(var_files@)[i as int] == var_files@[i as int]@);
            }
            if !exists[i] {
                let checked = self.checked_path(&var_files[i], context);
                let mut msg: Vec<char> = Vec::new();
                append_str(&mut msg, "Var file '");
                append_str(&mut msg, var_files[i].as_str());
                append_str(&mut msg, "' for ");
                append_str(&mut msg, context);
                append_str(&mut msg, " does not exist (checked: ");
                append_str(&mut msg, checked.as_str());
                append_str(&mut msg, ")");
                warnings.push(string_from_chars(&msg));
                proof {
                    assert(msg@ =~= Self::missing_var_file_msg(
                        var_files@[i as int]@,
                        context@,
                        Self::checked_path_spec(
                            self.search_dir@,
                            var_files@[i as int]@,
                            context@,
                        ),
                    ));
                    assert(strs(warnings@) =~= acc_pre.push(msg@));
                }
            }
            proof {
                assert(Self::var_file_warnings(
                    self.search_dir@,
                    strs(var_files@),
                    exists@,
                    context@,
                    i as int,
                    acc_pre,
                ) == Self::var_file_warnings(
                    self.search_dir@,
                    strs(var_files@),
                    exists@,
                    context@,
                    i + 1,
                    strs(warnings@),
                ));
            }
            i += 1;
        }
    }

    /// A workspace name that clashes with a reserved name.
    pub open spec fn is_reserved_workspace(w: Seq<char>) -> bool {
        w == "default"@ || w == "terraform"@
    }

    /// Warnings for reserved workspace names in one workspace map.
    pub open spec fn reserved_ws_warnings(
        es: Seq<(String, Vec<String>)>,
        suffix: Seq<char>,
        i: int,
        acc: Seq<Seq<char>>,
    ) -> Seq<Seq<char>>
        decreases es.len() - i
            when 0 <= i <= es.len()
    {
        if i < 0 || i >= es.len() {
            acc
        } else {
            let acc2 = if Self::is_reserved_workspace(es[i].0@) {
                acc.push("Workspace name '"@ + es[i].0@ + "'"@ + suffix)
            } else {
                acc
            };
            Self::reserved_ws_warnings(es, suffix, i + 1, acc2)
        }
    }

    /// Checks one workspace map for reserved names, appending one warning per
    /// reserved name found, with the given message suffix.
    fn validate_ws_names(
        &self,
        ws: &WorkspaceVarFiles,
        suffix: &str,
        warnings: &mut Vec<String>,
    )
        ensures
            strs(final(warnings)@) == Self::reserved_ws_warnings(
                ws.workspaces@,
                suffix@,
                0,
                strs(old(warnings)@),
            ),
    {
        let n: usize = ws.workspaces.len();
        let mut i: usize = 0;
        while i < n
            invariant
                n == ws.workspaces@.len(),
                i <= n,
                Self::reserved_ws_warnings(ws.workspaces@, suffix@, i as int, strs(warnings@))
                    == Self::reserved_ws_warnings(
                    ws.workspaces@,
                    suffix@,
                    0,
                    strs(old(warnings)@),
                ),
            decreases n - i,
        {
            let ghost acc_pre = strs(warnings@);
            let name = &ws.workspaces[i].0;
            if str_eq(name.as_str(), "default") || str_eq(name.as_str(), "terraform") {
                let mut msg: Vec<char> = Vec::new();
                append_str(&mut msg, "Workspace name '");
                append_str(&mut msg, name.as_str());
                append_str(&mut msg, "'");
                append_str(&mut msg, suffix);
                warnings.push(string_from_chars(&msg));
                proof {
                    assert(msg@ =~= "Workspace name '"@ + ws.workspaces@[i as int].0@ + "'"@
                        + suffix@);
                    assert(strs(warnings@) =~= acc_pre.push(msg@));
                }
            }
            proof {
                assert(Self::reserved_ws_warnings(ws.workspaces@, suffix@, i as int, acc_pre)
                    == Self::reserved_ws_warnings(
                    ws.workspaces@,
                    suffix@,
                    i + 1,
                    strs(warnings@),
                ));
            }
            i += 1;
        }
    }

    /// Checks every workspace name of the configuration against the reserved
    /// names (`default`, `terraform`), appending one warning per clash: first
    /// the global map, then each module's map in order.
    pub fn validate_workspace_names(
        &self,
        config: &SolarboatConfig,
        warnings: &mut Vec<String>,
    )
        ensures
            strs(final(warnings)@) == workspace_name_warnings(
                config.global.workspace_var_files,
                config.modules@,
                strs(old(warnings)@),
            ),
    {
        match &config.global.workspace_var_files {
            Some(ws) => {
                self.validate_ws_names(ws, " is reserved and may cause issues", warnings);
            },
            None => {},
        }
        let ghost after_global = strs(warnings@);
        let n: usize = config.modules.len();
        let mut i: usize = 0;
        while i < n
            invariant
                n == config.modules@.len(),
                i <= n,
                modules_ws_warnings(config.modules@, i as int, strs(warnings@))
                    == modules_ws_warnings(config.modules@, 0, after_global),
            decreases n - i,
        {
            let ghost acc_pre = strs(warnings@);
            match &config.modules[i].1.workspace_var_files {
                Some(ws) => {
                    let mut suffix: Vec<char> = Vec::new();
                    append_str(&mut suffix, " in module '");
                    append_str(&mut suffix, config.modules[i].0.as_str());
                    append_str(&mut suffix, "' is reserved and may cause issues");
                    let sfx = string_from_chars(&suffix);
                    self.validate_ws_names(ws, sfx.as_str(), warnings);
                    proof {
                        assert(suffix@ =~= module_suffix(config.modules@[i as int].0@));
                    }
                },
                None => {},
            }
            proof {
                assert(modules_ws_warnings(config.modules@, i as int, acc_pre)
                    == modules_ws_warnings(config.modules@, i + 1, strs(warnings@)));
            }
            i += 1;
        }
    }
}

/// The warning suffix used for a reserved workspace name in module `m`.
pub open spec fn module_suffix(m: Seq<char>) -> Seq<char> {
    " in module '"@ + m + "' is reserved and may cause issues"@
}

/// The reserved-name warnings of every module's workspace map, from `i` on.
pub open spec fn modules_ws_warnings(
    ms: Seq<(String, ModuleConfig)>,
    i: int,
    acc: Seq<Seq<char>>,
) -> Seq<Seq<char>>
    decreases ms.len() - i
        when 0 <= i <= ms.len()
{
    if i < 0 || i >= ms.len() {
        acc
    } else {
        let acc2 = match ms[i].1.workspace_var_files {
            Some(ws) => ConfigLoader::reserved_ws_warnings(
                ws.workspaces@,
                module_suffix(ms[i].0@),
                0,
                acc,
            ),
            None => acc,
        };
        modules_ws_warnings(ms, i + 1, acc2)
    }
}

/// All reserved-workspace-name warnings of a configuration: the global map's
/// first, then each module's, appended to `acc`.
pub open spec fn workspace_name_warnings(
    global_ws: Option<WorkspaceVarFiles>,
    ms: Seq<(String, ModuleConfig)>,
    acc: Seq<Seq<char>>,
) -> Seq<Seq<char>> {
    let acc1 = match global_ws {
        Some(ws) => ConfigLoader::reserved_ws_warnings(
            ws.workspaces@,
            " is reserved and may cause issues"@,
            0,
            acc,
        ),
        None => acc,
    };
    modules_ws_warnings(ms, 0, acc1)
}

} // verus!
