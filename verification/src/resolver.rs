//! Resolution of effective per-module, per-workspace settings: command-line
//! arguments override module-specific settings, which override global ones,
//! and workspace-specific variable files are appended after the general ones.
//! Relative variable-file paths resolve against the configuration directory.

use vstd::prelude::*;
use crate::config::{
    clone_strings, mc_lookup, plain_join, ws_lookup, ModuleConfig, SolarboatConfig,
    WorkspaceVarFiles,
};
use crate::text::strs;

verus! {

/// Resolved configuration for a specific module and workspace.
pub struct ResolvedModuleConfig {
    /// Workspaces to ignore for this module.
    pub ignore_workspaces: Vec<String>,
    /// Variable files to use for this module.
    pub var_files: Vec<String>,
}

/// Merges command-line arguments with configuration-file settings.
pub struct ConfigResolver {
    /// The base configuration loaded from a file, if any.
    pub config: Option<SolarboatConfig>,
    /// The directory the configuration file was loaded from.
    pub config_dir: String,
}

impl ConfigResolver {
    /// The module-specific configuration bound to `m`, if any.
    pub open spec fn module_cfg_of(self, m: Seq<char>) -> Option<ModuleConfig> {
        match self.config {
            None => None::<ModuleConfig>,
            Some(c) => match mc_lookup(c.modules@, m) {
                Some(i) => Some(c.modules@[i].1),
                None => None::<ModuleConfig>,
            },
        }
    }

    pub open spec fn module_ignore(self, m: Seq<char>) -> Seq<Seq<char>> {
        match self.module_cfg_of(m) {
            Some(mc) => strs(mc.ignore_workspaces@),
            None => Seq::empty(),
        }
    }

    pub open spec fn module_vfiles(self, m: Seq<char>) -> Seq<Seq<char>> {
        match self.module_cfg_of(m) {
            Some(mc) => strs(mc.var_files@),
            None => Seq::empty(),
        }
    }

    pub open spec fn global_ignore(self) -> Seq<Seq<char>> {
        match self.config {
            Some(c) => strs(c.global.ignore_workspaces@),
            None => Seq::empty(),
        }
    }

    pub open spec fn global_vfiles(self) -> Seq<Seq<char>> {
        match self.config {
            Some(c) => strs(c.global.var_files@),
            None => Seq::empty(),
        }
    }

    /// The effective ignored workspaces: the command line overrides
    /// everything, a non-empty module setting overrides the global one.
    pub open spec fn resolve_ignore_spec(
        self,
        m: Seq<char>,
        cli: Option<Seq<Seq<char>>>,
    ) -> Seq<Seq<char>> {
        match cli {
            Some(v) => v,
            None => if self.module_ignore(m).len() > 0 {
                self.module_ignore(m)
            } else {
                self.global_ignore()
            },
        }
    }

    /// The effective general variable files, with the same precedence.
    pub open spec fn resolve_vfiles_spec(
        self,
        m: Seq<char>,
        cli: Option<Seq<Seq<char>>>,
    ) -> Seq<Seq<char>> {
        match cli {
            Some(v) => v,
            None => if self.module_vfiles(m).len() > 0 {
                self.module_vfiles(m)
            } else {
                self.global_vfiles()
            },
        }
    }

    /// The workspace-specific variable files: the module's mapping when it
    /// binds the workspace, else the global mapping, else none.
    pub open spec fn ws_vfiles_spec(self, m: Seq<char>, w: Seq<char>) -> Seq<Seq<char>> {
        let module_bound: Option<Seq<Seq<char>>> = match self.module_cfg_of(m) {
            Some(mc) => match mc.workspace_var_files {
                Some(ws) => ws_lookup(ws.workspaces@, w),
                None => None,
            },
            None => None,
        };
        match module_bound {
            Some(fs) => fs,
            None => {
                let global_bound: Option<Seq<Seq<char>>> = match self.config {
                    Some(c) => match c.global.workspace_var_files {
                        Some(ws) => ws_lookup(ws.workspaces@, w),
                        None => None,
                    },
                    None => None,
                };
                match global_bound {
                    Some(fs) => fs,
                    None => Seq::empty(),
                }
            },
        }
    }

    /// Every path of `fs` resolved against the configuration directory;
    /// absolute paths stand as they are.
    pub open spec fn resolve_paths_spec(self, fs: Seq<Seq<char>>) -> Seq<Seq<char>> {
        fs.map_values(|f: Seq<char>| plain_join(self.config_dir@, f))
    }

    /// The final variable files for a module and workspace: the general
    /// files, then the workspace-specific ones, each resolved against the
    /// configuration directory.
    pub open spec fn workspace_var_files_spec(
        self,
        m: Seq<char>,
        w: Seq<char>,
        cli: Option<Seq<Seq<char>>>,
    ) -> Seq<Seq<char>> {
        self.resolve_paths_spec(self.resolve_vfiles_spec(m, cli) + self.ws_vfiles_spec(m, w))
    }

    /// Creates a resolver over an optionally loaded configuration.
    pub fn new(config: Option<SolarboatConfig>, config_dir: String) -> (r: ConfigResolver)
        ensures
            r.config == config,
            r.config_dir == config_dir,
    {
        ConfigResolver { config, config_dir }
    }

    /// The configuration of module `m`, when one is bound.
    pub fn get_module_config(&self, module_dir: &str) -> (r: Option<&ModuleConfig>)
        ensures
            match r {
                Some(c) => self.module_cfg_of(module_dir@) == Some(*c),
                None => self.module_cfg_of(module_dir@) is None,
            },
    {
        match &self.config {
            None => None,
            Some(c) => c.module_config(module_dir),
        }
    }

    /// Resolves ignored workspaces with command line > module > global
    /// precedence, over explicitly supplied module and global settings.
    pub fn resolve_ignore_workspaces(
        &self,
        cli_ignore: Option<&Vec<String>>,
        module_ignore: &Vec<String>,
        global_ignore: &Vec<String>,
    ) -> (r: Vec<String>)
        ensures
            strs(r@) == (match cli_ignore {
                Some(v) => strs(v@),
                None => if strs(module_ignore@).len() > 0 {
                    strs(module_ignore@)
                } else {
                    strs(global_ignore@)
                },
            }),
    {
        match cli_ignore {
            Some(v) => clone_strings(v),
            None => {
                if module_ignore.len() > 0 {
                    clone_strings(module_ignore)
                } else {
                    clone_strings(global_ignore)
                }
            },
        }
    }

    /// Resolves general variable files with the same precedence.
    pub fn resolve_var_files(
        &self,
        cli_var_files: Option<&Vec<String>>,
        module_var_files: &Vec<String>,
        global_var_files: &Vec<String>,
    ) -> (r: Vec<String>)
        ensures
            strs(r@) == (match cli_var_files {
                Some(v) => strs(v@),
                None => if strs(module_var_files@).len() > 0 {
                    strs(module_var_files@)
                } else {
                    strs(global_var_files@)
                },
            }),
    {
        match cli_var_files {
            Some(v) => clone_strings(v),
            None => {
                if module_var_files.len() > 0 {
                    clone_strings(module_var_files)
                } else {
                    clone_strings(global_var_files)
                }
            },
        }
    }

    /// Resolves the configuration for one module.
    pub fn resolve_module_config(
        &self,
        module_dir: &str,
        cli_ignore_workspaces: Option<&Vec<String>>,
        cli_var_files: Option<&Vec<String>>,
    ) -> (r: ResolvedModuleConfig)
        ensures
            strs(r.ignore_workspaces@) == self.resolve_ignore_spec(
                module_dir@,
                match cli_ignore_workspaces {
                    Some(v) => Some(strs(v@)),
                    None => None::<Seq<Seq<char>>>,
                },
            ),
            strs(r.var_files@) == self.resolve_vfiles_spec(
                module_dir@,
                match cli_var_files {
                    Some(v) => Some(strs(v@)),
                    None => None::<Seq<Seq<char>>>,
                },
            ),
    {
        let empty_a: Vec<String> = Vec::new();
        let empty_b: Vec<String> = Vec::new();
        let ignore_workspaces: Vec<String>;
        let var_files: Vec<String>;
        match self.get_module_config(module_dir) {
            Some(mc) => {
                ignore_workspaces = self.resolve_ignore_workspaces(
                    cli_ignore_workspaces,
                    &mc.ignore_workspaces,
                    match &self.config {
                        Some(c) => &c.global.ignore_workspaces,
                        None => &empty_a,
                    },
                );
                var_files = self.resolve_var_files(
                    cli_var_files,
                    &mc.var_files,
                    match &self.config {
                        Some(c) => &c.global.var_files,
                        None => &empty_b,
                    },
                );
            },
            None => {
                ignore_workspaces = self.resolve_ignore_workspaces(
                    cli_ignore_workspaces,
                    &empty_a,
                    match &self.config {
                        Some(c) => &c.global.ignore_workspaces,
                        None => &empty_a,
                    },
                );
                var_files = self.resolve_var_files(
                    cli_var_files,
                    &empty_b,
                    match &self.config {
                        Some(c) => &c.global.var_files,
                        None => &empty_b,
                    },
                );
            },
        }
        proof {
            assert(strs(Seq::<String>::empty()) =~= Seq::<Seq<char>>::empty());
        }
        ResolvedModuleConfig { ignore_workspaces, var_files }
    }

    /// Resolves the workspace-specific variable files for one module and
    /// workspace.
    pub fn resolve_workspace_var_files(&self, module_dir: &str, workspace: &str) -> (r: Vec<
        String,
    >)
        ensures
            strs(r@) == self.ws_vfiles_spec(module_dir@, workspace@),
    {
        match self.get_module_config(module_dir) {
            Some(mc) => {
                match &mc.workspace_var_files {
                    Some(ws) => {
                        if ws.has_workspace(workspace) {
                            return ws.get_workspace_files(workspace);
                        }
                    },
                    None => {},
                }
            },
            None => {},
        }
        match &self.config {
            Some(c) => {
                match &c.global.workspace_var_files {
                    Some(ws) => {
                        if ws.has_workspace(workspace) {
                            return ws.get_workspace_files(workspace);
                        }
                    },
                    None => {},
                }
            },
            None => {},
        }
        let r: Vec<String> = Vec::new();
        proof {
            assert(strs(r@) =~= Seq::<Seq<char>>::empty());
        }
        r
    }

    /// Resolves each variable-file path against the configuration directory.
    pub fn resolve_var_file_paths(&self, var_files: &Vec<String>) -> (r: Vec<String>)
        ensures
            strs(r@) == self.resolve_paths_spec(strs(var_files@)),
    {
        let n: usize = var_files.len();
        let mut r: Vec<String> = Vec::new();
        let mut i: usize = 0;
        while i < n
            invariant
                n == var_files@.len(),
                i <= n,
                strs(r@) == self.resolve_paths_spec(strs(var_files@).take(i as int)),
            decreases n - i,
        {
            let joined = crate::config::join_under(
                self.config_dir.as_str(),
                var_files[i].as_str(),
            );
            r.push(joined);
            proof {
                assert(strs(var_files@).take(i + 1) =~= strs(var_files@).take(i as int).push(
                    var_files@[i as int]@,
                ));
                assert(strs(r@) =~= self.resolve_paths_spec(strs(var_files@).take(i as int)).push(
                    plain_join(self.config_dir@, var_files@[i as int]@),
                ));
                assert(self.resolve_paths_spec(strs(var_files@).take(i + 1)) =~= self
                    .resolve_paths_spec(strs(var_files@).take(i as int)).push(
                    plain_join(self.config_dir@, var_files@[i as int]@),
                ));
            }
            i += 1;
        }
        proof {
            assert(strs(var_files@).take(n as int) =~= strs(var_files@));
        }
        r
    }

    /// The final variable files for a module and workspace: general files
    /// first, workspace-specific ones after, resolved against the
    /// configuration directory.
    pub fn get_workspace_var_files(
        &self,
        module_dir: &str,
        workspace: &str,
        cli_var_files: Option<&Vec<String>>,
    ) -> (r: Vec<String>)
        ensures
            strs(r@) == self.workspace_var_files_spec(
                module_dir@,
                workspace@,
                match cli_var_files {
                    Some(v) => Some(strs(v@)),
                    None => None::<Seq<Seq<char>>>,
                },
            ),
    {
        let empty_b: Vec<String> = Vec::new();
        let general = match self.get_module_config(module_dir) {
            Some(mc) => self.resolve_var_files(
                cli_var_files,
                &mc.var_files,
                match &self.config {
                    Some(c) => &c.global.var_files,
                    None => &empty_b,
                },
            ),
            None => self.resolve_var_files(
                cli_var_files,
                &empty_b,
                match &self.config {
                    Some(c) => &c.global.var_files,
                    None => &empty_b,
                },
            ),
        };
        let ws_files = self.resolve_workspace_var_files(module_dir, workspace);
        let mut all: Vec<String> = general;
        let wn: usize = ws_files.len();
        let mut i: usize = 0;
        let ghost general_view = strs(all@);
        while i < wn
            invariant
                wn == ws_files@.len(),
                i <= wn,
                strs(all@) == general_view + strs(ws_files@).take(i as int),
            decreases wn - i,
        {
            all.push(ws_files[i].clone());
            proof {
                assert(strs(ws_files@).take(i + 1) =~= strs(ws_files@).take(i as int).push(
                    ws_files@[i as int]@,
                ));
                assert(strs(all@) =~= (general_view + strs(ws_files@).take(i as int)).push(
                    ws_files@[i as int]@,
                ));
                assert((general_view + strs(ws_files@).take(i as int)).push(
                    ws_files@[i as int]@,
                ) =~= general_view + strs(ws_files@).take(i + 1));
            }
            i += 1;
        }
        proof {
            assert(strs(ws_files@).take(wn as int) =~= strs(ws_files@));
            assert(strs(Seq::<String>::empty()) =~= Seq::<Seq<char>>::empty());
        }
        self.resolve_var_file_paths(&all)
    }

    /// Whether a workspace is ignored for a module, under the effective
    /// ignore list.
    pub fn should_ignore_workspace(
        &self,
        module_dir: &str,
        workspace: &str,
        cli_ignore_workspaces: Option<&Vec<String>>,
    ) -> (r: bool)
        ensures
            r == self.resolve_ignore_spec(
                module_dir@,
                match cli_ignore_workspaces {
                    Some(v) => Some(strs(v@)),
                    None => None::<Seq<Seq<char>>>,
                },
            ).contains(workspace@),
    {
        let resolved = self.resolve_module_config(module_dir, cli_ignore_workspaces, None);
        let w = workspace.to_owned();
        crate::changes::contains_string(&resolved.ignore_workspaces, &w)
    }
}

/// Application settings: the configuration resolver built from whatever
/// configuration file the surrounding program loaded.
pub struct Settings {
    /// The resolved configuration for the application.
    pub config_resolver: ConfigResolver,
}

impl Settings {
    /// Wraps an already-built resolver.
    pub fn new(config_resolver: ConfigResolver) -> (r: Settings)
        ensures
            r.config_resolver == config_resolver,
    {
        Settings { config_resolver }
    }

    /// The configuration resolver.
    pub fn resolver(&self) -> (r: &ConfigResolver)
        ensures
            *r == self.config_resolver,
    {
        &self.config_resolver
    }
}

} // verus!
