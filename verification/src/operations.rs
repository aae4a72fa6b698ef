//! Operations fed to the scheduler and their results: the operation record,
//! the per-operation workflow (initialize, select workspace, run), building
//! the operation list for a module's workspaces, summarizing failures, and
//! rendering plan transcripts.
//!
//! Running the external provisioning binary is behind the [`TerraformRunner`]
//! trait: the surrounding program implements it with the real binary, tests
//! implement it with instrumented fakes.  The library promises only what
//! holds of every outcome.

use vstd::prelude::*;
use crate::resolver::ConfigResolver;
use crate::text::{append_str, decimal_of, string_from_chars, strs, u64_to_string};
use crate::display::format_workspace_spec;

verus! {

/// One provisioning operation to run.
pub enum OperationType {
    Init,
    Plan { plan_dir: Option<String> },
    Apply,
}

/// A single per-module, per-workspace unit of work, immutable once queued.
pub struct TerraformOperation {
    pub module_dir: String,
    pub workspace: Option<String>,
    pub var_files: Vec<String>,
    pub operation_type: OperationType,
    pub watch: bool,
    pub skip_init: bool,
}

/// The outcome of one operation: identity fields copied from the operation,
/// success, the error text of a failure, and captured output lines.
pub struct OperationResult {
    pub module_dir: String,
    pub workspace: Option<String>,
    pub operation_type: OperationType,
    pub success: bool,
    pub error: Option<String>,
    pub output: Vec<String>,
}

/// A failing module for the run summary.
pub struct ModuleError {
    pub path: String,
    pub error: String,
}

/// A copy of an operation type with the same value.
pub fn clone_operation_type(t: &OperationType) -> (r: OperationType)
    ensures
        r == *t,
{
    match t {
        OperationType::Init => OperationType::Init,
        OperationType::Plan { plan_dir } => {
            match plan_dir {
                Some(d) => OperationType::Plan { plan_dir: Some(d.clone()) },
                None => OperationType::Plan { plan_dir: None },
            }
        },
        OperationType::Apply => OperationType::Apply,
    }
}

/// A copy of an optional string with the same value.
pub fn clone_opt_string(s: &Option<String>) -> (r: Option<String>)
    ensures
        r == *s,
{
    match s {
        Some(v) => Some(v.clone()),
        None => None,
    }
}

/// The command-execution collaborator: initialize a module directory, select
/// a workspace, plan, apply — each reporting success and captured output.
/// The scheduler and the per-operation workflow depend only on this
/// boolean/output interface; what an implementation actually does is outside
/// the library.
pub trait TerraformRunner {
    /// Makes the module directory ready for plan/apply.
    fn init(&mut self, op: &TerraformOperation) -> bool;

    /// Selects the named workspace in the module directory.
    fn select_workspace(&mut self, op: &TerraformOperation, workspace: &String) -> bool;

    /// Runs a plan, optionally persisting an artifact under `plan_dir`.
    fn plan(&mut self, op: &TerraformOperation, plan_dir: &Option<String>) -> (bool, Vec<String>);

    /// Applies the configuration.
    fn apply(&mut self, op: &TerraformOperation) -> (bool, Vec<String>);
}

/// Runs one operation to completion against `runner`: initialization first
/// (unless skipped), workspace selection when one is named, then the
/// operation itself; the first failing step fails the operation.  Whatever
/// the runner reports, the result carries the operation's identity fields,
/// and it is a success exactly when it carries no error text.
pub fn process_single_operation<R: TerraformRunner>(
    op: &TerraformOperation,
    runner: &mut R,
) -> (r: OperationResult)
    ensures
        r.module_dir == op.module_dir,
        r.workspace == op.workspace,
        r.operation_type == op.operation_type,
        r.success <==> r.error is None,
{
    let init_ok: bool = if op.skip_init {
        true
    } else {
        runner.init(op)
    };
    if !init_ok {
        return OperationResult {
            module_dir: op.module_dir.clone(),
            workspace: clone_opt_string(&op.workspace),
            operation_type: clone_operation_type(&op.operation_type),
            success: false,
            error: Some(String::from_str("Initialization failed")),
            output: Vec::new(),
        };
    }
    match &op.workspace {
        Some(ws) => {
            if !runner.select_workspace(op, ws) {
                let mut msg: Vec<char> = Vec::new();
                append_str(&mut msg, "Failed to select workspace ");
                append_str(&mut msg, ws.as_str());
                return OperationResult {
                    module_dir: op.module_dir.clone(),
                    workspace: clone_opt_string(&op.workspace),
                    operation_type: clone_operation_type(&op.operation_type),
                    success: false,
                    error: Some(string_from_chars(&msg)),
                    output: Vec::new(),
                };
            }
        },
        None => {},
    }
    let (success, error, output): (bool, Option<String>, Vec<String>) = match &op.operation_type {
        OperationType::Init => (true, None, Vec::new()),
        OperationType::Plan { plan_dir } => {
            let (ok, out) = runner.plan(op, plan_dir);
            if ok {
                (true, None, out)
            } else {
                (false, Some(String::from_str("Plan failed")), out)
            }
        },
        OperationType::Apply => {
            let (ok, out) = runner.apply(op);
            if ok {
                (true, None, out)
            } else {
                (false, Some(String::from_str("Apply failed")), out)
            }
        },
    };
    OperationResult {
        module_dir: op.module_dir.clone(),
        workspace: clone_opt_string(&op.workspace),
        operation_type: clone_operation_type(&op.operation_type),
        success,
        error,
        output,
    }
}

/// The workspaces that survive the ignore filter, in order.
pub open spec fn kept_workspaces(
    r: ConfigResolver,
    m: Seq<char>,
    ws: Seq<Seq<char>>,
    cli: Option<Seq<Seq<char>>>,
) -> Seq<Seq<char>>
    decreases ws.len(),
{
    if ws.len() == 0 {
        Seq::empty()
    } else {
        let pre = kept_workspaces(r, m, ws.drop_last(), cli);
        if !r.resolve_ignore_spec(m, cli).contains(ws.last()) {
            pre.push(ws.last())
        } else {
            pre
        }
    }
}

/// The built operations correspond one-to-one to the kept workspaces.
pub open spec fn ops_match(
    ops: Seq<TerraformOperation>,
    kept: Seq<Seq<char>>,
    r: ConfigResolver,
    m: Seq<char>,
    cliv: Option<Seq<Seq<char>>>,
    op_t: OperationType,
    watch: bool,
) -> bool {
    ops.len() == kept.len() && (forall|k: int|
        0 <= k < ops.len() ==> (#[trigger] ops[k]).module_dir@ == m && ops[k].workspace is Some
            && ops[k].workspace->0@ == kept[k] && strs(ops[k].var_files@)
            == r.workspace_var_files_spec(m, kept[k], cliv) && ops[k].operation_type == op_t
            && ops[k].watch == watch && ops[k].skip_init)
}

/// Builds the operation list for one module: a single operation on the
/// default workspace when the module has at most one workspace; otherwise
/// one operation per workspace that the effective ignore list does not
/// cover, each with its resolved variable files.  Initialization is marked
/// already done, as the caller initializes before listing workspaces.
pub fn build_module_operations(
    module_dir: &String,
    workspaces: &Vec<String>,
    resolver: &ConfigResolver,
    cli_ignore_workspaces: Option<&Vec<String>>,
    cli_var_files: Option<&Vec<String>>,
    operation_type: &OperationType,
    watch: bool,
) -> (r: Vec<TerraformOperation>)
    ensures
        workspaces@.len() <= 1 ==> r@.len() == 1 && r@[0].module_dir@ == module_dir@
            && r@[0].workspace is None && strs(r@[0].var_files@)
            == resolver.workspace_var_files_spec(
            module_dir@,
            "default"@,
            match cli_var_files {
                Some(v) => Some(strs(v@)),
                None => None::<Seq<Seq<char>>>,
            },
        ) && r@[0].operation_type == *operation_type && r@[0].watch == watch && r@[0].skip_init,
        workspaces@.len() > 1 ==> ops_match(
            r@,
            kept_workspaces(
                *resolver,
                module_dir@,
                strs(workspaces@),
                match cli_ignore_workspaces {
                    Some(v) => Some(strs(v@)),
                    None => None::<Seq<Seq<char>>>,
                },
            ),
            *resolver,
            module_dir@,
            match cli_var_files {
                Some(v) => Some(strs(v@)),
                None => None::<Seq<Seq<char>>>,
            },
            *operation_type,
            watch,
        ),
{
    let mut r: Vec<TerraformOperation> = Vec::new();
    if workspaces.len() <= 1 {
        let default_ws = String::from_str("default");
        let var_files = resolver.get_workspace_var_files(
            module_dir.as_str(),
            default_ws.as_str(),
            cli_var_files,
        );
        r.push(
            TerraformOperation {
                module_dir: module_dir.clone(),
                workspace: None,
                var_files,
                operation_type: clone_operation_type(operation_type),
                watch,
                skip_init: true,
            },
        );
        return r;
    }
    let ghost cli_ign: Option<Seq<Seq<char>>> = match cli_ignore_workspaces {
        Some(v) => Some(strs(v@)),
        None => None::<Seq<Seq<char>>>,
    };
    let ghost cli_vf: Option<Seq<Seq<char>>> = match cli_var_files {
        Some(v) => Some(strs(v@)),
        None => None::<Seq<Seq<char>>>,
    };
    let n: usize = workspaces.len();
    let mut i: usize = 0;
    while i < n
        invariant
            n == workspaces@.len(),
            i <= n,
            cli_ign == (match cli_ignore_workspaces {
                Some(v) => Some(strs(v@)),
                None => None::<Seq<Seq<char>>>,
            }),
            cli_vf == (match cli_var_files {
                Some(v) => Some(strs(v@)),
                None => None::<Seq<Seq<char>>>,
            }),
            ops_match(
                r@,
                kept_workspaces(
                    *resolver,
                    module_dir@,
                    strs(workspaces@).take(i as int),
                    cli_ign,
                ),
                *resolver,
                module_dir@,
                cli_vf,
                *operation_type,
                watch,
            ),
        decreases n - i,
    {
        proof {
            assert(strs(workspaces@).take(i + 1).drop_last() =~= strs(workspaces@).take(i as int));
            assert(strs(workspaces@).take(i + 1).last() == workspaces@[i as int]@);
        }
        let ws = &workspaces[i];
        if !resolver.should_ignore_workspace(
            module_dir.as_str(),
            ws.as_str(),
            cli_ignore_workspaces,
        ) {
            let var_files = resolver.get_workspace_var_files(
                module_dir.as_str(),
                ws.as_str(),
                cli_var_files,
            );
            r.push(
                TerraformOperation {
                    module_dir: module_dir.clone(),
                    workspace: Some(ws.clone()),
                    var_files,
                    operation_type: clone_operation_type(operation_type),
                    watch,
                    skip_init: true,
                },
            );
        }
        i += 1;
    }
    proof {
        assert(strs(workspaces@).take(n as int) =~= strs(workspaces@));
    }
    r
}

/// The label a failure is reported under.
pub open spec fn failure_label(r: OperationResult) -> Seq<char> {
    match r.workspace {
        Some(w) => r.module_dir@ + seq![':'] + w@,
        None => r.module_dir@,
    }
}

/// The error text a failure is reported with.
pub open spec fn failure_error(r: OperationResult) -> Seq<char> {
    match r.error {
        Some(e) => e@,
        None => "Unknown error"@,
    }
}

/// The `(label, error)` pairs of the failed results, in order.
pub open spec fn failures_spec(rs: Seq<OperationResult>) -> Seq<(Seq<char>, Seq<char>)>
    decreases rs.len(),
{
    if rs.len() == 0 {
        Seq::empty()
    } else if !rs.last().success {
        failures_spec(rs.drop_last()).push((failure_label(rs.last()), failure_error(rs.last())))
    } else {
        failures_spec(rs.drop_last())
    }
}

pub open spec fn module_errors_view(es: Seq<ModuleError>) -> Seq<(Seq<char>, Seq<char>)> {
    es.map_values(|e: ModuleError| (e.path@, e.error@))
}

/// Summarizes the failed results: one entry per failure, labelled
/// `module` or `module:workspace`, with the recorded error text.
pub fn collect_failures(results: &Vec<OperationResult>) -> (r: Vec<ModuleError>)
    ensures
        module_errors_view(r@) == failures_spec(results@),
{
    let n: usize = results.len();
    let mut r: Vec<ModuleError> = Vec::new();
    let mut i: usize = 0;
    proof {
        assert(module_errors_view(r@) =~= failures_spec(results@.take(0)));
    }
    while i < n
        invariant
            n == results@.len(),
            i <= n,
            module_errors_view(r@) == failures_spec(results@.take(i as int)),
        decreases n - i,
    {
        proof {
            assert(results@.take(i + 1).drop_last() =~= results@.take(i as int));
            assert(results@.take(i + 1).last() == results@[i as int]);
        }
        let res = &results[i];
        if !res.success {
            let mut label: Vec<char> = Vec::new();
            append_str(&mut label, res.module_dir.as_str());
            match &res.workspace {
                Some(w) => {
                    label.push(':');
                    append_str(&mut label, w.as_str());
                    proof {
                        assert(label@ =~= failure_label(results@[i as int]));
                    }
                },
                None => {
                    proof {
                        assert(label@ =~= failure_label(results@[i as int]));
                    }
                },
            }
            let error: String = match &res.error {
                Some(e) => e.clone(),
                None => String::from_str("Unknown error"),
            };
            r.push(ModuleError { path: string_from_chars(&label), error });
            proof {
                assert(module_errors_view(r@) =~= module_errors_view(r@.drop_last()).push(
                    (failure_label(results@[i as int]), failure_error(results@[i as int])),
                ));
            }
        }
        i += 1;
    }
    proof {
        assert(results@.take(n as int) =~= results@);
    }
    r
}

/// What stripping ANSI color escapes leaves of a text; a pure function of
/// the text, named rather than spelled out.
pub uninterp spec fn ansi_stripped(s: Seq<char>) -> Seq<char>;

/// Removes ANSI color codes from one line of provisioning-tool output.
///
/// Relies on regex's `Regex::replace_all` with the pattern `\x1b\[[0-9;]*m`:
/// every non-overlapping match of the escape pattern is removed, the rest of
/// the text is kept, and the result depends on the input alone.  Every match
/// starts with the escape character, so text without it stays unchanged.
#[verifier::external_body]
pub fn clean_terraform_output(input: &str) -> (r: String)
    ensures
        r@ == ansi_stripped(input@),
        (forall|i: int| 0 <= i < input@.len() ==> input@[i] != '\u{1b}') ==> r@ == input@,
{
    let re = regex::Regex::new("\x1b\\[[0-9;]*m").unwrap();
    re.replace_all(input, "").to_string()
}

/// The file name a plan transcript is saved under:
/// `{module}-{workspace}-{timestamp}.tfplan.md`.
pub open spec fn plan_file_name_spec(
    module_name: Seq<char>,
    workspace: Option<&str>,
    timestamp: nat,
) -> Seq<char> {
    module_name + "-"@ + format_workspace_spec(workspace) + "-"@ + decimal_of(timestamp)
        + ".tfplan.md"@
}

/// Builds the plan-transcript file name for a module, workspace and Unix
/// timestamp; distinct timestamps keep runs from overwriting each other.
pub fn plan_file_name(module_name: &str, workspace: Option<&str>, timestamp: u64) -> (r: String)
    ensures
        r@ == plan_file_name_spec(module_name@, workspace, timestamp as nat),
{
    let mut out: Vec<char> = Vec::new();
    append_str(&mut out, module_name);
    append_str(&mut out, "-");
    let ws = crate::display::format_workspace(workspace);
    append_str(&mut out, ws.as_str());
    append_str(&mut out, "-");
    let ts = u64_to_string(timestamp);
    append_str(&mut out, ts.as_str());
    append_str(&mut out, ".tfplan.md");
    proof {
        assert(out@ =~= plan_file_name_spec(module_name@, workspace, timestamp as nat));
    }
    string_from_chars(&out)
}

/// The stripped transcript lines, each followed by a newline.
pub open spec fn stripped_lines(ls: Seq<Seq<char>>) -> Seq<char>
    decreases ls.len(),
{
    if ls.len() == 0 {
        Seq::empty()
    } else {
        stripped_lines(ls.drop_last()) + ansi_stripped(ls.last()) + "\n"@
    }
}

/// The Markdown plan transcript: a heading naming module and workspace, then
/// the ANSI-stripped output lines in a fenced block.
pub open spec fn plan_file_content_spec(
    module_name: Seq<char>,
    workspace: Option<&str>,
    ls: Seq<Seq<char>>,
) -> Seq<char> {
    "# Terraform Plan Output for "@ + module_name + " (workspace: "@ + format_workspace_spec(
        workspace,
    ) + ")\n\n"@ + "```\n"@ + stripped_lines(ls) + "```\n"@
}

/// Renders the Markdown transcript of one plan run.
pub fn plan_file_content(
    module_name: &str,
    workspace: Option<&str>,
    output_lines: &Vec<String>,
) -> (r: String)
    ensures
        r@ == plan_file_content_spec(module_name@, workspace, strs(output_lines@)),
{
    let mut out: Vec<char> = Vec::new();
    append_str(&mut out, "# Terraform Plan Output for ");
    append_str(&mut out, module_name);
    append_str(&mut out, " (workspace: ");
    let ws = crate::display::format_workspace(workspace);
    append_str(&mut out, ws.as_str());
    append_str(&mut out, ")\n\n");
    append_str(&mut out, "```\n");
    let ghost header = out@;
    let n: usize = output_lines.len();
    let mut i: usize = 0;
    while i < n
        invariant
            n == output_lines@.len(),
            i <= n,
            out@ == header + stripped_lines(strs(output_lines@).take(i as int)),
        decreases n - i,
    {
        proof {
            assert(strs(output_lines@).take(i + 1).drop_last() =~= strs(output_lines@).take(
                i as int,
            ));
            assert(strs(output_lines@).take(i + 1).last() == output_lines@[i as int]@);
        }
        let cleaned = clean_terraform_output(output_lines[i].as_str());
        append_str(&mut out, cleaned.as_str());
        append_str(&mut out, "\n");
        proof {
            assert(out@ =~= header + stripped_lines(strs(output_lines@).take(i + 1)));
        }
        i += 1;
    }
    append_str(&mut out, "```\n");
    proof {
        assert(strs(output_lines@).take(n as int) =~= strs(output_lines@));
        assert(out@ =~= plan_file_content_spec(module_name@, workspace, strs(output_lines@)));
    }
    string_from_chars(&out)
}

} // verus!
