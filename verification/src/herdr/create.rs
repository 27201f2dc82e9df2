//! Focused tab and workspace creation: argv, identity validation, and how
//! failures after dispatch are reported.

use vstd::prelude::*;

use crate::error::{Error, ErrorKind, ErrorView, RunError, RunErrorView};
use crate::herdr::protocol::{CliOutput, CommandResult, CommandResultView, Envelope, ServerErrorStyle, parse_cli, result_view, spec_parse_cli};
use crate::path::{CanonicalPath, text_of};
use crate::text::{chars_of, concat, str_equal};
use crate::types::{PaneId, TabId, WorkspaceId};

verus! {

/// Deadline of one create command, in seconds.
pub const CREATE_TIMEOUT_SECS: u64 = 5;

/// Transport message when the Herdr command could not be started, so
/// nothing was dispatched.
pub const START_FAILED: &'static str = "failed to start the Herdr inspection command";

pub open spec fn start_failed_text() -> Seq<char> {
    "failed to start the Herdr inspection command"@
}

/// Tab identity in a create response.
#[derive(Debug, Clone, PartialEq, Eq)]
pub struct CreatedTabIdentity {
    pub tab_id: String,
    pub workspace_id: String,
}

/// Root pane identity in a create response.
#[derive(Debug, Clone, PartialEq, Eq)]
pub struct CreatedPaneIdentity {
    pub pane_id: String,
    pub workspace_id: String,
    pub tab_id: String,
}

/// Workspace identity in a create response.
#[derive(Debug, Clone, PartialEq, Eq)]
pub struct CreatedWorkspaceIdentity {
    pub workspace_id: String,
}

/// Payload of `tab_created`.
#[derive(Debug, Clone, PartialEq, Eq)]
pub struct CreatedTabBody {
    pub tab: CreatedTabIdentity,
    pub root_pane: CreatedPaneIdentity,
}

/// Payload of `workspace_created`.
#[derive(Debug, Clone, PartialEq, Eq)]
pub struct CreatedWorkspaceBody {
    pub workspace: CreatedWorkspaceIdentity,
    pub tab: CreatedTabIdentity,
    pub root_pane: CreatedPaneIdentity,
}

/// Identities returned by a successful focused tab create.
#[derive(Debug, Clone, PartialEq, Eq)]
pub struct CreatedTab {
    pub tab_id: TabId,
    pub pane_id: PaneId,
}

/// Identities returned by a successful focused workspace create.
#[derive(Debug, Clone, PartialEq, Eq)]
pub struct CreatedWorkspace {
    pub workspace_id: WorkspaceId,
    pub tab_id: TabId,
    pub pane_id: PaneId,
}

pub open spec fn missing_id_error(operation: Seq<char>, field: Seq<char>) -> ErrorView {
    ErrorView { kind: ErrorKind::HerdrProtocol, message: operation + ": missing created "@ + field + " id"@ }
}

pub fn require_id(operation: &str, field: &str, id: &str) -> (r: Result<(), Error>)
    ensures
        r is Ok <==> id@.len() > 0,
        r matches Err(e) ==> e@ == missing_id_error(operation@, field@),
{
    if chars_of(id).len() == 0 {
        let head = concat(operation, ": missing created ");
        let with_field = concat(head.as_str(), field);
        Err(Error::herdr_protocol(concat(with_field.as_str(), " id")))
    } else {
        Ok(())
    }
}

pub open spec fn protocol_mismatch(message: Seq<char>) -> ErrorView {
    ErrorView { kind: ErrorKind::HerdrProtocol, message }
}

/// A created tab must carry every identity, live in the requested
/// workspace, and have its root pane in that tab.
pub open spec fn spec_validate_tab(body: CreatedTabBody, workspace_id: Seq<char>) -> Result<(Seq<char>, Seq<char>), ErrorView> {
    let op = "tab creation"@;
    if body.tab.tab_id@.len() == 0 {
        Err(missing_id_error(op, "tab"@))
    } else if body.tab.workspace_id@.len() == 0 {
        Err(missing_id_error(op, "tab workspace"@))
    } else if body.root_pane.pane_id@.len() == 0 {
        Err(missing_id_error(op, "root pane"@))
    } else if body.root_pane.workspace_id@.len() == 0 {
        Err(missing_id_error(op, "root pane workspace"@))
    } else if body.root_pane.tab_id@.len() == 0 {
        Err(missing_id_error(op, "root pane tab"@))
    } else if body.tab.workspace_id@ != workspace_id {
        Err(protocol_mismatch("tab creation: created tab workspace does not match the request"@))
    } else if body.root_pane.workspace_id@ != workspace_id {
        Err(protocol_mismatch("tab creation: created root pane workspace does not match the request"@))
    } else if body.root_pane.tab_id@ != body.tab.tab_id@ {
        Err(protocol_mismatch("tab creation: created root pane tab does not match the created tab"@))
    } else {
        Ok((body.tab.tab_id@, body.root_pane.pane_id@))
    }
}

pub fn validate_tab(body: CreatedTabBody, workspace_id: &str) -> (r: Result<CreatedTab, Error>)
    ensures
        match r {
            Ok(t) => spec_validate_tab(body, workspace_id@) == Ok::<(Seq<char>, Seq<char>), ErrorView>((t.tab_id@, t.pane_id@)),
            Err(e) => spec_validate_tab(body, workspace_id@) == Err::<(Seq<char>, Seq<char>), ErrorView>(e@),
        },
{
    require_id("tab creation", "tab", body.tab.tab_id.as_str())?;
    require_id("tab creation", "tab workspace", body.tab.workspace_id.as_str())?;
    require_id("tab creation", "root pane", body.root_pane.pane_id.as_str())?;
    require_id("tab creation", "root pane workspace", body.root_pane.workspace_id.as_str())?;
    require_id("tab creation", "root pane tab", body.root_pane.tab_id.as_str())?;
    if !str_equal(body.tab.workspace_id.as_str(), workspace_id) {
        return Err(Error::herdr_protocol(String::from_str("tab creation: created tab workspace does not match the request")));
    }
    if !str_equal(body.root_pane.workspace_id.as_str(), workspace_id) {
        return Err(Error::herdr_protocol(String::from_str("tab creation: created root pane workspace does not match the request")));
    }
    if !str_equal(body.root_pane.tab_id.as_str(), body.tab.tab_id.as_str()) {
        return Err(Error::herdr_protocol(String::from_str("tab creation: created root pane tab does not match the created tab")));
    }
    Ok(CreatedTab { tab_id: TabId::new(body.tab.tab_id.as_str()), pane_id: PaneId::new(body.root_pane.pane_id.as_str()) })
}

/// A created workspace must carry every identity, with its tab and root
/// pane inside it and the root pane in that tab.
pub open spec fn spec_validate_workspace(body: CreatedWorkspaceBody) -> Result<(Seq<char>, Seq<char>, Seq<char>), ErrorView> {
    let op = "workspace creation"@;
    if body.workspace.workspace_id@.len() == 0 {
        Err(missing_id_error(op, "workspace"@))
    } else if body.tab.tab_id@.len() == 0 {
        Err(missing_id_error(op, "tab"@))
    } else if body.tab.workspace_id@.len() == 0 {
        Err(missing_id_error(op, "tab workspace"@))
    } else if body.root_pane.pane_id@.len() == 0 {
        Err(missing_id_error(op, "root pane"@))
    } else if body.root_pane.workspace_id@.len() == 0 {
        Err(missing_id_error(op, "root pane workspace"@))
    } else if body.root_pane.tab_id@.len() == 0 {
        Err(missing_id_error(op, "root pane tab"@))
    } else if body.tab.workspace_id@ != body.workspace.workspace_id@ {
        Err(protocol_mismatch("workspace creation: created tab workspace does not match the workspace"@))
    } else if body.root_pane.workspace_id@ != body.workspace.workspace_id@ {
        Err(protocol_mismatch("workspace creation: created root pane workspace does not match the workspace"@))
    } else if body.root_pane.tab_id@ != body.tab.tab_id@ {
        Err(protocol_mismatch("workspace creation: created root pane tab does not match the created tab"@))
    } else {
        Ok((body.workspace.workspace_id@, body.tab.tab_id@, body.root_pane.pane_id@))
    }
}

pub fn validate_workspace(body: CreatedWorkspaceBody) -> (r: Result<CreatedWorkspace, Error>)
    ensures
        match r {
            Ok(w) => spec_validate_workspace(body) == Ok::<(Seq<char>, Seq<char>, Seq<char>), ErrorView>((w.workspace_id@, w.tab_id@, w.pane_id@)),
            Err(e) => spec_validate_workspace(body) == Err::<(Seq<char>, Seq<char>, Seq<char>), ErrorView>(e@),
        },
{
    require_id("workspace creation", "workspace", body.workspace.workspace_id.as_str())?;
    require_id("workspace creation", "tab", body.tab.tab_id.as_str())?;
    require_id("workspace creation", "tab workspace", body.tab.workspace_id.as_str())?;
    require_id("workspace creation", "root pane", body.root_pane.pane_id.as_str())?;
    require_id("workspace creation", "root pane workspace", body.root_pane.workspace_id.as_str())?;
    require_id("workspace creation", "root pane tab", body.root_pane.tab_id.as_str())?;
    if !str_equal(body.tab.workspace_id.as_str(), body.workspace.workspace_id.as_str()) {
        return Err(Error::herdr_protocol(String::from_str("workspace creation: created tab workspace does not match the workspace")));
    }
    if !str_equal(body.root_pane.workspace_id.as_str(), body.workspace.workspace_id.as_str()) {
        return Err(Error::herdr_protocol(String::from_str("workspace creation: created root pane workspace does not match the workspace")));
    }
    if !str_equal(body.root_pane.tab_id.as_str(), body.tab.tab_id.as_str()) {
        return Err(Error::herdr_protocol(String::from_str("workspace creation: created root pane tab does not match the created tab")));
    }
    Ok(CreatedWorkspace {
        workspace_id: WorkspaceId::new(body.workspace.workspace_id.as_str()),
        tab_id: TabId::new(body.tab.tab_id.as_str()),
        pane_id: PaneId::new(body.root_pane.pane_id.as_str()),
    })
}

/// The command never started, so nothing reached Herdr.
pub open spec fn spec_undispatched(e: ErrorView) -> bool {
    e.kind == ErrorKind::HerdrTransport && e.message == start_failed_text()
}

pub fn is_undispatched_start_failure(error: &Error) -> (r: bool)
    ensures
        r == spec_undispatched(error@),
{
    match error.kind() {
        ErrorKind::HerdrTransport => str_equal(error.message(), START_FAILED),
        _ => false,
    }
}

/// A failure after dispatch may have left a partial creation behind, which
/// is never rolled back: say so, unless it was an interruption or the
/// command never started.
pub open spec fn spec_ambiguous(operation: Seq<char>, e: RunErrorView) -> RunErrorView {
    match e {
        RunErrorView::Interrupted => RunErrorView::Interrupted,
        RunErrorView::Failed(f) => if spec_undispatched(f) {
            RunErrorView::Failed(f)
        } else {
            RunErrorView::Failed(ErrorView {
                kind: f.kind,
                message: f.message + "; "@ + operation + " may have partially completed and was not rolled back"@,
            })
        },
    }
}

pub fn ambiguous_after_dispatch(operation: &str, error: RunError) -> (r: RunError)
    ensures
        r@ == spec_ambiguous(operation@, error@),
{
    match error {
        RunError::Interrupted => RunError::Interrupted,
        RunError::Failed(failed) => {
            if is_undispatched_start_failure(&failed) {
                RunError::Failed(failed)
            } else {
                let head = concat(failed.message(), "; ");
                let with_op = concat(head.as_str(), operation);
                let message = concat(with_op.as_str(), " may have partially completed and was not rolled back");
                RunError::Failed(Error::new(failed.kind(), message))
            }
        },
    }
}

/// Herdr's own action rejection is reported as is; any other failure is
/// ambiguous.
pub open spec fn spec_keep_or_mark(operation: Seq<char>, e: RunErrorView) -> RunErrorView {
    match e {
        RunErrorView::Failed(f) if f.kind == ErrorKind::HerdrAction => e,
        _ => spec_ambiguous(operation, e),
    }
}

pub fn keep_or_mark_partial(operation: &str, error: RunError) -> (r: RunError)
    ensures
        r@ == spec_keep_or_mark(operation@, error@),
{
    let keep = match &error {
        RunError::Failed(failed) => match failed.kind() {
            ErrorKind::HerdrAction => true,
            _ => false,
        },
        RunError::Interrupted => false,
    };
    if keep { error } else { ambiguous_after_dispatch(operation, error) }
}

pub open spec fn strings_of(v: Seq<String>) -> Seq<Seq<char>> {
    v.map_values(|s: String| s@)
}

/// `tab create --workspace ID --cwd PATH --focus`; labels are never passed.
pub fn tab_create_args(workspace_id: &WorkspaceId, cwd: &CanonicalPath) -> (args: Vec<String>)
    ensures
        strings_of(args@) == seq!["tab"@, "create"@, "--workspace"@, workspace_id@, "--cwd"@, text_of(cwd@), "--focus"@],
{
    let mut args: Vec<String> = Vec::new();
    args.push(String::from_str("tab"));
    args.push(String::from_str("create"));
    args.push(String::from_str("--workspace"));
    args.push(String::from_str(workspace_id.as_str()));
    args.push(String::from_str("--cwd"));
    args.push(cwd.as_str());
    args.push(String::from_str("--focus"));
    assert(strings_of(args@) =~= seq!["tab"@, "create"@, "--workspace"@, workspace_id@, "--cwd"@, text_of(cwd@), "--focus"@]);
    args
}

/// `workspace create --cwd PATH --focus`; labels are never passed.
pub fn workspace_create_args(cwd: &CanonicalPath) -> (args: Vec<String>)
    ensures
        strings_of(args@) == seq!["workspace"@, "create"@, "--cwd"@, text_of(cwd@), "--focus"@],
{
    let mut args: Vec<String> = Vec::new();
    args.push(String::from_str("workspace"));
    args.push(String::from_str("create"));
    args.push(String::from_str("--cwd"));
    args.push(cwd.as_str());
    args.push(String::from_str("--focus"));
    assert(strings_of(args@) =~= seq!["workspace"@, "create"@, "--cwd"@, text_of(cwd@), "--focus"@]);
    args
}

/// Result of a tab create from the CLI run (`run`) and the decoding of its
/// payload (`envelope`): run failures are ambiguous, a completed result must
/// pass validation, not-found stays a result, and parse failures other than
/// Herdr's own rejection are ambiguous.
pub open spec fn spec_create_tab(run: Result<CliOutput, RunErrorView>, envelope: Option<Envelope<CreatedTabBody>>, workspace_id: Seq<char>) -> Result<CommandResultView<(Seq<char>, Seq<char>)>, RunErrorView> {
    let op = "tab creation"@;
    match run {
        Err(e) => Err(spec_ambiguous(op, e)),
        Ok(output) => match spec_parse_cli(output, envelope, "tab_created"@, op, ServerErrorStyle::Action, ""@) {
            Ok(CommandResultView::Completed(body)) => match spec_validate_tab(body, workspace_id) {
                Ok(ids) => Ok(CommandResultView::Completed(ids)),
                Err(e) => Err(spec_ambiguous(op, RunErrorView::Failed(e))),
            },
            Ok(CommandResultView::NotFound { code, message }) => Ok(CommandResultView::NotFound { code, message }),
            Err(e) => Err(spec_keep_or_mark(op, e)),
        },
    }
}

pub open spec fn run_view(run: Result<CliOutput, RunError>) -> Result<CliOutput, RunErrorView> {
    match run {
        Ok(o) => Ok(o),
        Err(e) => Err(e@),
    }
}

pub open spec fn created_tab_view(r: CommandResult<CreatedTab>) -> CommandResultView<(Seq<char>, Seq<char>)> {
    match r {
        CommandResult::Completed(t) => CommandResultView::Completed((t.tab_id@, t.pane_id@)),
        CommandResult::NotFound { code, message } => CommandResultView::NotFound { code: code@, message: message@ },
    }
}

pub fn create_tab(run: Result<CliOutput, RunError>, envelope: Option<Envelope<CreatedTabBody>>, workspace_id: &WorkspaceId) -> (r: Result<CommandResult<CreatedTab>, RunError>)
    ensures
        match r {
            Ok(c) => spec_create_tab(run_view(run), envelope, workspace_id@) == Ok::<CommandResultView<(Seq<char>, Seq<char>)>, RunErrorView>(created_tab_view(c)),
            Err(e) => spec_create_tab(run_view(run), envelope, workspace_id@) == Err::<CommandResultView<(Seq<char>, Seq<char>)>, RunErrorView>(e@),
        },
{
    let output = match run {
        Ok(output) => output,
        Err(error) => return Err(ambiguous_after_dispatch("tab creation", error)),
    };
    match parse_cli(&output, envelope, "tab_created", "tab creation", ServerErrorStyle::Action, "") {
        Ok(CommandResult::Completed(body)) => match validate_tab(body, workspace_id.as_str()) {
            Ok(created) => Ok(CommandResult::Completed(created)),
            Err(error) => Err(ambiguous_after_dispatch("tab creation", RunError::Failed(error))),
        },
        Ok(CommandResult::NotFound { code, message }) => Ok(CommandResult::NotFound { code, message }),
        Err(error) => Err(keep_or_mark_partial("tab creation", error)),
    }
}

pub open spec fn spec_create_workspace(run: Result<CliOutput, RunErrorView>, envelope: Option<Envelope<CreatedWorkspaceBody>>) -> Result<CommandResultView<(Seq<char>, Seq<char>, Seq<char>)>, RunErrorView> {
    let op = "workspace creation"@;
    match run {
        Err(e) => Err(spec_ambiguous(op, e)),
        Ok(output) => match spec_parse_cli(output, envelope, "workspace_created"@, op, ServerErrorStyle::Action, ""@) {
            Ok(CommandResultView::Completed(body)) => match spec_validate_workspace(body) {
                Ok(ids) => Ok(CommandResultView::Completed(ids)),
                Err(e) => Err(spec_ambiguous(op, RunErrorView::Failed(e))),
            },
            Ok(CommandResultView::NotFound { code, message }) => Ok(CommandResultView::NotFound { code, message }),
            Err(e) => Err(spec_keep_or_mark(op, e)),
        },
    }
}

pub open spec fn created_workspace_view(r: CommandResult<CreatedWorkspace>) -> CommandResultView<(Seq<char>, Seq<char>, Seq<char>)> {
    match r {
        CommandResult::Completed(w) => CommandResultView::Completed((w.workspace_id@, w.tab_id@, w.pane_id@)),
        CommandResult::NotFound { code, message } => CommandResultView::NotFound { code: code@, message: message@ },
    }
}

pub fn create_workspace(run: Result<CliOutput, RunError>, envelope: Option<Envelope<CreatedWorkspaceBody>>) -> (r: Result<CommandResult<CreatedWorkspace>, RunError>)
    ensures
        match r {
            Ok(c) => spec_create_workspace(run_view(run), envelope) == Ok::<CommandResultView<(Seq<char>, Seq<char>, Seq<char>)>, RunErrorView>(created_workspace_view(c)),
            Err(e) => spec_create_workspace(run_view(run), envelope) == Err::<CommandResultView<(Seq<char>, Seq<char>, Seq<char>)>, RunErrorView>(e@),
        },
{
    let output = match run {
        Ok(output) => output,
        Err(error) => return Err(ambiguous_after_dispatch("workspace creation", error)),
    };
    match parse_cli(&output, envelope, "workspace_created", "workspace creation", ServerErrorStyle::Action, "") {
        Ok(CommandResult::Completed(body)) => match validate_workspace(body) {
            Ok(created) => Ok(CommandResult::Completed(created)),
            Err(error) => Err(ambiguous_after_dispatch("workspace creation", RunError::Failed(error))),
        },
        Ok(CommandResult::NotFound { code, message }) => Ok(CommandResult::NotFound { code, message }),
        Err(error) => Err(keep_or_mark_partial("workspace creation", error)),
    }
}

} // verus!
