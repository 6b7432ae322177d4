//! Which tools run without asking, and what a tool call needs permission for.

use vstd::prelude::*;
use vstd::string::*;

use crate::channel::{InteractionRequest, InteractionRequestView};
use crate::filesystem::{
    is_absolute, join_path, path_is_absolute, path_join, OverlayFilesystem,
    SessionFilesystem,
};
use crate::message::{PendingToolCall, PendingToolCallView};
use crate::text;

verus! {

/// How much harm a tool can do.
#[derive(Clone, Copy, Debug, PartialEq, Eq, Structural)]
pub enum RiskLevel {
    High,
    Medium,
    Low,
}

impl DeepView for RiskLevel {
    type V = RiskLevel;

    open spec fn deep_view(&self) -> RiskLevel {
        *self
    }
}

/// What a tool call does.
#[derive(Clone, Copy, Debug, PartialEq, Eq, Structural)]
pub enum PermissionScope {
    Read,
    Write,
    Execute,
    ProcessControl,
    AgentControl,
}

impl DeepView for PermissionScope {
    type V = PermissionScope;

    open spec fn deep_view(&self) -> PermissionScope {
        *self
    }
}

/// What a rule says about a tool call.
#[derive(Clone, Copy, Debug, PartialEq, Eq, Structural)]
pub enum PermissionDecision {
    Allow,
    Deny,
    Ask,
    Defer,
}

impl DeepView for PermissionDecision {
    type V = PermissionDecision;

    open spec fn deep_view(&self) -> PermissionDecision {
        *self
    }
}

/// What a tool call acts on.
#[derive(Debug)]
pub enum PermissionResource {
    /// Nothing in particular.
    Nothing,
    /// A file or a directory.
    Path { path: String },
    /// A command of the shell.
    Command { command: String },
    /// A session.
    Process { target: String },
    /// The agents that a tool manages.
    Agent { target: String },
}

/// The model of [`PermissionResource`].
#[verifier::ext_equal]
pub enum PermissionResourceView {
    Nothing,
    Path { path: Seq<char> },
    Command { command: Seq<char> },
    Process { target: Seq<char> },
    Agent { target: Seq<char> },
}

impl DeepView for PermissionResource {
    type V = PermissionResourceView;

    open spec fn deep_view(&self) -> PermissionResourceView {
        match *self {
            PermissionResource::Nothing => PermissionResourceView::Nothing,
            PermissionResource::Path { path } => PermissionResourceView::Path {
                path: path.deep_view(),
            },
            PermissionResource::Command { command } => PermissionResourceView::Command {
                command: command.deep_view(),
            },
            PermissionResource::Process { target } => PermissionResourceView::Process {
                target: target.deep_view(),
            },
            PermissionResource::Agent { target } => PermissionResourceView::Agent {
                target: target.deep_view(),
            },
        }
    }
}

impl Clone for PermissionResource {
    fn clone(&self) -> (r: Self)
        ensures
            r.deep_view() == self.deep_view(),
    {
        match self {
            PermissionResource::Nothing => PermissionResource::Nothing,
            PermissionResource::Path { path } => {
                PermissionResource::Path { path: path.clone() }
            },
            PermissionResource::Command { command } => {
                PermissionResource::Command { command: command.clone() }
            },
            PermissionResource::Process { target } => {
                PermissionResource::Process { target: target.clone() }
            },
            PermissionResource::Agent { target } => {
                PermissionResource::Agent { target: target.clone() }
            },
        }
    }
}

/// What a tool call needs permission for.
#[derive(Debug)]
pub struct PermissionRequest {
    pub tool_name: String,
    pub action: Option<String>,
    pub scope: PermissionScope,
    pub resource: PermissionResource,
}

/// The model of [`PermissionRequest`].
#[verifier::ext_equal]
pub struct PermissionRequestView {
    pub tool_name: Seq<char>,
    pub action: Option<Seq<char>>,
    pub scope: PermissionScope,
    pub resource: PermissionResourceView,
}

impl DeepView for PermissionRequest {
    type V = PermissionRequestView;

    open spec fn deep_view(&self) -> PermissionRequestView {
        PermissionRequestView {
            tool_name: self.tool_name.deep_view(),
            action: self.action.deep_view(),
            scope: self.scope,
            resource: self.resource.deep_view(),
        }
    }
}

impl Clone for PermissionRequest {
    fn clone(&self) -> (r: Self)
        ensures
            r.deep_view() == self.deep_view(),
    {
        let r = PermissionRequest {
            tool_name: self.tool_name.clone(),
            action: self.action.clone(),
            scope: self.scope,
            resource: self.resource.clone(),
        };
        assert(r.action.deep_view() =~= self.action.deep_view());
        r
    }
}

/// What the tool itself says about a call.
#[derive(Debug)]
pub struct ToolLocalDecision {
    pub decision: PermissionDecision,
    pub reason: Option<String>,
}

/// The model of [`ToolLocalDecision`].
#[verifier::ext_equal]
pub struct ToolLocalDecisionView {
    pub decision: PermissionDecision,
    pub reason: Option<Seq<char>>,
}

impl DeepView for ToolLocalDecision {
    type V = ToolLocalDecisionView;

    open spec fn deep_view(&self) -> ToolLocalDecisionView {
        ToolLocalDecisionView {
            decision: self.decision,
            reason: self.reason.deep_view(),
        }
    }
}

impl Clone for ToolLocalDecision {
    fn clone(&self) -> (r: Self)
        ensures
            r.deep_view() == self.deep_view(),
    {
        let r = ToolLocalDecision {
            decision: self.decision,
            reason: self.reason.clone(),
        };
        assert(r.reason.deep_view() =~= self.reason.deep_view());
        r
    }
}

/// What the permission rules say about a call.
#[derive(Debug)]
pub enum PermissionVerdict {
    Allowed,
    /// The user has to be asked.
    NeedsApproval { request: InteractionRequest, reason: String },
    Denied { reason: String },
}

/// The model of [`PermissionVerdict`].
#[verifier::ext_equal]
pub enum PermissionVerdictView {
    Allowed,
    NeedsApproval { request: InteractionRequestView, reason: Seq<char> },
    Denied { reason: Seq<char> },
}

impl DeepView for PermissionVerdict {
    type V = PermissionVerdictView;

    open spec fn deep_view(&self) -> PermissionVerdictView {
        match *self {
            PermissionVerdict::Allowed => PermissionVerdictView::Allowed,
            PermissionVerdict::NeedsApproval {
                request,
                reason,
            } => PermissionVerdictView::NeedsApproval {
                request: request.deep_view(),
                reason: reason.deep_view(),
            },
            PermissionVerdict::Denied { reason } => PermissionVerdictView::Denied {
                reason: reason.deep_view(),
            },
        }
    }
}

impl Clone for PermissionVerdict {
    fn clone(&self) -> (r: Self)
        ensures
            r.deep_view() == self.deep_view(),
    {
        match self {
            PermissionVerdict::Allowed => PermissionVerdict::Allowed,
            PermissionVerdict::NeedsApproval { request, reason } => {
                PermissionVerdict::NeedsApproval {
                    request: request.clone(),
                    reason: reason.clone(),
                }
            },
            PermissionVerdict::Denied { reason } => {
                PermissionVerdict::Denied { reason: reason.clone() }
            },
        }
    }
}

/// What the permission rules said about a call of a tool.
#[derive(Debug)]
pub struct PermissionOutcome {
    pub tool_name: String,
    pub verdict: PermissionVerdict,
}

/// The model of [`PermissionOutcome`].
#[verifier::ext_equal]
pub struct PermissionOutcomeView {
    pub tool_name: Seq<char>,
    pub verdict: PermissionVerdictView,
}

impl DeepView for PermissionOutcome {
    type V = PermissionOutcomeView;

    open spec fn deep_view(&self) -> PermissionOutcomeView {
        PermissionOutcomeView {
            tool_name: self.tool_name.deep_view(),
            verdict: self.verdict.deep_view(),
        }
    }
}

impl Clone for PermissionOutcome {
    fn clone(&self) -> (r: Self)
        ensures
            r.deep_view() == self.deep_view(),
    {
        PermissionOutcome { tool_name: self.tool_name.clone(), verdict: self.verdict.clone() }
    }
}

/// How much harm a tool can do: the shell a lot, writing and editing some, others little.
pub open spec fn risk(tool_name: Seq<char>) -> RiskLevel {
    if tool_name == "Bash"@ {
        RiskLevel::High
    } else if tool_name == "Write"@ || tool_name == "Edit"@ {
        RiskLevel::Medium
    } else {
        RiskLevel::Low
    }
}

/// Decides which tools run without asking.
#[derive(Debug)]
pub struct PermissionManager;

impl PermissionManager {
    /// A manager.
    pub fn new() -> (r: PermissionManager)
        ensures
            r == PermissionManager,
    {
        PermissionManager
    }

    /// How much harm a tool can do.
    pub fn risk_level(tool_name: &str) -> (r: RiskLevel)
        ensures
            r == risk(tool_name@),
    {
        if text::same(tool_name, "Bash") {
            RiskLevel::High
        } else if text::same(tool_name, "Write") || text::same(tool_name, "Edit") {
            RiskLevel::Medium
        } else {
            RiskLevel::Low
        }
    }

    /// Whether a tool runs without asking: only one that can do little harm does.
    pub fn check(&mut self, tool_name: &str, _detail: &str) -> (r: bool)
        ensures
            r == (risk(tool_name@) == RiskLevel::Low),
            *final(self) == *old(self),
    {
        PermissionManager::risk_level(tool_name) == RiskLevel::Low
    }
}

/// What a call of a tool does.
pub open spec fn scope_of(tool_name: Seq<char>, read_only: bool) -> PermissionScope {
    if tool_name == "read_file"@ || tool_name == "find"@ {
        PermissionScope::Read
    } else if tool_name == "apply_patch"@ {
        PermissionScope::Write
    } else if tool_name == "bash"@ {
        PermissionScope::Execute
    } else if tool_name == "signal"@ {
        PermissionScope::ProcessControl
    } else if manages_agents(tool_name) {
        PermissionScope::AgentControl
    } else if tool_name == "send_message"@ || tool_name == "recv_message"@ || tool_name
        == "ask_user"@ || tool_name == "plan"@ || read_only {
        PermissionScope::Read
    } else {
        PermissionScope::Write
    }
}

/// Whether a tool makes other agents or waits for them.
pub open spec fn manages_agents(tool_name: Seq<char>) -> bool {
    tool_name == "spawn"@ || tool_name == "subagent"@ || tool_name == "wait_child"@
}

/// The place that a path argument leads to. A path that the filesystem refuses is taken as
/// it is, behind the working directory if it is relative.
pub open spec fn permission_path(
    filesystem: OverlayFilesystem,
    working_directory: Seq<char>,
    path: Option<Seq<char>>,
) -> PermissionResourceView {
    let candidate = match path {
        Some(path) => path,
        None => "."@,
    };
    PermissionResourceView::Path {
        path: match filesystem.resolves(candidate) {
            Ok(resolved) => resolved,
            Err(_) => if is_absolute(candidate) {
                candidate
            } else {
                path_join(working_directory, candidate)
            },
        },
    }
}

/// What a tool call acts on.
pub open spec fn resource_of(
    filesystem: OverlayFilesystem,
    working_directory: Seq<char>,
    call: PendingToolCallView,
) -> PermissionResourceView {
    if call.tool_name == "read_file"@ || call.tool_name == "apply_patch"@ {
        permission_path(filesystem, working_directory, call.arguments.text("file_path"@))
    } else if call.tool_name == "find"@ {
        permission_path(filesystem, working_directory, call.arguments.text("path"@))
    } else if call.tool_name == "bash"@ {
        match call.arguments.text("command"@) {
            Some(command) => PermissionResourceView::Command { command },
            None => PermissionResourceView::Nothing,
        }
    } else if call.tool_name == "signal"@ {
        match call.arguments.text("session_id"@) {
            Some(target) => PermissionResourceView::Process { target },
            None => PermissionResourceView::Nothing,
        }
    } else if manages_agents(call.tool_name) {
        PermissionResourceView::Agent { target: call.tool_name }
    } else {
        PermissionResourceView::Nothing
    }
}

/// What the tool itself says about a call: the shell refuses to remove everything, and
/// every tool leaves all else to the rules. A shell call without a command says nothing.
pub open spec fn local_decision(call: PendingToolCallView) -> Option<ToolLocalDecisionView> {
    if call.tool_name == "bash"@ {
        match call.arguments.text("command"@) {
            Some(command) => Some(
                if "rm -rf /"@.is_prefix_of(text::trimmed(command)) {
                    ToolLocalDecisionView {
                        decision: PermissionDecision::Deny,
                        reason: Some("dangerous destructive shell command"@),
                    }
                } else {
                    ToolLocalDecisionView {
                        decision: PermissionDecision::Defer,
                        reason: Some(
                            "bash delegates final permission decision to the shared engine"@,
                        ),
                    }
                },
            ),
            None => None,
        }
    } else {
        Some(
            ToolLocalDecisionView {
                decision: PermissionDecision::Defer,
                reason: Some("tool defers to the shared permission engine"@),
            },
        )
    }
}

/// The place that a path argument leads to.
pub fn resolved_permission_path(
    filesystem: &OverlayFilesystem,
    working_directory: &str,
    raw_path: Option<String>,
) -> (r: PermissionResource)
    ensures
        r.deep_view() == permission_path(
            *filesystem,
            working_directory@,
            raw_path.deep_view(),
        ),
{
    let candidate = match raw_path {
        Some(path) => path,
        None => ".".to_owned(),
    };
    let path = match filesystem.resolve_path(candidate.as_str()) {
        Ok(path) => path,
        Err(_) => {
            if path_is_absolute(candidate.as_str()) {
                candidate
            } else {
                join_path(working_directory, candidate.as_str())
            }
        },
    };
    PermissionResource::Path { path }
}

/// What a call of a tool does.
fn permission_scope(tool_name: &str, read_only: bool) -> (r: PermissionScope)
    ensures
        r == scope_of(tool_name@, read_only),
{
    if text::same(tool_name, "read_file") || text::same(tool_name, "find") {
        PermissionScope::Read
    } else if text::same(tool_name, "apply_patch") {
        PermissionScope::Write
    } else if text::same(tool_name, "bash") {
        PermissionScope::Execute
    } else if text::same(tool_name, "signal") {
        PermissionScope::ProcessControl
    } else if tool_manages_agents(tool_name) {
        PermissionScope::AgentControl
    } else if text::same(tool_name, "send_message") || text::same(tool_name, "recv_message")
        || text::same(tool_name, "ask_user") || text::same(tool_name, "plan") || read_only {
        PermissionScope::Read
    } else {
        PermissionScope::Write
    }
}

/// Whether a tool makes other agents or waits for them.
fn tool_manages_agents(tool_name: &str) -> (r: bool)
    ensures
        r == manages_agents(tool_name@),
{
    text::same(tool_name, "spawn") || text::same(tool_name, "subagent") || text::same(
        tool_name,
        "wait_child",
    )
}

/// What a tool call acts on.
fn permission_resource(
    filesystem: &OverlayFilesystem,
    working_directory: &str,
    call: &PendingToolCall,
) -> (r: PermissionResource)
    ensures
        r.deep_view() == resource_of(*filesystem, working_directory@, call.deep_view()),
{
    let tool_name = call.tool_name.as_str();
    if text::same(tool_name, "read_file") || text::same(tool_name, "apply_patch") {
        resolved_permission_path(filesystem, working_directory, call.arguments.text("file_path"))
    } else if text::same(tool_name, "find") {
        resolved_permission_path(filesystem, working_directory, call.arguments.text("path"))
    } else if text::same(tool_name, "bash") {
        match call.arguments.text("command") {
            Some(command) => PermissionResource::Command { command },
            None => PermissionResource::Nothing,
        }
    } else if text::same(tool_name, "signal") {
        match call.arguments.text("session_id") {
            Some(target) => PermissionResource::Process { target },
            None => PermissionResource::Nothing,
        }
    } else if tool_manages_agents(tool_name) {
        PermissionResource::Agent { target: call.tool_name.clone() }
    } else {
        PermissionResource::Nothing
    }
}

/// What the tool itself says about a call.
fn tool_local_decision(call: &PendingToolCall) -> (r: Option<ToolLocalDecision>)
    ensures
        r.deep_view() == local_decision(call.deep_view()),
{
    if text::same(call.tool_name.as_str(), "bash") {
        match call.arguments.text("command") {
            Some(command) => {
                let trimmed = text::trim(command.as_str());
                if text::starts_with(trimmed.as_str(), "rm -rf /") {
                    Some(
                        ToolLocalDecision {
                            decision: PermissionDecision::Deny,
                            reason: Some("dangerous destructive shell command".to_owned()),
                        },
                    )
                } else {
                    Some(
                        ToolLocalDecision {
                            decision: PermissionDecision::Defer,
                            reason: Some(
                                "bash delegates final permission decision to the shared engine".to_owned(),
                            ),
                        },
                    )
                }
            },
            None => None,
        }
    } else {
        Some(
            ToolLocalDecision {
                decision: PermissionDecision::Defer,
                reason: Some("tool defers to the shared permission engine".to_owned()),
            },
        )
    }
}

/// What a tool call needs permission for, and what the tool itself says about it.
pub fn build_permission_request(
    filesystem: &OverlayFilesystem,
    working_directory: &str,
    call: &PendingToolCall,
    tool_is_read_only: bool,
) -> (r: (PermissionRequest, Option<ToolLocalDecision>))
    ensures
        r.0.deep_view() == (PermissionRequestView {
            tool_name: call.tool_name@,
            action: None,
            scope: scope_of(call.tool_name@, tool_is_read_only),
            resource: resource_of(*filesystem, working_directory@, call.deep_view()),
        }),
        r.1.deep_view() == local_decision(call.deep_view()),
{
    let request = PermissionRequest {
        tool_name: call.tool_name.clone(),
        action: None,
        scope: permission_scope(call.tool_name.as_str(), tool_is_read_only),
        resource: permission_resource(filesystem, working_directory, call),
    };
    (request, tool_local_decision(call))
}

} // verus!
