//! What a session is: how it is made, restored, changed and stopped.

use std::collections::VecDeque;

use vstd::prelude::*;
use vstd::string::*;

use crate::channel::{CoreOutput, CoreOutputView, MailboxMessage, MailboxMessageView};
use crate::compaction::CompactionSource;
use crate::log::utc_now;
use crate::message::{
    text_message, Message, MessageContent, MessageContentView, MessageView, Role, ToolDefinition,
    ToolDefinitionView,
};
use crate::permissions::{PermissionOutcome, PermissionOutcomeView};
use crate::prompt::{
    build_combined_system_prompt, system_prompt, ProjectInstructions, ProjectInstructionsView,
    PromptMemoryMode, SkillPrompt, SkillPromptView,
};
use crate::restore::{law_restored_history_stays, sanitize_restored_history, sanitized};
use crate::session::{uuid_text, SessionId, SessionState};
use crate::status_report::{same_report, SessionStatusReport, SessionStatusReportView};
use crate::text;
use crate::tools::{ToolInfo, ToolInfoView};
use crate::wait::{SuspendedWait, SuspendedWaitView};

verus! {

broadcast use vstd::seq::group_seq_axioms;

/// Whether there is a user who can be asked for permission.
#[derive(Clone, Copy, Debug, PartialEq, Eq, Structural)]
pub enum PermissionPromptBehavior {
    Interactive,
    Headless,
}

impl DeepView for PermissionPromptBehavior {
    type V = PermissionPromptBehavior;

    open spec fn deep_view(&self) -> PermissionPromptBehavior {
        *self
    }
}

/// How far a step of the session memory came.
#[derive(Clone, Copy, Debug, PartialEq, Eq, Structural)]
pub enum MemoryStatus {
    NotRun,
    Skipped,
    Succeeded,
    FailedBestEffort,
}

impl DeepView for MemoryStatus {
    type V = MemoryStatus;

    open spec fn deep_view(&self) -> MemoryStatus {
        *self
    }
}

/// Why a step of the session memory was not taken, or failed.
#[derive(Clone, Copy, Debug, PartialEq, Eq, Structural)]
pub enum MemoryReason {
    Disabled,
    NotAttempted,
    NoActivityYet,
    RefreshNotNeeded,
    MissingSummary,
    Fallback,
}

impl DeepView for MemoryReason {
    type V = MemoryReason;

    open spec fn deep_view(&self) -> MemoryReason {
        *self
    }
}

/// A tool as it is registered.
#[derive(Debug)]
pub struct ToolSpec {
    pub definition: ToolDefinition,
    /// Whether it asks the user.
    pub interactive: bool,
}

/// The model of [`ToolSpec`].
#[verifier::ext_equal]
pub struct ToolSpecView {
    pub definition: ToolDefinitionView,
    pub interactive: bool,
}

impl DeepView for ToolSpec {
    type V = ToolSpecView;

    open spec fn deep_view(&self) -> ToolSpecView {
        ToolSpecView {
            definition: self.definition.deep_view(),
            interactive: self.interactive,
        }
    }
}

impl Clone for ToolSpec {
    fn clone(&self) -> (r: Self)
        ensures
            r.deep_view() == self.deep_view(),
    {
        ToolSpec {
            definition: self.definition.clone(),
            interactive: self.interactive,
        }
    }
}

/// A skill of a session.
#[derive(Debug)]
pub struct Skill {
    pub prompt: SkillPrompt,
    pub tools: Vec<ToolSpec>,
}

/// The model of [`Skill`].
#[verifier::ext_equal]
pub struct SkillView {
    pub prompt: SkillPromptView,
    pub tools: Seq<ToolSpecView>,
}

impl DeepView for Skill {
    type V = SkillView;

    open spec fn deep_view(&self) -> SkillView {
        SkillView {
            prompt: self.prompt.deep_view(),
            tools: self.tools.deep_view(),
        }
    }
}

/// The part of a session that is chosen when it is made.
#[derive(Debug)]
pub struct SessionConfig {
    pub system_prompt: Option<String>,
    pub skill_names: Vec<String>,
    pub working_directory: String,
    pub plan_mode: bool,
    pub prompt_behavior: PermissionPromptBehavior,
    pub prompt_memory_mode: PromptMemoryMode,
    pub agent_key: Option<String>,
    pub team_key: Option<String>,
    pub model_profile: Option<String>,
    pub session_group: Option<String>,
    pub auto_compact_threshold_percent: u8,
    pub status_report_min_tool_rounds: u32,
}

/// The model of [`SessionConfig`].
#[verifier::ext_equal]
pub struct SessionConfigView {
    pub system_prompt: Option<Seq<char>>,
    pub skill_names: Seq<Seq<char>>,
    pub working_directory: Seq<char>,
    pub plan_mode: bool,
    pub prompt_behavior: PermissionPromptBehavior,
    pub prompt_memory_mode: PromptMemoryMode,
    pub agent_key: Option<Seq<char>>,
    pub team_key: Option<Seq<char>>,
    pub model_profile: Option<Seq<char>>,
    pub session_group: Option<Seq<char>>,
    pub auto_compact_threshold_percent: u8,
    pub status_report_min_tool_rounds: u32,
}

impl DeepView for SessionConfig {
    type V = SessionConfigView;

    open spec fn deep_view(&self) -> SessionConfigView {
        SessionConfigView {
            system_prompt: self.system_prompt.deep_view(),
            skill_names: self.skill_names.deep_view(),
            working_directory: self.working_directory.deep_view(),
            plan_mode: self.plan_mode,
            prompt_behavior: self.prompt_behavior,
            prompt_memory_mode: self.prompt_memory_mode,
            agent_key: self.agent_key.deep_view(),
            team_key: self.team_key.deep_view(),
            model_profile: self.model_profile.deep_view(),
            session_group: self.session_group.deep_view(),
            auto_compact_threshold_percent: self.auto_compact_threshold_percent,
            status_report_min_tool_rounds: self.status_report_min_tool_rounds,
        }
    }
}

impl Clone for SessionConfig {
    fn clone(&self) -> (r: Self)
        ensures
            r.deep_view() == self.deep_view(),
    {
        let r = SessionConfig {
            system_prompt: self.system_prompt.clone(),
            skill_names: self.skill_names.clone(),
            working_directory: self.working_directory.clone(),
            plan_mode: self.plan_mode,
            prompt_behavior: self.prompt_behavior,
            prompt_memory_mode: self.prompt_memory_mode,
            agent_key: self.agent_key.clone(),
            team_key: self.team_key.clone(),
            model_profile: self.model_profile.clone(),
            session_group: self.session_group.clone(),
            auto_compact_threshold_percent: self.auto_compact_threshold_percent,
            status_report_min_tool_rounds: self.status_report_min_tool_rounds,
        };
        assert(r.system_prompt.deep_view() =~= self.system_prompt.deep_view());
        assert(r.skill_names.deep_view() =~= self.skill_names.deep_view());
        assert(r.agent_key.deep_view() =~= self.agent_key.deep_view());
        assert(r.team_key.deep_view() =~= self.team_key.deep_view());
        assert(r.model_profile.deep_view() =~= self.model_profile.deep_view());
        assert(r.session_group.deep_view() =~= self.session_group.deep_view());
        r
    }
}

/// What is kept of a session while the core is down.
#[derive(Debug)]
pub struct SavedSession {
    pub session_id: SessionId,
    /// In RFC 3339.
    pub created_at: String,
    pub state: SessionState,
    pub config: SessionConfig,
    pub history: Vec<Message>,
    pub status_report: Option<SessionStatusReport>,
    pub approval_pending: bool,
    pub last_permission: Option<PermissionOutcome>,
    pub memory: Option<SavedMemory>,
    pub diagnostics: Option<MemoryDiagnostics>,
}

/// The model of [`SavedSession`].
#[verifier::ext_equal]
pub struct SavedSessionView {
    pub session_id: SessionId,
    pub created_at: Seq<char>,
    pub state: SessionState,
    pub config: SessionConfigView,
    pub history: Seq<MessageView>,
    pub status_report: Option<SessionStatusReportView>,
    pub approval_pending: bool,
    pub last_permission: Option<PermissionOutcomeView>,
    pub memory: Option<SavedMemoryView>,
    pub diagnostics: Option<MemoryDiagnosticsView>,
}

impl DeepView for SavedSession {
    type V = SavedSessionView;

    open spec fn deep_view(&self) -> SavedSessionView {
        SavedSessionView {
            session_id: self.session_id,
            created_at: self.created_at.deep_view(),
            state: self.state,
            config: self.config.deep_view(),
            history: self.history.deep_view(),
            status_report: self.status_report.deep_view(),
            approval_pending: self.approval_pending,
            last_permission: self.last_permission.deep_view(),
            memory: self.memory.deep_view(),
            diagnostics: self.diagnostics.deep_view(),
        }
    }
}

/// What is kept of the summary of a session.
#[derive(Debug)]
pub struct SavedMemory {
    pub enabled: bool,
    pub last_summarized_message_index: Option<usize>,
    pub listing_summary: Option<String>,
}

/// The model of [`SavedMemory`].
#[verifier::ext_equal]
pub struct SavedMemoryView {
    pub enabled: bool,
    pub last_summarized_message_index: Option<usize>,
    pub listing_summary: Option<Seq<char>>,
}

impl DeepView for SavedMemory {
    type V = SavedMemoryView;

    open spec fn deep_view(&self) -> SavedMemoryView {
        SavedMemoryView {
            enabled: self.enabled,
            last_summarized_message_index: self.last_summarized_message_index,
            listing_summary: self.listing_summary.deep_view(),
        }
    }
}

/// What a session is made from.
#[derive(Debug)]
pub struct SessionInit {
    pub system_prompt: Option<String>,
    pub skills: Vec<Skill>,
    pub working_directory: String,
    pub plan_mode: bool,
    pub prompt_behavior: PermissionPromptBehavior,
    pub initial_messages: Vec<Message>,
    pub max_context_window: Option<u64>,
    pub prompt_memory_mode: PromptMemoryMode,
    pub agent_key: Option<String>,
    pub team_key: Option<String>,
    pub model_profile: Option<String>,
    pub session_group: Option<String>,
    pub auto_compact_threshold_percent: u8,
    pub status_report_min_tool_rounds: u32,
}

/// The model of [`SessionInit`].
#[verifier::ext_equal]
pub struct SessionInitView {
    pub system_prompt: Option<Seq<char>>,
    pub skills: Seq<SkillView>,
    pub working_directory: Seq<char>,
    pub plan_mode: bool,
    pub prompt_behavior: PermissionPromptBehavior,
    pub initial_messages: Seq<MessageView>,
    pub max_context_window: Option<u64>,
    pub prompt_memory_mode: PromptMemoryMode,
    pub agent_key: Option<Seq<char>>,
    pub team_key: Option<Seq<char>>,
    pub model_profile: Option<Seq<char>>,
    pub session_group: Option<Seq<char>>,
    pub auto_compact_threshold_percent: u8,
    pub status_report_min_tool_rounds: u32,
}

impl DeepView for SessionInit {
    type V = SessionInitView;

    open spec fn deep_view(&self) -> SessionInitView {
        SessionInitView {
            system_prompt: self.system_prompt.deep_view(),
            skills: self.skills.deep_view(),
            working_directory: self.working_directory.deep_view(),
            plan_mode: self.plan_mode,
            prompt_behavior: self.prompt_behavior,
            initial_messages: self.initial_messages.deep_view(),
            max_context_window: self.max_context_window,
            prompt_memory_mode: self.prompt_memory_mode,
            agent_key: self.agent_key.deep_view(),
            team_key: self.team_key.deep_view(),
            model_profile: self.model_profile.deep_view(),
            session_group: self.session_group.deep_view(),
            auto_compact_threshold_percent: self.auto_compact_threshold_percent,
            status_report_min_tool_rounds: self.status_report_min_tool_rounds,
        }
    }
}

/// The tools that the host offers to sessions.
#[derive(Debug)]
pub struct ToolBelt {
    /// Those that every session has.
    pub observing: Vec<ToolSpec>,
    /// Those that a session in plan mode does not have.
    pub acting: Vec<ToolSpec>,
    /// Whether the tools for the web can be used.
    pub web_configured: bool,
}

/// The model of [`ToolBelt`].
#[verifier::ext_equal]
pub struct ToolBeltView {
    pub observing: Seq<ToolSpecView>,
    pub acting: Seq<ToolSpecView>,
    pub web_configured: bool,
}

impl DeepView for ToolBelt {
    type V = ToolBeltView;

    open spec fn deep_view(&self) -> ToolBeltView {
        ToolBeltView {
            observing: self.observing.deep_view(),
            acting: self.acting.deep_view(),
            web_configured: self.web_configured,
        }
    }
}

/// What is known of the summary of a session.
#[derive(Debug)]
pub struct SessionMemory {
    pub enabled: bool,
    pub refresh_in_flight: bool,
    pub last_summarized_message_index: Option<usize>,
    /// In RFC 3339.
    pub last_refresh_at: Option<String>,
    pub listing_summary: Option<String>,
}

/// The model of [`SessionMemory`].
#[verifier::ext_equal]
pub struct SessionMemoryView {
    pub enabled: bool,
    pub refresh_in_flight: bool,
    pub last_summarized_message_index: Option<usize>,
    pub last_refresh_at: Option<Seq<char>>,
    pub listing_summary: Option<Seq<char>>,
}

impl DeepView for SessionMemory {
    type V = SessionMemoryView;

    open spec fn deep_view(&self) -> SessionMemoryView {
        SessionMemoryView {
            enabled: self.enabled,
            refresh_in_flight: self.refresh_in_flight,
            last_summarized_message_index: self.last_summarized_message_index,
            last_refresh_at: self.last_refresh_at.deep_view(),
            listing_summary: self.listing_summary.deep_view(),
        }
    }
}

/// What the session memory did in a turn.
#[derive(Debug)]
pub struct MemoryDiagnostics {
    pub refresh_attempted: bool,
    pub refresh_status: MemoryStatus,
    pub refresh_reason: Option<MemoryReason>,
    pub refreshed_index: Option<usize>,
    pub refreshed_at: Option<String>,
    pub compaction_status: MemoryStatus,
    pub compaction_source: Option<CompactionSource>,
    pub compaction_reason: Option<MemoryReason>,
    pub compaction_tail_start: Option<usize>,
}

/// The model of [`MemoryDiagnostics`].
#[verifier::ext_equal]
pub struct MemoryDiagnosticsView {
    pub refresh_attempted: bool,
    pub refresh_status: MemoryStatus,
    pub refresh_reason: Option<MemoryReason>,
    pub refreshed_index: Option<usize>,
    pub refreshed_at: Option<Seq<char>>,
    pub compaction_status: MemoryStatus,
    pub compaction_source: Option<CompactionSource>,
    pub compaction_reason: Option<MemoryReason>,
    pub compaction_tail_start: Option<usize>,
}

impl DeepView for MemoryDiagnostics {
    type V = MemoryDiagnosticsView;

    open spec fn deep_view(&self) -> MemoryDiagnosticsView {
        MemoryDiagnosticsView {
            refresh_attempted: self.refresh_attempted,
            refresh_status: self.refresh_status,
            refresh_reason: self.refresh_reason,
            refreshed_index: self.refreshed_index,
            refreshed_at: self.refreshed_at.deep_view(),
            compaction_status: self.compaction_status,
            compaction_source: self.compaction_source,
            compaction_reason: self.compaction_reason,
            compaction_tail_start: self.compaction_tail_start,
        }
    }
}

impl Clone for MemoryDiagnostics {
    fn clone(&self) -> (r: Self)
        ensures
            r.deep_view() == self.deep_view(),
    {
        let r = MemoryDiagnostics {
            refresh_attempted: self.refresh_attempted,
            refresh_status: self.refresh_status,
            refresh_reason: self.refresh_reason,
            refreshed_index: self.refreshed_index,
            refreshed_at: self.refreshed_at.clone(),
            compaction_status: self.compaction_status,
            compaction_source: self.compaction_source,
            compaction_reason: self.compaction_reason,
            compaction_tail_start: self.compaction_tail_start,
        };
        assert(r.refreshed_at.deep_view() =~= self.refreshed_at.deep_view());
        r
    }
}

/// A session.
#[derive(Debug)]
pub struct Session {
    pub id: SessionId,
    /// When the session was made, in RFC 3339.
    pub created_at: String,
    pub state: SessionState,
    pub config: SessionConfig,
    pub system_prompt: Option<String>,
    /// The conversation so far.
    pub history: Vec<Message>,
    /// The tools that the model is told of.
    pub tools: Vec<ToolDefinition>,
    /// The tools that can be run.
    pub registry: Vec<ToolInfo>,
    pub python_group: String,
    /// Whether there is a tool that can be told to stop.
    pub cancel_armed: bool,
    /// Set by an interrupt, until the next user message.
    pub interrupted: bool,
    pub last_input_tokens: Option<u64>,
    pub max_context_window: Option<u64>,
    pub compaction_generation: u64,
    /// From which share of the context window on the history is compacted, in percent.
    pub auto_compact_threshold_percent: u8,
    /// Messages that came and were not read yet.
    pub mailbox: VecDeque<MailboxMessage>,
    pub suspended_wait: Option<SuspendedWait>,
    pub memory: SessionMemory,
    /// None where none were kept of a session that was brought back.
    pub diagnostics: Option<MemoryDiagnostics>,
    /// What the rules said of the last call.
    pub last_permission: Option<PermissionOutcome>,
    /// Whether the user was asked for permission.
    pub approval_pending: bool,
    pub last_prompt_cache_tokens: Option<Vec<String>>,
    pub status_report: Option<SessionStatusReport>,
    pub current_turn_tool_rounds: u32,
}

/// The model of [`Session`].
#[verifier::ext_equal]
pub struct SessionView {
    pub id: SessionId,
    pub created_at: Seq<char>,
    pub state: SessionState,
    pub config: SessionConfigView,
    pub system_prompt: Option<Seq<char>>,
    pub history: Seq<MessageView>,
    pub tools: Seq<ToolDefinitionView>,
    pub registry: Seq<ToolInfoView>,
    pub python_group: Seq<char>,
    pub cancel_armed: bool,
    pub interrupted: bool,
    pub last_input_tokens: Option<u64>,
    pub max_context_window: Option<u64>,
    pub compaction_generation: u64,
    pub auto_compact_threshold_percent: u8,
    pub mailbox: Seq<MailboxMessageView>,
    pub suspended_wait: Option<SuspendedWaitView>,
    pub memory: SessionMemoryView,
    pub diagnostics: Option<MemoryDiagnosticsView>,
    pub last_permission: Option<PermissionOutcomeView>,
    pub approval_pending: bool,
    pub last_prompt_cache_tokens: Option<Seq<Seq<char>>>,
    pub status_report: Option<SessionStatusReportView>,
    pub current_turn_tool_rounds: u32,
}

impl DeepView for Session {
    type V = SessionView;

    open spec fn deep_view(&self) -> SessionView {
        SessionView {
            id: self.id,
            created_at: self.created_at.deep_view(),
            state: self.state,
            config: self.config.deep_view(),
            system_prompt: self.system_prompt.deep_view(),
            history: self.history.deep_view(),
            tools: self.tools.deep_view(),
            registry: self.registry.deep_view(),
            python_group: self.python_group.deep_view(),
            cancel_armed: self.cancel_armed,
            interrupted: self.interrupted,
            last_input_tokens: self.last_input_tokens,
            max_context_window: self.max_context_window,
            compaction_generation: self.compaction_generation,
            auto_compact_threshold_percent: self.auto_compact_threshold_percent,
            mailbox: self.mailbox.deep_view(),
            suspended_wait: self.suspended_wait.deep_view(),
            memory: self.memory.deep_view(),
            diagnostics: self.diagnostics.deep_view(),
            last_permission: self.last_permission.deep_view(),
            approval_pending: self.approval_pending,
            last_prompt_cache_tokens: self.last_prompt_cache_tokens.deep_view(),
            status_report: self.status_report.deep_view(),
            current_turn_tool_rounds: self.current_turn_tool_rounds,
        }
    }
}

/// The diagnostics at the start of a turn.
pub open spec fn fresh_diagnostics() -> MemoryDiagnosticsView {
    MemoryDiagnosticsView {
        refresh_attempted: false,
        refresh_status: MemoryStatus::NotRun,
        refresh_reason: None,
        refreshed_index: None,
        refreshed_at: None,
        compaction_status: MemoryStatus::NotRun,
        compaction_source: None,
        compaction_reason: None,
        compaction_tail_start: None,
    }
}

impl MemoryDiagnostics {
    /// The diagnostics at the start of a turn.
    pub fn fresh() -> (r: MemoryDiagnostics)
        ensures
            r.deep_view() == fresh_diagnostics(),
    {
        MemoryDiagnostics {
            refresh_attempted: false,
            refresh_status: MemoryStatus::NotRun,
            refresh_reason: None,
            refreshed_index: None,
            refreshed_at: None,
            compaction_status: MemoryStatus::NotRun,
            compaction_source: None,
            compaction_reason: None,
            compaction_tail_start: None,
        }
    }
}

/// The diagnostics of a turn; those at the start of one where there are none.
pub open spec fn turn_diagnostics(session: SessionView) -> MemoryDiagnosticsView {
    match session.diagnostics {
        Some(diagnostics) => diagnostics,
        None => fresh_diagnostics(),
    }
}

/// The names of skills.
pub open spec fn skill_names(skills: Seq<SkillView>) -> Seq<Seq<char>> {
    skills.map_values(|s: SkillView| s.prompt.name)
}

/// The prompts of skills.
pub open spec fn skill_prompts(skills: Seq<SkillView>) -> Seq<SkillPromptView> {
    skills.map_values(|s: SkillView| s.prompt)
}

/// The tools of skills.
pub open spec fn skill_tools(skills: Seq<SkillView>) -> Seq<ToolSpecView>
    decreases skills.len(),
{
    if skills.len() == 0 {
        Seq::empty()
    } else {
        skill_tools(skills.drop_last()) + skills.last().tools
    }
}

/// The tools of a session, in the order in which they are registered.
pub open spec fn session_tools(
    belt: ToolBeltView,
    plan_mode: bool,
    skills: Seq<SkillView>,
) -> Seq<ToolSpecView> {
    (if plan_mode {
        belt.observing
    } else {
        belt.observing + belt.acting
    }) + skill_tools(skills)
}

/// What the turn needs to know of a tool.
pub open spec fn tool_info(tool: ToolSpecView) -> ToolInfoView {
    ToolInfoView {
        name: tool.definition.name,
        interactive: tool.interactive,
        read_only: tool.definition.read_only,
        idempotent: tool.definition.idempotent,
    }
}

/// What the turn needs to know of tools.
pub open spec fn tool_infos(tools: Seq<ToolSpecView>) -> Seq<ToolInfoView> {
    tools.map_values(|t: ToolSpecView| tool_info(t))
}

/// Whether a tool has this name.
pub open spec fn names_tool(tools: Seq<ToolSpecView>, name: Seq<char>) -> bool {
    exists|i: int| 0 <= i < tools.len() && (#[trigger] tools[i]).definition.name == name
}

/// Whether a tool needs the web.
pub open spec fn needs_web(name: Seq<char>) -> bool {
    name == "web_search"@ || name == "web_open"@
}

/// The tools that the model is told of: of those with one name the last, and those for the
/// web only if they can be used.
pub open spec fn advertised(tools: Seq<ToolSpecView>, web_configured: bool) -> Seq<
    ToolDefinitionView,
>
    decreases tools.len(),
{
    if tools.len() == 0 {
        Seq::empty()
    } else {
        let rest = advertised(tools.drop_first(), web_configured);
        let name = tools[0].definition.name;
        if names_tool(tools.drop_first(), name) || (needs_web(name) && !web_configured) {
            rest
        } else {
            seq![tools[0].definition] + rest
        }
    }
}

/// A number that is moved into a range.
pub open spec fn clamped(n: int, low: int, high: int) -> int {
    if n < low {
        low
    } else if n > high {
        high
    } else {
        n
    }
}

/// The configuration of a new session.
pub open spec fn chosen_config(init: SessionInitView) -> SessionConfigView {
    SessionConfigView {
        system_prompt: init.system_prompt,
        skill_names: skill_names(init.skills),
        working_directory: init.working_directory,
        plan_mode: init.plan_mode,
        prompt_behavior: init.prompt_behavior,
        prompt_memory_mode: init.prompt_memory_mode,
        agent_key: init.agent_key,
        team_key: init.team_key,
        model_profile: init.model_profile,
        session_group: init.session_group,
        auto_compact_threshold_percent: clamped(
            init.auto_compact_threshold_percent as int,
            1,
            100,
        ) as u8,
        status_report_min_tool_rounds: if init.status_report_min_tool_rounds == 0 {
            1
        } else {
            init.status_report_min_tool_rounds
        },
    }
}

/// The group whose python state a session shares: its own if it names none.
pub open spec fn group_of(id: SessionId, session_group: Option<Seq<char>>) -> Seq<char> {
    match session_group {
        Some(group) => group,
        None => uuid_text(id.0),
    }
}

/// The prompt that a configuration, its tools and its skills make.
pub open spec fn config_prompt(
    config: SessionConfigView,
    tools: Seq<ToolDefinitionView>,
    skills: Seq<SkillView>,
    instructions: Option<ProjectInstructionsView>,
) -> Seq<char> {
    system_prompt(
        config.plan_mode,
        tools,
        instructions,
        config.system_prompt,
        skill_prompts(skills),
        None,
    )
}

/// A new session.
pub open spec fn new_session(
    id: SessionId,
    init: SessionInitView,
    belt: ToolBeltView,
    instructions: Option<ProjectInstructionsView>,
    memory: SessionMemoryView,
    created_at: Seq<char>,
) -> SessionView {
    let config = chosen_config(init);
    let registered = session_tools(belt, config.plan_mode, init.skills);
    let tools = advertised(registered, belt.web_configured);
    let prompt = config_prompt(config, tools, init.skills, instructions);
    SessionView {
        id,
        created_at,
        state: SessionState::Idle,
        config,
        system_prompt: Some(prompt),
        history: seq![text_message(Role::System, prompt)] + init.initial_messages,
        tools,
        registry: tool_infos(registered),
        python_group: group_of(id, init.session_group),
        cancel_armed: false,
        interrupted: false,
        last_input_tokens: None,
        max_context_window: init.max_context_window,
        compaction_generation: 0,
        auto_compact_threshold_percent: config.auto_compact_threshold_percent,
        mailbox: Seq::empty(),
        suspended_wait: None,
        memory,
        diagnostics: Some(fresh_diagnostics()),
        last_permission: None,
        approval_pending: false,
        last_prompt_cache_tokens: None,
        status_report: None,
        current_turn_tool_rounds: 0,
    }
}

/// A history whose first message is the given system prompt.
pub open spec fn with_prompt(history: Seq<MessageView>, prompt: Seq<char>) -> Seq<MessageView> {
    if history.len() > 0 && history[0].role == Role::System {
        history.update(0, text_message(Role::System, prompt))
    } else {
        seq![text_message(Role::System, prompt)] + history
    }
}

/// The prompt that a history begins with is the one that was put there, the rest is kept,
/// and putting it there again changes nothing.
pub proof fn law_with_prompt(history: Seq<MessageView>, prompt: Seq<char>)
    ensures
        with_prompt(history, prompt).len() > 0,
        with_prompt(history, prompt)[0] == text_message(Role::System, prompt),
        with_prompt(with_prompt(history, prompt), prompt) == with_prompt(history, prompt),
        history.len() > 0 && history[0].role == Role::System ==> with_prompt(
            history,
            prompt,
        ).drop_first() == history.drop_first(),
        !(history.len() > 0 && history[0].role == Role::System) ==> with_prompt(
            history,
            prompt,
        ).drop_first() == history,
{
    let once = with_prompt(history, prompt);
    assert(with_prompt(once, prompt) =~= once);
    if history.len() > 0 && history[0].role == Role::System {
        assert(once.drop_first() =~= history.drop_first());
    } else {
        assert(once.drop_first() =~= history);
    }
}

/// A session whose tools and prompt are made anew from its configuration.
pub open spec fn rebuilt(
    session: SessionView,
    belt: ToolBeltView,
    skills: Seq<SkillView>,
    instructions: Option<ProjectInstructionsView>,
) -> SessionView {
    let registered = session_tools(belt, session.config.plan_mode, skills);
    let tools = advertised(registered, belt.web_configured);
    let prompt = config_prompt(session.config, tools, skills, instructions);
    SessionView {
        registry: tool_infos(registered),
        tools,
        system_prompt: Some(prompt),
        history: with_prompt(session.history, prompt),
        ..session
    }
}

/// What is kept of the summary of a session.
pub open spec fn saved_memory(memory: SessionMemoryView) -> SavedMemoryView {
    SavedMemoryView {
        enabled: memory.enabled,
        last_summarized_message_index: memory.last_summarized_message_index,
        listing_summary: memory.listing_summary,
    }
}

/// What is known of the summary of a session that is brought back: what was kept, and what
/// the host has found of the rest.
pub open spec fn restored_memory(
    saved: Option<SavedMemoryView>,
    found: SessionMemoryView,
) -> SessionMemoryView {
    match saved {
        Some(kept) => SessionMemoryView {
            enabled: kept.enabled,
            last_summarized_message_index: kept.last_summarized_message_index,
            listing_summary: kept.listing_summary,
            ..found
        },
        None => found,
    }
}

/// What is kept of a session.
pub open spec fn saved_of(session: SessionView, state: SessionState) -> SavedSessionView {
    SavedSessionView {
        session_id: session.id,
        created_at: session.created_at,
        state,
        config: session.config,
        history: session.history,
        status_report: session.status_report,
        approval_pending: session.approval_pending,
        last_permission: session.last_permission,
        memory: Some(saved_memory(session.memory)),
        diagnostics: session.diagnostics,
    }
}

/// What a session is made from again, with the skills that were found.
pub open spec fn saved_init(
    saved: SavedSessionView,
    skills: Seq<SkillView>,
    max_context_window: Option<u64>,
) -> SessionInitView {
    let config = saved.config;
    SessionInitView {
        system_prompt: config.system_prompt,
        skills,
        working_directory: config.working_directory,
        plan_mode: config.plan_mode,
        prompt_behavior: config.prompt_behavior,
        initial_messages: Seq::empty(),
        max_context_window,
        prompt_memory_mode: config.prompt_memory_mode,
        agent_key: config.agent_key,
        team_key: config.team_key,
        model_profile: config.model_profile,
        session_group: config.session_group,
        auto_compact_threshold_percent: config.auto_compact_threshold_percent,
        status_report_min_tool_rounds: config.status_report_min_tool_rounds,
    }
}

/// A session that was brought back: made anew, with its state, its configuration, what was
/// kept of its memory and of the permission rules, and its history without what was cut off
/// in the middle.
pub open spec fn restored_session(
    saved: SavedSessionView,
    skills: Seq<SkillView>,
    max_context_window: Option<u64>,
    belt: ToolBeltView,
    instructions: Option<ProjectInstructionsView>,
    memory: SessionMemoryView,
) -> SessionView {
    SessionView {
        state: saved.state,
        history: sanitized(saved.history),
        auto_compact_threshold_percent: saved.config.auto_compact_threshold_percent,
        config: SessionConfigView { skill_names: skill_names(skills), ..saved.config },
        status_report: saved.status_report,
        approval_pending: saved.approval_pending,
        last_permission: saved.last_permission,
        diagnostics: saved.diagnostics,
        ..new_session(
            saved.session_id,
            saved_init(saved, skills, max_context_window),
            belt,
            instructions,
            restored_memory(saved.memory, memory),
            saved.created_at,
        )
    }
}

/// A session that was saved and brought back has its configuration, its report, what the
/// permission rules said last, its memory and its diagnostics, and its history without what
/// was cut off in the middle. Its skills are those that were found.
/// Saving it and bringing it back once more changes nothing.
pub proof fn law_saved_session_comes_back(
    session: SessionView,
    state: SessionState,
    skills: Seq<SkillView>,
    max_context_window: Option<u64>,
    belt: ToolBeltView,
    instructions: Option<ProjectInstructionsView>,
    memory: SessionMemoryView,
)
    ensures
        ({
            let back = restored_session(
                saved_of(session, state),
                skills,
                max_context_window,
                belt,
                instructions,
                memory,
            );
            &&& back.id == session.id
            &&& back.created_at == session.created_at
            &&& back.state == state
            &&& back.history == sanitized(session.history)
            &&& back.status_report == session.status_report
            &&& back.approval_pending == session.approval_pending
            &&& back.last_permission == session.last_permission
            &&& saved_memory(back.memory) == saved_memory(session.memory)
            &&& back.diagnostics == session.diagnostics
            &&& skill_names(skills) == session.config.skill_names ==> back.config == session.config
            &&& restored_session(
                saved_of(back, state),
                skills,
                max_context_window,
                belt,
                instructions,
                memory,
            ) == back
        }),
{
    law_restored_history_stays(session.history);
}

/// A session that was stopped. It stays so until the next user message.
pub open spec fn interrupted(session: SessionView) -> SessionView {
    SessionView {
        state: SessionState::Idle,
        interrupted: true,
        cancel_armed: false,
        approval_pending: false,
        ..session
    }
}

/// What is sent when the status report of a session is replaced: nothing if it stays the
/// same.
pub open spec fn report_outputs(
    session: SessionView,
    report: Option<SessionStatusReportView>,
) -> Seq<CoreOutputView> {
    if session.status_report == report {
        Seq::empty()
    } else {
        seq![CoreOutputView::SessionStatusReport { session_id: session.id, report }]
    }
}

/// What an assistant message says.
pub open spec fn said(message: MessageView) -> Option<Seq<char>> {
    if message.role != Role::Assistant {
        None
    } else {
        match message.content {
            MessageContentView::Text(content) => Some(content),
            MessageContentView::ToolUse { text, .. } => text,
            MessageContentView::ToolResult { .. } => None,
        }
    }
}

/// What the assistant said last.
pub open spec fn last_said(history: Seq<MessageView>) -> Option<Seq<char>>
    decreases history.len(),
{
    if history.len() == 0 {
        None
    } else if said(history.last()) is Some {
        said(history.last())
    } else {
        last_said(history.drop_last())
    }
}

/// Messages whose system prompt is followed by what the memory adds to it.
pub open spec fn with_suffix(messages: Seq<MessageView>, suffix: Option<Seq<char>>) -> Seq<
    MessageView,
> {
    if suffix is Some && messages.len() > 0 && messages[0].role == Role::System
        && messages[0].content is Text {
        messages.update(
            0,
            text_message(Role::System, messages[0].content->Text_0 + "\n\n"@ + suffix->0),
        )
    } else {
        messages
    }
}

/// Why the summary of a session is not refreshed, if it is not.
pub open spec fn refresh_obstacle(session: SessionView, needed: bool) -> Option<MemoryReason> {
    if !session.memory.enabled {
        Some(MemoryReason::Disabled)
    } else if session.memory.refresh_in_flight {
        Some(MemoryReason::NotAttempted)
    } else if session.history.len() == 0 {
        Some(MemoryReason::NoActivityYet)
    } else if !needed {
        Some(MemoryReason::RefreshNotNeeded)
    } else {
        None
    }
}

/// A session after a refresh of its summary was considered.
pub open spec fn refresh_considered(session: SessionView, needed: bool) -> SessionView {
    match refresh_obstacle(session, needed) {
        Some(reason) => SessionView {
            diagnostics: Some(
                MemoryDiagnosticsView {
                    refresh_attempted: false,
                    refresh_status: MemoryStatus::Skipped,
                    refresh_reason: Some(reason),
                    ..turn_diagnostics(session)
                },
            ),
            ..session
        },
        None => SessionView {
            diagnostics: Some(
                MemoryDiagnosticsView {
                    refresh_attempted: true,
                    refresh_status: MemoryStatus::NotRun,
                    refresh_reason: None,
                    ..turn_diagnostics(session)
                },
            ),
            memory: SessionMemoryView { refresh_in_flight: true, ..session.memory },
            ..session
        },
    }
}

/// A later value in place of an earlier one, if there is a later one.
pub open spec fn later<T>(new: Option<T>, before: Option<T>) -> Option<T> {
    if new is Some {
        new
    } else {
        before
    }
}

/// A session after a refresh of its summary has ended.
pub open spec fn refresh_finished(
    session: SessionView,
    index: Option<usize>,
    refreshed_at: Option<Seq<char>>,
    summary: Option<Seq<char>>,
) -> SessionView {
    SessionView {
        memory: SessionMemoryView {
            enabled: session.memory.enabled,
            refresh_in_flight: false,
            last_summarized_message_index: later(
                index,
                session.memory.last_summarized_message_index,
            ),
            last_refresh_at: later(refreshed_at, session.memory.last_refresh_at),
            listing_summary: later(summary, session.memory.listing_summary),
        },
        diagnostics: Some(
            MemoryDiagnosticsView {
                refresh_attempted: true,
                refresh_status: if index is Some {
                    MemoryStatus::Succeeded
                } else {
                    MemoryStatus::FailedBestEffort
                },
                refresh_reason: if index is Some {
                    None
                } else {
                    Some(MemoryReason::MissingSummary)
                },
                refreshed_index: later(index, turn_diagnostics(session).refreshed_index),
                refreshed_at: later(refreshed_at, turn_diagnostics(session).refreshed_at),
                ..turn_diagnostics(session)
            },
        ),
        ..session
    }
}

/// At most one refresh of a summary runs at a time: none is begun while one runs, and one
/// can begin again when it has ended.
pub proof fn law_one_refresh_at_a_time(
    session: SessionView,
    needed: bool,
    index: Option<usize>,
    refreshed_at: Option<Seq<char>>,
    summary: Option<Seq<char>>,
)
    ensures
        refresh_obstacle(refresh_considered(session, needed), true) is None
            ==> !session.memory.refresh_in_flight && refresh_obstacle(session, needed) is Some,
        session.memory.refresh_in_flight ==> refresh_obstacle(session, needed) is Some,
        session.memory.enabled && session.history.len() > 0 ==> refresh_obstacle(
            refresh_finished(session, index, refreshed_at, summary),
            true,
        ) is None,
{
}

/// The names of skills.
fn names_of_skills(skills: &Vec<Skill>) -> (r: Vec<String>)
    ensures
        r.deep_view() == skill_names(skills.deep_view()),
{
    let ghost wanted = skill_names(skills.deep_view());
    let mut r: Vec<String> = Vec::new();
    let mut i: usize = 0;
    assert(r.deep_view() =~= wanted.take(0));
    while i < skills.len()
        invariant
            i <= skills@.len(),
            wanted == skill_names(skills.deep_view()),
            r.deep_view() == wanted.take(i as int),
        decreases skills@.len() - i,
    {
        let ghost before = r.deep_view();
        r.push(skills[i].prompt.name.clone());
        assert(r.deep_view() =~= before.push(wanted[i as int]));
        assert(r.deep_view() =~= wanted.take(i + 1));
        i = i + 1;
    }
    assert(wanted.take(i as int) =~= wanted);
    r
}

/// The prompts of skills.
fn prompts_of_skills(skills: &Vec<Skill>) -> (r: Vec<SkillPrompt>)
    ensures
        r.deep_view() == skill_prompts(skills.deep_view()),
{
    let ghost wanted = skill_prompts(skills.deep_view());
    let mut r: Vec<SkillPrompt> = Vec::new();
    let mut i: usize = 0;
    assert(r.deep_view() =~= wanted.take(0));
    while i < skills.len()
        invariant
            i <= skills@.len(),
            wanted == skill_prompts(skills.deep_view()),
            r.deep_view() == wanted.take(i as int),
        decreases skills@.len() - i,
    {
        let ghost before = r.deep_view();
        r.push(skills[i].prompt.clone());
        assert(r.deep_view() =~= before.push(wanted[i as int]));
        assert(r.deep_view() =~= wanted.take(i + 1));
        i = i + 1;
    }
    assert(wanted.take(i as int) =~= wanted);
    r
}

/// Appends copies of tools.
fn append_tools(tools: &mut Vec<ToolSpec>, more: &Vec<ToolSpec>)
    ensures
        final(tools).deep_view() == old(tools).deep_view() + more.deep_view(),
{
    let ghost start = tools.deep_view();
    let ghost all = more.deep_view();
    let mut i: usize = 0;
    assert(tools.deep_view() =~= start + all.take(0));
    while i < more.len()
        invariant
            i <= more@.len(),
            all == more.deep_view(),
            tools.deep_view() == start + all.take(i as int),
        decreases more@.len() - i,
    {
        let ghost before = tools.deep_view();
        tools.push(more[i].clone());
        assert(tools.deep_view() =~= before.push(all[i as int]));
        assert(tools.deep_view() =~= start + all.take(i + 1));
        i = i + 1;
    }
    assert(all.take(i as int) =~= all);
}

/// The tools of a session, in the order in which they are registered.
pub fn build_tool_registry_for_session(
    belt: &ToolBelt,
    plan_mode: bool,
    skills: &Vec<Skill>,
) -> (r: Vec<ToolSpec>)
    ensures
        r.deep_view() == session_tools(belt.deep_view(), plan_mode, skills.deep_view()),
{
    let mut r: Vec<ToolSpec> = Vec::new();
    append_tools(&mut r, &belt.observing);
    assert(r.deep_view() =~= belt.observing.deep_view());
    if !plan_mode {
        append_tools(&mut r, &belt.acting);
    }
    let ghost start = r.deep_view();
    let ghost all = skills.deep_view();
    let mut i: usize = 0;
    assert(all.take(0) =~= Seq::empty());
    assert(r.deep_view() =~= start + skill_tools(all.take(0)));
    while i < skills.len()
        invariant
            i <= skills@.len(),
            all == skills.deep_view(),
            r.deep_view() == start + skill_tools(all.take(i as int)),
        decreases skills@.len() - i,
    {
        assert(all.take(i + 1).drop_last() =~= all.take(i as int));
        assert(all.take(i + 1).last() == skills@[i as int].deep_view());
        append_tools(&mut r, &skills[i].tools);
        assert(r.deep_view() =~= start + skill_tools(all.take(i + 1)));
        i = i + 1;
    }
    assert(all.take(i as int) =~= all);
    r
}

/// What the turn needs to know of tools.
fn infos_of(tools: &Vec<ToolSpec>) -> (r: Vec<ToolInfo>)
    ensures
        r.deep_view() == tool_infos(tools.deep_view()),
{
    let ghost wanted = tool_infos(tools.deep_view());
    let mut r: Vec<ToolInfo> = Vec::new();
    let mut i: usize = 0;
    assert(r.deep_view() =~= wanted.take(0));
    while i < tools.len()
        invariant
            i <= tools@.len(),
            wanted == tool_infos(tools.deep_view()),
            r.deep_view() == wanted.take(i as int),
        decreases tools@.len() - i,
    {
        let ghost before = r.deep_view();
        r.push(
            ToolInfo {
                name: tools[i].definition.name.clone(),
                interactive: tools[i].interactive,
                read_only: tools[i].definition.read_only,
                idempotent: tools[i].definition.idempotent,
            },
        );
        assert(r.deep_view() =~= before.push(wanted[i as int]));
        assert(r.deep_view() =~= wanted.take(i + 1));
        i = i + 1;
    }
    assert(wanted.take(i as int) =~= wanted);
    r
}

/// Whether one of the tools from a place on has this name.
fn is_named_from(tools: &Vec<ToolSpec>, from: usize, name: &str) -> (r: bool)
    requires
        from <= tools@.len(),
    ensures
        r == names_tool(tools.deep_view().skip(from as int), name@),
{
    let ghost rest = tools.deep_view().skip(from as int);
    let mut i: usize = from;
    while i < tools.len()
        invariant
            from <= i <= tools@.len(),
            rest == tools.deep_view().skip(from as int),
            forall|k: int| 0 <= k < i - from ==> (#[trigger] rest[k]).definition.name != name@,
        decreases tools@.len() - i,
    {
        assert(rest[i - from] == tools@[i as int].deep_view());
        if text::same(tools[i].definition.name.as_str(), name) {
            return true;
        }
        i = i + 1;
    }
    false
}

/// The tools that the model is told of.
pub fn advertised_tool_definitions(tools: &Vec<ToolSpec>, web_configured: bool) -> (r: Vec<
    ToolDefinition,
>)
    ensures
        r.deep_view() == advertised(tools.deep_view(), web_configured),
{
    let ghost all = tools.deep_view();
    let mut r: Vec<ToolDefinition> = Vec::new();
    let mut i: usize = 0;
    assert(all.skip(0) =~= all);
    assert(advertised(all, web_configured) =~= r.deep_view() + advertised(
        all.skip(0),
        web_configured,
    ));
    while i < tools.len()
        invariant
            i <= tools@.len(),
            all == tools.deep_view(),
            advertised(all, web_configured) == r.deep_view() + advertised(
                all.skip(i as int),
                web_configured,
            ),
        decreases tools@.len() - i,
    {
        let ghost rest = all.skip(i as int);
        assert(rest.drop_first() =~= all.skip(i + 1));
        assert(rest[0] == tools@[i as int].deep_view());
        let name = tools[i].definition.name.as_str();
        let hidden = is_named_from(tools, i + 1, name) || (!web_configured && (text::same(
            name,
            "web_search",
        ) || text::same(name, "web_open")));
        if !hidden {
            let ghost before = r.deep_view();
            r.push(tools[i].definition.clone());
            assert(r.deep_view() =~= before.push(rest[0].definition));
            assert(before + (seq![rest[0].definition] + advertised(all.skip(i + 1), web_configured))
                =~= r.deep_view() + advertised(all.skip(i + 1), web_configured));
        }
        i = i + 1;
    }
    assert(all.skip(i as int) =~= Seq::empty());
    assert(r.deep_view() + advertised(all.skip(i as int), web_configured) =~= r.deep_view());
    r
}

/// The group whose python state a session shares.
pub fn effective_session_group(id: SessionId, session_group: &Option<String>) -> (r: String)
    ensures
        r@ == group_of(id, session_group.deep_view()),
{
    match session_group {
        Some(group) => group.clone(),
        None => id.text(),
    }
}

impl SessionInit {
    /// The configuration of a new session.
    pub fn to_persisted_config(&self) -> (r: SessionConfig)
        ensures
            r.deep_view() == chosen_config(self.deep_view()),
    {
        let percent: u8 = if self.auto_compact_threshold_percent < 1 {
            1
        } else if self.auto_compact_threshold_percent > 100 {
            100
        } else {
            self.auto_compact_threshold_percent
        };
        let rounds: u32 = if self.status_report_min_tool_rounds == 0 {
            1
        } else {
            self.status_report_min_tool_rounds
        };
        let r = SessionConfig {
            system_prompt: self.system_prompt.clone(),
            skill_names: names_of_skills(&self.skills),
            working_directory: self.working_directory.clone(),
            plan_mode: self.plan_mode,
            prompt_behavior: self.prompt_behavior,
            prompt_memory_mode: self.prompt_memory_mode,
            agent_key: self.agent_key.clone(),
            team_key: self.team_key.clone(),
            model_profile: self.model_profile.clone(),
            session_group: self.session_group.clone(),
            auto_compact_threshold_percent: percent,
            status_report_min_tool_rounds: rounds,
        };
        assert(r.system_prompt.deep_view() =~= self.system_prompt.deep_view());
        assert(r.agent_key.deep_view() =~= self.agent_key.deep_view());
        assert(r.team_key.deep_view() =~= self.team_key.deep_view());
        assert(r.model_profile.deep_view() =~= self.model_profile.deep_view());
        assert(r.session_group.deep_view() =~= self.session_group.deep_view());
        r
    }
}

/// The prompt that a configuration, its tools and its skills make.
fn prompt_of(
    config: &SessionConfig,
    tools: &Vec<ToolDefinition>,
    skills: &Vec<Skill>,
    instructions: &Option<ProjectInstructions>,
) -> (r: String)
    ensures
        r@ == config_prompt(
            config.deep_view(),
            tools.deep_view(),
            skills.deep_view(),
            instructions.deep_view(),
        ),
{
    let prompts = prompts_of_skills(skills);
    let no_suffix: Option<String> = None;
    build_combined_system_prompt(
        config.plan_mode,
        tools,
        instructions,
        &config.system_prompt,
        &prompts,
        &no_suffix,
    )
}

/// Makes the first message of a history the given system prompt.
fn set_prompt(history: &mut Vec<Message>, prompt: String)
    ensures
        final(history).deep_view() == with_prompt(old(history).deep_view(), prompt@),
{
    let ghost before = history.deep_view();
    let ghost new = text_message(Role::System, prompt@);
    let has_prompt = history.len() > 0 && history[0].role == Role::System;
    let message = Message::system(prompt);
    if has_prompt {
        history.set(0, message);
        assert(history.deep_view() =~= before.update(0, new));
    } else {
        history.insert(0, message);
        assert(history.deep_view() =~= seq![new] + before);
    }
}

impl Session {
    /// A new session. When it is made is what the clock shows.
    pub fn new(
        id: SessionId,
        init: SessionInit,
        belt: &ToolBelt,
        instructions: &Option<ProjectInstructions>,
        memory: SessionMemory,
    ) -> (r: Session)
        ensures
            r.deep_view() == new_session(
                id,
                init.deep_view(),
                belt.deep_view(),
                instructions.deep_view(),
                memory.deep_view(),
                r.deep_view().created_at,
            ),
    {
        Session::new_at(id, init, belt, instructions, memory, utc_now())
    }

    /// A new session that is made at a given time.
    pub fn new_at(
        id: SessionId,
        init: SessionInit,
        belt: &ToolBelt,
        instructions: &Option<ProjectInstructions>,
        memory: SessionMemory,
        created_at: String,
    ) -> (r: Session)
        ensures
            r.deep_view() == new_session(
                id,
                init.deep_view(),
                belt.deep_view(),
                instructions.deep_view(),
                memory.deep_view(),
                created_at@,
            ),
    {
        let config = init.to_persisted_config();
        let python_group = effective_session_group(id, &config.session_group);
        let registered = build_tool_registry_for_session(belt, config.plan_mode, &init.skills);
        let tools = advertised_tool_definitions(&registered, belt.web_configured);
        let prompt = prompt_of(&config, &tools, &init.skills, instructions);
        let mut history: Vec<Message> = Vec::new();
        history.push(Message::system(prompt.clone()));
        let ghost start = history.deep_view();
        let ghost more = init.initial_messages.deep_view();
        assert(start =~= seq![text_message(Role::System, prompt@)]);
        let mut i: usize = 0;
        assert(start + more.take(0) =~= start);
        while i < init.initial_messages.len()
            invariant
                i <= init.initial_messages@.len(),
                more == init.initial_messages.deep_view(),
                history.deep_view() == start + more.take(i as int),
            decreases init.initial_messages@.len() - i,
        {
            let ghost before = history.deep_view();
            history.push(init.initial_messages[i].clone());
            assert(history.deep_view() =~= before.push(more[i as int]));
            assert(history.deep_view() =~= start + more.take(i + 1));
            i = i + 1;
        }
        assert(more.take(i as int) =~= more);
        let percent = config.auto_compact_threshold_percent;
        let registry = infos_of(&registered);
        let r = Session {
            id,
            created_at,
            state: SessionState::Idle,
            config,
            system_prompt: Some(prompt),
            history,
            tools,
            registry,
            python_group,
            cancel_armed: false,
            interrupted: false,
            last_input_tokens: None,
            max_context_window: init.max_context_window,
            compaction_generation: 0,
            auto_compact_threshold_percent: percent,
            mailbox: VecDeque::new(),
            suspended_wait: None,
            memory,
            diagnostics: Some(MemoryDiagnostics::fresh()),
            last_permission: None,
            approval_pending: false,
            last_prompt_cache_tokens: None,
            status_report: None,
            current_turn_tool_rounds: 0,
        };
        assert(r.mailbox.deep_view() =~= Seq::empty());
        r
    }

    /// What is kept of the session, with the state in which it will be brought back.
    pub fn snapshot(&self, state: SessionState) -> (r: SavedSession)
        ensures
            r.deep_view() == saved_of(self.deep_view(), state),
    {
        let r = SavedSession {
            session_id: self.id,
            created_at: self.created_at.clone(),
            state,
            config: self.config.clone(),
            history: self.history.clone(),
            status_report: self.status_report.clone(),
            approval_pending: self.approval_pending,
            last_permission: self.last_permission.clone(),
            memory: Some(
                SavedMemory {
                    enabled: self.memory.enabled,
                    last_summarized_message_index: self.memory.last_summarized_message_index,
                    listing_summary: self.memory.listing_summary.clone(),
                },
            ),
            diagnostics: self.diagnostics.clone(),
        };
        assert(r.last_permission.deep_view() =~= self.last_permission.deep_view());
        assert(r.diagnostics.deep_view() =~= self.diagnostics.deep_view());
        assert(r.memory->0.listing_summary.deep_view()
            =~= self.memory.listing_summary.deep_view());
        assert(r.history.deep_view() =~= self.history.deep_view());
        assert(r.status_report.deep_view() =~= self.status_report.deep_view());
        r
    }

    /// Brings back a session, with the skills and what else the host has found.
    pub fn from_persisted(
        saved: &SavedSession,
        skills: Vec<Skill>,
        max_context_window: Option<u64>,
        belt: &ToolBelt,
        instructions: &Option<ProjectInstructions>,
        memory: SessionMemory,
    ) -> (r: Session)
        ensures
            r.deep_view() == restored_session(
                saved.deep_view(),
                skills.deep_view(),
                max_context_window,
                belt.deep_view(),
                instructions.deep_view(),
                memory.deep_view(),
            ),
    {
        let mut config = saved.config.clone();
        config.skill_names = names_of_skills(&skills);
        let init = SessionInit {
            system_prompt: config.system_prompt.clone(),
            skills,
            working_directory: config.working_directory.clone(),
            plan_mode: config.plan_mode,
            prompt_behavior: config.prompt_behavior,
            initial_messages: Vec::new(),
            max_context_window,
            prompt_memory_mode: config.prompt_memory_mode,
            agent_key: config.agent_key.clone(),
            team_key: config.team_key.clone(),
            model_profile: config.model_profile.clone(),
            session_group: config.session_group.clone(),
            auto_compact_threshold_percent: config.auto_compact_threshold_percent,
            status_report_min_tool_rounds: config.status_report_min_tool_rounds,
        };
        assert(init.initial_messages.deep_view() =~= Seq::empty());
        assert(init.system_prompt.deep_view() =~= config.system_prompt.deep_view());
        assert(init.agent_key.deep_view() =~= config.agent_key.deep_view());
        assert(init.team_key.deep_view() =~= config.team_key.deep_view());
        assert(init.model_profile.deep_view() =~= config.model_profile.deep_view());
        assert(init.session_group.deep_view() =~= config.session_group.deep_view());
        assert(init.deep_view() == saved_init(
            saved.deep_view(),
            skills.deep_view(),
            max_context_window,
        ));
        let mut known = memory;
        if let Some(kept) = &saved.memory {
            known.enabled = kept.enabled;
            known.last_summarized_message_index = kept.last_summarized_message_index;
            known.listing_summary = kept.listing_summary.clone();
            assert(known.listing_summary.deep_view() =~= kept.listing_summary.deep_view());
        }
        assert(known.deep_view() == restored_memory(saved.memory.deep_view(), memory.deep_view()));
        let created_at = saved.created_at.clone();
        let mut session = Session::new_at(
            saved.session_id,
            init,
            belt,
            instructions,
            known,
            created_at,
        );
        session.state = saved.state;
        session.history = sanitize_restored_history(&saved.history);
        session.auto_compact_threshold_percent = config.auto_compact_threshold_percent;
        session.config = config;
        session.status_report = saved.status_report.clone();
        session.approval_pending = saved.approval_pending;
        session.last_permission = saved.last_permission.clone();
        session.diagnostics = saved.diagnostics.clone();
        assert(session.last_permission.deep_view() =~= saved.last_permission.deep_view());
        assert(session.diagnostics.deep_view() =~= saved.diagnostics.deep_view());
        assert(session.status_report.deep_view() =~= saved.status_report.deep_view());
        session
    }

    /// Makes the tools and the prompt anew from the configuration.
    pub fn rebuild_session_config(
        &mut self,
        belt: &ToolBelt,
        skills: &Vec<Skill>,
        instructions: &Option<ProjectInstructions>,
    )
        ensures
            final(self).deep_view() == rebuilt(
                old(self).deep_view(),
                belt.deep_view(),
                skills.deep_view(),
                instructions.deep_view(),
            ),
    {
        let registered = build_tool_registry_for_session(belt, self.config.plan_mode, skills);
        self.registry = infos_of(&registered);
        self.tools = advertised_tool_definitions(&registered, belt.web_configured);
        let prompt = prompt_of(&self.config, &self.tools, skills, instructions);
        self.system_prompt = Some(prompt.clone());
        set_prompt(&mut self.history, prompt);
    }

    /// Leaves plan mode: the tools that act are there again, and the prompt says so. A
    /// session that is not in plan mode stays as it is.
    pub fn exit_plan_mode(
        &mut self,
        belt: &ToolBelt,
        skills: &Vec<Skill>,
        instructions: &Option<ProjectInstructions>,
    )
        ensures
            final(self).deep_view() == (if old(self).deep_view().config.plan_mode {
                rebuilt(
                    SessionView {
                        config: SessionConfigView {
                            plan_mode: false,
                            ..old(self).deep_view().config
                        },
                        ..old(self).deep_view()
                    },
                    belt.deep_view(),
                    skills.deep_view(),
                    instructions.deep_view(),
                )
            } else {
                old(self).deep_view()
            }),
    {
        if !self.config.plan_mode {
            return;
        }
        self.config.plan_mode = false;
        self.rebuild_session_config(belt, skills, instructions);
    }

    /// Changes to another model.
    pub fn update_llm_provider(
        &mut self,
        model_profile: Option<String>,
        max_context_window: Option<u64>,
        belt: &ToolBelt,
        skills: &Vec<Skill>,
        instructions: &Option<ProjectInstructions>,
    )
        ensures
            final(self).deep_view() == rebuilt(
                SessionView {
                    config: SessionConfigView {
                        model_profile: model_profile.deep_view(),
                        ..old(self).deep_view().config
                    },
                    auto_compact_threshold_percent: old(
                        self,
                    ).deep_view().config.auto_compact_threshold_percent,
                    max_context_window,
                    ..old(self).deep_view()
                },
                belt.deep_view(),
                skills.deep_view(),
                instructions.deep_view(),
            ),
    {
        self.config.model_profile = model_profile;
        self.auto_compact_threshold_percent = self.config.auto_compact_threshold_percent;
        self.max_context_window = max_context_window;
        self.rebuild_session_config(belt, skills, instructions);
    }

    /// Stops the session. Returns whether there is a tool that has to be told.
    pub fn interrupt(&mut self) -> (tell_tool: bool)
        ensures
            tell_tool == old(self).deep_view().cancel_armed,
            final(self).deep_view() == interrupted(old(self).deep_view()),
    {
        let tell_tool = self.cancel_armed;
        self.state = SessionState::Idle;
        self.interrupted = true;
        self.cancel_armed = false;
        self.approval_pending = false;
        tell_tool
    }

    /// Replaces the status report. Returns what is sent, which is nothing if the report
    /// stays the same.
    pub fn set_status_report(&mut self, report: Option<SessionStatusReport>) -> (r: Vec<CoreOutput>)
        ensures
            final(self).deep_view() == (SessionView {
                status_report: report.deep_view(),
                ..old(self).deep_view()
            }),
            r.deep_view() == report_outputs(old(self).deep_view(), report.deep_view()),
    {
        let mut r: Vec<CoreOutput> = Vec::new();
        if same_report(&self.status_report, &report) {
            assert(r.deep_view() =~= Seq::empty());
            return r;
        }
        let sent = report.clone();
        assert(sent.deep_view() =~= report.deep_view());
        self.status_report = report;
        r.push(CoreOutput::SessionStatusReport { session_id: self.id, report: sent });
        assert(r.deep_view() =~= seq![
            CoreOutputView::SessionStatusReport { session_id: self.id, report: report.deep_view() },
        ]);
        r
    }

    /// What the assistant said last.
    pub fn session_output(&self) -> (r: Option<String>)
        ensures
            r.deep_view() == last_said(self.deep_view().history),
    {
        let ghost all = self.history.deep_view();
        let mut i: usize = self.history.len();
        assert(all.take(i as int) =~= all);
        while i > 0
            invariant
                i <= self.history@.len(),
                all == self.history.deep_view(),
                last_said(all) == last_said(all.take(i as int)),
            decreases i,
        {
            assert(all.take(i as int).drop_last() =~= all.take(i - 1));
            assert(all.take(i as int).last() == self.history@[i - 1].deep_view());
            i = i - 1;
            if self.history[i].role == Role::Assistant {
                match &self.history[i].content {
                    MessageContent::Text(content) => {
                        return Some(content.clone());
                    },
                    MessageContent::ToolUse { text, .. } => {
                        if let Some(content) = text {
                            return Some(content.clone());
                        }
                    },
                    MessageContent::ToolResult { .. } => {},
                }
            }
        }
        None
    }

    /// The history as it goes to the model, with what the memory adds to the system prompt.
    pub fn provider_messages(&self, system_suffix: &Option<String>) -> (r: Vec<Message>)
        ensures
            r.deep_view() == with_suffix(self.deep_view().history, system_suffix.deep_view()),
    {
        let mut messages = crate::compaction::copy_messages(&self.history, 0, self.history.len());
        let ghost all = self.history.deep_view();
        assert(messages.deep_view() =~= all);
        if let Some(suffix) = system_suffix {
            if messages.len() > 0 && messages[0].role == Role::System {
                let longer: Option<String> = match &messages[0].content {
                    MessageContent::Text(content) => {
                        let mut longer = content.clone();
                        longer.append("\n\n");
                        longer.append(suffix.as_str());
                        Some(longer)
                    },
                    _ => None,
                };
                assert(all[0] == messages@[0].deep_view());
                if let Some(longer) = longer {
                    messages.set(0, Message::system(longer));
                    assert(messages.deep_view() =~= all.update(
                        0,
                        text_message(Role::System, longer@),
                    ));
                }
            }
        }
        messages
    }

    /// The diagnostics of the turn.
    pub fn diagnostics_of_turn(&self) -> (r: MemoryDiagnostics)
        ensures
            r.deep_view() == turn_diagnostics(self.deep_view()),
    {
        match &self.diagnostics {
            Some(diagnostics) => diagnostics.clone(),
            None => MemoryDiagnostics::fresh(),
        }
    }

    /// Decides whether the summary of the session is refreshed, and notes it.
    pub fn schedule_session_memory_refresh(&mut self, needed: bool) -> (begins: bool)
        ensures
            begins == (refresh_obstacle(old(self).deep_view(), needed) is None),
            final(self).deep_view() == refresh_considered(old(self).deep_view(), needed),
    {
        let obstacle = if !self.memory.enabled {
            Some(MemoryReason::Disabled)
        } else if self.memory.refresh_in_flight {
            Some(MemoryReason::NotAttempted)
        } else if self.history.len() == 0 {
            Some(MemoryReason::NoActivityYet)
        } else if !needed {
            Some(MemoryReason::RefreshNotNeeded)
        } else {
            None
        };
        let mut diagnostics = self.diagnostics_of_turn();
        let begins = obstacle.is_none();
        diagnostics.refresh_reason = obstacle;
        diagnostics.refresh_attempted = begins;
        if begins {
            diagnostics.refresh_status = MemoryStatus::NotRun;
            self.memory.refresh_in_flight = true;
        } else {
            diagnostics.refresh_status = MemoryStatus::Skipped;
        }
        self.diagnostics = Some(diagnostics);
        begins
    }

    /// Notes the end of a refresh of the summary.
    pub fn finish_session_memory_refresh(
        &mut self,
        last_summarized_message_index: Option<usize>,
        refreshed_at: Option<String>,
        listing_summary: Option<String>,
    )
        ensures
            final(self).deep_view() == refresh_finished(
                old(self).deep_view(),
                last_summarized_message_index,
                refreshed_at.deep_view(),
                listing_summary.deep_view(),
            ),
    {
        let mut diagnostics = self.diagnostics_of_turn();
        self.memory.refresh_in_flight = false;
        diagnostics.refresh_attempted = true;
        match last_summarized_message_index {
            Some(index) => {
                self.memory.last_summarized_message_index = Some(index);
                diagnostics.refresh_status = MemoryStatus::Succeeded;
                diagnostics.refresh_reason = None;
                diagnostics.refreshed_index = Some(index);
            },
            None => {
                diagnostics.refresh_status = MemoryStatus::FailedBestEffort;
                diagnostics.refresh_reason = Some(MemoryReason::MissingSummary);
            },
        }
        if let Some(time) = refreshed_at {
            self.memory.last_refresh_at = Some(time.clone());
            diagnostics.refreshed_at = Some(time);
        }
        if let Some(summary) = listing_summary {
            self.memory.listing_summary = Some(summary);
        }
        self.diagnostics = Some(diagnostics);
    }
}

} // verus!
