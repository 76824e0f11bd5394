//! The agent sessions that the terminal keeps, as far as the overlay reads and starts them.

use crate::status_parser::ParsedStatus;
use vstd::prelude::*;

verus! {

/// Which agent runs in a session.
#[derive(Debug, Clone, Copy, PartialEq, Eq, Structural)]
pub enum CliAgent {
    /// The agent that the overlay is a prompt for.
    ClaudeCode,
    /// Any other agent.
    Other,
}

/// How far a session has come.
#[derive(Debug, Clone, Copy, PartialEq, Eq, Structural)]
pub enum SessionStatus {
    InProgress,
    Ended,
}

/// Whether the terminal's own input for the agent is open.
#[derive(Debug, Clone, Copy, PartialEq, Eq, Structural)]
pub enum InputState {
    Closed,
    Open,
}

/// A session that is registered without the terminal's plugin.
#[derive(Debug, PartialEq)]
pub struct CliAgentSession {
    pub agent: CliAgent,
    pub status: SessionStatus,
    pub input_state: InputState,
    pub should_auto_toggle_input: bool,
    /// Whether a plugin reports the session's progress.
    pub has_listener: bool,
    pub plugin_version: Option<String>,
    pub remote_host: Option<String>,
    pub draft_text: Option<String>,
    pub custom_command_prefix: Option<String>,
}

impl CliAgentSession {
    /// Whether this is a session that was found on the screen: in progress, its input closed, and
    /// nothing known of it but the agent.
    pub open spec fn is_found_on_screen(self, should_auto_toggle_input: bool) -> bool {
        &&& self.agent == CliAgent::ClaudeCode
        &&& self.status == SessionStatus::InProgress
        &&& self.input_state == InputState::Closed
        &&& self.should_auto_toggle_input == should_auto_toggle_input
        &&& !self.has_listener
        &&& self.plugin_version is None
        &&& self.remote_host is None
        &&& self.draft_text is None
        &&& self.custom_command_prefix is None
    }
}

/// The session to register for a pane whose screen shows `status`, if it is to get one: it has none
/// and the status names a model.
///
/// The terminal's plugin does not see every agent (one that is started past the shell bootstrap, for
/// instance). The agent's footer on the screen gives it away all the same.
pub fn session_on_screen(
    status: &ParsedStatus,
    has_session: bool,
    should_auto_toggle_input: bool,
) -> (r: Option<CliAgentSession>)
    ensures
        match r {
            Some(session) => !has_session && status@.model is Some && session.is_found_on_screen(
                should_auto_toggle_input,
            ),
            None => has_session || status@.model is None,
        },
{
    if has_session || status.model.is_none() {
        return None;
    }
    Some(
        CliAgentSession {
            agent: CliAgent::ClaudeCode,
            status: SessionStatus::InProgress,
            input_state: InputState::Closed,
            should_auto_toggle_input,
            has_listener: false,
            plugin_version: None,
            remote_host: None,
            draft_text: None,
            custom_command_prefix: None,
        },
    )
}

/// Whether the agent of a pane's session, if it has one, is the one that the overlay is a prompt
/// for. The overlay is shown over the pane in that case only.
pub fn is_claude_code_active(agent: Option<CliAgent>) -> (r: bool)
    ensures
        r == (agent == Some(CliAgent::ClaudeCode)),
{
    match agent {
        Some(CliAgent::ClaudeCode) => true,
        _ => false,
    }
}

} // verus!
