//! The manager of the TeamSpeak receiver: when it waits for a command, when it
//! runs a session, and when it pauses before the next.

use vstd::prelude::*;

use crate::settings;
use crate::settings::TeamSpeakConfig;
use crate::teamspeak;
use crate::teamspeak::TeamSpeakCommand;
use crate::teamspeak::TeamSpeakSessionEnd;
use crate::teamspeak::TeamSpeakStatus;
use crate::text;

verus! {

/// What the manager is at.
#[derive(Clone, Copy, Debug, PartialEq, Eq, Structural)]
pub enum ManagerPhase {
    /// It goes by whether the receiver is enabled.
    Ready,
    /// It waits for a command because the license of the server was not
    /// understood.
    Refused,
    /// It pauses for this many seconds before it connects again.
    Reconnecting(u64),
    /// It pauses for this many seconds after an error, and then takes over the
    /// saved settings.
    Recovering(u64),
    /// It has stopped.
    Stopped,
}

/// What the manager has to do next.
#[derive(Clone, Copy, Debug, PartialEq, Eq, Structural)]
pub enum ManagerAction {
    /// Wait for the next command.
    WaitForCommand,
    /// Run a session.
    RunSession,
    /// Pause for this many seconds.
    Pause(u64),
    /// Stop.
    Stop,
}

/// The manager, with the settings that are in force.
#[derive(Debug)]
pub struct TeamSpeakManager {
    cfg: TeamSpeakConfig,
    phase: ManagerPhase,
}

/// The contents of a [`TeamSpeakManager`].
#[verifier::ext_equal]
pub struct ManagerView {
    pub cfg: settings::TeamSpeakView,
    pub phase: ManagerPhase,
}

impl View for TeamSpeakManager {
    type V = ManagerView;

    closed spec fn view(&self) -> ManagerView {
        ManagerView { cfg: self.cfg@, phase: self.phase }
    }
}

/// What a manager has to do next.
pub open spec fn action_of(m: ManagerView) -> ManagerAction {
    match m.phase {
        ManagerPhase::Ready => if m.cfg.enabled {
            ManagerAction::RunSession
        } else {
            ManagerAction::WaitForCommand
        },
        ManagerPhase::Refused => ManagerAction::WaitForCommand,
        ManagerPhase::Reconnecting(seconds) => ManagerAction::Pause(seconds),
        ManagerPhase::Recovering(seconds) => ManagerAction::Pause(seconds),
        ManagerPhase::Stopped => ManagerAction::Stop,
    }
}

// ---------------------------------------------------------------------------
// Commands
// ---------------------------------------------------------------------------

/// The settings that a command puts in force, before they are brought into
/// their proper form; `saved` are the saved ones.
pub open spec fn settings_for_command(
    command: Option<teamspeak::CommandView>,
    saved: settings::TeamSpeakView,
) -> Option<settings::TeamSpeakView> {
    match command {
        Some(teamspeak::CommandView::Apply(cfg)) => Some(cfg),
        Some(teamspeak::CommandView::Connect) => Some(saved),
        Some(teamspeak::CommandView::Reconnect) => Some(saved),
        _ => None,
    }
}

/// The manager after a command that it waited for; `fresh` is the identity where
/// none is set.
pub open spec fn after_command(
    m: ManagerView,
    command: Option<teamspeak::CommandView>,
    saved: settings::TeamSpeakView,
    fresh: Seq<char>,
) -> ManagerView {
    let refused = m.phase == ManagerPhase::Refused;
    match command {
        None => ManagerView { phase: ManagerPhase::Stopped, ..m },
        Some(teamspeak::CommandView::Disconnect) => ManagerView {
            cfg: if refused {
                settings::TeamSpeakView { enabled: false, ..m.cfg }
            } else {
                m.cfg
            },
            phase: ManagerPhase::Ready,
        },
        Some(teamspeak::CommandView::Apply(cfg)) => ManagerView {
            cfg: settings::teamspeak_normalized(cfg, fresh),
            phase: ManagerPhase::Ready,
        },
        Some(_) => {
            let cfg = settings::teamspeak_normalized(saved, fresh);
            ManagerView {
                cfg: if refused {
                    cfg
                } else {
                    settings::TeamSpeakView { enabled: true, ..cfg }
                },
                phase: ManagerPhase::Ready,
            }
        },
    }
}

/// The status after a command that the manager waited for while the receiver
/// was disabled; `after` is the manager after it.
pub open spec fn status_after_command(
    status: teamspeak::StatusView,
    m: ManagerView,
    after: ManagerView,
) -> teamspeak::StatusView {
    if m.phase == ManagerPhase::Refused || after.phase == ManagerPhase::Stopped {
        status
    } else if after.cfg.enabled {
        teamspeak::StatusView {
            enabled: true,
            server_address: after.cfg.server_address,
            ..status
        }
    } else {
        teamspeak::StatusView {
            state: "disabled"@,
            enabled: false,
            connected: false,
            server_address: after.cfg.server_address,
            connected_at: None,
            ..status
        }
    }
}

// ---------------------------------------------------------------------------
// Ends of sessions
// ---------------------------------------------------------------------------

/// The settings that the end of a session puts in force, before they are brought
/// into their proper form; `saved` are the saved ones.
pub open spec fn settings_for_end(
    end: teamspeak::EndView,
    saved: settings::TeamSpeakView,
) -> Option<settings::TeamSpeakView> {
    match end {
        teamspeak::EndView::Apply(cfg) => Some(cfg),
        teamspeak::EndView::Disconnected => Some(saved),
        teamspeak::EndView::Reconnect => Some(saved),
        teamspeak::EndView::Fatal(_) => None,
    }
}

/// The manager after the end of a session; `fresh` is the identity where none is
/// set.
pub open spec fn after_session(
    m: ManagerView,
    end: teamspeak::EndView,
    saved: settings::TeamSpeakView,
    fresh: Seq<char>,
) -> ManagerView {
    match end {
        teamspeak::EndView::Apply(cfg) => ManagerView {
            cfg: settings::teamspeak_normalized(cfg, fresh),
            phase: ManagerPhase::Ready,
        },
        teamspeak::EndView::Disconnected => ManagerView {
            cfg: settings::teamspeak_normalized(saved, fresh),
            phase: ManagerPhase::Ready,
        },
        teamspeak::EndView::Reconnect => {
            let cfg = settings::teamspeak_normalized(saved, fresh);
            ManagerView { cfg, phase: ManagerPhase::Reconnecting(cfg.reconnect_seconds) }
        },
        teamspeak::EndView::Fatal(error) => ManagerView {
            phase: if teamspeak::names_license(error) {
                ManagerPhase::Refused
            } else {
                ManagerPhase::Recovering(m.cfg.reconnect_seconds)
            },
            ..m
        },
    }
}

/// The name of the state without a session.
pub open spec fn idle_state(enabled: bool) -> Seq<char> {
    if enabled {
        "disconnected"@
    } else {
        "disabled"@
    }
}

/// The status without a connection.
pub open spec fn status_without_connection(
    status: teamspeak::StatusView,
    state: Seq<char>,
    enabled: bool,
    last_error: Option<Seq<char>>,
) -> teamspeak::StatusView {
    teamspeak::StatusView {
        state,
        enabled,
        connected: false,
        connected_at: None,
        last_error,
        ..status
    }
}

/// The message about a license that was not understood.
pub open spec fn license_message(error: Seq<char>) -> Seq<char> {
    error
        + ". The current tsclientlib/tsproto stack could not parse this server's license handshake."@
}

/// The status after the end of a session; `after` is the manager after it.
pub open spec fn status_after_session(
    status: teamspeak::StatusView,
    end: teamspeak::EndView,
    after: ManagerView,
) -> teamspeak::StatusView {
    let enabled = after.cfg.enabled;
    match end {
        teamspeak::EndView::Apply(_) => status,
        teamspeak::EndView::Disconnected => status_without_connection(
            status,
            idle_state(enabled),
            enabled,
            status.last_error,
        ),
        teamspeak::EndView::Reconnect => status_without_connection(
            status,
            "reconnecting"@,
            enabled,
            status.last_error,
        ),
        teamspeak::EndView::Fatal(error) => if teamspeak::names_license(error) {
            status_without_connection(
                status,
                "unsupported_server_license"@,
                enabled,
                Some(license_message(error)),
            )
        } else {
            status_without_connection(status, "error"@, enabled, Some(error))
        },
    }
}

/// The manager after a pause; `fresh` is the identity where none is set.
pub open spec fn after_pause(
    m: ManagerView,
    saved: settings::TeamSpeakView,
    fresh: Seq<char>,
) -> ManagerView {
    match m.phase {
        ManagerPhase::Reconnecting(_) => ManagerView { phase: ManagerPhase::Ready, ..m },
        ManagerPhase::Recovering(_) => ManagerView {
            cfg: settings::teamspeak_normalized(saved, fresh),
            phase: ManagerPhase::Ready,
        },
        _ => m,
    }
}

/// The manager when the receiver starts; `fresh` is the identity where none is
/// set.
pub open spec fn first_manager(saved: settings::TeamSpeakView, fresh: Seq<char>) -> ManagerView {
    ManagerView {
        cfg: settings::teamspeak_normalized(saved, fresh),
        phase: ManagerPhase::Ready,
    }
}

/// The status when the receiver starts.
pub open spec fn first_status(
    status: teamspeak::StatusView,
    m: ManagerView,
) -> teamspeak::StatusView {
    teamspeak::StatusView {
        enabled: m.cfg.enabled,
        server_address: m.cfg.server_address,
        state: idle_state(m.cfg.enabled),
        ..status
    }
}

/// Shows the status without a connection, with the last error as it is.
fn show_without_connection(status: &mut TeamSpeakStatus, state: &str, enabled: bool)
    ensures
        final(status)@ == status_without_connection(
            old(status)@,
            state@,
            enabled,
            old(status)@.last_error,
        ),
{
    status.state = state.to_owned();
    status.enabled = enabled;
    status.connected = false;
    status.connected_at = None;
}

impl TeamSpeakManager {
    /// Starts with the saved settings, with `fresh` as the identity where none
    /// is set, and shows that in the status.
    pub fn start_with(saved: &TeamSpeakConfig, fresh: &str, status: &mut TeamSpeakStatus) -> (r:
        Self)
        ensures
            r@ == first_manager(saved@, fresh@),
            final(status)@ == first_status(old(status)@, r@),
    {
        let cfg = saved.normalized_with(fresh);
        status.enabled = cfg.enabled;
        status.server_address = cfg.server_address.clone();
        status.state = if cfg.enabled {
            "disconnected".to_owned()
        } else {
            "disabled".to_owned()
        };
        TeamSpeakManager { cfg, phase: ManagerPhase::Ready }
    }

    /// Starts with the saved settings, with a new identity where none is set,
    /// and shows that in the status.
    pub fn start(saved: &TeamSpeakConfig, status: &mut TeamSpeakStatus) -> (r: Self)
        ensures
            r@ == first_manager(saved@, r@.cfg.identity),
            settings::is_identity_for(saved@, r@.cfg.identity),
            final(status)@ == first_status(old(status)@, r@),
    {
        let fresh = saved.fresh_identity();
        TeamSpeakManager::start_with(saved, fresh.as_str(), status)
    }

    /// The settings that are in force.
    pub fn settings(&self) -> (r: &TeamSpeakConfig)
        ensures
            r@ == self@.cfg,
    {
        &self.cfg
    }

    /// What to do next.
    pub fn next_action(&self) -> (r: ManagerAction)
        ensures
            r == action_of(self@),
    {
        match self.phase {
            ManagerPhase::Ready => if self.cfg.enabled {
                ManagerAction::RunSession
            } else {
                ManagerAction::WaitForCommand
            },
            ManagerPhase::Refused => ManagerAction::WaitForCommand,
            ManagerPhase::Reconnecting(seconds) => ManagerAction::Pause(seconds),
            ManagerPhase::Recovering(seconds) => ManagerAction::Pause(seconds),
            ManagerPhase::Stopped => ManagerAction::Stop,
        }
    }

    /// Takes a command that was waited for, or that none will come any more,
    /// with `fresh` as the identity where none is set.
    pub fn on_command_with(
        &mut self,
        command: Option<TeamSpeakCommand>,
        saved: &TeamSpeakConfig,
        fresh: &str,
        status: &mut TeamSpeakStatus,
    )
        ensures
            final(self)@ == after_command(
                old(self)@,
                teamspeak::command_view(command),
                saved@,
                fresh@,
            ),
            final(status)@ == status_after_command(old(status)@, old(self)@, final(self)@),
    {
        let refused = match self.phase {
            ManagerPhase::Refused => true,
            _ => false,
        };
        match command {
            None => {
                self.phase = ManagerPhase::Stopped;
                return;
            },
            Some(TeamSpeakCommand::Disconnect) => {
                if refused {
                    self.cfg.enabled = false;
                }
            },
            Some(TeamSpeakCommand::Apply(cfg)) => {
                self.cfg = cfg.normalized_with(fresh);
            },
            Some(TeamSpeakCommand::Connect) | Some(TeamSpeakCommand::Reconnect) => {
                self.cfg = saved.normalized_with(fresh);
                if !refused {
                    self.cfg.enabled = true;
                }
            },
        }
        self.phase = ManagerPhase::Ready;
        if !refused {
            status.enabled = self.cfg.enabled;
            status.server_address = self.cfg.server_address.clone();
            if !self.cfg.enabled {
                status.state = "disabled".to_owned();
                status.connected = false;
                status.connected_at = None;
            }
        }
    }

    /// Takes a command that was waited for, or that none will come any more,
    /// with a new identity where none is set.
    pub fn on_command(
        &mut self,
        command: Option<TeamSpeakCommand>,
        saved: &TeamSpeakConfig,
        status: &mut TeamSpeakStatus,
    )
        ensures
            final(self)@ == after_command(
                old(self)@,
                teamspeak::command_view(command),
                saved@,
                final(self)@.cfg.identity,
            ),
            settings_for_command(teamspeak::command_view(command), saved@) matches Some(cfg)
                ==> settings::is_identity_for(cfg, final(self)@.cfg.identity),
            final(status)@ == status_after_command(old(status)@, old(self)@, final(self)@),
    {
        let fresh = match &command {
            Some(TeamSpeakCommand::Apply(cfg)) => cfg.fresh_identity(),
            Some(TeamSpeakCommand::Connect) => saved.fresh_identity(),
            Some(TeamSpeakCommand::Reconnect) => saved.fresh_identity(),
            _ => String::new(),
        };
        self.on_command_with(command, saved, fresh.as_str(), status);
    }

    /// Takes the end of a session, with `fresh` as the identity where none is
    /// set.
    pub fn on_session_end_with(
        &mut self,
        end: TeamSpeakSessionEnd,
        saved: &TeamSpeakConfig,
        fresh: &str,
        status: &mut TeamSpeakStatus,
    )
        ensures
            final(self)@ == after_session(old(self)@, end@, saved@, fresh@),
            final(status)@ == status_after_session(old(status)@, end@, final(self)@),
    {
        match end {
            TeamSpeakSessionEnd::Apply(cfg) => {
                self.cfg = cfg.normalized_with(fresh);
                self.phase = ManagerPhase::Ready;
            },
            TeamSpeakSessionEnd::Disconnected => {
                self.cfg = saved.normalized_with(fresh);
                self.phase = ManagerPhase::Ready;
                let state: &str = if self.cfg.enabled {
                    "disconnected"
                } else {
                    "disabled"
                };
                show_without_connection(status, state, self.cfg.enabled);
            },
            TeamSpeakSessionEnd::Reconnect => {
                self.cfg = saved.normalized_with(fresh);
                self.phase = ManagerPhase::Reconnecting(self.cfg.reconnect_seconds);
                show_without_connection(status, "reconnecting", self.cfg.enabled);
            },
            TeamSpeakSessionEnd::Fatal(error) => {
                if teamspeak::is_unsupported_teamspeak_license_error(error.as_str()) {
                    self.phase = ManagerPhase::Refused;
                    show_without_connection(
                        status,
                        "unsupported_server_license",
                        self.cfg.enabled,
                    );
                    status.last_error = Some(
                        text::concat2(
                            error.as_str(),
                            ". The current tsclientlib/tsproto stack could not parse this server's license handshake.",
                        ),
                    );
                } else {
                    self.phase = ManagerPhase::Recovering(self.cfg.reconnect_seconds);
                    show_without_connection(status, "error", self.cfg.enabled);
                    status.last_error = Some(error);
                }
            },
        }
    }

    /// Takes the end of a session, with a new identity where none is set.
    pub fn on_session_end(
        &mut self,
        end: TeamSpeakSessionEnd,
        saved: &TeamSpeakConfig,
        status: &mut TeamSpeakStatus,
    )
        ensures
            final(self)@ == after_session(old(self)@, end@, saved@, final(self)@.cfg.identity),
            settings_for_end(end@, saved@) matches Some(cfg) ==> settings::is_identity_for(
                cfg,
                final(self)@.cfg.identity,
            ),
            final(status)@ == status_after_session(old(status)@, end@, final(self)@),
    {
        let fresh = match &end {
            TeamSpeakSessionEnd::Apply(cfg) => cfg.fresh_identity(),
            TeamSpeakSessionEnd::Disconnected => saved.fresh_identity(),
            TeamSpeakSessionEnd::Reconnect => saved.fresh_identity(),
            TeamSpeakSessionEnd::Fatal(_) => String::new(),
        };
        self.on_session_end_with(end, saved, fresh.as_str(), status);
    }

    /// Takes the end of a pause, with `fresh` as the identity where none is set.
    pub fn on_pause_end_with(&mut self, saved: &TeamSpeakConfig, fresh: &str)
        ensures
            final(self)@ == after_pause(old(self)@, saved@, fresh@),
    {
        match self.phase {
            ManagerPhase::Reconnecting(_) => {
                self.phase = ManagerPhase::Ready;
            },
            ManagerPhase::Recovering(_) => {
                self.cfg = saved.normalized_with(fresh);
                self.phase = ManagerPhase::Ready;
            },
            _ => {},
        }
    }

    /// Takes the end of a pause, with a new identity where none is set.
    pub fn on_pause_end(&mut self, saved: &TeamSpeakConfig)
        ensures
            final(self)@ == after_pause(old(self)@, saved@, final(self)@.cfg.identity),
            old(self)@.phase is Recovering ==> settings::is_identity_for(
                saved@,
                final(self)@.cfg.identity,
            ),
    {
        let fresh = match self.phase {
            ManagerPhase::Recovering(_) => saved.fresh_identity(),
            _ => String::new(),
        };
        self.on_pause_end_with(saved, fresh.as_str());
    }
}

} // verus!
