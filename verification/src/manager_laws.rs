//! What holds of the TeamSpeak receiver over its commands and sessions.

use vstd::prelude::*;

use crate::jobs::Timestamp;
use crate::manager;
use crate::manager::ManagerAction;
use crate::manager::ManagerPhase;
use crate::session;
use crate::settings;
use crate::teamspeak;

verus! {

/// Whether the settings in force are proper, and a pause is one that they
/// allow.
pub open spec fn is_proper(m: manager::ManagerView) -> bool {
    &&& 1 <= m.cfg.reconnect_seconds <= 300
    &&& match m.phase {
        ManagerPhase::Reconnecting(seconds) => 1 <= seconds <= 300,
        ManagerPhase::Recovering(seconds) => 1 <= seconds <= 300,
        _ => true,
    }
}

/// Every pause is of one second to five minutes, whatever the settings say.
pub proof fn pauses_are_bounded(m: manager::ManagerView)
    requires
        is_proper(m),
    ensures
        manager::action_of(m) matches ManagerAction::Pause(seconds) ==> 1 <= seconds <= 300,
{
}

/// A manager starts out proper.
pub proof fn first_manager_is_proper(saved: settings::TeamSpeakView, fresh: Seq<char>)
    ensures
        is_proper(manager::first_manager(saved, fresh)),
{
}

/// Commands, ends of sessions and ends of pauses leave a proper manager proper.
pub proof fn managers_stay_proper(
    m: manager::ManagerView,
    command: Option<teamspeak::CommandView>,
    end: teamspeak::EndView,
    saved: settings::TeamSpeakView,
    fresh: Seq<char>,
)
    requires
        is_proper(m),
    ensures
        is_proper(manager::after_command(m, command, saved, fresh)),
        is_proper(manager::after_session(m, end, saved, fresh)),
        is_proper(manager::after_pause(m, saved, fresh)),
{
}

/// A session runs only while the receiver is enabled.
pub proof fn sessions_run_only_when_enabled(m: manager::ManagerView)
    ensures
        manager::action_of(m) == ManagerAction::RunSession ==> m.cfg.enabled,
{
}

/// The command to connect makes a disabled receiver run a session.
pub proof fn connect_command_starts_a_session(
    m: manager::ManagerView,
    saved: settings::TeamSpeakView,
    fresh: Seq<char>,
)
    requires
        m.phase == ManagerPhase::Ready,
        !m.cfg.enabled,
    ensures
        manager::action_of(m) == ManagerAction::WaitForCommand,
        manager::action_of(
            manager::after_command(m, Some(teamspeak::CommandView::Connect), saved, fresh),
        ) == ManagerAction::RunSession,
{
}

/// The command to disconnect ends a session; where the saved settings have the
/// receiver disabled, it then waits for a command and shows itself disabled.
pub proof fn disconnect_command_stops_the_receiver(
    m: manager::ManagerView,
    saved: settings::TeamSpeakView,
    fresh: Seq<char>,
    status: teamspeak::StatusView,
)
    requires
        !saved.enabled,
    ensures
        ({
            let end = session::end_by_command(Some(teamspeak::CommandView::Disconnect));
            let after = manager::after_session(m, end, saved, fresh);
            let shown = manager::status_after_session(status, end, after);
            &&& manager::action_of(after) == ManagerAction::WaitForCommand
            &&& shown.state == "disabled"@
            &&& !shown.enabled
            &&& !shown.connected
        }),
{
}

/// After a license that was not understood the receiver does not try again by
/// itself.
pub proof fn refused_license_waits_for_a_command(
    m: manager::ManagerView,
    error: Seq<char>,
    saved: settings::TeamSpeakView,
    fresh: Seq<char>,
)
    requires
        teamspeak::names_license(error),
    ensures
        manager::action_of(
            manager::after_session(m, teamspeak::EndView::Fatal(error), saved, fresh),
        ) == ManagerAction::WaitForCommand,
{
}

/// After any other error it tries again with the settings that are saved then.
pub proof fn failed_session_is_tried_again(
    m: manager::ManagerView,
    error: Seq<char>,
    saved: settings::TeamSpeakView,
    later: settings::TeamSpeakView,
    fresh: Seq<char>,
)
    requires
        !teamspeak::names_license(error),
        later.enabled,
    ensures
        ({
            let failed = manager::after_session(m, teamspeak::EndView::Fatal(error), saved, fresh);
            let after = manager::after_pause(failed, later, fresh);
            &&& manager::action_of(failed) == ManagerAction::Pause(m.cfg.reconnect_seconds)
            &&& manager::action_of(after) == ManagerAction::RunSession
            &&& after.cfg == settings::teamspeak_normalized(later, fresh)
        }),
{
}

/// Whether a status is consistent: who is connected has been so since some
/// time, and is shown as connected or as missing its channel.
pub open spec fn is_consistent(status: teamspeak::StatusView) -> bool {
    status.connected ==> {
        &&& status.connected_at is Some
        &&& status.enabled
        &&& status.state == "connected"@ || status.state == "channel_missing"@
    }
}

/// The status is consistent when the receiver starts.
pub proof fn first_status_is_consistent(m: manager::ManagerView)
    ensures
        is_consistent(teamspeak::default_status()),
        is_consistent(manager::first_status(teamspeak::default_status(), m)),
{
}

/// Whatever happens in a session leaves a consistent status consistent.
pub proof fn sessions_keep_the_status_consistent(
    status: teamspeak::StatusView,
    t: settings::TeamSpeakView,
    event: session::SessionEventView,
    now: Timestamp,
)
    requires
        is_consistent(status),
    ensures
        is_consistent(session::status_connecting(status, t)),
        is_consistent(session::status_after_event(status, t, event, now)),
{
}

/// Commands and ends of sessions leave a consistent status consistent.
pub proof fn managers_keep_the_status_consistent(
    status: teamspeak::StatusView,
    m: manager::ManagerView,
    command: Option<teamspeak::CommandView>,
    end: teamspeak::EndView,
    saved: settings::TeamSpeakView,
    fresh: Seq<char>,
)
    requires
        is_consistent(status),
    ensures
        is_consistent(
            manager::status_after_command(
                status,
                m,
                manager::after_command(m, command, saved, fresh),
            ),
        ),
        is_consistent(
            manager::status_after_session(
                status,
                end,
                manager::after_session(m, end, saved, fresh),
            ),
        ),
{
}

} // verus!
