//! What the TeamSpeak receiver does with commands, events and settings, and what
//! its status then shows.

use vstd::prelude::*;

use crate::channels;
use crate::identity;
use crate::jobs::Timestamp;
use crate::manager;
use crate::manager::ManagerAction;
use crate::manager::ManagerPhase;
use crate::session;
use crate::settings;
use crate::teamspeak;
use crate::text;
use crate::text_laws;

verus! {

// ---------------------------------------------------------------------------
// Connecting
// ---------------------------------------------------------------------------

/// The receiver connects to the set server under the set nickname, with the
/// given identity and to the given channel, with the set passwords, and itself
/// says nothing but hears the others.
pub proof fn receiver_connects_as_it_is_set(
    t: settings::TeamSpeakView,
    identity: identity::IdentityView,
    channel: Option<teamspeak::ConnectView>,
)
    ensures
        ({
            let options = teamspeak::options_with(t, identity, channel);
            &&& options.address == t.server_address
            &&& options.name == t.nickname
            &&& options.identity == identity
            &&& options.password == t.server_password
            &&& options.channel == channel
            &&& options.channel_password == t.channel_password
            &&& options.input_muted
            &&& !options.output_muted
        }),
{
}

/// The attempts to connect go to the channel with the set identifier, to the one
/// with the set path unless that is blank, and to the default channel, in this
/// order; after that the first error is reported.
pub proof fn attempts_follow_the_settings(t: settings::TeamSpeakView, errors: Seq<Seq<char>>)
    ensures
        ({
            let by_id: int = if t.channel_id is Some {
                1
            } else {
                0
            };
            let by_path: int = if text_laws::all_white(t.channel_path) {
                0
            } else {
                1
            };
            let n = errors.len();
            let step = teamspeak::next_attempt(t, errors);
            &&& n < by_id ==> step == teamspeak::ConnectStepView::Try(
                Some(teamspeak::ConnectView::Id(t.channel_id->Some_0)),
            )
            &&& by_id <= n < by_id + by_path ==> step == teamspeak::ConnectStepView::Try(
                Some(teamspeak::ConnectView::Path(t.channel_path)),
            )
            &&& n == by_id + by_path ==> step == teamspeak::ConnectStepView::Try(None)
            &&& n > by_id + by_path && by_id + by_path == 0 ==> step
                == teamspeak::ConnectStepView::GiveUp(errors[0])
            &&& n > by_id + by_path && by_id + by_path > 0 ==> step
                == teamspeak::ConnectStepView::GiveUp(
                "TeamSpeak channel connect failed first: "@ + errors[0],
            )
        }),
{
    text_laws::blank_is_white_space_alone(t.channel_path);
}

/// An error is about the license where it says so, in any case.
pub proof fn license_errors_are_known_by_their_words(
    before: Seq<char>,
    words: Seq<char>,
    after: Seq<char>,
)
    requires
        text::ascii_lower_seq(words) == "failed to parse license"@ || text::ascii_lower_seq(words)
            == "intermediate license"@,
    ensures
        teamspeak::names_license(before + words + after),
{
    let error = before + words + after;
    let low = text::ascii_lower_seq(words);
    let a = text::ascii_lower_seq(before);
    let b = text::ascii_lower_seq(after);
    assert(text::ascii_lower_seq(error) =~= a + low + b);
    text_laws::held_pattern_stands_in_the_text(text::ascii_lower_seq(error), low);
}

/// An error that names no license is not about one.
pub proof fn other_errors_are_not_about_the_license(error: Seq<char>)
    requires
        forall|i: int|
            0 <= i <= error.len() - 7 ==> text::ascii_lower_seq(
                #[trigger] error.subrange(i, i + 7),
            ) != "license"@,
    ensures
        !teamspeak::names_license(error),
{
    reveal_strlit("license");
    reveal_strlit("failed to parse license");
    reveal_strlit("intermediate license");
    let low = text::ascii_lower_seq(error);
    if text::contains_text(low, "failed to parse license"@) {
        let i = choose|i: int| text::occurs_at(low, "failed to parse license"@, i);
        lemma_holds_license(error, i, "failed to parse license"@, 16);
    }
    if text::contains_text(low, "intermediate license"@) {
        let i = choose|i: int| text::occurs_at(low, "intermediate license"@, i);
        lemma_holds_license(error, i, "intermediate license"@, 13);
    }
}

proof fn lemma_holds_license(error: Seq<char>, i: int, pat: Seq<char>, at: int)
    requires
        text::occurs_at(text::ascii_lower_seq(error), pat, i),
        0 <= at,
        at + 7 == pat.len(),
        pat.subrange(at, at + 7) =~= "license"@,
    ensures
        0 <= i + at <= error.len() - 7,
        text::ascii_lower_seq(error.subrange(i + at, i + at + 7)) == "license"@,
{
    let low = text::ascii_lower_seq(error);
    let sub = low.subrange(i, i + pat.len());
    assert(sub =~= pat);
    let word = text::ascii_lower_seq(error.subrange(i + at, i + at + 7));
    assert forall|k: int| 0 <= k < 7 implies #[trigger] word[k] == "license"@[k] by {
        assert(word[k] == low[i + at + k]);
        assert(sub[at + k] == low[i + at + k]);
        assert(pat.subrange(at, at + 7)[k] == pat[at + k]);
    }
    assert("license"@.len() == 7) by {
        assert(pat.subrange(at, at + 7).len() == 7);
    }
    assert(word =~= "license"@);
}

// ---------------------------------------------------------------------------
// Sessions
// ---------------------------------------------------------------------------

/// A session ends with a command, an error or the close of the connection, and
/// with nothing else: new settings are applied, a command to disconnect ends it,
/// a command to connect or reconnect and a close have it connect again, and an
/// error is kept.
pub proof fn sessions_end_as_they_are_told(
    cfg: settings::TeamSpeakView,
    error: Seq<char>,
    list: Seq<channels::ChannelView>,
    own: Option<channels::ChannelView>,
)
    ensures
        ({
            let told = |c: Option<teamspeak::CommandView>|
                session::end_by_event(session::SessionEventView::Command(c));
            &&& told(Some(teamspeak::CommandView::Apply(cfg))) == Some(teamspeak::EndView::Apply(cfg))
            &&& told(Some(teamspeak::CommandView::Disconnect)) == Some(
                teamspeak::EndView::Disconnected,
            )
            &&& told(Some(teamspeak::CommandView::Connect)) == Some(teamspeak::EndView::Reconnect)
            &&& told(Some(teamspeak::CommandView::Reconnect)) == Some(teamspeak::EndView::Reconnect)
            &&& told(None) == Some(teamspeak::EndView::Disconnected)
        }),
        session::end_by_event(session::SessionEventView::Failed(error)) == Some(
            teamspeak::EndView::Fatal(error),
        ),
        session::end_by_event(session::SessionEventView::Closed) == Some(
            teamspeak::EndView::Reconnect,
        ),
        session::end_by_event(session::SessionEventView::Interrupted(error)) is None,
        session::end_by_event(session::SessionEventView::Book(list, own)) is None,
        session::end_by_event(session::SessionEventView::Other) is None,
{
}

/// The selected channel is missing where one is set, by identifier or by a path
/// that is not blank, and none of the channels has the identifier or the path.
pub proof fn missing_channel_is_in_no_list(
    t: settings::TeamSpeakView,
    list: Seq<channels::ChannelView>,
)
    ensures
        session::selected_missing(t, list) == ({
            &&& t.channel_id is Some || !text_laws::all_white(t.channel_path)
            &&& t.channel_id matches Some(id) ==> forall|i: int|
                0 <= i < list.len() ==> (#[trigger] list[i]).id != id
            &&& !text_laws::all_white(t.channel_path) ==> forall|i: int|
                0 <= i < list.len() ==> (#[trigger] list[i]).path != t.channel_path
        }),
{
    text_laws::blank_is_white_space_alone(t.channel_path);
    if let Some(id) = t.channel_id {
        lemma_channel_with_is_listed(list, id);
    }
}

proof fn lemma_channel_with_is_listed(list: Seq<channels::ChannelView>, id: u64)
    ensures
        teamspeak::channel_with(list, id) is Some <==> exists|i: int|
            0 <= i < list.len() && (#[trigger] list[i]).id == id,
    decreases list.len(),
{
    if list.len() > 0 {
        let before = list.drop_last();
        lemma_channel_with_is_listed(before, id);
        if list.last().id == id {
            assert(list[list.len() - 1].id == id);
        } else {
            if exists|i: int| 0 <= i < before.len() && (#[trigger] before[i]).id == id {
                let i = choose|i: int| 0 <= i < before.len() && (#[trigger] before[i]).id == id;
                assert(list[i].id == id);
            }
            if exists|i: int| 0 <= i < list.len() && (#[trigger] list[i]).id == id {
                let i = choose|i: int| 0 <= i < list.len() && (#[trigger] list[i]).id == id;
                assert(before[i].id == id);
            }
        }
    }
}

/// While connected the status shows the server, its channels, the channel that
/// the receiver is in, and since when it is connected; the channel that is
/// missing is named.
pub proof fn connected_status_shows_the_server(
    status: teamspeak::StatusView,
    t: settings::TeamSpeakView,
    list: Seq<channels::ChannelView>,
    own: Option<channels::ChannelView>,
    now: Timestamp,
)
    ensures
        ({
            let after = session::status_after_event(
                status,
                t,
                session::SessionEventView::Book(list, own),
                now,
            );
            &&& after.enabled
            &&& after.connected
            &&& after.server_address == t.server_address
            &&& after.channels == list
            &&& own matches Some(c) ==> after.active_channel_id == Some(c.id)
                && after.active_channel_path == c.path
            &&& own is None ==> after.active_channel_id is None && after.active_channel_path.len()
                == 0
            &&& status.connected_at is None ==> after.connected_at == Some(now)
            &&& status.connected_at is Some ==> after.connected_at == status.connected_at
            &&& session::selected_missing(t, list) ==> after.last_error == Some(
                "configured TeamSpeak channel is missing: "@ + t.channel_path,
            )
            &&& !session::selected_missing(t, list) ==> after.last_error is None
            &&& after.state == (if session::selected_missing(t, list) {
                "channel_missing"@
            } else {
                "connected"@
            })
        }),
{
}

/// A start of a session is shown as connecting to the server, without the last
/// error; a lost connection is shown with its reason; no other event changes the
/// status.
pub proof fn status_shows_the_connection(
    status: teamspeak::StatusView,
    t: settings::TeamSpeakView,
    reason: Seq<char>,
    event: session::SessionEventView,
    now: Timestamp,
)
    ensures
        ({
            let after = session::status_connecting(status, t);
            &&& after.state == "connecting"@
            &&& after.enabled
            &&& !after.connected
            &&& after.server_address == t.server_address
            &&& after.last_error is None
            &&& after.channels == status.channels
        }),
        ({
            let after = session::status_after_event(
                status,
                t,
                session::SessionEventView::Interrupted(reason),
                now,
            );
            &&& after.state == "reconnecting"@
            &&& !after.connected
            &&& after.connected_at is None
            &&& after.last_error == Some("temporarily disconnected: "@ + reason)
            &&& after.enabled == status.enabled
            &&& after.server_address == status.server_address
            &&& after.channels == status.channels
        }),
        !(event is Book) && !(event is Interrupted) ==> session::status_after_event(
            status,
            t,
            event,
            now,
        ) == status,
{
}

// ---------------------------------------------------------------------------
// Commands
// ---------------------------------------------------------------------------

/// A manager that is ready runs a session where the receiver is enabled and
/// waits for a command where it is not; one that was refused waits; one that
/// pauses does so for its time; one that has stopped stops.
pub proof fn manager_does_what_it_is_at(cfg: settings::TeamSpeakView, seconds: u64)
    ensures
        manager::action_of(manager::ManagerView { cfg, phase: ManagerPhase::Ready }) == (
        if cfg.enabled {
            ManagerAction::RunSession
        } else {
            ManagerAction::WaitForCommand
        }),
        manager::action_of(manager::ManagerView { cfg, phase: ManagerPhase::Refused })
            == ManagerAction::WaitForCommand,
        manager::action_of(
            manager::ManagerView { cfg, phase: ManagerPhase::Reconnecting(seconds) },
        ) == ManagerAction::Pause(seconds),
        manager::action_of(manager::ManagerView { cfg, phase: ManagerPhase::Recovering(seconds) })
            == ManagerAction::Pause(seconds),
        manager::action_of(manager::ManagerView { cfg, phase: ManagerPhase::Stopped })
            == ManagerAction::Stop,
{
}

/// New settings that come while the manager waits are in force; so are the saved
/// ones after a command to connect or to reconnect, which enables the receiver
/// unless the server refused it; a command to disconnect leaves the receiver
/// disabled; and where no command can come any more the manager stops.
pub proof fn commands_put_settings_in_force(
    m: manager::ManagerView,
    cfg: settings::TeamSpeakView,
    saved: settings::TeamSpeakView,
    fresh: Seq<char>,
)
    ensures
        ({
            let after = manager::after_command(
                m,
                Some(teamspeak::CommandView::Apply(cfg)),
                saved,
                fresh,
            );
            &&& after.cfg == settings::teamspeak_normalized(cfg, fresh)
            &&& after.phase == ManagerPhase::Ready
        }),
        ({
            let connect = manager::after_command(
                m,
                Some(teamspeak::CommandView::Connect),
                saved,
                fresh,
            );
            let reconnect = manager::after_command(
                m,
                Some(teamspeak::CommandView::Reconnect),
                saved,
                fresh,
            );
            let proper = settings::teamspeak_normalized(saved, fresh);
            &&& connect == reconnect
            &&& connect.phase == ManagerPhase::Ready
            &&& connect.cfg.server_address == proper.server_address
            &&& connect.cfg.server_password == proper.server_password
            &&& connect.cfg.nickname == proper.nickname
            &&& connect.cfg.identity == proper.identity
            &&& connect.cfg.channel_id == proper.channel_id
            &&& connect.cfg.channel_path == proper.channel_path
            &&& connect.cfg.channel_password == proper.channel_password
            &&& connect.cfg.reconnect_seconds == proper.reconnect_seconds
            &&& m.phase != ManagerPhase::Refused ==> connect.cfg.enabled
            &&& m.phase == ManagerPhase::Refused ==> connect.cfg.enabled == saved.enabled
        }),
        ({
            let after = manager::after_command(
                m,
                Some(teamspeak::CommandView::Disconnect),
                saved,
                fresh,
            );
            &&& after.phase == ManagerPhase::Ready
            &&& m.phase == ManagerPhase::Refused ==> !after.cfg.enabled
            &&& m.phase != ManagerPhase::Refused ==> after.cfg == m.cfg
            &&& after.cfg.server_address == m.cfg.server_address
        }),
        ({
            let after = manager::after_command(m, None, saved, fresh);
            &&& after.phase == ManagerPhase::Stopped
            &&& after.cfg == m.cfg
        }),
{
}

/// After a session the settings that ended it, or else the saved ones, are in
/// force; to connect again the manager pauses for their seconds, and after an
/// error for those that were in force; and after the pause it is ready, after an
/// error with the settings that are saved then.
pub proof fn sessions_are_followed_by_what_ended_them(
    m: manager::ManagerView,
    cfg: settings::TeamSpeakView,
    saved: settings::TeamSpeakView,
    error: Seq<char>,
    fresh: Seq<char>,
)
    ensures
        ({
            let proper = settings::teamspeak_normalized(saved, fresh);
            let applied = manager::after_session(m, teamspeak::EndView::Apply(cfg), saved, fresh);
            let ended = manager::after_session(m, teamspeak::EndView::Disconnected, saved, fresh);
            let again = manager::after_session(m, teamspeak::EndView::Reconnect, saved, fresh);
            let failed = manager::after_session(m, teamspeak::EndView::Fatal(error), saved, fresh);
            &&& applied.cfg == settings::teamspeak_normalized(cfg, fresh)
            &&& applied.phase == ManagerPhase::Ready
            &&& ended.cfg == proper
            &&& ended.phase == ManagerPhase::Ready
            &&& again.cfg == proper
            &&& again.phase == ManagerPhase::Reconnecting(proper.reconnect_seconds)
            &&& manager::after_pause(again, cfg, fresh).cfg == proper
            &&& manager::after_pause(again, cfg, fresh).phase == ManagerPhase::Ready
            &&& failed.cfg == m.cfg
            &&& teamspeak::names_license(error) ==> failed.phase == ManagerPhase::Refused
            &&& !teamspeak::names_license(error) ==> failed.phase == ManagerPhase::Recovering(
                m.cfg.reconnect_seconds,
            ) && manager::after_pause(failed, cfg, fresh).cfg == settings::teamspeak_normalized(
                cfg,
                fresh,
            )
        }),
{
}

/// The status after a session shows how it ended: as idle, as reconnecting or
/// with the error, and never as connected; new settings leave it as it is.
pub proof fn status_shows_how_a_session_ended(
    status: teamspeak::StatusView,
    after: manager::ManagerView,
    cfg: settings::TeamSpeakView,
    error: Seq<char>,
)
    ensures
        manager::status_after_session(status, teamspeak::EndView::Apply(cfg), after) == status,
        ({
            let shown = manager::status_after_session(
                status,
                teamspeak::EndView::Disconnected,
                after,
            );
            &&& shown.state == (if after.cfg.enabled {
                "disconnected"@
            } else {
                "disabled"@
            })
            &&& is_shown_without_connection(shown, status, after)
            &&& shown.last_error == status.last_error
        }),
        ({
            let shown = manager::status_after_session(
                status,
                teamspeak::EndView::Reconnect,
                after,
            );
            &&& shown.state == "reconnecting"@
            &&& is_shown_without_connection(shown, status, after)
            &&& shown.last_error == status.last_error
        }),
        ({
            let shown = manager::status_after_session(
                status,
                teamspeak::EndView::Fatal(error),
                after,
            );
            &&& is_shown_without_connection(shown, status, after)
            &&& teamspeak::names_license(error) ==> shown.state == "unsupported_server_license"@
                && shown.last_error == Some(
                error
                    + ". The current tsclientlib/tsproto stack could not parse this server's license handshake."@,
            )
            &&& !teamspeak::names_license(error) ==> shown.state == "error"@ && shown.last_error
                == Some(error)
        }),
{
}

/// Whether a status shows no connection, and otherwise what it showed and whether
/// the receiver is enabled.
pub open spec fn is_shown_without_connection(
    shown: teamspeak::StatusView,
    before: teamspeak::StatusView,
    after: manager::ManagerView,
) -> bool {
    &&& !shown.connected
    &&& shown.connected_at is None
    &&& shown.enabled == after.cfg.enabled
    &&& shown.server_address == before.server_address
    &&& shown.active_channel_id == before.active_channel_id
    &&& shown.active_channel_path == before.active_channel_path
    &&& shown.channels == before.channels
}

/// The status after a command shows whether the receiver is enabled and which
/// server it is set to; a receiver that is disabled is shown so.
pub proof fn status_shows_the_settings_in_force(
    status: teamspeak::StatusView,
    m: manager::ManagerView,
    after: manager::ManagerView,
)
    ensures
        ({
            let shown = manager::status_after_command(status, m, after);
            &&& m.phase != ManagerPhase::Refused && after.phase != ManagerPhase::Stopped ==> {
                &&& shown.enabled == after.cfg.enabled
                &&& shown.server_address == after.cfg.server_address
                &&& !after.cfg.enabled ==> shown.state == "disabled"@ && !shown.connected
                    && shown.connected_at is None
                &&& after.cfg.enabled ==> shown.state == status.state && shown.connected
                    == status.connected
                &&& shown.last_error == status.last_error
                &&& shown.channels == status.channels
            }
            &&& m.phase == ManagerPhase::Refused ==> shown == status
        }),
        ({
            let shown = manager::first_status(status, after);
            &&& shown.enabled == after.cfg.enabled
            &&& shown.server_address == after.cfg.server_address
            &&& shown.state == (if after.cfg.enabled {
                "disconnected"@
            } else {
                "disabled"@
            })
        }),
{
}

/// The receiver starts with the saved settings in force.
pub proof fn receiver_starts_with_the_saved_settings(
    saved: settings::TeamSpeakView,
    fresh: Seq<char>,
)
    ensures
        manager::first_manager(saved, fresh).cfg == settings::teamspeak_normalized(saved, fresh),
        manager::first_manager(saved, fresh).phase == ManagerPhase::Ready,
{
}

/// Settings that a command or the end of a session puts in force keep the
/// identity that is set in them; where none is set, they get a new one.
pub proof fn settings_in_force_have_an_identity(
    m: manager::ManagerView,
    command: teamspeak::CommandView,
    end: teamspeak::EndView,
    saved: settings::TeamSpeakView,
    fresh: Seq<char>,
)
    requires
        manager::settings_for_command(Some(command), saved) matches Some(t)
            ==> settings::is_identity_for(t, fresh),
        manager::settings_for_end(end, saved) matches Some(t) ==> settings::is_identity_for(
            t,
            fresh,
        ),
    ensures
        ({
            let after = manager::after_command(m, Some(command), saved, fresh).cfg.identity;
            match command {
                teamspeak::CommandView::Apply(t) => is_identity_out_of(t, after),
                teamspeak::CommandView::Disconnect => after == m.cfg.identity,
                _ => is_identity_out_of(saved, after),
            }
        }),
        ({
            let after = manager::after_session(m, end, saved, fresh).cfg.identity;
            match end {
                teamspeak::EndView::Apply(t) => is_identity_out_of(t, after),
                teamspeak::EndView::Fatal(_) => after == m.cfg.identity,
                _ => is_identity_out_of(saved, after),
            }
        }),
{
    text_laws::blank_is_white_space_alone(saved.identity);
    if let teamspeak::CommandView::Apply(t) = command {
        text_laws::blank_is_white_space_alone(t.identity);
    }
    if let teamspeak::EndView::Apply(t) = end {
        text_laws::blank_is_white_space_alone(t.identity);
    }
}

/// Whether an identity is the one set in `t`, or a new one where that is blank.
pub open spec fn is_identity_out_of(t: settings::TeamSpeakView, found: Seq<char>) -> bool {
    if text_laws::all_white(t.identity) {
        identity::is_new_identity_text(found)
    } else {
        found == text::trim(t.identity)
    }
}

} // verus!
