//! One session of the TeamSpeak receiver: from connecting to the server to the
//! end of the connection.

use vstd::prelude::*;
use std::collections::HashMap;

use crate::channels;
use crate::channels::TeamSpeakChannelInfo;
use crate::jobs;
use crate::jobs::Timestamp;
use crate::json::JsonValue;
use crate::settings;
use crate::settings::TeamSpeakConfig;
use crate::teamspeak;
use crate::teamspeak::TeamSpeakClient;
use crate::teamspeak::TeamSpeakCommand;
use crate::teamspeak::TeamSpeakSessionEnd;
use crate::teamspeak::TeamSpeakSpeakerMeta;
use crate::teamspeak::TeamSpeakStatus;
use crate::text;

verus! {

// ---------------------------------------------------------------------------
// What the server tells
// ---------------------------------------------------------------------------

/// The client with the given identifier; of several the last counts.
pub open spec fn client_with(
    clients: Seq<(u16, teamspeak::ClientView)>,
    id: u16,
) -> Option<teamspeak::ClientView>
    decreases clients.len(),
{
    if clients.len() == 0 {
        None
    } else if clients.last().0 == id {
        Some(clients.last().1)
    } else {
        client_with(clients.drop_last(), id)
    }
}

/// The client with the given identifier; of several the last counts.
pub fn find_client(clients: &Vec<(u16, TeamSpeakClient)>, id: u16) -> (r: Option<&TeamSpeakClient>)
    ensures
        match r {
            Some(c) => client_with(teamspeak::client_views(clients@), id) == Some(c@),
            None => client_with(teamspeak::client_views(clients@), id) is None,
        },
{
    let ghost views = teamspeak::client_views(clients@);
    let mut left: usize = clients.len();
    assert(views.take(left as int) =~= views);
    while left > 0
        invariant
            left <= clients@.len(),
            views == teamspeak::client_views(clients@),
            client_with(views, id) == client_with(views.take(left as int), id),
        decreases left,
    {
        assert(views.take(left as int).last() == (clients@[left - 1].0, clients@[left - 1].1@));
        assert(views.take(left as int).drop_last() =~= views.take(left - 1));
        if clients[left - 1].0 == id {
            return Some(&clients[left - 1].1);
        }
        left = left - 1;
    }
    None
}

/// The channel that the receiver is in.
pub open spec fn own_channel_of(
    clients: Seq<(u16, teamspeak::ClientView)>,
    own_client: u16,
    list: Seq<channels::ChannelView>,
) -> Option<channels::ChannelView> {
    match client_with(clients, own_client) {
        Some(client) => teamspeak::channel_with(list, client.channel),
        None => None,
    }
}

/// What the server tells of its channels and clients.
#[derive(Debug)]
pub struct ServerBook {
    pub channels: Vec<TeamSpeakChannelInfo>,
    pub speakers: HashMap<u16, TeamSpeakSpeakerMeta>,
    pub own_channel: Option<TeamSpeakChannelInfo>,
}

/// The contents of an optional channel.
pub open spec fn opt_channel_view(channel: Option<TeamSpeakChannelInfo>) -> Option<
    channels::ChannelView,
> {
    match channel {
        Some(c) => Some(c@),
        None => None,
    }
}

/// Reads what the server tells: the channels by identifier and description, the
/// clients by identifier, and which of them the receiver is.
pub fn read_server_book(
    entries: &Vec<(u64, JsonValue)>,
    clients: &Vec<(u16, TeamSpeakClient)>,
    own_client: u16,
) -> (r: ServerBook)
    ensures
        channels::lists_channels(
            channels::channel_views(r.channels@),
            channels::entry_views(entries@),
        ),
        teamspeak::speakers_view(r.speakers@) == teamspeak::speakers_of(
            teamspeak::client_views(clients@),
            channels::channel_views(r.channels@),
        ),
        opt_channel_view(r.own_channel) == own_channel_of(
            teamspeak::client_views(clients@),
            own_client,
            channels::channel_views(r.channels@),
        ),
{
    let list = channels::collect_teamspeak_channels(entries);
    let speakers = teamspeak::collect_speakers(clients, &list);
    let own_channel = match find_client(clients, own_client) {
        Some(client) => match teamspeak::find_channel(&list, client.channel) {
            Some(c) => Some(c.clone()),
            None => None,
        },
        None => None,
    };
    ServerBook { channels: list, speakers, own_channel }
}

/// Whether the channel with the set identifier is there.
pub open spec fn id_exists(t: settings::TeamSpeakView, list: Seq<channels::ChannelView>) -> bool {
    match t.channel_id {
        Some(id) => teamspeak::channel_with(list, id) is Some,
        None => false,
    }
}

/// Whether a channel with the set path is there.
pub open spec fn path_exists(t: settings::TeamSpeakView, list: Seq<channels::ChannelView>) -> bool {
    teamspeak::has_path(t) && exists|i: int|
        0 <= i < list.len() && (#[trigger] list[i]).path == t.channel_path
}

/// Whether a channel is set, by identifier or by path, and is not there by
/// either.
pub open spec fn selected_missing(
    t: settings::TeamSpeakView,
    list: Seq<channels::ChannelView>,
) -> bool {
    (t.channel_id is Some || teamspeak::has_path(t)) && !id_exists(t, list) && !path_exists(t, list)
}

/// Whether a channel is set, by identifier or by path, and is not there by
/// either.
pub fn is_selected_missing(cfg: &TeamSpeakConfig, list: &Vec<TeamSpeakChannelInfo>) -> (b: bool)
    ensures
        b == selected_missing(cfg@, channels::channel_views(list@)),
{
    let ghost views = channels::channel_views(list@);
    let path_set = !text::is_blank(cfg.channel_path.as_str());
    let by_id = match cfg.channel_id {
        Some(id) => match teamspeak::find_channel(list, id) {
            Some(_) => true,
            None => false,
        },
        None => false,
    };
    let mut by_path = false;
    if path_set {
        for i in 0..list.len()
            invariant
                views == channels::channel_views(list@),
                by_path <==> exists|j: int|
                    0 <= j < i && (#[trigger] views[j]).path == cfg@.channel_path,
        {
            assert(views[i as int] == list@[i as int]@);
            if text::str_eq(list[i].path.as_str(), cfg.channel_path.as_str()) {
                by_path = true;
            }
        }
    }
    let id_set = match cfg.channel_id {
        Some(_) => true,
        None => false,
    };
    (id_set || path_set) && !by_id && !by_path
}

// ---------------------------------------------------------------------------
// Events
// ---------------------------------------------------------------------------

/// What happens in a session.
#[derive(Debug)]
pub enum SessionEvent {
    /// A command comes, or there will be none any more.
    Command(Option<TeamSpeakCommand>),
    /// The server tells of its channels, and of the one that the receiver is in.
    Book(Vec<TeamSpeakChannelInfo>, Option<TeamSpeakChannelInfo>),
    /// The connection is lost for the given reason and will be rebuilt.
    Interrupted(String),
    /// The connection fails with the given error.
    Failed(String),
    /// The connection has ended.
    Closed,
    /// Something happens that the status does not show.
    Other,
}

/// The contents of a [`SessionEvent`].
#[verifier::ext_equal]
pub enum SessionEventView {
    Command(Option<teamspeak::CommandView>),
    Book(Seq<channels::ChannelView>, Option<channels::ChannelView>),
    Interrupted(Seq<char>),
    Failed(Seq<char>),
    Closed,
    Other,
}

impl View for SessionEvent {
    type V = SessionEventView;

    open spec fn view(&self) -> SessionEventView {
        match self {
            SessionEvent::Command(c) => SessionEventView::Command(teamspeak::command_view(*c)),
            SessionEvent::Book(list, own) => SessionEventView::Book(
                channels::channel_views(list@),
                opt_channel_view(*own),
            ),
            SessionEvent::Interrupted(reason) => SessionEventView::Interrupted(reason@),
            SessionEvent::Failed(error) => SessionEventView::Failed(error@),
            SessionEvent::Closed => SessionEventView::Closed,
            SessionEvent::Other => SessionEventView::Other,
        }
    }
}

/// How a command ends a session.
pub open spec fn end_by_command(command: Option<teamspeak::CommandView>) -> teamspeak::EndView {
    match command {
        Some(teamspeak::CommandView::Apply(cfg)) => teamspeak::EndView::Apply(cfg),
        Some(teamspeak::CommandView::Disconnect) => teamspeak::EndView::Disconnected,
        Some(teamspeak::CommandView::Connect) => teamspeak::EndView::Reconnect,
        Some(teamspeak::CommandView::Reconnect) => teamspeak::EndView::Reconnect,
        None => teamspeak::EndView::Disconnected,
    }
}

/// How an event ends a session, if it does.
pub open spec fn end_by_event(event: SessionEventView) -> Option<teamspeak::EndView> {
    match event {
        SessionEventView::Command(c) => Some(end_by_command(c)),
        SessionEventView::Failed(error) => Some(teamspeak::EndView::Fatal(error)),
        SessionEventView::Closed => Some(teamspeak::EndView::Reconnect),
        _ => None,
    }
}

/// The status when a session starts.
pub open spec fn status_connecting(
    status: teamspeak::StatusView,
    t: settings::TeamSpeakView,
) -> teamspeak::StatusView {
    teamspeak::StatusView {
        state: "connecting"@,
        enabled: true,
        connected: false,
        server_address: t.server_address,
        last_error: None,
        ..status
    }
}

/// The status when the server tells of its channels at the time `now`.
pub open spec fn status_connected(
    status: teamspeak::StatusView,
    t: settings::TeamSpeakView,
    list: Seq<channels::ChannelView>,
    own: Option<channels::ChannelView>,
    now: Timestamp,
) -> teamspeak::StatusView {
    let missing = selected_missing(t, list);
    teamspeak::StatusView {
        state: if missing {
            "channel_missing"@
        } else {
            "connected"@
        },
        enabled: true,
        connected: true,
        server_address: t.server_address,
        active_channel_id: match own {
            Some(c) => Some(c.id),
            None => None,
        },
        active_channel_path: match own {
            Some(c) => c.path,
            None => Seq::empty(),
        },
        last_error: if missing {
            Some("configured TeamSpeak channel is missing: "@ + t.channel_path)
        } else {
            None
        },
        connected_at: match status.connected_at {
            Some(at) => Some(at),
            None => Some(now),
        },
        channels: list,
    }
}

/// The status when the connection is lost.
pub open spec fn status_interrupted(
    status: teamspeak::StatusView,
    reason: Seq<char>,
) -> teamspeak::StatusView {
    teamspeak::StatusView {
        state: "reconnecting"@,
        connected: false,
        connected_at: None,
        last_error: Some("temporarily disconnected: "@ + reason),
        ..status
    }
}

/// The status after an event at the time `now`.
pub open spec fn status_after_event(
    status: teamspeak::StatusView,
    t: settings::TeamSpeakView,
    event: SessionEventView,
    now: Timestamp,
) -> teamspeak::StatusView {
    match event {
        SessionEventView::Book(list, own) => status_connected(status, t, list, own, now),
        SessionEventView::Interrupted(reason) => status_interrupted(status, reason),
        _ => status,
    }
}

/// Shows that a session starts.
pub fn show_connecting(cfg: &TeamSpeakConfig, status: &mut TeamSpeakStatus)
    ensures
        final(status)@ == status_connecting(old(status)@, cfg@),
{
    status.state = "connecting".to_owned();
    status.enabled = true;
    status.connected = false;
    status.server_address = cfg.server_address.clone();
    status.last_error = None;
}

/// Shows what the server tells of its channels at the time `now`.
fn show_connected(
    cfg: &TeamSpeakConfig,
    list: Vec<TeamSpeakChannelInfo>,
    own: Option<TeamSpeakChannelInfo>,
    now: Timestamp,
    status: &mut TeamSpeakStatus,
)
    ensures
        final(status)@ == status_connected(
            old(status)@,
            cfg@,
            channels::channel_views(list@),
            opt_channel_view(own),
            now,
        ),
{
    let ghost before = status@;
    let ghost own_view = opt_channel_view(own);
    let ghost list_view = channels::channel_views(list@);
    let missing = is_selected_missing(cfg, &list);
    status.state = if missing {
        "channel_missing".to_owned()
    } else {
        "connected".to_owned()
    };
    status.enabled = true;
    status.connected = true;
    status.server_address = cfg.server_address.clone();
    status.connected_at = match status.connected_at {
        Some(at) => Some(at),
        None => Some(now),
    };
    status.channels = list;
    match own {
        Some(c) => {
            status.active_channel_id = Some(c.id);
            status.active_channel_path = c.path;
        },
        None => {
            status.active_channel_id = None;
            status.active_channel_path = String::new();
        },
    }
    status.last_error = if missing {
        Some(
            text::concat2(
                "configured TeamSpeak channel is missing: ",
                cfg.channel_path.as_str(),
            ),
        )
    } else {
        None
    };
    assert(status@ =~= status_connected(before, cfg@, list_view, own_view, now));
}

/// Shows an event at the time `now` in the status, and says how it ends the
/// session, if it does.
pub fn on_session_event_at(
    cfg: &TeamSpeakConfig,
    event: SessionEvent,
    now: Timestamp,
    status: &mut TeamSpeakStatus,
) -> (r: Option<TeamSpeakSessionEnd>)
    ensures
        match r {
            Some(end) => end_by_event(event@) == Some(end@),
            None => end_by_event(event@) is None,
        },
        final(status)@ == status_after_event(old(status)@, cfg@, event@, now),
{
    match event {
        SessionEvent::Command(command) => Some(
            match command {
                Some(TeamSpeakCommand::Apply(new_cfg)) => TeamSpeakSessionEnd::Apply(new_cfg),
                Some(TeamSpeakCommand::Disconnect) => TeamSpeakSessionEnd::Disconnected,
                Some(TeamSpeakCommand::Connect) => TeamSpeakSessionEnd::Reconnect,
                Some(TeamSpeakCommand::Reconnect) => TeamSpeakSessionEnd::Reconnect,
                None => TeamSpeakSessionEnd::Disconnected,
            },
        ),
        SessionEvent::Book(list, own) => {
            show_connected(cfg, list, own, now, status);
            None
        },
        SessionEvent::Interrupted(reason) => {
            status.state = "reconnecting".to_owned();
            status.connected = false;
            status.connected_at = None;
            status.last_error = Some(text::concat2("temporarily disconnected: ", reason.as_str()));
            None
        },
        SessionEvent::Failed(error) => Some(TeamSpeakSessionEnd::Fatal(error)),
        SessionEvent::Closed => Some(TeamSpeakSessionEnd::Reconnect),
        SessionEvent::Other => None,
    }
}

/// Shows an event of now in the status, and says how it ends the session, if
/// it does.
pub fn on_session_event(
    cfg: &TeamSpeakConfig,
    event: SessionEvent,
    status: &mut TeamSpeakStatus,
) -> (r: Option<TeamSpeakSessionEnd>)
    ensures
        match r {
            Some(end) => end_by_event(event@) == Some(end@),
            None => end_by_event(event@) is None,
        },
        exists|now: Timestamp|
            jobs::is_clock_time(now) && final(status)@ == #[trigger] status_after_event(
                old(status)@,
                cfg@,
                event@,
                now,
            ),
{
    let now = jobs::utc_now();
    let ghost view = event@;
    let r = on_session_event_at(cfg, event, now, status);
    assert(status@ == status_after_event(old(status)@, cfg@, view, now));
    r
}

// ---------------------------------------------------------------------------
// Laws
// ---------------------------------------------------------------------------

/// Where a channel is set and neither its identifier nor its path is among the
/// channels of the server, the status is `channel_missing`; where it is there,
/// or none is set, the status is `connected`.
pub proof fn missing_channel_is_shown(
    status: teamspeak::StatusView,
    t: settings::TeamSpeakView,
    list: Seq<channels::ChannelView>,
    own: Option<channels::ChannelView>,
    now: Timestamp,
)
    ensures
        ({
            let after = status_after_event(status, t, SessionEventView::Book(list, own), now);
            &&& after.connected
            &&& after.channels == list
            &&& after.state == "channel_missing"@ <==> selected_missing(t, list)
            &&& after.state == "connected"@ <==> !selected_missing(t, list)
            &&& after.last_error is Some <==> selected_missing(t, list)
        }),
{
    reveal_strlit("channel_missing");
    reveal_strlit("connected");
    assert("channel_missing"@.len() != "connected"@.len());
}

/// The time since when the receiver is connected stays the same until the
/// connection is lost.
pub proof fn connection_time_is_kept(
    status: teamspeak::StatusView,
    t: settings::TeamSpeakView,
    event: SessionEventView,
    now: Timestamp,
)
    requires
        status.connected_at is Some,
        !(event is Interrupted),
    ensures
        status_after_event(status, t, event, now).connected_at == status.connected_at,
{
}

} // verus!
