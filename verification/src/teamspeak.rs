//! The TeamSpeak receiver: its status, when it connects and to which channel,
//! and who speaks.

use vstd::prelude::*;
use std::collections::HashMap;

use crate::channels;
use crate::channels::TeamSpeakChannelInfo;
use crate::identity;
use crate::identity::IdentityError;
use crate::identity::TeamSpeakIdentity;
use crate::jobs;
use crate::jobs::SourceInfo;
use crate::jobs::Timestamp;
use crate::jobs::SAMPLE_RATE;
use crate::jobs::TEAMSPEAK_SAMPLE_RATE;
use crate::json;
use crate::settings;
use crate::settings::TeamSpeakConfig;
use crate::text;

verus! {

broadcast use vstd::std_specs::hash::group_hash_axioms;

// ---------------------------------------------------------------------------
// Status
// ---------------------------------------------------------------------------

/// What the receiver is doing.
#[derive(Debug)]
pub struct TeamSpeakStatus {
    pub state: String,
    pub enabled: bool,
    pub connected: bool,
    pub server_address: String,
    pub active_channel_id: Option<u64>,
    pub active_channel_path: String,
    pub last_error: Option<String>,
    pub connected_at: Option<Timestamp>,
    pub channels: Vec<TeamSpeakChannelInfo>,
}

/// The contents of a [`TeamSpeakStatus`].
#[verifier::ext_equal]
pub struct StatusView {
    pub state: Seq<char>,
    pub enabled: bool,
    pub connected: bool,
    pub server_address: Seq<char>,
    pub active_channel_id: Option<u64>,
    pub active_channel_path: Seq<char>,
    pub last_error: Option<Seq<char>>,
    pub connected_at: Option<Timestamp>,
    pub channels: Seq<channels::ChannelView>,
}

impl View for TeamSpeakStatus {
    type V = StatusView;

    open spec fn view(&self) -> StatusView {
        StatusView {
            state: self.state@,
            enabled: self.enabled,
            connected: self.connected,
            server_address: self.server_address@,
            active_channel_id: self.active_channel_id,
            active_channel_path: self.active_channel_path@,
            last_error: text::opt_view(self.last_error),
            connected_at: self.connected_at,
            channels: channels::channel_views(self.channels@),
        }
    }
}

impl Clone for TeamSpeakStatus {
    fn clone(&self) -> (r: Self)
        ensures
            r@ == self@,
    {
        TeamSpeakStatus {
            state: self.state.clone(),
            enabled: self.enabled,
            connected: self.connected,
            server_address: self.server_address.clone(),
            active_channel_id: self.active_channel_id,
            active_channel_path: self.active_channel_path.clone(),
            last_error: text::clone_opt(&self.last_error),
            connected_at: self.connected_at,
            channels: channels::clone_channels(&self.channels),
        }
    }
}

/// The status before the receiver has started.
pub open spec fn default_status() -> StatusView {
    StatusView {
        state: "disabled"@,
        enabled: false,
        connected: false,
        server_address: "localhost:9987"@,
        active_channel_id: None,
        active_channel_path: Seq::<char>::empty(),
        last_error: None,
        connected_at: None,
        channels: Seq::<channels::ChannelView>::empty(),
    }
}

impl Default for TeamSpeakStatus {
    fn default() -> (r: Self)
        ensures
            r@ == default_status(),
    {
        let r = TeamSpeakStatus {
            state: "disabled".to_owned(),
            enabled: false,
            connected: false,
            server_address: settings::default_teamspeak_server_address(),
            active_channel_id: None,
            active_channel_path: String::new(),
            last_error: None,
            connected_at: None,
            channels: Vec::new(),
        };
        assert(r@ =~= default_status());
        r
    }
}

// ---------------------------------------------------------------------------
// Commands and ends of sessions
// ---------------------------------------------------------------------------

/// What the receiver is told to do.
#[derive(Debug)]
pub enum TeamSpeakCommand {
    Connect,
    Disconnect,
    Reconnect,
    Apply(TeamSpeakConfig),
}

/// The contents of a [`TeamSpeakCommand`].
#[verifier::ext_equal]
pub enum CommandView {
    Connect,
    Disconnect,
    Reconnect,
    Apply(settings::TeamSpeakView),
}

impl View for TeamSpeakCommand {
    type V = CommandView;

    open spec fn view(&self) -> CommandView {
        match self {
            TeamSpeakCommand::Connect => CommandView::Connect,
            TeamSpeakCommand::Disconnect => CommandView::Disconnect,
            TeamSpeakCommand::Reconnect => CommandView::Reconnect,
            TeamSpeakCommand::Apply(cfg) => CommandView::Apply(cfg@),
        }
    }
}

/// The contents of an optional command.
pub open spec fn command_view(command: Option<TeamSpeakCommand>) -> Option<CommandView> {
    match command {
        Some(c) => Some(c@),
        None => None,
    }
}

/// How a session ended.
#[derive(Debug)]
pub enum TeamSpeakSessionEnd {
    /// There are new settings.
    Apply(TeamSpeakConfig),
    /// It was told to disconnect.
    Disconnected,
    /// It is to connect again.
    Reconnect,
    /// It failed.
    Fatal(String),
}

/// The contents of a [`TeamSpeakSessionEnd`].
#[verifier::ext_equal]
pub enum EndView {
    Apply(settings::TeamSpeakView),
    Disconnected,
    Reconnect,
    Fatal(Seq<char>),
}

impl View for TeamSpeakSessionEnd {
    type V = EndView;

    open spec fn view(&self) -> EndView {
        match self {
            TeamSpeakSessionEnd::Apply(cfg) => EndView::Apply(cfg@),
            TeamSpeakSessionEnd::Disconnected => EndView::Disconnected,
            TeamSpeakSessionEnd::Reconnect => EndView::Reconnect,
            TeamSpeakSessionEnd::Fatal(e) => EndView::Fatal(e@),
        }
    }
}

/// Whether the error says that the license of the server was not understood.
pub open spec fn names_license(error: Seq<char>) -> bool {
    let lower = text::ascii_lower_seq(error);
    text::contains_text(lower, "failed to parse license"@) || text::contains_text(
        lower,
        "intermediate license"@,
    )
}

/// Whether the error says that the license of the server was not understood.
pub fn is_unsupported_teamspeak_license_error(error: &str) -> (b: bool)
    ensures
        b == names_license(error@),
{
    let lower = text::ascii_lowercase(error);
    text::contains_str(lower.as_str(), "failed to parse license") || text::contains_str(
        lower.as_str(),
        "intermediate license",
    )
}

// ---------------------------------------------------------------------------
// Connecting
// ---------------------------------------------------------------------------

/// The channel to connect to.
#[derive(Debug)]
pub enum TeamSpeakConnectChannel {
    Id(u64),
    Path(String),
}

/// The contents of a [`TeamSpeakConnectChannel`].
#[verifier::ext_equal]
pub enum ConnectView {
    Id(u64),
    Path(Seq<char>),
}

impl View for TeamSpeakConnectChannel {
    type V = ConnectView;

    open spec fn view(&self) -> ConnectView {
        match self {
            TeamSpeakConnectChannel::Id(id) => ConnectView::Id(*id),
            TeamSpeakConnectChannel::Path(path) => ConnectView::Path(path@),
        }
    }
}

/// The contents of an optional channel.
pub open spec fn connect_view(channel: Option<TeamSpeakConnectChannel>) -> Option<ConnectView> {
    match channel {
        Some(c) => Some(c@),
        None => None,
    }
}

/// Whether a channel path is set.
pub open spec fn has_path(t: settings::TeamSpeakView) -> bool {
    text::trim(t.channel_path).len() > 0
}

/// The channels to try one after the other: the one with the set identifier,
/// the one with the set path, and the default channel of the server, which
/// stands as `None`.
pub open spec fn connect_attempts(t: settings::TeamSpeakView) -> Seq<Option<ConnectView>> {
    let by_id = match t.channel_id {
        Some(id) => seq![Some(ConnectView::Id(id))],
        None => Seq::empty(),
    };
    let by_path = if has_path(t) {
        seq![Some(ConnectView::Path(t.channel_path))]
    } else {
        Seq::empty()
    };
    by_id + by_path + seq![None]
}

/// What to do next to connect.
#[derive(Debug)]
pub enum ConnectStep {
    /// Try to connect to the channel, or to the default channel.
    Try(Option<TeamSpeakConnectChannel>),
    /// Give up with the message.
    GiveUp(String),
}

/// The contents of a [`ConnectStep`].
#[verifier::ext_equal]
pub enum ConnectStepView {
    Try(Option<ConnectView>),
    GiveUp(Seq<char>),
}

impl View for ConnectStep {
    type V = ConnectStepView;

    open spec fn view(&self) -> ConnectStepView {
        match self {
            ConnectStep::Try(channel) => ConnectStepView::Try(connect_view(*channel)),
            ConnectStep::GiveUp(message) => ConnectStepView::GiveUp(message@),
        }
    }
}

/// What to do next to connect, after attempts that failed with the given
/// errors.
pub open spec fn next_attempt(
    t: settings::TeamSpeakView,
    errors: Seq<Seq<char>>,
) -> ConnectStepView {
    let attempts = connect_attempts(t);
    if errors.len() < attempts.len() {
        ConnectStepView::Try(attempts[errors.len() as int])
    } else if attempts.len() == 1 {
        ConnectStepView::GiveUp(errors[0])
    } else {
        ConnectStepView::GiveUp("TeamSpeak channel connect failed first: "@ + errors[0])
    }
}

/// What to do next to connect, after attempts that failed with the given
/// errors.
pub fn connect_step(cfg: &TeamSpeakConfig, errors: &Vec<String>) -> (r: ConnectStep)
    ensures
        r@ == next_attempt(cfg@, text::views(errors@)),
{
    let path_set = !text::is_blank(cfg.channel_path.as_str());
    let tried: usize = errors.len();
    match cfg.channel_id {
        Some(id) => {
            if tried == 0 {
                return ConnectStep::Try(Some(TeamSpeakConnectChannel::Id(id)));
            }
            if path_set {
                if tried == 1 {
                    return ConnectStep::Try(
                        Some(TeamSpeakConnectChannel::Path(cfg.channel_path.clone())),
                    );
                }
                if tried == 2 {
                    return ConnectStep::Try(None);
                }
            } else if tried == 1 {
                return ConnectStep::Try(None);
            }
        },
        None => {
            if path_set {
                if tried == 0 {
                    return ConnectStep::Try(
                        Some(TeamSpeakConnectChannel::Path(cfg.channel_path.clone())),
                    );
                }
                if tried == 1 {
                    return ConnectStep::Try(None);
                }
            } else {
                if tried == 0 {
                    return ConnectStep::Try(None);
                }
                return ConnectStep::GiveUp(errors[0].clone());
            }
        },
    }
    ConnectStep::GiveUp(
        text::concat2("TeamSpeak channel connect failed first: ", errors[0].as_str()),
    )
}

/// How to connect.
#[derive(Debug)]
pub struct ConnectOptions {
    pub address: String,
    pub name: String,
    pub identity: TeamSpeakIdentity,
    pub input_muted: bool,
    pub output_muted: bool,
    pub password: Option<String>,
    pub channel: Option<TeamSpeakConnectChannel>,
    pub channel_password: Option<String>,
}

/// The contents of [`ConnectOptions`].
#[verifier::ext_equal]
pub struct OptionsView {
    pub address: Seq<char>,
    pub name: Seq<char>,
    pub identity: identity::IdentityView,
    pub input_muted: bool,
    pub output_muted: bool,
    pub password: Option<Seq<char>>,
    pub channel: Option<ConnectView>,
    pub channel_password: Option<Seq<char>>,
}

impl View for ConnectOptions {
    type V = OptionsView;

    open spec fn view(&self) -> OptionsView {
        OptionsView {
            address: self.address@,
            name: self.name@,
            identity: self.identity@,
            input_muted: self.input_muted,
            output_muted: self.output_muted,
            password: text::opt_view(self.password),
            channel: connect_view(self.channel),
            channel_password: text::opt_view(self.channel_password),
        }
    }
}

/// How to connect to the channel with the given identity: muted, but hearing
/// the others.
pub open spec fn options_with(
    t: settings::TeamSpeakView,
    identity: identity::IdentityView,
    channel: Option<ConnectView>,
) -> OptionsView {
    OptionsView {
        address: t.server_address,
        name: t.nickname,
        identity,
        input_muted: true,
        output_muted: false,
        password: t.server_password,
        channel,
        channel_password: t.channel_password,
    }
}

/// How to connect to the channel with the given identity.
pub fn connect_options_with(
    cfg: &TeamSpeakConfig,
    identity: TeamSpeakIdentity,
    channel: Option<TeamSpeakConnectChannel>,
) -> (r: ConnectOptions)
    ensures
        r@ == options_with(cfg@, identity@, connect_view(channel)),
{
    ConnectOptions {
        address: cfg.server_address.clone(),
        name: cfg.nickname.clone(),
        identity,
        input_muted: true,
        output_muted: false,
        password: text::clone_opt(&cfg.server_password),
        channel,
        channel_password: text::clone_opt(&cfg.channel_password),
    }
}

/// How to connect to the channel; an identity that cannot be read is an error.
pub fn build_teamspeak_connect_options(
    cfg: &TeamSpeakConfig,
    channel: Option<TeamSpeakConnectChannel>,
) -> (r: Result<ConnectOptions, IdentityError>)
    ensures
        match r {
            Ok(options) => {
                &&& identity::read_identity(cfg@.identity) is Some
                &&& options@ == options_with(
                    cfg@,
                    identity::read_identity(cfg@.identity)->Some_0,
                    connect_view(channel),
                )
            },
            Err(_) => identity::read_identity(cfg@.identity) is None,
        },
{
    match identity::parse_teamspeak_identity(cfg.identity.as_str()) {
        Ok(identity) => Ok(connect_options_with(cfg, identity, channel)),
        Err(e) => Err(e),
    }
}

/// The receiver first tries the channel with the saved identifier, where one is
/// saved, then the one with the saved path, where one is saved, and at last
/// the default channel; it gives up only after that.
pub proof fn channels_are_tried_in_order(t: settings::TeamSpeakView, errors: Seq<Seq<char>>)
    ensures
        connect_attempts(t).len() >= 1,
        connect_attempts(t).last() is None,
        t.channel_id matches Some(id) ==> next_attempt(t, Seq::<Seq<char>>::empty())
            == ConnectStepView::Try(Some(ConnectView::Id(id))),
        t.channel_id is None && has_path(t) ==> next_attempt(t, Seq::<Seq<char>>::empty())
            == ConnectStepView::Try(Some(ConnectView::Path(t.channel_path))),
        t.channel_id is Some && has_path(t) && errors.len() == 1 ==> next_attempt(t, errors)
            == ConnectStepView::Try(Some(ConnectView::Path(t.channel_path))),
        errors.len() + 1 == connect_attempts(t).len() ==> next_attempt(t, errors)
            == ConnectStepView::Try(None),
        next_attempt(t, errors) is GiveUp <==> errors.len() >= connect_attempts(t).len(),
{
}

// ---------------------------------------------------------------------------
// Speakers
// ---------------------------------------------------------------------------

/// Where an audio packet comes from.
#[derive(Clone, Copy, Debug, PartialEq, Eq, Structural)]
pub enum AudioOrigin {
    /// A client sends it to the server.
    ToServer,
    /// The server passes on what a client says.
    FromClient(u16),
    /// The server passes on what a client whispers.
    WhisperFromClient(u16),
}

/// The client whose voice an audio packet carries.
pub open spec fn sender_of(origin: AudioOrigin) -> Option<u16> {
    match origin {
        AudioOrigin::ToServer => None,
        AudioOrigin::FromClient(from) => Some(from),
        AudioOrigin::WhisperFromClient(from) => Some(from),
    }
}

/// The client whose voice an audio packet carries.
pub fn teamspeak_audio_sender(origin: AudioOrigin) -> (r: Option<u16>)
    ensures
        r == sender_of(origin),
{
    match origin {
        AudioOrigin::ToServer => None,
        AudioOrigin::FromClient(from) => Some(from),
        AudioOrigin::WhisperFromClient(from) => Some(from),
    }
}

/// A client of the server.
#[derive(Debug)]
pub struct TeamSpeakClient {
    pub id: u16,
    pub name: String,
    pub channel: u64,
}

/// The contents of a [`TeamSpeakClient`].
#[verifier::ext_equal]
pub struct ClientView {
    pub id: u16,
    pub name: Seq<char>,
    pub channel: u64,
}

impl View for TeamSpeakClient {
    type V = ClientView;

    open spec fn view(&self) -> ClientView {
        ClientView { id: self.id, name: self.name@, channel: self.channel }
    }
}

/// Who speaks, and in which channel.
#[derive(Debug)]
pub struct TeamSpeakSpeakerMeta {
    pub client_id: u64,
    pub client_name: String,
    pub channel_id: Option<u64>,
    pub channel_name: String,
    pub channel_path: String,
}

/// The contents of a [`TeamSpeakSpeakerMeta`].
#[verifier::ext_equal]
pub struct SpeakerView {
    pub client_id: u64,
    pub client_name: Seq<char>,
    pub channel_id: Option<u64>,
    pub channel_name: Seq<char>,
    pub channel_path: Seq<char>,
}

impl View for TeamSpeakSpeakerMeta {
    type V = SpeakerView;

    open spec fn view(&self) -> SpeakerView {
        SpeakerView {
            client_id: self.client_id,
            client_name: self.client_name@,
            channel_id: self.channel_id,
            channel_name: self.channel_name@,
            channel_path: self.channel_path@,
        }
    }
}

impl Clone for TeamSpeakSpeakerMeta {
    fn clone(&self) -> (r: Self)
        ensures
            r@ == self@,
    {
        TeamSpeakSpeakerMeta {
            client_id: self.client_id,
            client_name: self.client_name.clone(),
            channel_id: self.channel_id,
            channel_name: self.channel_name.clone(),
            channel_path: self.channel_path.clone(),
        }
    }
}

/// The channel with the given identifier; of several the last counts.
pub open spec fn channel_with(list: Seq<channels::ChannelView>, id: u64) -> Option<
    channels::ChannelView,
>
    decreases list.len(),
{
    if list.len() == 0 {
        None
    } else if list.last().id == id {
        Some(list.last())
    } else {
        channel_with(list.drop_last(), id)
    }
}

/// The channel with the given identifier; of several the last counts.
pub fn find_channel(list: &Vec<TeamSpeakChannelInfo>, id: u64) -> (r: Option<&TeamSpeakChannelInfo>)
    ensures
        match r {
            Some(c) => channel_with(channels::channel_views(list@), id) == Some(c@),
            None => channel_with(channels::channel_views(list@), id) is None,
        },
{
    let ghost views = channels::channel_views(list@);
    let mut left: usize = list.len();
    assert(views.take(left as int) =~= views);
    while left > 0
        invariant
            left <= list@.len(),
            views == channels::channel_views(list@),
            channel_with(views, id) == channel_with(views.take(left as int), id),
        decreases left,
    {
        assert(views.take(left as int).last() == list@[left - 1]@);
        assert(views.take(left as int).drop_last() =~= views.take(left - 1));
        if list[left - 1].id == id {
            return Some(&list[left - 1]);
        }
        left = left - 1;
    }
    None
}

/// A client as a speaker.
pub open spec fn speaker_of(client: ClientView, list: Seq<channels::ChannelView>) -> SpeakerView {
    let channel = channel_with(list, client.channel);
    SpeakerView {
        client_id: client.id as u64,
        client_name: client.name,
        channel_id: Some(client.channel),
        channel_name: match channel {
            Some(c) => c.name,
            None => Seq::empty(),
        },
        channel_path: match channel {
            Some(c) => c.path,
            None => Seq::empty(),
        },
    }
}

/// A client as a speaker.
pub fn teamspeak_speaker_meta(
    client: &TeamSpeakClient,
    list: &Vec<TeamSpeakChannelInfo>,
) -> (r: TeamSpeakSpeakerMeta)
    ensures
        r@ == speaker_of(client@, channels::channel_views(list@)),
{
    let (channel_name, channel_path) = match find_channel(list, client.channel) {
        Some(c) => (c.name.clone(), c.path.clone()),
        None => (String::new(), String::new()),
    };
    let r = TeamSpeakSpeakerMeta {
        client_id: client.id as u64,
        client_name: client.name.clone(),
        channel_id: Some(client.channel),
        channel_name,
        channel_path,
    };
    assert(r@ =~= speaker_of(client@, channels::channel_views(list@)));
    r
}

/// The speakers by the identifier of their client.
pub open spec fn speakers_view(speakers: Map<u16, TeamSpeakSpeakerMeta>) -> Map<u16, SpeakerView> {
    speakers.map_values(|s: TeamSpeakSpeakerMeta| s@)
}

/// The contents of clients, each with the identifier that it is found by.
pub open spec fn client_views(clients: Seq<(u16, TeamSpeakClient)>) -> Seq<(u16, ClientView)> {
    clients.map_values(|c: (u16, TeamSpeakClient)| (c.0, c.1@))
}

/// The clients as speakers; of several with one identifier the last counts.
pub open spec fn speakers_of(
    clients: Seq<(u16, ClientView)>,
    list: Seq<channels::ChannelView>,
) -> Map<u16, SpeakerView>
    decreases clients.len(),
{
    if clients.len() == 0 {
        Map::empty()
    } else {
        speakers_of(clients.drop_last(), list).insert(
            clients.last().0,
            speaker_of(clients.last().1, list),
        )
    }
}

/// The clients as speakers; of several with one identifier the last counts.
pub fn collect_speakers(
    clients: &Vec<(u16, TeamSpeakClient)>,
    list: &Vec<TeamSpeakChannelInfo>,
) -> (r: HashMap<u16, TeamSpeakSpeakerMeta>)
    ensures
        speakers_view(r@) == speakers_of(client_views(clients@), channels::channel_views(list@)),
{
    let ghost views = client_views(clients@);
    let mut out: HashMap<u16, TeamSpeakSpeakerMeta> = HashMap::new();
    assert(speakers_view(out@) =~= speakers_of(views.take(0), channels::channel_views(list@)));
    for i in 0..clients.len()
        invariant
            views == client_views(clients@),
            speakers_view(out@) == speakers_of(
                views.take(i as int),
                channels::channel_views(list@),
            ),
    {
        proof {
            assert(views.take(i + 1).drop_last() =~= views.take(i as int));
            assert(views.take(i + 1).last() == views[i as int]);
        }
        let meta = teamspeak_speaker_meta(&clients[i].1, list);
        let ghost before = out@;
        let ghost meta_view = meta@;
        let _ = out.insert(clients[i].0, meta);
        assert(speakers_view(out@) =~= speakers_view(before).insert(
            views[i as int].0,
            meta_view,
        ));
    }
    assert(views.take(clients@.len() as int) =~= views);
    out
}

/// A speaker of whom only the client identifier is known.
pub open spec fn unknown_speaker(client_id: u16) -> SpeakerView {
    SpeakerView {
        client_id: client_id as u64,
        client_name: "unknown"@,
        channel_id: None,
        channel_name: Seq::<char>::empty(),
        channel_path: Seq::<char>::empty(),
    }
}

/// The source for the voice of a speaker.
pub open spec fn speaker_source(server_address: Seq<char>, speaker: SpeakerView) -> jobs::SourceView {
    jobs::SourceView {
        source_type: "teamspeak"@,
        src: server_address,
        meta: json::JsonView::Object(
            seq![
                ("transport"@, json::JsonView::Text("teamspeak"@)),
                ("client_id"@, jobs::natural(speaker.client_id as nat)),
                ("client_name"@, json::JsonView::Text(speaker.client_name)),
                ("channel_id"@, json::optional_natural(speaker.channel_id)),
                ("channel_name"@, json::JsonView::Text(speaker.channel_name)),
                ("channel_path"@, json::JsonView::Text(speaker.channel_path)),
                ("sample_rate_original"@, jobs::natural(48_000)),
                ("sample_rate"@, jobs::natural(16_000)),
                ("channels"@, jobs::natural(1)),
            ],
        ),
    }
}

/// The speaker that a client is.
pub open spec fn speaker_for(client_id: u16, speakers: Map<u16, SpeakerView>) -> SpeakerView {
    if speakers.dom().contains(client_id) {
        speakers[client_id]
    } else {
        unknown_speaker(client_id)
    }
}

/// The source for the voice of a client.
pub fn teamspeak_source_for_client(
    cfg: &TeamSpeakConfig,
    client_id: u16,
    speakers: &HashMap<u16, TeamSpeakSpeakerMeta>,
) -> (r: SourceInfo)
    ensures
        r@ == speaker_source(
            cfg@.server_address,
            speaker_for(client_id, speakers_view(speakers@)),
        ),
{
    let meta = match speakers.get(&client_id) {
        Some(m) => m.clone(),
        None => TeamSpeakSpeakerMeta {
            client_id: client_id as u64,
            client_name: "unknown".to_owned(),
            channel_id: None,
            channel_name: String::new(),
            channel_path: String::new(),
        },
    };
    assert(meta@ =~= speaker_for(client_id, speakers_view(speakers@)));
    let mut members = json::no_members();
    json::put_text(&mut members, "transport", "teamspeak");
    json::put_natural(&mut members, "client_id", meta.client_id);
    json::put_text(&mut members, "client_name", meta.client_name.as_str());
    json::put_optional_natural(&mut members, "channel_id", meta.channel_id);
    json::put_text(&mut members, "channel_name", meta.channel_name.as_str());
    json::put_text(&mut members, "channel_path", meta.channel_path.as_str());
    json::put_natural(&mut members, "sample_rate_original", TEAMSPEAK_SAMPLE_RATE as u64);
    json::put_natural(&mut members, "sample_rate", SAMPLE_RATE as u64);
    json::put_natural(&mut members, "channels", 1);
    let object = json::object(members);
    proof {
        assert(object@->Object_0 =~= speaker_source(cfg@.server_address, meta@).meta->Object_0);
    }
    SourceInfo { source_type: "teamspeak".to_owned(), src: cfg.server_address.clone(), meta: object }
}

} // verus!
