use audio2mqtt::channels::TeamSpeakChannelInfo;
use audio2mqtt::identity::create_teamspeak_identity_string;
use audio2mqtt::jobs::Timestamp;
use audio2mqtt::json::{JsonNumber, JsonValue};
use audio2mqtt::manager::{ManagerAction, TeamSpeakManager};
use audio2mqtt::session::{
    is_selected_missing, on_session_event, on_session_event_at, read_server_book, show_connecting,
    SessionEvent,
};
use audio2mqtt::settings::TeamSpeakConfig;
use audio2mqtt::teamspeak::{
    build_teamspeak_connect_options, collect_speakers, connect_step, find_channel,
    is_unsupported_teamspeak_license_error, teamspeak_audio_sender, teamspeak_source_for_client,
    teamspeak_speaker_meta, AudioOrigin, ConnectStep, TeamSpeakClient, TeamSpeakCommand,
    TeamSpeakConnectChannel, TeamSpeakSessionEnd, TeamSpeakStatus,
};
use std::collections::HashMap;

fn cfg(enabled: bool) -> TeamSpeakConfig {
    TeamSpeakConfig {
        enabled,
        server_address: "ts.example.com:9987".to_string(),
        server_password: Some("pw".to_string()),
        nickname: "bot".to_string(),
        identity: "identity".to_string(),
        channel_id: None,
        channel_path: String::new(),
        channel_password: None,
        reconnect_seconds: 7,
    }
}

fn channel(id: u64, path: &str) -> TeamSpeakChannelInfo {
    TeamSpeakChannelInfo {
        id,
        parent_id: None,
        name: path.to_string(),
        path: path.to_string(),
    }
}

fn client(id: u16, name: &str, channel: u64) -> TeamSpeakClient {
    TeamSpeakClient { id, name: name.to_string(), channel }
}

fn at(seconds: i64) -> Timestamp {
    Timestamp { seconds, nanos: 0 }
}

fn text_of(value: &JsonValue, key: &str) -> Option<String> {
    value.get(key).and_then(|v| v.as_text())
}

fn number_of(value: &JsonValue, key: &str) -> Option<u64> {
    value.get(key).and_then(|v| v.as_natural())
}

#[test]
fn the_status_starts_disabled() {
    let status = TeamSpeakStatus::default();
    assert_eq!(status.state, "disabled");
    assert!(!status.enabled && !status.connected);
    assert_eq!(status.server_address, "localhost:9987");
    assert!(status.active_channel_id.is_none() && status.connected_at.is_none());
    assert!(status.last_error.is_none() && status.channels.is_empty());
    assert_eq!(status.active_channel_path, "");
}

#[test]
fn license_errors_are_told() {
    assert!(is_unsupported_teamspeak_license_error(
        "Failed to parse license: Invalid data 0x104 in intermediate license"
    ));
    assert!(is_unsupported_teamspeak_license_error("x INTERMEDIATE LICENSE y"));
    assert!(is_unsupported_teamspeak_license_error("failed to PARSE license"));
    assert!(!is_unsupported_teamspeak_license_error("license"));
    assert!(!is_unsupported_teamspeak_license_error(""));
}

#[test]
fn channels_are_tried_by_id_then_path_then_default() {
    let error = |n: usize| (0..n).map(|i| format!("e{i}")).collect::<Vec<String>>();
    let mut c = cfg(true);
    c.channel_id = Some(4);
    c.channel_path = "A/B".to_string();
    assert!(matches!(
        connect_step(&c, &error(0)),
        ConnectStep::Try(Some(TeamSpeakConnectChannel::Id(4)))
    ));
    match connect_step(&c, &error(1)) {
        ConnectStep::Try(Some(TeamSpeakConnectChannel::Path(path))) => assert_eq!(path, "A/B"),
        other => panic!("{other:?}"),
    }
    assert!(matches!(connect_step(&c, &error(2)), ConnectStep::Try(None)));
    match connect_step(&c, &error(3)) {
        ConnectStep::GiveUp(message) => {
            assert_eq!(message, "TeamSpeak channel connect failed first: e0")
        }
        other => panic!("{other:?}"),
    }

    c.channel_path = "  ".to_string();
    assert!(matches!(connect_step(&c, &error(1)), ConnectStep::Try(None)));
    assert!(matches!(connect_step(&c, &error(2)), ConnectStep::GiveUp(_)));

    c.channel_id = None;
    assert!(matches!(connect_step(&c, &error(0)), ConnectStep::Try(None)));
    match connect_step(&c, &error(1)) {
        ConnectStep::GiveUp(message) => assert_eq!(message, "e0"),
        other => panic!("{other:?}"),
    }

    c.channel_path = "A".to_string();
    assert!(matches!(
        connect_step(&c, &error(0)),
        ConnectStep::Try(Some(TeamSpeakConnectChannel::Path(_)))
    ));
    assert!(matches!(connect_step(&c, &error(1)), ConnectStep::Try(None)));
}

#[test]
fn connections_are_muted_and_named() {
    let mut c = cfg(true);
    c.identity = create_teamspeak_identity_string();
    c.channel_password = Some("cpw".to_string());
    let options =
        build_teamspeak_connect_options(&c, Some(TeamSpeakConnectChannel::Id(3))).unwrap();
    assert_eq!(options.address, "ts.example.com:9987");
    assert_eq!(options.name, "bot");
    assert_eq!(options.identity.key.len(), 32);
    assert!(options.input_muted && !options.output_muted);
    assert_eq!(options.password, Some("pw".to_string()));
    assert!(matches!(options.channel, Some(TeamSpeakConnectChannel::Id(3))));
    assert_eq!(options.channel_password, Some("cpw".to_string()));
    let error = build_teamspeak_connect_options(&cfg(true), None).unwrap_err();
    assert_eq!(error.message(), "parsing TeamSpeak identity");
}

#[test]
fn audio_is_sent_by_clients() {
    assert_eq!(teamspeak_audio_sender(AudioOrigin::FromClient(5)), Some(5));
    assert_eq!(teamspeak_audio_sender(AudioOrigin::WhisperFromClient(6)), Some(6));
    assert_eq!(teamspeak_audio_sender(AudioOrigin::ToServer), None);
}

#[test]
fn sources_name_the_speaker() {
    let list = vec![channel(7, "Default")];
    let clients = vec![(42, client(42, "Speaker", 7)), (43, client(43, "Other", 8))];
    let speakers = collect_speakers(&clients, &list);
    let source = teamspeak_source_for_client(&cfg(true), 42, &speakers);
    assert_eq!(source.source_type, "teamspeak");
    assert_eq!(source.src, "ts.example.com:9987");
    let meta = &source.meta;
    assert_eq!(text_of(meta, "transport"), Some("teamspeak".to_string()));
    assert_eq!(number_of(meta, "client_id"), Some(42));
    assert_eq!(text_of(meta, "client_name"), Some("Speaker".to_string()));
    assert_eq!(number_of(meta, "channel_id"), Some(7));
    assert_eq!(text_of(meta, "channel_name"), Some("Default".to_string()));
    assert_eq!(text_of(meta, "channel_path"), Some("Default".to_string()));
    assert_eq!(number_of(meta, "sample_rate_original"), Some(48000));
    assert_eq!(number_of(meta, "sample_rate"), Some(16000));
    assert_eq!(number_of(meta, "channels"), Some(1));

    let other = teamspeak_speaker_meta(&clients[1].1, &list);
    assert_eq!(other.channel_id, Some(8));
    assert_eq!((other.channel_name.as_str(), other.channel_path.as_str()), ("", ""));

    let unknown = teamspeak_source_for_client(&cfg(true), 1, &HashMap::new());
    assert_eq!(text_of(&unknown.meta, "client_name"), Some("unknown".to_string()));
    assert_eq!(number_of(&unknown.meta, "client_id"), Some(1));
    assert!(matches!(unknown.meta.get("channel_id"), Some(JsonValue::Null)));
}

#[test]
fn of_two_channels_with_one_id_the_last_counts() {
    let list = vec![channel(1, "a"), channel(2, "b"), channel(1, "c")];
    assert_eq!(find_channel(&list, 1).unwrap().path, "c");
    assert_eq!(find_channel(&list, 2).unwrap().path, "b");
    assert!(find_channel(&list, 3).is_none());
}

#[test]
fn the_server_book_is_read() {
    let entries = vec![
        (2, JsonValue::Object(vec![
            ("name".to_string(), JsonValue::Text("Sub".to_string())),
            ("parent".to_string(), JsonValue::Number(JsonNumber::Natural(1))),
        ])),
        (1, JsonValue::Object(vec![("name".to_string(), JsonValue::Text("Top".to_string()))])),
    ];
    let clients = vec![(5, client(5, "me", 2)), (6, client(6, "you", 1))];
    let book = read_server_book(&entries, &clients, 5);
    let paths: Vec<&str> = book.channels.iter().map(|c| c.path.as_str()).collect();
    assert_eq!(paths, vec!["Top", "Top/Sub"]);
    assert_eq!(book.own_channel.unwrap().id, 2);
    assert_eq!(book.speakers[&6].channel_name, "Top");
    assert!(read_server_book(&entries, &clients, 9).own_channel.is_none());
}

#[test]
fn a_missing_channel_is_shown() {
    let list = vec![channel(1, "A"), channel(2, "B")];
    let mut c = cfg(true);
    assert!(!is_selected_missing(&c, &list));
    c.channel_id = Some(3);
    assert!(is_selected_missing(&c, &list));
    c.channel_path = "B".to_string();
    assert!(!is_selected_missing(&c, &list));
    c.channel_path = "C".to_string();
    assert!(is_selected_missing(&c, &list));

    let mut status = TeamSpeakStatus::default();
    let event = SessionEvent::Book(list, Some(channel(2, "B")));
    assert!(on_session_event_at(&c, event, at(10), &mut status).is_none());
    assert_eq!(status.state, "channel_missing");
    assert!(status.connected && status.enabled);
    assert_eq!(
        status.last_error,
        Some("configured TeamSpeak channel is missing: C".to_string())
    );
    assert_eq!(status.active_channel_id, Some(2));
    assert_eq!(status.active_channel_path, "B");
    assert_eq!(status.connected_at, Some(at(10)));
    assert_eq!(status.channels.len(), 2);
    assert_eq!(status.server_address, "ts.example.com:9987");

    c.channel_id = Some(1);
    let event = SessionEvent::Book(vec![channel(1, "A")], None);
    assert!(on_session_event_at(&c, event, at(20), &mut status).is_none());
    assert_eq!(status.state, "connected");
    assert_eq!(status.last_error, None);
    assert_eq!(status.connected_at, Some(at(10)));
    assert_eq!(status.active_channel_id, None);
    assert_eq!(status.active_channel_path, "");
}

#[test]
fn session_events_change_the_status_or_end_it() {
    let c = cfg(true);
    let mut status = TeamSpeakStatus::default();
    status.last_error = Some("old".to_string());
    show_connecting(&c, &mut status);
    assert_eq!(status.state, "connecting");
    assert!(status.enabled && !status.connected);
    assert_eq!(status.last_error, None);
    assert_eq!(status.server_address, "ts.example.com:9987");

    assert!(on_session_event(&c, SessionEvent::Book(vec![], None), &mut status).is_none());
    assert!(status.connected_at.unwrap().seconds > 1_600_000_000);
    let event = SessionEvent::Interrupted("Timeout".to_string());
    assert!(on_session_event(&c, event, &mut status).is_none());
    assert_eq!(status.state, "reconnecting");
    assert!(!status.connected && status.connected_at.is_none());
    assert_eq!(status.last_error, Some("temporarily disconnected: Timeout".to_string()));
    assert!(on_session_event(&c, SessionEvent::Other, &mut status).is_none());

    let mut end = |event| on_session_event(&c, event, &mut status).unwrap();
    assert!(matches!(end(SessionEvent::Closed), TeamSpeakSessionEnd::Reconnect));
    match end(SessionEvent::Failed("bad".to_string())) {
        TeamSpeakSessionEnd::Fatal(e) => assert_eq!(e, "bad"),
        other => panic!("{other:?}"),
    }
    assert!(matches!(end(SessionEvent::Command(None)), TeamSpeakSessionEnd::Disconnected));
    assert!(matches!(
        end(SessionEvent::Command(Some(TeamSpeakCommand::Disconnect))),
        TeamSpeakSessionEnd::Disconnected
    ));
    for command in [TeamSpeakCommand::Connect, TeamSpeakCommand::Reconnect] {
        assert!(matches!(
            end(SessionEvent::Command(Some(command))),
            TeamSpeakSessionEnd::Reconnect
        ));
    }
    match end(SessionEvent::Command(Some(TeamSpeakCommand::Apply(cfg(false))))) {
        TeamSpeakSessionEnd::Apply(new) => assert!(!new.enabled),
        other => panic!("{other:?}"),
    }
}

#[test]
fn a_disabled_receiver_waits_for_a_command() {
    let mut status = TeamSpeakStatus::default();
    let mut m = TeamSpeakManager::start(&cfg(false), &mut status);
    assert_eq!(status.state, "disabled");
    assert_eq!(status.server_address, "ts.example.com:9987");
    assert_eq!(m.next_action(), ManagerAction::WaitForCommand);
    m.on_command(Some(TeamSpeakCommand::Disconnect), &cfg(true), &mut status);
    assert_eq!(m.next_action(), ManagerAction::WaitForCommand);
    m.on_command(Some(TeamSpeakCommand::Apply(cfg(false))), &cfg(true), &mut status);
    assert_eq!(m.next_action(), ManagerAction::WaitForCommand);
    m.on_command(Some(TeamSpeakCommand::Connect), &cfg(false), &mut status);
    assert_eq!(m.next_action(), ManagerAction::RunSession);
    assert!(m.settings().enabled && status.enabled);
    assert_eq!(status.state, "disabled");

    let mut m = TeamSpeakManager::start(&cfg(false), &mut status);
    m.on_command(Some(TeamSpeakCommand::Apply(cfg(true))), &cfg(false), &mut status);
    assert_eq!(m.next_action(), ManagerAction::RunSession);
    let mut m = TeamSpeakManager::start(&cfg(false), &mut status);
    m.on_command(None, &cfg(false), &mut status);
    assert_eq!(m.next_action(), ManagerAction::Stop);
}

#[test]
fn sessions_are_followed_by_pauses_or_waiting() {
    let mut status = TeamSpeakStatus::default();
    let mut m = TeamSpeakManager::start(&cfg(true), &mut status);
    assert_eq!(status.state, "disconnected");
    assert_eq!(m.next_action(), ManagerAction::RunSession);

    m.on_session_end(TeamSpeakSessionEnd::Reconnect, &cfg(true), &mut status);
    assert_eq!(status.state, "reconnecting");
    assert_eq!(m.next_action(), ManagerAction::Pause(7));
    m.on_pause_end(&cfg(false));
    assert_eq!(m.next_action(), ManagerAction::RunSession);

    let mut slow = cfg(true);
    slow.reconnect_seconds = 9999;
    m.on_session_end(TeamSpeakSessionEnd::Fatal("boom".to_string()), &slow, &mut status);
    assert_eq!(status.state, "error");
    assert_eq!(status.last_error, Some("boom".to_string()));
    assert!(!status.connected && status.connected_at.is_none());
    assert_eq!(m.next_action(), ManagerAction::Pause(7));
    m.on_pause_end(&slow);
    assert_eq!(m.settings().reconnect_seconds, 300);
    assert_eq!(m.next_action(), ManagerAction::RunSession);

    m.on_session_end(TeamSpeakSessionEnd::Disconnected, &cfg(true), &mut status);
    assert_eq!(status.state, "disconnected");
    assert_eq!(m.next_action(), ManagerAction::RunSession);
    m.on_session_end(TeamSpeakSessionEnd::Disconnected, &cfg(false), &mut status);
    assert_eq!(status.state, "disabled");
    assert!(!status.enabled);
    assert_eq!(m.next_action(), ManagerAction::WaitForCommand);

    let mut m = TeamSpeakManager::start(&cfg(true), &mut status);
    m.on_session_end(TeamSpeakSessionEnd::Apply(cfg(false)), &cfg(true), &mut status);
    assert_eq!(m.next_action(), ManagerAction::WaitForCommand);
}

#[test]
fn a_refused_license_is_not_tried_again() {
    let mut status = TeamSpeakStatus::default();
    let refuse = |m: &mut TeamSpeakManager, status: &mut TeamSpeakStatus| {
        let error = "Failed to parse license: x".to_string();
        m.on_session_end(TeamSpeakSessionEnd::Fatal(error), &cfg(true), status);
    };
    let mut m = TeamSpeakManager::start(&cfg(true), &mut status);
    refuse(&mut m, &mut status);
    assert_eq!(status.state, "unsupported_server_license");
    assert_eq!(
        status.last_error.clone().unwrap(),
        "Failed to parse license: x. The current tsclientlib/tsproto stack could not parse this server's license handshake."
    );
    assert_eq!(m.next_action(), ManagerAction::WaitForCommand);
    m.on_command(Some(TeamSpeakCommand::Connect), &cfg(false), &mut status);
    assert!(!m.settings().enabled);
    assert_eq!(status.state, "unsupported_server_license");

    let mut m = TeamSpeakManager::start(&cfg(true), &mut status);
    refuse(&mut m, &mut status);
    m.on_command(Some(TeamSpeakCommand::Disconnect), &cfg(true), &mut status);
    assert!(!m.settings().enabled);
    let mut m = TeamSpeakManager::start(&cfg(true), &mut status);
    refuse(&mut m, &mut status);
    m.on_command(Some(TeamSpeakCommand::Apply(cfg(true))), &cfg(false), &mut status);
    assert_eq!(m.next_action(), ManagerAction::RunSession);
    let mut m = TeamSpeakManager::start(&cfg(true), &mut status);
    refuse(&mut m, &mut status);
    m.on_command(None, &cfg(true), &mut status);
    assert_eq!(m.next_action(), ManagerAction::Stop);
}

#[test]
fn a_manager_makes_an_identity_where_none_is_set() {
    let mut blank = cfg(true);
    blank.identity = " ".to_string();
    let mut status = TeamSpeakStatus::default();
    let m = TeamSpeakManager::start(&blank, &mut status);
    assert!(m.settings().identity.starts_with('{'));
    let m = TeamSpeakManager::start_with(&blank, "fresh", &mut status);
    assert_eq!(m.settings().identity, "fresh");
}
