use audio2mqtt::delivery::{mqtt_plan, mqtt_plan_with, webhook_requests, MqttQos};
use audio2mqtt::settings::{MqttConfig, WebhookConfig};

fn hook(name: &str, enabled: bool, token: Option<&str>) -> WebhookConfig {
    WebhookConfig {
        name: name.to_string(),
        enabled,
        url: format!("http://{name}/asr"),
        bearer_token: token.map(|t| t.to_string()),
    }
}

#[test]
fn enabled_webhooks_get_requests() {
    let hooks = vec![
        hook("local-api", true, None),
        hook("off", false, Some("t")),
        hook("blank", true, Some("  ")),
        hook("prod", true, Some(" secret-token")),
    ];
    let requests = webhook_requests(&hooks);
    let rows: Vec<(&str, &str, Option<&str>)> = requests
        .iter()
        .map(|r| (r.name.as_str(), r.url.as_str(), r.bearer_token.as_deref()))
        .collect();
    assert_eq!(
        rows,
        vec![
            ("local-api", "http://local-api/asr", None),
            ("blank", "http://blank/asr", None),
            ("prod", "http://prod/asr", Some(" secret-token")),
        ]
    );
    assert!(webhook_requests(&vec![]).is_empty());
}

fn mqtt() -> MqttConfig {
    let mut cfg = MqttConfig::default();
    cfg.enabled = true;
    cfg
}

#[test]
fn a_disabled_broker_gets_nothing() {
    assert!(mqtt_plan(&MqttConfig::default()).is_none());
}

#[test]
fn messages_are_published_as_configured() {
    let plan = mqtt_plan_with(&mqtt(), "u").unwrap();
    assert_eq!(plan.client_id, "audio2mqtt");
    assert_eq!(plan.host, "host.docker.internal");
    assert_eq!(plan.port, 1883);
    assert_eq!(plan.keep_alive_seconds, 10);
    assert_eq!(plan.credentials, None);
    assert_eq!(plan.topic, "audio2mqtt/transcripts");
    assert_eq!(plan.qos, MqttQos::AtLeastOnce);
    assert!(!plan.retain);
}

#[test]
fn a_client_identifier_is_made_up() {
    let mut cfg = mqtt();
    cfg.client_id = " ".to_string();
    assert_eq!(mqtt_plan_with(&cfg, "u").unwrap().client_id, "audio2mqtt-u");
    let id = mqtt_plan(&cfg).unwrap().client_id;
    let uuid = id.strip_prefix("audio2mqtt-").unwrap();
    assert!(uuid::Uuid::parse_str(uuid).is_ok());
    assert_ne!(mqtt_plan(&cfg).unwrap().client_id, id);
}

#[test]
fn credentials_need_a_user() {
    let mut cfg = mqtt();
    cfg.password = Some("pw".to_string());
    assert_eq!(mqtt_plan_with(&cfg, "u").unwrap().credentials, None);
    cfg.username = Some(" ".to_string());
    assert_eq!(mqtt_plan_with(&cfg, "u").unwrap().credentials, None);
    cfg.username = Some("me ".to_string());
    assert_eq!(
        mqtt_plan_with(&cfg, "u").unwrap().credentials,
        Some(("me ".to_string(), "pw".to_string()))
    );
    cfg.password = None;
    assert_eq!(
        mqtt_plan_with(&cfg, "u").unwrap().credentials,
        Some(("me ".to_string(), String::new()))
    );
}

#[test]
fn numbers_name_the_quality_of_service() {
    for (n, qos) in [
        (0, MqttQos::AtMostOnce),
        (1, MqttQos::AtLeastOnce),
        (2, MqttQos::ExactlyOnce),
        (3, MqttQos::AtLeastOnce),
    ] {
        let mut cfg = mqtt();
        cfg.qos = n;
        assert_eq!(mqtt_plan_with(&cfg, "u").unwrap().qos, qos);
    }
}
