use audio2mqtt::channels::TeamSpeakChannelInfo;
use audio2mqtt::json::{JsonNumber, JsonValue};
use audio2mqtt::models::{ModelConfig, ModelProfile};
use audio2mqtt::replies::{
    activated, channel_reply, command_reply, config_reply, downloaded, failure, model_added,
    model_failure, models_reply, reconnect_reply, repo_failure, success,
};

fn to_serde(value: &JsonValue) -> serde_json::Value {
    match value {
        JsonValue::Null => serde_json::Value::Null,
        JsonValue::Bool(b) => serde_json::Value::from(*b),
        JsonValue::Number(JsonNumber::Natural(n)) => serde_json::Value::from(*n),
        JsonValue::Number(JsonNumber::Negative(n)) => serde_json::Value::from(*n),
        JsonValue::Number(JsonNumber::Float(x)) => serde_json::Value::from(f64::from_bits(x.bits)),
        JsonValue::Text(s) => serde_json::Value::from(s.clone()),
        JsonValue::Array(items) => items.iter().map(to_serde).collect(),
        JsonValue::Object(members) => serde_json::Value::Object(
            members.iter().map(|(k, v)| (k.clone(), to_serde(v))).collect(),
        ),
    }
}

fn check(value: JsonValue, expected: &str) {
    let expected: serde_json::Value = serde_json::from_str(expected).unwrap();
    assert_eq!(to_serde(&value), expected);
}

fn profile(id: &str, size: Option<u32>) -> ModelProfile {
    ModelProfile {
        id: id.to_string(),
        name: "N".to_string(),
        path: "/p".to_string(),
        url: "u".to_string(),
        description: "d".to_string(),
        recommended_vram_gb: size,
    }
}

#[test]
fn plain_replies() {
    check(success(), r#"{"ok": true}"#);
    check(failure("no"), r#"{"ok": false, "error": "no"}"#);
    check(model_failure("a", "no"), r#"{"ok": false, "id": "a", "error": "no"}"#);
    check(repo_failure("o/m", "no"), r#"{"ok": false, "repo_id": "o/m", "error": "no"}"#);
}

#[test]
fn replies_to_a_new_configuration() {
    check(config_reply(&None, &None), r#"{"ok": true, "log_reload": true}"#);
    check(
        config_reply(&None, &Some("x".to_string())),
        r#"{"ok": true, "log_reload": false}"#,
    );
    check(
        config_reply(&Some("disk".to_string()), &None),
        r#"{"ok": false, "error": "disk", "log_reload_error": null}"#,
    );
    check(
        config_reply(&Some("disk".to_string()), &Some("x".to_string())),
        r#"{"ok": false, "error": "disk", "log_reload_error": "x"}"#,
    );
}

#[test]
fn replies_to_commands() {
    check(
        command_reply(&None, true),
        r#"{"ok": true, "saved": true, "command_sent": true, "error": null}"#,
    );
    check(
        command_reply(&None, false),
        r#"{"ok": false, "saved": true, "command_sent": false, "error": null}"#,
    );
    check(
        command_reply(&Some("disk".to_string()), true),
        r#"{"ok": false, "saved": false, "command_sent": true, "error": "disk"}"#,
    );
    check(reconnect_reply(true), r#"{"ok": true, "command_sent": true}"#);
    check(reconnect_reply(false), r#"{"ok": false, "command_sent": false}"#);
    let channel = TeamSpeakChannelInfo {
        id: 4,
        parent_id: Some(2),
        name: "B".to_string(),
        path: "A/B".to_string(),
    };
    check(
        channel_reply(&channel, &None, true),
        r#"{"ok": true, "channel": {"id": 4, "parent_id": 2, "name": "B", "path": "A/B"},
            "saved": true, "command_sent": true, "error": null}"#,
    );
    check(
        channel_reply(&channel, &Some("disk".to_string()), false),
        r#"{"ok": false, "channel": {"id": 4, "parent_id": 2, "name": "B", "path": "A/B"},
            "saved": false, "command_sent": false, "error": "disk"}"#,
    );
}

#[test]
fn replies_about_models() {
    let models = ModelConfig {
        active_model_id: "b".to_string(),
        profiles: vec![profile("a", Some(10)), profile("b", None)],
    };
    check(
        models_reply(&models, &vec![true, false]),
        r#"{"active_model_id": "b", "profiles": [
            {"id": "a", "name": "N", "path": "/p", "url": "u", "description": "d",
             "recommended_vram_gb": 10, "exists": true, "active": false},
            {"id": "b", "name": "N", "path": "/p", "url": "u", "description": "d",
             "recommended_vram_gb": null, "exists": false, "active": true}]}"#,
    );
    let p = profile("a", Some(10));
    check(downloaded(&p), r#"{"ok": true, "id": "a", "path": "/p"}"#);
    check(
        activated(&p),
        r#"{"ok": true, "active_model_id": "a", "active_model_path": "/p",
            "reload": "model reloads before the next transcription job"}"#,
    );
    check(
        model_added("o/m", "x.bin", &p, true, "b"),
        r#"{"ok": true, "repo_id": "o/m", "filename": "x.bin",
            "profile": {"id": "a", "name": "N", "path": "/p", "url": "u", "description": "d",
                        "recommended_vram_gb": 10},
            "replaced": true, "active_model_id": "b"}"#,
    );
}
