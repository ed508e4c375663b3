use audio2mqtt::channels::{
    build_teamspeak_channel_path, collect_teamspeak_channels, teamspeak_channel_name_from_value,
    teamspeak_channel_parent_from_value,
};
use audio2mqtt::json::{JsonNumber, JsonValue};
use std::collections::HashMap;

fn natural(n: u64) -> JsonValue {
    JsonValue::Number(JsonNumber::Natural(n))
}

fn text(s: &str) -> JsonValue {
    JsonValue::Text(s.to_string())
}

fn object(members: Vec<(&str, JsonValue)>) -> JsonValue {
    JsonValue::Object(members.into_iter().map(|(k, v)| (k.to_string(), v)).collect())
}

fn names(list: &[(u64, Option<u64>, &str)]) -> HashMap<u64, (Option<u64>, String)> {
    list.iter().map(|(id, parent, name)| (*id, (*parent, name.to_string()))).collect()
}

#[test]
fn paths_go_from_the_top_down() {
    let map = names(&[(1, None, "Lobby"), (2, Some(1), "Sub"), (3, Some(2), "Deep"), (4, Some(9), "x")]);
    assert_eq!(build_teamspeak_channel_path(1, &map), "Lobby");
    assert_eq!(build_teamspeak_channel_path(2, &map), "Lobby/Sub");
    assert_eq!(build_teamspeak_channel_path(3, &map), "Lobby/Sub/Deep");
    assert_eq!(build_teamspeak_channel_path(4, &map), "x");
    assert_eq!(build_teamspeak_channel_path(9, &map), "");
}

#[test]
fn circles_end_after_sixty_four_names() {
    let map = names(&[(1, Some(2), "a"), (2, Some(1), "b")]);
    let path = build_teamspeak_channel_path(1, &map);
    let parts: Vec<&str> = path.split('/').collect();
    assert_eq!(parts.len(), 64);
    assert_eq!(parts[63], "a");
    assert_eq!(parts[62], "b");
}

#[test]
fn names_are_read_from_descriptions() {
    let read = |v: JsonValue| teamspeak_channel_name_from_value(&v);
    assert_eq!(read(object(vec![("name", text("A"))])), Some("A".to_string()));
    assert_eq!(read(object(vec![("channel_name", text("B"))])), Some("B".to_string()));
    assert_eq!(
        read(object(vec![("channel_name", text("B")), ("name", text("A"))])),
        Some("A".to_string())
    );
    assert_eq!(read(object(vec![("name", JsonValue::Null), ("channel_name", text("B"))])), None);
    assert_eq!(read(JsonValue::Null), None);
}

#[test]
fn parents_are_read_from_descriptions() {
    let read = |v: JsonValue| teamspeak_channel_parent_from_value(&v);
    assert_eq!(read(object(vec![("parent", natural(5))])), Some(5));
    assert_eq!(read(object(vec![("parent", natural(0))])), None);
    assert_eq!(read(object(vec![("parent_id", natural(6))])), Some(6));
    assert_eq!(read(object(vec![("pid", natural(7))])), Some(7));
    assert_eq!(read(object(vec![("channel_parent_id", natural(8))])), Some(8));
    assert_eq!(read(object(vec![("pid", natural(7)), ("parent", natural(0))])), None);
    assert_eq!(read(object(vec![("parent", object(vec![("0", natural(9))]))])), Some(9));
    assert_eq!(read(object(vec![("parent", object(vec![("id", natural(10))]))])), Some(10));
    assert_eq!(
        read(object(vec![("parent", object(vec![("0", natural(0)), ("id", natural(10))]))])),
        None
    );
    assert_eq!(read(object(vec![("parent", text("5"))])), None);
    assert_eq!(
        read(object(vec![("parent", JsonValue::Number(JsonNumber::Negative(-5)))])),
        None
    );
}

fn entries() -> Vec<(u64, JsonValue)> {
    vec![
        (7, object(vec![("name", text("Zoo"))])),
        (3, object(vec![("name", text("Lobby"))])),
        (5, object(vec![("name", text("Sub")), ("parent", natural(3))])),
        (9, object(vec![])),
        (4, object(vec![("name", text("Zoo"))])),
    ]
}

#[test]
fn channels_are_listed_by_path_and_identifier() {
    let list = collect_teamspeak_channels(&entries());
    let rows: Vec<(u64, &str, &str)> =
        list.iter().map(|c| (c.id, c.name.as_str(), c.path.as_str())).collect();
    assert_eq!(
        rows,
        vec![
            (9, "Channel 9", "Channel 9"),
            (3, "Lobby", "Lobby"),
            (5, "Sub", "Lobby/Sub"),
            (4, "Zoo", "Zoo"),
            (7, "Zoo", "Zoo"),
        ]
    );
    assert_eq!(list[2].parent_id, Some(3));
}

#[test]
fn the_order_of_descriptions_does_not_matter() {
    let list = collect_teamspeak_channels(&entries());
    let mut turned = entries();
    turned.reverse();
    assert_eq!(format!("{:?}", collect_teamspeak_channels(&turned)), format!("{list:?}"));
}
