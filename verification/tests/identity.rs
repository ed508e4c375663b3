use audio2mqtt::identity::{
    create_teamspeak_identity_string, identity_to_config_string, parse_teamspeak_identity,
    IdentityError, TeamSpeakIdentity, MAX_KEY_CHARS,
};
use base64::Engine;

#[test]
fn new_identities_are_read_back() {
    let text = create_teamspeak_identity_string();
    let identity = parse_teamspeak_identity(&text).unwrap();
    assert_eq!(identity.key.len(), 32);
    assert_eq!(identity.counter, identity.max_counter);
    assert_eq!(identity_to_config_string(&identity), text);
    let padded = format!("  {text}\n");
    assert_eq!(parse_teamspeak_identity(&padded).unwrap().key, identity.key);
    assert_ne!(create_teamspeak_identity_string(), text);
}

#[test]
fn identity_text_is_what_serde_writes() {
    for _ in 0..5 {
        let outside = tsproto::Identity::create();
        let value = serde_json::to_value(&outside).unwrap();
        let identity = TeamSpeakIdentity {
            key: outside.key().to_short().to_vec(),
            counter: outside.counter(),
            max_counter: outside.max_counter(),
        };
        assert_eq!(identity_to_config_string(&identity), value.to_string());
    }
}

#[test]
fn keys_in_other_formats_are_read() {
    let outside = tsproto::Identity::create();
    let key = outside.key().to_ts();
    let read = parse_teamspeak_identity(&key).unwrap();
    assert_eq!(read.key, outside.key().to_short().to_vec());
    assert_eq!(read.counter, outside.counter());
    assert_eq!(read.max_counter, outside.max_counter());

    let obfuscated = outside.key().to_ts_obfuscated();
    let exported = format!("128V{obfuscated}");
    assert!(exported.len() < 300);
    let read = parse_teamspeak_identity(&exported).unwrap();
    assert_eq!(read.key, outside.key().to_short().to_vec());
    assert_eq!(read.counter, 128);
}

#[test]
fn other_texts_are_no_identity() {
    for text in ["", "nonsense", "{}", "{\"key\":\"x\",\"counter\":0,\"max_counter\":0}", "12V"] {
        assert_eq!(parse_teamspeak_identity(text).unwrap_err(), IdentityError::Unreadable, "{text}");
    }
    assert_eq!(IdentityError::Unreadable.message(), "parsing TeamSpeak identity");
}

#[test]
fn json_with_white_space_and_further_members_is_read() {
    let text = create_teamspeak_identity_string();
    let key = parse_teamspeak_identity(&text).unwrap().key;
    let spaced = text.replace(',', &format!(" ,{}\n", " ".repeat(5000)));
    assert_eq!(parse_teamspeak_identity(&spaced).unwrap().key, key);
    let note = "a note of some words; ".repeat(500);
    let noted = text.replace('}', &format!(",\"note\":\"{note}\"}}"));
    assert!(noted.len() > 10_000);
    let read = parse_teamspeak_identity(&noted).unwrap();
    assert_eq!(identity_to_config_string(&read), text);
    let at = text.find("\"key\":\"").unwrap() + 7;
    let first = text[at..].chars().next().unwrap();
    let escaped = format!("{}\\u{:04x}{}", &text[..at], first as u32, &text[at + 1..]);
    assert_eq!(parse_teamspeak_identity(&escaped).unwrap().key, key);
}

#[test]
fn a_key_that_is_too_long_is_not_read() {
    let key = tsproto::Identity::create().key().to_ts();
    for (zeros, readable) in
        [(MAX_KEY_CHARS - key.len() - 1, true), (MAX_KEY_CHARS - key.len(), false)]
    {
        let text = format!("{}V{key}", "0".repeat(zeros));
        let read = parse_teamspeak_identity(&text);
        assert_eq!(read.is_ok(), readable, "{zeros}");
        if let Ok(identity) = read {
            assert_eq!(identity.counter, 0);
        }
    }
    let padded = format!("{}{key}{}", " ".repeat(600), " ".repeat(600));
    assert!(parse_teamspeak_identity(&padded).is_ok());
}

/// Sequences inside each other, in as many bytes as asked for or a few less.
fn nested_sequences(bytes: usize) -> Vec<u8> {
    let mut der: Vec<u8> = vec![0x05, 0x00];
    loop {
        let len = der.len();
        let mut outer: Vec<u8> = vec![0x30];
        if len < 128 {
            outer.push(len as u8);
        } else if len < 256 {
            outer.extend([0x81, len as u8]);
        } else {
            outer.extend([0x82, (len / 256) as u8, (len % 256) as u8]);
        }
        outer.extend(&der);
        if outer.len() > bytes {
            return der;
        }
        der = outer;
    }
}

#[test]
fn a_nested_key_of_the_greatest_length_is_refused() {
    let text = base64::engine::general_purpose::STANDARD
        .encode(nested_sequences(MAX_KEY_CHARS / 4 * 3 - 3));
    assert!(text.len() <= MAX_KEY_CHARS && text.len() > MAX_KEY_CHARS - 16);
    assert_eq!(parse_teamspeak_identity(&text).unwrap_err(), IdentityError::Unreadable);
}
