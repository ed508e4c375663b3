//! TeamSpeak identities: making one, writing it into the configuration and
//! reading it back.

use vstd::prelude::*;

use crate::encoding;
use crate::text;
use crate::text_laws;

verus! {

/// A TeamSpeak identity: the private key as its 32 bytes, the counter that
/// gives the identity its level, and the highest counter that was tried.
#[derive(Debug)]
pub struct TeamSpeakIdentity {
    pub key: Vec<u8>,
    pub counter: u64,
    pub max_counter: u64,
}

/// The contents of a [`TeamSpeakIdentity`].
#[verifier::ext_equal]
pub struct IdentityView {
    pub key: Seq<u8>,
    pub counter: u64,
    pub max_counter: u64,
}

impl View for TeamSpeakIdentity {
    type V = IdentityView;

    open spec fn view(&self) -> IdentityView {
        IdentityView { key: self.key@, counter: self.counter, max_counter: self.max_counter }
    }
}

/// The greatest number of characters that a key may have. The readers of keys
/// call themselves for each level of nesting in a key, and the length of the key
/// bounds how deep that goes: to some 140 levels, which take less than half of a
/// thread's stack of two megabytes. The keys that are written have fewer than 300
/// characters.
pub const MAX_KEY_CHARS: usize = 512;

/// The characters in which a key is written: those of Base64, its padding, and
/// the backslash, by which JSON may write any of them.
pub open spec fn is_key_char(c: char) -> bool {
    text::is_alphanumeric(c) || c == '+' || c == '/' || c == '=' || c == '\\'
}

/// Whether `s` holds more characters of a key in a row from `i` on than a key
/// may have.
pub open spec fn is_long_key_at(s: Seq<char>, i: int) -> bool {
    &&& 0 <= i
    &&& i + MAX_KEY_CHARS < s.len()
    &&& forall|j: int| i <= j <= i + MAX_KEY_CHARS ==> is_key_char(#[trigger] s[j])
}

/// Whether `s` may hold a key that is too long to be read.
pub open spec fn may_hold_long_key(s: Seq<char>) -> bool {
    exists|i: int| is_long_key_at(s, i)
}

/// Whether a text may hold a key that is too long to be read.
fn text_may_hold_long_key(s: &str) -> (b: bool)
    ensures
        b == may_hold_long_key(s@),
{
    let chars = text::to_chars(s);
    let mut run: usize = 0;
    for i in 0..chars.len()
        invariant
            chars@ == s@,
            run <= MAX_KEY_CHARS,
            run <= i,
            forall|j: int| i - run <= j < i ==> is_key_char(#[trigger] chars@[j]),
            run < i ==> !is_key_char(chars@[i - run - 1]),
            forall|k: int| k + MAX_KEY_CHARS < i ==> !#[trigger] is_long_key_at(s@, k),
    {
        let c: char = chars[i];
        if text::char_is_alphanumeric(c) || c == '+' || c == '/' || c == '=' || c == '\\' {
            if run == MAX_KEY_CHARS {
                assert(is_long_key_at(s@, i - run));
                return true;
            }
            run = run + 1;
        } else {
            run = 0;
        }
        assert forall|k: int| k + MAX_KEY_CHARS < i + 1 implies !#[trigger] is_long_key_at(
            s@,
            k,
        ) by {
            if k + MAX_KEY_CHARS == i && k >= 0 {
                assert(!is_key_char(s@[i + 1 - run - 1]));
            }
        }
    }
    false
}

/// The error of `tsproto`, of which nothing is claimed.
#[verifier::external_type_specification]
#[verifier::external_body]
pub struct ExTsprotoError(tsproto::Error);

/// The error of `serde_json`, of which nothing is claimed.
#[verifier::external_type_specification]
#[verifier::external_body]
pub struct ExJsonError(serde_json::Error);

/// What `tsproto::Identity::new_from_str` reads from a text.
pub uninterp spec fn identity_of_key_text(text: Seq<char>) -> Option<IdentityView>;

/// What `tsproto::Identity::new_from_ts_str` reads from a text.
pub uninterp spec fn identity_of_export_text(text: Seq<char>) -> Option<IdentityView>;

/// What `serde_json::from_str` reads from a text as a `tsproto::Identity`.
pub uninterp spec fn identity_of_json_text(text: Seq<char>) -> Option<IdentityView>;

/// `tsproto::Identity::create`: a new identity with a random key. Its two
/// counters are the same, since creating it ends with raising its level,
/// which sets both. Nothing is claimed of the key but its length, nor of the
/// level, which is a count over a hash of the key and the counter. Of the
/// readers below it is claimed that the JSON text of such an identity is read
/// back by `serde_json::from_str`, which takes the key from the Base64 text
/// of its 32 bytes, and that the two readers of keys refuse that text, whose
/// first character is neither a digit nor one of the Base64 alphabet.
#[verifier::external_body]
fn create_identity() -> (r: TeamSpeakIdentity)
    ensures
        r.key@.len() == 32,
        r.counter == r.max_counter,
        identity_of_key_text(identity_text(r@)) is None,
        identity_of_export_text(identity_text(r@)) is None,
        identity_of_json_text(identity_text(r@)) == Some(r@),
{
    let i = tsproto::Identity::create();
    TeamSpeakIdentity {
        key: i.key().to_short().to_vec(),
        counter: i.counter(),
        max_counter: i.max_counter(),
    }
}

/// `tsproto::Identity::new_from_str`: reads an identity from a key in any of
/// the formats that TeamSpeak clients write. What it reads depends on the
/// text alone and is only named. It is not called on a text that may hold a
/// long key, which could be nested deeper than the stack allows.
#[verifier::external_body]
fn identity_from_key_text(text: &str) -> (r: Result<TeamSpeakIdentity, tsproto::Error>)
    requires
        !may_hold_long_key(text@),
    ensures
        identity_of_key_text(text@) == (match r {
            Ok(i) => Some(i@),
            Err(_) => None,
        }),
{
    let i = tsproto::Identity::new_from_str(text)?;
    Ok(TeamSpeakIdentity {
        key: i.key().to_short().to_vec(),
        counter: i.counter(),
        max_counter: i.max_counter(),
    })
}

/// `tsproto::Identity::new_from_ts_str`: reads an identity from a counter,
/// the letter `V` and a key. What it reads depends on the text alone and is
/// only named. It is not called on a text that may hold a long key, which could
/// be nested deeper than the stack allows.
#[verifier::external_body]
fn identity_from_export_text(text: &str) -> (r: Result<TeamSpeakIdentity, tsproto::Error>)
    requires
        !may_hold_long_key(text@),
    ensures
        identity_of_export_text(text@) == (match r {
            Ok(i) => Some(i@),
            Err(_) => None,
        }),
{
    let i = tsproto::Identity::new_from_ts_str(text)?;
    Ok(TeamSpeakIdentity {
        key: i.key().to_short().to_vec(),
        counter: i.counter(),
        max_counter: i.max_counter(),
    })
}

/// `serde_json::from_str` for a `tsproto::Identity`: reads an identity from
/// a JSON object with its key and counters. What it reads depends on the
/// text alone and is only named. It is not called on a text that may hold a
/// long key, which could be nested deeper than the stack allows.
#[verifier::external_body]
fn identity_from_json_text(text: &str) -> (r: Result<TeamSpeakIdentity, serde_json::Error>)
    requires
        !may_hold_long_key(text@),
    ensures
        identity_of_json_text(text@) == (match r {
            Ok(i) => Some(i@),
            Err(_) => None,
        }),
{
    let i = serde_json::from_str::<tsproto::Identity>(text)?;
    Ok(TeamSpeakIdentity {
        key: i.key().to_short().to_vec(),
        counter: i.counter(),
        max_counter: i.max_counter(),
    })
}

/// The text by which the configuration holds an identity: a JSON object with
/// the counters and the key in Base64.
pub open spec fn identity_text(identity: IdentityView) -> Seq<char> {
    "{\"counter\":"@ + text::decimal(identity.counter as nat) + ",\"key\":\""@
        + encoding::base64_text(identity.key) + "\",\"max_counter\":"@ + text::decimal(
        identity.max_counter as nat,
    ) + "}"@
}

/// The text by which the configuration holds an identity.
pub fn identity_to_config_string(identity: &TeamSpeakIdentity) -> (r: String)
    ensures
        r@ == identity_text(identity@),
{
    let mut s = text::concat3(
        "{\"counter\":",
        text::decimal_string(identity.counter).as_str(),
        ",\"key\":\"",
    );
    s.append(encoding::encode_base64(&identity.key).as_str());
    s.append("\",\"max_counter\":");
    s.append(text::decimal_string(identity.max_counter).as_str());
    s.append("}");
    s
}

/// Whether `s` is the text of the identity `i`, which has a key of 32 bytes
/// and equal counters and is what is read from the text.
pub open spec fn is_text_of_new(s: Seq<char>, i: IdentityView) -> bool {
    &&& s == identity_text(i)
    &&& i.key.len() == 32
    &&& i.counter == i.max_counter
    &&& read_identity(s) == Some(i)
}

/// Whether `s` is the text of a newly made identity.
pub open spec fn is_new_identity_text(s: Seq<char>) -> bool {
    exists|i: IdentityView| is_text_of_new(s, i)
}

/// The text of a new identity with a random key, from which the identity can
/// be read again.
pub fn create_teamspeak_identity_string() -> (r: String)
    ensures
        is_new_identity_text(r@),
{
    let identity = create_identity();
    let r = identity_to_config_string(&identity);
    proof {
        lemma_identity_text_is_trimmed(identity@);
        lemma_identity_text_is_short(identity@);
        assert(is_text_of_new(r@, identity@));
    }
    r
}

/// The text of an identity is not empty and has no white space at its ends.
proof fn lemma_identity_text_is_trimmed(i: IdentityView)
    ensures
        identity_text(i).len() > 0,
        text::trim(identity_text(i)) == identity_text(i),
{
    reveal_strlit("{\"counter\":");
    reveal_strlit("}");
    let s = identity_text(i);
    assert(s[0] == '{');
    assert(s.last() == '}');
}

/// A number has no more than 20 digits where it fits in 64 bits.
proof fn lemma_decimal_is_short(n: u64)
    ensures
        text::decimal(n as nat).len() <= 20,
{
    reveal_with_fuel(text::decimal, 21);
}

/// The text of an identity with a key of 32 bytes holds no long key.
proof fn lemma_identity_text_is_short(i: IdentityView)
    requires
        i.key.len() == 32,
    ensures
        !may_hold_long_key(identity_text(i)),
{
    reveal_strlit("{\"counter\":");
    reveal_strlit(",\"key\":\"");
    reveal_strlit("\",\"max_counter\":");
    reveal_strlit("}");
    reveal_with_fuel(encoding::base64_text, 12);
    lemma_decimal_is_short(i.counter);
    lemma_decimal_is_short(i.max_counter);
}

/// The text of a new identity is not blank, and has no white space at its
/// ends.
pub proof fn new_identity_text_is_trimmed(s: Seq<char>)
    requires
        is_new_identity_text(s),
    ensures
        s.len() > 0,
        text::trim(s) == s,
{
    let i = choose|i: IdentityView| is_text_of_new(s, i);
    lemma_identity_text_is_trimmed(i);
}

/// Why a text is no identity.
#[derive(Clone, Copy, Debug, PartialEq, Eq, Structural)]
pub enum IdentityError {
    /// None of the known formats reads it, or its key is too long.
    Unreadable,
}

impl IdentityError {
    /// What a user is told about the error.
    pub fn message(&self) -> (r: String)
        ensures
            r@ == "parsing TeamSpeak identity"@,
    {
        "parsing TeamSpeak identity".to_owned()
    }
}

/// The first of three readings that succeeded.
pub open spec fn first_reading(
    a: Option<IdentityView>,
    b: Option<IdentityView>,
    c: Option<IdentityView>,
) -> Option<IdentityView> {
    if a is Some {
        a
    } else if b is Some {
        b
    } else {
        c
    }
}

/// What a text of the configuration is read as: the first of the three
/// readings of it without outer white space. A text that may hold a key which is
/// too long is no identity.
pub open spec fn read_identity(s: Seq<char>) -> Option<IdentityView> {
    if may_hold_long_key(text::trim(s)) {
        None
    } else {
        first_reading(
            identity_of_key_text(text::trim(s)),
            identity_of_export_text(text::trim(s)),
            identity_of_json_text(text::trim(s)),
        )
    }
}

/// Reads an identity from a text of the configuration: from a key, from an
/// exported identity or from a JSON object, whichever succeeds first. A text with
/// more than [`MAX_KEY_CHARS`] characters of a key in a row is not read.
pub fn parse_teamspeak_identity(value: &str) -> (r: Result<TeamSpeakIdentity, IdentityError>)
    ensures
        read_identity(value@) == (match r {
            Ok(i) => Some(i@),
            Err(_) => None,
        }),
{
    let trimmed = text::trim_str(value);
    if text_may_hold_long_key(trimmed) {
        return Err(IdentityError::Unreadable);
    }
    if let Ok(identity) = identity_from_key_text(trimmed) {
        return Ok(identity);
    }
    if let Ok(identity) = identity_from_export_text(trimmed) {
        return Ok(identity);
    }
    match identity_from_json_text(trimmed) {
        Ok(identity) => Ok(identity),
        Err(_) => Err(IdentityError::Unreadable),
    }
}

/// An identity is read from a key where that can be, else from an exported
/// identity, else from a JSON object, and outer white space does not matter.
pub proof fn key_is_read_before_other_forms(
    left: Seq<char>,
    s: Seq<char>,
    right: Seq<char>,
    i: IdentityView,
)
    requires
        text_laws::all_white(left),
        text_laws::all_white(right),
        s.len() > 0 ==> !text::is_white_space(s[0]) && !text::is_white_space(s.last()),
        !may_hold_long_key(s),
    ensures
        identity_of_key_text(s) == Some(i) ==> read_identity(left + s + right) == Some(i),
        identity_of_key_text(s) is None && identity_of_export_text(s) == Some(i) ==> read_identity(
            left + s + right,
        ) == Some(i),
        identity_of_key_text(s) is None && identity_of_export_text(s) is None ==> read_identity(
            left + s + right,
        ) == identity_of_json_text(s),
{
    text_laws::trimming_takes_outer_white_space(left, s, right);
}

/// Of the characters a key can have, a run of up to 512 between others is read,
/// and a longer one is refused.
pub proof fn only_long_keys_are_refused(before: Seq<char>, key: Seq<char>, after: Seq<char>)
    requires
        forall|i: int|
            0 <= i < key.len() ==> {
                let c = #[trigger] key[i];
                'a' <= c <= 'z' || 'A' <= c <= 'Z' || '0' <= c <= '9' || c == '+' || c == '/' || c
                    == '=' || c == '\\'
            },
        forall|i: int| 0 <= i < before.len() ==> !is_key_char(#[trigger] before[i]),
        forall|i: int| 0 <= i < after.len() ==> !is_key_char(#[trigger] after[i]),
    ensures
        may_hold_long_key(before + key + after) <==> key.len() > 512,
{
    let s = before + key + after;
    let n = before.len() as int;
    if key.len() > 512 {
        assert forall|j: int| n <= j <= n + MAX_KEY_CHARS implies is_key_char(#[trigger] s[j]) by {
            assert(s[j] == key[j - n]);
        }
        assert(is_long_key_at(s, n));
    }
    if may_hold_long_key(s) {
        let i = choose|i: int| is_long_key_at(s, i);
        assert(is_key_char(s[i]) && is_key_char(s[i + MAX_KEY_CHARS]));
        if i < n {
            assert(s[i] == before[i]);
        }
        let j = i + MAX_KEY_CHARS;
        if j >= n + key.len() {
            assert(s[j] == after[j - n - key.len()]);
        }
    }
}

proof fn lemma_base64_has_no_quote(bytes: Seq<u8>, i: int)
    requires
        0 <= i < encoding::base64_text(bytes).len(),
    ensures
        encoding::base64_text(bytes)[i] != '"',
    decreases bytes.len(),
{
    if bytes.len() >= 3 && i >= 4 {
        assert(encoding::base64_text(bytes)[i] == encoding::base64_text(bytes.skip(3))[i - 4]);
        lemma_base64_has_no_quote(bytes.skip(3), i - 4);
    }
}

/// Two texts in which a mark ends a part that does not hold it have the same
/// part.
proof fn lemma_part_before_mark(
    a: Seq<char>,
    b: Seq<char>,
    c: char,
    after: Seq<char>,
    other: Seq<char>,
)
    requires
        a + seq![c] + after == b + seq![c] + other,
        forall|i: int| 0 <= i < a.len() ==> #[trigger] a[i] != c,
        forall|i: int| 0 <= i < b.len() ==> #[trigger] b[i] != c,
    ensures
        a == b,
        after == other,
{
    let s = a + seq![c] + after;
    let t = b + seq![c] + other;
    assert(s[a.len() as int] == c);
    assert(t[b.len() as int] == c);
    if a.len() < b.len() {
        assert(t[a.len() as int] == b[a.len() as int]);
    }
    if b.len() < a.len() {
        assert(s[b.len() as int] == a[b.len() as int]);
    }
    assert(s.take(a.len() as int) =~= a);
    assert(t.take(b.len() as int) =~= b);
    assert(s.skip(a.len() as int + 1) =~= after);
    assert(t.skip(b.len() as int + 1) =~= other);
}

/// Different identities have different texts: the key and both counters are
/// kept.
pub proof fn identity_text_keeps_the_identity(a: IdentityView, b: IdentityView)
    requires
        identity_text(a) == identity_text(b),
    ensures
        a == b,
{
    reveal_strlit("{\"counter\":");
    reveal_strlit(",\"key\":\"");
    reveal_strlit("\",\"max_counter\":");
    reveal_strlit("}");
    let head = "{\"counter\":"@;
    let to_key = ",\"key\":\""@;
    let to_max = "\",\"max_counter\":"@;
    let ca = text::decimal(a.counter as nat);
    let cb = text::decimal(b.counter as nat);
    let ka = encoding::base64_text(a.key);
    let kb = encoding::base64_text(b.key);
    let ma = text::decimal(a.max_counter as nat);
    let mb = text::decimal(b.max_counter as nat);
    let enda = to_max.drop_first() + ma + "}"@;
    let endb = to_max.drop_first() + mb + "}"@;
    let resta = to_key.drop_first() + (ka + seq!['"'] + enda);
    let restb = to_key.drop_first() + (kb + seq!['"'] + endb);
    let n = head.len() as int;
    assert(identity_text(a).skip(n) =~= ca + seq![','] + resta);
    assert(identity_text(b).skip(n) =~= cb + seq![','] + restb);
    text_laws::decimal_digits_stand_for_the_number(a.counter as nat);
    text_laws::decimal_digits_stand_for_the_number(b.counter as nat);
    text_laws::decimal_digits_stand_for_the_number(a.max_counter as nat);
    text_laws::decimal_digits_stand_for_the_number(b.max_counter as nat);
    lemma_part_before_mark(ca, cb, ',', resta, restb);
    let k = to_key.drop_first().len() as int;
    assert(resta.skip(k) =~= ka + seq!['"'] + enda);
    assert(restb.skip(k) =~= kb + seq!['"'] + endb);
    assert forall|i: int| 0 <= i < ka.len() implies #[trigger] ka[i] != '"' by {
        lemma_base64_has_no_quote(a.key, i);
    }
    assert forall|i: int| 0 <= i < kb.len() implies #[trigger] kb[i] != '"' by {
        lemma_base64_has_no_quote(b.key, i);
    }
    lemma_part_before_mark(ka, kb, '"', enda, endb);
    let m = to_max.drop_first().len() as int;
    assert(enda.skip(m).drop_last() =~= ma);
    assert(endb.skip(m).drop_last() =~= mb);
    encoding::base64_text_is_injective(a.key, b.key);
}

} // verus!
