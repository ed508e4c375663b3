//! The JSON replies of the web interface.

use vstd::prelude::*;

use crate::channels;
use crate::channels::TeamSpeakChannelInfo;
use crate::json;
use crate::json::JsonValue;
use crate::models;
use crate::models::ModelProfile;
use crate::text;

verus! {

/// The reply that all went well.
pub open spec fn success_view() -> json::JsonView {
    json::JsonView::Object(seq![("ok"@, json::JsonView::Bool(true))])
}

/// The reply that all went well.
pub fn success() -> (r: JsonValue)
    ensures
        r@ == success_view(),
{
    let mut members = json::no_members();
    json::put_bool(&mut members, "ok", true);
    let r = json::object(members);
    assert(r@->Object_0 =~= success_view()->Object_0);
    r
}

/// The reply that says what went wrong.
pub open spec fn failure_of(error: Seq<char>) -> json::JsonView {
    json::JsonView::Object(
        seq![("ok"@, json::JsonView::Bool(false)), ("error"@, json::JsonView::Text(error))],
    )
}

/// The reply that says what went wrong.
pub fn failure(error: &str) -> (r: JsonValue)
    ensures
        r@ == failure_of(error@),
{
    let mut members = json::no_members();
    json::put_bool(&mut members, "ok", false);
    json::put_text(&mut members, "error", error);
    let r = json::object(members);
    assert(r@->Object_0 =~= failure_of(error@)->Object_0);
    r
}

/// The reply that says what went wrong with what.
pub open spec fn failure_about(key: Seq<char>, name: Seq<char>, error: Seq<char>) -> json::JsonView {
    json::JsonView::Object(
        seq![
            ("ok"@, json::JsonView::Bool(false)),
            (key, json::JsonView::Text(name)),
            ("error"@, json::JsonView::Text(error)),
        ],
    )
}

/// The reply that says what went wrong with a model.
pub fn model_failure(id: &str, error: &str) -> (r: JsonValue)
    ensures
        r@ == failure_about("id"@, id@, error@),
{
    let mut members = json::no_members();
    json::put_bool(&mut members, "ok", false);
    json::put_text(&mut members, "id", id);
    json::put_text(&mut members, "error", error);
    let r = json::object(members);
    assert(r@->Object_0 =~= failure_about("id"@, id@, error@)->Object_0);
    r
}

/// The reply that says what went wrong with a repository.
pub fn repo_failure(repo_id: &str, error: &str) -> (r: JsonValue)
    ensures
        r@ == failure_about("repo_id"@, repo_id@, error@),
{
    let mut members = json::no_members();
    json::put_bool(&mut members, "ok", false);
    json::put_text(&mut members, "repo_id", repo_id);
    json::put_text(&mut members, "error", error);
    let r = json::object(members);
    assert(r@->Object_0 =~= failure_about("repo_id"@, repo_id@, error@)->Object_0);
    r
}

// ---------------------------------------------------------------------------
// Configuration
// ---------------------------------------------------------------------------

/// The reply to a new configuration; the errors are those of storing it and of
/// changing the log level.
pub open spec fn config_reply_of(
    save_error: Option<Seq<char>>,
    log_error: Option<Seq<char>>,
) -> json::JsonView {
    match save_error {
        None => json::JsonView::Object(
            seq![
                ("ok"@, json::JsonView::Bool(true)),
                ("log_reload"@, json::JsonView::Bool(log_error is None)),
            ],
        ),
        Some(error) => json::JsonView::Object(
            seq![
                ("ok"@, json::JsonView::Bool(false)),
                ("error"@, json::JsonView::Text(error)),
                ("log_reload_error"@, json::optional_text(log_error)),
            ],
        ),
    }
}

/// The reply to a new configuration.
pub fn config_reply(save_error: &Option<String>, log_error: &Option<String>) -> (r: JsonValue)
    ensures
        r@ == config_reply_of(text::opt_view(*save_error), text::opt_view(*log_error)),
{
    let mut members = json::no_members();
    match save_error {
        None => {
            json::put_bool(&mut members, "ok", true);
            let reloaded = match log_error {
                None => true,
                Some(_) => false,
            };
            json::put_bool(&mut members, "log_reload", reloaded);
        },
        Some(error) => {
            json::put_bool(&mut members, "ok", false);
            json::put_text(&mut members, "error", error.as_str());
            json::put_optional_text(&mut members, "log_reload_error", log_error);
        },
    }
    let r = json::object(members);
    proof {
        let expected = config_reply_of(text::opt_view(*save_error), text::opt_view(*log_error));
        assert(r@->Object_0 =~= expected->Object_0);
    }
    r
}

// ---------------------------------------------------------------------------
// TeamSpeak
// ---------------------------------------------------------------------------

/// The reply to a command for the receiver that also changes the stored
/// configuration; the error is that of storing it.
pub open spec fn command_reply_of(save_error: Option<Seq<char>>, sent: bool) -> json::JsonView {
    json::JsonView::Object(
        seq![
            ("ok"@, json::JsonView::Bool(save_error is None && sent)),
            ("saved"@, json::JsonView::Bool(save_error is None)),
            ("command_sent"@, json::JsonView::Bool(sent)),
            ("error"@, json::optional_text(save_error)),
        ],
    )
}

/// The reply to a command for the receiver that also changes the stored
/// configuration.
pub fn command_reply(save_error: &Option<String>, sent: bool) -> (r: JsonValue)
    ensures
        r@ == command_reply_of(text::opt_view(*save_error), sent),
{
    let saved = match save_error {
        None => true,
        Some(_) => false,
    };
    let mut members = json::no_members();
    json::put_bool(&mut members, "ok", saved && sent);
    json::put_bool(&mut members, "saved", saved);
    json::put_bool(&mut members, "command_sent", sent);
    json::put_optional_text(&mut members, "error", save_error);
    let r = json::object(members);
    assert(r@->Object_0 =~= command_reply_of(text::opt_view(*save_error), sent)->Object_0);
    r
}

/// The reply to the command to reconnect.
pub open spec fn reconnect_reply_of(sent: bool) -> json::JsonView {
    json::JsonView::Object(
        seq![("ok"@, json::JsonView::Bool(sent)), ("command_sent"@, json::JsonView::Bool(sent))],
    )
}

/// The reply to the command to reconnect.
pub fn reconnect_reply(sent: bool) -> (r: JsonValue)
    ensures
        r@ == reconnect_reply_of(sent),
{
    let mut members = json::no_members();
    json::put_bool(&mut members, "ok", sent);
    json::put_bool(&mut members, "command_sent", sent);
    let r = json::object(members);
    assert(r@->Object_0 =~= reconnect_reply_of(sent)->Object_0);
    r
}

/// A channel in a reply.
pub open spec fn channel_json_of(c: channels::ChannelView) -> json::JsonView {
    json::JsonView::Object(
        seq![
            ("id"@, json::optional_natural(Some(c.id))),
            ("parent_id"@, json::optional_natural(c.parent_id)),
            ("name"@, json::JsonView::Text(c.name)),
            ("path"@, json::JsonView::Text(c.path)),
        ],
    )
}

/// A channel in a reply.
pub fn channel_json(c: &TeamSpeakChannelInfo) -> (r: JsonValue)
    ensures
        r@ == channel_json_of(c@),
{
    let mut members = json::no_members();
    json::put_natural(&mut members, "id", c.id);
    json::put_optional_natural(&mut members, "parent_id", c.parent_id);
    json::put_text(&mut members, "name", c.name.as_str());
    json::put_text(&mut members, "path", c.path.as_str());
    let r = json::object(members);
    assert(r@->Object_0 =~= channel_json_of(c@)->Object_0);
    r
}

/// The reply to the choice of a channel; the error is that of storing it.
pub open spec fn channel_reply_of(
    c: channels::ChannelView,
    save_error: Option<Seq<char>>,
    sent: bool,
) -> json::JsonView {
    json::JsonView::Object(
        seq![
            ("ok"@, json::JsonView::Bool(save_error is None && sent)),
            ("channel"@, channel_json_of(c)),
            ("saved"@, json::JsonView::Bool(save_error is None)),
            ("command_sent"@, json::JsonView::Bool(sent)),
            ("error"@, json::optional_text(save_error)),
        ],
    )
}

/// The reply to the choice of a channel.
pub fn channel_reply(
    c: &TeamSpeakChannelInfo,
    save_error: &Option<String>,
    sent: bool,
) -> (r: JsonValue)
    ensures
        r@ == channel_reply_of(c@, text::opt_view(*save_error), sent),
{
    let saved = match save_error {
        None => true,
        Some(_) => false,
    };
    let mut members = json::no_members();
    json::put_bool(&mut members, "ok", saved && sent);
    json::put(&mut members, "channel", channel_json(c));
    json::put_bool(&mut members, "saved", saved);
    json::put_bool(&mut members, "command_sent", sent);
    json::put_optional_text(&mut members, "error", save_error);
    let r = json::object(members);
    assert(r@->Object_0 =~= channel_reply_of(c@, text::opt_view(*save_error), sent)->Object_0);
    r
}

// ---------------------------------------------------------------------------
// Models
// ---------------------------------------------------------------------------

/// An optional size as a JSON value.
pub open spec fn optional_size(n: Option<u32>) -> json::JsonView {
    match n {
        Some(m) => json::optional_natural(Some(m as u64)),
        None => json::JsonView::Null,
    }
}

/// The members that describe a profile.
pub open spec fn profile_members(p: models::ProfileView) -> Seq<(Seq<char>, json::JsonView)> {
    seq![
        ("id"@, json::JsonView::Text(p.id)),
        ("name"@, json::JsonView::Text(p.name)),
        ("path"@, json::JsonView::Text(p.path)),
        ("url"@, json::JsonView::Text(p.url)),
        ("description"@, json::JsonView::Text(p.description)),
        ("recommended_vram_gb"@, optional_size(p.recommended_vram_gb)),
    ]
}

/// Adds the members that describe a profile to none.
fn put_profile(p: &ModelProfile) -> (r: Vec<(String, JsonValue)>)
    ensures
        json::members_view(r@) == profile_members(p@),
{
    let mut members = json::no_members();
    json::put_text(&mut members, "id", p.id.as_str());
    json::put_text(&mut members, "name", p.name.as_str());
    json::put_text(&mut members, "path", p.path.as_str());
    json::put_text(&mut members, "url", p.url.as_str());
    json::put_text(&mut members, "description", p.description.as_str());
    let size: Option<u64> = match p.recommended_vram_gb {
        Some(n) => Some(n as u64),
        None => None,
    };
    json::put_optional_natural(&mut members, "recommended_vram_gb", size);
    assert(json::members_view(members@) =~= profile_members(p@));
    members
}

/// A profile in a reply.
pub fn profile_json(p: &ModelProfile) -> (r: JsonValue)
    ensures
        r@ == json::JsonView::Object(profile_members(p@)),
{
    json::object(put_profile(p))
}

/// A profile in the list of models, with whether its file is there and whether
/// it is active.
pub open spec fn model_row_of(p: models::ProfileView, exists: bool, active: bool) -> json::JsonView {
    json::JsonView::Object(
        profile_members(p) + seq![
            ("exists"@, json::JsonView::Bool(exists)),
            ("active"@, json::JsonView::Bool(active)),
        ],
    )
}

/// A profile in the list of models.
pub fn model_row(p: &ModelProfile, exists: bool, active: bool) -> (r: JsonValue)
    ensures
        r@ == model_row_of(p@, exists, active),
{
    let mut members = put_profile(p);
    json::put_bool(&mut members, "exists", exists);
    json::put_bool(&mut members, "active", active);
    let r = json::object(members);
    assert(r@->Object_0 =~= model_row_of(p@, exists, active)->Object_0);
    r
}

/// The list of models, with whether the file of each is there.
pub open spec fn models_reply_of(m: models::ModelsView, exists: Seq<bool>) -> json::JsonView {
    json::JsonView::Object(
        seq![
            ("active_model_id"@, json::JsonView::Text(m.active_model_id)),
            (
                "profiles"@,
                json::JsonView::Array(
                    Seq::new(
                        m.profiles.len(),
                        |i: int|
                            model_row_of(
                                m.profiles[i],
                                exists[i],
                                m.profiles[i].id == m.active_model_id,
                            ),
                    ),
                ),
            ),
        ],
    )
}

/// The list of models, with whether the file of each is there.
pub fn models_reply(m: &models::ModelConfig, exists: &Vec<bool>) -> (r: JsonValue)
    requires
        exists@.len() == m@.profiles.len(),
    ensures
        r@ == models_reply_of(m@, exists@),
{
    let mut rows: Vec<JsonValue> = Vec::new();
    for i in 0..m.profiles.len()
        invariant
            exists@.len() == m@.profiles.len(),
            rows@.len() == i,
            forall|j: int|
                0 <= j < i ==> (#[trigger] rows@[j])@ == model_row_of(
                    m@.profiles[j],
                    exists@[j],
                    m@.profiles[j].id == m@.active_model_id,
                ),
    {
        let active = text::str_eq(m.profiles[i].id.as_str(), m.active_model_id.as_str());
        rows.push(model_row(&m.profiles[i], exists[i], active));
    }
    let mut members = json::no_members();
    json::put_text(&mut members, "active_model_id", m.active_model_id.as_str());
    let rows = JsonValue::Array(rows);
    proof {
        let expected = models_reply_of(m@, exists@)->Object_0[1].1;
        assert(rows@->Array_0 =~= expected->Array_0);
    }
    json::put(&mut members, "profiles", rows);
    let r = json::object(members);
    assert(r@->Object_0 =~= models_reply_of(m@, exists@)->Object_0);
    r
}

/// The reply that a model file is there.
pub open spec fn downloaded_of(p: models::ProfileView) -> json::JsonView {
    json::JsonView::Object(
        seq![
            ("ok"@, json::JsonView::Bool(true)),
            ("id"@, json::JsonView::Text(p.id)),
            ("path"@, json::JsonView::Text(p.path)),
        ],
    )
}

/// The reply that a model file is there.
pub fn downloaded(p: &ModelProfile) -> (r: JsonValue)
    ensures
        r@ == downloaded_of(p@),
{
    let mut members = json::no_members();
    json::put_bool(&mut members, "ok", true);
    json::put_text(&mut members, "id", p.id.as_str());
    json::put_text(&mut members, "path", p.path.as_str());
    let r = json::object(members);
    assert(r@->Object_0 =~= downloaded_of(p@)->Object_0);
    r
}

/// The reply that a model is active.
pub open spec fn activated_of(p: models::ProfileView) -> json::JsonView {
    json::JsonView::Object(
        seq![
            ("ok"@, json::JsonView::Bool(true)),
            ("active_model_id"@, json::JsonView::Text(p.id)),
            ("active_model_path"@, json::JsonView::Text(p.path)),
            (
                "reload"@,
                json::JsonView::Text("model reloads before the next transcription job"@),
            ),
        ],
    )
}

/// The reply that a model is active.
pub fn activated(p: &ModelProfile) -> (r: JsonValue)
    ensures
        r@ == activated_of(p@),
{
    let mut members = json::no_members();
    json::put_bool(&mut members, "ok", true);
    json::put_text(&mut members, "active_model_id", p.id.as_str());
    json::put_text(&mut members, "active_model_path", p.path.as_str());
    json::put_text(&mut members, "reload", "model reloads before the next transcription job");
    let r = json::object(members);
    assert(r@->Object_0 =~= activated_of(p@)->Object_0);
    r
}

/// The reply that a model of a repository has been added.
pub open spec fn model_added_of(
    repo_id: Seq<char>,
    filename: Seq<char>,
    p: models::ProfileView,
    replaced: bool,
    active_model_id: Seq<char>,
) -> json::JsonView {
    json::JsonView::Object(
        seq![
            ("ok"@, json::JsonView::Bool(true)),
            ("repo_id"@, json::JsonView::Text(repo_id)),
            ("filename"@, json::JsonView::Text(filename)),
            ("profile"@, json::JsonView::Object(profile_members(p))),
            ("replaced"@, json::JsonView::Bool(replaced)),
            ("active_model_id"@, json::JsonView::Text(active_model_id)),
        ],
    )
}

/// The reply that a model of a repository has been added.
pub fn model_added(
    repo_id: &str,
    filename: &str,
    p: &ModelProfile,
    replaced: bool,
    active_model_id: &str,
) -> (r: JsonValue)
    ensures
        r@ == model_added_of(repo_id@, filename@, p@, replaced, active_model_id@),
{
    let mut members = json::no_members();
    json::put_bool(&mut members, "ok", true);
    json::put_text(&mut members, "repo_id", repo_id);
    json::put_text(&mut members, "filename", filename);
    json::put(&mut members, "profile", profile_json(p));
    json::put_bool(&mut members, "replaced", replaced);
    json::put_text(&mut members, "active_model_id", active_model_id);
    let r = json::object(members);
    proof {
        let expected = model_added_of(repo_id@, filename@, p@, replaced, active_model_id@);
        assert(r@->Object_0 =~= expected->Object_0);
    }
    r
}

} // verus!
