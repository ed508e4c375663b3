//! Delivery of transcripts to webhooks and to an MQTT broker.

use vstd::prelude::*;

use crate::jobs;
use crate::settings;
use crate::settings::MqttConfig;
use crate::settings::WebhookConfig;
use crate::text;
use crate::text_laws;

verus! {

// ---------------------------------------------------------------------------
// Webhooks
// ---------------------------------------------------------------------------

/// A request to a webhook.
#[derive(Debug)]
pub struct WebhookRequest {
    pub name: String,
    pub url: String,
    pub bearer_token: Option<String>,
}

/// The contents of a [`WebhookRequest`].
#[verifier::ext_equal]
pub struct WebhookRequestView {
    pub name: Seq<char>,
    pub url: Seq<char>,
    pub bearer_token: Option<Seq<char>>,
}

impl View for WebhookRequest {
    type V = WebhookRequestView;

    open spec fn view(&self) -> WebhookRequestView {
        WebhookRequestView {
            name: self.name@,
            url: self.url@,
            bearer_token: text::opt_view(self.bearer_token),
        }
    }
}

/// A token, unless it is blank.
pub open spec fn token_of(token: Option<Seq<char>>) -> Option<Seq<char>> {
    match token {
        Some(t) => if text::trim(t).len() == 0 {
            None
        } else {
            Some(t)
        },
        None => None,
    }
}

/// The request to a webhook.
pub open spec fn request_to(hook: settings::WebhookView) -> WebhookRequestView {
    WebhookRequestView {
        name: hook.name,
        url: hook.url,
        bearer_token: token_of(hook.bearer_token),
    }
}

/// The requests to the webhooks that are enabled, in order.
pub open spec fn requests_to(hooks: Seq<settings::WebhookView>) -> Seq<WebhookRequestView>
    decreases hooks.len(),
{
    if hooks.len() == 0 {
        Seq::empty()
    } else {
        let before = requests_to(hooks.drop_last());
        if hooks.last().enabled {
            before.push(request_to(hooks.last()))
        } else {
            before
        }
    }
}

/// The contents of requests.
pub open spec fn request_views(requests: Seq<WebhookRequest>) -> Seq<WebhookRequestView> {
    requests.map_values(|r: WebhookRequest| r@)
}

/// The requests to the webhooks that are enabled, in order.
pub fn webhook_requests(hooks: &Vec<WebhookConfig>) -> (r: Vec<WebhookRequest>)
    ensures
        request_views(r@) == requests_to(settings::webhook_views(hooks@)),
{
    let ghost views = settings::webhook_views(hooks@);
    let mut out: Vec<WebhookRequest> = Vec::new();
    assert(request_views(out@) =~= requests_to(views.take(0)));
    for i in 0..hooks.len()
        invariant
            views == settings::webhook_views(hooks@),
            request_views(out@) == requests_to(views.take(i as int)),
    {
        proof {
            assert(views.take(i + 1).drop_last() =~= views.take(i as int));
            assert(views.take(i + 1).last() == hooks@[i as int]@);
        }
        if hooks[i].enabled {
            let bearer_token = match &hooks[i].bearer_token {
                Some(token) => if text::is_blank(token.as_str()) {
                    None
                } else {
                    Some(token.clone())
                },
                None => None,
            };
            let request = WebhookRequest {
                name: hooks[i].name.clone(),
                url: hooks[i].url.clone(),
                bearer_token,
            };
            let ghost before = out@;
            out.push(request);
            assert(request_views(out@) =~= request_views(before).push(request@));
        }
    }
    assert(views.take(hooks@.len() as int) =~= views);
    out
}

/// Whether the request is the one to a webhook that is enabled.
pub open spec fn is_request_to_one_of(
    request: WebhookRequestView,
    hooks: Seq<settings::WebhookView>,
) -> bool {
    exists|j: int|
        0 <= j < hooks.len() && (#[trigger] hooks[j]).enabled && request == request_to(hooks[j])
}

proof fn lemma_requests_come_from_hooks(hooks: Seq<settings::WebhookView>)
    ensures
        forall|i: int|
            0 <= i < requests_to(hooks).len() ==> is_request_to_one_of(
                #[trigger] requests_to(hooks)[i],
                hooks,
            ),
    decreases hooks.len(),
{
    if hooks.len() > 0 {
        let rest = hooks.drop_last();
        lemma_requests_come_from_hooks(rest);
        assert forall|i: int| 0 <= i < requests_to(hooks).len() implies is_request_to_one_of(
            #[trigger] requests_to(hooks)[i],
            hooks,
        ) by {
            if i < requests_to(rest).len() {
                let request = requests_to(rest)[i];
                assert(requests_to(hooks)[i] == request);
                assert(is_request_to_one_of(request, rest));
                let j = choose|j: int|
                    0 <= j < rest.len() && (#[trigger] rest[j]).enabled && request == request_to(
                        rest[j],
                    );
                assert(hooks[j] == rest[j]);
            } else {
                assert(hooks[hooks.len() - 1].enabled);
            }
        }
    }
}

proof fn lemma_hooks_get_requests(hooks: Seq<settings::WebhookView>)
    ensures
        forall|j: int|
            0 <= j < hooks.len() && (#[trigger] hooks[j]).enabled ==> requests_to(hooks).contains(
                request_to(hooks[j]),
            ),
    decreases hooks.len(),
{
    if hooks.len() > 0 {
        let rest = hooks.drop_last();
        lemma_hooks_get_requests(rest);
        assert forall|j: int| 0 <= j < hooks.len() && (#[trigger] hooks[j]).enabled implies
            requests_to(hooks).contains(request_to(hooks[j])) by {
            if j < rest.len() {
                assert(rest[j] == hooks[j]);
                let i = choose|i: int|
                    0 <= i < requests_to(rest).len() && requests_to(rest)[i] == request_to(
                        rest[j],
                    );
                assert(requests_to(hooks)[i] == request_to(hooks[j]));
            } else {
                let n = requests_to(rest).len() as int;
                assert(requests_to(hooks)[n] == request_to(hooks[j]));
            }
        }
    }
}

/// Exactly the enabled webhooks get a request, and none goes out with a blank
/// token.
pub proof fn enabled_webhooks_get_a_request(hooks: Seq<settings::WebhookView>)
    ensures
        forall|j: int|
            0 <= j < hooks.len() && (#[trigger] hooks[j]).enabled ==> requests_to(hooks).contains(
                request_to(hooks[j]),
            ),
        forall|i: int|
            0 <= i < requests_to(hooks).len() ==> is_request_to_one_of(
                #[trigger] requests_to(hooks)[i],
                hooks,
            ),
        forall|i: int|
            0 <= i < requests_to(hooks).len() ==> ((#[trigger] requests_to(
                hooks,
            )[i]).bearer_token matches Some(token) ==> text::trim(token).len() > 0),
{
    lemma_hooks_get_requests(hooks);
    lemma_requests_come_from_hooks(hooks);
}

// ---------------------------------------------------------------------------
// MQTT
// ---------------------------------------------------------------------------

/// How often a message is delivered.
#[derive(Clone, Copy, Debug, PartialEq, Eq, Structural)]
pub enum MqttQos {
    AtMostOnce,
    AtLeastOnce,
    ExactlyOnce,
}

/// How to publish a message.
#[derive(Debug)]
pub struct MqttPlan {
    pub client_id: String,
    pub host: String,
    pub port: u16,
    pub keep_alive_seconds: u64,
    pub credentials: Option<(String, String)>,
    pub topic: String,
    pub qos: MqttQos,
    pub retain: bool,
}

/// The contents of an [`MqttPlan`].
#[verifier::ext_equal]
pub struct MqttPlanView {
    pub client_id: Seq<char>,
    pub host: Seq<char>,
    pub port: u16,
    pub keep_alive_seconds: u64,
    pub credentials: Option<(Seq<char>, Seq<char>)>,
    pub topic: Seq<char>,
    pub qos: MqttQos,
    pub retain: bool,
}

impl View for MqttPlan {
    type V = MqttPlanView;

    open spec fn view(&self) -> MqttPlanView {
        MqttPlanView {
            client_id: self.client_id@,
            host: self.host@,
            port: self.port,
            keep_alive_seconds: self.keep_alive_seconds,
            credentials: match self.credentials {
                Some((user, password)) => Some((user@, password@)),
                None => None,
            },
            topic: self.topic@,
            qos: self.qos,
            retain: self.retain,
        }
    }
}

/// The delivery that a number stands for.
pub open spec fn qos_of(qos: u8) -> MqttQos {
    if qos == 0 {
        MqttQos::AtMostOnce
    } else if qos == 2 {
        MqttQos::ExactlyOnce
    } else {
        MqttQos::AtLeastOnce
    }
}

/// The user and the password, where a user is set.
pub open spec fn credentials_of(m: settings::MqttView) -> Option<(Seq<char>, Seq<char>)> {
    match m.username {
        Some(user) => if text::trim(user).len() == 0 {
            None
        } else {
            Some(
                (
                    user,
                    match m.password {
                        Some(password) => password,
                        None => Seq::empty(),
                    },
                ),
            )
        },
        None => None,
    }
}

/// How to publish a message, where that is enabled; `unique` makes up the client
/// identifier where none is set.
pub open spec fn plan_of(m: settings::MqttView, unique: Seq<char>) -> Option<MqttPlanView> {
    if !m.enabled {
        None
    } else {
        Some(
            MqttPlanView {
                client_id: if text::trim(m.client_id).len() == 0 {
                    "audio2mqtt-"@ + unique
                } else {
                    m.client_id
                },
                host: m.host,
                port: m.port,
                keep_alive_seconds: 10,
                credentials: credentials_of(m),
                topic: m.topic,
                qos: qos_of(m.qos),
                retain: false,
            },
        )
    }
}

/// The contents of an optional plan.
pub open spec fn plan_view(plan: Option<MqttPlan>) -> Option<MqttPlanView> {
    match plan {
        Some(p) => Some(p@),
        None => None,
    }
}

/// The user and the password, where a user is set.
fn mqtt_credentials(cfg: &MqttConfig) -> (r: Option<(String, String)>)
    ensures
        credentials_of(cfg@) == (match r {
            Some((user, password)) => Some((user@, password@)),
            None => None,
        }),
{
    match &cfg.username {
        Some(user) => if text::is_blank(user.as_str()) {
            None
        } else {
            let password = match &cfg.password {
                Some(password) => password.clone(),
                None => String::new(),
            };
            assert(cfg.password is None ==> password@ =~= Seq::<char>::empty());
            Some((user.clone(), password))
        },
        None => None,
    }
}

/// How to publish a message, where that is enabled; `unique` makes up the client
/// identifier where none is set.
pub fn mqtt_plan_with(cfg: &MqttConfig, unique: &str) -> (r: Option<MqttPlan>)
    ensures
        plan_view(r) == plan_of(cfg@, unique@),
{
    if !cfg.enabled {
        return None;
    }
    let client_id = if text::is_blank(cfg.client_id.as_str()) {
        text::concat2("audio2mqtt-", unique)
    } else {
        cfg.client_id.clone()
    };
    let qos = match cfg.qos {
        0 => MqttQos::AtMostOnce,
        2 => MqttQos::ExactlyOnce,
        _ => MqttQos::AtLeastOnce,
    };
    Some(
        MqttPlan {
            client_id,
            host: cfg.host.clone(),
            port: cfg.port,
            keep_alive_seconds: 10,
            credentials: mqtt_credentials(cfg),
            topic: cfg.topic.clone(),
            qos,
            retain: false,
        },
    )
}

/// How to publish a message, where that is enabled, with a new random client
/// identifier where none is set.
pub fn mqtt_plan(cfg: &MqttConfig) -> (r: Option<MqttPlan>)
    ensures
        exists|unique: Seq<char>|
            jobs::is_random_uuid(unique) && plan_view(r) == #[trigger] plan_of(cfg@, unique),
{
    let unique = jobs::random_uuid();
    let r = mqtt_plan_with(cfg, unique.as_str());
    assert(plan_view(r) == plan_of(cfg@, unique@));
    r
}

/// Where publishing is enabled, a message goes to the host, the port and the
/// topic that are set, as the set client and with the set user, is delivered as
/// often as the set number says, and is not kept by the broker. Where it is not
/// enabled no message goes out.
pub proof fn messages_go_where_the_settings_say(m: settings::MqttView, unique: Seq<char>)
    ensures
        plan_of(m, unique) is Some <==> m.enabled,
        plan_of(m, unique) matches Some(plan) ==> {
            &&& plan.host == m.host
            &&& plan.port == m.port
            &&& plan.topic == m.topic
            &&& m.qos == 0 ==> plan.qos == MqttQos::AtMostOnce
            &&& m.qos == 2 ==> plan.qos == MqttQos::ExactlyOnce
            &&& m.qos != 0 && m.qos != 2 ==> plan.qos == MqttQos::AtLeastOnce
            &&& !plan.retain
            &&& plan.keep_alive_seconds == 10
        },
{
}

/// A client identifier that is set is used as it is; a blank one is replaced by
/// a unique one.
pub proof fn set_client_is_used(m: settings::MqttView, unique: Seq<char>)
    requires
        m.enabled,
    ensures
        !text_laws::all_white(m.client_id) ==> plan_of(m, unique)->Some_0.client_id == m.client_id,
        text_laws::all_white(m.client_id) ==> plan_of(m, unique)->Some_0.client_id
            == "audio2mqtt-"@ + unique,
{
    text_laws::blank_is_white_space_alone(m.client_id);
}

/// A broker gets the user and the password that are set, and no password is an
/// empty one; without a user, or with a blank one, it gets neither.
pub proof fn set_user_is_used(m: settings::MqttView, unique: Seq<char>)
    requires
        m.enabled,
    ensures
        m.username is None ==> plan_of(m, unique)->Some_0.credentials is None,
        m.username matches Some(user) ==> {
            let credentials = plan_of(m, unique)->Some_0.credentials;
            &&& text_laws::all_white(user) ==> credentials is None
            &&& !text_laws::all_white(user) && m.password is Some ==> credentials == Some(
                (user, m.password->Some_0),
            )
            &&& !text_laws::all_white(user) && m.password is None ==> credentials == Some(
                (user, Seq::<char>::empty()),
            )
        },
{
    if let Some(user) = m.username {
        text_laws::blank_is_white_space_alone(user);
    }
}

/// Two settings with different hosts, ports or topics make different plans.
pub proof fn different_settings_make_different_plans(
    a: settings::MqttView,
    b: settings::MqttView,
    unique: Seq<char>,
)
    requires
        a.enabled,
        b.enabled,
        a.topic != b.topic || a.host != b.host || a.port != b.port,
    ensures
        plan_of(a, unique) != plan_of(b, unique),
{
}

/// Each webhook that is enabled gets one request, in order: to its address and
/// under its name, with its token unless that is blank.
pub proof fn webhooks_get_their_own_requests(hooks: Seq<settings::WebhookView>)
    ensures
        requests_to(hooks) == hooks.filter(|h: settings::WebhookView| h.enabled).map_values(
            |h: settings::WebhookView|
                WebhookRequestView {
                    name: h.name,
                    url: h.url,
                    bearer_token: match h.bearer_token {
                        Some(token) if !text_laws::all_white(token) => Some(token),
                        _ => None,
                    },
                },
        ),
    decreases hooks.len(),
{
    let enabled = |h: settings::WebhookView| h.enabled;
    let request = |h: settings::WebhookView|
        WebhookRequestView {
            name: h.name,
            url: h.url,
            bearer_token: match h.bearer_token {
                Some(token) if !text_laws::all_white(token) => Some(token),
                _ => None,
            },
        };
    reveal(Seq::filter);
    if hooks.len() > 0 {
        let before = hooks.drop_last();
        let last = hooks.last();
        webhooks_get_their_own_requests(before);
        if let Some(token) = last.bearer_token {
            text_laws::blank_is_white_space_alone(token);
        }
        if last.enabled {
            assert(hooks.filter(enabled) == before.filter(enabled).push(last));
            assert(hooks.filter(enabled).map_values(request) =~= before.filter(enabled).map_values(
                request,
            ).push(request(last)));
        }
    }
    assert(requests_to(hooks) =~= hooks.filter(enabled).map_values(request));
}

} // verus!
