//! The channels of a TeamSpeak server.

use vstd::prelude::*;
use std::collections::HashMap;

use crate::json;
use crate::json::JsonValue;
use crate::text;

verus! {

broadcast use vstd::std_specs::hash::group_hash_axioms;

/// A channel, with the path of names that leads to it.
#[derive(Debug)]
pub struct TeamSpeakChannelInfo {
    pub id: u64,
    pub parent_id: Option<u64>,
    pub name: String,
    pub path: String,
}

/// The contents of a [`TeamSpeakChannelInfo`].
#[verifier::ext_equal]
pub struct ChannelView {
    pub id: u64,
    pub parent_id: Option<u64>,
    pub name: Seq<char>,
    pub path: Seq<char>,
}

impl View for TeamSpeakChannelInfo {
    type V = ChannelView;

    open spec fn view(&self) -> ChannelView {
        ChannelView {
            id: self.id,
            parent_id: self.parent_id,
            name: self.name@,
            path: self.path@,
        }
    }
}

impl Clone for TeamSpeakChannelInfo {
    fn clone(&self) -> (r: Self)
        ensures
            r@ == self@,
    {
        TeamSpeakChannelInfo {
            id: self.id,
            parent_id: self.parent_id,
            name: self.name.clone(),
            path: self.path.clone(),
        }
    }
}

/// The contents of channels.
pub open spec fn channel_views(channels: Seq<TeamSpeakChannelInfo>) -> Seq<ChannelView> {
    channels.map_values(|c: TeamSpeakChannelInfo| c@)
}

/// A copy of the channels.
pub fn clone_channels(channels: &Vec<TeamSpeakChannelInfo>) -> (r: Vec<TeamSpeakChannelInfo>)
    ensures
        channel_views(r@) == channel_views(channels@),
{
    let mut out: Vec<TeamSpeakChannelInfo> = Vec::new();
    for i in 0..channels.len()
        invariant
            out@.len() == i,
            forall|j: int| 0 <= j < i ==> (#[trigger] out@[j])@ == channels@[j]@,
    {
        out.push(channels[i].clone());
    }
    assert(channel_views(out@) =~= channel_views(channels@));
    out
}

// ---------------------------------------------------------------------------
// Paths
// ---------------------------------------------------------------------------

/// The greatest number of names in a path.
pub const MAX_PATH_PARTS: usize = 64;

/// The parent and the name of each channel.
pub open spec fn names_view(channels: Map<u64, (Option<u64>, String)>) -> Map<
    u64,
    (Option<u64>, Seq<char>),
> {
    channels.map_values(|c: (Option<u64>, String)| (c.0, c.1@))
}

/// The names that lead to a channel, its own last, and at most `limit` of them.
/// Names above a channel that is not known are left out.
pub open spec fn ancestry(
    id: u64,
    names: Map<u64, (Option<u64>, Seq<char>)>,
    limit: nat,
) -> Seq<Seq<char>>
    decreases limit,
{
    if limit == 0 || !names.dom().contains(id) {
        Seq::empty()
    } else {
        let (parent, name) = names[id];
        match parent {
            None => seq![name],
            Some(p) => ancestry(p, names, (limit - 1) as nat).push(name),
        }
    }
}

/// The path of a channel: the names that lead to it with slashes between them.
pub open spec fn channel_path(id: u64, names: Map<u64, (Option<u64>, Seq<char>)>) -> Seq<char> {
    text::join(ancestry(id, names, MAX_PATH_PARTS as nat), "/"@)
}

/// The names that lead to where the search has got, and those found so far.
spec fn rest_of_path(
    current: Option<u64>,
    names: Map<u64, (Option<u64>, Seq<char>)>,
    limit: nat,
) -> Seq<Seq<char>> {
    match current {
        None => Seq::empty(),
        Some(id) => ancestry(id, names, limit),
    }
}

/// The strings in reverse order.
fn reversed(parts: &Vec<String>) -> (r: Vec<String>)
    ensures
        text::views(r@) == text::views(parts@).reverse(),
{
    let mut out: Vec<String> = Vec::new();
    let n: usize = parts.len();
    for i in 0..n
        invariant
            n == parts@.len(),
            out@.len() == i,
            forall|j: int| 0 <= j < i ==> (#[trigger] out@[j])@ == parts@[n - 1 - j]@,
    {
        out.push(parts[n - 1 - i].clone());
    }
    assert(text::views(out@) =~= text::views(parts@).reverse());
    out
}

/// The path of the channel with the given identifier.
pub fn build_teamspeak_channel_path(
    id: u64,
    channels: &HashMap<u64, (Option<u64>, String)>,
) -> (r: String)
    ensures
        r@ == channel_path(id, names_view(channels@)),
{
    let ghost names = names_view(channels@);
    let mut parts: Vec<String> = Vec::new();
    let mut current: Option<u64> = Some(id);
    let mut left: usize = MAX_PATH_PARTS;
    assert(text::views(parts@).reverse() =~= Seq::<Seq<char>>::empty());
    assert(rest_of_path(current, names, left as nat) + text::views(parts@).reverse() =~= ancestry(
        id,
        names,
        left as nat,
    ));
    while left > 0
        invariant
            names == names_view(channels@),
            rest_of_path(current, names, left as nat) + text::views(parts@).reverse() == ancestry(
                id,
                names,
                MAX_PATH_PARTS as nat,
            ),
        ensures
            rest_of_path(current, names, left as nat) == Seq::<Seq<char>>::empty(),
        decreases left,
    {
        let channel_id: u64 = match current {
            Some(c) => c,
            None => {
                break;
            },
        };
        match channels.get(&channel_id) {
            Some((parent, name)) => {
                let ghost found = text::views(parts@);
                proof {
                    assert(names.dom().contains(channel_id));
                    assert(names[channel_id] == (*parent, name@));
                }
                parts.push(name.clone());
                proof {
                    assert(text::views(parts@) =~= found.push(name@));
                    assert(text::views(parts@).reverse() =~= seq![name@] + found.reverse());
                    let before = rest_of_path(current, names, left as nat);
                    let after = rest_of_path(*parent, names, (left - 1) as nat);
                    assert(before =~= after.push(name@));
                    assert(after + text::views(parts@).reverse() =~= before + found.reverse());
                }
                current = *parent;
                left = left - 1;
            },
            None => {
                assert(!names.dom().contains(channel_id));
                break;
            },
        }
    }
    assert(rest_of_path(current, names, left as nat) + text::views(parts@).reverse()
        =~= text::views(parts@).reverse());
    text::join_strs(&reversed(&parts), "/")
}

// ---------------------------------------------------------------------------
// Reading channels
// ---------------------------------------------------------------------------

/// The first of two values that is there.
pub open spec fn first_there(
    a: Option<json::JsonView>,
    b: Option<json::JsonView>,
) -> Option<json::JsonView> {
    match a {
        Some(v) => Some(v),
        None => b,
    }
}

/// The name in the description of a channel.
pub open spec fn name_in(value: json::JsonView) -> Option<Seq<char>> {
    match first_there(json::member(value, "name"@), json::member(value, "channel_name"@)) {
        Some(v) => json::text_of(v),
        None => None,
    }
}

/// A number that is not zero.
pub open spec fn nonzero(n: Option<u64>) -> Option<u64> {
    match n {
        Some(m) => if m != 0 {
            Some(m)
        } else {
            None
        },
        None => None,
    }
}

/// The parent in the description of a channel; 0 stands for none.
pub open spec fn parent_in(value: json::JsonView) -> Option<u64> {
    let parent = first_there(
        json::member(value, "parent"@),
        first_there(
            json::member(value, "parent_id"@),
            first_there(json::member(value, "pid"@), json::member(value, "channel_parent_id"@)),
        ),
    );
    match parent {
        Some(json::JsonView::Number(n)) => nonzero(json::natural_of(json::JsonView::Number(n))),
        Some(json::JsonView::Object(members)) => {
            match first_there(json::member_of(members, "0"@), json::member_of(members, "id"@)) {
                Some(v) => nonzero(json::natural_of(v)),
                None => None,
            }
        },
        _ => None,
    }
}

/// The first of two values that is there.
fn first_value<'a>(a: Option<&'a JsonValue>, b: Option<&'a JsonValue>) -> (r: Option<&'a JsonValue>)
    ensures
        json::opt_json_view(r) == first_there(json::opt_json_view(a), json::opt_json_view(b)),
{
    match a {
        Some(v) => Some(v),
        None => b,
    }
}

/// The name in the description of a channel.
pub fn teamspeak_channel_name_from_value(value: &JsonValue) -> (r: Option<String>)
    ensures
        text::opt_view(r) == name_in(value@),
{
    match first_value(value.get("name"), value.get("channel_name")) {
        Some(v) => v.as_text(),
        None => None,
    }
}

/// The parent in the description of a channel; 0 stands for none.
pub fn teamspeak_channel_parent_from_value(value: &JsonValue) -> (r: Option<u64>)
    ensures
        r == parent_in(value@),
{
    let parent = first_value(
        value.get("parent"),
        first_value(
            value.get("parent_id"),
            first_value(value.get("pid"), value.get("channel_parent_id")),
        ),
    );
    let number: Option<u64> = match parent {
        Some(v) => match v {
            JsonValue::Number(_) => v.as_natural(),
            JsonValue::Object(_) => match first_value(v.get("0"), v.get("id")) {
                Some(n) => n.as_natural(),
                None => None,
            },
            _ => None,
        },
        None => None,
    };
    match number {
        Some(n) => if n != 0 {
            Some(n)
        } else {
            None
        },
        None => None,
    }
}

// ---------------------------------------------------------------------------
// Collecting channels
// ---------------------------------------------------------------------------

/// The name of a channel: the one in its description, or one made of its
/// identifier.
pub open spec fn channel_name(id: u64, value: json::JsonView) -> Seq<char> {
    match name_in(value) {
        Some(name) => name,
        None => "Channel "@ + text::decimal(id as nat),
    }
}

/// The contents of the identifiers and descriptions of channels.
pub open spec fn entry_views(entries: Seq<(u64, JsonValue)>) -> Seq<(u64, json::JsonView)> {
    entries.map_values(|e: (u64, JsonValue)| (e.0, e.1@))
}

/// The parent and the name of each channel; of two descriptions with one
/// identifier the later counts.
pub open spec fn names_in(entries: Seq<(u64, json::JsonView)>) -> Map<
    u64,
    (Option<u64>, Seq<char>),
>
    decreases entries.len(),
{
    if entries.len() == 0 {
        Map::empty()
    } else {
        let (id, value) = entries.last();
        names_in(entries.drop_last()).insert(id, (parent_in(value), channel_name(id, value)))
    }
}

/// The channel with the given identifier and description, among the named ones.
pub open spec fn channel_of(
    entry: (u64, json::JsonView),
    names: Map<u64, (Option<u64>, Seq<char>)>,
) -> ChannelView {
    ChannelView {
        id: entry.0,
        parent_id: parent_in(entry.1),
        name: channel_name(entry.0, entry.1),
        path: channel_path(entry.0, names),
    }
}

/// The channels in the order of their descriptions.
pub open spec fn channels_in(entries: Seq<(u64, json::JsonView)>) -> Seq<ChannelView> {
    entries.map_values(|e: (u64, json::JsonView)| channel_of(e, names_in(entries)))
}

/// Whether channel `a` stands before channel `b` in a list: by path, and by
/// identifier where the paths are the same.
pub open spec fn channel_before(a: ChannelView, b: ChannelView) -> bool {
    text::text_before(a.path, b.path) || (a.path == b.path && a.id < b.id)
}

/// Whether no channel stands before an earlier one.
pub open spec fn is_ordered(channels: Seq<ChannelView>) -> bool {
    forall|i: int, j: int|
        0 <= i < j < channels.len() ==> !channel_before(
            #[trigger] channels[j],
            #[trigger] channels[i],
        )
}

/// Whether the list holds the channels of the descriptions, in order.
pub open spec fn lists_channels(
    list: Seq<ChannelView>,
    entries: Seq<(u64, json::JsonView)>,
) -> bool {
    &&& is_ordered(list)
    &&& list.to_multiset() == channels_in(entries).to_multiset()
}

/// Whether channel `a` stands before channel `b` in a list.
fn stands_before(a: &TeamSpeakChannelInfo, b: &TeamSpeakChannelInfo) -> (r: bool)
    ensures
        r == channel_before(a@, b@),
{
    text::str_before(a.path.as_str(), b.path.as_str()) || (text::str_eq(
        a.path.as_str(),
        b.path.as_str(),
    ) && a.id < b.id)
}

proof fn lemma_channel_before_transitive(a: ChannelView, b: ChannelView, c: ChannelView)
    requires
        channel_before(a, b),
        channel_before(b, c),
    ensures
        channel_before(a, c),
{
    if text::text_before(a.path, b.path) && text::text_before(b.path, c.path) {
        text::lemma_before_transitive(a.path, b.path, c.path);
    }
}

proof fn lemma_channel_before_asymmetric(a: ChannelView, b: ChannelView)
    requires
        channel_before(a, b),
    ensures
        !channel_before(b, a),
{
    if channel_before(b, a) {
        lemma_channel_before_transitive(a, b, a);
        text::lemma_before_irreflexive(a.path);
    }
}

/// Puts a channel into an ordered list, behind those that do not stand after
/// it.
fn insert_channel(list: &mut Vec<TeamSpeakChannelInfo>, channel: TeamSpeakChannelInfo)
    requires
        is_ordered(channel_views(old(list)@)),
    ensures
        is_ordered(channel_views(final(list)@)),
        channel_views(final(list)@).to_multiset() == channel_views(old(list)@).to_multiset().insert(
            channel@,
        ),
{
    let ghost before = channel_views(list@);
    let mut at: usize = 0;
    while at < list.len() && !stands_before(&channel, &list[at])
        invariant
            at <= list@.len(),
            before == channel_views(list@),
            forall|i: int| 0 <= i < at ==> !channel_before(channel@, #[trigger] before[i]),
        decreases list@.len() - at,
    {
        assert(before[at as int] == list@[at as int]@);
        at = at + 1;
    }
    let ghost x = channel@;
    list.insert(at, channel);
    proof {
        let after = channel_views(list@);
        assert(after =~= before.insert(at as int, x));
        broadcast use vstd::seq_lib::group_to_multiset_ensures;

        assert(after.to_multiset() =~= before.to_multiset().insert(x));
        assert forall|i: int, j: int| 0 <= i < j < after.len() implies !channel_before(
            #[trigger] after[j],
            #[trigger] after[i],
        ) by {
            if j == at {
                assert(after[i] == before[i]);
            } else if i == at {
                assert(after[j] == before[j - 1]);
                assert(channel_before(x, before[at as int]));
                if channel_before(before[j - 1], x) {
                    lemma_channel_before_transitive(before[j - 1], x, before[at as int]);
                    if j - 1 == at {
                        lemma_channel_before_asymmetric(before[j - 1], before[at as int]);
                    }
                }
            } else {
                let k = if i < at {
                    i
                } else {
                    i - 1
                };
                let l = if j < at {
                    j
                } else {
                    j - 1
                };
                assert(after[i] == before[k]);
                assert(after[j] == before[l]);
            }
        }
    }
}

/// The channels with the given identifiers and descriptions, in order.
pub fn collect_teamspeak_channels(entries: &Vec<(u64, JsonValue)>) -> (r: Vec<
    TeamSpeakChannelInfo,
>)
    ensures
        lists_channels(channel_views(r@), entry_views(entries@)),
{
    let ghost views = entry_views(entries@);
    let mut names: HashMap<u64, (Option<u64>, String)> = HashMap::new();
    assert(names_view(names@) =~= names_in(views.take(0)));
    for i in 0..entries.len()
        invariant
            views == entry_views(entries@),
            names_view(names@) == names_in(views.take(i as int)),
    {
        let id: u64 = entries[i].0;
        let parent = teamspeak_channel_parent_from_value(&entries[i].1);
        let name = name_or_made_up(id, &entries[i].1);
        proof {
            assert(views.take(i + 1).drop_last() =~= views.take(i as int));
            assert(views.take(i + 1).last() == views[i as int]);
        }
        let ghost before = names@;
        let ghost value = (parent, name);
        let _ = names.insert(id, (parent, name));
        assert(names_view(names@) =~= names_view(before).insert(id, (value.0, value.1@)));
    }
    assert(views.take(entries@.len() as int) =~= views);

    let mut list: Vec<TeamSpeakChannelInfo> = Vec::new();
    proof {
        broadcast use vstd::seq_lib::group_to_multiset_ensures;

        assert(channel_views(list@) =~= channels_in(views).take(0));
    }
    for i in 0..entries.len()
        invariant
            views == entry_views(entries@),
            names_view(names@) == names_in(views),
            is_ordered(channel_views(list@)),
            channel_views(list@).to_multiset() == channels_in(views).take(i as int).to_multiset(),
    {
        let id: u64 = entries[i].0;
        let channel = TeamSpeakChannelInfo {
            id,
            parent_id: teamspeak_channel_parent_from_value(&entries[i].1),
            name: name_or_made_up(id, &entries[i].1),
            path: build_teamspeak_channel_path(id, &names),
        };
        proof {
            broadcast use vstd::seq_lib::group_to_multiset_ensures;

            assert(views[i as int] == (entries@[i as int].0, entries@[i as int].1@));
            assert(channel@ == channels_in(views)[i as int]);
            assert(channels_in(views).take(i + 1) =~= channels_in(views).take(i as int).push(
                channel@,
            ));
        }
        insert_channel(&mut list, channel);
    }
    assert(channels_in(views).take(entries@.len() as int) =~= channels_in(views));
    list
}

/// The name of a channel: the one in its description, or one made of its
/// identifier.
fn name_or_made_up(id: u64, value: &JsonValue) -> (r: String)
    ensures
        r@ == channel_name(id, value@),
{
    match teamspeak_channel_name_from_value(value) {
        Some(name) => name,
        None => text::concat2("Channel ", text::decimal_string(id).as_str()),
    }
}

} // verus!
