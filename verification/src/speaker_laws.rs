//! What holds of the label that the voice of a speaker gets, and of the sources
//! of other audio.

use vstd::prelude::*;

use crate::channel_laws;
use crate::channels;
use crate::jobs;
use crate::json;
use crate::segmenter;
use crate::session;
use crate::speakers;
use crate::teamspeak;

verus! {

// ---------------------------------------------------------------------------
// Members of objects
// ---------------------------------------------------------------------------

/// A member of an object is the first one with the key; where none has the key
/// there is no such member.
pub proof fn member_is_the_first_with_the_key(
    members: Seq<(Seq<char>, json::JsonView)>,
    key: Seq<char>,
    i: int,
)
    requires
        0 <= i <= members.len(),
        forall|j: int| 0 <= j < i ==> (#[trigger] members[j]).0 != key,
        i < members.len() ==> members[i].0 == key,
    ensures
        i < members.len() ==> json::member(json::JsonView::Object(members), key) == Some(
            members[i].1,
        ),
        i == members.len() ==> json::member(json::JsonView::Object(members), key) is None,
    decreases members.len(),
{
    if i > 0 {
        assert(members[0].0 != key);
        let rest = members.drop_first();
        assert forall|j: int| 0 <= j < i - 1 implies (#[trigger] rest[j]).0 != key by {
            assert(rest[j] == members[j + 1]);
        }
        member_is_the_first_with_the_key(rest, key, i - 1);
    }
}

/// The text of a JSON text is itself, a natural number is itself, and no other
/// value is either.
pub proof fn values_are_read_as_what_they_are(value: json::JsonView, n: u64, s: Seq<char>)
    ensures
        json::text_of(value) == Some(s) <==> value == json::JsonView::Text(s),
        json::natural_of(value) == Some(n) <==> value == json::JsonView::Number(
            json::JsonNumber::Natural(n),
        ),
{
}

// ---------------------------------------------------------------------------
// Speakers
// ---------------------------------------------------------------------------

proof fn lemma_channel_with(list: Seq<channels::ChannelView>, id: u64, i: int)
    requires
        -1 <= i < list.len(),
        forall|j: int| i < j < list.len() ==> (#[trigger] list[j]).id != id,
        i >= 0 ==> list[i].id == id,
    ensures
        i >= 0 ==> teamspeak::channel_with(list, id) == Some(list[i]),
        i < 0 ==> teamspeak::channel_with(list, id) is None,
    decreases list.len(),
{
    if list.len() > 0 && i < list.len() - 1 {
        assert(list[list.len() - 1].id != id);
        let before = list.drop_last();
        assert forall|j: int| i < j < before.len() implies (#[trigger] before[j]).id != id by {
            assert(before[j] == list[j]);
        }
        lemma_channel_with(before, id, i);
    }
}

/// A speaker is labelled with the identifier and the name of the client and with
/// the identifier of its channel, and with the name and the path of that channel
/// where it is in the list.
pub proof fn speaker_is_labelled_with_client_and_channel(
    client: teamspeak::ClientView,
    list: Seq<channels::ChannelView>,
    i: int,
)
    requires
        0 <= i < list.len(),
        list[i].id == client.channel,
        forall|j: int| i < j < list.len() ==> (#[trigger] list[j]).id != client.channel,
    ensures
        ({
            let speaker = teamspeak::speaker_of(client, list);
            &&& speaker.client_id == client.id
            &&& speaker.client_name == client.name
            &&& speaker.channel_id == Some(client.channel)
            &&& speaker.channel_name == list[i].name
            &&& speaker.channel_path == list[i].path
        }),
{
    lemma_channel_with(list, client.channel, i);
}

/// A speaker in a channel that is not in the list has neither the name nor the
/// path of a channel.
pub proof fn speaker_in_unknown_channel_has_no_path(
    client: teamspeak::ClientView,
    list: Seq<channels::ChannelView>,
)
    requires
        forall|j: int| 0 <= j < list.len() ==> (#[trigger] list[j]).id != client.channel,
    ensures
        ({
            let speaker = teamspeak::speaker_of(client, list);
            &&& speaker.client_id == client.id
            &&& speaker.client_name == client.name
            &&& speaker.channel_id == Some(client.channel)
            &&& speaker.channel_name.len() == 0
            &&& speaker.channel_path.len() == 0
        }),
{
    lemma_channel_with(list, client.channel, -1);
}

proof fn lemma_speakers_of(
    clients: Seq<(u16, teamspeak::ClientView)>,
    list: Seq<channels::ChannelView>,
    id: u16,
    i: int,
)
    requires
        -1 <= i < clients.len(),
        i >= 0 ==> clients[i].0 == id,
        forall|j: int| i < j < clients.len() ==> (#[trigger] clients[j]).0 != id,
    ensures
        teamspeak::speakers_of(clients, list).dom().contains(id) <==> i >= 0,
        i >= 0 ==> teamspeak::speakers_of(clients, list)[id] == teamspeak::speaker_of(
            clients[i].1,
            list,
        ),
    decreases clients.len(),
{
    if clients.len() > 0 && i < clients.len() - 1 {
        assert(clients[clients.len() - 1].0 != id);
        let before = clients.drop_last();
        assert forall|j: int| i < j < before.len() implies (#[trigger] before[j]).0 != id by {
            assert(before[j] == clients[j]);
        }
        lemma_speakers_of(before, list, id, i);
    }
}

/// The voice of a client that the server knows is that of the client; the voice
/// of any other is that of an unknown client with its identifier.
pub proof fn voice_belongs_to_its_client(
    clients: Seq<(u16, teamspeak::ClientView)>,
    list: Seq<channels::ChannelView>,
    id: u16,
    i: int,
)
    requires
        -1 <= i < clients.len(),
        i >= 0 ==> clients[i].0 == id,
        forall|j: int| i < j < clients.len() ==> (#[trigger] clients[j]).0 != id,
    ensures
        ({
            let speaker = teamspeak::speaker_for(id, teamspeak::speakers_of(clients, list));
            &&& i >= 0 ==> speaker == teamspeak::speaker_of(clients[i].1, list)
            &&& i >= 0 ==> speaker.client_name == clients[i].1.name
            &&& i < 0 ==> {
                &&& speaker.client_id == id
                &&& speaker.client_name == "unknown"@
                &&& speaker.channel_id is None
                &&& speaker.channel_name.len() == 0
                &&& speaker.channel_path.len() == 0
            }
        }),
{
    lemma_speakers_of(clients, list, id, i);
}

/// An audio packet that the server passes on, spoken or whispered, carries the
/// voice of the client that it comes from; one to the server carries none.
pub proof fn packet_carries_the_voice_of_its_sender(from: u16)
    ensures
        teamspeak::sender_of(teamspeak::AudioOrigin::FromClient(from)) == Some(from),
        teamspeak::sender_of(teamspeak::AudioOrigin::WhisperFromClient(from)) == Some(from),
        teamspeak::sender_of(teamspeak::AudioOrigin::ToServer) is None,
{
}

/// The source of a speaker's voice names the server, the client and the channel,
/// under the keys that a transcript shows.
pub proof fn voice_source_names_client_and_channel(
    server_address: Seq<char>,
    speaker: teamspeak::SpeakerView,
)
    ensures
        ({
            let source = teamspeak::speaker_source(server_address, speaker);
            &&& source.source_type == "teamspeak"@
            &&& source.src == server_address
            &&& json::member(source.meta, "transport"@) == Some(json::JsonView::Text("teamspeak"@))
            &&& json::member(source.meta, "client_id"@) == Some(
                json::JsonView::Number(json::JsonNumber::Natural(speaker.client_id)),
            )
            &&& json::member(source.meta, "client_name"@) == Some(
                json::JsonView::Text(speaker.client_name),
            )
            &&& json::member(source.meta, "channel_id"@) == Some(
                match speaker.channel_id {
                    Some(id) => json::JsonView::Number(json::JsonNumber::Natural(id)),
                    None => json::JsonView::Null,
                },
            )
            &&& json::member(source.meta, "channel_name"@) == Some(
                json::JsonView::Text(speaker.channel_name),
            )
            &&& json::member(source.meta, "channel_path"@) == Some(
                json::JsonView::Text(speaker.channel_path),
            )
            &&& json::member(source.meta, "sample_rate_original"@) == Some(
                json::JsonView::Number(json::JsonNumber::Natural(48_000)),
            )
            &&& json::member(source.meta, "sample_rate"@) == Some(
                json::JsonView::Number(json::JsonNumber::Natural(16_000)),
            )
            &&& json::member(source.meta, "channels"@) == Some(
                json::JsonView::Number(json::JsonNumber::Natural(1)),
            )
        }),
{
    reveal_strlit("transport");
    reveal_strlit("client_id");
    reveal_strlit("client_name");
    reveal_strlit("channel_id");
    reveal_strlit("channel_name");
    reveal_strlit("channel_path");
    reveal_strlit("sample_rate_original");
    reveal_strlit("sample_rate");
    reveal_strlit("channels");
    assert("transport"@.len() == 9);
    assert("client_id"@.len() == 9);
    assert("client_name"@.len() == 11);
    assert("channel_id"@.len() == 10);
    assert("channel_name"@.len() == 12);
    assert("channel_path"@.len() == 12);
    assert("sample_rate_original"@.len() == 20);
    assert("sample_rate"@.len() == 11);
    assert("channels"@.len() == 8);
    assert("transport"@[0] == 't' && "client_id"@[0] == 'c');
    assert("channel_name"@[8] == 'n' && "channel_path"@[8] == 'p');
    let m = teamspeak::speaker_source(server_address, speaker).meta->Object_0;
    member_is_the_first_with_the_key(m, "transport"@, 0);
    member_is_the_first_with_the_key(m, "client_id"@, 1);
    member_is_the_first_with_the_key(m, "client_name"@, 2);
    member_is_the_first_with_the_key(m, "channel_id"@, 3);
    member_is_the_first_with_the_key(m, "channel_name"@, 4);
    member_is_the_first_with_the_key(m, "channel_path"@, 5);
    member_is_the_first_with_the_key(m, "sample_rate_original"@, 6);
    assert("client_name"@[0] == 'c' && "sample_rate"@[0] == 's');
    member_is_the_first_with_the_key(m, "sample_rate"@, 7);
    member_is_the_first_with_the_key(m, "channels"@, 8);
}

/// The source of audio from a TCP stream names the peer, or says that it is not
/// known, and the format of the stream.
pub proof fn stream_source_names_the_peer(peer: Seq<char>)
    ensures
        jobs::stream_source_of(Some(peer)).source_type == "stream"@,
        jobs::stream_source_of(Some(peer)).src == peer,
        jobs::stream_source_of(None).src == "unknown"@,
        jobs::stream_source_of(None).meta == jobs::stream_source_of(Some(peer)).meta,
        ({
            let meta = jobs::stream_source_of(Some(peer)).meta;
            &&& json::member(meta, "transport"@) == Some(json::JsonView::Text("tcp"@))
            &&& json::member(meta, "format"@) == Some(json::JsonView::Text("pcm_s16le"@))
            &&& json::member(meta, "sample_rate"@) == Some(
                json::JsonView::Number(json::JsonNumber::Natural(16_000)),
            )
            &&& json::member(meta, "channels"@) == Some(
                json::JsonView::Number(json::JsonNumber::Natural(1)),
            )
        }),
{
    reveal_strlit("transport");
    reveal_strlit("format");
    reveal_strlit("sample_rate");
    reveal_strlit("channels");
    assert("transport"@.len() == 9);
    assert("format"@.len() == 6);
    assert("sample_rate"@.len() == 11);
    assert("channels"@.len() == 8);
    let m = jobs::stream_source_of(Some(peer)).meta->Object_0;
    member_is_the_first_with_the_key(m, "transport"@, 0);
    member_is_the_first_with_the_key(m, "format"@, 1);
    member_is_the_first_with_the_key(m, "sample_rate"@, 2);
    member_is_the_first_with_the_key(m, "channels"@, 3);
}

/// The source of audio from a REST request names what the request named, the
/// format and the encoding of the audio, and its rate and channels.
pub proof fn rest_source_names_the_request(
    src: Seq<char>,
    format: Seq<char>,
    encoding: Seq<char>,
    sample_rate: u64,
    channels: u64,
)
    ensures
        ({
            let source = jobs::rest_source_of(
                src,
                format,
                encoding,
                sample_rate as nat,
                channels as nat,
            );
            &&& source.source_type == "rest"@
            &&& source.src == src
            &&& json::member(source.meta, "endpoint"@) == Some(
                json::JsonView::Text("/api/transcribe"@),
            )
            &&& json::member(source.meta, "format"@) == Some(json::JsonView::Text(format))
            &&& json::member(source.meta, "encoding"@) == Some(json::JsonView::Text(encoding))
            &&& json::member(source.meta, "sample_rate"@) == Some(
                json::JsonView::Number(json::JsonNumber::Natural(sample_rate)),
            )
            &&& json::member(source.meta, "channels"@) == Some(
                json::JsonView::Number(json::JsonNumber::Natural(channels)),
            )
        }),
{
    reveal_strlit("endpoint");
    reveal_strlit("format");
    reveal_strlit("encoding");
    reveal_strlit("sample_rate");
    reveal_strlit("channels");
    assert("endpoint"@.len() == 8);
    assert("format"@.len() == 6);
    assert("encoding"@.len() == 8);
    assert("sample_rate"@.len() == 11);
    assert("channels"@.len() == 8);
    assert("endpoint"@[1] == 'n' && "encoding"@[2] == 'c' && "endpoint"@[2] == 'd');
    assert("channels"@[0] == 'c' && "endpoint"@[0] == 'e' && "encoding"@[0] == 'e');
    let m = jobs::rest_source_of(
        src,
        format,
        encoding,
        sample_rate as nat,
        channels as nat,
    ).meta->Object_0;
    member_is_the_first_with_the_key(m, "endpoint"@, 0);
    member_is_the_first_with_the_key(m, "format"@, 1);
    member_is_the_first_with_the_key(m, "encoding"@, 2);
    member_is_the_first_with_the_key(m, "sample_rate"@, 3);
    member_is_the_first_with_the_key(m, "channels"@, 4);
}

proof fn lemma_names_in(entries: Seq<(u64, json::JsonView)>, i: int)
    requires
        0 <= i < entries.len(),
        channel_laws::ids_differ(entries),
    ensures
        channels::names_in(entries).dom().contains(entries[i].0),
        channels::names_in(entries)[entries[i].0] == (
            channels::parent_in(entries[i].1),
            channels::channel_name(entries[i].0, entries[i].1),
        ),
    decreases entries.len(),
{
    if i < entries.len() - 1 {
        let before = entries.drop_last();
        assert(entries[i].0 != entries[entries.len() - 1].0);
        assert(channel_laws::ids_differ(before)) by {
            assert forall|a: int, b: int| 0 <= a < b < before.len() implies (
            #[trigger] before[a]).0 != (#[trigger] before[b]).0 by {
                assert(before[a] == entries[a] && before[b] == entries[b]);
            }
        }
        lemma_names_in(before, i);
        assert(before[i] == entries[i]);
    }
}

proof fn lemma_listed(
    list: Seq<channels::ChannelView>,
    entries: Seq<(u64, json::JsonView)>,
    i: int,
) -> (k: int)
    requires
        channel_laws::ids_differ(entries),
        channels::lists_channels(list, entries),
        0 <= i < entries.len(),
    ensures
        0 <= k < list.len(),
        list[k].id == entries[i].0,
        list[k].name == channels::channel_name(entries[i].0, entries[i].1),
        list[k].path == channels::channel_path(entries[i].0, channels::names_in(entries)),
        list[k].parent_id == channels::parent_in(entries[i].1),
        forall|j: int| k < j < list.len() ==> (#[trigger] list[j]).id != entries[i].0,
{
    channel_laws::channel_list_is_complete(list, entries);
    let id = entries[i].0;
    let c = channels::channel_of(entries[i], channels::names_in(entries));
    assert(list.contains(c));
    let k = choose|k: int| 0 <= k < list.len() && list[k] == c;
    let last = lemma_last_with(list, id, k);
    lemma_listed_once(list, entries, list[last], i);
    last
}

/// The last place at which a channel with the identifier stands.
proof fn lemma_last_with(list: Seq<channels::ChannelView>, id: u64, k: int) -> (last: int)
    requires
        0 <= k < list.len(),
        list[k].id == id,
    ensures
        k <= last < list.len(),
        list[last].id == id,
        forall|j: int| last < j < list.len() ==> (#[trigger] list[j]).id != id,
    decreases list.len() - k,
{
    if exists|j: int| k < j < list.len() && (#[trigger] list[j]).id == id {
        let j = choose|j: int| k < j < list.len() && (#[trigger] list[j]).id == id;
        lemma_last_with(list, id, j)
    } else {
        k
    }
}

/// A listed channel with the identifier of a description is the channel of the
/// description.
proof fn lemma_listed_once(
    list: Seq<channels::ChannelView>,
    entries: Seq<(u64, json::JsonView)>,
    c: channels::ChannelView,
    i: int,
)
    requires
        channel_laws::ids_differ(entries),
        channels::lists_channels(list, entries),
        0 <= i < entries.len(),
        list.contains(c),
        c.id == entries[i].0,
    ensures
        c == channels::channel_of(entries[i], channels::names_in(entries)),
{
    broadcast use vstd::seq_lib::group_to_multiset_ensures;

    let all = channels::channels_in(entries);
    list.to_multiset_ensures();
    all.to_multiset_ensures();
    assert(list.to_multiset().count(c) > 0);
    assert(all.to_multiset().count(c) > 0);
    assert(all.contains(c));
    let m = choose|m: int| 0 <= m < all.len() && all[m] == c;
    assert(all[m].id == entries[m].0);
    if m < i {
        assert(entries[m].0 != entries[i].0);
    }
    if i < m {
        assert(entries[i].0 != entries[m].0);
    }
}

/// The voice of a client in a channel that the server lists is labelled with the
/// name and the path of that channel. The path of a channel at the top is its
/// name, and that of a channel below another one, which the server lists too and
/// which is not as deep as the limit, is the path of the other one, a slash and
/// the name.
pub proof fn voice_is_labelled_with_the_path_of_its_channel(
    list: Seq<channels::ChannelView>,
    entries: Seq<(u64, json::JsonView)>,
    client: teamspeak::ClientView,
    server_address: Seq<char>,
    i: int,
    parent: int,
)
    requires
        channel_laws::ids_differ(entries),
        channels::lists_channels(list, entries),
        0 <= i < entries.len(),
        client.channel == entries[i].0,
    ensures
        ({
            let names = channels::names_in(entries);
            let name = channels::channel_name(entries[i].0, entries[i].1);
            let meta = teamspeak::speaker_source(
                server_address,
                teamspeak::speaker_of(client, list),
            ).meta;
            let path = channels::channel_path(entries[i].0, names);
            &&& json::member(meta, "channel_name"@) == Some(json::JsonView::Text(name))
            &&& json::member(meta, "channel_path"@) == Some(json::JsonView::Text(path))
            &&& channels::parent_in(entries[i].1) is None ==> path == name
            &&& 0 <= parent < entries.len() && channels::parent_in(entries[i].1) == Some(
                entries[parent].0,
            ) && channels::ancestry(
                entries[parent].0,
                names,
                channels::MAX_PATH_PARTS as nat,
            ).len() < channels::MAX_PATH_PARTS ==> path == channels::channel_path(
                entries[parent].0,
                names,
            ) + "/"@ + name
        }),
{
    let names = channels::names_in(entries);
    let id = entries[i].0;
    let k = lemma_listed(list, entries, i);
    speaker_is_labelled_with_client_and_channel(client, list, k);
    voice_source_names_client_and_channel(
        server_address,
        teamspeak::speaker_of(client, list),
    );
    lemma_names_in(entries, i);
    if channels::parent_in(entries[i].1) is None {
        channel_laws::path_of_top_channel_is_its_name(id, names);
    }
    if 0 <= parent < entries.len() && channels::parent_in(entries[i].1) == Some(entries[parent].0)
        && channels::ancestry(entries[parent].0, names, channels::MAX_PATH_PARTS as nat).len()
        < channels::MAX_PATH_PARTS {
        lemma_names_in(entries, parent);
        channel_laws::path_extends_that_of_the_parent(id, entries[parent].0, names);
    }
}

/// A listed channel has the identifier, the parent and the name of its
/// description, and the path that leads to it.
pub proof fn listed_channel_is_as_described(
    list: Seq<channels::ChannelView>,
    entries: Seq<(u64, json::JsonView)>,
    c: channels::ChannelView,
    i: int,
)
    requires
        channel_laws::ids_differ(entries),
        channels::lists_channels(list, entries),
        0 <= i < entries.len(),
        list.contains(c),
        c.id == entries[i].0,
    ensures
        c.parent_id == channels::parent_in(entries[i].1),
        c.name == channels::channel_name(entries[i].0, entries[i].1),
        c.path == channels::channel_path(entries[i].0, channels::names_in(entries)),
        channels::names_in(entries)[c.id] == (c.parent_id, c.name),
{
    lemma_listed_once(list, entries, c, i);
    lemma_names_in(entries, i);
}

/// The name of a channel is the text under `name` in its description, or else
/// that under `channel_name`, or else made of its identifier.
pub proof fn channel_name_is_that_of_the_description(
    id: u64,
    value: json::JsonView,
    name: Seq<char>,
)
    ensures
        json::member(value, "name"@) == Some(json::JsonView::Text(name)) ==> channels::channel_name(
            id,
            value,
        ) == name,
        json::member(value, "name"@) is None && json::member(value, "channel_name"@) == Some(
            json::JsonView::Text(name),
        ) ==> channels::channel_name(id, value) == name,
        json::member(value, "name"@) is None && json::member(value, "channel_name"@) is None
            ==> channels::channel_name(id, value) == "Channel "@ + crate::text::decimal(id as nat),
{
}

/// The parent of a channel is the number under `parent` in its description, or
/// else under one of the other keys for it, or the number in the object that
/// stands there; zero is no parent.
pub proof fn channel_parent_is_that_of_the_description(value: json::JsonView, n: u64)
    ensures
        ({
            let number = json::JsonView::Number(json::JsonNumber::Natural(n));
            let parent = if n == 0 {
                None::<u64>
            } else {
                Some(n)
            };
            let found = channels::parent_in(value);
            let by_parent = json::member(value, "parent"@);
            let by_parent_id = json::member(value, "parent_id"@);
            let by_pid = json::member(value, "pid"@);
            let by_channel = json::member(value, "channel_parent_id"@);
            &&& by_parent == Some(number) ==> found == parent
            &&& by_parent is None && by_parent_id == Some(number) ==> found == parent
            &&& by_parent is None && by_parent_id is None && by_pid == Some(number) ==> found
                == parent
            &&& by_parent is None && by_parent_id is None && by_pid is None && by_channel == Some(
                number,
            ) ==> found == parent
            &&& by_parent is None && by_parent_id is None && by_pid is None && by_channel is None
                ==> found is None
            &&& by_parent matches Some(object) ==> {
                let first = json::member(object, "0"@);
                &&& first == Some(number) ==> found == parent
                &&& first is None && json::member(object, "id"@) == Some(number) ==> found == parent
            }
        }),
{
}

/// A speaker who is heard again goes on with the segment under way, now from the
/// source that is given; one who is heard for the first time starts with
/// nothing.
pub proof fn speaker_goes_on_where_it_was<T>(
    segmenters: Map<u16, segmenter::SegmenterView<T>>,
    client_id: u16,
    source: jobs::SourceView,
)
    ensures
        ({
            let s = speakers::segmenter_of(segmenters, client_id, source);
            &&& s.source == source
            &&& segmenters.dom().contains(client_id) ==> {
                let before = segmenters[client_id];
                &&& s.segment == before.segment
                &&& s.pre_roll == before.pre_roll
                &&& s.pending == before.pending
                &&& s.start == before.start
                &&& s.seen == before.seen
                &&& s.silence == before.silence
                &&& s.in_speech == before.in_speech
                &&& s.context == before.context
            }
            &&& !segmenters.dom().contains(client_id) ==> {
                &&& s.segment.len() == 0
                &&& s.pre_roll.len() == 0
                &&& s.pending.len() == 0
                &&& s.seen == 0
                &&& !s.in_speech
                &&& s.context is None
            }
        }),
{
}

/// The channel that the receiver itself is in is that of its own client.
pub proof fn own_client_is_found(
    clients: Seq<(u16, teamspeak::ClientView)>,
    id: u16,
    i: int,
)
    requires
        -1 <= i < clients.len(),
        i >= 0 ==> clients[i].0 == id,
        forall|j: int| i < j < clients.len() ==> (#[trigger] clients[j]).0 != id,
    ensures
        i >= 0 ==> session::client_with(clients, id) == Some(clients[i].1),
        i < 0 ==> session::client_with(clients, id) is None,
    decreases clients.len(),
{
    if clients.len() > 0 && i < clients.len() - 1 {
        assert(clients[clients.len() - 1].0 != id);
        let before = clients.drop_last();
        assert forall|j: int| i < j < before.len() implies (#[trigger] before[j]).0 != id by {
            assert(before[j] == clients[j]);
        }
        own_client_is_found(before, id, i);
    }
}

/// The receiver is in the listed channel that its own client is in, and in none
/// that is known where its client or that channel is not listed.
pub proof fn own_channel_is_that_of_the_own_client(
    clients: Seq<(u16, teamspeak::ClientView)>,
    id: u16,
    i: int,
    list: Seq<channels::ChannelView>,
    k: int,
)
    requires
        -1 <= i < clients.len(),
        i >= 0 ==> clients[i].0 == id,
        forall|j: int| i < j < clients.len() ==> (#[trigger] clients[j]).0 != id,
        -1 <= k < list.len(),
        i >= 0 && k >= 0 ==> list[k].id == clients[i].1.channel,
        i >= 0 ==> forall|j: int|
            k < j < list.len() ==> (#[trigger] list[j]).id != clients[i].1.channel,
    ensures
        i >= 0 && k >= 0 ==> session::own_channel_of(clients, id, list) == Some(list[k]),
        i < 0 || k < 0 ==> session::own_channel_of(clients, id, list) is None,
{
    own_client_is_found(clients, id, i);
    if i >= 0 {
        lemma_channel_with(list, clients[i].1.channel, k);
    }
}

} // verus!
