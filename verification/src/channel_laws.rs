//! What holds of the channels of a TeamSpeak server and of their paths.

use vstd::prelude::*;

use crate::channels;
use crate::json;
use crate::text;
use crate::text_laws;

verus! {

/// A path has at most as many names as the limit allows, however the channels
/// are linked, even in a circle.
pub proof fn ancestry_is_limited(
    id: u64,
    names: Map<u64, (Option<u64>, Seq<char>)>,
    limit: nat,
)
    ensures
        channels::ancestry(id, names, limit).len() <= limit,
    decreases limit,
{
    if limit > 0 && names.dom().contains(id) {
        if let Some(p) = names[id].0 {
            ancestry_is_limited(p, names, (limit - 1) as nat);
        }
    }
}

proof fn lemma_short_ancestry(
    id: u64,
    names: Map<u64, (Option<u64>, Seq<char>)>,
    limit: nat,
)
    requires
        channels::ancestry(id, names, limit).len() < limit,
    ensures
        channels::ancestry(id, names, (limit - 1) as nat) == channels::ancestry(id, names, limit),
    decreases limit,
{
    if names.dom().contains(id) {
        if let Some(p) = names[id].0 {
            lemma_short_ancestry(p, names, (limit - 1) as nat);
        }
    }
}

/// A channel without a parent has its name as its path.
pub proof fn path_of_top_channel_is_its_name(
    id: u64,
    names: Map<u64, (Option<u64>, Seq<char>)>,
)
    requires
        names.dom().contains(id),
        names[id].0 is None,
    ensures
        channels::channel_path(id, names) == names[id].1,
{
}

/// The path of a channel below another is the path of the other, a slash and
/// its name, where the other is known and is not as deep as the limit.
pub proof fn path_extends_that_of_the_parent(
    id: u64,
    parent: u64,
    names: Map<u64, (Option<u64>, Seq<char>)>,
)
    requires
        names.dom().contains(id),
        names.dom().contains(parent),
        names[id].0 == Some(parent),
        channels::ancestry(parent, names, channels::MAX_PATH_PARTS as nat).len()
            < channels::MAX_PATH_PARTS,
    ensures
        channels::channel_path(id, names) == channels::channel_path(parent, names) + "/"@
            + names[id].1,
{
    let limit = channels::MAX_PATH_PARTS as nat;
    lemma_short_ancestry(parent, names, limit);
    let above = channels::ancestry(parent, names, limit);
    let all = channels::ancestry(id, names, limit);
    assert(all == above.push(names[id].1));
    assert(all.drop_last() =~= above);
    assert(above.len() > 0);
}

// ---------------------------------------------------------------------------
// The order of the list
// ---------------------------------------------------------------------------

/// Whether no two descriptions have the same identifier.
pub open spec fn ids_differ(entries: Seq<(u64, json::JsonView)>) -> bool {
    forall|i: int, j: int|
        0 <= i < j < entries.len() ==> (#[trigger] entries[i]).0 != (#[trigger] entries[j]).0
}

/// Whether an identifier tells which of the channels it is.
spec fn ids_tell(list: Seq<channels::ChannelView>) -> bool {
    forall|a: channels::ChannelView, b: channels::ChannelView|
        list.contains(a) && list.contains(b) && a.id == b.id ==> a == b
}

proof fn lemma_same_first(x: Seq<channels::ChannelView>, y: Seq<channels::ChannelView>)
    requires
        x.len() > 0,
        x.to_multiset() == y.to_multiset(),
        channels::is_ordered(x),
        channels::is_ordered(y),
        ids_tell(x),
    ensures
        y.len() == x.len(),
        x[0] == y[0],
{
    broadcast use vstd::seq_lib::group_to_multiset_ensures;

    x.to_multiset_ensures();
    y.to_multiset_ensures();
    assert(x.contains(x[0]));
    assert(x.to_multiset().count(x[0]) > 0);
    assert(y.contains(y[0]));
    assert(y.to_multiset().count(y[0]) > 0);
    assert(y.contains(x[0]));
    assert(x.contains(y[0]));
    let k = choose|k: int| 0 <= k < y.len() && y[k] == x[0];
    let m = choose|m: int| 0 <= m < x.len() && x[m] == y[0];
    if k > 0 && m > 0 {
        assert(!channels::channel_before(y[k], y[0]));
        assert(!channels::channel_before(x[m], x[0]));
        text::lemma_before_total(x[0].path, y[0].path);
        assert(x[0].path == y[0].path);
        assert(x[0].id == y[0].id);
    }
}

proof fn lemma_same_list(x: Seq<channels::ChannelView>, y: Seq<channels::ChannelView>)
    requires
        x.to_multiset() == y.to_multiset(),
        channels::is_ordered(x),
        channels::is_ordered(y),
        ids_tell(x),
    ensures
        x == y,
    decreases x.len(),
{
    broadcast use vstd::seq_lib::group_to_multiset_ensures;

    if x.len() == 0 {
        assert(y.to_multiset().len() == 0);
        assert(x =~= y);
    } else {
        lemma_same_first(x, y);
        let xs = x.drop_first();
        let ys = y.drop_first();
        assert(xs =~= x.remove(0));
        assert(ys =~= y.remove(0));
        assert(xs.to_multiset() =~= ys.to_multiset());
        assert forall|i: int, j: int| 0 <= i < j < xs.len() implies !channels::channel_before(
            #[trigger] xs[j],
            #[trigger] xs[i],
        ) by {
            assert(xs[j] == x[j + 1] && xs[i] == x[i + 1]);
        }
        assert forall|i: int, j: int| 0 <= i < j < ys.len() implies !channels::channel_before(
            #[trigger] ys[j],
            #[trigger] ys[i],
        ) by {
            assert(ys[j] == y[j + 1] && ys[i] == y[i + 1]);
        }
        assert forall|a: channels::ChannelView, b: channels::ChannelView|
            xs.contains(a) && xs.contains(b) && a.id == b.id implies a == b by {
            let i = choose|i: int| 0 <= i < xs.len() && xs[i] == a;
            let j = choose|j: int| 0 <= j < xs.len() && xs[j] == b;
            assert(x[i + 1] == a && x[j + 1] == b);
            assert(x.contains(a) && x.contains(b));
        }
        lemma_same_list(xs, ys);
        assert(x =~= seq![x[0]] + xs);
        assert(y =~= seq![y[0]] + ys);
    }
}

proof fn lemma_names(entries: Seq<(u64, json::JsonView)>)
    requires
        ids_differ(entries),
    ensures
        forall|i: int|
            0 <= i < entries.len() ==> {
                let (id, value) = #[trigger] entries[i];
                &&& channels::names_in(entries).dom().contains(id)
                &&& channels::names_in(entries)[id] == (
                    channels::parent_in(value),
                    channels::channel_name(id, value),
                )
            },
        forall|id: u64| #[trigger]
            channels::names_in(entries).dom().contains(id) ==> exists|i: int|
                0 <= i < entries.len() && (#[trigger] entries[i]).0 == id,
    decreases entries.len(),
{
    if entries.len() > 0 {
        let rest = entries.drop_last();
        assert forall|i: int, j: int| 0 <= i < j < rest.len() implies (#[trigger] rest[i]).0 != (
        #[trigger] rest[j]).0 by {
            assert(rest[i] == entries[i] && rest[j] == entries[j]);
        }
        lemma_names(rest);
        assert forall|i: int| 0 <= i < entries.len() implies {
            let (id, value) = #[trigger] entries[i];
            &&& channels::names_in(entries).dom().contains(id)
            &&& channels::names_in(entries)[id] == (
                channels::parent_in(value),
                channels::channel_name(id, value),
            )
        } by {
            if i < rest.len() {
                assert(rest[i] == entries[i]);
                assert(entries[i].0 != entries[entries.len() - 1].0);
            }
        }
        assert forall|id: u64| #[trigger]
            channels::names_in(entries).dom().contains(id) implies exists|i: int|
            0 <= i < entries.len() && (#[trigger] entries[i]).0 == id by {
            if id == entries.last().0 {
                assert(entries[entries.len() - 1].0 == id);
            } else {
                assert(channels::names_in(rest).dom().contains(id));
                let i = choose|i: int| 0 <= i < rest.len() && (#[trigger] rest[i]).0 == id;
                assert(entries[i] == rest[i]);
            }
        }
    }
}

proof fn lemma_shuffled_ids(
    entries: Seq<(u64, json::JsonView)>,
    shuffled: Seq<(u64, json::JsonView)>,
)
    requires
        ids_differ(entries),
        entries.to_multiset() == shuffled.to_multiset(),
    ensures
        ids_differ(shuffled),
        forall|e: (u64, json::JsonView)| #[trigger] entries.contains(e) <==> shuffled.contains(e),
{
    entries.to_multiset_ensures();
    shuffled.to_multiset_ensures();
    assert forall|e: (u64, json::JsonView)| #[trigger] entries.contains(e) <==> shuffled.contains(
        e,
    ) by {
        assert(entries.contains(e) <==> entries.to_multiset().count(e) > 0);
        assert(shuffled.contains(e) <==> shuffled.to_multiset().count(e) > 0);
    }
    assert(entries.no_duplicates());
    entries.lemma_multiset_has_no_duplicates();
    assert(shuffled.no_duplicates()) by {
        shuffled.lemma_multiset_has_no_duplicates_conv();
    }
    assert forall|i: int, j: int| 0 <= i < j < shuffled.len() implies (#[trigger] shuffled[i]).0
        != (#[trigger] shuffled[j]).0 by {
        assert(entries.contains(shuffled[i]) && entries.contains(shuffled[j]));
        let a = choose|a: int| 0 <= a < entries.len() && entries[a] == shuffled[i];
        let b = choose|b: int| 0 <= b < entries.len() && entries[b] == shuffled[j];
        assert(shuffled[i] != shuffled[j]);
        if a < b {
            assert(entries[a].0 != entries[b].0);
        } else {
            assert(entries[b].0 != entries[a].0);
        }
    }
}

proof fn lemma_shuffled_names(
    entries: Seq<(u64, json::JsonView)>,
    shuffled: Seq<(u64, json::JsonView)>,
)
    requires
        ids_differ(entries),
        ids_differ(shuffled),
        forall|e: (u64, json::JsonView)| #[trigger] entries.contains(e) <==> shuffled.contains(e),
    ensures
        channels::names_in(entries) == channels::names_in(shuffled),
{
    let a = channels::names_in(entries);
    let b = channels::names_in(shuffled);
    lemma_names(entries);
    lemma_names(shuffled);
    assert forall|id: u64| a.dom().contains(id) implies b.dom().contains(id) && a[id] == b[id] by {
        let i = choose|i: int| 0 <= i < entries.len() && (#[trigger] entries[i]).0 == id;
        assert(entries.contains(entries[i]));
        let j = choose|j: int| 0 <= j < shuffled.len() && shuffled[j] == entries[i];
        assert(shuffled[j].0 == id);
    }
    assert forall|id: u64| b.dom().contains(id) implies a.dom().contains(id) by {
        let j = choose|j: int| 0 <= j < shuffled.len() && (#[trigger] shuffled[j]).0 == id;
        assert(shuffled.contains(shuffled[j]));
        assert(entries.contains(shuffled[j]));
        let i = choose|i: int| 0 <= i < entries.len() && entries[i] == shuffled[j];
        assert(entries[i].0 == id);
    }
    assert(a =~= b);
}

proof fn lemma_channels_no_duplicates(entries: Seq<(u64, json::JsonView)>)
    requires
        ids_differ(entries),
    ensures
        channels::channels_in(entries).no_duplicates(),
{
    let all = channels::channels_in(entries);
    assert forall|i: int, j: int| 0 <= i < all.len() && 0 <= j < all.len() && i != j implies all[i]
        != all[j] by {
        assert(all[i].id == entries[i].0 && all[j].id == entries[j].0);
    }
}

/// The list of the channels of a server is the same in whatever order the
/// server describes them, where no two have the same identifier.
pub proof fn channel_list_is_one(
    list: Seq<channels::ChannelView>,
    other: Seq<channels::ChannelView>,
    entries: Seq<(u64, json::JsonView)>,
    shuffled: Seq<(u64, json::JsonView)>,
)
    requires
        ids_differ(entries),
        entries.to_multiset() == shuffled.to_multiset(),
        channels::lists_channels(list, entries),
        channels::lists_channels(other, shuffled),
    ensures
        list == other,
{
    lemma_shuffled_ids(entries, shuffled);
    lemma_shuffled_names(entries, shuffled);
    lemma_channels_no_duplicates(entries);
    lemma_channels_no_duplicates(shuffled);
    let all = channels::channels_in(entries);
    let all2 = channels::channels_in(shuffled);
    all.to_multiset_ensures();
    all2.to_multiset_ensures();
    all.lemma_multiset_has_no_duplicates();
    all2.lemma_multiset_has_no_duplicates();
    assert forall|c: channels::ChannelView| all.to_multiset().count(c) == all2.to_multiset().count(
        c,
    ) by {
        if all.contains(c) {
            let i = choose|i: int| 0 <= i < all.len() && all[i] == c;
            assert(entries.contains(entries[i]));
            let j = choose|j: int| 0 <= j < shuffled.len() && shuffled[j] == entries[i];
            assert(all2[j] == c);
            assert(all2.contains(c));
        }
        if all2.contains(c) {
            let j = choose|j: int| 0 <= j < all2.len() && all2[j] == c;
            assert(shuffled.contains(shuffled[j]));
            assert(entries.contains(shuffled[j]));
            let i = choose|i: int| 0 <= i < entries.len() && entries[i] == shuffled[j];
            assert(all[i] == c);
            assert(all.contains(c));
        }
        assert(all.contains(c) <==> all.to_multiset().count(c) > 0);
        assert(all2.contains(c) <==> all2.to_multiset().count(c) > 0);
        assert(all.to_multiset().contains(c) ==> all.to_multiset().count(c) == 1);
        assert(all2.to_multiset().contains(c) ==> all2.to_multiset().count(c) == 1);
    }
    assert(all.to_multiset() =~= all2.to_multiset());
    list.to_multiset_ensures();
    assert forall|a: channels::ChannelView, b: channels::ChannelView|
        list.contains(a) && list.contains(b) && a.id == b.id implies a == b by {
        assert(list.to_multiset().count(a) > 0 && list.to_multiset().count(b) > 0);
        assert(all.contains(a) && all.contains(b));
        let i = choose|i: int| 0 <= i < all.len() && all[i] == a;
        let j = choose|j: int| 0 <= j < all.len() && all[j] == b;
        assert(all[i].id == entries[i].0 && all[j].id == entries[j].0);
    }
    lemma_same_list(list, other);
}

/// The list has one channel for each description, and each channel of the list
/// has the path that its description leads to.
pub proof fn channel_list_is_complete(
    list: Seq<channels::ChannelView>,
    entries: Seq<(u64, json::JsonView)>,
)
    requires
        channels::lists_channels(list, entries),
    ensures
        list.len() == entries.len(),
        forall|i: int|
            0 <= i < entries.len() ==> list.contains(
                channels::channel_of(#[trigger] entries[i], channels::names_in(entries)),
            ),
        forall|c: channels::ChannelView| #[trigger]
            list.contains(c) ==> c.path == channels::channel_path(
                c.id,
                channels::names_in(entries),
            ),
{
    broadcast use vstd::seq_lib::group_to_multiset_ensures;

    let all = channels::channels_in(entries);
    assert(list.to_multiset().len() == all.to_multiset().len());
    assert forall|i: int| 0 <= i < entries.len() implies list.contains(
        channels::channel_of(#[trigger] entries[i], channels::names_in(entries)),
    ) by {
        assert(all.contains(all[i]));
        assert(all.to_multiset().count(all[i]) > 0);
    }
    assert forall|c: channels::ChannelView| #[trigger] list.contains(c) implies c.path
        == channels::channel_path(c.id, channels::names_in(entries)) by {
        assert(list.to_multiset().count(c) > 0);
        assert(all.contains(c));
    }
}

/// Of two channels in the list the first has the path that comes first: with the
/// lesser character where the paths first differ, or with a path that is the start
/// of the other. Where the paths are the same it has no greater identifier.
pub proof fn channels_are_listed_by_path_and_identifier(
    list: Seq<channels::ChannelView>,
    entries: Seq<(u64, json::JsonView)>,
    i: int,
    j: int,
    common: Seq<char>,
    a: Seq<char>,
    b: Seq<char>,
)
    requires
        channels::lists_channels(list, entries),
        0 <= i < j < list.len(),
        list[i].path == common + a,
        list[j].path == common + b,
    ensures
        a.len() > 0 && b.len() > 0 && a[0] != b[0] ==> a[0] < b[0],
        b.len() == 0 ==> a.len() == 0,
        a == b ==> list[i].id <= list[j].id,
{
    let p = list[i];
    let q = list[j];
    assert(!channels::channel_before(q, p));
    text_laws::texts_are_ordered_by_the_first_difference(common, b, a);
}

/// Whether `chain` leads from a channel without a known parent down to its last
/// one, each the parent of the next.
pub open spec fn leads_down(
    chain: Seq<u64>,
    names: Map<u64, (Option<u64>, Seq<char>)>,
) -> bool {
    &&& chain.len() > 0
    &&& forall|i: int| 0 <= i < chain.len() ==> names.dom().contains(#[trigger] chain[i])
    &&& (names[chain[0]].0 matches Some(p) ==> !names.dom().contains(p))
    &&& forall|i: int|
        0 < i < chain.len() ==> names[#[trigger] chain[i]].0 == Some(chain[i - 1])
}

proof fn lemma_ancestry_of_chain(
    chain: Seq<u64>,
    names: Map<u64, (Option<u64>, Seq<char>)>,
    limit: nat,
)
    requires
        leads_down(chain, names),
        chain.len() <= limit,
    ensures
        channels::ancestry(chain.last(), names, limit) == chain.map_values(
            |id: u64| names[id].1,
        ),
    decreases chain.len(),
{
    let n = chain.len() - 1;
    assert(names.dom().contains(chain[n]));
    if n > 0 {
        let above = chain.drop_last();
        assert(names[chain[n]].0 == Some(chain[n - 1]));
        assert(above.last() == chain[n - 1]);
        assert forall|i: int| 0 <= i < above.len() implies names.dom().contains(
            #[trigger] above[i],
        ) by {
            assert(above[i] == chain[i]);
        }
        assert forall|i: int| 0 < i < above.len() implies names[#[trigger] above[i]].0 == Some(
            above[i - 1],
        ) by {
            assert(above[i] == chain[i]);
        }
        lemma_ancestry_of_chain(above, names, (limit - 1) as nat);
    } else if let Some(p) = names[chain[0]].0 {
        assert(channels::ancestry(p, names, (limit - 1) as nat).len() == 0);
    }
    assert(channels::ancestry(chain.last(), names, limit) =~= chain.map_values(
        |id: u64| names[id].1,
    ));
}

/// The path of a channel is made of the names from its top channel down to its
/// own, up to 64 of them, with slashes between them.
pub proof fn path_has_all_names_from_the_top(
    chain: Seq<u64>,
    names: Map<u64, (Option<u64>, Seq<char>)>,
)
    requires
        leads_down(chain, names),
        chain.len() <= 64,
    ensures
        channels::channel_path(chain.last(), names) == text::join(
            chain.map_values(|id: u64| names[id].1),
            "/"@,
        ),
{
    lemma_ancestry_of_chain(chain, names, 64);
}

} // verus!
