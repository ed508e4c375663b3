//! JSON values.

use vstd::prelude::*;

use crate::floats::F64Bits;
use crate::text;

verus! {

/// A JSON number: an integer that is not negative, a negative integer, or a
/// floating-point number.
#[derive(Clone, Copy, Debug, PartialEq, Eq, Structural)]
pub enum JsonNumber {
    Natural(u64),
    Negative(i64),
    Float(F64Bits),
}

/// A JSON value. The members of an object stand in the order in which they
/// were put in.
#[derive(Debug)]
pub enum JsonValue {
    Null,
    Bool(bool),
    Number(JsonNumber),
    Text(String),
    Array(Vec<JsonValue>),
    Object(Vec<(String, JsonValue)>),
}

/// The contents of a [`JsonValue`].
#[verifier::ext_equal]
pub enum JsonView {
    Null,
    Bool(bool),
    Number(JsonNumber),
    Text(Seq<char>),
    Array(Seq<JsonView>),
    Object(Seq<(Seq<char>, JsonView)>),
}

impl JsonValue {
    /// The contents of the value.
    pub open spec fn view(&self) -> JsonView
        decreases self,
    {
        match self {
            JsonValue::Null => JsonView::Null,
            JsonValue::Bool(b) => JsonView::Bool(*b),
            JsonValue::Number(n) => JsonView::Number(*n),
            JsonValue::Text(s) => JsonView::Text(s@),
            JsonValue::Array(items) => JsonView::Array(
                Seq::new(
                    items@.len(),
                    |i: int|
                        if 0 <= i < items@.len() {
                            items@[i].view()
                        } else {
                            JsonView::Null
                        },
                ),
            ),
            JsonValue::Object(members) => JsonView::Object(
                Seq::new(
                    members@.len(),
                    |i: int|
                        if 0 <= i < members@.len() {
                            (members@[i].0@, members@[i].1.view())
                        } else {
                            (Seq::<char>::empty(), JsonView::Null)
                        },
                ),
            ),
        }
    }
}

impl Clone for JsonValue {
    fn clone(&self) -> (r: Self)
        ensures
            r.view() == self.view(),
        decreases self,
    {
        match self {
            JsonValue::Null => JsonValue::Null,
            JsonValue::Bool(b) => JsonValue::Bool(*b),
            JsonValue::Number(n) => JsonValue::Number(*n),
            JsonValue::Text(s) => JsonValue::Text(s.clone()),
            JsonValue::Array(items) => {
                let mut out: Vec<JsonValue> = Vec::new();
                for i in 0..items.len()
                    invariant
                        *self == JsonValue::Array(*items),
                        out@.len() == i,
                        forall|j: int|
                            0 <= j < i ==> (#[trigger] out@[j]).view() == items@[j].view(),
                {
                    proof {
                        assert(decreases_to!(*self => self->Array_0));
                        assert(decreases_to!(*items => items@));
                        assert(decreases_to!(items@ => items@[i as int]));
                    }
                    out.push(items[i].clone());
                }
                let r = JsonValue::Array(out);
                assert(r.view()->Array_0 =~= self.view()->Array_0);
                r
            },
            JsonValue::Object(members) => {
                let mut out: Vec<(String, JsonValue)> = Vec::new();
                for i in 0..members.len()
                    invariant
                        *self == JsonValue::Object(*members),
                        out@.len() == i,
                        forall|j: int|
                            0 <= j < i ==> (#[trigger] out@[j]).0@ == members@[j].0@
                                && out@[j].1.view() == members@[j].1.view(),
                {
                    proof {
                        assert(decreases_to!(*self => self->Object_0));
                        assert(decreases_to!(*members => members@));
                        assert(decreases_to!(members@ => members@[i as int]));
                        assert(decreases_to!(members@[i as int] => members@[i as int].1));
                    }
                    out.push((members[i].0.clone(), members[i].1.clone()));
                }
                let r = JsonValue::Object(out);
                assert(r.view()->Object_0 =~= self.view()->Object_0);
                r
            },
        }
    }
}

// ---------------------------------------------------------------------------
// Building
// ---------------------------------------------------------------------------

/// The contents of the members of an object.
pub open spec fn members_view(members: Seq<(String, JsonValue)>) -> Seq<(Seq<char>, JsonView)> {
    members.map_values(|m: (String, JsonValue)| (m.0@, m.1@))
}

/// Adds a member to those of an object.
pub fn put(members: &mut Vec<(String, JsonValue)>, key: &str, value: JsonValue)
    ensures
        members_view(final(members)@) == members_view(old(members)@).push((key@, value@)),
{
    let ghost before = members@;
    members.push((key.to_owned(), value));
    assert(members_view(members@) =~= members_view(before).push((key@, value@)));
}

/// Adds a member that is a text.
pub fn put_text(members: &mut Vec<(String, JsonValue)>, key: &str, value: &str)
    ensures
        members_view(final(members)@) == members_view(old(members)@).push(
            (key@, JsonView::Text(value@)),
        ),
{
    put(members, key, JsonValue::Text(value.to_owned()));
}

/// Adds a member that is a natural number.
pub fn put_natural(members: &mut Vec<(String, JsonValue)>, key: &str, value: u64)
    ensures
        members_view(final(members)@) == members_view(old(members)@).push(
            (key@, JsonView::Number(JsonNumber::Natural(value))),
        ),
{
    put(members, key, JsonValue::Number(JsonNumber::Natural(value)));
}

/// Adds a member that is a truth value.
pub fn put_bool(members: &mut Vec<(String, JsonValue)>, key: &str, value: bool)
    ensures
        members_view(final(members)@) == members_view(old(members)@).push(
            (key@, JsonView::Bool(value)),
        ),
{
    put(members, key, JsonValue::Bool(value));
}

/// An optional natural number as a JSON value.
pub open spec fn optional_natural(value: Option<u64>) -> JsonView {
    match value {
        Some(n) => JsonView::Number(JsonNumber::Natural(n)),
        None => JsonView::Null,
    }
}

/// Adds a member that is a natural number or null.
pub fn put_optional_natural(members: &mut Vec<(String, JsonValue)>, key: &str, value: Option<u64>)
    ensures
        members_view(final(members)@) == members_view(old(members)@).push(
            (key@, optional_natural(value)),
        ),
{
    match value {
        Some(n) => put_natural(members, key, n),
        None => put(members, key, JsonValue::Null),
    }
}

/// An optional text as a JSON value.
pub open spec fn optional_text(value: Option<Seq<char>>) -> JsonView {
    match value {
        Some(s) => JsonView::Text(s),
        None => JsonView::Null,
    }
}

/// Adds a member that is a text or null.
pub fn put_optional_text(
    members: &mut Vec<(String, JsonValue)>,
    key: &str,
    value: &Option<String>,
)
    ensures
        members_view(final(members)@) == members_view(old(members)@).push(
            (key@, optional_text(text::opt_view(*value))),
        ),
{
    match value {
        Some(s) => put_text(members, key, s.as_str()),
        None => put(members, key, JsonValue::Null),
    }
}

/// The object with the given members.
pub fn object(members: Vec<(String, JsonValue)>) -> (r: JsonValue)
    ensures
        r@ == JsonView::Object(members_view(members@)),
{
    let r = JsonValue::Object(members);
    assert(r@->Object_0 =~= members_view(members@));
    r
}

/// No members.
pub fn no_members() -> (r: Vec<(String, JsonValue)>)
    ensures
        members_view(r@) == Seq::<(Seq<char>, JsonView)>::empty(),
{
    let r: Vec<(String, JsonValue)> = Vec::new();
    assert(members_view(r@) =~= Seq::<(Seq<char>, JsonView)>::empty());
    r
}

// ---------------------------------------------------------------------------
// Reading
// ---------------------------------------------------------------------------

/// The value of the first member with the given key.
pub open spec fn member_of(members: Seq<(Seq<char>, JsonView)>, key: Seq<char>) -> Option<JsonView>
    decreases members.len(),
{
    if members.len() == 0 {
        None
    } else if members[0].0 == key {
        Some(members[0].1)
    } else {
        member_of(members.drop_first(), key)
    }
}

/// The value of the first member with the given key, where the value is an
/// object.
pub open spec fn member(value: JsonView, key: Seq<char>) -> Option<JsonView> {
    match value {
        JsonView::Object(members) => member_of(members, key),
        _ => None,
    }
}

/// The value as a natural number.
pub open spec fn natural_of(value: JsonView) -> Option<u64> {
    match value {
        JsonView::Number(JsonNumber::Natural(n)) => Some(n),
        _ => None,
    }
}

/// The value as a text.
pub open spec fn text_of(value: JsonView) -> Option<Seq<char>> {
    match value {
        JsonView::Text(s) => Some(s),
        _ => None,
    }
}

/// The contents of an optional value.
pub open spec fn opt_json_view(value: Option<&JsonValue>) -> Option<JsonView> {
    match value {
        Some(v) => Some(v@),
        None => None,
    }
}

proof fn lemma_member_of_skip(members: Seq<(Seq<char>, JsonView)>, key: Seq<char>, n: int)
    requires
        0 <= n <= members.len(),
        forall|i: int| 0 <= i < n ==> (#[trigger] members[i]).0 != key,
    ensures
        member_of(members, key) == member_of(members.skip(n), key),
    decreases n,
{
    if n > 0 {
        assert(members[0].0 != key);
        assert forall|i: int| 0 <= i < n - 1 implies (#[trigger] members.drop_first()[i]).0
            != key by {
            assert(members.drop_first()[i] == members[i + 1]);
        }
        lemma_member_of_skip(members.drop_first(), key, n - 1);
        assert(members.drop_first().skip(n - 1) =~= members.skip(n));
    } else {
        assert(members.skip(0) =~= members);
    }
}

impl JsonValue {
    /// The value of the first member with the given key, where this is an
    /// object.
    pub fn get(&self, key: &str) -> (r: Option<&JsonValue>)
        ensures
            opt_json_view(r) == member(self@, key@),
    {
        match self {
            JsonValue::Object(members) => {
                let ghost views = self@->Object_0;
                for i in 0..members.len()
                    invariant
                        *self == JsonValue::Object(*members),
                        views == self@->Object_0,
                        forall|j: int| 0 <= j < i ==> (#[trigger] views[j]).0 != key@,
                {
                    assert(views[i as int] == (members@[i as int].0@, members@[i as int].1@));
                    if text::str_eq(members[i].0.as_str(), key) {
                        proof {
                            lemma_member_of_skip(views, key@, i as int);
                            assert(views.skip(i as int)[0] == views[i as int]);
                        }
                        return Some(&members[i].1);
                    }
                }
                proof {
                    lemma_member_of_skip(views, key@, members@.len() as int);
                }
                None
            },
            _ => None,
        }
    }

    /// The value as a natural number.
    pub fn as_natural(&self) -> (r: Option<u64>)
        ensures
            r == natural_of(self@),
    {
        match self {
            JsonValue::Number(JsonNumber::Natural(n)) => Some(*n),
            _ => None,
        }
    }

    /// The value as a text.
    pub fn as_text(&self) -> (r: Option<String>)
        ensures
            text::opt_view(r) == text_of(self@),
    {
        match self {
            JsonValue::Text(s) => Some(s.clone()),
            _ => None,
        }
    }
}

} // verus!
