//! JSON documents as plain data: what the console writes on the wire, before
//! it becomes text.

use vstd::prelude::*;
use crate::text::str_equal;

verus! {

/// A JSON value. Numbers are the unsigned integers, which is all that the
/// console writes.
#[derive(Debug)]
pub enum JsonValue {
    Null,
    Bool(bool),
    Number(u64),
    Text(String),
    List(Vec<JsonValue>),
    /// The members of an object, in the order in which they are written.
    Object(Vec<(String, JsonValue)>),
}

/// A JSON value as plain values.
pub enum JsonView {
    Null,
    Bool(bool),
    Number(u64),
    Text(Seq<char>),
    List(Seq<JsonView>),
    Object(Seq<(Seq<char>, JsonView)>),
}

/// The members of an object as plain values.
pub type Members = Seq<(Seq<char>, JsonView)>;

/// The plain values of a JSON value.
pub open spec fn json_view(value: JsonValue) -> JsonView
    decreases value,
{
    match value {
        JsonValue::Null => JsonView::Null,
        JsonValue::Bool(b) => JsonView::Bool(b),
        JsonValue::Number(n) => JsonView::Number(n),
        JsonValue::Text(s) => JsonView::Text(s@),
        JsonValue::List(items) => JsonView::List(
            Seq::new(
                items@.len(),
                |i: int|
                    if 0 <= i < items@.len() {
                        json_view(items@[i])
                    } else {
                        JsonView::Null
                    },
            ),
        ),
        JsonValue::Object(members) => JsonView::Object(
            Seq::new(
                members@.len(),
                |i: int|
                    if 0 <= i < members@.len() {
                        (members@[i].0@, json_view(members@[i].1))
                    } else {
                        (Seq::empty(), JsonView::Null)
                    },
            ),
        ),
    }
}

impl View for JsonValue {
    type V = JsonView;

    open spec fn view(&self) -> JsonView {
        json_view(*self)
    }
}

/// The views of a list of values.
pub open spec fn items_view(items: Seq<JsonValue>) -> Seq<JsonView> {
    items.map_values(|v: JsonValue| v@)
}

/// The views of a list of members.
pub open spec fn members_view(members: Seq<(String, JsonValue)>) -> Members {
    members.map_values(|m: (String, JsonValue)| (m.0@, m.1@))
}

/// The view of a list is the list of the views.
pub proof fn lemma_list_view(items: Vec<JsonValue>)
    ensures
        JsonValue::List(items)@ == JsonView::List(items_view(items@)),
{
    assert(JsonValue::List(items)@->List_0 =~= items_view(items@));
}

/// The view of an object is the list of the views of its members.
pub proof fn lemma_object_view(members: Vec<(String, JsonValue)>)
    ensures
        JsonValue::Object(members)@ == JsonView::Object(members_view(members@)),
{
    assert(JsonValue::Object(members)@->Object_0 =~= members_view(members@));
}

/// The value of the first member named `key`, if there is one.
pub open spec fn member_of(members: Members, key: Seq<char>) -> Option<JsonView>
    decreases members.len(),
{
    if members.len() == 0 {
        None
    } else if members[0].0 == key {
        Some(members[0].1)
    } else {
        member_of(members.drop_first(), key)
    }
}

/// The member `key` of a value: that of `member_of` for an object, none for
/// any other value.
pub open spec fn field_of(value: JsonView, key: Seq<char>) -> Option<JsonView> {
    match value {
        JsonView::Object(members) => member_of(members, key),
        _ => None,
    }
}

/// The member at index `i` stands: no earlier member has its name, so that
/// it is the one found under that name.
pub open spec fn stands(members: Members, i: int) -> bool {
    &&& 0 <= i < members.len()
    &&& forall|j: int| 0 <= j < i ==> (#[trigger] members[j]).0 != members[i].0
}

/// The member at index `i` is found under its name where no earlier member
/// has that name.
pub proof fn lemma_member_at(members: Members, i: int)
    requires
        0 <= i < members.len(),
        forall|j: int| 0 <= j < i ==> (#[trigger] members[j]).0 != members[i].0,
    ensures
        member_of(members, members[i].0) == Some(members[i].1),
    decreases i,
{
    if i > 0 {
        let rest = members.drop_first();
        assert(members[0].0 != members[i].0);
        assert forall|j: int| 0 <= j < i - 1 implies (#[trigger] rest[j]).0 != rest[i - 1].0 by {
            assert(rest[j] == members[j + 1]);
        }
        lemma_member_at(rest, i - 1);
    }
}

/// A name that no member has is not found.
pub proof fn lemma_member_absent(members: Members, key: Seq<char>)
    requires
        forall|j: int| 0 <= j < members.len() ==> (#[trigger] members[j]).0 != key,
    ensures
        member_of(members, key) is None,
    decreases members.len(),
{
    if members.len() > 0 {
        let rest = members.drop_first();
        assert(members[0].0 != key);
        assert forall|j: int| 0 <= j < rest.len() implies (#[trigger] rest[j]).0 != key by {
            assert(rest[j] == members[j + 1]);
        }
        lemma_member_absent(rest, key);
    }
}

impl JsonValue {
    /// The first member named `key` where the value is an object.
    pub fn get(&self, key: &str) -> (found: Option<&JsonValue>)
        ensures
            match found {
                Some(v) => field_of(self@, key@) == Some(v@),
                None => field_of(self@, key@) is None,
            },
    {
        match self {
            JsonValue::Object(members) => {
                proof {
                    lemma_object_view(*members);
                }
                let ghost all = members_view(members@);
                let mut i: usize = 0;
                assert(all.skip(0) =~= all);
                while i < members.len()
                    invariant
                        i <= members.len(),
                        all == members_view(members@),
                        self@ == JsonView::Object(all),
                        member_of(all, key@) == member_of(all.skip(i as int), key@),
                    decreases members.len() - i,
                {
                    assert(all.skip(i as int).drop_first() =~= all.skip(i as int + 1));
                    assert(all.skip(i as int)[0] == all[i as int]);
                    if str_equal(members[i].0.as_str(), key) {
                        return Some(&members[i].1);
                    }
                    i += 1;
                }
                None
            },
            _ => None,
        }
    }

    /// For each member of an object, whether it stands. Of several members
    /// with one name only the first stands; whoever writes the object as
    /// text writes the members that stand and passes over the others.
    pub fn standing(members: &Vec<(String, JsonValue)>) -> (flags: Vec<bool>)
        ensures
            flags@.len() == members@.len(),
            forall|i: int|
                0 <= i < members@.len() ==> #[trigger] flags@[i] == stands(
                    members_view(members@),
                    i,
                ),
    {
        let ghost all = members_view(members@);
        let mut flags: Vec<bool> = Vec::new();
        let mut i: usize = 0;
        while i < members.len()
            invariant
                i <= members.len(),
                all == members_view(members@),
                flags@.len() == i,
                forall|k: int| 0 <= k < i ==> #[trigger] flags@[k] == stands(all, k),
            decreases members.len() - i,
        {
            let mut first = true;
            let mut j: usize = 0;
            while j < i
                invariant
                    j <= i,
                    i < members.len(),
                    all == members_view(members@),
                    first == (forall|k: int|
                        0 <= k < j ==> (#[trigger] all[k]).0 != all[i as int].0),
                decreases i - j,
            {
                let same = str_equal(members[j].0.as_str(), members[i].0.as_str());
                assert(same == (all[j as int].0 == all[i as int].0));
                if same {
                    first = false;
                }
                j += 1;
            }
            flags.push(first);
            i += 1;
        }
        flags
    }

    /// A text value.
    pub fn text(s: &str) -> (v: JsonValue)
        ensures
            v@ == JsonView::Text(s@),
    {
        JsonValue::Text(s.to_owned())
    }

    /// An object with the given members.
    pub fn object(members: Vec<(String, JsonValue)>) -> (v: JsonValue)
        ensures
            v@ == JsonView::Object(members_view(members@)),
    {
        proof {
            lemma_object_view(members);
        }
        JsonValue::Object(members)
    }

    /// A list with the given items.
    pub fn list(items: Vec<JsonValue>) -> (v: JsonValue)
        ensures
            v@ == JsonView::List(items_view(items@)),
    {
        proof {
            lemma_list_view(items);
        }
        JsonValue::List(items)
    }
}

} // verus!
