//! JSON as it is needed here: objects whose members are plain values.
use serde::Serializer as _;
use serde_json::{Map as JsonMap, Value};
use vstd::prelude::*;
use vstd::string::*;

use crate::text::same;

verus! {

/// A JSON value as a member of an object; `Other` stands for an array, an object, or a
/// number that is no 64-bit signed integer.
#[derive(Debug)]
pub enum JsonScalar {
    Null,
    Bool(bool),
    Integer(i64),
    Text(String),
    Other,
}

/// What a [`JsonScalar`] stands for.
pub enum ScalarView {
    Null,
    Bool(bool),
    Integer(int),
    Text(Seq<char>),
    Other,
}

impl View for JsonScalar {
    type V = ScalarView;

    open spec fn view(&self) -> ScalarView {
        match self {
            JsonScalar::Null => ScalarView::Null,
            JsonScalar::Bool(b) => ScalarView::Bool(*b),
            JsonScalar::Integer(n) => ScalarView::Integer(*n as int),
            JsonScalar::Text(t) => ScalarView::Text(t@),
            JsonScalar::Other => ScalarView::Other,
        }
    }
}

/// A named member of a JSON object.
#[derive(Debug)]
pub struct JsonMember {
    pub name: String,
    pub value: JsonScalar,
}

impl View for JsonMember {
    type V = (Seq<char>, ScalarView);

    open spec fn view(&self) -> (Seq<char>, ScalarView) {
        (self.name@, self.value@)
    }
}

/// What a list of members stands for, in order.
pub open spec fn member_views(members: Seq<JsonMember>) -> Seq<(Seq<char>, ScalarView)> {
    Seq::new(members.len(), |i: int| members[i]@)
}

/// The object with the given members; of two members with one name the later counts.
pub open spec fn members_map(members: Seq<(Seq<char>, ScalarView)>) -> Map<Seq<char>, ScalarView>
    decreases members.len(),
{
    if members.len() == 0 {
        Map::empty()
    } else {
        members_map(members.drop_last()).insert(members.last().0, members.last().1)
    }
}

/// The compact JSON text, in UTF-8, of an object with the given members in that order.
pub uninterp spec fn json_object_text(members: Seq<(Seq<char>, ScalarView)>) -> Seq<u8>;

/// The indented JSON text of an object with the given members.
pub uninterp spec fn json_object_pretty(members: Seq<(Seq<char>, ScalarView)>) -> Seq<char>;

/// The members of the JSON object that some bytes are the text of, if they are one.
pub uninterp spec fn json_object_members(bytes: Seq<u8>) -> Option<Map<Seq<char>, ScalarView>>;

/// `Serializer::collect_map` of `serde` on the compact serializer of `serde_json`: it
/// succeeds on members with text names and plain values; the text depends on them alone,
/// and `serde_json` reads the same object back from it.
#[verifier::external_body]
pub(crate) fn write_object(members: &Vec<JsonMember>) -> (r: Result<Vec<u8>, serde_json::Error>)
    requires
        forall|i: int| 0 <= i < members@.len() ==> !(#[trigger] members@[i].value is Other),
    ensures
        r is Ok,
        r matches Ok(bytes) ==> bytes@ == json_object_text(member_views(members@)),
        r matches Ok(bytes) ==> json_object_members(bytes@) == Some(
            members_map(member_views(members@)),
        ),
{
    let mut bytes = Vec::new();
    let entries = members.iter().map(|member| (member.name.as_str(), match &member.value {
        JsonScalar::Bool(value) => Value::Bool(*value),
        JsonScalar::Integer(value) => Value::from(*value),
        JsonScalar::Text(value) => Value::from(value.as_str()),
        JsonScalar::Null | JsonScalar::Other => Value::Null,
    }));
    serde_json::Serializer::new(&mut bytes).collect_map(entries)?;
    Ok(bytes)
}

/// `serde_json::to_string_pretty` on an object with text names and plain values: the text
/// depends on the members alone.
#[verifier::external_body]
pub(crate) fn write_object_pretty(members: &Vec<JsonMember>) -> (r: Result<
    String,
    serde_json::Error,
>)
    requires
        forall|i: int| 0 <= i < members@.len() ==> !(#[trigger] members@[i].value is Other),
    ensures
        r is Ok,
        r matches Ok(text) ==> text@ == json_object_pretty(member_views(members@)),
{
    let entries = members.iter().map(|member| (member.name.clone(), match &member.value {
        JsonScalar::Bool(value) => Value::Bool(*value),
        JsonScalar::Integer(value) => Value::from(*value),
        JsonScalar::Text(value) => Value::from(value.as_str()),
        JsonScalar::Null | JsonScalar::Other => Value::Null,
    }));
    serde_json::to_string_pretty(&Value::Object(entries.collect::<JsonMap<String, Value>>()))
}

/// An error of the `serde_json` crate.
#[verifier::external_type_specification]
#[verifier::external_body]
pub struct ExJsonError(serde_json::Error);

/// `serde_json::from_slice` into an object: its members by name, or nothing where the
/// bytes are not the text of a JSON object.
#[verifier::external_body]
pub(crate) fn read_object(bytes: &[u8]) -> (r: Option<Vec<JsonMember>>)
    ensures
        match r {
            Some(members) => json_object_members(bytes@) == Some(
                members_map(member_views(members@)),
            ),
            None => json_object_members(bytes@) is None,
        },
{
    let object = serde_json::from_slice::<JsonMap<String, Value>>(bytes).ok()?;
    let members = object.into_iter().map(|(name, value)| JsonMember { name, value: match value {
        Value::Null => JsonScalar::Null,
        Value::Bool(value) => JsonScalar::Bool(value),
        Value::Number(value) => value.as_i64().map_or(JsonScalar::Other, JsonScalar::Integer),
        Value::String(value) => JsonScalar::Text(value),
        Value::Array(_) | Value::Object(_) => JsonScalar::Other,
    } });
    Some(members.collect())
}

proof fn lemma_members_map_skip(members: Seq<(Seq<char>, ScalarView)>, n: int, name: Seq<char>)
    requires
        0 <= n <= members.len(),
        forall|j: int| n <= j < members.len() ==> (#[trigger] members[j]).0 != name,
    ensures
        members_map(members).dom().contains(name) == members_map(members.take(n)).dom().contains(
            name,
        ),
        members_map(members).dom().contains(name) ==> members_map(members)[name] == members_map(
            members.take(n),
        )[name],
    decreases members.len() - n,
{
    if n == members.len() {
        assert(members.take(n) =~= members);
    } else {
        let shorter = members.drop_last();
        assert(members[members.len() - 1].0 != name);
        assert forall|j: int| n <= j < shorter.len() implies (#[trigger] shorter[j]).0 != name by {
            assert(shorter[j] == members[j]);
        }
        lemma_members_map_skip(shorter, n, name);
        assert(shorter.take(n) =~= members.take(n));
    }
}

/// The member called `name`.
pub fn find_member<'a>(members: &'a Vec<JsonMember>, name: &str) -> (r: Option<&'a JsonScalar>)
    ensures
        match r {
            Some(value) => members_map(member_views(members@)).dom().contains(name@)
                && members_map(member_views(members@))[name@] == value@,
            None => !members_map(member_views(members@)).dom().contains(name@),
        },
{
    let ghost views = member_views(members@);
    let mut i: usize = members.len();
    while i > 0
        invariant
            i <= members@.len(),
            views == member_views(members@),
            forall|j: int| i <= j < views.len() ==> (#[trigger] views[j]).0 != name@,
        decreases i,
    {
        i -= 1;
        if same(members[i].name.as_str(), name) {
            proof {
                lemma_members_map_skip(views, i + 1, name@);
                assert(views.take(i + 1).last() == views[i as int]);
            }
            return Some(&members[i].value);
        }
    }
    proof {
        lemma_members_map_skip(views, 0, name@);
        assert(views.take(0).len() == 0);
    }
    None
}

/// A JSON value. A number is an unsigned integer, a negative one, or anything else, which
/// is kept as it is written.
#[derive(Debug)]
pub enum Json {
    Null,
    Bool(bool),
    Unsigned(u64),
    Negative(i64),
    Fraction(String),
    Text(String),
    List(Vec<Json>),
    Object(Vec<ObjectMember>),
}

/// A named member of a [`Json`] object.
#[derive(Debug)]
pub struct ObjectMember {
    pub name: String,
    pub value: Json,
}

/// What a [`Json`] value stands for.
pub enum JsonView {
    Null,
    Bool(bool),
    Unsigned(int),
    Negative(int),
    Fraction(Seq<char>),
    Text(Seq<char>),
    List(Seq<JsonView>),
    Object(Seq<(Seq<char>, JsonView)>),
}

/// What a [`Json`] value stands for.
pub open spec fn json_view(value: Json) -> JsonView
    decreases value,
{
    match value {
        Json::Null => JsonView::Null,
        Json::Bool(b) => JsonView::Bool(b),
        Json::Unsigned(n) => JsonView::Unsigned(n as int),
        Json::Negative(n) => JsonView::Negative(n as int),
        Json::Fraction(t) => JsonView::Fraction(t@),
        Json::Text(t) => JsonView::Text(t@),
        Json::List(items) => JsonView::List(
            Seq::new(
                items@.len(),
                |i: int|
                    if 0 <= i < items@.len() {
                        json_view(items@[i])
                    } else {
                        JsonView::Null
                    },
            ),
        ),
        Json::Object(members) => JsonView::Object(
            Seq::new(
                members@.len(),
                |i: int|
                    if 0 <= i < members@.len() {
                        (members@[i].name@, json_view(members@[i].value))
                    } else {
                        (Seq::empty(), JsonView::Null)
                    },
            ),
        ),
    }
}

impl View for Json {
    type V = JsonView;

    open spec fn view(&self) -> JsonView {
        json_view(*self)
    }
}

/// The value of the first member called `name`.
pub open spec fn first_member(members: Seq<(Seq<char>, JsonView)>, name: Seq<char>) -> Option<
    JsonView,
>
    decreases members.len(),
{
    if members.len() == 0 {
        None
    } else if members[0].0 == name {
        Some(members[0].1)
    } else {
        first_member(members.drop_first(), name)
    }
}

impl JsonView {
    /// An object without members.
    pub open spec fn empty_object() -> JsonView {
        JsonView::Object(Seq::empty())
    }

    /// An object with one more member, behind the others.
    pub open spec fn with(self, name: Seq<char>, value: JsonView) -> JsonView {
        JsonView::Object(self->Object_0.push((name, value)))
    }

    /// A list without items.
    pub open spec fn empty_list() -> JsonView {
        JsonView::List(Seq::empty())
    }

    /// A list with one more item, behind the others.
    pub open spec fn and(self, item: JsonView) -> JsonView {
        JsonView::List(self->List_0.push(item))
    }

    /// The member called `name`, if the value is an object with such a member.
    pub open spec fn get(self, name: Seq<char>) -> Option<JsonView> {
        match self {
            JsonView::Object(members) => first_member(members, name),
            _ => None,
        }
    }

    /// The text that the member called `name` is, if the value is an object with such a
    /// member.
    pub open spec fn get_text(self, name: Seq<char>) -> Option<Seq<char>> {
        match self.get(name) {
            Some(JsonView::Text(text)) => Some(text),
            _ => None,
        }
    }

    /// The unsigned number that the member called `name` is, if the value is an object with
    /// such a member.
    pub open spec fn get_unsigned(self, name: Seq<char>) -> Option<int> {
        match self.get(name) {
            Some(JsonView::Unsigned(n)) => Some(n),
            _ => None,
        }
    }
}

impl Json {
    /// The member called `name`, if the value is an object with such a member.
    pub fn get(&self, name: &str) -> (r: Option<&Json>)
        ensures
            match r {
                Some(value) => self@.get(name@) == Some(value@),
                None => self@.get(name@) is None,
            },
    {
        let members = match self {
            Json::Object(members) => members,
            _ => return None,
        };
        let ghost views = self@->Object_0;
        let mut i: usize = 0;
        assert(views.skip(0) =~= views);
        while i < members.len()
            invariant
                i <= members@.len(),
                *self == Json::Object(*members),
                views == self@->Object_0,
                first_member(views.skip(i as int), name@) == first_member(views, name@),
            decreases members@.len() - i,
        {
            assert(views.skip(i as int)[0] == views[i as int]);
            if same(members[i].name.as_str(), name) {
                return Some(&members[i].value);
            }
            assert(views.skip(i as int).drop_first() =~= views.skip(i + 1));
            i += 1;
        }
        None
    }

    /// The text that the member called `name` is, if the value is an object with such a
    /// member.
    pub fn get_text(&self, name: &str) -> (r: Option<&str>)
        ensures
            match r {
                Some(text) => self@.get_text(name@) == Some(text@),
                None => self@.get_text(name@) is None,
            },
    {
        match self.get(name) {
            Some(Json::Text(text)) => Some(text.as_str()),
            _ => None,
        }
    }

    /// The unsigned number that the member called `name` is, if the value is an object with
    /// such a member.
    pub fn get_unsigned(&self, name: &str) -> (r: Option<u64>)
        ensures
            match r {
                Some(n) => self@.get_unsigned(name@) == Some(n as int),
                None => self@.get_unsigned(name@) is None,
            },
    {
        match self.get(name) {
            Some(Json::Unsigned(n)) => Some(*n),
            _ => None,
        }
    }

    /// A text.
    pub fn text(text: &str) -> (value: Json)
        ensures
            value@ == JsonView::Text(text@),
    {
        Json::Text(text.to_owned())
    }

    /// An object without members.
    pub fn empty_object() -> (value: Json)
        ensures
            value@ == JsonView::empty_object(),
    {
        let value = Json::Object(Vec::new());
        assert(value@->Object_0 =~= Seq::empty());
        value
    }

    /// The object with one more member, behind the others; no other value has members.
    pub fn with(self, name: &str, value: Json) -> (r: Json)
        requires
            self@ is Object,
        ensures
            r@ == self@.with(name@, value@),
    {
        match self {
            Json::Object(members) => {
                let ghost before = self@->Object_0;
                let mut members = members;
                members.push(ObjectMember { name: name.to_owned(), value });
                let r = Json::Object(members);
                assert(r@->Object_0 =~= before.push((name@, value@)));
                r
            },
            other => other,
        }
    }

    /// A list without items.
    pub fn empty_list() -> (value: Json)
        ensures
            value@ == JsonView::empty_list(),
    {
        let value = Json::List(Vec::new());
        assert(value@->List_0 =~= Seq::empty());
        value
    }

    /// The list with one more item, behind the others; no other value has items.
    pub fn and(self, item: Json) -> (r: Json)
        requires
            self@ is List,
        ensures
            r@ == self@.and(item@),
    {
        match self {
            Json::List(items) => {
                let ghost before = self@->List_0;
                let mut items = items;
                items.push(item);
                let r = Json::List(items);
                assert(r@->List_0 =~= before.push(item@));
                r
            },
            other => other,
        }
    }
}

/// Values stand for themselves: nothing is left out of them, and nothing is changed.
pub proof fn law_values_stand_for_themselves(value: Json)
    ensures
        value is Null ==> value@ == JsonView::Null,
        value is Bool ==> value@ == JsonView::Bool(value->Bool_0),
        value is Unsigned ==> value@ == JsonView::Unsigned(value->Unsigned_0 as int),
        value is Negative ==> value@ == JsonView::Negative(value->Negative_0 as int),
        value is Fraction ==> value@ == JsonView::Fraction(value->Fraction_0@),
        value is Text ==> value@ == JsonView::Text(value->Text_0@),
        value matches Json::List(items) ==> {
            &&& value@ is List
            &&& value@->List_0.len() == items@.len()
            &&& forall|i: int|
                0 <= i < items@.len() ==> #[trigger] value@->List_0[i] == items@[i]@
        },
        value matches Json::Object(members) ==> {
            &&& value@ is Object
            &&& value@->Object_0.len() == members@.len()
            &&& forall|i: int|
                0 <= i < members@.len() ==> #[trigger] value@->Object_0[i] == (
                    members@[i].name@,
                    members@[i].value@,
                )
        },
{
}

/// Plain members stand for themselves, in their order.
pub proof fn law_members_stand_for_themselves(members: Seq<JsonMember>, i: int)
    requires
        0 <= i < members.len(),
    ensures
        member_views(members).len() == members.len(),
        member_views(members)[i].0 == members[i].name@,
        members[i].value is Null ==> member_views(members)[i].1 == ScalarView::Null,
        members[i].value is Bool ==> member_views(members)[i].1 == ScalarView::Bool(
            members[i].value->Bool_0,
        ),
        members[i].value is Integer ==> member_views(members)[i].1 == ScalarView::Integer(
            members[i].value->Integer_0 as int,
        ),
        members[i].value is Text ==> member_views(members)[i].1 == ScalarView::Text(
            members[i].value->Text_0@,
        ),
        members[i].value is Other ==> member_views(members)[i].1 == ScalarView::Other,
{
}

/// Of several plain members with one name the last counts, and a name that none has is not
/// found.
pub proof fn law_last_member_counts(
    members: Seq<(Seq<char>, ScalarView)>,
    i: int,
    name: Seq<char>,
)
    ensures
        0 <= i < members.len() && members[i].0 == name && (forall|j: int|
            i < j < members.len() ==> (#[trigger] members[j]).0 != name) ==> members_map(
            members,
        ).dom().contains(name) && members_map(members)[name] == members[i].1,
        (forall|j: int| 0 <= j < members.len() ==> (#[trigger] members[j]).0 != name)
            ==> !members_map(members).dom().contains(name),
{
    if 0 <= i < members.len() && members[i].0 == name && (forall|j: int|
        i < j < members.len() ==> (#[trigger] members[j]).0 != name) {
        lemma_members_map_skip(members, i + 1, name);
        assert(members.take(i + 1).last() == members[i]);
    }
    if forall|j: int| 0 <= j < members.len() ==> (#[trigger] members[j]).0 != name {
        lemma_members_map_skip(members, 0, name);
        assert(members.take(0).len() == 0);
    }
}

/// A member is found by its name: the first that has it, whatever its value is. Only objects
/// have members, and a name that none has is not found.
pub proof fn law_first_member_is_found(members: Seq<(Seq<char>, JsonView)>, i: int, name: Seq<char>)
    ensures
        0 <= i < members.len() && members[i].0 == name && (forall|j: int|
            0 <= j < i ==> (#[trigger] members[j]).0 != name) ==> JsonView::Object(members).get(
            name,
        ) == Some(members[i].1),
        (forall|j: int| 0 <= j < members.len() ==> (#[trigger] members[j]).0 != name)
            ==> JsonView::Object(members).get(name) is None,
    decreases members.len(),
{
    if members.len() > 0 && members[0].0 != name {
        let rest = members.drop_first();
        law_first_member_is_found(rest, i - 1, name);
        assert forall|j: int| 0 <= j < rest.len() implies (#[trigger] rest[j]) == members[j + 1] by {}
        if 0 <= i < members.len() && members[i].0 == name && (forall|j: int|
            0 <= j < i ==> (#[trigger] members[j]).0 != name) {
            assert forall|j: int| 0 <= j < i - 1 implies (#[trigger] rest[j]).0 != name by {
                assert(members[j + 1].0 != name);
            }
        }
        if forall|j: int| 0 <= j < members.len() ==> (#[trigger] members[j]).0 != name {
            assert forall|j: int| 0 <= j < rest.len() implies (#[trigger] rest[j]).0 != name by {
                assert(members[j + 1].0 != name);
            }
        }
    }
}

/// What is no object has no members, a text is found only where a member is one, and a number
/// only where a member is an unsigned one.
pub proof fn law_members_are_found_as_they_are(value: JsonView, name: Seq<char>)
    ensures
        !(value is Object) ==> value.get(name) is None,
        value.get(name) is None ==> value.get_text(name) is None && value.get_unsigned(
            name,
        ) is None,
        value.get(name) matches Some(member) ==> {
            &&& member is Text ==> value.get_text(name) == Some(member->Text_0)
            &&& !(member is Text) ==> value.get_text(name) is None
            &&& member is Unsigned ==> value.get_unsigned(name) == Some(member->Unsigned_0)
            &&& !(member is Unsigned) ==> value.get_unsigned(name) is None
        },
{
}

/// An object is built member by member and a list item by item, the new one always last.
pub proof fn law_values_are_built_in_order(
    members: Seq<(Seq<char>, JsonView)>,
    name: Seq<char>,
    value: JsonView,
    items: Seq<JsonView>,
)
    ensures
        JsonView::empty_object() is Object,
        JsonView::empty_object()->Object_0.len() == 0,
        JsonView::Object(members).with(name, value) == JsonView::Object(
            members.push((name, value)),
        ),
        JsonView::empty_list() is List,
        JsonView::empty_list()->List_0.len() == 0,
        JsonView::List(items).and(value) == JsonView::List(items.push(value)),
{
}

} // verus!
