//! JSON values as the library reads and builds them.
//!
//! [`Json`] is a plain tree. Text is read into it and written from it by
//! `serde_json`, through `serde_json::Value`.

use vstd::prelude::*;

use crate::text::same_text;

verus! {

/// A number as `serde_json` holds it, carried through without being looked into.
#[verifier::external_type_specification]
#[verifier::external_body]
pub struct ExNumber(serde_json::Number);

/// A JSON value as `serde_json` holds it.
#[verifier::external_type_specification]
#[verifier::external_body]
pub struct ExValue(serde_json::Value);

/// A JSON object as `serde_json` holds it.
#[verifier::external_type_specification]
#[verifier::external_body]
#[verifier::reject_recursive_types(K)]
#[verifier::reject_recursive_types(V)]
pub struct ExMap<K, V>(serde_json::Map<K, V>);

/// The mathematical JSON value: an array is a sequence, an object a map.
#[verifier::ext_equal]
pub enum JsonView {
    /// `null`
    Null,
    /// `true` or `false`
    Bool(bool),
    /// A number
    Number(serde_json::Number),
    /// A string
    String(Seq<char>),
    /// An array
    Array(Seq<JsonView>),
    /// An object
    Object(Map<Seq<char>, JsonView>),
}

/// A JSON value.
///
/// An object lists its members. Where a name occurs more than once, the last
/// member of that name counts.
#[derive(Debug, PartialEq)]
pub enum Json {
    /// `null`
    Null,
    /// `true` or `false`
    Bool(bool),
    /// A number
    Number(serde_json::Number),
    /// A string
    String(String),
    /// An array
    Array(Vec<Json>),
    /// An object
    Object(Vec<(String, Json)>),
}

// ---------------------------------------------------------------------------
// Model
// ---------------------------------------------------------------------------

/// The map that a list of entries denotes: a later entry replaces an earlier
/// one of the same name.
pub open spec fn entries_map<V>(entries: Seq<(Seq<char>, V)>) -> Map<Seq<char>, V>
    decreases entries.len(),
{
    if entries.len() == 0 {
        Map::empty()
    } else {
        entries_map(entries.drop_last()).insert(entries.last().0, entries.last().1)
    }
}

/// What a JSON value denotes.
pub open spec fn json_view(json: Json) -> JsonView
    decreases json,
{
    match json {
        Json::Null => JsonView::Null,
        Json::Bool(b) => JsonView::Bool(b),
        Json::Number(n) => JsonView::Number(n),
        Json::String(s) => JsonView::String(s@),
        Json::Array(items) => JsonView::Array(item_views(items@)),
        Json::Object(members) => JsonView::Object(entries_map(member_views(members@))),
    }
}

/// What the items of an array denote, one by one.
pub open spec fn item_views(items: Seq<Json>) -> Seq<JsonView>
    decreases items,
{
    Seq::new(
        items.len(),
        |i: int|
            if 0 <= i < items.len() {
                json_view(items[i])
            } else {
                JsonView::Null
            },
    )
}

/// What the members of an object denote, one by one.
pub open spec fn member_views(members: Seq<(String, Json)>) -> Seq<(Seq<char>, JsonView)>
    decreases members,
{
    Seq::new(
        members.len(),
        |i: int|
            if 0 <= i < members.len() {
                (members[i].0@, json_view(members[i].1))
            } else {
                (Seq::empty(), JsonView::Null)
            },
    )
}

impl View for Json {
    type V = JsonView;

    open spec fn view(&self) -> JsonView {
        json_view(*self)
    }
}

impl JsonView {
    /// The member of the given name, where the value is an object that has one.
    pub open spec fn member(self, name: Seq<char>) -> Option<JsonView> {
        match self {
            JsonView::Object(members) => if members.contains_key(name) {
                Some(members[name])
            } else {
                None
            },
            _ => None,
        }
    }

    /// The value with one member set. Meant for objects and for `null`, which
    /// counts as an empty one.
    pub open spec fn with_member(self, name: Seq<char>, value: JsonView) -> JsonView {
        match self {
            JsonView::Object(members) => JsonView::Object(members.insert(name, value)),
            _ => JsonView::Object(Map::empty().insert(name, value)),
        }
    }

    /// Whether the value nests arrays and objects at most `levels` deep, and
    /// each number in it is an integer.
    pub open spec fn float_free_within(self, levels: nat) -> bool
        decreases levels,
    {
        match self {
            JsonView::Number(n) => is_integer(n),
            JsonView::Array(items) => levels > 0 && forall|i: int|
                0 <= i < items.len() ==> (#[trigger] items[i]).float_free_within((levels - 1) as nat),
            JsonView::Object(members) => levels > 0 && forall|name: Seq<char>|
                #[trigger] members.contains_key(name) ==> members[name].float_free_within((levels - 1) as nat),
            _ => true,
        }
    }

    /// Whether the value nests arrays and objects at most `levels` deep, and
    /// each number in it is an integer or, written alone by
    /// `serde_json::to_string`, is read back by `serde_json::from_str`.
    pub open spec fn survives_text(self, levels: nat) -> bool
        decreases levels,
    {
        match self {
            JsonView::Number(n) => is_integer(n) || json_of_text(json_text(self)) == Reading::Ok(self),
            JsonView::Array(items) => levels > 0 && forall|i: int|
                0 <= i < items.len() ==> (#[trigger] items[i]).survives_text((levels - 1) as nat),
            JsonView::Object(members) => levels > 0 && forall|name: Seq<char>|
                #[trigger] members.contains_key(name) ==> members[name].survives_text((levels - 1) as nat),
            _ => true,
        }
    }

    /// As [`Self::survives_text`], of `serde_json::to_vec` and
    /// `serde_json::from_slice`.
    pub open spec fn survives_bytes(self, levels: nat) -> bool
        decreases levels,
    {
        match self {
            JsonView::Number(n) => is_integer(n) || json_of_bytes(json_bytes(self)) == Reading::Ok(self),
            JsonView::Array(items) => levels > 0 && forall|i: int|
                0 <= i < items.len() ==> (#[trigger] items[i]).survives_bytes((levels - 1) as nat),
            JsonView::Object(members) => levels > 0 && forall|name: Seq<char>|
                #[trigger] members.contains_key(name) ==> members[name].survives_bytes((levels - 1) as nat),
            _ => true,
        }
    }
}

/// What a reader makes of JSON text: a value, or the wording of its error.
pub type Reading = Result<JsonView, Seq<char>>;

/// How deep `serde_json` follows nested arrays and objects when it reads text.
pub const READABLE_LEVELS: usize = 127;

// ---------------------------------------------------------------------------
// serde_json
// ---------------------------------------------------------------------------

/// The JSON value that a `serde_json::Value` holds.
pub uninterp spec fn value_view(value: serde_json::Value) -> JsonView;

/// The members that a `serde_json::Map` holds, by name.
pub uninterp spec fn map_view(map: serde_json::Map<String, serde_json::Value>) -> Map<Seq<char>, JsonView>;

/// What `serde_json::from_slice` reads from bytes: a value, or the wording of
/// its error.
pub uninterp spec fn json_of_bytes(bytes: Seq<u8>) -> Reading;

/// What `serde_json::from_str` reads from text: a value, or the wording of its
/// error.
pub uninterp spec fn json_of_text(text: Seq<char>) -> Reading;

/// The bytes that `serde_json::to_vec` writes for a value.
pub uninterp spec fn json_bytes(value: JsonView) -> Seq<u8>;

/// The text that `serde_json::to_string` writes for a value.
pub uninterp spec fn json_text(value: JsonView) -> Seq<char>;

/// What `serde_json::Number::is_i64` says of a number.
pub uninterp spec fn number_is_i64(number: serde_json::Number) -> bool;

/// What `serde_json::Number::is_u64` says of a number.
pub uninterp spec fn number_is_u64(number: serde_json::Number) -> bool;

/// Whether a number is an integer. `serde_json` holds integers from the least
/// `i64` to the greatest `u64`, and every other number as floating point.
pub open spec fn is_integer(number: serde_json::Number) -> bool {
    number_is_i64(number) || number_is_u64(number)
}

/// Calls `serde_json::Number::is_i64`, which tells whether the number is held as
/// an integer in the range of `i64`.
#[verifier::external_body]
fn fits_i64(number: &serde_json::Number) -> (fits: bool)
    ensures
        fits == number_is_i64(*number),
{
    number.is_i64()
}

/// Calls `serde_json::Number::is_u64`, which tells whether the number is held as
/// an integer in the range of `u64`.
#[verifier::external_body]
fn fits_u64(number: &serde_json::Number) -> (fits: bool)
    ensures
        fits == number_is_u64(*number),
{
    number.is_u64()
}

/// `Clone` for `serde_json::Number` copies the number.
pub assume_specification[ <serde_json::Number as Clone>::clone ](number: &serde_json::Number) -> (copy:
    serde_json::Number)
    ensures
        copy == *number,
;

/// The outermost layer of a `serde_json::Value`.
enum ValueParts {
    Null,
    Bool(bool),
    Number(serde_json::Number),
    String(String),
    Array(Vec<serde_json::Value>),
    Object(serde_json::Map<String, serde_json::Value>),
}

/// What the entries of a map denote, one by one.
spec fn entry_views(entries: Seq<(String, serde_json::Value)>) -> Seq<(Seq<char>, JsonView)> {
    Seq::new(entries.len(), |i: int| (entries[i].0@, value_view(entries[i].1)))
}

/// The JSON value that a layer denotes.
spec fn parts_view(parts: ValueParts) -> JsonView {
    match parts {
        ValueParts::Null => JsonView::Null,
        ValueParts::Bool(b) => JsonView::Bool(b),
        ValueParts::Number(n) => JsonView::Number(n),
        ValueParts::String(s) => JsonView::String(s@),
        ValueParts::Array(items) => JsonView::Array(Seq::new(items@.len(), |i: int| value_view(items@[i]))),
        ValueParts::Object(map) => JsonView::Object(map_view(map)),
    }
}

/// Takes the outermost layer off a `serde_json::Value`, variant by variant.
#[verifier::external_body]
fn open_value(value: serde_json::Value) -> (parts: ValueParts)
    ensures
        parts_view(parts) == value_view(value),
{
    match value {
        serde_json::Value::Null => ValueParts::Null,
        serde_json::Value::Bool(b) => ValueParts::Bool(b),
        serde_json::Value::Number(n) => ValueParts::Number(n),
        serde_json::Value::String(s) => ValueParts::String(s),
        serde_json::Value::Array(items) => ValueParts::Array(items),
        serde_json::Value::Object(map) => ValueParts::Object(map),
    }
}

/// Puts the outermost layer of a `serde_json::Value` on, variant by variant.
#[verifier::external_body]
fn close_value(parts: ValueParts) -> (value: serde_json::Value)
    ensures
        value_view(value) == parts_view(parts),
{
    match parts {
        ValueParts::Null => serde_json::Value::Null,
        ValueParts::Bool(b) => serde_json::Value::Bool(b),
        ValueParts::Number(n) => serde_json::Value::Number(n),
        ValueParts::String(s) => serde_json::Value::String(s),
        ValueParts::Array(items) => serde_json::Value::Array(items),
        ValueParts::Object(map) => serde_json::Value::Object(map),
    }
}

/// Calls `serde_json::Map::into_iter`, which hands out every entry of the map,
/// each name once.
#[verifier::external_body]
fn map_entries(map: serde_json::Map<String, serde_json::Value>) -> (entries: Vec<(String, serde_json::Value)>)
    ensures
        entries_map(entry_views(entries@)) == map_view(map),
        forall|i: int, j: int|
            0 <= i < j < entries@.len() ==> (#[trigger] entries@[i]).0@ != (#[trigger] entries@[j]).0@,
{
    map.into_iter().collect()
}

/// Calls `serde_json::Map::new`, which makes an empty map.
#[verifier::external_body]
fn empty_map() -> (map: serde_json::Map<String, serde_json::Value>)
    ensures
        map_view(map).is_empty(),
{
    serde_json::Map::new()
}

/// Calls `serde_json::Map::insert`, which puts a value under a name, in place of
/// one that is there already, and leaves every other name as it is.
#[verifier::external_body]
fn insert_entry(map: &mut serde_json::Map<String, serde_json::Value>, name: String, value: serde_json::Value)
    ensures
        map_view(*final(map)) == map_view(*old(map)).insert(name@, value_view(value)),
{
    map.insert(name, value);
}

/// Calls `serde_json::from_slice`. The result depends on the bytes alone.
#[verifier::external_body]
fn value_from_slice(bytes: &[u8]) -> (read: Result<serde_json::Value, String>)
    ensures
        match read {
            Ok(value) => json_of_bytes(bytes@) == Reading::Ok(value_view(value)),
            Err(message) => json_of_bytes(bytes@) == Reading::Err(message@),
        },
{
    serde_json::from_slice(bytes).map_err(|e| e.to_string())
}

/// Calls `serde_json::from_str`. The result depends on the text alone.
#[verifier::external_body]
fn value_from_str(text: &str) -> (read: Result<serde_json::Value, String>)
    ensures
        match read {
            Ok(value) => json_of_text(text@) == Reading::Ok(value_view(value)),
            Err(message) => json_of_text(text@) == Reading::Err(message@),
        },
{
    serde_json::from_str(text).map_err(|e| e.to_string())
}

/// Calls `serde_json::to_vec`, which fails only where a `Serialize` impl does or
/// a map has a key that is no string: never for a `serde_json::Value`. What it
/// writes, `serde_json::from_slice` reads back, unless the value nests deeper
/// than the reader follows or holds a floating-point number that is not read
/// back by itself. Integers are written digit by digit and read back as they
/// were.
#[verifier::external_body]
fn value_to_vec(value: &serde_json::Value) -> (written: Result<Vec<u8>, String>)
    ensures
        written is Ok,
        written->Ok_0@ == json_bytes(value_view(*value)),
        value_view(*value).survives_bytes(READABLE_LEVELS as nat) ==> json_of_bytes(written->Ok_0@) == Reading::Ok(value_view(*value)),
{
    serde_json::to_vec(value).map_err(|e| e.to_string())
}

/// Calls `serde_json::to_string`, which fails only where a `Serialize` impl does
/// or a map has a key that is no string: never for a `serde_json::Value`. What
/// it writes, `serde_json::from_str` reads back, unless the value nests deeper
/// than the reader follows or holds a floating-point number that is not read
/// back by itself. Integers are written digit by digit and read back as they
/// were.
#[verifier::external_body]
fn value_to_string(value: &serde_json::Value) -> (written: Result<String, String>)
    ensures
        written is Ok,
        written->Ok_0@ == json_text(value_view(*value)),
        value_view(*value).survives_text(READABLE_LEVELS as nat) ==> json_of_text(written->Ok_0@) == Reading::Ok(value_view(*value)),
{
    serde_json::to_string(value).map_err(|e| e.to_string())
}

// ---------------------------------------------------------------------------
// Lemmas
// ---------------------------------------------------------------------------

/// The map of a list of entries is finite.
proof fn lemma_entries_finite<V>(entries: Seq<(Seq<char>, V)>)
    ensures
        entries_map(entries).dom().finite(),
    decreases entries.len(),
{
    if entries.len() > 0 {
        lemma_entries_finite(entries.drop_last());
    }
}

/// A name that no entry has is not in the map.
pub proof fn lemma_entries_lack<V>(entries: Seq<(Seq<char>, V)>, name: Seq<char>)
    requires
        forall|i: int| 0 <= i < entries.len() ==> (#[trigger] entries[i]).0 != name,
    ensures
        !entries_map(entries).contains_key(name),
    decreases entries.len(),
{
    if entries.len() > 0 {
        lemma_entries_lack(entries.drop_last(), name);
    }
}

/// The last entry of a name gives its value.
pub proof fn lemma_entries_hold<V>(entries: Seq<(Seq<char>, V)>, name: Seq<char>, at: int)
    requires
        0 <= at < entries.len(),
        entries[at].0 == name,
        forall|i: int| at < i < entries.len() ==> (#[trigger] entries[i]).0 != name,
    ensures
        entries_map(entries).contains_key(name),
        entries_map(entries)[name] == entries[at].1,
    decreases entries.len(),
{
    if at < entries.len() - 1 {
        lemma_entries_hold(entries.drop_last(), name, at);
    }
}

/// Replacing the value of the last entry of a name sets that name.
pub proof fn lemma_entries_update<V>(entries: Seq<(Seq<char>, V)>, name: Seq<char>, at: int, value: V)
    requires
        0 <= at < entries.len(),
        entries[at].0 == name,
        forall|i: int| at < i < entries.len() ==> (#[trigger] entries[i]).0 != name,
    ensures
        entries_map(entries.update(at, (name, value))) == entries_map(entries).insert(name, value),
    decreases entries.len(),
{
    let updated = entries.update(at, (name, value));
    if at < entries.len() - 1 {
        lemma_entries_update(entries.drop_last(), name, at, value);
        assert(updated.drop_last() =~= entries.drop_last().update(at, (name, value)));
        assert(entries_map(updated) =~= entries_map(entries).insert(name, value));
    } else {
        assert(updated.drop_last() =~= entries.drop_last());
        assert(entries_map(updated) =~= entries_map(entries).insert(name, value));
    }
}

/// A name that is in the map has a last entry, which gives its value.
proof fn lemma_entries_last<V>(entries: Seq<(Seq<char>, V)>, name: Seq<char>) -> (at: int)
    requires
        entries_map(entries).contains_key(name),
    ensures
        0 <= at < entries.len(),
        entries[at].0 == name,
        forall|i: int| at < i < entries.len() ==> (#[trigger] entries[i]).0 != name,
        entries_map(entries)[name] == entries[at].1,
    decreases entries.len(),
{
    if entries.last().0 == name {
        entries.len() - 1
    } else {
        let at = lemma_entries_last(entries.drop_last(), name);
        assert forall|i: int| at < i < entries.len() implies (#[trigger] entries[i]).0 != name by {
            if i < entries.len() - 1 {
                assert(entries.drop_last()[i].0 != name);
            }
        }
        at
    }
}

/// Whether an entry is the last of its name.
spec fn is_last<V>(entries: Seq<(Seq<char>, V)>, at: int) -> bool {
    forall|i: int| at < i < entries.len() ==> (#[trigger] entries[i]).0 != entries[at].0
}

/// A value whose numbers are integers is read back from what is written for it,
/// where it nests no deeper than the reader follows.
pub proof fn lemma_float_free_values_survive(value: JsonView, levels: nat)
    requires
        value.float_free_within(levels),
    ensures
        value.survives_text(levels),
        value.survives_bytes(levels),
    decreases levels,
{
    match value {
        JsonView::Array(items) => {
            assert forall|i: int| 0 <= i < items.len() implies (#[trigger] items[i]).survives_text(
                (levels - 1) as nat,
            ) && items[i].survives_bytes((levels - 1) as nat) by {
                lemma_float_free_values_survive(items[i], (levels - 1) as nat);
            }
        },
        JsonView::Object(members) => {
            assert forall|name: Seq<char>| #[trigger] members.contains_key(name) implies members[name].survives_text(
                (levels - 1) as nat,
            ) && members[name].survives_bytes((levels - 1) as nat) by {
                lemma_float_free_values_survive(members[name], (levels - 1) as nat);
            }
        },
        _ => {},
    }
}

// ---------------------------------------------------------------------------
// Operations
// ---------------------------------------------------------------------------

impl Clone for Json {
    fn clone(&self) -> (copy: Json)
        ensures
            copy@ == self@,
        decreases self,
    {
        match self {
            Json::Null => Json::Null,
            Json::Bool(b) => Json::Bool(*b),
            Json::Number(n) => Json::Number(n.clone()),
            Json::String(s) => Json::String(s.clone()),
            Json::Array(items) => {
                let mut copies: Vec<Json> = Vec::new();
                for i in 0..items.len()
                    invariant
                        *self == Json::Array(*items),
                        copies@.len() == i,
                        forall|j: int| 0 <= j < i ==> (#[trigger] copies@[j])@ == items@[j]@,
                {
                    assert(decreases_to!(*self => self->Array_0));
                    assert(decreases_to!(self->Array_0 => self->Array_0@[i as int]));
                    copies.push(items[i].clone());
                }
                assert(item_views(copies@) =~= item_views(items@));
                Json::Array(copies)
            },
            Json::Object(members) => {
                let mut copies: Vec<(String, Json)> = Vec::new();
                for i in 0..members.len()
                    invariant
                        *self == Json::Object(*members),
                        copies@.len() == i,
                        forall|j: int|
                            0 <= j < i ==> (#[trigger] copies@[j]).0@ == members@[j].0@ && copies@[j].1@
                                == members@[j].1@,
                {
                    let member = &members[i];
                    assert(decreases_to!(*self => self->Object_0));
                    assert(decreases_to!(self->Object_0 => self->Object_0@[i as int]));
                    assert(decreases_to!(self->Object_0@[i as int] => self->Object_0@[i as int].1));
                    copies.push((member.0.clone(), member.1.clone()));
                }
                assert(member_views(copies@) =~= member_views(members@));
                Json::Object(copies)
            },
        }
    }
}

proof fn lemma_distinct_entries_hold(entries: Seq<(Seq<char>, JsonView)>, i: int)
    requires
        0 <= i < entries.len(),
        forall|j: int| i < j < entries.len() ==> (#[trigger] entries[j]).0 != entries[i].0,
    ensures
        decreases_to!(JsonView::Object(entries_map(entries)) => entries[i].1),
{
    lemma_entries_hold(entries, entries[i].0, i);
    lemma_entries_finite(entries);
    let whole = JsonView::Object(entries_map(entries));
    assert(decreases_to!(whole => whole->Object_0));
    assert(decreases_to!(whole->Object_0 => whole->Object_0[entries[i].0]));
}

/// Takes a `serde_json::Value` apart.
fn json_of_value(value: serde_json::Value) -> (json: Json)
    ensures
        json@ == value_view(value),
    decreases value_view(value),
{
    let ghost whole = value_view(value);
    match open_value(value) {
        ValueParts::Null => Json::Null,
        ValueParts::Bool(b) => Json::Bool(b),
        ValueParts::Number(n) => Json::Number(n),
        ValueParts::String(s) => Json::String(s),
        ValueParts::Array(items) => {
            let ghost all = items@;
            let mut jsons: Vec<Json> = Vec::new();
            for item in walk: items.into_iter()
                invariant
                    walk.seq() == all,
                    whole == value_view(value),
                    whole == JsonView::Array(Seq::new(all.len(), |i: int| value_view(all[i]))),
                    jsons@.len() == walk.index(),
                    forall|j: int| 0 <= j < jsons@.len() ==> (#[trigger] jsons@[j])@ == value_view(all[j]),
            {
                proof {
                    let i = jsons@.len() as int;
                    assert(decreases_to!(whole => whole->Array_0));
                    assert(decreases_to!(whole->Array_0 => whole->Array_0[i]));
                }
                jsons.push(json_of_value(item));
            }
            assert(item_views(jsons@) =~= whole->Array_0);
            Json::Array(jsons)
        },
        ValueParts::Object(map) => {
            let entries = map_entries(map);
            let ghost all = entries@;
            let mut members: Vec<(String, Json)> = Vec::new();
            for entry in walk: entries.into_iter()
                invariant
                    walk.seq() == all,
                    whole == value_view(value),
                    whole == JsonView::Object(entries_map(entry_views(all))),
                    forall|i: int, j: int|
                        0 <= i < j < all.len() ==> (#[trigger] all[i]).0@ != (#[trigger] all[j]).0@,
                    members@.len() == walk.index(),
                    forall|j: int|
                        0 <= j < members@.len() ==> (#[trigger] members@[j]).0@ == all[j].0@ && members@[j].1@
                            == value_view(all[j].1),
            {
                proof {
                    lemma_distinct_entries_hold(entry_views(all), members@.len() as int);
                }
                members.push((entry.0, json_of_value(entry.1)));
            }
            assert(member_views(members@) =~= entry_views(all));
            Json::Object(members)
        },
    }
}

/// Puts a `serde_json::Value` together.
fn value_of_json(json: &Json) -> (value: serde_json::Value)
    ensures
        value_view(value) == json@,
    decreases json,
{
    let parts = match json {
        Json::Null => ValueParts::Null,
        Json::Bool(b) => ValueParts::Bool(*b),
        Json::Number(n) => ValueParts::Number(n.clone()),
        Json::String(s) => ValueParts::String(s.clone()),
        Json::Array(items) => {
            let mut values: Vec<serde_json::Value> = Vec::new();
            for i in 0..items.len()
                invariant
                    *json == Json::Array(*items),
                    values@.len() == i,
                    forall|j: int| 0 <= j < i ==> value_view(#[trigger] values@[j]) == items@[j]@,
            {
                assert(decreases_to!(*json => json->Array_0));
                assert(decreases_to!(json->Array_0 => json->Array_0@[i as int]));
                values.push(value_of_json(&items[i]));
            }
            assert(Seq::new(values@.len(), |i: int| value_view(values@[i])) =~= item_views(items@));
            ValueParts::Array(values)
        },
        Json::Object(members) => {
            let mut map = empty_map();
            let ghost views = member_views(members@);
            assert(views.take(0) =~= Seq::empty());
            assert(map_view(map) =~= entries_map(views.take(0)));
            for i in 0..members.len()
                invariant
                    *json == Json::Object(*members),
                    views == member_views(members@),
                    map_view(map) == entries_map(views.take(i as int)),
            {
                let member = &members[i];
                assert(decreases_to!(*json => json->Object_0));
                assert(decreases_to!(json->Object_0 => json->Object_0@[i as int]));
                assert(decreases_to!(json->Object_0@[i as int] => json->Object_0@[i as int].1));
                insert_entry(&mut map, member.0.clone(), value_of_json(&member.1));
                assert(views.take(i + 1).drop_last() =~= views.take(i as int));
                assert(views.take(i + 1).last() == (member.0@, member.1@));
            }
            assert(views.take(members@.len() as int) =~= views);
            ValueParts::Object(map)
        },
    };
    close_value(parts)
}

/// The index of the last member of a name.
fn last_member(members: &Vec<(String, Json)>, name: &str) -> (found: Option<usize>)
    ensures
        match found {
            Some(at) => at < members@.len() && members@[at as int].0@ == name@ && forall|j: int|
                at < j < members@.len() ==> (#[trigger] members@[j]).0@ != name@,
            None => forall|j: int| 0 <= j < members@.len() ==> (#[trigger] members@[j]).0@ != name@,
        },
{
    let mut i: usize = members.len();
    while i > 0
        invariant
            i <= members@.len(),
            forall|j: int| i <= j < members@.len() ==> (#[trigger] members@[j]).0@ != name@,
        decreases i,
    {
        i = i - 1;
        if same_text(members[i].0.as_str(), name) {
            return Some(i);
        }
    }
    None
}

impl Json {
    /// The member of the given name, where the value is an object that has one.
    pub fn get(&self, name: &str) -> (found: Option<&Json>)
        ensures
            match found {
                Some(item) => self@.member(name@) == Some(item@),
                None => self@.member(name@) is None,
            },
    {
        match self {
            Json::Object(members) => {
                let ghost entries = member_views(members@);
                match last_member(members, name) {
                    Some(at) => {
                        proof {
                            lemma_entries_hold(entries, name@, at as int);
                        }
                        Some(&members[at].1)
                    },
                    None => {
                        proof {
                            lemma_entries_lack(entries, name@);
                        }
                        None
                    },
                }
            },
            _ => None,
        }
    }

    /// Sets a member of an object. A `null` becomes an object first.
    pub fn set(&mut self, name: &str, value: Json)
        requires
            old(self)@ is Object || old(self)@ is Null,
        ensures
            final(self)@ == old(self)@.with_member(name@, value@),
    {
        if let Json::Null = self {
            let members: Vec<(String, Json)> = vec![(name.to_owned(), value)];
            proof {
                reveal_with_fuel(entries_map, 2);
                assert(member_views(members@).drop_last() =~= Seq::empty());
            }
            *self = Json::Object(members);
            return;
        }
        match self {
            Json::Object(members) => {
                let ghost before = members@;
                match last_member(members, name) {
                    Some(at) => {
                        members[at].1 = value;
                        proof {
                            lemma_entries_update(member_views(before), name@, at as int, value@);
                            assert(member_views(members@) =~= member_views(before).update(
                                at as int,
                                (name@, value@),
                            ));
                        }
                    },
                    None => {
                        members.push((name.to_owned(), value));
                        assert(member_views(members@).drop_last() =~= member_views(before));
                    },
                }
            },
            _ => {},
        }
    }

    /// Whether the value nests arrays and objects at most `levels` deep, and
    /// each number in it is an integer.
    pub fn is_float_free_within(&self, levels: usize) -> (float_free: bool)
        ensures
            float_free == self@.float_free_within(levels as nat),
        decreases self,
    {
        match self {
            Json::Number(number) => fits_i64(number) || fits_u64(number),
            Json::Array(items) => {
                if levels == 0 {
                    return false;
                }
                for i in 0..items.len()
                    invariant
                        *self == Json::Array(*items),
                        levels > 0,
                        forall|j: int| 0 <= j < i ==> (#[trigger] items@[j])@.float_free_within((levels - 1) as nat),
                {
                    assert(decreases_to!(*self => self->Array_0));
                    assert(decreases_to!(self->Array_0 => self->Array_0@[i as int]));
                    if !items[i].is_float_free_within(levels - 1) {
                        proof {
                            let views = item_views(items@);
                            assert(self@ == JsonView::Array(views));
                            assert(!views[i as int].float_free_within((levels - 1) as nat));
                            if self@.float_free_within(levels as nat) {
                                assert(self@->Array_0[i as int].float_free_within((levels as nat - 1) as nat));
                            }
                        }
                        return false;
                    }
                }
                true
            },
            Json::Object(members) => {
                if levels == 0 {
                    return false;
                }
                let ghost entries = member_views(members@);
                for i in 0..members.len()
                    invariant
                        *self == Json::Object(*members),
                        levels > 0,
                        entries == member_views(members@),
                        forall|j: int|
                            0 <= j < i && #[trigger] is_last(entries, j) ==> entries[j].1.float_free_within(
                                (levels - 1) as nat,
                            ),
                {
                    let member = &members[i];
                    assert(decreases_to!(*self => self->Object_0));
                    assert(decreases_to!(self->Object_0 => self->Object_0@[i as int]));
                    assert(decreases_to!(self->Object_0@[i as int] => self->Object_0@[i as int].1));
                    let counts = match last_member(members, member.0.as_str()) {
                        Some(at) => at == i,
                        None => false,
                    };
                    assert(entries[i as int] == (member.0@, member.1@));
                    assert(counts == is_last(entries, i as int)) by {
                        assert forall|j: int| i < j < entries.len() implies #[trigger] entries[j].0
                            == members@[j].0@ by {}
                        if is_last(entries, i as int) {
                            assert forall|j: int| i < j < members@.len() implies (#[trigger] members@[j]).0@
                                != member.0@ by {
                                assert(entries[j].0 != entries[i as int].0);
                            }
                        }
                    }
                    if counts && !member.1.is_float_free_within(levels - 1) {
                        proof {
                            lemma_entries_hold(entries, member.0@, i as int);
                            assert(self@ == JsonView::Object(entries_map(entries)));
                            if self@.float_free_within(levels as nat) {
                                assert(self@->Object_0.contains_key(member.0@));
                                assert(self@->Object_0[member.0@].float_free_within((levels as nat - 1) as nat));
                            }
                        }
                        return false;
                    }
                }
                proof {
                    let map = entries_map(entries);
                    assert forall|name: Seq<char>| #[trigger] map.contains_key(name) implies map[name].float_free_within(
                        (levels - 1) as nat,
                    ) by {
                        let at = lemma_entries_last(entries, name);
                        assert(is_last(entries, at));
                        assert(entries[at].1.float_free_within((levels - 1) as nat));
                    }
                }
                true
            },
            _ => true,
        }
    }

    /// Reads JSON bytes.
    pub fn from_bytes(bytes: &[u8]) -> (read: Result<Json, String>)
        ensures
            match read {
                Ok(json) => json_of_bytes(bytes@) == Reading::Ok(json@),
                Err(message) => json_of_bytes(bytes@) == Reading::Err(message@),
            },
    {
        match value_from_slice(bytes) {
            Ok(value) => Ok(json_of_value(value)),
            Err(message) => Err(message),
        }
    }

    /// Reads JSON text.
    pub fn from_text(text: &str) -> (read: Result<Json, String>)
        ensures
            match read {
                Ok(json) => json_of_text(text@) == Reading::Ok(json@),
                Err(message) => json_of_text(text@) == Reading::Err(message@),
            },
    {
        match value_from_str(text) {
            Ok(value) => Ok(json_of_value(value)),
            Err(message) => Err(message),
        }
    }

    /// Writes compact JSON bytes.
    pub fn to_bytes(&self) -> (written: Result<Vec<u8>, String>)
        ensures
            written is Ok,
            written->Ok_0@ == json_bytes(self@),
            self@.survives_bytes(READABLE_LEVELS as nat) ==> json_of_bytes(json_bytes(self@)) == Reading::Ok(self@),
    {
        let value = value_of_json(self);
        value_to_vec(&value)
    }

    /// Writes compact JSON text.
    pub fn to_text(&self) -> (written: Result<String, String>)
        ensures
            written is Ok,
            written->Ok_0@ == json_text(self@),
            self@.survives_text(READABLE_LEVELS as nat) ==> json_of_text(json_text(self@)) == Reading::Ok(self@),
    {
        let value = value_of_json(self);
        value_to_string(&value)
    }
}

/// The views of items are those of the items themselves, each at its place and
/// none left out.
pub proof fn lemma_item_views_are_whole(items: Seq<Json>, i: int)
    requires
        0 <= i < items.len(),
    ensures
        item_views(items).len() == items.len(),
        item_views(items)[i] == items[i]@,
{
}

/// An object has the members of its map and no others; what is no object has
/// none.
pub proof fn lemma_members_are_those_of_the_map(members: Map<Seq<char>, JsonView>, other: JsonView, name: Seq<char>)
    ensures
        members.contains_key(name) ==> JsonView::Object(members).member(name) == Some(members[name]),
        !members.contains_key(name) ==> JsonView::Object(members).member(name) is None,
        !(other is Object) ==> other.member(name) is None,
{
}

/// After a member of an object is set, it is found, and every other member is
/// what it was. A `null` has no other.
pub proof fn lemma_set_member_is_found(value: JsonView, name: Seq<char>, item: JsonView, other: Seq<char>)
    requires
        value is Object || value is Null,
    ensures
        value.with_member(name, item) is Object,
        value.with_member(name, item).member(name) == Some(item),
        other != name ==> value.with_member(name, item).member(other) == value.member(other),
{
}

/// What is float-free within a depth is made of nothing but parts that are, one
/// level less deep; integers and what holds no numbers are so at any depth.
pub proof fn lemma_float_free_part_by_part(value: JsonView, levels: nat)
    ensures
        value.float_free_within(levels) <==> match value {
            JsonView::Number(n) => number_is_i64(n) || number_is_u64(n),
            JsonView::Array(items) => levels > 0 && forall|i: int|
                0 <= i < items.len() ==> (#[trigger] items[i]).float_free_within((levels - 1) as nat),
            JsonView::Object(members) => levels > 0 && forall|name: Seq<char>|
                members.contains_key(name) ==> (#[trigger] members[name]).float_free_within((levels - 1) as nat),
            JsonView::Null => true,
            JsonView::Bool(_) => true,
            JsonView::String(_) => true,
        },
{
}

} // verus!
