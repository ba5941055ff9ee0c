//! JSON documents: the tree that the rules read, and its bytes.

use vstd::prelude::*;

use crate::text::text_eq;

verus! {

/// A number of a JSON document. The rules carry it along and never look into it.
#[verifier::external_type_specification]
#[verifier::external_body]
pub struct ExNumber(serde_json::Number);

/// A document as `serde_json` holds it.
#[verifier::external_type_specification]
#[verifier::external_body]
pub struct ExValue(serde_json::Value);

/// The members of an object as `serde_json` holds them.
#[verifier::external_type_specification]
#[verifier::external_body]
#[verifier::reject_recursive_types(K)]
#[verifier::reject_recursive_types(V)]
pub struct ExMembers<K, V>(serde_json::Map<K, V>);

/// Why `serde_json` could not read or write a document.
#[verifier::external_type_specification]
#[verifier::external_body]
pub struct ExJsonError(serde_json::Error);

/// A JSON document. Of two members of an object with the same key, the later one counts.
#[derive(Debug, PartialEq)]
pub enum Json {
    Null,
    Bool(bool),
    Number(serde_json::Number),
    Text(String),
    Array(Vec<Json>),
    Object(Vec<(String, Json)>),
}

/// What a JSON document says.
pub enum JsonView {
    Null,
    Bool(bool),
    Number(serde_json::Number),
    Text(Seq<char>),
    Array(Seq<JsonView>),
    Object(Map<Seq<char>, JsonView>),
}

impl JsonView {
    /// The member of an object with the given key.
    pub open spec fn get(self, key: Seq<char>) -> Option<JsonView> {
        match self {
            JsonView::Object(members) => if members.contains_key(key) {
                Some(members[key])
            } else {
                None
            },
            _ => None,
        }
    }

    /// The characters, where the document is a text.
    pub open spec fn as_text(self) -> Option<Seq<char>> {
        match self {
            JsonView::Text(s) => Some(s),
            _ => None,
        }
    }

    /// The flag, where the document is a boolean.
    pub open spec fn as_bool(self) -> Option<bool> {
        match self {
            JsonView::Bool(b) => Some(b),
            _ => None,
        }
    }

    /// The items, where the document is an array.
    pub open spec fn as_array(self) -> Option<Seq<JsonView>> {
        match self {
            JsonView::Array(items) => Some(items),
            _ => None,
        }
    }

    /// The text that an object holds under a key.
    pub open spec fn text_at(self, key: Seq<char>) -> Option<Seq<char>> {
        match self.get(key) {
            Some(member) => member.as_text(),
            None => None,
        }
    }

    /// The flag that an object holds under a key.
    pub open spec fn bool_at(self, key: Seq<char>) -> Option<bool> {
        match self.get(key) {
            Some(member) => member.as_bool(),
            None => None,
        }
    }

    /// The items that an object holds under a key.
    pub open spec fn array_at(self, key: Seq<char>) -> Option<Seq<JsonView>> {
        match self.get(key) {
            Some(member) => member.as_array(),
            None => None,
        }
    }
}

/// What a document says.
pub open spec fn tree_of(value: Json) -> JsonView
    decreases value,
{
    match value {
        Json::Null => JsonView::Null,
        Json::Bool(b) => JsonView::Bool(b),
        Json::Number(n) => JsonView::Number(n),
        Json::Text(s) => JsonView::Text(s@),
        Json::Array(items) => JsonView::Array(trees_of(items@)),
        Json::Object(members) => JsonView::Object(members_of(members@)),
    }
}

/// What each item of an array says.
pub open spec fn trees_of(items: Seq<Json>) -> Seq<JsonView>
    decreases items,
{
    if items.len() == 0 {
        Seq::empty()
    } else {
        trees_of(items.drop_last()).push(tree_of(items.last()))
    }
}

/// What the members of an object say; a later member replaces an earlier one with its key.
pub open spec fn members_of(members: Seq<(String, Json)>) -> Map<Seq<char>, JsonView>
    decreases members,
{
    if members.len() == 0 {
        Map::empty()
    } else {
        members_of(members.drop_last()).insert(members.last().0@, tree_of(members.last().1))
    }
}

impl View for Json {
    type V = JsonView;

    open spec fn view(&self) -> JsonView {
        tree_of(*self)
    }
}

proof fn lemma_trees_of(items: Seq<Json>)
    ensures
        trees_of(items).len() == items.len(),
        forall|i: int| 0 <= i < items.len() ==> #[trigger] trees_of(items)[i] == tree_of(items[i]),
    decreases items.len(),
{
    if items.len() > 0 {
        lemma_trees_of(items.drop_last());
    }
}

/// The items of an array say what the array says, one for one.
pub broadcast proof fn lemma_array_items(items: Seq<Json>, i: int)
    requires
        0 <= i < items.len(),
    ensures
        #[trigger] trees_of(items)[i] == tree_of(items[i]),
{
    lemma_trees_of(items);
}

/// An array says as many things as it has items.
pub broadcast proof fn lemma_array_len(items: Seq<Json>)
    ensures
        #[trigger] trees_of(items).len() == items.len(),
{
    lemma_trees_of(items);
}

impl Json {
    /// The member of an object with the given key.
    pub fn get(&self, key: &str) -> (r: Option<&Json>)
        ensures
            match r {
                Some(member) => self@.get(key@) == Some(member@),
                None => self@.get(key@) is None,
            },
    {
        match self {
            Json::Object(members) => {
                let mut i: usize = members.len();
                assert(members@.take(i as int) =~= members@);
                while i > 0
                    invariant
                        i <= members.len(),
                        *self == Json::Object(*members),
                        members_of(members@).contains_key(key@) == members_of(
                            members@.take(i as int),
                        ).contains_key(key@),
                        members_of(members@).contains_key(key@) ==> members_of(members@)[key@]
                            == members_of(members@.take(i as int))[key@],
                    decreases i,
                {
                    assert(members@.take(i as int).drop_last() =~= members@.take(i - 1));
                    if text_eq(members[i - 1].0.as_str(), key) {
                        return Some(&members[i - 1].1);
                    }
                    i -= 1;
                }
                None
            },
            _ => None,
        }
    }

    /// The characters, where the document is a text.
    pub fn as_text(&self) -> (r: Option<&String>)
        ensures
            match r {
                Some(s) => self@.as_text() == Some(s@),
                None => self@.as_text() is None,
            },
    {
        match self {
            Json::Text(s) => Some(s),
            _ => None,
        }
    }

    /// The flag, where the document is a boolean.
    pub fn as_bool(&self) -> (r: Option<bool>)
        ensures
            r == self@.as_bool(),
    {
        match self {
            Json::Bool(b) => Some(*b),
            _ => None,
        }
    }

    /// The items, where the document is an array.
    pub fn as_array(&self) -> (r: Option<&Vec<Json>>)
        ensures
            match r {
                Some(items) => self@.as_array() == Some(trees_of(items@)),
                None => self@.as_array() is None,
            },
    {
        match self {
            Json::Array(items) => Some(items),
            _ => None,
        }
    }

    /// The text that an object holds under a key.
    pub fn text_at(&self, key: &str) -> (r: Option<&String>)
        ensures
            match r {
                Some(s) => self@.text_at(key@) == Some(s@),
                None => self@.text_at(key@) is None,
            },
    {
        match self.get(key) {
            Some(member) => member.as_text(),
            None => None,
        }
    }

    /// The flag that an object holds under a key.
    pub fn bool_at(&self, key: &str) -> (r: Option<bool>)
        ensures
            r == self@.bool_at(key@),
    {
        match self.get(key) {
            Some(member) => member.as_bool(),
            None => None,
        }
    }

    /// The items that an object holds under a key.
    pub fn array_at(&self, key: &str) -> (r: Option<&Vec<Json>>)
        ensures
            match r {
                Some(items) => self@.array_at(key@) == Some(trees_of(items@)),
                None => self@.array_at(key@) is None,
            },
    {
        match self.get(key) {
            Some(member) => member.as_array(),
            None => None,
        }
    }
}

/// What a `serde_json::Value` holds.
pub uninterp spec fn value_tree(value: serde_json::Value) -> JsonView;

/// What a `serde_json::Map` holds under each key.
pub uninterp spec fn map_contents(members: serde_json::Map<String, serde_json::Value>) -> Map<
    Seq<char>,
    JsonView,
>;

/// The document that `serde_json::from_slice` reads from bytes, if it reads one.
pub uninterp spec fn json_document(bytes: Seq<u8>) -> Option<JsonView>;

/// The bytes that `serde_json::to_vec` writes for a document.
pub uninterp spec fn json_bytes(document: JsonView) -> Seq<u8>;

/// The outermost layer of a `serde_json::Value`.
enum Layer {
    Null,
    Bool(bool),
    Number(serde_json::Number),
    Text(String),
    Array(Vec<serde_json::Value>),
    Object(serde_json::Map<String, serde_json::Value>),
}

/// What a layer says, with what lies below it.
spec fn layer_tree(layer: Layer) -> JsonView {
    match layer {
        Layer::Null => JsonView::Null,
        Layer::Bool(b) => JsonView::Bool(b),
        Layer::Number(n) => JsonView::Number(n),
        Layer::Text(s) => JsonView::Text(s@),
        Layer::Array(items) => JsonView::Array(
            items@.map_values(|item: serde_json::Value| value_tree(item)),
        ),
        Layer::Object(members) => JsonView::Object(map_contents(members)),
    }
}

/// `serde_json::from_slice` into a `serde_json::Value`: whether the bytes are a
/// document, and which one, depends on the bytes alone.
#[verifier::external_body]
fn value_from_slice(bytes: &[u8]) -> (r: Result<serde_json::Value, serde_json::Error>)
    ensures
        match r {
            Ok(value) => json_document(bytes@) == Some(value_tree(value)),
            Err(_) => json_document(bytes@) is None,
        },
{
    serde_json::from_slice(bytes)
}

/// `serde_json::to_vec` of a `serde_json::Value`: every value can be written, since
/// its keys are texts and a vector takes any bytes, and the bytes depend on what the
/// value holds alone. The members of an object are kept sorted by key, so no order
/// of insertion shows.
#[verifier::external_body]
fn value_to_vec(value: &serde_json::Value) -> (r: Result<Vec<u8>, serde_json::Error>)
    ensures
        r is Ok,
        r->Ok_0@ == json_bytes(value_tree(*value)),
{
    serde_json::to_vec(value)
}

/// Takes a `serde_json::Value` apart into its variant and the variant's field.
#[verifier::external_body]
fn open_value(value: serde_json::Value) -> (r: Layer)
    ensures
        layer_tree(r) == value_tree(value),
{
    match value {
        serde_json::Value::Null => Layer::Null,
        serde_json::Value::Bool(b) => Layer::Bool(b),
        serde_json::Value::Number(n) => Layer::Number(n),
        serde_json::Value::String(s) => Layer::Text(s),
        serde_json::Value::Array(items) => Layer::Array(items),
        serde_json::Value::Object(members) => Layer::Object(members),
    }
}

/// Makes a `serde_json::Value` of the variant that a layer names.
#[verifier::external_body]
fn close_value(layer: Layer) -> (r: serde_json::Value)
    ensures
        value_tree(r) == layer_tree(layer),
{
    match layer {
        Layer::Null => serde_json::Value::Null,
        Layer::Bool(b) => serde_json::Value::Bool(b),
        Layer::Number(n) => serde_json::Value::Number(n),
        Layer::Text(s) => serde_json::Value::String(s),
        Layer::Array(items) => serde_json::Value::Array(items),
        Layer::Object(members) => serde_json::Value::Object(members),
    }
}

/// `serde_json::Map::new`: the map holds nothing.
#[verifier::external_body]
fn new_members() -> (r: serde_json::Map<String, serde_json::Value>)
    ensures
        map_contents(r).dom() == Set::<Seq<char>>::empty(),
{
    serde_json::Map::new()
}

/// `serde_json::Map::insert`: the key now has the value, whatever it had before.
#[verifier::external_body]
fn insert_member(
    members: &mut serde_json::Map<String, serde_json::Value>,
    key: String,
    value: serde_json::Value,
)
    ensures
        map_contents(*final(members)) == map_contents(*old(members)).insert(
            key@,
            value_tree(value),
        ),
{
    members.insert(key, value);
}

/// `serde_json::Map::into_iter`: every member comes out once, and no key twice.
#[verifier::external_body]
fn list_members(members: serde_json::Map<String, serde_json::Value>) -> (r: Vec<
    (String, serde_json::Value),
>)
    ensures
        forall|i: int|
            0 <= i < r.len() ==> map_contents(members).contains_key(#[trigger] r@[i].0@)
                && map_contents(members)[r@[i].0@] == value_tree(r@[i].1),
        forall|key: Seq<char>| #[trigger]
            map_contents(members).contains_key(key) ==> exists|i: int|
                0 <= i < r.len() && #[trigger] r@[i].0@ == key,
        forall|i: int, j: int| 0 <= i < j < r.len() ==> #[trigger] r@[i].0@ != #[trigger] r@[j].0@,
{
    members.into_iter().collect()
}

/// A document that `serde_json` read, as a tree of the library.
fn decode(value: serde_json::Value) -> (r: Json)
    ensures
        r@ == value_tree(value),
    decreases value_tree(value),
{
    match open_value(value) {
        Layer::Null => Json::Null,
        Layer::Bool(b) => Json::Bool(b),
        Layer::Number(n) => Json::Number(n),
        Layer::Text(s) => Json::Text(s),
        Layer::Array(items) => {
            let ghost all = items@;
            let ghost trees = all.map_values(|item: serde_json::Value| value_tree(item));
            let mut decoded: Vec<Json> = Vec::new();
            for item in it: items
                invariant
                    it.seq() == all,
                    value_tree(value) == JsonView::Array(trees),
                    trees == all.map_values(|item: serde_json::Value| value_tree(item)),
                    trees_of(decoded@) == trees.take(it.index() as int),
                    decoded@.len() == it.index(),
            {
                let ghost before = decoded@;
                assert(trees[it.index() as int] == value_tree(item));
                assert(decreases_to!(value_tree(value) => value_tree(value)->Array_0));
                assert(decreases_to!(trees => trees[it.index() as int]));
                decoded.push(decode(item));
                assert(decoded@.drop_last() =~= before);
                assert(trees.take(it.index() + 1) =~= trees.take(it.index() as int).push(
                    value_tree(item),
                ));
            }
            assert(trees.take(all.len() as int) =~= trees);
            Json::Array(decoded)
        },
        Layer::Object(members) => {
            let ghost contents = map_contents(members);
            let listed = list_members(members);
            let ghost all = listed@;
            proof {
                let keys = all.map_values(|member: (String, serde_json::Value)| member.0@);
                assert forall|key: Seq<char>| contents.contains_key(key) implies keys.contains(
                    key,
                ) by {
                    let i = choose|i: int| 0 <= i < all.len() && #[trigger] all[i].0@ == key;
                    assert(keys[i] == key);
                }
                assert(contents.dom() =~= keys.to_set());
                vstd::seq_lib::seq_to_set_is_finite(keys);
            }
            let mut decoded: Vec<(String, Json)> = Vec::new();
            for member in it: listed
                invariant
                    it.seq() == all,
                    value_tree(value) == JsonView::Object(contents),
                    contents.dom().finite(),
                    decoded@.len() == it.index(),
                    forall|i: int|
                        0 <= i < all.len() ==> contents.contains_key(#[trigger] all[i].0@)
                            && contents[all[i].0@] == value_tree(all[i].1),
                    forall|i: int|
                        0 <= i < it.index() ==> members_of(decoded@).contains_key(
                            #[trigger] all[i].0@,
                        ),
                    forall|key: Seq<char>| #[trigger]
                        members_of(decoded@).contains_key(key) ==> contents.contains_key(key)
                            && members_of(decoded@)[key] == contents[key],
            {
                let ghost before = decoded@;
                let (key, item) = member;
                assert(member == all[it.index() as int]);
                assert(contents[key@] == value_tree(item));
                assert(decreases_to!(value_tree(value) => value_tree(value)->Object_0));
                assert(decreases_to!(contents => contents[key@]));
                decoded.push((key, decode(item)));
                assert(decoded@.drop_last() =~= before);
                assert(contents.contains_key(member.0@));
                assert(members_of(decoded@) == members_of(before).insert(
                    member.0@,
                    contents[member.0@],
                ));
            }
            assert(members_of(decoded@) =~= contents);
            Json::Object(decoded)
        },
    }
}

/// A tree of the library, as `serde_json` holds it.
fn encode(value: Json) -> (r: serde_json::Value)
    ensures
        value_tree(r) == value@,
    decreases value,
{
    match value {
        Json::Null => close_value(Layer::Null),
        Json::Bool(b) => close_value(Layer::Bool(b)),
        Json::Number(n) => close_value(Layer::Number(n)),
        Json::Text(s) => close_value(Layer::Text(s)),
        Json::Array(items) => {
            let ghost all = items@;
            let mut encoded: Vec<serde_json::Value> = Vec::new();
            for item in it: items
                invariant
                    it.seq() == all,
                    value == Json::Array(items),
                    all == items@,
                    encoded@.map_values(|item: serde_json::Value| value_tree(item)) == trees_of(
                        all.take(it.index() as int),
                    ),
                    encoded@.len() == it.index(),
            {
                assert(item == all[it.index() as int]);
                assert(decreases_to!(value => value->Array_0));
                assert(decreases_to!(value->Array_0 => value->Array_0@));
                assert(decreases_to!(all => all[it.index() as int]));
                assert(all.take(it.index() + 1).drop_last() =~= all.take(it.index() as int));
                encoded.push(encode(item));
                assert(encoded@.map_values(|item: serde_json::Value| value_tree(item)) =~= trees_of(
                    all.take(it.index() + 1),
                ));
            }
            assert(all.take(all.len() as int) =~= all);
            close_value(Layer::Array(encoded))
        },
        Json::Object(members) => {
            let ghost all = members@;
            let mut encoded: serde_json::Map<String, serde_json::Value> = new_members();
            assert(map_contents(encoded) =~= members_of(all.take(0)));
            for member in it: members
                invariant
                    it.seq() == all,
                    value == Json::Object(members),
                    all == members@,
                    map_contents(encoded) == members_of(all.take(it.index() as int)),
            {
                assert(all.take(it.index() + 1).drop_last() =~= all.take(it.index() as int));
                assert(member == all[it.index() as int]);
                assert(decreases_to!(value => value->Object_0));
                assert(decreases_to!(value->Object_0 => value->Object_0@));
                assert(decreases_to!(all => all[it.index() as int]));
                assert(decreases_to!(member => member.1));
                let (key, item) = member;
                insert_member(&mut encoded, key, encode(item));
            }
            assert(all.take(all.len() as int) =~= all);
            close_value(Layer::Object(encoded))
        },
    }
}

/// The document that bytes spell, if they spell one.
pub fn parse_json(bytes: &[u8]) -> (r: Option<Json>)
    ensures
        match r {
            Some(document) => json_document(bytes@) == Some(document@),
            None => json_document(bytes@) is None,
        },
{
    match value_from_slice(bytes) {
        Ok(value) => Some(decode(value)),
        Err(_) => None,
    }
}

/// The bytes that spell a document.
pub fn write_json(document: Json) -> (r: Vec<u8>)
    ensures
        r@ == json_bytes(document@),
{
    let value: serde_json::Value = encode(document);
    value_to_vec(&value).unwrap()
}

/// A document says what it holds: texts and flags as they are, every item of an array
/// in its place, and under each key of an object what the last member with it holds.
pub proof fn law_documents_say_what_they_hold(
    text: String,
    flag: bool,
    items: Vec<Json>,
    members: Vec<(String, Json)>,
    i: int,
)
    ensures
        Json::Null@ is Null,
        Json::Bool(flag)@ == JsonView::Bool(flag),
        Json::Text(text)@ == JsonView::Text(text@),
        Json::Array(items)@ matches JsonView::Array(trees) && trees.len() == items@.len() && (0 <= i
            < items@.len() ==> trees[i] == items@[i]@),
        0 <= i < members@.len() && (forall|k: int|
            i < k < members@.len() ==> (#[trigger] members@[k]).0@ != members@[i].0@) ==> (
        Json::Object(members)@.get(members@[i].0@) == Some(members@[i].1@)),
{
    lemma_trees_of(items@);
    if 0 <= i < members@.len() && (forall|k: int|
        i < k < members@.len() ==> (#[trigger] members@[k]).0@ != members@[i].0@) {
        lemma_last_member(members@, i);
    }
}

proof fn lemma_last_member(members: Seq<(String, Json)>, i: int)
    requires
        0 <= i < members.len(),
        forall|k: int| i < k < members.len() ==> (#[trigger] members[k]).0@ != members[i].0@,
    ensures
        members_of(members).contains_key(members[i].0@),
        members_of(members)[members[i].0@] == tree_of(members[i].1),
    decreases members.len(),
{
    if i < members.len() - 1 {
        let shorter = members.drop_last();
        assert forall|k: int| i < k < shorter.len() implies (#[trigger] shorter[k]).0@
            != shorter[i].0@ by {
            assert(members[k].0@ != members[i].0@);
        }
        lemma_last_member(shorter, i);
        assert(members[members.len() - 1].0@ != members[i].0@);
    }
}

/// What an object holds under a key is found there, and nothing is found where it
/// holds nothing; nothing but an object holds anything under a key.
pub proof fn law_members_are_found_under_their_keys(
    members: Map<Seq<char>, JsonView>,
    key: Seq<char>,
    other: JsonView,
)
    ensures
        JsonView::Object(members).get(key) is Some <==> members.contains_key(key),
        members.contains_key(key) ==> JsonView::Object(members).get(key) == Some(members[key]),
        !(other is Object) ==> other.get(key) is None,
        other.as_text() is Some <==> other is Text,
        other.as_bool() is Some <==> other is Bool,
        other.as_array() is Some <==> other is Array,
        other.as_text() matches Some(text) ==> other == JsonView::Text(text),
        other.as_bool() matches Some(flag) ==> other == JsonView::Bool(flag),
        other.as_array() matches Some(items) ==> other == JsonView::Array(items),
{
}

} // verus!
