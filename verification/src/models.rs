//! Model discovery: which chat models an answer of the service lists.

use vstd::hash_set::StringHashSet;
use vstd::prelude::*;
use vstd::utf8::encode_utf8;

use crate::json::json_document;
use crate::json::lemma_array_items;
use crate::json::lemma_array_len;
use crate::json::trees_of;
use crate::json::Json;
use crate::json::JsonView;
use crate::reply::json_failure;
use crate::reply::read_json;
use crate::text::byte_len;
use crate::text::byte_length;
use crate::text::fits;
use crate::text::has_control;
use crate::text::is_blank;
use crate::text::is_control;
use crate::text::is_white_space;
use crate::text::law_trimming_cuts_white_space_alone;
use crate::text::text_eq;
use crate::text::text_has_control;
use crate::text::trimmed;

verus! {

broadcast use {lemma_array_items, lemma_array_len};

/// Where the service lists its models.
pub const MODELS_URL: &'static str = "https://aipass.one/oauth2/v1/models";

/// A chat model that the service offers.
#[derive(Debug, PartialEq)]
pub struct AiPassModel {
    pub id: String,
    pub name: String,
    pub supports_vision: bool,
}

impl Clone for AiPassModel {
    fn clone(&self) -> (r: Self)
        ensures
            r == *self,
    {
        AiPassModel {
            id: self.id.clone(),
            name: self.name.clone(),
            supports_vision: self.supports_vision,
        }
    }
}

/// What a model is called and can do.
pub struct ModelView {
    pub id: Seq<char>,
    pub name: Seq<char>,
    pub supports_vision: bool,
}

impl View for AiPassModel {
    type V = ModelView;

    open spec fn view(&self) -> ModelView {
        ModelView {
            id: self.id@,
            name: self.name@,
            supports_vision: self.supports_vision,
        }
    }
}

/// The models of a list, in its order.
pub open spec fn model_views(models: Seq<AiPassModel>) -> Seq<ModelView> {
    models.map_values(|model: AiPassModel| model@)
}

/// A model identifier is not blank, has at most 256 bytes and no control character.
pub open spec fn is_model_id(id: Seq<char>) -> bool {
    &&& trimmed(id).len() > 0
    &&& byte_len(id) <= 256
    &&& !has_control(id)
}

/// An array lists a text.
pub open spec fn lists_text(items: Option<Seq<JsonView>>, wanted: Seq<char>) -> bool {
    match items {
        Some(items) => exists|i: int|
            0 <= i < items.len() && #[trigger] items[i] == JsonView::Text(wanted),
        None => false,
    }
}

/// The name of a model: the first text among `name` and `display_name`, unless it
/// is empty or has more than 256 bytes; the identifier otherwise.
pub open spec fn name_of_model(entry: JsonView, id: Seq<char>) -> Seq<char> {
    let found = match entry.text_at("name"@) {
        Some(name) => Some(name),
        None => entry.text_at("display_name"@),
    };
    match found {
        Some(name) => if name.len() > 0 && byte_len(name) <= 256 {
            name
        } else {
            id
        },
        None => id,
    }
}

/// An entry says in one of five ways that its model reads images.
pub open spec fn sees_images(entry: JsonView) -> bool {
    ||| entry.bool_at("supports_vision"@) == Some(true)
    ||| entry.bool_at("vision"@) == Some(true)
    ||| entry.get("capabilities"@) is Some && entry.get("capabilities"@)->0.bool_at("vision"@)
        == Some(true)
    ||| lists_text(entry.array_at("capabilities"@), "vision"@)
    ||| lists_text(entry.array_at("input_modalities"@), "image"@)
}

/// An entry offers chat: `methods` decides where it is present, and otherwise
/// chat is offered unless the capabilities deny it.
pub open spec fn offers_chat(entry: JsonView) -> bool {
    match entry.get("methods"@) {
        Some(methods) => lists_text(methods.as_array(), "chat_completions"@),
        None => match entry.get("capabilities"@) {
            Some(capabilities) => capabilities.bool_at("chat"@) != Some(false),
            None => true,
        },
    }
}

/// What one entry of a list comes to.
pub enum EntryView {
    /// The whole list is refused, for this reason.
    Malformed(Seq<char>),
    /// The entry is well formed, but no chat model.
    Hidden,
    /// The entry offers a chat model.
    Listed(ModelView),
}

/// What an entry comes to; only the bare array of earlier days lists bare texts.
pub open spec fn entry_meaning(entry: JsonView, legacy_array: bool) -> EntryView {
    match entry {
        JsonView::Text(id) => if !legacy_array {
            EntryView::Malformed("AI Pass model discovery returned an invalid model entry."@)
        } else if !is_model_id(id) {
            EntryView::Malformed("AI Pass model discovery returned an invalid model identifier."@)
        } else {
            EntryView::Listed(ModelView { id, name: id, supports_vision: false })
        },
        JsonView::Object(_) => match entry.text_at("id"@) {
            Some(id) => if !is_model_id(id) {
                EntryView::Malformed(
                    "AI Pass model discovery returned an invalid model identifier."@,
                )
            } else if !offers_chat(entry) {
                EntryView::Hidden
            } else {
                EntryView::Listed(
                    ModelView {
                        id,
                        name: name_of_model(entry, id),
                        supports_vision: sees_images(entry),
                    },
                )
            },
            None => EntryView::Malformed(
                "AI Pass model discovery returned an invalid model identifier."@,
            ),
        },
        _ => EntryView::Malformed("AI Pass model discovery returned an invalid model entry."@),
    }
}

/// A list holds a model with the given identifier.
pub open spec fn has_model(models: Seq<ModelView>, id: Seq<char>) -> bool {
    exists|i: int| 0 <= i < models.len() && #[trigger] models[i].id == id
}

/// The models that entries list, each identifier once and where it came first;
/// or the reason of the first malformed entry.
pub open spec fn listed_models(entries: Seq<JsonView>, legacy_array: bool) -> Result<
    Seq<ModelView>,
    Seq<char>,
>
    decreases entries.len(),
{
    if entries.len() == 0 {
        Ok(Seq::empty())
    } else {
        match listed_models(entries.drop_last(), legacy_array) {
            Err(reason) => Err(reason),
            Ok(models) => match entry_meaning(entries.last(), legacy_array) {
                EntryView::Malformed(reason) => Err(reason),
                EntryView::Hidden => Ok(models),
                EntryView::Listed(model) => if has_model(models, model.id) {
                    Ok(models)
                } else {
                    Ok(models.push(model))
                },
            },
        }
    }
}

/// The entries of an answer, and whether it is the bare array of earlier days.
pub open spec fn answer_entries(answer: JsonView) -> Result<(Seq<JsonView>, bool), Seq<char>> {
    match answer {
        JsonView::Array(entries) => Ok((entries, true)),
        JsonView::Object(_) => if answer.text_at("object"@) != Some("list"@) {
            Err("AI Pass model discovery returned an invalid list."@)
        } else {
            match answer.array_at("data"@) {
                Some(entries) => Ok((entries, false)),
                None => Err("AI Pass model discovery returned an invalid list."@),
            }
        },
        _ => Err("AI Pass model discovery returned an invalid response."@),
    }
}

/// The chat models that an answer lists, or why it is refused.
pub open spec fn discovered_models(answer: JsonView) -> Result<Seq<ModelView>, Seq<char>> {
    match answer_entries(answer) {
        Err(reason) => Err(reason),
        Ok((entries, legacy_array)) => match listed_models(entries, legacy_array) {
            Err(reason) => Err(reason),
            Ok(models) => if models.len() == 0 {
                Err("AI Pass did not return any usable chat models."@)
            } else {
                Ok(models)
            },
        },
    }
}

/// Refuses a text that is no model identifier.
pub fn validate_model_id(id: &str) -> (r: Result<(), String>)
    ensures
        match r {
            Ok(_) => is_model_id(id@),
            Err(reason) => !is_model_id(id@) && reason@
                == "AI Pass model discovery returned an invalid model identifier."@,
        },
{
    if is_blank(id) || byte_length(id) > 256 || text_has_control(id) {
        return Err("AI Pass model discovery returned an invalid model identifier.".to_owned());
    }
    Ok(())
}

/// Whether an array lists a text.
fn array_lists(array: Option<&Vec<Json>>, wanted: &str) -> (r: bool)
    ensures
        r == lists_text(
            match array {
                Some(items) => Some(trees_of(items@)),
                None => None,
            },
            wanted@,
        ),
{
    match array {
        Some(items) => {
            let mut i: usize = 0;
            while i < items.len()
                invariant
                    i <= items.len(),
                    array == Some(items),
                    forall|k: int|
                        0 <= k < i ==> #[trigger] trees_of(items@)[k] != JsonView::Text(wanted@),
                decreases items.len() - i,
            {
                assert(trees_of(items@)[i as int] == items@[i as int]@);
                if let Json::Text(text) = &items[i] {
                    if text_eq(text.as_str(), wanted) {
                        assert(trees_of(items@)[i as int] == JsonView::Text(wanted@));
                        return true;
                    }
                }
                i += 1;
            }
            false
        },
        None => false,
    }
}

/// The name that an entry gives to its model.
pub fn model_name(entry: &Json, id: &str) -> (r: String)
    ensures
        r@ == name_of_model(entry@, id@),
{
    let found: Option<&String> = match entry.text_at("name") {
        Some(name) => Some(name),
        None => entry.text_at("display_name"),
    };
    match found {
        Some(name) => if !name.as_str().is_empty() && byte_length(name.as_str()) <= 256 {
            name.clone()
        } else {
            id.to_owned()
        },
        None => id.to_owned(),
    }
}

/// Whether an entry says that its model reads images.
pub fn model_supports_vision(entry: &Json) -> (r: bool)
    ensures
        r == sees_images(entry@),
{
    if let Some(true) = entry.bool_at("supports_vision") {
        return true;
    }
    if let Some(true) = entry.bool_at("vision") {
        return true;
    }
    if let Some(capabilities) = entry.get("capabilities") {
        if let Some(true) = capabilities.bool_at("vision") {
            return true;
        }
    }
    array_lists(entry.array_at("capabilities"), "vision") || array_lists(
        entry.array_at("input_modalities"),
        "image",
    )
}

/// Whether an entry offers chat.
pub fn model_supports_chat(entry: &Json) -> (r: bool)
    ensures
        r == offers_chat(entry@),
{
    if let Some(methods) = entry.get("methods") {
        return array_lists(methods.as_array(), "chat_completions");
    }
    if let Some(capabilities) = entry.get("capabilities") {
        if let Some(false) = capabilities.bool_at("chat") {
            return false;
        }
    }
    true
}

/// The model that an entry lists, if it lists one.
fn read_entry(entry: &Json, legacy_array: bool) -> (r: Result<Option<AiPassModel>, String>)
    ensures
        match r {
            Err(reason) => entry_meaning(entry@, legacy_array) == EntryView::Malformed(reason@),
            Ok(None) => entry_meaning(entry@, legacy_array) == EntryView::Hidden,
            Ok(Some(model)) => entry_meaning(entry@, legacy_array) == EntryView::Listed(model@),
        },
{
    match entry {
        Json::Text(id) => {
            if !legacy_array {
                return Err("AI Pass model discovery returned an invalid model entry.".to_owned());
            }
            match validate_model_id(id.as_str()) {
                Err(reason) => Err(reason),
                Ok(_) => Ok(
                    Some(AiPassModel { id: id.clone(), name: id.clone(), supports_vision: false }),
                ),
            }
        },
        Json::Object(_) => match entry.text_at("id") {
            None => Err(
                "AI Pass model discovery returned an invalid model identifier.".to_owned(),
            ),
            Some(id) => match validate_model_id(id.as_str()) {
                Err(reason) => Err(reason),
                Ok(_) => if !model_supports_chat(entry) {
                    Ok(None)
                } else {
                    Ok(
                        Some(
                            AiPassModel {
                                id: id.clone(),
                                name: model_name(entry, id.as_str()),
                                supports_vision: model_supports_vision(entry),
                            },
                        ),
                    )
                },
            },
        },
        _ => Err("AI Pass model discovery returned an invalid model entry.".to_owned()),
    }
}

/// Once the first entries are refused, so is the list that they begin.
proof fn lemma_refusal_stays(entries: Seq<JsonView>, legacy_array: bool, n: int)
    requires
        0 <= n <= entries.len(),
        listed_models(entries.take(n), legacy_array) is Err,
    ensures
        listed_models(entries, legacy_array) == listed_models(entries.take(n), legacy_array),
    decreases entries.len(),
{
    if n == entries.len() {
        assert(entries.take(n) =~= entries);
    } else {
        assert(entries.drop_last().take(n) =~= entries.take(n));
        lemma_refusal_stays(entries.drop_last(), legacy_array, n);
    }
}

/// The chat models that the entries of a list offer.
fn read_entries(entries: &Vec<Json>, legacy_array: bool) -> (r: Result<Vec<AiPassModel>, String>)
    ensures
        match r {
            Err(reason) => listed_models(trees_of(entries@), legacy_array) == Err::<
                Seq<ModelView>,
                Seq<char>,
            >(reason@),
            Ok(models) => listed_models(trees_of(entries@), legacy_array) == Ok::<
                Seq<ModelView>,
                Seq<char>,
            >(model_views(models@)),
        },
{
    let ghost trees = trees_of(entries@);
    let mut seen: StringHashSet = StringHashSet::new();
    let mut models: Vec<AiPassModel> = Vec::new();
    let mut i: usize = 0;
    assert(model_views(models@) =~= Seq::empty());
    while i < entries.len()
        invariant
            i <= entries.len(),
            trees == trees_of(entries@),
            listed_models(trees.take(i as int), legacy_array) == Ok::<Seq<ModelView>, Seq<char>>(
                model_views(models@),
            ),
            forall|id: Seq<char>| #[trigger]
                seen@.contains(id) == has_model(model_views(models@), id),
        decreases entries.len() - i,
    {
        let ghost before = model_views(models@);
        assert(trees.take(i + 1).drop_last() =~= trees.take(i as int));
        assert(trees.take(i + 1).last() == entries@[i as int]@);
        match read_entry(&entries[i], legacy_array) {
            Err(reason) => {
                proof {
                    lemma_refusal_stays(trees, legacy_array, i + 1);
                }
                return Err(reason);
            },
            Ok(None) => {},
            Ok(Some(model)) => {
                if seen.insert(model.id.clone()) {
                    models.push(model);
                    assert(model_views(models@) =~= before.push(model@));
                    assert forall|id: Seq<char>| #[trigger]
                        seen@.contains(id) == has_model(model_views(models@), id) by {
                        let after = model_views(models@);
                        if has_model(before, id) {
                            let k = choose|k: int|
                                0 <= k < before.len() && #[trigger] before[k].id == id;
                            assert(after[k].id == id);
                        }
                        if model@.id == id {
                            assert(after[before.len() as int].id == id);
                        }
                        if has_model(after, id) {
                            let k = choose|k: int|
                                0 <= k < after.len() && #[trigger] after[k].id == id;
                            if k < before.len() {
                                assert(before[k].id == id);
                            }
                        }
                    }
                }
            },
        }
        i += 1;
    }
    assert(trees.take(i as int) =~= trees);
    Ok(models)
}

/// The chat models that an answer of the service lists.
pub fn parse_models(answer: &Json) -> (r: Result<Vec<AiPassModel>, String>)
    ensures
        match r {
            Ok(models) => discovered_models(answer@) == Ok::<Seq<ModelView>, Seq<char>>(
                model_views(models@),
            ),
            Err(reason) => discovered_models(answer@) == Err::<Seq<ModelView>, Seq<char>>(reason@),
        },
{
    let (entries, legacy_array): (&Vec<Json>, bool) = match answer {
        Json::Array(entries) => (entries, true),
        Json::Object(_) => {
            let is_list: bool = match answer.text_at("object") {
                Some(object) => text_eq(object.as_str(), "list"),
                None => false,
            };
            if !is_list {
                return Err("AI Pass model discovery returned an invalid list.".to_owned());
            }
            match answer.array_at("data") {
                Some(entries) => (entries, false),
                None => {
                    return Err("AI Pass model discovery returned an invalid list.".to_owned());
                },
            }
        },
        _ => {
            return Err("AI Pass model discovery returned an invalid response.".to_owned());
        },
    };
    match read_entries(entries, legacy_array) {
        Err(reason) => Err(reason),
        Ok(models) => {
            if models.len() == 0 {
                return Err("AI Pass did not return any usable chat models.".to_owned());
            }
            Ok(models)
        },
    }
}

/// The chat models in the body of a reply.
pub fn read_models(body: &[u8]) -> (r: Result<Vec<AiPassModel>, String>)
    ensures
        match json_document(body@) {
            None => r matches Err(reason) && reason@ == json_failure("AI Pass model discovery"@),
            Some(answer) => match r {
                Ok(models) => discovered_models(answer) == Ok::<Seq<ModelView>, Seq<char>>(
                    model_views(models@),
                ),
                Err(reason) => discovered_models(answer) == Err::<Seq<ModelView>, Seq<char>>(
                    reason@,
                ),
            },
        },
{
    match read_json(body, "AI Pass model discovery") {
        Err(reason) => Err(reason),
        Ok(answer) => parse_models(&answer),
    }
}

/// The entry at `i` lists `model`, and no earlier entry lists a model of that identifier.
pub open spec fn first_listing(
    entries: Seq<JsonView>,
    legacy_array: bool,
    model: ModelView,
    i: int,
) -> bool {
    &&& 0 <= i < entries.len()
    &&& entry_meaning(entries[i], legacy_array) == EntryView::Listed(model)
    &&& forall|j: int|
        0 <= j < i ==> (#[trigger] entry_meaning(entries[j], legacy_array) matches EntryView::Listed(
            earlier,
        ) ==> earlier.id != model.id)
}

/// Some entry is the first to list `model`.
pub open spec fn is_listed_first(
    entries: Seq<JsonView>,
    legacy_array: bool,
    model: ModelView,
) -> bool {
    exists|i: int| first_listing(entries, legacy_array, model, i)
}

/// No identifier comes twice.
pub open spec fn ids_distinct(models: Seq<ModelView>) -> bool {
    forall|i: int, j: int|
        0 <= i < j < models.len() ==> (#[trigger] models[i]).id != (#[trigger] models[j]).id
}

/// One malformed entry refuses the whole list: a list is never accepted in part.
pub proof fn law_malformed_entry_refuses_answer(
    answer: JsonView,
    entries: Seq<JsonView>,
    legacy_array: bool,
    i: int,
)
    requires
        answer_entries(answer) == Ok::<(Seq<JsonView>, bool), Seq<char>>((entries, legacy_array)),
        0 <= i < entries.len(),
        entry_meaning(entries[i], legacy_array) is Malformed,
    ensures
        discovered_models(answer) is Err,
{
    let upto = entries.take(i + 1);
    assert(upto.last() == entries[i]);
    assert(listed_models(upto, legacy_array) is Err);
    lemma_refusal_stays(entries, legacy_array, i + 1);
}

proof fn lemma_listing(entries: Seq<JsonView>, legacy_array: bool, models: Seq<ModelView>)
    requires
        listed_models(entries, legacy_array) == Ok::<Seq<ModelView>, Seq<char>>(models),
    ensures
        ids_distinct(models),
        forall|i: int|
            0 <= i < entries.len() ==> (#[trigger] entry_meaning(
                entries[i],
                legacy_array,
            ) matches EntryView::Listed(model) ==> has_model(models, model.id)),
        forall|k: int|
            0 <= k < models.len() ==> is_listed_first(entries, legacy_array, #[trigger] models[k]),
        forall|k1: int, k2: int, i1: int, i2: int|
            0 <= k1 < k2 < models.len() && #[trigger] first_listing(
                entries,
                legacy_array,
                models[k1],
                i1,
            ) && #[trigger] first_listing(entries, legacy_array, models[k2], i2) ==> i1 < i2,
    decreases entries.len(),
{
    if entries.len() > 0 {
        let shorter = entries.drop_last();
        let n = shorter.len() as int;
        let before = listed_models(shorter, legacy_array)->Ok_0;
        lemma_listing(shorter, legacy_array, before);
        assert forall|model: ModelView, i: int|
            first_listing(shorter, legacy_array, model, i) implies #[trigger] first_listing(
            entries,
            legacy_array,
            model,
            i,
        ) by {
            assert(entries[i] == shorter[i]);
            assert forall|j: int| 0 <= j < i implies (#[trigger] entry_meaning(
                entries[j],
                legacy_array,
            ) matches EntryView::Listed(earlier) ==> earlier.id != model.id) by {
                assert(entries[j] == shorter[j]);
                let _ = entry_meaning(shorter[j], legacy_array);
            }
        }
        assert forall|model: ModelView, i: int| #[trigger]
            first_listing(entries, legacy_array, model, i) && i < n implies first_listing(
            shorter,
            legacy_array,
            model,
            i,
        ) by {
            assert(entries[i] == shorter[i]);
            assert forall|j: int| 0 <= j < i implies (#[trigger] entry_meaning(
                shorter[j],
                legacy_array,
            ) matches EntryView::Listed(earlier) ==> earlier.id != model.id) by {
                assert(entries[j] == shorter[j]);
                let _ = entry_meaning(entries[j], legacy_array);
            }
        }
        let last = entry_meaning(entries.last(), legacy_array);
        assert forall|id: Seq<char>| has_model(before, id) implies has_model(models, id) by {
            let k = choose|k: int| 0 <= k < before.len() && #[trigger] before[k].id == id;
            assert(models[k].id == id);
        }
        assert forall|i: int| 0 <= i < entries.len() implies (#[trigger] entry_meaning(
            entries[i],
            legacy_array,
        ) matches EntryView::Listed(model) ==> has_model(models, model.id)) by {
            if i < n {
                assert(entries[i] == shorter[i]);
                let _ = entry_meaning(shorter[i], legacy_array);
            } else if let EntryView::Listed(model) = last {
                if !has_model(before, model.id) {
                    assert(models[before.len() as int].id == model.id);
                }
            }
        }
        assert forall|k: int| 0 <= k < models.len() implies is_listed_first(
            entries,
            legacy_array,
            #[trigger] models[k],
        ) by {
            if k < before.len() {
                assert(models[k] == before[k]);
                let i = choose|i: int| first_listing(shorter, legacy_array, before[k], i);
                assert(first_listing(entries, legacy_array, models[k], i));
            } else {
                assert forall|j: int| 0 <= j < n implies (#[trigger] entry_meaning(
                    entries[j],
                    legacy_array,
                ) matches EntryView::Listed(earlier) ==> earlier.id != models[k].id) by {
                    assert(entries[j] == shorter[j]);
                    let _ = entry_meaning(shorter[j], legacy_array);
                }
                assert(first_listing(entries, legacy_array, models[k], n));
            }
        }
        assert forall|k1: int, k2: int, i1: int, i2: int|
            0 <= k1 < k2 < models.len() && #[trigger] first_listing(
                entries,
                legacy_array,
                models[k1],
                i1,
            ) && #[trigger] first_listing(entries, legacy_array, models[k2], i2) implies i1
            < i2 by {
            assert(is_listed_first(shorter, legacy_array, before[k1]));
            let j1 = choose|i: int| first_listing(shorter, legacy_array, before[k1], i);
            assert(models[k1] == before[k1]);
            assert(first_listing(shorter, legacy_array, before[k1], j1));
            assert(first_listing(entries, legacy_array, models[k1], j1));
            if i1 > j1 {
                let _ = entry_meaning(entries[j1], legacy_array);
            }
            assert(i1 < n);
            if i2 < n {
                assert(first_listing(shorter, legacy_array, models[k1], i1));
                assert(first_listing(shorter, legacy_array, models[k2], i2));
                if k2 < before.len() {
                    assert(models[k2] == before[k2]);
                } else {
                    let _ = entry_meaning(shorter[i2], legacy_array);
                    assert(has_model(before, models[k2].id));
                }
            }
        }
    }
}

/// An accepted answer lists at least one model, each identifier once; the models
/// are those that the chat entries list, each as its first entry describes it,
/// and they stand in the order of those entries.
pub proof fn law_models_are_the_first_listings(
    answer: JsonView,
    entries: Seq<JsonView>,
    legacy_array: bool,
    models: Seq<ModelView>,
)
    requires
        answer_entries(answer) == Ok::<(Seq<JsonView>, bool), Seq<char>>((entries, legacy_array)),
        discovered_models(answer) == Ok::<Seq<ModelView>, Seq<char>>(models),
    ensures
        models.len() > 0,
        ids_distinct(models),
        forall|i: int|
            0 <= i < entries.len() ==> (#[trigger] entry_meaning(
                entries[i],
                legacy_array,
            ) matches EntryView::Listed(model) ==> has_model(models, model.id)),
        forall|k: int|
            0 <= k < models.len() ==> is_listed_first(entries, legacy_array, #[trigger] models[k]),
        forall|k1: int, k2: int, i1: int, i2: int|
            0 <= k1 < k2 < models.len() && #[trigger] first_listing(
                entries,
                legacy_array,
                models[k1],
                i1,
            ) && #[trigger] first_listing(entries, legacy_array, models[k2], i2) ==> i1 < i2,
{
    lemma_listing(entries, legacy_array, models);
}

/// Every model of an accepted answer has a valid identifier.
pub proof fn law_model_ids_are_valid(answer: JsonView, models: Seq<ModelView>, k: int)
    requires
        discovered_models(answer) == Ok::<Seq<ModelView>, Seq<char>>(models),
        0 <= k < models.len(),
    ensures
        is_model_id(models[k].id),
{
    let (entries, legacy_array) = answer_entries(answer)->Ok_0;
    lemma_listing(entries, legacy_array, models);
    assert(is_listed_first(entries, legacy_array, models[k]));
    let i = choose|i: int| first_listing(entries, legacy_array, models[k], i);
    assert(first_listing(entries, legacy_array, models[k], i));
}

/// The members hold a value under a key.
pub open spec fn holds(members: Map<Seq<char>, JsonView>, key: Seq<char>, value: JsonView) -> bool {
    members.contains_key(key) && members[key] == value
}

/// Some item is the text, at whatever place.
pub open spec fn has_item(items: Seq<JsonView>, text: Seq<char>) -> bool {
    exists|i: int| 0 <= i < items.len() && #[trigger] items[i] == JsonView::Text(text)
}

/// The members hold, under a key, an array with the text among its items.
pub open spec fn holds_item(
    members: Map<Seq<char>, JsonView>,
    key: Seq<char>,
    text: Seq<char>,
) -> bool {
    &&& members.contains_key(key)
    &&& members[key] matches JsonView::Array(items) && has_item(items, text)
}

/// The members hold, under a key, an object that holds a flag under another.
pub open spec fn holds_flag_below(
    members: Map<Seq<char>, JsonView>,
    key: Seq<char>,
    below: Seq<char>,
    flag: bool,
) -> bool {
    &&& members.contains_key(key)
    &&& members[key] matches JsonView::Object(inner) && holds(inner, below, JsonView::Bool(flag))
}

/// A model identifier has a character that is no white space, at most 256 bytes, and
/// no control character.
pub proof fn law_model_identifiers_say_something(id: Seq<char>)
    ensures
        is_model_id(id) <==> {
            &&& exists|i: int| 0 <= i < id.len() && !is_white_space(#[trigger] id[i])
            &&& encode_utf8(id).len() <= 256
            &&& forall|i: int| 0 <= i < id.len() ==> !is_control(#[trigger] id[i])
        },
{
    law_trimming_cuts_white_space_alone(id);
    let (i, j) = choose|i: int, j: int|
        {
            &&& 0 <= i <= j <= id.len()
            &&& trimmed(id) == #[trigger] id.subrange(i, j)
            &&& forall|k: int| 0 <= k < i || j <= k < id.len() ==> is_white_space(#[trigger] id[k])
            &&& i < j ==> !is_white_space(id[i]) && !is_white_space(id[j - 1])
        };
    if i < j {
        assert(!is_white_space(id[i]));
    }
}

/// An entry with a valid identifier and with `methods` is listed exactly where chat
/// completions are among the methods, at whatever place; otherwise it is hidden.
pub proof fn law_methods_decide(
    members: Map<Seq<char>, JsonView>,
    id: Seq<char>,
    legacy_array: bool,
)
    requires
        holds(members, "id"@, JsonView::Text(id)),
        is_model_id(id),
        members.contains_key("methods"@),
    ensures
        holds_item(members, "methods"@, "chat_completions"@) ==> (entry_meaning(
            JsonView::Object(members),
            legacy_array,
        ) matches EntryView::Listed(model) && model.id == id),
        !holds_item(members, "methods"@, "chat_completions"@) ==> entry_meaning(
            JsonView::Object(members),
            legacy_array,
        ) is Hidden,
{
}

/// An entry with a valid identifier and without `methods` is hidden exactly where the
/// capabilities deny chat; otherwise it is listed.
pub proof fn law_capabilities_may_deny_chat(
    members: Map<Seq<char>, JsonView>,
    id: Seq<char>,
    legacy_array: bool,
)
    requires
        holds(members, "id"@, JsonView::Text(id)),
        is_model_id(id),
        !members.contains_key("methods"@),
    ensures
        holds_flag_below(members, "capabilities"@, "chat"@, false) ==> entry_meaning(
            JsonView::Object(members),
            legacy_array,
        ) is Hidden,
        !holds_flag_below(members, "capabilities"@, "chat"@, false) ==> (entry_meaning(
            JsonView::Object(members),
            legacy_array,
        ) matches EntryView::Listed(model) && model.id == id),
{
}

/// A listed model reads images exactly where its entry says so in one of the ways.
pub proof fn law_vision_is_said(
    members: Map<Seq<char>, JsonView>,
    legacy_array: bool,
    model: ModelView,
)
    requires
        entry_meaning(JsonView::Object(members), legacy_array) == EntryView::Listed(model),
    ensures
        model.supports_vision <==> {
            ||| holds(members, "supports_vision"@, JsonView::Bool(true))
            ||| holds(members, "vision"@, JsonView::Bool(true))
            ||| holds_flag_below(members, "capabilities"@, "vision"@, true)
            ||| holds_item(members, "capabilities"@, "vision"@)
            ||| holds_item(members, "input_modalities"@, "image"@)
        },
{
}

/// A listed model is called by the text under `name`, or else by that under
/// `display_name`, as long as it is not empty and has at most 256 bytes; otherwise by
/// its identifier. An unusable text under `name` is not made up for by the other.
pub proof fn law_models_are_called_by_their_names(
    members: Map<Seq<char>, JsonView>,
    legacy_array: bool,
    model: ModelView,
    text: Seq<char>,
)
    requires
        entry_meaning(JsonView::Object(members), legacy_array) == EntryView::Listed(model),
    ensures
        ({
            let unnamed = !(members.contains_key("name"@) && members["name"@] is Text);
            let undisplayed = !(members.contains_key("display_name"@) && members["display_name"@]
                is Text);
            &&& holds(members, "id"@, JsonView::Text(model.id))
            &&& holds(members, "name"@, JsonView::Text(text)) && fits(text, 256) ==> model.name
                == text
            &&& holds(members, "name"@, JsonView::Text(text)) && !fits(text, 256) ==> model.name
                == model.id
            &&& unnamed && holds(members, "display_name"@, JsonView::Text(text)) && fits(text, 256)
                ==> model.name == text
            &&& unnamed && holds(members, "display_name"@, JsonView::Text(text)) && !fits(text, 256)
                ==> model.name == model.id
            &&& unnamed && undisplayed ==> model.name == model.id
        }),
{
}

/// An entry is malformed exactly where it is neither an object with a valid identifier
/// nor, in a bare array, a valid identifier itself; which then names the model.
pub proof fn law_malformed_entries_are_told_apart(
    entry: JsonView,
    legacy_array: bool,
    id: Seq<char>,
    members: Map<Seq<char>, JsonView>,
)
    ensures
        entry == JsonView::Text(id) && !legacy_array || !(entry is Text || entry is Object)
            ==> entry_meaning(entry, legacy_array) == EntryView::Malformed(
            "AI Pass model discovery returned an invalid model entry."@,
        ),
        entry == JsonView::Text(id) && legacy_array && !is_model_id(id) ==> entry_meaning(
            entry,
            legacy_array,
        ) == EntryView::Malformed("AI Pass model discovery returned an invalid model identifier."@),
        entry == JsonView::Text(id) && legacy_array && is_model_id(id) ==> entry_meaning(
            entry,
            legacy_array,
        ) == EntryView::Listed(ModelView { id, name: id, supports_vision: false }),
        entry == JsonView::Object(members) && !(members.contains_key("id"@) && members["id"@]
            is Text) ==> entry_meaning(entry, legacy_array) == EntryView::Malformed(
            "AI Pass model discovery returned an invalid model identifier."@,
        ),
        entry == JsonView::Object(members) && holds(members, "id"@, JsonView::Text(id)) ==> (
        entry_meaning(entry, legacy_array) is Malformed <==> !is_model_id(id)),
        entry == JsonView::Object(members) && entry_meaning(entry, legacy_array) is Malformed
            ==> entry_meaning(entry, legacy_array) == EntryView::Malformed(
            "AI Pass model discovery returned an invalid model identifier."@,
        ),
{
}

/// An answer lists entries exactly where it is an array, or an object that says it is
/// a list and holds an array of data.
pub proof fn law_answers_come_in_two_shapes(
    answer: JsonView,
    members: Map<Seq<char>, JsonView>,
    entries: Seq<JsonView>,
)
    ensures
        answer == JsonView::Array(entries) ==> answer_entries(answer) == Ok::<
            (Seq<JsonView>, bool),
            Seq<char>,
        >((entries, true)),
        answer == JsonView::Object(members) && holds(members, "object"@, JsonView::Text("list"@))
            && holds(members, "data"@, JsonView::Array(entries)) ==> answer_entries(answer) == Ok::<
            (Seq<JsonView>, bool),
            Seq<char>,
        >((entries, false)),
        answer == JsonView::Object(members) && !(holds(
            members,
            "object"@,
            JsonView::Text("list"@),
        ) && members.contains_key("data"@) && members["data"@] is Array) ==> discovered_models(
            answer,
        ) == Err::<Seq<ModelView>, Seq<char>>("AI Pass model discovery returned an invalid list."@),
        !(answer is Array || answer is Object) ==> discovered_models(answer) == Err::<
            Seq<ModelView>,
            Seq<char>,
        >("AI Pass model discovery returned an invalid response."@),
{
}

/// An answer is accepted exactly where no entry is malformed and one is listed. It is
/// refused for its first malformed entry, and without one for listing nothing.
pub proof fn law_answers_are_accepted_whole(
    answer: JsonView,
    entries: Seq<JsonView>,
    legacy_array: bool,
    i: int,
    reason: Seq<char>,
)
    requires
        answer_entries(answer) == Ok::<(Seq<JsonView>, bool), Seq<char>>((entries, legacy_array)),
    ensures
        discovered_models(answer) is Ok <==> {
            &&& forall|k: int|
                0 <= k < entries.len() ==> !((#[trigger] entry_meaning(
                    entries[k],
                    legacy_array,
                )) is Malformed)
            &&& exists|k: int|
                0 <= k < entries.len() && (#[trigger] entry_meaning(
                    entries[k],
                    legacy_array,
                )) is Listed
        },
        0 <= i < entries.len() && entry_meaning(entries[i], legacy_array) == EntryView::Malformed(
            reason,
        ) && (forall|k: int|
            0 <= k < i ==> !((#[trigger] entry_meaning(entries[k], legacy_array)) is Malformed))
            ==> discovered_models(answer) == Err::<Seq<ModelView>, Seq<char>>(reason),
        (forall|k: int|
            0 <= k < entries.len() ==> (#[trigger] entry_meaning(
                entries[k],
                legacy_array,
            )) is Hidden) ==> discovered_models(answer) == Err::<Seq<ModelView>, Seq<char>>(
            "AI Pass did not return any usable chat models."@,
        ),
{
    lemma_well_formed_list(entries, legacy_array);
    if 0 <= i < entries.len() && entry_meaning(entries[i], legacy_array) == EntryView::Malformed(
        reason,
    ) && (forall|k: int|
        0 <= k < i ==> !((#[trigger] entry_meaning(entries[k], legacy_array)) is Malformed)) {
        let before = entries.take(i);
        assert forall|k: int| 0 <= k < before.len() implies !((#[trigger] entry_meaning(
            before[k],
            legacy_array,
        )) is Malformed) by {
            assert(before[k] == entries[k]);
            let _ = entry_meaning(entries[k], legacy_array);
        }
        lemma_well_formed_list(before, legacy_array);
        let upto = entries.take(i + 1);
        assert(upto.drop_last() =~= before);
        assert(upto.last() == entries[i]);
        lemma_refusal_stays(entries, legacy_array, i + 1);
    }
    match listed_models(entries, legacy_array) {
        Ok(models) => {
            lemma_listing(entries, legacy_array, models);
            if models.len() > 0 {
                assert(is_listed_first(entries, legacy_array, models[0]));
                let k = choose|k: int| first_listing(entries, legacy_array, models[0], k);
                assert(entry_meaning(entries[k], legacy_array) is Listed);
            }
            if exists|k: int|
                0 <= k < entries.len() && (#[trigger] entry_meaning(
                    entries[k],
                    legacy_array,
                )) is Listed {
                let k = choose|k: int|
                    0 <= k < entries.len() && (#[trigger] entry_meaning(
                        entries[k],
                        legacy_array,
                    )) is Listed;
                assert(has_model(models, entry_meaning(entries[k], legacy_array)->Listed_0.id));
            }
        },
        Err(_) => {},
    }
}

proof fn lemma_well_formed_list(entries: Seq<JsonView>, legacy_array: bool)
    ensures
        listed_models(entries, legacy_array) is Ok <==> forall|k: int|
            0 <= k < entries.len() ==> !((#[trigger] entry_meaning(
                entries[k],
                legacy_array,
            )) is Malformed),
    decreases entries.len(),
{
    if entries.len() > 0 {
        let shorter = entries.drop_last();
        lemma_well_formed_list(shorter, legacy_array);
        assert(entries.last() == entries[entries.len() - 1]);
        if listed_models(entries, legacy_array) is Ok {
            assert forall|k: int| 0 <= k < entries.len() implies !((#[trigger] entry_meaning(
                entries[k],
                legacy_array,
            )) is Malformed) by {
                if k < shorter.len() {
                    assert(entries[k] == shorter[k]);
                    let _ = entry_meaning(shorter[k], legacy_array);
                }
            }
        } else if forall|k: int|
            0 <= k < entries.len() ==> !((#[trigger] entry_meaning(
                entries[k],
                legacy_array,
            )) is Malformed) {
            assert forall|k: int| 0 <= k < shorter.len() implies !((#[trigger] entry_meaning(
                shorter[k],
                legacy_array,
            )) is Malformed) by {
                assert(entries[k] == shorter[k]);
                let _ = entry_meaning(entries[k], legacy_array);
            }
            let _ = entry_meaning(entries[entries.len() - 1], legacy_array);
        }
    }
}

/// What a list of models says is all that it holds.
pub proof fn law_models_show_every_field(models: Seq<AiPassModel>)
    ensures
        model_views(models).len() == models.len(),
        forall|i: int|
            0 <= i < models.len() ==> {
                let shown = #[trigger] model_views(models)[i];
                &&& shown.id == models[i].id@
                &&& shown.name == models[i].name@
                &&& shown.supports_vision == models[i].supports_vision
            },
        MODELS_URL@ == "https://aipass.one/oauth2/v1/models"@,
{
}

} // verus!
