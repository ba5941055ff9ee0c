//! User information: the profile that a reply of the service describes.

use vstd::prelude::*;

use crate::endpoint::optional_text;
use crate::json::json_document;
use crate::json::Json;
use crate::json::JsonView;
use crate::reply::json_failure;
use crate::reply::read_json;
use crate::session::optional_profile;
use crate::session::AiPassProfile;
use crate::session::ProfileView;
use crate::text::byte_len;
use crate::text::byte_length;
use crate::text::fits;

verus! {

/// The text that an object holds under a key, unless it is empty or has more than 512 bytes.
pub open spec fn usable_text(object: JsonView, key: Seq<char>) -> Option<Seq<char>> {
    match object.text_at(key) {
        Some(text) => if text.len() > 0 && byte_len(text) <= 512 {
            Some(text)
        } else {
            None
        },
        None => None,
    }
}

/// The usable text under the first of two keys that has one.
pub open spec fn either_text(object: JsonView, first: Seq<char>, second: Seq<char>) -> Option<
    Seq<char>,
> {
    match usable_text(object, first) {
        Some(text) => Some(text),
        None => usable_text(object, second),
    }
}

/// The profile that user information describes, if it describes anybody.
pub open spec fn described_profile(information: JsonView) -> Option<ProfileView> {
    let subject = either_text(information, "sub"@, "id"@);
    let display_name = either_text(information, "name"@, "preferred_username"@);
    let email = usable_text(information, "email"@);
    if subject is None && display_name is None && email is None {
        None
    } else {
        Some(
            ProfileView {
                subject: match subject {
                    Some(subject) => subject,
                    None => Seq::empty(),
                },
                display_name,
                email,
            },
        )
    }
}

fn pick(object: &Json, key: &str) -> (r: Option<String>)
    ensures
        optional_text(r) == usable_text(object@, key@),
{
    match object.text_at(key) {
        Some(text) => if !text.as_str().is_empty() && byte_length(text.as_str()) <= 512 {
            Some(text.clone())
        } else {
            None
        },
        None => None,
    }
}

fn pick_either(object: &Json, first: &str, second: &str) -> (r: Option<String>)
    ensures
        optional_text(r) == either_text(object@, first@, second@),
{
    match pick(object, first) {
        Some(text) => Some(text),
        None => pick(object, second),
    }
}

/// The profile that user information describes; the information must be an object.
pub fn profile_from_information(information: &Json) -> (r: Result<Option<AiPassProfile>, String>)
    ensures
        match r {
            Ok(profile) => information@ is Object && optional_profile(profile)
                == described_profile(information@),
            Err(reason) => !(information@ is Object) && reason@
                == "AI Pass user information was invalid."@,
        },
{
    match information {
        Json::Object(_) => {},
        _ => {
            return Err("AI Pass user information was invalid.".to_owned());
        },
    }
    let subject: Option<String> = pick_either(information, "sub", "id");
    let display_name: Option<String> = pick_either(information, "name", "preferred_username");
    let email: Option<String> = pick(information, "email");
    if subject.is_none() && display_name.is_none() && email.is_none() {
        return Ok(None);
    }
    let subject: String = match subject {
        Some(subject) => subject,
        None => String::new(),
    };
    Ok(Some(AiPassProfile { subject, display_name, email }))
}

/// The profile in the body of a reply.
pub fn read_profile(body: &[u8]) -> (r: Result<Option<AiPassProfile>, String>)
    ensures
        match json_document(body@) {
            None => r matches Err(reason) && reason@ == json_failure("AI Pass user information"@),
            Some(information) => if information is Object {
                r matches Ok(profile) && optional_profile(profile) == described_profile(information)
            } else {
                r matches Err(reason) && reason@ == "AI Pass user information was invalid."@
            },
        },
{
    match read_json(body, "AI Pass user information") {
        Err(reason) => Err(reason),
        Ok(information) => profile_from_information(&information),
    }
}

/// The members hold a usable text under a key: not empty, and of at most 512 bytes.
pub open spec fn tells(members: Map<Seq<char>, JsonView>, key: Seq<char>, text: Seq<char>) -> bool {
    members.contains_key(key) && members[key] == JsonView::Text(text) && fits(text, 512)
}

/// The members hold no usable text under a key.
pub open spec fn is_silent(members: Map<Seq<char>, JsonView>, key: Seq<char>) -> bool {
    forall|text: Seq<char>| !#[trigger] tells(members, key, text)
}

proof fn lemma_usable_text(members: Map<Seq<char>, JsonView>, key: Seq<char>)
    ensures
        match usable_text(JsonView::Object(members), key) {
            Some(text) => tells(members, key, text),
            None => is_silent(members, key),
        },
{
}

/// The display name is what the information tells under `name`, and what it tells
/// under `preferred_username` only where it tells nothing under `name`.
pub proof fn law_the_full_name_comes_first(members: Map<Seq<char>, JsonView>, text: Seq<char>)
    ensures
        tells(members, "name"@, text) ==> (described_profile(JsonView::Object(members)) matches Some(
            profile,
        ) && profile.display_name == Some(text)),
        is_silent(members, "name"@) && tells(members, "preferred_username"@, text) ==> (
        described_profile(JsonView::Object(members)) matches Some(profile) && profile.display_name
            == Some(text)),
        is_silent(members, "name"@) && is_silent(members, "preferred_username"@) ==> (
        described_profile(JsonView::Object(members)) matches Some(profile)
            ==> profile.display_name is None),
{
    lemma_usable_text(members, "name"@);
    lemma_usable_text(members, "preferred_username"@);
}

/// The subject is what the information tells under `sub`, or else under `id`, or else
/// empty.
pub proof fn law_the_subject_comes_first(members: Map<Seq<char>, JsonView>, text: Seq<char>)
    ensures
        tells(members, "sub"@, text) ==> (described_profile(JsonView::Object(members)) matches Some(
            profile,
        ) && profile.subject == text),
        is_silent(members, "sub"@) && tells(members, "id"@, text) ==> (described_profile(
            JsonView::Object(members),
        ) matches Some(profile) && profile.subject == text),
        is_silent(members, "sub"@) && is_silent(members, "id"@) ==> (described_profile(
            JsonView::Object(members),
        ) matches Some(profile) ==> profile.subject.len() == 0),
{
    lemma_usable_text(members, "sub"@);
    lemma_usable_text(members, "id"@);
}

/// The address is what the information tells under `email`, and nothing else.
pub proof fn law_the_address_is_the_one_told(members: Map<Seq<char>, JsonView>, text: Seq<char>)
    ensures
        tells(members, "email"@, text) ==> (described_profile(JsonView::Object(members)) matches Some(
            profile,
        ) && profile.email == Some(text)),
        is_silent(members, "email"@) ==> (described_profile(JsonView::Object(members)) matches Some(
            profile,
        ) ==> profile.email is None),
{
    lemma_usable_text(members, "email"@);
}

/// There is a profile exactly where the information tells something of somebody.
pub proof fn law_nobody_is_described_by_nothing(members: Map<Seq<char>, JsonView>)
    ensures
        described_profile(JsonView::Object(members)) is None <==> {
            &&& is_silent(members, "sub"@)
            &&& is_silent(members, "id"@)
            &&& is_silent(members, "name"@)
            &&& is_silent(members, "preferred_username"@)
            &&& is_silent(members, "email"@)
        },
{
    lemma_usable_text(members, "sub"@);
    lemma_usable_text(members, "id"@);
    lemma_usable_text(members, "name"@);
    lemma_usable_text(members, "preferred_username"@);
    lemma_usable_text(members, "email"@);
}

} // verus!
