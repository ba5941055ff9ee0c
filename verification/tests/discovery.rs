use aipass::json::parse_json;
use aipass::json::Json;
use aipass::models::model_name;
use aipass::models::model_supports_chat;
use aipass::models::model_supports_vision;
use aipass::models::parse_models;
use aipass::models::read_models;
use aipass::models::validate_model_id;
use aipass::models::AiPassModel;
use aipass::models::MODELS_URL;

fn json(source: &str) -> Json {
    parse_json(source.as_bytes()).unwrap()
}

#[test]
fn model_discovery_uses_the_default_openai_compatible_endpoint() {
    assert_eq!(MODELS_URL, "https://aipass.one/oauth2/v1/models");
}

#[test]
fn model_discovery_accepts_openai_and_legacy_shapes_without_defaults() {
    let openai = parse_models(&json(
        r#"{
            "object": "list",
            "data": [
                {
                    "id": "openai/live-text",
                    "name": "Live Text",
                    "object": "model",
                    "created": 1700000000,
                    "owned_by": "openai",
                    "description": "A chat model",
                    "type": "text",
                    "capabilities": ["text", "streaming"],
                    "methods": ["chat_completions", "responses"],
                    "future_additive_field": {"nested": true}
                },
                {
                    "id": "live-vision",
                    "type": "multimodal",
                    "capabilities": ["text", "image", "vision"],
                    "methods": ["chat_completions", "responses"]
                },
                {
                    "id": "audio-only",
                    "type": "audio",
                    "capabilities": ["audio", "text"],
                    "methods": ["audio_speech"]
                },
                {"id": "image-only", "capabilities": {"chat": false}},
                {"id": "openai/live-text", "name": "duplicate"}
            ]
        }"#,
    ))
    .unwrap();
    assert_eq!(
        openai,
        vec![
            AiPassModel {
                id: "openai/live-text".into(),
                name: "Live Text".into(),
                supports_vision: false,
            },
            AiPassModel {
                id: "live-vision".into(),
                name: "live-vision".into(),
                supports_vision: true,
            },
        ]
    );

    let legacy = parse_models(&json(
        r#"["provider/model-b", {"id": "model-a"}, "provider/model-b"]"#,
    ))
    .unwrap();
    assert_eq!(
        legacy
            .iter()
            .map(|model| model.id.as_str())
            .collect::<Vec<_>>(),
        vec!["provider/model-b", "model-a"]
    );
    assert!(parse_models(&json(r#"{"data": "not-an-array"}"#)).is_err());
    assert!(parse_models(&json(
        r#"{"object": "not-a-list", "data": [{"id": "must-not-be-accepted"}]}"#
    ))
    .is_err());
}

#[test]
fn model_discovery_rejects_malformed_ids_instead_of_partially_accepting_a_list() {
    for malformed in [
        r#"{"object": "list", "data": [
            {"id": "valid/model", "methods": ["chat_completions"]},
            {"id": "", "methods": ["chat_completions"]}
        ]}"#,
        r#"{"object": "list", "data": [
            {"id": "valid/model", "methods": ["chat_completions"]},
            {"id": 42, "methods": ["chat_completions"]}
        ]}"#,
        r#"["valid/model", ""]"#,
        r#"["valid/model", {"id": null}]"#,
        r#"{"object": "list", "data": [
            {"id": "valid/model", "methods": ["chat_completions"]},
            "legacy-string-is-not-valid-in-openai-data"
        ]}"#,
        r#"{"object": "list", "data": [
            {"id": "valid/model", "methods": ["chat_completions"]},
            {"id": "\n", "methods": ["chat_completions"]}
        ]}"#,
    ] {
        assert!(parse_models(&json(malformed)).is_err(), "{malformed}");
    }
}

#[test]
fn refused_answers_say_why() {
    let invalid_list = "AI Pass model discovery returned an invalid list.";
    let invalid_entry = "AI Pass model discovery returned an invalid model entry.";
    let invalid_id = "AI Pass model discovery returned an invalid model identifier.";
    for (source, reason) in [
        (r#"{"object": "list"}"#, invalid_list),
        (r#"{"object": "list", "data": {}}"#, invalid_list),
        (r#"{"object": 1, "data": []}"#, invalid_list),
        ("3", "AI Pass model discovery returned an invalid response."),
        ("\"list\"", "AI Pass model discovery returned an invalid response."),
        (r#"[7]"#, invalid_entry),
        (r#"{"object": "list", "data": ["a"]}"#, invalid_entry),
        (r#"[{"name": "a"}]"#, invalid_id),
        (r#"["a", " "]"#, invalid_id),
        (r#"[]"#, "AI Pass did not return any usable chat models."),
        (
            r#"[{"id": "a", "methods": []}]"#,
            "AI Pass did not return any usable chat models.",
        ),
        ("{", "AI Pass model discovery returned invalid JSON."),
    ] {
        assert_eq!(read_models(source.as_bytes()), Err(reason.to_owned()), "{source}");
    }
}

#[test]
fn a_hidden_entry_must_be_well_formed_too() {
    let refused = read_models(br#"["good", {"id": "", "methods": []}]"#);
    assert!(refused.is_err());
    let accepted = read_models(br#"["good", {"id": "hidden", "methods": []}]"#).unwrap();
    assert_eq!(accepted.len(), 1);
}

#[test]
fn a_model_is_described_by_its_first_listed_entry() {
    let models = read_models(
        br#"[
            {"id": "b", "methods": []},
            {"id": "a", "name": "first"},
            {"id": "b", "name": "second", "vision": true},
            {"id": "a", "name": "third", "vision": true}
        ]"#,
    )
    .unwrap();
    assert_eq!(
        models,
        vec![
            AiPassModel { id: "a".into(), name: "first".into(), supports_vision: false },
            AiPassModel { id: "b".into(), name: "second".into(), supports_vision: true },
        ]
    );
}

#[test]
fn model_identifiers_are_bounded_and_printable() {
    assert!(validate_model_id("provider/model").is_ok());
    assert!(validate_model_id(&"m".repeat(256)).is_ok());
    assert!(validate_model_id(&"m".repeat(257)).is_err());
    assert!(validate_model_id(&"ä".repeat(129)).is_err());
    assert!(validate_model_id("").is_err());
    assert!(validate_model_id("\u{3000} ").is_err());
    assert!(validate_model_id("a\tb").is_err());
    assert!(validate_model_id("a\u{9f}").is_err());
    assert!(validate_model_id(" padded ").is_ok());
}

#[test]
fn names_fall_back_to_the_identifier() {
    assert_eq!(model_name(&json(r#"{"name": "N", "display_name": "D"}"#), "id"), "N");
    assert_eq!(model_name(&json(r#"{"name": 1, "display_name": "D"}"#), "id"), "D");
    assert_eq!(model_name(&json(r#"{"name": "", "display_name": "D"}"#), "id"), "id");
    assert_eq!(model_name(&json("{}"), "id"), "id");
    let long = format!(r#"{{"name": "{}"}}"#, "n".repeat(257));
    assert_eq!(model_name(&json(&long), "id"), "id");
}

#[test]
fn capabilities_are_read_in_every_form() {
    for (source, vision) in [
        (r#"{}"#, false),
        (r#"{"supports_vision": true}"#, true),
        (r#"{"supports_vision": "true"}"#, false),
        (r#"{"vision": true}"#, true),
        (r#"{"capabilities": {"vision": true}}"#, true),
        (r#"{"capabilities": {"vision": false}}"#, false),
        (r#"{"capabilities": ["vision"]}"#, true),
        (r#"{"capabilities": ["image"]}"#, false),
        (r#"{"input_modalities": ["text", "image"]}"#, true),
        (r#"{"input_modalities": "image"}"#, false),
    ] {
        assert_eq!(model_supports_vision(&json(source)), vision, "{source}");
    }
    for (source, chat) in [
        (r#"{}"#, true),
        (r#"{"methods": ["chat_completions"]}"#, true),
        (r#"{"methods": "chat_completions"}"#, false),
        (r#"{"methods": null}"#, false),
        (r#"{"methods": ["other"], "capabilities": {"chat": true}}"#, false),
        (r#"{"capabilities": {"chat": false}}"#, false),
        (r#"{"capabilities": {"chat": "no"}}"#, true),
        (r#"{"capabilities": ["text"]}"#, true),
    ] {
        assert_eq!(model_supports_chat(&json(source)), chat, "{source}");
    }
}
