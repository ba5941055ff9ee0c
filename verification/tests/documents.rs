use aipass::json::parse_json;
use aipass::json::write_json;
use aipass::json::Json;
use aipass::profile::profile_from_information;
use aipass::profile::read_profile;
use aipass::session::AiPassProfile;

fn text(value: &str) -> Json {
    Json::Text(value.to_owned())
}

#[test]
fn documents_are_read_as_trees() {
    let document = parse_json(
        r#" {"b": [1, "x", null], "a": {"c": true}, "e": "ä"} "#.as_bytes(),
    )
    .unwrap();
    assert_eq!(document.text_at("e").unwrap(), "ä");
    assert_eq!(document.get("a").unwrap().bool_at("c"), Some(true));
    assert_eq!(document.array_at("b").unwrap().len(), 3);
    assert_eq!(document.array_at("b").unwrap()[1], text("x"));
    assert_eq!(document.array_at("b").unwrap()[2], Json::Null);
    assert_eq!(
        document.array_at("b").unwrap()[0],
        Json::Number(serde_json::Number::from(1))
    );
    assert!(document.get("missing").is_none());
    assert!(document.text_at("b").is_none());
    assert!(document.bool_at("e").is_none());
    assert!(document.array_at("a").is_none());
    assert!(text("x").get("x").is_none());
    for broken in ["", "{", "nul", "[1,]", "{\"a\":1} x", "\"\u{1}\""] {
        assert!(parse_json(broken.as_bytes()).is_none(), "{broken:?}");
    }
    assert!(parse_json(&[b'"', 0xff, b'"']).is_none());
}

#[test]
fn the_last_member_with_a_key_counts() {
    let read = parse_json(br#"{"a": 1, "a": "two"}"#).unwrap();
    assert_eq!(read.text_at("a").unwrap(), "two");
    let made = Json::Object(vec![
        ("a".to_owned(), Json::Bool(false)),
        ("b".to_owned(), Json::Null),
        ("a".to_owned(), text("two")),
    ]);
    assert_eq!(made.text_at("a").unwrap(), "two");
    assert_eq!(write_json(made), br#"{"a":"two","b":null}"#.to_vec());
}

#[test]
fn documents_are_written_as_serde_json_writes_them() {
    for source in [
        "null",
        "[true,false,-12,3.5,1e300,\"\\u0001\\\"\"]",
        "{\"z\": [], \"a\": {}, \"m\": [{\"k\": [\"v\"]}]}",
        "18446744073709551615",
    ] {
        let value: serde_json::Value = serde_json::from_str(source).unwrap();
        let expected = serde_json::to_vec(&value).unwrap();
        let written = write_json(parse_json(source.as_bytes()).unwrap());
        assert_eq!(written, expected, "{source}");
    }
}

#[test]
fn a_document_that_is_written_reads_the_same() {
    let source = br#"{"model":"live","messages":[{"role":"user","content":"hi"}],"stream":true}"#;
    let document = parse_json(source).unwrap();
    let written = write_json(parse_json(source).unwrap());
    assert_eq!(
        written,
        br#"{"messages":[{"content":"hi","role":"user"}],"model":"live","stream":true}"#.to_vec()
    );
    let again = parse_json(&written).unwrap();
    assert_eq!(again.text_at("model"), document.text_at("model"));
    assert_eq!(again.array_at("messages").unwrap().len(), 1);
}

#[test]
fn profiles_come_from_user_information() {
    let full = read_profile(br#"{"sub":"user-1","name":"A User","email":"a@example.com"}"#);
    assert_eq!(
        full,
        Ok(Some(AiPassProfile {
            subject: "user-1".into(),
            display_name: Some("A User".into()),
            email: Some("a@example.com".into()),
        }))
    );
    let fallback = read_profile(br#"{"sub":"","id":"7","name":3,"preferred_username":"nick"}"#);
    assert_eq!(
        fallback,
        Ok(Some(AiPassProfile {
            subject: "7".into(),
            display_name: Some("nick".into()),
            email: None,
        }))
    );
    let only_email = read_profile(br#"{"email":"a@example.com"}"#);
    assert_eq!(
        only_email,
        Ok(Some(AiPassProfile {
            subject: "".into(),
            display_name: None,
            email: Some("a@example.com".into()),
        }))
    );
    assert_eq!(read_profile(br#"{"sub":5,"other":"x"}"#), Ok(None));
    assert_eq!(
        read_profile(b"[]"),
        Err("AI Pass user information was invalid.".to_owned())
    );
    assert_eq!(
        read_profile(b"<html>"),
        Err("AI Pass user information returned invalid JSON.".to_owned())
    );
}

#[test]
fn profile_texts_have_at_most_512_bytes() {
    let object = |value: String| Json::Object(vec![("sub".to_owned(), Json::Text(value))]);
    let longest = "ä".repeat(256);
    assert_eq!(
        profile_from_information(&object(longest.clone())),
        Ok(Some(AiPassProfile {
            subject: longest.clone(),
            display_name: None,
            email: None,
        }))
    );
    assert_eq!(profile_from_information(&object(longest + "x")), Ok(None));
}
