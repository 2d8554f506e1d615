use chat_ledger::history::{Action, AsJsonError};
use chat_ledger::keys::{CryptographyError, PublicKey};
use serde_json::Value;

fn key(bytes: &[u8]) -> PublicKey {
    PublicKey::from_bytes(bytes.to_vec()).unwrap()
}

fn json(text: &str) -> Value {
    serde_json::from_str(text).unwrap()
}

fn every_action() -> Vec<Action> {
    vec![
        Action::ServerPassportUpdate {
            field: "title".to_string(),
            value: json(r#"{"name": "Home", "tags": ["a", 1, null, true, 2.5]}"#),
            signer: key(&[1, 2, 3, 4, 5]),
            sign: "c2lnbg==".to_string(),
        },
        Action::ServerPassportDelete { field: "title".to_string() },
        Action::MembersPassportUpdate {
            field: "nickname".to_string(),
            value: Value::from("Alice"),
            sign: "AQID".to_string(),
        },
        Action::MembersPassportDelete { field: "nickname".to_string() },
        Action::MembersMessagesNew { channel_id: 7, message: "hello".to_string() },
    ]
}

#[test]
fn every_action_survives_the_wire() {
    for action in every_action() {
        let wire = action.to_json().unwrap();
        assert_eq!(Action::from_json(&wire), Ok(action));
    }
}

#[test]
fn actions_survive_text_too() {
    for action in every_action() {
        let text = serde_json::to_string(&action.to_json().unwrap()).unwrap();
        assert_eq!(Action::from_json(&json(&text)), Ok(action));
    }
}

#[test]
fn server_update_wire_form_is_exact() {
    let action = Action::ServerPassportUpdate {
        field: "title".to_string(),
        value: Value::from(3u64),
        signer: key(b"hello"),
        sign: "sig".to_string(),
    };
    assert_eq!(
        action.to_json().unwrap(),
        json(
            r#"{"type": "v1.server.passport.update",
                "body": {"field": "title", "value": 3, "signer": "aGVsbG8=", "sign": "sig"}}"#
        )
    );
}

#[test]
fn other_wire_forms_are_exact() {
    assert_eq!(
        Action::ServerPassportDelete { field: "f".to_string() }.to_json().unwrap(),
        json(r#"{"type": "v1.server.passport.delete", "body": {"field": "f"}}"#)
    );
    assert_eq!(
        Action::MembersPassportUpdate {
            field: "f".to_string(),
            value: Value::Null,
            sign: "s".to_string()
        }
        .to_json()
        .unwrap(),
        json(
            r#"{"type": "v1.members.passport.update",
                "body": {"field": "f", "value": null, "sign": "s"}}"#
        )
    );
    assert_eq!(
        Action::MembersPassportDelete { field: "f".to_string() }.to_json().unwrap(),
        json(r#"{"type": "v1.members.passport.delete", "body": {"field": "f"}}"#)
    );
    assert_eq!(
        Action::MembersMessagesNew { channel_id: u64::MAX, message: "m".to_string() }
            .to_json()
            .unwrap(),
        json(
            r#"{"type": "v1.members.messages.new",
                "body": {"channel_id": 18446744073709551615, "message": "m"}}"#
        )
    );
}

#[test]
fn decode_reads_the_signer_from_its_own_member() {
    let wire = json(
        r#"{"type": "v1.server.passport.update",
            "body": {"field": "title", "value": [1], "signer": "AQID", "sign": "not base64!"}}"#,
    );
    assert_eq!(
        Action::from_json(&wire),
        Ok(Action::ServerPassportUpdate {
            field: "title".to_string(),
            value: json("[1]"),
            signer: key(&[1, 2, 3]),
            sign: "not base64!".to_string(),
        })
    );
}

#[test]
fn missing_type_is_reported() {
    assert_eq!(
        Action::from_json(&json(r#"{"body": {"field": "f"}}"#)),
        Err(AsJsonError::FieldNotFound("type"))
    );
    assert_eq!(
        Action::from_json(&json(r#"{"type": 5, "body": {"field": "f"}}"#)),
        Err(AsJsonError::FieldNotFound("type"))
    );
    assert_eq!(Action::from_json(&json("[]")), Err(AsJsonError::FieldNotFound("type")));
    assert_eq!(Action::from_json(&Value::Null), Err(AsJsonError::FieldNotFound("type")));
}

#[test]
fn missing_body_is_reported() {
    assert_eq!(
        Action::from_json(&json(r#"{"type": "v1.server.passport.delete"}"#)),
        Err(AsJsonError::FieldNotFound("body"))
    );
    assert_eq!(
        Action::from_json(&json(r#"{"type": "no such thing"}"#)),
        Err(AsJsonError::FieldNotFound("body"))
    );
}

#[test]
fn unknown_type_is_invalid() {
    assert_eq!(
        Action::from_json(&json(r#"{"type": "v2.server.passport.update", "body": {}}"#)),
        Err(AsJsonError::FieldValueInvalid("type"))
    );
    assert_eq!(
        Action::from_json(&json(r#"{"type": "", "body": null}"#)),
        Err(AsJsonError::FieldValueInvalid("type"))
    );
}

#[test]
fn missing_members_are_named_by_path() {
    let cases = [
        (r#"{"type": "v1.server.passport.update", "body": {}}"#, "body.field"),
        (r#"{"type": "v1.server.passport.update", "body": {"field": "f"}}"#, "body.value"),
        (
            r#"{"type": "v1.server.passport.update", "body": {"field": "f", "value": 1}}"#,
            "body.signer",
        ),
        (
            r#"{"type": "v1.server.passport.update",
                "body": {"field": "f", "value": 1, "signer": "AQID"}}"#,
            "body.sign",
        ),
        (r#"{"type": "v1.server.passport.delete", "body": {}}"#, "body.field"),
        (r#"{"type": "v1.server.passport.delete", "body": {"field": 1}}"#, "body.field"),
        (r#"{"type": "v1.members.passport.update", "body": {"value": 1}}"#, "body.field"),
        (r#"{"type": "v1.members.passport.update", "body": {"field": "f"}}"#, "body.value"),
        (
            r#"{"type": "v1.members.passport.update", "body": {"field": "f", "value": 1}}"#,
            "body.sign",
        ),
        (r#"{"type": "v1.members.passport.delete", "body": []}"#, "body.field"),
        (r#"{"type": "v1.members.messages.new", "body": {"message": "m"}}"#, "body.channel_id"),
        (
            r#"{"type": "v1.members.messages.new", "body": {"channel_id": -1, "message": "m"}}"#,
            "body.channel_id",
        ),
        (
            r#"{"type": "v1.members.messages.new", "body": {"channel_id": 1.5, "message": "m"}}"#,
            "body.channel_id",
        ),
        (
            r#"{"type": "v1.members.messages.new", "body": {"channel_id": "7", "message": "m"}}"#,
            "body.channel_id",
        ),
        (r#"{"type": "v1.members.messages.new", "body": {"channel_id": 7}}"#, "body.message"),
    ];
    for (text, path) in cases {
        assert_eq!(Action::from_json(&json(text)), Err(AsJsonError::FieldNotFound(path)), "{}", text);
    }
}

#[test]
fn malformed_signer_is_a_cryptography_error() {
    let wire = json(
        r#"{"type": "v1.server.passport.update",
            "body": {"field": "f", "value": 1, "signer": "***", "sign": "s"}}"#,
    );
    assert_eq!(
        Action::from_json(&wire),
        Err(AsJsonError::Cryptography(CryptographyError::Encoding))
    );
}

#[test]
fn channel_id_keeps_all_64_bits() {
    let wire = json(
        r#"{"type": "v1.members.messages.new",
            "body": {"channel_id": 18446744073709551615, "message": ""}}"#,
    );
    assert_eq!(
        Action::from_json(&wire),
        Ok(Action::MembersMessagesNew { channel_id: u64::MAX, message: String::new() })
    );
}

#[test]
fn value_passes_through_unexamined() {
    let value = json(r#"{"deep": [{"a": [1, 2, {"b": null}]}, "x", -3, 0.25]}"#);
    let action = Action::MembersPassportUpdate {
        field: "f".to_string(),
        value: value.clone(),
        sign: String::new(),
    };
    match Action::from_json(&action.to_json().unwrap()).unwrap() {
        Action::MembersPassportUpdate { value: read, .. } => assert_eq!(read, value),
        other => panic!("{:?}", other),
    }
}

#[test]
fn keys_have_a_fixed_text() {
    assert_eq!(key(b"hello").to_base64(), "aGVsbG8=");
    assert_eq!(key(&[]).to_base64(), "");
    assert_eq!(key(&[0xfb, 0xff]).to_base64(), "+/8=");
    assert_eq!(PublicKey::from_base64("aGVsbG8=").unwrap(), key(b"hello"));
    assert_eq!(PublicKey::from_base64("aGVsbG8=").unwrap().to_bytes(), b"hello".to_vec());
}

#[test]
fn malformed_key_text_is_refused() {
    assert_eq!(PublicKey::from_base64("a"), Err(CryptographyError::Encoding));
    assert_eq!(PublicKey::from_base64("aGVsbG8"), Err(CryptographyError::Encoding));
    assert_eq!(PublicKey::from_base64("aGV sbG8="), Err(CryptographyError::Encoding));
}

#[test]
fn keys_are_equal_by_their_bytes() {
    assert_eq!(key(&[1, 2, 3]), key(&[1, 2, 3]));
    assert_ne!(key(&[1, 2, 3]), key(&[1, 2, 4]));
    assert_ne!(key(&[1, 2, 3]), key(&[1, 2]));
    assert_eq!(key(&[9, 9]).clone(), key(&[9, 9]));
}
