use chat_ledger::history::{Action, AsJsonError, Block};
use chat_ledger::keys::{CryptographyError, PublicKey};
use serde_json::Value;

fn key(bytes: &[u8]) -> PublicKey {
    PublicKey::from_bytes(bytes.to_vec()).unwrap()
}

fn json(text: &str) -> Value {
    serde_json::from_str(text).unwrap()
}

fn message(channel_id: u64, text: &str) -> Action {
    Action::MembersMessagesNew { channel_id, message: text.to_string() }
}

#[test]
fn hash_ignores_the_action() {
    let first = Block::new(key(&[1, 2, 3]), message(1, "one"), "sign".to_string());
    let second = Block::new(
        key(&[1, 2, 3]),
        Action::ServerPassportDelete { field: "title".to_string() },
        "sign".to_string(),
    );
    assert_ne!(first, second);
    assert_eq!(first.hash(), second.hash());
}

#[test]
fn hash_depends_on_author_and_signature() {
    let base = Block::new(key(&[1, 2, 3]), message(1, "one"), "sign".to_string());
    let other_author = Block::new(key(&[1, 2, 4]), message(1, "one"), "sign".to_string());
    let other_sign = Block::new(key(&[1, 2, 3]), message(1, "one"), "sigm".to_string());
    assert_ne!(base.hash(), other_author.hash());
    assert_ne!(base.hash(), other_sign.hash());
}

#[test]
fn hash_is_seahash_of_author_then_signature() {
    let block = Block::new(key(b"to be or "), message(0, ""), "not to be".to_string());
    assert_eq!(block.hash(), 1988685042348123509);
    assert_eq!(block.hash(), seahash::hash(b"to be or not to be"));
    let long = Block::new(key(&[7u8; 40]), message(0, ""), "x".repeat(33));
    let mut bytes = vec![7u8; 40];
    bytes.extend_from_slice("x".repeat(33).as_bytes());
    assert_eq!(long.hash(), seahash::hash(&bytes));
}

#[test]
fn hash_takes_the_signature_text_as_utf8() {
    let block = Block::new(key(&[]), message(0, ""), "é".to_string());
    assert_eq!(block.hash(), seahash::hash(&[0xc3, 0xa9]));
}

#[test]
fn block_survives_the_wire() {
    let block = Block::new(key(b"hello"), message(7, "hi"), "c2lnbg==".to_string());
    let wire = block.to_json().unwrap();
    assert_eq!(
        wire,
        json(
            r#"{"author": "aGVsbG8=",
                "action": {"type": "v1.members.messages.new",
                           "body": {"channel_id": 7, "message": "hi"}},
                "sign": "c2lnbg=="}"#
        )
    );
    assert_eq!(Block::from_json(&wire), Ok(block));
}

#[test]
fn block_members_are_required_in_order() {
    assert_eq!(Block::from_json(&json("{}")), Err(AsJsonError::FieldNotFound("author")));
    assert_eq!(
        Block::from_json(&json(r#"{"author": 1, "action": {}, "sign": "s"}"#)),
        Err(AsJsonError::FieldNotFound("author"))
    );
    assert_eq!(
        Block::from_json(&json(r#"{"author": "AQID", "sign": "s"}"#)),
        Err(AsJsonError::FieldNotFound("action"))
    );
    assert_eq!(
        Block::from_json(&json(r#"{"author": "AQID", "action": {}, "sign": "s"}"#)),
        Err(AsJsonError::FieldNotFound("type"))
    );
    assert_eq!(
        Block::from_json(&json(
            r#"{"author": "AQID",
                "action": {"type": "v1.members.passport.delete", "body": {"field": "f"}}}"#
        )),
        Err(AsJsonError::FieldNotFound("sign"))
    );
    assert_eq!(
        Block::from_json(&json(
            r#"{"author": "AQID",
                "action": {"type": "nothing", "body": {"field": "f"}}, "sign": "s"}"#
        )),
        Err(AsJsonError::FieldValueInvalid("type"))
    );
}

#[test]
fn malformed_author_is_a_cryptography_error() {
    assert_eq!(
        Block::from_json(&json(r#"{"author": "%%%", "action": {}, "sign": "s"}"#)),
        Err(AsJsonError::Cryptography(CryptographyError::Encoding))
    );
}

#[test]
fn signed_bytes_are_the_compact_action() {
    let block = Block::new(key(&[1]), message(7, "hi"), String::new());
    assert_eq!(
        block.signed_bytes().unwrap(),
        br#"{"body":{"channel_id":7,"message":"hi"},"type":"v1.members.messages.new"}"#.to_vec()
    );
}

#[test]
fn signature_is_read_as_base64() {
    let good = Block::new(key(&[1]), message(7, "hi"), "AQID".to_string());
    assert_eq!(good.signature(), Ok(vec![1, 2, 3]));
    let bad = Block::new(key(&[1]), message(7, "hi"), "?".to_string());
    assert_eq!(bad.signature(), Err(CryptographyError::Encoding));
}

#[test]
fn authority_is_the_signer_of_a_server_update() {
    let update = Block::new(
        key(&[1]),
        Action::ServerPassportUpdate {
            field: "f".to_string(),
            value: Value::Null,
            signer: key(&[2]),
            sign: String::new(),
        },
        String::new(),
    );
    assert_eq!(update.authority(), &key(&[2]));
    let delete =
        Block::new(key(&[1]), Action::ServerPassportDelete { field: "f".to_string() }, String::new());
    assert_eq!(delete.authority(), &key(&[1]));
    let member = Block::new(
        key(&[3]),
        Action::MembersPassportUpdate {
            field: "f".to_string(),
            value: Value::Null,
            sign: String::new(),
        },
        String::new(),
    );
    assert_eq!(member.authority(), &key(&[3]));
}

#[test]
fn payload_is_the_value_of_an_update() {
    let update = Block::new(
        key(&[1]),
        Action::MembersPassportUpdate {
            field: "f".to_string(),
            value: Value::from("Alice"),
            sign: "AQID".to_string(),
        },
        String::new(),
    );
    let value = update.payload().unwrap().unwrap();
    assert_eq!(value.value, Value::from("Alice"));
    assert_eq!(value.sign, vec![1, 2, 3]);
    let forged = Block::new(
        key(&[1]),
        Action::MembersPassportUpdate {
            field: "f".to_string(),
            value: Value::from("Alice"),
            sign: "!".to_string(),
        },
        String::new(),
    );
    assert_eq!(forged.payload(), Some(Err(CryptographyError::Encoding)));
    let post = Block::new(key(&[1]), message(1, "m"), String::new());
    assert_eq!(post.payload(), None);
}
