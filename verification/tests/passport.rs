use chat_ledger::keys::{CryptographyError, PublicKey};
use chat_ledger::passport::{Passport, PassportError, PassportValue};
use serde_json::Value;

fn key(bytes: &[u8]) -> PublicKey {
    PublicKey::from_bytes(bytes.to_vec()).unwrap()
}

fn signed(text: &str, sign: &[u8]) -> PassportValue {
    PassportValue::new(Value::from(text), sign.to_vec()).unwrap()
}

#[test]
fn message_is_the_canonical_serialisation() {
    assert_eq!(PassportValue::message(&Value::from("Alice")).unwrap(), b"\"Alice\"".to_vec());
    let object: Value = serde_json::from_str(r#"{"b": [1, 2], "a": null}"#).unwrap();
    assert_eq!(PassportValue::message(&object).unwrap(), br#"{"a":null,"b":[1,2]}"#.to_vec());
    assert_eq!(signed("x", &[1]).signed_bytes().unwrap(), b"\"x\"".to_vec());
}

#[test]
fn new_keeps_value_and_signature() {
    let value = signed("Alice", &[1, 2, 3]);
    assert_eq!(value.value, Value::from("Alice"));
    assert_eq!(value.sign, vec![1, 2, 3]);
    assert_eq!(value.clone(), value);
}

#[test]
fn validate_says_what_the_check_said() {
    let value = signed("Alice", &[1, 2, 3]);
    assert!(matches!(value.validate(Ok(true)), Ok(true)));
    assert!(matches!(value.validate(Ok(false)), Ok(false)));
    assert!(matches!(
        value.validate(Err(CryptographyError::Primitive)),
        Err(PassportError::Cryptography(CryptographyError::Primitive))
    ));
}

#[test]
fn new_passport_is_empty() {
    let passport = Passport::new(key(&[1]));
    assert_eq!(passport.owner(), &key(&[1]));
    assert_eq!(passport.get("nickname"), None);
    assert_eq!(passport.get(""), None);
}

#[test]
fn set_stores_a_vouched_value() {
    let mut passport = Passport::new(key(&[1]));
    assert!(matches!(passport.set("nickname", signed("Alice", &[1]), Ok(true)), Ok(true)));
    assert_eq!(passport.get("nickname"), Some(&signed("Alice", &[1])));
    assert_eq!(passport.get("nick"), None);
}

#[test]
fn set_overwrites() {
    let mut passport = Passport::new(key(&[1]));
    passport.set("nickname", signed("Alice", &[1]), Ok(true)).unwrap();
    passport.set("colour", signed("red", &[2]), Ok(true)).unwrap();
    passport.set("nickname", signed("Alicia", &[3]), Ok(true)).unwrap();
    assert_eq!(passport.get("nickname"), Some(&signed("Alicia", &[3])));
    assert_eq!(passport.get("colour"), Some(&signed("red", &[2])));
}

#[test]
fn set_rejects_an_invalid_value() {
    let mut passport = Passport::new(key(&[1]));
    assert!(matches!(passport.set("nickname", signed("Mallory", &[9]), Ok(false)), Ok(false)));
    assert_eq!(passport.get("nickname"), None);
    passport.set("nickname", signed("Alice", &[1]), Ok(true)).unwrap();
    assert!(matches!(passport.set("nickname", signed("Mallory", &[9]), Ok(false)), Ok(false)));
    assert_eq!(passport.get("nickname"), Some(&signed("Alice", &[1])));
}

#[test]
fn set_passes_a_failure_on() {
    let mut passport = Passport::new(key(&[1]));
    passport.set("nickname", signed("Alice", &[1]), Ok(true)).unwrap();
    assert!(matches!(
        passport.set("nickname", signed("Bob", &[2]), Err(CryptographyError::Primitive)),
        Err(PassportError::Cryptography(CryptographyError::Primitive))
    ));
    assert_eq!(passport.get("nickname"), Some(&signed("Alice", &[1])));
}

#[test]
fn remove_drops_the_field() {
    let mut passport = Passport::new(key(&[1]));
    passport.set("nickname", signed("Alice", &[1]), Ok(true)).unwrap();
    passport.set("colour", signed("red", &[2]), Ok(true)).unwrap();
    passport.remove("nickname");
    assert_eq!(passport.get("nickname"), None);
    assert_eq!(passport.get("colour"), Some(&signed("red", &[2])));
    passport.remove("nickname");
    passport.remove("never there");
    assert_eq!(passport.get("colour"), Some(&signed("red", &[2])));
}

#[test]
fn a_copy_is_independent() {
    let mut passport = Passport::new(key(&[1]));
    passport.set("nickname", signed("Alice", &[1]), Ok(true)).unwrap();
    let copy = passport.clone();
    passport.remove("nickname");
    assert_eq!(copy.get("nickname"), Some(&signed("Alice", &[1])));
    assert_eq!(copy.owner(), &key(&[1]));
}
