//! Passports: the signed fields that an identity has published.
//!
//! A passport keeps a field only if the caller's cryptography has vouched
//! for the value's signature. The caller serialises the value with
//! [`PassportValue::signed_bytes`], has the signature checked, and hands the
//! outcome to [`Passport::set`] together with the value.

use vstd::prelude::*;
use vstd::std_specs::convert::FromSpecImpl;
use serde_json::Value;
use crate::json;
use crate::json::JsonModel;
use crate::json::json_bytes;
use crate::json::json_of;
use crate::keys::CryptographyError;
use crate::keys::PublicKey;
use crate::equal::same_text;

verus! {

/// Why a passport value could not be made or checked.
#[derive(Debug)]
pub enum PassportError {
    /// The value could not be serialised.
    Serialize(serde_json::Error),
    /// The cryptography gave up.
    Cryptography(CryptographyError),
}

impl From<serde_json::Error> for PassportError {
    fn from(error: serde_json::Error) -> (wrapped: PassportError) {
        PassportError::Serialize(error)
    }
}

impl FromSpecImpl<serde_json::Error> for PassportError {
    open spec fn obeys_from_spec() -> bool {
        true
    }

    open spec fn from_spec(error: serde_json::Error) -> PassportError {
        PassportError::Serialize(error)
    }
}

impl From<CryptographyError> for PassportError {
    fn from(error: CryptographyError) -> (wrapped: PassportError) {
        PassportError::Cryptography(error)
    }
}

impl FromSpecImpl<CryptographyError> for PassportError {
    open spec fn obeys_from_spec() -> bool {
        true
    }

    open spec fn from_spec(error: CryptographyError) -> PassportError {
        PassportError::Cryptography(error)
    }
}

/// One value of a passport field, with the signature over its canonical
/// bytes.
#[derive(Debug, PartialEq, Eq)]
pub struct PassportValue {
    pub value: Value,
    pub sign: Vec<u8>,
}

/// What a [`PassportValue`] holds.
pub struct PassportValueView {
    pub value: JsonModel,
    pub sign: Seq<u8>,
}

impl View for PassportValue {
    type V = PassportValueView;

    open spec fn view(&self) -> PassportValueView {
        PassportValueView { value: json_of(self.value), sign: self.sign@ }
    }
}

impl Clone for PassportValue {
    fn clone(&self) -> (copy: PassportValue)
        ensures
            copy@ == self@,
    {
        PassportValue { value: self.value.clone(), sign: self.sign.clone() }
    }
}

/// What a signature check that was handed in amounts to: the verdict, or
/// the failure of the cryptography.
pub open spec fn verdict(check: Result<bool, CryptographyError>, made: Result<
    bool,
    PassportError,
>) -> bool {
    match check {
        Ok(valid) => made matches Ok(said) && said == valid,
        Err(error) => made matches Err(PassportError::Cryptography(got)) && got == error,
    }
}

impl PassportValue {
    /// The bytes that are signed for a value: its canonical serialisation.
    pub fn message(value: &Value) -> (bytes: Result<Vec<u8>, PassportError>)
        ensures
            match json_bytes(json_of(*value)) {
                Some(canonical) => bytes matches Ok(made) && made@ == canonical,
                None => bytes matches Err(PassportError::Serialize(_)),
            },
    {
        match json::to_bytes(value) {
            Ok(bytes) => Ok(bytes),
            Err(error) => Err(PassportError::Serialize(error)),
        }
    }

    /// The value together with the signature that was made over
    /// [`PassportValue::message`] of it. A value that cannot be serialised
    /// cannot have been signed, and is refused.
    pub fn new(value: Value, sign: Vec<u8>) -> (made: Result<PassportValue, PassportError>)
        ensures
            match json_bytes(json_of(value)) {
                Some(_) => made matches Ok(signed) && signed@ == (PassportValueView {
                    value: json_of(value),
                    sign: sign@,
                }),
                None => made matches Err(PassportError::Serialize(_)),
            },
    {
        match json::to_bytes(&value) {
            Ok(_) => Ok(PassportValue { value, sign }),
            Err(error) => Err(PassportError::Serialize(error)),
        }
    }

    /// The bytes over which this value's signature is checked.
    pub fn signed_bytes(&self) -> (bytes: Result<Vec<u8>, PassportError>)
        ensures
            match json_bytes(self@.value) {
                Some(canonical) => bytes matches Ok(made) && made@ == canonical,
                None => bytes matches Err(PassportError::Serialize(_)),
            },
    {
        PassportValue::message(&self.value)
    }

    /// Whether the value's signature is good, given the outcome of checking
    /// it against a key: a signature by another key is `Ok(false)`, no
    /// error; only a failure of the cryptography is one.
    pub fn validate(&self, check: Result<bool, CryptographyError>) -> (made: Result<
        bool,
        PassportError,
    >)
        ensures
            verdict(check, made),
    {
        match check {
            Ok(valid) => Ok(valid),
            Err(error) => Err(PassportError::Cryptography(error)),
        }
    }
}

/// The fields that a list of entries stands for: each name with its value,
/// a later entry before an earlier one of the same name.
pub open spec fn fields_of(entries: Seq<(String, PassportValue)>) -> Map<
    Seq<char>,
    PassportValueView,
>
    decreases entries.len(),
{
    if entries.len() == 0 {
        Map::empty()
    } else {
        fields_of(entries.drop_last()).insert(entries.last().0@, entries.last().1@)
    }
}

/// A name is a field exactly if some entry has it.
pub proof fn lemma_fields_names(entries: Seq<(String, PassportValue)>, name: Seq<char>)
    ensures
        fields_of(entries).dom().contains(name) <==> exists|i: int|
            0 <= i < entries.len() && (#[trigger] entries[i]).0@ == name,
    decreases entries.len(),
{
    if entries.len() > 0 {
        let front = entries.drop_last();
        lemma_fields_names(front, name);
        if fields_of(entries).dom().contains(name) {
            if entries.last().0@ == name {
                assert(entries[entries.len() - 1].0@ == name);
            } else {
                let i = choose|i: int| 0 <= i < front.len() && (#[trigger] front[i]).0@ == name;
                assert(entries[i].0@ == name);
            }
        }
        if exists|i: int| 0 <= i < entries.len() && (#[trigger] entries[i]).0@ == name {
            let i = choose|i: int| 0 <= i < entries.len() && (#[trigger] entries[i]).0@ == name;
            if i < entries.len() - 1 {
                assert(front[i].0@ == name);
            }
        }
    }
}

/// The last entry of a name is the field of that name.
pub proof fn lemma_fields_last(entries: Seq<(String, PassportValue)>, at: int)
    requires
        0 <= at < entries.len(),
        forall|j: int| at < j < entries.len() ==> (#[trigger] entries[j]).0@ != entries[at].0@,
    ensures
        fields_of(entries).dom().contains(entries[at].0@),
        fields_of(entries)[entries[at].0@] == entries[at].1@,
    decreases entries.len(),
{
    if at < entries.len() - 1 {
        let front = entries.drop_last();
        assert(front[at] == entries[at]);
        assert forall|j: int| at < j < front.len() implies (#[trigger] front[j]).0@
            != front[at].0@ by {
            assert(entries[j].0@ != entries[at].0@);
        }
        lemma_fields_last(front, at);
        assert(entries[entries.len() - 1].0@ != entries[at].0@);
    }
}

/// Taking out an entry changes no field but, at most, the one of its name.
pub proof fn lemma_fields_without(entries: Seq<(String, PassportValue)>, at: int)
    requires
        0 <= at < entries.len(),
    ensures
        fields_of(entries.remove(at)).remove(entries[at].0@) == fields_of(entries).remove(
            entries[at].0@,
        ),
    decreases entries.len(),
{
    let name = entries[at].0@;
    let rest = entries.remove(at);
    let front = entries.drop_last();
    if at == entries.len() - 1 {
        assert(rest == front);
        assert(fields_of(front).remove(name) =~= fields_of(entries).remove(name));
    } else {
        lemma_fields_without(front, at);
        assert(rest.drop_last() == front.remove(at));
        assert(rest.last() == entries.last());
        assert(front[at] == entries[at]);
        let short = fields_of(front.remove(at));
        let long = fields_of(front);
        let last_name = entries.last().0@;
        let last_value = entries.last().1@;
        assert(short.remove(name) == long.remove(name));
        assert(fields_of(rest) == short.insert(last_name, last_value));
        assert(fields_of(entries) == long.insert(last_name, last_value));
        let left = fields_of(rest).remove(name);
        let right = fields_of(entries).remove(name);
        assert forall|other: Seq<char>| left.dom().contains(other) <==> right.dom().contains(
            other,
        ) by {
            if other != name && other != last_name {
                assert(short.remove(name).dom().contains(other) <==> short.dom().contains(other));
                assert(long.remove(name).dom().contains(other) <==> long.dom().contains(other));
            }
        }
        assert forall|other: Seq<char>| left.dom().contains(other) implies left[other]
            == right[other] by {
            if other != last_name {
                assert(short.remove(name)[other] == short[other]);
                assert(long.remove(name)[other] == long[other]);
            }
        }
        assert(fields_of(rest).remove(name) =~= fields_of(entries).remove(name));
    }
}

/// Entries that hold the same names and values, place by place, stand for
/// the same fields.
pub proof fn lemma_fields_alike(left: Seq<(String, PassportValue)>, right: Seq<
    (String, PassportValue),
>)
    requires
        left.len() == right.len(),
        forall|i: int|
            0 <= i < left.len() ==> (#[trigger] left[i]).0@ == right[i].0@ && left[i].1@
                == right[i].1@,
    ensures
        fields_of(left) == fields_of(right),
    decreases left.len(),
{
    if left.len() > 0 {
        assert(left.last().0@ == right.last().0@ && left.last().1@ == right.last().1@) by {
            assert(left[left.len() - 1].0@ == right[left.len() - 1].0@);
        }
        assert forall|i: int| 0 <= i < left.drop_last().len() implies (
        #[trigger] left.drop_last()[i]).0@ == right.drop_last()[i].0@ && left.drop_last()[i].1@
            == right.drop_last()[i].1@ by {
            assert(left[i].0@ == right[i].0@);
        }
        lemma_fields_alike(left.drop_last(), right.drop_last());
    }
}

/// The signed fields of one identity.
#[derive(Debug)]
pub struct Passport {
    owner: PublicKey,
    fields: Vec<(String, PassportValue)>,
}

/// What a [`Passport`] holds: its owner's key and its fields by name.
pub struct PassportView {
    pub owner: Seq<u8>,
    pub fields: Map<Seq<char>, PassportValueView>,
}

impl View for Passport {
    type V = PassportView;

    closed spec fn view(&self) -> PassportView {
        PassportView { owner: self.owner@, fields: fields_of(self.fields@) }
    }
}

impl Clone for Passport {
    fn clone(&self) -> (copy: Passport)
        ensures
            copy@ == self@,
    {
        let mut fields: Vec<(String, PassportValue)> = Vec::new();
        let mut at: usize = 0;
        while at < self.fields.len()
            invariant
                at <= self.fields@.len(),
                fields@.len() == at,
                forall|i: int|
                    0 <= i < at ==> (#[trigger] fields@[i]).0@ == self.fields@[i].0@ && fields@[i].1@
                        == self.fields@[i].1@,
            decreases self.fields@.len() - at,
        {
            fields.push((self.fields[at].0.clone(), self.fields[at].1.clone()));
            at += 1;
        }
        proof {
            lemma_fields_alike(fields@, self.fields@);
        }
        Passport { owner: self.owner.clone(), fields }
    }
}

impl Passport {
    /// The passport of `owner`, without fields.
    pub fn new(owner: PublicKey) -> (passport: Passport)
        ensures
            passport@ == (PassportView { owner: owner@, fields: Map::empty() }),
    {
        Passport { owner, fields: Vec::new() }
    }

    /// The key of the passport's owner.
    pub fn owner(&self) -> (owner: &PublicKey)
        ensures
            owner@ == self@.owner,
    {
        &self.owner
    }

    /// Stores `value` under `key`, provided that `check`, the outcome of
    /// checking the value's signature against the key that has authority
    /// over the field, is a plain yes. Then the answer is `Ok(true)` and the
    /// value replaces whatever the field held. On a plain no the answer is
    /// `Ok(false)`, on a failure of the cryptography it is that failure; in
    /// both cases the passport stays as it was.
    pub fn set(&mut self, key: &str, value: PassportValue, check: Result<
        bool,
        CryptographyError,
    >) -> (made: Result<bool, PassportError>)
        ensures
            verdict(check, made),
            final(self)@.owner == old(self)@.owner,
            final(self)@.fields == if check == Ok::<bool, CryptographyError>(true) {
                old(self)@.fields.insert(key@, value@)
            } else {
                old(self)@.fields
            },
    {
        match value.validate(check) {
            Ok(true) => {
                self.remove(key);
                let ghost stored = value@;
                let ghost before = self.fields@;
                self.fields.push((key.to_owned(), value));
                proof {
                    assert(self.fields@.drop_last() == before);
                    assert(self@.fields =~= old(self)@.fields.insert(key@, stored));
                }
                Ok(true)
            },
            Ok(false) => Ok(false),
            Err(error) => Err(error),
        }
    }

    /// The value of the field `key`, if the passport has one.
    pub fn get(&self, key: &str) -> (found: Option<&PassportValue>)
        ensures
            match found {
                Some(value) => self@.fields.dom().contains(key@) && self@.fields[key@] == value@,
                None => !self@.fields.dom().contains(key@),
            },
    {
        let mut at: usize = self.fields.len();
        while at > 0
            invariant
                at <= self.fields@.len(),
                forall|j: int| at <= j < self.fields@.len() ==> (#[trigger] self.fields@[j]).0@ != key@,
            decreases at,
        {
            at -= 1;
            if same_text(self.fields[at].0.as_str(), key) {
                proof {
                    lemma_fields_last(self.fields@, at as int);
                }
                return Some(&self.fields[at].1);
            }
        }
        proof {
            lemma_fields_names(self.fields@, key@);
        }
        None
    }

    /// Drops the field `key`, whether or not the passport has it.
    pub fn remove(&mut self, key: &str)
        ensures
            final(self)@.owner == old(self)@.owner,
            final(self)@.fields == old(self)@.fields.remove(key@),
    {
        let mut at: usize = 0;
        while at < self.fields.len()
            invariant
                at <= self.fields@.len(),
                self.owner == old(self).owner,
                forall|j: int| 0 <= j < at ==> (#[trigger] self.fields@[j]).0@ != key@,
                fields_of(self.fields@).remove(key@) == fields_of(old(self).fields@).remove(key@),
            decreases self.fields@.len() - at,
        {
            if same_text(self.fields[at].0.as_str(), key) {
                proof {
                    lemma_fields_without(self.fields@, at as int);
                }
                self.fields.remove(at);
            } else {
                at += 1;
            }
        }
        proof {
            lemma_fields_names(self.fields@, key@);
            assert(fields_of(self.fields@) =~= fields_of(self.fields@).remove(key@));
        }
    }
}

} // verus!
