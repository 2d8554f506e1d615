//! Blocks: an action in a signed envelope.
//!
//! On the wire a block is an object with three members: `author`, the
//! author's key in base64; `action`, the action's wire form; and `sign`, the
//! signature as text.

use vstd::prelude::*;
use vstd::utf8::encode_utf8;
use serde_json::Value;
use crate::digest;
use crate::digest::sea_digest;
use crate::history::action::Action;
use crate::history::action::ActionView;
use crate::history::action::AsJsonError;
use crate::history::action::lemma_names_differ;
use crate::history::action::parse;
use crate::history::action::text_at;
use crate::json;
use crate::json::JsonModel;
use crate::json::json_bytes;
use crate::json::json_of;
use crate::json::nothing;
use crate::keys::CryptographyError;
use crate::keys::PublicKey;
use crate::keys::base64_bytes;
use crate::keys::base64_text;
use crate::keys::bytes_from_base64;
use crate::keys::key_bytes;
use crate::passport::PassportValue;
use crate::passport::PassportValueView;

verus! {

/// An action, the key of its author, and the author's signature over the
/// canonical bytes of the action's wire form. Making a block checks nothing.
#[derive(Debug, PartialEq, Eq)]
pub struct Block {
    pub author: PublicKey,
    pub action: Action,
    pub sign: String,
}

/// What a [`Block`] holds.
pub struct BlockView {
    pub author: Seq<u8>,
    pub action: ActionView,
    pub sign: Seq<char>,
}

impl View for Block {
    type V = BlockView;

    open spec fn view(&self) -> BlockView {
        BlockView { author: self.author@, action: self.action@, sign: self.sign@ }
    }
}

impl Clone for Block {
    fn clone(&self) -> (copy: Block)
        ensures
            copy@ == self@,
    {
        Block { author: self.author.clone(), action: self.action.clone(), sign: self.sign.clone() }
    }
}

/// The fingerprint of a block by this author with this signature: the hash
/// of the author's raw bytes followed by the signature text's bytes.
pub open spec fn fingerprint(author: Seq<u8>, sign: Seq<char>) -> u64 {
    sea_digest(author + encode_utf8(sign))
}

impl BlockView {
    /// The fingerprint by which a redelivered block is known.
    pub open spec fn fingerprint(self) -> u64 {
        fingerprint(self.author, self.sign)
    }

    /// The block's form on the wire.
    pub open spec fn wire_form(self) -> JsonModel {
        JsonModel::Record(
            nothing().insert("author"@, JsonModel::Text(base64_text(self.author))).insert(
                "action"@,
                self.action.wire_form(),
            ).insert("sign"@, JsonModel::Text(self.sign)),
        )
    }

    /// Whether every key in the block can be written down and read back.
    pub open spec fn legible(self) -> bool {
        &&& key_bytes(base64_text(self.author)) == Ok::<Seq<u8>, CryptographyError>(self.author)
        &&& self.action.legible()
    }

    /// The key that acts through the block: the signer of a server passport
    /// update, else the author.
    pub open spec fn authority(self) -> Seq<u8> {
        match self.action {
            ActionView::ServerPassportUpdate { signer, .. } => signer,
            _ => self.author,
        }
    }

    /// The bytes that the author signs, where there are any: the serialised
    /// wire form of the action.
    pub open spec fn signed_bytes(self) -> Option<Seq<u8>> {
        json_bytes(self.action.wire_form())
    }
}

/// The signed value that an action carries: none unless it is an update; an
/// error where the update's signature is no base64.
pub open spec fn payload_of(action: ActionView) -> Option<
    Result<PassportValueView, CryptographyError>,
> {
    match action {
        ActionView::ServerPassportUpdate { value, sign, .. } => Some(signed(value, sign)),
        ActionView::MembersPassportUpdate { value, sign, .. } => Some(signed(value, sign)),
        _ => None,
    }
}

/// A value with the raw bytes of its signature, which travels as base64.
pub open spec fn signed(value: JsonModel, sign: Seq<char>) -> Result<
    PassportValueView,
    CryptographyError,
> {
    match base64_bytes(sign) {
        Some(bytes) => Ok(PassportValueView { value, sign: bytes }),
        None => Err(CryptographyError::Encoding),
    }
}

/// Whether `made` is what `payload_of` names.
pub open spec fn carries(
    made: Option<Result<PassportValue, CryptographyError>>,
    action: ActionView,
) -> bool {
    match payload_of(action) {
        None => made is None,
        Some(Err(error)) => made == Some(Err::<PassportValue, CryptographyError>(error)),
        Some(Ok(meant)) => made matches Some(Ok(value)) && value@ == meant,
    }
}

/// The passport value of `value` and the signature that `sign` spells.
pub fn sign_value(value: &Value, sign: &str) -> (made: Result<PassportValue, CryptographyError>)
    ensures
        match signed(json_of(*value), sign@) {
            Ok(meant) => made matches Ok(got) && got@ == meant,
            Err(error) => made == Err::<PassportValue, CryptographyError>(error),
        },
{
    match bytes_from_base64(sign) {
        Ok(bytes) => Ok(PassportValue { value: value.clone(), sign: bytes }),
        Err(error) => Err(error),
    }
}

/// What a JSON value holds, read as a block: the block, or the first thing
/// found wrong with the value. The members are looked at in the order
/// `author`, `action`, `sign`.
pub open spec fn parse_block(wire: JsonModel) -> Result<BlockView, AsJsonError> {
    match text_at(wire, "author"@) {
        None => Err(AsJsonError::FieldNotFound("author")),
        Some(written) => match key_bytes(written) {
            Err(error) => Err(AsJsonError::Cryptography(error)),
            Ok(author) => match wire.member("action"@) {
                None => Err(AsJsonError::FieldNotFound("action")),
                Some(inner) => match parse(inner) {
                    Err(error) => Err(error),
                    Ok(action) => match text_at(wire, "sign"@) {
                        None => Err(AsJsonError::FieldNotFound("sign")),
                        Some(sign) => Ok(BlockView { author, action, sign }),
                    },
                },
            },
        },
    }
}

/// The result of reading a block: the block that `parse_block` names, or the
/// error that it names.
pub open spec fn reads_as_block(read: Result<Block, AsJsonError>, wire: JsonModel) -> bool {
    match parse_block(wire) {
        Ok(meant) => read matches Ok(block) && block@ == meant,
        Err(error) => read == Err::<Block, AsJsonError>(error),
    }
}

/// The names of a block's members differ from one another.
pub proof fn lemma_block_names_differ()
    ensures
        "author"@ != "action"@,
        "author"@ != "sign"@,
        "action"@ != "sign"@,
{
    reveal_strlit("author");
    reveal_strlit("action");
    reveal_strlit("sign");
    assert("author"@[1] != "action"@[1]);
    assert("author"@.len() != "sign"@.len());
    assert("action"@.len() != "sign"@.len());
}

/// Reading the wire form of a block gives the block back, provided that its
/// keys are legible.
pub proof fn lemma_parse_block_wire_form(block: BlockView)
    requires
        block.legible(),
    ensures
        parse_block(block.wire_form()) == Ok::<BlockView, AsJsonError>(block),
{
    lemma_block_names_differ();
    crate::history::action::lemma_parse_wire_form(block.action);
    let wire = block.wire_form();
    assert(text_at(wire, "author"@) == Some(base64_text(block.author)));
    assert(wire.member("action"@) == Some(block.action.wire_form()));
    assert(text_at(wire, "sign"@) == Some(block.sign));
}

/// Two blocks by one author with one signature have one fingerprint,
/// whatever their actions are.
pub proof fn lemma_fingerprint_ignores_action(first: BlockView, second: BlockView)
    requires
        first.author == second.author,
        first.sign == second.sign,
    ensures
        first.fingerprint() == second.fingerprint(),
{
}

impl Block {
    /// The block of these three parts.
    pub fn new(author: PublicKey, action: Action, sign: String) -> (block: Block)
        ensures
            block@ == (BlockView { author: author@, action: action@, sign: sign@ }),
    {
        Block { author, action, sign }
    }

    /// The block's fingerprint, which depends on the author and the
    /// signature and on nothing else.
    pub fn hash(&self) -> (digest: u64)
        ensures
            digest == self@.fingerprint(),
    {
        let mut hasher = digest::fresh();
        digest::feed_all(&mut hasher, self.author.as_bytes());
        digest::feed_all(&mut hasher, self.sign.as_str().as_bytes());
        proof {
            assert(Seq::<u8>::empty() + self.author@ == self.author@);
        }
        digest::finish(&hasher)
    }

    /// The bytes that the signature should have been made over.
    pub fn signed_bytes(&self) -> (bytes: Result<Vec<u8>, serde_json::Error>)
        ensures
            match bytes {
                Ok(made) => self@.signed_bytes() == Some(made@),
                Err(_) => self@.signed_bytes() is None,
            },
    {
        let wire = self.action.wire();
        json::to_bytes(&wire)
    }

    /// The key that acts through the block: the signer of a server passport
    /// update, else the author. It is the key whose capability counts for a
    /// server action, and the key that must have signed an update's value.
    pub fn authority(&self) -> (key: &PublicKey)
        ensures
            key@ == self@.authority(),
    {
        match &self.action {
            Action::ServerPassportUpdate { signer, .. } => signer,
            _ => &self.author,
        }
    }

    /// The signed value that the block's action carries, if it is an
    /// update.
    pub fn payload(&self) -> (made: Option<Result<PassportValue, CryptographyError>>)
        ensures
            carries(made, self@.action),
    {
        match &self.action {
            Action::ServerPassportUpdate { value, sign, .. } => Some(
                sign_value(value, sign.as_str()),
            ),
            Action::MembersPassportUpdate { value, sign, .. } => Some(
                sign_value(value, sign.as_str()),
            ),
            _ => None,
        }
    }

    /// The signature's raw bytes, where its text is base64.
    pub fn signature(&self) -> (bytes: Result<Vec<u8>, CryptographyError>)
        ensures
            match base64_bytes(self@.sign) {
                Some(found) => bytes matches Ok(got) && got@ == found,
                None => bytes == Err::<Vec<u8>, CryptographyError>(CryptographyError::Encoding),
            },
    {
        bytes_from_base64(self.sign.as_str())
    }

    /// The block's form on the wire. Reading it gives the block back.
    pub fn to_json(&self) -> (written: Result<Value, AsJsonError>)
        ensures
            written matches Ok(wire) && json_of(wire) == self@.wire_form(),
            parse_block(self@.wire_form()) == Ok::<BlockView, AsJsonError>(self@),
    {
        let action = self.action.wire();
        let author = self.author.to_base64();
        let mut wire = json::no_members();
        json::put_member(&mut wire, "author", json::text_value(author.as_str()));
        json::put_member(&mut wire, "action", action);
        json::put_member(&mut wire, "sign", json::text_value(self.sign.as_str()));
        proof {
            lemma_parse_block_wire_form(self@);
        }
        Ok(json::object_value(wire))
    }

    /// Reads a block from its form on the wire.
    pub fn from_json(wire: &Value) -> (read: Result<Block, AsJsonError>)
        ensures
            reads_as_block(read, json_of(*wire)),
    {
        let written = match crate::history::action::text_member(wire, "author", "author") {
            Ok(written) => written,
            Err(error) => {
                return Err(error);
            },
        };
        let author = match PublicKey::from_base64(written.as_str()) {
            Ok(author) => author,
            Err(error) => {
                return Err(AsJsonError::Cryptography(error));
            },
        };
        let action = match json::member(wire, "action") {
            Some(inner) => match Action::from_json(inner) {
                Ok(action) => action,
                Err(error) => {
                    return Err(error);
                },
            },
            None => {
                return Err(AsJsonError::FieldNotFound("action"));
            },
        };
        match crate::history::action::text_member(wire, "sign", "sign") {
            Ok(sign) => Ok(Block { author, action, sign }),
            Err(error) => Err(error),
        }
    }
}

} // verus!
