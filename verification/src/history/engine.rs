//! The engine: deduplicates, authorises and applies blocks.
//!
//! The engine neither checks signatures nor knows who administers a server.
//! For each block the caller gathers the [`Evidence`] and hands it in:
//!
//! * `envelope`: the outcome of checking [`Block::signature`] against the
//!   block's author over [`Block::signed_bytes`];
//! * `capable`: whether [`Block::authority`] is the owner or an administrator
//!   of the server that the block is delivered for;
//! * `payload`: for an update, the outcome of checking the signature of
//!   [`Block::payload`] against [`Block::authority`] over the value's
//!   [`PassportValue::signed_bytes`].
//!
//! What the engine does with a block is [`step`], a function of the state
//! before, the block, the subject and the evidence. Blocks are applied in
//! the order in which they are delivered. The set of applied fingerprints is
//! never pruned: memory grows with the history, and no block, however old,
//! is applied twice.

use vstd::prelude::*;
use serde_json::Value;
use std::collections::HashMap;
use std::collections::HashSet;
use crate::history::action::Action;
use crate::history::action::ActionView;
use crate::history::block::Block;
use crate::history::block::BlockView;
use crate::history::block::sign_value;
use crate::json::JsonModel;
use crate::json::json_of;
use crate::keys::CryptographyError;
use crate::keys::PublicKey;
use crate::keys::base64_bytes;
use crate::keys::bytes_from_base64;
use crate::equal::same_bytes;
use crate::passport::Passport;
use crate::passport::PassportValue;
use crate::passport::PassportValueView;

verus! {

/// Why a block was not applied.
#[derive(Debug, Clone, Copy, PartialEq, Eq, Structural)]
pub enum Rejection {
    /// The author's signature does not fit the block.
    Signature,
    /// The key that acts on the server's passport is neither the server's
    /// owner nor one of its administrators.
    Capability,
    /// The author acts on a member's passport that is not the author's own.
    Ownership,
    /// The signature of the value does not fit the value.
    Value,
    /// A signature could not be read, or the cryptography gave up.
    Cryptography(CryptographyError),
}

/// What became of a delivered block.
#[derive(Debug, Clone, Copy, PartialEq, Eq, Structural)]
pub enum ApplyOutcome {
    /// The block changed the state and is now part of the history.
    Applied,
    /// A block with this fingerprint had been applied before.
    Duplicate,
    /// The block was turned away; the state is as it was.
    Rejected(Rejection),
}

/// What the caller found out about a block before delivering it.
#[derive(Debug, Clone, Copy, PartialEq, Eq)]
pub struct Evidence {
    /// The check of the author's signature over the block's action.
    pub envelope: Result<bool, CryptographyError>,
    /// Whether the acting key may change the server's passport. Read for
    /// server actions only.
    pub capable: bool,
    /// The check of the value's signature against the acting key. Read for
    /// updates only.
    pub payload: Result<bool, CryptographyError>,
}

/// One message of a channel.
#[derive(Debug, PartialEq, Eq)]
pub struct Message {
    pub author: PublicKey,
    pub channel_id: u64,
    pub message: String,
    pub block_hash: u64,
}

/// What a [`Message`] holds.
pub struct MessageView {
    pub author: Seq<u8>,
    pub channel_id: u64,
    pub message: Seq<char>,
    pub block_hash: u64,
}

impl View for Message {
    type V = MessageView;

    open spec fn view(&self) -> MessageView {
        MessageView {
            author: self.author@,
            channel_id: self.channel_id,
            message: self.message@,
            block_hash: self.block_hash,
        }
    }
}

impl Clone for Message {
    fn clone(&self) -> (copy: Message)
        ensures
            copy@ == self@,
    {
        Message {
            author: self.author.clone(),
            channel_id: self.channel_id,
            message: self.message.clone(),
            block_hash: self.block_hash,
        }
    }
}

/// The fields of a passport, by name.
pub type Fields = Map<Seq<char>, PassportValueView>;

/// The state that a history of blocks amounts to.
pub struct EngineView {
    /// The fingerprints of the blocks that were applied.
    pub applied: Set<u64>,
    /// The fields of each identity that has a passport, by the identity's
    /// raw key.
    pub passports: Map<Seq<u8>, Fields>,
    /// The messages of each channel that has any, oldest first.
    pub channels: Map<u64, Seq<MessageView>>,
}

impl EngineView {
    /// The state before any block.
    pub open spec fn empty() -> EngineView {
        EngineView { applied: Set::empty(), passports: Map::empty(), channels: Map::empty() }
    }

    /// The fields of an identity; none where it has no passport.
    pub open spec fn fields(self, identity: Seq<u8>) -> Fields {
        if self.passports.dom().contains(identity) {
            self.passports[identity]
        } else {
            Map::empty()
        }
    }

    /// The messages of a channel; none where nothing was posted to it.
    pub open spec fn messages(self, channel_id: u64) -> Seq<MessageView> {
        if self.channels.dom().contains(channel_id) {
            self.channels[channel_id]
        } else {
            Seq::empty()
        }
    }

    /// The state once `block` has been applied for `subject`.
    pub open spec fn after(self, block: BlockView, subject: Seq<u8>) -> EngineView {
        let applied = self.applied.insert(block.fingerprint());
        match block.action {
            ActionView::ServerPassportUpdate { field, value, sign, .. } => EngineView {
                applied,
                passports: self.passports.insert(
                    subject,
                    self.fields(subject).insert(field, signed_value(value, sign)),
                ),
                channels: self.channels,
            },
            ActionView::MembersPassportUpdate { field, value, sign } => EngineView {
                applied,
                passports: self.passports.insert(
                    subject,
                    self.fields(subject).insert(field, signed_value(value, sign)),
                ),
                channels: self.channels,
            },
            ActionView::ServerPassportDelete { field } => EngineView {
                applied,
                passports: self.passports.insert(subject, self.fields(subject).remove(field)),
                channels: self.channels,
            },
            ActionView::MembersPassportDelete { field } => EngineView {
                applied,
                passports: self.passports.insert(subject, self.fields(subject).remove(field)),
                channels: self.channels,
            },
            ActionView::MembersMessagesNew { channel_id, message } => EngineView {
                applied,
                passports: self.passports,
                channels: self.channels.insert(
                    channel_id,
                    self.messages(channel_id).push(
                        MessageView {
                            author: block.author,
                            channel_id,
                            message,
                            block_hash: block.fingerprint(),
                        },
                    ),
                ),
            },
        }
    }
}

/// The passport value that an update stores: the value and the raw bytes of
/// its signature, which travels as base64. (An update whose signature is no
/// base64 is never applied.)
pub open spec fn signed_value(value: JsonModel, sign: Seq<char>) -> PassportValueView {
    PassportValueView {
        value,
        sign: match base64_bytes(sign) {
            Some(bytes) => bytes,
            None => Seq::empty(),
        },
    }
}

/// Why a signed value is turned away, if it is: its signature is no base64,
/// or the check of the signature did not say yes.
pub open spec fn value_refusal(sign: Seq<char>, payload: Result<bool, CryptographyError>) -> Option<
    Rejection,
> {
    match base64_bytes(sign) {
        None => Some(Rejection::Cryptography(CryptographyError::Encoding)),
        Some(_) => match payload {
            Ok(true) => None,
            Ok(false) => Some(Rejection::Value),
            Err(error) => Some(Rejection::Cryptography(error)),
        },
    }
}

/// Why a block whose envelope is good is turned away, if it is.
///
/// A server action needs the capability; a member action must come from the
/// member that it is delivered for; an update must carry a value whose
/// signature the acting key made; a message needs nothing more.
pub open spec fn refusal(block: BlockView, subject: Seq<u8>, evidence: Evidence) -> Option<
    Rejection,
> {
    match block.action {
        ActionView::ServerPassportUpdate { sign, .. } => if !evidence.capable {
            Some(Rejection::Capability)
        } else {
            value_refusal(sign, evidence.payload)
        },
        ActionView::ServerPassportDelete { .. } => if !evidence.capable {
            Some(Rejection::Capability)
        } else {
            None
        },
        ActionView::MembersPassportUpdate { sign, .. } => if block.author != subject {
            Some(Rejection::Ownership)
        } else {
            value_refusal(sign, evidence.payload)
        },
        ActionView::MembersPassportDelete { .. } => if block.author != subject {
            Some(Rejection::Ownership)
        } else {
            None
        },
        ActionView::MembersMessagesNew { .. } => None,
    }
}

/// What a delivery leads to: the state after it and the outcome.
///
/// A block whose fingerprint was applied before is a duplicate. Otherwise
/// the envelope is looked at, then the rules of the action. Only a block
/// that passes all of them changes the state.
pub open spec fn step(state: EngineView, block: BlockView, subject: Seq<u8>, evidence: Evidence) -> (
    EngineView,
    ApplyOutcome,
) {
    if state.applied.contains(block.fingerprint()) {
        (state, ApplyOutcome::Duplicate)
    } else {
        match evidence.envelope {
            Err(error) => (state, ApplyOutcome::Rejected(Rejection::Cryptography(error))),
            Ok(false) => (state, ApplyOutcome::Rejected(Rejection::Signature)),
            Ok(true) => match refusal(block, subject, evidence) {
                Some(reason) => (state, ApplyOutcome::Rejected(reason)),
                None => (state.after(block, subject), ApplyOutcome::Applied),
            },
        }
    }
}

/// Only an applied block changes the state.
pub proof fn lemma_only_applied_changes(
    state: EngineView,
    block: BlockView,
    subject: Seq<u8>,
    evidence: Evidence,
)
    ensures
        step(state, block, subject, evidence).1 != ApplyOutcome::Applied ==> step(
            state,
            block,
            subject,
            evidence,
        ).0 == state,
{
}

/// A block is applied at most once: delivered again after it was applied,
/// alone or as another block of the same fingerprint, for whatever subject
/// and with whatever evidence, it is a duplicate and the state stays.
pub proof fn lemma_applied_once(
    state: EngineView,
    block: BlockView,
    subject: Seq<u8>,
    evidence: Evidence,
    again: BlockView,
    other_subject: Seq<u8>,
    other_evidence: Evidence,
)
    requires
        step(state, block, subject, evidence).1 == ApplyOutcome::Applied,
        again.fingerprint() == block.fingerprint(),
    ensures
        step(step(state, block, subject, evidence).0, again, other_subject, other_evidence) == (
            step(state, block, subject, evidence).0,
            ApplyOutcome::Duplicate,
        ),
{
}

/// A member's passport changes by the member's own blocks only: an update
/// by an author for whom the block was not delivered leaves the state as it
/// was, and it is rejected for that reason unless it fails before that, as
/// a duplicate or on its envelope.
pub proof fn lemma_foreign_update_rejected(
    state: EngineView,
    block: BlockView,
    subject: Seq<u8>,
    evidence: Evidence,
)
    requires
        block.action is MembersPassportUpdate,
        block.author != subject,
    ensures
        step(state, block, subject, evidence).0 == state,
        step(state, block, subject, evidence).1 != ApplyOutcome::Applied,
        !state.applied.contains(block.fingerprint()) && evidence.envelope == Ok::<
            bool,
            CryptographyError,
        >(true) ==> step(state, block, subject, evidence).1 == ApplyOutcome::Rejected(
            Rejection::Ownership,
        ),
{
}

/// A message that is applied becomes the last of its channel, behind all
/// that were there, and no other channel changes.
pub proof fn lemma_message_appended(
    state: EngineView,
    block: BlockView,
    subject: Seq<u8>,
    evidence: Evidence,
)
    requires
        block.action is MembersMessagesNew,
        step(state, block, subject, evidence).1 == ApplyOutcome::Applied,
    ensures
        ({
            let next = step(state, block, subject, evidence).0;
            let channel = block.action->MembersMessagesNew_channel_id;
            &&& next.messages(channel).len() == state.messages(channel).len() + 1
            &&& next.messages(channel).drop_last() == state.messages(channel)
            &&& next.messages(channel).last().author == block.author
            &&& next.messages(channel).last().message == block.action->MembersMessagesNew_message
            &&& forall|other: u64| other != channel ==> next.messages(other) == state.messages(other)
            &&& next.passports == state.passports
        }),
{
    let next = step(state, block, subject, evidence).0;
    let channel = block.action->MembersMessagesNew_channel_id;
    assert(next.messages(channel).drop_last() =~= state.messages(channel));
}

/// The passports that a list stands for: each owner with the fields of the
/// owner's passport, a later passport before an earlier one of the same
/// owner.
pub open spec fn passports_of(entries: Seq<Passport>) -> Map<Seq<u8>, Fields>
    decreases entries.len(),
{
    if entries.len() == 0 {
        Map::empty()
    } else {
        passports_of(entries.drop_last()).insert(entries.last()@.owner, entries.last()@.fields)
    }
}

/// An identity has a passport exactly if some entry is owned by it.
pub proof fn lemma_passports_owners(entries: Seq<Passport>, owner: Seq<u8>)
    ensures
        passports_of(entries).dom().contains(owner) <==> exists|i: int|
            0 <= i < entries.len() && (#[trigger] entries[i])@.owner == owner,
    decreases entries.len(),
{
    if entries.len() > 0 {
        let front = entries.drop_last();
        lemma_passports_owners(front, owner);
        if passports_of(entries).dom().contains(owner) {
            if entries.last()@.owner == owner {
                assert(entries[entries.len() - 1]@.owner == owner);
            } else {
                let i = choose|i: int| 0 <= i < front.len() && (#[trigger] front[i])@.owner == owner;
                assert(entries[i]@.owner == owner);
            }
        }
        if exists|i: int| 0 <= i < entries.len() && (#[trigger] entries[i])@.owner == owner {
            let i = choose|i: int| 0 <= i < entries.len() && (#[trigger] entries[i])@.owner == owner;
            if i < entries.len() - 1 {
                assert(front[i]@.owner == owner);
            }
        }
    }
}

/// The last passport of an owner is the one that counts.
pub proof fn lemma_passports_last(entries: Seq<Passport>, at: int)
    requires
        0 <= at < entries.len(),
        forall|j: int| at < j < entries.len() ==> (#[trigger] entries[j])@.owner != entries[at]@.owner,
    ensures
        passports_of(entries).dom().contains(entries[at]@.owner),
        passports_of(entries)[entries[at]@.owner] == entries[at]@.fields,
    decreases entries.len(),
{
    if at < entries.len() - 1 {
        let front = entries.drop_last();
        assert(front[at] == entries[at]);
        assert forall|j: int| at < j < front.len() implies (#[trigger] front[j])@.owner
            != front[at]@.owner by {
            assert(entries[j]@.owner != entries[at]@.owner);
        }
        lemma_passports_last(front, at);
        assert(entries[entries.len() - 1]@.owner != entries[at]@.owner);
    }
}

/// Putting another passport of the same owner in the place of the owner's
/// last one changes the fields of that owner and of nobody else.
pub proof fn lemma_passports_replaced(entries: Seq<Passport>, at: int, changed: Passport)
    requires
        0 <= at < entries.len(),
        changed@.owner == entries[at]@.owner,
        forall|j: int| at < j < entries.len() ==> (#[trigger] entries[j])@.owner != entries[at]@.owner,
    ensures
        passports_of(entries.update(at, changed)) == passports_of(entries).insert(
            changed@.owner,
            changed@.fields,
        ),
    decreases entries.len(),
{
    let front = entries.drop_last();
    let next = entries.update(at, changed);
    if at == entries.len() - 1 {
        assert(next.drop_last() == front);
        assert(passports_of(next) =~= passports_of(entries).insert(
            changed@.owner,
            changed@.fields,
        ));
    } else {
        assert(front[at] == entries[at]);
        assert forall|j: int| at < j < front.len() implies (#[trigger] front[j])@.owner
            != front[at]@.owner by {
            assert(entries[j]@.owner != entries[at]@.owner);
        }
        lemma_passports_replaced(front, at, changed);
        assert(next.drop_last() == front.update(at, changed));
        assert(next.last() == entries.last());
        assert(entries[entries.len() - 1]@.owner != entries[at]@.owner);
        assert(passports_of(next) =~= passports_of(entries).insert(
            changed@.owner,
            changed@.fields,
        ));
    }
}

/// What a list of messages holds.
pub open spec fn messages_of(entries: Seq<Message>) -> Seq<MessageView> {
    entries.map_values(|message: Message| message@)
}

/// The history of one community: what was applied, and what it amounts to.
#[derive(Debug)]
pub struct Engine {
    applied: HashSet<u64>,
    passports: Vec<Passport>,
    channels: HashMap<u64, Vec<Message>>,
}

impl View for Engine {
    type V = EngineView;

    closed spec fn view(&self) -> EngineView {
        EngineView {
            applied: self.applied@,
            passports: passports_of(self.passports@),
            channels: Map::new(
                |channel_id: u64| self.channels@.dom().contains(channel_id),
                |channel_id: u64| messages_of(self.channels@[channel_id]@),
            ),
        }
    }
}

impl Engine {
    /// An engine that has seen no block.
    pub fn new() -> (engine: Engine)
        ensures
            engine@ == EngineView::empty(),
    {
        let engine = Engine {
            applied: HashSet::new(),
            passports: Vec::new(),
            channels: HashMap::new(),
        };
        proof {
            assert(engine@.channels =~= Map::empty());
        }
        engine
    }

    /// Where the passport that counts for `owner` stands, if there is one.
    fn position(&self, owner: &PublicKey) -> (found: Option<usize>)
        ensures
            match found {
                Some(at) => {
                    &&& at < self.passports@.len()
                    &&& self.passports@[at as int]@.owner == owner@
                    &&& forall|j: int|
                        at < j < self.passports@.len() ==> (#[trigger] self.passports@[j])@.owner
                            != owner@
                    &&& self@.passports.dom().contains(owner@)
                    &&& self@.passports[owner@] == self.passports@[at as int]@.fields
                },
                None => !self@.passports.dom().contains(owner@),
            },
    {
        let mut at: usize = self.passports.len();
        while at > 0
            invariant
                at <= self.passports@.len(),
                forall|j: int|
                    at <= j < self.passports@.len() ==> (#[trigger] self.passports@[j])@.owner
                        != owner@,
            decreases at,
        {
            at -= 1;
            if same_bytes(self.passports[at].owner().as_bytes(), owner.as_bytes()) {
                proof {
                    lemma_passports_last(self.passports@, at as int);
                }
                return Some(at);
            }
        }
        proof {
            lemma_passports_owners(self.passports@, owner@);
        }
        None
    }

    /// A copy of the passport of `identity` as it stands; a passport without
    /// fields where the identity has none.
    pub fn passport_for(&self, identity: &PublicKey) -> (snapshot: Passport)
        ensures
            snapshot@.owner == identity@,
            snapshot@.fields == self@.fields(identity@),
    {
        match self.position(identity) {
            Some(at) => self.passports[at].clone(),
            None => Passport::new(identity.clone()),
        }
    }

    /// A copy of the messages of a channel, in the order in which they were
    /// applied; none where nothing was posted to it.
    pub fn messages_for(&self, channel_id: u64) -> (messages: Vec<Message>)
        ensures
            messages_of(messages@) == self@.messages(channel_id),
    {
        broadcast use vstd::std_specs::hash::group_hash_axioms;

        let mut copies: Vec<Message> = Vec::new();
        match self.channels.get(&channel_id) {
            Some(stored) => {
                let mut at: usize = 0;
                while at < stored.len()
                    invariant
                        at <= stored@.len(),
                        copies@.len() == at,
                        forall|j: int| 0 <= j < at ==> (#[trigger] copies@[j])@ == stored@[j]@,
                    decreases stored@.len() - at,
                {
                    copies.push(stored[at].clone());
                    at += 1;
                }
                proof {
                    assert(messages_of(copies@) =~= messages_of(stored@));
                }
            },
            None => {
                proof {
                    assert(messages_of(copies@) =~= Seq::empty());
                }
            },
        }
        copies
    }

    /// Makes sure that `owner` has a passport, and says where it stands.
    fn slot(&mut self, owner: &PublicKey) -> (at: usize)
        ensures
            at < final(self).passports@.len(),
            final(self).passports@[at as int]@.owner == owner@,
            final(self).passports@[at as int]@.fields == old(self)@.fields(owner@),
            forall|j: int|
                at < j < final(self).passports@.len() ==> (#[trigger] final(self).passports@[j])@.owner
                    != owner@,
            final(self)@.passports == old(self)@.passports.insert(
                owner@,
                old(self)@.fields(owner@),
            ),
            final(self).applied == old(self).applied,
            final(self).channels == old(self).channels,
    {
        match self.position(owner) {
            Some(at) => {
                proof {
                    assert(self@.passports =~= self@.passports.insert(owner@, self@.fields(owner@)));
                }
                at
            },
            None => {
                let ghost before = self.passports@;
                self.passports.push(Passport::new(owner.clone()));
                proof {
                    assert(self.passports@.drop_last() == before);
                }
                self.passports.len() - 1
            },
        }
    }

    /// Stores a signed value under `field` of the passport of `owner`,
    /// unless there is a reason to turn it away.
    fn store(
        &mut self,
        owner: &PublicKey,
        field: &str,
        value: &Value,
        sign: &str,
        payload: Result<bool, CryptographyError>,
    ) -> (reason: Option<Rejection>)
        ensures
            reason == value_refusal(sign@, payload),
            final(self).applied == old(self).applied,
            final(self).channels == old(self).channels,
            final(self)@.passports == if reason is None {
                old(self)@.passports.insert(
                    owner@,
                    old(self)@.fields(owner@).insert(field@, signed_value(json_of(*value), sign@)),
                )
            } else {
                old(self)@.passports
            },
    {
        let signed = match sign_value(value, sign) {
            Ok(signed) => signed,
            Err(error) => {
                return Some(Rejection::Cryptography(error));
            },
        };
        match payload {
            Ok(true) => {
                let at = self.slot(owner);
                let ghost listed = self.passports@;
                let mut passport = self.passports.remove(at);
                let _ = passport.set(field, signed, payload);
                proof {
                    lemma_passports_replaced(listed, at as int, passport);
                }
                self.passports.insert(at, passport);
                proof {
                    assert(self.passports@ == listed.update(at as int, passport));
                    assert(self@.passports =~= old(self)@.passports.insert(
                        owner@,
                        old(self)@.fields(owner@).insert(
                            field@,
                            signed_value(json_of(*value), sign@),
                        ),
                    ));
                }
                None
            },
            Ok(false) => Some(Rejection::Value),
            Err(error) => Some(Rejection::Cryptography(error)),
        }
    }

    /// Drops `field` from the passport of `owner`.
    fn discard(&mut self, owner: &PublicKey, field: &str)
        ensures
            final(self).applied == old(self).applied,
            final(self).channels == old(self).channels,
            final(self)@.passports == old(self)@.passports.insert(
                owner@,
                old(self)@.fields(owner@).remove(field@),
            ),
    {
        let at = self.slot(owner);
        let ghost listed = self.passports@;
        let mut passport = self.passports.remove(at);
        passport.remove(field);
        proof {
            lemma_passports_replaced(listed, at as int, passport);
        }
        self.passports.insert(at, passport);
        proof {
            assert(self.passports@ == listed.update(at as int, passport));
            assert(self@.passports =~= old(self)@.passports.insert(
                owner@,
                old(self)@.fields(owner@).remove(field@),
            ));
        }
    }

    /// Appends a message to its channel.
    fn post(&mut self, message: Message)
        ensures
            final(self).applied == old(self).applied,
            final(self).passports == old(self).passports,
            final(self)@.channels == old(self)@.channels.insert(
                message.channel_id,
                old(self)@.messages(message.channel_id).push(message@),
            ),
    {
        broadcast use vstd::std_specs::hash::group_hash_axioms;

        let channel_id = message.channel_id;
        let ghost posted = message@;
        let mut messages = match self.channels.remove(&channel_id) {
            Some(messages) => messages,
            None => Vec::new(),
        };
        proof {
            assert(messages_of(messages@) =~= old(self)@.messages(channel_id));
        }
        let ghost before = messages@;
        messages.push(message);
        proof {
            assert(messages_of(messages@) =~= messages_of(before).push(posted));
        }
        self.channels.insert(channel_id, messages);
        proof {
            assert(self@.channels =~= old(self)@.channels.insert(
                channel_id,
                old(self)@.messages(channel_id).push(posted),
            ));
        }
    }

    /// Takes in one block, delivered for `subject`: the server or the member
    /// whose passport the block's action is about. `evidence` is what the
    /// caller's cryptography and the server's list of administrators say of
    /// the block.
    ///
    /// The state and the outcome are those that [`step`] names. A rejection
    /// ends the delivery of this block and nothing else: the next block is
    /// taken in as any other.
    pub fn deliver(&mut self, block: &Block, subject: &PublicKey, evidence: &Evidence) -> (outcome:
        ApplyOutcome)
        ensures
            (final(self)@, outcome) == step(old(self)@, block@, subject@, *evidence),
    {
        broadcast use vstd::std_specs::hash::group_hash_axioms;

        let hash = block.hash();
        if self.applied.contains(&hash) {
            return ApplyOutcome::Duplicate;
        }
        match evidence.envelope {
            Err(error) => {
                return ApplyOutcome::Rejected(Rejection::Cryptography(error));
            },
            Ok(false) => {
                return ApplyOutcome::Rejected(Rejection::Signature);
            },
            Ok(true) => {},
        }
        match &block.action {
            Action::ServerPassportUpdate { field, value, sign, .. } => {
                if !evidence.capable {
                    return ApplyOutcome::Rejected(Rejection::Capability);
                }
                match self.store(subject, field.as_str(), value, sign.as_str(), evidence.payload) {
                    Some(reason) => {
                        return ApplyOutcome::Rejected(reason);
                    },
                    None => {},
                }
            },
            Action::ServerPassportDelete { field } => {
                if !evidence.capable {
                    return ApplyOutcome::Rejected(Rejection::Capability);
                }
                self.discard(subject, field.as_str());
            },
            Action::MembersPassportUpdate { field, value, sign } => {
                if !same_bytes(block.author.as_bytes(), subject.as_bytes()) {
                    return ApplyOutcome::Rejected(Rejection::Ownership);
                }
                match self.store(subject, field.as_str(), value, sign.as_str(), evidence.payload) {
                    Some(reason) => {
                        return ApplyOutcome::Rejected(reason);
                    },
                    None => {},
                }
            },
            Action::MembersPassportDelete { field } => {
                if !same_bytes(block.author.as_bytes(), subject.as_bytes()) {
                    return ApplyOutcome::Rejected(Rejection::Ownership);
                }
                self.discard(subject, field.as_str());
            },
            Action::MembersMessagesNew { channel_id, message } => {
                self.post(
                    Message {
                        author: block.author.clone(),
                        channel_id: *channel_id,
                        message: message.clone(),
                        block_hash: hash,
                    },
                );
            },
        }
        self.applied.insert(hash);
        ApplyOutcome::Applied
    }
}

} // verus!
