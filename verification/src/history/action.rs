//! Actions and their form on the wire.
//!
//! On the wire an action is an object with two members: `type`, one of five
//! tags, and `body`, an object whose members depend on the tag. A server
//! passport update names its signer under `body.signer` and carries the
//! signature under `body.sign`.

use vstd::prelude::*;
use serde_json::Value;
use crate::json::JsonModel;
use crate::json::json_of;
use crate::json::nothing;
use crate::equal::same_text;
use crate::json;
use crate::keys::CryptographyError;
use crate::keys::PublicKey;
use crate::keys::base64_text;
use crate::keys::key_bytes;

verus! {

/// Why a JSON value could not be read as what it should hold.
#[derive(Debug, PartialEq, Eq)]
pub enum AsJsonError {
    /// A member is missing, or holds a value of the wrong kind. The text is
    /// the member's path.
    FieldNotFound(&'static str),
    /// A member is there and holds no value that this crate accepts.
    FieldValueInvalid(&'static str),
    /// A key on the wire could not be read.
    Cryptography(CryptographyError),
}

/// A request to change a passport or to add to a channel.
#[derive(Debug, PartialEq, Eq)]
pub enum Action {
    /// Set a field of the server's passport. The signer must be the server's
    /// owner or one of its administrators.
    ServerPassportUpdate { field: String, value: Value, signer: PublicKey, sign: String },
    /// Drop a field of the server's passport.
    ServerPassportDelete { field: String },
    /// Set a field of a member's passport, signed by the member.
    MembersPassportUpdate { field: String, value: Value, sign: String },
    /// Drop a field of a member's passport.
    MembersPassportDelete { field: String },
    /// Post a message to a channel.
    MembersMessagesNew { channel_id: u64, message: String },
}

/// What an [`Action`] says.
pub enum ActionView {
    ServerPassportUpdate { field: Seq<char>, value: JsonModel, signer: Seq<u8>, sign: Seq<char> },
    ServerPassportDelete { field: Seq<char> },
    MembersPassportUpdate { field: Seq<char>, value: JsonModel, sign: Seq<char> },
    MembersPassportDelete { field: Seq<char> },
    MembersMessagesNew { channel_id: u64, message: Seq<char> },
}

impl View for Action {
    type V = ActionView;

    open spec fn view(&self) -> ActionView {
        match self {
            Action::ServerPassportUpdate { field, value, signer, sign } => {
                ActionView::ServerPassportUpdate {
                    field: field@,
                    value: json_of(*value),
                    signer: signer@,
                    sign: sign@,
                }
            },
            Action::ServerPassportDelete { field } => ActionView::ServerPassportDelete {
                field: field@,
            },
            Action::MembersPassportUpdate { field, value, sign } => {
                ActionView::MembersPassportUpdate {
                    field: field@,
                    value: json_of(*value),
                    sign: sign@,
                }
            },
            Action::MembersPassportDelete { field } => ActionView::MembersPassportDelete {
                field: field@,
            },
            Action::MembersMessagesNew { channel_id, message } => ActionView::MembersMessagesNew {
                channel_id: *channel_id,
                message: message@,
            },
        }
    }
}

impl ActionView {
    /// The tag under `type`.
    pub open spec fn tag(self) -> Seq<char> {
        match self {
            ActionView::ServerPassportUpdate { .. } => "v1.server.passport.update"@,
            ActionView::ServerPassportDelete { .. } => "v1.server.passport.delete"@,
            ActionView::MembersPassportUpdate { .. } => "v1.members.passport.update"@,
            ActionView::MembersPassportDelete { .. } => "v1.members.passport.delete"@,
            ActionView::MembersMessagesNew { .. } => "v1.members.messages.new"@,
        }
    }

    /// The members of `body`.
    pub open spec fn body(self) -> Map<Seq<char>, JsonModel> {
        match self {
            ActionView::ServerPassportUpdate { field, value, signer, sign } => nothing().insert(
                "field"@,
                JsonModel::Text(field),
            ).insert("value"@, value).insert(
                "signer"@,
                JsonModel::Text(base64_text(signer)),
            ).insert("sign"@, JsonModel::Text(sign)),
            ActionView::ServerPassportDelete { field } => nothing().insert(
                "field"@,
                JsonModel::Text(field),
            ),
            ActionView::MembersPassportUpdate { field, value, sign } => nothing().insert(
                "field"@,
                JsonModel::Text(field),
            ).insert("value"@, value).insert("sign"@, JsonModel::Text(sign)),
            ActionView::MembersPassportDelete { field } => nothing().insert(
                "field"@,
                JsonModel::Text(field),
            ),
            ActionView::MembersMessagesNew { channel_id, message } => nothing().insert(
                "channel_id"@,
                JsonModel::Integer(channel_id as int),
            ).insert("message"@, JsonModel::Text(message)),
        }
    }

    /// The action's form on the wire.
    pub open spec fn wire_form(self) -> JsonModel {
        JsonModel::Record(
            nothing().insert("type"@, JsonModel::Text(self.tag())).insert(
                "body"@,
                JsonModel::Record(self.body()),
            ),
        )
    }

    /// Whether every key in the action can be written down and read back:
    /// its text stands for it.
    pub open spec fn legible(self) -> bool {
        match self {
            ActionView::ServerPassportUpdate { signer, .. } => key_bytes(base64_text(signer))
                == Ok::<Seq<u8>, CryptographyError>(signer),
            _ => true,
        }
    }
}

impl Clone for Action {
    fn clone(&self) -> (copy: Action)
        ensures
            copy@ == self@,
    {
        match self {
            Action::ServerPassportUpdate { field, value, signer, sign } => {
                Action::ServerPassportUpdate {
                    field: field.clone(),
                    value: value.clone(),
                    signer: signer.clone(),
                    sign: sign.clone(),
                }
            },
            Action::ServerPassportDelete { field } => Action::ServerPassportDelete {
                field: field.clone(),
            },
            Action::MembersPassportUpdate { field, value, sign } => {
                Action::MembersPassportUpdate {
                    field: field.clone(),
                    value: value.clone(),
                    sign: sign.clone(),
                }
            },
            Action::MembersPassportDelete { field } => Action::MembersPassportDelete {
                field: field.clone(),
            },
            Action::MembersMessagesNew { channel_id, message } => Action::MembersMessagesNew {
                channel_id: *channel_id,
                message: message.clone(),
            },
        }
    }
}

/// The characters of the string member under `key`.
pub open spec fn text_at(object: JsonModel, key: Seq<char>) -> Option<Seq<char>> {
    match object.member(key) {
        Some(inner) => inner.text(),
        None => None,
    }
}

/// What a `body` holds for a server passport update.
pub open spec fn parse_server_update(body: JsonModel) -> Result<ActionView, AsJsonError> {
    match text_at(body, "field"@) {
        None => Err(AsJsonError::FieldNotFound("body.field")),
        Some(field) => match body.member("value"@) {
            None => Err(AsJsonError::FieldNotFound("body.value")),
            Some(value) => match text_at(body, "signer"@) {
                None => Err(AsJsonError::FieldNotFound("body.signer")),
                Some(written) => match key_bytes(written) {
                    Err(error) => Err(AsJsonError::Cryptography(error)),
                    Ok(signer) => match text_at(body, "sign"@) {
                        None => Err(AsJsonError::FieldNotFound("body.sign")),
                        Some(sign) => Ok(
                            ActionView::ServerPassportUpdate { field, value, signer, sign },
                        ),
                    },
                },
            },
        },
    }
}

/// What a `body` holds for a member passport update.
pub open spec fn parse_member_update(body: JsonModel) -> Result<ActionView, AsJsonError> {
    match text_at(body, "field"@) {
        None => Err(AsJsonError::FieldNotFound("body.field")),
        Some(field) => match body.member("value"@) {
            None => Err(AsJsonError::FieldNotFound("body.value")),
            Some(value) => match text_at(body, "sign"@) {
                None => Err(AsJsonError::FieldNotFound("body.sign")),
                Some(sign) => Ok(ActionView::MembersPassportUpdate { field, value, sign }),
            },
        },
    }
}

/// What a `body` holds for a new message.
pub open spec fn parse_message(body: JsonModel) -> Result<ActionView, AsJsonError> {
    match body.member("channel_id"@) {
        Some(JsonModel::Integer(number)) if 0 <= number <= u64::MAX => match text_at(
            body,
            "message"@,
        ) {
            None => Err(AsJsonError::FieldNotFound("body.message")),
            Some(message) => Ok(
                ActionView::MembersMessagesNew { channel_id: number as u64, message },
            ),
        },
        _ => Err(AsJsonError::FieldNotFound("body.channel_id")),
    }
}

/// What a JSON value holds, read as an action: the action, or the first
/// thing found wrong with the value. `type` is looked at first, then `body`,
/// then the members of `body` in the order in which the action lists them;
/// an unknown tag is reported once `body` has been found.
pub open spec fn parse(wire: JsonModel) -> Result<ActionView, AsJsonError> {
    match text_at(wire, "type"@) {
        None => Err(AsJsonError::FieldNotFound("type")),
        Some(tag) => match wire.member("body"@) {
            None => Err(AsJsonError::FieldNotFound("body")),
            Some(body) => if tag == "v1.server.passport.update"@ {
                parse_server_update(body)
            } else if tag == "v1.server.passport.delete"@ {
                match text_at(body, "field"@) {
                    None => Err(AsJsonError::FieldNotFound("body.field")),
                    Some(field) => Ok(ActionView::ServerPassportDelete { field }),
                }
            } else if tag == "v1.members.passport.update"@ {
                parse_member_update(body)
            } else if tag == "v1.members.passport.delete"@ {
                match text_at(body, "field"@) {
                    None => Err(AsJsonError::FieldNotFound("body.field")),
                    Some(field) => Ok(ActionView::MembersPassportDelete { field }),
                }
            } else if tag == "v1.members.messages.new"@ {
                parse_message(body)
            } else {
                Err(AsJsonError::FieldValueInvalid("type"))
            },
        },
    }
}

/// The names of the members differ from one another, and so do the tags.
pub proof fn lemma_names_differ()
    ensures
        "type"@ != "body"@,
        "field"@ != "value"@,
        "field"@ != "signer"@,
        "field"@ != "sign"@,
        "value"@ != "signer"@,
        "value"@ != "sign"@,
        "signer"@ != "sign"@,
        "channel_id"@ != "message"@,
        "v1.server.passport.update"@ != "v1.server.passport.delete"@,
        "v1.server.passport.update"@ != "v1.members.passport.update"@,
        "v1.server.passport.update"@ != "v1.members.passport.delete"@,
        "v1.server.passport.update"@ != "v1.members.messages.new"@,
        "v1.server.passport.delete"@ != "v1.members.passport.update"@,
        "v1.server.passport.delete"@ != "v1.members.passport.delete"@,
        "v1.server.passport.delete"@ != "v1.members.messages.new"@,
        "v1.members.passport.update"@ != "v1.members.passport.delete"@,
        "v1.members.passport.update"@ != "v1.members.messages.new"@,
        "v1.members.passport.delete"@ != "v1.members.messages.new"@,
{
    reveal_strlit("type");
    reveal_strlit("body");
    reveal_strlit("field");
    reveal_strlit("value");
    reveal_strlit("signer");
    reveal_strlit("sign");
    reveal_strlit("channel_id");
    reveal_strlit("message");
    reveal_strlit("v1.server.passport.update");
    reveal_strlit("v1.server.passport.delete");
    reveal_strlit("v1.members.passport.update");
    reveal_strlit("v1.members.passport.delete");
    reveal_strlit("v1.members.messages.new");
    assert("type"@[0] != "body"@[0]);
    assert("field"@[0] != "value"@[0]);
    assert("field"@[0] != "signer"@[0]);
    assert("field"@[0] != "sign"@[0]);
    assert("value"@[0] != "signer"@[0]);
    assert("value"@[0] != "sign"@[0]);
    assert("signer"@.len() != "sign"@.len());
    assert("channel_id"@[0] != "message"@[0]);
    assert("v1.server.passport.update"@[19] != "v1.server.passport.delete"@[19]);
    assert("v1.members.passport.update"@[20] != "v1.members.passport.delete"@[20]);
    assert("v1.server.passport.update"@.len() != "v1.members.passport.update"@.len());
    assert("v1.server.passport.update"@.len() != "v1.members.messages.new"@.len());
    assert("v1.members.passport.update"@.len() != "v1.members.messages.new"@.len());
}

/// Reading the wire form of an action gives the action back, whatever its
/// kind, provided that its keys are legible.
pub proof fn lemma_parse_wire_form(action: ActionView)
    requires
        action.legible(),
    ensures
        parse(action.wire_form()) == Ok::<ActionView, AsJsonError>(action),
{
    lemma_names_differ();
    let wire = action.wire_form();
    assert(text_at(wire, "type"@) == Some(action.tag()));
    assert(wire.member("body"@) == Some(JsonModel::Record(action.body())));
    let body = JsonModel::Record(action.body());
    match action {
        ActionView::ServerPassportUpdate { field, value, signer, sign } => {
            assert(text_at(body, "field"@) == Some(field));
            assert(body.member("value"@) == Some(value));
            assert(text_at(body, "signer"@) == Some(base64_text(signer)));
            assert(text_at(body, "sign"@) == Some(sign));
        },
        ActionView::ServerPassportDelete { field } => {
            assert(text_at(body, "field"@) == Some(field));
        },
        ActionView::MembersPassportUpdate { field, value, sign } => {
            assert(text_at(body, "field"@) == Some(field));
            assert(body.member("value"@) == Some(value));
            assert(text_at(body, "sign"@) == Some(sign));
        },
        ActionView::MembersPassportDelete { field } => {
            assert(text_at(body, "field"@) == Some(field));
        },
        ActionView::MembersMessagesNew { channel_id, message } => {
            assert(body.member("channel_id"@) == Some(JsonModel::Integer(channel_id as int)));
            assert(text_at(body, "message"@) == Some(message));
        },
    }
}

/// A value without a string under `type` is reported as lacking `type`,
/// whatever else it holds.
pub proof fn lemma_missing_type(wire: JsonModel)
    requires
        text_at(wire, "type"@) is None,
    ensures
        parse(wire) == Err::<ActionView, AsJsonError>(AsJsonError::FieldNotFound("type")),
{
}

/// A value with a `type` and without a `body` is reported as lacking `body`,
/// whether or not the type is known.
pub proof fn lemma_missing_body(wire: JsonModel)
    requires
        text_at(wire, "type"@) is Some,
        wire.member("body"@) is None,
    ensures
        parse(wire) == Err::<ActionView, AsJsonError>(AsJsonError::FieldNotFound("body")),
{
}

/// A value with a `body` whose `type` is none of the five tags is reported
/// as having an invalid `type`.
pub proof fn lemma_unknown_type(wire: JsonModel)
    requires
        text_at(wire, "type"@) matches Some(tag) && tag != "v1.server.passport.update"@ && tag
            != "v1.server.passport.delete"@ && tag != "v1.members.passport.update"@ && tag
            != "v1.members.passport.delete"@ && tag != "v1.members.messages.new"@,
        wire.member("body"@) is Some,
    ensures
        parse(wire) == Err::<ActionView, AsJsonError>(AsJsonError::FieldValueInvalid("type")),
{
}

/// The string member of `object` under `key`, or the error that reports the
/// member at `path` as missing.
pub(crate) fn text_member(object: &Value, key: &str, path: &'static str) -> (found: Result<
    String,
    AsJsonError,
>)
    ensures
        match text_at(json_of(*object), key@) {
            Some(chars) => found matches Ok(text) && text@ == chars,
            None => found == Err::<String, AsJsonError>(AsJsonError::FieldNotFound(path)),
        },
{
    match json::member(object, key) {
        Some(inner) => match json::text(inner) {
            Some(chars) => Ok(chars.to_owned()),
            None => Err(AsJsonError::FieldNotFound(path)),
        },
        None => Err(AsJsonError::FieldNotFound(path)),
    }
}

/// The result of reading an action: the action that `parse` names, or the
/// error that it names.
pub open spec fn reads_as(read: Result<Action, AsJsonError>, wire: JsonModel) -> bool {
    match parse(wire) {
        Ok(meant) => read matches Ok(action) && action@ == meant,
        Err(error) => read == Err::<Action, AsJsonError>(error),
    }
}

impl Action {
    /// The action's form on the wire. Reading it gives the action back.
    pub fn to_json(&self) -> (written: Result<Value, AsJsonError>)
        ensures
            written matches Ok(wire) && json_of(wire) == self@.wire_form(),
            parse(self@.wire_form()) == Ok::<ActionView, AsJsonError>(self@),
    {
        Ok(self.wire())
    }

    /// Builds the wire form, member by member.
    pub(crate) fn wire(&self) -> (wire: Value)
        ensures
            json_of(wire) == self@.wire_form(),
            self@.legible(),
            parse(self@.wire_form()) == Ok::<ActionView, AsJsonError>(self@),
    {
        let mut body = json::no_members();
        let tag: &str;
        match self {
            Action::ServerPassportUpdate { field, value, signer, sign } => {
                tag = "v1.server.passport.update";
                let written = signer.to_base64();
                json::put_member(&mut body, "field", json::text_value(field.as_str()));
                json::put_member(&mut body, "value", value.clone());
                json::put_member(&mut body, "signer", json::text_value(written.as_str()));
                json::put_member(&mut body, "sign", json::text_value(sign.as_str()));
            },
            Action::ServerPassportDelete { field } => {
                tag = "v1.server.passport.delete";
                json::put_member(&mut body, "field", json::text_value(field.as_str()));
            },
            Action::MembersPassportUpdate { field, value, sign } => {
                tag = "v1.members.passport.update";
                json::put_member(&mut body, "field", json::text_value(field.as_str()));
                json::put_member(&mut body, "value", value.clone());
                json::put_member(&mut body, "sign", json::text_value(sign.as_str()));
            },
            Action::MembersPassportDelete { field } => {
                tag = "v1.members.passport.delete";
                json::put_member(&mut body, "field", json::text_value(field.as_str()));
            },
            Action::MembersMessagesNew { channel_id, message } => {
                tag = "v1.members.messages.new";
                json::put_member(&mut body, "channel_id", json::unsigned_value(*channel_id));
                json::put_member(&mut body, "message", json::text_value(message.as_str()));
            },
        }
        let mut wire = json::no_members();
        json::put_member(&mut wire, "type", json::text_value(tag));
        json::put_member(&mut wire, "body", json::object_value(body));
        proof {
            lemma_parse_wire_form(self@);
        }
        json::object_value(wire)
    }

    /// Reads an action from its form on the wire.
    pub fn from_json(wire: &Value) -> (read: Result<Action, AsJsonError>)
        ensures
            reads_as(read, json_of(*wire)),
    {
        let tag = match text_member(wire, "type", "type") {
            Ok(tag) => tag,
            Err(error) => {
                return Err(error);
            },
        };
        let body = match json::member(wire, "body") {
            Some(body) => body,
            None => {
                return Err(AsJsonError::FieldNotFound("body"));
            },
        };
        if same_text(tag.as_str(), "v1.server.passport.update") {
            let field = match text_member(body, "field", "body.field") {
                Ok(field) => field,
                Err(error) => {
                    return Err(error);
                },
            };
            let value = match json::member(body, "value") {
                Some(value) => value.clone(),
                None => {
                    return Err(AsJsonError::FieldNotFound("body.value"));
                },
            };
            let written = match text_member(body, "signer", "body.signer") {
                Ok(written) => written,
                Err(error) => {
                    return Err(error);
                },
            };
            let signer = match PublicKey::from_base64(written.as_str()) {
                Ok(signer) => signer,
                Err(error) => {
                    return Err(AsJsonError::Cryptography(error));
                },
            };
            let sign = match text_member(body, "sign", "body.sign") {
                Ok(sign) => sign,
                Err(error) => {
                    return Err(error);
                },
            };
            Ok(Action::ServerPassportUpdate { field, value, signer, sign })
        } else if same_text(tag.as_str(), "v1.server.passport.delete") {
            match text_member(body, "field", "body.field") {
                Ok(field) => Ok(Action::ServerPassportDelete { field }),
                Err(error) => Err(error),
            }
        } else if same_text(tag.as_str(), "v1.members.passport.update") {
            let field = match text_member(body, "field", "body.field") {
                Ok(field) => field,
                Err(error) => {
                    return Err(error);
                },
            };
            let value = match json::member(body, "value") {
                Some(value) => value.clone(),
                None => {
                    return Err(AsJsonError::FieldNotFound("body.value"));
                },
            };
            match text_member(body, "sign", "body.sign") {
                Ok(sign) => Ok(Action::MembersPassportUpdate { field, value, sign }),
                Err(error) => Err(error),
            }
        } else if same_text(tag.as_str(), "v1.members.passport.delete") {
            match text_member(body, "field", "body.field") {
                Ok(field) => Ok(Action::MembersPassportDelete { field }),
                Err(error) => Err(error),
            }
        } else if same_text(tag.as_str(), "v1.members.messages.new") {
            let channel_id = match json::member(body, "channel_id") {
                Some(number) => match json::unsigned(number) {
                    Some(channel_id) => channel_id,
                    None => {
                        return Err(AsJsonError::FieldNotFound("body.channel_id"));
                    },
                },
                None => {
                    return Err(AsJsonError::FieldNotFound("body.channel_id"));
                },
            };
            match text_member(body, "message", "body.message") {
                Ok(message) => Ok(Action::MembersMessagesNew { channel_id, message }),
                Err(error) => Err(error),
            }
        } else {
            Err(AsJsonError::FieldValueInvalid("type"))
        }
    }
}

} // verus!
