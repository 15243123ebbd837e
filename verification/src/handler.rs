//! What is done with a reply of the daemon before it is shown: the check of
//! its outcome and the rewriting of its numeric fields.

use vstd::prelude::*;
use crate::constant::{
    Command, Compression, Encryption, MANAGEMENT_ARGUMENT_STATUS, MANAGEMENT_CATEGORY_OUTCOME,
};
use crate::error::{EnumField, FieldKind, ProtocolFault, SessionError};
use crate::json::{
    find_member, get_member, json_parsed, json_rendered, lemma_array_view, lemma_object_view,
    members_model, parse_json, render_json, JsonMember, JsonModel, JsonNumber, JsonValue,
};
use crate::text::{
    ascii_chars, ascii_string, hex_upper_bytes, lemma_hex_upper_bytes_ascii, push_hex_upper,
    str_eq,
};
use crate::utils::{file_size_bytes, Utility};

verus! {

pub struct PgmonetaHandler;

/// What the tool that shows a backup is called with.
#[derive(Debug, PartialEq, Eq)]
pub struct InfoRequest {
    pub username: String,
    pub server: String,
    pub backup_id: String,
}

/// The members of a reply whose outcome reports success, or the reason why
/// the reply is refused.
pub open spec fn checked_reply(reply: JsonModel) -> Result<
    Seq<(Seq<char>, JsonModel)>,
    SessionError,
> {
    match reply {
        JsonModel::Object(members) => match find_member(members, MANAGEMENT_CATEGORY_OUTCOME@) {
            None => Err(SessionError::Protocol(ProtocolFault::MissingOutcome)),
            Some(JsonModel::Object(outcome)) => match find_member(outcome, MANAGEMENT_ARGUMENT_STATUS@) {
                None => Err(SessionError::Protocol(ProtocolFault::MissingStatus)),
                Some(JsonModel::Bool(status)) => if status {
                    Ok(members)
                } else {
                    Err(SessionError::Application)
                },
                Some(_) => Err(SessionError::Protocol(ProtocolFault::StatusNotBool)),
            },
            Some(_) => Err(SessionError::Protocol(ProtocolFault::OutcomeNotObject)),
        },
        _ => Err(SessionError::Protocol(ProtocolFault::NotAnObject)),
    }
}

/// `checked_reply` of what a text parses to.
pub open spec fn checked_text(parsed: Option<JsonModel>) -> Result<
    Seq<(Seq<char>, JsonModel)>,
    SessionError,
> {
    match parsed {
        None => Err(SessionError::Protocol(ProtocolFault::MalformedJson)),
        Some(reply) => checked_reply(reply),
    }
}

/// The kind of a field, by its name.
pub open spec fn field_kind(key: Seq<char>) -> FieldKind {
    if key == "BackupSize"@ || key == "RestoreSize"@ || key == "BiggestFileSize"@ || key
        == "Delta"@ || key == "TotalSpace"@ || key == "FreeSpace"@ || key == "UsedSpace"@ || key
        == "WorkspaceFreeSpace"@ || key == "HotStandbySize"@ {
        FieldKind::FileSize
    } else if key == "CheckpointHiLSN"@ || key == "CheckpointLoLSN"@ || key == "StartHiLSN"@
        || key == "StartLoLSN"@ || key == "EndHiLSN"@ || key == "EndLoLSN"@ {
        FieldKind::HexString
    } else if key == "Compression"@ {
        FieldKind::Compression
    } else if key == "Encryption"@ {
        FieldKind::Encryption
    } else if key == "Command"@ {
        FieldKind::Command
    } else if key == "Backups"@ {
        FieldKind::ObjectArray
    } else {
        FieldKind::Plain
    }
}

/// What is shown for the number `n` in a field of a numeric kind: a size
/// with its unit, `0x` and capital hexadecimal digits, or the name of a code.
pub open spec fn translated_number(kind: FieldKind, n: u64) -> Result<JsonModel, SessionError> {
    match kind {
        FieldKind::FileSize => Ok(JsonModel::Text(ascii_chars(file_size_bytes(n)))),
        FieldKind::HexString => Ok(
            JsonModel::Text(ascii_chars(seq![48u8, 120u8] + hex_upper_bytes(n as nat))),
        ),
        FieldKind::Compression => if n <= u8::MAX {
            match Compression::name_of(n as u8) {
                Some(name) => Ok(JsonModel::Text(name)),
                None => Err(SessionError::UnrecognizedEnum(EnumField::Compression, n)),
            }
        } else {
            Err(SessionError::UnrecognizedEnum(EnumField::Compression, n))
        },
        FieldKind::Encryption => if n <= u8::MAX {
            match Encryption::name_of(n as u8) {
                Some(name) => Ok(JsonModel::Text(name)),
                None => Err(SessionError::UnrecognizedEnum(EnumField::Encryption, n)),
            }
        } else {
            Err(SessionError::UnrecognizedEnum(EnumField::Encryption, n))
        },
        FieldKind::Command => if n <= u32::MAX {
            match Command::name_of(n as u32) {
                Some(name) => Ok(JsonModel::Text(name)),
                None => Err(SessionError::UnrecognizedEnum(EnumField::Command, n)),
            }
        } else {
            Err(SessionError::UnrecognizedEnum(EnumField::Command, n))
        },
        _ => Ok(JsonModel::Unsigned(n)),
    }
}

/// The first `n` members of an object, rewritten for display, in their
/// order; the first member that cannot be rewritten gives the error.
pub open spec fn translated_members(members: Seq<(Seq<char>, JsonModel)>, n: nat) -> Result<
    Seq<(Seq<char>, JsonModel)>,
    SessionError,
>
    decreases members, n,
{
    if n == 0 || n > members.len() {
        Ok(Seq::empty())
    } else {
        match translated_members(members, (n - 1) as nat) {
            Err(e) => Err(e),
            Ok(init) => match translated_value(members[n - 1].0, members[n - 1].1) {
                Err(e) => Err(e),
                Ok(None) => Ok(init),
                Ok(Some(shown)) => Ok(init.push((members[n - 1].0, shown))),
            },
        }
    }
}

/// What is shown for one member, by the kind of its key: a number of a
/// numeric kind is rewritten, a list of objects is checked and left out, an
/// object under any other key is rewritten member by member, and everything
/// else is shown as it is.
pub open spec fn translated_value(key: Seq<char>, value: JsonModel) -> Result<
    Option<JsonModel>,
    SessionError,
>
    decreases value, 0nat,
{
    match field_kind(key) {
        FieldKind::ObjectArray => match value {
            JsonModel::Array(items) => match checked_items(items, items.len()) {
                Err(e) => Err(e),
                Ok(_) => Ok(None),
            },
            _ => Err(SessionError::Protocol(ProtocolFault::NotArray)),
        },
        FieldKind::Plain => match value {
            JsonModel::Object(inner) => match translated_members(inner, inner.len()) {
                Err(e) => Err(e),
                Ok(shown) => Ok(Some(JsonModel::Object(shown))),
            },
            _ => Ok(Some(value)),
        },
        kind => match value {
            JsonModel::Unsigned(n) => match translated_number(kind, n) {
                Err(e) => Err(e),
                Ok(shown) => Ok(Some(shown)),
            },
            _ => Err(SessionError::Protocol(ProtocolFault::NotUnsigned(kind))),
        },
    }
}

/// Whether each object among the first `n` items can be rewritten; the
/// first that cannot gives the error.
pub open spec fn checked_items(items: Seq<JsonModel>, n: nat) -> Result<(), SessionError>
    decreases items, n,
{
    if n == 0 || n > items.len() {
        Ok(())
    } else {
        match checked_items(items, (n - 1) as nat) {
            Err(e) => Err(e),
            Ok(_) => match items[n - 1] {
                JsonModel::Object(inner) => match translated_members(inner, inner.len()) {
                    Err(e) => Err(e),
                    Ok(_) => Ok(()),
                },
                _ => Ok(()),
            },
        }
    }
}

/// What is shown for a reply text: the members of the checked reply,
/// rewritten, as compact JSON.
pub open spec fn shown_reply(parsed: Option<JsonModel>) -> Result<JsonModel, SessionError> {
    match checked_text(parsed) {
        Err(e) => Err(e),
        Ok(members) => match translated_members(members, members.len()) {
            Err(e) => Err(e),
            Ok(shown) => Ok(JsonModel::Object(shown)),
        },
    }
}

/// An error met among the first members is the error of the whole object.
pub proof fn lemma_translated_members_error(
    members: Seq<(Seq<char>, JsonModel)>,
    k: nat,
    n: nat,
)
    requires
        k <= n <= members.len(),
        translated_members(members, k) is Err,
    ensures
        translated_members(members, n) == translated_members(members, k),
    decreases n,
{
    if k < n {
        lemma_translated_members_error(members, k, (n - 1) as nat);
    }
}

/// An error met among the first items is the error of the whole list.
pub proof fn lemma_checked_items_error(items: Seq<JsonModel>, k: nat, n: nat)
    requires
        k <= n <= items.len(),
        checked_items(items, k) is Err,
    ensures
        checked_items(items, n) == checked_items(items, k),
    decreases n,
{
    if k < n {
        lemma_checked_items_error(items, k, (n - 1) as nat);
    }
}

/// Whether a result of the library stands for a result over models.
pub open spec fn members_result_matches(
    got: Result<Vec<JsonMember>, SessionError>,
    want: Result<Seq<(Seq<char>, JsonModel)>, SessionError>,
) -> bool {
    match want {
        Ok(members) => got matches Ok(v) && members_model(v@) == members,
        Err(e) => got matches Err(x) && x == e,
    }
}

/// The kind of a field, by its name.
pub fn classify_field(key: &str) -> (kind: FieldKind)
    ensures
        kind == field_kind(key@),
{
    if str_eq(key, "BackupSize") || str_eq(key, "RestoreSize") || str_eq(key, "BiggestFileSize")
        || str_eq(key, "Delta") || str_eq(key, "TotalSpace") || str_eq(key, "FreeSpace")
        || str_eq(key, "UsedSpace") || str_eq(key, "WorkspaceFreeSpace") || str_eq(
        key,
        "HotStandbySize",
    ) {
        FieldKind::FileSize
    } else if str_eq(key, "CheckpointHiLSN") || str_eq(key, "CheckpointLoLSN") || str_eq(
        key,
        "StartHiLSN",
    ) || str_eq(key, "StartLoLSN") || str_eq(key, "EndHiLSN") || str_eq(key, "EndLoLSN") {
        FieldKind::HexString
    } else if str_eq(key, "Compression") {
        FieldKind::Compression
    } else if str_eq(key, "Encryption") {
        FieldKind::Encryption
    } else if str_eq(key, "Command") {
        FieldKind::Command
    } else if str_eq(key, "Backups") {
        FieldKind::ObjectArray
    } else {
        FieldKind::Plain
    }
}

/// Rewrites the number of a field of a numeric kind.
pub fn translate_number(kind: FieldKind, n: u64) -> (r: Result<JsonValue, SessionError>)
    ensures
        match translated_number(kind, n) {
            Ok(shown) => r matches Ok(v) && v@ == shown,
            Err(e) => r matches Err(x) && x == e,
        },
{
    match kind {
        FieldKind::FileSize => Ok(JsonValue::Text(Utility::format_file_size(n))),
        FieldKind::HexString => {
            let mut buf: Vec<u8> = Vec::new();
            buf.push(48);
            buf.push(120);
            push_hex_upper(&mut buf, n);
            proof {
                lemma_hex_upper_bytes_ascii(n as nat);
                assert(buf@ =~= seq![48u8, 120u8] + hex_upper_bytes(n as nat));
            }
            Ok(JsonValue::Text(ascii_string(buf)))
        },
        FieldKind::Compression => {
            if n > 255 {
                return Err(SessionError::UnrecognizedEnum(EnumField::Compression, n));
            }
            match Compression::translate_compression_enum(n as u8) {
                Ok(name) => Ok(JsonValue::Text(name.to_owned())),
                Err(e) => Err(e),
            }
        },
        FieldKind::Encryption => {
            if n > 255 {
                return Err(SessionError::UnrecognizedEnum(EnumField::Encryption, n));
            }
            match Encryption::translate_encryption_enum(n as u8) {
                Ok(name) => Ok(JsonValue::Text(name.to_owned())),
                Err(e) => Err(e),
            }
        },
        FieldKind::Command => {
            if n > 0xffff_ffff {
                return Err(SessionError::UnrecognizedEnum(EnumField::Command, n));
            }
            match Command::translate_command_enum(n as u32) {
                Ok(name) => Ok(JsonValue::Text(name.to_owned())),
                Err(e) => Err(e),
            }
        },
        _ => Ok(JsonValue::Number(JsonNumber::Unsigned(n))),
    }
}

impl PgmonetaHandler {
    pub fn new() -> Self {
        PgmonetaHandler
    }

    /// Checks that a reply is an object whose `Outcome` holds a true
    /// `Status`, and hands its members back.
    pub fn check_outcome(reply: JsonValue) -> (r: Result<Vec<JsonMember>, SessionError>)
        ensures
            members_result_matches(r, checked_reply(reply@)),
    {
        match reply {
            JsonValue::Object(members) => {
                proof {
                    lemma_object_view(members);
                }
                let verdict: Result<(), SessionError> = match get_member(&members, MANAGEMENT_CATEGORY_OUTCOME) {
                    None => Err(SessionError::Protocol(ProtocolFault::MissingOutcome)),
                    Some(JsonValue::Object(outcome)) => {
                        proof {
                            lemma_object_view(*outcome);
                        }
                        match get_member(outcome, MANAGEMENT_ARGUMENT_STATUS) {
                            None => Err(SessionError::Protocol(ProtocolFault::MissingStatus)),
                            Some(JsonValue::Bool(status)) => if *status {
                                Ok(())
                            } else {
                                Err(SessionError::Application)
                            },
                            Some(_) => Err(SessionError::Protocol(ProtocolFault::StatusNotBool)),
                        }
                    },
                    Some(_) => Err(SessionError::Protocol(ProtocolFault::OutcomeNotObject)),
                };
                match verdict {
                    Ok(_) => Ok(members),
                    Err(e) => Err(e),
                }
            },
            _ => Err(SessionError::Protocol(ProtocolFault::NotAnObject)),
        }
    }

    /// Parses a reply and checks its outcome.
    pub fn parse_and_check_result(result: &str) -> (r: Result<Vec<JsonMember>, SessionError>)
        ensures
            members_result_matches(r, checked_text(json_parsed(result@))),
    {
        match parse_json(result) {
            None => Err(SessionError::Protocol(ProtocolFault::MalformedJson)),
            Some(reply) => Self::check_outcome(reply),
        }
    }

    /// Rewrites the members of a reply for display.
    #[verifier::loop_isolation(false)]
    pub fn translate_result(members: &Vec<JsonMember>) -> (r: Result<
        Vec<JsonMember>,
        SessionError,
    >)
        ensures
            members_result_matches(
                r,
                translated_members(members_model(members@), members@.len()),
            ),
        decreases members, 1nat,
    {
        let ghost all = members_model(members@);
        let mut out: Vec<JsonMember> = Vec::new();
        let mut i: usize = 0;
        assert(members_model(out@) =~= Seq::empty());
        while i < members.len()
            invariant
                i <= members.len(),
                translated_members(all, i as nat) == Ok::<
                    Seq<(Seq<char>, JsonModel)>,
                    SessionError,
                >(members_model(out@)),
            decreases members.len() - i,
        {
            let member = &members[i];
            let ghost before = members_model(out@);
            match Self::translate_value(member.key.as_str(), &member.value) {
                Err(e) => {
                    proof {
                        assert(translated_members(all, (i + 1) as nat) == Err::<
                            Seq<(Seq<char>, JsonModel)>,
                            SessionError,
                        >(e));
                        lemma_translated_members_error(all, (i + 1) as nat, members@.len());
                    }
                    return Err(e);
                },
                Ok(None) => {},
                Ok(Some(shown)) => {
                    out.push(JsonMember { key: member.key.clone(), value: shown });
                    proof {
                        assert(members_model(out@) =~= before.push((member.key@, shown@)));
                    }
                },
            }
            i += 1;
        }
        Ok(out)
    }

    /// Rewrites one member; `None` says that the member is left out.
    #[verifier::loop_isolation(false)]
    pub fn translate_value(key: &str, value: &JsonValue) -> (r: Result<
        Option<JsonValue>,
        SessionError,
    >)
        ensures
            match translated_value(key@, value@) {
                Ok(Some(shown)) => r matches Ok(Some(v)) && v@ == shown,
                Ok(None) => r matches Ok(None),
                Err(e) => r matches Err(x) && x == e,
            },
        decreases value, 0nat,
    {
        let kind = classify_field(key);
        match kind {
            FieldKind::ObjectArray => match value {
                JsonValue::Array(items) => {
                    proof {
                        lemma_array_view(*items);
                    }
                    let ghost all = value@->Array_0;
                    let mut i: usize = 0;
                    while i < items.len()
                        invariant
                            i <= items.len(),
                            checked_items(all, i as nat) is Ok,
                        decreases items.len() - i,
                    {
                        match &items[i] {
                            JsonValue::Object(inner) => {
                                proof {
                                    lemma_object_view(*inner);
                                }
                                match Self::translate_result(inner) {
                                    Err(e) => {
                                        proof {
                                            assert(checked_items(all, (i + 1) as nat) == Err::<
                                                (),
                                                SessionError,
                                            >(e));
                                            lemma_checked_items_error(
                                                all,
                                                (i + 1) as nat,
                                                items@.len(),
                                            );
                                        }
                                        return Err(e);
                                    },
                                    Ok(_) => {},
                                }
                            },
                            _ => {},
                        }
                        i += 1;
                    }
                    Ok(None)
                },
                _ => Err(SessionError::Protocol(ProtocolFault::NotArray)),
            },
            FieldKind::Plain => match value {
                JsonValue::Object(inner) => {
                    proof {
                        lemma_object_view(*inner);
                    }
                    match Self::translate_result(inner) {
                        Err(e) => Err(e),
                        Ok(shown) => {
                            proof {
                                lemma_object_view(shown);
                            }
                            Ok(Some(JsonValue::Object(shown)))
                        },
                    }
                },
                _ => Ok(Some(value.duplicate())),
            },
            _ => match value {
                JsonValue::Number(JsonNumber::Unsigned(n)) => match translate_number(kind, *n) {
                    Err(e) => Err(e),
                    Ok(shown) => Ok(Some(shown)),
                },
                _ => Err(SessionError::Protocol(ProtocolFault::NotUnsigned(kind))),
            },
        }
    }

    /// Writes the members of a reply as compact JSON.
    pub fn render_result(members: Vec<JsonMember>) -> (r: Result<String, SessionError>)
        ensures
            match json_rendered(JsonModel::Object(members_model(members@))) {
                Some(text) => r matches Ok(t) && t@ == text,
                None => r matches Err(x) && x == SessionError::Protocol(ProtocolFault::BadNumber),
            },
    {
        proof {
            lemma_object_view(members);
        }
        match render_json(&JsonValue::Object(members)) {
            Some(text) => Ok(text),
            None => Err(SessionError::Protocol(ProtocolFault::BadNumber)),
        }
    }

    /// Turns the text of a reply into the text that is shown: the reply is
    /// parsed and checked, its members are rewritten, and the result is
    /// written as compact JSON.
    pub fn render_backup_info(result: &str) -> (r: Result<String, SessionError>)
        ensures
            match shown_reply(json_parsed(result@)) {
                Err(e) => r matches Err(x) && x == e,
                Ok(shown) => match json_rendered(shown) {
                    Some(text) => r matches Ok(t) && t@ == text,
                    None => r matches Err(x) && x == SessionError::Protocol(
                        ProtocolFault::BadNumber,
                    ),
                },
            },
    {
        let members = match Self::parse_and_check_result(result) {
            Err(e) => { return Err(e); },
            Ok(members) => members,
        };
        let shown = match Self::translate_result(&members) {
            Err(e) => { return Err(e); },
            Ok(shown) => shown,
        };
        Self::render_result(shown)
    }
}

} // verus!
