//! The change bus: events that name a subject whose state changed, and the
//! notifications that carry them between the two halves of the pipeline.

use crate::address::{base58_bytes, base58_text, Address, AddressError};
use crate::config::{is_address_text, reason_of};
use vstd::prelude::*;

verus! {

/// What changed.
#[derive(Clone, Copy, Debug, PartialEq, Eq, Structural)]
pub enum ChangeKind {
    /// The row of a listing account.
    ListingChanged,
    /// The assets of a tracked user.
    UserAssetsChanged,
}

/// A notice that the state of `subject` changed. It carries no state: who
/// receives it fetches the state anew.
#[derive(Clone, Copy, Debug)]
pub struct ChangeEvent {
    pub subject: Address,
    pub kind: ChangeKind,
}

/// The payload of a notification: the subject in base 58 and the action.
#[derive(Debug)]
pub struct NotifyPayload {
    pub account: String,
    pub action: String,
}

/// Why a payload is no change event.
#[derive(Clone, Copy, Debug, PartialEq, Eq)]
pub enum NotifyError {
    /// The action is neither of the two that are known.
    UnknownAction,
    /// The account is no address.
    InvalidAccount(AddressError),
}

/// The action that a notification names for a kind of change.
pub open spec fn action_text(kind: ChangeKind) -> Seq<char> {
    match kind {
        ChangeKind::ListingChanged => "account_update"@,
        ChangeKind::UserAssetsChanged => "user_update"@,
    }
}

/// The channel on which a kind of change is published.
pub open spec fn channel_text(kind: ChangeKind) -> Seq<char> {
    match kind {
        ChangeKind::ListingChanged => "account_updates"@,
        ChangeKind::UserAssetsChanged => "user_updates"@,
    }
}

/// The action of a kind of change.
pub fn action_name(kind: ChangeKind) -> (name: &'static str)
    ensures
        name@ == action_text(kind),
{
    match kind {
        ChangeKind::ListingChanged => "account_update",
        ChangeKind::UserAssetsChanged => "user_update",
    }
}

/// The channel of a kind of change.
pub fn channel_name(kind: ChangeKind) -> (name: &'static str)
    ensures
        name@ == channel_text(kind),
{
    match kind {
        ChangeKind::ListingChanged => "account_updates",
        ChangeKind::UserAssetsChanged => "user_updates",
    }
}

/// The two actions are different texts.
pub proof fn lemma_actions_differ()
    ensures
        action_text(ChangeKind::ListingChanged) != action_text(ChangeKind::UserAssetsChanged),
{
    reveal_strlit("account_update");
    reveal_strlit("user_update");
    assert("account_update"@.len() != "user_update"@.len());
}

/// The text of the JSON object with two members whose values are strings,
/// as `serde_json` writes it.
pub uninterp spec fn json_object_text(
    first_key: Seq<char>,
    first_value: Seq<char>,
    second_key: Seq<char>,
    second_value: Seq<char>,
) -> Seq<char>;

/// Builds a `serde_json::Value::Object` of two string members and writes it
/// with `to_string`. Trusted: the text is the one `serde_json` gives for
/// these keys and values, and depends on nothing else.
#[verifier::external_body]
fn json_object(first_key: &str, first_value: &str, second_key: &str, second_value: &str) -> (text:
    String)
    ensures
        text@ == json_object_text(first_key@, first_value@, second_key@, second_value@),
{
    let mut members = serde_json::Map::new();
    members.insert(first_key.to_string(), serde_json::Value::String(first_value.to_string()));
    members.insert(second_key.to_string(), serde_json::Value::String(second_value.to_string()));
    serde_json::Value::Object(members).to_string()
}

/// Whether two texts are the same.
fn same_text(a: &str, b: &str) -> (r: bool)
    ensures
        r == (a@ == b@),
{
    String::from_str(a) == String::from_str(b)
}

impl NotifyPayload {
    /// The payload as the text that is published: a JSON object with the
    /// members `account` and `action`.
    pub fn to_json(&self) -> (text: String)
        ensures
            text@ == json_object_text("account"@, self.account@, "action"@, self.action@),
    {
        json_object("account", self.account.as_str(), "action", self.action.as_str())
    }
}

impl ChangeEvent {
    /// The payload that announces this event.
    pub fn payload(&self) -> (payload: NotifyPayload)
        ensures
            payload.account@ == base58_text(self.subject@),
            payload.action@ == action_text(self.kind),
    {
        NotifyPayload {
            account: self.subject.to_text(),
            action: String::from_str(action_name(self.kind)),
        }
    }

    /// The event that a payload announces. The action is looked at first.
    pub fn from_payload(payload: &NotifyPayload) -> (r: Result<ChangeEvent, NotifyError>)
        ensures
            match r {
                Ok(event) => {
                    &&& payload.action@ == action_text(event.kind)
                    &&& base58_bytes(payload.account@) == Some(event.subject@)
                },
                Err(NotifyError::UnknownAction) => {
                    &&& payload.action@ != action_text(ChangeKind::ListingChanged)
                    &&& payload.action@ != action_text(ChangeKind::UserAssetsChanged)
                },
                Err(NotifyError::InvalidAccount(reason)) => {
                    &&& payload.action@ == action_text(ChangeKind::ListingChanged)
                        || payload.action@ == action_text(ChangeKind::UserAssetsChanged)
                    &&& !is_address_text(payload.account@)
                    &&& reason == reason_of(payload.account@)
                },
            },
    {
        let kind = if same_text(payload.action.as_str(), action_name(ChangeKind::ListingChanged)) {
            ChangeKind::ListingChanged
        } else if same_text(payload.action.as_str(), action_name(ChangeKind::UserAssetsChanged)) {
            ChangeKind::UserAssetsChanged
        } else {
            return Err(NotifyError::UnknownAction);
        };
        match Address::parse(payload.account.as_str()) {
            Ok(subject) => Ok(ChangeEvent { subject, kind }),
            Err(reason) => Err(NotifyError::InvalidAccount(reason)),
        }
    }
}

} // verus!
