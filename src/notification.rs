//! Notification records and the events that drive the engine.

use vstd::prelude::*;

verus! {

/// One observed notification.
#[derive(Debug, Clone, PartialEq, Eq)]
pub struct Notification {
    /// Serial of the creating call; correlates the reply.
    pub serial: u32,
    pub appname: String,
    pub summary: String,
    pub body: String,
    /// Resolved icon reference: a themed path, a cache path, or empty.
    pub icon: String,
    /// 0 (low), 1 (normal) or 2 (critical).
    pub urgency: u8,
    /// Identifier assigned by the reply; 0 until then.
    pub id: u32,
}

/// Mathematical model of a [`Notification`].
pub struct NotificationView {
    pub serial: u32,
    pub appname: Seq<char>,
    pub summary: Seq<char>,
    pub body: Seq<char>,
    pub icon: Seq<char>,
    pub urgency: u8,
    pub id: u32,
}

impl View for Notification {
    type V = NotificationView;

    open spec fn view(&self) -> NotificationView {
        NotificationView {
            serial: self.serial,
            appname: self.appname@,
            summary: self.summary@,
            body: self.body@,
            icon: self.icon@,
            urgency: self.urgency,
            id: self.id,
        }
    }
}

impl Notification {
    /// A field-by-field copy.
    pub fn duplicate(&self) -> (r: Notification)
        ensures
            r@ == self@,
    {
        Notification {
            serial: self.serial,
            appname: self.appname.clone(),
            summary: self.summary.clone(),
            body: self.body.clone(),
            icon: self.icon.clone(),
            urgency: self.urgency,
            id: self.id,
        }
    }
}

/// The views of a sequence of records.
pub open spec fn views(s: Seq<Notification>) -> Seq<NotificationView> {
    s.map_values(|n: Notification| n@)
}

/// An embedded raw pixel payload, as carried in a creation call's hints.
#[derive(Debug, Clone, PartialEq, Eq)]
pub struct RawImage {
    pub width: i32,
    pub height: i32,
    pub rowstride: i32,
    pub has_alpha: bool,
    pub bits_per_sample: i32,
    pub channels: i32,
    pub data: Vec<u8>,
}

/// How the icon of a creation call is given.
#[derive(Debug, Clone, PartialEq, Eq)]
pub enum IconInput {
    /// A reference already resolved by themed lookup (empty if none was found).
    Resolved(String),
    /// A raw payload, to be stored in the icon cache.
    Raw(RawImage),
}

/// The fields read from a creation call; `None` where absent or malformed.
#[derive(Debug, Clone, PartialEq, Eq)]
pub struct CreateEvent {
    pub serial: Option<u32>,
    pub appname: Option<String>,
    pub summary: Option<String>,
    pub body: Option<String>,
    pub icon: IconInput,
    pub urgency: Option<u8>,
}

/// A classified bus event, or a report back from the one who carries out the
/// engine's actions.
#[derive(Debug, Clone, PartialEq, Eq)]
pub enum Event {
    /// A creation call on the notifications interface.
    Create(CreateEvent),
    /// A reply to the call with serial `reply_serial`, carrying the assigned id.
    Return { reply_serial: u32, id: u32 },
    /// A close signal for the notification with this id.
    Closed { id: u32 },
    /// A request to drop one record from the history.
    RemoveFromHistory { id: u32 },
    /// A request to drop the whole history.
    ClearHistory,
    /// Writing the icon file that the creation with this serial asked for failed.
    IconWriteFailed { serial: u32, path: String },
    /// Anything else.
    Other,
}

/// Text of an optional field, empty when absent.
pub open spec fn text_or_empty(o: Option<String>) -> Seq<char> {
    match o {
        Some(s) => s@,
        None => Seq::empty(),
    }
}

/// Urgency of an optional field, normal when absent.
pub open spec fn urgency_or_normal(o: Option<u8>) -> u8 {
    match o {
        Some(u) => u,
        None => 1,
    }
}

/// The pending record that a creation call with the given serial and icon yields.
pub open spec fn created_record(ev: CreateEvent, serial: u32, icon: Seq<char>) -> NotificationView {
    NotificationView {
        serial,
        appname: text_or_empty(ev.appname),
        summary: text_or_empty(ev.summary),
        body: text_or_empty(ev.body),
        icon,
        urgency: urgency_or_normal(ev.urgency),
        id: 0,
    }
}

/// Builds the record for a creation call, filling absent fields with defaults.
pub fn new_record(appname: Option<String>, summary: Option<String>, body: Option<String>, urgency: Option<u8>, serial: u32, icon: String) -> (r: Notification)
    ensures
        r@.serial == serial,
        r@.appname == text_or_empty(appname),
        r@.summary == text_or_empty(summary),
        r@.body == text_or_empty(body),
        r@.icon == icon@,
        r@.urgency == urgency_or_normal(urgency),
        r@.id == 0,
{
    Notification {
        serial,
        appname: unwrap_text(appname),
        summary: unwrap_text(summary),
        body: unwrap_text(body),
        icon,
        urgency: match urgency {
            Some(u) => u,
            None => 1,
        },
        id: 0,
    }
}

fn unwrap_text(o: Option<String>) -> (r: String)
    ensures
        r@ == text_or_empty(o),
{
    match o {
        Some(s) => s,
        None => String::new(),
    }
}

} // verus!
