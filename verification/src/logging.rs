//! Log records on their way to the host.
//!
//! The process's log records do not go to a stream of their own: each one is
//! wrapped as a `log` notification and written through the output channel,
//! like every other frame.

use crate::channel::OutputChannel;
use crate::codec::frame;
use crate::json::{json_text, lemma_object_view, members_view, Json, JsonModel};
use crate::messages::{json_of, Message, MessageModel, Notification, NotificationModel};
use vstd::prelude::*;

verus! {

/// The severity of a record as the process's logging facility gives it.
#[derive(Debug, PartialEq, Eq, Clone, Copy)]
pub enum Level {
    Error,
    Warn,
    Info,
    Debug,
    Trace,
}

/// The severity of a record as the host knows it.
#[derive(Debug, PartialEq, Eq, Clone, Copy)]
pub enum LogLevel {
    Debug,
    Info,
    Warn,
    Error,
}

/// One record for the host.
#[derive(Debug, PartialEq)]
pub struct LogEntry {
    pub level: LogLevel,
    pub message: String,
}

impl LogLevel {
    /// The host's level for a record: the facility's level, with `Trace`
    /// folded into `Debug`.
    pub open spec fn of(level: Level) -> LogLevel {
        match level {
            Level::Error => LogLevel::Error,
            Level::Warn => LogLevel::Warn,
            Level::Info => LogLevel::Info,
            Level::Debug => LogLevel::Debug,
            Level::Trace => LogLevel::Debug,
        }
    }

    /// The level's name on the wire.
    pub open spec fn name(self) -> Seq<char> {
        match self {
            LogLevel::Debug => "debug"@,
            LogLevel::Info => "info"@,
            LogLevel::Warn => "warn"@,
            LogLevel::Error => "error"@,
        }
    }

    /// The host's level for a record of the facility's level.
    pub fn from_level(level: Level) -> (mapped: LogLevel)
        ensures
            mapped == LogLevel::of(level),
    {
        match level {
            Level::Error => LogLevel::Error,
            Level::Warn => LogLevel::Warn,
            Level::Info => LogLevel::Info,
            Level::Debug => LogLevel::Debug,
            Level::Trace => LogLevel::Debug,
        }
    }

    /// The level's name on the wire.
    pub fn as_str(&self) -> (name: &'static str)
        ensures
            name@ == self.name(),
    {
        match self {
            LogLevel::Debug => "debug",
            LogLevel::Info => "info",
            LogLevel::Warn => "warn",
            LogLevel::Error => "error",
        }
    }
}

/// The notification that carries a record: method `log`, with the level's
/// name and the message as parameters.
pub open spec fn log_notification(level: LogLevel, message: Seq<char>) -> MessageModel {
    MessageModel::Notification(
        NotificationModel {
            method: "log"@,
            params: JsonModel::Object(
                seq![
                    ("level"@, JsonModel::String(level.name())),
                    ("message"@, JsonModel::String(message)),
                ],
            ),
        },
    )
}

impl LogEntry {
    /// The record of a message that the facility reports at `level`.
    pub fn new(level: Level, message: String) -> (entry: LogEntry)
        ensures
            entry.level == LogLevel::of(level),
            entry.message == message,
    {
        LogEntry { level: LogLevel::from_level(level), message }
    }

    /// Wraps the record as a notification.
    pub fn into_notification(self) -> (message: Message)
        ensures
            message@ == log_notification(self.level, self.message@),
    {
        let members: Vec<(String, Json)> = vec![
            ("level".to_owned(), Json::String(self.level.as_str().to_owned())),
            ("message".to_owned(), Json::String(self.message)),
        ];
        proof {
            lemma_object_view(members);
            assert(members_view(members@) =~= seq![
                ("level"@, JsonModel::String(self.level.name())),
                ("message"@, JsonModel::String(self.message@)),
            ]);
        }
        Message::Notification(Notification { method: "log".to_owned(), params: Json::Object(members) })
    }
}

/// Forwards one record to the host: exactly one frame, the record's
/// notification, is written to the channel.
pub fn forward(entry: LogEntry, channel: &mut OutputChannel)
    ensures
        final(channel).written() == old(channel).written().push(
            json_text(json_of(log_notification(entry.level, entry.message@))),
        ),
        final(channel).pending() == old(channel).pending() + frame(
            json_text(json_of(log_notification(entry.level, entry.message@))),
        ),
        final(channel).taken() == old(channel).taken(),
{
    let value = entry.into_notification().to_json();
    channel.write(&value);
}

} // verus!
