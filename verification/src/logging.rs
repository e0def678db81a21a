//! The debug console: log levels and the bounded list of messages.

use vstd::prelude::*;
use crate::clock::{is_time_of_day_stamp, local_time_of_day};
use crate::color::Rgba;

verus! {

/// The severity of a console message.
#[derive(Clone, Copy, PartialEq, Eq, Debug, Structural)]
pub enum LogLevel {
    Info,
    Action,
    Warning,
    Error,
}

/// One line of the console.
pub struct LogMessage {
    pub timestamp: String,
    pub level: LogLevel,
    pub message: String,
}

impl Clone for LogMessage {
    fn clone(&self) -> (copy: Self)
        ensures
            copy == *self,
    {
        LogMessage { timestamp: self.timestamp.clone(), level: self.level, message: self.message.clone() }
    }
}

/// The icon shown before a message of the given level.
pub open spec fn level_icon(level: LogLevel) -> Seq<char> {
    match level {
        LogLevel::Info => "ℹ️"@,
        LogLevel::Action => "▶"@,
        LogLevel::Warning => "⚠️"@,
        LogLevel::Error => "❌"@,
    }
}

/// The color in which a message of the given level is shown.
pub open spec fn level_color(level: LogLevel) -> Rgba {
    match level {
        LogLevel::Info => Rgba { r: 200, g: 200, b: 200, a: 255 },
        LogLevel::Action => Rgba { r: 100, g: 200, b: 255, a: 255 },
        LogLevel::Warning => Rgba { r: 255, g: 200, b: 100, a: 255 },
        LogLevel::Error => Rgba { r: 255, g: 100, b: 100, a: 255 },
    }
}

/// The color in which the console lists a message of the given level.
pub open spec fn console_color(level: LogLevel) -> Rgba {
    match level {
        LogLevel::Info => Rgba { r: 180, g: 180, b: 180, a: 255 },
        LogLevel::Action => Rgba { r: 100, g: 200, b: 100, a: 255 },
        LogLevel::Warning => Rgba { r: 255, g: 200, b: 100, a: 255 },
        LogLevel::Error => Rgba { r: 255, g: 100, b: 100, a: 255 },
    }
}

impl LogLevel {
    /// The color of this level's messages in the console list.
    pub fn get_console_color(&self) -> (c: Rgba)
        ensures
            c == console_color(*self),
    {
        match self {
            LogLevel::Info => Rgba::from_gray(180),
            LogLevel::Action => Rgba::from_rgb(100, 200, 100),
            LogLevel::Warning => Rgba::from_rgb(255, 200, 100),
            LogLevel::Error => Rgba::from_rgb(255, 100, 100),
        }
    }

    /// The color of this level.
    pub fn get_color(&self) -> (c: Rgba)
        ensures
            c == level_color(*self),
    {
        match self {
            LogLevel::Info => Rgba::from_gray(200),
            LogLevel::Action => Rgba::from_rgb(100, 200, 255),
            LogLevel::Warning => Rgba::from_rgb(255, 200, 100),
            LogLevel::Error => Rgba::from_rgb(255, 100, 100),
        }
    }

    /// The icon of this level.
    pub fn get_icon(&self) -> (icon: &'static str)
        ensures
            icon@ == level_icon(*self),
    {
        match self {
            LogLevel::Info => "ℹ️",
            LogLevel::Action => "▶",
            LogLevel::Warning => "⚠️",
            LogLevel::Error => "❌",
        }
    }
}

/// The number of oldest messages dropped at once when the console is over
/// its capacity.
pub const TRIM_COUNT: usize = 100;

/// How many of the oldest messages go when a list of `pushed_len` messages
/// (the new one included) is held to `max` messages.
pub open spec fn trimmed_count(pushed_len: int, max: int) -> int {
    if pushed_len > max { TRIM_COUNT as int } else { 0 }
}

/// The messages after `entry` was appended to `messages` with capacity `max`:
/// when the list grows past `max`, its hundred oldest messages go.
pub open spec fn after_append(messages: Seq<LogMessage>, max: int, entry: LogMessage) -> Seq<LogMessage> {
    let pushed = messages.push(entry);
    pushed.subrange(trimmed_count(pushed.len() as int, max), pushed.len() as int)
}

/// Whether appending one message to `len` messages under capacity `max`
/// leaves enough messages to drop the hundred oldest when it must.
pub open spec fn can_append(len: int, max: int) -> bool {
    len + 1 > max ==> len + 1 >= TRIM_COUNT
}

/// The console's message list.
pub struct Logger {
    pub messages: Vec<LogMessage>,
    pub max_messages: usize,
}

impl Logger {
    /// An empty console that keeps up to a thousand messages.
    pub fn new() -> (logger: Logger)
        ensures
            logger.messages@.len() == 0,
            logger.max_messages == 1000,
    {
        Logger { messages: Vec::new(), max_messages: 1000 }
    }

    /// Appends `entry`; when the list then holds more than `max_messages`
    /// messages, the hundred oldest go.
    pub fn record(&mut self, entry: LogMessage)
        requires
            can_append(old(self).messages@.len() as int, old(self).max_messages as int),
        ensures
            final(self).max_messages == old(self).max_messages,
            final(self).messages@ == after_append(
                old(self).messages@,
                old(self).max_messages as int,
                entry,
            ),
    {
        self.messages.push(entry);
        if self.messages.len() > self.max_messages {
            let kept = self.messages.split_off(TRIM_COUNT);
            self.messages = kept;
        }
    }

    /// Appends a message of the given level, stamped with the local time of
    /// day, and trims the list as `record` does.
    pub fn log(&mut self, level: LogLevel, message: String)
        requires
            can_append(old(self).messages@.len() as int, old(self).max_messages as int),
        ensures
            final(self).max_messages == old(self).max_messages,
            ({
                let cut = trimmed_count(old(self).messages@.len() + 1int, old(self).max_messages as int);
                let now = final(self).messages@;
                &&& now.len() == old(self).messages@.len() + 1 - cut
                &&& forall|i: int|
                    0 <= i < now.len() && i + cut < old(self).messages@.len() ==> now[i]
                        == old(self).messages@[i + cut]
                &&& now.len() > 0 ==> {
                    &&& now.last().level == level
                    &&& now.last().message == message
                    &&& is_time_of_day_stamp(now.last().timestamp@)
                }
            }),
    {
        let timestamp = local_time_of_day();
        self.record(LogMessage { timestamp, level, message });
    }

    /// Removes every message.
    pub fn clear(&mut self)
        ensures
            final(self).messages@.len() == 0,
            final(self).max_messages == old(self).max_messages,
    {
        self.messages.clear();
    }
}

/// A console that holds at most `max` messages, with `max` at least 99,
/// still holds at most `max` after one more is appended: the capacity the
/// console promises is kept by every append.
pub proof fn lemma_append_keeps_capacity(messages: Seq<LogMessage>, max: int, entry: LogMessage)
    requires
        messages.len() <= max,
        max >= TRIM_COUNT - 1,
    ensures
        after_append(messages, max, entry).len() <= max,
        can_append(messages.len() as int, max),
{
}

/// With a capacity of at least a hundred, the message just appended is
/// always the newest one kept.
pub proof fn lemma_append_keeps_newest(messages: Seq<LogMessage>, max: int, entry: LogMessage)
    requires
        messages.len() <= max,
        max >= TRIM_COUNT,
    ensures
        after_append(messages, max, entry).len() > 0,
        after_append(messages, max, entry).last() == entry,
{
}

} // verus!
