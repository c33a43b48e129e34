//! Append-only audit log entries: a timestamp, the originating
//! operation, and a message.

use vstd::prelude::*;

verus! {

/// Relies on `chrono::Utc::now` for the current time and on
/// `chrono::DateTime::format` with `"%Y-%m-%d %H:%M:%S"` for its text
/// form. Nothing is promised of the result: it depends on the clock.
#[verifier::external_body]
fn now_timestamp_text() -> String {
    chrono::Utc::now().format("%Y-%m-%d %H:%M:%S").to_string()
}

pub struct Log {
    time: String,
    function_info: String,
    message: String,
}

pub struct LogView {
    pub time: Seq<char>,
    pub function_info: Seq<char>,
    pub message: Seq<char>,
}

impl View for Log {
    type V = LogView;

    closed spec fn view(&self) -> LogView {
        LogView { time: self.time@, function_info: self.function_info@, message: self.message@ }
    }
}

impl Log {
    /// An entry with an already-known time, as read back from a saved
    /// state.
    pub fn from_parts(time: String, function_info: String, message: String) -> (r: Log)
        ensures
            r@.time == time@,
            r@.function_info == function_info@,
            r@.message == message@,
    {
        Log { time, function_info, message }
    }

    /// The entry's timestamp text.
    pub fn time(&self) -> (r: &String)
        ensures
            r@ == self@.time,
    {
        &self.time
    }

    /// The entry's originating operation.
    pub fn function_info(&self) -> (r: &String)
        ensures
            r@ == self@.function_info,
    {
        &self.function_info
    }

    /// The entry's message.
    pub fn message(&self) -> (r: &String)
        ensures
            r@ == self@.message,
    {
        &self.message
    }

    /// A new entry stamped with the current time.
    pub fn new(info: String, message: String) -> (r: Log)
        ensures
            r@.function_info == info@,
            r@.message == message@,
    {
        Log { time: now_timestamp_text(), function_info: info, message }
    }

    /// The rendered entry: time, operation and message.
    pub fn to_string(&self) -> (r: String)
        ensures
            r@ == self@.time + " - "@ + self@.function_info + " \n"@ + self@.message,
    {
        let mut r = self.time.clone();
        r.append(" - ");
        r.append(self.function_info.as_str());
        r.append(" \n");
        r.append(self.message.as_str());
        r
    }
}

} // verus!
