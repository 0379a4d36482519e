//! What is announced: text messages, calls and dynamic DNS events.
use vstd::prelude::*;

verus! {

/// A text message.
#[derive(Debug)]
pub struct SmsMessage {
    pub id: i64,
    pub direction: String,
    pub phone_number: String,
    pub content: String,
    pub timestamp: String,
    pub status: String,
    pub pdu: Option<String>,
}

/// A call.
#[derive(Debug)]
pub struct CallRecord {
    pub id: i64,
    pub direction: String,
    pub phone_number: String,
    pub duration: i64,
    pub start_time: String,
    pub end_time: Option<String>,
    pub answered: bool,
}

/// The outcome of an update of dynamic DNS records.
#[derive(Debug)]
pub struct DdnsEvent {
    pub domains: Vec<String>,
    pub record_type: String,
    pub old_ip: Option<String>,
    pub new_ip: Option<String>,
    pub provider: String,
    pub status: String,
    pub message: String,
    pub timestamp: String,
}

impl Default for DdnsEvent {
    /// An event with nothing filled in.
    fn default() -> (event: DdnsEvent)
        ensures
            event.domains@.len() == 0,
            event.record_type@.len() == 0,
            event.old_ip is None,
            event.new_ip is None,
            event.provider@.len() == 0,
            event.status@.len() == 0,
            event.message@.len() == 0,
            event.timestamp@.len() == 0,
    {
        DdnsEvent {
            domains: Vec::new(),
            record_type: String::new(),
            old_ip: None,
            new_ip: None,
            provider: String::new(),
            status: String::new(),
            message: String::new(),
            timestamp: String::new(),
        }
    }
}

} // verus!
