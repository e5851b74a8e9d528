//! What a search reports: progress, the find that ends a job, rare finds on
//! the way, and the record that a rare find leaves in the log.

use vstd::prelude::*;
use vstd::string::StringExecFns;

verus! {

/// One outbound message of a running job.
pub enum OutputMessage {
    Progress { tid: usize, attempts: u64 },
    Found { address: String, private_key: String, attempts: u64 },
    Rare { address: String, private_key: String, pattern: String, attempts: u64 },
}

/// Mathematical value of an outbound message.
pub enum MessageModel {
    Progress { tid: nat, attempts: nat },
    Found { address: Seq<char>, private_key: Seq<char>, attempts: nat },
    Rare { address: Seq<char>, private_key: Seq<char>, pattern: Seq<char>, attempts: nat },
}

impl View for OutputMessage {
    type V = MessageModel;

    open spec fn view(&self) -> MessageModel {
        match self {
            OutputMessage::Progress { tid, attempts } => MessageModel::Progress {
                tid: *tid as nat,
                attempts: *attempts as nat,
            },
            OutputMessage::Found { address, private_key, attempts } => MessageModel::Found {
                address: address@,
                private_key: private_key@,
                attempts: *attempts as nat,
            },
            OutputMessage::Rare { address, private_key, pattern, attempts } => MessageModel::Rare {
                address: address@,
                private_key: private_key@,
                pattern: pattern@,
                attempts: *attempts as nat,
            },
        }
    }
}

/// The value of an optional message.
pub open spec fn message_model(message: Option<OutputMessage>) -> Option<MessageModel> {
    match message {
        Some(m) => Some(m@),
        None => None,
    }
}

/// The log record of a rare find: three labelled lines and an empty one.
pub open spec fn rare_record_text(pattern: Seq<char>, address: Seq<char>, private_key: Seq<char>) -> Seq<char> {
    "Pattern: "@ + pattern + "\nAddress: "@ + address + "\nPrivate Key: "@ + private_key + "\n\n"@
}

/// Writes out the log record of a rare find.
pub fn rare_log_record(pattern: &str, address: &str, private_key: &str) -> (record: String)
    ensures
        record@ == rare_record_text(pattern@, address@, private_key@),
{
    let mut record = String::from_str("Pattern: ");
    record.append(pattern);
    record.append("\nAddress: ");
    record.append(address);
    record.append("\nPrivate Key: ");
    record.append(private_key);
    record.append("\n\n");
    record
}

} // verus!
