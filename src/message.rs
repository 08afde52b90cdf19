use vstd::prelude::*;
use vstd::string::StringExecFns;
use crate::text::{decimal, decimal_string};

verus! {

/// A timestamped notice delivered to one player's mailbox.
#[derive(Debug)]
pub struct Message {
    pub date: u32,
    pub source: String,
    pub content: String,
}

impl Clone for Message {
    fn clone(&self) -> (r: Message)
        ensures
            r == *self,
    {
        Message { date: self.date, source: self.source.clone(), content: self.content.clone() }
    }
}

impl View for Message {
    type V = (u32, Seq<char>, Seq<char>);

    /// Date, source and content.
    open spec fn view(&self) -> (u32, Seq<char>, Seq<char>) {
        (self.date, self.source@, self.content@)
    }
}

/// How a message reads in a mailbox listing.
pub open spec fn message_line(m: Message) -> Seq<char> {
    "* Day "@ + decimal(m.date as nat) + " from ["@ + m.source@ + "]: "@ + m.content@
}

impl Message {
    /// The message as one line of a mailbox listing.
    pub fn to_string(&self) -> (r: String)
        ensures
            r@ == message_line(*self),
    {
        let mut r = String::from_str("* Day ");
        r.append(decimal_string(self.date as u64).as_str());
        r.append(" from [");
        r.append(self.source.as_str());
        r.append("]: ");
        r.append(self.content.as_str());
        r
    }
}

/// Builds a message from its parts.
pub fn make_message(date: u32, source: &str, content: String) -> (r: Message)
    ensures
        r@ == (date, source@, content@),
{
    Message { date, source: source.to_string(), content }
}

/// Sender of the mutants' private notices.
pub open spec fn overmind() -> Seq<char> {
    "Overmind"@
}

/// Sender of a player's own health notices.
pub open spec fn self_diagnosis() -> Seq<char> {
    "Outil d'auto diagnostique"@
}

/// Sender of the physicians' notices.
pub open spec fn medical_team() -> Seq<char> {
    "Équipe médicale"@
}

/// Sender of the public announcements.
pub open spec fn central_computer() -> Seq<char> {
    "Ordinateur Central"@
}

/// Sender of the IT engineer's report.
pub open spec fn diagnostic_system() -> Seq<char> {
    "Système de diagnostique"@
}

/// Sender of the geneticist's report.
pub open spec fn genetics_tool() -> Seq<char> {
    "GenoTech v0.17"@
}

/// Sender of the spy's reports.
pub open spec fn surveillance_tool() -> Seq<char> {
    "Stalker IV"@
}

/// Sender of the psychologist's report.
pub open spec fn psychology_tool() -> Seq<char> {
    "Freud GPT"@
}

} // verus!
