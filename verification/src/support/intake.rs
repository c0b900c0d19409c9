//! Ticket intake: the mailbox of raw emails and the tickets made from them.
use vstd::prelude::*;
use vstd::string::StringExecFns;
use crate::ids::{is_uuid_v4_text, new_uuid_v4_text};
use crate::support::email::ParsedEmail;
use crate::support::sla::{SupportTicket, TicketPriority, TicketStatus};

verus! {

/// Where and as whom the mailbox is read, and where attachments are stored.
#[derive(Clone, Debug)]
pub struct ImapConfig {
    pub server: String,
    pub username: String,
    pub tenant_id: String,
    pub storage_root: String,
}

/// A mailbox connection holding the raw emails waiting to be processed.
pub struct ImapConnection {
    config: ImapConfig,
    mock_messages: Vec<Vec<u8>>,
}

/// The byte contents of the messages.
pub open spec fn message_views(m: Seq<Vec<u8>>) -> Seq<Seq<u8>> {
    m.map_values(|v: Vec<u8>| v@)
}

impl ImapConnection {
    /// The configuration of the connection.
    pub closed spec fn config_of(&self) -> ImapConfig {
        self.config
    }

    /// The raw emails waiting, in the order they arrived.
    pub closed spec fn messages(&self) -> Seq<Seq<u8>> {
        message_views(self.mock_messages@)
    }

    /// A connection with no emails waiting.
    pub fn new(config: ImapConfig) -> (r: ImapConnection)
        ensures
            r.config_of() == config,
            r.messages() == Seq::<Seq<u8>>::empty(),
    {
        let r = ImapConnection { config, mock_messages: Vec::new() };
        proof {
            assert(r.messages() =~= Seq::<Seq<u8>>::empty());
        }
        r
    }

    /// Queues a raw email.
    pub fn add_mock_message(&mut self, raw_email: Vec<u8>)
        ensures
            final(self).config_of() == old(self).config_of(),
            final(self).messages() == old(self).messages().push(raw_email@),
    {
        let ghost before = self.mock_messages@;
        self.mock_messages.push(raw_email);
        proof {
            assert(message_views(self.mock_messages@) =~= message_views(before).push(raw_email@));
        }
    }

    /// Takes the waiting emails, in order, leaving none.
    pub fn take_messages(&mut self) -> (r: Vec<Vec<u8>>)
        ensures
            final(self).config_of() == old(self).config_of(),
            final(self).messages() == Seq::<Seq<u8>>::empty(),
            message_views(r@) == old(self).messages(),
    {
        let mut r: Vec<Vec<u8>> = Vec::new();
        std::mem::swap(&mut r, &mut self.mock_messages);
        proof {
            assert(message_views(self.mock_messages@) =~= Seq::<Seq<u8>>::empty());
        }
        r
    }

    /// The configuration of the connection.
    pub fn config(&self) -> (r: &ImapConfig)
        ensures
            *r == self.config_of(),
    {
        &self.config
    }
}

/// Whether `t` is the ticket opened for an email: id `TKT-` and the first
/// eight characters of the UUID, medium priority, open, created at the
/// email's date, unassigned, unanswered, unresolved, not escalated, with the
/// email's subject and body and the stored attachments' hashes.
pub open spec fn is_email_ticket(t: SupportTicket, email: ParsedEmail, attachments: Seq<String>, uuid: Seq<char>) -> bool {
    &&& t.id@ == "TKT-"@ + uuid.take(8)
    &&& t.priority == TicketPriority::Medium
    &&& t.status == TicketStatus::Open
    &&& t.created_at == email.date
    &&& t.assigned_at is None
    &&& t.resolved_at is None
    &&& t.first_responded_at is None
    &&& t.escalated_level == 0
    &&& t.subject == email.subject
    &&& t.body == email.body
    &&& t.attachments@ == attachments
}

/// The ticket for an email under the given UUID.
pub fn ticket_from_email_with_id(email: ParsedEmail, attachments: Vec<String>, uuid: &str) -> (r: SupportTicket)
    requires
        is_uuid_v4_text(uuid@),
    ensures
        is_email_ticket(r, email, attachments@, uuid@),
{
    let cs = crate::text::str_chars(uuid);
    let short = crate::chars::slice_chars(&cs, 0, 8);
    let mut id = String::from_str("TKT-");
    id.append(crate::text::string_of(&short).as_str());
    proof {
        assert(short@ =~= uuid@.take(8));
    }
    SupportTicket {
        id,
        priority: TicketPriority::Medium,
        status: TicketStatus::Open,
        created_at: email.date,
        assigned_at: None,
        resolved_at: None,
        first_responded_at: None,
        escalated_level: 0,
        subject: email.subject,
        body: email.body,
        attachments,
    }
}

/// The ticket for an email, under a fresh random UUID.
pub fn ticket_from_email(email: ParsedEmail, attachments: Vec<String>) -> (r: SupportTicket)
    ensures
        exists|uuid: Seq<char>| is_uuid_v4_text(uuid) && #[trigger] is_email_ticket(r, email, attachments@, uuid),
{
    let uuid = new_uuid_v4_text();
    ticket_from_email_with_id(email, attachments, uuid.as_str())
}

} // verus!
