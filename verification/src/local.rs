//! A backend that keeps nothing: one contact, the user themself, and a fixed
//! conversation, for trying out the interface.
use vstd::prelude::*;

use crate::backends::{timestamp, Contact, ContactView, ContactId, ContactIdView, ContentData, Message, MessageContent, MessageData};
use crate::text::{decimal, owned, push_decimal};

verus! {

/// The backend that keeps nothing.
#[derive(Debug, Clone, Copy)]
pub struct Local {}

/// The identity of the only user, the user themself.
pub open spec fn local_id() -> Seq<u8> {
    seq![0u8]
}

/// The only contact: the user themself.
pub open spec fn local_contact() -> ContactView {
    ContactView {
        id: ContactIdView::User(local_id()),
        name: "Self"@,
        address: "no address"@,
        last_message_timestamp: Some(0),
        description: "some description"@,
    }
}

/// How many messages the conversation holds.
pub open spec fn local_message_count() -> nat {
    53
}

/// A text message of the user to themself.
pub open spec fn local_text(timestamp: u64, text: Seq<char>) -> MessageData {
    MessageData {
        timestamp,
        sender: local_id(),
        contact_id: ContactIdView::User(local_id()),
        content: ContentData::Text { text, attachments: Seq::empty() },
        quote: None,
    }
}

/// The `i`-th message of the conversation at the time `now`: two texts 100
/// and 90 ms ago, a rocket on the first of them 80 ms ago, then the texts
/// `msg 49` down to `msg 0`, each as many ms ago as its number.
pub open spec fn local_message(now: u64, i: int) -> MessageData {
    if i == 0 {
        local_text((now - 100) as u64, "Message 1"@)
    } else if i == 1 {
        local_text((now - 90) as u64, "Message 2"@)
    } else if i == 2 {
        MessageData {
            timestamp: (now - 80) as u64,
            sender: local_id(),
            contact_id: ContactIdView::User(local_id()),
            content: ContentData::Reaction {
                message_author: local_id(),
                timestamp: (now - 100) as u64,
                reaction: "\u{1F680}"@,
                remove: false,
            },
            quote: None,
        }
    } else {
        local_text((now - (52 - i)) as u64, "msg "@ + decimal((52 - i) as nat))
    }
}

/// The messages are the conversation at the time `now`.
pub open spec fn is_local_conversation(v: Seq<Message>, now: u64) -> bool {
    v.len() == local_message_count() && forall|i: int| 0 <= i < v.len() ==> #[trigger] v[i]@ == local_message(now, i)
}

/// The values of a list of messages.
pub open spec fn message_data(v: Seq<Message>) -> Seq<MessageData> {
    v.map_values(|m: Message| m@)
}

/// The user's own identity bytes.
fn local_id_bytes() -> (res: Vec<u8>)
    ensures
        res@ == local_id(),
{
    let mut v: Vec<u8> = Vec::new();
    v.push(0u8);
    assert(v@ =~= local_id());
    v
}

/// A text message of the user to themself.
fn local_text_message(timestamp: u64, text: String) -> (res: Message)
    ensures
        res@ == local_text(timestamp, text@),
{
    let attachments: Vec<crate::backends::MessageAttachment> = Vec::new();
    assert(crate::backends::attachments_view(attachments@) =~= Seq::empty());
    Message {
        timestamp,
        sender: local_id_bytes(),
        contact_id: ContactId::User(local_id_bytes()),
        content: MessageContent::Text { text, attachments },
        quote: None,
    }
}

impl Local {
    /// The backend, whatever the path.
    pub fn load() -> (res: Local) {
        Local {}
    }

    /// The users: the user themself.
    pub fn users(&self) -> (res: Vec<Contact>)
        ensures
            res@.len() == 1,
            res@[0]@ == local_contact(),
    {
        proof {
            reveal_strlit("Self");
            reveal_strlit("no address");
            reveal_strlit("some description");
        }
        let mut v: Vec<Contact> = Vec::new();
        v.push(
            Contact {
                id: ContactId::User(local_id_bytes()),
                name: owned("Self"),
                address: owned("no address"),
                last_message_timestamp: Some(0),
                description: owned("some description"),
            },
        );
        v
    }

    /// The groups: none.
    pub fn groups(&self) -> (res: Vec<Contact>)
        ensures
            res@.len() == 0,
    {
        Vec::new()
    }

    /// The conversation at the time `now` (see [`local_message`]), whatever
    /// the contact and the range asked for.
    pub fn messages_at(&self, now: u64) -> (res: Vec<Message>)
        requires
            now >= 100,
        ensures
            is_local_conversation(res@, now),
    {
        let mut msgs: Vec<Message> = Vec::new();
        msgs.push(local_text_message(now - 100, owned("Message 1")));
        msgs.push(local_text_message(now - 90, owned("Message 2")));
        let reaction = Message {
            timestamp: now - 80,
            sender: local_id_bytes(),
            contact_id: ContactId::User(local_id_bytes()),
            content: MessageContent::Reaction {
                message_author: local_id_bytes(),
                timestamp: now - 100,
                reaction: owned("\u{1F680}"),
                remove: false,
            },
            quote: None,
        };
        msgs.push(reaction);
        let mut k: u64 = 50;
        while k > 0
            invariant
                k <= 50,
                now >= 100,
                msgs@.len() == 53 - k,
                forall|i: int| 0 <= i < msgs@.len() ==> #[trigger] msgs@[i]@ == local_message(now, i),
            decreases k,
        {
            k = k - 1;
            let mut text = owned("msg ");
            push_decimal(&mut text, k);
            proof {
                reveal_strlit("msg ");
            }
            let m = local_text_message(now - k, text);
            let ghost at = msgs@.len() as int;
            assert(52 - at == k);
            msgs.push(m);
            assert(msgs@[at]@ == local_message(now, at));
        }
        msgs
    }

    /// The conversation now, by the system clock (see [`Local::messages_at`]);
    /// `None` where the clock reads earlier than the epoch or less than 100 ms
    /// after it.
    pub fn messages(&self) -> (res: Option<Vec<Message>>)
        ensures
            match res {
                Some(v) => v@.len() == 53 && exists|t: u64| t >= 100 && #[trigger] is_local_conversation(v@, t),
                None => true,
            },
    {
        let now = match timestamp() {
            Some(t) => t,
            None => return None,
        };
        if now < 100 {
            return None;
        }
        let conversation = self.messages_at(now);
        assert(is_local_conversation(conversation@, now));
        Some(conversation)
    }

    /// The message that sending the content to the contact at the time
    /// `now` gives: from the user, quoting nothing.
    pub fn send_message_at(&self, now: u64, contact: ContactId, body: MessageContent) -> (res: Message)
        ensures
            res.timestamp == now,
            res.sender@ == local_id(),
            res.contact_id@ == contact@,
            res.content@ == body@,
            res.quote is None,
    {
        Message { timestamp: now, sender: local_id_bytes(), contact_id: contact, content: body, quote: None }
    }

    /// The message that sending the content to the contact now gives (see
    /// [`Local::send_message_at`]); its time is the system clock's. `None`
    /// where the clock reads earlier than the epoch.
    pub fn send_message(&self, contact: ContactId, body: MessageContent) -> (res: Option<Message>)
        ensures
            res matches Some(m) ==> {
                &&& m.sender@ == local_id()
                &&& m.contact_id@ == contact@
                &&& m.content@ == body@
                &&& m.quote is None
            },
    {
        match timestamp() {
            Some(now) => Some(self.send_message_at(now, contact, body)),
            None => None,
        }
    }

    /// The user's identity.
    pub fn self_id(&self) -> (res: Vec<u8>)
        ensures
            res@ == local_id(),
    {
        local_id_bytes()
    }
}

} // verus!
