//! The messages between the interface and the backend actor.
use vstd::prelude::*;

use crate::backends::{Contact, ContactId, ContactIdView, ContentData, Message, MessageContent, Quote, QuoteData};

verus! {

/// One end of a range of message timestamps.
#[derive(Debug, Clone, Copy, PartialEq, Eq, Structural)]
pub enum TimestampBound {
    Included(u64),
    Excluded(u64),
    Unbounded,
}

/// Requests from the interface to the backend.
#[derive(Debug)]
pub enum BackendMessage {
    LoadContacts,
    LoadMessages { contact_id: ContactId, start_ts: TimestampBound, end_ts: TimestampBound },
    SendMessage { contact_id: ContactId, content: MessageContent, quote: Option<Quote> },
    DownloadAttachment { contact_id: ContactId, timestamp: u64, index: usize },
}

/// A [`BackendMessage`] as a value.
pub enum BackendMessageView {
    LoadContacts,
    LoadMessages { contact_id: ContactIdView, start_ts: TimestampBound, end_ts: TimestampBound },
    SendMessage { contact_id: ContactIdView, content: ContentData, quote: Option<QuoteData> },
    DownloadAttachment { contact_id: ContactIdView, timestamp: u64, index: usize },
}

impl View for BackendMessage {
    type V = BackendMessageView;

    open spec fn view(&self) -> BackendMessageView {
        match self {
            BackendMessage::LoadContacts => BackendMessageView::LoadContacts,
            BackendMessage::LoadMessages { contact_id, start_ts, end_ts } => BackendMessageView::LoadMessages {
                contact_id: contact_id@,
                start_ts: *start_ts,
                end_ts: *end_ts,
            },
            BackendMessage::SendMessage { contact_id, content, quote } => BackendMessageView::SendMessage {
                contact_id: contact_id@,
                content: content@,
                quote: match quote {
                    Some(q) => Some(q@),
                    None => None,
                },
            },
            BackendMessage::DownloadAttachment { contact_id, timestamp, index } =>
                BackendMessageView::DownloadAttachment {
                contact_id: contact_id@,
                timestamp: *timestamp,
                index: *index,
            },
        }
    }
}

/// News from the backend for the interface.
#[derive(Debug)]
pub enum FrontendMessage {
    LoadedContacts { contacts: Vec<Contact> },
    LoadedMessages { messages: Vec<Message> },
    NewMessage { message: Message },
    DownloadedAttachment { contact_id: ContactId, timestamp: u64, index: usize, file_path: String },
    Tick,
}

} // verus!
