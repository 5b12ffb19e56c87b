//! Shell commands that the configuration runs on events.
use vstd::prelude::*;

use crate::backends::{Contact, ContentData, Message, MessageData};
use crate::text::{owned, texts};

verus! {

/// The commands to run on events.
#[derive(Debug, Clone)]
pub struct Hooks {
    pub on_new_message: Option<String>,
}

/// The body of a message as the hook sees it: its text, its emoji for a
/// reaction, its new text for an edit.
pub open spec fn content_text(c: ContentData) -> Seq<char> {
    match c {
        ContentData::Text { text, .. } => text,
        ContentData::Reaction { reaction, .. } => reaction,
        ContentData::Edit { text, .. } => text,
    }
}

/// The environment that the new-message hook runs with, in the order of
/// the variables' names.
pub open spec fn new_message_env(
    program_name: Seq<char>,
    contact_name: Seq<char>,
    sender_name: Seq<char>,
    message: MessageData,
) -> Seq<(Seq<char>, Seq<char>)> {
    seq![
        ("CHATTERS_APP_NAME"@, program_name),
        ("CHATTERS_CONTACT_NAME"@, contact_name),
        ("CHATTERS_MESSAGE_BODY"@, content_text(message.content)),
        ("CHATTERS_SENDER_NAME"@, sender_name),
    ]
}

/// The values of a list of pairs of strings.
pub open spec fn pair_views(v: Seq<(String, String)>) -> Seq<(Seq<char>, Seq<char>)> {
    v.map_values(|p: (String, String)| (p.0@, p.1@))
}

impl Hooks {
    /// No hooks.
    pub fn new() -> (res: Self)
        ensures
            res.on_new_message is None,
    {
        Hooks { on_new_message: None }
    }

    /// The new-message hook for a message: the configured shell command and
    /// the environment to run it with (see [`new_message_env`]), for the
    /// program to start; nothing without a command.
    pub fn do_on_new_message(
        &self,
        program_name: &str,
        contact: &Contact,
        sender: &Contact,
        message: &Message,
    ) -> (res: Option<(String, Vec<(String, String)>)>)
        ensures
            match self.on_new_message {
                Some(script) => res is Some && res.unwrap().0@ == script@ && pair_views(res.unwrap().1@)
                    == new_message_env(program_name@, contact.name@, sender.name@, message@),
                None => res is None,
            },
    {
        match &self.on_new_message {
            Some(script) => {
                let mut envs: Vec<(String, String)> = Vec::new();
                envs.push((owned("CHATTERS_APP_NAME"), owned(program_name)));
                envs.push((owned("CHATTERS_CONTACT_NAME"), owned(contact.name.as_str())));
                envs.push((owned("CHATTERS_MESSAGE_BODY"), message.content.to_string()));
                envs.push((owned("CHATTERS_SENDER_NAME"), owned(sender.name.as_str())));
                assert(pair_views(envs@) =~= new_message_env(
                    program_name@,
                    contact.name@,
                    sender.name@,
                    message@,
                ));
                Some((owned(script.as_str()), envs))
            },
            None => None,
        }
    }
}

impl Default for Hooks {
    fn default() -> (res: Self)
        ensures
            res.on_new_message is None,
    {
        Hooks::new()
    }
}

} // verus!
