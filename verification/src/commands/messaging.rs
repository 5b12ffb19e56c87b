//! Commands that write, react to, forward and reload messages, and those
//! that work on the compose box and the command history.
use vstd::prelude::*;

use crate::backends::{
    attachments_view, copy_attachments, copy_bytes, ContactIdView, ContentData, MessageContent, QuoteData,
};
use crate::commands::navigation::{normal_mode_state, NormalMode};
use crate::commands::{
    arguments_items, arguments_next_free, check_unused_args, complete_from_list, completion_views,
    completions_from, effect_views, last_shell_part, load_messages, only_name, push_effect, pushed, run_result,
    unit_result, unused_result, Command, CommandSuccess, Completion, Effect, EffectView, Error, ErrorView,
};
use crate::message::{BackendMessage, BackendMessageView, TimestampBound};
use crate::text::{
    chars_of, is_prefix, join, join_strings, owned, push_char, push_str, shell_quote, shell_quoted, starts_with,
    string_of, texts, trim, trim_of,
};
use crate::tui::contacts::{first_index, has_name};
use crate::tui::messages::{Quote, ReactionView};
use crate::tui::{Mode, TuiState};
use pico_args::Arguments;

verus! {

/// The text of the compose box as sent: its lines joined, trimmed.
pub open spec fn compose_text(s: TuiState) -> Seq<char> {
    trim(join(s.compose.text_lines(), "\n"@))
}

/// `t` has an empty compose box, and is otherwise `s` put back in normal
/// mode (see [`normal_mode_state`]).
pub open spec fn sent_and_reset(s: TuiState, t: TuiState) -> bool {
    &&& t.compose.text_lines() == seq![Seq::<char>::empty()]
    &&& t.compose.cursor() == (0int, 0int)
    &&& t.compose.quote_spec() is None
    &&& t.compose.attachments_spec().len() == 0
    &&& normal_mode_state(TuiState { compose: t.compose, ..s }, t)
}

/// Sends the text of the compose box, with its quote and attachments, to
/// the selected contact, and empties the box.
#[derive(Debug)]
pub struct SendMessage;

impl Command for SendMessage {
    open spec fn runs_in(&self, s: TuiState) -> bool {
        true
    }

    fn can_run(&self, s: &TuiState) -> (res: bool) {
        true
    }

    /// What running the command does.
    open spec fn executed(
        &self,
        before: TuiState,
        after: TuiState,
        effects_before: Seq<Effect>,
        effects_after: Seq<Effect>,
        res: Result<CommandSuccess, Error>,
    ) -> bool {
        &&& res == Ok::<CommandSuccess, Error>(CommandSuccess::Nothing)
        &&& sent_and_reset(before, after)
        &&& pushed(
                effects_before,
                effects_after,
                if compose_text(before).len() == 0 || before.selected_contact() is None {
                    Seq::<EffectView>::empty()
                } else {
                    seq![
                        EffectView::Send(
                            BackendMessageView::SendMessage {
                                contact_id: before.selected_contact()->Some_0.id,
                                content: ContentData::Text {
                                    text: compose_text(before),
                                    attachments: before.compose.attachments_spec(),
                                },
                                quote: before.compose.quote_spec(),
                            },
                        ),
                    ]
                },
            )
    }

    fn execute(&self, tui_state: &mut TuiState, outbox: &mut Vec<Effect>) -> (res: Result<CommandSuccess, Error>)
    {
        let lines = tui_state.compose.lines();
        let joined = join_strings(lines.as_slice(), "\n");
        let message_body = trim_of(joined.as_str());
        let quoting = match tui_state.compose.quote() {
            Some(q) => Some(
                crate::backends::Quote { timestamp: q.timestamp, sender: copy_bytes(&q.sender), text: owned(q.text.as_str()) },
            ),
            None => None,
        };
        let attachments = copy_attachments(tui_state.compose.attachments());
        let ghost s = *tui_state;
        tui_state.compose.clear();
        let ghost mid = *tui_state;
        NormalMode::enter(tui_state);
        if chars_of(message_body.as_str()).len() == 0 {
            assert(pushed(old(outbox)@, outbox@, Seq::<EffectView>::empty()));
            return Ok(CommandSuccess::Nothing);
        }
        match tui_state.contacts.selected() {
            Some(contact) => {
                let id = contact.id.duplicate();
                push_effect(
                    outbox,
                    Effect::Send(
                        BackendMessage::SendMessage {
                            contact_id: id,
                            content: MessageContent::Text { text: message_body, attachments },
                            quote: quoting,
                        },
                    ),
                );
            },
            None => {
                assert(pushed(old(outbox)@, outbox@, Seq::<EffectView>::empty()));
            },
        }
        Ok(CommandSuccess::Nothing)
    }

    /// What reading the arguments does.
    open spec fn parsed(&self, after: Self, args: Seq<Seq<char>>, res: Result<(), Error>) -> bool {
        &&& unit_result(res) == unused_result(args)
    }

    fn parse(&mut self, args: Arguments) -> (res: Result<(), Error>)
    {
        check_unused_args(args)
    }

    fn default() -> Self {
        SendMessage
    }

    fn names(&self) -> (res: Vec<&'static str>)
        ensures
            only_name(res@, "send-message"@),
    {
        vec!["send-message"]
    }

    fn complete(&self, tui_state: &TuiState, args: &str) -> (res: Vec<Completion>)
        ensures
            res@.len() == 0,
    {
        Vec::new()
    }
}

/// The emoji that a shortcode such as `thumbsup` names.
pub uninterp spec fn shortcode_emoji(code: Seq<char>) -> Option<Seq<char>>;

/// `emojis::get_by_shortcode`, then `Emoji::as_str`.
#[verifier::external_body]
fn emoji_for_shortcode(code: &str) -> (res: Option<String>)
    ensures
        match res {
            Some(e) => shortcode_emoji(code@) == Some(e@),
            None => shortcode_emoji(code@) is None,
        },
{
    emojis::get_by_shortcode(code).map(|e| e.as_str().to_owned())
}

/// The shortcodes of all emojis (`emojis::iter` then `Emoji::shortcodes`),
/// in the crate's order. Which they are is not stated here.
#[verifier::external_body]
fn emoji_shortcodes() -> (res: Vec<String>) {
    emojis::iter().flat_map(|e| e.shortcodes()).map(|s| s.to_owned()).collect()
}

/// A reaction to a message, as the backend is asked to send it.
pub open spec fn reaction_request(
    contact: ContactIdView,
    author: Seq<u8>,
    timestamp: u64,
    reaction: Seq<char>,
    remove: bool,
) -> EffectView {
    EffectView::Send(
        BackendMessageView::SendMessage {
            contact_id: contact,
            content: ContentData::Reaction { message_author: author, timestamp, reaction, remove },
            quote: None,
        },
    )
}

/// Reacts to the selected message with the emoji of a shortcode.
#[derive(Debug)]
pub struct React {
    emoji: String,
}

impl React {
    /// The shortcode of the emoji.
    pub closed spec fn emoji_spec(&self) -> Seq<char> {
        self.emoji@
    }
}

impl Command for React {
    open spec fn runs_in(&self, s: TuiState) -> bool {
        true
    }

    fn can_run(&self, s: &TuiState) -> (res: bool) {
        true
    }

    /// What running the command does.
    open spec fn executed(
        &self,
        before: TuiState,
        after: TuiState,
        effects_before: Seq<Effect>,
        effects_after: Seq<Effect>,
        res: Result<CommandSuccess, Error>,
    ) -> bool {
        &&& after == before
        &&& match (shortcode_emoji(self.emoji_spec()), before.selected_contact(), before.selected_message()) {
                (None, _, _) => run_result(res) == Err::<CommandSuccess, ErrorView>(
                    ErrorView::InvalidArgument { arg: "emoji"@, value: self.emoji_spec() },
                ) && effects_after == effects_before,
                (Some(_), None, _) => run_result(res) == Err::<CommandSuccess, ErrorView>(
                    ErrorView::NoContactSelected,
                ) && effects_after == effects_before,
                (Some(_), Some(_), None) => run_result(res) == Err::<CommandSuccess, ErrorView>(
                    ErrorView::NoMessageSelected,
                ) && effects_after == effects_before,
                (Some(e), Some(c), Some(m)) => res == Ok::<CommandSuccess, Error>(CommandSuccess::Nothing) && pushed(
                    effects_before,
                    effects_after,
                    seq![reaction_request(c.id, m.sender, m.timestamp, e, false)],
                ),
            }
    }

    fn execute(&self, tui_state: &mut TuiState, outbox: &mut Vec<Effect>) -> (res: Result<CommandSuccess, Error>)
    {
        let e = match emoji_for_shortcode(self.emoji.as_str()) {
            Some(e) => e,
            None => {
                return Err(Error::InvalidArgument { arg: owned("emoji"), value: owned(self.emoji.as_str()) });
            },
        };
        let contact = match tui_state.contacts.selected() {
            Some(c) => c,
            None => {
                return Err(Error::NoContactSelected);
            },
        };
        let selected_message = match tui_state.messages.selected() {
            Some(m) => m,
            None => {
                return Err(Error::NoMessageSelected);
            },
        };
        push_effect(
            outbox,
            Effect::Send(
                BackendMessage::SendMessage {
                    contact_id: contact.id.duplicate(),
                    content: MessageContent::Reaction {
                        message_author: copy_bytes(&selected_message.sender),
                        timestamp: selected_message.timestamp,
                        reaction: e,
                        remove: false,
                    },
                    quote: None,
                },
            ),
        );
        Ok(CommandSuccess::Nothing)
    }

    /// What reading the arguments does.
    open spec fn parsed(&self, after: Self, args: Seq<Seq<char>>, res: Result<(), Error>) -> bool {
        &&& ({
                let items = args;
                if items.len() > 0 {
                    after.emoji_spec() == items[0] && unit_result(res) == unused_result(items.drop_first())
                } else {
                    after == *self && unit_result(res) == Err::<(), ErrorView>(
                        ErrorView::MissingArgument("emoji"@),
                    )
                }
            })
    }

    fn parse(&mut self, args: Arguments) -> (res: Result<(), Error>)
    {
        let mut args = args;
        match arguments_next_free(&mut args) {
            Some(emoji) => {
                *self = React { emoji };
                check_unused_args(args)
            },
            None => Err(Error::MissingArgument(owned("emoji"))),
        }
    }

    fn default() -> (res: Self)
        ensures
            res.emoji_spec().len() == 0,
    {
        React { emoji: String::new() }
    }

    fn names(&self) -> (res: Vec<&'static str>)
        ensures
            only_name(res@, "react"@),
    {
        vec!["react"]
    }

    /// The completions of the last word among the shortcodes of all emojis
    /// (see [`completions_from`]).
    fn complete(&self, tui_state: &TuiState, args: &str) -> (res: Vec<Completion>)
        ensures
            exists|codes: Seq<Seq<char>>|
                #![trigger completions_from(last_shell_part(args@), codes)]
                completion_views(res@) == completions_from(last_shell_part(args@), codes),
    {
        let candidates = emoji_shortcodes();
        let res = complete_from_list(args, candidates.as_slice());
        assert(completion_views(res@) == completions_from(last_shell_part(args@), texts(candidates@)));
        res
    }
}

/// The emoji of the first reaction by `author`, if any.
pub open spec fn own_reaction(rs: Seq<ReactionView>, author: Seq<u8>) -> Option<Seq<char>> {
    if exists|i: int| 0 <= i < rs.len() && rs[i].author == author {
        Some(
            rs[choose|i: int|
                0 <= i < rs.len() && rs[i].author == author && forall|j: int| 0 <= j < i ==> rs[j].author != author].emoji,
        )
    } else {
        None
    }
}

/// Takes back one's own reaction to the selected message.
#[derive(Debug)]
pub struct Unreact;

impl Command for Unreact {
    open spec fn runs_in(&self, s: TuiState) -> bool {
        true
    }

    fn can_run(&self, s: &TuiState) -> (res: bool) {
        true
    }

    /// What running the command does.
    open spec fn executed(
        &self,
        before: TuiState,
        after: TuiState,
        effects_before: Seq<Effect>,
        effects_after: Seq<Effect>,
        res: Result<CommandSuccess, Error>,
    ) -> bool {
        &&& after == before
        &&& match (before.selected_contact(), before.selected_message()) {
                (None, _) => run_result(res) == Err::<CommandSuccess, ErrorView>(ErrorView::NoContactSelected)
                    && effects_after == effects_before,
                (Some(_), None) => run_result(res) == Err::<CommandSuccess, ErrorView>(
                    ErrorView::NoMessageSelected,
                ) && effects_after == effects_before,
                (Some(c), Some(m)) => res == Ok::<CommandSuccess, Error>(CommandSuccess::Nothing) && match own_reaction(
                    m.reactions,
                    before.self_id@,
                ) {
                    Some(e) => pushed(
                        effects_before,
                        effects_after,
                        seq![reaction_request(c.id, m.sender, m.timestamp, e, true)],
                    ),
                    None => effects_after == effects_before,
                },
            }
    }

    fn execute(&self, tui_state: &mut TuiState, outbox: &mut Vec<Effect>) -> (res: Result<CommandSuccess, Error>)
    {
        let contact = match tui_state.contacts.selected() {
            Some(c) => c,
            None => {
                return Err(Error::NoContactSelected);
            },
        };
        let selected_message = match tui_state.messages.selected() {
            Some(m) => m,
            None => {
                return Err(Error::NoMessageSelected);
            },
        };
        let ghost rs = crate::tui::messages::reactions_view(selected_message.reactions@);
        let ghost me = tui_state.self_id@;
        let mut p: usize = 0;
        while p < selected_message.reactions.len()
            && !crate::backends::bytes_eq(&selected_message.reactions[p].author, &tui_state.self_id)
            invariant
                p <= selected_message.reactions.len(),
                rs == crate::tui::messages::reactions_view(selected_message.reactions@),
                me == tui_state.self_id@,
                forall|j: int| 0 <= j < p ==> rs[j].author != me,
            decreases selected_message.reactions.len() - p,
        {
            assert(rs[p as int] == selected_message.reactions@[p as int]@);
            p = p + 1;
        }
        if p == selected_message.reactions.len() {
            return Ok(CommandSuccess::Nothing);
        }
        assert(rs[p as int] == selected_message.reactions@[p as int]@);
        proof {
            let k = choose|i: int|
                0 <= i < rs.len() && rs[i].author == me && forall|j: int| 0 <= j < i ==> rs[j].author != me;
            if k < p {
            } else if k > p {
            }
        }
        let reaction = owned(selected_message.reactions[p].emoji.as_str());
        push_effect(
            outbox,
            Effect::Send(
                BackendMessage::SendMessage {
                    contact_id: contact.id.duplicate(),
                    content: MessageContent::Reaction {
                        message_author: copy_bytes(&selected_message.sender),
                        timestamp: selected_message.timestamp,
                        reaction,
                        remove: true,
                    },
                    quote: None,
                },
            ),
        );
        Ok(CommandSuccess::Nothing)
    }

    /// What reading the arguments does.
    open spec fn parsed(&self, after: Self, args: Seq<Seq<char>>, res: Result<(), Error>) -> bool {
        &&& unit_result(res) == unused_result(args)
    }

    fn parse(&mut self, args: Arguments) -> (res: Result<(), Error>)
    {
        check_unused_args(args)
    }

    fn default() -> Self {
        Unreact
    }

    fn names(&self) -> (res: Vec<&'static str>)
        ensures
            only_name(res@, "unreact"@),
    {
        vec!["unreact"]
    }

    fn complete(&self, tui_state: &TuiState, args: &str) -> (res: Vec<Completion>)
        ensures
            res@.len() == 0,
    {
        Vec::new()
    }
}

/// Replies to the selected message: it becomes the quote of the compose box.
#[derive(Debug)]
pub struct Reply;

impl Command for Reply {
    open spec fn runs_in(&self, s: TuiState) -> bool {
        true
    }

    fn can_run(&self, s: &TuiState) -> (res: bool) {
        true
    }

    /// What running the command does.
    open spec fn executed(
        &self,
        before: TuiState,
        after: TuiState,
        effects_before: Seq<Effect>,
        effects_after: Seq<Effect>,
        res: Result<CommandSuccess, Error>,
    ) -> bool {
        &&& effects_after == effects_before
        &&& match before.selected_message() {
                None => run_result(res) == Err::<CommandSuccess, ErrorView>(ErrorView::NoMessageSelected)
                    && after == before,
                Some(m) => res == Ok::<CommandSuccess, Error>(CommandSuccess::Nothing) && after == (TuiState {
                    compose: after.compose,
                    ..before
                }) && after.compose.quote_spec() == Some(
                    QuoteData { timestamp: m.timestamp, sender: m.sender, text: m.content },
                ) && after.compose.text_lines() == before.compose.text_lines()
                    && after.compose.cursor() == before.compose.cursor()
                    && after.compose.attachments_spec() == before.compose.attachments_spec(),
            }
    }

    fn execute(&self, tui_state: &mut TuiState, outbox: &mut Vec<Effect>) -> (res: Result<CommandSuccess, Error>)
    {
        let quote = match tui_state.messages.selected() {
            Some(m) => Quote { sender: copy_bytes(&m.sender), timestamp: m.timestamp, text: owned(m.content.as_str()) },
            None => {
                return Err(Error::NoMessageSelected);
            },
        };
        tui_state.compose.set_quote(quote);
        Ok(CommandSuccess::Nothing)
    }

    /// What reading the arguments does.
    open spec fn parsed(&self, after: Self, args: Seq<Seq<char>>, res: Result<(), Error>) -> bool {
        &&& unit_result(res) == unused_result(args)
    }

    fn parse(&mut self, args: Arguments) -> (res: Result<(), Error>)
    {
        check_unused_args(args)
    }

    fn default() -> Self {
        Reply
    }

    fn names(&self) -> (res: Vec<&'static str>)
        ensures
            only_name(res@, "reply"@),
    {
        vec!["reply"]
    }

    fn complete(&self, tui_state: &TuiState, args: &str) -> (res: Vec<Completion>)
        ensures
            res@.len() == 0,
    {
        Vec::new()
    }
}

/// Sends the selected message's text and attachments to the contact with
/// the name.
#[derive(Debug)]
pub struct Forward {
    contact_name: String,
}

impl Forward {
    /// The name of the contact to forward to.
    pub closed spec fn contact_name_spec(&self) -> Seq<char> {
        self.contact_name@
    }
}

/// The candidates to complete a forward: the names, quoted as shell words,
/// of the contacts whose names start with the text.
pub open spec fn forward_candidates(s: TuiState, typed: Seq<char>) -> Seq<Seq<char>> {
    s.contacts.view_seq().filter(|c: crate::backends::ContactView| is_prefix(typed, c.name)).map_values(
        |c: crate::backends::ContactView| shell_quoted(c.name),
    )
}

impl Command for Forward {
    open spec fn runs_in(&self, s: TuiState) -> bool {
        true
    }

    fn can_run(&self, s: &TuiState) -> (res: bool) {
        true
    }

    /// What running the command does.
    open spec fn executed(
        &self,
        before: TuiState,
        after: TuiState,
        effects_before: Seq<Effect>,
        effects_after: Seq<Effect>,
        res: Result<CommandSuccess, Error>,
    ) -> bool {
        &&& after == before
        &&& match (
                first_index(before.contacts.view_seq(), has_name(self.contact_name_spec())),
                before.selected_message(),
            ) {
                (None, _) => run_result(res) == Err::<CommandSuccess, ErrorView>(
                    ErrorView::InvalidArgument { arg: "contact"@, value: self.contact_name_spec() },
                ) && effects_after == effects_before,
                (Some(_), None) => run_result(res) == Err::<CommandSuccess, ErrorView>(
                    ErrorView::NoMessageSelected,
                ) && effects_after == effects_before,
                (Some(i), Some(m)) => res == Ok::<CommandSuccess, Error>(CommandSuccess::Nothing) && pushed(
                    effects_before,
                    effects_after,
                    seq![
                        EffectView::Send(
                            BackendMessageView::SendMessage {
                                contact_id: before.contacts.view_seq()[i].id,
                                content: ContentData::Text { text: m.content, attachments: m.attachments },
                                quote: None,
                            },
                        ),
                    ],
                ),
            }
    }

    fn execute(&self, tui_state: &mut TuiState, outbox: &mut Vec<Effect>) -> (res: Result<CommandSuccess, Error>)
    {
        let contact = match tui_state.contacts.contact_or_group_by_name(self.contact_name.as_str()) {
            Some(c) => c,
            None => {
                return Err(
                    Error::InvalidArgument { arg: owned("contact"), value: owned(self.contact_name.as_str()) },
                );
            },
        };
        let selected_message = match tui_state.messages.selected() {
            Some(m) => m,
            None => {
                return Err(Error::NoMessageSelected);
            },
        };
        push_effect(
            outbox,
            Effect::Send(
                BackendMessage::SendMessage {
                    contact_id: contact.id.duplicate(),
                    content: MessageContent::Text {
                        text: owned(selected_message.content.as_str()),
                        attachments: copy_attachments(selected_message.attachments.as_slice()),
                    },
                    quote: None,
                },
            ),
        );
        Ok(CommandSuccess::Nothing)
    }

    /// What reading the arguments does.
    open spec fn parsed(&self, after: Self, args: Seq<Seq<char>>, res: Result<(), Error>) -> bool {
        &&& ({
                let items = args;
                if items.len() > 0 {
                    after.contact_name_spec() == items[0] && unit_result(res) == unused_result(
                        items.drop_first(),
                    )
                } else {
                    after == *self && unit_result(res) == Err::<(), ErrorView>(
                        ErrorView::MissingArgument("contact"@),
                    )
                }
            })
    }

    fn parse(&mut self, args: Arguments) -> (res: Result<(), Error>)
    {
        let mut args = args;
        match arguments_next_free(&mut args) {
            Some(contact_name) => {
                *self = Forward { contact_name };
                check_unused_args(args)
            },
            None => Err(Error::MissingArgument(owned("contact"))),
        }
    }

    fn default() -> (res: Self)
        ensures
            res.contact_name_spec().len() == 0,
    {
        Forward { contact_name: String::new() }
    }

    fn names(&self) -> (res: Vec<&'static str>)
        ensures
            only_name(res@, "forward"@),
    {
        vec!["forward"]
    }

    /// Completes from the contacts whose names start with the whole text
    /// given.
    fn complete(&self, tui_state: &TuiState, args: &str) -> (res: Vec<Completion>)
        ensures
            completion_views(res@) == completions_from(
                last_shell_part(args@),
                forward_candidates(*tui_state, args@),
            ),
    {
        let contacts = tui_state.contacts.iter_contacts_and_groups();
        let ghost v = tui_state.contacts.view_seq();
        let ghost p = |c: crate::backends::ContactView| is_prefix(args@, c.name);
        let ghost f = |c: crate::backends::ContactView| shell_quoted(c.name);
        let mut candidates: Vec<String> = Vec::new();
        let mut i: usize = 0;
        while i < contacts.len()
            invariant
                i <= contacts.len(),
                crate::tui::contacts::contact_views(contacts@) == v,
                p == (|c: crate::backends::ContactView| is_prefix(args@, c.name)),
                f == (|c: crate::backends::ContactView| shell_quoted(c.name)),
                texts(candidates@) == v.take(i as int).filter(p).map_values(f),
            decreases contacts.len() - i,
        {
            assert(v[i as int] == contacts@[i as int]@);
            assert(v.take(i + 1).drop_last() =~= v.take(i as int));
            let ghost prev = candidates@;
            if starts_with(contacts[i].name.as_str(), args) {
                candidates.push(shell_quote(contacts[i].name.as_str()));
                proof {
                    crate::text::lemma_texts_push(prev, candidates@.last());
                }
            }
            proof {
                v.take(i as int).lemma_filter_push(v[i as int], p);
                assert(v.take(i + 1) =~= v.take(i as int).push(v[i as int]));
            }
            i = i + 1;
            assert(texts(candidates@) =~= v.take(i as int).filter(p).map_values(f));
        }
        assert(v.take(contacts.len() as int) =~= v);
        complete_from_list(args, candidates.as_slice())
    }
}

/// Selects the message that the selected message quotes.
#[derive(Debug)]
pub struct GotoQuoted;

impl Command for GotoQuoted {
    open spec fn runs_in(&self, s: TuiState) -> bool {
        true
    }

    fn can_run(&self, s: &TuiState) -> (res: bool) {
        true
    }

    /// What running the command does.
    open spec fn executed(
        &self,
        before: TuiState,
        after: TuiState,
        effects_before: Seq<Effect>,
        effects_after: Seq<Effect>,
        res: Result<CommandSuccess, Error>,
    ) -> bool {
        &&& effects_after == effects_before
        &&& match before.selected_message() {
                None => run_result(res) == Err::<CommandSuccess, ErrorView>(ErrorView::NoMessageSelected)
                    && after == before,
                Some(m) => match m.quote {
                    None => run_result(res) == Err::<CommandSuccess, ErrorView>(
                        ErrorView::Failure("No quote to follow"@),
                    ) && after == before,
                    Some(q) => res == Ok::<CommandSuccess, Error>(CommandSuccess::Nothing) && after == (
                    TuiState { messages: after.messages, ..before })
                        && after.messages.view_seq() == before.messages.view_seq()
                        && after.messages.list_state().offset_spec() == before.messages.list_state().offset_spec() && after.messages.list_state().selected_spec()
                        == if crate::tui::messages::has_timestamp(before.messages.view_seq(), q.timestamp) {
                        Some(
                            crate::tui::messages::index_of_timestamp(
                                before.messages.view_seq(),
                                q.timestamp,
                            ) as usize,
                        )
                    } else {
                        before.messages.list_state().selected_spec()
                    },
                },
            }
    }

    fn execute(&self, tui_state: &mut TuiState, outbox: &mut Vec<Effect>) -> (res: Result<CommandSuccess, Error>)
    {
        let timestamp = match tui_state.messages.selected() {
            Some(message) => match &message.quote {
                Some(quoted) => quoted.timestamp,
                None => {
                    return Err(Error::Failure(owned("No quote to follow")));
                },
            },
            None => {
                return Err(Error::NoMessageSelected);
            },
        };
        tui_state.messages.select_message(timestamp);
        Ok(CommandSuccess::Nothing)
    }

    /// What reading the arguments does.
    open spec fn parsed(&self, after: Self, args: Seq<Seq<char>>, res: Result<(), Error>) -> bool {
        &&& unit_result(res) == unused_result(args)
    }

    fn parse(&mut self, args: Arguments) -> (res: Result<(), Error>)
    {
        check_unused_args(args)
    }

    fn default() -> Self {
        GotoQuoted
    }

    fn names(&self) -> (res: Vec<&'static str>)
        ensures
            only_name(res@, "goto-quoted"@),
    {
        vec!["goto-quoted"]
    }

    fn complete(&self, tui_state: &TuiState, args: &str) -> (res: Vec<Completion>)
        ensures
            res@.len() == 0,
    {
        Vec::new()
    }
}

/// Runs a shell command with the selected message's text on its input.
#[derive(Debug)]
pub struct PipeMessage {
    command: String,
}

impl PipeMessage {
    /// The shell command.
    pub closed spec fn command_spec(&self) -> Seq<char> {
        self.command@
    }
}

impl Command for PipeMessage {
    open spec fn runs_in(&self, s: TuiState) -> bool {
        true
    }

    fn can_run(&self, s: &TuiState) -> (res: bool) {
        true
    }

    /// What running the command does.
    open spec fn executed(
        &self,
        before: TuiState,
        after: TuiState,
        effects_before: Seq<Effect>,
        effects_after: Seq<Effect>,
        res: Result<CommandSuccess, Error>,
    ) -> bool {
        &&& after == before
        &&& match before.selected_message() {
                None => run_result(res) == Err::<CommandSuccess, ErrorView>(ErrorView::NoMessageSelected)
                    && effects_after == effects_before,
                Some(m) => res == Ok::<CommandSuccess, Error>(CommandSuccess::Nothing) && pushed(
                    effects_before,
                    effects_after,
                    seq![EffectView::PipeMessage { command: self.command_spec(), content: m.content }],
                ),
            }
    }

    fn execute(&self, tui_state: &mut TuiState, outbox: &mut Vec<Effect>) -> (res: Result<CommandSuccess, Error>)
    {
        let content = match tui_state.messages.selected() {
            Some(m) => owned(m.content.as_str()),
            None => {
                return Err(Error::NoMessageSelected);
            },
        };
        push_effect(outbox, Effect::PipeMessage { command: owned(self.command.as_str()), content });
        Ok(CommandSuccess::Nothing)
    }

    /// The command is all the arguments, joined by spaces.
    open spec fn parsed(&self, after: Self, args: Seq<Seq<char>>, res: Result<(), Error>) -> bool {
        &&& res is Ok
        &&& after.command_spec() == join(args, " "@)
    }

    fn parse(&mut self, args: Arguments) -> (res: Result<(), Error>)
    {
        let words = crate::commands::arguments_finish(args);
        self.command = join_strings(words.as_slice(), " ");
        Ok(())
    }

    fn default() -> (res: Self)
        ensures
            res.command_spec().len() == 0,
    {
        PipeMessage { command: String::new() }
    }

    fn names(&self) -> (res: Vec<&'static str>)
        ensures
            only_name(res@, "pipe-message"@),
    {
        vec!["pipe-message"]
    }

    fn complete(&self, tui_state: &TuiState, args: &str) -> (res: Vec<Completion>)
        ensures
            res@.len() == 0,
    {
        Vec::new()
    }
}

/// Forgets the contacts and asks the backend for them again.
#[derive(Debug)]
pub struct ReloadContacts;

impl Command for ReloadContacts {
    open spec fn runs_in(&self, s: TuiState) -> bool {
        true
    }

    fn can_run(&self, s: &TuiState) -> (res: bool) {
        true
    }

    /// What running the command does.
    open spec fn executed(
        &self,
        before: TuiState,
        after: TuiState,
        effects_before: Seq<Effect>,
        effects_after: Seq<Effect>,
        res: Result<CommandSuccess, Error>,
    ) -> bool {
        &&& res == Ok::<CommandSuccess, Error>(CommandSuccess::Nothing)
        &&& after == (TuiState { contacts: after.contacts, ..before })
        &&& after.contacts.view_seq().len() == 0
        &&& after.contacts.user_entries().len() == 0
        &&& after.contacts.table_state().selected_spec() is None
        &&& after.contacts.table_state().offset_spec() == 0
        &&& pushed(effects_before, effects_after, seq![EffectView::Send(BackendMessageView::LoadContacts)])
    }

    fn execute(&self, tui_state: &mut TuiState, outbox: &mut Vec<Effect>) -> (res: Result<CommandSuccess, Error>)
    {
        tui_state.contacts.clear();
        tui_state.contacts.select(None);
        push_effect(outbox, Effect::Send(BackendMessage::LoadContacts));
        Ok(CommandSuccess::Nothing)
    }

    /// What reading the arguments does.
    open spec fn parsed(&self, after: Self, args: Seq<Seq<char>>, res: Result<(), Error>) -> bool {
        &&& unit_result(res) == unused_result(args)
    }

    fn parse(&mut self, args: Arguments) -> (res: Result<(), Error>)
    {
        check_unused_args(args)
    }

    fn default() -> Self {
        ReloadContacts
    }

    fn names(&self) -> (res: Vec<&'static str>)
        ensures
            only_name(res@, "reload-contacts"@),
    {
        vec!["reload-contacts"]
    }

    fn complete(&self, tui_state: &TuiState, args: &str) -> (res: Vec<Completion>)
        ensures
            res@.len() == 0,
    {
        Vec::new()
    }
}

/// Forgets the messages and asks the backend for those of the selected
/// contact again.
#[derive(Debug)]
pub struct ReloadMessages;

impl Command for ReloadMessages {
    open spec fn runs_in(&self, s: TuiState) -> bool {
        true
    }

    fn can_run(&self, s: &TuiState) -> (res: bool) {
        true
    }

    /// What running the command does.
    open spec fn executed(
        &self,
        before: TuiState,
        after: TuiState,
        effects_before: Seq<Effect>,
        effects_after: Seq<Effect>,
        res: Result<CommandSuccess, Error>,
    ) -> bool {
        &&& res == Ok::<CommandSuccess, Error>(CommandSuccess::Nothing)
        &&& after == (TuiState { messages: after.messages, ..before })
        &&& after.messages.view_seq().len() == 0
        &&& after.messages.list_state().selected_spec() is None
        &&& after.messages.list_state().offset_spec() == before.messages.list_state().offset_spec()
        &&& pushed(
                effects_before,
                effects_after,
                match before.selected_contact() {
                    Some(c) => seq![load_messages(c.id)],
                    None => Seq::<EffectView>::empty(),
                },
            )
    }

    fn execute(&self, tui_state: &mut TuiState, outbox: &mut Vec<Effect>) -> (res: Result<CommandSuccess, Error>)
    {
        tui_state.messages.clear();
        tui_state.messages.select(None);
        match tui_state.contacts.selected() {
            Some(contact) => {
                push_effect(
                    outbox,
                    Effect::Send(
                        BackendMessage::LoadMessages {
                            contact_id: contact.id.duplicate(),
                            start_ts: TimestampBound::Unbounded,
                            end_ts: TimestampBound::Unbounded,
                        },
                    ),
                );
            },
            None => {
                assert(pushed(old(outbox)@, outbox@, Seq::<EffectView>::empty()));
            },
        }
        Ok(CommandSuccess::Nothing)
    }

    /// What reading the arguments does.
    open spec fn parsed(&self, after: Self, args: Seq<Seq<char>>, res: Result<(), Error>) -> bool {
        &&& unit_result(res) == unused_result(args)
    }

    fn parse(&mut self, args: Arguments) -> (res: Result<(), Error>)
    {
        check_unused_args(args)
    }

    fn default() -> Self {
        ReloadMessages
    }

    fn names(&self) -> (res: Vec<&'static str>)
        ensures
            only_name(res@, "reload-messages"@),
    {
        vec!["reload-messages"]
    }

    fn complete(&self, tui_state: &TuiState, args: &str) -> (res: Vec<Completion>)
        ensures
            res@.len() == 0,
    {
        Vec::new()
    }
}

/// The text with each space replaced by an underscore.
pub open spec fn underscored(s: Seq<char>) -> Seq<char> {
    Seq::new(s.len(), |i: int| if s[i] == ' ' { '_' } else { s[i] })
}

/// Edits the compose box in the user's editor; the screen is drawn anew
/// afterwards.
#[derive(Debug)]
pub struct ComposeInEditor;

impl Command for ComposeInEditor {
    open spec fn runs_in(&self, s: TuiState) -> bool {
        true
    }

    fn can_run(&self, s: &TuiState) -> (res: bool) {
        true
    }

    /// What running the command does.
    open spec fn executed(
        &self,
        before: TuiState,
        after: TuiState,
        effects_before: Seq<Effect>,
        effects_after: Seq<Effect>,
        res: Result<CommandSuccess, Error>,
    ) -> bool {
        &&& after == before
        &&& match before.selected_contact() {
                None => run_result(res) == Err::<CommandSuccess, ErrorView>(ErrorView::NoContactSelected)
                    && effects_after == effects_before,
                Some(c) => res == Ok::<CommandSuccess, Error>(CommandSuccess::Clear) && pushed(
                    effects_before,
                    effects_after,
                    seq![
                        EffectView::EditInEditor {
                            file_prefix: "chatters-"@ + underscored(c.name) + "-"@,
                            content: join(before.compose.text_lines(), "\n"@),
                        },
                    ],
                ),
            }
    }

    fn execute(&self, tui_state: &mut TuiState, outbox: &mut Vec<Effect>) -> (res: Result<CommandSuccess, Error>)
    {
        let name = match tui_state.contacts.selected() {
            Some(contact) => chars_of(contact.name.as_str()),
            None => {
                return Err(Error::NoContactSelected);
            },
        };
        let mut file_prefix = owned("chatters-");
        let ghost start = file_prefix@;
        let mut i: usize = 0;
        while i < name.len()
            invariant
                i <= name.len(),
                file_prefix@ == start + underscored(name@).take(i as int),
            decreases name.len() - i,
        {
            if name[i] == ' ' {
                push_char(&mut file_prefix, '_');
            } else {
                push_char(&mut file_prefix, name[i]);
            }
            i = i + 1;
            assert(file_prefix@ =~= start + underscored(name@).take(i as int));
        }
        assert(underscored(name@).take(name.len() as int) =~= underscored(name@));
        push_str(&mut file_prefix, "-");
        let lines = tui_state.compose.lines();
        let content = join_strings(lines.as_slice(), "\n");
        push_effect(outbox, Effect::EditInEditor { file_prefix, content });
        Ok(CommandSuccess::Clear)
    }

    /// What reading the arguments does.
    open spec fn parsed(&self, after: Self, args: Seq<Seq<char>>, res: Result<(), Error>) -> bool {
        &&& unit_result(res) == unused_result(args)
    }

    fn parse(&mut self, args: Arguments) -> (res: Result<(), Error>)
    {
        check_unused_args(args)
    }

    fn default() -> Self {
        ComposeInEditor
    }

    fn names(&self) -> (res: Vec<&'static str>)
        ensures
            only_name(res@, "compose-in-editor"@),
    {
        vec!["compose-in-editor"]
    }

    fn complete(&self, tui_state: &TuiState, args: &str) -> (res: Vec<Completion>)
        ensures
            res@.len() == 0,
    {
        Vec::new()
    }
}

/// Empties the compose box.
#[derive(Debug)]
pub struct ClearCompose;

impl Command for ClearCompose {
    open spec fn runs_in(&self, s: TuiState) -> bool {
        true
    }

    fn can_run(&self, s: &TuiState) -> (res: bool) {
        true
    }

    /// What running the command does.
    open spec fn executed(
        &self,
        before: TuiState,
        after: TuiState,
        effects_before: Seq<Effect>,
        effects_after: Seq<Effect>,
        res: Result<CommandSuccess, Error>,
    ) -> bool {
        &&& res == Ok::<CommandSuccess, Error>(CommandSuccess::Nothing)
        &&& effects_after == effects_before
        &&& after == (TuiState { compose: after.compose, ..before })
        &&& after.compose.text_lines() == seq![Seq::<char>::empty()]
        &&& after.compose.cursor() == (0int, 0int)
        &&& after.compose.quote_spec() is None
        &&& after.compose.attachments_spec().len() == 0
    }

    fn execute(&self, tui_state: &mut TuiState, outbox: &mut Vec<Effect>) -> (res: Result<CommandSuccess, Error>)
    {
        tui_state.compose.clear();
        Ok(CommandSuccess::Nothing)
    }

    /// What reading the arguments does.
    open spec fn parsed(&self, after: Self, args: Seq<Seq<char>>, res: Result<(), Error>) -> bool {
        &&& unit_result(res) == unused_result(args)
    }

    fn parse(&mut self, args: Arguments) -> (res: Result<(), Error>)
    {
        check_unused_args(args)
    }

    fn default() -> Self {
        ClearCompose
    }

    fn names(&self) -> (res: Vec<&'static str>)
        ensures
            only_name(res@, "clear-compose"@),
    {
        vec!["clear-compose"]
    }

    fn complete(&self, tui_state: &TuiState, args: &str) -> (res: Vec<Completion>)
        ensures
            res@.len() == 0,
    {
        Vec::new()
    }
}

/// Reads the configuration file again.
#[derive(Debug)]
pub struct ReloadConfig;

impl Command for ReloadConfig {
    open spec fn runs_in(&self, s: TuiState) -> bool {
        true
    }

    fn can_run(&self, s: &TuiState) -> (res: bool) {
        true
    }

    /// What running the command does.
    open spec fn executed(
        &self,
        before: TuiState,
        after: TuiState,
        effects_before: Seq<Effect>,
        effects_after: Seq<Effect>,
        res: Result<CommandSuccess, Error>,
    ) -> bool {
        &&& res == Ok::<CommandSuccess, Error>(CommandSuccess::Nothing)
        &&& after == before
        &&& pushed(effects_before, effects_after, seq![EffectView::ReloadConfig { path: before.config_path@ }])
    }

    fn execute(&self, tui_state: &mut TuiState, outbox: &mut Vec<Effect>) -> (res: Result<CommandSuccess, Error>)
    {
        push_effect(outbox, Effect::ReloadConfig { path: owned(tui_state.config_path.as_str()) });
        Ok(CommandSuccess::Nothing)
    }

    /// What reading the arguments does.
    open spec fn parsed(&self, after: Self, args: Seq<Seq<char>>, res: Result<(), Error>) -> bool {
        &&& unit_result(res) == unused_result(args)
    }

    fn parse(&mut self, args: Arguments) -> (res: Result<(), Error>)
    {
        check_unused_args(args)
    }

    fn default() -> Self {
        ReloadConfig
    }

    fn names(&self) -> (res: Vec<&'static str>)
        ensures
            only_name(res@, "reload-config"@),
    {
        vec!["reload-config"]
    }

    fn complete(&self, tui_state: &TuiState, args: &str) -> (res: Vec<Completion>)
        ensures
            res@.len() == 0,
    {
        Vec::new()
    }
}

/// `t` is `s` with the command history moved to `selected` and the command
/// line showing the selected command, or empty without one.
pub open spec fn history_moved(s: TuiState, t: TuiState, selected: Option<nat>) -> bool {
    &&& t == TuiState { command_line: t.command_line, ..s }
    &&& t.command_line.history@.commands == s.command_line.history@.commands
    &&& match selected {
        Some(i) => {
            &&& t.command_line.history@.selected == Some(i)
            &&& t.command_line.text_lines() == seq![s.command_line.history@.commands[i as int]]
            &&& t.command_line.error == s.command_line.error
            &&& t.command_line.completions == s.command_line.completions
        },
        None => {
            &&& t.command_line.history@.selected is None
            &&& t.command_line.text_lines() == seq![Seq::<char>::empty()]
            &&& t.command_line.error@.len() == 0
            &&& t.command_line.completions.candidates@.len() == 0
            &&& t.command_line.completions.list_state.selected_spec() is None
            &&& t.command_line.completions.generated_for is None
        },
    }
}

/// Shows the selected command of the history on the command line, or
/// empties it.
fn show_history_selection(tui_state: &mut TuiState)
    requires
        old(tui_state).wf(),
    ensures
        final(tui_state).wf(),
        history_moved(*old(tui_state), *final(tui_state), old(tui_state).command_line.history@.selected),
{
    let selected = match tui_state.command_line.history.selected_command() {
        Some(c) => Some(owned(c.as_str())),
        None => None,
    };
    match selected {
        Some(c) => {
            let ghost h = tui_state.command_line.history;
            tui_state.command_line.set_text(c);
            assert(tui_state.command_line.history == h);
        },
        None => {
            tui_state.command_line.clear();
        },
    }
}

/// Shows the previous command of the history on the command line.
#[derive(Debug)]
pub struct PrevCommand;

impl Command for PrevCommand {
    open spec fn runs_in(&self, s: TuiState) -> bool {
        true
    }

    fn can_run(&self, s: &TuiState) -> (res: bool) {
        true
    }

    /// What running the command does.
    open spec fn executed(
        &self,
        before: TuiState,
        after: TuiState,
        effects_before: Seq<Effect>,
        effects_after: Seq<Effect>,
        res: Result<CommandSuccess, Error>,
    ) -> bool {
        &&& res == Ok::<CommandSuccess, Error>(CommandSuccess::Nothing)
        &&& effects_after == effects_before
        &&& history_moved(
                before,
                after,
                crate::command_history::previous_selection(before.command_line.history@),
            )
    }

    fn execute(&self, tui_state: &mut TuiState, outbox: &mut Vec<Effect>) -> (res: Result<CommandSuccess, Error>)
    {
        tui_state.command_line.history.select_previous();
        show_history_selection(tui_state);
        Ok(CommandSuccess::Nothing)
    }

    /// What reading the arguments does.
    open spec fn parsed(&self, after: Self, args: Seq<Seq<char>>, res: Result<(), Error>) -> bool {
        &&& unit_result(res) == unused_result(args)
    }

    fn parse(&mut self, args: Arguments) -> (res: Result<(), Error>)
    {
        check_unused_args(args)
    }

    fn default() -> Self {
        PrevCommand
    }

    fn names(&self) -> (res: Vec<&'static str>)
        ensures
            only_name(res@, "prev-command"@),
    {
        vec!["prev-command"]
    }

    fn complete(&self, tui_state: &TuiState, args: &str) -> (res: Vec<Completion>)
        ensures
            res@.len() == 0,
    {
        Vec::new()
    }
}

/// Shows the next command of the history on the command line.
#[derive(Debug)]
pub struct NextCommand;

impl Command for NextCommand {
    open spec fn runs_in(&self, s: TuiState) -> bool {
        true
    }

    fn can_run(&self, s: &TuiState) -> (res: bool) {
        true
    }

    /// What running the command does.
    open spec fn executed(
        &self,
        before: TuiState,
        after: TuiState,
        effects_before: Seq<Effect>,
        effects_after: Seq<Effect>,
        res: Result<CommandSuccess, Error>,
    ) -> bool {
        &&& res == Ok::<CommandSuccess, Error>(CommandSuccess::Nothing)
        &&& effects_after == effects_before
        &&& history_moved(
                before,
                after,
                crate::command_history::next_selection(before.command_line.history@),
            )
    }

    fn execute(&self, tui_state: &mut TuiState, outbox: &mut Vec<Effect>) -> (res: Result<CommandSuccess, Error>)
    {
        tui_state.command_line.history.select_next();
        show_history_selection(tui_state);
        Ok(CommandSuccess::Nothing)
    }

    /// What reading the arguments does.
    open spec fn parsed(&self, after: Self, args: Seq<Seq<char>>, res: Result<(), Error>) -> bool {
        &&& unit_result(res) == unused_result(args)
    }

    fn parse(&mut self, args: Arguments) -> (res: Result<(), Error>)
    {
        check_unused_args(args)
    }

    fn default() -> Self {
        NextCommand
    }

    fn names(&self) -> (res: Vec<&'static str>)
        ensures
            only_name(res@, "next-command"@),
    {
        vec!["next-command"]
    }

    fn complete(&self, tui_state: &TuiState, args: &str) -> (res: Vec<Completion>)
        ensures
            res@.len() == 0,
    {
        Vec::new()
    }
}

} // verus!
