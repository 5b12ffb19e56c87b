//! Commands on the files and links of messages, and on the files attached
//! to the message being written.
use vstd::prelude::*;

use crate::backends::{AttachmentView, ContactIdView};
use crate::commands::{
    arguments_items, arguments_next_free, check_unused_args, complete_from_list, completion_views,
    completions_from, index_or_string, last_shell_part, only_name, push_effect, pushed, run_result, unit_result,
    unused_result, Command, CommandSuccess, Completion, Effect, EffectView, Error, ErrorView, IndexOrString,
    IndexOrStringView,
};
use crate::message::{BackendMessage, BackendMessageView};
use crate::text::{
    chars_of, decimal, decimal_string, owned, parse_unsigned, parse_usize, str_eq, string_of_range, texts,
};
use crate::tui::messages::MessageView;
use crate::tui::TuiState;
use pico_args::Arguments;

verus! {

/// The index of the first attachment with the name, if any.
pub open spec fn first_named(atts: Seq<AttachmentView>, name: Seq<char>) -> Option<int> {
    if exists|i: int| 0 <= i < atts.len() && atts[i].name == name {
        Some(choose|i: int| 0 <= i < atts.len() && atts[i].name == name && forall|j: int| 0 <= j < i ==> atts[j].name != name)
    } else {
        None
    }
}

/// The attachment that an item names: by its index, or the first with the
/// name.
pub open spec fn chosen_attachment(atts: Seq<AttachmentView>, item: IndexOrStringView) -> Option<AttachmentView> {
    match item {
        IndexOrStringView::Index(i) => if i < atts.len() {
            Some(atts[i as int])
        } else {
            None
        },
        IndexOrStringView::Str(name) => match first_named(atts, name) {
            Some(i) => Some(atts[i]),
            None => None,
        },
    }
}

/// Finds the attachment that an item names (see [`chosen_attachment`]).
fn find_attachment(atts: &[crate::backends::MessageAttachment], item: &IndexOrString) -> (res: Option<usize>)
    ensures
        match chosen_attachment(crate::backends::attachments_view(atts@), item@) {
            Some(a) => res is Some && res->Some_0 < atts@.len() && atts@[res->Some_0 as int]@ == a,
            None => res is None,
        },
{
    let ghost v = crate::backends::attachments_view(atts@);
    match item {
        IndexOrString::Index(i) => {
            if *i < atts.len() {
                Some(*i)
            } else {
                None
            }
        },
        IndexOrString::Str(name) => {
            let mut i: usize = 0;
            while i < atts.len()
                invariant
                    i <= atts.len(),
                    v == crate::backends::attachments_view(atts@),
                    item@ == IndexOrStringView::Str(name@),
                    forall|j: int| 0 <= j < i ==> v[j].name != name@,
                decreases atts.len() - i,
            {
                assert(v[i as int] == atts@[i as int]@);
                if str_eq(atts[i].name.as_str(), name.as_str()) {
                    proof {
                        assert(v[i as int].name == name@);
                        let k = choose|k: int|
                            0 <= k < v.len() && v[k].name == name@ && forall|j: int| 0 <= j < k ==> v[j].name != name@;
                        if k < i {
                        } else if k > i {
                        }
                        assert(first_named(v, name@) == Some(i as int));
                        assert(item@ == IndexOrStringView::Str(name@));
                        assert(chosen_attachment(v, item@) == Some(v[i as int]));
                    }
                    return Some(i);
                }
                i = i + 1;
            }
            None
        },
    }
}

/// The request to download an attachment of a message.
pub open spec fn download_request(m: MessageView, a: AttachmentView) -> EffectView {
    EffectView::Send(
        BackendMessageView::DownloadAttachment { contact_id: m.contact_id, timestamp: m.timestamp, index: a.index },
    )
}

/// Downloads one attachment of the selected message, or all of them.
#[derive(Debug)]
pub struct DownloadAttachments {
    item: Option<IndexOrString>,
}

impl DownloadAttachments {
    /// The attachment chosen, if one is.
    pub closed spec fn item_spec(&self) -> Option<IndexOrStringView> {
        match self.item {
            Some(i) => Some(i@),
            None => None,
        }
    }
}

/// The candidates to complete an attachment: the indices, then the names.
pub open spec fn attachment_candidates(atts: Seq<AttachmentView>) -> Seq<Seq<char>> {
    Seq::new(atts.len(), |i: int| decimal(i as nat)) + Seq::new(atts.len(), |i: int| atts[i].name)
}

/// The completions for an attachment of the selected message.
fn complete_attachment(tui_state: &TuiState, args: &str) -> (res: Vec<Completion>)
    ensures
        match tui_state.selected_message() {
            Some(m) => completion_views(res@) == completions_from(last_shell_part(args@), attachment_candidates(m.attachments)),
            None => res@.len() == 0,
        },
{
    let message = match tui_state.messages.selected() {
        Some(m) => m,
        None => {
            return Vec::new();
        },
    };
    let atts = &message.attachments;
    let ghost v = crate::backends::attachments_view(atts@);
    let mut candidates: Vec<String> = Vec::new();
    let mut i: usize = 0;
    while i < atts.len()
        invariant
            i <= atts.len(),
            v == crate::backends::attachments_view(atts@),
            texts(candidates@) == Seq::new(i as nat, |k: int| decimal(k as nat)),
        decreases atts.len() - i,
    {
        let ghost prev = candidates@;
        candidates.push(decimal_string(i as u64));
        proof {
            crate::text::lemma_texts_push(prev, candidates@.last());
        }
        i = i + 1;
        assert(texts(candidates@) =~= Seq::new(i as nat, |k: int| decimal(k as nat)));
    }
    let ghost head = texts(candidates@);
    let mut j: usize = 0;
    while j < atts.len()
        invariant
            j <= atts.len(),
            v == crate::backends::attachments_view(atts@),
            texts(candidates@) == head + Seq::new(j as nat, |k: int| v[k].name),
        decreases atts.len() - j,
    {
        assert(v[j as int] == atts@[j as int]@);
        let ghost prev = candidates@;
        candidates.push(owned(atts[j].name.as_str()));
        proof {
            crate::text::lemma_texts_push(prev, candidates@.last());
        }
        j = j + 1;
        assert(texts(candidates@) =~= head + Seq::new(j as nat, |k: int| v[k].name));
    }
    assert(texts(candidates@) =~= attachment_candidates(v));
    complete_from_list(args, candidates.as_slice())
}

/// Reads an optional attachment: the first argument, if any.
fn parse_optional_item(args: Arguments) -> (res: (Option<IndexOrString>, Result<(), Error>))
    ensures
        ({
            let items = arguments_items(args);
            &&& match res.0 {
                Some(i) => items.len() > 0 && i@ == index_or_string(items[0]),
                None => items.len() == 0,
            }
            &&& unit_result(res.1) == unused_result(if items.len() > 0 { items.drop_first() } else { items })
        }),
{
    let mut args = args;
    let item = match arguments_next_free(&mut args) {
        Some(a) => match IndexOrString::from_str(a.as_str()) {
            Ok(i) => Some(i),
            Err(_) => None,
        },
        None => None,
    };
    (item, check_unused_args(args))
}

impl Command for DownloadAttachments {
    open spec fn runs_in(&self, s: TuiState) -> bool {
        true
    }

    fn can_run(&self, s: &TuiState) -> (res: bool) {
        true
    }

    /// What running the command does.
    open spec fn executed(
        &self,
        before: TuiState,
        after: TuiState,
        effects_before: Seq<Effect>,
        effects_after: Seq<Effect>,
        res: Result<CommandSuccess, Error>,
    ) -> bool {
        &&& res == Ok::<CommandSuccess, Error>(CommandSuccess::Nothing)
        &&& after == before
        &&& pushed(
                effects_before,
                effects_after,
                match before.selected_message() {
                    Some(m) => match self.item_spec() {
                        Some(item) => match chosen_attachment(m.attachments, item) {
                            Some(a) => seq![download_request(m, a)],
                            None => Seq::<EffectView>::empty(),
                        },
                        None => Seq::new(m.attachments.len(), |i: int| download_request(m, m.attachments[i])),
                    },
                    None => Seq::<EffectView>::empty(),
                },
            )
    }

    fn execute(&self, tui_state: &mut TuiState, outbox: &mut Vec<Effect>) -> (res: Result<CommandSuccess, Error>)
    {
        let message = match tui_state.messages.selected() {
            Some(m) => m,
            None => {
                assert(pushed(old(outbox)@, outbox@, Seq::<EffectView>::empty()));
                return Ok(CommandSuccess::Nothing);
            },
        };
        let atts = &message.attachments;
        let ghost v = crate::backends::attachments_view(atts@);
        let ghost m = message@;
        match &self.item {
            Some(item) => {
                match find_attachment(atts.as_slice(), item) {
                    Some(k) => {
                        push_effect(
                            outbox,
                            Effect::Send(
                                BackendMessage::DownloadAttachment {
                                    contact_id: message.contact_id.duplicate(),
                                    timestamp: message.timestamp,
                                    index: atts[k].index,
                                },
                            ),
                        );
                    },
                    None => {
                        assert(pushed(old(outbox)@, outbox@, Seq::<EffectView>::empty()));
                    },
                }
            },
            None => {
                let mut i: usize = 0;
                assert(crate::commands::effect_views(outbox@) =~= crate::commands::effect_views(old(outbox)@)
                    + Seq::new(0, |k: int| download_request(m, v[k])));
                while i < atts.len()
                    invariant
                        i <= atts.len(),
                        v == crate::backends::attachments_view(atts@),
                        m == message@,
                        m.attachments == v,
                        pushed(old(outbox)@, outbox@, Seq::new(i as nat, |k: int| download_request(m, v[k]))),
                    decreases atts.len() - i,
                {
                    assert(v[i as int] == atts@[i as int]@);
                    let ghost before = outbox@;
                    push_effect(
                        outbox,
                        Effect::Send(
                            BackendMessage::DownloadAttachment {
                                contact_id: message.contact_id.duplicate(),
                                timestamp: message.timestamp,
                                index: atts[i].index,
                            },
                        ),
                    );
                    i = i + 1;
                    assert(crate::commands::effect_views(outbox@) =~= crate::commands::effect_views(old(outbox)@)
                        + Seq::new(i as nat, |k: int| download_request(m, v[k])));
                }
            },
        }
        Ok(CommandSuccess::Nothing)
    }

    /// What reading the arguments does.
    open spec fn parsed(&self, after: Self, args: Seq<Seq<char>>, res: Result<(), Error>) -> bool {
        &&& ({
                let items = args;
                &&& after.item_spec() == if items.len() > 0 {
                    Some(index_or_string(items[0]))
                } else {
                    None
                }
                &&& unit_result(res) == unused_result(if items.len() > 0 { items.drop_first() } else { items })
            })
    }

    fn parse(&mut self, args: Arguments) -> (res: Result<(), Error>)
    {
        let (item, res) = parse_optional_item(args);
        *self = DownloadAttachments { item };
        res
    }

    fn default() -> (res: Self)
        ensures
            res.item_spec() is None,
    {
        DownloadAttachments { item: None }
    }

    fn names(&self) -> (res: Vec<&'static str>)
        ensures
            only_name(res@, "download-attachments"@),
    {
        vec!["download-attachments"]
    }

    fn complete(&self, tui_state: &TuiState, args: &str) -> (res: Vec<Completion>)
        ensures
            match tui_state.selected_message() {
                Some(m) => completion_views(res@) == completions_from(last_shell_part(args@), attachment_candidates(m.attachments)),
                None => res@.len() == 0,
            },
    {
        complete_attachment(tui_state, args)
    }
}

/// The index of the first attachment not downloaded yet, or the number of
/// attachments.
pub open spec fn first_missing(atts: Seq<AttachmentView>) -> int {
    if exists|i: int| 0 <= i < atts.len() && atts[i].path is None {
        choose|i: int| 0 <= i < atts.len() && atts[i].path is None && forall|j: int| 0 <= j < i ==> atts[j].path is Some
    } else {
        atts.len() as int
    }
}

/// Opens the attachments of the selected message that are downloaded.
#[derive(Debug)]
pub struct OpenAttachments {
    item: Option<IndexOrString>,
}

impl OpenAttachments {
    /// The attachment chosen, if one is.
    pub closed spec fn item_spec(&self) -> Option<IndexOrStringView> {
        match self.item {
            Some(i) => Some(i@),
            None => None,
        }
    }
}

/// The request to open a downloaded attachment.
pub open spec fn open_request(a: AttachmentView) -> EffectView {
    EffectView::OpenAttachment { path: a.path->Some_0 }
}

impl Command for OpenAttachments {
    open spec fn runs_in(&self, s: TuiState) -> bool {
        true
    }

    fn can_run(&self, s: &TuiState) -> (res: bool) {
        true
    }

    /// What running the command does.
    open spec fn executed(
        &self,
        before: TuiState,
        after: TuiState,
        effects_before: Seq<Effect>,
        effects_after: Seq<Effect>,
        res: Result<CommandSuccess, Error>,
    ) -> bool {
        &&& after == before
        &&& match before.selected_message() {
                None => run_result(res) == Err::<CommandSuccess, ErrorView>(ErrorView::NoMessageSelected)
                    && effects_after == effects_before,
                Some(m) => match self.item_spec() {
                    Some(item) => match chosen_attachment(m.attachments, item) {
                        Some(a) => if a.path is Some {
                            res == Ok::<CommandSuccess, Error>(CommandSuccess::Nothing) && pushed(
                                effects_before,
                                effects_after,
                                seq![open_request(a)],
                            )
                        } else {
                            run_result(res) == Err::<CommandSuccess, ErrorView>(
                                ErrorView::Failure("Attachment has not been downloaded"@),
                            ) && effects_after == effects_before
                        },
                        None => res == Ok::<CommandSuccess, Error>(CommandSuccess::Nothing) && effects_after
                            == effects_before,
                    },
                    None => {
                        let k = first_missing(m.attachments);
                        &&& pushed(
                            effects_before,
                            effects_after,
                            Seq::new(k as nat, |i: int| open_request(m.attachments[i])),
                        )
                        &&& if k < m.attachments.len() {
                            run_result(res) == Err::<CommandSuccess, ErrorView>(
                                ErrorView::Failure("Attachment has not been downloaded"@),
                            )
                        } else {
                            res == Ok::<CommandSuccess, Error>(CommandSuccess::Nothing)
                        }
                    },
                },
            }
    }

    fn execute(&self, tui_state: &mut TuiState, outbox: &mut Vec<Effect>) -> (res: Result<CommandSuccess, Error>)
    {
        let message = match tui_state.messages.selected() {
            Some(m) => m,
            None => {
                return Err(Error::NoMessageSelected);
            },
        };
        let atts = &message.attachments;
        let ghost v = crate::backends::attachments_view(atts@);
        match &self.item {
            Some(item) => {
                match find_attachment(atts.as_slice(), item) {
                    Some(k) => {
                        match &atts[k].path {
                            Some(path) => {
                                push_effect(outbox, Effect::OpenAttachment { path: owned(path.as_str()) });
                            },
                            None => {
                                return Err(Error::Failure(owned("Attachment has not been downloaded")));
                            },
                        }
                    },
                    None => {},
                }
                Ok(CommandSuccess::Nothing)
            },
            None => {
                let mut i: usize = 0;
                assert(crate::commands::effect_views(outbox@) =~= crate::commands::effect_views(old(outbox)@)
                    + Seq::new(0, |k: int| open_request(v[k])));
                while i < atts.len()
                    invariant
                        i <= atts.len(),
                        v == crate::backends::attachments_view(atts@),
                        old(tui_state).wf(),
                        *tui_state == *old(tui_state),
                        old(tui_state).selected_message() == Some(message@),
                        message@.attachments == v,
                        self.item_spec() is None,
                        forall|j: int| 0 <= j < i ==> v[j].path is Some,
                        pushed(old(outbox)@, outbox@, Seq::new(i as nat, |k: int| open_request(v[k]))),
                    decreases atts.len() - i,
                {
                    assert(v[i as int] == atts@[i as int]@);
                    match &atts[i].path {
                        Some(path) => {
                            push_effect(outbox, Effect::OpenAttachment { path: owned(path.as_str()) });
                        },
                        None => {
                            proof {
                                let k = choose|k: int|
                                    0 <= k < v.len() && v[k].path is None && forall|j: int|
                                        0 <= j < k ==> v[j].path is Some;
                                if k < i {
                                } else if k > i {
                                }
                                assert(first_missing(v) == i);
                            }
                            return Err(Error::Failure(owned("Attachment has not been downloaded")));
                        },
                    }
                    i = i + 1;
                    assert(crate::commands::effect_views(outbox@) =~= crate::commands::effect_views(old(outbox)@)
                        + Seq::new(i as nat, |k: int| open_request(v[k])));
                }
                assert(first_missing(v) == v.len());
                Ok(CommandSuccess::Nothing)
            },
        }
    }

    /// What reading the arguments does.
    open spec fn parsed(&self, after: Self, args: Seq<Seq<char>>, res: Result<(), Error>) -> bool {
        &&& ({
                let items = args;
                &&& after.item_spec() == if items.len() > 0 {
                    Some(index_or_string(items[0]))
                } else {
                    None
                }
                &&& unit_result(res) == unused_result(if items.len() > 0 { items.drop_first() } else { items })
            })
    }

    fn parse(&mut self, args: Arguments) -> (res: Result<(), Error>)
    {
        let (item, res) = parse_optional_item(args);
        *self = OpenAttachments { item };
        res
    }

    fn default() -> (res: Self)
        ensures
            res.item_spec() is None,
    {
        OpenAttachments { item: None }
    }

    fn names(&self) -> (res: Vec<&'static str>)
        ensures
            only_name(res@, "open-attachments"@),
    {
        vec!["open-attachments"]
    }

    fn complete(&self, tui_state: &TuiState, args: &str) -> (res: Vec<Completion>)
        ensures
            match tui_state.selected_message() {
                Some(m) => completion_views(res@) == completions_from(last_shell_part(args@), attachment_candidates(m.attachments)),
                None => res@.len() == 0,
            },
    {
        complete_attachment(tui_state, args)
    }
}

/// The pattern of the links that messages hold.
pub const LINK_PATTERN: &'static str = "([\\w+]+://)?([\\w\\d-]+\\.)*[\\w-]+[\\.:]\\w+([/?=&\\#\\.]?[\\w-]+)*/?";

/// The texts that a regular expression matches in a text, left to right
/// without overlap, or `None` where the pattern is not a valid expression.
pub uninterp spec fn regex_matches(pattern: Seq<char>, text: Seq<char>) -> Option<Seq<Seq<char>>>;

/// `Regex::new(pattern)`, then `find_iter(text)` with each match as text.
#[verifier::external_body]
fn regex_find_all(pattern: &str, text: &str) -> (res: Option<Vec<String>>)
    ensures
        match res {
            Some(v) => regex_matches(pattern@, text@) == Some(texts(v@)),
            None => regex_matches(pattern@, text@) is None,
        },
{
    regex::Regex::new(pattern).ok().map(|r| r.find_iter(text).map(|m| m.as_str().to_owned()).collect())
}

/// The links in a text: what [`LINK_PATTERN`] matches.
pub open spec fn links_in(text: Seq<char>) -> Seq<Seq<char>> {
    match regex_matches(LINK_PATTERN@, text) {
        Some(v) => v,
        None => Seq::empty(),
    }
}

/// The links in a text (see [`links_in`]).
pub fn find_links(text: &str) -> (res: Vec<String>)
    ensures
        texts(res@) == links_in(text@),
{
    match regex_find_all(LINK_PATTERN, text) {
        Some(v) => v,
        None => Vec::new(),
    }
}

/// Opens a link of the selected message, by its index or as given.
#[derive(Debug)]
pub struct OpenLink {
    item: IndexOrString,
}

impl OpenLink {
    /// The link chosen.
    pub closed spec fn item_spec(&self) -> IndexOrStringView {
        self.item@
    }
}

/// The candidates to complete a link: the indices of the attachments, then
/// the links.
pub open spec fn link_candidates(m: MessageView) -> Seq<Seq<char>> {
    Seq::new(m.attachments.len(), |i: int| decimal(i as nat)) + links_in(m.content)
}

impl Command for OpenLink {
    open spec fn runs_in(&self, s: TuiState) -> bool {
        true
    }

    fn can_run(&self, s: &TuiState) -> (res: bool) {
        true
    }

    /// What running the command does.
    open spec fn executed(
        &self,
        before: TuiState,
        after: TuiState,
        effects_before: Seq<Effect>,
        effects_after: Seq<Effect>,
        res: Result<CommandSuccess, Error>,
    ) -> bool {
        &&& after == before
        &&& match before.selected_message() {
                None => run_result(res) == Err::<CommandSuccess, ErrorView>(ErrorView::NoMessageSelected)
                    && effects_after == effects_before,
                Some(m) => match self.item_spec() {
                    IndexOrStringView::Index(i) => if i < links_in(m.content).len() {
                        res == Ok::<CommandSuccess, Error>(CommandSuccess::Nothing) && pushed(
                            effects_before,
                            effects_after,
                            seq![EffectView::OpenLink { link: links_in(m.content)[i as int] }],
                        )
                    } else {
                        run_result(res) == Err::<CommandSuccess, ErrorView>(
                            ErrorView::Failure("Index past the number of links"@),
                        ) && effects_after == effects_before
                    },
                    IndexOrStringView::Str(link) => res == Ok::<CommandSuccess, Error>(CommandSuccess::Nothing)
                        && pushed(effects_before, effects_after, seq![EffectView::OpenLink { link }]),
                },
            }
    }

    fn execute(&self, tui_state: &mut TuiState, outbox: &mut Vec<Effect>) -> (res: Result<CommandSuccess, Error>)
    {
        let message = match tui_state.messages.selected() {
            Some(m) => m,
            None => {
                return Err(Error::NoMessageSelected);
            },
        };
        let link = match &self.item {
            IndexOrString::Index(index) => {
                let links = find_links(message.content.as_str());
                if *index < links.len() {
                    owned(links[*index].as_str())
                } else {
                    return Err(Error::Failure(owned("Index past the number of links")));
                }
            },
            IndexOrString::Str(link) => owned(link.as_str()),
        };
        push_effect(outbox, Effect::OpenLink { link });
        Ok(CommandSuccess::Nothing)
    }

    /// What reading the arguments does.
    open spec fn parsed(&self, after: Self, args: Seq<Seq<char>>, res: Result<(), Error>) -> bool {
        &&& ({
                let items = args;
                if items.len() > 0 {
                    after.item_spec() == index_or_string(items[0]) && unit_result(res) == unused_result(
                        items.drop_first(),
                    )
                } else {
                    after == *self && unit_result(res) == Err::<(), ErrorView>(
                        ErrorView::MissingArgument("item"@),
                    )
                }
            })
    }

    fn parse(&mut self, args: Arguments) -> (res: Result<(), Error>)
    {
        let (item, res) = parse_optional_item(args);
        match item {
            Some(item) => {
                *self = OpenLink { item };
                res
            },
            None => Err(Error::MissingArgument(owned("item"))),
        }
    }

    fn default() -> (res: Self)
        ensures
            res.item_spec() == IndexOrStringView::Index(0),
    {
        OpenLink { item: IndexOrString::Index(0) }
    }

    fn names(&self) -> (res: Vec<&'static str>)
        ensures
            only_name(res@, "open-link"@),
    {
        vec!["open-link"]
    }

    fn complete(&self, tui_state: &TuiState, args: &str) -> (res: Vec<Completion>)
        ensures
            match tui_state.selected_message() {
                Some(m) => completion_views(res@) == completions_from(last_shell_part(args@), link_candidates(m)),
                None => res@.len() == 0,
            },
    {
        let message = match tui_state.messages.selected() {
            Some(m) => m,
            None => {
                return Vec::new();
            },
        };
        let count = message.attachments.len();
        let mut candidates: Vec<String> = Vec::new();
        let mut i: usize = 0;
        while i < count
            invariant
                i <= count,
                texts(candidates@) == Seq::new(i as nat, |k: int| decimal(k as nat)),
            decreases count - i,
        {
            let ghost prev = candidates@;
            candidates.push(decimal_string(i as u64));
            proof {
                crate::text::lemma_texts_push(prev, candidates@.last());
            }
            i = i + 1;
            assert(texts(candidates@) =~= Seq::new(i as nat, |k: int| decimal(k as nat)));
        }
        let links = find_links(message.content.as_str());
        let ghost head = texts(candidates@);
        let mut j: usize = 0;
        while j < links.len()
            invariant
                j <= links.len(),
                texts(candidates@) == head + texts(links@).take(j as int),
            decreases links.len() - j,
        {
            let ghost prev = candidates@;
            candidates.push(owned(links[j].as_str()));
            proof {
                crate::text::lemma_texts_push(prev, candidates@.last());
            }
            j = j + 1;
            assert(texts(candidates@) =~= head + texts(links@).take(j as int));
        }
        assert(texts(links@).take(links.len() as int) =~= texts(links@));
        assert(texts(candidates@) =~= link_candidates(message@));
        complete_from_list(args, candidates.as_slice())
    }
}

/// Attaches files to the message being written.
#[derive(Debug)]
pub struct AttachFiles {
    paths: Vec<String>,
}

impl AttachFiles {
    /// The paths of the files.
    pub closed spec fn paths_spec(&self) -> Seq<Seq<char>> {
        texts(self.paths@)
    }

    /// The part of a command line that names a path: what follows its last
    /// space.
    pub fn path_to_complete(args: &str) -> (res: String)
        ensures
            res@ == last_word(args@),
    {
        let cs = chars_of(args);
        let mut start: usize = 0;
        let mut i: usize = 0;
        while i < cs.len()
            invariant
                i <= cs.len(),
                cs@ == args@,
                start <= i,
                last_word(args@.take(i as int)) == args@.subrange(start as int, i as int),
            decreases cs.len() - i,
        {
            assert(args@.take(i + 1).drop_last() =~= args@.take(i as int));
            if cs[i] == ' ' {
                start = i + 1;
            }
            i = i + 1;
            assert(last_word(args@.take(i as int)) =~= args@.subrange(start as int, i as int));
        }
        assert(args@.take(cs.len() as int) =~= args@);
        string_of_range(&cs, start, cs.len())
    }
}

/// What follows the last space of a text (all of it without one).
pub open spec fn last_word(s: Seq<char>) -> Seq<char>
    decreases s.len(),
{
    if s.len() == 0 {
        Seq::empty()
    } else if s.last() == ' ' {
        Seq::empty()
    } else {
        last_word(s.drop_last()).push(s.last())
    }
}

impl Command for AttachFiles {
    open spec fn runs_in(&self, s: TuiState) -> bool {
        true
    }

    fn can_run(&self, s: &TuiState) -> (res: bool) {
        true
    }

    /// What running the command does.
    open spec fn executed(
        &self,
        before: TuiState,
        after: TuiState,
        effects_before: Seq<Effect>,
        effects_after: Seq<Effect>,
        res: Result<CommandSuccess, Error>,
    ) -> bool {
        &&& after == before
        &&& self.paths_spec().len() == 0 ==> run_result(res) == Err::<CommandSuccess, ErrorView>(
                ErrorView::MissingArgument("path"@),
            ) && effects_after == effects_before
        &&& self.paths_spec().len() > 0 ==> res == Ok::<CommandSuccess, Error>(CommandSuccess::Nothing) && pushed(
                effects_before,
                effects_after,
                seq![EffectView::AttachFiles { paths: self.paths_spec() }],
            )
    }

    fn execute(&self, tui_state: &mut TuiState, outbox: &mut Vec<Effect>) -> (res: Result<CommandSuccess, Error>)
    {
        if self.paths.len() == 0 {
            return Err(Error::MissingArgument(owned("path")));
        }
        let mut paths: Vec<String> = Vec::new();
        let mut i: usize = 0;
        while i < self.paths.len()
            invariant
                i <= self.paths.len(),
                texts(paths@) == texts(self.paths@).take(i as int),
            decreases self.paths.len() - i,
        {
            let ghost prev = paths@;
            paths.push(owned(self.paths[i].as_str()));
            proof {
                crate::text::lemma_texts_push(prev, paths@.last());
            }
            i = i + 1;
            assert(texts(paths@) =~= texts(self.paths@).take(i as int));
        }
        assert(texts(self.paths@).take(self.paths.len() as int) =~= texts(self.paths@));
        push_effect(outbox, Effect::AttachFiles { paths });
        Ok(CommandSuccess::Nothing)
    }

    /// Every argument is a path, added to those already given.
    open spec fn parsed(&self, after: Self, args: Seq<Seq<char>>, res: Result<(), Error>) -> bool {
        &&& res is Ok
        &&& after.paths_spec() == self.paths_spec() + args
    }

    fn parse(&mut self, args: Arguments) -> (res: Result<(), Error>)
    {
        let mut args = args;
        let ghost items = arguments_items(args);
        let ghost start = self.paths_spec();
        let ghost mut taken: int = 0;
        loop
            invariant
                0 <= taken <= items.len(),
                arguments_items(args) == items.skip(taken),
                self.paths_spec() == start + items.take(taken),
            ensures
                arguments_items(args).len() == 0,
                self.paths_spec() == start + items,
            decreases items.len() - taken,
        {
            match arguments_next_free(&mut args) {
                Some(path) => {
                    assert(items.skip(taken)[0] == items[taken]);
                    let ghost prev = self.paths@;
                    self.paths.push(path);
                    proof {
                        crate::text::lemma_texts_push(prev, self.paths@.last());
                        assert(items.skip(taken).drop_first() =~= items.skip(taken + 1));
                        assert(items.take(taken + 1) =~= items.take(taken).push(items[taken]));
                        taken = taken + 1;
                    }
                },
                None => {
                    assert(items.take(taken) =~= items);
                    break;
                },
            }
        }
        check_unused_args(args)
    }

    fn default() -> (res: Self)
        ensures
            res.paths_spec().len() == 0,
    {
        AttachFiles { paths: Vec::new() }
    }

    fn names(&self) -> (res: Vec<&'static str>)
        ensures
            only_name(res@, "attach-files"@),
    {
        vec!["attach-files"]
    }

    /// Paths are completed from the file system, by the program around the
    /// interface (see [`AttachFiles::path_to_complete`]).
    fn complete(&self, tui_state: &TuiState, args: &str) -> (res: Vec<Completion>)
        ensures
            res@.len() == 0,
    {
        Vec::new()
    }
}

/// The indices sorted from the largest down.
pub open spec fn sorted_desc(v: Seq<usize>) -> bool {
    forall|i: int, j: int| 0 <= i < j < v.len() ==> v[i] >= v[j]
}

/// Two lists sorted from the largest down with the same elements are equal.
proof fn lemma_sorted_desc_unique(a: Seq<usize>, b: Seq<usize>)
    requires
        sorted_desc(a),
        sorted_desc(b),
        a.to_multiset() == b.to_multiset(),
    ensures
        a == b,
    decreases a.len(),
{
    broadcast use vstd::seq_lib::group_to_multiset_ensures;

    assert(a.len() == a.to_multiset().len());
    assert(b.len() == b.to_multiset().len());
    if a.len() > 0 {
        assert(a.to_multiset().contains(a[0]));
        assert(b.to_multiset().contains(b[0]));
        assert(b.contains(a[0]));
        assert(a.contains(b[0]));
        let ka = choose|k: int| 0 <= k < b.len() && b[k] == a[0];
        let kb = choose|k: int| 0 <= k < a.len() && a[k] == b[0];
        assert(b[0] >= b[ka]);
        assert(a[0] >= a[kb]);
        assert(a.remove(0) =~= a.drop_first());
        assert(b.remove(0) =~= b.drop_first());
        lemma_sorted_desc_unique(a.drop_first(), b.drop_first());
        assert(a =~= seq![a[0]] + a.drop_first());
        assert(b =~= seq![b[0]] + b.drop_first());
    } else {
        assert(a =~= b);
    }
}

/// The indices from the largest down (`sort` then `reverse`).
pub open spec fn desc_of(v: Seq<usize>) -> Seq<usize> {
    choose|s: Seq<usize>| sorted_desc(s) && s.to_multiset() == v.to_multiset()
}

/// Sorts indices from the largest down (see [`desc_of`]).
fn sort_desc(v: &Vec<usize>) -> (res: Vec<usize>)
    ensures
        res@ == desc_of(v@),
{
    let mut out: Vec<usize> = Vec::new();
    let mut i: usize = 0;
    assert(v@.take(0) =~= Seq::<usize>::empty());
    while i < v.len()
        invariant
            i <= v.len(),
            sorted_desc(out@),
            out@.to_multiset() == v@.take(i as int).to_multiset(),
        decreases v.len() - i,
    {
        let x = v[i];
        let mut k: usize = 0;
        while k < out.len() && out[k] >= x
            invariant
                k <= out.len(),
                forall|j: int| 0 <= j < k ==> out@[j] >= x,
            decreases out.len() - k,
        {
            k = k + 1;
        }
        let ghost o = out@;
        out.insert(k, x);
        proof {
            vstd::seq_lib::to_multiset_insert(o, k as int, x);
            vstd::seq_lib::to_multiset_build(v@.take(i as int), x);
            assert(v@.take(i + 1) =~= v@.take(i as int).push(x));
            assert(out@ =~= o.insert(k as int, x));
        }
        i = i + 1;
    }
    assert(v@.take(v.len() as int) =~= v@);
    proof {
        let t = desc_of(v@);
        assert(sorted_desc(out@) && out@.to_multiset() == v@.to_multiset());
        lemma_sorted_desc_unique(out@, t);
    }
    out
}

/// The attachments after removing the one at each index in turn; an index
/// past the end removes nothing.
pub open spec fn detached(atts: Seq<AttachmentView>, indices: Seq<usize>) -> Seq<AttachmentView>
    decreases indices.len(),
{
    if indices.len() == 0 {
        atts
    } else {
        let i = indices[0];
        let rest = if i < atts.len() {
            atts.remove(i as int)
        } else {
            atts
        };
        detached(rest, indices.drop_first())
    }
}

/// Removes attachments from the message being written, by their indices.
#[derive(Debug)]
pub struct DetachFiles {
    indices: Vec<usize>,
}

impl DetachFiles {
    /// The indices given.
    pub closed spec fn indices_spec(&self) -> Seq<usize> {
        self.indices@
    }
}

/// How many of the arguments read as indices before the first that does not.
pub open spec fn readable_indices(items: Seq<Seq<char>>) -> int {
    if exists|i: int| 0 <= i < items.len() && parse_unsigned(items[i], usize::MAX as nat) is None {
        choose|i: int|
            0 <= i < items.len() && parse_unsigned(items[i], usize::MAX as nat) is None && forall|j: int|
                0 <= j < i ==> parse_unsigned(items[j], usize::MAX as nat) is Some
    } else {
        items.len() as int
    }
}

impl Command for DetachFiles {
    open spec fn runs_in(&self, s: TuiState) -> bool {
        true
    }

    fn can_run(&self, s: &TuiState) -> (res: bool) {
        true
    }

    /// What running the command does.
    open spec fn executed(
        &self,
        before: TuiState,
        after: TuiState,
        effects_before: Seq<Effect>,
        effects_after: Seq<Effect>,
        res: Result<CommandSuccess, Error>,
    ) -> bool {
        &&& effects_after == effects_before
        &&& self.indices_spec().len() == 0 ==> run_result(res) == Err::<CommandSuccess, ErrorView>(
                ErrorView::MissingArgument("index"@),
            ) && after == before
        &&& self.indices_spec().len() > 0 ==> {
                &&& res == Ok::<CommandSuccess, Error>(CommandSuccess::Nothing)
                &&& after == (TuiState { compose: after.compose, ..before })
                &&& after.compose.attachments_spec() == detached(
                    before.compose.attachments_spec(),
                    desc_of(self.indices_spec()),
                )
                &&& after.compose.text_lines() == before.compose.text_lines()
                &&& after.compose.cursor() == before.compose.cursor()
                &&& after.compose.quote_spec() == before.compose.quote_spec()
            }
    }

    fn execute(&self, tui_state: &mut TuiState, outbox: &mut Vec<Effect>) -> (res: Result<CommandSuccess, Error>)
    {
        if self.indices.len() == 0 {
            return Err(Error::MissingArgument(owned("index")));
        }
        let indices = sort_desc(&self.indices);
        let ghost all = indices@;
        let ghost start = tui_state.compose.attachments_spec();
        let mut i: usize = 0;
        assert(all.skip(0) =~= all);
        while i < indices.len()
            invariant
                i <= indices.len(),
                all == indices@,
                tui_state.wf(),
                *tui_state == (TuiState { compose: tui_state.compose, ..*old(tui_state) }),
                detached(start, all) == detached(tui_state.compose.attachments_spec(), all.skip(i as int)),
                tui_state.compose.text_lines() == old(tui_state).compose.text_lines(),
                tui_state.compose.cursor() == old(tui_state).compose.cursor(),
                tui_state.compose.quote_spec() == old(tui_state).compose.quote_spec(),
            decreases indices.len() - i,
        {
            assert(all.skip(i as int).drop_first() =~= all.skip(i + 1));
            tui_state.compose.detach_file(indices[i]);
            i = i + 1;
        }
        assert(all.skip(indices.len() as int) =~= Seq::<usize>::empty());
        Ok(CommandSuccess::Nothing)
    }

    /// Every argument is an index, added to those already given, up to one
    /// that does not read as an index.
    open spec fn parsed(&self, after: Self, args: Seq<Seq<char>>, res: Result<(), Error>) -> bool {
        &&& after.indices_spec() == self.indices_spec() + Seq::new(
                readable_indices(args) as nat,
                |i: int| parse_unsigned(args[i], usize::MAX as nat)->Some_0 as usize,
            )
        &&& readable_indices(args) < args.len() ==> unit_result(res) == Err::<
                (),
                ErrorView,
            >(ErrorView::MissingArgument("indices"@))
        &&& readable_indices(args) == args.len() ==> res is Ok
    }

    fn parse(&mut self, args: Arguments) -> (res: Result<(), Error>)
    {
        let mut args = args;
        let ghost items = arguments_items(args);
        let ghost start = self.indices@;
        let ghost mut taken: int = 0;
        let mut failed = false;
        loop
            invariant_except_break
                !failed,
                arguments_items(args) == items.skip(taken),
            invariant
                0 <= taken <= items.len(),
                start == old(self).indices_spec(),
                self.indices@ == start + Seq::new(
                    taken as nat,
                    |i: int| parse_unsigned(items[i], usize::MAX as nat)->Some_0 as usize,
                ),
                forall|j: int| 0 <= j < taken ==> parse_unsigned(#[trigger] items[j], usize::MAX as nat) is Some,
            ensures
                failed ==> taken < items.len() && parse_unsigned(items[taken], usize::MAX as nat) is None,
                !failed ==> taken == items.len() && arguments_items(args).len() == 0,
            decreases items.len() - taken,
        {
            match arguments_next_free(&mut args) {
                Some(a) => {
                    assert(items.skip(taken)[0] == items[taken]);
                    match parse_usize(a.as_str()) {
                        Some(index) => {
                            self.indices.push(index);
                            proof {
                                assert(items.skip(taken).drop_first() =~= items.skip(taken + 1));
                                assert(self.indices@ =~= start + Seq::new(
                                    (taken + 1) as nat,
                                    |i: int| parse_unsigned(items[i], usize::MAX as nat)->Some_0 as usize,
                                ));
                                taken = taken + 1;
                            }
                        },
                        None => {
                            failed = true;
                            break;
                        },
                    }
                },
                None => {
                    break;
                },
            }
        }
        if failed {
            proof {
                assert(0 <= taken < items.len() && parse_unsigned(items[taken], usize::MAX as nat) is None
                    && forall|j: int| 0 <= j < taken ==> parse_unsigned(#[trigger] items[j], usize::MAX as nat) is Some);
                let k = choose|i: int|
                    0 <= i < items.len() && parse_unsigned(items[i], usize::MAX as nat) is None && forall|j: int|
                        0 <= j < i ==> parse_unsigned(#[trigger] items[j], usize::MAX as nat) is Some;
                if k < taken {
                } else if k > taken {
                }
                assert(readable_indices(items) == taken);
            }
            return Err(Error::MissingArgument(owned("indices")));
        }
        proof {
            assert(readable_indices(items) == items.len());
        }
        check_unused_args(args)
    }

    fn default() -> (res: Self)
        ensures
            res.indices_spec().len() == 0,
    {
        DetachFiles { indices: Vec::new() }
    }

    fn names(&self) -> (res: Vec<&'static str>)
        ensures
            only_name(res@, "detach-files"@),
    {
        vec!["detach-files"]
    }

    fn complete(&self, tui_state: &TuiState, args: &str) -> (res: Vec<Completion>)
        ensures
            completion_views(res@) == completions_from(
                last_shell_part(args@),
                Seq::new(tui_state.compose.attachments_spec().len(), |i: int| decimal(i as nat)),
            ),
    {
        let count = tui_state.compose.attachments().len();
        let mut candidates: Vec<String> = Vec::new();
        let mut i: usize = 0;
        while i < count
            invariant
                i <= count,
                texts(candidates@) == Seq::new(i as nat, |k: int| decimal(k as nat)),
            decreases count - i,
        {
            let ghost prev = candidates@;
            candidates.push(decimal_string(i as u64));
            proof {
                crate::text::lemma_texts_push(prev, candidates@.last());
            }
            i = i + 1;
            assert(texts(candidates@) =~= Seq::new(i as nat, |k: int| decimal(k as nat)));
        }
        complete_from_list(args, candidates.as_slice())
    }
}

} // verus!
