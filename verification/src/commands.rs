//! The commands of the interface: what each does to the state, how each reads
//! its arguments from the command line, and how a command line is completed.
use vstd::prelude::*;

use crate::text::{
    chars_of, debug_quoted, debug_text, is_prefix, join, join_strings, owned, parse_unsigned, parse_usize,
    push_char, push_str, shell_quote, shell_quoted, starts_with, str_eq, string_of, string_of_range, texts,
};
use crate::message::{BackendMessage, BackendMessageView, TimestampBound};
use crate::backends::ContactIdView;
use crate::tui::TuiState;
use pico_args::Arguments;

pub mod navigation;
pub mod messaging;
pub mod attachments;
pub mod popups;
pub mod registry;

verus! {

/// What running a command asks of the interface afterwards.
#[derive(Debug, Clone, Copy, PartialEq, Eq, Structural)]
pub enum CommandSuccess {
    Nothing,
    Quit,
    Clear,
}

/// Why a command could not run.
#[derive(Debug)]
pub enum Error {
    MissingArgument(String),
    InvalidArgument { arg: String, value: String },
    NoContactSelected,
    NoMessageSelected,
    UnknownCommand(String),
    UnknownArguments(String),
    Failure(String),
    /// The command cannot run in this state: the interface stops.
    Unrunnable(String),
}

/// An [`Error`] as a value.
pub enum ErrorView {
    MissingArgument(Seq<char>),
    InvalidArgument { arg: Seq<char>, value: Seq<char> },
    NoContactSelected,
    NoMessageSelected,
    UnknownCommand(Seq<char>),
    UnknownArguments(Seq<char>),
    Failure(Seq<char>),
    Unrunnable(Seq<char>),
}

impl View for Error {
    type V = ErrorView;

    open spec fn view(&self) -> ErrorView {
        match self {
            Error::MissingArgument(a) => ErrorView::MissingArgument(a@),
            Error::InvalidArgument { arg, value } => ErrorView::InvalidArgument { arg: arg@, value: value@ },
            Error::NoContactSelected => ErrorView::NoContactSelected,
            Error::NoMessageSelected => ErrorView::NoMessageSelected,
            Error::UnknownCommand(c) => ErrorView::UnknownCommand(c@),
            Error::UnknownArguments(a) => ErrorView::UnknownArguments(a@),
            Error::Failure(m) => ErrorView::Failure(m@),
            Error::Unrunnable(m) => ErrorView::Unrunnable(m@),
        }
    }
}

/// The message of an error, as the command line shows it.
pub open spec fn error_text(e: ErrorView) -> Seq<char> {
    match e {
        ErrorView::MissingArgument(a) => "Missing argument "@ + a,
        ErrorView::InvalidArgument { arg, value } => "Invalid argument "@ + debug_text(arg) + " with value "@
            + debug_text(value),
        ErrorView::NoContactSelected => "No contact selected"@,
        ErrorView::NoMessageSelected => "No message selected"@,
        ErrorView::UnknownCommand(c) => "Unknown command "@ + debug_text(c),
        ErrorView::UnknownArguments(a) => "Unknown arguments to command: "@ + a,
        ErrorView::Failure(m) => m,
        ErrorView::Unrunnable(m) => "Cannot run here: "@ + m,
    }
}

impl Error {
    /// The message of the error (see [`error_text`]).
    pub fn to_string(&self) -> (res: String)
        ensures
            res@ == error_text(self@),
    {
        match self {
            Error::MissingArgument(a) => {
                let mut s = owned("Missing argument ");
                push_str(&mut s, a.as_str());
                s
            },
            Error::InvalidArgument { arg, value } => {
                let mut s = owned("Invalid argument ");
                let a = debug_quoted(arg.as_str());
                push_str(&mut s, a.as_str());
                push_str(&mut s, " with value ");
                let v = debug_quoted(value.as_str());
                push_str(&mut s, v.as_str());
                s
            },
            Error::NoContactSelected => owned("No contact selected"),
            Error::NoMessageSelected => owned("No message selected"),
            Error::UnknownCommand(c) => {
                let mut s = owned("Unknown command ");
                let q = debug_quoted(c.as_str());
                push_str(&mut s, q.as_str());
                s
            },
            Error::UnknownArguments(a) => {
                let mut s = owned("Unknown arguments to command: ");
                push_str(&mut s, a.as_str());
                s
            },
            Error::Failure(m) => owned(m.as_str()),
            Error::Unrunnable(m) => {
                let mut s = owned("Cannot run here: ");
                push_str(&mut s, m.as_str());
                s
            },
        }
    }
}

/// A way to complete the command line: what the list shows and what gets
/// appended to the line.
#[derive(Debug)]
pub struct Completion {
    pub display: String,
    pub append: String,
}

/// A [`Completion`] as a value.
pub struct CompletionView {
    pub display: Seq<char>,
    pub append: Seq<char>,
}

impl View for Completion {
    type V = CompletionView;

    open spec fn view(&self) -> CompletionView {
        CompletionView { display: self.display@, append: self.append@ }
    }
}

impl Completion {
    /// A copy of the completion.
    pub fn duplicate(&self) -> (res: Completion)
        ensures
            res@ == self@,
    {
        Completion { display: owned(self.display.as_str()), append: owned(self.append.as_str()) }
    }
}

/// The values of a list of completions.
pub open spec fn completion_views(v: Seq<Completion>) -> Seq<CompletionView> {
    v.map_values(|c: Completion| c@)
}

/// An argument that names an item by its index or by text.
#[derive(Debug)]
pub enum IndexOrString {
    Index(usize),
    Str(String),
}

/// An [`IndexOrString`] as a value.
pub enum IndexOrStringView {
    Index(usize),
    Str(Seq<char>),
}

impl View for IndexOrString {
    type V = IndexOrStringView;

    open spec fn view(&self) -> IndexOrStringView {
        match self {
            IndexOrString::Index(i) => IndexOrStringView::Index(*i),
            IndexOrString::Str(s) => IndexOrStringView::Str(s@),
        }
    }
}

/// How an argument is read: as an index where it parses as a `usize`, else
/// as text.
pub open spec fn index_or_string(s: Seq<char>) -> IndexOrStringView {
    match parse_unsigned(s, usize::MAX as nat) {
        Some(n) => IndexOrStringView::Index(n as usize),
        None => IndexOrStringView::Str(s),
    }
}

impl IndexOrString {
    /// Reads an argument (see [`index_or_string`]); this never fails.
    pub fn from_str(s: &str) -> (res: Result<IndexOrString, ()>)
        ensures
            res is Ok,
            res.unwrap()@ == index_or_string(s@),
    {
        match parse_usize(s) {
            Some(n) => Ok(IndexOrString::Index(n)),
            None => Ok(IndexOrString::Str(owned(s))),
        }
    }

    /// A copy of the argument.
    pub fn duplicate(&self) -> (res: IndexOrString)
        ensures
            res@ == self@,
    {
        match self {
            IndexOrString::Index(i) => IndexOrString::Index(*i),
            IndexOrString::Str(s) => IndexOrString::Str(owned(s.as_str())),
        }
    }
}

/// The state of the scan for the last word of a command line: the word so
/// far, whether a quote is open, and whether a quote just closed (so the
/// next character starts a new word).
pub open spec fn shell_scan_step(st: (Seq<char>, bool, bool), c: char) -> (Seq<char>, bool, bool) {
    let sofar = if st.2 {
        Seq::<char>::empty()
    } else {
        st.0
    };
    let inquote = st.1;
    if !inquote && c == ' ' {
        (Seq::<char>::empty(), inquote, false)
    } else {
        let is_quote = c == '\'' || c == '"';
        if !inquote && is_quote {
            (sofar.push(c), true, false)
        } else if inquote && is_quote {
            (sofar.push(c), false, true)
        } else {
            (sofar.push(c), inquote, false)
        }
    }
}

/// The scan state after the whole text.
pub open spec fn shell_scan(s: Seq<char>) -> (Seq<char>, bool, bool)
    decreases s.len(),
{
    if s.len() == 0 {
        (Seq::<char>::empty(), false, false)
    } else {
        shell_scan_step(shell_scan(s.drop_last()), s.last())
    }
}

/// The last word of a command line, the one being typed: what follows the
/// last space outside quotes, or the last quoted part, quotes included.
pub open spec fn last_shell_part(s: Seq<char>) -> Seq<char> {
    shell_scan(s).0
}

/// The last word of a command line (see [`last_shell_part`]).
pub fn last_part_of_shell_string(s: &str) -> (res: String)
    ensures
        res@ == last_shell_part(s@),
{
    let cs = chars_of(s);
    let mut sofar = String::new();
    let mut inquote = false;
    let mut clear = false;
    let mut i: usize = 0;
    while i < cs.len()
        invariant
            i <= cs.len(),
            cs@ == s@,
            (sofar@, inquote, clear) == shell_scan(s@.take(i as int)),
        decreases cs.len() - i,
    {
        let c = cs[i];
        assert(s@.take(i + 1).drop_last() =~= s@.take(i as int));
        assert(s@.take(i + 1).last() == c);
        if clear {
            sofar = String::new();
            clear = false;
        }
        if !inquote && c == ' ' {
            sofar = String::new();
        } else {
            push_char(&mut sofar, c);
            let is_quote_char = c == '\'' || c == '"';
            if !inquote && is_quote_char {
                inquote = true;
            } else if inquote && is_quote_char {
                inquote = false;
                clear = true;
            }
        }
        i = i + 1;
        assert((sofar@, inquote, clear) == shell_scan(s@.take(i as int)));
    }
    assert(s@.take(cs.len() as int) =~= s@);
    sofar
}

/// The completions offered by a list for the word being typed: each entry,
/// quoted as a shell word, that starts with the word, in the order of the
/// list; what gets appended is the rest of the quoted entry.
pub open spec fn completions_from(last: Seq<char>, list: Seq<Seq<char>>) -> Seq<CompletionView>
    decreases list.len(),
{
    if list.len() == 0 {
        Seq::empty()
    } else {
        let rest = completions_from(last, list.drop_last());
        let q = shell_quoted(list.last());
        if is_prefix(last, q) {
            rest.push(CompletionView { display: q, append: q.skip(last.len() as int) })
        } else {
            rest
        }
    }
}

/// The completions of the command line from a list of candidates (see
/// [`completions_from`] and [`last_shell_part`]).
pub fn complete_from_list(cmd_line: &str, list: &[String]) -> (res: Vec<Completion>)
    ensures
        completion_views(res@) == completions_from(last_shell_part(cmd_line@), texts(list@)),
{
    let last_part = last_part_of_shell_string(cmd_line);
    let ghost all = texts(list@);
    let mut res: Vec<Completion> = Vec::new();
    let mut i: usize = 0;
    while i < list.len()
        invariant
            i <= list.len(),
            all == texts(list@),
            last_part@ == last_shell_part(cmd_line@),
            completion_views(res@) == completions_from(last_part@, all.take(i as int)),
        decreases list.len() - i,
    {
        assert(all.take(i + 1).drop_last() =~= all.take(i as int));
        assert(all.take(i + 1).last() == list@[i as int]@);
        let q = shell_quote(list[i].as_str());
        if starts_with(q.as_str(), last_part.as_str()) {
            let qc = chars_of(q.as_str());
            let lc = chars_of(last_part.as_str());
            let append = string_of_range(&qc, lc.len(), qc.len());
            assert(append@ =~= q@.skip(last_part@.len() as int));
            let ghost before = res@;
            res.push(Completion { display: q, append });
            assert(completion_views(res@) =~= completion_views(before).push(res@.last()@));
        }
        i = i + 1;
    }
    assert(all.take(list.len() as int) =~= all);
    res
}

#[verifier::external_type_specification]
#[verifier::external_body]
pub struct ExArguments(Arguments);

/// The arguments left in a parser, in order. (The parsers here are always
/// made from strings.)
pub uninterp spec fn arguments_items(a: Arguments) -> Seq<Seq<char>>;

/// `Arguments::from_vec`: a parser over the words, in order.
#[verifier::external_body]
fn arguments_from_words(words: Vec<String>) -> (res: Arguments)
    ensures
        arguments_items(res) == texts(words@),
{
    Arguments::from_vec(words.into_iter().map(|w| w.into()).collect())
}

/// `Arguments::subcommand`: the first argument, taken out, unless there is
/// none or it starts with `-`, in which case nothing is taken.
#[verifier::external_body]
pub(crate) fn arguments_subcommand(a: &mut Arguments) -> (res: Option<String>)
    ensures
        ({
            let items = arguments_items(*old(a));
            if items.len() == 0 || (items[0].len() > 0 && items[0][0] == '-') {
                res is None && arguments_items(*final(a)) == items
            } else {
                res is Some && res.unwrap()@ == items[0] && arguments_items(*final(a)) == items.drop_first()
            }
        }),
{
    a.subcommand().ok().flatten()
}

/// `Arguments::opt_free_from_str::<String>`: the first argument, taken out,
/// if there is one.
#[verifier::external_body]
pub(crate) fn arguments_next_free(a: &mut Arguments) -> (res: Option<String>)
    ensures
        ({
            let items = arguments_items(*old(a));
            if items.len() == 0 {
                res is None && arguments_items(*final(a)) == items
            } else {
                res is Some && res.unwrap()@ == items[0] && arguments_items(*final(a)) == items.drop_first()
            }
        }),
{
    a.opt_free_from_str::<String>().ok().flatten()
}

/// `Arguments::finish`: the arguments left, in order.
#[verifier::external_body]
pub(crate) fn arguments_finish(a: Arguments) -> (res: Vec<String>)
    ensures
        texts(res@) == arguments_items(a),
{
    a.finish().into_iter().map(|s| s.to_string_lossy().into_owned()).collect()
}

/// The arguments of a command line: its words after the first.
pub fn arguments_of(words: Vec<String>) -> (res: Arguments)
    ensures
        arguments_items(res) == texts(words@),
{
    arguments_from_words(words)
}

/// Fails with the arguments that no one read, joined by spaces.
pub fn check_unused_args(args: Arguments) -> (res: Result<(), Error>)
    ensures
        arguments_items(args).len() == 0 ==> res is Ok,
        arguments_items(args).len() > 0 ==> res is Err && res->Err_0@ == ErrorView::UnknownArguments(
            join(arguments_items(args), " "@),
        ),
{
    let unused_args = arguments_finish(args);
    if unused_args.len() > 0 {
        return Err(Error::UnknownArguments(join_strings(unused_args.as_slice(), " ")));
    }
    Ok(())
}

/// The path `rel` joined onto the path `base`.
pub uninterp spec fn joined_path(base: Seq<char>, rel: Seq<char>) -> Seq<char>;

/// `Path::join`: an absolute `rel` replaces `base`; a relative one extends
/// it, after a separator where `base` does not end with one.
#[verifier::external_body]
pub(crate) fn path_join(base: &str, rel: &str) -> (res: String)
    ensures
        res@ == joined_path(base@, rel@),
        rel@.len() > 0 && rel@[0] == '/' ==> res@ == rel@,
        !(rel@.len() > 0 && rel@[0] == '/') && base@.len() > 0 ==> res@ == if base@.last() == '/' {
            base@ + rel@
        } else {
            base@ + "/"@ + rel@
        },
{
    std::path::Path::new(base).join(rel).to_string_lossy().into_owned()
}

/// A path with a leading `~` read as the home directory: `~` alone is the
/// home directory, `~/rest` is `rest` within it, any other path stays.
pub open spec fn tilde_expanded(s: Seq<char>, home: Seq<char>) -> Seq<char> {
    if !is_prefix("~"@, s) {
        s
    } else if s == "~"@ {
        home
    } else {
        joined_path(home, s.skip(2))
    }
}

/// A path that [`expand_tilde`] takes: one that starts with `~` is `~` or
/// starts with `~/`, and then the home directory is known.
pub open spec fn tilde_expandable(s: Seq<char>, home: Option<Seq<char>>) -> bool {
    is_prefix("~"@, s) ==> (home is Some && (s == "~"@ || is_prefix("~/"@, s)))
}

/// Expands a leading `~` (see [`tilde_expanded`]).
pub fn expand_tilde(s: &str, home: &Option<String>) -> (res: String)
    requires
        tilde_expandable(s@, match home { Some(h) => Some(h@), None => None }),
    ensures
        !is_prefix("~"@, s@) ==> res@ == s@,
        is_prefix("~"@, s@) ==> res@ == tilde_expanded(s@, home->Some_0@),
{
    proof {
        reveal_strlit("~");
        reveal_strlit("~/");
    }
    if starts_with(s, "~") {
        let h = home.as_ref().unwrap();
        if str_eq(s, "~") {
            return owned(h.as_str());
        }
        let cs = chars_of(s);
        let rest = string_of_range(&cs, 2, cs.len());
        assert(rest@ =~= s@.skip(2));
        path_join(h.as_str(), rest.as_str())
    } else {
        owned(s)
    }
}

/// Work that a command leaves to the program around the interface, to be
/// done in order.
#[derive(Debug)]
pub enum Effect {
    /// A request to the backend.
    Send(BackendMessage),
    /// Open a downloaded attachment with the system's viewer, without waiting.
    OpenAttachment { path: String },
    /// Open a link with the system's handler.
    OpenLink { link: String },
    /// Run a shell command with the text on its input.
    PipeMessage { command: String, content: String },
    /// Let the user edit the text in their editor, in a temporary file whose
    /// name starts with the prefix; its lines then replace the compose box's.
    EditInEditor { file_prefix: String, content: String },
    /// Read the configuration file at the path again.
    ReloadConfig { path: String },
    /// Attach the files at the paths in order (see `expand_tilde`), failing
    /// at the first that is not a file.
    AttachFiles { paths: Vec<String> },
    /// Run a shell command with these environment variables, not waiting.
    RunHook { command: String, env: Vec<(String, String)> },
}

/// An [`Effect`] as a value.
pub enum EffectView {
    Send(BackendMessageView),
    OpenAttachment { path: Seq<char> },
    OpenLink { link: Seq<char> },
    PipeMessage { command: Seq<char>, content: Seq<char> },
    EditInEditor { file_prefix: Seq<char>, content: Seq<char> },
    ReloadConfig { path: Seq<char> },
    AttachFiles { paths: Seq<Seq<char>> },
    RunHook { command: Seq<char>, env: Seq<(Seq<char>, Seq<char>)> },
}

impl View for Effect {
    type V = EffectView;

    open spec fn view(&self) -> EffectView {
        match self {
            Effect::Send(m) => EffectView::Send(m@),
            Effect::OpenAttachment { path } => EffectView::OpenAttachment { path: path@ },
            Effect::OpenLink { link } => EffectView::OpenLink { link: link@ },
            Effect::PipeMessage { command, content } => EffectView::PipeMessage {
                command: command@,
                content: content@,
            },
            Effect::EditInEditor { file_prefix, content } => EffectView::EditInEditor {
                file_prefix: file_prefix@,
                content: content@,
            },
            Effect::ReloadConfig { path } => EffectView::ReloadConfig { path: path@ },
            Effect::AttachFiles { paths } => EffectView::AttachFiles { paths: texts(paths@) },
            Effect::RunHook { command, env } => EffectView::RunHook {
                command: command@,
                env: crate::hooks::pair_views(env@),
            },
        }
    }
}

/// The values of a list of effects.
pub open spec fn effect_views(v: Seq<Effect>) -> Seq<EffectView> {
    v.map_values(|e: Effect| e@)
}

/// The outbox grew by the effects, in order.
pub open spec fn pushed(before: Seq<Effect>, after: Seq<Effect>, effects: Seq<EffectView>) -> bool {
    effect_views(after) == effect_views(before) + effects
}

/// Pushes an effect and states it.
pub fn push_effect(outbox: &mut Vec<Effect>, e: Effect)
    ensures
        pushed(old(outbox)@, final(outbox)@, seq![e@]),
{
    let ghost before = outbox@;
    outbox.push(e);
    assert(effect_views(outbox@) =~= effect_views(before) + seq![e@]);
}

/// The request for all the messages of a contact.
pub open spec fn load_messages(id: ContactIdView) -> EffectView {
    EffectView::Send(
        BackendMessageView::LoadMessages {
            contact_id: id,
            start_ts: TimestampBound::Unbounded,
            end_ts: TimestampBound::Unbounded,
        },
    )
}

/// The value of the outcome of a command.
pub open spec fn run_result(r: Result<CommandSuccess, Error>) -> Result<CommandSuccess, ErrorView> {
    match r {
        Ok(c) => Ok(c),
        Err(e) => Err(e@),
    }
}

/// The value of the outcome of reading arguments.
pub open spec fn unit_result(r: Result<(), Error>) -> Result<(), ErrorView> {
    match r {
        Ok(_) => Ok(()),
        Err(e) => Err(e@),
    }
}

/// What [`check_unused_args`] gives for the arguments left.
pub open spec fn unused_result(rest: Seq<Seq<char>>) -> Result<(), ErrorView> {
    if rest.len() == 0 {
        Ok(())
    } else {
        Err(ErrorView::UnknownArguments(join(rest, " "@)))
    }
}

/// A list of names holding exactly the one name.
pub open spec fn only_name(v: Seq<&'static str>, name: Seq<char>) -> bool {
    v.len() == 1 && v[0]@ == name
}

/// A command of the interface: what it does, how it reads its arguments,
/// its names, and how it completes a command line.
pub trait Command: Sized {
    /// The states in which the command runs without stopping the interface.
    spec fn runs_in(&self, s: TuiState) -> bool;

    /// Whether the command runs in the state (see [`Command::runs_in`]).
    fn can_run(&self, s: &TuiState) -> (res: bool)
        ensures
            res == self.runs_in(*s),
    ;

    /// What running the command does: the state before and after, the
    /// outbox before and after, and the result.
    spec fn executed(
        &self,
        before: TuiState,
        after: TuiState,
        effects_before: Seq<Effect>,
        effects_after: Seq<Effect>,
        res: Result<CommandSuccess, Error>,
    ) -> bool;

    /// Runs the command on the state (see [`Command::executed`]); the work
    /// it leaves to the program goes to the outbox, after what is there.
    fn execute(&self, tui_state: &mut TuiState, outbox: &mut Vec<Effect>) -> (res: Result<CommandSuccess, Error>)
        requires
            old(tui_state).wf(),
            self.runs_in(*old(tui_state)),
        ensures
            final(tui_state).wf(),
            effect_views(old(outbox)@).is_prefix_of(effect_views(final(outbox)@)),
            self.executed(*old(tui_state), *final(tui_state), old(outbox)@, final(outbox)@, res),
    ;

    /// What reading the arguments does: the command before and after, the
    /// words of the arguments, and the result.
    spec fn parsed(&self, after: Self, args: Seq<Seq<char>>, res: Result<(), Error>) -> bool;

    /// Reads the command's arguments (see [`Command::parsed`]).
    fn parse(&mut self, args: Arguments) -> (res: Result<(), Error>)
        ensures
            old(self).parsed(*final(self), arguments_items(args), res),
    ;

    /// The command with its arguments at their defaults.
    fn default() -> Self;

    /// The names the command line knows the command by.
    fn names(&self) -> (res: Vec<&'static str>);

    /// The completions of a command line that runs this command.
    fn complete(&self, tui_state: &TuiState, args: &str) -> (res: Vec<Completion>);
}

/// What [`after_contact_changed`] does: when the selected row moved to a
/// contact, its messages are forgotten, none is selected, and they are
/// asked for again.
pub open spec fn contact_change(s: TuiState, last: Option<usize>, t: TuiState, effects: Seq<EffectView>) -> bool {
    if s.contacts.table_state().selected_spec() == last || s.selected_contact() is None {
        t == s && effects == Seq::<EffectView>::empty()
    } else {
        &&& t == TuiState { messages: t.messages, ..s }
        &&& t.messages.view_seq().len() == 0
        &&& t.messages.list_state().selected_spec() is None
        &&& t.messages.list_state().offset_spec() == s.messages.list_state().offset_spec()
        &&& effects == seq![load_messages(s.selected_contact()->Some_0.id)]
    }
}

/// After the selection of contacts moved from `last_selected`: shows the
/// messages of the contact now selected (see [`contact_change`]).
pub fn after_contact_changed(tui_state: &mut TuiState, outbox: &mut Vec<Effect>, last_selected: Option<usize>)
    requires
        old(tui_state).wf(),
    ensures
        final(tui_state).wf(),
        exists|e: Seq<EffectView>|
            #![trigger contact_change(*old(tui_state), last_selected, *final(tui_state), e)]
            contact_change(*old(tui_state), last_selected, *final(tui_state), e) && pushed(
                old(outbox)@,
                final(outbox)@,
                e,
            ),
{
    let ghost s = *tui_state;
    let selected = tui_state.contacts.table_state_selected();
    if selected == last_selected {
        assert(pushed(old(outbox)@, outbox@, Seq::<EffectView>::empty()));
        assert(contact_change(s, last_selected, *tui_state, Seq::<EffectView>::empty()));
        return;
    }
    let id = match tui_state.contacts.selected() {
        Some(contact) => contact.id.duplicate(),
        None => {
            assert(pushed(old(outbox)@, outbox@, Seq::<EffectView>::empty()));
            assert(contact_change(s, last_selected, *tui_state, Seq::<EffectView>::empty()));
            return;
        },
    };
    tui_state.messages.clear();
    tui_state.messages.select(None);
    push_effect(
        outbox,
        Effect::Send(
            BackendMessage::LoadMessages {
                contact_id: id,
                start_ts: TimestampBound::Unbounded,
                end_ts: TimestampBound::Unbounded,
            },
        ),
    );
    assert(contact_change(s, last_selected, *tui_state, seq![load_messages(s.selected_contact()->Some_0.id)]));
}

/// Every entry of the list that, quoted as a shell word, starts with the word
/// being typed (the empty word too) is offered: shown quoted, with the rest
/// of the quoted entry to append.
pub proof fn law_completion_offers_every_match(last: Seq<char>, list: Seq<Seq<char>>, k: int)
    requires
        0 <= k < list.len(),
        is_prefix(last, shell_quoted(list[k])),
    ensures
        exists|j: int|
            0 <= j < completions_from(last, list).len() && #[trigger] completions_from(last, list)[j] == (CompletionView {
                display: shell_quoted(list[k]),
                append: shell_quoted(list[k]).skip(last.len() as int),
            }),
    decreases list.len(),
{
    let rest = completions_from(last, list.drop_last());
    let c = CompletionView { display: shell_quoted(list[k]), append: shell_quoted(list[k]).skip(last.len() as int) };
    if k == list.len() - 1 {
        assert(list.last() == list[k]);
        assert(completions_from(last, list)[rest.len() as int] == c);
    } else {
        assert(list.drop_last()[k] == list[k]);
        law_completion_offers_every_match(last, list.drop_last(), k);
        let j = choose|j: int| 0 <= j < rest.len() && #[trigger] rest[j] == c;
        assert(completions_from(last, list)[j] == rest[j]);
    }
}

/// Every completion offered for a word extends it: what the list shows is
/// the word followed by what gets appended, and it is an entry of the list
/// quoted as a shell word.
pub proof fn law_completion_extends_word(last: Seq<char>, list: Seq<Seq<char>>, k: int)
    requires
        0 <= k < completions_from(last, list).len(),
    ensures
        completions_from(last, list)[k].display == last + completions_from(last, list)[k].append,
        exists|j: int| 0 <= j < list.len() && completions_from(last, list)[k].display == shell_quoted(list[j]),
    decreases list.len(),
{
    let rest = completions_from(last, list.drop_last());
    if k < rest.len() {
        law_completion_extends_word(last, list.drop_last(), k);
        let j = choose|j: int| 0 <= j < list.drop_last().len() && rest[k].display == shell_quoted(list.drop_last()[j]);
        assert(list.drop_last()[j] == list[j]);
    } else {
        let q = shell_quoted(list.last());
        assert(q =~= last + q.skip(last.len() as int));
        assert(list.last() == list[list.len() - 1]);
    }
}

/// An argument of decimal digits that fits in a `usize` names an index;
/// any other argument is text.
pub proof fn law_index_or_string(s: Seq<char>)
    ensures
        parse_unsigned(s, usize::MAX as nat) is Some ==> index_or_string(s) == IndexOrStringView::Index(
            parse_unsigned(s, usize::MAX as nat)->Some_0 as usize,
        ),
        parse_unsigned(s, usize::MAX as nat) is None ==> index_or_string(s) == IndexOrStringView::Str(s),
{
}

} // verus!
