//! The state of the terminal interface and the pieces it is made of, and
//! the texts that its popups and lists show.
use vstd::prelude::*;

use crate::backends::{hex_encode, hex_text, contact_id_text, Contact, ContactId, ContactIdView, ContactView};
use crate::config::Config;
use crate::keybinds::{key_events_text, KeyBinds, KeyEvents};
use crate::text::{
    chars_of, decimal, join, join_strings, owned, push_char, push_decimal, push_str, sort_strings, sorted_of,
    string_of, string_of_range, texts,
};
use crate::tui::command_line::CommandLine;
use crate::tui::compose::Compose;
use crate::tui::contacts::{latest_user, Contacts};
use crate::tui::messages::{Message, MessageView, Messages};

pub mod contacts;
pub mod list;
pub mod messages;
pub mod command_line;
pub mod compose;
pub mod textarea;

verus! {

/// The modes that command mode can return to.
#[derive(Debug, Clone, Copy, PartialEq, Eq, Structural)]
pub enum BasicMode {
    Normal,
    Popup,
    Compose,
}

/// The mode the interface is in; it decides how keys are read.
#[derive(Debug, Clone, Copy, PartialEq, Eq, Structural)]
pub enum Mode {
    Normal,
    Command { previous: BasicMode },
    Compose,
    Popup,
}

impl Default for Mode {
    fn default() -> (res: Self)
        ensures
            res == Mode::Normal,
    {
        Mode::Normal
    }
}

/// The name of a mode, as the status line shows it.
pub open spec fn mode_name(mode: Mode) -> Seq<char> {
    match mode {
        Mode::Normal => "Normal"@,
        Mode::Command { .. } => "Command"@,
        Mode::Compose => "Compose"@,
        Mode::Popup => "Popup"@,
    }
}

impl Mode {
    /// The name of the mode (what `Display` writes for it).
    pub fn name(&self) -> (res: String)
        ensures
            res@ == mode_name(*self),
    {
        let s = match self {
            Mode::Normal => "Normal",
            Mode::Command { previous: _ } => "Command",
            Mode::Compose => "Compose",
            Mode::Popup => "Popup",
        };
        crate::text::owned(s)
    }
}

/// What a popup shows.
#[derive(Debug)]
pub enum PopupType {
    MessageInfo { timestamp: u64 },
    ContactInfo { id: ContactId },
    Keybinds,
    Commands,
    CommandHistory,
}

/// A popup over the interface and how far it is scrolled.
#[derive(Debug)]
pub struct Popup {
    pub typ: PopupType,
    pub scroll: u16,
}

impl Popup {
    /// A popup of the type, not scrolled.
    pub fn new(typ: PopupType) -> (res: Self)
        ensures
            res.typ == typ,
            res.scroll == 0,
    {
        Popup { typ, scroll: 0 }
    }

    /// Keeps the scroll within the text: a text of `line_count` lines (taken
    /// as a `u16`) in a box of `area_height` rows, two of them border, can be
    /// scrolled by as many lines as do not fit.
    pub fn clamp_scroll(&mut self, line_count: usize, area_height: u16)
        ensures
            final(self).typ == old(self).typ,
            final(self).scroll == ({
                let lines = (line_count % 0x10000) as int;
                let inner = if area_height >= 2 {
                    area_height - 2
                } else {
                    0int
                };
                let max_scroll = if lines >= inner {
                    lines - inner
                } else {
                    0int
                };
                if old(self).scroll <= max_scroll {
                    old(self).scroll as int
                } else {
                    max_scroll
                }
            }),
    {
        let lines: u16 = (line_count % 0x10000) as u16;
        let inner = area_height.saturating_sub(2);
        let max_scroll = lines.saturating_sub(inner);
        if self.scroll > max_scroll {
            self.scroll = max_scroll;
        }
    }
}

/// Everything the interface shows and remembers.
#[derive(Debug)]
pub struct TuiState {
    pub app_name: String,
    pub self_id: Vec<u8>,
    pub contacts: Contacts,
    pub messages: Messages,
    pub compose: Compose,
    pub command_line: CommandLine,
    pub mode: Mode,
    pub popup: Option<Popup>,
    pub key_events: KeyEvents,
    pub config: Config,
    pub config_path: String,
    /// The home directory, for paths that start with `~`.
    pub home_dir: Option<String>,
}

impl TuiState {
    /// The contact or group at the selected row, if that row exists.
    pub open spec fn selected_contact(&self) -> Option<ContactView> {
        match self.contacts.table_state().selected_spec() {
            Some(i) => if i < self.contacts.view_seq().len() {
                Some(self.contacts.view_seq()[i as int])
            } else {
                None
            },
            None => None,
        }
    }

    /// The message at the selected place, if that place exists.
    pub open spec fn selected_message(&self) -> Option<MessageView> {
        match self.messages.list_state().selected_spec() {
            Some(i) => if i < self.messages.view_seq().len() {
                Some(self.messages.view_seq()[i as int])
            } else {
                None
            },
            None => None,
        }
    }

    /// The messages are in order and a chosen completion is one of those
    /// offered.
    pub open spec fn wf(&self) -> bool {
        self.messages.wf() && self.command_line.completions.wf()
    }

    /// The state at start: no contacts, no messages, normal mode.
    pub fn new(
        app_name: String,
        self_id: Vec<u8>,
        config: Config,
        config_path: String,
        home_dir: Option<String>,
    ) -> (res: Self)
        ensures
            res.wf(),
            res.app_name == app_name,
            res.self_id == self_id,
            res.contacts.view_seq().len() == 0,
            res.contacts.table_state().selected_spec() is None,
            res.messages.view_seq().len() == 0,
            res.messages.list_state().selected_spec() is None,
            res.mode == Mode::Normal,
            res.popup is None,
            res.key_events.0@.len() == 0,
            res.config == config,
            res.config_path == config_path,
            res.home_dir == home_dir,
            res.messages.list_state().offset_spec() == 0,
            res.compose.text_lines() == seq![Seq::<char>::empty()],
            res.compose.cursor() == (0int, 0int),
            !res.compose.selecting(),
            res.compose.quote_spec() is None,
            res.compose.attachments_spec().len() == 0,
            res.command_line.text_lines() == seq![Seq::<char>::empty()],
            res.command_line.cursor() == (0int, 0int),
            !res.command_line.selecting(),
            res.command_line.error@.len() == 0,
            res.command_line.completions.candidates@.len() == 0,
            res.command_line.completions.list_state.selected_spec() is None,
            res.command_line.completions.generated_for is None,
            res.command_line.history@.commands.len() == 0,
            res.command_line.history@.selected is None,
    {
        let messages = Messages::new();
        proof {
            assert(messages.wf());
        }
        TuiState {
            app_name,
            self_id,
            contacts: Contacts::default(),
            messages,
            compose: Compose::new(),
            command_line: CommandLine::new(),
            mode: Mode::Normal,
            popup: None,
            key_events: KeyEvents(Vec::new()),
            config,
            config_path,
            home_dir,
        }
    }
}

/// The coarsest unit that fits in a duration in milliseconds, as the lists
/// show ages: years (365 days), months (30 days), weeks, days, hours,
/// minutes, seconds, or `now` under a second.
pub open spec fn duration_text(ms: u64) -> Seq<char> {
    let year = ms / 31_536_000_000;
    let month = ms / 2_592_000_000;
    let week = ms / 604_800_000;
    let day = ms / 86_400_000;
    let hour = ms / 3_600_000;
    let minute = ms / 60_000;
    let second = ms / 1000;
    if year > 0 {
        decimal(year as nat) + "y"@
    } else if month > 0 {
        decimal(month as nat) + "M"@
    } else if week > 0 {
        decimal(week as nat) + "w"@
    } else if day > 0 {
        decimal(day as nat) + "d"@
    } else if hour > 0 {
        decimal(hour as nat) + "h"@
    } else if minute > 0 {
        decimal(minute as nat) + "m"@
    } else if second > 0 {
        decimal(second as nat) + "s"@
    } else {
        "now"@
    }
}

/// A number followed by a unit letter.
fn number_with_unit(n: u64, unit: &str) -> (res: String)
    ensures
        res@ == decimal(n as nat) + unit@,
{
    let mut s = String::new();
    push_decimal(&mut s, n);
    push_str(&mut s, unit);
    assert(s@ =~= decimal(n as nat) + unit@);
    s
}

/// The age of something, in its coarsest unit (see [`duration_text`]).
pub fn biggest_duration_string(duration_ms: u64) -> (res: String)
    ensures
        res@ == duration_text(duration_ms),
{
    let year = duration_ms / 31_536_000_000;
    let month = duration_ms / 2_592_000_000;
    let week = duration_ms / 604_800_000;
    let day = duration_ms / 86_400_000;
    let hour = duration_ms / 3_600_000;
    let minute = duration_ms / 60_000;
    let second = duration_ms / 1000;
    if year > 0 {
        number_with_unit(year, "y")
    } else if month > 0 {
        number_with_unit(month, "M")
    } else if week > 0 {
        number_with_unit(week, "w")
    } else if day > 0 {
        number_with_unit(day, "d")
    } else if hour > 0 {
        number_with_unit(hour, "h")
    } else if minute > 0 {
        number_with_unit(minute, "m")
    } else if second > 0 {
        number_with_unit(second, "s")
    } else {
        owned("now")
    }
}

/// The number of bytes of a character in UTF-8.
pub open spec fn utf8_len(c: char) -> nat {
    if (c as u32) < 0x80 {
        1
    } else if (c as u32) < 0x800 {
        2
    } else if (c as u32) < 0x10000 {
        3
    } else {
        4
    }
}

/// The number of bytes of a text in UTF-8 (`str::len`).
pub open spec fn utf8_size(s: Seq<char>) -> nat
    decreases s.len(),
{
    if s.len() == 0 {
        0
    } else {
        utf8_size(s.drop_last()) + utf8_len(s.last())
    }
}

/// A longer prefix takes more bytes.
proof fn lemma_utf8_size_grows(s: Seq<char>, j: int, k: int)
    requires
        0 <= j < k <= s.len(),
    ensures
        utf8_size(s.take(j)) < utf8_size(s.take(k)),
    decreases k - j,
{
    assert(s.take(k).drop_last() =~= s.take(k - 1));
    if j < k - 1 {
        lemma_utf8_size_grows(s, j, k - 1);
    }
}

/// `n` spaces.
pub open spec fn spaces(n: nat) -> Seq<char> {
    Seq::new(n, |i: int| ' ')
}

/// The number of characters of `s` that take `width` bytes, where `width`
/// falls between characters.
pub open spec fn chars_in_bytes(s: Seq<char>, width: nat) -> int {
    choose|k: int| 0 <= k <= s.len() && utf8_size(s.take(k)) == width
}

/// `width` bytes into `s` fall between two characters or at an end.
pub open spec fn is_char_boundary(s: Seq<char>, width: nat) -> bool {
    exists|k: int| 0 <= k <= s.len() && utf8_size(s.take(k)) == width
}

/// The text cut to its first `width` bytes, or padded with spaces to
/// `width` bytes.
pub open spec fn truncated_or_padded(s: Seq<char>, width: nat) -> Seq<char> {
    if utf8_size(s) >= width {
        s.take(chars_in_bytes(s, width))
    } else {
        s + spaces((width - utf8_size(s)) as nat)
    }
}

/// The UTF-8 length of a character.
fn char_utf8_len(c: char) -> (res: usize)
    ensures
        res == utf8_len(c),
{
    let n = c as u32;
    if n < 0x80 {
        1
    } else if n < 0x800 {
        2
    } else if n < 0x10000 {
        3
    } else {
        4
    }
}

/// Cuts the text to `width` bytes, or pads it with spaces to `width` bytes
/// (see [`truncated_or_padded`]). Cutting inside a character is left out.
pub fn truncate_or_pad(s: String, width: usize) -> (res: String)
    requires
        utf8_size(s@) >= width ==> is_char_boundary(s@, width as nat),
    ensures
        res@ == truncated_or_padded(s@, width as nat),
{
    let cs = chars_of(s.as_str());
    let mut b: u128 = 0;
    let mut k: usize = 0;
    assert(s@.take(0) =~= Seq::<char>::empty());
    while k < cs.len() && b < width as u128
        invariant
            k <= cs.len(),
            cs@ == s@,
            b <= 4 * k,
            b == utf8_size(s@.take(k as int)),
            k > 0 ==> utf8_size(s@.take(k - 1)) < width,
        decreases cs.len() - k,
    {
        assert(s@.take(k + 1).drop_last() =~= s@.take(k as int));
        let l = char_utf8_len(cs[k]);
        b = b + l as u128;
        k = k + 1;
    }
    proof {
        lemma_utf8_size_total(s@);
    }
    if k == cs.len() && b < width as u128 {
        assert(s@.take(k as int) =~= s@);
        let mut res = s;
        let mut pad: usize = width - b as usize;
        let ghost start = res@;
        while pad > 0
            invariant
                pad <= width - b,
                b < width,
                res@ == start + spaces((width - b - pad) as nat),
            decreases pad,
        {
            push_char(&mut res, ' ');
            pad = pad - 1;
            assert(res@ =~= start + spaces((width - b - pad) as nat));
        }
        res
    } else {
        proof {
            assert(utf8_size(s@) >= width) by {
                if k < cs.len() {
                    lemma_utf8_size_grows(s@, k as int, cs.len() as int);
                    assert(s@.take(cs.len() as int) =~= s@);
                } else {
                    assert(s@.take(k as int) =~= s@);
                }
            }
            let w = choose|w: int| 0 <= w <= s@.len() && utf8_size(s@.take(w)) == width;
            if w < k {
                if w < k - 1 {
                    lemma_utf8_size_grows(s@, w, k - 1);
                }
            } else if w > k {
                lemma_utf8_size_grows(s@, k as int, w);
            }
            assert(w == k);
        }
        string_of_range(&cs, 0, k)
    }
}

/// The byte count of a text is at least that of each prefix.
proof fn lemma_utf8_size_total(s: Seq<char>)
    ensures
        s.take(s.len() as int) == s,
{
    assert(s.take(s.len() as int) =~= s);
}

/// The time, in milliseconds since the epoch, as `chrono` writes it in
/// RFC 3339, or `None` outside the range of its dates.
pub uninterp spec fn utc_rfc3339_text(secs: i64, nanos: u32) -> Option<Seq<char>>;

/// `DateTime::from_timestamp(secs, nanos)` then `to_rfc3339`.
#[verifier::external_body]
fn utc_rfc3339(secs: i64, nanos: u32) -> (res: Option<String>)
    ensures
        match res {
            Some(t) => utc_rfc3339_text(secs, nanos) == Some(t@),
            None => utc_rfc3339_text(secs, nanos) is None,
        },
{
    chrono::DateTime::from_timestamp(secs, nanos).map(|t| t.to_rfc3339())
}

/// The time of a timestamp in milliseconds, in RFC 3339.
pub open spec fn time_text(ts: u64) -> Option<Seq<char>> {
    utc_rfc3339_text((ts / 1000) as i64, ((ts % 1000) * 1_000_000) as u32)
}

/// The time of a timestamp in milliseconds, in RFC 3339 (see [`time_text`]).
pub fn timestamp_text(ts: u64) -> (res: Option<String>)
    ensures
        match res {
            Some(t) => time_text(ts) == Some(t@),
            None => time_text(ts) is None,
        },
{
    let secs: i64 = (ts / 1000) as i64;
    let nanos: u32 = ((ts % 1000) * 1_000_000) as u32;
    utc_rfc3339(secs, nanos)
}

/// A label followed by a text.
fn labelled(label: &str, value: &str) -> (res: String)
    ensures
        res@ == label@ + value@,
{
    let mut s = owned(label);
    push_str(&mut s, value);
    s
}

/// The lines of the popup about a contact.
pub open spec fn contact_info_text(c: ContactView) -> Seq<Seq<char>> {
    let time = match c.last_message_timestamp {
        Some(ts) => match time_text(ts) {
            Some(t) => t,
            None => "unknown"@,
        },
        None => "unknown"@,
    };
    seq![
        "Name:              "@ + c.name,
        "Id:                "@ + contact_id_text(c.id),
        "Last message time: "@ + time,
        "Description:       "@ + c.description,
    ]
}

/// The title and the lines of the popup about a contact (see
/// [`contact_info_text`]). A time outside `chrono`'s dates shows as unknown.
pub fn render_contact_info(contact: &Contact) -> (res: (String, Vec<String>))
    ensures
        res.0@ == "Contact info"@,
        texts(res.1@) == contact_info_text(contact@),
{
    let time = match contact.last_message_timestamp {
        Some(ts) => match timestamp_text(ts) {
            Some(t) => t,
            None => owned("unknown"),
        },
        None => owned("unknown"),
    };
    let mut lines: Vec<String> = Vec::new();
    lines.push(labelled("Name:              ", contact.name.as_str()));
    let id = contact.id.to_text();
    lines.push(labelled("Id:                ", id.as_str()));
    lines.push(labelled("Last message time: ", time.as_str()));
    lines.push(labelled("Description:       ", contact.description.as_str()));
    assert(texts(lines@) =~= contact_info_text(contact@));
    (owned("Contact info"), lines)
}

/// The lines of the popup about a message, from the sender's name and the
/// message's own lines.
pub open spec fn message_info_text(
    sender_name: Seq<char>,
    m: MessageView,
    time: Seq<char>,
    rendered: Seq<Seq<char>>,
) -> Seq<Seq<char>> {
    seq![
        "Sender name: "@ + sender_name,
        "Sender id:   "@ + hex_text(m.sender),
        "Time:        "@ + time,
        Seq::<char>::empty(),
    ] + rendered
}

/// The title and the lines of the popup about a message (see
/// [`message_info_text`]): the sender is looked up among the users, and the
/// message is drawn at the width. `None` where the sender is not known or
/// the time is outside `chrono`'s dates.
pub fn render_message_info(width: usize, tui_state: &TuiState, message: &Message) -> (res: Option<(String, Vec<String>)>)
    ensures
        res is Some <==> (latest_user(tui_state.contacts.user_entries(), message.sender@) is Some && time_text(
            message.timestamp,
        ) is Some),
        res is Some ==> res.unwrap().0@ == "Message info"@,
        res is Some ==> exists|r: Seq<Seq<char>>|
            #![trigger crate::tui::messages::rendered(message@, crate::tui::messages::wrapped_lines(crate::tui::messages::body_text(message@), width), r)]
            texts(res.unwrap().1@) == message_info_text(
                latest_user(tui_state.contacts.user_entries(), message.sender@)->Some_0.name,
                message@,
                time_text(message.timestamp)->Some_0,
                r,
            ) && crate::tui::messages::rendered(
                message@,
                crate::tui::messages::wrapped_lines(crate::tui::messages::body_text(message@), width),
                r,
            ),
{
    let time = match timestamp_text(message.timestamp) {
        Some(t) => t,
        None => {
            return match tui_state.contacts.contact_by_id(&message.sender) {
                Some(_) => None,
                None => None,
            };
        },
    };
    let sender = match tui_state.contacts.contact_by_id(&message.sender) {
        Some(c) => c,
        None => {
            return None;
        },
    };
    let mut lines: Vec<String> = Vec::new();
    lines.push(labelled("Sender name: ", sender.name.as_str()));
    let id = hex_encode(&message.sender);
    lines.push(labelled("Sender id:   ", id.as_str()));
    lines.push(labelled("Time:        ", time.as_str()));
    lines.push(String::new());
    let rendered = message.render(width);
    let ghost head = texts(lines@);
    let mut i: usize = 0;
    while i < rendered.len()
        invariant
            i <= rendered.len(),
            texts(lines@) == head + texts(rendered@).take(i as int),
        decreases rendered.len() - i,
    {
        let ghost prev = lines@;
        lines.push(owned(rendered[i].as_str()));
        proof {
            crate::text::lemma_texts_push(prev, lines@.last());
        }
        i = i + 1;
        assert(texts(lines@) =~= head + texts(rendered@).take(i as int));
    }
    assert(texts(rendered@).take(rendered.len() as int) =~= texts(rendered@));
    assert(head =~= seq![
        "Sender name: "@ + sender.name@,
        "Sender id:   "@ + hex_text(message.sender@),
        "Time:        "@ + time@,
        Seq::<char>::empty(),
    ]);
    proof {
        let r = texts(rendered@);
        assert(texts(lines@) == message_info_text(sender.name@, message@, time@, r));
        assert(crate::tui::messages::rendered(
            message@,
            crate::tui::messages::wrapped_lines(crate::tui::messages::body_text(message@), width),
            r,
        ));
    }
    Some((owned("Message info"), lines))
}

/// The lines that list key bindings: the keys, ` = ` and the command.
pub open spec fn binding_lines(b: Seq<(KeyEvents, String)>) -> Seq<Seq<char>> {
    Seq::new(b.len(), |i: int| key_events_text(b[i].0.0@) + " = "@ + b[i].1@)
}

/// The key bindings of a mode, sorted, one per line.
pub open spec fn bindings_text(b: Seq<(KeyEvents, String)>) -> Seq<char> {
    join(sorted_of(binding_lines(b)), "\n"@)
}

/// The key bindings of a mode, sorted, one per line (see [`bindings_text`]).
pub fn display_keybinds(bindings: &[(KeyEvents, String)]) -> (res: String)
    ensures
        res@ == bindings_text(bindings@),
{
    let mut lines: Vec<String> = Vec::new();
    let mut i: usize = 0;
    while i < bindings.len()
        invariant
            i <= bindings.len(),
            texts(lines@) == binding_lines(bindings@).take(i as int),
        decreases bindings.len() - i,
    {
        let mut l = bindings[i].0.to_text();
        push_str(&mut l, " = ");
        push_str(&mut l, bindings[i].1.as_str());
        let ghost prev = lines@;
        lines.push(l);
        proof {
            crate::text::lemma_texts_push(prev, lines@.last());
        }
        i = i + 1;
        assert(texts(lines@) =~= binding_lines(bindings@).take(i as int));
    }
    assert(binding_lines(bindings@).take(bindings.len() as int) =~= binding_lines(bindings@));
    let sorted = sort_strings(lines);
    join_strings(sorted.as_slice(), "\n")
}

/// The text of the popup of key bindings: the bindings of each mode under a
/// heading.
pub open spec fn keybinds_text(kb: KeyBinds) -> Seq<char> {
    "Normal mode bindings\n"@ + bindings_text(kb.normal@) + "\n\nCommand mode bindings\n"@
        + bindings_text(kb.command@) + "\n\nCompose mode bindings\n"@ + bindings_text(kb.compose@)
        + "\n\nPopup mode bindings\n"@ + bindings_text(kb.popup@)
}

/// The title and the text of the popup of key bindings (see [`keybinds_text`]).
pub fn render_keybinds(keybindings: &KeyBinds) -> (res: (String, String))
    ensures
        res.0@ == "Keybindings"@,
        res.1@ == keybinds_text(*keybindings),
{
    let n = display_keybinds(keybindings.iter(Mode::Normal));
    let c = display_keybinds(keybindings.iter(Mode::Command { previous: BasicMode::Normal }));
    let o = display_keybinds(keybindings.iter(Mode::Compose));
    let p = display_keybinds(keybindings.iter(Mode::Popup));
    let mut s = owned("Normal mode bindings\n");
    push_str(&mut s, n.as_str());
    push_str(&mut s, "\n\nCommand mode bindings\n");
    push_str(&mut s, c.as_str());
    push_str(&mut s, "\n\nCompose mode bindings\n");
    push_str(&mut s, o.as_str());
    push_str(&mut s, "\n\nPopup mode bindings\n");
    push_str(&mut s, p.as_str());
    (owned("Keybindings"), s)
}

/// The lines of the popup of the command history: each command after `:`.
pub open spec fn history_lines(commands: Seq<Seq<char>>) -> Seq<Seq<char>> {
    Seq::new(commands.len(), |i: int| ":"@ + commands[i])
}

/// The title and the text of the popup of the command history (see
/// [`history_lines`]), oldest first.
pub fn render_command_line_history(tui_state: &TuiState) -> (res: (String, String))
    ensures
        res.0@ == "Command history"@,
        res.1@ == join(history_lines(tui_state.command_line.history@.commands), "\n"@),
{
    let commands = tui_state.command_line.history.iter();
    let ghost cs = tui_state.command_line.history@.commands;
    assert(texts(commands@) == cs);
    let mut lines: Vec<String> = Vec::new();
    let mut i: usize = 0;
    while i < commands.len()
        invariant
            i <= commands.len(),
            texts(commands@) == cs,
            texts(lines@) == history_lines(cs).take(i as int),
        decreases commands.len() - i,
    {
        let l = labelled(":", commands[i].as_str());
        assert(cs[i as int] == commands@[i as int]@);
        let ghost prev = lines@;
        lines.push(l);
        proof {
            crate::text::lemma_texts_push(prev, lines@.last());
        }
        i = i + 1;
        assert(texts(lines@) =~= history_lines(cs).take(i as int));
    }
    assert(history_lines(cs).take(commands.len() as int) =~= history_lines(cs));
    (owned("Command history"), join_strings(lines.as_slice(), "\n"))
}

/// Spaces add a byte each.
proof fn lemma_utf8_size_padded(s: Seq<char>, k: nat)
    ensures
        utf8_size(s + spaces(k)) == utf8_size(s) + k,
    decreases k,
{
    if k == 0 {
        assert(s + spaces(0) =~= s);
    } else {
        lemma_utf8_size_padded(s, (k - 1) as nat);
        assert((s + spaces(k)).drop_last() =~= s + spaces((k - 1) as nat));
        assert((s + spaces(k)).last() == ' ');
    }
}

/// A text cut or padded to a width takes exactly that many bytes.
pub proof fn law_truncate_or_pad_width(s: Seq<char>, width: nat)
    requires
        utf8_size(s) >= width ==> is_char_boundary(s, width),
    ensures
        utf8_size(truncated_or_padded(s, width)) == width,
{
    if utf8_size(s) < width {
        lemma_utf8_size_padded(s, (width - utf8_size(s)) as nat);
    }
}


/// `width` bytes into the text fall between two characters or at an end
/// (see [`is_char_boundary`]).
pub fn char_boundary(s: &str, width: usize) -> (res: bool)
    ensures
        res == is_char_boundary(s@, width as nat),
{
    let cs = chars_of(s);
    let mut b: u128 = 0;
    let mut k: usize = 0;
    assert(s@.take(0) =~= Seq::<char>::empty());
    while k < cs.len() && b < width as u128
        invariant
            k <= cs.len(),
            cs@ == s@,
            b <= 4 * k,
            b == utf8_size(s@.take(k as int)),
            forall|j: int| 0 <= j < k ==> utf8_size(s@.take(j)) < width,
        decreases cs.len() - k,
    {
        assert(s@.take(k + 1).drop_last() =~= s@.take(k as int));
        let l = char_utf8_len(cs[k]);
        b = b + l as u128;
        k = k + 1;
    }
    if b == width as u128 {
        return true;
    }
    proof {
        assert forall|j: int| 0 <= j <= s@.len() implies utf8_size(#[trigger] s@.take(j)) != width by {
            if j < k {
            } else if j == k {
            } else {
                lemma_utf8_size_grows(s@, k as int, j);
                assert(k == cs.len() || b >= width);
                assert(k < j);
            }
        }
    }
    false
}

/// The age of something from its time to the time `now` (none for a time
/// after `now`), in its coarsest unit (see [`duration_text`]).
pub open spec fn age_text(now: u64, then: u64) -> Seq<char> {
    duration_text(
        if now >= then {
            (now - then) as u64
        } else {
            0
        },
    )
}

/// The text after spaces that make it `width` characters wide, where it is
/// narrower (as `{:>width}` writes it).
pub open spec fn right_aligned(s: Seq<char>, width: nat) -> Seq<char> {
    if s.len() >= width {
        s
    } else {
        spaces((width - s.len()) as nat) + s
    }
}

/// The time a message is shown at: that of its last edit, if any.
pub open spec fn shown_time(m: MessageView) -> u64 {
    if m.edits.len() > 0 {
        m.edits.last().timestamp
    } else {
        m.timestamp
    }
}

/// What a message of the list starts with: its sender's name cut or padded
/// to 20 bytes, its age right-aligned to 3 characters, each followed by a
/// space.
pub open spec fn message_header_text(sender_name: Seq<char>, now: u64, m: MessageView) -> Seq<char> {
    truncated_or_padded(sender_name, 20) + " "@ + right_aligned(age_text(now, shown_time(m)), 3) + " "@
}

/// What a message of the list starts with (see [`message_header_text`]),
/// the sender found by identity among the contacts; `None` where the sender
/// is unknown or 20 bytes into their name fall inside a character, which the
/// list cannot show.
pub fn message_header(tui_state: &TuiState, message: &Message, now: u64) -> (res: Option<String>)
    ensures
        match latest_user(tui_state.contacts.user_entries(), message@.sender) {
            Some(c) => if utf8_size(c.name) >= 20 && !is_char_boundary(c.name, 20) {
                res is None
            } else {
                res is Some && res->0@ == message_header_text(c.name, now, message@)
            },
            None => res is None,
        },
{
    proof {
        reveal_strlit(" ");
    }
    let sender = match tui_state.contacts.contact_by_id(&message.sender) {
        Some(c) => c,
        None => {
            return None;
        },
    };
    let name = owned(sender.name.as_str());
    if !char_boundary(name.as_str(), 20) {
        let size_at_least = utf8_at_least(name.as_str(), 20);
        if size_at_least {
            return None;
        }
    }
    let mut header = truncate_or_pad(name, 20);
    push_str(&mut header, " ");
    let then = if message.edits.len() > 0 {
        message.edits[message.edits.len() - 1].timestamp
    } else {
        message.timestamp
    };
    let age = biggest_duration_string(if now >= then { now - then } else { 0 });
    let age_chars = chars_of(age.as_str());
    let mut pad = if age_chars.len() < 3 { 3 - age_chars.len() } else { 0 };
    let ghost start = header@;
    while pad > 0
        invariant
            pad <= 3,
            pad > 0 ==> age_chars@.len() + pad <= 3,
            age_chars@.len() < 3 ==> header@ == start + spaces((3 - age_chars@.len() - pad) as nat),
            age_chars@.len() >= 3 ==> pad == 0 && header@ == start,
        decreases pad,
    {
        push_char(&mut header, ' ');
        pad = pad - 1;
        assert(header@ =~= start + spaces((3 - age_chars@.len() - pad) as nat));
    }
    push_str(&mut header, age.as_str());
    push_str(&mut header, " ");
    assert(header@ =~= message_header_text(sender@.name, now, message@));
    Some(header)
}

/// The text takes at least `width` bytes in UTF-8.
fn utf8_at_least(s: &str, width: usize) -> (res: bool)
    ensures
        res == (utf8_size(s@) >= width),
{
    let cs = chars_of(s);
    let mut b: u128 = 0;
    let mut k: usize = 0;
    assert(s@.take(0) =~= Seq::<char>::empty());
    while k < cs.len()
        invariant
            k <= cs.len(),
            cs@ == s@,
            b <= 4 * k,
            b == utf8_size(s@.take(k as int)),
        decreases cs.len() - k,
    {
        assert(s@.take(k + 1).drop_last() =~= s@.take(k as int));
        let l = char_utf8_len(cs[k]);
        b = b + l as u128;
        k = k + 1;
    }
    assert(s@.take(k as int) =~= s@);
    b >= width as u128
}

/// The lines of an item of the message list: the header before the first
/// line of the message, and as many spaces as the header has bytes before
/// each other line.
pub open spec fn indented_lines(header: Seq<char>, content: Seq<Seq<char>>) -> Seq<Seq<char>> {
    Seq::new(
        content.len(),
        |i: int|
            if i == 0 {
                header + content[i]
            } else {
                spaces(utf8_size(header)) + content[i]
            },
    )
}

/// The lines of an item of the message list (see [`indented_lines`]).
pub fn indent_lines(header: &str, content: Vec<String>) -> (res: Vec<String>)
    ensures
        texts(res@) == indented_lines(header@, texts(content@)),
{
    let cs = chars_of(header);
    let mut b: u128 = 0;
    let mut k: usize = 0;
    assert(header@.take(0) =~= Seq::<char>::empty());
    while k < cs.len()
        invariant
            k <= cs.len(),
            cs@ == header@,
            b <= 4 * k,
            b == utf8_size(header@.take(k as int)),
        decreases cs.len() - k,
    {
        assert(header@.take(k + 1).drop_last() =~= header@.take(k as int));
        let l = char_utf8_len(cs[k]);
        b = b + l as u128;
        k = k + 1;
    }
    assert(header@.take(k as int) =~= header@);
    let mut indent = String::new();
    let mut n: u128 = 0;
    while n < b
        invariant
            n <= b,
            indent@ == spaces(n as nat),
        decreases b - n,
    {
        push_char(&mut indent, ' ');
        n = n + 1;
        assert(indent@ =~= spaces(n as nat));
    }
    let ghost all = texts(content@);
    let mut lines: Vec<String> = Vec::new();
    let mut i: usize = 0;
    while i < content.len()
        invariant
            i <= content.len(),
            all == texts(content@),
            indent@ == spaces(utf8_size(header@)),
            texts(lines@) == indented_lines(header@, all).take(i as int),
        decreases content.len() - i,
    {
        let mut line = if i == 0 {
            owned(header)
        } else {
            owned(indent.as_str())
        };
        push_str(&mut line, content[i].as_str());
        let ghost before = lines@;
        lines.push(line);
        i = i + 1;
        assert(texts(lines@) =~= texts(before).push(lines@.last()@));
        assert(texts(lines@) =~= indented_lines(header@, all).take(i as int));
    }
    assert(indented_lines(header@, all).take(i as int) =~= indented_lines(header@, all));
    lines
}

/// The two cells of a row of the contact list: the name, and the age of the
/// last message (see [`age_text`]), empty without one.
pub fn contact_row(contact: &Contact, now: u64) -> (res: (String, String))
    ensures
        res.0@ == contact@.name,
        res.1@ == match contact@.last_message_timestamp {
            Some(ts) => age_text(now, ts),
            None => Seq::empty(),
        },
{
    let age = match contact.last_message_timestamp {
        Some(ts) => biggest_duration_string(if now >= ts { now - ts } else { 0 }),
        None => String::new(),
    };
    (owned(contact.name.as_str()), age)
}

} // verus!
