//! Keys, key sequences and the bindings from key sequences to commands, with
//! the text form used in the configuration file (`a`, `<c-a>`, `<enter>`).
use vstd::prelude::*;

use crate::text::{chars_of, decimal, push_char, push_decimal, push_str, string_of};
use crate::tui::Mode;

verus! {

/// A key of the keyboard, as the terminal reports it.
#[derive(Debug, Clone, Copy, PartialEq, Eq, Structural, Hash)]
pub enum KeyCode {
    Backspace,
    Enter,
    Left,
    Right,
    Up,
    Down,
    Home,
    End,
    PageUp,
    PageDown,
    Tab,
    BackTab,
    Delete,
    Insert,
    F(u8),
    Char(char),
    Null,
    Esc,
    CapsLock,
    ScrollLock,
    NumLock,
    PrintScreen,
    Pause,
    Menu,
    KeypadBegin,
}

/// The modifier keys held with a key.
#[derive(Debug, Clone, Copy, PartialEq, Eq, Structural, Hash)]
pub struct KeyModifiers {
    pub shift: bool,
    pub control: bool,
    pub alt: bool,
    pub super_key: bool,
    pub hyper: bool,
    pub meta: bool,
}

/// A key with its modifiers.
#[derive(Debug, Clone, Copy, PartialEq, Eq, Structural, Hash)]
pub struct KeyEvent {
    pub code: KeyCode,
    pub modifiers: KeyModifiers,
}

/// A sequence of keys, as bound to a command.
#[derive(Debug, Clone, PartialEq, Eq, Hash)]
pub struct KeyEvents(pub Vec<KeyEvent>);

/// No modifier held.
pub open spec fn no_modifiers() -> KeyModifiers {
    KeyModifiers {
        shift: false,
        control: false,
        alt: false,
        super_key: false,
        hyper: false,
        meta: false,
    }
}

/// Shift alone.
pub open spec fn shift_only() -> KeyModifiers {
    KeyModifiers { shift: true, ..no_modifiers() }
}

impl KeyModifiers {
    /// No modifier held.
    pub fn empty() -> (res: Self)
        ensures
            res == no_modifiers(),
    {
        KeyModifiers {
            shift: false,
            control: false,
            alt: false,
            super_key: false,
            hyper: false,
            meta: false,
        }
    }

    /// No modifier is held.
    pub fn is_empty(&self) -> (res: bool)
        ensures
            res == (*self == no_modifiers()),
    {
        !self.shift && !self.control && !self.alt && !self.super_key && !self.hyper && !self.meta
    }
}

/// `char::is_uppercase`: whether `c` has the Unicode `Uppercase` property.
pub uninterp spec fn char_is_uppercase(c: char) -> bool;

/// Whether a character has the Unicode `Uppercase` property
/// (`char::is_uppercase`). The contract also records the ASCII case: among
/// ASCII characters exactly `A` to `Z` are uppercase.
#[verifier::external_body]
pub fn is_uppercase(c: char) -> (res: bool)
    ensures
        res == char_is_uppercase(c),
        (c as u32) < 128 ==> (res <==> ('A' <= c && c <= 'Z')),
{
    c.is_uppercase()
}

/// The name a key has in text, as the terminal library writes it on Linux.
pub open spec fn key_code_label(code: KeyCode) -> Seq<char> {
    match code {
        KeyCode::Backspace => "Backspace"@,
        KeyCode::Enter => "Enter"@,
        KeyCode::Left => "Left"@,
        KeyCode::Right => "Right"@,
        KeyCode::Up => "Up"@,
        KeyCode::Down => "Down"@,
        KeyCode::Home => "Home"@,
        KeyCode::End => "End"@,
        KeyCode::PageUp => "Page Up"@,
        KeyCode::PageDown => "Page Down"@,
        KeyCode::Tab => "Tab"@,
        KeyCode::BackTab => "Back Tab"@,
        KeyCode::Delete => "Del"@,
        KeyCode::Insert => "Insert"@,
        KeyCode::F(n) => seq!['F'] + decimal(n as nat),
        KeyCode::Char(c) => if c == ' ' {
            "Space"@
        } else {
            seq![c]
        },
        KeyCode::Null => "Null"@,
        KeyCode::Esc => "Esc"@,
        KeyCode::CapsLock => "Caps Lock"@,
        KeyCode::ScrollLock => "Scroll Lock"@,
        KeyCode::NumLock => "Num Lock"@,
        KeyCode::PrintScreen => "Print Screen"@,
        KeyCode::Pause => "Pause"@,
        KeyCode::Menu => "Menu"@,
        KeyCode::KeypadBegin => "Begin"@,
    }
}

impl KeyCode {
    /// Appends the name of the key to `out`.
    pub fn push_label(&self, out: &mut String)
        ensures
            final(out)@ == old(out)@ + key_code_label(*self),
    {
        match *self {
            KeyCode::F(n) => {
                push_char(out, 'F');
                push_decimal(out, n as u64);
                assert(old(out)@ + key_code_label(*self) =~= old(out)@.push('F') + decimal(
                    n as nat,
                ));
            },
            KeyCode::Char(c) => {
                if c == ' ' {
                    push_str(out, "Space");
                } else {
                    push_char(out, c);
                    assert(old(out)@ + seq![c] =~= old(out)@.push(c));
                }
            },
            KeyCode::Backspace => push_str(out, "Backspace"),
            KeyCode::Enter => push_str(out, "Enter"),
            KeyCode::Left => push_str(out, "Left"),
            KeyCode::Right => push_str(out, "Right"),
            KeyCode::Up => push_str(out, "Up"),
            KeyCode::Down => push_str(out, "Down"),
            KeyCode::Home => push_str(out, "Home"),
            KeyCode::End => push_str(out, "End"),
            KeyCode::PageUp => push_str(out, "Page Up"),
            KeyCode::PageDown => push_str(out, "Page Down"),
            KeyCode::Tab => push_str(out, "Tab"),
            KeyCode::BackTab => push_str(out, "Back Tab"),
            KeyCode::Delete => push_str(out, "Del"),
            KeyCode::Insert => push_str(out, "Insert"),
            KeyCode::Null => push_str(out, "Null"),
            KeyCode::Esc => push_str(out, "Esc"),
            KeyCode::CapsLock => push_str(out, "Caps Lock"),
            KeyCode::ScrollLock => push_str(out, "Scroll Lock"),
            KeyCode::NumLock => push_str(out, "Num Lock"),
            KeyCode::PrintScreen => push_str(out, "Print Screen"),
            KeyCode::Pause => push_str(out, "Pause"),
            KeyCode::Menu => push_str(out, "Menu"),
            KeyCode::KeypadBegin => push_str(out, "Begin"),
        }
    }
}

/// The text form of a key event: a plain character, or a capital letter typed
/// with shift, stands alone; anything else is written in angle brackets with
/// `C-`, `S-` (left out for a capital) and `A-` before the key's name.
pub open spec fn key_event_text(ke: KeyEvent) -> Seq<char> {
    let is_char = ke.code is Char;
    let is_capital = match ke.code {
        KeyCode::Char(c) => char_is_uppercase(c),
        _ => false,
    };
    if (is_char && ke.modifiers == no_modifiers()) || (is_capital && ke.modifiers
        == shift_only()) {
        key_code_label(ke.code)
    } else {
        seq!['<'] + (if ke.modifiers.control {
            "C-"@
        } else {
            seq![]
        }) + (if ke.modifiers.shift && !is_capital {
            "S-"@
        } else {
            seq![]
        }) + (if ke.modifiers.alt {
            "A-"@
        } else {
            seq![]
        }) + key_code_label(ke.code) + seq!['>']
    }
}

/// The text form of a key sequence: the text of each key, one after another.
pub open spec fn key_events_text(events: Seq<KeyEvent>) -> Seq<char>
    decreases events.len(),
{
    if events.len() == 0 {
        seq![]
    } else {
        key_events_text(events.drop_last()) + key_event_text(events.last())
    }
}

/// The names of the special keys, in lower case, and the key each stands for.
pub open spec fn named_key(name: Seq<char>) -> Option<KeyCode> {
    if name == "enter"@ {
        Some(KeyCode::Enter)
    } else if name == "esc"@ {
        Some(KeyCode::Esc)
    } else if name == "up"@ {
        Some(KeyCode::Up)
    } else if name == "down"@ {
        Some(KeyCode::Down)
    } else if name == "left"@ {
        Some(KeyCode::Left)
    } else if name == "right"@ {
        Some(KeyCode::Right)
    } else if name == "home"@ {
        Some(KeyCode::Home)
    } else if name == "end"@ {
        Some(KeyCode::End)
    } else if name == "pageup"@ {
        Some(KeyCode::PageUp)
    } else if name == "pagedown"@ {
        Some(KeyCode::PageDown)
    } else {
        None
    }
}

/// ASCII lower case of a character; other characters are left as they are.
pub open spec fn ascii_lower(c: char) -> char {
    if 'A' <= c && c <= 'Z' {
        ((c as u8) + 32) as char
    } else {
        c
    }
}

/// `s` in lower case, as far as the names of special keys go: every name is
/// ASCII and no character outside ASCII lowers to one of its letters, so
/// comparing with the names after ASCII lowering agrees with `str::to_lowercase`.
pub open spec fn lower_ascii(s: Seq<char>) -> Seq<char> {
    s.map_values(|c: char| ascii_lower(c))
}

/// Removes the modifier prefixes (`c-`, `a-`, `s-`, either case) from the front
/// of `inner`, adding each to `mods`; gives the rest and the modifiers.
pub open spec fn strip_modifiers(inner: Seq<char>, mods: KeyModifiers) -> (Seq<char>, KeyModifiers)
    decreases inner.len(),
{
    if inner.len() >= 2 && inner[1] == '-' && (inner[0] == 'c' || inner[0] == 'C') {
        strip_modifiers(inner.skip(2), KeyModifiers { control: true, ..mods })
    } else if inner.len() >= 2 && inner[1] == '-' && (inner[0] == 'a' || inner[0] == 'A') {
        strip_modifiers(inner.skip(2), KeyModifiers { alt: true, ..mods })
    } else if inner.len() >= 2 && inner[1] == '-' && (inner[0] == 's' || inner[0] == 'S') {
        strip_modifiers(inner.skip(2), KeyModifiers { shift: true, ..mods })
    } else {
        (inner, mods)
    }
}

/// A single ASCII character as a key: an uppercase letter adds shift.
pub open spec fn char_key(c: char, mods: KeyModifiers) -> KeyEvent {
    KeyEvent {
        code: KeyCode::Char(c),
        modifiers: if char_is_uppercase(c) {
            KeyModifiers { shift: true, ..mods }
        } else {
            mods
        },
    }
}

/// What `KeyEvent::from_str` accepts: `<` modifiers key `>` where the key is one
/// ASCII character or the name of a special key in any case, or a single ASCII
/// character on its own.
pub open spec fn parse_key_event(s: Seq<char>) -> Option<KeyEvent> {
    if s.len() >= 2 && s[0] == '<' && s[s.len() - 1] == '>' {
        let (rest, mods) = strip_modifiers(s.subrange(1, s.len() - 1), no_modifiers());
        if rest.len() == 1 && (rest[0] as u32) < 128 {
            Some(char_key(rest[0], mods))
        } else {
            match named_key(lower_ascii(rest)) {
                Some(code) => Some(KeyEvent { code, modifiers: mods }),
                None => None,
            }
        }
    } else if s.len() == 1 && (s[0] as u32) < 128 {
        Some(char_key(s[0], no_modifiers()))
    } else {
        None
    }
}

/// What `KeyEvents::from_str` does with the rest `s` of its input, having
/// collected the unfinished bracketed key `pending` and the keys `done`: an
/// opening bracket starts (or continues) a bracketed key, a closing one ends
/// it, any other character is a key of its own outside brackets; an unfinished
/// bracketed key at the end is dropped.
pub open spec fn parse_key_events_from(s: Seq<char>, pending: Seq<char>, done: Seq<KeyEvent>) -> Option<Seq<KeyEvent>>
    decreases s.len(),
{
    if s.len() == 0 {
        Some(done)
    } else {
        let c = s[0];
        if c == '<' {
            parse_key_events_from(s.drop_first(), pending.push(c), done)
        } else if c == '>' {
            match parse_key_event(pending.push(c)) {
                Some(ke) => parse_key_events_from(s.drop_first(), seq![], done.push(ke)),
                None => None,
            }
        } else if pending.len() == 0 {
            match parse_key_event(seq![c]) {
                Some(ke) => parse_key_events_from(s.drop_first(), pending, done.push(ke)),
                None => None,
            }
        } else {
            parse_key_events_from(s.drop_first(), pending.push(c), done)
        }
    }
}

/// What `KeyEvents::from_str` gives for a whole string.
pub open spec fn parse_key_events(s: Seq<char>) -> Option<Seq<KeyEvent>> {
    parse_key_events_from(s, seq![], seq![])
}

/// `cs[from..from + 2]` is the modifier prefix `lower-` or `upper-`.
fn has_prefix2(cs: &Vec<char>, from: usize, lower: char, upper: char) -> (res: bool)
    requires
        from <= cs.len(),
    ensures
        res == (cs.len() - from >= 2 && cs@[from + 1] == '-' && (cs@[from as int] == lower
            || cs@[from as int] == upper)),
{
    cs.len() - from >= 2 && cs[from + 1] == '-' && (cs[from] == lower || cs[from] == upper)
}

/// The character vectors `a` and `b` spell the same word, ignoring ASCII case in `a`.
fn eq_ignore_ascii_case(a: &Vec<char>, from: usize, to: usize, b: &str) -> (res: bool)
    requires
        from <= to <= a.len(),
    ensures
        res == (lower_ascii(a@.subrange(from as int, to as int)) == b@),
{
    let bs = chars_of(b);
    let ghost sub = a@.subrange(from as int, to as int);
    if to - from != bs.len() {
        assert(lower_ascii(sub).len() == sub.len());
        return false;
    }
    let mut i: usize = 0;
    while i < bs.len()
        invariant
            to - from == bs.len(),
            from <= to <= a.len(),
            bs@ == b@,
            sub == a@.subrange(from as int, to as int),
            i <= bs.len(),
            forall|j: int| 0 <= j < i ==> ascii_lower(sub[j]) == bs@[j],
        decreases bs.len() - i,
    {
        let c = a[from + i];
        let lc = if 'A' <= c && c <= 'Z' {
            ((c as u8) + 32) as char
        } else {
            c
        };
        assert(sub[i as int] == c);
        if lc != bs[i] {
            assert(lower_ascii(sub)[i as int] == lc);
            return false;
        }
        i = i + 1;
    }
    assert(lower_ascii(sub) =~= b@);
    true
}

impl KeyEvent {
    /// Parses the text form of one key (see [`parse_key_event`]); `Err(())`
    /// when the text is not a key.
    pub fn from_str(s: &str) -> (res: Result<KeyEvent, ()>)
        ensures
            match parse_key_event(s@) {
                Some(ke) => res == Ok::<KeyEvent, ()>(ke),
                None => res is Err,
            },
    {
        let cs = chars_of(s);
        let mut modifiers = KeyModifiers::empty();
        if cs.len() >= 2 && cs[0] == '<' && cs[cs.len() - 1] == '>' {
            let end = cs.len() - 1;
            let mut start: usize = 1;
            let ghost inner = s@.subrange(1, s@.len() - 1);
            assert(cs@.subrange(1, end as int) == inner);
            loop
                invariant_except_break
                    1 <= start <= end,
                    end == cs.len() - 1,
                    cs@ == s@,
                    inner == s@.subrange(1, s@.len() - 1),
                    strip_modifiers(cs@.subrange(start as int, end as int), modifiers)
                        == strip_modifiers(inner, no_modifiers()),
                ensures
                    1 <= start <= end,
                    end == cs.len() - 1,
                    cs@ == s@,
                    strip_modifiers(inner, no_modifiers()) == (
                        cs@.subrange(start as int, end as int),
                        modifiers,
                    ),
                decreases end - start,
            {
                let ghost before = cs@.subrange(start as int, end as int);
                if has_prefix2(&cs, start, 'c', 'C') && start + 2 <= end {
                    modifiers.control = true;
                    start = start + 2;
                    assert(before.skip(2) =~= cs@.subrange(start as int, end as int));
                } else if has_prefix2(&cs, start, 'a', 'A') && start + 2 <= end {
                    modifiers.alt = true;
                    start = start + 2;
                    assert(before.skip(2) =~= cs@.subrange(start as int, end as int));
                } else if has_prefix2(&cs, start, 's', 'S') && start + 2 <= end {
                    modifiers.shift = true;
                    start = start + 2;
                    assert(before.skip(2) =~= cs@.subrange(start as int, end as int));
                } else {
                    proof {
                        if before.len() >= 2 {
                            assert(before[0] == cs@[start as int]);
                            assert(before[1] == cs@[start + 1]);
                        }
                    }
                    break;
                }
            }
            let ghost rest = cs@.subrange(start as int, end as int);
            assert(strip_modifiers(inner, no_modifiers()) == (rest, modifiers));
            if end - start == 1 && (cs[start] as u32) < 128 {
                let c = cs[start];
                assert(rest[0] == c);
                if is_uppercase(c) {
                    modifiers.shift = true;
                }
                return Ok(KeyEvent { code: KeyCode::Char(c), modifiers });
            }
            let code = if eq_ignore_ascii_case(&cs, start, end, "enter") {
                KeyCode::Enter
            } else if eq_ignore_ascii_case(&cs, start, end, "esc") {
                KeyCode::Esc
            } else if eq_ignore_ascii_case(&cs, start, end, "up") {
                KeyCode::Up
            } else if eq_ignore_ascii_case(&cs, start, end, "down") {
                KeyCode::Down
            } else if eq_ignore_ascii_case(&cs, start, end, "left") {
                KeyCode::Left
            } else if eq_ignore_ascii_case(&cs, start, end, "right") {
                KeyCode::Right
            } else if eq_ignore_ascii_case(&cs, start, end, "home") {
                KeyCode::Home
            } else if eq_ignore_ascii_case(&cs, start, end, "end") {
                KeyCode::End
            } else if eq_ignore_ascii_case(&cs, start, end, "pageup") {
                KeyCode::PageUp
            } else if eq_ignore_ascii_case(&cs, start, end, "pagedown") {
                KeyCode::PageDown
            } else {
                return Err(());
            };
            Ok(KeyEvent { code, modifiers })
        } else if cs.len() == 1 && (cs[0] as u32) < 128 {
            let c = cs[0];
            if is_uppercase(c) {
                modifiers.shift = true;
            }
            Ok(KeyEvent { code: KeyCode::Char(c), modifiers })
        } else {
            Err(())
        }
    }

    /// Appends the text form of the key (see [`key_event_text`]) to `out`.
    pub fn push_text(&self, out: &mut String)
        ensures
            final(out)@ == old(out)@ + key_event_text(*self),
    {
        let is_char = match self.code {
            KeyCode::Char(_) => true,
            _ => false,
        };
        let is_capital = match self.code {
            KeyCode::Char(c) => is_uppercase(c),
            _ => false,
        };
        let plain = self.modifiers.is_empty();
        let only_shift = self.modifiers.shift && !self.modifiers.control && !self.modifiers.alt
            && !self.modifiers.super_key && !self.modifiers.hyper && !self.modifiers.meta;
        assert(only_shift == (self.modifiers == shift_only()));
        if (is_char && plain) || (is_capital && only_shift) {
            self.code.push_label(out);
        } else {
            let ghost start = out@;
            push_char(out, '<');
            let ghost a = out@;
            if self.modifiers.control {
                push_str(out, "C-");
            }
            let ghost b = out@;
            if self.modifiers.shift && !is_capital {
                push_str(out, "S-");
            }
            let ghost c = out@;
            if self.modifiers.alt {
                push_str(out, "A-");
            }
            let ghost d = out@;
            self.code.push_label(out);
            push_char(out, '>');
            assert(out@ =~= start + key_event_text(*self));
        }
    }

    /// The text form of the key (what `Display` writes for it).
    pub fn to_text(&self) -> (res: String)
        ensures
            res@ == key_event_text(*self),
    {
        let mut s = String::new();
        self.push_text(&mut s);
        assert(s@ =~= key_event_text(*self));
        s
    }
}

impl KeyEvents {
    /// Parses a key sequence (see [`parse_key_events`]); `Err(())` when one of
    /// its keys is not a key.
    pub fn from_str(s: &str) -> (res: Result<KeyEvents, ()>)
        ensures
            match parse_key_events(s@) {
                Some(events) => match res {
                    Ok(k) => k.0@ == events,
                    Err(_) => false,
                },
                None => res is Err,
            },
    {
        let cs = chars_of(s);
        let mut events: Vec<KeyEvent> = Vec::new();
        let mut pending: Vec<char> = Vec::new();
        let mut i: usize = 0;
        assert(cs@.skip(0) =~= cs@);
        assert(pending@ =~= Seq::<char>::empty());
        assert(events@ =~= Seq::<KeyEvent>::empty());
        while i < cs.len()
            invariant
                i <= cs.len(),
                cs@ == s@,
                parse_key_events(s@) == parse_key_events_from(
                    cs@.skip(i as int),
                    pending@,
                    events@,
                ),
            decreases cs.len() - i,
        {
            let c = cs[i];
            let ghost rest = cs@.skip(i as int);
            assert(rest[0] == c);
            assert(rest.drop_first() =~= cs@.skip(i + 1));
            if c == '<' {
                pending.push(c);
            } else if c == '>' {
                pending.push(c);
                let text = string_of(&pending);
                match KeyEvent::from_str(text.as_str()) {
                    Ok(ke) => events.push(ke),
                    Err(()) => return Err(()),
                }
                pending = Vec::new();
                assert(pending@ =~= Seq::<char>::empty());
            } else if pending.len() == 0 {
                let mut one = String::new();
                push_char(&mut one, c);
                assert(one@ =~= seq![c]);
                match KeyEvent::from_str(one.as_str()) {
                    Ok(ke) => events.push(ke),
                    Err(()) => return Err(()),
                }
            } else {
                pending.push(c);
            }
            i = i + 1;
        }
        assert(cs@.skip(i as int) =~= Seq::<char>::empty());
        Ok(KeyEvents(events))
    }

    /// The text form of the sequence (what `Display` writes for it).
    pub fn to_text(&self) -> (res: String)
        ensures
            res@ == key_events_text(self.0@),
    {
        let mut s = String::new();
        let mut i: usize = 0;
        while i < self.0.len()
            invariant
                i <= self.0.len(),
                s@ == key_events_text(self.0@.take(i as int)),
            decreases self.0.len() - i,
        {
            self.0[i].push_text(&mut s);
            assert(self.0@.take(i + 1).drop_last() =~= self.0@.take(i as int));
            i = i + 1;
        }
        assert(self.0@.take(i as int) =~= self.0@);
        s
    }

    /// No key in the sequence.
    pub fn new() -> (res: Self)
        ensures
            res.0@.len() == 0,
    {
        KeyEvents(Vec::new())
    }
}

impl Default for KeyEvents {
    fn default() -> (res: Self)
        ensures
            res.0@.len() == 0,
    {
        KeyEvents(Vec::new())
    }
}

/// Two key sequences hold the same keys.
pub fn key_events_eq(a: &KeyEvents, b: &KeyEvents) -> (res: bool)
    ensures
        res == (a.0@ == b.0@),
{
    if a.0.len() != b.0.len() {
        return false;
    }
    let mut i: usize = 0;
    while i < a.0.len()
        invariant
            a.0.len() == b.0.len(),
            i <= a.0.len(),
            forall|j: int| 0 <= j < i ==> a.0@[j] == b.0@[j],
        decreases a.0.len() - i,
    {
        if a.0[i] != b.0[i] {
            return false;
        }
        i = i + 1;
    }
    assert(a.0@ =~= b.0@);
    true
}

/// `p` starts `s`.
pub fn key_events_starts_with(s: &KeyEvents, p: &KeyEvents) -> (res: bool)
    ensures
        res == (p.0@.len() <= s.0@.len() && s.0@.subrange(0, p.0@.len() as int) == p.0@),
{
    if p.0.len() > s.0.len() {
        return false;
    }
    let mut i: usize = 0;
    while i < p.0.len()
        invariant
            p.0.len() <= s.0.len(),
            i <= p.0.len(),
            forall|j: int| 0 <= j < i ==> s.0@[j] == p.0@[j],
        decreases p.0.len() - i,
    {
        if s.0[i] != p.0[i] {
            assert(s.0@.subrange(0, p.0@.len() as int)[i as int] == s.0@[i as int]);
            return false;
        }
        i = i + 1;
    }
    assert(s.0@.subrange(0, p.0@.len() as int) =~= p.0@);
    true
}

/// Which list of bindings applies in a mode.
pub open spec fn mode_slot(mode: Mode) -> int {
    match mode {
        Mode::Normal => 0,
        Mode::Command { .. } => 1,
        Mode::Compose => 2,
        Mode::Popup => 3,
    }
}

/// The key bindings of every mode (see [`KeyBinds::wf`]).
#[derive(Debug, Clone)]
pub struct KeyBinds {
    pub normal: Vec<(KeyEvents, String)>,
    pub command: Vec<(KeyEvents, String)>,
    pub compose: Vec<(KeyEvents, String)>,
    pub popup: Vec<(KeyEvents, String)>,
}

/// The outcome of looking `events` up in the bindings `b`: the command of the
/// first binding whose keys are exactly `events`, otherwise whether some binding
/// starts with `events` (so more keys could still complete one).
pub open spec fn lookup(b: Seq<(KeyEvents, String)>, events: Seq<KeyEvent>) -> Result<Seq<char>, bool> {
    if exists|i: int| 0 <= i < b.len() && b[i].0.0@ == events {
        let i = choose|i: int|
            0 <= i < b.len() && b[i].0.0@ == events && forall|j: int|
                0 <= j < i ==> b[j].0.0@ != events;
        Ok(b[i].1@)
    } else {
        Err(
            exists|i: int|
                0 <= i < b.len() && events.len() <= b[i].0.0@.len() && b[i].0.0@.subrange(
                    0,
                    events.len() as int,
                ) == events,
        )
    }
}

/// No key sequence is bound twice.
pub open spec fn distinct_keys(b: Seq<(KeyEvents, String)>) -> bool {
    forall|i: int, j: int| 0 <= i < j < b.len() ==> #[trigger] b[i].0.0@ != #[trigger] b[j].0.0@
}

/// Bindings as values: each key sequence with its command.
pub open spec fn binding_views(b: Seq<(KeyEvents, String)>) -> Seq<(Seq<KeyEvent>, Seq<char>)> {
    b.map_values(|p: (KeyEvents, String)| (p.0.0@, p.1@))
}

/// The bindings with `events` bound to `command`: the first binding of those
/// keys takes the command, or a new binding comes last.
pub open spec fn rebound(b: Seq<(Seq<KeyEvent>, Seq<char>)>, events: Seq<KeyEvent>, command: Seq<char>) -> Seq<
    (Seq<KeyEvent>, Seq<char>),
> {
    if exists|i: int| 0 <= i < b.len() && b[i].0 == events {
        let i = choose|i: int|
            0 <= i < b.len() && b[i].0 == events && forall|j: int| 0 <= j < i ==> b[j].0 != events;
        b.update(i, (events, command))
    } else {
        b.push((events, command))
    }
}

/// Binds the keys to the command in a list of bindings (see [`rebound`]).
fn bind_in(list: &mut Vec<(KeyEvents, String)>, events: KeyEvents, command: String)
    ensures
        binding_views(final(list)@) == rebound(binding_views(old(list)@), events.0@, command@),
        distinct_keys(old(list)@) ==> distinct_keys(final(list)@),
{
    let ghost b = binding_views(list@);
    let mut i: usize = 0;
    while i < list.len()
        invariant
            i <= list.len(),
            list@ == old(list)@,
            b == binding_views(list@),
            forall|j: int| 0 <= j < i ==> b[j].0 != events.0@,
        decreases list.len() - i,
    {
        if key_events_eq(&list[i].0, &events) {
            proof {
                assert(b[i as int].0 == events.0@);
                let k = choose|k: int|
                    0 <= k < b.len() && b[k].0 == events.0@ && forall|j: int| 0 <= j < k ==> b[j].0 != events.0@;
                if k < i {
                } else if k > i {
                }
                assert(k == i);
            }
            let ghost before = list@;
            list.set(i, (events, command));
            proof {
                assert(binding_views(list@) =~= b.update(i as int, (events.0@, command@)));
                if distinct_keys(before) {
                    assert forall|x: int, y: int| 0 <= x < y < list@.len() implies #[trigger] list@[x].0.0@
                        != #[trigger] list@[y].0.0@ by {
                        assert(before[x].0.0@ != before[y].0.0@);
                        assert(before[i as int].0.0@ == events.0@);
                    }
                }
            }
            return;
        }
        i = i + 1;
    }
    let ghost before = list@;
    list.push((events, command));
    proof {
        assert(binding_views(list@) =~= b.push((events.0@, command@)));
        assert(!(exists|k: int| 0 <= k < b.len() && b[k].0 == events.0@));
        if distinct_keys(before) {
            assert forall|x: int, y: int| 0 <= x < y < list@.len() implies #[trigger] list@[x].0.0@
                != #[trigger] list@[y].0.0@ by {
                if y == before.len() {
                    assert(b[x].0 == before[x].0.0@);
                } else {
                    assert(before[x].0.0@ != before[y].0.0@);
                }
            }
        }
    }
}

impl KeyBinds {
    /// No key sequence is bound twice in any mode.
    pub open spec fn wf(&self) -> bool {
        &&& distinct_keys(self.normal@)
        &&& distinct_keys(self.command@)
        &&& distinct_keys(self.compose@)
        &&& distinct_keys(self.popup@)
    }

    /// Binds the keys to the command in `mode`: a binding of the same keys
    /// takes the new command, else the binding is added (see [`rebound`]);
    /// the other modes stay.
    pub fn bind(&mut self, mode: Mode, events: KeyEvents, command: String)
        ensures
            binding_views(final(self).bindings_for(mode)) == rebound(
                binding_views(old(self).bindings_for(mode)),
                events.0@,
                command@,
            ),
            forall|m: Mode| (#[trigger] mode_slot(m)) != mode_slot(mode) ==> final(self).bindings_for(m)
                == old(self).bindings_for(m),
            old(self).wf() ==> final(self).wf(),
    {
        match mode {
            Mode::Normal => bind_in(&mut self.normal, events, command),
            Mode::Command { .. } => bind_in(&mut self.command, events, command),
            Mode::Compose => bind_in(&mut self.compose, events, command),
            Mode::Popup => bind_in(&mut self.popup, events, command),
        }
    }

    /// No bindings in any mode.
    pub fn new() -> (res: Self)
        ensures
            res.normal@.len() == 0,
            res.command@.len() == 0,
            res.compose@.len() == 0,
            res.popup@.len() == 0,
            res.wf(),
    {
        KeyBinds { normal: Vec::new(), command: Vec::new(), compose: Vec::new(), popup: Vec::new() }
    }

    /// The bindings that apply in `mode`.
    pub open spec fn bindings_for(&self, mode: Mode) -> Seq<(KeyEvents, String)> {
        match mode {
            Mode::Normal => self.normal@,
            Mode::Command { .. } => self.command@,
            Mode::Compose => self.compose@,
            Mode::Popup => self.popup@,
        }
    }

    /// Looks a key sequence up in the bindings of `mode` (see [`lookup`]).
    pub fn get(&self, events: &KeyEvents, mode: Mode) -> (res: Result<&String, bool>)
        ensures
            match lookup(self.bindings_for(mode), events.0@) {
                Ok(command) => match res {
                    Ok(c) => c@ == command,
                    Err(_) => false,
                },
                Err(prefix) => res == Err::<&String, bool>(prefix),
            },
    {
        let bindings = match mode {
            Mode::Normal => &self.normal,
            Mode::Command { .. } => &self.command,
            Mode::Compose => &self.compose,
            Mode::Popup => &self.popup,
        };
        let ghost b = bindings@;
        let mut prefix = false;
        let mut i: usize = 0;
        while i < bindings.len()
            invariant
                b == bindings@,
                b == self.bindings_for(mode),
                i <= bindings.len(),
                forall|j: int| 0 <= j < i ==> b[j].0.0@ != events.0@,
                prefix == exists|j: int|
                    0 <= j < i && events.0@.len() <= b[j].0.0@.len() && b[j].0.0@.subrange(
                        0,
                        events.0@.len() as int,
                    ) == events.0@,
            decreases bindings.len() - i,
        {
            let keys = &bindings[i].0;
            if key_events_eq(keys, events) {
                proof {
                    assert(0 <= i < b.len() && b[i as int].0.0@ == events.0@ && forall|j: int|
                        0 <= j < i ==> b[j].0.0@ != events.0@);
                    let k = choose|k: int|
                        0 <= k < b.len() && b[k].0.0@ == events.0@ && forall|j: int|
                            0 <= j < k ==> b[j].0.0@ != events.0@;
                    if k < i {
                    } else if k > i {
                    }
                    assert(k == i);
                }
                return Ok(&bindings[i].1);
            }
            if key_events_starts_with(keys, events) {
                prefix = true;
            }
            i = i + 1;
        }
        Err(prefix)
    }

    /// The bindings of `mode`.
    pub fn iter(&self, mode: Mode) -> (res: &[(KeyEvents, String)])
        ensures
            res@ == self.bindings_for(mode),
    {
        match mode {
            Mode::Normal => self.normal.as_slice(),
            Mode::Command { .. } => self.command.as_slice(),
            Mode::Compose => self.compose.as_slice(),
            Mode::Popup => self.popup.as_slice(),
        }
    }
}

impl Default for KeyBinds {
    fn default() -> (res: Self)
        ensures
            res.normal@.len() == 0,
            res.command@.len() == 0,
            res.compose@.len() == 0,
            res.popup@.len() == 0,
            res.wf(),
    {
        KeyBinds::new()
    }
}

/// The text form of the key is a character on its own (no brackets).
pub open spec fn plain_text(ke: KeyEvent) -> bool {
    let is_capital = match ke.code {
        KeyCode::Char(c) => char_is_uppercase(c),
        _ => false,
    };
    (ke.code is Char && ke.modifiers == no_modifiers()) || (is_capital && ke.modifiers == shift_only())
}

/// The keys whose text form reads back as the same key: control, shift and
/// alt are the only modifiers, and the key is a special key the text form
/// names in a way that reads back (enter, escape, the arrows, home and end)
/// or an ASCII character other than space, held with shift when it is a
/// capital, with `<` only with a modifier and `>` only without one.
pub open spec fn text_reads_back(ke: KeyEvent) -> bool {
    &&& !ke.modifiers.super_key && !ke.modifiers.hyper && !ke.modifiers.meta
    &&& match ke.code {
        KeyCode::Char(c) => {
            &&& (c as u32) < 128
            &&& c != ' '
            &&& char_is_uppercase(c) ==> ke.modifiers.shift
            &&& c == '<' ==> !plain_text(ke)
            &&& c == '>' ==> plain_text(ke)
        },
        KeyCode::Enter | KeyCode::Esc | KeyCode::Up | KeyCode::Down | KeyCode::Left | KeyCode::Right
        | KeyCode::Home | KeyCode::End => true,
        _ => false,
    }
}

/// The keys whose text form, on its own, reads back as the same key: control,
/// shift and alt are the only modifiers, and the key is a special key the
/// text form names in a way that reads back (enter, escape, the arrows, home
/// and end) or an ASCII character other than space, held with shift when it
/// is a capital.
pub open spec fn key_text_reads_back(ke: KeyEvent) -> bool {
    &&& !ke.modifiers.super_key && !ke.modifiers.hyper && !ke.modifiers.meta
    &&& match ke.code {
        KeyCode::Char(c) => {
            &&& (c as u32) < 128
            &&& c != ' '
            &&& char_is_uppercase(c) ==> ke.modifiers.shift
        },
        KeyCode::Enter | KeyCode::Esc | KeyCode::Up | KeyCode::Down | KeyCode::Left | KeyCode::Right
        | KeyCode::Home | KeyCode::End => true,
        _ => false,
    }
}

/// The modifier prefixes of a bracketed text form.
pub open spec fn modifier_prefix(ke: KeyEvent) -> Seq<char> {
    let is_capital = match ke.code {
        KeyCode::Char(c) => char_is_uppercase(c),
        _ => false,
    };
    (if ke.modifiers.control {
        "C-"@
    } else {
        seq![]
    }) + (if ke.modifiers.shift && !is_capital {
        "S-"@
    } else {
        seq![]
    }) + (if ke.modifiers.alt {
        "A-"@
    } else {
        seq![]
    })
}

/// The prefixes are read off as the modifiers they stand for.
proof fn lemma_strip_prefixes(ke: KeyEvent, label: Seq<char>)
    requires
        key_text_reads_back(ke),
        !(label.len() >= 2 && label[1] == '-'),
    ensures
        strip_modifiers(modifier_prefix(ke) + label, no_modifiers()) == (
            label,
            KeyModifiers {
                control: ke.modifiers.control,
                shift: ke.modifiers.shift && !match ke.code {
                    KeyCode::Char(c) => char_is_uppercase(c),
                    _ => false,
                },
                alt: ke.modifiers.alt,
                ..no_modifiers()
            },
        ),
{
    reveal_strlit("C-");
    reveal_strlit("S-");
    reveal_strlit("A-");
    let is_capital = match ke.code {
        KeyCode::Char(c) => char_is_uppercase(c),
        _ => false,
    };
    let cp = if ke.modifiers.control {
        "C-"@
    } else {
        seq![]
    };
    let sp = if ke.modifiers.shift && !is_capital {
        "S-"@
    } else {
        seq![]
    };
    let ap = if ke.modifiers.alt {
        "A-"@
    } else {
        seq![]
    };
    let m0 = no_modifiers();
    let m1 = KeyModifiers { control: ke.modifiers.control, ..m0 };
    let m2 = KeyModifiers { shift: ke.modifiers.shift && !is_capital, ..m1 };
    let m3 = KeyModifiers { alt: ke.modifiers.alt, ..m2 };
    assert(modifier_prefix(ke) + label =~= cp + (sp + (ap + label)));
    assert(strip_modifiers(label, m2) == (label, m2));
    assert(strip_modifiers(label, m3) == (label, m3));
    if ke.modifiers.alt {
        assert((ap + label).skip(2) =~= label);
        assert((ap + label)[0] == 'A' && (ap + label)[1] == '-');
    } else {
        assert(ap + label =~= label);
        assert(m3 == m2);
    }
    assert(strip_modifiers(ap + label, m2) == (label, m3));
    if ke.modifiers.shift && !is_capital {
        assert((sp + (ap + label)).skip(2) =~= ap + label);
        assert((sp + (ap + label))[0] == 'S' && (sp + (ap + label))[1] == '-');
    } else {
        assert(sp + (ap + label) =~= ap + label);
        assert(m2 == m1);
    }
    assert(strip_modifiers(sp + (ap + label), m1) == (label, m3));
    if ke.modifiers.control {
        assert((cp + (sp + (ap + label))).skip(2) =~= sp + (ap + label));
        assert((cp + (sp + (ap + label)))[0] == 'C' && (cp + (sp + (ap + label)))[1] == '-');
    } else {
        assert(cp + (sp + (ap + label)) =~= sp + (ap + label));
        assert(m1 == m0);
    }
}

/// The names of the special keys that read back, and their labels.
proof fn lemma_named_labels(code: KeyCode)
    requires
        code is Enter || code is Esc || code is Up || code is Down || code is Left || code is Right || code is Home
            || code is End,
    ensures
        named_key(lower_ascii(key_code_label(code))) == Some(code),
        !(key_code_label(code).len() >= 2 && key_code_label(code)[1] == '-'),
        forall|i: int| 0 <= i < key_code_label(code).len() ==> key_code_label(code)[i] != '>' && key_code_label(code)[i] != '<',
        key_code_label(code).len() != 1,
{
    reveal_strlit("Enter");
    reveal_strlit("Esc");
    reveal_strlit("Up");
    reveal_strlit("Down");
    reveal_strlit("Left");
    reveal_strlit("Right");
    reveal_strlit("Home");
    reveal_strlit("End");
    reveal_strlit("enter");
    reveal_strlit("esc");
    reveal_strlit("up");
    reveal_strlit("down");
    reveal_strlit("left");
    reveal_strlit("right");
    reveal_strlit("home");
    reveal_strlit("end");
    let l = key_code_label(code);
    match code {
        KeyCode::Enter => {
            assert(lower_ascii(l) =~= "enter"@);
        },
        KeyCode::Esc => {
            assert(lower_ascii(l) =~= "esc"@);
            assert("esc"@ != "enter"@);
        },
        KeyCode::Up => {
            assert(lower_ascii(l) =~= "up"@);
            assert("up"@ != "enter"@ && "up"@ != "esc"@);
        },
        KeyCode::Down => {
            assert(lower_ascii(l) =~= "down"@);
            assert("down"@ != "enter"@ && "down"@ != "esc"@ && "down"@ != "up"@);
        },
        KeyCode::Left => {
            assert(lower_ascii(l) =~= "left"@);
            assert("left"@ != "enter"@ && "left"@ != "esc"@ && "left"@ != "up"@);
            assert("left"@[0] != "down"@[0]);
        },
        KeyCode::Right => {
            assert(lower_ascii(l) =~= "right"@);
            assert("right"@[0] != "enter"@[0]);
            assert("right"@ != "esc"@ && "right"@ != "up"@ && "right"@ != "down"@ && "right"@ != "left"@);
        },
        KeyCode::Home => {
            assert(lower_ascii(l) =~= "home"@);
            assert("home"@ != "enter"@ && "home"@ != "esc"@ && "home"@ != "up"@ && "home"@ != "right"@);
            assert("home"@[0] != "down"@[0]);
            assert("home"@[0] != "left"@[0]);
        },
        _ => {
            assert(lower_ascii(l) =~= "end"@);
            assert("end"@[1] != "esc"@[1]);
            assert("end"@ != "enter"@ && "end"@ != "up"@ && "end"@ != "down"@ && "end"@ != "left"@);
            assert("end"@ != "right"@ && "end"@ != "home"@);
        },
    }
}

/// Inside brackets, the characters up to the closing one gather.
proof fn lemma_gather(mid: Seq<char>, rest: Seq<char>, pending: Seq<char>, done: Seq<KeyEvent>)
    requires
        pending.len() > 0,
        forall|i: int| 0 <= i < mid.len() ==> mid[i] != '>',
    ensures
        parse_key_events_from(mid + rest, pending, done) == parse_key_events_from(rest, pending + mid, done),
    decreases mid.len(),
{
    if mid.len() > 0 {
        assert((mid + rest).drop_first() =~= mid.drop_first() + rest);
        assert((mid + rest)[0] == mid[0]);
        lemma_gather(mid.drop_first(), rest, pending.push(mid[0]), done);
        assert(pending.push(mid[0]) + mid.drop_first() =~= pending + mid);
    } else {
        assert(mid + rest =~= rest);
        assert(pending + mid =~= pending);
    }
}

/// The text of a key written as a character on its own is read as that key.
proof fn lemma_plain_reads_back(ke: KeyEvent, rest: Seq<char>, done: Seq<KeyEvent>)
    requires
        text_reads_back(ke),
        plain_text(ke),
    ensures
        parse_key_events_from(key_event_text(ke) + rest, seq![], done) == parse_key_events_from(
            rest,
            seq![],
            done.push(ke),
        ),
{
    let t = key_event_text(ke);
    let c = ke.code->Char_0;
    assert(t =~= seq![c]);
    assert((t + rest)[0] == c);
    assert((t + rest).drop_first() =~= rest);
    assert(parse_key_event(seq![c]) == Some(char_key(c, no_modifiers())));
    assert(char_key(c, no_modifiers()) == ke);
    if c == '>' {
        assert(Seq::<char>::empty().push(c) =~= seq![c]);
    }
}

/// The bracketed text of a key is the prefixes and the label in brackets,
/// and is read back as the key.
#[verifier::rlimit(40)]
proof fn lemma_bracket_parses(ke: KeyEvent)
    requires
        key_text_reads_back(ke),
        !plain_text(ke),
    ensures
        key_event_text(ke) == (seq!['<'] + (modifier_prefix(ke) + key_code_label(ke.code))).push('>'),
        parse_key_event(key_event_text(ke)) == Some(ke),
        ke.code != KeyCode::Char('>') ==> forall|i: int|
            0 <= i < (modifier_prefix(ke) + key_code_label(ke.code)).len() ==> (modifier_prefix(ke)
                + key_code_label(ke.code))[i] != '>',
{
    let label = key_code_label(ke.code);
    let prefix = modifier_prefix(ke);
    let inner = prefix + label;
    if ke.code is Char {
        let c = ke.code->Char_0;
        assert(label =~= seq![c]);
    } else {
        lemma_named_labels(ke.code);
    }
    assert(!(label.len() >= 2 && label[1] == '-'));
    lemma_strip_prefixes(ke, label);
    let whole = (seq!['<'] + inner).push('>');
    assert(key_event_text(ke) =~= whole);
    assert(whole.subrange(1, whole.len() - 1) =~= inner);
    reveal_strlit("C-");
    reveal_strlit("S-");
    reveal_strlit("A-");
    assert forall|i: int| ke.code != KeyCode::Char('>') && 0 <= i < inner.len() implies inner[i] != '>' by {
        if i >= prefix.len() {
            assert(inner[i] == label[i - prefix.len()]);
            if ke.code is Char {
            } else {
                lemma_named_labels(ke.code);
            }
        }
    }
    if ke.code is Char {
        let c = ke.code->Char_0;
        assert(char_key(c, strip_modifiers(inner, no_modifiers()).1) == ke);
    } else {
        assert(label.len() != 1);
    }
}

/// The text of a key that reads back is read as that key, whatever follows.
proof fn lemma_key_reads_back(ke: KeyEvent, rest: Seq<char>, done: Seq<KeyEvent>)
    requires
        text_reads_back(ke),
    ensures
        parse_key_events_from(key_event_text(ke) + rest, seq![], done) == parse_key_events_from(
            rest,
            seq![],
            done.push(ke),
        ),
{
    if plain_text(ke) {
        lemma_plain_reads_back(ke, rest, done);
    } else {
        lemma_bracket_parses(ke);
        let inner = modifier_prefix(ke) + key_code_label(ke.code);
        let t = key_event_text(ke);
        assert(t + rest =~= seq!['<'] + (inner + (seq!['>'] + rest)));
        assert((t + rest).drop_first() =~= inner + (seq!['>'] + rest));
        lemma_gather(inner, seq!['>'] + rest, seq!['<'], done);
        assert((seq!['>'] + rest).drop_first() =~= rest);
        assert((seq!['<'] + inner).push('>') == t);
    }
}

/// The text of a sequence of keys is the texts of its keys in order.
proof fn lemma_key_events_text_append(a: Seq<KeyEvent>, b: Seq<KeyEvent>)
    ensures
        key_events_text(a + b) == key_events_text(a) + key_events_text(b),
    decreases b.len(),
{
    if b.len() == 0 {
        assert(a + b =~= a);
        assert(key_events_text(a) + key_events_text(b) =~= key_events_text(a));
    } else {
        lemma_key_events_text_append(a, b.drop_last());
        assert((a + b).drop_last() =~= a + b.drop_last());
        assert((a + b).last() == b.last());
    }
}

/// Reading the text of keys that read back continues after them.
proof fn lemma_keys_read_back(ks: Seq<KeyEvent>, done: Seq<KeyEvent>)
    requires
        forall|i: int| 0 <= i < ks.len() ==> text_reads_back(#[trigger] ks[i]),
    ensures
        parse_key_events_from(key_events_text(ks), seq![], done) == Some(done + ks),
    decreases ks.len(),
{
    if ks.len() == 0 {
        assert(done + ks =~= done);
    } else {
        let k = ks[0];
        let tail = ks.drop_first();
        assert(ks =~= seq![k] + tail);
        lemma_key_events_text_append(seq![k], tail);
        assert(seq![k].drop_last() =~= Seq::<KeyEvent>::empty());
        assert(key_events_text(Seq::<KeyEvent>::empty()) =~= Seq::<char>::empty());
        assert(key_events_text(seq![k]) == key_events_text(seq![k].drop_last()) + key_event_text(seq![k].last()));
        assert(key_events_text(seq![k]) =~= key_event_text(k));
        lemma_key_reads_back(k, key_events_text(tail), done);
        lemma_keys_read_back(tail, done.push(k));
        assert(done.push(k) + tail =~= done + ks);
    }
}

/// A single key written in its text form reads back as the same key, for
/// keys whose text form reads back on its own (see
/// [`key_text_reads_back`]): `KeyEvent::from_str` of what `Display` writes.
pub proof fn law_key_event_text_reads_back(ke: KeyEvent)
    requires
        key_text_reads_back(ke),
    ensures
        parse_key_event(key_event_text(ke)) == Some(ke),
{
    if plain_text(ke) {
        let c = ke.code->Char_0;
        assert(key_event_text(ke) =~= seq![c]);
        assert(char_key(c, no_modifiers()) == ke);
    } else {
        lemma_bracket_parses(ke);
    }
}

/// Key sequences written in their text form read back as the same keys,
/// for keys whose text form reads back (see [`text_reads_back`]): the form
/// of the configuration file and of the status line are one.
pub proof fn law_key_events_text_reads_back(ks: Seq<KeyEvent>)
    requires
        forall|i: int| 0 <= i < ks.len() ==> text_reads_back(#[trigger] ks[i]),
    ensures
        parse_key_events(key_events_text(ks)) == Some(ks),
{
    lemma_keys_read_back(ks, seq![]);
    assert(Seq::<KeyEvent>::empty() + ks =~= ks);
}

/// A text without its spaces.
pub open spec fn without_spaces(s: Seq<char>) -> Seq<char>
    decreases s.len(),
{
    if s.len() == 0 {
        s
    } else if s.last() == ' ' {
        without_spaces(s.drop_last())
    } else {
        without_spaces(s.drop_last()).push(s.last())
    }
}

proof fn lemma_without_spaces_none(s: Seq<char>)
    requires
        forall|i: int| 0 <= i < s.len() ==> s[i] != ' ',
    ensures
        without_spaces(s) == s,
    decreases s.len(),
{
    if s.len() > 0 {
        lemma_without_spaces_none(s.drop_last());
        assert(s.drop_last().push(s.last()) =~= s);
    }
}

proof fn lemma_without_spaces_append(a: Seq<char>, b: Seq<char>)
    ensures
        without_spaces(a + b) == without_spaces(a) + without_spaces(b),
    decreases b.len(),
{
    if b.len() == 0 {
        assert(a + b =~= a);
        assert(without_spaces(a) + without_spaces(b) =~= without_spaces(a));
    } else {
        lemma_without_spaces_append(a, b.drop_last());
        assert((a + b).drop_last() =~= a + b.drop_last());
        assert((a + b).last() == b.last());
        if b.last() != ' ' {
            assert(without_spaces(a) + without_spaces(b.drop_last()).push(b.last()) =~= (without_spaces(a)
                + without_spaces(b.drop_last())).push(b.last()));
        }
    }
}

/// Every name of a special key that the text form accepts names the key
/// it reads as: the name is that key's label (as `Display` writes it) in
/// lower case with its spaces left out, so `pageup` is Page Up and
/// `pagedown` is Page Down.
pub proof fn law_key_names_name_their_keys(name: Seq<char>)
    ensures
        named_key(name) matches Some(code) ==> lower_ascii(without_spaces(key_code_label(code))) == name,
{
    if name == "enter"@ {
        reveal_strlit("Enter");
        reveal_strlit("enter");
        lemma_without_spaces_none("Enter"@);
        assert(lower_ascii("Enter"@) =~= "enter"@);
    } else if name == "esc"@ {
        reveal_strlit("Esc");
        reveal_strlit("esc");
        lemma_without_spaces_none("Esc"@);
        assert(lower_ascii("Esc"@) =~= "esc"@);
    } else if name == "up"@ {
        reveal_strlit("Up");
        reveal_strlit("up");
        lemma_without_spaces_none("Up"@);
        assert(lower_ascii("Up"@) =~= "up"@);
    } else if name == "down"@ {
        reveal_strlit("Down");
        reveal_strlit("down");
        lemma_without_spaces_none("Down"@);
        assert(lower_ascii("Down"@) =~= "down"@);
    } else if name == "left"@ {
        reveal_strlit("Left");
        reveal_strlit("left");
        lemma_without_spaces_none("Left"@);
        assert(lower_ascii("Left"@) =~= "left"@);
    } else if name == "right"@ {
        reveal_strlit("Right");
        reveal_strlit("right");
        lemma_without_spaces_none("Right"@);
        assert(lower_ascii("Right"@) =~= "right"@);
    } else if name == "home"@ {
        reveal_strlit("Home");
        reveal_strlit("home");
        lemma_without_spaces_none("Home"@);
        assert(lower_ascii("Home"@) =~= "home"@);
    } else if name == "end"@ {
        reveal_strlit("End");
        reveal_strlit("end");
        lemma_without_spaces_none("End"@);
        assert(lower_ascii("End"@) =~= "end"@);
    } else if name == "pageup"@ {
        reveal_strlit("Page Up");
        reveal_strlit("Page");
        reveal_strlit("Up");
        reveal_strlit("pageup");
        assert("Page Up"@ =~= "Page"@ + (seq![' '] + "Up"@));
        lemma_without_spaces_append("Page"@, seq![' '] + "Up"@);
        lemma_without_spaces_append(seq![' '], "Up"@);
        assert(seq![' '].drop_last() =~= Seq::<char>::empty());
        assert(seq![' '].last() == ' ');
        assert(without_spaces(Seq::<char>::empty()) == Seq::<char>::empty());
        assert(without_spaces(seq![' ']) =~= Seq::<char>::empty());
        lemma_without_spaces_none("Page"@);
        lemma_without_spaces_none("Up"@);
        assert(without_spaces("Page Up"@) =~= "Page"@ + "Up"@);
        assert(lower_ascii("Page"@ + "Up"@) =~= "pageup"@);
    } else if name == "pagedown"@ {
        reveal_strlit("Page Down");
        reveal_strlit("Page");
        reveal_strlit("Down");
        reveal_strlit("pagedown");
        assert("Page Down"@ =~= "Page"@ + (seq![' '] + "Down"@));
        lemma_without_spaces_append("Page"@, seq![' '] + "Down"@);
        lemma_without_spaces_append(seq![' '], "Down"@);
        assert(seq![' '].drop_last() =~= Seq::<char>::empty());
        assert(seq![' '].last() == ' ');
        assert(without_spaces(Seq::<char>::empty()) == Seq::<char>::empty());
        assert(without_spaces(seq![' ']) =~= Seq::<char>::empty());
        lemma_without_spaces_none("Page"@);
        lemma_without_spaces_none("Down"@);
        assert(without_spaces("Page Down"@) =~= "Page"@ + "Down"@);
        assert(lower_ascii("Page"@ + "Down"@) =~= "pagedown"@);
    }
}

/// Every special key that has a name in the text form is read from that
/// name: its label in lower case without spaces.
pub proof fn law_named_keys_are_read(code: KeyCode)
    requires
        code is Enter || code is Esc || code is Up || code is Down || code is Left || code is Right || code is Home
            || code is End || code is PageUp || code is PageDown,
    ensures
        named_key(lower_ascii(without_spaces(key_code_label(code)))) == Some(code),
{
    if code is PageUp || code is PageDown {
        let n = if code is PageUp { "pageup"@ } else { "pagedown"@ };
        law_key_names_name_their_keys(n);
        reveal_strlit("pageup");
        reveal_strlit("pagedown");
        reveal_strlit("enter");
        reveal_strlit("esc");
        reveal_strlit("up");
        reveal_strlit("down");
        reveal_strlit("left");
        reveal_strlit("right");
        reveal_strlit("home");
        reveal_strlit("end");
        reveal_strlit("Page Up");
        reveal_strlit("Page Down");
        reveal_strlit("Page");
        reveal_strlit("Up");
        reveal_strlit("Down");
        assert(n[0] == 'p');
        assert(n != "enter"@ && n != "esc"@ && n != "up"@ && n != "down"@ && n != "left"@ && n != "right"@ && n
            != "home"@ && n != "end"@);
        assert("pageup"@.len() != "pagedown"@.len());
        let l = key_code_label(code);
        assert("Page Up"@ =~= "Page"@ + (seq![' '] + "Up"@));
        assert("Page Down"@ =~= "Page"@ + (seq![' '] + "Down"@));
        lemma_without_spaces_append("Page"@, seq![' '] + "Up"@);
        lemma_without_spaces_append(seq![' '], "Up"@);
        lemma_without_spaces_append("Page"@, seq![' '] + "Down"@);
        lemma_without_spaces_append(seq![' '], "Down"@);
        assert(seq![' '].drop_last() =~= Seq::<char>::empty());
        assert(seq![' '].last() == ' ');
        assert(without_spaces(Seq::<char>::empty()) == Seq::<char>::empty());
        assert(without_spaces(seq![' ']) =~= Seq::<char>::empty());
        lemma_without_spaces_none("Page"@);
        lemma_without_spaces_none("Up"@);
        lemma_without_spaces_none("Down"@);
        assert(lower_ascii(without_spaces(l)) =~= n);
    } else {
        lemma_named_labels(code);
        let l = key_code_label(code);
        assert forall|i: int| 0 <= i < l.len() implies l[i] != ' ' by {
            reveal_strlit("Enter");
            reveal_strlit("Esc");
            reveal_strlit("Up");
            reveal_strlit("Down");
            reveal_strlit("Left");
            reveal_strlit("Right");
            reveal_strlit("Home");
            reveal_strlit("End");
        }
        lemma_without_spaces_none(l);
    }
}

} // verus!
