//! Quick Terminal settings: panel size and appearance ranges, the shortcut that
//! opens it, and key chords as the keymap writes them.

use vstd::prelude::*;
use vstd::string::*;

use crate::scan::{find_char, is_char, lemma_position, position};
use crate::settings::SettingsError;
use crate::input::{Keystroke, Modifiers};
use crate::text::{chars_of, str_eq};

verus! {

broadcast use vstd::string::group_string_axioms;

/// Modifier keys of a key combination.
#[derive(Clone, Copy, Debug, Default, PartialEq, Eq, Structural)]
pub struct ChordModifiers {
    pub command: bool,
    pub control: bool,
    pub option: bool,
    pub shift: bool,
}

/// A key with its modifiers.
#[derive(Clone, Debug, PartialEq, Eq)]
pub struct KeyCombo {
    pub key: String,
    pub modifiers: ChordModifiers,
}

/// The shortcut that opens the Quick Terminal. A key combination carries the identity under
/// which the system registers it, where it has one.
#[derive(Clone, Debug, PartialEq, Eq)]
pub enum QuickTerminalShortcut {
    Unassigned,
    DoubleShift,
    KeyCombo { key_combo: KeyCombo, registration_identity: Option<u64> },
}

impl QuickTerminalShortcut {
    /// The key combination of the shortcut, if it is one.
    pub fn key_combo(&self) -> (r: Option<&KeyCombo>)
        ensures
            r == (match self {
                QuickTerminalShortcut::KeyCombo { key_combo, .. } => Some(key_combo),
                _ => None,
            }),
    {
        match self {
            QuickTerminalShortcut::KeyCombo { key_combo, .. } => Some(key_combo),
            _ => None,
        }
    }
}

/// Quick Terminal settings: whether it is on, the panel's size in points, its transparency
/// and background blur in percent, and the shortcut that opens it.
#[derive(Clone, Debug, PartialEq, Eq)]
pub struct QuickTerminalSettings {
    pub enabled: bool,
    pub width: u16,
    pub height: u16,
    pub transparency: u8,
    pub blur: u8,
    pub shortcut: QuickTerminalShortcut,
}

impl Default for QuickTerminalSettings {
    fn default() -> (r: Self)
        ensures
            r.enabled && r.width == 720 && r.height == 430 && r.transparency == 18 && r.blur == 70
                && r.shortcut == QuickTerminalShortcut::Unassigned,
    {
        QuickTerminalSettings {
            enabled: true,
            width: 720,
            height: 430,
            transparency: 18,
            blur: 70,
            shortcut: QuickTerminalShortcut::Unassigned,
        }
    }
}

/// The first setting out of its range, in the order width, height, transparency, blur,
/// shortcut: the width runs from 480 to 1200, the height from 280 to 800, the transparency
/// up to 55 and the blur up to 100; a key combination must have a registration identity.
pub open spec fn invalid_setting(s: QuickTerminalSettings) -> Option<Seq<char>> {
    if !(480 <= s.width <= 1200) {
        Some("width"@)
    } else if !(280 <= s.height <= 800) {
        Some("height"@)
    } else if s.transparency > 55 {
        Some("transparency"@)
    } else if s.blur > 100 {
        Some("blur"@)
    } else if s.shortcut matches QuickTerminalShortcut::KeyCombo { registration_identity, .. }
        && registration_identity is None {
        Some("shortcut"@)
    } else {
        None
    }
}

impl QuickTerminalSettings {
    /// Checks the ranges; the error names the first setting out of range.
    pub fn validate(&self) -> (r: Result<(), SettingsError>)
        ensures
            match invalid_setting(*self) {
                None => r is Ok,
                Some(name) => r matches Err(e) && e@ == ("quick_terminal."@ + name, "invalid value"@),
            },
    {
        let name = if !(480 <= self.width && self.width <= 1200) {
            "width"
        } else if !(280 <= self.height && self.height <= 800) {
            "height"
        } else if self.transparency > 55 {
            "transparency"
        } else if self.blur > 100 {
            "blur"
        } else if matches!(self.shortcut, QuickTerminalShortcut::KeyCombo { registration_identity: None, .. }) {
            "shortcut"
        } else {
            return Ok(());
        };
        let mut context = String::from_str("quick_terminal.");
        context.append(name);
        Err(SettingsError { context, message: String::from_str("invalid value") })
    }
}

/// The modifiers a keymap chord may name before its key.
pub open spec fn with_modifier(m: ChordModifiers, name: Seq<char>) -> Option<ChordModifiers> {
    if name == "cmd"@ {
        Some(ChordModifiers { command: true, ..m })
    } else if name == "ctrl"@ {
        Some(ChordModifiers { control: true, ..m })
    } else if name == "alt"@ {
        Some(ChordModifiers { option: true, ..m })
    } else if name == "shift"@ {
        Some(ChordModifiers { shift: true, ..m })
    } else {
        None
    }
}

/// The key and modifiers of a chord such as `cmd-shift-k`: modifiers are read before each
/// `-` while they are known; what follows is the key.
pub open spec fn chord_parts(s: Seq<char>, m: ChordModifiers) -> (Seq<char>, ChordModifiers)
    decreases s.len(),
{
    let i = position(s, is_char('-'));
    if i < 0 {
        (s, m)
    } else {
        proof {
            lemma_position(s, is_char('-'));
        }
        match with_modifier(m, s.take(i)) {
            Some(next) => chord_parts(s.skip(i + 1), next),
            None => (s, m),
        }
    }
}

/// The key combination of a chord, if a key follows its modifiers.
pub open spec fn chord_combo(chord: Seq<char>) -> Option<(Seq<char>, ChordModifiers)> {
    let (key, m) = chord_parts(
        chord,
        ChordModifiers { command: false, control: false, option: false, shift: false },
    );
    if key.len() == 0 {
        None
    } else {
        Some((key, m))
    }
}

/// The key combination of a keymap chord such as `cmd-shift-k`.
pub fn combo_from_chord(chord: &str) -> (r: Option<KeyCombo>)
    ensures
        match chord_combo(chord@) {
            Some(c) => r matches Some(k) && k.key@ == c.0 && k.modifiers == c.1,
            None => r is None,
        },
{
    let cs = chars_of(chord);
    let n = cs.len();
    let mut start: usize = 0;
    let mut m = ChordModifiers { command: false, control: false, option: false, shift: false };
    assert(cs@.subrange(0, n as int) =~= chord@);
    loop
        invariant
            start <= n == cs@.len(),
            cs@ == chord@,
            chord_parts(chord@, ChordModifiers { command: false, control: false, option: false, shift: false })
                == chord_parts(cs@.subrange(start as int, n as int), m),
        ensures
            start <= n,
            chord_parts(chord@, ChordModifiers { command: false, control: false, option: false, shift: false })
                == (cs@.subrange(start as int, n as int), m),
        decreases n - start,
    {
        let ghost u = cs@.subrange(start as int, n as int);
        match find_char(&cs, start, n, '-') {
            None => {
                break;
            },
            Some(i) => {
                proof {
                    lemma_position(u, is_char('-'));
                }
                assert(u.take(i - start) =~= cs@.subrange(start as int, i as int));
                assert(u.skip(i - start + 1) =~= cs@.subrange(i + 1, n as int));
                let name = chord.substring_char(start, i);
                if str_eq(name, "cmd") {
                    m.command = true;
                } else if str_eq(name, "ctrl") {
                    m.control = true;
                } else if str_eq(name, "alt") {
                    m.option = true;
                } else if str_eq(name, "shift") {
                    m.shift = true;
                } else {
                    break;
                }
                start = i + 1;
            },
        }
    }
    if start == n {
        return None;
    }
    Some(KeyCombo { key: chord.substring_char(start, n).to_owned(), modifiers: m })
}

/// Two key combinations conflict when they name the same key with the same modifiers.
pub open spec fn combos_conflict(a: (Seq<char>, ChordModifiers), b: (Seq<char>, ChordModifiers)) -> bool {
    a.0 == b.0 && a.1 == b.1
}

/// Two key combinations conflict exactly when they name the same key with the same
/// modifiers: combinations of different keys, or of different modifiers, never conflict.
pub proof fn lemma_only_equal_combos_conflict(a: (Seq<char>, ChordModifiers), b: (Seq<char>, ChordModifiers))
    ensures
        a.0 != b.0 ==> !combos_conflict(a, b),
        a.1 != b.1 ==> !combos_conflict(a, b),
        (a.0 == b.0 && a.1 == b.1) ==> combos_conflict(a, b),
{
}

impl KeyCombo {
    /// The key and modifiers, with the key as characters.
    pub open spec fn parts(&self) -> (Seq<char>, ChordModifiers) {
        (self.key@, self.modifiers)
    }

    /// Whether this combination conflicts with `other`.
    pub fn conflicts_with(&self, other: &KeyCombo) -> (r: bool)
        ensures
            r == combos_conflict(self.parts(), other.parts()),
            r == (self.key@ == other.key@ && self.modifiers == other.modifiers),
    {
        str_eq(self.key.as_str(), other.key.as_str()) && self.modifiers == other.modifiers
    }
}

/// The chord a recorded key press stands for: its held modifiers in the order `cmd`, `ctrl`,
/// `alt`, `shift`, `fn`, each followed by `-`, then the key.
pub open spec fn chord_text(key: Keystroke) -> Seq<char> {
    let m = key.modifiers;
    (if m.platform {
        "cmd-"@
    } else {
        Seq::empty()
    }) + (if m.control {
        "ctrl-"@
    } else {
        Seq::empty()
    }) + (if m.alt {
        "alt-"@
    } else {
        Seq::empty()
    }) + (if m.shift {
        "shift-"@
    } else {
        Seq::empty()
    }) + (if m.function {
        "fn-"@
    } else {
        Seq::empty()
    }) + key.key@
}

/// The chord a recorded key press stands for, as `chord_text` says.
pub fn recorded_chord(key: &Keystroke) -> (r: String)
    ensures
        r@ == chord_text(*key),
{
    let m = key.modifiers;
    let mut value = String::new();
    if m.platform {
        value.append("cmd-");
    }
    if m.control {
        value.append("ctrl-");
    }
    if m.alt {
        value.append("alt-");
    }
    if m.shift {
        value.append("shift-");
    }
    if m.function {
        value.append("fn-");
    }
    value.append(key.key.as_str());
    assert(value@ =~= chord_text(*key));
    value
}

/// Whether a key press holds any modifier.
pub open spec fn modified(m: Modifiers) -> bool {
    m.control || m.alt || m.shift || m.platform || m.function
}

/// What a key press does while a shortcut may be recording.
#[derive(Clone, Debug, PartialEq, Eq)]
pub enum Recorded {
    /// No shortcut was recording.
    Ignored,
    /// Escape alone stopped the recording.
    Cancelled,
    /// The shortcut named first is bound to the chord that follows.
    Binding(String, String),
}

/// A key press while the shortcut `recording`, if any, records: the recording ends; Escape
/// without modifiers cancels it; any other press binds the shortcut to its chord, as
/// `chord_text` says.
pub fn record_key(recording: &mut Option<String>, key: &Keystroke) -> (r: Recorded)
    ensures
        *final(recording) == None::<String>,
        match *old(recording) {
            None => r == Recorded::Ignored,
            Some(id) => if key.key@ == "escape"@ && !modified(key.modifiers) {
                r == Recorded::Cancelled
            } else {
                r matches Recorded::Binding(s, chord) && s@ == id@ && chord@ == chord_text(*key)
            },
        },
{
    let id = match recording.take() {
        Some(id) => id,
        None => {
            return Recorded::Ignored;
        },
    };
    let m = key.modifiers;
    if str_eq(key.key.as_str(), "escape") && !(m.control || m.alt || m.shift || m.platform
        || m.function) {
        return Recorded::Cancelled;
    }
    Recorded::Binding(id, recorded_chord(key))
}

/// Reading a modifier name and its `-` at the start of a chord.
proof fn lemma_chord_step(name: Seq<char>, rest: Seq<char>, m: ChordModifiers)
    requires
        !name.contains('-'),
        with_modifier(m, name) is Some,
    ensures
        chord_parts(name + seq!['-'] + rest, m) == chord_parts(rest, with_modifier(m, name)->0),
{
    let s = name + seq!['-'] + rest;
    crate::font_lines::lemma_position_after(name, '-', rest);
    assert(s.take(name.len() as int) =~= name);
    assert(s.skip(name.len() + 1int) =~= rest);
}

/// A recorded chord reads back as the key press's key and modifiers, where the function key
/// is not held and the key holds no `-`.
pub proof fn lemma_recorded_chord_reads_back(key: Keystroke)
    requires
        !key.modifiers.function,
        key.key@.len() > 0,
        !key.key@.contains('-'),
    ensures
        chord_combo(chord_text(key)) == Some(
            (
                key.key@,
                ChordModifiers {
                    command: key.modifiers.platform,
                    control: key.modifiers.control,
                    option: key.modifiers.alt,
                    shift: key.modifiers.shift,
                },
            ),
        ),
{
    reveal_strlit("cmd-");
    reveal_strlit("ctrl-");
    reveal_strlit("alt-");
    reveal_strlit("shift-");
    reveal_strlit("cmd");
    reveal_strlit("ctrl");
    reveal_strlit("alt");
    reveal_strlit("shift");
    let m = key.modifiers;
    let k = key.key@;
    let cmd = seq!['c', 'm', 'd'];
    let ctrl = seq!['c', 't', 'r', 'l'];
    let alt = seq!['a', 'l', 't'];
    let shift = seq!['s', 'h', 'i', 'f', 't'];
    assert("cmd-"@ =~= cmd + seq!['-']);
    assert("ctrl-"@ =~= ctrl + seq!['-']);
    assert("alt-"@ =~= alt + seq!['-']);
    assert("shift-"@ =~= shift + seq!['-']);
    assert("cmd"@ =~= cmd);
    assert("ctrl"@ =~= ctrl);
    assert("alt"@ =~= alt);
    assert("shift"@ =~= shift);
    let m0 = ChordModifiers { command: false, control: false, option: false, shift: false };
    let m1 = ChordModifiers { command: m.platform, ..m0 };
    let m2 = ChordModifiers { control: m.control, ..m1 };
    let m3 = ChordModifiers { option: m.alt, ..m2 };
    let m4 = ChordModifiers { shift: m.shift, ..m3 };
    let e = Seq::<char>::empty();
    let p4 = k;
    let p3 = (if m.shift { shift + seq!['-'] } else { e }) + p4;
    let p2 = (if m.alt { alt + seq!['-'] } else { e }) + p3;
    let p1 = (if m.control { ctrl + seq!['-'] } else { e }) + p2;
    let p0 = (if m.platform { cmd + seq!['-'] } else { e }) + p1;
    assert(chord_text(key) =~= p0);
    lemma_position_none_in_key(k);
    assert(chord_parts(p4, m4) == (k, m4));
    if m.shift {
        lemma_chord_step(shift, p4, m3);
        assert(p3 =~= shift + seq!['-'] + p4);
    } else {
        assert(p3 =~= p4);
        assert(m3 == m4);
    }
    assert(chord_parts(p3, m3) == (k, m4));
    if m.alt {
        lemma_chord_step(alt, p3, m2);
        assert(p2 =~= alt + seq!['-'] + p3);
    } else {
        assert(p2 =~= p3);
        assert(m2 == m3);
    }
    assert(chord_parts(p2, m2) == (k, m4));
    if m.control {
        lemma_chord_step(ctrl, p2, m1);
        assert(p1 =~= ctrl + seq!['-'] + p2);
    } else {
        assert(p1 =~= p2);
        assert(m1 == m2);
    }
    assert(chord_parts(p1, m1) == (k, m4));
    if m.platform {
        lemma_chord_step(cmd, p1, m0);
        assert(p0 =~= cmd + seq!['-'] + p1);
    } else {
        assert(p0 =~= p1);
        assert(m0 == m1);
    }
    assert(chord_parts(p0, m0) == (k, m4));
}

/// A key without `-` is read whole, whatever the modifiers before it.
proof fn lemma_position_none_in_key(k: Seq<char>)
    requires
        !k.contains('-'),
    ensures
        position(k, is_char('-')) == -1,
{
    crate::font_lines::lemma_position_none(k, '-');
}

} // verus!
