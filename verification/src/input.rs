//! Encoding of key presses into the bytes a terminal program reads.

use vstd::prelude::*;
use vstd::string::*;
use vstd::utf8::*;

use crate::text::{any_control, decimal, has_control, push_decimal, str_eq, utf8_bytes};

verus! {

broadcast use vstd::string::group_string_axioms;

/// Modifier keys held during a key press.
#[derive(Clone, Copy, Debug, Default, PartialEq, Eq)]
pub struct Modifiers {
    pub control: bool,
    pub alt: bool,
    pub shift: bool,
    pub platform: bool,
    pub function: bool,
}

/// A key press: the key's name, the text it types (if any) and its modifiers.
#[derive(Clone, Debug, PartialEq, Eq)]
pub struct Keystroke {
    pub key: String,
    pub key_char: Option<String>,
    pub modifiers: Modifiers,
}

/// Terminal input modes that change how keys and pastes are encoded.
#[derive(Clone, Copy, Debug, Default, PartialEq, Eq)]
pub struct Modes {
    pub application_cursor_keys: bool,
    pub bracketed_paste: bool,
}

/// The uppercase form of a string, as std's `str::to_uppercase` computes it.
pub uninterp spec fn uppercase(s: Seq<char>) -> Seq<char>;

/// Calls `str::to_uppercase`; the result is named by `uppercase`, a function of the characters alone.
#[verifier::external_body]
fn to_uppercase(s: &str) -> (r: String)
    ensures
        r@ == uppercase(s@),
{
    s.to_uppercase()
}

/// The text a key press types, if it is nonempty and free of control characters.
pub open spec fn typed_text(key: Keystroke) -> Option<Seq<char>> {
    match key.key_char {
        Some(t) => if t@.len() > 0 && !has_control(t@) {
            Some(t@)
        } else {
            None
        },
        None => None,
    }
}

/// Whether a key press is text for the input method rather than a terminal key.
pub open spec fn text_input(key: Keystroke, option_as_alt: bool) -> bool {
    &&& !key.modifiers.platform
    &&& !key.modifiers.control
    &&& (!key.modifiers.alt || !option_as_alt)
    &&& typed_text(key) is Some
}

/// The xterm modifier parameter: 1 plus 1 for shift, 2 for alt and 4 for control.
pub open spec fn modifier_param(m: Modifiers) -> nat {
    1 + (if m.shift { 1nat } else { 0nat }) + (if m.alt { 2nat } else { 0nat }) + (if m.control {
        4nat
    } else {
        0nat
    })
}

/// ESC [ 1 ; m X when modified; else SS3 X (application mode) or CSI X.
pub open spec fn cursor_sequence(suffix: u8, application: bool, modifier: nat) -> Seq<u8> {
    if modifier > 1 {
        seq![0x1bu8, 0x5bu8, 0x31u8, 0x3bu8] + decimal(modifier) + seq![suffix]
    } else if application {
        seq![0x1bu8, 0x4fu8, suffix]
    } else {
        seq![0x1bu8, 0x5bu8, suffix]
    }
}

/// ESC [ n ; m ~ when modified, else ESC [ n ~.
pub open spec fn function_sequence(number: nat, modifier: nat) -> Seq<u8> {
    if modifier > 1 {
        seq![0x1bu8, 0x5bu8] + decimal(number) + seq![0x3bu8] + decimal(modifier) + seq![0x7eu8]
    } else {
        seq![0x1bu8, 0x5bu8] + decimal(number) + seq![0x7eu8]
    }
}

/// The final byte of the cursor keys' sequences.
pub open spec fn cursor_suffix(key: Seq<char>) -> Option<u8> {
    if key == "up"@ {
        Some(0x41u8)
    } else if key == "down"@ {
        Some(0x42u8)
    } else if key == "right"@ {
        Some(0x43u8)
    } else if key == "left"@ {
        Some(0x44u8)
    } else if key == "home"@ {
        Some(0x48u8)
    } else if key == "end"@ {
        Some(0x46u8)
    } else {
        None
    }
}

/// The final byte of F1 to F4, which use SS3 when unmodified.
pub open spec fn ss3_suffix(key: Seq<char>) -> Option<u8> {
    if key == "f1"@ {
        Some(0x50u8)
    } else if key == "f2"@ {
        Some(0x51u8)
    } else if key == "f3"@ {
        Some(0x52u8)
    } else if key == "f4"@ {
        Some(0x53u8)
    } else {
        None
    }
}

/// The number of the editing keys and F5 to F20 in their ESC [ n ~ sequences.
pub open spec fn function_number(key: Seq<char>) -> Option<nat> {
    if key == "pageup"@ {
        Some(5nat)
    } else if key == "pagedown"@ {
        Some(6nat)
    } else if key == "insert"@ {
        Some(2nat)
    } else if key == "delete"@ {
        Some(3nat)
    } else if key == "f5"@ {
        Some(15nat)
    } else if key == "f6"@ {
        Some(17nat)
    } else if key == "f7"@ {
        Some(18nat)
    } else if key == "f8"@ {
        Some(19nat)
    } else if key == "f9"@ {
        Some(20nat)
    } else if key == "f10"@ {
        Some(21nat)
    } else if key == "f11"@ {
        Some(23nat)
    } else if key == "f12"@ {
        Some(24nat)
    } else if key == "f13"@ {
        Some(25nat)
    } else if key == "f14"@ {
        Some(26nat)
    } else if key == "f15"@ {
        Some(28nat)
    } else if key == "f16"@ {
        Some(29nat)
    } else if key == "f17"@ {
        Some(31nat)
    } else if key == "f18"@ {
        Some(32nat)
    } else if key == "f19"@ {
        Some(33nat)
    } else if key == "f20"@ {
        Some(34nat)
    } else {
        None
    }
}

/// The sequence of a cursor, editing or function key, if `key` is one.
/// On macOS with the default bindings, option with left or right moves by word (ESC b, ESC f).
pub open spec fn named_sequence(
    key: Seq<char>,
    modes: Modes,
    modifier: nat,
    defaults: bool,
    macos: bool,
) -> Option<Seq<u8>> {
    if key == "left"@ && macos && defaults && modifier == 3 {
        Some(seq![0x1bu8, 0x62u8])
    } else if key == "right"@ && macos && defaults && modifier == 3 {
        Some(seq![0x1bu8, 0x66u8])
    } else if let Some(suffix) = cursor_suffix(key) {
        Some(cursor_sequence(suffix, modes.application_cursor_keys, modifier))
    } else if let Some(number) = function_number(key) {
        Some(function_sequence(number, modifier))
    } else if let Some(suffix) = ss3_suffix(key) {
        Some(cursor_sequence(suffix, true, modifier))
    } else {
        None
    }
}

/// Whether a byte is an ASCII letter.
pub open spec fn is_ascii_letter(b: u8) -> bool {
    (0x41 <= b && b <= 0x5a) || (0x61 <= b && b <= 0x7a)
}

/// The byte that control with `key` sends.
pub open spec fn control_byte(key: Seq<char>) -> Option<u8> {
    if key == "space"@ || key == " "@ || key == "@"@ || key == "2"@ {
        Some(0u8)
    } else if key == "["@ || key == "3"@ {
        Some(0x1bu8)
    } else if key == "\\"@ || key == "4"@ {
        Some(0x1cu8)
    } else if key == "]"@ || key == "5"@ {
        Some(0x1du8)
    } else if key == "^"@ || key == "6"@ {
        Some(0x1eu8)
    } else if key == "_"@ || key == "-"@ || key == "7"@ || key == "/"@ {
        Some(0x1fu8)
    } else if key == "?"@ || key == "8"@ {
        Some(0x7fu8)
    } else if encode_utf8(key).len() == 1 && is_ascii_letter(encode_utf8(key)[0]) {
        let b = encode_utf8(key)[0];
        Some((if b >= 0x61 { b - 32 } else { b as int } - 64) as u8)
    } else {
        None
    }
}

/// The bytes of keys other than the cursor, editing and function keys, before the alt prefix.
pub open spec fn plain_bytes(key: Keystroke) -> Option<Seq<u8>> {
    let m = key.modifiers;
    let k = key.key@;
    if k == "enter"@ || k == "return"@ {
        Some(seq![0x0du8])
    } else if k == "backspace"@ {
        Some(if m.control { seq![0x08u8] } else { seq![0x7fu8] })
    } else if k == "escape"@ {
        Some(seq![0x1bu8])
    } else if k == "tab"@ {
        Some(if m.shift { seq![0x1bu8, 0x5bu8, 0x5au8] } else { seq![0x09u8] })
    } else if m.control {
        match control_byte(k) {
            Some(b) => Some(seq![b]),
            None => None,
        }
    } else if k == "space"@ {
        Some(seq![0x20u8])
    } else if m.alt && k.len() == 1 {
        Some(if m.shift { encode_utf8(uppercase(k)) } else { encode_utf8(k) })
    } else {
        match typed_text(key) {
            Some(t) => Some(encode_utf8(t)),
            None => None,
        }
    }
}

/// The bytes a key press sends to the terminal program, if any.
pub open spec fn key_bytes(
    key: Keystroke,
    modes: Modes,
    option_as_alt: bool,
    defaults: bool,
    macos: bool,
) -> Option<Seq<u8>> {
    let m = key.modifiers;
    if m.platform {
        None
    } else if m.alt && !option_as_alt && text_input(key, option_as_alt) {
        Some(encode_utf8(typed_text(key)->0))
    } else if let Some(s) = named_sequence(key.key@, modes, modifier_param(m), defaults, macos) {
        Some(s)
    } else {
        match plain_bytes(key) {
            Some(b) => Some(if m.alt { seq![0x1bu8] + b } else { b }),
            None => None,
        }
    }
}

/// The view of an optional byte vector.
pub open spec fn bytes_view(o: Option<Vec<u8>>) -> Option<Seq<u8>> {
    match o {
        Some(v) => Some(v@),
        None => None,
    }
}

/// The text a key press types, if it is nonempty and free of control characters.
fn typed(key: &Keystroke) -> (r: Option<&String>)
    ensures
        match r {
            Some(t) => typed_text(*key) == Some(t@),
            None => typed_text(*key) is None,
        },
{
    match &key.key_char {
        Some(t) => {
            if t.as_str().unicode_len() > 0 && !any_control(t.as_str()) {
                Some(t)
            } else {
                None
            }
        },
        None => None,
    }
}

/// Whether a key press is text for the input method rather than a terminal key.
pub fn uses_text_input(key: &Keystroke, option_as_alt: bool) -> (r: bool)
    ensures
        r == text_input(*key, option_as_alt),
{
    !key.modifiers.platform && !key.modifiers.control && (!key.modifiers.alt || !option_as_alt)
        && typed(key).is_some()
}

/// The bytes of a key press with the default bindings.
pub fn encode(key: &Keystroke, modes: Modes, option_as_alt: bool, macos: bool) -> (r: Option<
    Vec<u8>,
>)
    ensures
        bytes_view(r) == key_bytes(*key, modes, option_as_alt, true, macos),
{
    encode_with_bindings(key, modes, option_as_alt, true, macos)
}

/// The bytes a key press sends to the terminal program, if any. `defaults` tells whether
/// the default key bindings are in effect; `macos` whether the app runs on macOS.
pub fn encode_with_bindings(
    key: &Keystroke,
    modes: Modes,
    option_as_alt: bool,
    defaults: bool,
    macos: bool,
) -> (r: Option<Vec<u8>>)
    ensures
        bytes_view(r) == key_bytes(*key, modes, option_as_alt, defaults, macos),
{
    let modifiers = key.modifiers;
    if modifiers.platform {
        return None;
    }
    if modifiers.alt && !option_as_alt && uses_text_input(key, option_as_alt) {
        let text = typed(key);
        match text {
            Some(t) => return Some(utf8_bytes(t.as_str())),
            None => return None,
        }
    }
    let modifier: u32 = 1 + (if modifiers.shift { 1u32 } else { 0 }) + 2 * (if modifiers.alt {
        1u32
    } else {
        0
    }) + 4 * (if modifiers.control { 1u32 } else { 0 });
    let sequence = named(key.key.as_str(), modes, modifier, defaults, macos);
    if sequence.is_some() {
        return sequence;
    }
    let bytes = plain(key);
    match bytes {
        Some(b) => Some(prefix_alt(b, modifiers)),
        None => None,
    }
}

/// Puts ESC before the bytes when alt is held.
pub fn prefix_alt(bytes: Vec<u8>, modifiers: Modifiers) -> (r: Vec<u8>)
    ensures
        r@ == (if modifiers.alt { seq![0x1bu8] + bytes@ } else { bytes@ }),
{
    let ghost unprefixed = bytes@;
    let mut bytes = bytes;
    if modifiers.alt {
        bytes.insert(0, 0x1b);
        assert(bytes@ =~= seq![0x1bu8] + unprefixed);
    }
    bytes
}

/// The sequence of a cursor key: `suffix` is its final byte.
pub fn cursor(suffix: u8, modes: Modes, modifier: u32) -> (r: Vec<u8>)
    ensures
        r@ == cursor_sequence(suffix, modes.application_cursor_keys, modifier as nat),
{
    let mut out: Vec<u8> = Vec::new();
    out.push(0x1b);
    if modifier > 1 {
        out.push(0x5b);
        out.push(0x31);
        out.push(0x3b);
        push_decimal(&mut out, modifier);
        out.push(suffix);
    } else if modes.application_cursor_keys {
        out.push(0x4f);
        out.push(suffix);
    } else {
        out.push(0x5b);
        out.push(suffix);
    }
    assert(out@ =~= cursor_sequence(suffix, modes.application_cursor_keys, modifier as nat));
    out
}

/// The sequence of an editing or function key with the given number.
pub fn function(number: u32, modifier: u32) -> (r: Vec<u8>)
    ensures
        r@ == function_sequence(number as nat, modifier as nat),
{
    let mut out: Vec<u8> = Vec::new();
    out.push(0x1b);
    out.push(0x5b);
    push_decimal(&mut out, number);
    if modifier > 1 {
        out.push(0x3b);
        push_decimal(&mut out, modifier);
    }
    out.push(0x7e);
    assert(out@ =~= function_sequence(number as nat, modifier as nat));
    out
}

fn cursor_suffix_of(key: &str) -> (r: Option<u8>)
    ensures
        r == cursor_suffix(key@),
{
    if str_eq(key, "up") {
        Some(0x41)
    } else if str_eq(key, "down") {
        Some(0x42)
    } else if str_eq(key, "right") {
        Some(0x43)
    } else if str_eq(key, "left") {
        Some(0x44)
    } else if str_eq(key, "home") {
        Some(0x48)
    } else if str_eq(key, "end") {
        Some(0x46)
    } else {
        None
    }
}

fn ss3_suffix_of(key: &str) -> (r: Option<u8>)
    ensures
        r == ss3_suffix(key@),
{
    if str_eq(key, "f1") {
        Some(0x50)
    } else if str_eq(key, "f2") {
        Some(0x51)
    } else if str_eq(key, "f3") {
        Some(0x52)
    } else if str_eq(key, "f4") {
        Some(0x53)
    } else {
        None
    }
}

fn function_number_of(key: &str) -> (r: Option<u32>)
    ensures
        match r {
            Some(n) => function_number(key@) == Some(n as nat),
            None => function_number(key@) is None,
        },
{
    if str_eq(key, "pageup") {
        Some(5)
    } else if str_eq(key, "pagedown") {
        Some(6)
    } else if str_eq(key, "insert") {
        Some(2)
    } else if str_eq(key, "delete") {
        Some(3)
    } else if str_eq(key, "f5") {
        Some(15)
    } else if str_eq(key, "f6") {
        Some(17)
    } else if str_eq(key, "f7") {
        Some(18)
    } else if str_eq(key, "f8") {
        Some(19)
    } else if str_eq(key, "f9") {
        Some(20)
    } else if str_eq(key, "f10") {
        Some(21)
    } else if str_eq(key, "f11") {
        Some(23)
    } else if str_eq(key, "f12") {
        Some(24)
    } else if str_eq(key, "f13") {
        Some(25)
    } else if str_eq(key, "f14") {
        Some(26)
    } else if str_eq(key, "f15") {
        Some(28)
    } else if str_eq(key, "f16") {
        Some(29)
    } else if str_eq(key, "f17") {
        Some(31)
    } else if str_eq(key, "f18") {
        Some(32)
    } else if str_eq(key, "f19") {
        Some(33)
    } else if str_eq(key, "f20") {
        Some(34)
    } else {
        None
    }
}

fn named(key: &str, modes: Modes, modifier: u32, defaults: bool, macos: bool) -> (r: Option<
    Vec<u8>,
>)
    ensures
        bytes_view(r) == named_sequence(key@, modes, modifier as nat, defaults, macos),
{
    if macos && defaults && modifier == 3 && str_eq(key, "left") {
        let v: Vec<u8> = vec![0x1b, 0x62];
        assert(v@ =~= seq![0x1bu8, 0x62u8]);
        return Some(v);
    }
    if macos && defaults && modifier == 3 && str_eq(key, "right") {
        let v: Vec<u8> = vec![0x1b, 0x66];
        assert(v@ =~= seq![0x1bu8, 0x66u8]);
        return Some(v);
    }
    if let Some(suffix) = cursor_suffix_of(key) {
        return Some(cursor(suffix, modes, modifier));
    }
    if let Some(number) = function_number_of(key) {
        return Some(function(number, modifier));
    }
    if let Some(suffix) = ss3_suffix_of(key) {
        let application = Modes { application_cursor_keys: true, bracketed_paste: false };
        return Some(cursor(suffix, application, modifier));
    }
    None
}

/// The byte control with `key` sends, if any.
pub fn control(key: &str) -> (r: Option<u8>)
    ensures
        r == control_byte(key@),
{
    if str_eq(key, "space") || str_eq(key, " ") || str_eq(key, "@") || str_eq(key, "2") {
        Some(0)
    } else if str_eq(key, "[") || str_eq(key, "3") {
        Some(0x1b)
    } else if str_eq(key, "\\") || str_eq(key, "4") {
        Some(0x1c)
    } else if str_eq(key, "]") || str_eq(key, "5") {
        Some(0x1d)
    } else if str_eq(key, "^") || str_eq(key, "6") {
        Some(0x1e)
    } else if str_eq(key, "_") || str_eq(key, "-") || str_eq(key, "7") || str_eq(key, "/") {
        Some(0x1f)
    } else {
        if str_eq(key, "?") || str_eq(key, "8") {
            return Some(0x7f);
        }
        let bytes = key.as_bytes();
        if bytes.len() == 1 {
            let b = bytes[0];
            if (0x41 <= b && b <= 0x5a) || (0x61 <= b && b <= 0x7a) {
                let upper = if b >= 0x61 { b - 32 } else { b };
                return Some(upper - 64);
            }
        }
        None
    }
}

fn plain(key: &Keystroke) -> (r: Option<Vec<u8>>)
    ensures
        bytes_view(r) == plain_bytes(*key),
{
    let modifiers = key.modifiers;
    let k = key.key.as_str();
    if str_eq(k, "enter") || str_eq(k, "return") {
        let v: Vec<u8> = vec![0x0d];
        assert(v@ =~= seq![0x0du8]);
        return Some(v);
    }
    if str_eq(k, "backspace") {
        let v: Vec<u8> = if modifiers.control { vec![0x08] } else { vec![0x7f] };
        assert(v@ =~= (if modifiers.control { seq![0x08u8] } else { seq![0x7fu8] }));
        return Some(v);
    }
    if str_eq(k, "escape") {
        let v: Vec<u8> = vec![0x1b];
        assert(v@ =~= seq![0x1bu8]);
        return Some(v);
    }
    if str_eq(k, "tab") {
        let v: Vec<u8> = if modifiers.shift { vec![0x1b, 0x5b, 0x5a] } else { vec![0x09] };
        assert(v@ =~= (if modifiers.shift { seq![0x1bu8, 0x5bu8, 0x5au8] } else { seq![0x09u8] }));
        return Some(v);
    }
    if modifiers.control {
        match control(k) {
            Some(b) => {
                let v: Vec<u8> = vec![b];
                assert(v@ =~= seq![b]);
                return Some(v);
            },
            None => return None,
        }
    }
    if str_eq(k, "space") {
        let v: Vec<u8> = vec![0x20];
        assert(v@ =~= seq![0x20u8]);
        return Some(v);
    }
    if modifiers.alt && k.unicode_len() == 1 {
        if modifiers.shift {
            let upper = to_uppercase(k);
            return Some(utf8_bytes(upper.as_str()));
        } else {
            return Some(utf8_bytes(k));
        }
    }
    match typed(key) {
        Some(t) => Some(utf8_bytes(t.as_str())),
        None => None,
    }
}

/// The decimal digits of a number below ten: the one digit.
proof fn lemma_single_digit(n: nat)
    requires
        n < 10,
    ensures
        decimal(n) == seq![(48 + n) as u8],
{
}

/// A cursor key's sequence tells its modifier parameter.
proof fn lemma_cursor_sequence_injective(suffix: u8, application: bool, m1: nat, m2: nat)
    requires
        1 <= m1 <= 8,
        1 <= m2 <= 8,
        cursor_sequence(suffix, application, m1) == cursor_sequence(suffix, application, m2),
    ensures
        m1 == m2,
{
    lemma_single_digit(m1);
    lemma_single_digit(m2);
    let s1 = cursor_sequence(suffix, application, m1);
    let s2 = cursor_sequence(suffix, application, m2);
    if m1 > 1 && m2 > 1 {
        assert(s1[4] == (48 + m1) as u8);
        assert(s2[4] == (48 + m2) as u8);
    } else if m1 > 1 || m2 > 1 {
        assert(s1.len() != s2.len());
    }
}

/// A function key's sequence tells its modifier parameter.
proof fn lemma_function_sequence_injective(number: nat, m1: nat, m2: nat)
    requires
        1 <= m1 <= 8,
        1 <= m2 <= 8,
        function_sequence(number, m1) == function_sequence(number, m2),
    ensures
        m1 == m2,
{
    lemma_single_digit(m1);
    lemma_single_digit(m2);
    let d = decimal(number).len() as int;
    let s1 = function_sequence(number, m1);
    let s2 = function_sequence(number, m2);
    if m1 > 1 && m2 > 1 {
        assert(s1[d + 3] == (48 + m1) as u8);
        assert(s2[d + 3] == (48 + m2) as u8);
    } else if m1 > 1 || m2 > 1 {
        assert(s1.len() != s2.len());
    }
}

/// Whether `key` names a cursor, editing or function key.
pub open spec fn is_named_key(key: Seq<char>) -> bool {
    cursor_suffix(key) is Some || function_number(key) is Some || ss3_suffix(key) is Some
}

/// Cursor, editing and function keys keep every combination of shift, alt and control: two
/// presses of the same such key, typing no text, send bytes, and the same bytes only with the
/// same modifiers.
pub proof fn lemma_named_keys_keep_modifiers(
    k1: Keystroke,
    k2: Keystroke,
    modes: Modes,
    option_as_alt: bool,
    defaults: bool,
    macos: bool,
)
    requires
        k1.key@ == k2.key@,
        is_named_key(k1.key@),
        !k1.modifiers.platform,
        !k2.modifiers.platform,
        k1.key_char is None,
        k2.key_char is None,
    ensures
        key_bytes(k1, modes, option_as_alt, defaults, macos) is Some,
        key_bytes(k1, modes, option_as_alt, defaults, macos) == key_bytes(
            k2,
            modes,
            option_as_alt,
            defaults,
            macos,
        ) ==> k1.modifiers.shift == k2.modifiers.shift && k1.modifiers.alt == k2.modifiers.alt
            && k1.modifiers.control == k2.modifiers.control,
{
    let key = k1.key@;
    let m1 = modifier_param(k1.modifiers);
    let m2 = modifier_param(k2.modifiers);
    assert(typed_text(k1) is None && typed_text(k2) is None);
    let s1 = named_sequence(key, modes, m1, defaults, macos);
    let s2 = named_sequence(key, modes, m2, defaults, macos);
    assert(s1 is Some && s2 is Some);
    if key_bytes(k1, modes, option_as_alt, defaults, macos) == key_bytes(
        k2,
        modes,
        option_as_alt,
        defaults,
        macos,
    ) {
        assert(s1 == s2);
        let word = (key == "left"@ || key == "right"@) && macos && defaults;
        if word && (m1 == 3 || m2 == 3) {
            if m1 != m2 {
                let other = if m1 == 3 {
                    m2
                } else {
                    m1
                };
                let suffix = cursor_suffix(key)->0;
                lemma_single_digit(other);
                assert(cursor_sequence(suffix, modes.application_cursor_keys, other).len() >= 3);
                assert(s1->0.len() != s2->0.len());
            }
        } else if let Some(suffix) = cursor_suffix(key) {
            lemma_cursor_sequence_injective(suffix, modes.application_cursor_keys, m1, m2);
        } else if let Some(number) = function_number(key) {
            lemma_function_sequence_injective(number, m1, m2);
        } else {
            lemma_cursor_sequence_injective(ss3_suffix(key)->0, true, m1, m2);
        }
        assert(m1 == m2);
    }
}

/// The sequence a cursor key or F1 to F4 sends with option as alt: with the default bindings
/// on macOS, alt with left or right moves by word; otherwise `ESC [ 1 ; m X` with the
/// modifier parameter `m` where any of shift, alt and control is held, else `ESC O X` for F1
/// to F4 or in application cursor mode, else `ESC [ X`.
pub open spec fn cursor_key_bytes(k: Seq<char>, modes: Modes, m: nat, defaults: bool, macos: bool) -> Seq<u8> {
    if macos && defaults && m == 3 && k == "left"@ {
        seq![0x1bu8, 0x62u8]
    } else if macos && defaults && m == 3 && k == "right"@ {
        seq![0x1bu8, 0x66u8]
    } else if m > 1 {
        seq![0x1bu8, 0x5bu8, 0x31u8, 0x3bu8] + decimal(m) + seq![
            match cursor_suffix(k) {
                Some(x) => x,
                None => ss3_suffix(k)->0,
            },
        ]
    } else if ss3_suffix(k) is Some {
        seq![0x1bu8, 0x4fu8, ss3_suffix(k)->0]
    } else if modes.application_cursor_keys {
        seq![0x1bu8, 0x4fu8, cursor_suffix(k)->0]
    } else {
        seq![0x1bu8, 0x5bu8, cursor_suffix(k)->0]
    }
}

/// Cursor keys and F1 to F4 send their sequence for every combination of shift, alt and
/// control, in any mode, as `cursor_key_bytes` says.
pub proof fn lemma_cursor_and_function_key_sequences(key: Keystroke, modes: Modes, defaults: bool, macos: bool)
    requires
        cursor_suffix(key.key@) is Some || ss3_suffix(key.key@) is Some,
        !key.modifiers.platform,
    ensures
        key_bytes(key, modes, true, defaults, macos) == Some(
            cursor_key_bytes(key.key@, modes, modifier_param(key.modifiers), defaults, macos),
        ),
{
    reveal_strlit("up");
    reveal_strlit("down");
    reveal_strlit("right");
    reveal_strlit("left");
    reveal_strlit("home");
    reveal_strlit("end");
    reveal_strlit("f1");
    reveal_strlit("f2");
    reveal_strlit("f3");
    reveal_strlit("f4");
    reveal_strlit("pageup");
    reveal_strlit("pagedown");
    reveal_strlit("insert");
    reveal_strlit("delete");
    reveal_strlit("f5");
    reveal_strlit("f6");
    reveal_strlit("f7");
    reveal_strlit("f8");
    reveal_strlit("f9");
    reveal_strlit("f10");
    reveal_strlit("f11");
    reveal_strlit("f12");
    reveal_strlit("f13");
    reveal_strlit("f14");
    reveal_strlit("f15");
    reveal_strlit("f16");
    reveal_strlit("f17");
    reveal_strlit("f18");
    reveal_strlit("f19");
    reveal_strlit("f20");
    let k = key.key@;
    if ss3_suffix(k) is Some {
        assert(cursor_suffix(k) is None);
        assert(k.len() == 2 && k[0] == 'f' && '1' <= k[1] && k[1] <= '4');
        assert(function_number(k) is None);
        assert(k != "left"@ && k != "right"@);
    }
}

/// The editing keys and F5 to F20, pressed without modifiers, send the sequences xterm
/// gives them: `ESC [ n ~` with Insert 2, Delete 3, Page Up 5, Page Down 6, and F5 to F20
/// 15, 17, 18, 19, 20, 21, 23, 24, 25, 26, 28, 29, 31, 32, 33, 34, whatever the modes and
/// bindings.
pub proof fn lemma_unmodified_editing_and_function_keys(
    key: Keystroke,
    modes: Modes,
    option_as_alt: bool,
    defaults: bool,
    macos: bool,
)
    requires
        !key.modifiers.control,
        !key.modifiers.alt,
        !key.modifiers.shift,
        !key.modifiers.platform,
    ensures
        key.key@ == "pageup"@ ==> key_bytes(key, modes, option_as_alt, defaults, macos) == Some(seq![0x1bu8, 0x5bu8, 0x35u8, 0x7eu8]),
        key.key@ == "pagedown"@ ==> key_bytes(key, modes, option_as_alt, defaults, macos) == Some(seq![0x1bu8, 0x5bu8, 0x36u8, 0x7eu8]),
        key.key@ == "insert"@ ==> key_bytes(key, modes, option_as_alt, defaults, macos) == Some(seq![0x1bu8, 0x5bu8, 0x32u8, 0x7eu8]),
        key.key@ == "delete"@ ==> key_bytes(key, modes, option_as_alt, defaults, macos) == Some(seq![0x1bu8, 0x5bu8, 0x33u8, 0x7eu8]),
        key.key@ == "f5"@ ==> key_bytes(key, modes, option_as_alt, defaults, macos) == Some(seq![0x1bu8, 0x5bu8, 0x31u8, 0x35u8, 0x7eu8]),
        key.key@ == "f6"@ ==> key_bytes(key, modes, option_as_alt, defaults, macos) == Some(seq![0x1bu8, 0x5bu8, 0x31u8, 0x37u8, 0x7eu8]),
        key.key@ == "f7"@ ==> key_bytes(key, modes, option_as_alt, defaults, macos) == Some(seq![0x1bu8, 0x5bu8, 0x31u8, 0x38u8, 0x7eu8]),
        key.key@ == "f8"@ ==> key_bytes(key, modes, option_as_alt, defaults, macos) == Some(seq![0x1bu8, 0x5bu8, 0x31u8, 0x39u8, 0x7eu8]),
        key.key@ == "f9"@ ==> key_bytes(key, modes, option_as_alt, defaults, macos) == Some(seq![0x1bu8, 0x5bu8, 0x32u8, 0x30u8, 0x7eu8]),
        key.key@ == "f10"@ ==> key_bytes(key, modes, option_as_alt, defaults, macos) == Some(seq![0x1bu8, 0x5bu8, 0x32u8, 0x31u8, 0x7eu8]),
        key.key@ == "f11"@ ==> key_bytes(key, modes, option_as_alt, defaults, macos) == Some(seq![0x1bu8, 0x5bu8, 0x32u8, 0x33u8, 0x7eu8]),
        key.key@ == "f12"@ ==> key_bytes(key, modes, option_as_alt, defaults, macos) == Some(seq![0x1bu8, 0x5bu8, 0x32u8, 0x34u8, 0x7eu8]),
        key.key@ == "f13"@ ==> key_bytes(key, modes, option_as_alt, defaults, macos) == Some(seq![0x1bu8, 0x5bu8, 0x32u8, 0x35u8, 0x7eu8]),
        key.key@ == "f14"@ ==> key_bytes(key, modes, option_as_alt, defaults, macos) == Some(seq![0x1bu8, 0x5bu8, 0x32u8, 0x36u8, 0x7eu8]),
        key.key@ == "f15"@ ==> key_bytes(key, modes, option_as_alt, defaults, macos) == Some(seq![0x1bu8, 0x5bu8, 0x32u8, 0x38u8, 0x7eu8]),
        key.key@ == "f16"@ ==> key_bytes(key, modes, option_as_alt, defaults, macos) == Some(seq![0x1bu8, 0x5bu8, 0x32u8, 0x39u8, 0x7eu8]),
        key.key@ == "f17"@ ==> key_bytes(key, modes, option_as_alt, defaults, macos) == Some(seq![0x1bu8, 0x5bu8, 0x33u8, 0x31u8, 0x7eu8]),
        key.key@ == "f18"@ ==> key_bytes(key, modes, option_as_alt, defaults, macos) == Some(seq![0x1bu8, 0x5bu8, 0x33u8, 0x32u8, 0x7eu8]),
        key.key@ == "f19"@ ==> key_bytes(key, modes, option_as_alt, defaults, macos) == Some(seq![0x1bu8, 0x5bu8, 0x33u8, 0x33u8, 0x7eu8]),
        key.key@ == "f20"@ ==> key_bytes(key, modes, option_as_alt, defaults, macos) == Some(seq![0x1bu8, 0x5bu8, 0x33u8, 0x34u8, 0x7eu8]),
{
    reveal_strlit("up");
    reveal_strlit("down");
    reveal_strlit("right");
    reveal_strlit("left");
    reveal_strlit("home");
    reveal_strlit("end");
    reveal_strlit("f1");
    reveal_strlit("f2");
    reveal_strlit("f3");
    reveal_strlit("f4");
    reveal_strlit("pageup");
    reveal_strlit("pagedown");
    reveal_strlit("insert");
    reveal_strlit("delete");
    reveal_strlit("f5");
    reveal_strlit("f6");
    reveal_strlit("f7");
    reveal_strlit("f8");
    reveal_strlit("f9");
    reveal_strlit("f10");
    reveal_strlit("f11");
    reveal_strlit("f12");
    reveal_strlit("f13");
    reveal_strlit("f14");
    reveal_strlit("f15");
    reveal_strlit("f16");
    reveal_strlit("f17");
    reveal_strlit("f18");
    reveal_strlit("f19");
    reveal_strlit("f20");
    reveal_with_fuel(decimal, 3);
    assert(decimal(2) == seq![0x32u8]);
    assert(decimal(3) == seq![0x33u8]);
    assert(decimal(5) == seq![0x35u8]);
    assert(decimal(6) == seq![0x36u8]);
    assert(decimal(15) == seq![0x31u8, 0x35u8]);
    assert(decimal(17) == seq![0x31u8, 0x37u8]);
    assert(decimal(18) == seq![0x31u8, 0x38u8]);
    assert(decimal(19) == seq![0x31u8, 0x39u8]);
    assert(decimal(20) == seq![0x32u8, 0x30u8]);
    assert(decimal(21) == seq![0x32u8, 0x31u8]);
    assert(decimal(23) == seq![0x32u8, 0x33u8]);
    assert(decimal(24) == seq![0x32u8, 0x34u8]);
    assert(decimal(25) == seq![0x32u8, 0x35u8]);
    assert(decimal(26) == seq![0x32u8, 0x36u8]);
    assert(decimal(28) == seq![0x32u8, 0x38u8]);
    assert(decimal(29) == seq![0x32u8, 0x39u8]);
    assert(decimal(31) == seq![0x33u8, 0x31u8]);
    assert(decimal(32) == seq![0x33u8, 0x32u8]);
    assert(decimal(33) == seq![0x33u8, 0x33u8]);
    assert(decimal(34) == seq![0x33u8, 0x34u8]);
    let k = key.key@;
    assert(modifier_param(key.modifiers) == 1);
    if k == "pageup"@ {
        assert("pageup"@.len() != "up"@.len());
        assert("pageup"@.len() != "down"@.len());
        assert("pageup"@.len() != "right"@.len());
        assert("pageup"@.len() != "left"@.len());
        assert("pageup"@.len() != "home"@.len());
        assert("pageup"@.len() != "end"@.len());
        assert(function_number(k) == Some(5nat));
        assert(cursor_suffix(k) is None);
        assert(named_sequence(k, modes, 1, defaults, macos) == Some(function_sequence(5nat, 1)));
    }
    if k == "pagedown"@ {
        assert("pagedown"@.len() != "up"@.len());
        assert("pagedown"@.len() != "down"@.len());
        assert("pagedown"@.len() != "right"@.len());
        assert("pagedown"@.len() != "left"@.len());
        assert("pagedown"@.len() != "home"@.len());
        assert("pagedown"@.len() != "end"@.len());
        assert("pagedown"@.len() != "pageup"@.len());
        assert(function_number(k) == Some(6nat));
        assert(cursor_suffix(k) is None);
        assert(named_sequence(k, modes, 1, defaults, macos) == Some(function_sequence(6nat, 1)));
    }
    if k == "insert"@ {
        assert("insert"@.len() != "up"@.len());
        assert("insert"@.len() != "down"@.len());
        assert("insert"@.len() != "right"@.len());
        assert("insert"@.len() != "left"@.len());
        assert("insert"@.len() != "home"@.len());
        assert("insert"@.len() != "end"@.len());
        assert("insert"@[0] == 'i' && "pageup"@[0] == 'p');
        assert("insert"@.len() != "pagedown"@.len());
        assert(function_number(k) == Some(2nat));
        assert(cursor_suffix(k) is None);
        assert(named_sequence(k, modes, 1, defaults, macos) == Some(function_sequence(2nat, 1)));
    }
    if k == "delete"@ {
        assert("delete"@.len() != "up"@.len());
        assert("delete"@.len() != "down"@.len());
        assert("delete"@.len() != "right"@.len());
        assert("delete"@.len() != "left"@.len());
        assert("delete"@.len() != "home"@.len());
        assert("delete"@.len() != "end"@.len());
        assert("delete"@[0] == 'd' && "pageup"@[0] == 'p');
        assert("delete"@.len() != "pagedown"@.len());
        assert("delete"@[0] == 'd' && "insert"@[0] == 'i');
        assert(function_number(k) == Some(3nat));
        assert(cursor_suffix(k) is None);
        assert(named_sequence(k, modes, 1, defaults, macos) == Some(function_sequence(3nat, 1)));
    }
    if k == "f5"@ {
        assert("f5"@[0] == 'f' && "up"@[0] == 'u');
        assert("f5"@.len() != "down"@.len());
        assert("f5"@.len() != "right"@.len());
        assert("f5"@.len() != "left"@.len());
        assert("f5"@.len() != "home"@.len());
        assert("f5"@.len() != "end"@.len());
        assert("f5"@.len() != "pageup"@.len());
        assert("f5"@.len() != "pagedown"@.len());
        assert("f5"@.len() != "insert"@.len());
        assert("f5"@.len() != "delete"@.len());
        assert(function_number(k) == Some(15nat));
        assert(cursor_suffix(k) is None);
        assert(named_sequence(k, modes, 1, defaults, macos) == Some(function_sequence(15nat, 1)));
    }
    if k == "f6"@ {
        assert("f6"@[0] == 'f' && "up"@[0] == 'u');
        assert("f6"@.len() != "down"@.len());
        assert("f6"@.len() != "right"@.len());
        assert("f6"@.len() != "left"@.len());
        assert("f6"@.len() != "home"@.len());
        assert("f6"@.len() != "end"@.len());
        assert("f6"@.len() != "pageup"@.len());
        assert("f6"@.len() != "pagedown"@.len());
        assert("f6"@.len() != "insert"@.len());
        assert("f6"@.len() != "delete"@.len());
        assert("f6"@[1] == '6' && "f5"@[1] == '5');
        assert(function_number(k) == Some(17nat));
        assert(cursor_suffix(k) is None);
        assert(named_sequence(k, modes, 1, defaults, macos) == Some(function_sequence(17nat, 1)));
    }
    if k == "f7"@ {
        assert("f7"@[0] == 'f' && "up"@[0] == 'u');
        assert("f7"@.len() != "down"@.len());
        assert("f7"@.len() != "right"@.len());
        assert("f7"@.len() != "left"@.len());
        assert("f7"@.len() != "home"@.len());
        assert("f7"@.len() != "end"@.len());
        assert("f7"@.len() != "pageup"@.len());
        assert("f7"@.len() != "pagedown"@.len());
        assert("f7"@.len() != "insert"@.len());
        assert("f7"@.len() != "delete"@.len());
        assert("f7"@[1] == '7' && "f5"@[1] == '5');
        assert("f7"@[1] == '7' && "f6"@[1] == '6');
        assert(function_number(k) == Some(18nat));
        assert(cursor_suffix(k) is None);
        assert(named_sequence(k, modes, 1, defaults, macos) == Some(function_sequence(18nat, 1)));
    }
    if k == "f8"@ {
        assert("f8"@[0] == 'f' && "up"@[0] == 'u');
        assert("f8"@.len() != "down"@.len());
        assert("f8"@.len() != "right"@.len());
        assert("f8"@.len() != "left"@.len());
        assert("f8"@.len() != "home"@.len());
        assert("f8"@.len() != "end"@.len());
        assert("f8"@.len() != "pageup"@.len());
        assert("f8"@.len() != "pagedown"@.len());
        assert("f8"@.len() != "insert"@.len());
        assert("f8"@.len() != "delete"@.len());
        assert("f8"@[1] == '8' && "f5"@[1] == '5');
        assert("f8"@[1] == '8' && "f6"@[1] == '6');
        assert("f8"@[1] == '8' && "f7"@[1] == '7');
        assert(function_number(k) == Some(19nat));
        assert(cursor_suffix(k) is None);
        assert(named_sequence(k, modes, 1, defaults, macos) == Some(function_sequence(19nat, 1)));
    }
    if k == "f9"@ {
        assert("f9"@[0] == 'f' && "up"@[0] == 'u');
        assert("f9"@.len() != "down"@.len());
        assert("f9"@.len() != "right"@.len());
        assert("f9"@.len() != "left"@.len());
        assert("f9"@.len() != "home"@.len());
        assert("f9"@.len() != "end"@.len());
        assert("f9"@.len() != "pageup"@.len());
        assert("f9"@.len() != "pagedown"@.len());
        assert("f9"@.len() != "insert"@.len());
        assert("f9"@.len() != "delete"@.len());
        assert("f9"@[1] == '9' && "f5"@[1] == '5');
        assert("f9"@[1] == '9' && "f6"@[1] == '6');
        assert("f9"@[1] == '9' && "f7"@[1] == '7');
        assert("f9"@[1] == '9' && "f8"@[1] == '8');
        assert(function_number(k) == Some(20nat));
        assert(cursor_suffix(k) is None);
        assert(named_sequence(k, modes, 1, defaults, macos) == Some(function_sequence(20nat, 1)));
    }
    if k == "f10"@ {
        assert("f10"@.len() != "up"@.len());
        assert("f10"@.len() != "down"@.len());
        assert("f10"@.len() != "right"@.len());
        assert("f10"@.len() != "left"@.len());
        assert("f10"@.len() != "home"@.len());
        assert("f10"@[0] == 'f' && "end"@[0] == 'e');
        assert("f10"@.len() != "pageup"@.len());
        assert("f10"@.len() != "pagedown"@.len());
        assert("f10"@.len() != "insert"@.len());
        assert("f10"@.len() != "delete"@.len());
        assert("f10"@.len() != "f5"@.len());
        assert("f10"@.len() != "f6"@.len());
        assert("f10"@.len() != "f7"@.len());
        assert("f10"@.len() != "f8"@.len());
        assert("f10"@.len() != "f9"@.len());
        assert(function_number(k) == Some(21nat));
        assert(cursor_suffix(k) is None);
        assert(named_sequence(k, modes, 1, defaults, macos) == Some(function_sequence(21nat, 1)));
    }
    if k == "f11"@ {
        assert("f11"@.len() != "up"@.len());
        assert("f11"@.len() != "down"@.len());
        assert("f11"@.len() != "right"@.len());
        assert("f11"@.len() != "left"@.len());
        assert("f11"@.len() != "home"@.len());
        assert("f11"@[0] == 'f' && "end"@[0] == 'e');
        assert("f11"@.len() != "pageup"@.len());
        assert("f11"@.len() != "pagedown"@.len());
        assert("f11"@.len() != "insert"@.len());
        assert("f11"@.len() != "delete"@.len());
        assert("f11"@.len() != "f5"@.len());
        assert("f11"@.len() != "f6"@.len());
        assert("f11"@.len() != "f7"@.len());
        assert("f11"@.len() != "f8"@.len());
        assert("f11"@.len() != "f9"@.len());
        assert("f11"@[2] == '1' && "f10"@[2] == '0');
        assert(function_number(k) == Some(23nat));
        assert(cursor_suffix(k) is None);
        assert(named_sequence(k, modes, 1, defaults, macos) == Some(function_sequence(23nat, 1)));
    }
    if k == "f12"@ {
        assert("f12"@.len() != "up"@.len());
        assert("f12"@.len() != "down"@.len());
        assert("f12"@.len() != "right"@.len());
        assert("f12"@.len() != "left"@.len());
        assert("f12"@.len() != "home"@.len());
        assert("f12"@[0] == 'f' && "end"@[0] == 'e');
        assert("f12"@.len() != "pageup"@.len());
        assert("f12"@.len() != "pagedown"@.len());
        assert("f12"@.len() != "insert"@.len());
        assert("f12"@.len() != "delete"@.len());
        assert("f12"@.len() != "f5"@.len());
        assert("f12"@.len() != "f6"@.len());
        assert("f12"@.len() != "f7"@.len());
        assert("f12"@.len() != "f8"@.len());
        assert("f12"@.len() != "f9"@.len());
        assert("f12"@[2] == '2' && "f10"@[2] == '0');
        assert("f12"@[2] == '2' && "f11"@[2] == '1');
        assert(function_number(k) == Some(24nat));
        assert(cursor_suffix(k) is None);
        assert(named_sequence(k, modes, 1, defaults, macos) == Some(function_sequence(24nat, 1)));
    }
    if k == "f13"@ {
        assert("f13"@.len() != "up"@.len());
        assert("f13"@.len() != "down"@.len());
        assert("f13"@.len() != "right"@.len());
        assert("f13"@.len() != "left"@.len());
        assert("f13"@.len() != "home"@.len());
        assert("f13"@[0] == 'f' && "end"@[0] == 'e');
        assert("f13"@.len() != "pageup"@.len());
        assert("f13"@.len() != "pagedown"@.len());
        assert("f13"@.len() != "insert"@.len());
        assert("f13"@.len() != "delete"@.len());
        assert("f13"@.len() != "f5"@.len());
        assert("f13"@.len() != "f6"@.len());
        assert("f13"@.len() != "f7"@.len());
        assert("f13"@.len() != "f8"@.len());
        assert("f13"@.len() != "f9"@.len());
        assert("f13"@[2] == '3' && "f10"@[2] == '0');
        assert("f13"@[2] == '3' && "f11"@[2] == '1');
        assert("f13"@[2] == '3' && "f12"@[2] == '2');
        assert(function_number(k) == Some(25nat));
        assert(cursor_suffix(k) is None);
        assert(named_sequence(k, modes, 1, defaults, macos) == Some(function_sequence(25nat, 1)));
    }
    if k == "f14"@ {
        assert("f14"@.len() != "up"@.len());
        assert("f14"@.len() != "down"@.len());
        assert("f14"@.len() != "right"@.len());
        assert("f14"@.len() != "left"@.len());
        assert("f14"@.len() != "home"@.len());
        assert("f14"@[0] == 'f' && "end"@[0] == 'e');
        assert("f14"@.len() != "pageup"@.len());
        assert("f14"@.len() != "pagedown"@.len());
        assert("f14"@.len() != "insert"@.len());
        assert("f14"@.len() != "delete"@.len());
        assert("f14"@.len() != "f5"@.len());
        assert("f14"@.len() != "f6"@.len());
        assert("f14"@.len() != "f7"@.len());
        assert("f14"@.len() != "f8"@.len());
        assert("f14"@.len() != "f9"@.len());
        assert("f14"@[2] == '4' && "f10"@[2] == '0');
        assert("f14"@[2] == '4' && "f11"@[2] == '1');
        assert("f14"@[2] == '4' && "f12"@[2] == '2');
        assert("f14"@[2] == '4' && "f13"@[2] == '3');
        assert(function_number(k) == Some(26nat));
        assert(cursor_suffix(k) is None);
        assert(named_sequence(k, modes, 1, defaults, macos) == Some(function_sequence(26nat, 1)));
    }
    if k == "f15"@ {
        assert("f15"@.len() != "up"@.len());
        assert("f15"@.len() != "down"@.len());
        assert("f15"@.len() != "right"@.len());
        assert("f15"@.len() != "left"@.len());
        assert("f15"@.len() != "home"@.len());
        assert("f15"@[0] == 'f' && "end"@[0] == 'e');
        assert("f15"@.len() != "pageup"@.len());
        assert("f15"@.len() != "pagedown"@.len());
        assert("f15"@.len() != "insert"@.len());
        assert("f15"@.len() != "delete"@.len());
        assert("f15"@.len() != "f5"@.len());
        assert("f15"@.len() != "f6"@.len());
        assert("f15"@.len() != "f7"@.len());
        assert("f15"@.len() != "f8"@.len());
        assert("f15"@.len() != "f9"@.len());
        assert("f15"@[2] == '5' && "f10"@[2] == '0');
        assert("f15"@[2] == '5' && "f11"@[2] == '1');
        assert("f15"@[2] == '5' && "f12"@[2] == '2');
        assert("f15"@[2] == '5' && "f13"@[2] == '3');
        assert("f15"@[2] == '5' && "f14"@[2] == '4');
        assert(function_number(k) == Some(28nat));
        assert(cursor_suffix(k) is None);
        assert(named_sequence(k, modes, 1, defaults, macos) == Some(function_sequence(28nat, 1)));
    }
    if k == "f16"@ {
        assert("f16"@.len() != "up"@.len());
        assert("f16"@.len() != "down"@.len());
        assert("f16"@.len() != "right"@.len());
        assert("f16"@.len() != "left"@.len());
        assert("f16"@.len() != "home"@.len());
        assert("f16"@[0] == 'f' && "end"@[0] == 'e');
        assert("f16"@.len() != "pageup"@.len());
        assert("f16"@.len() != "pagedown"@.len());
        assert("f16"@.len() != "insert"@.len());
        assert("f16"@.len() != "delete"@.len());
        assert("f16"@.len() != "f5"@.len());
        assert("f16"@.len() != "f6"@.len());
        assert("f16"@.len() != "f7"@.len());
        assert("f16"@.len() != "f8"@.len());
        assert("f16"@.len() != "f9"@.len());
        assert("f16"@[2] == '6' && "f10"@[2] == '0');
        assert("f16"@[2] == '6' && "f11"@[2] == '1');
        assert("f16"@[2] == '6' && "f12"@[2] == '2');
        assert("f16"@[2] == '6' && "f13"@[2] == '3');
        assert("f16"@[2] == '6' && "f14"@[2] == '4');
        assert("f16"@[2] == '6' && "f15"@[2] == '5');
        assert(function_number(k) == Some(29nat));
        assert(cursor_suffix(k) is None);
        assert(named_sequence(k, modes, 1, defaults, macos) == Some(function_sequence(29nat, 1)));
    }
    if k == "f17"@ {
        assert("f17"@.len() != "up"@.len());
        assert("f17"@.len() != "down"@.len());
        assert("f17"@.len() != "right"@.len());
        assert("f17"@.len() != "left"@.len());
        assert("f17"@.len() != "home"@.len());
        assert("f17"@[0] == 'f' && "end"@[0] == 'e');
        assert("f17"@.len() != "pageup"@.len());
        assert("f17"@.len() != "pagedown"@.len());
        assert("f17"@.len() != "insert"@.len());
        assert("f17"@.len() != "delete"@.len());
        assert("f17"@.len() != "f5"@.len());
        assert("f17"@.len() != "f6"@.len());
        assert("f17"@.len() != "f7"@.len());
        assert("f17"@.len() != "f8"@.len());
        assert("f17"@.len() != "f9"@.len());
        assert("f17"@[2] == '7' && "f10"@[2] == '0');
        assert("f17"@[2] == '7' && "f11"@[2] == '1');
        assert("f17"@[2] == '7' && "f12"@[2] == '2');
        assert("f17"@[2] == '7' && "f13"@[2] == '3');
        assert("f17"@[2] == '7' && "f14"@[2] == '4');
        assert("f17"@[2] == '7' && "f15"@[2] == '5');
        assert("f17"@[2] == '7' && "f16"@[2] == '6');
        assert(function_number(k) == Some(31nat));
        assert(cursor_suffix(k) is None);
        assert(named_sequence(k, modes, 1, defaults, macos) == Some(function_sequence(31nat, 1)));
    }
    if k == "f18"@ {
        assert("f18"@.len() != "up"@.len());
        assert("f18"@.len() != "down"@.len());
        assert("f18"@.len() != "right"@.len());
        assert("f18"@.len() != "left"@.len());
        assert("f18"@.len() != "home"@.len());
        assert("f18"@[0] == 'f' && "end"@[0] == 'e');
        assert("f18"@.len() != "pageup"@.len());
        assert("f18"@.len() != "pagedown"@.len());
        assert("f18"@.len() != "insert"@.len());
        assert("f18"@.len() != "delete"@.len());
        assert("f18"@.len() != "f5"@.len());
        assert("f18"@.len() != "f6"@.len());
        assert("f18"@.len() != "f7"@.len());
        assert("f18"@.len() != "f8"@.len());
        assert("f18"@.len() != "f9"@.len());
        assert("f18"@[2] == '8' && "f10"@[2] == '0');
        assert("f18"@[2] == '8' && "f11"@[2] == '1');
        assert("f18"@[2] == '8' && "f12"@[2] == '2');
        assert("f18"@[2] == '8' && "f13"@[2] == '3');
        assert("f18"@[2] == '8' && "f14"@[2] == '4');
        assert("f18"@[2] == '8' && "f15"@[2] == '5');
        assert("f18"@[2] == '8' && "f16"@[2] == '6');
        assert("f18"@[2] == '8' && "f17"@[2] == '7');
        assert(function_number(k) == Some(32nat));
        assert(cursor_suffix(k) is None);
        assert(named_sequence(k, modes, 1, defaults, macos) == Some(function_sequence(32nat, 1)));
    }
    if k == "f19"@ {
        assert("f19"@.len() != "up"@.len());
        assert("f19"@.len() != "down"@.len());
        assert("f19"@.len() != "right"@.len());
        assert("f19"@.len() != "left"@.len());
        assert("f19"@.len() != "home"@.len());
        assert("f19"@[0] == 'f' && "end"@[0] == 'e');
        assert("f19"@.len() != "pageup"@.len());
        assert("f19"@.len() != "pagedown"@.len());
        assert("f19"@.len() != "insert"@.len());
        assert("f19"@.len() != "delete"@.len());
        assert("f19"@.len() != "f5"@.len());
        assert("f19"@.len() != "f6"@.len());
        assert("f19"@.len() != "f7"@.len());
        assert("f19"@.len() != "f8"@.len());
        assert("f19"@.len() != "f9"@.len());
        assert("f19"@[2] == '9' && "f10"@[2] == '0');
        assert("f19"@[2] == '9' && "f11"@[2] == '1');
        assert("f19"@[2] == '9' && "f12"@[2] == '2');
        assert("f19"@[2] == '9' && "f13"@[2] == '3');
        assert("f19"@[2] == '9' && "f14"@[2] == '4');
        assert("f19"@[2] == '9' && "f15"@[2] == '5');
        assert("f19"@[2] == '9' && "f16"@[2] == '6');
        assert("f19"@[2] == '9' && "f17"@[2] == '7');
        assert("f19"@[2] == '9' && "f18"@[2] == '8');
        assert(function_number(k) == Some(33nat));
        assert(cursor_suffix(k) is None);
        assert(named_sequence(k, modes, 1, defaults, macos) == Some(function_sequence(33nat, 1)));
    }
    if k == "f20"@ {
        assert("f20"@.len() != "up"@.len());
        assert("f20"@.len() != "down"@.len());
        assert("f20"@.len() != "right"@.len());
        assert("f20"@.len() != "left"@.len());
        assert("f20"@.len() != "home"@.len());
        assert("f20"@[0] == 'f' && "end"@[0] == 'e');
        assert("f20"@.len() != "pageup"@.len());
        assert("f20"@.len() != "pagedown"@.len());
        assert("f20"@.len() != "insert"@.len());
        assert("f20"@.len() != "delete"@.len());
        assert("f20"@.len() != "f5"@.len());
        assert("f20"@.len() != "f6"@.len());
        assert("f20"@.len() != "f7"@.len());
        assert("f20"@.len() != "f8"@.len());
        assert("f20"@.len() != "f9"@.len());
        assert("f20"@[1] == '2' && "f10"@[1] == '1');
        assert("f20"@[1] == '2' && "f11"@[1] == '1');
        assert("f20"@[1] == '2' && "f12"@[1] == '1');
        assert("f20"@[1] == '2' && "f13"@[1] == '1');
        assert("f20"@[1] == '2' && "f14"@[1] == '1');
        assert("f20"@[1] == '2' && "f15"@[1] == '1');
        assert("f20"@[1] == '2' && "f16"@[1] == '1');
        assert("f20"@[1] == '2' && "f17"@[1] == '1');
        assert("f20"@[1] == '2' && "f18"@[1] == '1');
        assert("f20"@[1] == '2' && "f19"@[1] == '1');
        assert(function_number(k) == Some(34nat));
        assert(cursor_suffix(k) is None);
        assert(named_sequence(k, modes, 1, defaults, macos) == Some(function_sequence(34nat, 1)));
    }
}

/// The cursor keys and F1 to F4, pressed without modifiers, send the sequences xterm gives
/// them: up, down, right, left, home and end end in A, B, C, D, H and F, after `ESC O` in
/// application cursor mode and `ESC [` otherwise; F1 to F4 send `ESC O` then P, Q, R and S.
pub proof fn lemma_unmodified_cursor_keys(
    key: Keystroke,
    modes: Modes,
    option_as_alt: bool,
    defaults: bool,
    macos: bool,
)
    requires
        !key.modifiers.control,
        !key.modifiers.alt,
        !key.modifiers.shift,
        !key.modifiers.platform,
    ensures
        key.key@ == "up"@ ==> key_bytes(key, modes, option_as_alt, defaults, macos) == Some(if modes.application_cursor_keys { seq![0x1bu8, 0x4fu8, 0x41u8] } else { seq![0x1bu8, 0x5bu8, 0x41u8] }),
        key.key@ == "down"@ ==> key_bytes(key, modes, option_as_alt, defaults, macos) == Some(if modes.application_cursor_keys { seq![0x1bu8, 0x4fu8, 0x42u8] } else { seq![0x1bu8, 0x5bu8, 0x42u8] }),
        key.key@ == "right"@ ==> key_bytes(key, modes, option_as_alt, defaults, macos) == Some(if modes.application_cursor_keys { seq![0x1bu8, 0x4fu8, 0x43u8] } else { seq![0x1bu8, 0x5bu8, 0x43u8] }),
        key.key@ == "left"@ ==> key_bytes(key, modes, option_as_alt, defaults, macos) == Some(if modes.application_cursor_keys { seq![0x1bu8, 0x4fu8, 0x44u8] } else { seq![0x1bu8, 0x5bu8, 0x44u8] }),
        key.key@ == "home"@ ==> key_bytes(key, modes, option_as_alt, defaults, macos) == Some(if modes.application_cursor_keys { seq![0x1bu8, 0x4fu8, 0x48u8] } else { seq![0x1bu8, 0x5bu8, 0x48u8] }),
        key.key@ == "end"@ ==> key_bytes(key, modes, option_as_alt, defaults, macos) == Some(if modes.application_cursor_keys { seq![0x1bu8, 0x4fu8, 0x46u8] } else { seq![0x1bu8, 0x5bu8, 0x46u8] }),
        key.key@ == "f1"@ ==> key_bytes(key, modes, option_as_alt, defaults, macos) == Some(seq![0x1bu8, 0x4fu8, 0x50u8]),
        key.key@ == "f2"@ ==> key_bytes(key, modes, option_as_alt, defaults, macos) == Some(seq![0x1bu8, 0x4fu8, 0x51u8]),
        key.key@ == "f3"@ ==> key_bytes(key, modes, option_as_alt, defaults, macos) == Some(seq![0x1bu8, 0x4fu8, 0x52u8]),
        key.key@ == "f4"@ ==> key_bytes(key, modes, option_as_alt, defaults, macos) == Some(seq![0x1bu8, 0x4fu8, 0x53u8]),
{
    reveal_strlit("up");
    reveal_strlit("down");
    reveal_strlit("right");
    reveal_strlit("left");
    reveal_strlit("home");
    reveal_strlit("end");
    reveal_strlit("f1");
    reveal_strlit("f2");
    reveal_strlit("f3");
    reveal_strlit("f4");
    let k = key.key@;
    assert(modifier_param(key.modifiers) == 1);
    if k == "up"@ {
        reveal_strlit("down");
        assert("up"@.len() != "down"@.len());
        reveal_strlit("right");
        assert("up"@.len() != "right"@.len());
        reveal_strlit("left");
        assert("up"@.len() != "left"@.len());
        reveal_strlit("home");
        assert("up"@.len() != "home"@.len());
        reveal_strlit("end");
        assert("up"@.len() != "end"@.len());
        reveal_strlit("f1");
        assert("up"@[0] == 'u' && "f1"@[0] == 'f');
        reveal_strlit("f2");
        assert("up"@[0] == 'u' && "f2"@[0] == 'f');
        reveal_strlit("f3");
        assert("up"@[0] == 'u' && "f3"@[0] == 'f');
        reveal_strlit("f4");
        assert("up"@[0] == 'u' && "f4"@[0] == 'f');
        reveal_strlit("pageup");
        assert("up"@.len() != "pageup"@.len());
        reveal_strlit("pagedown");
        assert("up"@.len() != "pagedown"@.len());
        reveal_strlit("insert");
        assert("up"@.len() != "insert"@.len());
        reveal_strlit("delete");
        assert("up"@.len() != "delete"@.len());
        reveal_strlit("f5");
        assert("up"@[0] == 'u' && "f5"@[0] == 'f');
        reveal_strlit("f6");
        assert("up"@[0] == 'u' && "f6"@[0] == 'f');
        reveal_strlit("f7");
        assert("up"@[0] == 'u' && "f7"@[0] == 'f');
        reveal_strlit("f8");
        assert("up"@[0] == 'u' && "f8"@[0] == 'f');
        reveal_strlit("f9");
        assert("up"@[0] == 'u' && "f9"@[0] == 'f');
        reveal_strlit("f10");
        assert("up"@.len() != "f10"@.len());
        reveal_strlit("f11");
        assert("up"@.len() != "f11"@.len());
        reveal_strlit("f12");
        assert("up"@.len() != "f12"@.len());
        reveal_strlit("f13");
        assert("up"@.len() != "f13"@.len());
        reveal_strlit("f14");
        assert("up"@.len() != "f14"@.len());
        reveal_strlit("f15");
        assert("up"@.len() != "f15"@.len());
        reveal_strlit("f16");
        assert("up"@.len() != "f16"@.len());
        reveal_strlit("f17");
        assert("up"@.len() != "f17"@.len());
        reveal_strlit("f18");
        assert("up"@.len() != "f18"@.len());
        reveal_strlit("f19");
        assert("up"@.len() != "f19"@.len());
        reveal_strlit("f20");
        assert("up"@.len() != "f20"@.len());
    }
    if k == "down"@ {
        reveal_strlit("up");
        assert("down"@.len() != "up"@.len());
        reveal_strlit("right");
        assert("down"@.len() != "right"@.len());
        reveal_strlit("left");
        assert("down"@[0] == 'd' && "left"@[0] == 'l');
        reveal_strlit("home");
        assert("down"@[0] == 'd' && "home"@[0] == 'h');
        reveal_strlit("end");
        assert("down"@.len() != "end"@.len());
        reveal_strlit("f1");
        assert("down"@.len() != "f1"@.len());
        reveal_strlit("f2");
        assert("down"@.len() != "f2"@.len());
        reveal_strlit("f3");
        assert("down"@.len() != "f3"@.len());
        reveal_strlit("f4");
        assert("down"@.len() != "f4"@.len());
        reveal_strlit("pageup");
        assert("down"@.len() != "pageup"@.len());
        reveal_strlit("pagedown");
        assert("down"@.len() != "pagedown"@.len());
        reveal_strlit("insert");
        assert("down"@.len() != "insert"@.len());
        reveal_strlit("delete");
        assert("down"@.len() != "delete"@.len());
        reveal_strlit("f5");
        assert("down"@.len() != "f5"@.len());
        reveal_strlit("f6");
        assert("down"@.len() != "f6"@.len());
        reveal_strlit("f7");
        assert("down"@.len() != "f7"@.len());
        reveal_strlit("f8");
        assert("down"@.len() != "f8"@.len());
        reveal_strlit("f9");
        assert("down"@.len() != "f9"@.len());
        reveal_strlit("f10");
        assert("down"@.len() != "f10"@.len());
        reveal_strlit("f11");
        assert("down"@.len() != "f11"@.len());
        reveal_strlit("f12");
        assert("down"@.len() != "f12"@.len());
        reveal_strlit("f13");
        assert("down"@.len() != "f13"@.len());
        reveal_strlit("f14");
        assert("down"@.len() != "f14"@.len());
        reveal_strlit("f15");
        assert("down"@.len() != "f15"@.len());
        reveal_strlit("f16");
        assert("down"@.len() != "f16"@.len());
        reveal_strlit("f17");
        assert("down"@.len() != "f17"@.len());
        reveal_strlit("f18");
        assert("down"@.len() != "f18"@.len());
        reveal_strlit("f19");
        assert("down"@.len() != "f19"@.len());
        reveal_strlit("f20");
        assert("down"@.len() != "f20"@.len());
    }
    if k == "right"@ {
        reveal_strlit("up");
        assert("right"@.len() != "up"@.len());
        reveal_strlit("down");
        assert("right"@.len() != "down"@.len());
        reveal_strlit("left");
        assert("right"@.len() != "left"@.len());
        reveal_strlit("home");
        assert("right"@.len() != "home"@.len());
        reveal_strlit("end");
        assert("right"@.len() != "end"@.len());
        reveal_strlit("f1");
        assert("right"@.len() != "f1"@.len());
        reveal_strlit("f2");
        assert("right"@.len() != "f2"@.len());
        reveal_strlit("f3");
        assert("right"@.len() != "f3"@.len());
        reveal_strlit("f4");
        assert("right"@.len() != "f4"@.len());
        reveal_strlit("pageup");
        assert("right"@.len() != "pageup"@.len());
        reveal_strlit("pagedown");
        assert("right"@.len() != "pagedown"@.len());
        reveal_strlit("insert");
        assert("right"@.len() != "insert"@.len());
        reveal_strlit("delete");
        assert("right"@.len() != "delete"@.len());
        reveal_strlit("f5");
        assert("right"@.len() != "f5"@.len());
        reveal_strlit("f6");
        assert("right"@.len() != "f6"@.len());
        reveal_strlit("f7");
        assert("right"@.len() != "f7"@.len());
        reveal_strlit("f8");
        assert("right"@.len() != "f8"@.len());
        reveal_strlit("f9");
        assert("right"@.len() != "f9"@.len());
        reveal_strlit("f10");
        assert("right"@.len() != "f10"@.len());
        reveal_strlit("f11");
        assert("right"@.len() != "f11"@.len());
        reveal_strlit("f12");
        assert("right"@.len() != "f12"@.len());
        reveal_strlit("f13");
        assert("right"@.len() != "f13"@.len());
        reveal_strlit("f14");
        assert("right"@.len() != "f14"@.len());
        reveal_strlit("f15");
        assert("right"@.len() != "f15"@.len());
        reveal_strlit("f16");
        assert("right"@.len() != "f16"@.len());
        reveal_strlit("f17");
        assert("right"@.len() != "f17"@.len());
        reveal_strlit("f18");
        assert("right"@.len() != "f18"@.len());
        reveal_strlit("f19");
        assert("right"@.len() != "f19"@.len());
        reveal_strlit("f20");
        assert("right"@.len() != "f20"@.len());
    }
    if k == "left"@ {
        reveal_strlit("up");
        assert("left"@.len() != "up"@.len());
        reveal_strlit("down");
        assert("left"@[0] == 'l' && "down"@[0] == 'd');
        reveal_strlit("right");
        assert("left"@.len() != "right"@.len());
        reveal_strlit("home");
        assert("left"@[0] == 'l' && "home"@[0] == 'h');
        reveal_strlit("end");
        assert("left"@.len() != "end"@.len());
        reveal_strlit("f1");
        assert("left"@.len() != "f1"@.len());
        reveal_strlit("f2");
        assert("left"@.len() != "f2"@.len());
        reveal_strlit("f3");
        assert("left"@.len() != "f3"@.len());
        reveal_strlit("f4");
        assert("left"@.len() != "f4"@.len());
        reveal_strlit("pageup");
        assert("left"@.len() != "pageup"@.len());
        reveal_strlit("pagedown");
        assert("left"@.len() != "pagedown"@.len());
        reveal_strlit("insert");
        assert("left"@.len() != "insert"@.len());
        reveal_strlit("delete");
        assert("left"@.len() != "delete"@.len());
        reveal_strlit("f5");
        assert("left"@.len() != "f5"@.len());
        reveal_strlit("f6");
        assert("left"@.len() != "f6"@.len());
        reveal_strlit("f7");
        assert("left"@.len() != "f7"@.len());
        reveal_strlit("f8");
        assert("left"@.len() != "f8"@.len());
        reveal_strlit("f9");
        assert("left"@.len() != "f9"@.len());
        reveal_strlit("f10");
        assert("left"@.len() != "f10"@.len());
        reveal_strlit("f11");
        assert("left"@.len() != "f11"@.len());
        reveal_strlit("f12");
        assert("left"@.len() != "f12"@.len());
        reveal_strlit("f13");
        assert("left"@.len() != "f13"@.len());
        reveal_strlit("f14");
        assert("left"@.len() != "f14"@.len());
        reveal_strlit("f15");
        assert("left"@.len() != "f15"@.len());
        reveal_strlit("f16");
        assert("left"@.len() != "f16"@.len());
        reveal_strlit("f17");
        assert("left"@.len() != "f17"@.len());
        reveal_strlit("f18");
        assert("left"@.len() != "f18"@.len());
        reveal_strlit("f19");
        assert("left"@.len() != "f19"@.len());
        reveal_strlit("f20");
        assert("left"@.len() != "f20"@.len());
    }
    if k == "home"@ {
        reveal_strlit("up");
        assert("home"@.len() != "up"@.len());
        reveal_strlit("down");
        assert("home"@[0] == 'h' && "down"@[0] == 'd');
        reveal_strlit("right");
        assert("home"@.len() != "right"@.len());
        reveal_strlit("left");
        assert("home"@[0] == 'h' && "left"@[0] == 'l');
        reveal_strlit("end");
        assert("home"@.len() != "end"@.len());
        reveal_strlit("f1");
        assert("home"@.len() != "f1"@.len());
        reveal_strlit("f2");
        assert("home"@.len() != "f2"@.len());
        reveal_strlit("f3");
        assert("home"@.len() != "f3"@.len());
        reveal_strlit("f4");
        assert("home"@.len() != "f4"@.len());
        reveal_strlit("pageup");
        assert("home"@.len() != "pageup"@.len());
        reveal_strlit("pagedown");
        assert("home"@.len() != "pagedown"@.len());
        reveal_strlit("insert");
        assert("home"@.len() != "insert"@.len());
        reveal_strlit("delete");
        assert("home"@.len() != "delete"@.len());
        reveal_strlit("f5");
        assert("home"@.len() != "f5"@.len());
        reveal_strlit("f6");
        assert("home"@.len() != "f6"@.len());
        reveal_strlit("f7");
        assert("home"@.len() != "f7"@.len());
        reveal_strlit("f8");
        assert("home"@.len() != "f8"@.len());
        reveal_strlit("f9");
        assert("home"@.len() != "f9"@.len());
        reveal_strlit("f10");
        assert("home"@.len() != "f10"@.len());
        reveal_strlit("f11");
        assert("home"@.len() != "f11"@.len());
        reveal_strlit("f12");
        assert("home"@.len() != "f12"@.len());
        reveal_strlit("f13");
        assert("home"@.len() != "f13"@.len());
        reveal_strlit("f14");
        assert("home"@.len() != "f14"@.len());
        reveal_strlit("f15");
        assert("home"@.len() != "f15"@.len());
        reveal_strlit("f16");
        assert("home"@.len() != "f16"@.len());
        reveal_strlit("f17");
        assert("home"@.len() != "f17"@.len());
        reveal_strlit("f18");
        assert("home"@.len() != "f18"@.len());
        reveal_strlit("f19");
        assert("home"@.len() != "f19"@.len());
        reveal_strlit("f20");
        assert("home"@.len() != "f20"@.len());
    }
    if k == "end"@ {
        reveal_strlit("up");
        assert("end"@.len() != "up"@.len());
        reveal_strlit("down");
        assert("end"@.len() != "down"@.len());
        reveal_strlit("right");
        assert("end"@.len() != "right"@.len());
        reveal_strlit("left");
        assert("end"@.len() != "left"@.len());
        reveal_strlit("home");
        assert("end"@.len() != "home"@.len());
        reveal_strlit("f1");
        assert("end"@.len() != "f1"@.len());
        reveal_strlit("f2");
        assert("end"@.len() != "f2"@.len());
        reveal_strlit("f3");
        assert("end"@.len() != "f3"@.len());
        reveal_strlit("f4");
        assert("end"@.len() != "f4"@.len());
        reveal_strlit("pageup");
        assert("end"@.len() != "pageup"@.len());
        reveal_strlit("pagedown");
        assert("end"@.len() != "pagedown"@.len());
        reveal_strlit("insert");
        assert("end"@.len() != "insert"@.len());
        reveal_strlit("delete");
        assert("end"@.len() != "delete"@.len());
        reveal_strlit("f5");
        assert("end"@.len() != "f5"@.len());
        reveal_strlit("f6");
        assert("end"@.len() != "f6"@.len());
        reveal_strlit("f7");
        assert("end"@.len() != "f7"@.len());
        reveal_strlit("f8");
        assert("end"@.len() != "f8"@.len());
        reveal_strlit("f9");
        assert("end"@.len() != "f9"@.len());
        reveal_strlit("f10");
        assert("end"@[0] == 'e' && "f10"@[0] == 'f');
        reveal_strlit("f11");
        assert("end"@[0] == 'e' && "f11"@[0] == 'f');
        reveal_strlit("f12");
        assert("end"@[0] == 'e' && "f12"@[0] == 'f');
        reveal_strlit("f13");
        assert("end"@[0] == 'e' && "f13"@[0] == 'f');
        reveal_strlit("f14");
        assert("end"@[0] == 'e' && "f14"@[0] == 'f');
        reveal_strlit("f15");
        assert("end"@[0] == 'e' && "f15"@[0] == 'f');
        reveal_strlit("f16");
        assert("end"@[0] == 'e' && "f16"@[0] == 'f');
        reveal_strlit("f17");
        assert("end"@[0] == 'e' && "f17"@[0] == 'f');
        reveal_strlit("f18");
        assert("end"@[0] == 'e' && "f18"@[0] == 'f');
        reveal_strlit("f19");
        assert("end"@[0] == 'e' && "f19"@[0] == 'f');
        reveal_strlit("f20");
        assert("end"@[0] == 'e' && "f20"@[0] == 'f');
    }
    if k == "f1"@ {
        reveal_strlit("up");
        assert("f1"@[0] == 'f' && "up"@[0] == 'u');
        reveal_strlit("down");
        assert("f1"@.len() != "down"@.len());
        reveal_strlit("right");
        assert("f1"@.len() != "right"@.len());
        reveal_strlit("left");
        assert("f1"@.len() != "left"@.len());
        reveal_strlit("home");
        assert("f1"@.len() != "home"@.len());
        reveal_strlit("end");
        assert("f1"@.len() != "end"@.len());
        reveal_strlit("f2");
        assert("f1"@[1] == '1' && "f2"@[1] == '2');
        reveal_strlit("f3");
        assert("f1"@[1] == '1' && "f3"@[1] == '3');
        reveal_strlit("f4");
        assert("f1"@[1] == '1' && "f4"@[1] == '4');
        reveal_strlit("pageup");
        assert("f1"@.len() != "pageup"@.len());
        reveal_strlit("pagedown");
        assert("f1"@.len() != "pagedown"@.len());
        reveal_strlit("insert");
        assert("f1"@.len() != "insert"@.len());
        reveal_strlit("delete");
        assert("f1"@.len() != "delete"@.len());
        reveal_strlit("f5");
        assert("f1"@[1] == '1' && "f5"@[1] == '5');
        reveal_strlit("f6");
        assert("f1"@[1] == '1' && "f6"@[1] == '6');
        reveal_strlit("f7");
        assert("f1"@[1] == '1' && "f7"@[1] == '7');
        reveal_strlit("f8");
        assert("f1"@[1] == '1' && "f8"@[1] == '8');
        reveal_strlit("f9");
        assert("f1"@[1] == '1' && "f9"@[1] == '9');
        reveal_strlit("f10");
        assert("f1"@.len() != "f10"@.len());
        reveal_strlit("f11");
        assert("f1"@.len() != "f11"@.len());
        reveal_strlit("f12");
        assert("f1"@.len() != "f12"@.len());
        reveal_strlit("f13");
        assert("f1"@.len() != "f13"@.len());
        reveal_strlit("f14");
        assert("f1"@.len() != "f14"@.len());
        reveal_strlit("f15");
        assert("f1"@.len() != "f15"@.len());
        reveal_strlit("f16");
        assert("f1"@.len() != "f16"@.len());
        reveal_strlit("f17");
        assert("f1"@.len() != "f17"@.len());
        reveal_strlit("f18");
        assert("f1"@.len() != "f18"@.len());
        reveal_strlit("f19");
        assert("f1"@.len() != "f19"@.len());
        reveal_strlit("f20");
        assert("f1"@.len() != "f20"@.len());
    }
    if k == "f2"@ {
        reveal_strlit("up");
        assert("f2"@[0] == 'f' && "up"@[0] == 'u');
        reveal_strlit("down");
        assert("f2"@.len() != "down"@.len());
        reveal_strlit("right");
        assert("f2"@.len() != "right"@.len());
        reveal_strlit("left");
        assert("f2"@.len() != "left"@.len());
        reveal_strlit("home");
        assert("f2"@.len() != "home"@.len());
        reveal_strlit("end");
        assert("f2"@.len() != "end"@.len());
        reveal_strlit("f1");
        assert("f2"@[1] == '2' && "f1"@[1] == '1');
        reveal_strlit("f3");
        assert("f2"@[1] == '2' && "f3"@[1] == '3');
        reveal_strlit("f4");
        assert("f2"@[1] == '2' && "f4"@[1] == '4');
        reveal_strlit("pageup");
        assert("f2"@.len() != "pageup"@.len());
        reveal_strlit("pagedown");
        assert("f2"@.len() != "pagedown"@.len());
        reveal_strlit("insert");
        assert("f2"@.len() != "insert"@.len());
        reveal_strlit("delete");
        assert("f2"@.len() != "delete"@.len());
        reveal_strlit("f5");
        assert("f2"@[1] == '2' && "f5"@[1] == '5');
        reveal_strlit("f6");
        assert("f2"@[1] == '2' && "f6"@[1] == '6');
        reveal_strlit("f7");
        assert("f2"@[1] == '2' && "f7"@[1] == '7');
        reveal_strlit("f8");
        assert("f2"@[1] == '2' && "f8"@[1] == '8');
        reveal_strlit("f9");
        assert("f2"@[1] == '2' && "f9"@[1] == '9');
        reveal_strlit("f10");
        assert("f2"@.len() != "f10"@.len());
        reveal_strlit("f11");
        assert("f2"@.len() != "f11"@.len());
        reveal_strlit("f12");
        assert("f2"@.len() != "f12"@.len());
        reveal_strlit("f13");
        assert("f2"@.len() != "f13"@.len());
        reveal_strlit("f14");
        assert("f2"@.len() != "f14"@.len());
        reveal_strlit("f15");
        assert("f2"@.len() != "f15"@.len());
        reveal_strlit("f16");
        assert("f2"@.len() != "f16"@.len());
        reveal_strlit("f17");
        assert("f2"@.len() != "f17"@.len());
        reveal_strlit("f18");
        assert("f2"@.len() != "f18"@.len());
        reveal_strlit("f19");
        assert("f2"@.len() != "f19"@.len());
        reveal_strlit("f20");
        assert("f2"@.len() != "f20"@.len());
    }
    if k == "f3"@ {
        reveal_strlit("up");
        assert("f3"@[0] == 'f' && "up"@[0] == 'u');
        reveal_strlit("down");
        assert("f3"@.len() != "down"@.len());
        reveal_strlit("right");
        assert("f3"@.len() != "right"@.len());
        reveal_strlit("left");
        assert("f3"@.len() != "left"@.len());
        reveal_strlit("home");
        assert("f3"@.len() != "home"@.len());
        reveal_strlit("end");
        assert("f3"@.len() != "end"@.len());
        reveal_strlit("f1");
        assert("f3"@[1] == '3' && "f1"@[1] == '1');
        reveal_strlit("f2");
        assert("f3"@[1] == '3' && "f2"@[1] == '2');
        reveal_strlit("f4");
        assert("f3"@[1] == '3' && "f4"@[1] == '4');
        reveal_strlit("pageup");
        assert("f3"@.len() != "pageup"@.len());
        reveal_strlit("pagedown");
        assert("f3"@.len() != "pagedown"@.len());
        reveal_strlit("insert");
        assert("f3"@.len() != "insert"@.len());
        reveal_strlit("delete");
        assert("f3"@.len() != "delete"@.len());
        reveal_strlit("f5");
        assert("f3"@[1] == '3' && "f5"@[1] == '5');
        reveal_strlit("f6");
        assert("f3"@[1] == '3' && "f6"@[1] == '6');
        reveal_strlit("f7");
        assert("f3"@[1] == '3' && "f7"@[1] == '7');
        reveal_strlit("f8");
        assert("f3"@[1] == '3' && "f8"@[1] == '8');
        reveal_strlit("f9");
        assert("f3"@[1] == '3' && "f9"@[1] == '9');
        reveal_strlit("f10");
        assert("f3"@.len() != "f10"@.len());
        reveal_strlit("f11");
        assert("f3"@.len() != "f11"@.len());
        reveal_strlit("f12");
        assert("f3"@.len() != "f12"@.len());
        reveal_strlit("f13");
        assert("f3"@.len() != "f13"@.len());
        reveal_strlit("f14");
        assert("f3"@.len() != "f14"@.len());
        reveal_strlit("f15");
        assert("f3"@.len() != "f15"@.len());
        reveal_strlit("f16");
        assert("f3"@.len() != "f16"@.len());
        reveal_strlit("f17");
        assert("f3"@.len() != "f17"@.len());
        reveal_strlit("f18");
        assert("f3"@.len() != "f18"@.len());
        reveal_strlit("f19");
        assert("f3"@.len() != "f19"@.len());
        reveal_strlit("f20");
        assert("f3"@.len() != "f20"@.len());
    }
    if k == "f4"@ {
        reveal_strlit("up");
        assert("f4"@[0] == 'f' && "up"@[0] == 'u');
        reveal_strlit("down");
        assert("f4"@.len() != "down"@.len());
        reveal_strlit("right");
        assert("f4"@.len() != "right"@.len());
        reveal_strlit("left");
        assert("f4"@.len() != "left"@.len());
        reveal_strlit("home");
        assert("f4"@.len() != "home"@.len());
        reveal_strlit("end");
        assert("f4"@.len() != "end"@.len());
        reveal_strlit("f1");
        assert("f4"@[1] == '4' && "f1"@[1] == '1');
        reveal_strlit("f2");
        assert("f4"@[1] == '4' && "f2"@[1] == '2');
        reveal_strlit("f3");
        assert("f4"@[1] == '4' && "f3"@[1] == '3');
        reveal_strlit("pageup");
        assert("f4"@.len() != "pageup"@.len());
        reveal_strlit("pagedown");
        assert("f4"@.len() != "pagedown"@.len());
        reveal_strlit("insert");
        assert("f4"@.len() != "insert"@.len());
        reveal_strlit("delete");
        assert("f4"@.len() != "delete"@.len());
        reveal_strlit("f5");
        assert("f4"@[1] == '4' && "f5"@[1] == '5');
        reveal_strlit("f6");
        assert("f4"@[1] == '4' && "f6"@[1] == '6');
        reveal_strlit("f7");
        assert("f4"@[1] == '4' && "f7"@[1] == '7');
        reveal_strlit("f8");
        assert("f4"@[1] == '4' && "f8"@[1] == '8');
        reveal_strlit("f9");
        assert("f4"@[1] == '4' && "f9"@[1] == '9');
        reveal_strlit("f10");
        assert("f4"@.len() != "f10"@.len());
        reveal_strlit("f11");
        assert("f4"@.len() != "f11"@.len());
        reveal_strlit("f12");
        assert("f4"@.len() != "f12"@.len());
        reveal_strlit("f13");
        assert("f4"@.len() != "f13"@.len());
        reveal_strlit("f14");
        assert("f4"@.len() != "f14"@.len());
        reveal_strlit("f15");
        assert("f4"@.len() != "f15"@.len());
        reveal_strlit("f16");
        assert("f4"@.len() != "f16"@.len());
        reveal_strlit("f17");
        assert("f4"@.len() != "f17"@.len());
        reveal_strlit("f18");
        assert("f4"@.len() != "f18"@.len());
        reveal_strlit("f19");
        assert("f4"@.len() != "f19"@.len());
        reveal_strlit("f20");
        assert("f4"@.len() != "f20"@.len());
    }
}

/// Control with a letter sends the letter's place in the alphabet, whatever its case: control-a
/// and control-A send 1, control-z 26 (the letter's code modulo 32); with alt as well, the
/// same byte after ESC.
pub proof fn lemma_control_letters(
    key: Keystroke,
    c: char,
    modes: Modes,
    option_as_alt: bool,
    defaults: bool,
    macos: bool,
)
    requires
        key.key@ == seq![c],
        ('a' <= c && c <= 'z') || ('A' <= c && c <= 'Z'),
        key.modifiers.control,
        !key.modifiers.platform,
    ensures
        !key.modifiers.alt ==> key_bytes(key, modes, option_as_alt, defaults, macos) == Some(
            seq![((c as u32) % 32) as u8],
        ),
        key.modifiers.alt ==> key_bytes(key, modes, option_as_alt, defaults, macos) == Some(
            seq![0x1bu8, ((c as u32) % 32) as u8],
        ),
{
    let k = key.key@;
    reveal_strlit("space");
    assert(k.len() != "space"@.len());
    reveal_strlit("enter");
    assert(k.len() != "enter"@.len());
    reveal_strlit("return");
    assert(k.len() != "return"@.len());
    reveal_strlit("backspace");
    assert(k.len() != "backspace"@.len());
    reveal_strlit("escape");
    assert(k.len() != "escape"@.len());
    reveal_strlit("tab");
    assert(k.len() != "tab"@.len());
    reveal_strlit("up");
    assert(k.len() != "up"@.len());
    reveal_strlit("down");
    assert(k.len() != "down"@.len());
    reveal_strlit("right");
    assert(k.len() != "right"@.len());
    reveal_strlit("left");
    assert(k.len() != "left"@.len());
    reveal_strlit("home");
    assert(k.len() != "home"@.len());
    reveal_strlit("end");
    assert(k.len() != "end"@.len());
    reveal_strlit("f1");
    assert(k.len() != "f1"@.len());
    reveal_strlit("f2");
    assert(k.len() != "f2"@.len());
    reveal_strlit("f3");
    assert(k.len() != "f3"@.len());
    reveal_strlit("f4");
    assert(k.len() != "f4"@.len());
    reveal_strlit("pageup");
    assert(k.len() != "pageup"@.len());
    reveal_strlit("pagedown");
    assert(k.len() != "pagedown"@.len());
    reveal_strlit("insert");
    assert(k.len() != "insert"@.len());
    reveal_strlit("delete");
    assert(k.len() != "delete"@.len());
    reveal_strlit("f5");
    assert(k.len() != "f5"@.len());
    reveal_strlit("f6");
    assert(k.len() != "f6"@.len());
    reveal_strlit("f7");
    assert(k.len() != "f7"@.len());
    reveal_strlit("f8");
    assert(k.len() != "f8"@.len());
    reveal_strlit("f9");
    assert(k.len() != "f9"@.len());
    reveal_strlit("f10");
    assert(k.len() != "f10"@.len());
    reveal_strlit("f11");
    assert(k.len() != "f11"@.len());
    reveal_strlit("f12");
    assert(k.len() != "f12"@.len());
    reveal_strlit("f13");
    assert(k.len() != "f13"@.len());
    reveal_strlit("f14");
    assert(k.len() != "f14"@.len());
    reveal_strlit("f15");
    assert(k.len() != "f15"@.len());
    reveal_strlit("f16");
    assert(k.len() != "f16"@.len());
    reveal_strlit("f17");
    assert(k.len() != "f17"@.len());
    reveal_strlit("f18");
    assert(k.len() != "f18"@.len());
    reveal_strlit("f19");
    assert(k.len() != "f19"@.len());
    reveal_strlit("f20");
    assert(k.len() != "f20"@.len());
    reveal_strlit(" ");
    assert(k != " "@) by { assert(k[0] != " "@[0]); }
    reveal_strlit("@");
    assert(k != "@"@) by { assert(k[0] != "@"@[0]); }
    reveal_strlit("2");
    assert(k != "2"@) by { assert(k[0] != "2"@[0]); }
    reveal_strlit("[");
    assert(k != "["@) by { assert(k[0] != "["@[0]); }
    reveal_strlit("3");
    assert(k != "3"@) by { assert(k[0] != "3"@[0]); }
    reveal_strlit("\\");
    assert(k != "\\"@) by { assert(k[0] != "\\"@[0]); }
    reveal_strlit("4");
    assert(k != "4"@) by { assert(k[0] != "4"@[0]); }
    reveal_strlit("]");
    assert(k != "]"@) by { assert(k[0] != "]"@[0]); }
    reveal_strlit("5");
    assert(k != "5"@) by { assert(k[0] != "5"@[0]); }
    reveal_strlit("^");
    assert(k != "^"@) by { assert(k[0] != "^"@[0]); }
    reveal_strlit("6");
    assert(k != "6"@) by { assert(k[0] != "6"@[0]); }
    reveal_strlit("_");
    assert(k != "_"@) by { assert(k[0] != "_"@[0]); }
    reveal_strlit("-");
    assert(k != "-"@) by { assert(k[0] != "-"@[0]); }
    reveal_strlit("7");
    assert(k != "7"@) by { assert(k[0] != "7"@[0]); }
    reveal_strlit("/");
    assert(k != "/"@) by { assert(k[0] != "/"@[0]); }
    reveal_strlit("?");
    assert(k != "?"@) by { assert(k[0] != "?"@[0]); }
    reveal_strlit("8");
    assert(k != "8"@) by { assert(k[0] != "8"@[0]); }
    assert(is_ascii_chars(k));
    is_ascii_chars_encode_utf8(k);
    let b = encode_utf8(k)[0];
    assert(b == c as u8);
    assert(is_ascii_letter(b));
    assert(named_sequence(k, modes, modifier_param(key.modifiers), defaults, macos) is None);
    assert(control_byte(k) == Some(((c as u32) % 32) as u8));
}

/// The modifier parameter of xterm's sequences: 2 for shift, 3 for alt, 4 for shift and alt,
/// 5 for control, 6 for shift and control, 7 for alt and control, 8 for all three, and 1
/// (no parameter) for none.
pub proof fn lemma_modifier_parameters(m: Modifiers)
    ensures
        !m.shift && !m.alt && !m.control ==> modifier_param(m) == 1,
        m.shift && !m.alt && !m.control ==> modifier_param(m) == 2,
        !m.shift && m.alt && !m.control ==> modifier_param(m) == 3,
        m.shift && m.alt && !m.control ==> modifier_param(m) == 4,
        !m.shift && !m.alt && m.control ==> modifier_param(m) == 5,
        m.shift && !m.alt && m.control ==> modifier_param(m) == 6,
        !m.shift && m.alt && m.control ==> modifier_param(m) == 7,
        m.shift && m.alt && m.control ==> modifier_param(m) == 8,
{
}

} // verus!
