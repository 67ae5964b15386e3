//! What a paste or a file drop sends to the terminal program.

use vstd::prelude::*;
use vstd::utf8::*;

use crate::input::Modes;
use crate::text::{chars_of, lemma_encode_ascii, lemma_encode_utf8_concat, push_utf8};

verus! {

broadcast use vstd::string::group_string_axioms;

/// What the clipboard holds, as far as pasting reads it: its text, if it has any,
/// and whether one of its entries is an image.
#[derive(Clone, Debug, PartialEq, Eq)]
pub struct ClipboardContents {
    pub text: Option<String>,
    pub has_image: bool,
}

/// The characters a paste sends: CR LF and LF become CR, and ESC and CSI (U+009B)
/// are removed, so pasted text cannot end a bracketed paste early.
pub open spec fn pasted(cs: Seq<char>) -> Seq<char>
    decreases cs.len(),
{
    if cs.len() == 0 {
        seq![]
    } else if cs[0] == '\r' && cs.len() > 1 && cs[1] == '\n' {
        seq!['\r'] + pasted(cs.skip(2))
    } else if cs[0] == '\n' {
        seq!['\r'] + pasted(cs.drop_first())
    } else if cs[0] == '\x1b' || cs[0] == '\u{009b}' {
        pasted(cs.drop_first())
    } else {
        seq![cs[0]] + pasted(cs.drop_first())
    }
}

/// ESC [ 200 ~ text ESC [ 201 ~ in bracketed paste mode when there is text; the text otherwise.
pub open spec fn bracketed(text: Seq<u8>, modes: Modes) -> Seq<u8> {
    if modes.bracketed_paste && text.len() > 0 {
        seq![0x1bu8, 0x5bu8, 0x32u8, 0x30u8, 0x30u8, 0x7eu8] + text + seq![
            0x1bu8,
            0x5bu8,
            0x32u8,
            0x30u8,
            0x31u8,
            0x7eu8,
        ]
    } else {
        text
    }
}

/// The bytes pasting `text` sends.
pub open spec fn paste_bytes(text: Seq<char>, modes: Modes) -> Seq<u8> {
    bracketed(encode_utf8(pasted(text)), modes)
}

/// Wraps `text` in the bracketed paste markers when the mode asks for them.
pub fn bracket(text: Vec<u8>, modes: Modes) -> (r: Vec<u8>)
    ensures
        r@ == bracketed(text@, modes),
{
    if modes.bracketed_paste && text.len() > 0 {
        let mut out: Vec<u8> = vec![0x1b, 0x5b, 0x32, 0x30, 0x30, 0x7e];
        let mut i: usize = 0;
        while i < text.len()
            invariant
                i <= text@.len(),
                out@ == seq![0x1bu8, 0x5bu8, 0x32u8, 0x30u8, 0x30u8, 0x7eu8] + text@.take(i as int),
            decreases text@.len() - i,
        {
            out.push(text[i]);
            i = i + 1;
            assert(out@ =~= seq![0x1bu8, 0x5bu8, 0x32u8, 0x30u8, 0x30u8, 0x7eu8] + text@.take(
                i as int,
            ));
        }
        assert(text@.take(text@.len() as int) =~= text@);
        out.push(0x1b);
        out.push(0x5b);
        out.push(0x32);
        out.push(0x30);
        out.push(0x31);
        out.push(0x7e);
        assert(out@ =~= bracketed(text@, modes));
        out
    } else {
        text
    }
}

proof fn lemma_pasted_step(cs: Seq<char>, i: int)
    requires
        0 <= i < cs.len(),
    ensures
        cs[i] == '\r' && i + 1 < cs.len() && cs[i + 1] == '\n' ==> pasted(cs.skip(i)) == seq!['\r']
            + pasted(cs.skip(i + 2)),
        !(cs[i] == '\r' && i + 1 < cs.len() && cs[i + 1] == '\n') && cs[i] == '\n' ==> pasted(
            cs.skip(i),
        ) == seq!['\r'] + pasted(cs.skip(i + 1)),
        !(cs[i] == '\r' && i + 1 < cs.len() && cs[i + 1] == '\n') && cs[i] != '\n' && (cs[i]
            == '\x1b' || cs[i] == '\u{009b}') ==> pasted(cs.skip(i)) == pasted(cs.skip(i + 1)),
        !(cs[i] == '\r' && i + 1 < cs.len() && cs[i + 1] == '\n') && cs[i] != '\n' && cs[i]
            != '\x1b' && cs[i] != '\u{009b}' ==> pasted(cs.skip(i)) == seq![cs[i]] + pasted(
            cs.skip(i + 1),
        ),
{
    let s = cs.skip(i);
    assert(s.drop_first() =~= cs.skip(i + 1));
    if i + 1 < cs.len() {
        assert(s.skip(2) =~= cs.skip(i + 2));
    }
}

/// The bytes that pasting `text` sends: line breaks become CR, ESC and CSI are removed,
/// and the result is bracketed in bracketed paste mode.
pub fn paste(text: &str, modes: Modes) -> (r: Vec<u8>)
    ensures
        r@ == paste_bytes(text@, modes),
{
    let cs = chars_of(text);
    let mut out: Vec<u8> = Vec::new();
    let mut i: usize = 0;
    let ghost whole = cs@;
    assert(whole.skip(0) =~= whole);
    while i < cs.len()
        invariant
            cs@ == whole,
            whole == text@,
            i <= whole.len(),
            encode_utf8(pasted(whole)) == out@ + encode_utf8(pasted(whole.skip(i as int))),
        decreases whole.len() - i,
    {
        proof {
            lemma_pasted_step(whole, i as int);
        }
        let c = cs[i];
        if c == '\r' && i + 1 < cs.len() && cs[i + 1] == '\n' {
            proof {
                lemma_encode_utf8_concat(seq!['\r'], pasted(whole.skip(i + 2)));
                crate::text::lemma_encode_utf8_single('\r');
                lemma_encode_ascii('\r');
            }
            out.push(0x0d);
            i = i + 2;
        } else if c == '\n' {
            proof {
                lemma_encode_utf8_concat(seq!['\r'], pasted(whole.skip(i + 1)));
                crate::text::lemma_encode_utf8_single('\r');
                lemma_encode_ascii('\r');
            }
            out.push(0x0d);
            i = i + 1;
        } else if c == '\x1b' || c == '\u{009b}' {
            i = i + 1;
        } else {
            proof {
                lemma_encode_utf8_concat(seq![c], pasted(whole.skip(i + 1)));
                crate::text::lemma_encode_utf8_single(c);
            }
            push_utf8(&mut out, c);
            i = i + 1;
        }
    }
    assert(whole.skip(whole.len() as int) =~= Seq::<char>::empty());
    assert(out@ + encode_utf8(Seq::<char>::empty()) =~= out@);
    bracket(out, modes)
}

/// The bytes a paste from the clipboard sends: the pasted text if there is text,
/// ctrl-V (0x16) if there is only an image, so the program can read the image itself.
pub open spec fn clipboard_bytes(item: ClipboardContents, modes: Modes) -> Option<Seq<u8>> {
    match item.text {
        Some(t) => Some(paste_bytes(t@, modes)),
        None => if item.has_image {
            Some(seq![0x16u8])
        } else {
            None
        },
    }
}

/// The bytes a paste from the clipboard sends, if any.
pub fn contents(item: &ClipboardContents, modes: Modes) -> (r: Option<Vec<u8>>)
    ensures
        crate::input::bytes_view(r) == clipboard_bytes(*item, modes),
{
    match &item.text {
        Some(t) => Some(paste(t.as_str(), modes)),
        None => {
            if item.has_image {
                let v: Vec<u8> = vec![0x16];
                assert(v@ =~= seq![0x16u8]);
                Some(v)
            } else {
                None
            }
        },
    }
}

/// An ASCII control byte: below 0x20, or DEL.
pub open spec fn is_ascii_control(b: u8) -> bool {
    b < 0x20 || b == 0x7f
}

/// Whether some byte of `bytes` is an ASCII control byte.
pub open spec fn has_ascii_control(bytes: Seq<u8>) -> bool {
    exists|i: int| 0 <= i < bytes.len() && is_ascii_control(#[trigger] bytes[i])
}

/// The lowercase hexadecimal digit of a value below 16.
pub open spec fn hex_digit(v: u8) -> u8 {
    if v < 10 {
        (48 + v) as u8
    } else {
        (87 + v) as u8
    }
}

/// How one byte of a path is written between the quotes. In ANSI-C quoting ($'...'),
/// control bytes become \xHH and quotes and backslashes are escaped; in plain single
/// quotes a quote becomes '\''.
pub open spec fn quoted_byte(b: u8, ansi: bool) -> Seq<u8> {
    if ansi && is_ascii_control(b) {
        seq![0x5cu8, 0x78u8, hex_digit(b / 16), hex_digit(b % 16)]
    } else if ansi && (b == 0x27 || b == 0x5c) {
        seq![0x5cu8, b]
    } else if !ansi && b == 0x27 {
        seq![0x27u8, 0x5cu8, 0x27u8, 0x27u8]
    } else {
        seq![b]
    }
}

/// The quoted form of each byte of `bytes`, in order.
pub open spec fn quoted_body(bytes: Seq<u8>, ansi: bool) -> Seq<u8>
    decreases bytes.len(),
{
    if bytes.len() == 0 {
        seq![]
    } else {
        quoted_body(bytes.drop_last(), ansi) + quoted_byte(bytes.last(), ansi)
    }
}

/// A path quoted for a POSIX shell: ANSI-C quoting when it holds control bytes,
/// plain single quotes otherwise.
pub open spec fn quoted_path(bytes: Seq<u8>) -> Seq<u8> {
    let ansi = has_ascii_control(bytes);
    (if ansi { seq![0x24u8] } else { seq![] }) + seq![0x27u8] + quoted_body(bytes, ansi) + seq![
        0x27u8,
    ]
}

/// The quoted paths, separated by spaces.
pub open spec fn quoted_paths(paths: Seq<Seq<u8>>) -> Seq<u8>
    decreases paths.len(),
{
    if paths.len() == 0 {
        seq![]
    } else if paths.len() == 1 {
        quoted_path(paths[0])
    } else {
        quoted_paths(paths.drop_last()) + seq![0x20u8] + quoted_path(paths.last())
    }
}

/// A path that can be dropped: absolute, and without a NUL byte.
pub open spec fn droppable(path: Seq<u8>) -> bool {
    path.len() > 0 && path[0] == 0x2f && !path.contains(0u8)
}

/// The bytes dropping `paths` sends: the quoted paths, bracketed in bracketed paste
/// mode, or nothing when a path is relative or holds a NUL byte.
pub open spec fn dropped_paths(paths: Seq<Seq<u8>>, modes: Modes) -> Option<Seq<u8>> {
    if forall|i: int| 0 <= i < paths.len() ==> droppable(#[trigger] paths[i]) {
        Some(bracketed(quoted_paths(paths), modes))
    } else {
        None
    }
}

/// The view of each path.
pub open spec fn paths_view(paths: Seq<Vec<u8>>) -> Seq<Seq<u8>> {
    paths.map_values(|p: Vec<u8>| p@)
}

fn hex(v: u8) -> (r: u8)
    requires
        v < 16,
    ensures
        r == hex_digit(v),
{
    if v < 10 {
        48 + v
    } else {
        87 + v
    }
}

fn any_ascii_control(bytes: &Vec<u8>) -> (r: bool)
    ensures
        r == has_ascii_control(bytes@),
{
    let mut i: usize = 0;
    while i < bytes.len()
        invariant
            i <= bytes@.len(),
            forall|j: int| 0 <= j < i ==> !is_ascii_control(#[trigger] bytes@[j]),
        decreases bytes@.len() - i,
    {
        if bytes[i] < 0x20 || bytes[i] == 0x7f {
            return true;
        }
        i = i + 1;
    }
    false
}

fn push_quoted_path(text: &mut Vec<u8>, bytes: &Vec<u8>)
    ensures
        final(text)@ == old(text)@ + quoted_path(bytes@),
{
    let ansi = any_ascii_control(bytes);
    let ghost start = text@;
    if ansi {
        text.push(0x24);
    }
    text.push(0x27);
    let ghost head = text@;
    assert(head == start + (if ansi { seq![0x24u8] } else { seq![] }) + seq![0x27u8]);
    let mut i: usize = 0;
    while i < bytes.len()
        invariant
            i <= bytes@.len(),
            text@ == head + quoted_body(bytes@.take(i as int), ansi),
            ansi == has_ascii_control(bytes@),
        decreases bytes@.len() - i,
    {
        let b = bytes[i];
        let ghost before = text@;
        if ansi && (b < 0x20 || b == 0x7f) {
            text.push(0x5c);
            text.push(0x78);
            text.push(hex(b / 16));
            text.push(hex(b % 16));
        } else if ansi && (b == 0x27 || b == 0x5c) {
            text.push(0x5c);
            text.push(b);
        } else if !ansi && b == 0x27 {
            text.push(0x27);
            text.push(0x5c);
            text.push(0x27);
            text.push(0x27);
        } else {
            text.push(b);
        }
        assert(text@ =~= before + quoted_byte(b, ansi));
        assert(bytes@.take(i + 1).drop_last() =~= bytes@.take(i as int));
        i = i + 1;
        assert(text@ =~= head + quoted_body(bytes@.take(i as int), ansi));
    }
    assert(bytes@.take(bytes@.len() as int) =~= bytes@);
    text.push(0x27);
    assert(text@ =~= start + quoted_path(bytes@));
}

/// The bytes dropping files on the terminal sends: each absolute path quoted for the
/// shell, separated by spaces; nothing when a path is relative or holds a NUL byte.
pub fn paths(dropped: &Vec<Vec<u8>>, modes: Modes) -> (r: Option<Vec<u8>>)
    ensures
        crate::input::bytes_view(r) == dropped_paths(paths_view(dropped@), modes),
{
    let ghost view = paths_view(dropped@);
    let mut text: Vec<u8> = Vec::new();
    let mut i: usize = 0;
    while i < dropped.len()
        invariant
            view == paths_view(dropped@),
            view.len() == dropped@.len(),
            i <= dropped@.len(),
            forall|j: int| 0 <= j < i ==> droppable(#[trigger] view[j]),
            text@ == quoted_paths(view.take(i as int)),
        decreases dropped@.len() - i,
    {
        let path = &dropped[i];
        assert(view[i as int] == path@);
        let mut has_nul = false;
        let mut k: usize = 0;
        while k < path.len()
            invariant
                k <= path@.len(),
                has_nul == exists|j: int| 0 <= j < k && path@[j] == 0u8,
            decreases path@.len() - k,
        {
            if path[k] == 0 {
                has_nul = true;
            }
            k = k + 1;
        }
        if path.len() == 0 || path[0] != 0x2f || has_nul {
            assert(!droppable(view[i as int])) by {
                if has_nul {
                    let j = choose|j: int| 0 <= j < path@.len() && path@[j] == 0u8;
                    assert(path@.contains(0u8));
                }
            }
            return None;
        }
        assert(droppable(view[i as int])) by {
            if path@.contains(0u8) {
                let j = choose|j: int| 0 <= j < path@.len() && path@[j] == 0u8;
                assert(has_nul);
            }
        }
        let ghost before = text@;
        if i > 0 {
            text.push(0x20);
        }
        push_quoted_path(&mut text, path);
        assert(view.take(i + 1).drop_last() =~= view.take(i as int));
        assert(view.take(i + 1).last() == view[i as int]);
        if i == 0 {
            assert(view.take(1) =~= seq![view[0]]);
        }
        i = i + 1;
        assert(text@ =~= quoted_paths(view.take(i as int)));
    }
    assert(view.take(view.len() as int) =~= view);
    Some(bracket(text, modes))
}

/// What a paste sends holds no line feed, ESC or CSI: line breaks are carriage returns, and
/// no character of the text can end a bracketed paste.
pub proof fn lemma_pasted_is_clean(cs: Seq<char>)
    ensures
        forall|i: int|
            0 <= i < pasted(cs).len() ==> #[trigger] pasted(cs)[i] != '\n' && pasted(cs)[i] != '\x1b'
                && pasted(cs)[i] != '\u{009b}',
    decreases cs.len(),
{
    if cs.len() > 0 {
        if cs[0] == '\r' && cs.len() > 1 && cs[1] == '\n' {
            lemma_pasted_is_clean(cs.skip(2));
            assert forall|i: int| 0 < i < pasted(cs).len() implies pasted(cs)[i] == pasted(
                cs.skip(2),
            )[i - 1] by {}
        } else if cs[0] == '\x1b' || cs[0] == '\u{009b}' {
            lemma_pasted_is_clean(cs.drop_first());
            assert(pasted(cs) == pasted(cs.drop_first()));
        } else {
            lemma_pasted_is_clean(cs.drop_first());
            assert forall|i: int| 0 < i < pasted(cs).len() implies pasted(cs)[i] == pasted(
                cs.drop_first(),
            )[i - 1] by {}
        }
    }
}

/// The UTF-8 of a character other than ESC holds no ESC byte.
proof fn lemma_scalar_has_no_esc(c: char)
    requires
        c != '\x1b',
    ensures
        forall|j: int| 0 <= j < encode_scalar(c as u32).len() ==> #[trigger] encode_scalar(c as u32)[j] != 0x1bu8,
{
    let v = c as u32;
    assert(v <= 0x7f && v != 0x1b ==> (v & 0x7f) as u8 != 0x1bu8) by (bit_vector);
    assert((0xC0u8 | ((v >> 6) & 0x1F) as u8) != 0x1bu8) by (bit_vector);
    assert((0xE0u8 | ((v >> 12) & 0x0F) as u8) != 0x1bu8) by (bit_vector);
    assert((0xF0u8 | ((v >> 18) & 0x7) as u8) != 0x1bu8) by (bit_vector);
    assert((0x80u8 | (v & 0x3F) as u8) != 0x1bu8) by (bit_vector);
    assert((0x80u8 | ((v >> 6) & 0x3F) as u8) != 0x1bu8) by (bit_vector);
    assert((0x80u8 | ((v >> 12) & 0x3F) as u8) != 0x1bu8) by (bit_vector);
    assert(v != 0x1b);
}

/// The UTF-8 of characters none of which is ESC holds no ESC byte.
proof fn lemma_utf8_has_no_esc(cs: Seq<char>)
    requires
        forall|i: int| 0 <= i < cs.len() ==> #[trigger] cs[i] != '\x1b',
    ensures
        forall|j: int| 0 <= j < encode_utf8(cs).len() ==> #[trigger] encode_utf8(cs)[j] != 0x1bu8,
    decreases cs.len(),
{
    if cs.len() > 0 {
        lemma_scalar_has_no_esc(cs[0]);
        let rest = cs.drop_first();
        assert forall|i: int| 0 <= i < rest.len() implies #[trigger] rest[i] != '\x1b' by {
            assert(rest[i] == cs[i + 1]);
        }
        lemma_utf8_has_no_esc(rest);
        let head = encode_scalar(cs[0] as u32);
        assert(encode_utf8(cs) == head + encode_utf8(rest));
        assert forall|j: int| 0 <= j < encode_utf8(cs).len() implies #[trigger] encode_utf8(cs)[j]
            != 0x1bu8 by {
            if j < head.len() {
                assert(encode_utf8(cs)[j] == head[j]);
            } else {
                assert(encode_utf8(cs)[j] == encode_utf8(rest)[j - head.len()]);
            }
        }
    }
}

/// A paste holds ESC only in the markers of a bracketed paste: the first byte and the first
/// byte of the closing marker. So the pasted text can neither end the bracket early nor send
/// an escape sequence of its own.
pub proof fn lemma_paste_escapes_only_in_markers(text: Seq<char>, modes: Modes)
    ensures
        forall|j: int|
            0 <= j < paste_bytes(text, modes).len() && #[trigger] paste_bytes(text, modes)[j]
                == 0x1bu8 ==> modes.bracketed_paste && (j == 0 || j == paste_bytes(text, modes).len()
                - 6),
{
    lemma_pasted_is_clean(text);
    let p = pasted(text);
    assert forall|i: int| 0 <= i < p.len() implies #[trigger] p[i] != '\x1b' by {}
    lemma_utf8_has_no_esc(p);
    let body = encode_utf8(p);
    let b = paste_bytes(text, modes);
    if modes.bracketed_paste && body.len() > 0 {
        let open = seq![0x1bu8, 0x5bu8, 0x32u8, 0x30u8, 0x30u8, 0x7eu8];
        let close = seq![0x1bu8, 0x5bu8, 0x32u8, 0x30u8, 0x31u8, 0x7eu8];
        assert(b == open + body + close);
        assert forall|j: int| 0 <= j < b.len() && #[trigger] b[j] == 0x1bu8 implies (j == 0 || j
            == b.len() - 6) by {
            if j < 6 {
                assert(b[j] == open[j]);
            } else if j < 6 + body.len() {
                assert(b[j] == body[j - 6]);
            } else {
                assert(b[j] == close[j - 6 - body.len()]);
            }
        }
    }
}

/// The UTF-8 of a character holds the byte of an ASCII character only where it is that
/// character.
proof fn lemma_scalar_lacks_ascii(c: char, a: char)
    requires
        (a as u32) < 0x80,
        c != a,
    ensures
        forall|j: int| 0 <= j < encode_scalar(c as u32).len() ==> #[trigger] encode_scalar(c as u32)[j] != a as u8,
{
    let v = c as u32;
    let w = a as u32;
    assert(v != w);
    let b = w as u8;
    assert(b as u32 == w);
    assert(w < 0x80 && v <= 0x7f && v != w ==> (v & 0x7f) as u8 != (w as u8)) by (bit_vector);
    assert(w < 0x80 ==> (0xC0u8 | ((v >> 6) & 0x1F) as u8) != (w as u8)) by (bit_vector);
    assert(w < 0x80 ==> (0xE0u8 | ((v >> 12) & 0x0F) as u8) != (w as u8)) by (bit_vector);
    assert(w < 0x80 ==> (0xF0u8 | ((v >> 18) & 0x7) as u8) != (w as u8)) by (bit_vector);
    assert(w < 0x80 ==> (0x80u8 | (v & 0x3F) as u8) != (w as u8)) by (bit_vector);
    assert(w < 0x80 ==> (0x80u8 | ((v >> 6) & 0x3F) as u8) != (w as u8)) by (bit_vector);
    assert(w < 0x80 ==> (0x80u8 | ((v >> 12) & 0x3F) as u8) != (w as u8)) by (bit_vector);
}

/// The UTF-8 of characters none of which is an ASCII character holds no byte of it.
proof fn lemma_utf8_lacks_ascii(cs: Seq<char>, a: char)
    requires
        (a as u32) < 0x80,
        forall|i: int| 0 <= i < cs.len() ==> #[trigger] cs[i] != a,
    ensures
        forall|j: int| 0 <= j < encode_utf8(cs).len() ==> #[trigger] encode_utf8(cs)[j] != a as u8,
    decreases cs.len(),
{
    if cs.len() > 0 {
        lemma_scalar_lacks_ascii(cs[0], a);
        let rest = cs.drop_first();
        assert forall|i: int| 0 <= i < rest.len() implies #[trigger] rest[i] != a by {
            assert(rest[i] == cs[i + 1]);
        }
        lemma_utf8_lacks_ascii(rest, a);
        let head = encode_scalar(cs[0] as u32);
        assert(encode_utf8(cs) == head + encode_utf8(rest));
        assert forall|j: int| 0 <= j < encode_utf8(cs).len() implies #[trigger] encode_utf8(cs)[j] != a as u8 by {
            if j < head.len() {
                assert(encode_utf8(cs)[j] == head[j]);
            } else {
                assert(encode_utf8(cs)[j] == encode_utf8(rest)[j - head.len()]);
            }
        }
    }
}

/// Pasted text cannot end a bracketed paste early or send a control sequence: the body of a
/// paste, its text with line breaks made CR and ESC and CSI removed, holds no ESC byte, no LF
/// byte and no CSI character; the paste is that body, wrapped in `ESC [ 200 ~` and
/// `ESC [ 201 ~` exactly where bracketed paste is on and the body is not empty.
pub proof fn lemma_pasted_body_is_clean(text: Seq<char>, modes: Modes)
    ensures
        forall|j: int|
            0 <= j < encode_utf8(pasted(text)).len() ==> #[trigger] encode_utf8(pasted(text))[j] != 0x1bu8
                && encode_utf8(pasted(text))[j] != 0x0au8,
        forall|i: int| 0 <= i < pasted(text).len() ==> #[trigger] pasted(text)[i] != '\u{009b}',
        paste_bytes(text, modes) == if modes.bracketed_paste && encode_utf8(pasted(text)).len() > 0 {
            seq![0x1bu8, 0x5bu8, 0x32u8, 0x30u8, 0x30u8, 0x7eu8] + encode_utf8(pasted(text)) + seq![
                0x1bu8,
                0x5bu8,
                0x32u8,
                0x30u8,
                0x31u8,
                0x7eu8,
            ]
        } else {
            encode_utf8(pasted(text))
        },
{
    lemma_pasted_is_clean(text);
    let p = pasted(text);
    assert forall|i: int| 0 <= i < p.len() implies #[trigger] p[i] != '\x1b' by {}
    lemma_utf8_lacks_ascii(p, '\x1b');
    assert forall|i: int| 0 <= i < p.len() implies #[trigger] p[i] != '\n' by {}
    lemma_utf8_lacks_ascii(p, '\n');
}

} // verus!
