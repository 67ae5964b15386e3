//! Terminal settings in Ghostty's configuration format: quoted values, the font
//! options, the entries of a config file, and the rewriting of a config file.

use vstd::prelude::*;
use vstd::string::*;

use crate::scan::{find_char, is_char, lemma_position, position, trim, trim_bounds};
use crate::fonts::{family_list, font_lines, font_read, strings, FontOptions, FontState};
use crate::text::{any_control, chars_of, has_control, str_eq};

verus! {

broadcast use vstd::string::group_string_axioms;

/// A settings error: where it arose and what went wrong.
#[derive(Clone, Debug, PartialEq, Eq)]
pub struct SettingsError {
    pub context: String,
    pub message: String,
}

impl View for SettingsError {
    type V = (Seq<char>, Seq<char>);

    open spec fn view(&self) -> (Seq<char>, Seq<char>) {
        (self.context@, self.message@)
    }
}

impl SettingsError {
    /// An error with the given context and message.
    pub fn new(context: &str, message: &str) -> (r: SettingsError)
        ensures
            r@ == (context@, message@),
    {
        SettingsError { context: context.to_owned(), message: message.to_owned() }
    }
}

/// A value as the config file writes it: a value in double quotes loses them; a value that
/// opens a quote must close it.
pub open spec fn unquoted(value: Seq<char>) -> Option<Seq<char>> {
    if value.len() > 0 && value[0] == '"' {
        if value.len() >= 2 && value.last() == '"' {
            Some(value.subrange(1, value.len() - 1))
        } else {
            None
        }
    } else {
        Some(value)
    }
}

/// The bounds of the range `lo..hi` once its quotes are taken off, as `unquoted` says.
fn unquote_bounds(cs: &Vec<char>, lo: usize, hi: usize) -> (r: Option<(usize, usize)>)
    requires
        lo <= hi <= cs@.len(),
    ensures
        match unquoted(cs@.subrange(lo as int, hi as int)) {
            Some(v) => r matches Some(b) && lo <= b.0 <= b.1 <= hi && cs@.subrange(
                b.0 as int,
                b.1 as int,
            ) == v,
            None => r is None,
        },
{
    let ghost s = cs@.subrange(lo as int, hi as int);
    if hi > lo && cs[lo] == '"' {
        if hi - lo >= 2 && cs[hi - 1] == '"' {
            assert(cs@.subrange(lo + 1, hi - 1) =~= s.subrange(1, s.len() - 1));
            Some((lo + 1, hi - 1))
        } else {
            None
        }
    } else {
        Some((lo, hi))
    }
}

/// The value of a config entry, without the double quotes that may enclose it.
pub fn config_value(value: &str) -> (r: Result<String, SettingsError>)
    ensures
        match unquoted(value@) {
            Some(v) => r matches Ok(s) && s@ == v,
            None => r matches Err(e) && e@ == ("value"@, "unterminated quote"@),
        },
{
    let cs = chars_of(value);
    match unquote_bounds(&cs, 0, cs.len()) {
        Some((a, b)) => {
            assert(cs@.subrange(0, cs@.len() as int) =~= value@);
            Ok(value.substring_char(a, b).to_owned())
        },
        None => {
            assert(cs@.subrange(0, cs@.len() as int) =~= value@);
            Err(SettingsError::new("value", "unterminated quote"))
        },
    }
}

/// The pieces of `s` between the occurrences of `c`, in order, as `str::split` gives them.
pub open spec fn split(s: Seq<char>, c: char) -> Seq<Seq<char>>
    decreases s.len(),
{
    let i = position(s, is_char(c));
    if i < 0 {
        seq![s]
    } else {
        proof {
            lemma_position(s, is_char(c));
        }
        seq![s.take(i)] + split(s.skip(i + 1), c)
    }
}

/// The keys of the config file that these settings read.
pub open spec fn supported(key: Seq<char>) -> bool {
    key == "font-family"@
        || key == "font-size"@
        || key == "adjust-cell-height"@
        || key == "config-file"@
        || key == "font-family-bold"@
        || key == "font-family-italic"@
        || key == "font-family-bold-italic"@
        || key == "font-feature"@
        || key == "font-codepoint-map"@
        || key == "font-thicken"@
        || key == "font-thicken-strength"@
        || key == "adjust-cell-width"@
}

/// Whether `key` is one of the keys these settings read.
pub fn is_supported(key: &str) -> (r: bool)
    ensures
        r == supported(key@),
{
    str_eq(key, "font-family")
        || str_eq(key, "font-size")
        || str_eq(key, "adjust-cell-height")
        || str_eq(key, "config-file")
        || str_eq(key, "font-family-bold")
        || str_eq(key, "font-family-italic")
        || str_eq(key, "font-family-bold-italic")
        || str_eq(key, "font-feature")
        || str_eq(key, "font-codepoint-map")
        || str_eq(key, "font-thicken")
        || str_eq(key, "font-thicken-strength")
        || str_eq(key, "adjust-cell-width")
}

/// A supported entry of a config file: its key, its value and, for `config-file`, whether
/// the include may be missing.
#[derive(Clone, Debug, PartialEq, Eq)]
pub struct ConfigEntry {
    pub key: String,
    pub value: String,
    pub optional: bool,
}

/// The entry of a trimmed line once its key is known to be supported: the value after `=`
/// (`font-thicken` alone means `true`), trimmed; a `?` before a `config-file` value makes
/// the include optional; values other than font features lose their quotes. Errors carry
/// the context `location key`.
pub open spec fn entry_value(t: Seq<char>, key: Seq<char>, location: Seq<char>) -> Result<
    Option<(Seq<char>, Seq<char>, bool)>,
    (Seq<char>, Seq<char>),
> {
    let i = position(t, is_char('='));
    let context = location + " "@ + key;
    let raw: Option<Seq<char>> = if i >= 0 {
        Some(t.skip(i + 1))
    } else if key == "font-thicken"@ {
        Some("true"@)
    } else {
        None
    };
    match raw {
        None => Err((context, "expected key = value"@)),
        Some(r) => {
            let v = trim(r);
            let optional = key == "config-file"@ && v.len() > 0 && v[0] == '?';
            let value = if optional {
                v.drop_first()
            } else {
                v
            };
            if key == "font-feature"@ {
                Ok(Some((key, value, optional)))
            } else {
                match unquoted(value) {
                    Some(u) => Ok(Some((key, u, optional))),
                    None => Err((context, "value: unterminated quote"@)),
                }
            }
        },
    }
}

/// The entry that a line of a config file holds: none for a blank line, a comment or an
/// unsupported key.
pub open spec fn line_entry(line: Seq<char>, location: Seq<char>) -> Result<
    Option<(Seq<char>, Seq<char>, bool)>,
    (Seq<char>, Seq<char>),
> {
    let t = trim(line);
    if t.len() == 0 || t[0] == '#' {
        Ok(None)
    } else {
        let i = position(t, is_char('='));
        let key = if i < 0 {
            t
        } else {
            trim(t.take(i))
        };
        if !supported(key) {
            Ok(None)
        } else {
            entry_value(t, key, location)
        }
    }
}

/// The view of an entry result.
pub open spec fn entry_view(r: Result<Option<ConfigEntry>, SettingsError>) -> Result<
    Option<(Seq<char>, Seq<char>, bool)>,
    (Seq<char>, Seq<char>),
> {
    match r {
        Ok(Some(e)) => Ok(Some((e.key@, e.value@, e.optional))),
        Ok(None) => Ok(None),
        Err(e) => Err(e@),
    }
}

/// Reads one line of a config file; `location` names the file and line for errors.
pub fn config_entry(line: &str, location: &str) -> (r: Result<Option<ConfigEntry>, SettingsError>)
    ensures
        entry_view(r) == line_entry(line@, location@),
{
    let cs = chars_of(line);
    let n = cs.len();
    assert(cs@.subrange(0, n as int) =~= line@);
    let (a, b) = trim_bounds(&cs, 0, n);
    let ghost t = cs@.subrange(a as int, b as int);
    if a == b || cs[a] == '#' {
        return Ok(None);
    }
    let eq = find_char(&cs, a, b, '=');
    let (ka, kb) = match eq {
        Some(i) => {
            assert(t.take(i - a) =~= cs@.subrange(a as int, i as int));
            trim_bounds(&cs, a, i)
        },
        None => (a, b),
    };
    let key = line.substring_char(ka, kb).to_owned();
    if !is_supported(key.as_str()) {
        return Ok(None);
    }
    let mut context = String::from_str(location);
    context.append(" ");
    context.append(key.as_str());
    let (va, vb) = match eq {
        Some(i) => {
            assert(t.skip(i - a + 1) =~= cs@.subrange(i + 1, b as int));
            trim_bounds(&cs, i + 1, b)
        },
        None => {
            if str_eq(key.as_str(), "font-thicken") {
                proof {
                    reveal_strlit("true");
                }
                let value = String::from_str("true");
                assert(trim("true"@) == "true"@) by {
                    assert("true"@[0] == 't' && "true"@.last() == 'e');
                }
                return Ok(Some(ConfigEntry { key, value, optional: false }));
            }
            return Err(SettingsError { context, message: String::from_str("expected key = value") });
        },
    };
    let optional = str_eq(key.as_str(), "config-file") && va < vb && cs[va] == '?';
    let start = if optional {
        assert(cs@.subrange(va as int, vb as int).drop_first() =~= cs@.subrange(va + 1, vb as int));
        va + 1
    } else {
        va
    };
    if str_eq(key.as_str(), "font-feature") {
        return Ok(Some(ConfigEntry { key, value: line.substring_char(start, vb).to_owned(), optional }));
    }
    match unquote_bounds(&cs, start, vb) {
        Some((x, y)) => Ok(Some(ConfigEntry { key, value: line.substring_char(x, y).to_owned(), optional })),
        None => Err(SettingsError { context, message: String::from_str("value: unterminated quote") }),
    }
}

/// What remains to be done for an entry once the font options and family list have taken
/// it: the size and cell adjustments, which hold floats, and the includes, which name files.
#[derive(Clone, Copy, Debug, PartialEq, Eq)]
pub enum EntryEffect {
    Applied,
    FontSize,
    CellHeight,
    CellWidth,
    ClearIncludes,
    Include,
}

/// What a supported entry does to the font options and the family list, in the order the
/// keys are tried: the font options first, then `font-family` (an empty value clears the
/// list), and what is left to do for the other keys.
pub open spec fn entry_effect(
    font: FontState,
    families: Seq<Seq<char>>,
    key: Seq<char>,
    value: Seq<char>,
) -> (FontState, Seq<Seq<char>>, Result<EntryEffect, (Seq<char>, Seq<char>)>) {
    let (f, r) = font_read(font, key, value);
    match r {
        Err(e) => (f, families, Err(e)),
        Ok(true) => (f, families, Ok(EntryEffect::Applied)),
        Ok(false) => if key == "font-family"@ {
            (font, family_list(families, value), Ok(EntryEffect::Applied))
        } else if key == "font-size"@ {
            (font, families, Ok(EntryEffect::FontSize))
        } else if key == "adjust-cell-height"@ {
            (font, families, Ok(EntryEffect::CellHeight))
        } else if key == "adjust-cell-width"@ {
            (font, families, Ok(EntryEffect::CellWidth))
        } else if key == "config-file"@ {
            if value.len() == 0 {
                (font, families, Ok(EntryEffect::ClearIncludes))
            } else {
                (font, families, Ok(EntryEffect::Include))
            }
        } else {
            (font, families, Ok(EntryEffect::Applied))
        },
    }
}

/// The view of an effect result.
pub open spec fn effect_view(r: Result<EntryEffect, SettingsError>) -> Result<
    EntryEffect,
    (Seq<char>, Seq<char>),
> {
    match r {
        Ok(e) => Ok(e),
        Err(e) => Err(e@),
    }
}

/// Applies an entry to the font options and the family list, as `entry_effect` says.
pub fn apply_entry(font: &mut FontOptions, families: &mut Vec<String>, key: &str, value: &str) -> (r:
    Result<EntryEffect, SettingsError>)
    ensures
        final(font)@ == entry_effect(old(font)@, strings(old(families)@), key@, value@).0,
        strings(final(families)@) == entry_effect(old(font)@, strings(old(families)@), key@, value@).1,
        effect_view(r) == entry_effect(old(font)@, strings(old(families)@), key@, value@).2,
{
    match font.read(key, value) {
        Err(e) => {
            return Err(e);
        },
        Ok(true) => {
            return Ok(EntryEffect::Applied);
        },
        Ok(false) => {},
    }
    if str_eq(key, "font-family") {
        if value.is_empty() {
            families.clear();
            assert(strings(families@) =~= Seq::<Seq<char>>::empty());
        } else {
            let ghost before = strings(families@);
            families.push(value.to_owned());
            assert(strings(families@) =~= before.push(value@));
        }
        Ok(EntryEffect::Applied)
    } else if str_eq(key, "font-size") {
        Ok(EntryEffect::FontSize)
    } else if str_eq(key, "adjust-cell-height") {
        Ok(EntryEffect::CellHeight)
    } else if str_eq(key, "adjust-cell-width") {
        Ok(EntryEffect::CellWidth)
    } else if str_eq(key, "config-file") {
        if value.is_empty() {
            Ok(EntryEffect::ClearIncludes)
        } else {
            Ok(EntryEffect::Include)
        }
    } else {
        Ok(EntryEffect::Applied)
    }
}

/// A family name that can be saved: nonempty, without quotes or control characters.
pub open spec fn savable_family(name: Seq<char>) -> bool {
    name.len() > 0 && !has_control(name) && !name.contains('"')
}

/// Whether `name` can be saved as a family name.
pub fn valid_family(name: &str) -> (r: bool)
    ensures
        r == savable_family(name@),
{
    if name.is_empty() || any_control(name) {
        return false;
    }
    let cs = chars_of(name);
    match find_char(&cs, 0, cs.len(), '"') {
        Some(i) => {
            assert(cs@.subrange(0, cs@.len() as int) =~= name@);
            proof {
                lemma_position(name@, is_char('"'));
            }
            assert(name@[i as int] == '"');
            false
        },
        None => {
            assert(cs@.subrange(0, cs@.len() as int) =~= name@);
            proof {
                lemma_position(name@, is_char('"'));
            }
            true
        },
    }
}

/// The keys of the font options.
pub open spec fn font_key(key: Seq<char>) -> bool {
    key == "font-family-bold"@
        || key == "font-family-italic"@
        || key == "font-family-bold-italic"@
        || key == "font-feature"@
        || key == "font-codepoint-map"@
        || key == "font-thicken"@
        || key == "font-thicken-strength"@
        || key == "adjust-cell-width"@
}

/// Which groups of settings differ from what the config file states, and are rewritten.
#[derive(Clone, Copy, Debug, PartialEq, Eq)]
pub struct ConfigChanges {
    pub families: bool,
    pub size: bool,
    pub height: bool,
    pub font: bool,
}

/// The key of a line: the trimmed text before `=`, or the whole trimmed line.
pub open spec fn line_key(line: Seq<char>) -> Seq<char> {
    let t = trim(line);
    let j = position(t, is_char('='));
    if j < 0 {
        t
    } else {
        trim(t.take(j))
    }
}

/// Whether a line with this key is dropped, to be written anew.
pub open spec fn rewritten(key: Seq<char>, c: ConfigChanges) -> bool {
    (key == "font-family"@ && c.families) || (key == "font-size"@ && c.size) || (key
        == "adjust-cell-height"@ && c.height) || (font_key(key) && c.font)
}

/// The lines of `s`, each with its newline, without those that are rewritten.
pub open spec fn kept_lines(s: Seq<char>, c: ConfigChanges) -> Seq<char>
    decreases s.len(),
{
    if s.len() == 0 {
        s
    } else {
        let i = position(s, is_char('\n'));
        proof {
            lemma_position(s, is_char('\n'));
        }
        let line = if i < 0 {
            s
        } else {
            s.take(i + 1)
        };
        let rest = if i < 0 {
            Seq::<char>::empty()
        } else {
            s.skip(i + 1)
        };
        (if rewritten(line_key(line), c) {
            Seq::<char>::empty()
        } else {
            line
        }) + kept_lines(rest, c)
    }
}

/// `s`, ending with a newline where it is not empty.
pub open spec fn terminated(s: Seq<char>) -> Seq<char> {
    if s.len() > 0 && s.last() != '\n' {
        s.push('\n')
    } else {
        s
    }
}

/// Each line followed by a newline.
pub open spec fn joined(lines: Seq<Seq<char>>) -> Seq<char>
    decreases lines.len(),
{
    if lines.len() == 0 {
        Seq::empty()
    } else {
        lines[0] + "\n"@ + joined(lines.drop_first())
    }
}

/// The family lines that a save writes: one that clears the list, then one per family.
pub open spec fn saved_families(families: Seq<Seq<char>>) -> Seq<Seq<char>> {
    seq!["font-family ="@] + families.map_values(|f: Seq<char>| "font-family = \""@ + f + "\""@)
}

/// A config file once saved: its lines that are kept, then the lines of the settings that
/// changed. `size`, `height` and `cell_width` are the texts of the float settings.
pub open spec fn saved_config(
    source: Seq<char>,
    c: ConfigChanges,
    families: Seq<Seq<char>>,
    size: Seq<char>,
    height: Seq<char>,
    font: FontState,
    cell_width: Seq<char>,
) -> Seq<char> {
    terminated(kept_lines(source, c)) + (if c.families {
        joined(saved_families(families))
    } else {
        Seq::empty()
    }) + (if c.size {
        "font-size = "@ + size + "\n"@
    } else {
        Seq::empty()
    }) + (if c.height {
        "adjust-cell-height = "@ + height + "\n"@
    } else {
        Seq::empty()
    }) + (if c.font {
        joined(font_lines(font).push("adjust-cell-width = "@ + cell_width))
    } else {
        Seq::empty()
    })
}

/// Whether `key` is one of the font options' keys.
fn is_font_key(key: &str) -> (r: bool)
    ensures
        r == font_key(key@),
{
    str_eq(key, "font-family-bold")
        || str_eq(key, "font-family-italic")
        || str_eq(key, "font-family-bold-italic")
        || str_eq(key, "font-feature")
        || str_eq(key, "font-codepoint-map")
        || str_eq(key, "font-thicken")
        || str_eq(key, "font-thicken-strength")
        || str_eq(key, "adjust-cell-width")
}

/// Whether a line with this key is dropped, to be written anew.
fn is_rewritten(key: &str, c: ConfigChanges) -> (r: bool)
    ensures
        r == rewritten(key@, c),
{
    (str_eq(key, "font-family") && c.families) || (str_eq(key, "font-size") && c.size) || (
    str_eq(key, "adjust-cell-height") && c.height) || (is_font_key(key) && c.font)
}

/// Appends the lines, each followed by a newline.
fn append_lines(out: &mut String, lines: &Vec<String>)
    ensures
        final(out)@ == old(out)@ + joined(strings(lines@)),
{
    let ghost all = strings(lines@);
    let ghost start = out@;
    let mut i: usize = 0;
    assert(all.skip(0) =~= all);
    while i < lines.len()
        invariant
            i <= lines@.len(),
            all == strings(lines@),
            start + joined(all) == out@ + joined(all.skip(i as int)),
        decreases lines@.len() - i,
    {
        let ghost before = out@;
        assert(all.skip(i as int).drop_first() =~= all.skip(i + 1));
        assert(all.skip(i as int)[0] == lines@[i as int]@);
        out.append(lines[i].as_str());
        out.append("\n");
        assert(before + joined(all.skip(i as int)) =~= out@ + joined(all.skip(i + 1)));
        i = i + 1;
    }
    assert(joined(all.skip(lines@.len() as int)) =~= Seq::<char>::empty()) by {
        assert(all.skip(lines@.len() as int) =~= Seq::<Seq<char>>::empty());
    }
    assert(start + joined(all) =~= out@);
}


/// The key of a line, as `line_key` says.
fn line_key_of(line: &str) -> (r: &str)
    ensures
        r@ == line_key(line@),
{
    let cs = chars_of(line);
    let n = cs.len();
    assert(cs@.subrange(0, n as int) =~= line@);
    let (a, b) = trim_bounds(&cs, 0, n);
    let (ka, kb) = match find_char(&cs, a, b, '=') {
        Some(j) => {
            assert(cs@.subrange(a as int, b as int).take(j - a) =~= cs@.subrange(a as int, j as int));
            trim_bounds(&cs, a, j)
        },
        None => (a, b),
    };
    line.substring_char(ka, kb)
}

/// One step of `kept_lines` over the text from `start`: the line that ends at `end`, with
/// its newline where `found`, then the rest.
proof fn lemma_kept_step(cs: Seq<char>, c: ConfigChanges, start: int, end: int, found: bool)
    requires
        0 <= start < end <= cs.len(),
        found ==> end - 1 - start == position(cs.subrange(start, cs.len() as int), is_char('\n')),
        !found ==> end == cs.len() && position(cs.subrange(start, cs.len() as int), is_char('\n'))
            == -1,
    ensures
        kept_lines(cs.subrange(start, cs.len() as int), c) == (if rewritten(
            line_key(cs.subrange(start, end)),
            c,
        ) {
            Seq::<char>::empty()
        } else {
            cs.subrange(start, end)
        }) + kept_lines(cs.subrange(end, cs.len() as int), c),
        found ==> cs.subrange(start, end).last() == '\n',
        !found ==> cs.subrange(start, end).last() != '\n',
{
    let u = cs.subrange(start, cs.len() as int);
    lemma_position(u, is_char('\n'));
    if found {
        assert(u.take(end - start) =~= cs.subrange(start, end));
        assert(u.skip(end - start) =~= cs.subrange(end, cs.len() as int));
    } else {
        assert(u =~= cs.subrange(start, end));
        assert(cs.subrange(end, cs.len() as int) =~= Seq::<char>::empty());
        assert(Seq::<char>::empty().len() == 0);
        assert(kept_lines(Seq::<char>::empty(), c) == Seq::<char>::empty());
    }
}

/// Rewrites a config file: keeps its lines but those of the settings that changed, ends it
/// with a newline, and appends the lines of the changed settings, as `saved_config` says.
pub fn rewrite_config(
    source: &str,
    changes: ConfigChanges,
    families: &Vec<String>,
    size: &str,
    height: &str,
    font: &FontOptions,
    cell_width: &str,
) -> (r: String)
    ensures
        r@ == saved_config(
            source@,
            changes,
            strings(families@),
            size@,
            height@,
            font@,
            cell_width@,
        ),
{
    let cs = chars_of(source);
    let n = cs.len();
    assert(cs@.subrange(0, n as int) =~= source@);
    let mut out = String::new();
    let mut start: usize = 0;
    let mut last_newline = false;
    while start < n
        invariant
            start <= n == cs@.len(),
            cs@ == source@,
            kept_lines(source@, changes) == out@ + kept_lines(
                cs@.subrange(start as int, n as int),
                changes,
            ),
            out@.len() > 0 ==> (last_newline <==> out@.last() == '\n'),
        decreases n - start,
    {
        let next = find_char(&cs, start, n, '\n');
        let end = match next {
            Some(k) => k + 1,
            None => n,
        };
        let line = source.substring_char(start, end);
        proof {
            lemma_kept_step(cs@, changes, start as int, end as int, next is Some);
        }
        let key = line_key_of(line);
        let ghost before = out@;
        if !is_rewritten(key, changes) {
            out.append(line);
            last_newline = next.is_some();
        }
        proof {
            let rest = kept_lines(cs@.subrange(end as int, n as int), changes);
            if rewritten(line_key(line@), changes) {
                assert(out@ == before);
                assert(Seq::<char>::empty() + rest =~= rest);
            } else {
                assert(before + (line@ + rest) =~= out@ + rest);
                assert(out@.last() == line@.last());
            }
        }
        start = end;
    }
    assert(kept_lines(cs@.subrange(n as int, n as int), changes) =~= Seq::<char>::empty());
    assert(out@ + Seq::<char>::empty() =~= out@);
    if !out.as_str().is_empty() && !last_newline {
        proof {
            reveal_strlit("\n");
        }
        let ghost before = out@;
        out.append("\n");
        assert(out@ =~= before.push('\n'));
    }
    assert(out@ =~= terminated(kept_lines(source@, changes)));
    if changes.families {
        let ghost before = out@;
        let mut lines: Vec<String> = Vec::new();
        lines.push(String::from_str("font-family ="));
        let mut i: usize = 0;
        let ghost f = |f: Seq<char>| "font-family = \""@ + f + "\""@;
        while i < families.len()
            invariant
                i <= families@.len(),
                f == (|f: Seq<char>| "font-family = \""@ + f + "\""@),
                strings(lines@) == seq!["font-family ="@] + strings(families@).take(
                    i as int,
                ).map_values(f),
            decreases families@.len() - i,
        {
            let mut line = String::from_str("font-family = \"");
            line.append(families[i].as_str());
            line.append("\"");
            let ghost prev = strings(lines@);
            lines.push(line);
            assert(strings(families@).take(i + 1).map_values(f) =~= strings(families@).take(
                i as int,
            ).map_values(f).push(f(families@[i as int]@)));
            assert(strings(lines@) =~= prev.push(line@));
            i = i + 1;
        }
        assert(strings(families@).take(families@.len() as int) =~= strings(families@));
        append_lines(&mut out, &lines);
    }
    let ghost after_families = out@;
    if changes.size {
        out.append("font-size = ");
        out.append(size);
        out.append("\n");
    }
    if changes.height {
        out.append("adjust-cell-height = ");
        out.append(height);
        out.append("\n");
    }
    if changes.font {
        let mut lines = font.lines();
        let mut width = String::from_str("adjust-cell-width = ");
        width.append(cell_width);
        let ghost prev = strings(lines@);
        lines.push(width);
        assert(strings(lines@) =~= prev.push(width@));
        append_lines(&mut out, &lines);
    }
    assert(out@ =~= saved_config(
        source@,
        changes,
        strings(families@),
        size@,
        height@,
        font@,
        cell_width@,
    ));
    out
}

/// A value written in double quotes reads back as itself, whatever it holds.
pub proof fn lemma_quoted_value_reads_back(v: Seq<char>)
    ensures
        unquoted(seq!['"'] + v + seq!['"']) == Some(v),
{
    let q = seq!['"'] + v + seq!['"'];
    assert(q.subrange(1, q.len() - 1) =~= v);
}

/// Where no setting changed, every line is kept.
proof fn lemma_kept_lines_unchanged(s: Seq<char>)
    ensures
        kept_lines(s, ConfigChanges { families: false, size: false, height: false, font: false })
            == s,
    decreases s.len(),
{
    let c = ConfigChanges { families: false, size: false, height: false, font: false };
    if s.len() > 0 {
        let i = position(s, is_char('\n'));
        lemma_position(s, is_char('\n'));
        if i >= 0 {
            lemma_kept_lines_unchanged(s.skip(i + 1));
            assert(s.take(i + 1) + s.skip(i + 1) =~= s);
        } else {
            assert(kept_lines(Seq::<char>::empty(), c) == Seq::<char>::empty());
            assert(s + Seq::<char>::empty() =~= s);
        }
    }
}

/// Saving settings of which none changed leaves the config file as it was, but for a newline
/// that ends its last line.
pub proof fn lemma_unchanged_save_keeps_the_file(
    source: Seq<char>,
    families: Seq<Seq<char>>,
    size: Seq<char>,
    height: Seq<char>,
    font: FontState,
    cell_width: Seq<char>,
)
    ensures
        saved_config(
            source,
            ConfigChanges { families: false, size: false, height: false, font: false },
            families,
            size,
            height,
            font,
            cell_width,
        ) == terminated(source),
{
    lemma_kept_lines_unchanged(source);
    let t = terminated(source);
    assert(t + Seq::<char>::empty() + Seq::<char>::empty() + Seq::<char>::empty()
        + Seq::<char>::empty() =~= t);
}

/// Lines of keys that the settings do not own are kept, whatever changed.
pub proof fn lemma_foreign_lines_are_kept(line: Seq<char>, rest: Seq<char>, c: ConfigChanges)
    requires
        line.len() > 0,
        line.last() == '\n',
        forall|i: int| 0 <= i < line.len() - 1 ==> line[i] != '\n',
        !supported(line_key(line)),
    ensures
        kept_lines(line + rest, c) == line + kept_lines(rest, c),
{
    let s = line + rest;
    let k = line.len() - 1;
    assert forall|j: int| 0 <= j < k implies !is_char('\n')(#[trigger] s[j]) by {
        assert(s[j] == line[j]);
    }
    assert(s[k] == '\n');
    crate::scan::lemma_position_is(s, is_char('\n'), k);
    assert(s.take(k + 1) =~= line);
    assert(s.skip(k + 1) =~= rest);
    assert(!rewritten(line_key(line), c));
}

} // verus!
