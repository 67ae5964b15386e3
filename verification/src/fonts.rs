//! Font options of the terminal settings: family lists per style, OpenType
//! features, code point maps and glyph thickening.

use vstd::prelude::*;
use vstd::string::*;

use crate::scan::{
    find_char, find_space, int_error_text, is_blank, is_char, lemma_position, parse_bool,
    parse_bool_in, parse_uint, parse_uint_in, position, trim, trim_bounds,
};
use crate::settings::{split, SettingsError};
use crate::text::{append_decimal, append_hex, chars_of, dec_chars, hex_chars, str_eq};

verus! {

broadcast use vstd::string::group_string_axioms;

/// A font family that draws the code points `start..=end`.
#[derive(Clone, Debug, PartialEq, Eq)]
pub struct FontMap {
    pub start: u32,
    pub end: u32,
    pub family: String,
}

/// The font options that the config file can set besides the main family and size.
#[derive(Clone, Debug, PartialEq, Eq)]
pub struct FontOptions {
    pub bold: Vec<String>,
    pub italic: Vec<String>,
    pub bold_italic: Vec<String>,
    pub features: Vec<(String, u32)>,
    pub codepoints: Vec<FontMap>,
    pub thicken: bool,
    pub thicken_strength: u8,
}

/// Font options with text as characters.
pub struct FontState {
    pub bold: Seq<Seq<char>>,
    pub italic: Seq<Seq<char>>,
    pub bold_italic: Seq<Seq<char>>,
    pub features: Seq<(Seq<char>, u32)>,
    pub codepoints: Seq<(u32, u32, Seq<char>)>,
    pub thicken: bool,
    pub thicken_strength: u8,
}

/// Strings as characters.
pub open spec fn strings(v: Seq<String>) -> Seq<Seq<char>> {
    v.map_values(|s: String| s@)
}

/// Features as characters and values.
pub open spec fn features_view(v: Seq<(String, u32)>) -> Seq<(Seq<char>, u32)> {
    v.map_values(|f: (String, u32)| (f.0@, f.1))
}

/// Code point maps as ranges and characters.
pub open spec fn maps_view(v: Seq<FontMap>) -> Seq<(u32, u32, Seq<char>)> {
    v.map_values(|m: FontMap| (m.start, m.end, m.family@))
}

impl View for FontOptions {
    type V = FontState;

    open spec fn view(&self) -> FontState {
        FontState {
            bold: strings(self.bold@),
            italic: strings(self.italic@),
            bold_italic: strings(self.bold_italic@),
            features: features_view(self.features@),
            codepoints: maps_view(self.codepoints@),
            thicken: self.thicken,
            thicken_strength: self.thicken_strength,
        }
    }
}

impl FontOptions {
    /// No families, features or maps; no thickening, at full strength.
    pub fn new() -> (r: FontOptions)
        ensures
            r@ == default_font(),
    {
        let r = FontOptions {
            bold: Vec::new(),
            italic: Vec::new(),
            bold_italic: Vec::new(),
            features: Vec::new(),
            codepoints: Vec::new(),
            thicken: false,
            thicken_strength: 255,
        };
        assert(r@.bold =~= Seq::<Seq<char>>::empty());
        assert(r@.italic =~= Seq::<Seq<char>>::empty());
        assert(r@.bold_italic =~= Seq::<Seq<char>>::empty());
        assert(r@.features =~= Seq::<(Seq<char>, u32)>::empty());
        assert(r@.codepoints =~= Seq::<(u32, u32, Seq<char>)>::empty());
        r
    }
}

/// The default font options.
pub open spec fn default_font() -> FontState {
    FontState {
        bold: Seq::empty(),
        italic: Seq::empty(),
        bold_italic: Seq::empty(),
        features: Seq::empty(),
        codepoints: Seq::empty(),
        thicken: false,
        thicken_strength: 255,
    }
}

/// A family list after an entry: an empty value clears it, another value is appended.
pub open spec fn family_list(list: Seq<Seq<char>>, value: Seq<char>) -> Seq<Seq<char>> {
    if value.len() == 0 {
        Seq::empty()
    } else {
        list.push(value)
    }
}

/// `s` without the characters that satisfy `p` at its start.
pub open spec fn strip_leading(s: Seq<char>, p: spec_fn(char) -> bool) -> Seq<char>
    decreases s.len(),
{
    if s.len() > 0 && p(s[0]) {
        strip_leading(s.drop_first(), p)
    } else {
        s
    }
}

/// `s` without the characters that satisfy `p` at its end.
pub open spec fn strip_trailing(s: Seq<char>, p: spec_fn(char) -> bool) -> Seq<char>
    decreases s.len(),
{
    if s.len() > 0 && p(s.last()) {
        strip_trailing(s.drop_last(), p)
    } else {
        s
    }
}

/// A single or double quote.
pub open spec fn is_quote() -> spec_fn(char) -> bool {
    |c: char| c == '\'' || c == '"'
}

/// `s` without quotes at either end.
pub open spec fn trim_quotes(s: Seq<char>) -> Seq<char> {
    strip_trailing(strip_leading(s, is_quote()), is_quote())
}

/// `s` without the `U+` prefixes at its start.
pub open spec fn strip_u_plus(s: Seq<char>) -> Seq<char>
    decreases s.len(),
{
    if s.len() >= 2 && s[0] == 'U' && s[1] == '+' {
        strip_u_plus(s.skip(2))
    } else {
        s
    }
}

/// An ASCII letter or digit.
pub open spec fn is_alnum(c: char) -> bool {
    ('0' <= c && c <= '9') || ('a' <= c && c <= 'z') || ('A' <= c && c <= 'Z')
}

/// An OpenType tag: four ASCII letters or digits.
pub open spec fn is_tag(s: Seq<char>) -> bool {
    s.len() == 4 && forall|i: int| 0 <= i < 4 ==> is_alnum(#[trigger] s[i])
}

/// The largest `u32`.
pub open spec fn u32_max() -> nat {
    0xffff_ffff
}

/// One item of a `font-feature` value: `-tag` turns a feature off, `tag=n` and `tag n` set
/// it to `n`, and `tag` or `+tag` turn it on.
pub open spec fn feature_item(item: Seq<char>) -> Result<(Seq<char>, u32), Seq<char>> {
    let t = trim(item);
    let eq = position(t, is_char('='));
    let sp = position(t, is_blank());
    let parsed: Result<(Seq<char>, nat), Seq<char>> = if t.len() > 0 && t[0] == '-' {
        Ok((t.drop_first(), 0))
    } else if eq >= 0 {
        match parse_uint(trim(t.skip(eq + 1)), 10, u32_max()) {
            Ok(n) => Ok((trim(t.take(eq)), n)),
            Err(e) => Err(int_error_text(e)),
        }
    } else if sp >= 0 {
        match parse_uint(trim(t.skip(sp + 1)), 10, u32_max()) {
            Ok(n) => Ok((t.take(sp), n)),
            Err(e) => Err(int_error_text(e)),
        }
    } else {
        Ok((strip_leading(t, is_char('+')), 1))
    };
    match parsed {
        Err(m) => Err(m),
        Ok(p) => {
            let tag = trim_quotes(p.0);
            if is_tag(tag) {
                Ok((tag, p.1 as u32))
            } else {
                Err("expected a four-character OpenType tag"@)
            }
        },
    }
}

/// The predicate "is a feature of another name than `name`".
pub open spec fn other_than(name: Seq<char>) -> spec_fn((Seq<char>, u32)) -> bool {
    |f: (Seq<char>, u32)| f.0 != name
}

/// The features once `name` is set to `value`: an earlier setting of `name` leaves, the new
/// one comes last.
pub open spec fn set_feature(fs: Seq<(Seq<char>, u32)>, name: Seq<char>, value: u32) -> Seq<
    (Seq<char>, u32),
> {
    fs.filter(other_than(name)).push((name, value))
}

/// The features after the items, in order, up to the first that is not a feature, whose
/// message comes back.
pub open spec fn apply_features(fs: Seq<(Seq<char>, u32)>, items: Seq<Seq<char>>) -> (Seq<
    (Seq<char>, u32),
>, Option<Seq<char>>)
    decreases items.len(),
{
    if items.len() == 0 {
        (fs, None)
    } else {
        match feature_item(items[0]) {
            Err(m) => (fs, Some(m)),
            Ok(f) => apply_features(set_feature(fs, f.0, f.1), items.drop_first()),
        }
    }
}

/// A code point written in hexadecimal, after `U+` prefixes.
pub open spec fn code_point(s: Seq<char>) -> Result<nat, crate::scan::IntError> {
    parse_uint(strip_u_plus(trim(s)), 16, u32_max())
}

/// One range of a `font-codepoint-map` value: `start-end`, or one code point.
pub open spec fn range_item(r: Seq<char>) -> Result<(u32, u32), Seq<char>> {
    let t = trim(r);
    let j = position(t, is_char('-'));
    let a = if j < 0 {
        t
    } else {
        t.take(j)
    };
    let b = if j < 0 {
        t
    } else {
        t.skip(j + 1)
    };
    match code_point(a) {
        Err(e) => Err(int_error_text(e)),
        Ok(start) => match code_point(b) {
            Err(e) => Err(int_error_text(e)),
            Ok(end) => if start > end || end > 0x10ffff {
                Err("invalid Unicode range"@)
            } else {
                Ok((start as u32, end as u32))
            },
        },
    }
}

/// The maps after the ranges, in order, each drawn by `family`, up to the first range that
/// is not one, whose message comes back.
pub open spec fn apply_ranges(
    maps: Seq<(u32, u32, Seq<char>)>,
    items: Seq<Seq<char>>,
    family: Seq<char>,
) -> (Seq<(u32, u32, Seq<char>)>, Option<Seq<char>>)
    decreases items.len(),
{
    if items.len() == 0 {
        (maps, None)
    } else {
        match range_item(items[0]) {
            Err(m) => (maps, Some(m)),
            Ok(r) => apply_ranges(maps.push((r.0, r.1, family)), items.drop_first(), family),
        }
    }
}

/// The maps after a nonempty `font-codepoint-map` value: ranges, `=`, and a family.
pub open spec fn codepoint_map(maps: Seq<(u32, u32, Seq<char>)>, value: Seq<char>) -> (Seq<
    (u32, u32, Seq<char>),
>, Option<Seq<char>>) {
    let i = position(value, is_char('='));
    if i < 0 {
        (maps, Some("expected U+start-U+end=family"@))
    } else {
        let family = trim(value.skip(i + 1));
        if family.len() == 0 {
            (maps, Some("font family is empty"@))
        } else {
            apply_ranges(maps, split(value.take(i), ','), family)
        }
    }
}

/// `Ok(true)`, or the error of `key` with the message.
pub open spec fn outcome(key: Seq<char>, m: Option<Seq<char>>) -> Result<bool, (Seq<char>, Seq<char>)> {
    match m {
        None => Ok(true),
        Some(m) => Err((key, m)),
    }
}

/// What an entry does to the font options, and whether its key is one of theirs.
pub open spec fn font_read(f: FontState, key: Seq<char>, value: Seq<char>) -> (FontState, Result<
    bool,
    (Seq<char>, Seq<char>),
>) {
    if key == "font-family-bold"@ {
        (FontState { bold: family_list(f.bold, value), ..f }, Ok(true))
    } else if key == "font-family-italic"@ {
        (FontState { italic: family_list(f.italic, value), ..f }, Ok(true))
    } else if key == "font-family-bold-italic"@ {
        (FontState { bold_italic: family_list(f.bold_italic, value), ..f }, Ok(true))
    } else if key == "font-feature"@ {
        if value.len() == 0 {
            (FontState { features: Seq::empty(), ..f }, Ok(true))
        } else {
            let (fs, m) = apply_features(f.features, split(value, ','));
            (FontState { features: fs, ..f }, outcome(key, m))
        }
    } else if key == "font-codepoint-map"@ {
        if value.len() == 0 {
            (FontState { codepoints: Seq::empty(), ..f }, Ok(true))
        } else {
            let (maps, m) = codepoint_map(f.codepoints, value);
            (FontState { codepoints: maps, ..f }, outcome(key, m))
        }
    } else if key == "font-thicken"@ {
        if value.len() == 0 {
            (FontState { thicken: false, ..f }, Ok(true))
        } else {
            match parse_bool(value) {
                Some(b) => (FontState { thicken: b, ..f }, Ok(true)),
                None => (f, Err((key, "provided string was not `true` or `false`"@))),
            }
        }
    } else if key == "font-thicken-strength"@ {
        if value.len() == 0 {
            (FontState { thicken_strength: 255, ..f }, Ok(true))
        } else {
            match parse_uint(value, 10, 255) {
                Ok(n) => (FontState { thicken_strength: n as u8, ..f }, Ok(true)),
                Err(e) => (f, Err((key, int_error_text(e)))),
            }
        }
    } else {
        (f, Ok(false))
    }
}

/// The start of `lo..hi` once its leading `+` characters are skipped.
fn skip_plus(cs: &Vec<char>, lo: usize, hi: usize) -> (r: usize)
    requires
        lo <= hi <= cs@.len(),
    ensures
        lo <= r <= hi,
        cs@.subrange(r as int, hi as int) == strip_leading(
            cs@.subrange(lo as int, hi as int),
            is_char('+'),
        ),
{
    let mut a = lo;
    while a < hi && cs[a] == '+'
        invariant
            lo <= a <= hi <= cs@.len(),
            strip_leading(cs@.subrange(lo as int, hi as int), is_char('+')) == strip_leading(
                cs@.subrange(a as int, hi as int),
                is_char('+'),
            ),
        decreases hi - a,
    {
        assert(cs@.subrange(a as int, hi as int).drop_first() =~= cs@.subrange(a + 1, hi as int));
        a = a + 1;
    }
    a
}

/// The start of `lo..hi` once its leading `U+` prefixes are skipped.
fn skip_u_plus(cs: &Vec<char>, lo: usize, hi: usize) -> (r: usize)
    requires
        lo <= hi <= cs@.len(),
    ensures
        lo <= r <= hi,
        cs@.subrange(r as int, hi as int) == strip_u_plus(cs@.subrange(lo as int, hi as int)),
{
    let mut a = lo;
    while hi - a >= 2 && cs[a] == 'U' && cs[a + 1] == '+'
        invariant
            lo <= a <= hi <= cs@.len(),
            strip_u_plus(cs@.subrange(lo as int, hi as int)) == strip_u_plus(
                cs@.subrange(a as int, hi as int),
            ),
        decreases hi - a,
    {
        assert(cs@.subrange(a as int, hi as int).skip(2) =~= cs@.subrange(a + 2, hi as int));
        a = a + 2;
    }
    a
}

/// The bounds of `lo..hi` once the quotes at either end are taken off.
fn quote_bounds(cs: &Vec<char>, lo: usize, hi: usize) -> (r: (usize, usize))
    requires
        lo <= hi <= cs@.len(),
    ensures
        lo <= r.0 <= r.1 <= hi,
        cs@.subrange(r.0 as int, r.1 as int) == trim_quotes(cs@.subrange(lo as int, hi as int)),
{
    let mut a = lo;
    while a < hi && (cs[a] == '\'' || cs[a] == '"')
        invariant
            lo <= a <= hi <= cs@.len(),
            strip_leading(cs@.subrange(lo as int, hi as int), is_quote()) == strip_leading(
                cs@.subrange(a as int, hi as int),
                is_quote(),
            ),
        decreases hi - a,
    {
        assert(cs@.subrange(a as int, hi as int).drop_first() =~= cs@.subrange(a + 1, hi as int));
        a = a + 1;
    }
    let mut b = hi;
    while b > a && (cs[b - 1] == '\'' || cs[b - 1] == '"')
        invariant
            lo <= a <= b <= hi <= cs@.len(),
            strip_leading(cs@.subrange(lo as int, hi as int), is_quote()) == cs@.subrange(
                a as int,
                hi as int,
            ) || a == hi,
            strip_trailing(cs@.subrange(a as int, hi as int), is_quote()) == strip_trailing(
                cs@.subrange(a as int, b as int),
                is_quote(),
            ),
        decreases b - a,
    {
        assert(cs@.subrange(a as int, b as int).drop_last() =~= cs@.subrange(a as int, b - 1));
        b = b - 1;
    }
    assert(strip_leading(cs@.subrange(lo as int, hi as int), is_quote()) == cs@.subrange(
        a as int,
        hi as int,
    ));
    (a, b)
}

/// Whether `lo..hi` is an OpenType tag.
fn tag_in(cs: &Vec<char>, lo: usize, hi: usize) -> (r: bool)
    requires
        lo <= hi <= cs@.len(),
    ensures
        r == is_tag(cs@.subrange(lo as int, hi as int)),
{
    let ghost s = cs@.subrange(lo as int, hi as int);
    if hi - lo != 4 {
        return false;
    }
    let mut i = lo;
    while i < hi
        invariant
            lo <= i <= hi <= cs@.len(),
            hi - lo == 4,
            s == cs@.subrange(lo as int, hi as int),
            forall|j: int| 0 <= j < i - lo ==> is_alnum(#[trigger] s[j]),
        decreases hi - i,
    {
        let c = cs[i];
        if !(('0' <= c && c <= '9') || ('a' <= c && c <= 'z') || ('A' <= c && c <= 'Z')) {
            assert(!is_alnum(s[i - lo]));
            return false;
        }
        i = i + 1;
    }
    true
}

/// One item of a `font-feature` value: the range `lo..hi` of `text`'s characters.
fn feature_in(text: &str, cs: &Vec<char>, lo: usize, hi: usize) -> (r: Result<(String, u32), String>)
    requires
        lo <= hi <= cs@.len(),
        cs@ == text@,
    ensures
        match feature_item(cs@.subrange(lo as int, hi as int)) {
            Ok(f) => r matches Ok(p) && p.0@ == f.0 && p.1 == f.1,
            Err(m) => r matches Err(e) && e@ == m,
        },
{
    let (a, b) = trim_bounds(cs, lo, hi);
    let ghost t = cs@.subrange(a as int, b as int);
    let mut nlo: usize = a;
    let mut nhi: usize = b;
    let mut value: u32 = 1;
    if a < b && cs[a] == '-' {
        assert(t.drop_first() =~= cs@.subrange(a + 1, b as int));
        nlo = a + 1;
        value = 0;
    } else {
        match find_char(cs, a, b, '=') {
            Some(i) => {
                assert(t.skip(i - a + 1) =~= cs@.subrange(i + 1, b as int));
                assert(t.take(i - a) =~= cs@.subrange(a as int, i as int));
                let (x, y) = trim_bounds(cs, i + 1, b);
                match parse_uint_in(cs, x, y, 10, 0xffff_ffff) {
                    Err(e) => {
                        return Err(e.message());
                    },
                    Ok(n) => {
                        let (p, q) = trim_bounds(cs, a, i);
                        nlo = p;
                        nhi = q;
                        value = n as u32;
                    },
                }
            },
            None => match find_space(cs, a, b) {
                Some(i) => {
                    assert(t.skip(i - a + 1) =~= cs@.subrange(i + 1, b as int));
                    assert(t.take(i - a) =~= cs@.subrange(a as int, i as int));
                    let (x, y) = trim_bounds(cs, i + 1, b);
                    match parse_uint_in(cs, x, y, 10, 0xffff_ffff) {
                        Err(e) => {
                            return Err(e.message());
                        },
                        Ok(n) => {
                            nhi = i;
                            value = n as u32;
                        },
                    }
                },
                None => {
                    nlo = skip_plus(cs, a, b);
                },
            },
        }
    }
    let (qa, qb) = quote_bounds(cs, nlo, nhi);
    if !tag_in(cs, qa, qb) {
        return Err(String::from_str("expected a four-character OpenType tag"));
    }
    Ok((text.substring_char(qa, qb).to_owned(), value))
}

/// Sets the feature `name` to `value`, as `set_feature` says.
fn put_feature(features: &mut Vec<(String, u32)>, name: String, value: u32)
    ensures
        features_view(final(features)@) == set_feature(features_view(old(features)@), name@, value),
{
    let ghost fs = features_view(features@);
    let mut kept: Vec<(String, u32)> = Vec::new();
    let mut i: usize = 0;
    while i < features.len()
        invariant
            i <= features@.len(),
            fs == features_view(features@),
            features_view(kept@) == fs.take(i as int).filter(other_than(name@)),
        decreases features@.len() - i,
    {
        let ghost before = fs.take(i as int);
        proof {
            reveal(Seq::filter);
        }
        assert(fs.take(i + 1).drop_last() =~= before);
        assert(fs.take(i + 1).last() == (features@[i as int].0@, features@[i as int].1));
        if features[i].0 != name {
            kept.push((features[i].0.clone(), features[i].1));
            assert(features_view(kept@) =~= before.filter(other_than(name@)).push(
                (features@[i as int].0@, features@[i as int].1),
            ));
        }
        i = i + 1;
    }
    assert(fs.take(fs.len() as int) =~= fs);
    let ghost filtered = features_view(kept@);
    kept.push((name, value));
    assert(features_view(kept@) =~= filtered.push((name@, value)));
    *features = kept;
}

/// Applies the items of a `font-feature` value in order, up to the first that is not a
/// feature, whose message comes back.
fn read_features(features: &mut Vec<(String, u32)>, text: &str) -> (r: Option<String>)
    ensures
        features_view(final(features)@) == apply_features(
            features_view(old(features)@),
            split(text@, ','),
        ).0,
        match apply_features(features_view(old(features)@), split(text@, ',')).1 {
            None => r is None,
            Some(m) => r matches Some(e) && e@ == m,
        },
{
    let cs = chars_of(text);
    let ghost goal = apply_features(features_view(features@), split(text@, ','));
    let mut start: usize = 0;
    assert(cs@.subrange(0, cs@.len() as int) =~= text@);
    loop
        invariant
            start <= cs@.len(),
            cs@ == text@,
            goal == apply_features(features_view(old(features)@), split(text@, ',')),
            goal == apply_features(
                features_view(features@),
                split(cs@.subrange(start as int, cs@.len() as int), ','),
            ),
        decreases cs@.len() - start,
    {
        let ghost u = cs@.subrange(start as int, cs@.len() as int);
        let next = find_char(&cs, start, cs.len(), ',');
        let end = match next {
            Some(k) => k,
            None => cs.len(),
        };
        proof {
            lemma_position(u, is_char(','));
            if next is Some {
                assert(u.take(end - start) =~= cs@.subrange(start as int, end as int));
                assert(u.skip(end - start + 1) =~= cs@.subrange(end + 1, cs@.len() as int));
                let rest = split(cs@.subrange(end + 1, cs@.len() as int), ',');
                assert(split(u, ',') == seq![cs@.subrange(start as int, end as int)] + rest);
                assert((seq![cs@.subrange(start as int, end as int)] + rest).drop_first() =~= rest);
                assert(split(u, ',')[0] == cs@.subrange(start as int, end as int));
                assert(split(u, ',').drop_first() == rest);
            } else {
                assert(u =~= cs@.subrange(start as int, end as int));
                assert(seq![u].drop_first() =~= Seq::<Seq<char>>::empty());
                assert(split(u, ',')[0] == cs@.subrange(start as int, end as int));
                assert(split(u, ',').drop_first() == Seq::<Seq<char>>::empty());
            }
        }
        match feature_in(text, &cs, start, end) {
            Err(m) => {
                return Some(m);
            },
            Ok(f) => {
                put_feature(features, f.0, f.1);
            },
        }
        assert(goal == apply_features(features_view(features@), split(u, ',').drop_first()));
        match next {
            None => {
                assert(apply_features(features_view(features@), Seq::<Seq<char>>::empty()) == (
                    features_view(features@),
                    None::<Seq<char>>,
                ));
                return None;
            },
            Some(k) => {
                start = k + 1;
            },
        }
    }
}

/// A code point written in hexadecimal in `lo..hi`, after `U+` prefixes.
fn code_in(cs: &Vec<char>, lo: usize, hi: usize) -> (r: Result<u32, crate::scan::IntError>)
    requires
        lo <= hi <= cs@.len(),
    ensures
        match code_point(cs@.subrange(lo as int, hi as int)) {
            Ok(n) => r == Ok::<u32, crate::scan::IntError>(n as u32) && n <= u32_max(),
            Err(e) => r == Err::<u32, crate::scan::IntError>(e),
        },
{
    let (a, b) = trim_bounds(cs, lo, hi);
    let c = skip_u_plus(cs, a, b);
    match parse_uint_in(cs, c, b, 16, 0xffff_ffff) {
        Ok(n) => Ok(n as u32),
        Err(e) => Err(e),
    }
}

/// One range of a `font-codepoint-map` value: the range `lo..hi` of the characters.
fn range_in(cs: &Vec<char>, lo: usize, hi: usize) -> (r: Result<(u32, u32), String>)
    requires
        lo <= hi <= cs@.len(),
    ensures
        match range_item(cs@.subrange(lo as int, hi as int)) {
            Ok(p) => r matches Ok(q) && q == p,
            Err(m) => r matches Err(e) && e@ == m,
        },
{
    let (a, b) = trim_bounds(cs, lo, hi);
    let ghost t = cs@.subrange(a as int, b as int);
    let (sa, sb, ea, eb) = match find_char(cs, a, b, '-') {
        Some(j) => {
            assert(t.take(j - a) =~= cs@.subrange(a as int, j as int));
            assert(t.skip(j - a + 1) =~= cs@.subrange(j + 1, b as int));
            (a, j, j + 1, b)
        },
        None => (a, b, a, b),
    };
    let start = match code_in(cs, sa, sb) {
        Ok(n) => n,
        Err(e) => {
            return Err(e.message());
        },
    };
    let end = match code_in(cs, ea, eb) {
        Ok(n) => n,
        Err(e) => {
            return Err(e.message());
        },
    };
    if start > end || end > 0x10ffff {
        return Err(String::from_str("invalid Unicode range"));
    }
    Ok((start, end))
}

/// Applies a nonempty `font-codepoint-map` value, as `codepoint_map` says.
fn read_codepoints(maps: &mut Vec<FontMap>, text: &str) -> (r: Option<String>)
    ensures
        maps_view(final(maps)@) == codepoint_map(maps_view(old(maps)@), text@).0,
        match codepoint_map(maps_view(old(maps)@), text@).1 {
            None => r is None,
            Some(m) => r matches Some(e) && e@ == m,
        },
{
    let cs = chars_of(text);
    let n = cs.len();
    assert(cs@.subrange(0, n as int) =~= text@);
    let i = match find_char(&cs, 0, n, '=') {
        None => {
            return Some(String::from_str("expected U+start-U+end=family"));
        },
        Some(i) => i,
    };
    assert(text@.skip(i + 1) =~= cs@.subrange(i + 1, n as int));
    assert(text@.take(i as int) =~= cs@.subrange(0, i as int));
    let (fa, fb) = trim_bounds(&cs, i + 1, n);
    if fa == fb {
        return Some(String::from_str("font family is empty"));
    }
    let family = text.substring_char(fa, fb).to_owned();
    let ghost goal = apply_ranges(maps_view(maps@), split(text@.take(i as int), ','), family@);
    let mut start: usize = 0;
    loop
        invariant
            start <= i < n,
            n == cs@.len(),
            cs@ == text@,
            goal == codepoint_map(maps_view(old(maps)@), text@),
            goal == apply_ranges(
                maps_view(maps@),
                split(cs@.subrange(start as int, i as int), ','),
                family@,
            ),
        decreases i - start,
    {
        let ghost u = cs@.subrange(start as int, i as int);
        let next = find_char(&cs, start, i, ',');
        let end = match next {
            Some(k) => k,
            None => i,
        };
        proof {
            lemma_position(u, is_char(','));
            if next is Some {
                assert(u.take(end - start) =~= cs@.subrange(start as int, end as int));
                assert(u.skip(end - start + 1) =~= cs@.subrange(end + 1, i as int));
                let rest = split(cs@.subrange(end + 1, i as int), ',');
                assert(split(u, ',') == seq![cs@.subrange(start as int, end as int)] + rest);
                assert((seq![cs@.subrange(start as int, end as int)] + rest).drop_first() =~= rest);
                assert(split(u, ',')[0] == cs@.subrange(start as int, end as int));
                assert(split(u, ',').drop_first() == rest);
            } else {
                assert(u =~= cs@.subrange(start as int, end as int));
                assert(seq![u].drop_first() =~= Seq::<Seq<char>>::empty());
                assert(split(u, ',')[0] == cs@.subrange(start as int, end as int));
                assert(split(u, ',').drop_first() == Seq::<Seq<char>>::empty());
            }
        }
        match range_in(&cs, start, end) {
            Err(m) => {
                return Some(m);
            },
            Ok(range) => {
                let ghost before = maps_view(maps@);
                maps.push(FontMap { start: range.0, end: range.1, family: family.clone() });
                assert(maps_view(maps@) =~= before.push((range.0, range.1, family@)));
            },
        }
        assert(goal == apply_ranges(maps_view(maps@), split(u, ',').drop_first(), family@));
        match next {
            None => {
                assert(apply_ranges(maps_view(maps@), Seq::<Seq<char>>::empty(), family@) == (
                    maps_view(maps@),
                    None::<Seq<char>>,
                ));
                return None;
            },
            Some(k) => {
                start = k + 1;
            },
        }
    }
}

/// Applies a family entry to a family list, as `family_list` says.
fn push_family(list: &mut Vec<String>, value: &str)
    ensures
        strings(final(list)@) == family_list(strings(old(list)@), value@),
{
    if value.is_empty() {
        list.clear();
        assert(strings(list@) =~= Seq::<Seq<char>>::empty());
    } else {
        let ghost before = strings(list@);
        list.push(value.to_owned());
        assert(strings(list@) =~= before.push(value@));
    }
}

/// The view of a `read` result.
pub open spec fn read_view(r: Result<bool, SettingsError>) -> Result<bool, (Seq<char>, Seq<char>)> {
    match r {
        Ok(b) => Ok(b),
        Err(e) => Err(e@),
    }
}

impl FontOptions {
    /// Applies the entry `key = value` where `key` is one of the font options: the family
    /// lists, `font-feature`, `font-codepoint-map`, `font-thicken` and
    /// `font-thicken-strength`. Returns whether the key was one of them; an error names the key.
    /// `adjust-cell-width` is not one of them here: its value is a float, which these options
    /// do not hold, so `apply_entry` hands it back as `EntryEffect::CellWidth` to be read
    /// with the cell height's rules.
    pub fn read(&mut self, key: &str, value: &str) -> (r: Result<bool, SettingsError>)
        ensures
            final(self)@ == font_read(old(self)@, key@, value@).0,
            read_view(r) == font_read(old(self)@, key@, value@).1,
    {
        if str_eq(key, "font-family-bold") {
            push_family(&mut self.bold, value);
            return Ok(true);
        }
        if str_eq(key, "font-family-italic") {
            push_family(&mut self.italic, value);
            return Ok(true);
        }
        if str_eq(key, "font-family-bold-italic") {
            push_family(&mut self.bold_italic, value);
            return Ok(true);
        }
        if str_eq(key, "font-feature") {
            if value.is_empty() {
                self.features.clear();
                assert(features_view(self.features@) =~= Seq::<(Seq<char>, u32)>::empty());
                return Ok(true);
            }
            return match read_features(&mut self.features, value) {
                None => Ok(true),
                Some(m) => Err(SettingsError { context: key.to_owned(), message: m }),
            };
        }
        if str_eq(key, "font-codepoint-map") {
            if value.is_empty() {
                self.codepoints.clear();
                assert(maps_view(self.codepoints@) =~= Seq::<(u32, u32, Seq<char>)>::empty());
                return Ok(true);
            }
            return match read_codepoints(&mut self.codepoints, value) {
                None => Ok(true),
                Some(m) => Err(SettingsError { context: key.to_owned(), message: m }),
            };
        }
        if str_eq(key, "font-thicken") {
            if value.is_empty() {
                self.thicken = false;
                return Ok(true);
            }
            let cs = chars_of(value);
            assert(cs@.subrange(0, cs@.len() as int) =~= value@);
            return match parse_bool_in(&cs, 0, cs.len()) {
                Some(b) => {
                    self.thicken = b;
                    Ok(true)
                },
                None => Err(
                    SettingsError::new(key, "provided string was not `true` or `false`"),
                ),
            };
        }
        if str_eq(key, "font-thicken-strength") {
            if value.is_empty() {
                self.thicken_strength = 255;
                return Ok(true);
            }
            let cs = chars_of(value);
            assert(cs@.subrange(0, cs@.len() as int) =~= value@);
            return match parse_uint_in(&cs, 0, cs.len(), 10, 255) {
                Ok(n) => {
                    self.thicken_strength = n as u8;
                    Ok(true)
                },
                Err(e) => Err(SettingsError { context: key.to_owned(), message: e.message() }),
            };
        }
        Ok(false)
    }
}

/// The config lines of a family list: one that clears it, then one per family, quoted.
pub open spec fn family_lines(key: Seq<char>, values: Seq<Seq<char>>) -> Seq<Seq<char>> {
    seq![key + " ="@] + values.map_values(|v: Seq<char>| key + " = \""@ + v + "\""@)
}

/// The config lines of the features: one that clears them, then one per feature.
pub open spec fn feature_lines(fs: Seq<(Seq<char>, u32)>) -> Seq<Seq<char>> {
    seq!["font-feature ="@] + fs.map_values(
        |f: (Seq<char>, u32)| "font-feature = "@ + f.0 + "="@ + dec_chars(f.1 as nat),
    )
}

/// The config lines of the code point maps: one that clears them, then one per map, with
/// the code points in uppercase hexadecimal.
pub open spec fn map_lines(ms: Seq<(u32, u32, Seq<char>)>) -> Seq<Seq<char>> {
    seq!["font-codepoint-map ="@] + ms.map_values(
        |m: (u32, u32, Seq<char>)|
            "font-codepoint-map = U+"@ + hex_chars(m.0 as nat) + "-U+"@ + hex_chars(m.1 as nat)
                + "="@ + m.2,
    )
}

/// `true` or `false`.
pub open spec fn bool_chars(b: bool) -> Seq<char> {
    if b {
        "true"@
    } else {
        "false"@
    }
}

/// The config lines that state the font options, in the order the config file keeps them.
pub open spec fn font_lines(f: FontState) -> Seq<Seq<char>> {
    family_lines("font-family-bold"@, f.bold) + family_lines("font-family-italic"@, f.italic)
        + family_lines("font-family-bold-italic"@, f.bold_italic) + feature_lines(f.features)
        + map_lines(f.codepoints) + seq![
        "font-thicken = "@ + bool_chars(f.thicken),
        "font-thicken-strength = "@ + dec_chars(f.thicken_strength as nat),
    ]
}

/// Appends the config lines of a family list.
fn push_family_lines(out: &mut Vec<String>, key: &str, values: &Vec<String>)
    ensures
        strings(final(out)@) == strings(old(out)@) + family_lines(key@, strings(values@)),
{
    let ghost f = |v: Seq<char>| key@ + " = \""@ + v + "\""@;
    let mut head = String::from_str(key);
    head.append(" =");
    let ghost start = strings(out@);
    out.push(head);
    assert(strings(out@) =~= start + seq![key@ + " ="@]);
    let mut i: usize = 0;
    while i < values.len()
        invariant
            i <= values@.len(),
            f == (|v: Seq<char>| key@ + " = \""@ + v + "\""@),
            strings(out@) == start + seq![key@ + " ="@] + strings(values@).take(i as int).map_values(f),
        decreases values@.len() - i,
    {
        let mut line = String::from_str(key);
        line.append(" = \"");
        line.append(values[i].as_str());
        line.append("\"");
        let ghost before = strings(out@);
        out.push(line);
        assert(strings(values@).take(i + 1).map_values(f) =~= strings(values@).take(
            i as int,
        ).map_values(f).push(f(values@[i as int]@)));
        assert(strings(out@) =~= before.push(line@));
        i = i + 1;
    }
    assert(strings(values@).take(values@.len() as int) =~= strings(values@));
}

impl FontOptions {
    /// The config lines that state these options, as `font_lines` says; the line of the cell
    /// width adjustment, a float kept apart from these options, follows them in the file.
    pub fn lines(&self) -> (r: Vec<String>)
        ensures
            strings(r@) == font_lines(self@),
    {
        let mut out: Vec<String> = Vec::new();
        assert(strings(out@) =~= Seq::<Seq<char>>::empty());
        push_family_lines(&mut out, "font-family-bold", &self.bold);
        push_family_lines(&mut out, "font-family-italic", &self.italic);
        push_family_lines(&mut out, "font-family-bold-italic", &self.bold_italic);
        let ghost before_features = strings(out@);
        let ghost ff = |f: (Seq<char>, u32)| "font-feature = "@ + f.0 + "="@ + dec_chars(f.1 as nat);
        out.push(String::from_str("font-feature ="));
        let mut i: usize = 0;
        while i < self.features.len()
            invariant
                i <= self.features@.len(),
                ff == (|f: (Seq<char>, u32)| "font-feature = "@ + f.0 + "="@ + dec_chars(f.1 as nat)),
                strings(out@) == before_features + seq!["font-feature ="@] + features_view(
                    self.features@,
                ).take(i as int).map_values(ff),
            decreases self.features@.len() - i,
        {
            let mut line = String::from_str("font-feature = ");
            line.append(self.features[i].0.as_str());
            line.append("=");
            append_decimal(&mut line, self.features[i].1 as u64);
            let ghost before = strings(out@);
            out.push(line);
            assert(features_view(self.features@).take(i + 1).map_values(ff) =~= features_view(
                self.features@,
            ).take(i as int).map_values(ff).push(ff(features_view(self.features@)[i as int])));
            assert(strings(out@) =~= before.push(line@));
            i = i + 1;
        }
        assert(features_view(self.features@).take(self.features@.len() as int) =~= features_view(
            self.features@,
        ));
        let ghost before_maps = strings(out@);
        let ghost fm = |m: (u32, u32, Seq<char>)|
            "font-codepoint-map = U+"@ + hex_chars(m.0 as nat) + "-U+"@ + hex_chars(m.1 as nat)
                + "="@ + m.2;
        out.push(String::from_str("font-codepoint-map ="));
        let mut j: usize = 0;
        while j < self.codepoints.len()
            invariant
                j <= self.codepoints@.len(),
                fm == (|m: (u32, u32, Seq<char>)|
                    "font-codepoint-map = U+"@ + hex_chars(m.0 as nat) + "-U+"@ + hex_chars(
                        m.1 as nat,
                    ) + "="@ + m.2),
                strings(out@) == before_maps + seq!["font-codepoint-map ="@] + maps_view(
                    self.codepoints@,
                ).take(j as int).map_values(fm),
            decreases self.codepoints@.len() - j,
        {
            let mut line = String::from_str("font-codepoint-map = U+");
            append_hex(&mut line, self.codepoints[j].start);
            line.append("-U+");
            append_hex(&mut line, self.codepoints[j].end);
            line.append("=");
            line.append(self.codepoints[j].family.as_str());
            let ghost before = strings(out@);
            out.push(line);
            assert(maps_view(self.codepoints@).take(j + 1).map_values(fm) =~= maps_view(
                self.codepoints@,
            ).take(j as int).map_values(fm).push(fm(maps_view(self.codepoints@)[j as int])));
            assert(strings(out@) =~= before.push(line@));
            j = j + 1;
        }
        assert(maps_view(self.codepoints@).take(self.codepoints@.len() as int) =~= maps_view(
            self.codepoints@,
        ));
        let mut thicken = String::from_str("font-thicken = ");
        thicken.append(if self.thicken { "true" } else { "false" });
        let mut strength = String::from_str("font-thicken-strength = ");
        append_decimal(&mut strength, self.thicken_strength as u64);
        let ghost before_tail = strings(out@);
        out.push(thicken);
        out.push(strength);
        assert(strings(out@) =~= before_tail + seq![thicken@, strength@]);
        assert(strings(out@) =~= font_lines(self@));
        out
    }
}

} // verus!
