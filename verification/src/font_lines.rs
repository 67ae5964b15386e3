//! Reading font options from the lines of a config file, and the law that the lines
//! a save writes for font options read back as those options.

use vstd::prelude::*;

use crate::fonts::{
    apply_features, bool_chars, family_lines, feature_item, feature_lines, font_lines, font_read,
    is_alnum, is_quote, is_tag, map_lines, other_than, set_feature, strip_leading, strip_trailing,
    trim_quotes, u32_max, FontState, apply_ranges, code_point, codepoint_map, range_item,
    strip_u_plus,
};
use crate::settings::split;
use crate::scan::{
    digit_value, is_char, is_space, lemma_position_is, parse_uint, position, scan_digits, trim,
    trim_end, trim_start,
};
use crate::settings::{line_entry, unquoted};
use crate::text::{dec_chars, hex_chars, hex_digit};

verus! {

/// The font options after the lines of a config file, in order: each supported entry is
/// read by the font options; the first error ends the reading.
pub open spec fn read_font_lines(f: FontState, lines: Seq<Seq<char>>, location: Seq<char>) -> Result<
    FontState,
    (Seq<char>, Seq<char>),
>
    decreases lines.len(),
{
    if lines.len() == 0 {
        Ok(f)
    } else {
        match line_entry(lines[0], location) {
            Err(e) => Err(e),
            Ok(None) => read_font_lines(f, lines.drop_first(), location),
            Ok(Some(entry)) => match font_read(f, entry.0, entry.1) {
                (_, Err(e)) => Err(e),
                (next, Ok(_)) => read_font_lines(next, lines.drop_first(), location),
            },
        }
    }
}

/// Reading lines one after another is reading them all.
pub proof fn lemma_read_concat(f: FontState, a: Seq<Seq<char>>, b: Seq<Seq<char>>, location: Seq<char>)
    ensures
        read_font_lines(f, a + b, location) == (match read_font_lines(f, a, location) {
            Ok(g) => read_font_lines(g, b, location),
            Err(e) => Err(e),
        }),
    decreases a.len(),
{
    if a.len() == 0 {
        assert(a + b =~= b);
    } else {
        assert((a + b)[0] == a[0]);
        assert((a + b).drop_first() =~= a.drop_first() + b);
        match line_entry(a[0], location) {
            Err(e) => {},
            Ok(None) => {
                lemma_read_concat(f, a.drop_first(), b, location);
            },
            Ok(Some(entry)) => match font_read(f, entry.0, entry.1) {
                (_, Err(e)) => {},
                (next, Ok(_)) => {
                    lemma_read_concat(next, a.drop_first(), b, location);
                },
            },
        }
    }
}

/// A text without white space at either end is its own trim.
pub proof fn lemma_trim_fixed(s: Seq<char>)
    requires
        s.len() > 0 ==> !is_space(s[0]) && !is_space(s.last()),
    ensures
        trim(s) == s,
{
}

/// One space before a text without white space at either end is trimmed away.
pub proof fn lemma_trim_space_before(s: Seq<char>)
    requires
        s.len() > 0 ==> !is_space(s[0]) && !is_space(s.last()),
    ensures
        trim(seq![' '] + s) == s,
{
    let t = seq![' '] + s;
    assert(t.drop_first() =~= s);
    assert(trim_start(t) == trim_start(s));
}

/// One space after a text without white space at either end is trimmed away.
pub proof fn lemma_trim_space_after(s: Seq<char>)
    requires
        s.len() > 0,
        !is_space(s[0]),
        !is_space(s.last()),
    ensures
        trim(s + seq![' ']) == s,
{
    let t = s + seq![' '];
    assert(t[0] == s[0]);
    assert(trim_start(t) == t);
    assert(t.drop_last() =~= s);
    assert(t.last() == ' ');
    assert(trim_end(s) == s);
    assert(trim_end(t) == trim_end(s));
}

/// The first `c` of a text is the one after a prefix that holds none.
pub proof fn lemma_position_after(prefix: Seq<char>, c: char, rest: Seq<char>)
    requires
        !prefix.contains(c),
    ensures
        position(prefix + seq![c] + rest, is_char(c)) == prefix.len(),
{
    let s = prefix + seq![c] + rest;
    assert forall|j: int| 0 <= j < prefix.len() implies !is_char(c)(#[trigger] s[j]) by {
        assert(s[j] == prefix[j]);
    }
    assert(s[prefix.len() as int] == c);
    lemma_position_is(s, is_char(c), prefix.len() as int);
}

/// A text that holds no `c` has no position of it.
pub proof fn lemma_position_none(s: Seq<char>, c: char)
    requires
        !s.contains(c),
    ensures
        position(s, is_char(c)) == -1,
{
    assert forall|j: int| 0 <= j < s.len() implies !is_char(c)(#[trigger] s[j]) by {}
    lemma_position_is(s, is_char(c), s.len() as int);
}

/// A decimal or hexadecimal digit.
pub open spec fn is_digit_char(c: char, radix: nat) -> bool {
    ('0' <= c && c <= '9') || (radix == 16 && 'A' <= c && c <= 'F')
}

/// The digits of a number are digits.
proof fn lemma_hex_digit_value(d: nat, radix: nat)
    requires
        radix == 10 || radix == 16,
        d < radix,
    ensures
        digit_value(hex_digit(d), radix) == d,
        is_digit_char(hex_digit(d), radix),
{
}

/// Reading digits after a prefix of them is reading the whole.
proof fn lemma_scan_concat(acc: nat, a: Seq<char>, b: Seq<char>, radix: nat, max: nat)
    ensures
        scan_digits(acc, a + b, radix, max) == (match scan_digits(acc, a, radix, max) {
            Ok(x) => scan_digits(x, b, radix, max),
            Err(e) => Err(e),
        }),
    decreases a.len(),
{
    if a.len() == 0 {
        assert(a + b =~= b);
    } else {
        assert((a + b)[0] == a[0]);
        assert((a + b).drop_first() =~= a.drop_first() + b);
        let d = digit_value(a[0], radix);
        if d >= 0 && acc * radix + d <= max {
            lemma_scan_concat((acc * radix + d) as nat, a.drop_first(), b, radix, max);
        }
    }
}

/// The decimal digits of a number at most `max` read back as it.
pub proof fn lemma_scan_decimal(n: nat, max: nat)
    requires
        n <= max,
    ensures
        scan_digits(0, dec_chars(n), 10, max) == Ok::<nat, crate::scan::IntError>(n),
        dec_chars(n).len() > 0,
        forall|i: int| 0 <= i < dec_chars(n).len() ==> is_digit_char(#[trigger] dec_chars(n)[i], 10),
    decreases n,
{
    if n < 10 {
        lemma_hex_digit_value(n, 10);
        assert(seq![hex_digit(n)].drop_first() =~= Seq::<char>::empty());
        assert(scan_digits(n, Seq::<char>::empty(), 10, max) == Ok::<nat, crate::scan::IntError>(n));
    } else {
        lemma_scan_decimal(n / 10, max);
        lemma_hex_digit_value(n % 10, 10);
        lemma_scan_concat(0, dec_chars(n / 10), seq![hex_digit(n % 10)], 10, max);
        assert(dec_chars(n) == dec_chars(n / 10) + seq![hex_digit(n % 10)]);
        assert((n / 10) * 10 + n % 10 == n);
        assert(seq![hex_digit(n % 10)].drop_first() =~= Seq::<char>::empty());
        assert(scan_digits(n, Seq::<char>::empty(), 10, max) == Ok::<nat, crate::scan::IntError>(n));
    }
}

/// The hexadecimal digits of a number at most `max` read back as it.
pub proof fn lemma_scan_hex(n: nat, max: nat)
    requires
        n <= max,
    ensures
        scan_digits(0, hex_chars(n), 16, max) == Ok::<nat, crate::scan::IntError>(n),
        hex_chars(n).len() > 0,
        forall|i: int| 0 <= i < hex_chars(n).len() ==> is_digit_char(#[trigger] hex_chars(n)[i], 16),
    decreases n,
{
    if n < 16 {
        lemma_hex_digit_value(n, 16);
        assert(seq![hex_digit(n)].drop_first() =~= Seq::<char>::empty());
        assert(scan_digits(n, Seq::<char>::empty(), 16, max) == Ok::<nat, crate::scan::IntError>(n));
    } else {
        lemma_scan_hex(n / 16, max);
        lemma_hex_digit_value(n % 16, 16);
        lemma_scan_concat(0, hex_chars(n / 16), seq![hex_digit(n % 16)], 16, max);
        assert(hex_chars(n) == hex_chars(n / 16) + seq![hex_digit(n % 16)]);
        assert((n / 16) * 16 + n % 16 == n);
        assert(seq![hex_digit(n % 16)].drop_first() =~= Seq::<char>::empty());
        assert(scan_digits(n, Seq::<char>::empty(), 16, max) == Ok::<nat, crate::scan::IntError>(n));
    }
}

/// The decimal digits of a number at most `max` parse as it.
pub proof fn lemma_parse_decimal(n: nat, max: nat)
    requires
        n <= max,
    ensures
        parse_uint(dec_chars(n), 10, max) == Ok::<nat, crate::scan::IntError>(n),
{
    lemma_scan_decimal(n, max);
    assert(is_digit_char(dec_chars(n)[0], 10));
}

/// The hexadecimal digits of a number at most `max` parse as it.
pub proof fn lemma_parse_hex(n: nat, max: nat)
    requires
        n <= max,
    ensures
        parse_uint(hex_chars(n), 16, max) == Ok::<nat, crate::scan::IntError>(n),
{
    lemma_scan_hex(n, max);
    assert(is_digit_char(hex_chars(n)[0], 16));
}

/// A key of a config line: nonempty, without `=`, and without white space at either end.
pub open spec fn key_shaped(key: Seq<char>) -> bool {
    &&& key.len() > 0
    &&& !key.contains('=')
    &&& !is_space(key[0])
    &&& !is_space(key.last())
    &&& key[0] != '#'
}

/// The keys of the font options have the shape of keys, and the keys differ.
pub proof fn lemma_font_keys_shaped()
    ensures
        key_shaped("font-family-bold"@),
        key_shaped("font-family-italic"@),
        key_shaped("font-family-bold-italic"@),
        key_shaped("font-feature"@),
        key_shaped("font-codepoint-map"@),
        key_shaped("font-thicken"@),
        key_shaped("font-thicken-strength"@),
        "font-family-bold"@ != "font-family-italic"@,
        "font-family-bold"@ != "font-family-bold-italic"@,
        "font-family-bold"@ != "font-feature"@,
        "font-family-bold"@ != "font-codepoint-map"@,
        "font-family-bold"@ != "font-thicken"@,
        "font-family-bold"@ != "font-thicken-strength"@,
        "font-family-bold"@ != "config-file"@,
        "font-family-italic"@ != "font-family-bold-italic"@,
        "font-family-italic"@ != "font-feature"@,
        "font-family-italic"@ != "font-codepoint-map"@,
        "font-family-italic"@ != "font-thicken"@,
        "font-family-italic"@ != "font-thicken-strength"@,
        "font-family-italic"@ != "config-file"@,
        "font-family-bold-italic"@ != "font-feature"@,
        "font-family-bold-italic"@ != "font-codepoint-map"@,
        "font-family-bold-italic"@ != "font-thicken"@,
        "font-family-bold-italic"@ != "font-thicken-strength"@,
        "font-family-bold-italic"@ != "config-file"@,
        "font-feature"@ != "font-codepoint-map"@,
        "font-feature"@ != "font-thicken"@,
        "font-feature"@ != "font-thicken-strength"@,
        "font-feature"@ != "config-file"@,
        "font-codepoint-map"@ != "font-thicken"@,
        "font-codepoint-map"@ != "font-thicken-strength"@,
        "font-codepoint-map"@ != "config-file"@,
        "font-thicken"@ != "font-thicken-strength"@,
        "font-thicken"@ != "config-file"@,
        "font-thicken-strength"@ != "config-file"@,
{
    reveal_strlit("font-family-bold");
    reveal_strlit("font-family-italic");
    reveal_strlit("font-family-bold-italic");
    reveal_strlit("font-feature");
    reveal_strlit("font-codepoint-map");
    reveal_strlit("font-thicken");
    reveal_strlit("font-thicken-strength");
    reveal_strlit("config-file");
    assert("font-family-bold"@ =~= seq!['f', 'o', 'n', 't', '-', 'f', 'a', 'm', 'i', 'l', 'y', '-', 'b', 'o', 'l', 'd']);
    assert("font-family-italic"@ =~= seq!['f', 'o', 'n', 't', '-', 'f', 'a', 'm', 'i', 'l', 'y', '-', 'i', 't', 'a', 'l', 'i', 'c']);
    assert("font-family-bold-italic"@ =~= seq!['f', 'o', 'n', 't', '-', 'f', 'a', 'm', 'i', 'l', 'y', '-', 'b', 'o', 'l', 'd', '-', 'i', 't', 'a', 'l', 'i', 'c']);
    assert("font-feature"@ =~= seq!['f', 'o', 'n', 't', '-', 'f', 'e', 'a', 't', 'u', 'r', 'e']);
    assert("font-codepoint-map"@ =~= seq!['f', 'o', 'n', 't', '-', 'c', 'o', 'd', 'e', 'p', 'o', 'i', 'n', 't', '-', 'm', 'a', 'p']);
    assert("font-thicken"@ =~= seq!['f', 'o', 'n', 't', '-', 't', 'h', 'i', 'c', 'k', 'e', 'n']);
    assert("font-thicken-strength"@ =~= seq!['f', 'o', 'n', 't', '-', 't', 'h', 'i', 'c', 'k', 'e', 'n', '-', 's', 't', 'r', 'e', 'n', 'g', 't', 'h']);
    assert("config-file"@ =~= seq!['c', 'o', 'n', 'f', 'i', 'g', '-', 'f', 'i', 'l', 'e']);
    assert("font-family-bold"@.len() != "font-family-italic"@.len());
    assert("font-family-bold"@.len() != "font-family-bold-italic"@.len());
    assert("font-family-bold"@.len() != "font-feature"@.len());
    assert("font-family-bold"@.len() != "font-codepoint-map"@.len());
    assert("font-family-bold"@.len() != "font-thicken"@.len());
    assert("font-family-bold"@.len() != "font-thicken-strength"@.len());
    assert("font-family-bold"@.len() != "config-file"@.len());
    assert("font-family-italic"@.len() != "font-family-bold-italic"@.len());
    assert("font-family-italic"@.len() != "font-feature"@.len());
    assert("font-family-italic"@[5] != "font-codepoint-map"@[5]);
    assert("font-family-italic"@.len() != "font-thicken"@.len());
    assert("font-family-italic"@.len() != "font-thicken-strength"@.len());
    assert("font-family-italic"@.len() != "config-file"@.len());
    assert("font-family-bold-italic"@.len() != "font-feature"@.len());
    assert("font-family-bold-italic"@.len() != "font-codepoint-map"@.len());
    assert("font-family-bold-italic"@.len() != "font-thicken"@.len());
    assert("font-family-bold-italic"@.len() != "font-thicken-strength"@.len());
    assert("font-family-bold-italic"@.len() != "config-file"@.len());
    assert("font-feature"@.len() != "font-codepoint-map"@.len());
    assert("font-feature"@[5] != "font-thicken"@[5]);
    assert("font-feature"@.len() != "font-thicken-strength"@.len());
    assert("font-feature"@.len() != "config-file"@.len());
    assert("font-codepoint-map"@.len() != "font-thicken"@.len());
    assert("font-codepoint-map"@.len() != "font-thicken-strength"@.len());
    assert("font-codepoint-map"@.len() != "config-file"@.len());
    assert("font-thicken"@.len() != "font-thicken-strength"@.len());
    assert("font-thicken"@.len() != "config-file"@.len());
    assert("font-thicken-strength"@.len() != "config-file"@.len());
}

/// What a line `key =` followed by `tail` holds: the key, and the trimmed tail, unquoted
/// unless the key is `font-feature`.
pub open spec fn expected_entry(key: Seq<char>, tail: Seq<char>) -> Result<
    Option<(Seq<char>, Seq<char>, bool)>,
    (Seq<char>, Seq<char>),
> {
    if key == "font-feature"@ {
        Ok(Some((key, trim(tail), false)))
    } else {
        match unquoted(trim(tail)) {
            Some(u) => Ok(Some((key, u, false))),
            None => Err((Seq::empty(), Seq::empty())),
        }
    }
}

/// A line `key =` followed by nothing, or by a space and a value without white space at
/// either end, holds the entry of that key and value.
pub proof fn lemma_line_entry(key: Seq<char>, tail: Seq<char>, location: Seq<char>)
    requires
        key_shaped(key),
        crate::settings::supported(key),
        key != "config-file"@,
        tail.len() == 0 || (tail.len() > 1 && tail[0] == ' ' && !is_space(tail[1]) && !is_space(
            tail.last(),
        )),
        unquoted(trim(tail)) is Some,
    ensures
        line_entry(key + seq![' ', '='] + tail, location) == expected_entry(key, tail),
{
    let line = key + seq![' ', '='] + tail;
    assert(line[0] == key[0]);
    if tail.len() == 0 {
        assert(line.last() == '=');
    } else {
        assert(line.last() == tail.last());
    }
    lemma_trim_fixed(line);
    assert(!(key + seq![' ']).contains('=')) by {
        if (key + seq![' ']).contains('=') {
            let j = choose|j: int| 0 <= j < (key + seq![' ']).len() && (key + seq![' '])[j] == '=';
            assert(key[j] == '=');
        }
    }
    assert(line =~= (key + seq![' ']) + seq!['='] + tail);
    lemma_position_after(key + seq![' '], '=', tail);
    let i = key.len() + 1int;
    assert(line.take(i) =~= key + seq![' ']);
    lemma_trim_space_after(key);
    assert(line.skip(i + 1) =~= tail);
    if tail.len() > 0 {
        assert(tail =~= seq![' '] + tail.drop_first());
        lemma_trim_space_before(tail.drop_first());
    }
}

/// The keys of the family lists.
pub open spec fn family_key(key: Seq<char>) -> bool {
    key == "font-family-bold"@ || key == "font-family-italic"@ || key == "font-family-bold-italic"@
}

/// The font options with the family list of `key` set to `values`.
pub open spec fn with_families(f: FontState, key: Seq<char>, values: Seq<Seq<char>>) -> FontState {
    if key == "font-family-bold"@ {
        FontState { bold: values, ..f }
    } else if key == "font-family-italic"@ {
        FontState { italic: values, ..f }
    } else {
        FontState { bold_italic: values, ..f }
    }
}

/// The literals of the lines, as characters.
proof fn lemma_line_literals()
    ensures
        " ="@ == seq![' ', '='],
        " = \""@ == seq![' ', '=', ' ', '"'],
        "\""@ == seq!['"'],
{
    reveal_strlit(" =");
    reveal_strlit(" = \"");
    reveal_strlit("\"");
    assert(" ="@ =~= seq![' ', '=']);
    assert(" = \""@ =~= seq![' ', '=', ' ', '"']);
    assert("\""@ =~= seq!['"']);
}

/// The line of one family reads as appending it.
proof fn lemma_read_family_line(g: FontState, key: Seq<char>, v: Seq<char>, list: Seq<Seq<char>>, location: Seq<char>)
    requires
        family_key(key),
        v.len() > 0,
    ensures
        read_font_lines(with_families(g, key, list), seq![key + " = \""@ + v + "\""@], location)
            == Ok::<FontState, (Seq<char>, Seq<char>)>(with_families(g, key, list.push(v))),
{
    lemma_line_literals();
    lemma_font_keys_shaped();
    let tail = seq![' ', '"'] + v + seq!['"'];
    let line = key + " = \""@ + v + "\""@;
    assert(line =~= key + seq![' ', '='] + tail);
    assert(tail.last() == '"');
    crate::settings::lemma_quoted_value_reads_back(v);
    assert(tail.drop_first() =~= seq!['"'] + v + seq!['"']);
    lemma_trim_space_before(tail.drop_first());
    assert(tail =~= seq![' '] + tail.drop_first());
    lemma_line_entry(key, tail, location);
    assert(line_entry(line, location) == Ok::<Option<(Seq<char>, Seq<char>, bool)>, (Seq<char>, Seq<char>)>(Some((key, v, false))));
    let lines = seq![line];
    assert(lines[0] == line);
    assert(lines.drop_first() =~= Seq::<Seq<char>>::empty());
    let f = with_families(g, key, list);
    let next = font_read(f, key, v).0;
    assert(next == with_families(g, key, list.push(v)));
    assert(font_read(f, key, v).1 == Ok::<bool, (Seq<char>, Seq<char>)>(true));
    assert(read_font_lines(next, Seq::<Seq<char>>::empty(), location) == Ok::<FontState, (Seq<char>, Seq<char>)>(next));
}

/// The header line of a family list reads as clearing it.
proof fn lemma_read_family_header(g: FontState, key: Seq<char>, location: Seq<char>)
    requires
        family_key(key),
    ensures
        read_font_lines(g, seq![key + " ="@], location) == Ok::<FontState, (Seq<char>, Seq<char>)>(
            with_families(g, key, Seq::empty()),
        ),
{
    lemma_line_literals();
    lemma_font_keys_shaped();
    let line = key + " ="@;
    assert(line =~= key + seq![' ', '='] + Seq::<char>::empty());
    assert(trim(Seq::<char>::empty()) == Seq::<char>::empty());
    assert(unquoted(Seq::<char>::empty()) == Some(Seq::<char>::empty()));
    lemma_line_entry(key, Seq::<char>::empty(), location);
    assert(line_entry(line, location) == Ok::<Option<(Seq<char>, Seq<char>, bool)>, (Seq<char>, Seq<char>)>(Some((key, Seq::<char>::empty(), false))));
    let lines = seq![line];
    assert(lines[0] == line);
    assert(lines.drop_first() =~= Seq::<Seq<char>>::empty());
    let next = font_read(g, key, Seq::<char>::empty()).0;
    assert(next == with_families(g, key, Seq::empty()));
    assert(font_read(g, key, Seq::<char>::empty()).1 == Ok::<bool, (Seq<char>, Seq<char>)>(true));
    assert(read_font_lines(next, Seq::<Seq<char>>::empty(), location) == Ok::<FontState, (Seq<char>, Seq<char>)>(next));
}

/// The lines of a family list read back as the list, whatever held it before.
pub proof fn lemma_read_family_lines(g: FontState, key: Seq<char>, values: Seq<Seq<char>>, location: Seq<char>)
    requires
        family_key(key),
        forall|i: int| 0 <= i < values.len() ==> (#[trigger] values[i]).len() > 0,
    ensures
        read_font_lines(g, family_lines(key, values), location) == Ok::<FontState, (Seq<char>, Seq<char>)>(
            with_families(g, key, values),
        ),
    decreases values.len(),
{
    if values.len() == 0 {
        assert(family_lines(key, values) =~= seq![key + " ="@]);
        assert(values =~= Seq::<Seq<char>>::empty());
        lemma_read_family_header(g, key, location);
    } else {
        let init = values.drop_last();
        let v = values.last();
        assert forall|i: int| 0 <= i < init.len() implies (#[trigger] init[i]).len() > 0 by {
            assert(init[i] == values[i]);
        }
        lemma_read_family_lines(g, key, init, location);
        assert(family_lines(key, values) =~= family_lines(key, init) + seq![key + " = \""@ + v + "\""@]);
        lemma_read_concat(g, family_lines(key, init), seq![key + " = \""@ + v + "\""@], location);
        lemma_read_family_line(g, key, v, init, location);
        assert(init.push(v) =~= values);
    }
}

/// An ASCII letter or digit is none of the characters that the config syntax gives a meaning.
proof fn lemma_alnum_plain(c: char)
    requires
        is_alnum(c),
    ensures
        !is_space(c),
        c != '=' && c != ',' && c != '-' && c != '"' && c != '\'' && c != '#' && c != '+',
{
}

/// A digit is none of the characters that the config syntax gives a meaning.
proof fn lemma_digit_plain(c: char, radix: nat)
    requires
        is_digit_char(c, radix),
    ensures
        !is_space(c),
        c != '=' && c != ',' && c != '-' && c != '"' && c != '\'' && c != '#' && c != '+' && c != 'U',
{
}

/// A filter that keeps every element keeps the sequence.
proof fn lemma_filter_keeps_all(s: Seq<(Seq<char>, u32)>, p: spec_fn((Seq<char>, u32)) -> bool)
    requires
        forall|i: int| 0 <= i < s.len() ==> p(#[trigger] s[i]),
    ensures
        s.filter(p) == s,
    decreases s.len(),
{
    reveal(Seq::filter);
    if s.len() > 0 {
        assert forall|i: int| 0 <= i < s.drop_last().len() implies p(#[trigger] s.drop_last()[i]) by {
            assert(s.drop_last()[i] == s[i]);
        }
        lemma_filter_keeps_all(s.drop_last(), p);
        assert(s.drop_last().push(s.last()) =~= s);
    }
}

/// An OpenType tag followed by `=` and the decimal digits of a value is that feature.
proof fn lemma_feature_item(tag: Seq<char>, n: nat)
    requires
        is_tag(tag),
        n <= u32_max(),
    ensures
        feature_item(tag + seq!['='] + dec_chars(n)) == Ok::<(Seq<char>, u32), Seq<char>>((tag, n as u32)),
{
    let d = dec_chars(n);
    lemma_scan_decimal(n, u32_max());
    lemma_parse_decimal(n, u32_max());
    let t = tag + seq!['='] + d;
    assert forall|i: int| 0 <= i < 4 implies !is_space(#[trigger] tag[i]) && tag[i] != '=' && tag[i] != '"' && tag[i] != '\'' by {
        lemma_alnum_plain(tag[i]);
    }
    lemma_digit_plain(d.last(), 10);
    assert(t[0] == tag[0]);
    assert(t.last() == d.last());
    lemma_trim_fixed(t);
    assert(!tag.contains('=')) by {
        if tag.contains('=') {
            let j = choose|j: int| 0 <= j < tag.len() && tag[j] == '=';
            assert(tag[j] != '=');
        }
    }
    lemma_position_after(tag, '=', d);
    assert(t.skip(5) =~= d);
    lemma_digit_plain(d[0], 10);
    lemma_trim_fixed(d);
    assert(t.take(4) =~= tag);
    lemma_trim_fixed(tag);
    assert(strip_leading(tag, is_quote()) == tag);
    assert(strip_trailing(tag, is_quote()) == tag);
    assert(trim_quotes(tag) == tag);
}

/// A value without `,` is one item.
proof fn lemma_split_single(s: Seq<char>)
    requires
        !s.contains(','),
    ensures
        split(s, ',') == seq![s],
{
    lemma_position_none(s, ',');
}

/// The line of one feature reads as setting it.
proof fn lemma_read_feature_line(g: FontState, fs: Seq<(Seq<char>, u32)>, tag: Seq<char>, n: u32, location: Seq<char>)
    requires
        is_tag(tag),
    ensures
        read_font_lines(
            FontState { features: fs, ..g },
            seq!["font-feature = "@ + tag + "="@ + dec_chars(n as nat)],
            location,
        ) == Ok::<FontState, (Seq<char>, Seq<char>)>(FontState { features: set_feature(fs, tag, n), ..g }),
{
    lemma_font_keys_shaped();
    reveal_strlit("font-feature = ");
    reveal_strlit("font-feature");
    reveal_strlit("=");
    let key = "font-feature"@;
    let d = dec_chars(n as nat);
    lemma_scan_decimal(n as nat, u32_max());
    let value = tag + seq!['='] + d;
    let tail = seq![' '] + value;
    let line = "font-feature = "@ + tag + "="@ + d;
    assert("font-feature = "@ =~= key + seq![' ', '=', ' ']);
    assert("="@ =~= seq!['=']);
    assert(line =~= key + seq![' ', '='] + tail);
    assert forall|i: int| 0 <= i < 4 implies !is_space(#[trigger] tag[i]) && tag[i] != ',' && tag[i] != '"' by {
        lemma_alnum_plain(tag[i]);
    }
    lemma_digit_plain(d.last(), 10);
    assert(tail[1] == tag[0]);
    assert(tail.last() == d.last());
    assert(value[0] == tag[0]);
    assert(value.last() == d.last());
    lemma_trim_space_before(value);
    assert(tail.drop_first() =~= value);
    lemma_line_entry(key, tail, location);
    assert(line_entry(line, location) == Ok::<Option<(Seq<char>, Seq<char>, bool)>, (Seq<char>, Seq<char>)>(Some((key, value, false))));
    assert(!value.contains(',')) by {
        if value.contains(',') {
            let j = choose|j: int| 0 <= j < value.len() && value[j] == ',';
            if j < 4 {
                assert(value[j] == tag[j]);
            } else if j > 4 {
                assert(value[j] == d[j - 5]);
                lemma_digit_plain(d[j - 5], 10);
            }
        }
    }
    lemma_split_single(value);
    lemma_feature_item(tag, n as nat);
    let items = seq![value];
    assert(items[0] == value);
    assert(items.drop_first() =~= Seq::<Seq<char>>::empty());
    assert(apply_features(set_feature(fs, tag, n), Seq::<Seq<char>>::empty()) == (set_feature(fs, tag, n), None::<Seq<char>>));
    assert(apply_features(fs, split(value, ',')) == (set_feature(fs, tag, n), None::<Seq<char>>));
    let f = FontState { features: fs, ..g };
    let next = font_read(f, key, value).0;
    assert(next == FontState { features: set_feature(fs, tag, n), ..g });
    assert(font_read(f, key, value).1 == Ok::<bool, (Seq<char>, Seq<char>)>(true));
    let lines = seq![line];
    assert(lines[0] == line);
    assert(lines.drop_first() =~= Seq::<Seq<char>>::empty());
    assert(read_font_lines(next, Seq::<Seq<char>>::empty(), location) == Ok::<FontState, (Seq<char>, Seq<char>)>(next));
}

/// Features with valid tags, each named once.
pub open spec fn savable_features(fs: Seq<(Seq<char>, u32)>) -> bool {
    &&& forall|i: int| 0 <= i < fs.len() ==> is_tag(#[trigger] fs[i].0)
    &&& forall|i: int, j: int| 0 <= i < j < fs.len() ==> fs[i].0 != fs[j].0
}

/// The header line of a list of the font options reads as clearing it.
proof fn lemma_read_clearing_header(g: FontState, key: Seq<char>, location: Seq<char>)
    requires
        key == "font-feature"@ || key == "font-codepoint-map"@,
    ensures
        read_font_lines(g, seq![key + " ="@], location) == Ok::<FontState, (Seq<char>, Seq<char>)>(
            if key == "font-feature"@ {
                FontState { features: Seq::empty(), ..g }
            } else {
                FontState { codepoints: Seq::empty(), ..g }
            },
        ),
{
    lemma_line_literals();
    lemma_font_keys_shaped();
    let line = key + " ="@;
    assert(line =~= key + seq![' ', '='] + Seq::<char>::empty());
    assert(trim(Seq::<char>::empty()) == Seq::<char>::empty());
    assert(unquoted(Seq::<char>::empty()) == Some(Seq::<char>::empty()));
    lemma_line_entry(key, Seq::<char>::empty(), location);
    assert(line_entry(line, location) == Ok::<Option<(Seq<char>, Seq<char>, bool)>, (Seq<char>, Seq<char>)>(Some((key, Seq::<char>::empty(), false))));
    let lines = seq![line];
    assert(lines[0] == line);
    assert(lines.drop_first() =~= Seq::<Seq<char>>::empty());
    let next = font_read(g, key, Seq::<char>::empty()).0;
    assert(font_read(g, key, Seq::<char>::empty()).1 == Ok::<bool, (Seq<char>, Seq<char>)>(true));
    assert(read_font_lines(next, Seq::<Seq<char>>::empty(), location) == Ok::<FontState, (Seq<char>, Seq<char>)>(next));
}

/// The lines of the features read back as them, whatever features there were before.
pub proof fn lemma_read_feature_lines(g: FontState, fs: Seq<(Seq<char>, u32)>, location: Seq<char>)
    requires
        savable_features(fs),
    ensures
        read_font_lines(g, feature_lines(fs), location) == Ok::<FontState, (Seq<char>, Seq<char>)>(
            FontState { features: fs, ..g },
        ),
    decreases fs.len(),
{
    if fs.len() == 0 {
        assert(feature_lines(fs) =~= seq!["font-feature"@ + " ="@]) by {
            reveal_strlit("font-feature =");
            reveal_strlit("font-feature");
            reveal_strlit(" =");
            assert("font-feature ="@ =~= "font-feature"@ + " ="@);
        }
        assert(fs =~= Seq::<(Seq<char>, u32)>::empty());
        lemma_read_clearing_header(g, "font-feature"@, location);
    } else {
        let init = fs.drop_last();
        let last = fs.last();
        assert forall|i: int| 0 <= i < init.len() implies is_tag(#[trigger] init[i].0) by {
            assert(init[i] == fs[i]);
        }
        assert forall|i: int, j: int| 0 <= i < j < init.len() implies init[i].0 != init[j].0 by {
            assert(init[i] == fs[i] && init[j] == fs[j]);
        }
        lemma_read_feature_lines(g, init, location);
        let line = "font-feature = "@ + last.0 + "="@ + dec_chars(last.1 as nat);
        assert(feature_lines(fs) =~= feature_lines(init) + seq![line]);
        lemma_read_concat(g, feature_lines(init), seq![line], location);
        assert(is_tag(fs[fs.len() - 1].0));
        lemma_read_feature_line(g, init, last.0, last.1, location);
        assert forall|i: int| 0 <= i < init.len() implies other_than(last.0)(#[trigger] init[i]) by {
            assert(init[i] == fs[i]);
            assert(fs[i].0 != fs[fs.len() - 1].0);
        }
        lemma_filter_keeps_all(init, other_than(last.0));
        assert(init.push(last) =~= fs);
    }
}

/// A code point map that a save can write: an ordered range of Unicode code points, drawn
/// by a nonempty family without white space at either end.
pub open spec fn savable_map(m: (u32, u32, Seq<char>)) -> bool {
    &&& m.0 <= m.1 <= 0x10ffff
    &&& m.2.len() > 0
    &&& !is_space(m.2[0])
    &&& !is_space(m.2.last())
}

/// A code point written as `U+` and its hexadecimal digits reads back as it.
proof fn lemma_code_point(n: nat)
    requires
        n <= u32_max(),
    ensures
        code_point(seq!['U', '+'] + hex_chars(n)) == Ok::<nat, crate::scan::IntError>(n),
{
    let h = hex_chars(n);
    lemma_scan_hex(n, u32_max());
    lemma_parse_hex(n, u32_max());
    let a = seq!['U', '+'] + h;
    lemma_digit_plain(h.last(), 16);
    lemma_digit_plain(h[0], 16);
    assert(a.last() == h.last());
    lemma_trim_fixed(a);
    assert(a.skip(2) =~= h);
    assert(strip_u_plus(h) == h);
    assert(strip_u_plus(a) == strip_u_plus(h));
}

/// A range written `U+start-U+end` reads back as it.
proof fn lemma_range_item(start: u32, end: u32)
    requires
        start <= end <= 0x10ffff,
    ensures
        range_item(seq!['U', '+'] + hex_chars(start as nat) + seq!['-', 'U', '+'] + hex_chars(end as nat))
            == Ok::<(u32, u32), Seq<char>>((start, end)),
{
    let hs = hex_chars(start as nat);
    let he = hex_chars(end as nat);
    lemma_scan_hex(start as nat, u32_max());
    lemma_scan_hex(end as nat, u32_max());
    let prefix = seq!['U', '+'] + hs;
    let r = prefix + seq!['-'] + (seq!['U', '+'] + he);
    assert(r =~= seq!['U', '+'] + hs + seq!['-', 'U', '+'] + he);
    lemma_digit_plain(he.last(), 16);
    assert(r.last() == he.last());
    lemma_trim_fixed(r);
    assert(!prefix.contains('-')) by {
        if prefix.contains('-') {
            let j = choose|j: int| 0 <= j < prefix.len() && prefix[j] == '-';
            if j >= 2 {
                assert(prefix[j] == hs[j - 2]);
                lemma_digit_plain(hs[j - 2], 16);
            }
        }
    }
    lemma_position_after(prefix, '-', seq!['U', '+'] + he);
    assert(r.take(prefix.len() as int) =~= prefix);
    assert(r.skip(prefix.len() + 1int) =~= seq!['U', '+'] + he);
    lemma_code_point(start as nat);
    lemma_code_point(end as nat);
}

/// The line of one code point map reads as appending it.
proof fn lemma_read_map_line(g: FontState, maps: Seq<(u32, u32, Seq<char>)>, m: (u32, u32, Seq<char>), location: Seq<char>)
    requires
        savable_map(m),
    ensures
        read_font_lines(
            FontState { codepoints: maps, ..g },
            seq![
                "font-codepoint-map = U+"@ + hex_chars(m.0 as nat) + "-U+"@ + hex_chars(m.1 as nat)
                    + "="@ + m.2,
            ],
            location,
        ) == Ok::<FontState, (Seq<char>, Seq<char>)>(FontState { codepoints: maps.push(m), ..g }),
{
    lemma_font_keys_shaped();
    reveal_strlit("font-codepoint-map = U+");
    reveal_strlit("font-codepoint-map");
    reveal_strlit("-U+");
    reveal_strlit("=");
    let key = "font-codepoint-map"@;
    let hs = hex_chars(m.0 as nat);
    let he = hex_chars(m.1 as nat);
    lemma_scan_hex(m.0 as nat, u32_max());
    lemma_scan_hex(m.1 as nat, u32_max());
    let ranges = seq!['U', '+'] + hs + seq!['-', 'U', '+'] + he;
    let value = ranges + seq!['='] + m.2;
    let tail = seq![' '] + value;
    let line = "font-codepoint-map = U+"@ + hs + "-U+"@ + he + "="@ + m.2;
    assert("font-codepoint-map = U+"@ =~= key + seq![' ', '=', ' ', 'U', '+']);
    assert("-U+"@ =~= seq!['-', 'U', '+']);
    assert("="@ =~= seq!['=']);
    assert(line =~= key + seq![' ', '='] + tail);
    assert(tail[1] == 'U');
    assert(tail.last() == m.2.last());
    assert(value[0] == 'U');
    assert(value.last() == m.2.last());
    lemma_trim_space_before(value);
    assert(tail.drop_first() =~= value);
    assert(unquoted(value) == Some(value));
    lemma_line_entry(key, tail, location);
    assert(line_entry(line, location) == Ok::<Option<(Seq<char>, Seq<char>, bool)>, (Seq<char>, Seq<char>)>(Some((key, value, false))));
    assert(!ranges.contains('=') && !ranges.contains(',')) by {
        if ranges.contains('=') || ranges.contains(',') {
            let j = choose|j: int| 0 <= j < ranges.len() && (ranges[j] == '=' || ranges[j] == ',');
            if 2 <= j < 2 + hs.len() {
                assert(ranges[j] == hs[j - 2]);
                lemma_digit_plain(hs[j - 2], 16);
            } else if j >= 5 + hs.len() {
                assert(ranges[j] == he[j - 5 - hs.len()]);
                lemma_digit_plain(he[j - 5 - hs.len()], 16);
            }
        }
    }
    lemma_position_after(ranges, '=', m.2);
    assert(value.take(ranges.len() as int) =~= ranges);
    assert(value.skip(ranges.len() + 1int) =~= m.2);
    lemma_trim_fixed(m.2);
    lemma_split_single(ranges);
    lemma_range_item(m.0, m.1);
    let items = seq![ranges];
    assert(items[0] == ranges);
    assert(items.drop_first() =~= Seq::<Seq<char>>::empty());
    assert(apply_ranges(maps.push((m.0, m.1, m.2)), Seq::<Seq<char>>::empty(), m.2) == (maps.push((m.0, m.1, m.2)), None::<Seq<char>>));
    assert(codepoint_map(maps, value) == (maps.push(m), None::<Seq<char>>));
    let f = FontState { codepoints: maps, ..g };
    let next = font_read(f, key, value).0;
    assert(next == FontState { codepoints: maps.push(m), ..g });
    assert(font_read(f, key, value).1 == Ok::<bool, (Seq<char>, Seq<char>)>(true));
    let lines = seq![line];
    assert(lines[0] == line);
    assert(lines.drop_first() =~= Seq::<Seq<char>>::empty());
    assert(read_font_lines(next, Seq::<Seq<char>>::empty(), location) == Ok::<FontState, (Seq<char>, Seq<char>)>(next));
}

/// The lines of the code point maps read back as them, whatever maps there were before.
pub proof fn lemma_read_map_lines(g: FontState, ms: Seq<(u32, u32, Seq<char>)>, location: Seq<char>)
    requires
        forall|i: int| 0 <= i < ms.len() ==> savable_map(#[trigger] ms[i]),
    ensures
        read_font_lines(g, map_lines(ms), location) == Ok::<FontState, (Seq<char>, Seq<char>)>(
            FontState { codepoints: ms, ..g },
        ),
    decreases ms.len(),
{
    if ms.len() == 0 {
        assert(map_lines(ms) =~= seq!["font-codepoint-map"@ + " ="@]) by {
            reveal_strlit("font-codepoint-map =");
            reveal_strlit("font-codepoint-map");
            reveal_strlit(" =");
            assert("font-codepoint-map ="@ =~= "font-codepoint-map"@ + " ="@);
        }
        assert(ms =~= Seq::<(u32, u32, Seq<char>)>::empty());
        lemma_font_keys_shaped();
        lemma_read_clearing_header(g, "font-codepoint-map"@, location);
    } else {
        let init = ms.drop_last();
        let last = ms.last();
        assert forall|i: int| 0 <= i < init.len() implies savable_map(#[trigger] init[i]) by {
            assert(init[i] == ms[i]);
        }
        lemma_read_map_lines(g, init, location);
        let line = "font-codepoint-map = U+"@ + hex_chars(last.0 as nat) + "-U+"@ + hex_chars(
            last.1 as nat,
        ) + "="@ + last.2;
        assert(map_lines(ms) =~= map_lines(init) + seq![line]);
        lemma_read_concat(g, map_lines(init), seq![line], location);
        assert(savable_map(ms[ms.len() - 1]));
        lemma_read_map_line(g, init, last, location);
        assert(init.push(last) =~= ms);
    }
}

/// The line of the thickening reads as it.
proof fn lemma_read_thicken_line(g: FontState, b: bool, location: Seq<char>)
    ensures
        read_font_lines(g, seq!["font-thicken = "@ + bool_chars(b)], location) == Ok::<
            FontState,
            (Seq<char>, Seq<char>),
        >(FontState { thicken: b, ..g }),
{
    lemma_font_keys_shaped();
    reveal_strlit("font-thicken = ");
    reveal_strlit("font-thicken");
    reveal_strlit("true");
    reveal_strlit("false");
    let key = "font-thicken"@;
    let value = bool_chars(b);
    assert("true"@ =~= seq!['t', 'r', 'u', 'e']);
    assert("false"@ =~= seq!['f', 'a', 'l', 's', 'e']);
    let tail = seq![' '] + value;
    let line = "font-thicken = "@ + value;
    assert("font-thicken = "@ =~= key + seq![' ', '=', ' ']);
    assert(line =~= key + seq![' ', '='] + tail);
    assert(tail.drop_first() =~= value);
    lemma_trim_space_before(value);
    assert(unquoted(value) == Some(value));
    lemma_line_entry(key, tail, location);
    assert(line_entry(line, location) == Ok::<Option<(Seq<char>, Seq<char>, bool)>, (Seq<char>, Seq<char>)>(Some((key, value, false))));
    assert(crate::scan::parse_bool(value) == Some(b));
    let next = font_read(g, key, value).0;
    assert(next == FontState { thicken: b, ..g });
    assert(font_read(g, key, value).1 == Ok::<bool, (Seq<char>, Seq<char>)>(true));
    let lines = seq![line];
    assert(lines[0] == line);
    assert(lines.drop_first() =~= Seq::<Seq<char>>::empty());
    assert(read_font_lines(next, Seq::<Seq<char>>::empty(), location) == Ok::<FontState, (Seq<char>, Seq<char>)>(next));
}

/// The line of the thickening strength reads as it.
proof fn lemma_read_strength_line(g: FontState, n: u8, location: Seq<char>)
    ensures
        read_font_lines(g, seq!["font-thicken-strength = "@ + dec_chars(n as nat)], location) == Ok::<
            FontState,
            (Seq<char>, Seq<char>),
        >(FontState { thicken_strength: n, ..g }),
{
    lemma_font_keys_shaped();
    reveal_strlit("font-thicken-strength = ");
    reveal_strlit("font-thicken-strength");
    let key = "font-thicken-strength"@;
    let value = dec_chars(n as nat);
    lemma_scan_decimal(n as nat, 255);
    lemma_parse_decimal(n as nat, 255);
    lemma_digit_plain(value[0], 10);
    lemma_digit_plain(value.last(), 10);
    let tail = seq![' '] + value;
    let line = "font-thicken-strength = "@ + value;
    assert("font-thicken-strength = "@ =~= key + seq![' ', '=', ' ']);
    assert(line =~= key + seq![' ', '='] + tail);
    assert(tail.drop_first() =~= value);
    assert(tail[1] == value[0]);
    assert(tail.last() == value.last());
    lemma_trim_space_before(value);
    assert(unquoted(value) == Some(value));
    lemma_line_entry(key, tail, location);
    assert(line_entry(line, location) == Ok::<Option<(Seq<char>, Seq<char>, bool)>, (Seq<char>, Seq<char>)>(Some((key, value, false))));
    let next = font_read(g, key, value).0;
    assert(next == FontState { thicken_strength: n, ..g });
    assert(font_read(g, key, value).1 == Ok::<bool, (Seq<char>, Seq<char>)>(true));
    let lines = seq![line];
    assert(lines[0] == line);
    assert(lines.drop_first() =~= Seq::<Seq<char>>::empty());
    assert(read_font_lines(next, Seq::<Seq<char>>::empty(), location) == Ok::<FontState, (Seq<char>, Seq<char>)>(next));
}

/// Font options that a save can write: nonempty family names, valid and distinct features,
/// and code point maps as `savable_map` says.
pub open spec fn savable_font(f: FontState) -> bool {
    &&& forall|i: int| 0 <= i < f.bold.len() ==> (#[trigger] f.bold[i]).len() > 0
    &&& forall|i: int| 0 <= i < f.italic.len() ==> (#[trigger] f.italic[i]).len() > 0
    &&& forall|i: int| 0 <= i < f.bold_italic.len() ==> (#[trigger] f.bold_italic[i]).len() > 0
    &&& savable_features(f.features)
    &&& forall|i: int| 0 <= i < f.codepoints.len() ==> savable_map(#[trigger] f.codepoints[i])
}

/// What a save writes for font options reads back as those options: the lines that state
/// savable font options, read in order, give those options, whatever options held before.
pub proof fn lemma_font_lines_read_back(g: FontState, f: FontState, location: Seq<char>)
    requires
        savable_font(f),
    ensures
        read_font_lines(g, font_lines(f), location) == Ok::<FontState, (Seq<char>, Seq<char>)>(f),
{
    lemma_font_keys_shaped();
    let bold = "font-family-bold"@;
    let italic = "font-family-italic"@;
    let bold_italic = "font-family-bold-italic"@;
    let a = family_lines(bold, f.bold);
    let b = family_lines(italic, f.italic);
    let c = family_lines(bold_italic, f.bold_italic);
    let d = feature_lines(f.features);
    let e = map_lines(f.codepoints);
    let t = seq![
        "font-thicken = "@ + bool_chars(f.thicken),
        "font-thicken-strength = "@ + dec_chars(f.thicken_strength as nat),
    ];
    assert(font_lines(f) == a + b + c + d + e + t);
    let s1 = with_families(g, bold, f.bold);
    let s2 = with_families(s1, italic, f.italic);
    let s3 = with_families(s2, bold_italic, f.bold_italic);
    let s4 = FontState { features: f.features, ..s3 };
    let s5 = FontState { codepoints: f.codepoints, ..s4 };
    let s6 = FontState { thicken: f.thicken, ..s5 };
    let s7 = FontState { thicken_strength: f.thicken_strength, ..s6 };
    lemma_read_family_lines(g, bold, f.bold, location);
    lemma_read_family_lines(s1, italic, f.italic, location);
    lemma_read_family_lines(s2, bold_italic, f.bold_italic, location);
    lemma_read_feature_lines(s3, f.features, location);
    lemma_read_map_lines(s4, f.codepoints, location);
    lemma_read_thicken_line(s5, f.thicken, location);
    lemma_read_strength_line(s6, f.thicken_strength, location);
    let t1 = seq!["font-thicken = "@ + bool_chars(f.thicken)];
    let t2 = seq!["font-thicken-strength = "@ + dec_chars(f.thicken_strength as nat)];
    assert(t =~= t1 + t2);
    lemma_read_concat(s5, t1, t2, location);
    lemma_read_concat(s4, e, t, location);
    lemma_read_concat(s3, d, e + t, location);
    lemma_read_concat(s2, c, d + (e + t), location);
    lemma_read_concat(s1, b, c + (d + (e + t)), location);
    lemma_read_concat(g, a, b + (c + (d + (e + t))), location);
    assert(a + b + c + d + e + t =~= a + (b + (c + (d + (e + t)))));
    assert(s7 == f);
}

/// What `trim_end` leaves is a prefix, without white space at its end.
proof fn lemma_trim_end_prefix(s: Seq<char>)
    ensures
        trim_end(s).len() <= s.len(),
        trim_end(s) == s.take(trim_end(s).len() as int),
        trim_end(s).len() > 0 ==> !is_space(trim_end(s).last()),
    decreases s.len(),
{
    if s.len() > 0 && is_space(s.last()) {
        lemma_trim_end_prefix(s.drop_last());
        let r = trim_end(s.drop_last());
        assert(s.drop_last().take(r.len() as int) =~= s.take(r.len() as int));
    } else {
        assert(s.take(s.len() as int) =~= s);
    }
}

/// What `trim_start` leaves does not start with white space.
proof fn lemma_trim_start_clean(s: Seq<char>)
    ensures
        trim_start(s).len() > 0 ==> !is_space(trim_start(s)[0]),
    decreases s.len(),
{
    if s.len() > 0 && is_space(s[0]) {
        lemma_trim_start_clean(s.drop_first());
    }
}

/// What `trim` leaves has no white space at either end.
pub proof fn lemma_trim_clean(s: Seq<char>)
    ensures
        trim(s).len() > 0 ==> !is_space(trim(s)[0]) && !is_space(trim(s).last()),
{
    lemma_trim_start_clean(s);
    lemma_trim_end_prefix(trim_start(s));
    if trim(s).len() > 0 {
        assert(trim(s)[0] == trim_start(s)[0]);
    }
}

/// Setting a feature keeps the features savable.
proof fn lemma_set_feature_savable(fs: Seq<(Seq<char>, u32)>, name: Seq<char>, value: u32)
    requires
        savable_features(fs),
        is_tag(name),
    ensures
        savable_features(set_feature(fs, name, value)),
    decreases fs.len(),
{
    let kept = fs.filter(other_than(name));
    lemma_filter_savable(fs, name);
    let r = kept.push((name, value));
    assert forall|i: int| 0 <= i < r.len() implies is_tag(#[trigger] r[i].0) by {
        if i < kept.len() {
            assert(r[i] == kept[i]);
        }
    }
    assert forall|i: int, j: int| 0 <= i < j < r.len() implies r[i].0 != r[j].0 by {
        assert(r[i] == kept[i]);
        if j == kept.len() {
            assert(r[j].0 == name);
        } else {
            assert(r[j] == kept[j]);
        }
    }
}

/// Filtering out a name keeps the features savable, and none of them has that name.
proof fn lemma_filter_savable(fs: Seq<(Seq<char>, u32)>, name: Seq<char>)
    requires
        savable_features(fs),
    ensures
        savable_features(fs.filter(other_than(name))),
        forall|i: int|
            0 <= i < fs.filter(other_than(name)).len() ==> (#[trigger] fs.filter(other_than(name))[i]).0
                != name,
        forall|i: int|
            0 <= i < fs.filter(other_than(name)).len() ==> fs.contains(
                #[trigger] fs.filter(other_than(name))[i],
            ),
    decreases fs.len(),
{
    reveal(Seq::filter);
    if fs.len() > 0 {
        let init = fs.drop_last();
        assert forall|i: int| 0 <= i < init.len() implies is_tag(#[trigger] init[i].0) by {
            assert(init[i] == fs[i]);
        }
        assert forall|i: int, j: int| 0 <= i < j < init.len() implies init[i].0 != init[j].0 by {
            assert(init[i] == fs[i] && init[j] == fs[j]);
        }
        lemma_filter_savable(init, name);
        let k = init.filter(other_than(name));
        assert forall|i: int| 0 <= i < k.len() implies fs.contains(#[trigger] k[i]) by {
            assert(init.contains(k[i]));
            let j = choose|j: int| 0 <= j < init.len() && init[j] == k[i];
            assert(fs[j] == k[i]);
        }
        if other_than(name)(fs.last()) {
            let r = k.push(fs.last());
            assert(fs.filter(other_than(name)) == r);
            assert forall|i: int| 0 <= i < r.len() implies fs.contains(#[trigger] r[i]) by {
                if i == k.len() {
                    assert(fs[fs.len() - 1] == r[i]);
                }
            }
            assert forall|i: int, j: int| 0 <= i < j < r.len() implies r[i].0 != r[j].0 by {
                if j == k.len() {
                    assert(r[i] == k[i]);
                    assert(init.contains(k[i]));
                    let m = choose|m: int| 0 <= m < init.len() && init[m] == k[i];
                    assert(fs[m] == k[i]);
                    assert(fs[m].0 != fs[fs.len() - 1].0);
                } else {
                    assert(r[i] == k[i] && r[j] == k[j]);
                }
            }
            assert forall|i: int| 0 <= i < r.len() implies is_tag(#[trigger] r[i].0) by {
                if i == k.len() {
                    assert(r[i] == fs[fs.len() - 1]);
                } else {
                    assert(r[i] == k[i]);
                }
            }
        }
    }
}

/// Reading feature items keeps the features savable.
proof fn lemma_apply_features_savable(fs: Seq<(Seq<char>, u32)>, items: Seq<Seq<char>>)
    requires
        savable_features(fs),
    ensures
        savable_features(apply_features(fs, items).0),
    decreases items.len(),
{
    if items.len() > 0 {
        if let Ok(f) = feature_item(items[0]) {
            lemma_set_feature_savable(fs, f.0, f.1);
            lemma_apply_features_savable(set_feature(fs, f.0, f.1), items.drop_first());
        }
    }
}

/// Reading ranges keeps the code point maps savable.
proof fn lemma_apply_ranges_savable(maps: Seq<(u32, u32, Seq<char>)>, items: Seq<Seq<char>>, family: Seq<char>)
    requires
        forall|i: int| 0 <= i < maps.len() ==> savable_map(#[trigger] maps[i]),
        family.len() > 0,
        !is_space(family[0]),
        !is_space(family.last()),
    ensures
        forall|i: int|
            0 <= i < apply_ranges(maps, items, family).0.len() ==> savable_map(
                #[trigger] apply_ranges(maps, items, family).0[i],
            ),
    decreases items.len(),
{
    if items.len() > 0 {
        if let Ok(r) = range_item(items[0]) {
            assert(r.0 <= r.1 <= 0x10ffff);
            let next = maps.push((r.0, r.1, family));
            assert(apply_ranges(maps, items, family) == apply_ranges(next, items.drop_first(), family));
            assert forall|i: int| 0 <= i < next.len() implies savable_map(#[trigger] next[i]) by {
                if i < maps.len() {
                    assert(next[i] == maps[i]);
                }
            }
            lemma_apply_ranges_savable(next, items.drop_first(), family);
        }
    }
}

/// The default font options are savable.
pub proof fn lemma_default_font_savable()
    ensures
        savable_font(crate::fonts::default_font()),
{
}

/// Reading an entry keeps font options savable, whatever the entry and whether it reads: so
/// the font options the config file gives, read from the defaults, are always savable, and
/// `lemma_font_lines_read_back` holds of them.
pub proof fn lemma_reading_keeps_font_savable(f: FontState, key: Seq<char>, value: Seq<char>)
    requires
        savable_font(f),
    ensures
        savable_font(font_read(f, key, value).0),
{
    let r = font_read(f, key, value).0;
    if key == "font-feature"@ && value.len() > 0 {
        lemma_apply_features_savable(f.features, split(value, ','));
    } else if key == "font-codepoint-map"@ && value.len() > 0 && !(key == "font-family-bold"@
        || key == "font-family-italic"@ || key == "font-family-bold-italic"@) {
        let i = position(value, is_char('='));
        if i >= 0 {
            let family = trim(value.skip(i + 1));
            lemma_trim_clean(value.skip(i + 1));
            if family.len() > 0 {
                lemma_apply_ranges_savable(f.codepoints, split(value.take(i), ','), family);
            }
        }
    }
    assert forall|i: int| 0 <= i < r.bold.len() implies (#[trigger] r.bold[i]).len() > 0 by {
        if i < f.bold.len() {
            assert(r.bold[i] == f.bold[i] || r.bold == f.bold);
        }
    }
    assert forall|i: int| 0 <= i < r.italic.len() implies (#[trigger] r.italic[i]).len() > 0 by {
        if i < f.italic.len() {
            assert(r.italic[i] == f.italic[i] || r.italic == f.italic);
        }
    }
    assert forall|i: int| 0 <= i < r.bold_italic.len() implies (#[trigger] r.bold_italic[i]).len()
        > 0 by {
        if i < f.bold_italic.len() {
            assert(r.bold_italic[i] == f.bold_italic[i] || r.bold_italic == f.bold_italic);
        }
    }
}

/// No two features share a tag.
pub open spec fn distinct_tags(fs: Seq<(Seq<char>, u32)>) -> bool {
    forall|i: int, j: int| 0 <= i < j < fs.len() ==> fs[i].0 != fs[j].0
}

/// Filtering out a name keeps the tags distinct, keeps only features of `fs`, and leaves
/// none with that name.
proof fn lemma_filter_distinct(fs: Seq<(Seq<char>, u32)>, name: Seq<char>)
    requires
        distinct_tags(fs),
    ensures
        distinct_tags(fs.filter(other_than(name))),
        forall|i: int|
            0 <= i < fs.filter(other_than(name)).len() ==> (#[trigger] fs.filter(other_than(name))[i]).0
                != name && fs.contains(fs.filter(other_than(name))[i]),
    decreases fs.len(),
{
    reveal(Seq::filter);
    if fs.len() > 0 {
        let init = fs.drop_last();
        assert forall|i: int, j: int| 0 <= i < j < init.len() implies init[i].0 != init[j].0 by {
            assert(init[i] == fs[i] && init[j] == fs[j]);
        }
        lemma_filter_distinct(init, name);
        let k = init.filter(other_than(name));
        assert forall|i: int| 0 <= i < k.len() implies fs.contains(#[trigger] k[i]) by {
            let j = choose|j: int| 0 <= j < init.len() && init[j] == k[i];
            assert(fs[j] == k[i]);
        }
        if other_than(name)(fs.last()) {
            let r = k.push(fs.last());
            assert(fs.filter(other_than(name)) == r);
            assert forall|i: int| 0 <= i < r.len() implies r[i].0 != name && fs.contains(#[trigger] r[i]) by {
                if i == k.len() {
                    assert(fs[fs.len() - 1] == r[i]);
                } else {
                    assert(r[i] == k[i]);
                }
            }
            assert forall|i: int, j: int| 0 <= i < j < r.len() implies r[i].0 != r[j].0 by {
                if j == k.len() {
                    assert(r[i] == k[i]);
                    let m = choose|m: int| 0 <= m < init.len() && init[m] == k[i];
                    assert(fs[m] == k[i]);
                    assert(fs[m].0 != fs[fs.len() - 1].0);
                } else {
                    assert(r[i] == k[i] && r[j] == k[j]);
                }
            }
        }
    }
}

/// Setting a feature keeps the tags distinct: the tag comes last with its value, after the
/// other features, which keep their order.
pub proof fn lemma_set_feature_distinct(fs: Seq<(Seq<char>, u32)>, name: Seq<char>, value: u32)
    requires
        distinct_tags(fs),
    ensures
        distinct_tags(set_feature(fs, name, value)),
{
    let kept = fs.filter(other_than(name));
    lemma_filter_distinct(fs, name);
    let r = kept.push((name, value));
    assert forall|i: int, j: int| 0 <= i < j < r.len() implies r[i].0 != r[j].0 by {
        assert(r[i] == kept[i]);
        if j < kept.len() {
            assert(r[j] == kept[j]);
        }
    }
}

/// Reading feature items keeps the tags distinct.
proof fn lemma_apply_features_distinct(fs: Seq<(Seq<char>, u32)>, items: Seq<Seq<char>>)
    requires
        distinct_tags(fs),
    ensures
        distinct_tags(apply_features(fs, items).0),
    decreases items.len(),
{
    if items.len() > 0 {
        if let Ok(f) = feature_item(items[0]) {
            lemma_set_feature_distinct(fs, f.0, f.1);
            lemma_apply_features_distinct(set_feature(fs, f.0, f.1), items.drop_first());
        }
    }
}

/// Reading any entry keeps the feature tags distinct: a feature named again replaces its
/// earlier setting, which leaves, and comes last with its new value.
pub proof fn lemma_feature_tags_stay_distinct(f: FontState, key: Seq<char>, value: Seq<char>)
    requires
        distinct_tags(f.features),
    ensures
        distinct_tags(font_read(f, key, value).0.features),
        forall|name: Seq<char>, v: u32|
            #![trigger set_feature(f.features, name, v)]
            set_feature(f.features, name, v).last() == (name, v) && set_feature(f.features, name, v).drop_last()
                == f.features.filter(other_than(name)),
{
    if key == "font-feature"@ && value.len() > 0 {
        lemma_apply_features_distinct(f.features, split(value, ','));
    }
    assert forall|name: Seq<char>, v: u32|
        #![trigger set_feature(f.features, name, v)]
        set_feature(f.features, name, v).last() == (name, v) && set_feature(f.features, name, v).drop_last()
            == f.features.filter(other_than(name)) by {
        assert(f.features.filter(other_than(name)).push((name, v)).drop_last() =~= f.features.filter(
            other_than(name),
        ));
    }
}

/// Lines that are blank, comments, or of keys the settings do not read give no entry; and
/// adding or removing such a line anywhere in a config file leaves what reading it gives
/// unchanged.
pub proof fn lemma_other_lines_do_not_change_a_read(
    f: FontState,
    a: Seq<Seq<char>>,
    x: Seq<char>,
    b: Seq<Seq<char>>,
    location: Seq<char>,
)
    requires
        trim(x).len() == 0 || trim(x)[0] == '#' || !crate::settings::supported(
            crate::settings::line_key(x),
        ),
    ensures
        line_entry(x, location) == Ok::<Option<(Seq<char>, Seq<char>, bool)>, (Seq<char>, Seq<char>)>(None),
        read_font_lines(f, a + seq![x] + b, location) == read_font_lines(f, a + b, location),
{
    lemma_read_concat(f, a, seq![x] + b, location);
    lemma_read_concat(f, a, b, location);
    assert(a + seq![x] + b =~= a + (seq![x] + b));
    assert((seq![x] + b)[0] == x);
    assert((seq![x] + b).drop_first() =~= b);
}

} // verus!
