//! Saving the font families and reading them back.

use vstd::prelude::*;

use crate::font_lines::{expected_entry, key_shaped, lemma_line_entry, lemma_trim_space_before};
use crate::fonts::FontState;
use crate::scan::{is_space, trim};
use crate::settings::{entry_effect, line_entry, saved_families, supported, unquoted, EntryEffect};

verus! {

/// The font options and families after the lines of a config file, in order, each supported
/// entry applied as `entry_effect` says; the first error ends the reading.
pub open spec fn read_entries(
    font: FontState,
    families: Seq<Seq<char>>,
    lines: Seq<Seq<char>>,
    location: Seq<char>,
) -> Result<(FontState, Seq<Seq<char>>), (Seq<char>, Seq<char>)>
    decreases lines.len(),
{
    if lines.len() == 0 {
        Ok((font, families))
    } else {
        match line_entry(lines[0], location) {
            Err(e) => Err(e),
            Ok(None) => read_entries(font, families, lines.drop_first(), location),
            Ok(Some(entry)) => match entry_effect(font, families, entry.0, entry.1) {
                (_, _, Err(e)) => Err(e),
                (f, fs, Ok(_)) => read_entries(f, fs, lines.drop_first(), location),
            },
        }
    }
}

/// `font-family` is a key the font options do not read, and has the shape of a key.
proof fn lemma_family_key()
    ensures
        key_shaped("font-family"@),
        supported("font-family"@),
        "font-family"@ != "config-file"@,
        "font-family"@ != "font-feature"@,
        "font-family"@ != "font-family-bold"@,
        "font-family"@ != "font-family-italic"@,
        "font-family"@ != "font-family-bold-italic"@,
        "font-family"@ != "font-codepoint-map"@,
        "font-family"@ != "font-thicken"@,
        "font-family"@ != "font-thicken-strength"@,
        " ="@ == seq![' ', '='],
        " = \""@ == seq![' ', '=', ' ', '"'],
        "\""@ == seq!['"'],
        "font-family ="@ == "font-family"@ + " ="@,
        "font-family = \""@ == "font-family"@ + " = \""@,
{
    reveal_strlit("font-family =");
    reveal_strlit("font-family = \"");
    assert("font-family ="@ =~= "font-family"@ + " ="@) by {
        reveal_strlit("font-family");
        reveal_strlit(" =");
    }
    assert("font-family = \""@ =~= "font-family"@ + " = \""@) by {
        reveal_strlit("font-family");
        reveal_strlit(" = \"");
    }
    reveal_strlit("font-family");
    reveal_strlit("config-file");
    reveal_strlit("font-feature");
    reveal_strlit("font-family-bold");
    reveal_strlit("font-family-italic");
    reveal_strlit("font-family-bold-italic");
    reveal_strlit("font-codepoint-map");
    reveal_strlit("font-thicken");
    reveal_strlit("font-thicken-strength");
    reveal_strlit(" =");
    reveal_strlit(" = \"");
    reveal_strlit("\"");
    assert("font-family"@ =~= seq!['f', 'o', 'n', 't', '-', 'f', 'a', 'm', 'i', 'l', 'y']);
    assert(" ="@ =~= seq![' ', '=']);
    assert(" = \""@ =~= seq![' ', '=', ' ', '"']);
    assert("\""@ =~= seq!['"']);
    assert("font-family"@.len() != "config-file"@.len() || "font-family"@[0] != "config-file"@[0]);
    assert("font-family"@.len() != "font-feature"@.len());
    assert("font-family"@.len() != "font-family-bold"@.len());
    assert("font-family"@.len() != "font-family-italic"@.len());
    assert("font-family"@.len() != "font-family-bold-italic"@.len());
    assert("font-family"@.len() != "font-codepoint-map"@.len());
    assert("font-family"@[5] != "font-thicken"@[5]);
    assert("font-family"@.len() != "font-thicken-strength"@.len());
}

/// The font family lines that a save writes read back as the families saved, whatever the
/// families were before, leaving the font options as they were: `font-family =` clears the
/// list, and each quoted family is appended in order.
pub proof fn lemma_saved_families_read_back(
    font: FontState,
    before: Seq<Seq<char>>,
    families: Seq<Seq<char>>,
    location: Seq<char>,
)
    requires
        forall|i: int| 0 <= i < families.len() ==> (#[trigger] families[i]).len() > 0,
    ensures
        read_entries(font, before, saved_families(families), location) == Ok::<
            (FontState, Seq<Seq<char>>),
            (Seq<char>, Seq<char>),
        >((font, families)),
    decreases families.len(),
{
    lemma_family_key();
    let key = "font-family"@;
    if families.len() == 0 {
        let lines = saved_families(families);
        assert(lines =~= seq!["font-family ="@]);
        assert(key + " ="@ =~= key + seq![' ', '='] + Seq::<char>::empty());
        assert(trim(Seq::<char>::empty()) == Seq::<char>::empty());
        assert(unquoted(Seq::<char>::empty()) == Some(Seq::<char>::empty()));
        lemma_line_entry(key, Seq::<char>::empty(), location);
        assert(line_entry(lines[0], location) == expected_entry(key, Seq::<char>::empty()));
        assert(lines.drop_first() =~= Seq::<Seq<char>>::empty());
        assert(families =~= Seq::<Seq<char>>::empty());
        assert(crate::fonts::font_read(font, key, Seq::<char>::empty()) == (font, Ok::<bool, (Seq<char>, Seq<char>)>(false)));
        assert(line_entry(lines[0], location) == Ok::<Option<(Seq<char>, Seq<char>, bool)>, (Seq<char>, Seq<char>)>(
            Some((key, Seq::<char>::empty(), false)),
        ));
        assert(entry_effect(font, before, key, Seq::<char>::empty()) == (
            font,
            Seq::<Seq<char>>::empty(),
            Ok::<EntryEffect, (Seq<char>, Seq<char>)>(EntryEffect::Applied),
        ));
        assert(read_entries(font, Seq::<Seq<char>>::empty(), lines.drop_first(), location) == Ok::<
            (FontState, Seq<Seq<char>>),
            (Seq<char>, Seq<char>),
        >((font, Seq::<Seq<char>>::empty())));
        assert(read_entries(font, before, lines, location) == Ok::<
            (FontState, Seq<Seq<char>>),
            (Seq<char>, Seq<char>),
        >((font, families)));
    } else {
        let init = families.drop_last();
        let v = families.last();
        assert forall|i: int| 0 <= i < init.len() implies (#[trigger] init[i]).len() > 0 by {
            assert(init[i] == families[i]);
        }
        lemma_saved_families_read_back(font, before, init, location);
        let line = key + " = \""@ + v + "\""@;
        assert(saved_families(families) =~= saved_families(init).push(line)) by {
            assert(init =~= families.take(families.len() - 1));
        }
        lemma_read_entries_push(font, before, saved_families(init), line, location);
        let tail = seq![' ', '"'] + v + seq!['"'];
        assert(line =~= key + seq![' ', '='] + tail);
        assert(tail.drop_first() =~= seq!['"'] + v + seq!['"']);
        lemma_trim_space_before(tail.drop_first());
        assert(tail =~= seq![' '] + tail.drop_first());
        crate::settings::lemma_quoted_value_reads_back(v);
        lemma_line_entry(key, tail, location);
        assert(line_entry(line, location) == expected_entry(key, tail));
        let one = seq![line];
        assert(one[0] == line);
        assert(one.drop_first() =~= Seq::<Seq<char>>::empty());
        assert(init.push(v) =~= families);
        assert(trim(tail) == seq!['"'] + v + seq!['"']);
        assert(line_entry(line, location) == Ok::<Option<(Seq<char>, Seq<char>, bool)>, (Seq<char>, Seq<char>)>(
            Some((key, v, false)),
        ));
        assert(crate::fonts::font_read(font, key, v) == (font, Ok::<bool, (Seq<char>, Seq<char>)>(false)));
        assert(entry_effect(font, init, key, v) == (
            font,
            families,
            Ok::<EntryEffect, (Seq<char>, Seq<char>)>(EntryEffect::Applied),
        ));
        assert(read_entries(font, families, one.drop_first(), location) == Ok::<
            (FontState, Seq<Seq<char>>),
            (Seq<char>, Seq<char>),
        >((font, families)));
        assert(read_entries(font, init, one, location) == Ok::<
            (FontState, Seq<Seq<char>>),
            (Seq<char>, Seq<char>),
        >((font, families)));
        assert(read_entries(font, before, saved_families(init), location) == Ok::<
            (FontState, Seq<Seq<char>>),
            (Seq<char>, Seq<char>),
        >((font, init)));
        assert(read_entries(font, before, saved_families(init).push(line), location) == Ok::<
            (FontState, Seq<Seq<char>>),
            (Seq<char>, Seq<char>),
        >((font, families)));
    }
}

/// Reading one more line after some is reading that line from what they gave.
proof fn lemma_read_entries_push(
    font: FontState,
    families: Seq<Seq<char>>,
    lines: Seq<Seq<char>>,
    line: Seq<char>,
    location: Seq<char>,
)
    ensures
        read_entries(font, families, lines.push(line), location) == (match read_entries(font, families, lines, location) {
            Ok((f, fs)) => read_entries(f, fs, seq![line], location),
            Err(e) => Err(e),
        }),
    decreases lines.len(),
{
    if lines.len() == 0 {
        assert(lines.push(line) =~= seq![line]);
    } else {
        assert(lines.push(line)[0] == lines[0]);
        assert(lines.push(line).drop_first() =~= lines.drop_first().push(line));
        match line_entry(lines[0], location) {
            Err(e) => {},
            Ok(None) => {
                lemma_read_entries_push(font, families, lines.drop_first(), line, location);
            },
            Ok(Some(entry)) => match entry_effect(font, families, entry.0, entry.1) {
                (_, _, Err(e)) => {},
                (f, fs, Ok(_)) => {
                    lemma_read_entries_push(f, fs, lines.drop_first(), line, location);
                },
            },
        }
    }
}

} // verus!
