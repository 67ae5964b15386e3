//! A config file as its lines, and what a save keeps of them.

use vstd::prelude::*;

use crate::fonts::FontState;
use crate::scan::{is_char, lemma_position, position};
use crate::settings::{font_key, kept_lines, line_key, rewritten, saved_config, terminated, ConfigChanges};

verus! {

/// The lines of `s`, each with the newline that ends it, if any.
pub open spec fn config_lines(s: Seq<char>) -> Seq<Seq<char>>
    decreases s.len(),
{
    if s.len() == 0 {
        Seq::empty()
    } else {
        let i = position(s, is_char('\n'));
        proof {
            lemma_position(s, is_char('\n'));
        }
        if i < 0 {
            seq![s]
        } else {
            seq![s.take(i + 1)] + config_lines(s.skip(i + 1))
        }
    }
}

/// The texts one after another.
pub open spec fn concat(ls: Seq<Seq<char>>) -> Seq<char>
    decreases ls.len(),
{
    if ls.len() == 0 {
        Seq::empty()
    } else {
        ls[0] + concat(ls.drop_first())
    }
}

/// The predicate "a save with these changes keeps the line".
pub open spec fn kept_by(c: ConfigChanges) -> spec_fn(Seq<char>) -> bool {
    |line: Seq<char>| !rewritten(line_key(line), c)
}

/// Whether the settings own the lines with this key: the families, the size, the cell height
/// and the font options.
pub open spec fn owned(key: Seq<char>) -> bool {
    key == "font-family"@ || key == "font-size"@ || key == "adjust-cell-height"@ || font_key(key)
}

/// A line followed by more lines, as lines.
proof fn lemma_kept_lines_step(s: Seq<char>, c: ConfigChanges)
    requires
        s.len() > 0,
    ensures
        kept_lines(s, c) == concat(config_lines(s).filter(kept_by(c))),
        concat(config_lines(s)) == s,
    decreases s.len(),
{
    broadcast use Seq::filter_distributes_over_add;
    let i = position(s, is_char('\n'));
    lemma_position(s, is_char('\n'));
    let line = if i < 0 { s } else { s.take(i + 1) };
    let rest = if i < 0 { Seq::<char>::empty() } else { s.skip(i + 1) };
    reveal_with_fuel(Seq::filter, 2);
    let head = seq![line].filter(kept_by(c));
    assert(seq![line].drop_last() =~= Seq::<Seq<char>>::empty());
    assert(head == if kept_by(c)(line) { seq![line] } else { Seq::<Seq<char>>::empty() });
    let tail_f = if rest.len() == 0 {
        Seq::<Seq<char>>::empty()
    } else {
        config_lines(rest).filter(kept_by(c))
    };
    if rest.len() > 0 {
        lemma_kept_lines_step(rest, c);
        assert(config_lines(s) == seq![line] + config_lines(rest));
    } else {
        if i < 0 {
            assert(config_lines(s) == seq![s]);
            assert(config_lines(s).filter(kept_by(c)) =~= head + Seq::<Seq<char>>::empty());
        } else {
            assert(config_lines(rest) == Seq::<Seq<char>>::empty());
            assert(config_lines(s) =~= seq![line] + Seq::<Seq<char>>::empty());
            assert(Seq::<Seq<char>>::empty().filter(kept_by(c)) == Seq::<Seq<char>>::empty());
        }
        assert(kept_lines(rest, c) == Seq::<char>::empty());
    }
    assert(config_lines(s).filter(kept_by(c)) =~= head + tail_f);
    let f = head + tail_f;
    if kept_by(c)(line) {
        assert(f.drop_first() =~= tail_f);
        assert(concat(f) == line + concat(tail_f));
    } else {
        assert(f =~= tail_f);
    }
    assert(concat(tail_f) == kept_lines(rest, c));
    let all = config_lines(s);
    assert(all[0] == line);
    if rest.len() > 0 {
        assert(all.drop_first() =~= config_lines(rest));
    } else {
        assert(all.drop_first() =~= Seq::<Seq<char>>::empty());
    }
    assert(line + rest =~= s);
    if kept_by(c)(line) {
        assert(kept_lines(s, c) == line + kept_lines(rest, c));
    } else {
        assert(kept_lines(s, c) == Seq::<char>::empty() + kept_lines(rest, c));
        assert(Seq::<char>::empty() + kept_lines(rest, c) =~= kept_lines(rest, c));
    }
}

/// A save keeps, unchanged and in their order, every line of the config file whose key the
/// settings do not own (comments, blank lines, includes, other keys), and of the lines they
/// own those of settings that did not change: the saved file starts with exactly those lines
/// of the file, which are the file's lines in order.
pub proof fn lemma_saves_keep_the_other_lines_in_order(
    source: Seq<char>,
    c: ConfigChanges,
    families: Seq<Seq<char>>,
    size: Seq<char>,
    height: Seq<char>,
    font: FontState,
    cell_width: Seq<char>,
)
    ensures
        concat(config_lines(source)) == source,
        saved_config(source, c, families, size, height, font, cell_width).take(
            terminated(concat(config_lines(source).filter(kept_by(c)))).len() as int,
        ) == terminated(concat(config_lines(source).filter(kept_by(c)))),
        forall|line: Seq<char>| !owned(line_key(line)) ==> #[trigger] kept_by(c)(line),
{
    if source.len() > 0 {
        lemma_kept_lines_step(source, c);
    } else {
        assert(config_lines(source) == Seq::<Seq<char>>::empty());
        assert(Seq::<Seq<char>>::empty().filter(kept_by(c)) == Seq::<Seq<char>>::empty()) by {
            reveal(Seq::filter);
        }
    }
    let t = terminated(kept_lines(source, c));
    let whole = saved_config(source, c, families, size, height, font, cell_width);
    assert(whole.take(t.len() as int) =~= t);
}

} // verus!
