//! Which coloured cells of a terminal row extend into the padding around the grid.

use vstd::prelude::*;

use crate::colors::{Palette, Style};
use crate::text::chars_of;

verus! {

broadcast use vstd::string::group_string_axioms;

/// A run of cells of one style, with its text and width in cells.
#[derive(Clone, Debug, PartialEq, Eq)]
pub struct Run {
    pub text: String,
    pub width: u16,
    pub style: Style,
}

/// A Powerline separator glyph, whose shape must not be stretched into the padding.
pub open spec fn is_powerline(c: char) -> bool {
    ('\u{e0b0}' <= c && c <= '\u{e0c8}') || c == '\u{e0ca}' || ('\u{e0cc}' <= c && c <= '\u{e0d2}')
        || c == '\u{e0d4}'
}

/// Whether some character of the text is a Powerline separator.
pub open spec fn has_powerline(text: Seq<char>) -> bool {
    exists|i: int| 0 <= i < text.len() && is_powerline(#[trigger] text[i])
}

/// `a + b`, at most 65535.
pub open spec fn saturating(a: int, b: int) -> int {
    if a + b > 65535 {
        65535
    } else {
        a + b
    }
}

/// Whether a row, from `width` cells on, fills the grid's `cols` columns with runs that have
/// a background of their own and no Powerline separators; runs of no width are skipped.
pub open spec fn fills_row(runs: Seq<Run>, cols: u16, p: Palette, width: int) -> bool
    decreases runs.len(),
{
    if runs.len() == 0 {
        false
    } else {
        let r = runs[0];
        if r.width == 0 {
            fills_row(runs.drop_first(), cols, p, width)
        } else if p.resolved(r.style.bg, p.background) == p.background || has_powerline(r.text@) {
            false
        } else {
            let w = saturating(width, r.width as int);
            if w >= cols {
                true
            } else {
                fills_row(runs.drop_first(), cols, p, w)
            }
        }
    }
}

/// Whether some character of the text is a Powerline separator.
fn powerline_in(text: &str) -> (r: bool)
    ensures
        r == has_powerline(text@),
{
    let cs = chars_of(text);
    let mut i: usize = 0;
    while i < cs.len()
        invariant
            i <= cs@.len(),
            cs@ == text@,
            forall|j: int| 0 <= j < i ==> !is_powerline(#[trigger] cs@[j]),
        decreases cs@.len() - i,
    {
        let c = cs[i];
        if ('\u{e0b0}' <= c && c <= '\u{e0c8}') || c == '\u{e0ca}' || ('\u{e0cc}' <= c && c
            <= '\u{e0d2}') || c == '\u{e0d4}' {
            assert(is_powerline(text@[i as int]));
            return true;
        }
        i = i + 1;
    }
    false
}

/// Whether a row's colours may extend into the padding above or below the grid: its runs
/// fill the row with backgrounds of their own and hold no Powerline separators.
pub fn extend_vertical(runs: &Vec<Run>, cols: u16, palette: &Palette) -> (r: bool)
    ensures
        r == fills_row(runs@, cols, *palette, 0),
{
    let mut width: u16 = 0;
    let mut i: usize = 0;
    assert(runs@.skip(0) =~= runs@);
    while i < runs.len()
        invariant
            i <= runs@.len(),
            fills_row(runs@, cols, *palette, 0) == fills_row(runs@.skip(i as int), cols, *palette, width as int),
        decreases runs@.len() - i,
    {
        let ghost rest = runs@.skip(i as int);
        assert(rest[0] == runs@[i as int]);
        assert(rest.drop_first() =~= runs@.skip(i + 1));
        let run = &runs[i];
        if run.width == 0 {
            i = i + 1;
            continue;
        }
        if palette.resolve(run.style.bg, palette.background) == palette.background || powerline_in(
            run.text.as_str(),
        ) {
            return false;
        }
        width = width.saturating_add(run.width);
        if width >= cols {
            return true;
        }
        i = i + 1;
    }
    false
}

/// A span of a row's columns, `start..end`, whose colour extends into the padding.
#[derive(Clone, Copy, Debug, PartialEq, Eq)]
pub struct Extension {
    pub start: u16,
    pub end: u16,
    pub color: u32,
}

/// The colour a run shows: its foreground for a full block, its background otherwise.
pub open spec fn shown_color(p: Palette, r: Run) -> int {
    if r.text@.len() > 0 && r.text@[0] == '█' {
        p.styled(r.style).0
    } else {
        p.styled(r.style).1
    }
}

/// The spans of the runs from column `column` on whose colour extends into the padding: a
/// run's cells end at the grid's last column at most; a run of no cells is skipped; a run
/// whose colour differs from the palette's background extends where the row extends
/// vertically or where it touches the left or right edge. The runs past the last column
/// are not read.
pub open spec fn extensions(
    runs: Seq<Run>,
    cols: u16,
    vertical: bool,
    p: Palette,
    column: int,
) -> Seq<(int, int, int)>
    decreases runs.len(),
{
    if runs.len() == 0 {
        Seq::empty()
    } else {
        let r = runs[0];
        let end = if saturating(column, r.width as int) < cols {
            saturating(column, r.width as int)
        } else {
            cols as int
        };
        if end <= column {
            extensions(runs.drop_first(), cols, vertical, p, column)
        } else {
            let color = shown_color(p, r);
            let here = if color != p.background && (vertical || column == 0 || end == cols) {
                seq![(column, end, color)]
            } else {
                Seq::empty()
            };
            if end == cols {
                here
            } else {
                here + extensions(runs.drop_first(), cols, vertical, p, end)
            }
        }
    }
}

/// Extensions as spans and colours.
pub open spec fn extensions_view(v: Seq<Extension>) -> Seq<(int, int, int)> {
    v.map_values(|e: Extension| (e.start as int, e.end as int, e.color as int))
}

/// Whether a run's text starts with a full block.
fn starts_with_block(text: &str) -> (r: bool)
    ensures
        r == (text@.len() > 0 && text@[0] == '█'),
{
    let cs = chars_of(text);
    cs.len() > 0 && cs[0] == '█'
}

/// The spans of a row whose colour extends into the padding, as `extensions` says from the
/// first column; `vertical` tells whether the row extends above or below the grid.
pub fn row_extensions(runs: &Vec<Run>, cols: u16, vertical: bool, palette: &Palette) -> (r: Vec<
    Extension,
>)
    ensures
        extensions_view(r@) == extensions(runs@, cols, vertical, *palette, 0),
{
    let mut out: Vec<Extension> = Vec::new();
    let mut column: u16 = 0;
    let mut i: usize = 0;
    assert(extensions_view(out@) =~= Seq::<(int, int, int)>::empty());
    assert(runs@.skip(0) =~= runs@);
    assert(Seq::<(int, int, int)>::empty() + extensions(runs@, cols, vertical, *palette, 0)
        =~= extensions(runs@, cols, vertical, *palette, 0));
    while i < runs.len()
        invariant
            i <= runs@.len(),
            column <= cols,
            extensions(runs@, cols, vertical, *palette, 0) == extensions_view(out@) + extensions(
                runs@.skip(i as int),
                cols,
                vertical,
                *palette,
                column as int,
            ),
        decreases runs@.len() - i,
    {
        let ghost rest = runs@.skip(i as int);
        assert(rest[0] == runs@[i as int]);
        assert(rest.drop_first() =~= runs@.skip(i + 1));
        let run = &runs[i];
        let sum = column.saturating_add(run.width);
        let end = if sum < cols {
            sum
        } else {
            cols
        };
        if end <= column {
            i = i + 1;
            continue;
        }
        let (foreground, background) = palette.style(run.style);
        let color = if starts_with_block(run.text.as_str()) {
            foreground
        } else {
            background
        };
        let ghost before = extensions_view(out@);
        if color != palette.background && (vertical || column == 0 || end == cols) {
            out.push(Extension { start: column, end, color });
            assert(extensions_view(out@) =~= before + seq![(column as int, end as int, color as int)]);
        } else {
            assert(before + Seq::<(int, int, int)>::empty() =~= before);
        }
        if end == cols {
            assert(extensions(runs@, cols, vertical, *palette, 0) =~= extensions_view(out@));
            return out;
        }
        proof {
            let tail = extensions(runs@.skip(i + 1), cols, vertical, *palette, end as int);
            if color != palette.background && (vertical || column == 0 || end == cols) {
                assert(before + (seq![(column as int, end as int, color as int)] + tail)
                    =~= extensions_view(out@) + tail);
            } else {
                assert(before + (Seq::<(int, int, int)>::empty() + tail) =~= extensions_view(out@)
                    + tail);
            }
        }
        column = end;
        i = i + 1;
    }
    assert(extensions(runs@.skip(i as int), cols, vertical, *palette, column as int) == Seq::<
        (int, int, int),
    >::empty());
    assert(extensions_view(out@) + Seq::<(int, int, int)>::empty() =~= extensions_view(out@));
    out
}

/// Spans that lie within `lo..hi`, each of at least one column, in order and apart.
pub open spec fn spans_apart(s: Seq<(int, int, int)>, lo: int, hi: int) -> bool {
    &&& forall|k: int| 0 <= k < s.len() ==> lo <= (#[trigger] s[k]).0 < s[k].1 <= hi
    &&& forall|k: int, l: int| 0 <= k < l < s.len() ==> (#[trigger] s[k]).1 <= (#[trigger] s[l]).0
}

/// The spans that extend into the padding lie within the grid's columns, in order, and never
/// overlap: so no padding is painted twice.
pub proof fn lemma_extensions_do_not_overlap(
    runs: Seq<Run>,
    cols: u16,
    vertical: bool,
    p: Palette,
    column: int,
)
    requires
        0 <= column <= cols,
    ensures
        spans_apart(extensions(runs, cols, vertical, p, column), column, cols as int),
    decreases runs.len(),
{
    let e = extensions(runs, cols, vertical, p, column);
    if runs.len() > 0 {
        let r = runs[0];
        let end = if saturating(column, r.width as int) < cols {
            saturating(column, r.width as int)
        } else {
            cols as int
        };
        let color = shown_color(p, r);
        let shown = color != p.background && (vertical || column == 0 || end == cols);
        let here: Seq<(int, int, int)> = if shown {
            seq![(column, end, color)]
        } else {
            Seq::empty()
        };
        if end <= column {
            lemma_extensions_do_not_overlap(runs.drop_first(), cols, vertical, p, column);
        } else if end < cols {
            lemma_extensions_do_not_overlap(runs.drop_first(), cols, vertical, p, end);
            let rest = extensions(runs.drop_first(), cols, vertical, p, end);
            assert(e == here + rest);
            assert(spans_apart(rest, end, cols as int));
            if shown {
                assert forall|k: int| 0 <= k < e.len() implies column <= (#[trigger] e[k]).0
                    < e[k].1 <= cols by {
                    if k > 0 {
                        assert(e[k] == rest[k - 1]);
                    }
                }
                assert forall|k: int, l: int| 0 <= k < l < e.len() implies (#[trigger] e[k]).1
                    <= (#[trigger] e[l]).0 by {
                    assert(e[l] == rest[l - 1]);
                    if k > 0 {
                        assert(e[k] == rest[k - 1]);
                    }
                }
            } else {
                assert(e =~= rest);
            }
        } else {
            assert(e == here);
        }
    }
}

} // verus!
