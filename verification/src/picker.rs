//! The pickers of fonts and themes: which names a filter keeps, the ids of their rows, and
//! which name a chosen row stands for.

use vstd::prelude::*;
use vstd::string::*;

use crate::fonts::strings;
use crate::scan::{parse_uint, parse_uint_in, trim, trim_bounds};
use crate::search::{contains_text, find_text, lowercase, to_lowercase};
use crate::text::{append_decimal, chars_of, dec_chars, str_eq};

verus! {

broadcast use vstd::string::group_string_axioms;

/// A row of a picker: the index of its name in the list, and whether it is the active one.
#[derive(Clone, Copy, Debug, PartialEq, Eq, Structural)]
pub struct PickerRow {
    pub index: usize,
    pub current: bool,
}

/// Whether a filter keeps a name: the name in lowercase holds the trimmed filter in lowercase.
pub open spec fn name_kept(name: Seq<char>, query: Seq<char>) -> bool {
    contains_text(lowercase(name), lowercase(trim(query)))
}

/// The rows of the first `n` names that the filter keeps, in order, each marked current
/// where it is the active name.
pub open spec fn rows_upto(names: Seq<Seq<char>>, active: Seq<char>, query: Seq<char>, n: int) -> Seq<(int, bool)>
    decreases n,
{
    if n <= 0 {
        Seq::empty()
    } else {
        let before = rows_upto(names, active, query, n - 1);
        if name_kept(names[n - 1], query) {
            before.push((n - 1, names[n - 1] == active))
        } else {
            before
        }
    }
}

/// Rows as indices and marks.
pub open spec fn rows_view(v: Seq<PickerRow>) -> Seq<(int, bool)> {
    v.map_values(|r: PickerRow| (r.index as int, r.current))
}

/// The rows of a picker's names under a filter, as `rows_upto` says of all of them.
pub fn picker_rows(names: &Vec<String>, active: &str, query: &str) -> (r: Vec<PickerRow>)
    ensures
        rows_view(r@) == rows_upto(strings(names@), active@, query@, names@.len() as int),
{
    let qs = chars_of(query);
    let (a, b) = trim_bounds(&qs, 0, qs.len());
    assert(qs@.subrange(0, qs@.len() as int) =~= query@);
    let needle = chars_of(to_lowercase(query.substring_char(a, b)).as_str());
    let mut out: Vec<PickerRow> = Vec::new();
    let mut i: usize = 0;
    while i < names.len()
        invariant
            i <= names@.len(),
            needle@ == lowercase(trim(query@)),
            rows_view(out@) == rows_upto(strings(names@), active@, query@, i as int),
            out@.len() <= i,
        decreases names@.len() - i,
    {
        let hay = chars_of(to_lowercase(names[i].as_str()).as_str());
        let ghost before = out@;
        if find_text(&hay, &needle) {
            out.push(PickerRow { index: i, current: str_eq(names[i].as_str(), active) });
            assert(rows_view(out@) =~= rows_view(before).push((i as int, names@[i as int]@ == active@)));
        }
        assert(strings(names@)[i as int] == names@[i as int]@);
        i = i + 1;
    }
    out
}

/// The id of the row of the `index`th name: the picker's prefix, then the index in decimal.
pub fn row_id(prefix: &str, index: usize) -> (r: String)
    ensures
        r@ == prefix@ + dec_chars(index as nat),
{
    let mut id = prefix.to_string();
    append_decimal(&mut id, index as u64);
    id
}

/// The index a chosen row's id names: what follows the prefix, read as std reads a `usize`,
/// where it is an index of the list.
pub open spec fn chosen_index(prefix: Seq<char>, id: Seq<char>, len: nat) -> Option<nat> {
    if id.len() >= prefix.len() && id.take(prefix.len() as int) == prefix {
        match parse_uint(id.skip(prefix.len() as int), 10, usize::MAX as nat) {
            Ok(n) => if n < len {
                Some(n)
            } else {
                None
            },
            Err(_) => None,
        }
    } else {
        None
    }
}

/// The index a chosen row's id names, as `chosen_index` says.
pub fn selected_index(prefix: &str, id: &str, len: usize) -> (r: Option<usize>)
    ensures
        match chosen_index(prefix@, id@, len as nat) {
            Some(n) => r == Some(n as usize),
            None => r is None,
        },
{
    let ps = chars_of(prefix);
    let cs = chars_of(id);
    if cs.len() < ps.len() {
        return None;
    }
    let head = id.substring_char(0, ps.len());
    assert(head@ =~= id@.take(ps@.len() as int));
    if !str_eq(head, prefix) {
        return None;
    }
    assert(cs@.subrange(ps@.len() as int, cs@.len() as int) =~= id@.skip(ps@.len() as int));
    match parse_uint_in(&cs, ps.len(), cs.len(), 10, usize::MAX as u64) {
        Ok(n) => if (n as usize) < len {
            Some(n as usize)
        } else {
            None
        },
        Err(_) => None,
    }
}

/// A chosen row stands for the name it was made for: the id of a row, chosen back, names
/// that row's index.
pub proof fn lemma_row_ids_choose_their_row(prefix: Seq<char>, index: nat, len: nat)
    requires
        index < len,
        index <= usize::MAX,
    ensures
        chosen_index(prefix, prefix + dec_chars(index), len) == Some(index),
{
    let id = prefix + dec_chars(index);
    assert(id.take(prefix.len() as int) =~= prefix);
    assert(id.skip(prefix.len() as int) =~= dec_chars(index));
    crate::font_lines::lemma_parse_decimal(index, usize::MAX as nat);
}

/// Whether `a` comes no later than `b` in the order of their characters' code points, the
/// order of their UTF-8 bytes.
pub open spec fn text_le(a: Seq<char>, b: Seq<char>) -> bool
    decreases a.len(),
{
    if a.len() == 0 {
        true
    } else if b.len() == 0 {
        false
    } else if (a[0] as u32) != (b[0] as u32) {
        (a[0] as u32) < (b[0] as u32)
    } else {
        text_le(a.drop_first(), b.drop_first())
    }
}

/// The order of texts is total.
proof fn lemma_text_le_total(a: Seq<char>, b: Seq<char>)
    ensures
        text_le(a, b) || text_le(b, a),
    decreases a.len(),
{
    if a.len() > 0 && b.len() > 0 && (a[0] as u32) == (b[0] as u32) {
        lemma_text_le_total(a.drop_first(), b.drop_first());
    }
}

/// Whether `a` comes no later than `b`.
fn text_le_exec(a: &Vec<char>, b: &Vec<char>) -> (r: bool)
    ensures
        r == text_le(a@, b@),
{
    let mut i: usize = 0;
    assert(a@.skip(0) =~= a@);
    assert(b@.skip(0) =~= b@);
    while i < a.len() && i < b.len() && (a[i] as u32) == (b[i] as u32)
        invariant
            i <= a@.len(),
            i <= b@.len(),
            text_le(a@, b@) == text_le(a@.skip(i as int), b@.skip(i as int)),
        decreases a@.len() - i,
    {
        assert(a@.skip(i as int).drop_first() =~= a@.skip(i + 1));
        assert(b@.skip(i as int).drop_first() =~= b@.skip(i + 1));
        i = i + 1;
    }
    if i == a.len() {
        return true;
    }
    if i == b.len() {
        return false;
    }
    assert(a@.skip(i as int)[0] == a@[i as int]);
    assert(b@.skip(i as int)[0] == b@[i as int]);
    (a[i] as u32) < (b[i] as u32)
}

/// A font name the system keeps to itself: one that starts with `.`.
pub open spec fn hidden_font(name: Seq<char>) -> bool {
    name.len() > 0 && name[0] == '.'
}

/// The names of a font list, each coming no later than the next by their lowercase forms.
pub open spec fn sorted_by_lowercase(names: Seq<Seq<char>>) -> bool {
    forall|i: int| 0 <= i < names.len() - 1 ==> text_le(lowercase(#[trigger] names[i]), lowercase(names[i + 1]))
}

/// The font names to offer: the system's names but those it keeps to itself, sorted by their
/// lowercase forms, with a name that follows itself dropped; names whose lowercase forms are
/// equal come in no given order among themselves.
pub fn font_names(all: &Vec<String>) -> (r: Vec<String>)
    ensures
        sorted_by_lowercase(strings(r@)),
        forall|i: int| 0 <= i < r@.len() - 1 ==> (#[trigger] r@[i])@ != r@[i + 1]@,
        forall|i: int| 0 <= i < r@.len() ==> !hidden_font((#[trigger] r@[i])@) && strings(all@).contains(r@[i]@),
        forall|j: int| 0 <= j < all@.len() && !hidden_font((#[trigger] all@[j])@) ==> strings(r@).contains(all@[j]@),
{
    let mut keys: Vec<Vec<char>> = Vec::new();
    let mut sorted: Vec<String> = Vec::new();
    let mut i: usize = 0;
    while i < all.len()
        invariant
            i <= all@.len(),
            keys@.len() == sorted@.len(),
            forall|t: int| 0 <= t < keys@.len() ==> (#[trigger] keys@[t])@ == lowercase(sorted@[t]@),
            sorted_by_lowercase(strings(sorted@)),
            forall|t: int| 0 <= t < sorted@.len() ==> !hidden_font((#[trigger] sorted@[t])@) && strings(all@).contains(sorted@[t]@),
            forall|j: int| 0 <= j < i && !hidden_font((#[trigger] all@[j])@) ==> strings(sorted@).contains(all@[j]@),
        decreases all@.len() - i,
    {
        let name = &all[i];
        let cs = chars_of(name.as_str());
        let hidden = cs.len() > 0 && cs[0] == '.';
        assert(hidden == hidden_font(all@[i as int]@));
        assert(strings(all@)[i as int] == all@[i as int]@);
        if !hidden {
            let key = chars_of(to_lowercase(name.as_str()).as_str());
            let mut k: usize = 0;
            while k < keys.len() && text_le_exec(&keys[k], &key)
                invariant
                    k <= keys@.len(),
                    forall|t: int| 0 <= t < k ==> text_le((#[trigger] keys@[t])@, key@),
                decreases keys@.len() - k,
            {
                k = k + 1;
            }
            let ghost old_sorted = strings(sorted@);
            let ghost old_keys = keys@;
            proof {
                if k < keys@.len() {
                    lemma_text_le_total(keys@[k as int]@, key@);
                }
            }
            keys.insert(k, key);
            sorted.insert(k, name.clone());
            proof {
                assert(strings(sorted@) =~= old_sorted.insert(k as int, name@));
                assert forall|t: int| 0 <= t < keys@.len() implies (#[trigger] keys@[t])@ == lowercase(
                    sorted@[t]@,
                ) by {
                    if t > k {
                        assert(keys@[t] == old_keys[t - 1]);
                    }
                }
                assert forall|t: int| 0 <= t < strings(sorted@).len() - 1 implies text_le(
                    lowercase(#[trigger] strings(sorted@)[t]),
                    lowercase(strings(sorted@)[t + 1]),
                ) by {
                    assert(strings(sorted@)[t] == sorted@[t]@);
                    assert(strings(sorted@)[t + 1] == sorted@[t + 1]@);
                    assert(keys@[t]@ == lowercase(sorted@[t]@));
                    assert(keys@[t + 1]@ == lowercase(sorted@[t + 1]@));
                    if t + 1 < k {
                        assert(old_sorted[t] == strings(sorted@)[t]);
                        assert(old_sorted[t + 1] == strings(sorted@)[t + 1]);
                    } else if t + 1 == k {
                        assert(keys@[t] == old_keys[t]);
                    } else if t == k {
                        assert(keys@[t + 1] == old_keys[t]);
                    } else {
                        assert(old_sorted[t - 1] == strings(sorted@)[t]);
                        assert(old_sorted[t] == strings(sorted@)[t + 1]);
                    }
                }
                assert forall|t: int| 0 <= t < sorted@.len() implies !hidden_font(
                    (#[trigger] sorted@[t])@,
                ) && strings(all@).contains(sorted@[t]@) by {
                    if t < k {
                        assert(old_sorted[t] == sorted@[t]@);
                    } else if t > k {
                        assert(old_sorted[t - 1] == sorted@[t]@);
                    }
                }
                assert forall|j: int| 0 <= j < i + 1 && !hidden_font((#[trigger] all@[j])@) implies strings(
                    sorted@,
                ).contains(all@[j]@) by {
                    if j < i {
                        let w = choose|w: int| 0 <= w < old_sorted.len() && old_sorted[w] == all@[j]@;
                        if w < k {
                            assert(strings(sorted@)[w] == all@[j]@);
                        } else {
                            assert(strings(sorted@)[w + 1] == all@[j]@);
                        }
                    } else {
                        assert(strings(sorted@)[k as int] == all@[j]@);
                    }
                }
            }
        }
        i = i + 1;
    }
    let mut out: Vec<String> = Vec::new();
    let mut j: usize = 0;
    while j < sorted.len()
        invariant
            j <= sorted@.len(),
            sorted_by_lowercase(strings(sorted@)),
            j > 0 ==> out@.len() > 0 && out@.last()@ == sorted@[j - 1]@,
            j == 0 ==> out@.len() == 0,
            sorted_by_lowercase(strings(out@)),
            forall|t: int| 0 <= t < out@.len() - 1 ==> (#[trigger] out@[t])@ != out@[t + 1]@,
            forall|t: int| 0 <= t < out@.len() ==> strings(sorted@).contains((#[trigger] out@[t])@),
            forall|t: int| 0 <= t < j ==> strings(out@).contains((#[trigger] sorted@[t])@),
        decreases sorted@.len() - j,
    {
        let ghost before = out@;
        if j == 0 || !str_eq(sorted[j].as_str(), sorted[j - 1].as_str()) {
            out.push(sorted[j].clone());
            proof {
                assert(strings(sorted@)[j as int] == sorted@[j as int]@);
                if j > 0 {
                    assert(strings(sorted@)[j - 1] == sorted@[j - 1]@);
                    assert(text_le(lowercase(strings(sorted@)[j - 1]), lowercase(strings(sorted@)[j as int])));
                }
                assert forall|t: int| 0 <= t < strings(out@).len() - 1 implies text_le(
                    lowercase(#[trigger] strings(out@)[t]),
                    lowercase(strings(out@)[t + 1]),
                ) by {
                    if t + 1 < before.len() {
                        assert(strings(before)[t] == strings(out@)[t]);
                        assert(strings(before)[t + 1] == strings(out@)[t + 1]);
                    } else {
                        assert(strings(out@)[t] == before.last()@);
                    }
                }
                assert forall|t: int| 0 <= t < j + 1 implies strings(out@).contains(
                    (#[trigger] sorted@[t])@,
                ) by {
                    if t < j {
                        let w = choose|w: int| 0 <= w < strings(before).len() && strings(before)[w] == sorted@[t]@;
                        assert(strings(out@)[w] == sorted@[t]@);
                    } else {
                        assert(strings(out@)[before.len() as int] == sorted@[t]@);
                    }
                }
            }
        } else {
            proof {
                assert forall|t: int| 0 <= t < j + 1 implies strings(out@).contains(
                    (#[trigger] sorted@[t])@,
                ) by {
                    if t == j {
                        assert(strings(out@)[out@.len() - 1] == sorted@[t]@);
                    }
                }
            }
        }
        j = j + 1;
    }
    proof {
        assert forall|t: int| 0 <= t < out@.len() implies !hidden_font((#[trigger] out@[t])@)
            && strings(all@).contains(out@[t]@) by {
            let w = choose|w: int| 0 <= w < strings(sorted@).len() && strings(sorted@)[w] == out@[t]@;
            assert(sorted@[w]@ == out@[t]@);
        }
        assert forall|q: int| 0 <= q < all@.len() && !hidden_font((#[trigger] all@[q])@) implies strings(
            out@,
        ).contains(all@[q]@) by {
            let w = choose|w: int| 0 <= w < strings(sorted@).len() && strings(sorted@)[w] == all@[q]@;
            assert(sorted@[w]@ == all@[q]@);
        }
    }
    out
}

} // verus!
