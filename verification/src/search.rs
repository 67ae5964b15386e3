//! The search of the settings: which rows a query, or else the chosen category, shows.

use vstd::prelude::*;
use vstd::string::*;

use crate::model::{category_label, Category};
use crate::scan::{trim, trim_bounds};
use crate::text::chars_of;

verus! {

broadcast use vstd::string::group_string_axioms;

/// The lowercase form of a text, as std's `str::to_lowercase` computes it.
pub uninterp spec fn lowercase(s: Seq<char>) -> Seq<char>;

/// Calls `str::to_lowercase`; the result is named by `lowercase`, a function of the characters
/// alone.
#[verifier::external_body]
pub(crate) fn to_lowercase(s: &str) -> (r: String)
    ensures
        r@ == lowercase(s@),
{
    s.to_lowercase()
}

/// Whether `needle` occurs in `hay`.
pub open spec fn contains_text(hay: Seq<char>, needle: Seq<char>) -> bool {
    exists|i: int| 0 <= i <= hay.len() - needle.len() && #[trigger] hay.subrange(i, i + needle.len()) == needle
}

/// Whether `needle` occurs in `hay`.
pub fn find_text(hay: &Vec<char>, needle: &Vec<char>) -> (r: bool)
    ensures
        r == contains_text(hay@, needle@),
{
    if needle.len() > hay.len() {
        return false;
    }
    let mut i: usize = 0;
    while i <= hay.len() - needle.len()
        invariant
            needle@.len() <= hay@.len(),
            i <= hay@.len() - needle@.len() + 1,
            forall|k: int| 0 <= k < i ==> #[trigger] hay@.subrange(k, k + needle@.len()) != needle@,
        decreases hay@.len() - needle@.len() + 1 - i,
    {
        let mut j: usize = 0;
        while j < needle.len() && hay[i + j] == needle[j]
            invariant
                needle@.len() <= hay@.len() <= usize::MAX,
                i <= hay@.len() - needle@.len(),
                j <= needle@.len(),
                forall|t: int| 0 <= t < j ==> hay@[i + t] == needle@[t],
            decreases needle@.len() - j,
        {
            j = j + 1;
        }
        if j == needle.len() {
            assert(hay@.subrange(i as int, i + needle@.len()) =~= needle@);
            return true;
        }
        assert(hay@.subrange(i as int, i + needle@.len())[j as int] != needle@[j as int]);
        i = i + 1;
    }
    false
}

/// The search of the settings: the lowercase query, and the category shown without one.
pub struct SettingsSearch {
    pub query: String,
    pub category: Category,
}

/// Whether a row with this label in this category shows: with a query, where the category's
/// label, a space and the row's label, in lowercase, hold the query; without one, where the
/// category is the one shown.
pub open spec fn shows(query: Seq<char>, shown: Category, category: Category, label: Seq<char>) -> bool {
    if query.len() == 0 {
        category == shown
    } else {
        contains_text(lowercase(category_label(category) + " "@ + label), query)
    }
}

impl SettingsSearch {
    /// Takes the text of the search field: trimmed and in lowercase.
    pub fn set_query(&mut self, text: &str)
        ensures
            final(self).query@ == lowercase(trim(text@)),
            final(self).category == old(self).category,
    {
        let cs = chars_of(text);
        let (a, b) = trim_bounds(&cs, 0, cs.len());
        assert(cs@.subrange(0, cs@.len() as int) =~= text@);
        self.query = to_lowercase(text.substring_char(a, b));
    }

    /// Shows a category, and clears the query.
    pub fn show_category(&mut self, category: Category)
        ensures
            final(self).query@ == Seq::<char>::empty(),
            final(self).category == category,
    {
        self.query = String::new();
        self.category = category;
    }

    /// Whether a row with this label in this category shows, as `shows` says.
    pub fn matches(&self, category: Category, label: &str) -> (r: bool)
        ensures
            r == shows(self.query@, self.category, category, label@),
    {
        if self.query.as_str().is_empty() {
            return category == self.category;
        }
        let mut text = String::from_str(category.label());
        text.append(" ");
        text.append(label);
        let hay = chars_of(to_lowercase(text.as_str()).as_str());
        let needle = chars_of(self.query.as_str());
        find_text(&hay, &needle)
    }

    /// The indices of the shortcuts whose names show under the keyboard category.
    pub fn matching(&self, names: &Vec<String>) -> (r: Vec<usize>)
        ensures
            forall|k: int| 0 <= k < r@.len() ==> (#[trigger] r@[k]) < names@.len() && shows(
                self.query@,
                self.category,
                Category::Keyboard,
                names@[r@[k] as int]@,
            ),
            forall|i: int|
                0 <= i < names@.len() && shows(self.query@, self.category, Category::Keyboard, names@[i]@)
                    ==> r@.contains(i as usize),
            forall|a: int, b: int| 0 <= a < b < r@.len() ==> r@[a] < r@[b],
    {
        let mut out: Vec<usize> = Vec::new();
        let mut i: usize = 0;
        while i < names.len()
            invariant
                i <= names@.len(),
                forall|k: int| 0 <= k < out@.len() ==> (#[trigger] out@[k]) < i && shows(
                    self.query@,
                    self.category,
                    Category::Keyboard,
                    names@[out@[k] as int]@,
                ),
                forall|j: int|
                    0 <= j < i && shows(self.query@, self.category, Category::Keyboard, names@[j]@)
                        ==> out@.contains(j as usize),
                forall|a: int, b: int| 0 <= a < b < out@.len() ==> out@[a] < out@[b],
            decreases names@.len() - i,
        {
            if self.matches(Category::Keyboard, names[i].as_str()) {
                let ghost before = out@;
                out.push(i);
                assert forall|j: int|
                    0 <= j < i + 1 && shows(self.query@, self.category, Category::Keyboard, names@[j]@)
                        implies out@.contains(j as usize) by {
                    if j < i {
                        let k = choose|k: int| 0 <= k < before.len() && before[k] == j as usize;
                        assert(out@[k] == j as usize);
                    } else {
                        assert(out@[before.len() as int] == i);
                    }
                }
            }
            i = i + 1;
        }
        out
    }
}

/// An entry of the list of settings results.
#[derive(Clone, Copy, Debug, PartialEq, Eq, Structural)]
pub enum ResultItem {
    Section(Category),
    KeyboardHeading,
    Shortcut(usize),
    Divider,
    Empty,
    Footer,
}

/// The settings categories in the order they are listed.
pub open spec fn categories() -> Seq<Category> {
    seq![Category::Appearance, Category::Terminal, Category::Keyboard, Category::Server]
}

/// The entries of one category, the `i`th: none without a query where another category is
/// shown; for the keyboard, a heading, its matching shortcuts and a divider, if any match;
/// for another category, its section where it has rows.
pub open spec fn category_items(
    query: Seq<char>,
    shown: Category,
    i: int,
    shortcuts: Seq<usize>,
    nonempty: Seq<bool>,
) -> Seq<ResultItem> {
    let c = categories()[i];
    if query.len() == 0 && c != shown {
        Seq::empty()
    } else if c == Category::Keyboard {
        if shortcuts.len() == 0 {
            Seq::empty()
        } else {
            seq![ResultItem::KeyboardHeading] + shortcuts.map_values(|k: usize| ResultItem::Shortcut(k))
                + seq![ResultItem::Divider]
        }
    } else if nonempty[i] {
        seq![ResultItem::Section(c)]
    } else {
        Seq::empty()
    }
}

/// The entries of the first `n` categories.
pub open spec fn items_upto(
    query: Seq<char>,
    shown: Category,
    n: int,
    shortcuts: Seq<usize>,
    nonempty: Seq<bool>,
) -> Seq<ResultItem>
    decreases n,
{
    if n <= 0 {
        Seq::empty()
    } else {
        items_upto(query, shown, n - 1, shortcuts, nonempty) + category_items(
            query,
            shown,
            n - 1,
            shortcuts,
            nonempty,
        )
    }
}

/// The list of results: the entries of every category in order, or a note that nothing was
/// found, then the footer.
pub open spec fn result_list(
    query: Seq<char>,
    shown: Category,
    shortcuts: Seq<usize>,
    nonempty: Seq<bool>,
) -> Seq<ResultItem> {
    let items = items_upto(query, shown, 4, shortcuts, nonempty);
    (if items.len() == 0 {
        seq![ResultItem::Empty]
    } else {
        items
    }).push(ResultItem::Footer)
}

impl SettingsSearch {
    /// The list of results, as `result_list` says, given the matching shortcuts (see
    /// `matching`) and which categories, in the listed order, have rows under the search.
    pub fn result_items(&self, shortcuts: &Vec<usize>, nonempty: [bool; 4]) -> (r: Vec<ResultItem>)
        ensures
            r@ == result_list(self.query@, self.category, shortcuts@, nonempty@),
    {
        let all: [Category; 4] = [Category::Appearance, Category::Terminal, Category::Keyboard, Category::Server];
        assert(all@ == categories());
        let no_query = self.query.as_str().is_empty();
        let mut items: Vec<ResultItem> = Vec::new();
        let mut i: usize = 0;
        while i < 4
            invariant
                i <= 4,
                all@ == categories(),
                no_query == (self.query@.len() == 0),
                items@ == items_upto(self.query@, self.category, i as int, shortcuts@, nonempty@),
            decreases 4 - i,
        {
            let c = all[i];
            let ghost before = items@;
            if no_query && c != self.category {
            } else if c == Category::Keyboard {
                if shortcuts.len() > 0 {
                    items.push(ResultItem::KeyboardHeading);
                    let mut k: usize = 0;
                    while k < shortcuts.len()
                        invariant
                            k <= shortcuts@.len(),
                            items@ == before + seq![ResultItem::KeyboardHeading]
                                + shortcuts@.take(k as int).map_values(|x: usize| ResultItem::Shortcut(x)),
                        decreases shortcuts@.len() - k,
                    {
                        items.push(ResultItem::Shortcut(shortcuts[k]));
                        k = k + 1;
                        assert(shortcuts@.take(k as int).map_values(|x: usize| ResultItem::Shortcut(x))
                            =~= shortcuts@.take(k - 1).map_values(|x: usize| ResultItem::Shortcut(x)).push(
                            ResultItem::Shortcut(shortcuts@[k - 1]),
                        ));
                    }
                    assert(shortcuts@.take(shortcuts@.len() as int) =~= shortcuts@);
                    items.push(ResultItem::Divider);
                }
            } else if nonempty[i] {
                items.push(ResultItem::Section(c));
            }
            proof {
                let part = category_items(self.query@, self.category, i as int, shortcuts@, nonempty@);
                assert(items@ =~= before + part);
            }
            i = i + 1;
        }
        if items.len() == 0 {
            items.push(ResultItem::Empty);
        }
        items.push(ResultItem::Footer);
        items
    }
}

} // verus!
