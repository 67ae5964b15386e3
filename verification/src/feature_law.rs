//! What reading `font-feature` entries does to the features: each tag named takes the value
//! of its last setting, and the features of other tags keep their order.

use vstd::prelude::*;

use crate::font_lines::{distinct_tags, lemma_set_feature_distinct};
use crate::fonts::{apply_features, feature_item, font_read, other_than, set_feature, FontState};
use crate::settings::split;

verus! {

/// The features the items set, in order, up to the first item that is not a feature.
pub open spec fn feature_list(items: Seq<Seq<char>>) -> Seq<(Seq<char>, u32)>
    decreases items.len(),
{
    if items.len() == 0 {
        Seq::empty()
    } else {
        match feature_item(items[0]) {
            Ok(f) => seq![f] + feature_list(items.drop_first()),
            Err(_) => Seq::empty(),
        }
    }
}

/// The features after setting each of `list`, in order.
pub open spec fn apply_list(fs: Seq<(Seq<char>, u32)>, list: Seq<(Seq<char>, u32)>) -> Seq<(Seq<char>, u32)>
    decreases list.len(),
{
    if list.len() == 0 {
        fs
    } else {
        apply_list(set_feature(fs, list[0].0, list[0].1), list.drop_first())
    }
}

/// Whether `list` sets the tag `t`.
pub open spec fn names(list: Seq<(Seq<char>, u32)>, t: Seq<char>) -> bool {
    exists|k: int| 0 <= k < list.len() && list[k].0 == t
}

/// The value of the last setting of `t` in `list`.
pub open spec fn last_value(list: Seq<(Seq<char>, u32)>, t: Seq<char>) -> u32
    decreases list.len(),
{
    if list.len() == 0 {
        0
    } else if names(list.drop_first(), t) {
        last_value(list.drop_first(), t)
    } else {
        list[0].1
    }
}

/// The predicate "a feature of a tag that `list` does not set".
pub open spec fn unnamed(list: Seq<(Seq<char>, u32)>) -> spec_fn((Seq<char>, u32)) -> bool {
    |f: (Seq<char>, u32)| !names(list, f.0)
}

/// Reading feature items that all are features sets them in order.
proof fn lemma_apply_features_list(fs: Seq<(Seq<char>, u32)>, items: Seq<Seq<char>>)
    requires
        apply_features(fs, items).1 is None,
    ensures
        apply_features(fs, items).0 == apply_list(fs, feature_list(items)),
    decreases items.len(),
{
    if items.len() > 0 {
        let f = feature_item(items[0])->Ok_0;
        lemma_apply_features_list(set_feature(fs, f.0, f.1), items.drop_first());
        let l = feature_list(items);
        assert(l[0] == f);
        assert(l.drop_first() =~= feature_list(items.drop_first()));
    }
}

/// Filtering a pushed element.
proof fn lemma_filter_push(s: Seq<(Seq<char>, u32)>, e: (Seq<char>, u32), q: spec_fn((Seq<char>, u32)) -> bool)
    ensures
        s.push(e).filter(q) == if q(e) {
            s.filter(q).push(e)
        } else {
            s.filter(q)
        },
{
    reveal(Seq::filter);
    assert(s.push(e).drop_last() =~= s);
}

/// Filtering twice, with a second predicate stronger than the first, is filtering once.
proof fn lemma_filter_filter(s: Seq<(Seq<char>, u32)>, p: spec_fn((Seq<char>, u32)) -> bool, q: spec_fn((Seq<char>, u32)) -> bool)
    requires
        forall|f: (Seq<char>, u32)| #[trigger] q(f) ==> p(f),
    ensures
        s.filter(p).filter(q) == s.filter(q),
    decreases s.len(),
{
    reveal(Seq::filter);
    if s.len() > 0 {
        lemma_filter_filter(s.drop_last(), p, q);
        let init = s.drop_last();
        assert(s =~= init.push(s.last()));
        lemma_filter_push(init, s.last(), p);
        lemma_filter_push(init, s.last(), q);
        if p(s.last()) {
            lemma_filter_push(init.filter(p), s.last(), q);
        }
    }
}

/// Features of tags the list does not set are left as they were, in order.
proof fn lemma_apply_list_keeps_others(fs: Seq<(Seq<char>, u32)>, list: Seq<(Seq<char>, u32)>, q: spec_fn((Seq<char>, u32)) -> bool)
    requires
        forall|f: (Seq<char>, u32)| #[trigger] q(f) ==> !names(list, f.0),
    ensures
        apply_list(fs, list).filter(q) == fs.filter(q),
    decreases list.len(),
{
    if list.len() > 0 {
        let x = list[0];
        let rest = list.drop_first();
        assert forall|f: (Seq<char>, u32)| #[trigger] q(f) implies !names(rest, f.0) by {
            if names(rest, f.0) {
                let k = choose|k: int| 0 <= k < rest.len() && rest[k].0 == f.0;
                assert(list[k + 1].0 == f.0);
            }
        }
        let next = set_feature(fs, x.0, x.1);
        lemma_apply_list_keeps_others(next, rest, q);
        assert(!q(x)) by {
            if q(x) {
                assert(list[0].0 == x.0);
            }
        }
        lemma_filter_push(fs.filter(other_than(x.0)), x, q);
        assert forall|f: (Seq<char>, u32)| #[trigger] q(f) implies other_than(x.0)(f) by {
            if q(f) && f.0 == x.0 {
                assert(list[0].0 == f.0);
            }
        }
        lemma_filter_filter(fs, other_than(x.0), q);
    }
}

/// A feature that the list does not set again stays.
proof fn lemma_apply_list_keeps(fs: Seq<(Seq<char>, u32)>, list: Seq<(Seq<char>, u32)>, t: Seq<char>, v: u32)
    requires
        fs.contains((t, v)),
        !names(list, t),
    ensures
        apply_list(fs, list).contains((t, v)),
    decreases list.len(),
{
    if list.len() > 0 {
        let x = list[0];
        let rest = list.drop_first();
        assert(x.0 != t);
        assert(!names(rest, t)) by {
            if names(rest, t) {
                let k = choose|k: int| 0 <= k < rest.len() && rest[k].0 == t;
                assert(list[k + 1].0 == t);
            }
        }
        broadcast use vstd::seq_lib::group_filter_ensures;
        let kept = fs.filter(other_than(x.0));
        assert(other_than(x.0)((t, v)));
        fs.lemma_filter_contains_rev(other_than(x.0), (t, v));
        assert(kept.contains((t, v)));
        let k = choose|k: int| 0 <= k < kept.len() && kept[k] == (t, v);
        assert(kept.push(x)[k] == (t, v));
        lemma_apply_list_keeps(set_feature(fs, x.0, x.1), rest, t, v);
    }
}

/// Each tag the list sets ends with the value of its last setting.
proof fn lemma_apply_list_last(fs: Seq<(Seq<char>, u32)>, list: Seq<(Seq<char>, u32)>, t: Seq<char>)
    requires
        names(list, t),
    ensures
        apply_list(fs, list).contains((t, last_value(list, t))),
    decreases list.len(),
{
    let x = list[0];
    let rest = list.drop_first();
    let next = set_feature(fs, x.0, x.1);
    if names(rest, t) {
        lemma_apply_list_last(next, rest, t);
    } else {
        assert(x.0 == t) by {
            let k = choose|k: int| 0 <= k < list.len() && list[k].0 == t;
            if k > 0 {
                assert(rest[k - 1].0 == t);
            }
        }
        let s = fs.filter(other_than(x.0)).push(x);
        assert(s[s.len() - 1] == (t, x.1));
        lemma_apply_list_keeps(next, rest, t, x.1);
    }
}

/// Distinct tags stay distinct.
proof fn lemma_apply_list_distinct(fs: Seq<(Seq<char>, u32)>, list: Seq<(Seq<char>, u32)>)
    requires
        distinct_tags(fs),
    ensures
        distinct_tags(apply_list(fs, list)),
    decreases list.len(),
{
    if list.len() > 0 {
        lemma_set_feature_distinct(fs, list[0].0, list[0].1);
        lemma_apply_list_distinct(set_feature(fs, list[0].0, list[0].1), list.drop_first());
    }
}

/// A `font-feature` entry that reads without error, over features with distinct tags, leaves
/// the tags distinct; each tag it names occurs once, with the value of the entry's last item
/// that names it; and the features of the tags it does not name stay, in their order.
pub proof fn lemma_feature_entries_set_each_tag_once(f: FontState, value: Seq<char>)
    requires
        distinct_tags(f.features),
        value.len() > 0,
        font_read(f, "font-feature"@, value).1 is Ok,
    ensures
        ({
            let r = font_read(f, "font-feature"@, value).0.features;
            let list = feature_list(split(value, ','));
            &&& distinct_tags(r)
            &&& forall|t: Seq<char>| #[trigger] names(list, t) ==> (exists|k: int|
                0 <= k < r.len() && r[k] == (t, last_value(list, t)))
            &&& r.filter(unnamed(list)) == f.features.filter(unnamed(list))
        }),
{
    crate::font_lines::lemma_font_keys_shaped();
    let items = split(value, ',');
    let list = feature_list(items);
    assert(apply_features(f.features, items).1 is None);
    lemma_apply_features_list(f.features, items);
    lemma_apply_list_distinct(f.features, list);
    assert forall|t: Seq<char>| #[trigger] names(list, t) implies (exists|k: int|
        0 <= k < apply_list(f.features, list).len() && apply_list(f.features, list)[k] == (t, last_value(list, t))) by {
        lemma_apply_list_last(f.features, list, t);
    }
    assert forall|g: (Seq<char>, u32)| #[trigger] unnamed(list)(g) implies !names(list, g.0) by {}
    lemma_apply_list_keeps_others(f.features, list, unnamed(list));
    assert(font_read(f, "font-feature"@, value).0.features == apply_features(f.features, items).0);
    assert(font_read(f, "font-feature"@, value).0.features == apply_list(f.features, list));
}

} // verus!
