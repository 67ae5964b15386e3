//! Unix paths as components, and where the command line tool of an installed
//! app bundle lives.

use vstd::prelude::*;
use vstd::string::*;

use crate::scan::{find_char, is_char, lemma_position};
use crate::settings::split;
use crate::text::{chars_of, str_eq};

verus! {

broadcast use vstd::string::group_string_axioms;

/// A component of a path: the root, `.` at the start of a relative path, `..`, or a name.
#[derive(Clone, Debug, PartialEq, Eq)]
pub enum PathPart {
    Root,
    Current,
    Parent,
    Normal(String),
}

/// A path component with its name as characters.
pub enum PartView {
    Root,
    Current,
    Parent,
    Normal(Seq<char>),
}

impl View for PathPart {
    type V = PartView;

    open spec fn view(&self) -> PartView {
        match self {
            PathPart::Root => PartView::Root,
            PathPart::Current => PartView::Current,
            PathPart::Parent => PartView::Parent,
            PathPart::Normal(name) => PartView::Normal(name@),
        }
    }
}

/// Components as views.
pub open spec fn parts_view(v: Seq<PathPart>) -> Seq<PartView> {
    v.map_values(|p: PathPart| p@)
}

/// The component a piece between separators stands for: none for an empty piece or `.`.
pub open spec fn segment_part(seg: Seq<char>) -> Option<PartView> {
    if seg.len() == 0 || seg == "."@ {
        None
    } else if seg == ".."@ {
        Some(PartView::Parent)
    } else {
        Some(PartView::Normal(seg))
    }
}

/// The components of the pieces, in order.
pub open spec fn segment_parts(segs: Seq<Seq<char>>) -> Seq<PartView>
    decreases segs.len(),
{
    if segs.len() == 0 {
        Seq::empty()
    } else {
        (match segment_part(segs[0]) {
            Some(p) => seq![p],
            None => Seq::empty(),
        }) + segment_parts(segs.drop_first())
    }
}

/// The components of a path, as `Path::components` reads them: the root where the path
/// starts with `/`, `.` where a relative path starts with it, then the pieces between
/// separators that are neither empty nor `.`.
pub open spec fn components(s: Seq<char>) -> Seq<PartView> {
    let segs = split(s, '/');
    let head = if s.len() > 0 && s[0] == '/' {
        seq![PartView::Root]
    } else if segs[0] == "."@ {
        seq![PartView::Current]
    } else {
        Seq::empty()
    };
    head + segment_parts(segs)
}

/// The path without its last component; none for an empty path or the root.
pub open spec fn parent(p: Seq<PartView>) -> Option<Seq<PartView>> {
    if p.len() == 0 || p.last() is Root {
        None
    } else {
        Some(p.drop_last())
    }
}

/// The last component, where it is a name.
pub open spec fn file_name(p: Seq<PartView>) -> Option<Seq<char>> {
    if p.len() > 0 && p.last() is Normal {
        Some(p.last()->Normal_0)
    } else {
        None
    }
}

/// The index of the last `.` of `s`, or -1.
pub open spec fn last_dot(s: Seq<char>) -> int
    decreases s.len(),
{
    if s.len() == 0 {
        -1
    } else if s.last() == '.' {
        s.len() - 1
    } else {
        last_dot(s.drop_last())
    }
}

/// The extension of the file name: what follows its last `.`, where that dot is not its
/// first character.
pub open spec fn extension(p: Seq<PartView>) -> Option<Seq<char>> {
    match file_name(p) {
        Some(name) => if last_dot(name) > 0 {
            Some(name.skip(last_dot(name) + 1))
        } else {
            None
        },
        None => None,
    }
}

/// A name component.
pub open spec fn named(n: Seq<char>) -> PartView {
    PartView::Normal(n)
}

/// Whether `p` starts with the components `q`.
pub open spec fn starts_with(p: Seq<PartView>, q: Seq<PartView>) -> bool {
    q.len() <= p.len() && p.take(q.len() as int) == q
}

/// Whether a name marks a translocated app or an update in progress.
pub open spec fn staging_name(n: Seq<char>) -> bool {
    n == "AppTranslocation"@ || (n.len() >= 18 && n.take(18) == ".muxy-beta-update-"@)
}

/// A name component that marks a translocated app or an update in progress.
pub open spec fn staging_part(p: PartView) -> bool {
    match p {
        PartView::Normal(n) => staging_name(n),
        _ => false,
    }
}

/// Where an app bundle cannot stay installed: a mounted volume, a temporary directory, a
/// translocation or update directory, or the place of a retired bundle.
pub open spec fn unsettled(b: Seq<PartView>) -> bool {
    ||| starts_with(b, seq![PartView::Root, named("Volumes"@)])
    ||| starts_with(b, seq![PartView::Root, named("tmp"@)])
    ||| starts_with(b, seq![PartView::Root, named("private"@), named("tmp"@)])
    ||| starts_with(b, seq![PartView::Root, named("private"@), named("var"@), named("folders"@)])
    ||| exists|i: int| 0 <= i < b.len() && staging_part(#[trigger] b[i])
    ||| file_name(b) == Some("previous.app"@)
}

/// The message for an executable outside an app bundle.
pub open spec fn unbundled_message() -> Seq<char> {
    "Install and open Muxy Beta.app before installing its command line tool."@
}

/// The message for a bundle that is not where it can stay.
pub open spec fn unsettled_message() -> Seq<char> {
    "Move Muxy Beta.app to Applications and reopen it before installing its command line tool."@
}

/// The components of the command line tool bundled with the app whose executable has the
/// components `p`: the bundle is the `.app` three levels up, the executable is
/// `Contents/MacOS/muxy-app` in it, and the bundle is not `unsettled`.
pub open spec fn bundled(p: Seq<PartView>) -> Result<Seq<PartView>, Seq<char>> {
    match parent(p) {
        None => Err(unbundled_message()),
        Some(p1) => match parent(p1) {
            None => Err(unbundled_message()),
            Some(p2) => match parent(p2) {
                None => Err(unbundled_message()),
                Some(b) => if extension(b) != Some("app"@) {
                    Err(unbundled_message())
                } else if file_name(p) != Some("muxy-app"@) || p1 != b + seq![
                    named("Contents"@),
                    named("MacOS"@),
                ] || unsettled(b) {
                    Err(unsettled_message())
                } else {
                    Ok(b + seq![named("Contents"@), named("MacOS"@), named("muxy"@)])
                },
            },
        },
    }
}

/// The text of a component.
pub open spec fn part_text(p: PartView) -> Seq<char> {
    match p {
        PartView::Root => "/"@,
        PartView::Current => "."@,
        PartView::Parent => ".."@,
        PartView::Normal(n) => n,
    }
}

/// The text of a path: its components joined by `/`, with none after the root.
pub open spec fn path_text(p: Seq<PartView>) -> Seq<char>
    decreases p.len(),
{
    if p.len() == 0 {
        Seq::empty()
    } else if p.len() == 1 {
        part_text(p[0])
    } else if p.len() == 2 && p[0] is Root {
        path_text(p.drop_last()) + part_text(p.last())
    } else {
        path_text(p.drop_last()) + "/"@ + part_text(p.last())
    }
}

/// The component of the piece `lo..hi` of `text`'s characters, if it stands for one.
fn piece_part(text: &str, cs: &Vec<char>, lo: usize, hi: usize) -> (r: Option<PathPart>)
    requires
        lo <= hi <= cs@.len(),
        cs@ == text@,
    ensures
        match segment_part(cs@.subrange(lo as int, hi as int)) {
            Some(p) => r matches Some(q) && q@ == p,
            None => r is None,
        },
{
    let ghost seg = cs@.subrange(lo as int, hi as int);
    proof {
        reveal_strlit(".");
        reveal_strlit("..");
    }
    if lo == hi {
        return None;
    }
    if hi - lo == 1 && cs[lo] == '.' {
        assert(seg =~= "."@);
        return None;
    }
    if hi - lo == 2 && cs[lo] == '.' && cs[lo + 1] == '.' {
        assert(seg =~= ".."@);
        return Some(PathPart::Parent);
    }
    proof {
        assert("."@.len() == 1 && "."@[0] == '.');
        assert(".."@.len() == 2 && ".."@[0] == '.' && ".."@[1] == '.');
        assert(seg.len() == hi - lo);
        assert(seg[0] == cs@[lo as int]);
        if seg.len() == 2 {
            assert(seg[1] == cs@[lo + 1]);
        }
    }
    Some(PathPart::Normal(text.substring_char(lo, hi).to_owned()))
}

/// The components of a path, as `components` says.
pub fn path_parts(path: &str) -> (r: Vec<PathPart>)
    ensures
        parts_view(r@) == components(path@),
{
    let cs = chars_of(path);
    let n = cs.len();
    assert(cs@.subrange(0, n as int) =~= path@);
    let mut out: Vec<PathPart> = Vec::new();
    let first_end = match find_char(&cs, 0, n, '/') {
        Some(k) => k,
        None => n,
    };
    proof {
        lemma_position(path@, is_char('/'));
        reveal_strlit(".");
        if first_end < n {
            assert(path@.take(first_end as int) =~= cs@.subrange(0, first_end as int));
        }
        assert(split(path@, '/')[0] == cs@.subrange(0, first_end as int));
    }
    if n > 0 && cs[0] == '/' {
        out.push(PathPart::Root);
    } else if first_end == 1 && cs[0] == '.' {
        assert(cs@.subrange(0, 1) =~= "."@);
        out.push(PathPart::Current);
    } else {
        proof {
            if cs@.subrange(0, first_end as int) == "."@ {
                assert(cs@.subrange(0, first_end as int)[0] == '.');
            }
        }
    }
    let ghost head = parts_view(out@);
    assert(head =~= components(path@).take(head.len() as int));
    let mut start: usize = 0;
    loop
        invariant
            start <= n == cs@.len(),
            cs@ == path@,
            components(path@) == parts_view(out@) + segment_parts(
                split(cs@.subrange(start as int, n as int), '/'),
            ),
        decreases n - start,
    {
        let ghost u = cs@.subrange(start as int, n as int);
        let next = find_char(&cs, start, n, '/');
        let end = match next {
            Some(k) => k,
            None => n,
        };
        proof {
            lemma_position(u, is_char('/'));
            if next is Some {
                assert(u.take(end - start) =~= cs@.subrange(start as int, end as int));
                assert(u.skip(end - start + 1) =~= cs@.subrange(end + 1, n as int));
                let rest = split(cs@.subrange(end + 1, n as int), '/');
                assert(split(u, '/') == seq![cs@.subrange(start as int, end as int)] + rest);
                assert((seq![cs@.subrange(start as int, end as int)] + rest).drop_first() =~= rest);
                assert(split(u, '/')[0] == cs@.subrange(start as int, end as int));
                assert(split(u, '/').drop_first() == rest);
            } else {
                assert(u =~= cs@.subrange(start as int, end as int));
                assert(split(u, '/')[0] == cs@.subrange(start as int, end as int));
                assert(split(u, '/').drop_first() =~= Seq::<Seq<char>>::empty());
            }
        }
        let ghost before = parts_view(out@);
        let ghost piece = match segment_part(cs@.subrange(start as int, end as int)) {
            Some(p) => seq![p],
            None => Seq::<PartView>::empty(),
        };
        match piece_part(path, &cs, start, end) {
            Some(part) => {
                out.push(part);
                assert(parts_view(out@) =~= before + piece);
            },
            None => {
                assert(before + piece =~= before);
            },
        }
        assert(before + (piece + segment_parts(split(u, '/').drop_first())) =~= parts_view(out@)
            + segment_parts(split(u, '/').drop_first()));
        match next {
            None => {
                assert(segment_parts(Seq::<Seq<char>>::empty()) =~= Seq::<PartView>::empty());
                assert(parts_view(out@) + Seq::<PartView>::empty() =~= parts_view(out@));
                return out;
            },
            Some(k) => {
                start = k + 1;
            },
        }
    }
}

/// The text of the components, as `path_text` says.
pub fn path_string(parts: &Vec<PathPart>) -> (r: String)
    ensures
        r@ == path_text(parts_view(parts@)),
{
    let ghost p = parts_view(parts@);
    let mut out = String::new();
    let mut i: usize = 0;
    proof {
        reveal_strlit("/");
    }
    while i < parts.len()
        invariant
            i <= parts@.len(),
            p == parts_view(parts@),
            out@ == path_text(p.take(i as int)),
        decreases parts@.len() - i,
    {
        assert(p.take(i + 1).drop_last() =~= p.take(i as int));
        if i > 0 && !(i == 1 && matches!(parts[0], PathPart::Root)) {
            out.append("/");
        }
        match &parts[i] {
            PathPart::Root => out.append("/"),
            PathPart::Current => out.append("."),
            PathPart::Parent => out.append(".."),
            PathPart::Normal(name) => out.append(name.as_str()),
        }
        proof {
            if i == 0 {
                assert(path_text(p.take(1)) == part_text(p.take(1)[0]));
                assert(out@ =~= path_text(p.take(1)));
            } else {
                assert(out@ =~= path_text(p.take(i + 1)));
            }
        }
        i = i + 1;
    }
    assert(p.take(p.len() as int) =~= p);
    out
}

/// A copy of a component.
fn copy_part(part: &PathPart) -> (r: PathPart)
    ensures
        r@ == part@,
{
    match part {
        PathPart::Root => PathPart::Root,
        PathPart::Current => PathPart::Current,
        PathPart::Parent => PathPart::Parent,
        PathPart::Normal(name) => PathPart::Normal(name.clone()),
    }
}

/// Whether the component is the name `name`.
fn is_named(part: &PathPart, name: &str) -> (r: bool)
    ensures
        r == (part@ == named(name@)),
{
    match part {
        PathPart::Normal(n) => str_eq(n.as_str(), name),
        _ => false,
    }
}

/// Whether the component is the root.
fn is_root(part: &PathPart) -> (r: bool)
    ensures
        r == (part@ is Root),
{
    matches!(part, PathPart::Root)
}

/// Whether the name's extension is `app`.
fn app_extension(name: &str) -> (r: bool)
    ensures
        r == (last_dot(name@) > 0 && name@.skip(last_dot(name@) + 1) == "app"@),
{
    let cs = chars_of(name);
    let n = cs.len();
    let mut i = n;
    assert(cs@.take(n as int) =~= name@);
    while i > 0 && cs[i - 1] != '.'
        invariant
            i <= n == cs@.len(),
            cs@ == name@,
            last_dot(name@) == last_dot(cs@.take(i as int)),
        decreases i,
    {
        assert(cs@.take(i as int).drop_last() =~= cs@.take(i - 1));
        i = i - 1;
    }
    if i <= 1 {
        proof {
            if i == 1 {
                assert(cs@.take(1).last() == '.');
            }
        }
        return false;
    }
    assert(cs@.take(i as int).last() == '.');
    assert(last_dot(name@) == i - 1);
    assert(name@.skip(i as int) =~= cs@.subrange(i as int, n as int));
    str_eq(name.substring_char(i, n), "app")
}

/// Whether some component among the first `len` is a staging name.
fn any_staging(p: &Vec<PathPart>, len: usize) -> (r: bool)
    requires
        len <= p@.len(),
    ensures
        r == exists|i: int| 0 <= i < len && staging_part(#[trigger] parts_view(p@).take(len as int)[i]),
{
    let ghost b = parts_view(p@).take(len as int);
    proof {
        reveal_strlit(".muxy-beta-update-");
    }
    let mut i: usize = 0;
    while i < len
        invariant
            i <= len <= p@.len(),
            b == parts_view(p@).take(len as int),
            forall|j: int| 0 <= j < i ==> !staging_part(#[trigger] b[j]),
        decreases len - i,
    {
        assert(b[i as int] == p@[i as int]@);
        if let PathPart::Normal(name) = &p[i] {
            if str_eq(name.as_str(), "AppTranslocation") {
                assert(staging_part(b[i as int]));
                return true;
            }
            let cs = chars_of(name.as_str());
            if cs.len() >= 18 {
                let head = name.as_str().substring_char(0, 18);
                assert(name@.take(18) =~= head@);
                if str_eq(head, ".muxy-beta-update-") {
                    assert(staging_part(b[i as int]));
                    return true;
                }
            }
            assert(!staging_part(b[i as int]));
        }
        i = i + 1;
    }
    false
}

/// Whether the first `len` components are `unsettled`.
fn unsettled_in(p: &Vec<PathPart>, len: usize) -> (r: bool)
    requires
        len <= p@.len(),
    ensures
        r == unsettled(parts_view(p@).take(len as int)),
{
    let ghost b = parts_view(p@).take(len as int);
    proof {
        if len >= 2 {
            assert(b.take(2) =~= seq![b[0], b[1]]);
        }
        if len >= 3 {
            assert(b.take(3) =~= seq![b[0], b[1], b[2]]);
        }
        if len >= 4 {
            assert(b.take(4) =~= seq![b[0], b[1], b[2], b[3]]);
        }
    }
    let rooted = len >= 2 && is_root(&p[0]);
    let volumes = rooted && is_named(&p[1], "Volumes");
    let tmp = rooted && is_named(&p[1], "tmp");
    let private_tmp = len >= 3 && rooted && is_named(&p[1], "private") && is_named(&p[2], "tmp");
    let folders = len >= 4 && rooted && is_named(&p[1], "private") && is_named(&p[2], "var")
        && is_named(&p[3], "folders");
    let staging = any_staging(p, len);
    let retired = len > 0 && is_named(&p[len - 1], "previous.app");
    volumes || tmp || private_tmp || folders || staging || retired
}

/// The path of the command line tool bundled with the app whose executable is at
/// `executable`, as `bundled` says; the error tells where the app must be.
pub fn bundled_target(executable: &str) -> (r: Result<String, String>)
    ensures
        match bundled(components(executable@)) {
            Ok(t) => r matches Ok(s) && s@ == path_text(t),
            Err(m) => r matches Err(e) && e@ == m,
        },
{
    let p = path_parts(executable);
    let n = p.len();
    let ghost v = parts_view(p@);
    if n < 3 || is_root(&p[n - 1]) || is_root(&p[n - 2]) || is_root(&p[n - 3]) {
        proof {
            if n >= 1 {
                assert(v.drop_last() =~= v.take(n - 1));
            }
            if n >= 2 {
                assert(v.take(n - 1).drop_last() =~= v.take(n - 2));
            }
        }
        return Err(String::from_str("Install and open Muxy Beta.app before installing its command line tool."));
    }
    let len = n - 3;
    assert(v.drop_last() =~= v.take(n - 1));
    assert(v.take(n - 1).drop_last() =~= v.take(n - 2));
    assert(v.take(n - 2).drop_last() =~= v.take(len as int));
    let ext = len > 0 && match &p[len - 1] {
        PathPart::Normal(name) => app_extension(name.as_str()),
        _ => false,
    };
    if !ext {
        return Err(String::from_str("Install and open Muxy Beta.app before installing its command line tool."));
    }
    assert(v.take(n - 1) =~= v.take(len as int) + seq![v[n - 3], v[n - 2]]);
    proof {
        if v.take(n - 1) == v.take(len as int) + seq![named("Contents"@), named("MacOS"@)] {
            assert(v.take(n - 1)[n - 3] == v[n - 3]);
            assert(v.take(n - 1)[n - 2] == v[n - 2]);
        }
    }
    if !is_named(&p[n - 1], "muxy-app") || !is_named(&p[n - 3], "Contents") || !is_named(
        &p[n - 2],
        "MacOS",
    ) || unsettled_in(&p, len) {
        return Err(String::from_str("Move Muxy Beta.app to Applications and reopen it before installing its command line tool."));
    }
    let mut out: Vec<PathPart> = Vec::new();
    let mut i: usize = 0;
    while i < len
        invariant
            i <= len <= p@.len(),
            v == parts_view(p@),
            parts_view(out@) == v.take(i as int),
        decreases len - i,
    {
        let ghost before = parts_view(out@);
        out.push(copy_part(&p[i]));
        assert(parts_view(out@) =~= before.push(p@[i as int]@));
        assert(v[i as int] == p@[i as int]@);
        assert(parts_view(out@) =~= v.take(i + 1));
        i = i + 1;
    }
    out.push(PathPart::Normal(String::from_str("Contents")));
    out.push(PathPart::Normal(String::from_str("MacOS")));
    out.push(PathPart::Normal(String::from_str("muxy")));
    assert(parts_view(out@) =~= v.take(len as int) + seq![
        named("Contents"@),
        named("MacOS"@),
        named("muxy"@),
    ]);
    Ok(path_string(&out))
}

/// The bundle of the running app that updates replace: the `.app` three levels above the
/// executable, not on a mounted volume and not translocated.
pub open spec fn update_bundle_of(p: Seq<PartView>) -> Result<Seq<PartView>, Seq<char>> {
    let missing = "Automatic updates require an installed Muxy Beta.app"@;
    match parent(p) {
        None => Err(missing),
        Some(p1) => match parent(p1) {
            None => Err(missing),
            Some(p2) => match parent(p2) {
                None => Err(missing),
                Some(b) => if extension(b) != Some("app"@) {
                    Err(missing)
                } else if starts_with(b, seq![PartView::Root, named("Volumes"@)]) || exists|i: int|
                    0 <= i < b.len() && #[trigger] b[i] == named("AppTranslocation"@) {
                    Err("Move Muxy Beta.app to Applications and reopen it before updating"@)
                } else {
                    Ok(b)
                },
            },
        },
    }
}

/// Whether some component among the first `len` is the name `name`.
fn any_named(p: &Vec<PathPart>, len: usize, name: &str) -> (r: bool)
    requires
        len <= p@.len(),
    ensures
        r == exists|i: int| 0 <= i < len && #[trigger] parts_view(p@).take(len as int)[i] == named(name@),
{
    let ghost b = parts_view(p@).take(len as int);
    let mut i: usize = 0;
    while i < len
        invariant
            i <= len <= p@.len(),
            b == parts_view(p@).take(len as int),
            forall|j: int| 0 <= j < i ==> #[trigger] b[j] != named(name@),
        decreases len - i,
    {
        assert(b[i as int] == p@[i as int]@);
        if is_named(&p[i], name) {
            return true;
        }
        i = i + 1;
    }
    false
}

/// The bundle of the running app whose executable is at `executable`, as
/// `update_bundle_of` says.
pub fn update_bundle(executable: &str) -> (r: Result<String, String>)
    ensures
        match update_bundle_of(components(executable@)) {
            Ok(b) => r matches Ok(s) && s@ == path_text(b),
            Err(m) => r matches Err(e) && e@ == m,
        },
{
    let p = path_parts(executable);
    let n = p.len();
    let ghost v = parts_view(p@);
    if n < 3 || is_root(&p[n - 1]) || is_root(&p[n - 2]) || is_root(&p[n - 3]) {
        proof {
            if n >= 1 {
                assert(v.drop_last() =~= v.take(n - 1));
            }
            if n >= 2 {
                assert(v.take(n - 1).drop_last() =~= v.take(n - 2));
            }
        }
        return Err(String::from_str("Automatic updates require an installed Muxy Beta.app"));
    }
    let len = n - 3;
    assert(v.drop_last() =~= v.take(n - 1));
    assert(v.take(n - 1).drop_last() =~= v.take(n - 2));
    assert(v.take(n - 2).drop_last() =~= v.take(len as int));
    let ext = len > 0 && match &p[len - 1] {
        PathPart::Normal(name) => app_extension(name.as_str()),
        _ => false,
    };
    if !ext {
        return Err(String::from_str("Automatic updates require an installed Muxy Beta.app"));
    }
    let ghost b = v.take(len as int);
    proof {
        if len >= 2 {
            assert(b.take(2) =~= seq![b[0], b[1]]);
        }
    }
    let volumes = len >= 2 && is_root(&p[0]) && is_named(&p[1], "Volumes");
    if volumes || any_named(&p, len, "AppTranslocation") {
        return Err(String::from_str("Move Muxy Beta.app to Applications and reopen it before updating"));
    }
    let mut out: Vec<PathPart> = Vec::new();
    let mut i: usize = 0;
    while i < len
        invariant
            i <= len <= p@.len(),
            v == parts_view(p@),
            parts_view(out@) == v.take(i as int),
        decreases len - i,
    {
        let ghost before = parts_view(out@);
        out.push(copy_part(&p[i]));
        assert(parts_view(out@) =~= before.push(p@[i as int]@));
        assert(v[i as int] == p@[i as int]@);
        assert(parts_view(out@) =~= v.take(i + 1));
        i = i + 1;
    }
    Ok(path_string(&out))
}

/// The command line tool sits beside the app's executable: where the bundle is accepted, the
/// tool's path is the executable's directory with `muxy` in place of `muxy-app`.
pub proof fn lemma_tool_sits_beside_the_executable(executable: Seq<char>)
    ensures
        match bundled(components(executable)) {
            Ok(t) => {
                let p = components(executable);
                &&& file_name(p) == Some("muxy-app"@)
                &&& parent(p) == Some(t.drop_last())
                &&& t.last() == named("muxy"@)
            },
            Err(_) => true,
        },
{
    let p = components(executable);
    if let Ok(t) = bundled(p) {
        let p1 = parent(p)->0;
        let b = parent(parent(p1)->0)->0;
        assert(t.drop_last() =~= b + seq![named("Contents"@), named("MacOS"@)]);
    }
}

} // verus!
