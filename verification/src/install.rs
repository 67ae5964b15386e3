//! Installation of the command line tool as a managed symbolic link: which
//! existing link it may replace, what the receipt records, and what the user is told.

use vstd::prelude::*;
use vstd::string::*;
use vstd::utf8::*;

use crate::paths::{components, path_parts, parts_view, PathPart};
use crate::text::utf8_bytes;

verus! {

broadcast use vstd::string::group_string_axioms;

/// What the destination of the link holds before the installation.
#[derive(Clone, Debug, PartialEq, Eq)]
pub enum Destination {
    Missing,
    Link(String),
    Other,
}

/// What the destination holds, with the link's target as characters.
pub enum DestinationView {
    Missing,
    Link(Seq<char>),
    Other,
}

impl View for Destination {
    type V = DestinationView;

    open spec fn view(&self) -> DestinationView {
        match self {
            Destination::Missing => DestinationView::Missing,
            Destination::Link(p) => DestinationView::Link(p@),
            Destination::Other => DestinationView::Other,
        }
    }
}

/// The byte strings of a receipt.
pub open spec fn bytes_view(v: Seq<Vec<u8>>) -> Seq<Seq<u8>> {
    v.map_values(|b: Vec<u8>| b@)
}

/// The targets the receipt records once the link points at `target`, or why the
/// destination at `dest` must stay: a link may be replaced where it points at the same path
/// or at one the receipt manages; anything else at the destination is left alone.
pub open spec fn link_plan(
    target: Seq<char>,
    dest: Seq<char>,
    d: DestinationView,
    managed: Seq<Seq<u8>>,
) -> Result<Seq<Seq<u8>>, Seq<char>> {
    match d {
        DestinationView::Missing => Ok(seq![encode_utf8(target)]),
        DestinationView::Link(previous) => if components(previous) != components(target)
            && !managed.contains(encode_utf8(previous)) {
            Err(dest + " is an unrelated link; move it before installing Muxy."@)
        } else {
            Ok(seq![encode_utf8(target), encode_utf8(previous)])
        },
        DestinationView::Other => Err(dest + " already exists; move it before installing Muxy."@),
    }
}

/// Whether two lists of components are equal.
fn same_parts(a: &Vec<PathPart>, b: &Vec<PathPart>) -> (r: bool)
    ensures
        r == (parts_view(a@) == parts_view(b@)),
{
    if a.len() != b.len() {
        proof {
            if parts_view(a@) == parts_view(b@) {
                assert(parts_view(a@).len() == parts_view(b@).len());
            }
        }
        return false;
    }
    let mut i: usize = 0;
    while i < a.len()
        invariant
            i <= a@.len() == b@.len(),
            forall|j: int| 0 <= j < i ==> a@[j]@ == b@[j]@,
        decreases a@.len() - i,
    {
        let same = match (&a[i], &b[i]) {
            (PathPart::Root, PathPart::Root) => true,
            (PathPart::Current, PathPart::Current) => true,
            (PathPart::Parent, PathPart::Parent) => true,
            (PathPart::Normal(x), PathPart::Normal(y)) => crate::text::str_eq(x.as_str(), y.as_str()),
            _ => false,
        };
        if !same {
            assert(parts_view(a@)[i as int] != parts_view(b@)[i as int]);
            return false;
        }
        i = i + 1;
    }
    assert(parts_view(a@) =~= parts_view(b@));
    true
}

/// Whether two byte strings are equal.
fn same_bytes(a: &Vec<u8>, b: &Vec<u8>) -> (r: bool)
    ensures
        r == (a@ == b@),
{
    if a.len() != b.len() {
        return false;
    }
    let mut i: usize = 0;
    while i < a.len()
        invariant
            i <= a@.len() == b@.len(),
            forall|j: int| 0 <= j < i ==> a@[j] == b@[j],
        decreases a@.len() - i,
    {
        if a[i] != b[i] {
            return false;
        }
        i = i + 1;
    }
    assert(a@ =~= b@);
    true
}

/// The targets the receipt records once the link at `dest` points at `target`, or why the
/// destination must stay, as `link_plan` says.
pub fn link_targets(target: &str, dest: &str, destination: &Destination, managed: &Vec<Vec<u8>>) -> (r:
    Result<Vec<Vec<u8>>, String>)
    ensures
        match link_plan(target@, dest@, destination@, bytes_view(managed@)) {
            Ok(t) => r matches Ok(v) && bytes_view(v@) == t,
            Err(m) => r matches Err(e) && e@ == m,
        },
{
    match destination {
        Destination::Missing => {
            let mut v: Vec<Vec<u8>> = Vec::new();
            v.push(utf8_bytes(target));
            assert(bytes_view(v@) =~= seq![encode_utf8(target@)]);
            Ok(v)
        },
        Destination::Link(previous) => {
            let same = same_parts(&path_parts(previous.as_str()), &path_parts(target));
            let previous_bytes = utf8_bytes(previous.as_str());
            let mut known = false;
            let mut i: usize = 0;
            while i < managed.len()
                invariant
                    i <= managed@.len(),
                    previous_bytes@ == encode_utf8(previous@),
                    known == exists|j: int| 0 <= j < i && managed@[j]@ == previous_bytes@,
                decreases managed@.len() - i,
            {
                if same_bytes(&managed[i], &previous_bytes) {
                    known = true;
                }
                i = i + 1;
            }
            proof {
                if known {
                    let j = choose|j: int| 0 <= j < managed@.len() && managed@[j]@ == previous_bytes@;
                    assert(bytes_view(managed@)[j] == encode_utf8(previous@));
                }
                if bytes_view(managed@).contains(encode_utf8(previous@)) {
                    let j = choose|j: int|
                        0 <= j < bytes_view(managed@).len() && bytes_view(managed@)[j] == encode_utf8(
                            previous@,
                        );
                    assert(managed@[j]@ == previous_bytes@);
                }
            }
            if !same && !known {
                let mut message = String::from_str(dest);
                message.append(" is an unrelated link; move it before installing Muxy.");
                return Err(message);
            }
            let mut v: Vec<Vec<u8>> = Vec::new();
            v.push(utf8_bytes(target));
            v.push(previous_bytes);
            assert(bytes_view(v@) =~= seq![encode_utf8(target@), encode_utf8(previous@)]);
            Ok(v)
        },
        Destination::Other => {
            let mut message = String::from_str(dest);
            message.append(" already exists; move it before installing Muxy.");
            Err(message)
        },
    }
}

/// What the destination holds when the link is about to be renamed into place.
#[derive(Clone, Copy, Debug, PartialEq, Eq)]
pub enum LinkCheck {
    Missing,
    Present { device: u64, inode: u64 },
    Failed,
}

/// Whether the destination is as it was when the installation began: still missing, or the
/// same file (device and inode) as the link found then.
pub open spec fn still_unchanged(before: Option<(u64, u64)>, after: LinkCheck) -> bool {
    match (after, before) {
        (LinkCheck::Missing, None) => true,
        (LinkCheck::Present { device, inode }, Some(b)) => device == b.0 && inode == b.1,
        _ => false,
    }
}

/// Whether the destination is as it was when the installation began.
pub fn unchanged(before: Option<(u64, u64)>, after: LinkCheck) -> (r: bool)
    ensures
        r == still_unchanged(before, after),
{
    match (after, before) {
        (LinkCheck::Missing, None) => true,
        (LinkCheck::Present { device, inode }, Some(b)) => device == b.0 && inode == b.1,
        _ => false,
    }
}

/// The title and message that report an installation: where the tool went and how to run
/// it (`on_path` tells whether its directory is on the `PATH`), or the error.
pub open spec fn install_report(result: Result<Seq<char>, Seq<char>>, on_path: bool) -> (Seq<char>, Seq<char>) {
    match result {
        Ok(path) => (
            "Command Line Tool Installed"@,
            "Installed "@ + path + ".\n\n"@ + if on_path {
                "Run muxy --help in your terminal."@
            } else {
                "Add ~/.local/bin to your PATH. For this shell, run:\nexport PATH=\"$HOME/.local/bin:$PATH\""@
            },
        ),
        Err(e) => ("Could Not Install Command Line Tool"@, e),
    }
}

/// The title and message that report an installation, as `install_report` says.
pub fn installation_message(result: Result<String, String>, on_path: bool) -> (r: (&'static str, String))
    ensures
        (r.0@, r.1@) == install_report(
            match result {
                Ok(p) => Ok(p@),
                Err(e) => Err(e@),
            },
            on_path,
        ),
{
    match result {
        Ok(path) => {
            let mut message = String::from_str("Installed ");
            message.append(path.as_str());
            message.append(".\n\n");
            if on_path {
                message.append("Run muxy --help in your terminal.");
            } else {
                message.append(
                    "Add ~/.local/bin to your PATH. For this shell, run:\nexport PATH=\"$HOME/.local/bin:$PATH\"",
                );
            }
            ("Command Line Tool Installed", message)
        },
        Err(error) => ("Could Not Install Command Line Tool", error),
    }
}

/// A link that an installation made can be replaced by a later one: the receipt of any
/// installation of `target` lets an installation of `next` replace a link to `target`.
pub proof fn lemma_installed_links_stay_managed(
    target: Seq<char>,
    next: Seq<char>,
    dest: Seq<char>,
    d: DestinationView,
    managed: Seq<Seq<u8>>,
)
    ensures
        match link_plan(target, dest, d, managed) {
            Ok(receipt) => link_plan(next, dest, DestinationView::Link(target), receipt) is Ok,
            Err(_) => true,
        },
{
    if let Ok(receipt) = link_plan(target, dest, d, managed) {
        assert(receipt[0] == encode_utf8(target));
        assert(receipt.contains(encode_utf8(target)));
    }
}

} // verus!
