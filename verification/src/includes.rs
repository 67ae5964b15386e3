//! The order in which a configuration and the files it includes are read: first in, first
//! out, each file once, and no deeper than a fixed number of includes.

use std::collections::VecDeque;

use vstd::prelude::*;
use vstd::string::*;

use crate::fonts::strings;
use crate::install::bytes_view;
use crate::text::str_eq;

verus! {

/// How many includes deep a file may be.
pub const MAX_INCLUDE_DEPTH: u32 = 32;

/// A file of the configuration waiting to be read: its path as bytes, whether it may be
/// missing, and how many includes deep it is.
#[derive(Clone, Debug, PartialEq, Eq)]
pub struct PendingFile {
    pub path: Vec<u8>,
    pub optional: bool,
    pub depth: u32,
}

/// A pending file as its path, whether it may be missing, and its depth.
pub open spec fn pending_view(f: PendingFile) -> (Seq<u8>, bool, u32) {
    (f.path@, f.optional, f.depth)
}

/// The files of a configuration still to read, in order, and the canonical paths of those
/// read so far.
pub struct IncludeQueue {
    pub pending: VecDeque<PendingFile>,
    pub loaded: Vec<Vec<u8>>,
}

/// Whether a file with this canonical path, this many includes deep, may be read after the
/// files read so far: not twice, and not too deep.
pub open spec fn admissible(loaded: Seq<Seq<u8>>, canonical: Seq<u8>, depth: u32) -> bool {
    !loaded.contains(canonical) && depth < MAX_INCLUDE_DEPTH
}

/// Whether two byte strings are equal.
fn same_bytes(a: &Vec<u8>, b: &Vec<u8>) -> (r: bool)
    ensures
        r == (a@ == b@),
{
    if a.len() != b.len() {
        return false;
    }
    let mut i: usize = 0;
    while i < a.len()
        invariant
            a@.len() == b@.len(),
            i <= a@.len(),
            forall|j: int| 0 <= j < i ==> a@[j] == b@[j],
        decreases a@.len() - i,
    {
        if a[i] != b[i] {
            return false;
        }
        i = i + 1;
    }
    assert(a@ =~= b@);
    true
}

impl IncludeQueue {
    /// The queue of a configuration whose root file is at `root`: that file, required, at
    /// depth 0; nothing read yet.
    pub fn new(root: Vec<u8>) -> (r: Self)
        ensures
            r.pending@.len() == 1,
            pending_view(r.pending@[0]) == (root@, false, 0u32),
            r.loaded@.len() == 0,
    {
        let mut pending = VecDeque::new();
        pending.push_back(PendingFile { path: root, optional: false, depth: 0 });
        IncludeQueue { pending, loaded: Vec::new() }
    }

    /// The next file to read, first in first out.
    pub fn next(&mut self) -> (r: Option<PendingFile>)
        ensures
            final(self).loaded == old(self).loaded,
            if old(self).pending@.len() == 0 {
                r is None && final(self).pending@ == old(self).pending@
            } else {
                r == Some(old(self).pending@[0]) && final(self).pending@ == old(self).pending@.drop_first()
            },
    {
        let r = self.pending.pop_front();
        proof {
            if r is Some {
                assert(self.pending@ =~= old(self).pending@.drop_first());
            }
        }
        r
    }

    /// Records that the file with this canonical path, this many includes deep, is to be
    /// read; whether it may be, as `admissible` says. A path not read before counts as read
    /// from now on, whether or not it was too deep.
    pub fn accept(&mut self, canonical: Vec<u8>, depth: u32) -> (r: bool)
        ensures
            r == admissible(bytes_view(old(self).loaded@), canonical@, depth),
            final(self).pending == old(self).pending,
            bytes_view(final(self).loaded@) == if bytes_view(old(self).loaded@).contains(canonical@) {
                bytes_view(old(self).loaded@)
            } else {
                bytes_view(old(self).loaded@).push(canonical@)
            },
    {
        let mut i: usize = 0;
        while i < self.loaded.len()
            invariant
                i <= self.loaded@.len(),
                forall|j: int| 0 <= j < i ==> (#[trigger] self.loaded@[j])@ != canonical@,
            decreases self.loaded@.len() - i,
        {
            if same_bytes(&self.loaded[i], &canonical) {
                assert(bytes_view(self.loaded@)[i as int] == canonical@);
                return false;
            }
            i = i + 1;
        }
        proof {
            assert forall|j: int| 0 <= j < bytes_view(self.loaded@).len() implies bytes_view(self.loaded@)[j]
                != canonical@ by {
                assert(bytes_view(self.loaded@)[j] == self.loaded@[j]@);
            }
        }
        let ghost before = self.loaded@;
        self.loaded.push(canonical);
        assert(bytes_view(self.loaded@) =~= bytes_view(before).push(self.loaded@[before.len() as int]@));
        depth < MAX_INCLUDE_DEPTH
    }

    /// Queues the files that a file `depth` includes deep includes, in order, one level deeper.
    pub fn enqueue(&mut self, files: Vec<(Vec<u8>, bool)>, depth: u32)
        requires
            depth < MAX_INCLUDE_DEPTH,
        ensures
            final(self).loaded == old(self).loaded,
            final(self).pending@.len() == old(self).pending@.len() + files@.len(),
            forall|k: int| 0 <= k < old(self).pending@.len() ==> #[trigger] final(self).pending@[k] == old(self).pending@[k],
            forall|k: int|
                0 <= k < files@.len() ==> pending_view(#[trigger] final(self).pending@[old(self).pending@.len() + k])
                    == (files@[k].0@, files@[k].1, (depth + 1) as u32),
    {
        let mut i: usize = 0;
        let ghost start = self.pending@;
        let mut rest = files;
        let ghost all = rest@;
        let count = rest.len();
        while rest.len() > 0
            invariant
                depth < MAX_INCLUDE_DEPTH,
                all.len() == count,
                self.loaded == old(self).loaded,
                i <= all.len(),
                rest@ == all.skip(i as int),
                self.pending@.len() == start.len() + i,
                forall|k: int| 0 <= k < start.len() ==> #[trigger] self.pending@[k] == start[k],
                forall|k: int|
                    0 <= k < i ==> pending_view(#[trigger] self.pending@[start.len() + k]) == (
                        all[k].0@,
                        all[k].1,
                        (depth + 1) as u32,
                    ),
            decreases rest@.len(),
        {
            assert(rest@[0] == all[i as int]);
            let (path, optional) = rest.remove(0);
            self.pending.push_back(PendingFile { path, optional, depth: depth + 1 });
            i = i + 1;
            assert(rest@ =~= all.skip(i as int));
        }
    }
}

/// The keys that included files supply, after an entry of `key` in a file: an entry of an
/// included file other than `config-file` adds its key, once.
pub open spec fn included_after(keys: Seq<Seq<char>>, key: Seq<char>, included: bool) -> Seq<Seq<char>> {
    if included && key != "config-file"@ && !keys.contains(key) {
        keys.push(key)
    } else {
        keys
    }
}

/// Records the key of an entry, as `included_after` says; `included` tells whether the entry
/// stands in an included file rather than in the configuration's own file.
pub fn record_included_key(keys: &mut Vec<String>, key: &str, included: bool)
    ensures
        strings(final(keys)@) == included_after(strings(old(keys)@), key@, included),
{
    if !included || str_eq(key, "config-file") {
        return;
    }
    let mut i: usize = 0;
    while i < keys.len()
        invariant
            i <= keys@.len(),
            forall|j: int| 0 <= j < i ==> (#[trigger] keys@[j])@ != key@,
        decreases keys@.len() - i,
    {
        if str_eq(keys[i].as_str(), key) {
            assert(strings(keys@)[i as int] == key@);
            return;
        }
        i = i + 1;
    }
    assert(!strings(keys@).contains(key@)) by {
        if strings(keys@).contains(key@) {
            let j = choose|j: int| 0 <= j < strings(keys@).len() && strings(keys@)[j] == key@;
            assert(keys@[j]@ == key@);
        }
    }
    let ghost before = strings(keys@);
    keys.push(key.to_string());
    assert(strings(keys@) =~= before.push(key@));
}

/// The error of a file read twice or too deep.
pub fn include_error_message() -> (r: &'static str)
    ensures
        r@ == "config-file cycle or nesting exceeds 32 files"@,
{
    "config-file cycle or nesting exceeds 32 files"
}

/// A configuration never reads a file twice: once a canonical path is accepted, accepting it
/// again fails, so the files read are all different, whatever cycle the includes form; and no
/// file deeper than the limit is accepted, so a reading that meets a cycle or too deep a
/// nesting ends with `include_error_message`.
pub proof fn lemma_files_are_read_once_and_not_too_deep(loaded: Seq<Seq<u8>>, canonical: Seq<u8>, depth: u32, later: u32)
    ensures
        admissible(loaded, canonical, depth) ==> depth < MAX_INCLUDE_DEPTH,
        !admissible(loaded.push(canonical), canonical, later),
        (loaded.no_duplicates() && admissible(loaded, canonical, depth)) ==> loaded.push(canonical).no_duplicates(),
{
    assert(loaded.push(canonical)[loaded.len() as int] == canonical);
    if loaded.no_duplicates() && admissible(loaded, canonical, depth) {
        let p = loaded.push(canonical);
        assert forall|i: int, j: int| 0 <= i < p.len() && 0 <= j < p.len() && i != j implies p[i] != p[j] by {
            if i < loaded.len() && j < loaded.len() {
                assert(p[i] == loaded[i] && p[j] == loaded[j]);
            } else if i < loaded.len() {
                assert(p[i] == loaded[i]);
                assert(loaded.contains(loaded[i]));
            } else {
                assert(p[j] == loaded[j]);
                assert(loaded.contains(loaded[j]));
            }
        }
    }
}

} // verus!
