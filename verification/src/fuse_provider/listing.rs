//! The contents of a directory, as they are sent to a reader.
use vstd::prelude::*;

use crate::errno::Errno;
use crate::fuse_provider::tablet::{Db, DbView, FileType};

verus! {

/// An entry of a directory, as it is sent.
pub struct DirEntry {
    pub ino: u64,
    /// Where a reader goes on after this entry.
    pub offset: u64,
    pub kind: FileType,
    pub name: String,
}

#[verifier::ext_equal]
pub struct DirEntryView {
    pub ino: u64,
    pub offset: u64,
    pub kind: FileType,
    pub name: Seq<char>,
}

impl View for DirEntry {
    type V = DirEntryView;

    open spec fn view(&self) -> DirEntryView {
        DirEntryView { ino: self.ino, offset: self.offset, kind: self.kind, name: self.name@ }
    }
}

/// The entries that are to be sent, until the reader's buffer is full.
pub struct Listing {
    pub entries: Vec<DirEntry>,
    /// Whether the entries end early because the next child is unknown.
    pub broken: bool,
}

/// What is to be done next for a listing.
pub enum ListingStep<'a> {
    Add(&'a DirEntry),
    Done,
    Fail(Errno),
}

/// The inode numbers in increasing order.
pub open spec fn ascending(children: Seq<u64>) -> Seq<u64> {
    children.sort_by(|a: u64, b: u64| a <= b)
}

/// The children that come after `offset`, in the order in which they are sent.
///
/// They are sent in order of increasing inode number so that, even in presence of removals or
/// deletions, the same item is never sent more than once.
pub open spec fn sent_after(children: Seq<u64>, offset: u64) -> Seq<u64> {
    ascending(children).filter(|k: u64| k > offset)
}

/// The entry for the child `k` of the directory `dir`.
pub open spec fn dir_entry(db: DbView, dir: u64, k: u64) -> DirEntryView {
    DirEntryView {
        ino: dir,
        offset: k,
        kind: FileType::RegularFile,
        name: db.store[k].md.visible_name,
    }
}

/// Whether the listing holds the entries of `keys`, up to the first that is unknown.
pub open spec fn lists_keys(l: Listing, db: DbView, dir: u64, keys: Seq<u64>) -> bool {
    &&& l.entries@.len() <= keys.len()
    &&& forall|i: int| 0 <= i < l.entries@.len() ==> db.store.contains_key(#[trigger] keys[i])
    &&& forall|i: int|
        0 <= i < l.entries@.len() ==> (#[trigger] l.entries@[i])@ == dir_entry(db, dir, keys[i])
    &&& l.broken <==> l.entries@.len() < keys.len()
    &&& l.broken ==> !db.store.contains_key(keys[l.entries@.len() as int])
}

/// Calls `slice::sort` of the standard library, which puts the numbers in increasing order.
#[verifier::external_body]
fn sort(v: &mut Vec<u64>)
    ensures
        final(v)@.to_multiset() == old(v)@.to_multiset(),
        forall|i: int, j: int| 0 <= i < j < final(v)@.len() ==> final(v)@[i] <= final(v)@[j],
{
    v.sort();
}

proof fn lemma_ascending(sorted: Seq<u64>, children: Seq<u64>)
    requires
        sorted.to_multiset() == children.to_multiset(),
        forall|i: int, j: int| 0 <= i < j < sorted.len() ==> sorted[i] <= sorted[j],
    ensures
        sorted == ascending(children),
{
    let leq = |a: u64, b: u64| a <= b;
    children.lemma_sort_by_ensures(leq);
    vstd::seq_lib::lemma_sorted_unique(sorted, children.sort_by(leq), leq);
}

/// The children that come after `offset`, in increasing order.
fn sorted_after(children: &[u64], offset: u64) -> (r: Vec<u64>)
    ensures
        r@ == sent_after(children@, offset),
{
    let mut sorted = vstd::slice::slice_to_vec(children);
    sort(&mut sorted);
    proof {
        lemma_ascending(sorted@, children@);
    }
    let ghost after = |k: u64| k > offset;
    let mut r: Vec<u64> = Vec::new();
    let mut i: usize = 0;
    while i < sorted.len()
        invariant
            i <= sorted@.len(),
            after == (|k: u64| k > offset),
            r@ == sorted@.take(i as int).filter(after),
        decreases sorted.len() - i,
    {
        let ghost next = sorted@.take(i + 1);
        assert(next.drop_last() =~= sorted@.take(i as int));
        reveal(Seq::filter);
        if sorted[i] > offset {
            r.push(sorted[i]);
        }
        i += 1;
    }
    assert(sorted@.take(sorted@.len() as int) =~= sorted@);
    r
}

impl Listing {
    /// The entries of the directory `dir` that come after `offset`.
    pub fn of(db: &Db, dir: u64, children: &[u64], offset: u64) -> (r: Self)
        ensures
            lists_keys(r, db@, dir, sent_after(children@, offset)),
    {
        let keys = sorted_after(children, offset);
        let mut entries: Vec<DirEntry> = Vec::new();
        let mut i: usize = 0;
        while i < keys.len()
            invariant
                i <= keys@.len(),
                keys@ == sent_after(children@, offset),
                entries@.len() == i,
                forall|j: int| 0 <= j < i ==> db@.store.contains_key(#[trigger] keys@[j]),
                forall|j: int|
                    0 <= j < i ==> (#[trigger] entries@[j])@ == dir_entry(db@, dir, keys@[j]),
            decreases keys.len() - i,
        {
            let child_ino: u64 = keys[i];
            let md = match db.get_metadata(child_ino) {
                None => {
                    return Listing { entries, broken: true };
                },
                Some(md) => md,
            };
            let entry = DirEntry {
                ino: dir,
                offset: child_ino,
                kind: FileType::RegularFile,
                name: md.visible_name.clone(),
            };
            entries.push(entry);
            i += 1;
        }
        Listing { entries, broken: false }
    }

    /// What is to be done once `sent` entries were added, and the last of them did or did not
    /// fill the reader's buffer.
    pub fn step(&self, sent: usize, full: bool) -> (r: ListingStep)
        ensures
            r == if full {
                ListingStep::Done
            } else if sent < self.entries@.len() {
                ListingStep::Add(&self.entries@[sent as int])
            } else if self.broken {
                ListingStep::Fail(Errno::ENOENT)
            } else {
                ListingStep::Done
            },
    {
        if full {
            ListingStep::Done
        } else if sent < self.entries.len() {
            ListingStep::Add(&self.entries[sent])
        } else if self.broken {
            ListingStep::Fail(Errno::ENOENT)
        } else {
            ListingStep::Done
        }
    }
}

} // verus!
