//! The entries of a walk.

use vstd::prelude::*;

verus! {

/// What kind of filesystem node an entry is.
#[derive(Clone, Copy, Debug, PartialEq, Eq, Structural)]
pub enum EntryKind {
    File,
    Directory,
    Symlink,
    Other,
}

/// An instant, together with the offset of local time that is in force at it.
#[derive(Clone, Copy, Debug, PartialEq, Eq, Structural)]
pub struct Timestamp {
    /// Seconds since 1970-01-01 00:00:00 UTC; negative before it.
    pub seconds: i64,
    /// Seconds that local time is ahead of UTC; negative west of Greenwich.
    pub utc_offset: i32,
}

/// One visited filesystem node.
#[derive(Debug, PartialEq, Eq)]
pub struct Entry {
    /// Where the node lies, absolute or relative to the root of the walk.
    pub path: String,
    /// Directory levels between the root of the walk and the node; 0 for the
    /// root itself.
    pub depth: usize,
    /// The final component of the path, as it is displayed.
    pub name: String,
    pub kind: EntryKind,
    /// Length in bytes.
    pub size: u64,
    /// When the node was last modified.
    pub modified_at: Timestamp,
    /// Where a symbolic link points, `None` if that could not be read. It is
    /// looked at for symbolic links only.
    pub link_target: Option<String>,
}

impl Clone for Entry {
    fn clone(&self) -> (copy: Self)
        ensures
            copy == *self,
    {
        Entry {
            path: self.path.clone(),
            depth: self.depth,
            name: self.name.clone(),
            kind: self.kind,
            size: self.size,
            modified_at: self.modified_at,
            link_target: self.link_target.clone(),
        }
    }
}

/// The depths of the entries of a walk, in order.
pub open spec fn depths_of(entries: Seq<Entry>) -> Seq<usize> {
    Seq::new(entries.len(), |i: int| entries[i].depth)
}

/// Reads the depths off the entries of a walk.
pub fn depths(entries: &Vec<Entry>) -> (list: Vec<usize>)
    ensures
        list@ == depths_of(entries@),
{
    let mut list: Vec<usize> = Vec::new();
    let mut i: usize = 0;
    while i < entries.len()
        invariant
            i <= entries.len(),
            list@ == depths_of(entries@.take(i as int)),
        decreases entries.len() - i,
    {
        list.push(entries[i].depth);
        i += 1;
    }
    list
}

} // verus!
