//! Listing the files under a directory.

use vstd::prelude::*;
use vstd::string::*;

use crate::path::{slash_joined, utf8_lossy, MPath};

verus! {

/// What a path leads to.
#[derive(Debug)]
pub enum Entry<T, L> {
    Tree(T),
    Leaf(L),
}

/// The path leads to a file, where a directory was expected.
#[derive(Debug)]
pub struct NotADirectory {
    pub path: MPath,
}

impl NotADirectory {
    /// What the user is told.
    pub fn message(&self) -> (message: String)
        ensures
            message@ == utf8_lossy(slash_joined(self.path@))
                + " is a file, but expected to be a directory"@,
    {
        let mut message = self.path.text();
        message.append(" is a file, but expected to be a directory");
        message
    }
}

/// The directory to list, given what was found at `path`: none when nothing was, and
/// an error when a file was. Only the first find counts.
pub fn find_directory<T, L>(path: &MPath, entries: Vec<Entry<T, L>>) -> (directory: Result<
    Option<T>,
    NotADirectory,
>)
    ensures
        match directory {
            Ok(None) => entries@.len() == 0,
            Ok(Some(tree)) => entries@.len() > 0 && entries@[0] == Entry::<T, L>::Tree(tree),
            Err(error) => entries@.len() > 0 && entries@[0] is Leaf && error.path@ == path@,
        },
{
    let mut entries = entries;
    if entries.len() == 0 {
        return Ok(None);
    }
    match entries.swap_remove(0) {
        Entry::Tree(tree) => Ok(Some(tree)),
        Entry::Leaf(_) => Err(NotADirectory { path: path.clone() }),
    }
}

} // verus!
