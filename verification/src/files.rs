//! The files of a store, held in memory.
//!
//! The library reads and writes here. Whoever runs it loads the files that
//! an operation may touch beforehand and carries what was written to disk
//! afterwards.

use crate::entries::{find, lookup, position_absent, position_found, put, put_then_lookup};
use crate::error::{ReadFailure, ReadFailureView};
use vstd::prelude::*;

verus! {

/// What is known of one file.
#[derive(Debug, PartialEq)]
pub enum FileState {
    /// The file holds this text.
    Text(String),
    /// The file is there and cannot be read; the text says why.
    Unreadable(String),
}

/// A [`FileState`] with its text as a sequence of characters.
pub enum FileStateView {
    Text(Seq<char>),
    Unreadable(Seq<char>),
}

impl View for FileState {
    type V = FileStateView;

    open spec fn view(&self) -> FileStateView {
        match self {
            FileState::Text(text) => FileStateView::Text(text@),
            FileState::Unreadable(why) => FileStateView::Unreadable(why@),
        }
    }
}

/// Files by the text of their paths, and the paths written so far.
#[derive(Debug)]
pub struct Files {
    entries: Vec<(String, FileState)>,
    written: Vec<String>,
}

/// What a [`Files`] holds: the state of each file that is there, and the paths
/// that were written, oldest first, each as often as it was written.
pub struct FilesView {
    pub contents: Map<Seq<char>, FileStateView>,
    pub written: Seq<Seq<char>>,
}

impl FilesView {
    /// The text of a file, or why there is none to be had.
    pub open spec fn read(self, path: Seq<char>) -> Result<Seq<char>, ReadFailureView> {
        if !self.contents.contains_key(path) {
            Err(ReadFailureView::NotFound)
        } else {
            match self.contents[path] {
                FileStateView::Text(text) => Ok(text),
                FileStateView::Unreadable(why) => Err(ReadFailureView::Other(why)),
            }
        }
    }

    /// The files after `text` is written to `path`.
    pub open spec fn write(self, path: Seq<char>, text: Seq<char>) -> FilesView {
        FilesView {
            contents: self.contents.insert(path, FileStateView::Text(text)),
            written: self.written.push(path),
        }
    }
}

/// The paths and states of a list of entries.
pub closed spec fn listed(entries: Seq<(String, FileState)>) -> Seq<(Seq<char>, FileStateView)> {
    Seq::new(entries.len(), |i: int| (entries[i].0@, entries[i].1@))
}

/// The map that a list of entries stands for: each path with the state of
/// its first entry.
pub closed spec fn mapped(entries: Seq<(Seq<char>, FileStateView)>) -> Map<
    Seq<char>,
    FileStateView,
> {
    Map::new(
        |path: Seq<char>| lookup(entries, path) is Some,
        |path: Seq<char>| lookup(entries, path)->0,
    )
}

impl View for Files {
    type V = FilesView;

    closed spec fn view(&self) -> FilesView {
        FilesView {
            contents: mapped(listed(self.entries@)),
            written: Seq::new(self.written.len() as nat, |i: int| self.written[i]@),
        }
    }
}

impl Files {
    /// No file, and nothing written.
    pub fn new() -> (r: Files)
        ensures
            r@.contents == Map::<Seq<char>, FileStateView>::empty(),
            r@.written == Seq::<Seq<char>>::empty(),
    {
        let r = Files { entries: Vec::new(), written: Vec::new() };
        proof {
            assert(r@.contents =~= Map::<Seq<char>, FileStateView>::empty());
            assert(r@.written =~= Seq::<Seq<char>>::empty());
        }
        r
    }

    /// Gives a file its state, in place of any state it had.
    fn put(&mut self, path: String, state: FileState)
        ensures
            final(self)@.contents == old(self)@.contents.insert(path@, state@),
            final(self)@.written == old(self)@.written,
    {
        let ghost before = listed(self.entries@);
        let ghost name = path@;
        let ghost held = state@;
        match find(&self.entries, path.as_str()) {
            Some(i) => {
                proof {
                    position_found(before, name, i as int);
                }
                self.entries.set(i, (path, state));
            },
            None => {
                proof {
                    position_absent(before, name);
                }
                self.entries.push((path, state));
            },
        }
        proof {
            let after = listed(self.entries@);
            assert(after =~= put(before, name, held));
            assert forall|other: Seq<char>| #[trigger]
                mapped(after).contains_key(other) == mapped(before).insert(
                    name,
                    held,
                ).contains_key(other) && (mapped(after).contains_key(other) ==> mapped(
                    after,
                )[other] == mapped(before).insert(name, held)[other]) by {
                put_then_lookup(before, name, held, other);
            }
            assert(mapped(after) =~= mapped(before).insert(name, held));
        }
    }

    /// Takes note of a file as it is on disk. This is no write of the store.
    pub fn load(&mut self, path: String, state: FileState)
        ensures
            final(self)@.contents == old(self)@.contents.insert(path@, state@),
            final(self)@.written == old(self)@.written,
    {
        self.put(path, state);
    }

    /// What is known of a file; nothing where the file is not there.
    pub fn get(&self, path: &str) -> (r: Option<&FileState>)
        ensures
            r is Some == self@.contents.contains_key(path@),
            r matches Some(state) ==> state@ == self@.contents[path@],
    {
        let ghost list = listed(self.entries@);
        match find(&self.entries, path) {
            Some(i) => {
                proof {
                    position_found(list, path@, i as int);
                }
                Some(&self.entries[i].1)
            },
            None => {
                proof {
                    position_absent(list, path@);
                }
                None
            },
        }
    }

    /// The text of a file.
    pub fn read(&self, path: &str) -> (r: Result<String, ReadFailure>)
        ensures
            match r {
                Ok(text) => self@.read(path@) == Ok::<Seq<char>, ReadFailureView>(text@),
                Err(cause) => self@.read(path@) == Err::<Seq<char>, ReadFailureView>(cause@),
            },
    {
        match self.get(path) {
            Some(FileState::Text(text)) => Ok(text.clone()),
            Some(FileState::Unreadable(why)) => Err(ReadFailure::Other(why.clone())),
            None => Err(ReadFailure::NotFound),
        }
    }

    /// Writes a text to a file, in place of what the file held.
    pub fn write(&mut self, path: String, text: String)
        ensures
            final(self)@ == old(self)@.write(path@, text@),
    {
        let ghost name = path@;
        let ghost before = self@;
        self.written.push(path.clone());
        self.put(path, FileState::Text(text));
        proof {
            assert(self@.written =~= before.written.push(name));
        }
    }

    /// The paths written so far, oldest first.
    pub fn written(&self) -> (r: &Vec<String>)
        ensures
            r@.len() == self@.written.len(),
            forall|i: int| 0 <= i < r@.len() ==> r@[i]@ == self@.written[i],
    {
        &self.written
    }
}

} // verus!
