//! A store with the path that led to it.

use crate::error::{outcome, Error, ErrorView};
use crate::files::Files;
use crate::path::Path;
use crate::store::{names, traverse_schema, walk, Store, StoreView};
use crate::value::Value;
use vstd::prelude::*;

verus! {

/// A store, and the path that led to it from the store it was reached from.
#[derive(Debug, PartialEq)]
pub struct Database {
    store: Store,
    path: Path,
}

/// What a [`Database`] holds.
pub struct DatabaseView {
    pub store: StoreView,
    pub path: Seq<Seq<char>>,
}

impl View for Database {
    type V = DatabaseView;

    closed spec fn view(&self) -> DatabaseView {
        DatabaseView { store: self.store@, path: self.path@ }
    }
}

/// The path of a list of segments.
fn path_of(list: Vec<String>) -> (r: Path)
    ensures
        r@ == names(list@),
{
    proof {
        Path::of_segments(list);
    }
    Path::from(list)
}

impl Database {
    /// The database of a store, reached by the empty path.
    pub fn new(store: Store) -> (r: Database)
        ensures
            r@.store == store@,
            r@.path == Seq::<Seq<char>>::empty(),
    {
        let r = Database { store, path: path_of(Vec::new()) };
        assert(r@.path =~= Seq::<Seq<char>>::empty());
        r
    }

    /// The value at `path` in the store.
    pub fn get(&self, path: Vec<String>, files: &Files) -> (r: Result<Value, Error>)
        ensures
            outcome(r) == self@.store.get(names(path@), files@),
            r matches Err(e) ==> e.worded_by_outside(),
    {
        self.store.get(&path_of(path), files)
    }

    /// The database of what lies at `path`, reached by the segments of the
    /// path that lead down the schema; none where the schema has no node for
    /// the path.
    pub fn walk(&self, path: Vec<String>) -> (r: Option<Database>)
        ensures
            match r {
                Some(database) => walk(self@.store.schema, names(path@)) matches Some(
                    (depth, _),
                ) && self@.store.sub(names(path@)) == Ok::<StoreView, ErrorView>(
                    database@.store,
                ) && database@.path == names(path@).take(depth),
                None => walk(self@.store.schema, names(path@)) is None,
            },
    {
        let path = path_of(path);
        match traverse_schema(path.clone(), self.store.schema()) {
            Some((extra_path, _)) => {
                let depth = path.len() - extra_path.len();
                let nested_path = path.take(depth);
                match self.store.sub(&path) {
                    Ok(store) => Some(Database { store, path: nested_path }),
                    Err(_) => None,
                }
            },
            None => None,
        }
    }

    /// Puts `value` at `path` in the store.
    pub fn set(&self, path: Vec<String>, value: &Value, files: &mut Files) -> (r: Result<
        (),
        Error,
    >)
        ensures
            match r {
                Ok(_) => self@.store.set(names(path@), value@, old(files)@) == (
                    Ok::<(), ErrorView>(()),
                    final(files)@,
                ),
                Err(e) => self@.store.set(names(path@), value@, old(files)@) == (
                    Err::<(), ErrorView>(e@),
                    final(files)@,
                ),
            },
            r matches Err(e) ==> e.worded_by_outside(),
    {
        self.store.set(&path_of(path), value, files)
    }
}

} // verus!
