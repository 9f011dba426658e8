//! What holds of reading and writing, whatever the store, the path and the
//! files.

use crate::entries::{distinct, lookup, position, position_first, put, put_then_lookup};
use crate::error::ErrorView;
use crate::files::FilesView;
use crate::path::joined;
use crate::schema::SchemaView;
use crate::source::write_source;
use crate::store::{files_below, files_below_children, found, found_in_children};
use crate::store::{member_or_empty, members_of, source_path, stored, stored_in_children};
use crate::store::{value_at, value_with, walk, StoreView};
use crate::value::ValueView;
use vstd::prelude::*;

verus! {

/// What was put at a path is what lies there afterwards.
pub proof fn put_then_get(value: ValueView, path: Seq<Seq<char>>, next: ValueView)
    ensures
        value_at(path, value_with(value, path, next)) == Ok::<ValueView, ErrorView>(next),
    decreases path.len(),
{
    if path.len() > 0 {
        let below = value_with(member_or_empty(value, path[0]), path.drop_first(), next);
        put_then_lookup(members_of(value), path[0], below, path[0]);
        put_then_get(member_or_empty(value, path[0]), path.drop_first(), next);
    }
}

/// Putting a value at a path leaves alone what lies under any other member
/// of the value: a path that starts with another name leads to what it led
/// to before.
pub proof fn put_keeps_siblings(
    value: ValueView,
    path: Seq<Seq<char>>,
    next: ValueView,
    other: Seq<Seq<char>>,
)
    requires
        path.len() > 0,
        other.len() > 0,
        other[0] != path[0],
    ensures
        value_at(other, value_with(value, path, next)) == value_at(other, value),
{
    let below = value_with(member_or_empty(value, path[0]), path.drop_first(), next);
    put_then_lookup(members_of(value), path[0], below, other[0]);
    position_first(members_of(value), other[0], 0);
}

/// The members of an object keep their places when a value is put below one
/// of them, and a member that was not there comes last.
pub proof fn put_keeps_order(value: ValueView, path: Seq<Seq<char>>, next: ValueView)
    requires
        path.len() > 0,
    ensures
        forall|i: int|
            0 <= i < members_of(value).len() ==> (#[trigger] members_of(
                value_with(value, path, next),
            )[i]).0 == members_of(value)[i].0,
        lookup(members_of(value), path[0]) is Some ==> members_of(
            value_with(value, path, next),
        ).len() == members_of(value).len(),
        lookup(members_of(value), path[0]) is None ==> members_of(
            value_with(value, path, next),
        ) == members_of(value).push(
            (path[0], value_with(ValueView::Object(Seq::empty()), path.drop_first(), next)),
        ),
{
    position_first(members_of(value), path[0], 0);
}

/// The object that holds `value` at `path` and nothing else.
pub open spec fn nested(path: Seq<Seq<char>>, value: ValueView) -> ValueView
    decreases path.len(),
{
    if path.len() == 0 {
        value
    } else {
        ValueView::Object(seq![(path[0], nested(path.drop_first(), value))])
    }
}

/// Putting a value at a path inside what is no object, or inside an object
/// without members, gives exactly the objects that lead to the value.
pub proof fn put_into_nothing(start: ValueView, path: Seq<Seq<char>>, next: ValueView)
    requires
        members_of(start).len() == 0,
    ensures
        path.len() > 0 ==> value_with(start, path, next) == nested(path, next),
        value_with(ValueView::Object(Seq::empty()), path, next) == nested(path, next),
    decreases path.len(),
{
    if path.len() > 0 {
        let empty = ValueView::Object(Seq::empty());
        put_into_nothing(empty, path.drop_first(), next);
        assert(member_or_empty(start, path[0]) == empty);
        assert(member_or_empty(empty, path[0]) == empty);
        let below = nested(path.drop_first(), next);
        assert(put(members_of(start), path[0], below) =~= seq![(path[0], below)]);
        assert(put(members_of(empty), path[0], below) =~= seq![(path[0], below)]);
    }
}

/// A value in which no object has two members of one name stays so when such
/// a value is put inside it.
pub proof fn put_keeps_well_formed(value: ValueView, path: Seq<Seq<char>>, next: ValueView)
    requires
        value.well_formed(),
        next.well_formed(),
    ensures
        value_with(value, path, next).well_formed(),
    decreases path.len(),
{
    if path.len() > 0 {
        let members = members_of(value);
        let key = path[0];
        let held = member_or_empty(value, key);
        let below = value_with(held, path.drop_first(), next);
        position_first(members, key, 0);
        assert(held.well_formed()) by {
            match position(members, key, 0) {
                Some(i) => {
                    assert(members[i].1.well_formed());
                },
                None => {},
            }
        }
        put_keeps_well_formed(held, path.drop_first(), next);
        put_then_lookup(members, key, below, key);
        let after = put(members, key, below);
        assert(distinct(members));
        assert forall|i: int| 0 <= i < after.len() implies (#[trigger] after[i]).1.well_formed() by {
            match position(members, key, 0) {
                Some(at) => {
                    if i != at {
                        assert(after[i] == members[i]);
                    }
                },
                None => {
                    if i < members.len() {
                        assert(after[i] == members[i]);
                    }
                },
            }
        }
    }
}

/// What lies inside a value in which no object has two members of one name
/// is such a value too.
pub proof fn get_keeps_well_formed(path: Seq<Seq<char>>, value: ValueView)
    requires
        value.well_formed(),
        value_at(path, value) is Ok,
    ensures
        value_at(path, value)->Ok_0.well_formed(),
    decreases path.len(),
{
    if path.len() > 0 {
        if let ValueView::Object(members) = value {
            position_first(members, path[0], 0);
            if let Some(i) = position(members, path[0], 0) {
                assert(members[i].1.well_formed());
                get_keeps_well_formed(path.drop_first(), members[i].1);
            }
        }
    }
}

/// A path that the schema has no node for is an error, for reading and for
/// writing alike, and writing then changes no file.
pub proof fn unknown_path_fails(
    store: StoreView,
    path: Seq<Seq<char>>,
    value: ValueView,
    files: FilesView,
)
    requires
        walk(store.schema, path) is None,
    ensures
        store.get(path, files) == Err::<ValueView, ErrorView>(
            ErrorView::SchemaNotFound { path },
        ),
        store.set(path, value, files) == (
            Err::<(), ErrorView>(ErrorView::SchemaNotFound { path }),
            files,
        ),
        store.sub(path) is Err,
        store.sources(path) is Err,
{
}

/// The schema has no node for a path whose first segment names no child of
/// the schema's directory.
pub proof fn missing_child_is_unknown(store: StoreView, path: Seq<Seq<char>>)
    requires
        store.schema is Directory,
        path.len() > 0,
        lookup(store.schema->Directory_0, path[0]) is None,
    ensures
        walk(store.schema, path) is None,
{
}

/// Putting a value that is no object where the schema has a directory is an
/// error, and changes no file.
pub proof fn directory_wants_object(
    store: StoreView,
    path: Seq<Seq<char>>,
    value: ValueView,
    files: FilesView,
)
    requires
        walk(store.schema, path) matches Some((_, stop)) && stop is Directory,
        !(value is Object),
    ensures
        store.set(path, value, files) == (
            Err::<(), ErrorView>(ErrorView::ExpectedObjectForDirectory { path }),
            files,
        ),
{
}

/// Where a walk along the path stops at a file that can be read, putting a
/// value at the path writes the file anew with what the file held, changed
/// only at the rest of the path; every other member inside the file stays
/// as [`put_keeps_siblings`] says.
pub proof fn set_rewrites_the_file(
    store: StoreView,
    path: Seq<Seq<char>>,
    value: ValueView,
    files: FilesView,
)
    requires
        walk(store.schema, path) matches Some((depth, SchemaView::Source(source)))
            && crate::source::read_source(
            source,
            source_path(store.root, path.take(depth)),
            files,
        ) is Ok,
    ensures
        walk(store.schema, path) matches Some((depth, SchemaView::Source(source)))
            && store.set(path, value, files) == write_source(
            source,
            source_path(store.root, path.take(depth)),
            value_with(
                crate::source::read_source(
                    source,
                    source_path(store.root, path.take(depth)),
                    files,
                )->Ok_0,
                path.skip(depth),
                value,
            ),
            files,
        ),
{
}

/// Where a walk along the path stops at a file that is not there yet,
/// putting a value at the path writes the file with exactly the objects that
/// lead from the file's top to the value.
pub proof fn first_write(
    store: StoreView,
    path: Seq<Seq<char>>,
    value: ValueView,
    files: FilesView,
)
    requires
        walk(store.schema, path) matches Some((depth, SchemaView::Source(source)))
            && !files.contents.contains_key(
            source.file(source_path(store.root, path.take(depth))),
        ),
    ensures
        walk(store.schema, path) matches Some((depth, SchemaView::Source(source)))
            && store.set(path, value, files) == write_source(
            source,
            source_path(store.root, path.take(depth)),
            nested(path.skip(depth), value),
            files,
        ),
{
    let stop = walk(store.schema, path)->0;
    let depth = stop.0;
    put_into_nothing(ValueView::Object(Seq::empty()), path.skip(depth), value);
}

/// Two sets of files hold the same at a path: the file is there in both or in
/// neither, and in the same state.
pub open spec fn same_at(first: FilesView, second: FilesView, file: Seq<char>) -> bool {
    &&& first.contents.contains_key(file) == second.contents.contains_key(file)
    &&& first.contents.contains_key(file) ==> first.contents[file] == second.contents[file]
}

/// Each file below one of the first `n` children lies below a child, and the
/// other way round.
pub proof fn below_some_child(
    children: Seq<(Seq<char>, SchemaView)>,
    root: Seq<char>,
    path: Seq<Seq<char>>,
    depth: int,
    n: nat,
    file: Seq<char>,
)
    requires
        n <= children.len(),
    ensures
        files_below_children(children, root, path, depth, n).contains(file) == (exists|i: int|
            0 <= i < n && #[trigger] files_below(
                children[i].1,
                root,
                path.push(children[i].0),
                depth + 1,
            ).contains(file)),
    decreases n,
{
    if n > 0 {
        let before = files_below_children(children, root, path, depth, (n - 1) as nat);
        let last = files_below(
            children[n - 1].1,
            root,
            path.push(children[n - 1].0),
            depth + 1,
        );
        below_some_child(children, root, path, depth, (n - 1) as nat, file);
        let all = before + last;
        if all.contains(file) {
            let k = choose|k: int| 0 <= k < all.len() && all[k] == file;
            if k < before.len() {
                assert(before[k] == file);
            } else {
                assert(last[k - before.len()] == file);
            }
        }
        if before.contains(file) {
            let k = choose|k: int| 0 <= k < before.len() && before[k] == file;
            assert(all[k] == file);
        }
        if last.contains(file) {
            let k = choose|k: int| 0 <= k < last.len() && last[k] == file;
            assert(all[before.len() + k] == file);
        }
    }
}

/// What is found at a path depends on no file but those that lie below the
/// stop: with the same in each of them, the same is found.
pub proof fn get_reads_only_below(
    schema: SchemaView,
    root: Seq<char>,
    path: Seq<Seq<char>>,
    depth: int,
    first: FilesView,
    second: FilesView,
)
    requires
        forall|file: Seq<char>|
            files_below(schema, root, path, depth).contains(file) ==> same_at(
                first,
                second,
                file,
            ),
    ensures
        found(schema, root, path, depth, first) == found(schema, root, path, depth, second),
    decreases schema,
{
    match schema {
        SchemaView::Directory(children) => {
            let one = found_in_children(children, root, path, depth, first);
            let other = found_in_children(children, root, path, depth, second);
            assert forall|i: int| 0 <= i < children.len() implies one[i] == other[i] by {
                let nested_path = path.push(children[i].0);
                assert forall|file: Seq<char>|
                    files_below(children[i].1, root, nested_path, depth + 1).contains(
                        file,
                    ) implies same_at(first, second, file) by {
                    below_some_child(children, root, path, depth, children.len(), file);
                }
                get_reads_only_below(children[i].1, root, nested_path, depth + 1, first, second);
            }
            assert(one =~= other);
        },
        SchemaView::Source(source) => {
            let file = source.file(source_path(root, path.take(depth)));
            assert(files_below(schema, root, path, depth)[0] == file);
            assert(same_at(first, second, file));
        },
    }
}

/// Putting a value at a path changes no file but those that lie below the
/// stop, whether it ends well or not.
pub proof fn set_writes_only_below(
    schema: SchemaView,
    root: Seq<char>,
    path: Seq<Seq<char>>,
    value: ValueView,
    depth: int,
    files: FilesView,
    file: Seq<char>,
)
    requires
        !files_below(schema, root, path, depth).contains(file),
    ensures
        same_at(stored(schema, root, path, value, depth, files).1, files, file),
    decreases schema, 0nat,
{
    match schema {
        SchemaView::Directory(children) => {
            if let ValueView::Object(members) = value {
                set_in_children_writes_only_below(
                    children,
                    members,
                    root,
                    path,
                    depth,
                    files,
                    children.len(),
                    file,
                );
            }
        },
        SchemaView::Source(source) => {
            let written = source.file(source_path(root, path.take(depth)));
            assert(files_below(schema, root, path, depth)[0] == written);
        },
    }
}

/// What [`set_writes_only_below`] says, of the first `n` children of a
/// directory.
pub proof fn set_in_children_writes_only_below(
    children: Seq<(Seq<char>, SchemaView)>,
    members: Seq<(Seq<char>, ValueView)>,
    root: Seq<char>,
    path: Seq<Seq<char>>,
    depth: int,
    files: FilesView,
    n: nat,
    file: Seq<char>,
)
    requires
        n <= children.len(),
        !files_below_children(children, root, path, depth, children.len()).contains(file),
    ensures
        same_at(stored_in_children(children, members, root, path, depth, files, n).1, files, file),
    decreases children, n,
{
    if n > 0 {
        set_in_children_writes_only_below(
            children,
            members,
            root,
            path,
            depth,
            files,
            (n - 1) as nat,
            file,
        );
        let before = stored_in_children(children, members, root, path, depth, files, (n - 1) as nat);
        if before.0 is Ok {
            if let Some(part) = lookup(members, children[n - 1].0) {
                below_some_child(children, root, path, depth, children.len(), file);
                set_writes_only_below(
                    children[n - 1].1,
                    root,
                    path.push(children[n - 1].0),
                    part,
                    depth + 1,
                    before.1,
                    file,
                );
            }
        }
    }
}

/// Two sets of files hold the same at every path of `scope`.
pub open spec fn alike(first: FilesView, second: FilesView, scope: Set<Seq<char>>) -> bool {
    forall|file: Seq<char>| #[trigger] scope.contains(file) ==> same_at(first, second, file)
}

/// The paths written between `before` and `after`, given that `after` has
/// come from `before` by writing.
pub open spec fn added(before: FilesView, after: FilesView) -> Seq<Seq<char>> {
    after.written.skip(before.written.len() as int)
}

/// `after` has every write of `before`, in the same order, before any other.
pub open spec fn extends(before: FilesView, after: FilesView) -> bool {
    &&& before.written.len() <= after.written.len()
    &&& after.written.take(before.written.len() as int) == before.written
}

/// Putting a value at a path depends on no file but those that lie below the
/// stop. From two sets of files that hold the same in each of those, it ends
/// the same way and writes the same paths in the same order, and the two
/// sets hold the same afterwards wherever they held the same before.
pub proof fn set_reads_only_below(
    schema: SchemaView,
    root: Seq<char>,
    path: Seq<Seq<char>>,
    value: ValueView,
    depth: int,
    first: FilesView,
    second: FilesView,
    scope: Set<Seq<char>>,
)
    requires
        alike(first, second, scope),
        forall|file: Seq<char>|
            files_below(schema, root, path, depth).contains(file) ==> scope.contains(file),
    ensures
        stored(schema, root, path, value, depth, first).0 == stored(
            schema,
            root,
            path,
            value,
            depth,
            second,
        ).0,
        alike(
            stored(schema, root, path, value, depth, first).1,
            stored(schema, root, path, value, depth, second).1,
            scope,
        ),
        extends(first, stored(schema, root, path, value, depth, first).1),
        extends(second, stored(schema, root, path, value, depth, second).1),
        added(first, stored(schema, root, path, value, depth, first).1) == added(
            second,
            stored(schema, root, path, value, depth, second).1,
        ),
    decreases schema, 0nat,
{
    match schema {
        SchemaView::Directory(children) => {
            if let ValueView::Object(members) = value {
                assert forall|file: Seq<char>|
                    files_below_children(children, root, path, depth, children.len()).contains(
                        file,
                    ) implies scope.contains(file) by {}
                set_in_children_reads_only_below(
                    children,
                    members,
                    root,
                    path,
                    depth,
                    first,
                    second,
                    scope,
                    children.len(),
                );
            } else {
                assert(first.written.take(first.written.len() as int) =~= first.written);
                assert(second.written.take(second.written.len() as int) =~= second.written);
                assert(added(first, first) =~= added(second, second));
            }
        },
        SchemaView::Source(source) => {
            let whole_path = source_path(root, path.take(depth));
            let file = source.file(whole_path);
            assert(files_below(schema, root, path, depth)[0] == file);
            assert(files_below(schema, root, path, depth).contains(file));
            assert(scope.contains(file));
            let one = stored(schema, root, path, value, depth, first);
            let other = stored(schema, root, path, value, depth, second);
            assert(extends(first, one.1)) by {
                assert(one.1.written.take(first.written.len() as int) =~= first.written);
            }
            assert(extends(second, other.1)) by {
                assert(other.1.written.take(second.written.len() as int) =~= second.written);
            }
            assert(added(first, one.1) =~= added(second, other.1));
        },
    }
}

/// What [`set_reads_only_below`] says, of the first `n` children of a
/// directory.
pub proof fn set_in_children_reads_only_below(
    children: Seq<(Seq<char>, SchemaView)>,
    members: Seq<(Seq<char>, ValueView)>,
    root: Seq<char>,
    path: Seq<Seq<char>>,
    depth: int,
    first: FilesView,
    second: FilesView,
    scope: Set<Seq<char>>,
    n: nat,
)
    requires
        n <= children.len(),
        alike(first, second, scope),
        forall|file: Seq<char>|
            files_below_children(children, root, path, depth, children.len()).contains(file)
                ==> scope.contains(file),
    ensures
        stored_in_children(children, members, root, path, depth, first, n).0
            == stored_in_children(children, members, root, path, depth, second, n).0,
        alike(
            stored_in_children(children, members, root, path, depth, first, n).1,
            stored_in_children(children, members, root, path, depth, second, n).1,
            scope,
        ),
        extends(first, stored_in_children(children, members, root, path, depth, first, n).1),
        extends(second, stored_in_children(children, members, root, path, depth, second, n).1),
        added(first, stored_in_children(children, members, root, path, depth, first, n).1)
            == added(
            second,
            stored_in_children(children, members, root, path, depth, second, n).1,
        ),
    decreases children, n,
{
    if n == 0 {
        assert(first.written.take(first.written.len() as int) =~= first.written);
        assert(second.written.take(second.written.len() as int) =~= second.written);
        assert(added(first, first) =~= added(second, second));
    } else {
        let m = (n - 1) as nat;
        set_in_children_reads_only_below(
            children,
            members,
            root,
            path,
            depth,
            first,
            second,
            scope,
            m,
        );
        let one = stored_in_children(children, members, root, path, depth, first, m);
        let other = stored_in_children(children, members, root, path, depth, second, m);
        if one.0 is Ok {
            if let Some(part) = lookup(members, children[n - 1].0) {
                let nested_path = path.push(children[n - 1].0);
                assert forall|file: Seq<char>|
                    files_below(children[n - 1].1, root, nested_path, depth + 1).contains(
                        file,
                    ) implies scope.contains(file) by {
                    below_some_child(children, root, path, depth, children.len(), file);
                }
                set_reads_only_below(
                    children[n - 1].1,
                    root,
                    nested_path,
                    part,
                    depth + 1,
                    one.1,
                    other.1,
                    scope,
                );
                let one_end = stored(children[n - 1].1, root, nested_path, part, depth + 1, one.1);
                let other_end = stored(
                    children[n - 1].1,
                    root,
                    nested_path,
                    part,
                    depth + 1,
                    other.1,
                );
                grow_twice(first, one.1, one_end.1);
                grow_twice(second, other.1, other_end.1);
            }
        }
    }
}

/// Writes that follow writes: what was added is what the first added and
/// then what the second added.
pub proof fn grow_twice(start: FilesView, middle: FilesView, end: FilesView)
    requires
        extends(start, middle),
        extends(middle, end),
    ensures
        extends(start, end),
        added(start, end) == added(start, middle) + added(middle, end),
{
    assert(end.written.take(start.written.len() as int) =~= middle.written.take(
        start.written.len() as int,
    )) by {
        assert(end.written.take(middle.written.len() as int) == middle.written);
        assert forall|i: int| 0 <= i < start.written.len() implies end.written[i]
            == middle.written[i] by {
            assert(end.written.take(middle.written.len() as int)[i] == middle.written[i]);
        }
    }
    assert(added(start, end) =~= added(start, middle) + added(middle, end)) by {
        assert forall|i: int| 0 <= i < added(start, middle).len() implies added(start, end)[i]
            == added(start, middle)[i] by {
            assert(end.written.take(middle.written.len() as int)[i + start.written.len()]
                == middle.written[i + start.written.len()]);
        }
    }
}

/// No segment is empty or ends with a slash.
pub open spec fn plain(path: Seq<Seq<char>>) -> bool {
    forall|i: int| 0 <= i < path.len() ==> (#[trigger] path[i]).len() > 0 && path[i].last() != '/'
}

/// Segments joined after segments are the two joined texts with a separator
/// between them.
pub proof fn joined_twice(first: Seq<Seq<char>>, second: Seq<Seq<char>>, sep: Seq<char>)
    requires
        first.len() > 0,
        second.len() > 0,
    ensures
        joined(first + second, sep) == joined(first, sep) + sep + joined(second, sep),
    decreases second.len(),
{
    let all = first + second;
    assert(all.drop_last() =~= first + second.drop_last());
    assert(all.last() == second.last());
    if second.len() == 1 {
        assert(first + second.drop_last() =~= first);
        assert(joined(all, sep) =~= joined(first, sep) + sep + joined(second, sep));
    } else {
        joined_twice(first, second.drop_last(), sep);
        assert(joined(all, sep) =~= joined(first, sep) + sep + joined(second, sep));
    }
}

/// Plain segments joined with slashes make a text that is not empty and does
/// not end with a slash.
pub proof fn joined_plain(path: Seq<Seq<char>>)
    requires
        path.len() > 0,
        plain(path),
    ensures
        joined(path, seq!['/']).len() > 0,
        joined(path, seq!['/']).last() != '/',
{
    let last = path.last();
    assert(last.len() > 0 && last.last() != '/');
    if path.len() > 1 {
        let text = joined(path.drop_last(), seq!['/']) + seq!['/'] + last;
        assert(text.last() == last.last());
    }
}

/// The path of what lies below what lies below a root is the path of what
/// lies below the root at the two runs of segments, one after the other.
pub proof fn source_path_twice(root: Seq<char>, first: Seq<Seq<char>>, second: Seq<Seq<char>>)
    requires
        plain(first),
    ensures
        source_path(source_path(root, first), second) == source_path(root, first + second),
{
    let slash = seq!['/'];
    if first.len() == 0 {
        assert(first + second =~= second);
    } else if second.len() == 0 {
        assert(first + second =~= first);
    } else {
        joined_plain(first);
        joined_twice(first, second, slash);
        let below = source_path(root, first);
        let text = joined(first, slash);
        assert(below.len() > 0 && below.last() == text.last());
        if root.len() == 0 || root.last() == '/' {
            assert(below + slash + joined(second, slash) =~= root + (text + slash + joined(
                second,
                slash,
            )));
        } else {
            assert(below + slash + joined(second, slash) =~= root + slash + (text + slash
                + joined(second, slash)));
        }
    }
}

/// What is found from a root that lies at `before` below another root is
/// what is found from that other root with `before` in front of the path.
pub proof fn found_below(
    schema: SchemaView,
    root: Seq<char>,
    before: Seq<Seq<char>>,
    path: Seq<Seq<char>>,
    depth: int,
    files: FilesView,
)
    requires
        plain(before),
        0 <= depth <= path.len(),
    ensures
        found(schema, source_path(root, before), path, depth, files) == found(
            schema,
            root,
            before + path,
            before.len() + depth,
            files,
        ),
    decreases schema,
{
    let below = source_path(root, before);
    let whole = before + path;
    match schema {
        SchemaView::Directory(children) => {
            let one = found_in_children(children, below, path, depth, files);
            let other = found_in_children(children, root, whole, before.len() + depth, files);
            assert forall|i: int| 0 <= i < children.len() implies one[i] == other[i] by {
                assert(whole.push(children[i].0) =~= before + path.push(children[i].0));
                found_below(
                    children[i].1,
                    root,
                    before,
                    path.push(children[i].0),
                    depth + 1,
                    files,
                );
            }
            assert(one =~= other);
        },
        SchemaView::Source(source) => {
            assert(whole.take(before.len() + depth) =~= before + path.take(depth));
            assert(whole.skip(before.len() + depth) =~= path.skip(depth));
            source_path_twice(root, before, path.take(depth));
        },
    }
}

/// A walk along a path that goes on after a walk used up all of another
/// path is the walk along the two paths, one after the other.
pub proof fn walk_twice(schema: SchemaView, before: Seq<Seq<char>>, path: Seq<Seq<char>>)
    requires
        walk(schema, before) matches Some((depth, _)) && depth == before.len(),
    ensures
        walk(schema, before + path) == match walk(walk(schema, before).unwrap().1, path) {
            Some((depth, stop)) => Some((before.len() + depth, stop)),
            None => None,
        },
    decreases before.len(),
{
    let whole = before + path;
    if before.len() == 0 {
        assert(whole =~= path);
    } else {
        let children = schema->Directory_0;
        let next = lookup(children, before[0])->0;
        assert(whole[0] == before[0]);
        assert(whole.drop_first() =~= before.drop_first() + path);
        crate::store::walk_depth(next, before.drop_first());
        walk_twice(next, before.drop_first(), path);
    }
}

/// The store of what lies at a path is a view of the store: where the whole
/// of the path leads to a node of the schema, and none of its segments is
/// empty or ends with a slash, reading from the store of that node is
/// reading from this store with the path in front.
pub proof fn sub_is_a_view(
    store: StoreView,
    before: Seq<Seq<char>>,
    path: Seq<Seq<char>>,
    files: FilesView,
)
    requires
        plain(before),
        walk(store.schema, before) matches Some((depth, stop)) && depth == before.len() && walk(
            stop,
            path,
        ) is Some,
    ensures
        store.sub(before) is Ok,
        store.sub(before)->Ok_0.get(path, files) == store.get(before + path, files),
{
    let stop = walk(store.schema, before).unwrap().1;
    let sub = store.sub(before)->Ok_0;
    assert(before.take(before.len() as int) =~= before);
    walk_twice(store.schema, before, path);
    match walk(stop, path) {
        Some((depth, last)) => {
            crate::store::walk_depth(stop, path);
            found_below(last, store.root, before, path, depth, files);
        },
        None => {},
    }
}

/// What is found at a path stays the same until one of the files below its
/// stop is written: it is the same on the same files, and it is the same
/// after a value has been put at a path whose files are other files.
pub proof fn get_changes_only_by_set(
    store: StoreView,
    path: Seq<Seq<char>>,
    files: FilesView,
    elsewhere: Seq<Seq<char>>,
    value: ValueView,
)
    requires
        store.sources(path) is Ok,
        store.sources(elsewhere) is Ok,
        forall|file: Seq<char>|
            store.sources(path)->Ok_0.contains(file) ==> !store.sources(elsewhere)->Ok_0.contains(
                file,
            ),
    ensures
        store.get(path, store.set(elsewhere, value, files).1) == store.get(path, files),
{
    let here = walk(store.schema, path).unwrap();
    let there = walk(store.schema, elsewhere).unwrap();
    let after = store.set(elsewhere, value, files).1;
    assert(store.sources(path)->Ok_0 == files_below(here.1, store.root, path, here.0));
    assert(store.sources(elsewhere)->Ok_0 == files_below(
        there.1,
        store.root,
        elsewhere,
        there.0,
    ));
    assert forall|file: Seq<char>|
        files_below(here.1, store.root, path, here.0).contains(file) implies same_at(
        after,
        files,
        file,
    ) by {
        set_writes_only_below(there.1, store.root, elsewhere, value, there.0, files, file);
    }
    get_reads_only_below(here.1, store.root, path, here.0, after, files);
}

} // verus!
