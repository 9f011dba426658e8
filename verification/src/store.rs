//! The store: a walk down the schema along a path finds the file, and the
//! rest of the path finds the place inside the value that the file holds.

use crate::entries::{find, lookup, position_absent, position_found, put};
use crate::error::{outcome, Error, ErrorView, ReadFailureView};
use crate::files::{Files, FilesView};
use crate::laws::{get_keeps_well_formed, put_keeps_well_formed};
use crate::order::sorted_distinct;
use crate::path::{joined, Path};
use crate::schema::{child_is_smaller, children_view, directory_view, Schema, SchemaView};
use crate::sequence::{all_ok, all_ok_fails, all_ok_succeeds};
use crate::source::{read_source, write_source, Source};
use crate::value::{members_view, object_view, Value, ValueView};
use vstd::prelude::*;

verus! {

/// The path of what lies at `consumed` below `root`: the root, a slash where
/// the root does not end with one, and the segments with slashes between
/// them. With no segment it is the root itself, and with an empty root it is
/// the segments alone.
pub open spec fn source_path(root: Seq<char>, consumed: Seq<Seq<char>>) -> Seq<char> {
    if consumed.len() == 0 {
        root
    } else if root.len() == 0 || root.last() == '/' {
        root + joined(consumed, seq!['/'])
    } else {
        root + seq!['/'] + joined(consumed, seq!['/'])
    }
}

/// Where a walk down the schema along `path` stops, and after how many
/// segments: at a file, or in the directory that the whole path leads to.
/// There is no stop where a directory has no child of the next segment's
/// name.
pub open spec fn walk(schema: SchemaView, path: Seq<Seq<char>>) -> Option<(int, SchemaView)>
    decreases path.len(),
{
    match schema {
        SchemaView::Directory(children) => {
            if path.len() == 0 {
                Some((0, schema))
            } else {
                match lookup(children, path[0]) {
                    Some(next) => match walk(next, path.drop_first()) {
                        Some((depth, stop)) => Some((depth + 1, stop)),
                        None => None,
                    },
                    None => None,
                }
            }
        },
        SchemaView::Source(_) => Some((0, schema)),
    }
}

/// A walk uses up no more segments than the path has, and all of them where
/// it stops in a directory.
pub proof fn walk_depth(schema: SchemaView, path: Seq<Seq<char>>)
    ensures
        walk(schema, path) matches Some((depth, stop)) ==> 0 <= depth <= path.len() && (
        stop is Directory ==> depth == path.len()),
    decreases path.len(),
{
    if let SchemaView::Directory(children) = schema {
        if path.len() > 0 {
            if let Some(next) = lookup(children, path[0]) {
                walk_depth(next, path.drop_first());
            }
        }
    }
}

/// Where a walk down a well-formed schema stops, the schema is well formed.
pub proof fn walk_well_formed(schema: SchemaView, path: Seq<Seq<char>>)
    requires
        schema.well_formed(),
    ensures
        walk(schema, path) matches Some((_, stop)) ==> stop.well_formed(),
    decreases path.len(),
{
    if let SchemaView::Directory(children) = schema {
        if path.len() > 0 {
            crate::entries::position_first(children, path[0], 0);
            if let Some(i) = crate::entries::position(children, path[0], 0) {
                assert(children[i].1.well_formed());
                walk_well_formed(children[i].1, path.drop_first());
            }
        }
    }
}

/// What lies at `path` inside a value: the value itself for the empty path,
/// else what lies at the rest of the path inside the member named by the
/// first segment.
pub open spec fn value_at(path: Seq<Seq<char>>, value: ValueView) -> Result<
    ValueView,
    ErrorView,
>
    decreases path.len(),
{
    if path.len() == 0 {
        Ok(value)
    } else {
        match value {
            ValueView::Object(members) => match lookup(members, path[0]) {
                Some(next) => value_at(path.drop_first(), next),
                None => Err(ErrorView::ValueNotFound { path }),
            },
            _ => Err(ErrorView::ValueNotFound { path }),
        }
    }
}

/// The members of an object; none for any other value.
pub open spec fn members_of(value: ValueView) -> Seq<(Seq<char>, ValueView)> {
    match value {
        ValueView::Object(members) => members,
        _ => Seq::empty(),
    }
}

/// What a name leads to in a value that is being written into: what the
/// member of that name holds, or else an object without members.
pub open spec fn member_or_empty(value: ValueView, key: Seq<char>) -> ValueView {
    match lookup(members_of(value), key) {
        Some(held) => held,
        None => ValueView::Object(Seq::empty()),
    }
}

/// The value after `next` is put at `path` inside it. The empty path puts
/// `next` in place of the whole. Otherwise the value is taken for an object,
/// one without members where it is none, and the member named by the first
/// segment is given what results below it; every other member stays.
pub open spec fn value_with(value: ValueView, path: Seq<Seq<char>>, next: ValueView) -> ValueView
    decreases path.len(),
{
    if path.len() == 0 {
        next
    } else {
        ValueView::Object(
            put(
                members_of(value),
                path[0],
                value_with(member_or_empty(value, path[0]), path.drop_first(), next),
            ),
        )
    }
}

/// The object that gives each child's name the value found below that child,
/// if a value was found below every child.
pub open spec fn gathered(
    children: Seq<(Seq<char>, SchemaView)>,
    found: Result<Seq<ValueView>, ErrorView>,
) -> Result<ValueView, ErrorView> {
    match found {
        Ok(values) => Ok(
            ValueView::Object(Seq::new(children.len(), |i: int| (children[i].0, values[i]))),
        ),
        Err(e) => Err(e),
    }
}

/// What lies at `path`, given that a walk along its first `depth` segments
/// stopped at `schema`. Below a directory it is the object of what lies
/// below each child, in the children's order; a failure below a child is the
/// failure of the whole, the first in that order. At a file it is what lies
/// at the rest of the path inside the value that the file holds.
pub open spec fn found(
    schema: SchemaView,
    root: Seq<char>,
    path: Seq<Seq<char>>,
    depth: int,
    files: FilesView,
) -> Result<ValueView, ErrorView>
    decreases schema,
{
    match schema {
        SchemaView::Directory(children) => gathered(
            children,
            all_ok(found_in_children(children, root, path, depth, files)),
        ),
        SchemaView::Source(source) => match read_source(
            source,
            source_path(root, path.take(depth)),
            files,
        ) {
            Ok(whole) => value_at(path.skip(depth), whole),
            Err(e) => Err(e),
        },
    }
}

/// What [`found`] gives below each child of a directory.
pub open spec fn found_in_children(
    children: Seq<(Seq<char>, SchemaView)>,
    root: Seq<char>,
    path: Seq<Seq<char>>,
    depth: int,
    files: FilesView,
) -> Seq<Result<ValueView, ErrorView>>
    decreases children,
{
    Seq::new(
        children.len(),
        |i: int|
            if 0 <= i < children.len() {
                found(children[i].1, root, path.push(children[i].0), depth + 1, files)
            } else {
                Ok(ValueView::Null)
            },
    )
}

/// The value that a write starts from: what the file holds or, where there
/// is no file yet, an object without members. Any other failure to read
/// stands.
pub open spec fn prior(read: Result<ValueView, ErrorView>) -> Result<ValueView, ErrorView> {
    match read {
        Err(ErrorView::ReadSource { cause: ReadFailureView::NotFound, .. }) => Ok(
            ValueView::Object(Seq::empty()),
        ),
        _ => read,
    }
}

/// What putting `value` at `path` does, given that a walk along the first
/// `depth` segments of the path stopped at `schema`: how it ends, and the
/// files after it.
///
/// Below a directory the value must be an object. Each child whose name the
/// object has a member of is given what that member holds, in the children's
/// order, until one fails; a child without a member is left alone, and so is
/// a member without a child. At a file the value is put at the rest of the
/// path inside what the file holds, and the file is written anew.
pub open spec fn stored(
    schema: SchemaView,
    root: Seq<char>,
    path: Seq<Seq<char>>,
    value: ValueView,
    depth: int,
    files: FilesView,
) -> (Result<(), ErrorView>, FilesView)
    decreases schema, 0nat,
{
    match schema {
        SchemaView::Directory(children) => match value {
            ValueView::Object(members) => stored_in_children(
                children,
                members,
                root,
                path,
                depth,
                files,
                children.len(),
            ),
            _ => (Err(ErrorView::ExpectedObjectForDirectory { path }), files),
        },
        SchemaView::Source(source) => {
            let whole_path = source_path(root, path.take(depth));
            match prior(read_source(source, whole_path, files)) {
                Ok(whole) => write_source(
                    source,
                    whole_path,
                    value_with(whole, path.skip(depth), value),
                    files,
                ),
                Err(e) => (Err(e), files),
            }
        },
    }
}

/// What [`stored`] does below the first `n` children of a directory.
pub open spec fn stored_in_children(
    children: Seq<(Seq<char>, SchemaView)>,
    members: Seq<(Seq<char>, ValueView)>,
    root: Seq<char>,
    path: Seq<Seq<char>>,
    depth: int,
    files: FilesView,
    n: nat,
) -> (Result<(), ErrorView>, FilesView)
    decreases children, n,
{
    if n == 0 || n > children.len() {
        (Ok(()), files)
    } else {
        let before = stored_in_children(children, members, root, path, depth, files, (n - 1) as nat);
        match before.0 {
            Ok(_) => match lookup(members, children[n - 1].0) {
                Some(part) => stored(
                    children[n - 1].1,
                    root,
                    path.push(children[n - 1].0),
                    part,
                    depth + 1,
                    before.1,
                ),
                None => before,
            },
            Err(_) => before,
        }
    }
}

/// Once a child has failed, the later children are not touched.
pub proof fn stored_stops(
    children: Seq<(Seq<char>, SchemaView)>,
    members: Seq<(Seq<char>, ValueView)>,
    root: Seq<char>,
    path: Seq<Seq<char>>,
    depth: int,
    files: FilesView,
    n: nat,
    m: nat,
)
    requires
        n <= m <= children.len(),
        stored_in_children(children, members, root, path, depth, files, n).0 is Err,
    ensures
        stored_in_children(children, members, root, path, depth, files, m) == stored_in_children(
            children,
            members,
            root,
            path,
            depth,
            files,
            n,
        ),
    decreases m,
{
    if n < m {
        stored_stops(children, members, root, path, depth, files, n, (m - 1) as nat);
    }
}

/// Joins a root with the segments below it.
pub fn join_root(root: &str, consumed: &Path) -> (r: String)
    ensures
        r@ == source_path(root@, consumed@),
{
    let mut whole = root.to_owned();
    if consumed.is_empty() {
        return whole;
    }
    let n = root.unicode_len();
    proof {
        reveal_strlit("/");
    }
    if n > 0 && root.get_char(n - 1) != '/' {
        whole.append("/");
    }
    let below = consumed.to_path();
    whole.append(below.as_str());
    whole
}

/// Walks down the schema along the path. Gives what is left of the path at
/// the stop, and the schema there.
pub fn traverse_schema(path: Path, schema: &Schema) -> (r: Option<(Path, &Schema)>)
    ensures
        match r {
            Some((rest, stop)) => walk(schema@, path@) matches Some((depth, reached))
                && reached == stop@ && 0 <= depth <= path@.len() && rest@ == path@.skip(depth),
            None => walk(schema@, path@) is None,
        },
    decreases path@.len(),
{
    match schema {
        Schema::Directory(children) => {
            proof {
                directory_view(*children);
            }
            if path.is_empty() {
                assert(path@.skip(0) =~= path@);
                return Some((path, schema));
            }
            let key = path.first();
            let next_path = path.rest();
            match find(children, key.as_str()) {
                Some(i) => {
                    proof {
                        position_found(children_view(children@), key@, i as int);
                        walk_depth(children[i as int].1@, next_path@);
                    }
                    match traverse_schema(next_path, &children[i].1) {
                        Some((rest, stop)) => {
                            proof {
                                let below = walk(children[i as int].1@, next_path@)->0;
                                let depth = below.0;
                                assert(path@.drop_first().skip(depth) =~= path@.skip(depth + 1));
                            }
                            Some((rest, stop))
                        },
                        None => None,
                    }
                },
                None => {
                    proof {
                        position_absent(children_view(children@), key@);
                    }
                    None
                },
            }
        },
        leaf => {
            assert(path@.skip(0) =~= path@);
            Some((path, leaf))
        },
    }
}

/// Finds what lies at `path` inside a value.
pub fn get_in_value(path: Path, value: Value) -> (r: Result<Value, Error>)
    ensures
        outcome(r) == value_at(path@, value@),
        value@.well_formed() ==> (r matches Ok(part) ==> part@.well_formed()),
        r matches Err(e) ==> e.worded_by_outside(),
    decreases path@.len(),
{
    proof {
        if value@.well_formed() && value_at(path@, value@) is Ok {
            get_keeps_well_formed(path@, value@);
        }
    }
    if path.is_empty() {
        return Ok(value);
    }
    match value {
        Value::Object(mut members) => {
            proof {
                object_view(members);
            }
            let ghost listed = members_view(members@);
            let key = path.first();
            match find(&members, key.as_str()) {
                Some(i) => {
                    proof {
                        position_found(listed, key@, i as int);
                    }
                    let next_path = path.rest();
                    let (_, next_value) = members.remove(i);
                    get_in_value(next_path, next_value)
                },
                None => {
                    proof {
                        position_absent(listed, key@);
                    }
                    Err(Error::ValueNotFound { path })
                },
            }
        },
        _ => Err(Error::ValueNotFound { path }),
    }
}

/// An object without members.
fn empty_object() -> (r: Value)
    ensures
        r@ == ValueView::Object(Seq::empty()),
{
    let members: Vec<(String, Value)> = Vec::new();
    proof {
        object_view(members);
        assert(members_view(members@) =~= Seq::<(Seq<char>, ValueView)>::empty());
    }
    Value::Object(members)
}

/// Puts `next` at `path` inside a value. Nothing keeps this from being done.
pub fn set_in_value(value: Value, path: Path, next: Value) -> (r: Result<Value, Error>)
    ensures
        r matches Ok(whole) && whole@ == value_with(value@, path@, next@),
        value@.well_formed() && next@.well_formed() ==> (r matches Ok(whole)
            ==> whole@.well_formed()),
    decreases path@.len(),
{
    proof {
        if value@.well_formed() && next@.well_formed() {
            put_keeps_well_formed(value@, path@, next@);
        }
    }
    if path.is_empty() {
        return Ok(next);
    }
    let ghost before = members_of(value@);
    let mut members = match value {
        Value::Object(members) => {
            proof {
                object_view(members);
            }
            members
        },
        _ => Vec::new(),
    };
    assert(members_view(members@) =~= before);
    let key = path.first();
    let rest = path.rest();
    match find(&members, key.as_str()) {
        Some(i) => {
            proof {
                position_found(before, key@, i as int);
            }
            let (name, held) = members.remove(i);
            match set_in_value(held, rest, next) {
                Ok(below) => {
                    members.insert(i, (name, below));
                },
                Err(e) => {
                    return Err(e);
                },
            }
        },
        None => {
            proof {
                position_absent(before, key@);
            }
            match set_in_value(empty_object(), rest, next) {
                Ok(below) => {
                    members.push((key.clone(), below));
                },
                Err(e) => {
                    return Err(e);
                },
            }
        },
    }
    proof {
        object_view(members);
        assert(members_view(members@) =~= put(
            before,
            path@[0],
            value_with(member_or_empty(value@, path@[0]), path@.drop_first(), next@),
        ));
    }
    Ok(Value::Object(members))
}

/// Finds what lies at `path`, given that a walk along its first `depth`
/// segments stopped at `schema`.
pub fn get_in_schema(schema: &Schema, root: &str, path: Path, depth: usize, files: &Files) -> (r:
    Result<Value, Error>)
    requires
        depth <= path@.len(),
    ensures
        outcome(r) == found(schema@, root@, path@, depth as int, files@),
        schema@.well_formed() ==> (r matches Ok(value) ==> value@.well_formed()),
        r matches Err(e) ==> e.worded_by_outside(),
    decreases schema,
{
    match schema {
        Schema::Directory(children) => {
            let ghost listed = children_view(children@);
            let ghost results = found_in_children(listed, root@, path@, depth as int, files@);
            let mut members: Vec<(String, Value)> = Vec::new();
            let mut i: usize = 0;
            proof {
                directory_view(*children);
            }
            while i < children.len()
                invariant
                    i <= children.len(),
                    depth <= path@.len(),
                    *schema == Schema::Directory(*children),
                    schema@ == SchemaView::Directory(listed),
                    listed == children_view(children@),
                    results == found_in_children(listed, root@, path@, depth as int, files@),
                    members.len() == i,
                    forall|j: int|
                        0 <= j < i ==> members[j].0@ == children[j].0@ && results[j] == Ok::<
                            ValueView,
                            ErrorView,
                        >(members[j].1@),
                    schema@.well_formed() ==> forall|j: int|
                        0 <= j < i ==> (#[trigger] members[j]).1@.well_formed(),
                decreases children.len() - i,
            {
                proof {
                    child_is_smaller(*schema, i as int);
                }
                let nested_path = path.append(children[i].0.as_str());
                proof {
                    nested_path.countable();
                }
                match get_in_schema(&children[i].1, root, nested_path, depth + 1, files) {
                    Ok(value) => {
                        members.push((children[i].0.clone(), value));
                    },
                    Err(e) => {
                        proof {
                            all_ok_fails(results, i as int);
                        }
                        return Err(e);
                    },
                }
                i += 1;
            }
            proof {
                all_ok_succeeds(results);
                object_view(members);
                let values = Seq::new(results.len(), |i: int| results[i]->Ok_0);
                assert(members_view(members@) =~= Seq::new(
                    listed.len(),
                    |i: int| (listed[i].0, values[i]),
                ));
                if schema@.well_formed() {
                    sorted_distinct(listed);
                    assert forall|j: int| 0 <= j < members.len() implies (#[trigger] members_view(
                        members@,
                    )[j]).1.well_formed() by {
                        assert(members[j].1@.well_formed());
                    }
                }
            }
            Ok(Value::Object(members))
        },
        Schema::Source(source) => {
            let consumed = path.take(depth);
            let source_path = join_root(root, &consumed);
            match source.read(source_path.as_str(), files) {
                Ok(whole) => get_in_value(path.skip(depth), whole),
                Err(e) => Err(e),
            }
        },
    }
}

/// Puts `value` at `path`, given that a walk along the first `depth` segments
/// of the path stopped at `schema`.
pub fn set_in_schema(
    schema: &Schema,
    root: &str,
    path: Path,
    value: &Value,
    depth: usize,
    files: &mut Files,
) -> (r: Result<(), Error>)
    requires
        depth <= path@.len(),
    ensures
        match r {
            Ok(_) => stored(schema@, root@, path@, value@, depth as int, old(files)@) == (
                Ok::<(), ErrorView>(()),
                final(files)@,
            ),
            Err(e) => stored(schema@, root@, path@, value@, depth as int, old(files)@) == (
                Err::<(), ErrorView>(e@),
                final(files)@,
            ),
        },
        r matches Err(e) ==> e.worded_by_outside(),
    decreases schema,
{
    match schema {
        Schema::Directory(children) => {
            proof {
                directory_view(*children);
            }
            let members = match value.as_object() {
                Some(members) => members,
                None => {
                    return Err(Error::ExpectedObjectForDirectory { path });
                },
            };
            let ghost listed = children_view(children@);
            let ghost given = members_view(members@);
            let ghost start = files@;
            let mut i: usize = 0;
            while i < children.len()
                invariant
                    i <= children.len(),
                    depth <= path@.len(),
                    *schema == Schema::Directory(*children),
                    schema@ == SchemaView::Directory(listed),
                    value@ == ValueView::Object(given),
                    start == old(files)@,
                    listed == children_view(children@),
                    given == members_view(members@),
                    stored_in_children(
                        listed,
                        given,
                        root@,
                        path@,
                        depth as int,
                        start,
                        i as nat,
                    ) == (Ok::<(), ErrorView>(()), files@),
                decreases children.len() - i,
            {
                proof {
                    child_is_smaller(*schema, i as int);
                }
                let key = children[i].0.as_str();
                let nested_path = path.append(key);
                proof {
                    nested_path.countable();
                }
                match find(members, key) {
                    Some(j) => {
                        proof {
                            position_found(given, key@, j as int);
                        }
                        match set_in_schema(
                            &children[i].1,
                            root,
                            nested_path,
                            &members[j].1,
                            depth + 1,
                            files,
                        ) {
                            Ok(_) => {},
                            Err(e) => {
                                proof {
                                    stored_stops(
                                        listed,
                                        given,
                                        root@,
                                        path@,
                                        depth as int,
                                        start,
                                        (i + 1) as nat,
                                        listed.len(),
                                    );
                                }
                                return Err(e);
                            },
                        }
                    },
                    None => {
                        proof {
                            position_absent(given, key@);
                        }
                    },
                }
                i += 1;
            }
            Ok(())
        },
        Schema::Source(source) => {
            let consumed = path.take(depth);
            let source_path = join_root(root, &consumed);
            let whole = match source.read(source_path.as_str(), files) {
                Ok(whole) => whole,
                Err(Error::ReadSource { path: _, cause: crate::error::ReadFailure::NotFound }) => {
                    empty_object()
                },
                Err(e) => {
                    return Err(e);
                },
            };
            match set_in_value(whole, path.skip(depth), value.clone()) {
                Ok(next) => source.write(source_path.as_str(), &next, files),
                Err(e) => Err(e),
            }
        },
    }
}

/// The files that lie below `schema`, in the order in which they are read
/// and written: the file of each leaf, leaves in the order of the
/// children's names.
pub open spec fn files_below(
    schema: SchemaView,
    root: Seq<char>,
    path: Seq<Seq<char>>,
    depth: int,
) -> Seq<Seq<char>>
    decreases schema, 0nat,
{
    match schema {
        SchemaView::Directory(children) => files_below_children(
            children,
            root,
            path,
            depth,
            children.len(),
        ),
        SchemaView::Source(source) => seq![source.file(source_path(root, path.take(depth)))],
    }
}

/// The files that lie below the first `n` children of a directory.
pub open spec fn files_below_children(
    children: Seq<(Seq<char>, SchemaView)>,
    root: Seq<char>,
    path: Seq<Seq<char>>,
    depth: int,
    n: nat,
) -> Seq<Seq<char>>
    decreases children, n,
{
    if n == 0 || n > children.len() {
        Seq::empty()
    } else {
        files_below_children(children, root, path, depth, (n - 1) as nat) + files_below(
            children[n - 1].1,
            root,
            path.push(children[n - 1].0),
            depth + 1,
        )
    }
}

/// The texts of a sequence of strings.
pub open spec fn names(list: Seq<String>) -> Seq<Seq<char>> {
    Seq::new(list.len(), |i: int| list[i]@)
}

/// Lists the files that lie below `schema` behind the ones already listed.
fn list_files(schema: &Schema, root: &str, path: Path, depth: usize, list: &mut Vec<String>)
    requires
        depth <= path@.len(),
    ensures
        names(final(list)@) == names(old(list)@) + files_below(
            schema@,
            root@,
            path@,
            depth as int,
        ),
    decreases schema,
{
    match schema {
        Schema::Directory(children) => {
            let ghost listed = children_view(children@);
            let ghost start = names(list@);
            let mut i: usize = 0;
            proof {
                directory_view(*children);
                assert(start + Seq::<Seq<char>>::empty() =~= start);
            }
            while i < children.len()
                invariant
                    i <= children.len(),
                    depth <= path@.len(),
                    *schema == Schema::Directory(*children),
                    schema@ == SchemaView::Directory(listed),
                    listed == children_view(children@),
                    names(list@) == start + files_below_children(
                        listed,
                        root@,
                        path@,
                        depth as int,
                        i as nat,
                    ),
                decreases children.len() - i,
            {
                proof {
                    child_is_smaller(*schema, i as int);
                }
                let nested_path = path.append(children[i].0.as_str());
                proof {
                    nested_path.countable();
                }
                let ghost before = names(list@);
                let ghost more = files_below(
                    listed[i as int].1,
                    root@,
                    path@.push(listed[i as int].0),
                    depth + 1,
                );
                list_files(&children[i].1, root, nested_path, depth + 1, list);
                proof {
                    let so_far = files_below_children(
                        listed,
                        root@,
                        path@,
                        depth as int,
                        i as nat,
                    );
                    assert((start + so_far) + more =~= start + (so_far + more));
                }
                i += 1;
            }
        },
        Schema::Source(source) => {
            let consumed = path.take(depth);
            let source_path = join_root(root, &consumed);
            let ghost before = names(list@);
            let file = source.file_path(source_path.as_str());
            let ghost name = file@;
            list.push(file);
            assert(names(list@) =~= before + seq![name]);
        },
    }
}

/// A root directory and the schema that says how the data below it is laid
/// out in files.
#[derive(Debug, PartialEq)]
pub struct Store {
    root: String,
    schema: Schema,
}

/// What a [`Store`] holds.
pub struct StoreView {
    pub root: Seq<char>,
    pub schema: SchemaView,
}

impl View for Store {
    type V = StoreView;

    closed spec fn view(&self) -> StoreView {
        StoreView { root: self.root@, schema: self.schema@ }
    }
}

impl StoreView {
    /// What lies at `path`: what is found where a walk along the path
    /// stops, or no schema where the walk does not stop.
    pub open spec fn get(self, path: Seq<Seq<char>>, files: FilesView) -> Result<
        ValueView,
        ErrorView,
    > {
        match walk(self.schema, path) {
            Some((depth, stop)) => found(stop, self.root, path, depth, files),
            None => Err(ErrorView::SchemaNotFound { path }),
        }
    }

    /// What putting `value` at `path` does: how it ends, and the files after
    /// it. Where a walk along the path does not stop, no file changes.
    pub open spec fn set(self, path: Seq<Seq<char>>, value: ValueView, files: FilesView) -> (
        Result<(), ErrorView>,
        FilesView,
    ) {
        match walk(self.schema, path) {
            Some((depth, stop)) => stored(stop, self.root, path, value, depth, files),
            None => (Err(ErrorView::SchemaNotFound { path }), files),
        }
    }

    /// The store of what lies where a walk along `path` stops: its root is
    /// this root with the segments that the walk used up, and its schema is
    /// the schema at the stop.
    pub open spec fn sub(self, path: Seq<Seq<char>>) -> Result<StoreView, ErrorView> {
        match walk(self.schema, path) {
            Some((depth, stop)) => Ok(
                StoreView { root: source_path(self.root, path.take(depth)), schema: stop },
            ),
            None => Err(ErrorView::SchemaNotFound { path }),
        }
    }

    /// The files that getting or setting at `path` may read and write, in the
    /// order in which it does so.
    pub open spec fn sources(self, path: Seq<Seq<char>>) -> Result<Seq<Seq<char>>, ErrorView> {
        match walk(self.schema, path) {
            Some((depth, stop)) => Ok(files_below(stop, self.root, path, depth)),
            None => Err(ErrorView::SchemaNotFound { path }),
        }
    }
}

impl Store {
    /// A store of the files below `root`, laid out as `schema` says.
    pub fn new(root: String, schema: Schema) -> (r: Store)
        ensures
            r@ == (StoreView { root: root@, schema: schema@ }),
    {
        Store { root, schema }
    }

    /// The root directory of the store.
    pub fn root(&self) -> (r: &String)
        ensures
            r@ == self@.root,
    {
        &self.root
    }

    /// The schema of the store.
    pub fn schema(&self) -> (r: &Schema)
        ensures
            r@ == self@.schema,
    {
        &self.schema
    }

    /// The value at `path`.
    pub fn get(&self, path: &Path, files: &Files) -> (r: Result<Value, Error>)
        ensures
            outcome(r) == self@.get(path@, files@),
            self@.schema.well_formed() ==> (r matches Ok(value) ==> value@.well_formed()),
            r matches Err(e) ==> e.worded_by_outside(),
    {
        proof {
            if self.schema@.well_formed() {
                walk_well_formed(self.schema@, path@);
            }
        }
        match traverse_schema(path.clone(), &self.schema) {
            Some((extra_path, schema)) => {
                let depth = path.len() - extra_path.len();
                get_in_schema(schema, self.root.as_str(), path.clone(), depth, files)
            },
            None => Err(Error::SchemaNotFound { path: path.clone() }),
        }
    }

    /// Puts `value` at `path`.
    pub fn set(&self, path: &Path, value: &Value, files: &mut Files) -> (r: Result<(), Error>)
        ensures
            match r {
                Ok(_) => self@.set(path@, value@, old(files)@) == (
                    Ok::<(), ErrorView>(()),
                    final(files)@,
                ),
                Err(e) => self@.set(path@, value@, old(files)@) == (
                    Err::<(), ErrorView>(e@),
                    final(files)@,
                ),
            },
            r matches Err(e) ==> e.worded_by_outside(),
    {
        match traverse_schema(path.clone(), &self.schema) {
            Some((extra_path, schema)) => {
                let depth = path.len() - extra_path.len();
                set_in_schema(schema, self.root.as_str(), path.clone(), value, depth, files)
            },
            None => Err(Error::SchemaNotFound { path: path.clone() }),
        }
    }

    /// The store of what lies at `path`.
    pub fn sub(&self, path: &Path) -> (r: Result<Store, Error>)
        ensures
            outcome(r) == self@.sub(path@),
    {
        match traverse_schema(path.clone(), &self.schema) {
            Some((extra_path, schema)) => {
                let depth = path.len() - extra_path.len();
                let nested_path = path.take(depth);
                Ok(
                    Store {
                        schema: schema.clone(),
                        root: join_root(self.root.as_str(), &nested_path),
                    },
                )
            },
            None => Err(Error::SchemaNotFound { path: path.clone() }),
        }
    }

    /// The files that getting or setting at `path` may read and write.
    pub fn sources(&self, path: &Path) -> (r: Result<Vec<String>, Error>)
        ensures
            match r {
                Ok(list) => self@.sources(path@) == Ok::<Seq<Seq<char>>, ErrorView>(names(list@)),
                Err(e) => self@.sources(path@) == Err::<Seq<Seq<char>>, ErrorView>(e@),
            },
    {
        match traverse_schema(path.clone(), &self.schema) {
            Some((extra_path, schema)) => {
                let depth = path.len() - extra_path.len();
                let mut list: Vec<String> = Vec::new();
                proof {
                    assert(names(list@) + files_below(
                        schema@,
                        self.root@,
                        path@,
                        depth as int,
                    ) =~= files_below(schema@, self.root@, path@, depth as int));
                }
                list_files(schema, self.root.as_str(), path.clone(), depth, &mut list);
                Ok(list)
            },
            None => Err(Error::SchemaNotFound { path: path.clone() }),
        }
    }
}

} // verus!
