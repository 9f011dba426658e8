//! The schema of a store, and how a value describes one.

use crate::entries::{lookup, position, position_first};
use crate::error::{outcome, Error, ErrorView};
use crate::order::{placed, placed_sorted, placed_then_lookup, rank, rank_splits, sorted};
use crate::order::text_less;
use crate::sequence::{all_ok, all_ok_fails, all_ok_succeeds};
use crate::source::{find_source, source_named, Source};
use crate::value::{member_is_smaller, members_view, object_view, Value, ValueView};
use vstd::prelude::*;

verus! {

/// How the data of a store is laid out in files and directories: a tree with
/// directories as branches and formats as leaves.
///
/// A directory keeps its children in the order of their names. A leaf stands
/// for one file, and what lies below it in the data lies inside that file.
#[derive(Debug, PartialEq)]
pub enum Schema {
    Directory(Vec<(String, Schema)>),
    Source(Source),
}

/// The mathematical tree that a [`Schema`] stands for.
pub enum SchemaView {
    Directory(Seq<(Seq<char>, SchemaView)>),
    Source(Source),
}

/// The tree of a schema.
pub open spec fn tree(schema: Schema) -> SchemaView
    decreases schema,
{
    match schema {
        Schema::Directory(children) => SchemaView::Directory(
            Seq::new(
                children.len() as nat,
                |i: int|
                    if 0 <= i < children.len() {
                        (children[i].0@, tree(children[i].1))
                    } else {
                        (Seq::empty(), SchemaView::Source(Source::Json))
                    },
            ),
        ),
        Schema::Source(source) => SchemaView::Source(source),
    }
}

impl View for Schema {
    type V = SchemaView;

    open spec fn view(&self) -> SchemaView {
        tree(*self)
    }
}

/// The names and trees of a sequence of children.
pub open spec fn children_view(children: Seq<(String, Schema)>) -> Seq<(Seq<char>, SchemaView)> {
    Seq::new(children.len(), |i: int| (children[i].0@, children[i].1@))
}

/// The tree of a directory is made of its children's names and trees.
pub proof fn directory_view(children: Vec<(String, Schema)>)
    ensures
        Schema::Directory(children)@ == SchemaView::Directory(children_view(children@)),
{
    assert(Schema::Directory(children)@->Directory_0 =~= children_view(children@));
}

/// Recursion from a directory to one of its children goes down.
pub proof fn child_is_smaller(schema: Schema, i: int)
    requires
        schema is Directory,
        0 <= i < schema->Directory_0.len(),
    ensures
        decreases_to!(schema => schema->Directory_0[i].1),
{
    assert(decreases_to!(schema => schema->Directory_0));
    assert(decreases_to!(schema->Directory_0 => schema->Directory_0@));
    assert(decreases_to!(schema->Directory_0@ => schema->Directory_0@[i]));
    assert(decreases_to!(schema->Directory_0@[i] => schema->Directory_0@[i].1));
}

impl SchemaView {
    /// Every directory of the schema has its children in the order of their
    /// names, so that no name occurs twice.
    pub open spec fn well_formed(self) -> bool
        decreases self,
    {
        match self {
            SchemaView::Directory(children) => {
                &&& sorted(children)
                &&& forall|i: int|
                    0 <= i < children.len() ==> (#[trigger] children[i]).1.well_formed()
            },
            SchemaView::Source(_) => true,
        }
    }
}

impl Clone for Schema {
    /// A schema of the same tree.
    fn clone(&self) -> (r: Self)
        ensures
            r@ == self@,
        decreases self,
    {
        match self {
            Schema::Directory(children) => {
                let mut copy: Vec<(String, Schema)> = Vec::new();
                let mut i: usize = 0;
                while i < children.len()
                    invariant
                        i <= children.len(),
                        *self == Schema::Directory(*children),
                        copy.len() == i,
                        forall|j: int|
                            0 <= j < i ==> copy[j].0@ == children[j].0@ && copy[j].1@
                                == children[j].1@,
                    decreases children.len() - i,
                {
                    proof {
                        child_is_smaller(*self, i as int);
                    }
                    copy.push((children[i].0.clone(), children[i].1.clone()));
                    i += 1;
                }
                proof {
                    directory_view(copy);
                    directory_view(*children);
                    assert(children_view(copy@) =~= children_view(children@));
                }
                Schema::Directory(copy)
            },
            Schema::Source(source) => Schema::Source(*source),
        }
    }
}

/// The directory made of the first `n` members of an object, given the schema
/// that each member describes: the members are placed one after another, so
/// that of two members of one name the later one stays.
pub open spec fn directory_of(
    members: Seq<(Seq<char>, ValueView)>,
    schemas: Seq<SchemaView>,
    n: nat,
) -> Seq<(Seq<char>, SchemaView)>
    decreases n,
{
    if n == 0 {
        Seq::empty()
    } else {
        placed(
            directory_of(members, schemas, (n - 1) as nat),
            members[n - 1].0,
            schemas[n - 1],
        )
    }
}

/// The directory of the schemas that an object's members describe, if each
/// describes one.
pub open spec fn directory_result(
    members: Seq<(Seq<char>, ValueView)>,
    made: Result<Seq<SchemaView>, ErrorView>,
) -> Result<SchemaView, ErrorView> {
    match made {
        Ok(schemas) => Ok(SchemaView::Directory(directory_of(members, schemas, members.len()))),
        Err(e) => Err(e),
    }
}

/// The schema that a value describes. An object describes a directory with a
/// child for each member. A string that names a format describes a file of
/// that format. Nothing else describes a schema: the error holds the value
/// that does not, the first such in reading order.
pub open spec fn schema_of(value: ValueView) -> Result<SchemaView, ErrorView>
    decreases value,
{
    match value {
        ValueView::Object(members) => directory_result(members, all_ok(schemas_of(members))),
        ValueView::String(name) => match source_named(name) {
            Some(source) => Ok(SchemaView::Source(source)),
            None => Err(ErrorView::InvalidSchema { value }),
        },
        _ => Err(ErrorView::InvalidSchema { value }),
    }
}

/// What [`schema_of`] gives for what each member of an object holds.
pub open spec fn schemas_of(members: Seq<(Seq<char>, ValueView)>) -> Seq<
    Result<SchemaView, ErrorView>,
>
    decreases members,
{
    Seq::new(
        members.len(),
        |i: int|
            if 0 <= i < members.len() {
                schema_of(members[i].1)
            } else {
                Ok(SchemaView::Source(Source::Json))
            },
    )
}

/// A directory made of an object has its children in the order of their
/// names.
pub proof fn directory_of_sorted(
    members: Seq<(Seq<char>, ValueView)>,
    schemas: Seq<SchemaView>,
    n: nat,
)
    ensures
        sorted(directory_of(members, schemas, n)),
    decreases n,
{
    if n > 0 {
        directory_of_sorted(members, schemas, (n - 1) as nat);
        placed_sorted(
            directory_of(members, schemas, (n - 1) as nat),
            members[n - 1].0,
            schemas[n - 1],
        );
    }
}

/// The schema that a value describes is well formed.
pub proof fn schema_of_well_formed(value: ValueView)
    requires
        schema_of(value) is Ok,
    ensures
        schema_of(value)->Ok_0.well_formed(),
    decreases value,
{
    match value {
        ValueView::Object(members) => {
            let results = schemas_of(members);
            crate::sequence::first_failure_first(results, 0);
            let schemas = all_ok(results)->Ok_0;
            assert forall|i: int| 0 <= i < members.len() implies (#[trigger] schemas[i]).well_formed() by {
                assert(results[i] is Ok);
                schema_of_well_formed(members[i].1);
            }
            directory_children_well_formed(members, schemas, members.len());
            directory_of_sorted(members, schemas, members.len());
        },
        _ => {},
    }
}

/// A directory made of well-formed schemas has only well-formed children.
pub proof fn directory_children_well_formed(
    members: Seq<(Seq<char>, ValueView)>,
    schemas: Seq<SchemaView>,
    n: nat,
)
    requires
        n <= members.len(),
        schemas.len() == members.len(),
        forall|i: int| 0 <= i < schemas.len() ==> (#[trigger] schemas[i]).well_formed(),
    ensures
        forall|i: int|
            0 <= i < directory_of(members, schemas, n).len() ==> (#[trigger] directory_of(
                members,
                schemas,
                n,
            )[i]).1.well_formed(),
    decreases n,
{
    if n > 0 {
        let before = directory_of(members, schemas, (n - 1) as nat);
        directory_children_well_formed(members, schemas, (n - 1) as nat);
        let key = members[n - 1].0;
        let at = rank(before, key, 0);
        rank_splits(before, key, 0);
        let after = directory_of(members, schemas, n);
        assert(schemas[n - 1].well_formed());
        assert forall|i: int| 0 <= i < after.len() implies (#[trigger] after[i]).1.well_formed() by {
            if at < before.len() && before[at].0 == key {
                if i != at {
                    assert(after[i] == before[i]);
                }
            } else {
                if i < at {
                    assert(after[i] == before[i]);
                } else if i > at {
                    assert(after[i] == before[i - 1]);
                }
            }
        }
    }
}

/// Gives `key` the child `schema` in a directory kept in order.
fn place(children: &mut Vec<(String, Schema)>, key: String, schema: Schema)
    ensures
        children_view(final(children)@) == placed(children_view(old(children)@), key@, schema@),
{
    let ghost before = children_view(children@);
    let ghost name = key@;
    let ghost held = schema@;
    let mut at: usize = 0;
    while at < children.len() && text_less(children[at].0.as_str(), key.as_str())
        invariant
            at <= children.len(),
            before == children_view(children@),
            name == key@,
            rank(before, name, 0) == rank(before, name, at as int),
        decreases children.len() - at,
    {
        at += 1;
    }
    if at < children.len() && children[at].0 == key {
        children.set(at, (key, schema));
        assert(children_view(children@) =~= before.update(at as int, (name, held)));
    } else {
        children.insert(at, (key, schema));
        assert(children_view(children@) =~= before.insert(at as int, (name, held)));
    }
}

impl Schema {
    /// The schema that a value describes.
    pub fn try_from(value: Value) -> (r: Result<Schema, Error>)
        ensures
            outcome(r) == schema_of(value@),
            r matches Ok(schema) ==> schema@.well_formed(),
    {
        Schema::describe(&value)
    }

    /// The schema that a value describes, for a value that the caller keeps.
    pub fn describe(value: &Value) -> (r: Result<Schema, Error>)
        ensures
            outcome(r) == schema_of(value@),
            r matches Ok(schema) ==> schema@.well_formed(),
        decreases value,
    {
        let r = match value {
            Value::Object(members) => {
                let ghost results = schemas_of(members_view(members@));
                let ghost mut schemas: Seq<SchemaView> = Seq::empty();
                let mut children: Vec<(String, Schema)> = Vec::new();
                let mut i: usize = 0;
                proof {
                    object_view(*members);
                    assert(children_view(children@) =~= directory_of(
                        members_view(members@),
                        schemas,
                        0,
                    ));
                }
                while i < members.len()
                    invariant
                        i <= members.len(),
                        *value == Value::Object(*members),
                        value@ == ValueView::Object(members_view(members@)),
                        results == schemas_of(members_view(members@)),
                        schemas.len() == i,
                        forall|j: int|
                            0 <= j < i ==> results[j] == Ok::<SchemaView, ErrorView>(schemas[j]),
                        children_view(children@) == directory_of(
                            members_view(members@),
                            schemas,
                            i as nat,
                        ),
                    decreases members.len() - i,
                {
                    proof {
                        member_is_smaller(*value, i as int);
                    }
                    match Schema::describe(&members[i].1) {
                        Ok(child) => {
                            proof {
                                let grown = schemas.push(child@);
                                directory_of_prefix(
                                    members_view(members@),
                                    schemas,
                                    grown,
                                    i as nat,
                                );
                                schemas = grown;
                            }
                            place(&mut children, members[i].0.clone(), child);
                        },
                        Err(e) => {
                            proof {
                                all_ok_fails(results, i as int);
                            }
                            return Err(e);
                        },
                    }
                    i += 1;
                }
                proof {
                    all_ok_succeeds(results);
                    assert(schemas =~= Seq::new(results.len(), |i: int| results[i]->Ok_0));
                    directory_view(children);
                }
                Ok(Schema::Directory(children))
            },
            Value::String(name) => match find_source(name.as_str()) {
                Some(source) => Ok(Schema::Source(source)),
                None => Err(Error::InvalidSchema { value: value.clone() }),
            },
            _ => Err(Error::InvalidSchema { value: value.clone() }),
        };
        proof {
            if r is Ok {
                schema_of_well_formed(value@);
            }
        }
        r
    }
}

/// The directory made of the first `n` members does not depend on the
/// schemas of later members.
pub proof fn directory_of_prefix(
    members: Seq<(Seq<char>, ValueView)>,
    schemas: Seq<SchemaView>,
    longer: Seq<SchemaView>,
    n: nat,
)
    requires
        n <= schemas.len() <= longer.len(),
        forall|j: int| 0 <= j < schemas.len() ==> schemas[j] == longer[j],
    ensures
        directory_of(members, schemas, n) == directory_of(members, longer, n),
    decreases n,
{
    if n > 0 {
        directory_of_prefix(members, schemas, longer, (n - 1) as nat);
    }
}

/// The schema that the last of the first `n` members named `key` describes.
pub open spec fn described(
    members: Seq<(Seq<char>, ValueView)>,
    schemas: Seq<SchemaView>,
    key: Seq<char>,
    n: nat,
) -> Option<SchemaView>
    decreases n,
{
    if n == 0 {
        None
    } else if members[n - 1].0 == key {
        Some(schemas[n - 1])
    } else {
        described(members, schemas, key, (n - 1) as nat)
    }
}

/// The children of a directory made of an object are the object's members: a
/// name has a child where a member has that name, and the child is the
/// schema that the member describes, the last one of that name.
pub proof fn directory_of_members(
    members: Seq<(Seq<char>, ValueView)>,
    schemas: Seq<SchemaView>,
    key: Seq<char>,
    n: nat,
)
    ensures
        lookup(directory_of(members, schemas, n), key) == described(members, schemas, key, n),
    decreases n,
{
    if n > 0 {
        directory_of_members(members, schemas, key, (n - 1) as nat);
        placed_then_lookup(
            directory_of(members, schemas, (n - 1) as nat),
            members[n - 1].0,
            schemas[n - 1],
            key,
        );
    }
}

/// Where no two members of an object have one name, the child of a name is
/// the schema that the member of that name describes.
pub proof fn directory_of_distinct_members(
    members: Seq<(Seq<char>, ValueView)>,
    schemas: Seq<SchemaView>,
    key: Seq<char>,
    n: nat,
)
    requires
        crate::entries::distinct(members),
        n <= members.len(),
    ensures
        described(members, schemas, key, n) == match position(members.take(n as int), key, 0) {
            Some(i) => Some(schemas[i]),
            None => None,
        },
    decreases n,
{
    let first = members.take(n as int);
    position_first(first, key, 0);
    if n > 0 {
        let shorter = members.take(n - 1);
        directory_of_distinct_members(members, schemas, key, (n - 1) as nat);
        position_first(shorter, key, 0);
        assert(forall|j: int| 0 <= j < n - 1 ==> shorter[j] == first[j]);
        if members[n - 1].0 == key {
            assert(first[n - 1].0 == key);
            assert forall|j: int| 0 <= j < n - 1 implies first[j].0 != key by {
                assert(members[j].0 != members[n - 1].0);
            }
            crate::entries::position_found(first, key, n - 1);
        } else {
            match position(shorter, key, 0) {
                Some(i) => {
                    crate::entries::position_found(first, key, i);
                },
                None => {
                    assert forall|j: int| 0 <= j < first.len() implies first[j].0 != key by {
                        if j < n - 1 {
                            assert(shorter[j].0 != key);
                        }
                    }
                    crate::entries::position_absent(first, key);
                },
            }
        }
    }
}

} // verus!
