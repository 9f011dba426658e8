//! TOML files, read and written with `toml`.

use crate::entries::distinct;
use crate::sequence::{all_ok, all_ok_fails, all_ok_succeeds, first_failure_first};
use crate::value::{array_view, items_view, members_view, object_view, Value, ValueView};
use crate::value::{item_is_smaller, member_is_smaller};
use toml::de::Error as ReadError;
use toml::ser::Error as WriteError;
use toml::Value as Native;
use vstd::prelude::*;

verus! {

/// `toml::Value`, of which nothing is known here but what the functions below
/// say.
#[verifier::external_type_specification]
#[verifier::external_body]
pub struct ExNative(Native);

/// `toml::de::Error`, which is carried and put into words, not looked into.
#[verifier::external_type_specification]
#[verifier::external_body]
pub struct ExReadError(ReadError);

/// `toml::ser::Error`, which is carried and put into words, not looked into.
#[verifier::external_type_specification]
#[verifier::external_body]
pub struct ExWriteError(WriteError);

/// A TOML document as `toml` holds it. A date or time is held by its text.
#[derive(Debug, PartialEq)]
pub enum TomlValue {
    String(String),
    Integer(i64),
    Float(u64),
    Boolean(bool),
    Datetime(String),
    Array(Vec<TomlValue>),
    Table(Vec<(String, TomlValue)>),
}

/// The mathematical tree that a [`TomlValue`] stands for.
pub enum TomlView {
    String(Seq<char>),
    Integer(i64),
    Float(u64),
    Boolean(bool),
    Datetime(Seq<char>),
    Array(Seq<TomlView>),
    Table(Seq<(Seq<char>, TomlView)>),
}

/// The tree of a document.
pub open spec fn tree(document: TomlValue) -> TomlView
    decreases document,
{
    match document {
        TomlValue::String(s) => TomlView::String(s@),
        TomlValue::Integer(i) => TomlView::Integer(i),
        TomlValue::Float(bits) => TomlView::Float(bits),
        TomlValue::Boolean(b) => TomlView::Boolean(b),
        TomlValue::Datetime(text) => TomlView::Datetime(text@),
        TomlValue::Array(items) => TomlView::Array(
            Seq::new(
                items.len() as nat,
                |i: int| if 0 <= i < items.len() { tree(items[i]) } else { TomlView::Boolean(false) },
            ),
        ),
        TomlValue::Table(members) => TomlView::Table(
            Seq::new(
                members.len() as nat,
                |i: int|
                    if 0 <= i < members.len() {
                        (members[i].0@, tree(members[i].1))
                    } else {
                        (Seq::empty(), TomlView::Boolean(false))
                    },
            ),
        ),
    }
}

impl View for TomlValue {
    type V = TomlView;

    open spec fn view(&self) -> TomlView {
        tree(*self)
    }
}

/// The trees of a sequence of documents.
pub open spec fn toml_items(items: Seq<TomlValue>) -> Seq<TomlView> {
    Seq::new(items.len(), |i: int| items[i]@)
}

/// The names and trees of a sequence of members.
pub open spec fn toml_members(members: Seq<(String, TomlValue)>) -> Seq<(Seq<char>, TomlView)> {
    Seq::new(members.len(), |i: int| (members[i].0@, members[i].1@))
}

/// The tree of an array is made of the trees of its items.
pub proof fn toml_array_view(items: Vec<TomlValue>)
    ensures
        TomlValue::Array(items)@ == TomlView::Array(toml_items(items@)),
{
    assert(TomlValue::Array(items)@->Array_0 =~= toml_items(items@));
}

/// The tree of a table is made of its members' names and trees.
pub proof fn toml_table_view(members: Vec<(String, TomlValue)>)
    ensures
        TomlValue::Table(members)@ == TomlView::Table(toml_members(members@)),
{
    assert(TomlValue::Table(members)@->Table_0 =~= toml_members(members@));
}

impl TomlView {
    /// No table anywhere in the document has two members of one name.
    pub open spec fn well_formed(self) -> bool
        decreases self,
    {
        match self {
            TomlView::Array(items) => forall|i: int|
                0 <= i < items.len() ==> (#[trigger] items[i]).well_formed(),
            TomlView::Table(members) => {
                &&& distinct(members)
                &&& forall|i: int|
                    0 <= i < members.len() ==> (#[trigger] members[i]).1.well_formed()
            },
            _ => true,
        }
    }

    /// Every date or time in the document is held by a text that `toml`
    /// reads as one.
    pub open spec fn writable(self) -> bool
        decreases self,
    {
        match self {
            TomlView::Datetime(text) => toml_datetime(text),
            TomlView::Array(items) => forall|i: int|
                0 <= i < items.len() ==> (#[trigger] items[i]).writable(),
            TomlView::Table(members) => forall|i: int|
                0 <= i < members.len() ==> (#[trigger] members[i]).1.writable(),
            _ => true,
        }
    }
}

/// What a value cannot be for TOML to hold it.
#[derive(Debug, Clone, Copy, PartialEq, Eq, Structural)]
pub enum IntoTomlError {
    /// TOML has no null.
    Null,
}

/// Whether `toml` reads a text as a date or time.
pub uninterp spec fn toml_datetime(text: Seq<char>) -> bool;

/// The value of a TOML integer: unsigned from zero up, signed below zero.
pub open spec fn integer(i: i64) -> ValueView {
    if i >= 0 {
        ValueView::Uint(i as u64)
    } else {
        ValueView::Int(i)
    }
}

/// The value that a TOML document stands for. An integer is unsigned where
/// it is zero or more and signed where it is less; a date or time is the
/// string of its text.
pub open spec fn to_value(document: TomlView) -> ValueView
    decreases document,
{
    match document {
        TomlView::String(s) => ValueView::String(s),
        TomlView::Integer(i) => integer(i),
        TomlView::Float(bits) => ValueView::Float(bits),
        TomlView::Boolean(b) => ValueView::Bool(b),
        TomlView::Datetime(text) => ValueView::String(text),
        TomlView::Array(items) => ValueView::Array(
            Seq::new(
                items.len(),
                |i: int| if 0 <= i < items.len() { to_value(items[i]) } else { ValueView::Null },
            ),
        ),
        TomlView::Table(members) => ValueView::Object(
            Seq::new(
                members.len(),
                |i: int|
                    if 0 <= i < members.len() {
                        (members[i].0, to_value(members[i].1))
                    } else {
                        (Seq::empty(), ValueView::Null)
                    },
            ),
        ),
    }
}

/// The array of the documents made of a value's items, if all were made.
pub open spec fn array_result(made: Result<Seq<TomlView>, IntoTomlError>) -> Result<
    TomlView,
    IntoTomlError,
> {
    match made {
        Ok(documents) => Ok(TomlView::Array(documents)),
        Err(e) => Err(e),
    }
}

/// The table that gives each member's name the document made of what the
/// member holds, if all were made.
pub open spec fn table_result(
    members: Seq<(Seq<char>, ValueView)>,
    made: Result<Seq<TomlView>, IntoTomlError>,
) -> Result<TomlView, IntoTomlError> {
    match made {
        Ok(documents) => Ok(
            TomlView::Table(Seq::new(members.len(), |i: int| (members[i].0, documents[i]))),
        ),
        Err(e) => Err(e),
    }
}

/// The TOML document for a value, or the first thing in it, in reading order,
/// that TOML cannot hold. An unsigned integer is taken as the signed integer
/// of the same 64 bits. A string that `toml` reads as a date or time becomes
/// one: the format cannot tell such a string from a date.
pub open spec fn from_value(value: ValueView) -> Result<TomlView, IntoTomlError>
    decreases value,
{
    match value {
        ValueView::Null => Err(IntoTomlError::Null),
        ValueView::Bool(b) => Ok(TomlView::Boolean(b)),
        ValueView::Int(i) => Ok(TomlView::Integer(i)),
        ValueView::Uint(u) => Ok(TomlView::Integer(u as i64)),
        ValueView::Float(bits) => Ok(TomlView::Float(bits)),
        ValueView::String(s) => if toml_datetime(s) {
            Ok(TomlView::Datetime(s))
        } else {
            Ok(TomlView::String(s))
        },
        ValueView::Array(items) => array_result(all_ok(from_items(items))),
        ValueView::Object(members) => table_result(members, all_ok(from_members(members))),
    }
}

/// What [`from_value`] gives for each item of an array.
pub open spec fn from_items(items: Seq<ValueView>) -> Seq<Result<TomlView, IntoTomlError>>
    decreases items,
{
    Seq::new(
        items.len(),
        |i: int| if 0 <= i < items.len() { from_value(items[i]) } else { Ok(TomlView::Boolean(false)) },
    )
}

/// What [`from_value`] gives for what each member of an object holds.
pub open spec fn from_members(members: Seq<(Seq<char>, ValueView)>) -> Seq<
    Result<TomlView, IntoTomlError>,
>
    decreases members,
{
    Seq::new(
        members.len(),
        |i: int| if 0 <= i < members.len() { from_value(members[i].1) } else { Ok(TomlView::Boolean(false)) },
    )
}

/// A value whose integers are unsigned from zero up to the greatest signed
/// integer and signed below zero, and which has no string that `toml` reads
/// as a date or time. TOML holds signed integers only: it takes a greater
/// unsigned integer for a negative one, it reads a signed integer from zero
/// up back as unsigned, and it gives a date back in the wording of its own.
pub open spec fn plain(value: ValueView) -> bool
    decreases value,
{
    match value {
        ValueView::Uint(u) => u <= i64::MAX,
        ValueView::Int(i) => i < 0,
        ValueView::String(s) => !toml_datetime(s),
        ValueView::Array(items) => forall|i: int|
            0 <= i < items.len() ==> plain(#[trigger] items[i]),
        ValueView::Object(members) => forall|i: int|
            0 <= i < members.len() ==> plain((#[trigger] members[i]).1),
        _ => true,
    }
}

/// Writing a value as a TOML document and reading the document gives the
/// value back, unsigned integers as unsigned and signed ones as signed, for
/// every value that TOML can hold and that is [`plain`]: `Value::from` gives
/// what `TomlValue::try_from` was given, as the two are what [`to_value`] and
/// [`from_value`] say.
pub proof fn round_trip(value: ValueView)
    requires
        plain(value),
        from_value(value) is Ok,
    ensures
        to_value(from_value(value)->Ok_0) == value,
    decreases value,
{
    match value {
        ValueView::Array(items) => {
            let results = from_items(items);
            first_failure_first(results, 0);
            let documents = from_value(value)->Ok_0->Array_0;
            assert forall|i: int| 0 <= i < items.len() implies to_value(documents[i])
                == items[i] by {
                assert(results[i] is Ok);
                round_trip(items[i]);
            }
            assert(to_value(from_value(value)->Ok_0)->Array_0 =~= items);
        },
        ValueView::Object(members) => {
            let results = from_members(members);
            first_failure_first(results, 0);
            let documents = from_value(value)->Ok_0->Table_0;
            assert forall|i: int| 0 <= i < members.len() implies to_value(documents[i].1)
                == members[i].1 by {
                assert(results[i] is Ok);
                round_trip(members[i].1);
            }
            assert(to_value(from_value(value)->Ok_0)->Object_0 =~= members);
        },
        _ => {},
    }
}

/// The value of a document without repeated names has none either.
pub proof fn to_value_well_formed(document: TomlView)
    requires
        document.well_formed(),
    ensures
        to_value(document).well_formed(),
    decreases document,
{
    match document {
        TomlView::Array(items) => {
            assert forall|i: int| 0 <= i < items.len() implies (#[trigger] to_value(
                document,
            )->Array_0[i]).well_formed() by {
                to_value_well_formed(items[i]);
            }
        },
        TomlView::Table(members) => {
            assert forall|i: int| 0 <= i < members.len() implies (#[trigger] to_value(
                document,
            )->Object_0[i]).1.well_formed() by {
                to_value_well_formed(members[i].1);
            }
        },
        _ => {},
    }
}

/// What `toml` makes of a text: the document, or nothing where the text is
/// not TOML.
pub uninterp spec fn toml_parsed(text: Seq<char>) -> Option<TomlView>;

/// The text that `toml` writes for a document, or nothing where it fails.
pub uninterp spec fn toml_printed(document: TomlView) -> Option<Seq<char>>;

/// Mirrors a `toml::Value`, variant by variant. A date or time is mirrored by
/// the text that `Datetime` displays.
#[verifier::external_body]
fn from_native(native: &Native) -> TomlValue {
    match native {
        Native::String(s) => TomlValue::String(s.clone()),
        Native::Integer(i) => TomlValue::Integer(*i),
        Native::Float(f) => TomlValue::Float(f.to_bits()),
        Native::Boolean(b) => TomlValue::Boolean(*b),
        Native::Datetime(d) => TomlValue::Datetime(d.to_string()),
        Native::Array(items) => TomlValue::Array(items.iter().map(from_native).collect()),
        Native::Table(map) => TomlValue::Table(
            map.iter().map(|(k, v)| (k.clone(), from_native(v))).collect(),
        ),
    }
}

/// Whether `toml::value::Datetime::from_str` takes the text.
#[verifier::external_body]
fn is_datetime(text: &str) -> (r: bool)
    ensures
        r == toml_datetime(text@),
{
    text.parse::<toml::value::Datetime>().is_ok()
}

/// Builds the `toml::Value` that a document mirrors. The text of a date or
/// time goes through `Datetime::from_str`.
#[verifier::external_body]
fn to_native(document: &TomlValue) -> Native
    requires
        document@.writable(),
{
    match document {
        TomlValue::String(s) => Native::String(s.clone()),
        TomlValue::Integer(i) => Native::Integer(*i),
        TomlValue::Float(bits) => Native::Float(
            num_traits::FromBytes::from_le_bytes(&bits.to_le_bytes()),
        ),
        TomlValue::Boolean(b) => Native::Boolean(*b),
        TomlValue::Datetime(text) => Native::Datetime(text.parse().unwrap()),
        TomlValue::Array(items) => Native::Array(items.iter().map(to_native).collect()),
        TomlValue::Table(members) => Native::Table(
            members.iter().map(|(k, v)| (k.clone(), to_native(v))).collect(),
        ),
    }
}

/// Calls `toml::from_str` for a `toml::Value` and mirrors what comes back.
/// The result is the named one: the crate's parser decides on the text
/// alone. A table of `toml` is a map, so no name occurs twice in it.
#[verifier::external_body]
fn parse(text: &str) -> (r: Result<TomlValue, ReadError>)
    ensures
        r is Ok == toml_parsed(text@) is Some,
        r matches Ok(document) ==> Some(document@) == toml_parsed(text@)
            && document@.well_formed(),
{
    match toml::from_str::<Native>(text) {
        Ok(native) => Ok(from_native(&native)),
        Err(e) => Err(e),
    }
}

/// Calls `toml::to_string_pretty` on the `toml::Value` that the document
/// mirrors. The result is the named one.
#[verifier::external_body]
fn print(document: &TomlValue) -> (r: Result<String, WriteError>)
    requires
        document@.writable(),
    ensures
        r is Ok == toml_printed(document@) is Some,
        r matches Ok(text) ==> Some(text@) == toml_printed(document@),
{
    toml::to_string_pretty(&to_native(document))
}

/// The TOML format.
#[derive(Clone, Debug)]
pub struct Toml {}

impl crate::source::FileSource for Toml {
    type Value = TomlValue;

    type SerError = WriteError;

    type DeError = ReadError;

    open spec fn writable(&self, value: &TomlValue) -> bool {
        value@.writable()
    }

    /// The extension of the format's files.
    fn extension(&self) -> (r: String)
        ensures
            r@ == "toml"@,
    {
        "toml".to_owned()
    }

    /// Reads a TOML text.
    fn deserialize(&self, string: &str) -> (r: Result<TomlValue, ReadError>)
        ensures
            r is Ok == toml_parsed(string@) is Some,
            r matches Ok(document) ==> Some(document@) == toml_parsed(string@)
                && document@.well_formed(),
    {
        parse(string)
    }

    /// Writes a document as TOML text.
    fn serialize(&self, value: &TomlValue) -> (r: Result<String, WriteError>)
        ensures
            r is Ok == toml_printed(value@) is Some,
            r matches Ok(text) ==> Some(text@) == toml_printed(value@),
    {
        print(value)
    }
}

impl Toml {
    /// The value that a document stands for.
    pub fn to_value(&self, document: &TomlValue) -> (r: Value)
        ensures
            r@ == to_value(document@),
        decreases document,
    {
        match document {
            TomlValue::String(s) => Value::String(s.clone()),
            TomlValue::Integer(i) => {
                if *i >= 0 {
                    Value::Uint(*i as u64)
                } else {
                    Value::Int(*i)
                }
            },
            TomlValue::Float(bits) => Value::Float(*bits),
            TomlValue::Boolean(b) => Value::Bool(*b),
            TomlValue::Datetime(text) => Value::String(text.clone()),
            TomlValue::Array(items) => {
                let mut values: Vec<Value> = Vec::new();
                let mut i: usize = 0;
                while i < items.len()
                    invariant
                        i <= items.len(),
                        *document == TomlValue::Array(*items),
                        values.len() == i,
                        forall|j: int| 0 <= j < i ==> values[j]@ == to_value(items[j]@),
                    decreases items.len() - i,
                {
                    proof {
                        toml_item_is_smaller(*document, i as int);
                    }
                    values.push(self.to_value(&items[i]));
                    i += 1;
                }
                proof {
                    array_view(values);
                    toml_array_view(*items);
                    assert(items_view(values@) =~= to_value(document@)->Array_0);
                }
                Value::Array(values)
            },
            TomlValue::Table(members) => {
                let mut values: Vec<(String, Value)> = Vec::new();
                let mut i: usize = 0;
                while i < members.len()
                    invariant
                        i <= members.len(),
                        *document == TomlValue::Table(*members),
                        values.len() == i,
                        forall|j: int|
                            0 <= j < i ==> values[j].0@ == members[j].0@ && values[j].1@
                                == to_value(members[j].1@),
                    decreases members.len() - i,
                {
                    proof {
                        toml_member_is_smaller(*document, i as int);
                    }
                    values.push((members[i].0.clone(), self.to_value(&members[i].1)));
                    i += 1;
                }
                proof {
                    object_view(values);
                    toml_table_view(*members);
                    assert(members_view(values@) =~= to_value(document@)->Object_0);
                }
                Value::Object(values)
            },
        }
    }

    /// The document for a value, or what in the value TOML cannot hold.
    pub fn from_value(&self, value: &Value) -> (r: Result<TomlValue, IntoTomlError>)
        ensures
            match r {
                Ok(document) => from_value(value@) == Ok::<TomlView, IntoTomlError>(document@),
                Err(e) => from_value(value@) == Err::<TomlView, IntoTomlError>(e),
            },
            r matches Ok(document) ==> document@.writable(),
        decreases value,
    {
        match value {
            Value::Null => Err(IntoTomlError::Null),
            Value::Bool(b) => Ok(TomlValue::Boolean(*b)),
            Value::Int(i) => Ok(TomlValue::Integer(*i)),
            Value::Uint(u) => Ok(TomlValue::Integer(*u as i64)),
            Value::Float(bits) => Ok(TomlValue::Float(*bits)),
            Value::String(s) => {
                if is_datetime(s.as_str()) {
                    Ok(TomlValue::Datetime(s.clone()))
                } else {
                    Ok(TomlValue::String(s.clone()))
                }
            },
            Value::Array(items) => {
                let ghost results = Seq::new(
                    items.len() as nat,
                    |i: int| from_value(items[i]@),
                );
                let mut documents: Vec<TomlValue> = Vec::new();
                let mut i: usize = 0;
                proof {
                    array_view(*items);
                    assert(results =~= from_items(items_view(items@)));
                    assert(from_value(value@) == array_result(all_ok(results)));
                }
                while i < items.len()
                    invariant
                        i <= items.len(),
                        *value == Value::Array(*items),
                        from_value(value@) == array_result(all_ok(results)),
                        results.len() == items.len(),
                        forall|j: int| 0 <= j < items.len() ==> results[j] == from_value(items[j]@),
                        documents.len() == i,
                        forall|j: int|
                            0 <= j < i ==> results[j] == Ok::<TomlView, IntoTomlError>(
                                documents[j]@,
                            ) && documents[j]@.writable(),
                    decreases items.len() - i,
                {
                    proof {
                        item_is_smaller(*value, i as int);
                    }
                    match self.from_value(&items[i]) {
                        Ok(document) => {
                            documents.push(document);
                        },
                        Err(e) => {
                            proof {
                                all_ok_fails(results, i as int);
                            }
                            return Err(e);
                        },
                    }
                    i += 1;
                }
                proof {
                    all_ok_succeeds(results);
                    toml_array_view(documents);
                    assert(toml_items(documents@) =~= Seq::new(
                        results.len(),
                        |i: int| results[i]->Ok_0,
                    ));
                }
                Ok(TomlValue::Array(documents))
            },
            Value::Object(members) => {
                let ghost results = Seq::new(
                    members.len() as nat,
                    |i: int| from_value(members[i].1@),
                );
                let mut documents: Vec<(String, TomlValue)> = Vec::new();
                let mut i: usize = 0;
                proof {
                    object_view(*members);
                    assert(results =~= from_members(members_view(members@)));
                    assert(from_value(value@) == table_result(
                        members_view(members@),
                        all_ok(results),
                    ));
                }
                while i < members.len()
                    invariant
                        i <= members.len(),
                        *value == Value::Object(*members),
                        from_value(value@) == table_result(
                            members_view(members@),
                            all_ok(results),
                        ),
                        results.len() == members.len(),
                        forall|j: int|
                            0 <= j < members.len() ==> results[j] == from_value(members[j].1@),
                        documents.len() == i,
                        forall|j: int|
                            0 <= j < i ==> results[j] == Ok::<TomlView, IntoTomlError>(
                                documents[j].1@,
                            ) && documents[j].0@ == members[j].0@ && documents[j].1@.writable(),
                    decreases members.len() - i,
                {
                    proof {
                        member_is_smaller(*value, i as int);
                    }
                    match self.from_value(&members[i].1) {
                        Ok(document) => {
                            documents.push((members[i].0.clone(), document));
                        },
                        Err(e) => {
                            proof {
                                all_ok_fails(results, i as int);
                            }
                            return Err(e);
                        },
                    }
                    i += 1;
                }
                proof {
                    all_ok_succeeds(results);
                    toml_table_view(documents);
                    let oks = Seq::new(results.len(), |i: int| results[i]->Ok_0);
                    assert(toml_members(documents@) =~= Seq::new(
                        members_view(members@).len(),
                        |i: int| (members_view(members@)[i].0, oks[i]),
                    ));
                }
                Ok(TomlValue::Table(documents))
            },
        }
    }
}

/// Recursion from an array to one of its items goes down.
pub proof fn toml_item_is_smaller(document: TomlValue, i: int)
    requires
        document is Array,
        0 <= i < document->Array_0.len(),
    ensures
        decreases_to!(document => document->Array_0[i]),
{
    assert(decreases_to!(document => document->Array_0));
    assert(decreases_to!(document->Array_0 => document->Array_0@));
    assert(decreases_to!(document->Array_0@ => document->Array_0@[i]));
}

/// Recursion from a table to what one of its members holds goes down.
pub proof fn toml_member_is_smaller(document: TomlValue, i: int)
    requires
        document is Table,
        0 <= i < document->Table_0.len(),
    ensures
        decreases_to!(document => document->Table_0[i].1),
{
    assert(decreases_to!(document => document->Table_0));
    assert(decreases_to!(document->Table_0 => document->Table_0@));
    assert(decreases_to!(document->Table_0@ => document->Table_0@[i]));
    assert(decreases_to!(document->Table_0@[i] => document->Table_0@[i].1));
}

impl From<TomlValue> for Value {
    /// The value that a TOML document stands for.
    fn from(document: TomlValue) -> (r: Value)
        ensures
            r@ == to_value(document@),
    {
        (Toml {}).to_value(&document)
    }
}

impl vstd::std_specs::convert::FromSpecImpl<TomlValue> for Value {
    /// The trees are fixed, not which of the values of that tree comes back.
    open spec fn obeys_from_spec() -> bool {
        false
    }

    open spec fn from_spec(document: TomlValue) -> Value {
        choose|value: Value| value@ == to_value(document@)
    }
}

impl TryFrom<Value> for TomlValue {
    type Error = IntoTomlError;

    /// The document for a value, or what in the value the format cannot
    /// hold.
    fn try_from(value: Value) -> (r: Result<TomlValue, IntoTomlError>)
        ensures
            match r {
                Ok(document) => from_value(value@) == Ok::<TomlView, IntoTomlError>(document@),
                Err(e) => from_value(value@) == Err::<TomlView, IntoTomlError>(e),
            },
            r matches Ok(document) ==> document@.writable(),
    {
        (Toml {}).from_value(&value)
    }
}

impl vstd::std_specs::convert::TryFromSpecImpl<Value> for TomlValue {
    /// The trees are fixed, not which of the documents of that tree comes
    /// back.
    open spec fn obeys_try_from_spec() -> bool {
        false
    }

    open spec fn try_from_spec(value: Value) -> Result<TomlValue, IntoTomlError> {
        match from_value(value@) {
            Ok(tree) => Ok(choose|document: TomlValue| document@ == tree),
            Err(e) => Err(e),
        }
    }
}

} // verus!
