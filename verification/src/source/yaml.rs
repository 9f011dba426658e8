//! YAML files, read and written with `serde_yaml`.

use crate::sequence::{all_ok, all_ok_fails, all_ok_succeeds, first_failure_first};
use crate::value::{array_view, items_view, members_view, object_view, Value, ValueView};
use crate::value::{item_is_smaller, member_is_smaller};
use num_traits::FromBytes;
use serde_yaml::Error as NativeError;
use serde_yaml::Value as Native;
use vstd::prelude::*;

verus! {

/// `serde_yaml::Value`, of which nothing is known here but what the functions
/// below say.
#[verifier::external_type_specification]
#[verifier::external_body]
pub struct ExNative(Native);

/// `serde_yaml::Error`, which is carried and put into words, not looked into.
#[verifier::external_type_specification]
#[verifier::external_body]
pub struct ExNativeError(NativeError);

/// A YAML number as `serde_yaml` holds it: an integer from zero up, an integer
/// below zero, or a floating-point number by its bits.
#[derive(Debug, Clone, Copy, PartialEq, Eq, Structural)]
pub enum YamlNumber {
    PosInt(u64),
    NegInt(i64),
    Float(u64),
}

/// A YAML document as `serde_yaml` holds it. The keys of a mapping are
/// documents themselves.
#[derive(Debug, PartialEq)]
pub enum YamlValue {
    Null,
    Bool(bool),
    Number(YamlNumber),
    String(String),
    Sequence(Vec<YamlValue>),
    Mapping(Vec<(YamlValue, YamlValue)>),
}

/// The mathematical tree that a [`YamlValue`] stands for.
pub enum YamlView {
    Null,
    Bool(bool),
    Number(YamlNumber),
    String(Seq<char>),
    Sequence(Seq<YamlView>),
    Mapping(Seq<(YamlView, YamlView)>),
}

/// The tree of a document.
pub open spec fn tree(document: YamlValue) -> YamlView
    decreases document,
{
    match document {
        YamlValue::Null => YamlView::Null,
        YamlValue::Bool(b) => YamlView::Bool(b),
        YamlValue::Number(n) => YamlView::Number(n),
        YamlValue::String(s) => YamlView::String(s@),
        YamlValue::Sequence(items) => YamlView::Sequence(
            Seq::new(
                items.len() as nat,
                |i: int| if 0 <= i < items.len() { tree(items[i]) } else { YamlView::Null },
            ),
        ),
        YamlValue::Mapping(entries) => YamlView::Mapping(
            Seq::new(
                entries.len() as nat,
                |i: int|
                    if 0 <= i < entries.len() {
                        (tree(entries[i].0), tree(entries[i].1))
                    } else {
                        (YamlView::Null, YamlView::Null)
                    },
            ),
        ),
    }
}

impl View for YamlValue {
    type V = YamlView;

    open spec fn view(&self) -> YamlView {
        tree(*self)
    }
}

/// The trees of a sequence of documents.
pub open spec fn yaml_items(items: Seq<YamlValue>) -> Seq<YamlView> {
    Seq::new(items.len(), |i: int| items[i]@)
}

/// The trees of a sequence of entries.
pub open spec fn yaml_entries(entries: Seq<(YamlValue, YamlValue)>) -> Seq<(YamlView, YamlView)> {
    Seq::new(entries.len(), |i: int| (entries[i].0@, entries[i].1@))
}

/// The tree of a sequence is made of the trees of its items.
pub proof fn yaml_sequence_view(items: Vec<YamlValue>)
    ensures
        YamlValue::Sequence(items)@ == YamlView::Sequence(yaml_items(items@)),
{
    assert(YamlValue::Sequence(items)@->Sequence_0 =~= yaml_items(items@));
}

/// The tree of a mapping is made of the trees of its keys and of what they
/// lead to.
pub proof fn yaml_mapping_view(entries: Vec<(YamlValue, YamlValue)>)
    ensures
        YamlValue::Mapping(entries)@ == YamlView::Mapping(yaml_entries(entries@)),
{
    assert(YamlValue::Mapping(entries)@->Mapping_0 =~= yaml_entries(entries@));
}

/// Recursion from a sequence to one of its items goes down.
pub proof fn yaml_item_is_smaller(document: YamlValue, i: int)
    requires
        document is Sequence,
        0 <= i < document->Sequence_0.len(),
    ensures
        decreases_to!(document => document->Sequence_0[i]),
{
    assert(decreases_to!(document => document->Sequence_0));
    assert(decreases_to!(document->Sequence_0 => document->Sequence_0@));
    assert(decreases_to!(document->Sequence_0@ => document->Sequence_0@[i]));
}

/// Recursion from a mapping to a key, or to what a key leads to, goes down.
pub proof fn yaml_entry_is_smaller(document: YamlValue, i: int)
    requires
        document is Mapping,
        0 <= i < document->Mapping_0.len(),
    ensures
        decreases_to!(document => document->Mapping_0[i].0),
        decreases_to!(document => document->Mapping_0[i].1),
{
    assert(decreases_to!(document => document->Mapping_0));
    assert(decreases_to!(document->Mapping_0 => document->Mapping_0@));
    assert(decreases_to!(document->Mapping_0@ => document->Mapping_0@[i]));
    assert(decreases_to!(document->Mapping_0@[i] => document->Mapping_0@[i].0));
    assert(decreases_to!(document->Mapping_0@[i] => document->Mapping_0@[i].1));
}

impl Clone for YamlValue {
    /// A document of the same tree.
    fn clone(&self) -> (r: Self)
        ensures
            r@ == self@,
        decreases self,
    {
        match self {
            YamlValue::Null => YamlValue::Null,
            YamlValue::Bool(b) => YamlValue::Bool(*b),
            YamlValue::Number(n) => YamlValue::Number(*n),
            YamlValue::String(s) => YamlValue::String(s.clone()),
            YamlValue::Sequence(items) => {
                let mut copy: Vec<YamlValue> = Vec::new();
                let mut i: usize = 0;
                while i < items.len()
                    invariant
                        i <= items.len(),
                        *self == YamlValue::Sequence(*items),
                        copy.len() == i,
                        forall|j: int| 0 <= j < i ==> copy[j]@ == items[j]@,
                    decreases items.len() - i,
                {
                    proof {
                        yaml_item_is_smaller(*self, i as int);
                    }
                    copy.push(items[i].clone());
                    i += 1;
                }
                proof {
                    yaml_sequence_view(copy);
                    yaml_sequence_view(*items);
                    assert(yaml_items(copy@) =~= yaml_items(items@));
                }
                YamlValue::Sequence(copy)
            },
            YamlValue::Mapping(entries) => {
                let mut copy: Vec<(YamlValue, YamlValue)> = Vec::new();
                let mut i: usize = 0;
                while i < entries.len()
                    invariant
                        i <= entries.len(),
                        *self == YamlValue::Mapping(*entries),
                        copy.len() == i,
                        forall|j: int|
                            0 <= j < i ==> copy[j].0@ == entries[j].0@ && copy[j].1@
                                == entries[j].1@,
                    decreases entries.len() - i,
                {
                    proof {
                        yaml_entry_is_smaller(*self, i as int);
                    }
                    copy.push((entries[i].0.clone(), entries[i].1.clone()));
                    i += 1;
                }
                proof {
                    yaml_mapping_view(copy);
                    yaml_mapping_view(*entries);
                    assert(yaml_entries(copy@) =~= yaml_entries(entries@));
                }
                YamlValue::Mapping(copy)
            },
        }
    }
}

impl YamlView {
    /// No mapping anywhere in the document has one key twice.
    pub open spec fn well_formed(self) -> bool
        decreases self,
    {
        match self {
            YamlView::Sequence(items) => forall|i: int|
                0 <= i < items.len() ==> (#[trigger] items[i]).well_formed(),
            YamlView::Mapping(entries) => {
                &&& forall|i: int, j: int|
                    0 <= i < j < entries.len() ==> entries[i].0 != entries[j].0
                &&& forall|i: int|
                    0 <= i < entries.len() ==> (#[trigger] entries[i]).1.well_formed()
            },
            _ => true,
        }
    }
}

/// What keeps a YAML document from being a value.
#[derive(Debug, PartialEq)]
pub enum FromYamlError {
    /// A mapping has this key, which is not a string.
    NonStringKey { key: YamlValue },
}

/// A [`FromYamlError`] with the tree of its key.
pub enum FromYamlErrorView {
    NonStringKey { key: YamlView },
}

impl View for FromYamlError {
    type V = FromYamlErrorView;

    open spec fn view(&self) -> FromYamlErrorView {
        match self {
            FromYamlError::NonStringKey { key } => FromYamlErrorView::NonStringKey { key: key@ },
        }
    }
}

/// The sequence of the values made of a document's items, if all were made.
pub open spec fn array_result(made: Result<Seq<ValueView>, FromYamlErrorView>) -> Result<
    ValueView,
    FromYamlErrorView,
> {
    match made {
        Ok(values) => Ok(ValueView::Array(values)),
        Err(e) => Err(e),
    }
}

/// The object of the members made of a mapping's entries, if all were made.
pub open spec fn object_result(
    made: Result<Seq<(Seq<char>, ValueView)>, FromYamlErrorView>,
) -> Result<ValueView, FromYamlErrorView> {
    match made {
        Ok(members) => Ok(ValueView::Object(members)),
        Err(e) => Err(e),
    }
}

/// The member made of an entry: its key must be a string, and then what the
/// key leads to must be a value.
pub open spec fn member_result(
    key: YamlView,
    made: Result<ValueView, FromYamlErrorView>,
) -> Result<(Seq<char>, ValueView), FromYamlErrorView> {
    match key {
        YamlView::String(name) => match made {
            Ok(value) => Ok((name, value)),
            Err(e) => Err(e),
        },
        _ => Err(FromYamlErrorView::NonStringKey { key }),
    }
}

/// The value that a YAML document stands for, or the first key in it, in
/// reading order, that is not a string. A number is unsigned where it is an
/// integer from zero up, signed where it is an integer below zero, and a
/// float otherwise: an integer is read by its sign, in whichever of the two
/// forms the document holds it.
pub open spec fn to_value(document: YamlView) -> Result<ValueView, FromYamlErrorView>
    decreases document,
{
    match document {
        YamlView::Null => Ok(ValueView::Null),
        YamlView::Bool(b) => Ok(ValueView::Bool(b)),
        YamlView::Number(YamlNumber::PosInt(u)) => Ok(ValueView::Uint(u)),
        YamlView::Number(YamlNumber::NegInt(i)) => if i < 0 {
            Ok(ValueView::Int(i))
        } else {
            Ok(ValueView::Uint(i as u64))
        },
        YamlView::Number(YamlNumber::Float(bits)) => Ok(ValueView::Float(bits)),
        YamlView::String(s) => Ok(ValueView::String(s)),
        YamlView::Sequence(items) => array_result(all_ok(to_items(items))),
        YamlView::Mapping(entries) => object_result(all_ok(to_members(entries))),
    }
}

/// What [`to_value`] gives for each item of a sequence.
pub open spec fn to_items(items: Seq<YamlView>) -> Seq<Result<ValueView, FromYamlErrorView>>
    decreases items,
{
    Seq::new(
        items.len(),
        |i: int| if 0 <= i < items.len() { to_value(items[i]) } else { Ok(ValueView::Null) },
    )
}

/// The member made of each entry of a mapping.
pub open spec fn to_members(entries: Seq<(YamlView, YamlView)>) -> Seq<
    Result<(Seq<char>, ValueView), FromYamlErrorView>,
>
    decreases entries,
{
    Seq::new(
        entries.len(),
        |i: int|
            if 0 <= i < entries.len() {
                member_result(entries[i].0, to_value(entries[i].1))
            } else {
                Ok((Seq::empty(), ValueView::Null))
            },
    )
}

/// The YAML number of a signed integer.
pub open spec fn signed(i: i64) -> YamlNumber {
    if i < 0 {
        YamlNumber::NegInt(i)
    } else {
        YamlNumber::PosInt(i as u64)
    }
}

/// The YAML document for a value: YAML can hold every value.
pub open spec fn from_value(value: ValueView) -> YamlView
    decreases value,
{
    match value {
        ValueView::Null => YamlView::Null,
        ValueView::Bool(b) => YamlView::Bool(b),
        ValueView::Int(i) => YamlView::Number(signed(i)),
        ValueView::Uint(u) => YamlView::Number(YamlNumber::PosInt(u)),
        ValueView::Float(bits) => YamlView::Number(YamlNumber::Float(bits)),
        ValueView::String(s) => YamlView::String(s),
        ValueView::Array(items) => YamlView::Sequence(
            Seq::new(
                items.len(),
                |i: int| if 0 <= i < items.len() { from_value(items[i]) } else { YamlView::Null },
            ),
        ),
        ValueView::Object(members) => YamlView::Mapping(
            Seq::new(
                members.len(),
                |i: int|
                    if 0 <= i < members.len() {
                        (YamlView::String(members[i].0), from_value(members[i].1))
                    } else {
                        (YamlView::Null, YamlView::Null)
                    },
            ),
        ),
    }
}

/// A value without a signed integer from zero up: YAML reads such an integer
/// back as unsigned.
pub open spec fn plain(value: ValueView) -> bool
    decreases value,
{
    match value {
        ValueView::Int(i) => i < 0,
        ValueView::Array(items) => forall|i: int|
            0 <= i < items.len() ==> plain(#[trigger] items[i]),
        ValueView::Object(members) => forall|i: int|
            0 <= i < members.len() ==> plain((#[trigger] members[i]).1),
        _ => true,
    }
}

/// Writing a value as a YAML document and reading the document gives the
/// value back, for every value that has no signed integer from zero up:
/// `Value::try_from` gives what `YamlValue::from` was given, as the two are
/// what [`to_value`] and [`from_value`] say.
pub proof fn round_trip(value: ValueView)
    requires
        plain(value),
    ensures
        to_value(from_value(value)) == Ok::<ValueView, FromYamlErrorView>(value),
    decreases value,
{
    match value {
        ValueView::Array(items) => {
            let documents = from_value(value)->Sequence_0;
            let results = to_items(documents);
            assert forall|i: int| 0 <= i < items.len() implies results[i] == Ok::<
                ValueView,
                FromYamlErrorView,
            >(items[i]) by {
                round_trip(items[i]);
            }
            all_ok_succeeds(results);
            assert(Seq::new(results.len(), |i: int| results[i]->Ok_0) =~= items);
        },
        ValueView::Object(members) => {
            let entries = from_value(value)->Mapping_0;
            let results = to_members(entries);
            assert forall|i: int| 0 <= i < members.len() implies results[i] == Ok::<
                (Seq<char>, ValueView),
                FromYamlErrorView,
            >(members[i]) by {
                round_trip(members[i].1);
            }
            all_ok_succeeds(results);
            assert(Seq::new(results.len(), |i: int| results[i]->Ok_0) =~= members);
        },
        _ => {},
    }
}

/// The value of a document without repeated keys has no name twice in an
/// object.
pub proof fn to_value_well_formed(document: YamlView)
    requires
        document.well_formed(),
        to_value(document) is Ok,
    ensures
        to_value(document)->Ok_0.well_formed(),
    decreases document,
{
    match document {
        YamlView::Sequence(items) => {
            let results = to_items(items);
            first_failure_first(results, 0);
            let values = to_value(document)->Ok_0->Array_0;
            assert forall|i: int| 0 <= i < values.len() implies (#[trigger] values[i]).well_formed() by {
                assert(results[i] is Ok);
                to_value_well_formed(items[i]);
            }
        },
        YamlView::Mapping(entries) => {
            let results = to_members(entries);
            first_failure_first(results, 0);
            let members = to_value(document)->Ok_0->Object_0;
            assert forall|i: int| 0 <= i < members.len() implies (#[trigger] members[i]).1.well_formed() by {
                assert(results[i] is Ok);
                to_value_well_formed(entries[i].1);
            }
            assert forall|i: int, j: int| 0 <= i < j < members.len() implies members[i].0
                != members[j].0 by {
                assert(results[i] is Ok);
                assert(results[j] is Ok);
            }
        },
        _ => {},
    }
}

/// What `serde_yaml` makes of a text: the document, or nothing where the text
/// is not YAML.
pub uninterp spec fn yaml_parsed(text: Seq<char>) -> Option<YamlView>;

/// The text that `serde_yaml` writes for a document, or nothing where it
/// fails.
pub uninterp spec fn yaml_printed(document: YamlView) -> Option<Seq<char>>;

/// Mirrors a `serde_yaml::Value`, variant by variant. A number is told apart
/// by `as_u64` and `as_i64`, in that order, and is a float otherwise.
#[verifier::external_body]
fn from_native(native: &Native) -> YamlValue {
    match native {
        Native::Null => YamlValue::Null,
        Native::Bool(b) => YamlValue::Bool(*b),
        Native::Number(n) => YamlValue::Number(match (n.as_u64(), n.as_i64()) {
            (Some(u), _) => YamlNumber::PosInt(u),
            (_, Some(i)) => YamlNumber::NegInt(i),
            _ => YamlNumber::Float(n.as_f64().unwrap_or_default().to_bits()),
        }),
        Native::String(s) => YamlValue::String(s.clone()),
        Native::Sequence(items) => YamlValue::Sequence(items.iter().map(from_native).collect()),
        Native::Mapping(map) => YamlValue::Mapping(
            map.iter().map(|(k, v)| (from_native(k), from_native(v))).collect(),
        ),
    }
}

/// Builds the `serde_yaml::Value` that a document mirrors. A number goes
/// through `Value::from`. A null has no `as_f64`, so `unwrap_or` always gives
/// the number of the bits: the call is there to say which kind of number
/// the bits are turned into.
#[verifier::external_body]
fn to_native(document: &YamlValue) -> Native {
    match document {
        YamlValue::Null => Native::Null,
        YamlValue::Bool(b) => Native::Bool(*b),
        YamlValue::Number(YamlNumber::PosInt(u)) => Native::from(*u),
        YamlValue::Number(YamlNumber::NegInt(i)) => Native::from(*i),
        YamlValue::Number(YamlNumber::Float(bits)) => Native::from(
            Native::Null.as_f64().unwrap_or(FromBytes::from_le_bytes(&bits.to_le_bytes())),
        ),
        YamlValue::String(s) => Native::String(s.clone()),
        YamlValue::Sequence(items) => Native::Sequence(items.iter().map(to_native).collect()),
        YamlValue::Mapping(entries) => Native::Mapping(
            entries.iter().map(|(k, v)| (to_native(k), to_native(v))).collect(),
        ),
    }
}

/// Calls `serde_yaml::from_str` for a `serde_yaml::Value` and mirrors what
/// comes back. The result is the named one: the crate's parser decides on
/// the text alone. A mapping of `serde_yaml` is a map, so no key occurs twice
/// in it.
#[verifier::external_body]
fn parse(text: &str) -> (r: Result<YamlValue, NativeError>)
    ensures
        r is Ok == yaml_parsed(text@) is Some,
        r matches Ok(document) ==> Some(document@) == yaml_parsed(text@)
            && document@.well_formed(),
{
    match serde_yaml::from_str::<Native>(text) {
        Ok(native) => Ok(from_native(&native)),
        Err(e) => Err(e),
    }
}

/// Calls `serde_yaml::to_string` on the `serde_yaml::Value` that the document
/// mirrors. The result is the named one.
#[verifier::external_body]
fn print(document: &YamlValue) -> (r: Result<String, NativeError>)
    ensures
        r is Ok == yaml_printed(document@) is Some,
        r matches Ok(text) ==> Some(text@) == yaml_printed(document@),
{
    serde_yaml::to_string(&to_native(document))
}

/// The YAML format.
#[derive(Clone, Debug)]
pub struct Yaml {}

impl crate::source::FileSource for Yaml {
    type Value = YamlValue;

    type SerError = NativeError;

    type DeError = NativeError;

    open spec fn writable(&self, value: &YamlValue) -> bool {
        true
    }

    /// The extension of the format's files.
    fn extension(&self) -> (r: String)
        ensures
            r@ == "yaml"@,
    {
        "yaml".to_owned()
    }

    /// Reads a YAML text.
    fn deserialize(&self, string: &str) -> (r: Result<YamlValue, NativeError>)
        ensures
            r is Ok == yaml_parsed(string@) is Some,
            r matches Ok(document) ==> Some(document@) == yaml_parsed(string@)
                && document@.well_formed(),
    {
        parse(string)
    }

    /// Writes a document as YAML text that ends with a line feed.
    fn serialize(&self, value: &YamlValue) -> (r: Result<String, NativeError>)
        ensures
            r is Ok == yaml_printed(value@) is Some,
            r matches Ok(text) ==> text@ == yaml_printed(value@)->0.push('\n'),
    {
        match print(value) {
            Ok(mut text) => {
                proof {
                    reveal_strlit("\n");
                }
                let ghost before = text@;
                text.append("\n");
                assert(text@ =~= before.push('\n'));
                Ok(text)
            },
            Err(e) => Err(e),
        }
    }
}

impl Yaml {
    /// The value that a document stands for, or its first key that is not a
    /// string.
    pub fn to_value(&self, document: &YamlValue) -> (r: Result<Value, FromYamlError>)
        ensures
            match r {
                Ok(value) => to_value(document@) == Ok::<ValueView, FromYamlErrorView>(value@),
                Err(e) => to_value(document@) == Err::<ValueView, FromYamlErrorView>(e@),
            },
        decreases document,
    {
        match document {
            YamlValue::Null => Ok(Value::Null),
            YamlValue::Bool(b) => Ok(Value::Bool(*b)),
            YamlValue::Number(YamlNumber::PosInt(u)) => Ok(Value::Uint(*u)),
            YamlValue::Number(YamlNumber::NegInt(i)) => if *i < 0 {
                Ok(Value::Int(*i))
            } else {
                Ok(Value::Uint(*i as u64))
            },
            YamlValue::Number(YamlNumber::Float(bits)) => Ok(Value::Float(*bits)),
            YamlValue::String(s) => Ok(Value::String(s.clone())),
            YamlValue::Sequence(items) => {
                let ghost results = to_items(yaml_items(items@));
                let mut values: Vec<Value> = Vec::new();
                let mut i: usize = 0;
                proof {
                    yaml_sequence_view(*items);
                }
                while i < items.len()
                    invariant
                        i <= items.len(),
                        *document == YamlValue::Sequence(*items),
                        to_value(document@) == array_result(all_ok(results)),
                        results == to_items(yaml_items(items@)),
                        values.len() == i,
                        forall|j: int|
                            0 <= j < i ==> results[j] == Ok::<ValueView, FromYamlErrorView>(
                                values[j]@,
                            ),
                    decreases items.len() - i,
                {
                    proof {
                        yaml_item_is_smaller(*document, i as int);
                    }
                    match self.to_value(&items[i]) {
                        Ok(value) => {
                            values.push(value);
                        },
                        Err(e) => {
                            proof {
                                all_ok_fails(results, i as int);
                            }
                            return Err(e);
                        },
                    }
                    i += 1;
                }
                proof {
                    all_ok_succeeds(results);
                    array_view(values);
                    assert(items_view(values@) =~= Seq::new(
                        results.len(),
                        |i: int| results[i]->Ok_0,
                    ));
                }
                Ok(Value::Array(values))
            },
            YamlValue::Mapping(entries) => {
                let ghost results = to_members(yaml_entries(entries@));
                let mut members: Vec<(String, Value)> = Vec::new();
                let mut i: usize = 0;
                proof {
                    yaml_mapping_view(*entries);
                }
                while i < entries.len()
                    invariant
                        i <= entries.len(),
                        *document == YamlValue::Mapping(*entries),
                        to_value(document@) == object_result(all_ok(results)),
                        results == to_members(yaml_entries(entries@)),
                        members.len() == i,
                        forall|j: int|
                            0 <= j < i ==> results[j] == Ok::<
                                (Seq<char>, ValueView),
                                FromYamlErrorView,
                            >((members[j].0@, members[j].1@)),
                    decreases entries.len() - i,
                {
                    proof {
                        yaml_entry_is_smaller(*document, i as int);
                    }
                    match &entries[i].0 {
                        YamlValue::String(name) => {
                            match self.to_value(&entries[i].1) {
                                Ok(value) => {
                                    members.push((name.clone(), value));
                                },
                                Err(e) => {
                                    proof {
                                        all_ok_fails(results, i as int);
                                    }
                                    return Err(e);
                                },
                            }
                        },
                        key => {
                            let e = FromYamlError::NonStringKey { key: key.clone() };
                            proof {
                                all_ok_fails(results, i as int);
                            }
                            return Err(e);
                        },
                    }
                    i += 1;
                }
                proof {
                    all_ok_succeeds(results);
                    object_view(members);
                    assert(members_view(members@) =~= Seq::new(
                        results.len(),
                        |i: int| results[i]->Ok_0,
                    ));
                }
                Ok(Value::Object(members))
            },
        }
    }

    /// The document for a value.
    pub fn from_value(&self, value: &Value) -> (r: YamlValue)
        ensures
            r@ == from_value(value@),
        decreases value,
    {
        match value {
            Value::Null => YamlValue::Null,
            Value::Bool(b) => YamlValue::Bool(*b),
            Value::Int(i) => {
                if *i < 0 {
                    YamlValue::Number(YamlNumber::NegInt(*i))
                } else {
                    YamlValue::Number(YamlNumber::PosInt(*i as u64))
                }
            },
            Value::Uint(u) => YamlValue::Number(YamlNumber::PosInt(*u)),
            Value::Float(bits) => YamlValue::Number(YamlNumber::Float(*bits)),
            Value::String(s) => YamlValue::String(s.clone()),
            Value::Array(items) => {
                let mut documents: Vec<YamlValue> = Vec::new();
                let mut i: usize = 0;
                while i < items.len()
                    invariant
                        i <= items.len(),
                        *value == Value::Array(*items),
                        documents.len() == i,
                        forall|j: int| 0 <= j < i ==> documents[j]@ == from_value(items[j]@),
                    decreases items.len() - i,
                {
                    proof {
                        item_is_smaller(*value, i as int);
                    }
                    documents.push(self.from_value(&items[i]));
                    i += 1;
                }
                proof {
                    array_view(*items);
                    yaml_sequence_view(documents);
                    assert(yaml_items(documents@) =~= from_value(value@)->Sequence_0);
                }
                YamlValue::Sequence(documents)
            },
            Value::Object(members) => {
                let mut entries: Vec<(YamlValue, YamlValue)> = Vec::new();
                let mut i: usize = 0;
                while i < members.len()
                    invariant
                        i <= members.len(),
                        *value == Value::Object(*members),
                        entries.len() == i,
                        forall|j: int|
                            0 <= j < i ==> entries[j].0@ == YamlView::String(members[j].0@)
                                && entries[j].1@ == from_value(members[j].1@),
                    decreases members.len() - i,
                {
                    proof {
                        member_is_smaller(*value, i as int);
                    }
                    entries.push(
                        (YamlValue::String(members[i].0.clone()), self.from_value(&members[i].1)),
                    );
                    i += 1;
                }
                proof {
                    object_view(*members);
                    yaml_mapping_view(entries);
                    assert(yaml_entries(entries@) =~= from_value(value@)->Mapping_0);
                }
                YamlValue::Mapping(entries)
            },
        }
    }
}

impl TryFrom<YamlValue> for Value {
    type Error = FromYamlError;

    /// The value that a YAML document stands for, or its first key that is
    /// not a string.
    fn try_from(document: YamlValue) -> (r: Result<Value, FromYamlError>)
        ensures
            match r {
                Ok(value) => to_value(document@) == Ok::<ValueView, FromYamlErrorView>(value@),
                Err(e) => to_value(document@) == Err::<ValueView, FromYamlErrorView>(e@),
            },
    {
        (Yaml {}).to_value(&document)
    }
}

impl vstd::std_specs::convert::TryFromSpecImpl<YamlValue> for Value {
    /// The trees are fixed, not which of the values of that tree comes back.
    open spec fn obeys_try_from_spec() -> bool {
        false
    }

    open spec fn try_from_spec(document: YamlValue) -> Result<Value, FromYamlError> {
        match to_value(document@) {
            Ok(tree) => Ok(choose|value: Value| value@ == tree),
            Err(e) => Err(choose|error: FromYamlError| error@ == e),
        }
    }
}

impl From<Value> for YamlValue {
    /// The YAML document for a value.
    fn from(value: Value) -> (r: YamlValue)
        ensures
            r@ == from_value(value@),
    {
        (Yaml {}).from_value(&value)
    }
}

impl vstd::std_specs::convert::FromSpecImpl<Value> for YamlValue {
    /// The trees are fixed, not which of the documents of that tree comes
    /// back.
    open spec fn obeys_from_spec() -> bool {
        false
    }

    open spec fn from_spec(value: Value) -> YamlValue {
        choose|document: YamlValue| document@ == from_value(value@)
    }
}

} // verus!
