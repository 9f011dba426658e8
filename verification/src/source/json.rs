//! JSON files, read and written with `serde_json`.

use crate::float::{finite, infinite, is_infinite, is_nan, nan};
use crate::entries::distinct;
use crate::sequence::{all_ok, all_ok_fails, all_ok_succeeds, first_failure_first};
use crate::value::{array_view, items_view, members_view, object_view, Value, ValueView};
use crate::value::{item_is_smaller, member_is_smaller};
use num_traits::FromBytes;
use serde_json::Error as NativeError;
use serde_json::Number as NativeNumber;
use serde_json::Value as Native;
use vstd::prelude::*;

verus! {

/// `serde_json::Value`, of which nothing is known here but what the functions
/// below say.
#[verifier::external_type_specification]
#[verifier::external_body]
pub struct ExNative(Native);

/// `serde_json::Error`, which is carried and put into words, not looked into.
#[verifier::external_type_specification]
#[verifier::external_body]
pub struct ExNativeError(NativeError);

/// A JSON number as `serde_json` holds it: an integer from zero up, an integer
/// below zero, or a floating-point number by its bits.
#[derive(Debug, Clone, Copy, PartialEq, Eq, Structural)]
pub enum JsonNumber {
    PosInt(u64),
    NegInt(i64),
    Float(u64),
}

/// A JSON document as `serde_json` holds it.
#[derive(Debug, PartialEq)]
pub enum JsonValue {
    Null,
    Bool(bool),
    Number(JsonNumber),
    String(String),
    Array(Vec<JsonValue>),
    Object(Vec<(String, JsonValue)>),
}

/// The mathematical tree that a [`JsonValue`] stands for.
pub enum JsonView {
    Null,
    Bool(bool),
    Number(JsonNumber),
    String(Seq<char>),
    Array(Seq<JsonView>),
    Object(Seq<(Seq<char>, JsonView)>),
}

/// The tree of a document.
pub open spec fn tree(document: JsonValue) -> JsonView
    decreases document,
{
    match document {
        JsonValue::Null => JsonView::Null,
        JsonValue::Bool(b) => JsonView::Bool(b),
        JsonValue::Number(n) => JsonView::Number(n),
        JsonValue::String(s) => JsonView::String(s@),
        JsonValue::Array(items) => JsonView::Array(
            Seq::new(
                items.len() as nat,
                |i: int| if 0 <= i < items.len() { tree(items[i]) } else { JsonView::Null },
            ),
        ),
        JsonValue::Object(members) => JsonView::Object(
            Seq::new(
                members.len() as nat,
                |i: int|
                    if 0 <= i < members.len() {
                        (members[i].0@, tree(members[i].1))
                    } else {
                        (Seq::empty(), JsonView::Null)
                    },
            ),
        ),
    }
}

impl View for JsonValue {
    type V = JsonView;

    open spec fn view(&self) -> JsonView {
        tree(*self)
    }
}

/// The trees of a sequence of documents.
pub open spec fn json_items(items: Seq<JsonValue>) -> Seq<JsonView> {
    Seq::new(items.len(), |i: int| items[i]@)
}

/// The names and trees of a sequence of members.
pub open spec fn json_members(members: Seq<(String, JsonValue)>) -> Seq<(Seq<char>, JsonView)> {
    Seq::new(members.len(), |i: int| (members[i].0@, members[i].1@))
}

/// The tree of an array is made of the trees of its items.
pub proof fn json_array_view(items: Vec<JsonValue>)
    ensures
        JsonValue::Array(items)@ == JsonView::Array(json_items(items@)),
{
    assert(JsonValue::Array(items)@->Array_0 =~= json_items(items@));
}

/// The tree of an object is made of its members' names and trees.
pub proof fn json_object_view(members: Vec<(String, JsonValue)>)
    ensures
        JsonValue::Object(members)@ == JsonView::Object(json_members(members@)),
{
    assert(JsonValue::Object(members)@->Object_0 =~= json_members(members@));
}

impl JsonView {
    /// No object anywhere in the document has two members of one name.
    pub open spec fn well_formed(self) -> bool
        decreases self,
    {
        match self {
            JsonView::Array(items) => forall|i: int|
                0 <= i < items.len() ==> (#[trigger] items[i]).well_formed(),
            JsonView::Object(members) => {
                &&& distinct(members)
                &&& forall|i: int|
                    0 <= i < members.len() ==> (#[trigger] members[i]).1.well_formed()
            },
            _ => true,
        }
    }

    /// Every floating-point number in the document is finite: what JSON text
    /// can hold.
    pub open spec fn writable(self) -> bool
        decreases self,
    {
        match self {
            JsonView::Number(JsonNumber::Float(bits)) => finite(bits),
            JsonView::Array(items) => forall|i: int|
                0 <= i < items.len() ==> (#[trigger] items[i]).writable(),
            JsonView::Object(members) => forall|i: int|
                0 <= i < members.len() ==> (#[trigger] members[i]).1.writable(),
            _ => true,
        }
    }
}

/// What a value cannot be for JSON to hold it.
#[derive(Debug, Clone, Copy, PartialEq, Eq, Structural)]
pub enum IntoJsonError {
    /// JSON has no "not a number".
    Nan,
    /// JSON has no infinity.
    Infinite,
}

/// The value that a JSON document stands for. A number is unsigned where it
/// is an integer from zero up, signed where it is an integer below zero, and
/// a float otherwise: an integer is read by its sign, in whichever of the two
/// forms the document holds it.
pub open spec fn to_value(document: JsonView) -> ValueView
    decreases document,
{
    match document {
        JsonView::Null => ValueView::Null,
        JsonView::Bool(b) => ValueView::Bool(b),
        JsonView::Number(JsonNumber::PosInt(u)) => ValueView::Uint(u),
        JsonView::Number(JsonNumber::NegInt(i)) => if i < 0 {
            ValueView::Int(i)
        } else {
            ValueView::Uint(i as u64)
        },
        JsonView::Number(JsonNumber::Float(bits)) => ValueView::Float(bits),
        JsonView::String(s) => ValueView::String(s),
        JsonView::Array(items) => ValueView::Array(
            Seq::new(
                items.len(),
                |i: int| if 0 <= i < items.len() { to_value(items[i]) } else { ValueView::Null },
            ),
        ),
        JsonView::Object(members) => ValueView::Object(
            Seq::new(
                members.len(),
                |i: int|
                    if 0 <= i < members.len() {
                        (members[i].0, to_value(members[i].1))
                    } else {
                        (Seq::empty(), ValueView::Null)
                    },
            ),
        ),
    }
}

/// The JSON number of a signed integer.
pub open spec fn signed(i: i64) -> JsonNumber {
    if i < 0 {
        JsonNumber::NegInt(i)
    } else {
        JsonNumber::PosInt(i as u64)
    }
}

/// The array of the documents made of a value's items, if all were made.
pub open spec fn array_result(made: Result<Seq<JsonView>, IntoJsonError>) -> Result<
    JsonView,
    IntoJsonError,
> {
    match made {
        Ok(documents) => Ok(JsonView::Array(documents)),
        Err(e) => Err(e),
    }
}

/// The object that gives each member's name the document made of what the
/// member holds, if all were made.
pub open spec fn object_result(
    members: Seq<(Seq<char>, ValueView)>,
    made: Result<Seq<JsonView>, IntoJsonError>,
) -> Result<JsonView, IntoJsonError> {
    match made {
        Ok(documents) => Ok(
            JsonView::Object(Seq::new(members.len(), |i: int| (members[i].0, documents[i]))),
        ),
        Err(e) => Err(e),
    }
}

/// The JSON document for a value, or the first thing in it, in reading order,
/// that JSON cannot hold.
pub open spec fn from_value(value: ValueView) -> Result<JsonView, IntoJsonError>
    decreases value,
{
    match value {
        ValueView::Null => Ok(JsonView::Null),
        ValueView::Bool(b) => Ok(JsonView::Bool(b)),
        ValueView::Int(i) => Ok(JsonView::Number(signed(i))),
        ValueView::Uint(u) => Ok(JsonView::Number(JsonNumber::PosInt(u))),
        ValueView::Float(bits) => if nan(bits) {
            Err(IntoJsonError::Nan)
        } else if infinite(bits) {
            Err(IntoJsonError::Infinite)
        } else {
            Ok(JsonView::Number(JsonNumber::Float(bits)))
        },
        ValueView::String(s) => Ok(JsonView::String(s)),
        ValueView::Array(items) => array_result(all_ok(from_items(items))),
        ValueView::Object(members) => object_result(members, all_ok(from_members(members))),
    }
}

/// What [`from_value`] gives for each item of an array.
pub open spec fn from_items(items: Seq<ValueView>) -> Seq<Result<JsonView, IntoJsonError>>
    decreases items,
{
    Seq::new(
        items.len(),
        |i: int| if 0 <= i < items.len() { from_value(items[i]) } else { Ok(JsonView::Null) },
    )
}

/// What [`from_value`] gives for what each member of an object holds.
pub open spec fn from_members(members: Seq<(Seq<char>, ValueView)>) -> Seq<
    Result<JsonView, IntoJsonError>,
>
    decreases members,
{
    Seq::new(
        members.len(),
        |i: int| if 0 <= i < members.len() { from_value(members[i].1) } else { Ok(JsonView::Null) },
    )
}

/// A value without a signed integer from zero up: JSON reads such an integer
/// back as unsigned.
pub open spec fn plain(value: ValueView) -> bool
    decreases value,
{
    match value {
        ValueView::Int(i) => i < 0,
        ValueView::Array(items) => forall|i: int|
            0 <= i < items.len() ==> plain(#[trigger] items[i]),
        ValueView::Object(members) => forall|i: int|
            0 <= i < members.len() ==> plain((#[trigger] members[i]).1),
        _ => true,
    }
}

/// Writing a value as a JSON document and reading the document gives the
/// value back, for every value that JSON can hold and that has no signed
/// integer from zero up: `Value::from` gives what `JsonValue::try_from` was
/// given, as the two are what [`to_value`] and [`from_value`] say.
pub proof fn round_trip(value: ValueView)
    requires
        plain(value),
        from_value(value) is Ok,
    ensures
        to_value(from_value(value)->Ok_0) == value,
    decreases value,
{
    match value {
        ValueView::Array(items) => {
            let results = from_items(items);
            first_failure_first(results, 0);
            let documents = from_value(value)->Ok_0->Array_0;
            assert forall|i: int| 0 <= i < items.len() implies to_value(documents[i])
                == items[i] by {
                assert(results[i] is Ok);
                round_trip(items[i]);
            }
            assert(to_value(from_value(value)->Ok_0)->Array_0 =~= items);
        },
        ValueView::Object(members) => {
            let results = from_members(members);
            first_failure_first(results, 0);
            let documents = from_value(value)->Ok_0->Object_0;
            assert forall|i: int| 0 <= i < members.len() implies to_value(documents[i].1)
                == members[i].1 by {
                assert(results[i] is Ok);
                round_trip(members[i].1);
            }
            assert(to_value(from_value(value)->Ok_0)->Object_0 =~= members);
        },
        _ => {},
    }
}

/// The value of a document without repeated names has none either.
pub proof fn to_value_well_formed(document: JsonView)
    requires
        document.well_formed(),
    ensures
        to_value(document).well_formed(),
    decreases document,
{
    match document {
        JsonView::Array(items) => {
            assert forall|i: int| 0 <= i < items.len() implies (#[trigger] to_value(
                document,
            )->Array_0[i]).well_formed() by {
                to_value_well_formed(items[i]);
            }
        },
        JsonView::Object(members) => {
            assert forall|i: int| 0 <= i < members.len() implies (#[trigger] to_value(
                document,
            )->Object_0[i]).1.well_formed() by {
                to_value_well_formed(members[i].1);
            }
        },
        _ => {},
    }
}

/// What `serde_json` makes of a text: the document, or nothing where the
/// text is not JSON.
pub uninterp spec fn json_parsed(text: Seq<char>) -> Option<JsonView>;

/// The text that `serde_json` writes for a document, indented, or nothing
/// where it fails.
pub uninterp spec fn json_printed(document: JsonView) -> Option<Seq<char>>;

/// Mirrors a `serde_json::Value`, variant by variant. A number is told apart
/// by `as_u64` and `as_i64`, in that order, and is a float otherwise.
#[verifier::external_body]
fn from_native(native: &Native) -> JsonValue {
    match native {
        Native::Null => JsonValue::Null,
        Native::Bool(b) => JsonValue::Bool(*b),
        Native::Number(n) => JsonValue::Number(match (n.as_u64(), n.as_i64()) {
            (Some(u), _) => JsonNumber::PosInt(u),
            (_, Some(i)) => JsonNumber::NegInt(i),
            _ => JsonNumber::Float(n.as_f64().unwrap_or_default().to_bits()),
        }),
        Native::String(s) => JsonValue::String(s.clone()),
        Native::Array(items) => JsonValue::Array(items.iter().map(from_native).collect()),
        Native::Object(map) => JsonValue::Object(
            map.iter().map(|(k, v)| (k.clone(), from_native(v))).collect(),
        ),
    }
}

/// Builds the `serde_json::Value` that a document mirrors. An integer goes
/// through `Value::from`, a float through `Number::from_f64`, which refuses
/// what is not finite.
#[verifier::external_body]
fn to_native(document: &JsonValue) -> Native
    requires
        document@.writable(),
{
    match document {
        JsonValue::Null => Native::Null,
        JsonValue::Bool(b) => Native::Bool(*b),
        JsonValue::Number(JsonNumber::PosInt(u)) => Native::from(*u),
        JsonValue::Number(JsonNumber::NegInt(i)) => Native::from(*i),
        JsonValue::Number(JsonNumber::Float(bits)) => Native::Number(
            NativeNumber::from_f64(FromBytes::from_le_bytes(&bits.to_le_bytes())).unwrap(),
        ),
        JsonValue::String(s) => Native::String(s.clone()),
        JsonValue::Array(items) => Native::Array(items.iter().map(to_native).collect()),
        JsonValue::Object(members) => Native::Object(
            members.iter().map(|(k, v)| (k.clone(), to_native(v))).collect(),
        ),
    }
}

/// Calls `serde_json::from_str` for a `serde_json::Value` and mirrors what
/// comes back. The result is the named one: the crate's parser decides on
/// the text alone. An object of `serde_json` is a map, so no name occurs
/// twice in it.
#[verifier::external_body]
fn parse(text: &str) -> (r: Result<JsonValue, NativeError>)
    ensures
        r is Ok == json_parsed(text@) is Some,
        r matches Ok(document) ==> Some(document@) == json_parsed(text@)
            && document@.well_formed(),
{
    match serde_json::from_str::<Native>(text) {
        Ok(native) => Ok(from_native(&native)),
        Err(e) => Err(e),
    }
}

/// Calls `serde_json::to_string_pretty` on the `serde_json::Value` that the
/// document mirrors. The result is the named one.
#[verifier::external_body]
fn print(document: &JsonValue) -> (r: Result<String, NativeError>)
    requires
        document@.writable(),
    ensures
        r is Ok == json_printed(document@) is Some,
        r matches Ok(text) ==> Some(text@) == json_printed(document@),
{
    serde_json::to_string_pretty(&to_native(document))
}

/// The JSON format.
#[derive(Clone, Debug)]
pub struct Json {}

impl crate::source::FileSource for Json {
    type Value = JsonValue;

    type SerError = NativeError;

    type DeError = NativeError;

    open spec fn writable(&self, value: &JsonValue) -> bool {
        value@.writable()
    }

    /// The extension of the format's files.
    fn extension(&self) -> (r: String)
        ensures
            r@ == "json"@,
    {
        "json".to_owned()
    }

    /// Reads a JSON text.
    fn deserialize(&self, string: &str) -> (r: Result<JsonValue, NativeError>)
        ensures
            r is Ok == json_parsed(string@) is Some,
            r matches Ok(document) ==> Some(document@) == json_parsed(string@)
                && document@.well_formed(),
    {
        parse(string)
    }

    /// Writes a document as indented JSON text that ends with a line feed.
    fn serialize(&self, value: &JsonValue) -> (r: Result<String, NativeError>)
        ensures
            r is Ok == json_printed(value@) is Some,
            r matches Ok(text) ==> text@ == json_printed(value@)->0.push('\n'),
    {
        match print(value) {
            Ok(mut text) => {
                proof {
                    reveal_strlit("\n");
                }
                let ghost before = text@;
                text.append("\n");
                assert(text@ =~= before.push('\n'));
                Ok(text)
            },
            Err(e) => Err(e),
        }
    }
}

impl Json {
    /// The value that a document stands for.
    pub fn to_value(&self, document: &JsonValue) -> (r: Value)
        ensures
            r@ == to_value(document@),
        decreases document,
    {
        match document {
            JsonValue::Null => Value::Null,
            JsonValue::Bool(b) => Value::Bool(*b),
            JsonValue::Number(JsonNumber::PosInt(u)) => Value::Uint(*u),
            JsonValue::Number(JsonNumber::NegInt(i)) => if *i < 0 {
                Value::Int(*i)
            } else {
                Value::Uint(*i as u64)
            },
            JsonValue::Number(JsonNumber::Float(bits)) => Value::Float(*bits),
            JsonValue::String(s) => Value::String(s.clone()),
            JsonValue::Array(items) => {
                let mut values: Vec<Value> = Vec::new();
                let mut i: usize = 0;
                while i < items.len()
                    invariant
                        i <= items.len(),
                        *document == JsonValue::Array(*items),
                        values.len() == i,
                        forall|j: int| 0 <= j < i ==> values[j]@ == to_value(items[j]@),
                    decreases items.len() - i,
                {
                    proof {
                        json_item_is_smaller(*document, i as int);
                    }
                    values.push(self.to_value(&items[i]));
                    i += 1;
                }
                proof {
                    array_view(values);
                    json_array_view(*items);
                    assert(items_view(values@) =~= to_value(document@)->Array_0);
                }
                Value::Array(values)
            },
            JsonValue::Object(members) => {
                let mut values: Vec<(String, Value)> = Vec::new();
                let mut i: usize = 0;
                while i < members.len()
                    invariant
                        i <= members.len(),
                        *document == JsonValue::Object(*members),
                        values.len() == i,
                        forall|j: int|
                            0 <= j < i ==> values[j].0@ == members[j].0@ && values[j].1@
                                == to_value(members[j].1@),
                    decreases members.len() - i,
                {
                    proof {
                        json_member_is_smaller(*document, i as int);
                    }
                    values.push((members[i].0.clone(), self.to_value(&members[i].1)));
                    i += 1;
                }
                proof {
                    object_view(values);
                    json_object_view(*members);
                    assert(members_view(values@) =~= to_value(document@)->Object_0);
                }
                Value::Object(values)
            },
        }
    }

    /// The document for a value, or what in the value JSON cannot hold.
    pub fn from_value(&self, value: &Value) -> (r: Result<JsonValue, IntoJsonError>)
        ensures
            match r {
                Ok(document) => from_value(value@) == Ok::<JsonView, IntoJsonError>(document@),
                Err(e) => from_value(value@) == Err::<JsonView, IntoJsonError>(e),
            },
            r matches Ok(document) ==> document@.writable(),
        decreases value,
    {
        match value {
            Value::Null => Ok(JsonValue::Null),
            Value::Bool(b) => Ok(JsonValue::Bool(*b)),
            Value::Int(i) => {
                if *i < 0 {
                    Ok(JsonValue::Number(JsonNumber::NegInt(*i)))
                } else {
                    Ok(JsonValue::Number(JsonNumber::PosInt(*i as u64)))
                }
            },
            Value::Uint(u) => Ok(JsonValue::Number(JsonNumber::PosInt(*u))),
            Value::Float(bits) => {
                if is_nan(*bits) {
                    Err(IntoJsonError::Nan)
                } else if is_infinite(*bits) {
                    Err(IntoJsonError::Infinite)
                } else {
                    Ok(JsonValue::Number(JsonNumber::Float(*bits)))
                }
            },
            Value::String(s) => Ok(JsonValue::String(s.clone())),
            Value::Array(items) => {
                let ghost results = Seq::new(
                    items.len() as nat,
                    |i: int| from_value(items[i]@),
                );
                let mut documents: Vec<JsonValue> = Vec::new();
                let mut i: usize = 0;
                proof {
                    array_view(*items);
                    assert(results =~= from_items(items_view(items@)));
                    assert(from_value(value@) == array_result(all_ok(results)));
                }
                while i < items.len()
                    invariant
                        i <= items.len(),
                        *value == Value::Array(*items),
                        from_value(value@) == array_result(all_ok(results)),
                        results.len() == items.len(),
                        forall|j: int| 0 <= j < items.len() ==> results[j] == from_value(items[j]@),
                        documents.len() == i,
                        forall|j: int|
                            0 <= j < i ==> results[j] == Ok::<JsonView, IntoJsonError>(
                                documents[j]@,
                            ) && documents[j]@.writable(),
                    decreases items.len() - i,
                {
                    proof {
                        item_is_smaller(*value, i as int);
                    }
                    match self.from_value(&items[i]) {
                        Ok(document) => {
                            documents.push(document);
                        },
                        Err(e) => {
                            proof {
                                all_ok_fails(results, i as int);
                            }
                            return Err(e);
                        },
                    }
                    i += 1;
                }
                proof {
                    all_ok_succeeds(results);
                    json_array_view(documents);
                    assert(json_items(documents@) =~= Seq::new(
                        results.len(),
                        |i: int| results[i]->Ok_0,
                    ));
                }
                Ok(JsonValue::Array(documents))
            },
            Value::Object(members) => {
                let ghost results = Seq::new(
                    members.len() as nat,
                    |i: int| from_value(members[i].1@),
                );
                let mut documents: Vec<(String, JsonValue)> = Vec::new();
                let mut i: usize = 0;
                proof {
                    object_view(*members);
                    assert(results =~= from_members(members_view(members@)));
                    assert(from_value(value@) == object_result(
                        members_view(members@),
                        all_ok(results),
                    ));
                }
                while i < members.len()
                    invariant
                        i <= members.len(),
                        *value == Value::Object(*members),
                        from_value(value@) == object_result(
                            members_view(members@),
                            all_ok(results),
                        ),
                        results.len() == members.len(),
                        forall|j: int|
                            0 <= j < members.len() ==> results[j] == from_value(members[j].1@),
                        documents.len() == i,
                        forall|j: int|
                            0 <= j < i ==> results[j] == Ok::<JsonView, IntoJsonError>(
                                documents[j].1@,
                            ) && documents[j].0@ == members[j].0@ && documents[j].1@.writable(),
                    decreases members.len() - i,
                {
                    proof {
                        member_is_smaller(*value, i as int);
                    }
                    match self.from_value(&members[i].1) {
                        Ok(document) => {
                            documents.push((members[i].0.clone(), document));
                        },
                        Err(e) => {
                            proof {
                                all_ok_fails(results, i as int);
                            }
                            return Err(e);
                        },
                    }
                    i += 1;
                }
                proof {
                    all_ok_succeeds(results);
                    json_object_view(documents);
                    let oks = Seq::new(results.len(), |i: int| results[i]->Ok_0);
                    assert(json_members(documents@) =~= Seq::new(
                        members_view(members@).len(),
                        |i: int| (members_view(members@)[i].0, oks[i]),
                    ));
                }
                Ok(JsonValue::Object(documents))
            },
        }
    }
}

/// Recursion from an array to one of its items goes down.
pub proof fn json_item_is_smaller(document: JsonValue, i: int)
    requires
        document is Array,
        0 <= i < document->Array_0.len(),
    ensures
        decreases_to!(document => document->Array_0[i]),
{
    assert(decreases_to!(document => document->Array_0));
    assert(decreases_to!(document->Array_0 => document->Array_0@));
    assert(decreases_to!(document->Array_0@ => document->Array_0@[i]));
}

/// Recursion from an object to what one of its members holds goes down.
pub proof fn json_member_is_smaller(document: JsonValue, i: int)
    requires
        document is Object,
        0 <= i < document->Object_0.len(),
    ensures
        decreases_to!(document => document->Object_0[i].1),
{
    assert(decreases_to!(document => document->Object_0));
    assert(decreases_to!(document->Object_0 => document->Object_0@));
    assert(decreases_to!(document->Object_0@ => document->Object_0@[i]));
    assert(decreases_to!(document->Object_0@[i] => document->Object_0@[i].1));
}

impl From<JsonValue> for Value {
    /// The value that a JSON document stands for.
    fn from(document: JsonValue) -> (r: Value)
        ensures
            r@ == to_value(document@),
    {
        (Json {}).to_value(&document)
    }
}

impl vstd::std_specs::convert::FromSpecImpl<JsonValue> for Value {
    /// The trees are fixed, not which of the values of that tree comes back.
    open spec fn obeys_from_spec() -> bool {
        false
    }

    open spec fn from_spec(document: JsonValue) -> Value {
        choose|value: Value| value@ == to_value(document@)
    }
}

impl TryFrom<Value> for JsonValue {
    type Error = IntoJsonError;

    /// The JSON document for a value, or what in the value JSON cannot hold.
    fn try_from(value: Value) -> (r: Result<JsonValue, IntoJsonError>)
        ensures
            match r {
                Ok(document) => from_value(value@) == Ok::<JsonView, IntoJsonError>(document@),
                Err(e) => from_value(value@) == Err::<JsonView, IntoJsonError>(e),
            },
            r matches Ok(document) ==> document@.writable(),
    {
        (Json {}).from_value(&value)
    }
}

impl vstd::std_specs::convert::TryFromSpecImpl<Value> for JsonValue {
    /// The trees are fixed, not which of the documents of that tree comes
    /// back.
    open spec fn obeys_try_from_spec() -> bool {
        false
    }

    open spec fn try_from_spec(value: Value) -> Result<JsonValue, IntoJsonError> {
        match from_value(value@) {
            Ok(tree) => Ok(choose|document: JsonValue| document@ == tree),
            Err(e) => Err(e),
        }
    }
}

} // verus!
