//! Hjson files, read and written with `serde_hjson`.

use crate::error::Fault;
use crate::float::{infinite, is_infinite, is_nan, nan};
use crate::source::hjson_scan::{readable, refusal, refuse, refuse_string, string_fault};
use crate::entries::distinct;
use crate::sequence::{all_ok, all_ok_fails, all_ok_succeeds, first_failure_first};
use crate::value::{array_view, items_view, members_view, object_view, Value, ValueView};
use crate::value::{item_is_smaller, member_is_smaller};
use serde_hjson::Error as NativeError;
use serde_hjson::Value as Native;
use vstd::prelude::*;

verus! {

/// `serde_hjson::Value`, of which nothing is known here but what the functions
/// below say.
#[verifier::external_type_specification]
#[verifier::external_body]
pub struct ExNative(Native);

/// `serde_hjson::Error`, which is carried and put into words, not looked into.
#[verifier::external_type_specification]
#[verifier::external_body]
pub struct ExNativeError(NativeError);

/// An Hjson document as `serde_hjson` holds it.
#[derive(Debug, PartialEq)]
pub enum HjsonValue {
    Null,
    Bool(bool),
    I64(i64),
    U64(u64),
    F64(u64),
    String(String),
    Array(Vec<HjsonValue>),
    Object(Vec<(String, HjsonValue)>),
}

/// The mathematical tree that a [`HjsonValue`] stands for.
pub enum HjsonView {
    Null,
    Bool(bool),
    I64(i64),
    U64(u64),
    F64(u64),
    String(Seq<char>),
    Array(Seq<HjsonView>),
    Object(Seq<(Seq<char>, HjsonView)>),
}

/// The tree of a document.
pub open spec fn tree(document: HjsonValue) -> HjsonView
    decreases document,
{
    match document {
        HjsonValue::Null => HjsonView::Null,
        HjsonValue::Bool(b) => HjsonView::Bool(b),
        HjsonValue::I64(i) => HjsonView::I64(i),
        HjsonValue::U64(u) => HjsonView::U64(u),
        HjsonValue::F64(bits) => HjsonView::F64(bits),
        HjsonValue::String(s) => HjsonView::String(s@),
        HjsonValue::Array(items) => HjsonView::Array(
            Seq::new(
                items.len() as nat,
                |i: int| if 0 <= i < items.len() { tree(items[i]) } else { HjsonView::Null },
            ),
        ),
        HjsonValue::Object(members) => HjsonView::Object(
            Seq::new(
                members.len() as nat,
                |i: int|
                    if 0 <= i < members.len() {
                        (members[i].0@, tree(members[i].1))
                    } else {
                        (Seq::empty(), HjsonView::Null)
                    },
            ),
        ),
    }
}

impl View for HjsonValue {
    type V = HjsonView;

    open spec fn view(&self) -> HjsonView {
        tree(*self)
    }
}

/// The trees of a sequence of documents.
pub open spec fn hjson_items(items: Seq<HjsonValue>) -> Seq<HjsonView> {
    Seq::new(items.len(), |i: int| items[i]@)
}

/// The names and trees of a sequence of members.
pub open spec fn hjson_members(members: Seq<(String, HjsonValue)>) -> Seq<(Seq<char>, HjsonView)> {
    Seq::new(members.len(), |i: int| (members[i].0@, members[i].1@))
}

/// The tree of an array is made of the trees of its items.
pub proof fn hjson_array_view(items: Vec<HjsonValue>)
    ensures
        HjsonValue::Array(items)@ == HjsonView::Array(hjson_items(items@)),
{
    assert(HjsonValue::Array(items)@->Array_0 =~= hjson_items(items@));
}

/// The tree of an object is made of its members' names and trees.
pub proof fn hjson_object_view(members: Vec<(String, HjsonValue)>)
    ensures
        HjsonValue::Object(members)@ == HjsonView::Object(hjson_members(members@)),
{
    assert(HjsonValue::Object(members)@->Object_0 =~= hjson_members(members@));
}

impl HjsonView {
    /// No object anywhere in the document has two members of one name.
    pub open spec fn well_formed(self) -> bool
        decreases self,
    {
        match self {
            HjsonView::Array(items) => forall|i: int|
                0 <= i < items.len() ==> (#[trigger] items[i]).well_formed(),
            HjsonView::Object(members) => {
                &&& distinct(members)
                &&& forall|i: int|
                    0 <= i < members.len() ==> (#[trigger] members[i]).1.well_formed()
            },
            _ => true,
        }
    }

    /// Every string in the document can be handed to `serde_hjson` to be
    /// written.
    pub open spec fn writable(self) -> bool
        decreases self,
    {
        match self {
            HjsonView::String(s) => crate::source::hjson_scan::writable(s),
            HjsonView::Array(items) => forall|i: int|
                0 <= i < items.len() ==> (#[trigger] items[i]).writable(),
            HjsonView::Object(members) => forall|i: int|
                0 <= i < members.len() ==> (#[trigger] members[i]).1.writable(),
            _ => true,
        }
    }
}

/// What a value cannot be for Hjson to hold it.
#[derive(Debug, Clone, Copy, PartialEq, Eq, Structural)]
pub enum IntoHjsonError {
    /// Hjson has no "not a number".
    Nan,
    /// Hjson has no infinity.
    Infinite,
    /// A string reads as a whole number that is too great for `serde_hjson`,
    /// which tries every string as a number before it writes it.
    NumberTooGreat,
    /// A string reads as a number with a comment behind it that is opened
    /// and not closed.
    CommentNotClosed,
}

/// Why a text was not read as Hjson.
#[derive(Debug)]
pub enum FromHjsonError {
    /// The reader of `serde_hjson` would stop the program on the text, at
    /// the place that the fault names.
    Refused(Fault),
    /// The text is not Hjson; `serde_hjson` says why.
    Syntax(NativeError),
}

/// The string of a value as an Hjson document, or why `serde_hjson` cannot
/// be given it.
pub open spec fn from_string(s: Seq<char>) -> Result<HjsonView, IntoHjsonError> {
    match string_fault(s) {
        Some(e) => Err(e),
        None => Ok(HjsonView::String(s)),
    }
}

/// The value that an Hjson document stands for.
pub open spec fn to_value(document: HjsonView) -> ValueView
    decreases document,
{
    match document {
        HjsonView::Null => ValueView::Null,
        HjsonView::Bool(b) => ValueView::Bool(b),
        HjsonView::I64(i) => ValueView::Int(i),
        HjsonView::U64(u) => ValueView::Uint(u),
        HjsonView::F64(bits) => ValueView::Float(bits),
        HjsonView::String(s) => ValueView::String(s),
        HjsonView::Array(items) => ValueView::Array(
            Seq::new(
                items.len(),
                |i: int| if 0 <= i < items.len() { to_value(items[i]) } else { ValueView::Null },
            ),
        ),
        HjsonView::Object(members) => ValueView::Object(
            Seq::new(
                members.len(),
                |i: int|
                    if 0 <= i < members.len() {
                        (members[i].0, to_value(members[i].1))
                    } else {
                        (Seq::empty(), ValueView::Null)
                    },
            ),
        ),
    }
}

/// The array of the documents made of a value's items, if all were made.
pub open spec fn array_result(made: Result<Seq<HjsonView>, IntoHjsonError>) -> Result<
    HjsonView,
    IntoHjsonError,
> {
    match made {
        Ok(documents) => Ok(HjsonView::Array(documents)),
        Err(e) => Err(e),
    }
}

/// The object that gives each member's name the document made of what the
/// member holds, if all were made.
pub open spec fn object_result(
    members: Seq<(Seq<char>, ValueView)>,
    made: Result<Seq<HjsonView>, IntoHjsonError>,
) -> Result<HjsonView, IntoHjsonError> {
    match made {
        Ok(documents) => Ok(
            HjsonView::Object(Seq::new(members.len(), |i: int| (members[i].0, documents[i]))),
        ),
        Err(e) => Err(e),
    }
}

/// The Hjson document for a value, or the first thing in it, in reading order,
/// that Hjson cannot hold.
pub open spec fn from_value(value: ValueView) -> Result<HjsonView, IntoHjsonError>
    decreases value,
{
    match value {
        ValueView::Null => Ok(HjsonView::Null),
        ValueView::Bool(b) => Ok(HjsonView::Bool(b)),
        ValueView::Int(i) => Ok(HjsonView::I64(i)),
        ValueView::Uint(u) => Ok(HjsonView::U64(u)),
        ValueView::Float(bits) => if nan(bits) {
            Err(IntoHjsonError::Nan)
        } else if infinite(bits) {
            Err(IntoHjsonError::Infinite)
        } else {
            Ok(HjsonView::F64(bits))
        },
        ValueView::String(s) => from_string(s),
        ValueView::Array(items) => array_result(all_ok(from_items(items))),
        ValueView::Object(members) => object_result(members, all_ok(from_members(members))),
    }
}

/// What [`from_value`] gives for each item of an array.
pub open spec fn from_items(items: Seq<ValueView>) -> Seq<Result<HjsonView, IntoHjsonError>>
    decreases items,
{
    Seq::new(
        items.len(),
        |i: int| if 0 <= i < items.len() { from_value(items[i]) } else { Ok(HjsonView::Null) },
    )
}

/// What [`from_value`] gives for what each member of an object holds.
pub open spec fn from_members(members: Seq<(Seq<char>, ValueView)>) -> Seq<
    Result<HjsonView, IntoHjsonError>,
>
    decreases members,
{
    Seq::new(
        members.len(),
        |i: int| if 0 <= i < members.len() { from_value(members[i].1) } else { Ok(HjsonView::Null) },
    )
}

/// Writing a value as an Hjson document and reading the document gives the
/// value back, signed and unsigned integers each as what they were, for
/// every value that Hjson can hold: `Value::from` gives what
/// `HjsonValue::try_from` was given, as the two are what [`to_value`] and
/// [`from_value`] say.
pub proof fn round_trip(value: ValueView)
    requires
        from_value(value) is Ok,
    ensures
        to_value(from_value(value)->Ok_0) == value,
    decreases value,
{
    match value {
        ValueView::Array(items) => {
            let results = from_items(items);
            first_failure_first(results, 0);
            let documents = from_value(value)->Ok_0->Array_0;
            assert forall|i: int| 0 <= i < items.len() implies to_value(documents[i])
                == items[i] by {
                assert(results[i] is Ok);
                round_trip(items[i]);
            }
            assert(to_value(from_value(value)->Ok_0)->Array_0 =~= items);
        },
        ValueView::Object(members) => {
            let results = from_members(members);
            first_failure_first(results, 0);
            let documents = from_value(value)->Ok_0->Object_0;
            assert forall|i: int| 0 <= i < members.len() implies to_value(documents[i].1)
                == members[i].1 by {
                assert(results[i] is Ok);
                round_trip(members[i].1);
            }
            assert(to_value(from_value(value)->Ok_0)->Object_0 =~= members);
        },
        _ => {},
    }
}

/// The value of a document without repeated names has none either.
pub proof fn to_value_well_formed(document: HjsonView)
    requires
        document.well_formed(),
    ensures
        to_value(document).well_formed(),
    decreases document,
{
    match document {
        HjsonView::Array(items) => {
            assert forall|i: int| 0 <= i < items.len() implies (#[trigger] to_value(
                document,
            )->Array_0[i]).well_formed() by {
                to_value_well_formed(items[i]);
            }
        },
        HjsonView::Object(members) => {
            assert forall|i: int| 0 <= i < members.len() implies (#[trigger] to_value(
                document,
            )->Object_0[i]).1.well_formed() by {
                to_value_well_formed(members[i].1);
            }
        },
        _ => {},
    }
}

/// What `serde_hjson` makes of a text: the document, or nothing where the
/// text is not Hjson.
pub uninterp spec fn hjson_parsed(text: Seq<char>) -> Option<HjsonView>;

/// The text that `serde_hjson` writes for a document, or nothing where it
/// fails.
pub uninterp spec fn hjson_printed(document: HjsonView) -> Option<Seq<char>>;

/// Mirrors a `serde_hjson::Value`, variant by variant.
#[verifier::external_body]
fn from_native(native: &Native) -> HjsonValue {
    match native {
        Native::Null => HjsonValue::Null,
        Native::Bool(b) => HjsonValue::Bool(*b),
        Native::I64(i) => HjsonValue::I64(*i),
        Native::U64(u) => HjsonValue::U64(*u),
        Native::F64(f) => HjsonValue::F64(f.to_bits()),
        Native::String(s) => HjsonValue::String(s.clone()),
        Native::Array(items) => HjsonValue::Array(items.iter().map(from_native).collect()),
        Native::Object(map) => HjsonValue::Object(
            map.iter().map(|(k, v)| (k.clone(), from_native(v))).collect(),
        ),
    }
}

/// Builds the `serde_hjson::Value` that a document mirrors.
#[verifier::external_body]
fn to_native(document: &HjsonValue) -> Native
{
    match document {
        HjsonValue::Null => Native::Null,
        HjsonValue::Bool(b) => Native::Bool(*b),
        HjsonValue::I64(i) => Native::I64(*i),
        HjsonValue::U64(u) => Native::U64(*u),
        HjsonValue::F64(bits) => Native::F64(
            num_traits::FromBytes::from_le_bytes(&bits.to_le_bytes()),
        ),
        HjsonValue::String(s) => Native::String(s.clone()),
        HjsonValue::Array(items) => Native::Array(items.iter().map(to_native).collect()),
        HjsonValue::Object(members) => Native::Object(
            members.iter().map(|(k, v)| (k.clone(), to_native(v))).collect(),
        ),
    }
}

/// Calls `serde_hjson::from_str` for a `serde_hjson::Value` and mirrors what
/// comes back. The result is the named one: the crate's parser decides on
/// the text alone. An object of `serde_hjson` is a map, so no name occurs
/// twice in it. That crate stops the program where it reads a value
/// without quotes that is a whole number beyond 64 bits, where it skips a
/// comment that is never closed and, in a build that checks its arithmetic,
/// where a value begins a line with three quotes: a text on which its
/// reader comes to such a place is kept out.
#[verifier::external_body]
fn parse(text: &str) -> (r: Result<HjsonValue, NativeError>)
    requires
        readable(text@),
    ensures
        r is Ok == hjson_parsed(text@) is Some,
        r matches Ok(document) ==> Some(document@) == hjson_parsed(text@)
            && document@.well_formed(),
{
    match serde_hjson::from_str::<Native>(text) {
        Ok(native) => Ok(from_native(&native)),
        Err(e) => Err(e),
    }
}

/// Calls `serde_hjson::to_string` on the `serde_hjson::Value` that the
/// document mirrors. The result is the named one. That crate tries to read
/// each string as a number before it writes it, and stops the program as it
/// does when it reads: a document with such a string is kept out.
#[verifier::external_body]
fn print(document: &HjsonValue) -> (r: Result<String, NativeError>)
    requires
        document@.writable(),
    ensures
        r is Ok == hjson_printed(document@) is Some,
        r matches Ok(text) ==> Some(text@) == hjson_printed(document@),
{
    serde_hjson::to_string(&to_native(document))
}

/// The Hjson format.
#[derive(Clone, Debug)]
pub struct Hjson {}

impl crate::source::FileSource for Hjson {
    type Value = HjsonValue;

    type SerError = NativeError;

    type DeError = FromHjsonError;

    open spec fn writable(&self, value: &HjsonValue) -> bool {
        value@.writable()
    }

    /// The extension of the format's files.
    fn extension(&self) -> (r: String)
        ensures
            r@ == "hjson"@,
    {
        "hjson".to_owned()
    }

    /// Reads an Hjson text. A fault other than that of syntax is reported
    /// only for a text on which the reader of `serde_hjson` would stop the
    /// program, which [`refusal`] finds by going over the text as that
    /// reader does; every other text is handed to that crate, and what it
    /// makes of the text is the result.
    fn deserialize(&self, string: &str) -> (r: Result<HjsonValue, FromHjsonError>)
        ensures
            match r {
                Ok(document) => refusal(string@) is None && Some(document@) == hjson_parsed(
                    string@,
                ) && document@.well_formed(),
                Err(FromHjsonError::Refused(fault)) => refusal(string@) == Some(fault),
                Err(FromHjsonError::Syntax(_)) => refusal(string@) is None && hjson_parsed(
                    string@,
                ) is None,
            },
    {
        match refuse(string) {
            Some(fault) => Err(FromHjsonError::Refused(fault)),
            None => match parse(string) {
                Ok(document) => Ok(document),
                Err(e) => Err(FromHjsonError::Syntax(e)),
            },
        }
    }

    /// Writes a document as Hjson text that ends with a line feed.
    fn serialize(&self, value: &HjsonValue) -> (r: Result<String, NativeError>)
        ensures
            r is Ok == hjson_printed(value@) is Some,
            r matches Ok(text) ==> text@ == hjson_printed(value@)->0.push('\n'),
    {
        match print(value) {
            Ok(mut text) => {
                proof {
                    reveal_strlit("\n");
                }
                let ghost before = text@;
                text.append("\n");
                assert(text@ =~= before.push('\n'));
                Ok(text)
            },
            Err(e) => Err(e),
        }
    }
}

impl Hjson {
    /// The value that a document stands for.
    pub fn to_value(&self, document: &HjsonValue) -> (r: Value)
        ensures
            r@ == to_value(document@),
        decreases document,
    {
        match document {
            HjsonValue::Null => Value::Null,
            HjsonValue::Bool(b) => Value::Bool(*b),
            HjsonValue::I64(i) => Value::Int(*i),
            HjsonValue::U64(u) => Value::Uint(*u),
            HjsonValue::F64(bits) => Value::Float(*bits),
            HjsonValue::String(s) => Value::String(s.clone()),
            HjsonValue::Array(items) => {
                let mut values: Vec<Value> = Vec::new();
                let mut i: usize = 0;
                while i < items.len()
                    invariant
                        i <= items.len(),
                        *document == HjsonValue::Array(*items),
                        values.len() == i,
                        forall|j: int| 0 <= j < i ==> values[j]@ == to_value(items[j]@),
                    decreases items.len() - i,
                {
                    proof {
                        hjson_item_is_smaller(*document, i as int);
                    }
                    values.push(self.to_value(&items[i]));
                    i += 1;
                }
                proof {
                    array_view(values);
                    hjson_array_view(*items);
                    assert(items_view(values@) =~= to_value(document@)->Array_0);
                }
                Value::Array(values)
            },
            HjsonValue::Object(members) => {
                let mut values: Vec<(String, Value)> = Vec::new();
                let mut i: usize = 0;
                while i < members.len()
                    invariant
                        i <= members.len(),
                        *document == HjsonValue::Object(*members),
                        values.len() == i,
                        forall|j: int|
                            0 <= j < i ==> values[j].0@ == members[j].0@ && values[j].1@
                                == to_value(members[j].1@),
                    decreases members.len() - i,
                {
                    proof {
                        hjson_member_is_smaller(*document, i as int);
                    }
                    values.push((members[i].0.clone(), self.to_value(&members[i].1)));
                    i += 1;
                }
                proof {
                    object_view(values);
                    hjson_object_view(*members);
                    assert(members_view(values@) =~= to_value(document@)->Object_0);
                }
                Value::Object(values)
            },
        }
    }

    /// The document for a value, or what in the value Hjson cannot hold.
    pub fn from_value(&self, value: &Value) -> (r: Result<HjsonValue, IntoHjsonError>)
        ensures
            match r {
                Ok(document) => from_value(value@) == Ok::<HjsonView, IntoHjsonError>(document@),
                Err(e) => from_value(value@) == Err::<HjsonView, IntoHjsonError>(e),
            },
            r matches Ok(document) ==> document@.writable(),
        decreases value,
    {
        match value {
            Value::Null => Ok(HjsonValue::Null),
            Value::Bool(b) => Ok(HjsonValue::Bool(*b)),
            Value::Int(i) => Ok(HjsonValue::I64(*i)),
            Value::Uint(u) => Ok(HjsonValue::U64(*u)),
            Value::Float(bits) => {
                if is_nan(*bits) {
                    Err(IntoHjsonError::Nan)
                } else if is_infinite(*bits) {
                    Err(IntoHjsonError::Infinite)
                } else {
                    Ok(HjsonValue::F64(*bits))
                }
            },
            Value::String(s) => {
                match refuse_string(s.as_str()) {
                    Some(e) => Err(e),
                    None => Ok(HjsonValue::String(s.clone())),
                }
            },
            Value::Array(items) => {
                let ghost results = Seq::new(
                    items.len() as nat,
                    |i: int| from_value(items[i]@),
                );
                let mut documents: Vec<HjsonValue> = Vec::new();
                let mut i: usize = 0;
                proof {
                    array_view(*items);
                    assert(results =~= from_items(items_view(items@)));
                    assert(from_value(value@) == array_result(all_ok(results)));
                }
                while i < items.len()
                    invariant
                        i <= items.len(),
                        *value == Value::Array(*items),
                        from_value(value@) == array_result(all_ok(results)),
                        results.len() == items.len(),
                        forall|j: int| 0 <= j < items.len() ==> results[j] == from_value(items[j]@),
                        documents.len() == i,
                        forall|j: int|
                            0 <= j < i ==> results[j] == Ok::<HjsonView, IntoHjsonError>(
                                documents[j]@,
                            ) && documents[j]@.writable(),
                    decreases items.len() - i,
                {
                    proof {
                        item_is_smaller(*value, i as int);
                    }
                    match self.from_value(&items[i]) {
                        Ok(document) => {
                            documents.push(document);
                        },
                        Err(e) => {
                            proof {
                                all_ok_fails(results, i as int);
                            }
                            return Err(e);
                        },
                    }
                    i += 1;
                }
                proof {
                    all_ok_succeeds(results);
                    hjson_array_view(documents);
                    assert(hjson_items(documents@) =~= Seq::new(
                        results.len(),
                        |i: int| results[i]->Ok_0,
                    ));
                }
                Ok(HjsonValue::Array(documents))
            },
            Value::Object(members) => {
                let ghost results = Seq::new(
                    members.len() as nat,
                    |i: int| from_value(members[i].1@),
                );
                let mut documents: Vec<(String, HjsonValue)> = Vec::new();
                let mut i: usize = 0;
                proof {
                    object_view(*members);
                    assert(results =~= from_members(members_view(members@)));
                    assert(from_value(value@) == object_result(
                        members_view(members@),
                        all_ok(results),
                    ));
                }
                while i < members.len()
                    invariant
                        i <= members.len(),
                        *value == Value::Object(*members),
                        from_value(value@) == object_result(
                            members_view(members@),
                            all_ok(results),
                        ),
                        results.len() == members.len(),
                        forall|j: int|
                            0 <= j < members.len() ==> results[j] == from_value(members[j].1@),
                        documents.len() == i,
                        forall|j: int|
                            0 <= j < i ==> results[j] == Ok::<HjsonView, IntoHjsonError>(
                                documents[j].1@,
                            ) && documents[j].0@ == members[j].0@ && documents[j].1@.writable(),
                    decreases members.len() - i,
                {
                    proof {
                        member_is_smaller(*value, i as int);
                    }
                    match self.from_value(&members[i].1) {
                        Ok(document) => {
                            documents.push((members[i].0.clone(), document));
                        },
                        Err(e) => {
                            proof {
                                all_ok_fails(results, i as int);
                            }
                            return Err(e);
                        },
                    }
                    i += 1;
                }
                proof {
                    all_ok_succeeds(results);
                    hjson_object_view(documents);
                    let oks = Seq::new(results.len(), |i: int| results[i]->Ok_0);
                    assert(hjson_members(documents@) =~= Seq::new(
                        members_view(members@).len(),
                        |i: int| (members_view(members@)[i].0, oks[i]),
                    ));
                }
                Ok(HjsonValue::Object(documents))
            },
        }
    }
}

/// Recursion from an array to one of its items goes down.
pub proof fn hjson_item_is_smaller(document: HjsonValue, i: int)
    requires
        document is Array,
        0 <= i < document->Array_0.len(),
    ensures
        decreases_to!(document => document->Array_0[i]),
{
    assert(decreases_to!(document => document->Array_0));
    assert(decreases_to!(document->Array_0 => document->Array_0@));
    assert(decreases_to!(document->Array_0@ => document->Array_0@[i]));
}

/// Recursion from an object to what one of its members holds goes down.
pub proof fn hjson_member_is_smaller(document: HjsonValue, i: int)
    requires
        document is Object,
        0 <= i < document->Object_0.len(),
    ensures
        decreases_to!(document => document->Object_0[i].1),
{
    assert(decreases_to!(document => document->Object_0));
    assert(decreases_to!(document->Object_0 => document->Object_0@));
    assert(decreases_to!(document->Object_0@ => document->Object_0@[i]));
    assert(decreases_to!(document->Object_0@[i] => document->Object_0@[i].1));
}

impl From<HjsonValue> for Value {
    /// The value that an Hjson document stands for.
    fn from(document: HjsonValue) -> (r: Value)
        ensures
            r@ == to_value(document@),
    {
        (Hjson {}).to_value(&document)
    }
}

impl vstd::std_specs::convert::FromSpecImpl<HjsonValue> for Value {
    /// The trees are fixed, not which of the values of that tree comes back.
    open spec fn obeys_from_spec() -> bool {
        false
    }

    open spec fn from_spec(document: HjsonValue) -> Value {
        choose|value: Value| value@ == to_value(document@)
    }
}

impl TryFrom<Value> for HjsonValue {
    type Error = IntoHjsonError;

    /// The document for a value, or what in the value the format cannot
    /// hold.
    fn try_from(value: Value) -> (r: Result<HjsonValue, IntoHjsonError>)
        ensures
            match r {
                Ok(document) => from_value(value@) == Ok::<HjsonView, IntoHjsonError>(document@),
                Err(e) => from_value(value@) == Err::<HjsonView, IntoHjsonError>(e),
            },
            r matches Ok(document) ==> document@.writable(),
    {
        (Hjson {}).from_value(&value)
    }
}

impl vstd::std_specs::convert::TryFromSpecImpl<Value> for HjsonValue {
    /// The trees are fixed, not which of the documents of that tree comes
    /// back.
    open spec fn obeys_try_from_spec() -> bool {
        false
    }

    open spec fn try_from_spec(value: Value) -> Result<HjsonValue, IntoHjsonError> {
        match from_value(value@) {
            Ok(tree) => Ok(choose|document: HjsonValue| document@ == tree),
            Err(e) => Err(e),
        }
    }
}

} // verus!
