//! JSON documents as plain values. Control messages are laid out as
//! documents here; turning a document into text and back is left to a JSON
//! library.

use vstd::prelude::*;
use vstd::string::StringExecFns;

verus! {

/// A JSON document.
#[derive(Debug, PartialEq, Eq)]
pub enum JsonValue {
    /// `null`.
    Null,
    /// `true` or `false`.
    Bool(bool),
    /// A number that is a natural number below 2^64.
    Natural(u64),
    /// Any other number, as the text that stands for it.
    NonNatural(String),
    /// A string.
    Text(String),
    /// An array.
    List(Vec<JsonValue>),
    /// An object: its fields in the order in which they stand.
    Object(Vec<(String, JsonValue)>),
}

/// A [`JsonValue`] as mathematics.
pub enum JsonView {
    Null,
    Bool(bool),
    Natural(u64),
    NonNatural(Seq<char>),
    Text(Seq<char>),
    List(Seq<JsonView>),
    Object(Seq<(Seq<char>, JsonView)>),
}

/// The model of a document.
pub open spec fn json_view(value: JsonValue) -> JsonView
    decreases value, 0nat,
{
    match value {
        JsonValue::Null => JsonView::Null,
        JsonValue::Bool(b) => JsonView::Bool(b),
        JsonValue::Natural(n) => JsonView::Natural(n),
        JsonValue::NonNatural(text) => JsonView::NonNatural(text@),
        JsonValue::Text(text) => JsonView::Text(text@),
        JsonValue::List(items) => JsonView::List(list_view(items@)),
        JsonValue::Object(fields) => JsonView::Object(fields_view(fields@)),
    }
}

/// The models of the items of an array, in their order.
pub open spec fn list_view(items: Seq<JsonValue>) -> Seq<JsonView>
    decreases items, 1nat,
{
    if items.len() == 0 {
        Seq::empty()
    } else {
        list_view(items.drop_last()).push(json_view(items.last()))
    }
}

/// The names of the fields of an object and the models of their values, in
/// their order.
pub open spec fn fields_view(fields: Seq<(String, JsonValue)>) -> Seq<(Seq<char>, JsonView)>
    decreases fields, 1nat,
{
    if fields.len() == 0 {
        Seq::empty()
    } else {
        fields_view(fields.drop_last()).push((fields.last().0@, json_view(fields.last().1)))
    }
}

impl View for JsonValue {
    type V = JsonView;

    open spec fn view(&self) -> JsonView {
        json_view(*self)
    }
}

/// The model of an array has the model of each item at the item's place.
pub proof fn lemma_list_view(items: Seq<JsonValue>)
    ensures
        list_view(items).len() == items.len(),
        forall|i: int| 0 <= i < items.len() ==> #[trigger] list_view(items)[i] == json_view(items[i]),
    decreases items.len(),
{
    if items.len() > 0 {
        lemma_list_view(items.drop_last());
    }
}

/// The model of an object has the name and the model of each field at the
/// field's place.
pub proof fn lemma_fields_view(fields: Seq<(String, JsonValue)>)
    ensures
        fields_view(fields).len() == fields.len(),
        forall|i: int|
            0 <= i < fields.len() ==> #[trigger] fields_view(fields)[i] == (
                fields[i].0@,
                json_view(fields[i].1),
            ),
    decreases fields.len(),
{
    if fields.len() > 0 {
        lemma_fields_view(fields.drop_last());
    }
}

/// The value of the first field named `name`, if there is such a field.
pub open spec fn spec_field(fields: Seq<(Seq<char>, JsonView)>, name: Seq<char>) -> Option<
    JsonView,
>
    decreases fields.len(),
{
    if fields.len() == 0 {
        None
    } else if fields[0].0 == name {
        Some(fields[0].1)
    } else {
        spec_field(fields.drop_first(), name)
    }
}

/// A field with no field of its name before it is the one found for the
/// name.
pub proof fn lemma_field_found(fields: Seq<(Seq<char>, JsonView)>, name: Seq<char>, at: int)
    requires
        0 <= at < fields.len(),
        fields[at].0 == name,
        forall|j: int| 0 <= j < at ==> fields[j].0 != name,
    ensures
        spec_field(fields, name) == Some(fields[at].1),
    decreases fields.len(),
{
    if at > 0 {
        let rest = fields.drop_first();
        assert forall|j: int| 0 <= j < at - 1 implies rest[j].0 != name by {
            assert(rest[j] == fields[j + 1]);
        }
        lemma_field_found(rest, name, at - 1);
    }
}

/// Where no field has the name, none is found for it.
pub proof fn lemma_field_absent(fields: Seq<(Seq<char>, JsonView)>, name: Seq<char>)
    requires
        forall|j: int| 0 <= j < fields.len() ==> fields[j].0 != name,
    ensures
        spec_field(fields, name) is None,
    decreases fields.len(),
{
    if fields.len() > 0 {
        let rest = fields.drop_first();
        assert forall|j: int| 0 <= j < rest.len() implies rest[j].0 != name by {
            assert(rest[j] == fields[j + 1]);
        }
        lemma_field_absent(rest, name);
    }
}

/// The number of fields named `name`.
pub open spec fn spec_occurrences(fields: Seq<(Seq<char>, JsonView)>, name: Seq<char>) -> nat
    decreases fields.len(),
{
    if fields.len() == 0 {
        0
    } else if fields[0].0 == name {
        1 + spec_occurrences(fields.drop_first(), name)
    } else {
        spec_occurrences(fields.drop_first(), name)
    }
}

/// A name is found exactly when it occurs, and occurs no more often than
/// there are fields.
pub proof fn lemma_occurrences(fields: Seq<(Seq<char>, JsonView)>, name: Seq<char>)
    ensures
        spec_occurrences(fields, name) <= fields.len(),
        spec_occurrences(fields, name) == 0 <==> spec_field(fields, name) is None,
    decreases fields.len(),
{
    if fields.len() > 0 {
        lemma_occurrences(fields.drop_first(), name);
    }
}

/// A name that no field has occurs no times.
pub proof fn lemma_no_occurrence(fields: Seq<(Seq<char>, JsonView)>, name: Seq<char>)
    requires
        forall|j: int| 0 <= j < fields.len() ==> fields[j].0 != name,
    ensures
        spec_occurrences(fields, name) == 0,
{
    lemma_field_absent(fields, name);
    lemma_occurrences(fields, name);
}

/// The one field of a name is found for the name, and the name occurs once.
pub proof fn lemma_only_field(fields: Seq<(Seq<char>, JsonView)>, name: Seq<char>, at: int)
    requires
        0 <= at < fields.len(),
        fields[at].0 == name,
        forall|j: int| 0 <= j < fields.len() && j != at ==> fields[j].0 != name,
    ensures
        spec_field(fields, name) == Some(fields[at].1),
        spec_occurrences(fields, name) == 1,
    decreases fields.len(),
{
    let rest = fields.drop_first();
    if at == 0 {
        assert forall|j: int| 0 <= j < rest.len() implies rest[j].0 != name by {
            assert(rest[j] == fields[j + 1]);
        }
        lemma_no_occurrence(rest, name);
    } else {
        assert(rest[at - 1] == fields[at]);
        assert forall|j: int| 0 <= j < rest.len() && j != at - 1 implies rest[j].0 != name by {
            assert(rest[j] == fields[j + 1]);
        }
        lemma_only_field(rest, name, at - 1);
    }
}

impl JsonView {
    /// The value of the first field named `name`, if this is an object that
    /// has such a field.
    pub open spec fn field(self, name: Seq<char>) -> Option<JsonView> {
        match self {
            JsonView::Object(fields) => spec_field(fields, name),
            _ => None,
        }
    }

    /// The number of fields named `name`. Anything but an object has no
    /// fields.
    pub open spec fn occurrences(self, name: Seq<char>) -> nat {
        match self {
            JsonView::Object(fields) => spec_occurrences(fields, name),
            _ => 0,
        }
    }

    /// Whether this is a number that a byte can hold.
    pub open spec fn is_byte(self) -> bool {
        self is Natural && self->Natural_0 <= 255
    }

    /// The bytes that this stands for, if it is an array of numbers that
    /// bytes can hold.
    pub open spec fn bytes(self) -> Option<Seq<u8>> {
        match self {
            JsonView::List(items) => {
                if forall|i: int| 0 <= i < items.len() ==> (#[trigger] items[i]).is_byte() {
                    Some(Seq::new(items.len(), |i: int| items[i]->Natural_0 as u8))
                } else {
                    None
                }
            },
            _ => None,
        }
    }

    /// The array of numbers that stands for `bytes`.
    pub open spec fn of_bytes(bytes: Seq<u8>) -> JsonView {
        JsonView::List(Seq::new(bytes.len(), |i: int| JsonView::Natural(bytes[i] as u64)))
    }
}

/// The array that stands for bytes stands for those bytes and no others.
pub proof fn lemma_bytes_round_trip(bytes: Seq<u8>)
    ensures
        JsonView::of_bytes(bytes).bytes() == Some(bytes),
{
    let items = JsonView::of_bytes(bytes)->List_0;
    assert forall|i: int| 0 <= i < items.len() implies (#[trigger] items[i]).is_byte() by {}
    assert(JsonView::of_bytes(bytes).bytes()->Some_0 =~= bytes);
}

impl JsonValue {
    /// The value of the first field named `name`. Anything but an object has
    /// no fields.
    pub fn field(&self, name: &str) -> (found: Option<&JsonValue>)
        ensures
            found matches Some(value) ==> self@.field(name@) == Some(value@),
            found is None ==> self@.field(name@) is None,
    {
        match self {
            JsonValue::Object(fields) => {
                let wanted = String::from_str(name);
                let mut i: usize = 0;
                proof {
                    lemma_fields_view(fields@);
                }
                while i < fields.len()
                    invariant
                        i <= fields@.len(),
                        wanted@ == name@,
                        self@ == JsonView::Object(fields_view(fields@)),
                        fields_view(fields@).len() == fields@.len(),
                        forall|j: int|
                            0 <= j < fields@.len() ==> #[trigger] fields_view(fields@)[j] == (
                                fields@[j].0@,
                                json_view(fields@[j].1),
                            ),
                        forall|j: int| 0 <= j < i ==> fields_view(fields@)[j].0 != name@,
                    decreases fields@.len() - i,
                {
                    if fields[i].0 == wanted {
                        proof {
                            assert(fields_view(fields@)[i as int] == (
                                fields@[i as int].0@,
                                json_view(fields@[i as int].1),
                            ));
                            lemma_field_found(fields_view(fields@), name@, i as int);
                        }
                        return Some(&fields[i].1);
                    }
                    i = i + 1;
                }
                proof {
                    lemma_field_absent(fields_view(fields@), name@);
                }
                None
            },
            _ => None,
        }
    }

    /// The number of fields named `name`. Anything but an object has no
    /// fields.
    pub fn occurrences(&self, name: &str) -> (count: usize)
        ensures
            count == self@.occurrences(name@),
    {
        match self {
            JsonValue::Object(fields) => {
                let wanted = String::from_str(name);
                let mut count: usize = 0;
                let mut i: usize = 0;
                proof {
                    lemma_fields_view(fields@);
                    assert(fields_view(fields@).skip(0) =~= fields_view(fields@));
                }
                while i < fields.len()
                    invariant
                        i <= fields@.len(),
                        count <= i,
                        wanted@ == name@,
                        fields_view(fields@).len() == fields@.len(),
                        forall|j: int|
                            0 <= j < fields@.len() ==> #[trigger] fields_view(fields@)[j] == (
                                fields@[j].0@,
                                json_view(fields@[j].1),
                            ),
                        spec_occurrences(fields_view(fields@), name@) == count + spec_occurrences(
                            fields_view(fields@).skip(i as int),
                            name@,
                        ),
                    decreases fields@.len() - i,
                {
                    proof {
                        let rest = fields_view(fields@).skip(i as int);
                        assert(rest[0] == fields_view(fields@)[i as int]);
                        assert(rest.drop_first() =~= fields_view(fields@).skip(i + 1));
                    }
                    if fields[i].0 == wanted {
                        count = count + 1;
                    }
                    i = i + 1;
                }
                count
            },
            _ => 0,
        }
    }

    /// Whether this is an object.
    pub fn is_object(&self) -> (b: bool)
        ensures
            b == (self@ is Object),
    {
        match self {
            JsonValue::Object(_) => true,
            _ => false,
        }
    }

    /// The text of a string.
    pub fn as_text(&self) -> (text: Option<&String>)
        ensures
            text matches Some(t) ==> self@ == JsonView::Text(t@),
            text is None ==> !(self@ is Text),
    {
        match self {
            JsonValue::Text(text) => Some(text),
            _ => None,
        }
    }

    /// The truth value of a boolean.
    pub fn as_bool(&self) -> (value: Option<bool>)
        ensures
            value matches Some(b) ==> self@ == JsonView::Bool(b),
            value is None ==> !(self@ is Bool),
    {
        match self {
            JsonValue::Bool(b) => Some(*b),
            _ => None,
        }
    }

    /// The bytes of an array of numbers that bytes can hold.
    pub fn as_bytes(&self) -> (bytes: Option<Vec<u8>>)
        ensures
            bytes matches Some(b) ==> self@.bytes() == Some(b@),
            bytes is None ==> self@.bytes() is None,
    {
        match self {
            JsonValue::List(items) => {
                let mut bytes: Vec<u8> = Vec::new();
                let mut i: usize = 0;
                proof {
                    lemma_list_view(items@);
                }
                while i < items.len()
                    invariant
                        i <= items@.len(),
                        bytes@.len() == i,
                        self@ == JsonView::List(list_view(items@)),
                        list_view(items@).len() == items@.len(),
                        forall|j: int|
                            0 <= j < items@.len() ==> #[trigger] list_view(items@)[j] == json_view(
                                items@[j],
                            ),
                        forall|j: int| 0 <= j < i ==> (#[trigger] list_view(items@)[j]).is_byte(),
                        forall|j: int|
                            0 <= j < i ==> bytes@[j] == list_view(items@)[j]->Natural_0 as u8,
                    decreases items@.len() - i,
                {
                    match &items[i] {
                        JsonValue::Natural(n) => {
                            if *n > 255 {
                                assert(!list_view(items@)[i as int].is_byte());
                                return None;
                            }
                            bytes.push(*n as u8);
                        },
                        _ => {
                            assert(!list_view(items@)[i as int].is_byte());
                            return None;
                        },
                    }
                    i = i + 1;
                }
                assert(self@.bytes()->Some_0 =~= bytes@);
                Some(bytes)
            },
            _ => None,
        }
    }

    /// The string that holds `text`.
    pub fn from_text(text: &str) -> (value: JsonValue)
        ensures
            value@ == JsonView::Text(text@),
    {
        JsonValue::Text(String::from_str(text))
    }

    /// The array of numbers that stands for `bytes`.
    pub fn from_bytes(bytes: &[u8]) -> (value: JsonValue)
        ensures
            value@ == JsonView::of_bytes(bytes@),
    {
        let mut items: Vec<JsonValue> = Vec::new();
        let mut i: usize = 0;
        while i < bytes.len()
            invariant
                i <= bytes@.len(),
                items@.len() == i,
                forall|j: int| 0 <= j < i ==> items@[j] == JsonValue::Natural(bytes@[j] as u64),
            decreases bytes@.len() - i,
        {
            items.push(JsonValue::Natural(bytes[i] as u64));
            i = i + 1;
        }
        proof {
            lemma_list_view(items@);
            assert(list_view(items@) =~= JsonView::of_bytes(bytes@)->List_0);
        }
        JsonValue::List(items)
    }
}

} // verus!
