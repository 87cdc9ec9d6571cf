//! JSON values.

use crate::order::same_str;
use crate::text::texts;
use vstd::prelude::*;

verus! {

/// A JSON value. An integer has at most 53 bits besides its sign; events hold no other numbers.
pub enum Json {
    Null,
    Bool(bool),
    Integer(i64),
    /// A number that is no such integer, as it is written.
    Number(String),
    String(String),
    Array(Vec<Json>),
    Object(JsonObject),
}

/// One field of an object.
pub struct Field {
    pub name: String,
    pub value: Json,
}

/// A JSON object. No two of its fields have the same name.
pub struct JsonObject {
    fields: Vec<Field>,
}

spec fn named(fields: Seq<Field>, name: Seq<char>) -> bool {
    exists|i: int| 0 <= i < fields.len() && #[trigger] fields[i].name@ == name
}

spec fn place(fields: Seq<Field>, name: Seq<char>) -> int {
    choose|i: int| 0 <= i < fields.len() && #[trigger] fields[i].name@ == name
}

spec fn distinct(fields: Seq<Field>) -> bool {
    forall|i: int, j: int|
        0 <= i < j < fields.len() ==> #[trigger] fields[i].name@ != #[trigger] fields[j].name@
}

spec fn found(fields: Seq<Field>, name: Seq<char>) -> Option<Json> {
    if named(fields, name) {
        Some(fields[place(fields, name)].value)
    } else {
        None
    }
}

/// The mathematical value of a [`Json`].
#[verifier::ext_equal]
pub enum JsonView {
    Null,
    Bool(bool),
    Integer(i64),
    Number(Seq<char>),
    String(Seq<char>),
    Array(Seq<JsonView>),
    Object(Map<Seq<char>, JsonView>),
}

/// The mathematical value of a [`JsonObject`]: its fields by name.
pub type ObjectView = Map<Seq<char>, JsonView>;

impl JsonView {
    /// The text of a string.
    pub open spec fn text(self) -> Option<Seq<char>> {
        match self {
            JsonView::String(s) => Some(s),
            _ => None,
        }
    }
}

/// The text of a field that is a string.
pub open spec fn text_in(object: ObjectView, name: Seq<char>) -> Option<Seq<char>> {
    match object.get(name) {
        Some(value) => value.text(),
        None => None,
    }
}

/// The object that a field is.
pub open spec fn object_in(object: ObjectView, name: Seq<char>) -> Option<ObjectView> {
    match object.get(name) {
        Some(JsonView::Object(o)) => Some(o),
        _ => None,
    }
}

/// The value of a JSON value.
pub open spec fn json_view(json: Json) -> JsonView
    decreases json,
{
    match json {
        Json::Null => JsonView::Null,
        Json::Bool(b) => JsonView::Bool(b),
        Json::Integer(i) => JsonView::Integer(i),
        Json::Number(s) => JsonView::Number(s@),
        Json::String(s) => JsonView::String(s@),
        Json::Array(items) => JsonView::Array(
            Seq::new(
                items@.len(),
                |i: int|
                    if 0 <= i < items@.len() {
                        json_view(items@[i])
                    } else {
                        JsonView::Null
                    },
            ),
        ),
        Json::Object(object) => JsonView::Object(object_view(object)),
    }
}

/// The value of an object.
pub closed spec fn object_view(object: JsonObject) -> ObjectView
    decreases object,
{
    Map::new(
        |name: Seq<char>| named(object.fields@, name),
        |name: Seq<char>|
            if named(object.fields@, name) {
                json_view(object.fields@[place(object.fields@, name)].value)
            } else {
                JsonView::Null
            },
    )
}

impl View for Json {
    type V = JsonView;

    open spec fn view(&self) -> JsonView {
        json_view(*self)
    }
}

impl View for JsonObject {
    type V = ObjectView;

    open spec fn view(&self) -> ObjectView {
        object_view(*self)
    }
}

/// The values of JSON values.
pub open spec fn json_views(items: Seq<Json>) -> Seq<JsonView> {
    Seq::new(items.len(), |i: int| items[i]@)
}

impl Json {
    pub fn as_str(&self) -> (r: Option<&str>)
        ensures
            match r {
                Some(s) => self@.text() == Some(s@),
                None => self@.text() is None,
            },
    {
        match self {
            Json::String(s) => Some(s.as_str()),
            _ => None,
        }
    }

    pub fn as_object(&self) -> (r: Option<&JsonObject>)
        ensures
            match r {
                Some(o) => self@ == JsonView::Object(o@),
                None => !(self@ is Object),
            },
    {
        match self {
            Json::Object(o) => Some(o),
            _ => None,
        }
    }

    pub fn as_array(&self) -> (r: Option<&Vec<Json>>)
        ensures
            match r {
                Some(a) => self@ == JsonView::Array(json_views(a@)),
                None => !(self@ is Array),
            },
    {
        match self {
            Json::Array(a) => {
                proof {
                    assert(self@->Array_0 =~= json_views(a@));
                }
                Some(a)
            },
            _ => None,
        }
    }

    /// Another value like this one.
    pub fn duplicate(&self) -> (r: Json)
        ensures
            r@ == self@,
        decreases self,
    {
        match self {
            Json::Null => Json::Null,
            Json::Bool(b) => Json::Bool(*b),
            Json::Integer(n) => Json::Integer(*n),
            Json::Number(s) => Json::Number(s.clone()),
            Json::String(s) => Json::String(s.clone()),
            Json::Array(values) => {
                let mut out: Vec<Json> = Vec::new();
                let mut i: usize = 0;
                while i < values.len()
                    invariant
                        i <= values@.len(),
                        out@.len() == i,
                        *self == Json::Array(*values),
                        forall|j: int| 0 <= j < i ==> (#[trigger] out@[j])@ == values@[j]@,
                    decreases values@.len() - i,
                {
                    proof {
                        assert(decreases_to!(*self => self->Array_0));
                        assert(decreases_to!(self->Array_0 => self->Array_0@));
                        assert(decreases_to!(self->Array_0@ => self->Array_0@[i as int]));
                    }
                    out.push(values[i].duplicate());
                    i = i + 1;
                }
                let copy = Json::Array(out);
                proof {
                    assert forall|j: int| 0 <= j < out@.len() implies #[trigger]
                        copy@->Array_0[j] == self@->Array_0[j] by {
                        assert(out@[j]@ == values@[j]@);
                    }
                    assert(copy@->Array_0 =~= self@->Array_0);
                }
                copy
            },
            Json::Object(object) => {
                proof {
                    assert(decreases_to!(*self => self->Object_0));
                }
                Json::Object(object.duplicate())
            },
        }
    }
}

impl JsonObject {
    #[verifier::type_invariant]
    spec fn consistent(self) -> bool {
        distinct(self.fields@)
    }

    /// An object without fields.
    pub fn new() -> (r: JsonObject)
        ensures
            r@ == ObjectView::empty(),
    {
        let r = JsonObject { fields: Vec::new() };
        proof {
            assert(r@ =~= ObjectView::empty());
        }
        r
    }

    /// Another object like this one.
    pub fn duplicate(&self) -> (r: JsonObject)
        ensures
            r@ == self@,
        decreases self,
    {
        proof {
            use_type_invariant(self);
        }
        let mut fields: Vec<Field> = Vec::new();
        let mut i: usize = 0;
        while i < self.fields.len()
            invariant
                i <= self.fields@.len(),
                fields@.len() == i,
                forall|j: int|
                    0 <= j < i ==> (#[trigger] fields@[j]).name@ == self.fields@[j].name@
                        && fields@[j].value@ == self.fields@[j].value@,
            decreases self.fields@.len() - i,
        {
            proof {
                assert(decreases_to!(*self => self.fields));
                assert(decreases_to!(self.fields => self.fields@));
                assert(decreases_to!(self.fields@ => self.fields@[i as int]));
                assert(decreases_to!(self.fields@[i as int] => self.fields@[i as int].value));
            }
            let field = Field {
                name: self.fields[i].name.clone(),
                value: self.fields[i].value.duplicate(),
            };
            fields.push(field);
            i = i + 1;
        }
        proof {
            assert forall|a: int, b: int| 0 <= a < b < fields@.len() implies
                #[trigger] fields@[a].name@ != #[trigger] fields@[b].name@ by {
                assert(self.fields@[a].name@ != self.fields@[b].name@);
            }
        }
        let copy = JsonObject { fields };
        proof {
            lemma_same_fields(copy, *self);
        }
        copy
    }

    fn find(&self, name: &str) -> (r: Option<usize>)
        ensures
            match r {
                Some(i) => i < self.fields@.len() && self.fields@[i as int].name@ == name@,
                None => !named(self.fields@, name@),
            },
    {
        let mut i: usize = 0;
        while i < self.fields.len()
            invariant
                i <= self.fields@.len(),
                forall|j: int| 0 <= j < i ==> #[trigger] self.fields@[j].name@ != name@,
            decreases self.fields@.len() - i,
        {
            if same_str(self.fields[i].name.as_str(), name) {
                return Some(i);
            }
            i = i + 1;
        }
        None
    }

    /// The value of a field.
    pub fn get(&self, name: &str) -> (r: Option<&Json>)
        ensures
            match r {
                Some(v) => self@.get(name@) == Some(v@),
                None => self@.get(name@) is None,
            },
    {
        match self.find(name) {
            Some(i) => {
                proof {
                    use_type_invariant(self);
                    lemma_place(self.fields@, i as int);
                }
                Some(&self.fields[i].value)
            },
            None => None,
        }
    }

    /// The text of a field that is a string.
    pub fn get_str(&self, name: &str) -> (r: Option<&str>)
        ensures
            match r {
                Some(s) => text_in(self@, name@) == Some(s@),
                None => text_in(self@, name@) is None,
            },
    {
        match self.get(name) {
            Some(value) => value.as_str(),
            None => None,
        }
    }

    /// The object that a field is.
    pub fn get_object(&self, name: &str) -> (r: Option<&JsonObject>)
        ensures
            match r {
                Some(o) => object_in(self@, name@) == Some(o@),
                None => object_in(self@, name@) is None,
            },
    {
        match self.get(name) {
            Some(value) => value.as_object(),
            None => None,
        }
    }

    /// Whether there are no fields.
    pub fn is_empty(&self) -> (r: bool)
        ensures
            r == (self@ == ObjectView::empty()),
    {
        proof {
            if self.fields@.len() == 0 {
                assert(self@ =~= ObjectView::empty());
            } else {
                assert(self@.contains_key(self.fields@[0].name@));
            }
        }
        self.fields.len() == 0
    }

    pub fn contains_key(&self, name: &str) -> (r: bool)
        ensures
            r == self@.contains_key(name@),
    {
        self.get(name).is_some()
    }

    /// Removes a field and hands out its value.
    pub fn take(&mut self, name: &str) -> (r: Option<Json>)
        ensures
            match r {
                Some(v) => old(self)@.get(name@) == Some(v@),
                None => old(self)@.get(name@) is None,
            },
            final(self)@ == old(self)@.remove(name@),
    {
        let at = self.find(name);
        let mut taken = JsonObject::new();
        std::mem::swap(self, &mut taken);
        proof {
            use_type_invariant(&taken);
        }
        let ghost before = taken;
        let JsonObject { mut fields } = taken;
        match at {
            Some(i) => {
                let field = fields.remove(i);
                proof {
                    lemma_place(before.fields@, i as int);
                    lemma_removed(before.fields@, fields@, i as int);
                }
                *self = JsonObject { fields };
                proof {
                    lemma_found(*self);
                    lemma_found(before);
                    assert(self@ =~= before@.remove(name@));
                }
                Some(field.value)
            },
            None => {
                *self = JsonObject { fields };
                proof {
                    lemma_same_fields(*self, before);
                    assert(self@ =~= before@.remove(name@));
                }
                None
            },
        }
    }

    /// Removes a field.
    pub fn remove(&mut self, name: &str)
        ensures
            final(self)@ == old(self)@.remove(name@),
    {
        let _ = self.take(name);
    }

    /// Sets a field.
    pub fn insert(&mut self, name: &str, value: Json)
        ensures
            final(self)@ == old(self)@.insert(name@, value@),
    {
        self.remove(name);
        let mut taken = JsonObject::new();
        std::mem::swap(self, &mut taken);
        proof {
            use_type_invariant(&taken);
        }
        let ghost before = taken;
        let JsonObject { mut fields } = taken;
        let field = Field { name: name.to_owned(), value };
        fields.push(field);
        proof {
            lemma_found(before);
            assert(!before@.contains_key(name@));
            lemma_pushed(before.fields@, fields@, field);
        }
        *self = JsonObject { fields };
        proof {
            lemma_found(*self);
            assert(self@ =~= old(self)@.insert(name@, value@));
        }
    }

    /// The names of the fields, each once.
    pub fn names(&self) -> (r: Vec<String>)
        ensures
            texts(r@).no_duplicates(),
            forall|name: Seq<char>| #[trigger]
                self@.contains_key(name) <==> texts(r@).contains(name),
    {
        proof {
            use_type_invariant(self);
        }
        let mut out: Vec<String> = Vec::new();
        let mut i: usize = 0;
        while i < self.fields.len()
            invariant
                i <= self.fields@.len(),
                out@.len() == i,
                forall|j: int| 0 <= j < i ==> #[trigger] out@[j]@ == self.fields@[j].name@,
            decreases self.fields@.len() - i,
        {
            out.push(self.fields[i].name.clone());
            i = i + 1;
        }
        proof {
            assert forall|name: Seq<char>| #[trigger]
                self@.contains_key(name) <==> texts(out@).contains(name) by {
                if named(self.fields@, name) {
                    let p = place(self.fields@, name);
                    assert(out@[p]@ == self.fields@[p].name@);
                    assert(texts(out@)[p] == name);
                }
                if texts(out@).contains(name) {
                    let p = choose|p: int| 0 <= p < texts(out@).len() && texts(out@)[p] == name;
                    assert(out@[p]@ == self.fields@[p].name@);
                }
            }
            assert forall|i: int, j: int|
                0 <= i < texts(out@).len() && 0 <= j < texts(out@).len() && i != j implies texts(
                out@,
            )[i] != texts(out@)[j] by {
                assert(out@[i]@ == self.fields@[i].name@ && out@[j]@ == self.fields@[j].name@);
            }
        }
        out
    }
}

/// A field is what is found under its name.
proof fn lemma_found(object: JsonObject)
    ensures
        forall|name: Seq<char>|
            #![trigger object@.contains_key(name)]
            #![trigger found(object.fields@, name)]
            object@.contains_key(name) <==> found(object.fields@, name) is Some,
        forall|name: Seq<char>|
            #![trigger object@[name]]
            #![trigger found(object.fields@, name)]
            object@.contains_key(name) ==> object@[name] == found(object.fields@, name)->Some_0@,
{
}

/// Objects whose fields are alike, in the same order, are alike.
proof fn lemma_same_fields(a: JsonObject, b: JsonObject)
    requires
        distinct(a.fields@),
        distinct(b.fields@),
        a.fields@.len() == b.fields@.len(),
        forall|i: int|
            0 <= i < a.fields@.len() ==> (#[trigger] a.fields@[i]).name@ == b.fields@[i].name@
                && a.fields@[i].value@ == b.fields@[i].value@,
    ensures
        a@ == b@,
{
    assert forall|name: Seq<char>| #[trigger] a@.contains_key(name) == b@.contains_key(name) by {
        if named(a.fields@, name) {
            assert(b.fields@[place(a.fields@, name)].name@ == name);
        }
        if named(b.fields@, name) {
            assert(a.fields@[place(b.fields@, name)].name@ == name);
        }
    }
    assert forall|name: Seq<char>| a@.contains_key(name) implies #[trigger] a@[name] == b@[name] by {
        let i = place(a.fields@, name);
        assert(b.fields@[i].name@ == name);
        lemma_place(b.fields@, i);
    }
    assert(a@ =~= b@);
}

proof fn lemma_place(fields: Seq<Field>, i: int)
    requires
        distinct(fields),
        0 <= i < fields.len(),
    ensures
        named(fields, fields[i].name@),
        place(fields, fields[i].name@) == i,
{
    let name = fields[i].name@;
    assert(named(fields, name));
    let p = place(fields, name);
    assert(0 <= p < fields.len() && fields[p].name@ == name);
}

proof fn lemma_removed(before: Seq<Field>, after: Seq<Field>, at: int)
    requires
        distinct(before),
        0 <= at < before.len(),
        after == before.remove(at),
    ensures
        distinct(after),
        found(after, before[at].name@) is None,
        forall|n: Seq<char>| n != before[at].name@ ==> #[trigger] found(after, n) == found(before, n),
{
    assert forall|i: int| 0 <= i < after.len() implies #[trigger] after[i] == before[if i < at {
        i
    } else {
        i + 1
    }] by {}
    assert(distinct(after));
    assert forall|n: Seq<char>| n != before[at].name@ implies #[trigger] found(after, n) == found(
        before,
        n,
    ) by {
        if named(before, n) {
            let p = place(before, n);
            let q = if p < at {
                p
            } else {
                p - 1
            };
            assert(after[q] == before[p]);
            lemma_place(after, q);
        }
        if named(after, n) {
            let q = place(after, n);
            let p = if q < at {
                q
            } else {
                q + 1
            };
            assert(before[p].name@ == n);
        }
    }
    if named(after, before[at].name@) {
        let q = place(after, before[at].name@);
        let p = if q < at {
            q
        } else {
            q + 1
        };
        assert(before[p].name@ == before[at].name@);
    }
}

proof fn lemma_pushed(before: Seq<Field>, after: Seq<Field>, field: Field)
    requires
        distinct(before),
        found(before, field.name@) is None,
        after == before.push(field),
    ensures
        distinct(after),
        found(after, field.name@) == Some(field.value),
        forall|n: Seq<char>| n != field.name@ ==> #[trigger] found(after, n) == found(before, n),
{
    assert forall|i: int| 0 <= i < before.len() implies #[trigger] before[i].name@
        != field.name@ by {
        assert(!named(before, field.name@));
    }
    assert(distinct(after)) by {
        assert forall|i: int, j: int| 0 <= i < j < after.len() implies #[trigger] after[i].name@
            != #[trigger] after[j].name@ by {
            assert(after[i] == before[i]);
        }
    }
    lemma_place(after, before.len() as int);
    assert forall|n: Seq<char>| n != field.name@ implies #[trigger] found(after, n) == found(
        before,
        n,
    ) by {
        if named(before, n) {
            let p = place(before, n);
            assert(after[p] == before[p]);
            lemma_place(after, p);
        }
        if named(after, n) {
            let q = place(after, n);
            assert(before[q].name@ == n);
        }
    }
}

/// Ruma's JSON value.
#[verifier::external_type_specification]
#[verifier::external_body]
pub struct ExCanonicalJsonValue(ruma::CanonicalJsonValue);

/// Makes ruma's value of ours, variant for variant: `ruma::CanonicalJsonValue`. There is none
/// where an integer is wider than `ruma::Int` takes, or another number stands. Nothing is
/// claimed of it here; what the calls that take it give is stated where they are made.
#[verifier::external_body]
fn to_canonical(value: &Json) -> Option<ruma::CanonicalJsonValue> {
    match value {
        Json::Null => Some(ruma::CanonicalJsonValue::Null),
        Json::Bool(b) => Some(ruma::CanonicalJsonValue::Bool(*b)),
        Json::Integer(i) => ruma::Int::new(*i).map(ruma::CanonicalJsonValue::Integer),
        Json::Number(_) => None,
        Json::String(s) => Some(ruma::CanonicalJsonValue::String(s.clone())),
        Json::Array(a) => a.iter().map(to_canonical).collect::<Option<Vec<_>>>().map(
            ruma::CanonicalJsonValue::Array,
        ),
        Json::Object(o) => to_canonical_object(o).map(ruma::CanonicalJsonValue::Object),
    }
}

/// Makes ruma's object of ours, field for field: `ruma::CanonicalJsonObject`. Nothing is
/// claimed of it here.
#[verifier::external_body]
fn to_canonical_object(
    object: &JsonObject,
) -> Option<std::collections::BTreeMap<String, ruma::CanonicalJsonValue>> {
    object.fields.iter().map(|f| Some((f.name.clone(), to_canonical(&f.value)?))).collect()
}

/// Makes our value of ruma's, variant for variant: `ruma::CanonicalJsonValue`. Nothing is
/// claimed of it here.
#[verifier::external_body]
fn from_canonical(value: ruma::CanonicalJsonValue) -> Json {
    match value {
        ruma::CanonicalJsonValue::Null => Json::Null,
        ruma::CanonicalJsonValue::Bool(b) => Json::Bool(b),
        ruma::CanonicalJsonValue::Integer(i) => Json::Integer(i.into()),
        ruma::CanonicalJsonValue::String(s) => Json::String(s),
        ruma::CanonicalJsonValue::Array(a) => Json::Array(
            a.into_iter().map(from_canonical).collect(),
        ),
        ruma::CanonicalJsonValue::Object(o) => Json::Object(from_canonical_object(o)),
    }
}

/// Makes our object of ruma's, field for field: `ruma::CanonicalJsonObject`. No two of the
/// fields have the same name, as they are those of a map.
#[verifier::external_body]
fn from_canonical_object(
    object: std::collections::BTreeMap<String, ruma::CanonicalJsonValue>,
) -> JsonObject {
    JsonObject {
        fields: object.into_iter().map(
            |(name, value)| Field { name, value: from_canonical(value) },
        ).collect(),
    }
}

/// Serde's JSON value.
#[verifier::external_type_specification]
#[verifier::external_body]
pub struct ExValue(serde_json::Value);

/// Makes our value of serde's, variant for variant: `serde_json::Value`. A number that is no
/// `i64` keeps its text. Nothing is claimed of it here.
#[verifier::external_body]
fn from_value(value: serde_json::Value) -> Json {
    match value {
        serde_json::Value::Null => Json::Null,
        serde_json::Value::Bool(b) => Json::Bool(b),
        serde_json::Value::Number(n) => n.as_i64().map_or_else(
            || Json::Number(n.to_string()),
            Json::Integer,
        ),
        serde_json::Value::String(s) => Json::String(s),
        serde_json::Value::Array(a) => Json::Array(a.into_iter().map(from_value).collect()),
        serde_json::Value::Object(o) => Json::Object(from_value_object(o.into_iter().collect())),
    }
}

/// Makes our object of the fields of serde's, field for field: `serde_json::Value`. No two of
/// them have the same name, as they are those of a map.
#[verifier::external_body]
fn from_value_object(
    object: std::collections::BTreeMap<String, serde_json::Value>,
) -> JsonObject {
    JsonObject {
        fields: object.into_iter().map(
            |(name, value)| Field { name, value: from_value(value) },
        ).collect(),
    }
}

/// What `serde_json::from_str` makes of a text that is to be JSON: the value, or what is wrong
/// with the text.
pub uninterp spec fn parsed_json(text: Seq<char>) -> Result<JsonView, Seq<char>>;

/// `serde_json::from_str` into `serde_json::Value`: the value that a text is, or the error in
/// words if it is none. It depends on the text alone.
#[verifier::external_body]
pub(crate) fn parse_json(text: &str) -> (r: Result<Json, String>)
    ensures
        match r {
            Ok(value) => parsed_json(text@) == Ok::<JsonView, Seq<char>>(value@),
            Err(error) => parsed_json(text@) == Err::<JsonView, Seq<char>>(error@),
        },
{
    match serde_json::from_str(text) {
        Ok(value) => Ok(from_value(value)),
        Err(error) => Err(format!("{error:?}")),
    }
}

/// What `serde_json::to_string` makes of an object.
pub uninterp spec fn json_text(object: ObjectView) -> Option<Seq<char>>;

/// `serde_json::to_string`: the JSON text of an object, if it has one. An object has none
/// where an integer in it has more than 53 bits, or another number stands in it. The text
/// depends on the fields alone, not on the order in which they were set.
#[verifier::external_body]
pub(crate) fn to_text(object: &JsonObject) -> (r: Option<String>)
    ensures
        match r {
            Some(text) => json_text(object@) == Some(text@),
            None => json_text(object@) is None,
        },
{
    serde_json::to_string(&to_canonical_object(object)?).ok()
}

/// What `serde_json::from_str` makes of a text that is to be an object: the object, or what is
/// wrong with the text.
pub uninterp spec fn parsed_object(text: Seq<char>) -> Result<ObjectView, Seq<char>>;

/// `serde_json::from_str` into `ruma::CanonicalJsonObject`: the object that a text is, or the
/// error in words if it is none. It depends on the text alone.
#[verifier::external_body]
pub(crate) fn parse_object(text: &str) -> (r: Result<JsonObject, String>)
    ensures
        match r {
            Ok(object) => parsed_object(text@) == Ok::<ObjectView, Seq<char>>(object@),
            Err(error) => parsed_object(text@) == Err::<ObjectView, Seq<char>>(error@),
        },
{
    match serde_json::from_str(text) {
        Ok(object) => Ok(from_canonical_object(object)),
        Err(error) => Err(format!("{error:?}")),
    }
}

/// Signatures as servers write them: texts by server name and key ID.
pub open spec fn is_signature_map(signatures: ObjectView) -> bool {
    &&& signatures.dom().finite()
    &&& forall|server: Seq<char>| #[trigger]
        signatures.contains_key(server) ==> (signatures[server] matches JsonView::Object(keys)
            && keys.dom().finite() && (forall|key_id: Seq<char>| #[trigger]
            keys.contains_key(key_id) ==> keys[key_id] is String))
}

/// The object has no signatures, or signatures as servers write them.
pub open spec fn has_plain_signatures(object: ObjectView) -> bool {
    match object.get("signatures"@) {
        None => true,
        Some(JsonView::Object(signatures)) => is_signature_map(signatures),
        Some(_) => false,
    }
}

/// What `ruma::canonical_json::redact` makes of an object under the rules of a room version.
pub uninterp spec fn redacted(object: ObjectView, version: Seq<char>) -> Option<ObjectView>;

/// `ruma::canonical_json::redact`, with the redaction rules of the room version and no
/// reason: the redacted object, or nothing where the object lacks what redaction needs or
/// the version has no rules. It depends on the object's fields and the version alone. What is
/// left by redaction is left as it is when it is redacted again. Redaction leaves the
/// `signatures` as they are, whatever they are, and leaves the same of everything else. An
/// object with plain signatures that cannot be redacted cannot be redacted with others either.
#[verifier::external_body]
pub(crate) fn redact(object: &JsonObject, version: &str) -> (r: Option<JsonObject>)
    ensures
        match r {
            Some(left) => {
                &&& redacted(object@, version@) == Some(left@)
                &&& redacted(left@, version@) == Some(left@)
                &&& left@.get("signatures"@) == object@.get("signatures"@)
                &&& forall|s: ObjectView| #[trigger]
                    is_signature_map(s) ==> redacted(
                        object@.insert("signatures"@, JsonView::Object(s)),
                        version@,
                    ) == Some(left@.insert("signatures"@, JsonView::Object(s)))
            },
            None => {
                &&& redacted(object@, version@) is None
                &&& has_plain_signatures(object@) ==> forall|s: ObjectView| #[trigger]
                    is_signature_map(s) ==> redacted(
                        object@.insert("signatures"@, JsonView::Object(s)),
                        version@,
                    ) is None
            },
        },
{
    let rules = ruma::RoomVersionId::try_from(version).ok()?.rules()?;
    ruma::canonical_json::redact(to_canonical_object(object)?, &rules.redaction, None)
        .ok()
        .map(from_canonical_object)
}

/// What `to_canonical_json_string_for_signing` makes of an object.
pub uninterp spec fn signing_text(object: ObjectView) -> Option<Seq<char>>;

/// `ruma::signatures::to_canonical_json_string_for_signing`: the text of an object that a
/// signature is made over, if it has one. It depends on the object's fields alone, and not on
/// the `signatures`, where they are plain.
#[verifier::external_body]
pub(crate) fn to_signing_text(object: &JsonObject) -> (r: Option<String>)
    ensures
        match r {
            Some(text) => {
                &&& signing_text(object@) == Some(text@)
                &&& forall|s: ObjectView| #[trigger]
                    is_signature_map(s) ==> signing_text(
                        object@.insert("signatures"@, JsonView::Object(s)),
                    ) == Some(text@)
            },
            None => {
                &&& signing_text(object@) is None
                &&& has_plain_signatures(object@) ==> forall|s: ObjectView| #[trigger]
                    is_signature_map(s) ==> signing_text(
                        object@.insert("signatures"@, JsonView::Object(s)),
                    ) is None
            },
        },
{
    ruma::signatures::to_canonical_json_string_for_signing(&to_canonical_object(object)?).ok()
}

/// A field's text is there exactly if the field is there and is a string, and its object exactly
/// if it is an object.
pub proof fn law_fields(object: ObjectView, name: Seq<char>, text: Seq<char>, inner: ObjectView)
    ensures
        text_in(object, name) == Some(text) <==> object.contains_key(name) && object[name]
            == JsonView::String(text),
        text_in(object, name) is None <==> !(object.contains_key(name) && object[name] is String),
        object_in(object, name) == Some(inner) <==> object.contains_key(name) && object[name]
            == JsonView::Object(inner),
        object_in(object, name) is None <==> !(object.contains_key(name) && object[name] is Object),
{
}

/// Signatures are plain if there are none, or if each server has its own object of keys, each
/// with a string.
pub proof fn law_plain_signatures(object: ObjectView, server: Seq<char>, key_id: Seq<char>)
    ensures
        !object.contains_key("signatures"@) ==> has_plain_signatures(object),
        object.contains_key("signatures"@) && !(object["signatures"@] is Object)
            ==> !has_plain_signatures(object),
        has_plain_signatures(object) ==> (object_in(object, "signatures"@) matches Some(all)
            ==> all.contains_key(server) ==> (object_in(all, server) matches Some(keys) && (
        keys.contains_key(key_id) ==> text_in(keys, key_id) is Some))),
{
}

} // verus!
