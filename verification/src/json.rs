//! A JSON value held as plain data, and the calls into `serde_json` that read
//! and print it.

use vstd::prelude::*;

verus! {

/// `serde_json::Value`, carried through as it is: nothing is known of what is
/// inside.
#[verifier::external_type_specification]
#[verifier::external_body]
pub struct ExSerdeValue(serde_json::Value);

/// `serde_json::Number`, carried through as it is.
#[verifier::external_type_specification]
#[verifier::external_body]
pub struct ExSerdeNumber(serde_json::Number);

/// A JSON number: a non-negative integer, a negative integer, or any other
/// number kept as the text that `serde_json` prints for it.
#[derive(Debug)]
pub enum JsonNumber {
    Unsigned(u64),
    Negative(i64),
    Float(String),
}

/// The mathematical value of a [`JsonNumber`].
pub enum NumberV {
    Unsigned(u64),
    Negative(i64),
    Float(Seq<char>),
}

impl View for JsonNumber {
    type V = NumberV;

    open spec fn view(&self) -> NumberV {
        match self {
            JsonNumber::Unsigned(u) => NumberV::Unsigned(*u),
            JsonNumber::Negative(i) => NumberV::Negative(*i),
            JsonNumber::Float(t) => NumberV::Float(t@),
        }
    }
}

impl Clone for JsonNumber {
    fn clone(&self) -> (r: Self)
        ensures
            r@ == self@,
    {
        match self {
            JsonNumber::Unsigned(u) => JsonNumber::Unsigned(*u),
            JsonNumber::Negative(i) => JsonNumber::Negative(*i),
            JsonNumber::Float(t) => JsonNumber::Float(t.clone()),
        }
    }
}

/// A JSON value. An object keeps its members in the order given.
#[derive(Debug)]
pub enum Json {
    Null,
    Bool(bool),
    Number(JsonNumber),
    Text(String),
    Array(Vec<Json>),
    Object(Vec<(String, Json)>),
}

/// The mathematical value of a [`Json`].
pub enum JsonV {
    Null,
    Bool(bool),
    Number(NumberV),
    Text(Seq<char>),
    Array(Seq<JsonV>),
    Object(Seq<(Seq<char>, JsonV)>),
}

/// The value of a JSON document.
pub open spec fn json_value(j: Json) -> JsonV
    decreases j,
{
    match j {
        Json::Null => JsonV::Null,
        Json::Bool(b) => JsonV::Bool(b),
        Json::Number(n) => JsonV::Number(n@),
        Json::Text(s) => JsonV::Text(s@),
        Json::Array(items) => JsonV::Array(array_value(items@)),
        Json::Object(members) => JsonV::Object(object_value(members@)),
    }
}

/// The values of the items of an array, in order.
pub open spec fn array_value(items: Seq<Json>) -> Seq<JsonV>
    decreases items,
{
    if items.len() == 0 {
        Seq::empty()
    } else {
        array_value(items.drop_last()).push(json_value(items.last()))
    }
}

/// The members of an object, in order: each key with the value of its member.
pub open spec fn object_value(members: Seq<(String, Json)>) -> Seq<(Seq<char>, JsonV)>
    decreases members,
{
    if members.len() == 0 {
        Seq::empty()
    } else {
        object_value(members.drop_last()).push((members.last().0@, json_value(members.last().1)))
    }
}

impl View for Json {
    type V = JsonV;

    open spec fn view(&self) -> JsonV {
        json_value(*self)
    }
}

/// `array_value` maps `json_value` over the items.
pub proof fn lemma_array_value(items: Seq<Json>)
    ensures
        array_value(items).len() == items.len(),
        forall|k: int| 0 <= k < items.len() ==> (#[trigger] array_value(items)[k]) == items[k]@,
    decreases items.len(),
{
    if items.len() > 0 {
        lemma_array_value(items.drop_last());
    }
}

/// `object_value` maps each member to its key and the value of its content.
pub proof fn lemma_object_value(members: Seq<(String, Json)>)
    ensures
        object_value(members).len() == members.len(),
        forall|k: int|
            0 <= k < members.len() ==> (#[trigger] object_value(members)[k]) == (
                members[k].0@,
                members[k].1@,
            ),
    decreases members.len(),
{
    if members.len() > 0 {
        lemma_object_value(members.drop_last());
    }
}

impl Clone for Json {
    fn clone(&self) -> (r: Self)
        ensures
            r@ == self@,
        decreases self,
    {
        match self {
            Json::Null => Json::Null,
            Json::Bool(b) => Json::Bool(*b),
            Json::Number(n) => Json::Number(n.clone()),
            Json::Text(s) => Json::Text(s.clone()),
            Json::Array(items) => {
                let mut out: Vec<Json> = Vec::new();
                let mut i: usize = 0;
                while i < items.len()
                    invariant
                        *self == Json::Array(*items),
                        i <= items.len(),
                        out@.len() == i,
                        forall|k: int| 0 <= k < i ==> (#[trigger] out@[k])@ == items@[k]@,
                    decreases items.len() - i,
                {
                    let item = &items[i];
                    assert(*self is Array && self->Array_0 == *items);
                    assert(decreases_to!(*self => self->Array_0));
                    out.push(item.clone());
                    proof {
                        lemma_array_value(items@);
                    }
                    i += 1;
                }
                let r = Json::Array(out);
                proof {
                    lemma_array_value(items@);
                    lemma_array_value(out@);
                    assert(array_value(out@) =~= array_value(items@));
                }
                r
            },
            Json::Object(members) => {
                let mut out: Vec<(String, Json)> = Vec::new();
                let mut i: usize = 0;
                while i < members.len()
                    invariant
                        *self == Json::Object(*members),
                        i <= members.len(),
                        out@.len() == i,
                        forall|k: int|
                            0 <= k < i ==> (#[trigger] out@[k]).0@ == members@[k].0@ && out@[k].1@
                                == members@[k].1@,
                    decreases members.len() - i,
                {
                    let member = &members[i];
                    assert(*self is Object && self->Object_0 == *members);
                    assert(decreases_to!(*self => self->Object_0));
                    assert(decreases_to!(*members => members[i as int]));
                    assert(decreases_to!(*member => member.1));
                    out.push((member.0.clone(), member.1.clone()));
                    i += 1;
                }
                let r = Json::Object(out);
                proof {
                    lemma_object_value(members@);
                    lemma_object_value(out@);
                    assert(object_value(out@) =~= object_value(members@));
                }
                r
            },
        }
    }
}

impl JsonV {
    /// The first member of an object that has the given key.
    pub open spec fn member(self, key: Seq<char>) -> Option<JsonV> {
        match self {
            JsonV::Object(members) => first_member(members, key),
            _ => None,
        }
    }

    /// The text of a string value.
    pub open spec fn text(self) -> Option<Seq<char>> {
        match self {
            JsonV::Text(s) => Some(s),
            _ => None,
        }
    }

    /// The value of a number that is a non-negative integer below 2^64.
    pub open spec fn unsigned(self) -> Option<u64> {
        match self {
            JsonV::Number(NumberV::Unsigned(u)) => Some(u),
            _ => None,
        }
    }
}

/// The value of the first member named `key`, if there is one.
pub open spec fn first_member(members: Seq<(Seq<char>, JsonV)>, key: Seq<char>) -> Option<JsonV>
    decreases members.len(),
{
    if members.len() == 0 {
        None
    } else if members[0].0 == key {
        Some(members[0].1)
    } else {
        first_member(members.drop_first(), key)
    }
}

impl Json {
    /// Looks a key up in an object; `None` for a missing key and for a value
    /// that is no object.
    pub fn get(&self, key: &str) -> (r: Option<&Json>)
        ensures
            match r {
                Some(j) => self@.member(key@) == Some(j@),
                None => self@.member(key@).is_none(),
            },
    {
        match self {
            Json::Object(members) => {
                let wanted = crate::text::chars_of(key);
                let mut i: usize = 0;
                proof {
                    lemma_object_value(members@);
                    assert(self@->Object_0.skip(0) =~= self@->Object_0);
                }
                while i < members.len()
                    invariant
                        i <= members.len(),
                        wanted@ == key@,
                        *self == Json::Object(*members),
                        self@ is Object,
                        self@->Object_0.len() == members@.len(),
                        forall|k: int|
                            0 <= k < members@.len() ==> (#[trigger] self@->Object_0[k]) == (
                                members@[k].0@,
                                members@[k].1@,
                            ),
                        first_member(self@->Object_0, key@) == first_member(
                            self@->Object_0.skip(i as int),
                            key@,
                        ),
                    decreases members.len() - i,
                {
                    let ghost rest = self@->Object_0.skip(i as int);
                    assert(rest[0] == self@->Object_0[i as int]);
                    assert(rest.drop_first() =~= self@->Object_0.skip(i + 1));
                    if crate::text::str_matches(members[i].0.as_str(), &wanted) {
                        return Some(&members[i].1);
                    }
                    i += 1;
                }
                None
            },
            _ => None,
        }
    }

    /// The text of a string value; `None` for any other value.
    pub fn as_str(&self) -> (r: Option<&str>)
        ensures
            match r {
                Some(s) => self@.text() == Some(s@),
                None => self@.text().is_none(),
            },
    {
        match self {
            Json::Text(s) => Some(s.as_str()),
            _ => None,
        }
    }

    /// The value of a non-negative integer; `None` for any other value.
    pub fn as_u64(&self) -> (r: Option<u64>)
        ensures
            r == self@.unsigned(),
    {
        match self {
            Json::Number(JsonNumber::Unsigned(u)) => Some(*u),
            _ => None,
        }
    }
}

/// What `serde_json::from_str` makes of a text: the document it reads, or
/// the message of its error where it rejects the text.
pub uninterp spec fn parsed_json(text: Seq<char>) -> Result<JsonV, Seq<char>>;

/// The result of reading a text, as plain data.
pub open spec fn parse_result(r: Result<Json, String>) -> Result<JsonV, Seq<char>> {
    match r {
        Ok(j) => Ok(j@),
        Err(m) => Err(m@),
    }
}

/// What `serde_json::to_string_pretty` prints for a document.
pub uninterp spec fn pretty_text(j: JsonV) -> Seq<char>;

/// What `serde_json`'s `Display` prints for a document: the compact form.
pub uninterp spec fn compact_text(j: JsonV) -> Seq<char>;

/// The number that a `serde_json::Number` holds: what `as_u64` gives where
/// it gives a value, else what `as_i64` gives, else the text that
/// `Display` prints for it.
pub uninterp spec fn serde_number(n: serde_json::Number) -> NumberV;

/// The document that a `serde_json::Value` holds, variant by variant; the
/// members of an object in the order in which its map hands them out.
pub uninterp spec fn serde_document(v: serde_json::Value) -> JsonV;

/// The document that the `serde_json::Value` holds which is built from a
/// document: a `Float` is read back from its text and is `null` where
/// `serde_json` cannot read it, and the members of an object are kept as
/// `serde_json`'s map keeps them.
pub uninterp spec fn serde_form(j: JsonV) -> JsonV;

/// Copies a `serde_json::Number` into plain data: `as_u64` where it has one,
/// else `as_i64`, else the text that `Display` prints for it. The result is
/// the number that `serde_number` names.
#[verifier::external_body]
fn number_of_serde(n: &serde_json::Number) -> (r: JsonNumber)
    ensures
        r@ == serde_number(*n),
{
    match (n.as_u64(), n.as_i64()) {
        (Some(u), _) => JsonNumber::Unsigned(u),
        (None, Some(i)) => JsonNumber::Negative(i),
        (None, None) => JsonNumber::Float(n.to_string()),
    }
}

/// Copies a `serde_json::Value` into plain data, variant by variant; the
/// members of an object come in the order in which its map hands them out.
/// The result is the document that `serde_document` names.
#[verifier::external_body]
fn json_of_serde(v: &serde_json::Value) -> (r: Json)
    ensures
        r@ == serde_document(*v),
{
    match v {
        serde_json::Value::Null => Json::Null,
        serde_json::Value::Bool(b) => Json::Bool(*b),
        serde_json::Value::Number(n) => Json::Number(number_of_serde(n)),
        serde_json::Value::String(s) => Json::Text(s.clone()),
        serde_json::Value::Array(a) => Json::Array(a.iter().map(json_of_serde).collect()),
        serde_json::Value::Object(m) => Json::Object(
            m.iter().map(|(k, v)| (k.clone(), json_of_serde(v))).collect(),
        ),
    }
}

/// Builds the `serde_json::Value` for a document, variant by variant. A
/// `Float` is read back from its text; one that `serde_json` cannot read
/// becomes `null`. The value holds the document that `serde_form` names.
#[verifier::external_body]
fn serde_of_json(j: &Json) -> (r: serde_json::Value)
    ensures
        serde_document(r) == serde_form(j@),
{
    match j {
        Json::Null => serde_json::Value::Null,
        Json::Bool(b) => serde_json::Value::Bool(*b),
        Json::Number(JsonNumber::Unsigned(u)) => serde_json::Value::from(*u),
        Json::Number(JsonNumber::Negative(i)) => serde_json::Value::from(*i),
        Json::Number(JsonNumber::Float(t)) => serde_json::from_str(t).unwrap_or_default(),
        Json::Text(s) => serde_json::Value::String(s.clone()),
        Json::Array(a) => serde_json::Value::Array(a.iter().map(serde_of_json).collect()),
        Json::Object(m) => serde_json::Value::Object(
            m.iter().map(|(k, v)| (k.clone(), serde_of_json(v))).collect(),
        ),
    }
}

/// Calls `serde_json::from_str` for a `Value`. On success the result holds the
/// document that `parsed_json` names; on failure, the text of the error, as
/// `Display` prints it.
#[verifier::external_body]
fn parse_text(text: &str) -> (r: Result<Json, String>)
    ensures
        parse_result(r) == parsed_json(text@),
{
    match serde_json::from_str::<serde_json::Value>(text) {
        Ok(v) => Ok(json_of_serde(&v)),
        Err(e) => Err(e.to_string()),
    }
}

/// Calls `serde_json::to_string_pretty`, and `to_string` where that fails.
#[verifier::external_body]
fn print_pretty(j: &Json) -> (r: String)
    ensures
        r@ == pretty_text(j@),
{
    let v = serde_of_json(j);
    serde_json::to_string_pretty(&v).unwrap_or_else(|_| v.to_string())
}

/// Calls `to_string` on the `serde_json::Value` of the document.
#[verifier::external_body]
fn print_compact(j: &Json) -> (r: String)
    ensures
        r@ == compact_text(j@),
{
    serde_of_json(j).to_string()
}

impl Json {
    /// Reads a JSON text. `Err` holds the parser's message.
    pub fn parse(text: &str) -> (r: Result<Json, String>)
        ensures
            parse_result(r) == parsed_json(text@),
    {
        parse_text(text)
    }

    /// The document printed over several lines, indented by two spaces.
    pub fn to_pretty(&self) -> (r: String)
        ensures
            r@ == pretty_text(self@),
    {
        print_pretty(self)
    }

    /// The document printed on one line.
    pub fn to_compact(&self) -> (r: String)
        ensures
            r@ == compact_text(self@),
    {
        print_compact(self)
    }

    /// The plain form of a `serde_json::Value`.
    pub fn from_serde(v: &serde_json::Value) -> (r: Json)
        ensures
            r@ == serde_document(*v),
    {
        json_of_serde(v)
    }

    /// The `serde_json::Value` of this document.
    pub fn to_serde(&self) -> (r: serde_json::Value)
        ensures
            serde_document(r) == serde_form(self@),
    {
        serde_of_json(self)
    }
}

impl JsonNumber {
    /// The plain form of a `serde_json::Number`.
    pub fn from_serde(n: &serde_json::Number) -> (r: JsonNumber)
        ensures
            r@ == serde_number(*n),
    {
        number_of_serde(n)
    }

    /// Whether two numbers are the same.
    pub fn same(&self, other: &JsonNumber) -> (r: bool)
        ensures
            r == (self@ == other@),
    {
        match (self, other) {
            (JsonNumber::Unsigned(a), JsonNumber::Unsigned(b)) => *a == *b,
            (JsonNumber::Negative(a), JsonNumber::Negative(b)) => *a == *b,
            (JsonNumber::Float(a), JsonNumber::Float(b)) => crate::text::str_eq(
                a.as_str(),
                b.as_str(),
            ),
            _ => false,
        }
    }
}

impl Json {
    /// Whether two documents are the same: the same kind of value, the
    /// same items in the same order, the same members in the same order.
    pub fn same(&self, other: &Json) -> (r: bool)
        ensures
            r == (self@ == other@),
        decreases self,
    {
        match (self, other) {
            (Json::Null, Json::Null) => true,
            (Json::Bool(a), Json::Bool(b)) => *a == *b,
            (Json::Number(a), Json::Number(b)) => a.same(b),
            (Json::Text(a), Json::Text(b)) => crate::text::str_eq(a.as_str(), b.as_str()),
            (Json::Array(a), Json::Array(b)) => {
                proof {
                    lemma_array_value(a@);
                    lemma_array_value(b@);
                }
                if a.len() != b.len() {
                    return false;
                }
                let mut i: usize = 0;
                while i < a.len()
                    invariant
                        *self == Json::Array(*a),
                        *other == Json::Array(*b),
                        i <= a.len(),
                        a.len() == b.len(),
                        forall|k: int| 0 <= k < i ==> (#[trigger] a@[k])@ == b@[k]@,
                    decreases a.len() - i,
                {
                    let item = &a[i];
                    assert(*self is Array && self->Array_0 == *a);
                    assert(decreases_to!(*self => self->Array_0));
                    if !item.same(&b[i]) {
                        proof {
                            lemma_array_value(a@);
                            lemma_array_value(b@);
                            assert(array_value(a@)[i as int] != array_value(b@)[i as int]);
                        }
                        return false;
                    }
                    i += 1;
                }
                proof {
                    lemma_array_value(a@);
                    lemma_array_value(b@);
                    assert(array_value(a@) =~= array_value(b@));
                }
                true
            },
            (Json::Object(a), Json::Object(b)) => {
                proof {
                    lemma_object_value(a@);
                    lemma_object_value(b@);
                }
                if a.len() != b.len() {
                    return false;
                }
                let mut i: usize = 0;
                while i < a.len()
                    invariant
                        *self == Json::Object(*a),
                        *other == Json::Object(*b),
                        i <= a.len(),
                        a.len() == b.len(),
                        forall|k: int|
                            0 <= k < i ==> (#[trigger] a@[k]).0@ == b@[k].0@ && a@[k].1@ == b@[k].1@,
                    decreases a.len() - i,
                {
                    let member = &a[i];
                    assert(*self is Object && self->Object_0 == *a);
                    assert(decreases_to!(*self => self->Object_0));
                    assert(decreases_to!(*a => a[i as int]));
                    assert(decreases_to!(*member => member.1));
                    if !crate::text::str_eq(member.0.as_str(), b[i].0.as_str()) || !member.1.same(
                        &b[i].1,
                    ) {
                        proof {
                            lemma_object_value(a@);
                            lemma_object_value(b@);
                            assert(object_value(a@)[i as int] != object_value(b@)[i as int]);
                        }
                        return false;
                    }
                    i += 1;
                }
                proof {
                    lemma_object_value(a@);
                    lemma_object_value(b@);
                    assert(object_value(a@) =~= object_value(b@));
                }
                true
            },
            _ => false,
        }
    }
}

} // verus!
