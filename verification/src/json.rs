//! A semi-structured JSON document, as the environment store sees it.
//!
//! `JVal` is the executable tree; `JsonV` is its mathematical model. Numbers
//! keep their literal decimal text, so a document can be carried through a
//! load / save cycle without altering fields the store does not understand.

use vstd::prelude::*;

verus! {

/// Mathematical model of a JSON value. Object fields are kept in storage
/// order; nothing here requires keys to be unique.
pub enum JsonV {
    Null,
    Bool(bool),
    Num(Seq<char>),
    Str(Seq<char>),
    Arr(Seq<JsonV>),
    Obj(Seq<(Seq<char>, JsonV)>),
}

/// Executable JSON value. A number holds its literal decimal text.
pub enum JVal {
    Null,
    Bool(bool),
    Num(String),
    Str(String),
    Arr(Vec<JVal>),
    Obj(Vec<(String, JVal)>),
}

impl JVal {
    /// The mathematical value of this JSON tree.
    pub open spec fn model(self) -> JsonV
        decreases self,
    {
        match self {
            JVal::Null => JsonV::Null,
            JVal::Bool(b) => JsonV::Bool(b),
            JVal::Num(s) => JsonV::Num(s@),
            JVal::Str(s) => JsonV::Str(s@),
            JVal::Arr(items) => JsonV::Arr(Self::model_items(items@)),
            JVal::Obj(fields) => JsonV::Obj(Self::model_fields(fields@)),
        }
    }

    pub open spec fn model_items(items: Seq<JVal>) -> Seq<JsonV>
        decreases items,
    {
        if items.len() == 0 {
            Seq::empty()
        } else {
            seq![items[0].model()] + Self::model_items(items.drop_first())
        }
    }

    pub open spec fn model_fields(fields: Seq<(String, JVal)>) -> Seq<(Seq<char>, JsonV)>
        decreases fields,
    {
        if fields.len() == 0 {
            Seq::empty()
        } else {
            seq![(fields[0].0@, fields[0].1.model())] + Self::model_fields(fields.drop_first())
        }
    }
}

impl View for JVal {
    type V = JsonV;

    open spec fn view(&self) -> JsonV {
        self.model()
    }
}

/// The model of a sequence of values is its elements' models, in order.
pub proof fn lemma_model_items(items: Seq<JVal>)
    ensures
        JVal::model_items(items).len() == items.len(),
        forall|i: int|
            0 <= i < items.len() ==> #[trigger] JVal::model_items(items)[i] == items[i].model(),
    decreases items,
{
    if items.len() > 0 {
        lemma_model_items(items.drop_first());
    }
}

/// The model of a field list pairs each key's characters with the value's model.
pub proof fn lemma_model_fields(fields: Seq<(String, JVal)>)
    ensures
        JVal::model_fields(fields).len() == fields.len(),
        forall|i: int|
            0 <= i < fields.len() ==> #[trigger] JVal::model_fields(fields)[i] == (
                fields[i].0@,
                fields[i].1.model(),
            ),
    decreases fields,
{
    if fields.len() > 0 {
        lemma_model_fields(fields.drop_first());
    }
}

/// The fields of an object; anything else has none.
pub open spec fn fields_of(v: JsonV) -> Seq<(Seq<char>, JsonV)> {
    match v {
        JsonV::Obj(fields) => fields,
        _ => Seq::empty(),
    }
}

/// The value under the first occurrence of a key.
pub open spec fn lookup(fields: Seq<(Seq<char>, JsonV)>, key: Seq<char>) -> Option<JsonV>
    decreases fields,
{
    if fields.len() == 0 {
        None
    } else if fields[0].0 == key {
        Some(fields[0].1)
    } else {
        lookup(fields.drop_first(), key)
    }
}

proof fn lemma_lookup_at(fields: Seq<(Seq<char>, JsonV)>, key: Seq<char>, i: int)
    requires
        0 <= i < fields.len(),
        fields[i].0 == key,
        forall|j: int| 0 <= j < i ==> (#[trigger] fields[j]).0 != key,
    ensures
        lookup(fields, key) == Some(fields[i].1),
    decreases fields,
{
    if i > 0 {
        assert(forall|j: int| 0 <= j < i - 1 ==> (#[trigger] fields.drop_first()[j]) == fields[
            j + 1
        ]);
        lemma_lookup_at(fields.drop_first(), key, i - 1);
    }
}

proof fn lemma_lookup_none(fields: Seq<(Seq<char>, JsonV)>, key: Seq<char>)
    requires
        forall|j: int| 0 <= j < fields.len() ==> (#[trigger] fields[j]).0 != key,
    ensures
        lookup(fields, key) is None,
    decreases fields,
{
    if fields.len() > 0 {
        lemma_lookup_none(fields.drop_first(), key);
    }
}

impl JVal {
    /// The value under the first occurrence of a key, where this is an
    /// object that has it.
    #[verifier::loop_isolation(false)]
    pub fn lookup_field<'a>(&'a self, key: &str) -> (r: Option<&'a JVal>)
        ensures
            r matches Some(w) ==> lookup(fields_of(self@), key@) == Some(w@),
            r is None ==> lookup(fields_of(self@), key@) is None,
    {
        let k = key.to_owned();
        match self {
            JVal::Obj(fields) => {
                proof {
                    lemma_model_fields(fields@);
                }
                let n = fields.len();
                let mut i: usize = 0;
                while i < n
                    invariant
                        0 <= i <= n,
                        n == fields@.len(),
                        k@ == key@,
                        forall|j: int| 0 <= j < i ==> (#[trigger] fields@[j]).0@ != key@,
                    decreases n - i,
                {
                    if fields[i].0 == k {
                        proof {
                            lemma_model_fields(fields@);
                            let m = JVal::model_fields(fields@);
                            assert(m[i as int].0 == key@);
                            assert forall|j: int| 0 <= j < i implies (#[trigger] m[j]).0 != key@ by {
                                assert(m[j] == (fields@[j].0@, fields@[j].1@));
                            }
                            lemma_lookup_at(m, key@, i as int);
                            assert(fields_of(self@) == m);
                            assert(m[i as int].1 == fields@[i as int].1@);
                        }
                        return Some(&fields[i].1);
                    }
                    i = i + 1;
                }
                proof {
                    lemma_lookup_none(JVal::model_fields(fields@), key@);
                }
                None
            },
            _ => None,
        }
    }

    /// A structurally equal copy.
    #[verifier::loop_isolation(false)]
    pub fn duplicate(&self) -> (r: JVal)
        ensures
            r@ == self@,
        decreases *self,
    {
        match self {
            JVal::Null => JVal::Null,
            JVal::Bool(b) => JVal::Bool(*b),
            JVal::Num(s) => JVal::Num(s.clone()),
            JVal::Str(s) => JVal::Str(s.clone()),
            JVal::Arr(items) => {
                let mut out: Vec<JVal> = Vec::new();
                let mut i: usize = 0;
                while i < items.len()
                    invariant
                        0 <= i <= items@.len(),
                        out@.len() == i,
                        forall|j: int| 0 <= j < i ==> (#[trigger] out@[j])@ == items@[j]@,
                    decreases items@.len() - i,
                {
                    proof {
                        assert(decreases_to!(*self => *items));
                        assert(decreases_to!(*items => items@));
                        assert(decreases_to!(items@ => items@[i as int]));
                    }
                    let c = items[i].duplicate();
                    out.push(c);
                    i = i + 1;
                }
                proof {
                    lemma_model_items(out@);
                    lemma_model_items(items@);
                    assert(JVal::model_items(out@) =~= JVal::model_items(items@));
                }
                JVal::Arr(out)
            },
            JVal::Obj(fields) => {
                let mut out: Vec<(String, JVal)> = Vec::new();
                let mut i: usize = 0;
                while i < fields.len()
                    invariant
                        0 <= i <= fields@.len(),
                        out@.len() == i,
                        forall|j: int|
                            0 <= j < i ==> (#[trigger] out@[j]).0@ == fields@[j].0@ && out@[j].1@
                                == fields@[j].1@,
                    decreases fields@.len() - i,
                {
                    proof {
                        assert(decreases_to!(*self => *fields));
                        assert(decreases_to!(*fields => fields@));
                        assert(decreases_to!(fields@ => fields@[i as int]));
                        assert(decreases_to!(fields@[i as int] => fields@[i as int].1));
                    }
                    let c = fields[i].1.duplicate();
                    let key = fields[i].0.clone();
                    out.push((key, c));
                    i = i + 1;
                }
                proof {
                    lemma_model_fields(out@);
                    lemma_model_fields(fields@);
                    assert(JVal::model_fields(out@) =~= JVal::model_fields(fields@));
                }
                JVal::Obj(out)
            },
        }
    }
}

/// What `serde_json` parses a given text to, translated to the model:
/// `None` where the text is not a JSON document.
pub uninterp spec fn parsed_json(text: Seq<char>) -> Option<JsonV>;

/// The text `serde_json` renders a given value to.
pub uninterp spec fn rendered_json(v: JsonV) -> Seq<char>;

#[verifier::external_type_specification]
#[verifier::external_body]
pub struct ExValue(serde_json::Value);

/// Relies on the public variants of `serde_json::Value` and on
/// `serde_json::Number::to_string`, which (numbers being kept as literal
/// text) hands back the number's stored decimal text: each variant is turned
/// into the library's form, moving its fields.
#[verifier::external_body]
fn jval_of_value(v: serde_json::Value) -> JVal {
    match v {
        serde_json::Value::Null => JVal::Null,
        serde_json::Value::Bool(b) => JVal::Bool(b),
        serde_json::Value::Number(n) => JVal::Num(n.to_string()),
        serde_json::Value::String(s) => JVal::Str(s),
        serde_json::Value::Array(a) => JVal::Arr(a.into_iter().map(jval_of_value).collect()),
        serde_json::Value::Object(m) => JVal::Obj(
            m.into_iter().map(|(k, w)| (k, jval_of_value(w))).collect(),
        ),
    }
}

/// Relies on the public variants of `serde_json::Value` and on
/// `serde_json::from_str::<serde_json::Value>` to rebuild a number from its
/// literal text (a number text that is not one is written as null): the
/// reverse of `jval_of_value`, one arm per variant.
#[verifier::external_body]
fn value_of_jval(v: &JVal) -> serde_json::Value {
    match v {
        JVal::Null => serde_json::Value::Null,
        JVal::Bool(b) => serde_json::Value::Bool(*b),
        JVal::Num(s) => match serde_json::from_str(s) {
            Ok(serde_json::Value::Number(n)) => serde_json::Value::Number(n),
            _ => serde_json::Value::Null,
        },
        JVal::Str(s) => serde_json::Value::String(s.clone()),
        JVal::Arr(items) => serde_json::Value::Array(items.iter().map(value_of_jval).collect()),
        JVal::Obj(fields) => serde_json::Value::Object(
            fields.iter().map(|(k, w)| (k.clone(), value_of_jval(w))).collect(),
        ),
    }
}

/// Relies on `serde_json::from_str::<serde_json::Value>`: the parse is a
/// function of the text alone, and succeeds exactly when the text is a JSON
/// document.
#[verifier::external_body]
pub(crate) fn parse_json(text: &str) -> (r: Option<JVal>)
    ensures
        r matches Some(v) ==> parsed_json(text@) == Some(v@),
        r is None ==> parsed_json(text@) is None,
{
    match serde_json::from_str::<serde_json::Value>(text) {
        Ok(v) => Some(jval_of_value(v)),
        Err(_) => None,
    }
}

/// Relies on `serde_json::to_string_pretty` over the rebuilt
/// `serde_json::Value`: the rendered text is a function of the value alone.
#[verifier::external_body]
pub(crate) fn render_json(v: &JVal) -> (r: String)
    ensures
        r@ == rendered_json(v@),
{
    match serde_json::to_string_pretty(&value_of_jval(v)) {
        Ok(s) => s,
        Err(_) => String::new(),
    }
}

} // verus!
