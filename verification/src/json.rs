//! JSON documents as trees.
use vstd::prelude::*;

verus! {

/// A JSON value, with the members of an object in the order in which they were given.
#[derive(Debug)]
pub enum Json {
    Bool(bool),
    Int(u64),
    Str(String),
    Arr(Vec<Json>),
    Obj(Vec<(String, Json)>),
}

/// A [`Json`] with its texts as sequences of characters.
pub enum JsonView {
    Bool(bool),
    Int(u64),
    Str(Seq<char>),
    Arr(Seq<JsonView>),
    Obj(Seq<(Seq<char>, JsonView)>),
}

impl Json {
    /// The tree as a mathematical value.
    pub open spec fn tree(&self) -> JsonView
        decreases self,
    {
        match self {
            Json::Bool(b) => JsonView::Bool(*b),
            Json::Int(n) => JsonView::Int(*n),
            Json::Str(s) => JsonView::Str(s@),
            Json::Arr(v) => JsonView::Arr(
                Seq::new(
                    v@.len(),
                    |i: int|
                        if 0 <= i < v@.len() {
                            v@[i].tree()
                        } else {
                            arbitrary()
                        },
                ),
            ),
            Json::Obj(v) => JsonView::Obj(
                Seq::new(
                    v@.len(),
                    |i: int|
                        if 0 <= i < v@.len() {
                            (v@[i].0@, v@[i].1.tree())
                        } else {
                            arbitrary()
                        },
                ),
            ),
        }
    }
}

impl View for Json {
    type V = JsonView;

    open spec fn view(&self) -> JsonView {
        self.tree()
    }
}

/// The object without members.
pub open spec fn object() -> JsonView {
    JsonView::Obj(Seq::empty())
}

/// The array without elements.
pub open spec fn array() -> JsonView {
    JsonView::Arr(Seq::empty())
}

impl JsonView {
    /// An object with one member more.
    pub open spec fn with(self, key: Seq<char>, value: JsonView) -> JsonView {
        JsonView::Obj(self->Obj_0.push((key, value)))
    }

    /// An object with one member more, whose value is a text.
    pub open spec fn with_text(self, key: Seq<char>, value: Seq<char>) -> JsonView {
        self.with(key, JsonView::Str(value))
    }

    /// An array with one element more.
    pub open spec fn and(self, value: JsonView) -> JsonView {
        JsonView::Arr(self->Arr_0.push(value))
    }

    /// An array with more elements.
    pub open spec fn and_all(self, values: Seq<JsonView>) -> JsonView {
        JsonView::Arr(self->Arr_0 + values)
    }
}

/// A JSON string.
pub fn string(s: &str) -> (r: Json)
    ensures
        r@ == JsonView::Str(s@),
{
    Json::Str(s.to_owned())
}

/// An object under construction.
pub struct Object {
    fields: Vec<(String, Json)>,
}

impl View for Object {
    type V = JsonView;

    closed spec fn view(&self) -> JsonView {
        JsonView::Obj(Seq::new(self.fields@.len(), |i: int| (self.fields@[i].0@, self.fields@[i].1@)))
    }
}

impl Object {
    /// No members.
    pub fn new() -> (r: Object)
        ensures
            r@ == object(),
    {
        let r = Object { fields: Vec::new() };
        assert(r@->Obj_0 =~= Seq::empty());
        r
    }

    /// One member more.
    pub fn with(self, key: &str, value: Json) -> (r: Object)
        ensures
            r@ == self@.with(key@, value@),
    {
        let mut fields = self.fields;
        let ghost before = self@->Obj_0;
        let ghost added = (key@, value@);
        fields.push((key.to_owned(), value));
        let r = Object { fields };
        assert(r@->Obj_0 =~= before.push(added));
        r
    }

    /// One member more, whose value is a text.
    pub fn with_text(self, key: &str, value: &str) -> (r: Object)
        ensures
            r@ == self@.with_text(key@, value@),
    {
        self.with(key, string(value))
    }

    /// The object.
    pub fn done(self) -> (r: Json)
        ensures
            r@ == self@,
    {
        let ghost all = self@->Obj_0;
        let r = Json::Obj(self.fields);
        assert(r@->Obj_0 =~= all);
        r
    }
}

/// An array under construction.
pub struct Array {
    items: Vec<Json>,
}

impl View for Array {
    type V = JsonView;

    closed spec fn view(&self) -> JsonView {
        JsonView::Arr(Seq::new(self.items@.len(), |i: int| self.items@[i]@))
    }
}

impl Array {
    /// No elements.
    pub fn new() -> (r: Array)
        ensures
            r@ == array(),
    {
        let r = Array { items: Vec::new() };
        assert(r@->Arr_0 =~= Seq::empty());
        r
    }

    /// One element more.
    pub fn and(self, value: Json) -> (r: Array)
        ensures
            r@ == self@.and(value@),
    {
        let mut items = self.items;
        let ghost before = self@->Arr_0;
        let ghost added = value@;
        items.push(value);
        let r = Array { items };
        assert(r@->Arr_0 =~= before.push(added));
        r
    }

    /// The array.
    pub fn done(self) -> (r: Json)
        ensures
            r@ == self@,
    {
        let ghost all = self@->Arr_0;
        let r = Json::Arr(self.items);
        assert(r@->Arr_0 =~= all);
        r
    }
}

} // verus!
