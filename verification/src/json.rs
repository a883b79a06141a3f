//! A self-contained JSON value model.
//!
//! Message payloads are opaque JSON; the interceptors reach into them by
//! key path. The model keeps integers exactly; any other JSON number is
//! carried through as its source text so that payloads round-trip losslessly.

use vstd::prelude::*;

verus! {

broadcast use vstd::std_specs::vec::group_vec_axioms;

/// A JSON value as the library holds it.
pub enum JsonValue {
    Null,
    Bool(bool),
    /// A JSON number representable as a signed 64-bit integer.
    Int(i64),
    /// Any other JSON number, kept verbatim as its source text.
    NumberLit(String),
    Str(String),
    Array(Vec<JsonValue>),
    Object(Vec<(String, JsonValue)>),
}

/// The mathematical value of a [`JsonValue`].
#[verifier::ext_equal]
pub enum JsonView {
    Null,
    Bool(bool),
    Int(int),
    NumberLit(Seq<char>),
    Str(Seq<char>),
    Array(Seq<JsonView>),
    Object(Seq<(Seq<char>, JsonView)>),
}

/// The abstraction from executable JSON values to their mathematical form.
pub open spec fn json_view(v: JsonValue) -> JsonView
    decreases v,
{
    match v {
        JsonValue::Null => JsonView::Null,
        JsonValue::Bool(b) => JsonView::Bool(b),
        JsonValue::Int(n) => JsonView::Int(n as int),
        JsonValue::NumberLit(s) => JsonView::NumberLit(s@),
        JsonValue::Str(s) => JsonView::Str(s@),
        JsonValue::Array(items) => JsonView::Array(
            Seq::new(items@.len(), |i: int| if 0 <= i < items@.len() {
                json_view(items@[i])
            } else {
                JsonView::Null
            }),
        ),
        JsonValue::Object(fields) => JsonView::Object(
            Seq::new(fields@.len(), |i: int| if 0 <= i < fields@.len() {
                (fields@[i].0@, json_view(fields@[i].1))
            } else {
                (Seq::empty(), JsonView::Null)
            }),
        ),
    }
}

impl View for JsonValue {
    type V = JsonView;

    open spec fn view(&self) -> JsonView {
        json_view(*self)
    }
}

/// First value bound to `key` in an object's field list, if any.
pub open spec fn obj_lookup(fields: Seq<(Seq<char>, JsonView)>, key: Seq<char>) -> Option<JsonView>
    decreases fields.len(),
{
    if fields.len() == 0 {
        None
    } else if fields[0].0 == key {
        Some(fields[0].1)
    } else {
        obj_lookup(fields.drop_first(), key)
    }
}

/// What `JsonValue::get` returns: a member lookup on objects, nothing else.
pub open spec fn json_get(v: JsonView, key: Seq<char>) -> Option<JsonView> {
    match v {
        JsonView::Object(fields) => obj_lookup(fields, key),
        _ => None,
    }
}

/// The field list with the first binding of `key` replaced by `v`, or with
/// `(key, v)` appended when `key` is absent.
pub open spec fn obj_set(fields: Seq<(Seq<char>, JsonView)>, key: Seq<char>, v: JsonView) -> Seq<
    (Seq<char>, JsonView),
>
    decreases fields.len(),
{
    if fields.len() == 0 {
        seq![(key, v)]
    } else if fields[0].0 == key {
        seq![(key, v)] + fields.drop_first()
    } else {
        seq![fields[0]] + obj_set(fields.drop_first(), key, v)
    }
}

/// What `JsonValue::set_field` does: a member update on objects, nothing else.
pub open spec fn json_set(o: JsonView, key: Seq<char>, v: JsonView) -> JsonView {
    match o {
        JsonView::Object(fields) => JsonView::Object(obj_set(fields, key, v)),
        _ => o,
    }
}

/// A lookup lands on the first binding of the key.
pub proof fn lemma_obj_lookup_at(fields: Seq<(Seq<char>, JsonView)>, key: Seq<char>, i: int)
    requires
        0 <= i < fields.len(),
        fields[i].0 == key,
        forall|j: int| 0 <= j < i ==> fields[j].0 != key,
    ensures
        obj_lookup(fields, key) == Some(fields[i].1),
    decreases fields.len(),
{
    if i > 0 {
        lemma_obj_lookup_at(fields.drop_first(), key, i - 1);
    }
}

/// A lookup of an absent key returns nothing.
pub proof fn lemma_obj_lookup_absent(fields: Seq<(Seq<char>, JsonView)>, key: Seq<char>)
    requires
        forall|j: int| 0 <= j < fields.len() ==> fields[j].0 != key,
    ensures
        obj_lookup(fields, key) is None,
    decreases fields.len(),
{
    if fields.len() > 0 {
        lemma_obj_lookup_absent(fields.drop_first(), key);
    }
}

/// An update lands on the first binding of the key.
pub proof fn lemma_obj_set_at(
    fields: Seq<(Seq<char>, JsonView)>,
    key: Seq<char>,
    v: JsonView,
    i: int,
)
    requires
        0 <= i < fields.len(),
        fields[i].0 == key,
        forall|j: int| 0 <= j < i ==> fields[j].0 != key,
    ensures
        obj_set(fields, key, v) =~= fields.update(i, (key, v)),
    decreases fields.len(),
{
    if i > 0 {
        lemma_obj_set_at(fields.drop_first(), key, v, i - 1);
        assert(obj_set(fields, key, v) =~= seq![fields[0]] + fields.drop_first().update(
            i - 1,
            (key, v),
        ));
    }
}

/// An update with an absent key appends the binding.
pub proof fn lemma_obj_set_absent(fields: Seq<(Seq<char>, JsonView)>, key: Seq<char>, v: JsonView)
    requires
        forall|j: int| 0 <= j < fields.len() ==> fields[j].0 != key,
    ensures
        obj_set(fields, key, v) =~= fields.push((key, v)),
    decreases fields.len(),
{
    if fields.len() > 0 {
        lemma_obj_set_absent(fields.drop_first(), key, v);
    }
}

/// Index of the first field bound to `key`.
fn find_key(fields: &Vec<(String, JsonValue)>, key: &str) -> (r: Option<usize>)
    ensures
        match r {
            Some(k) => k < fields@.len() && fields@[k as int].0@ == key@ && forall|j: int|
                0 <= j < k ==> fields@[j].0@ != key@,
            None => forall|j: int| 0 <= j < fields@.len() ==> fields@[j].0@ != key@,
        },
{
    let n = fields.len();
    let mut i: usize = 0;
    while i < n
        invariant
            n == fields@.len(),
            0 <= i <= n,
            forall|j: int| 0 <= j < i ==> fields@[j].0@ != key@,
        decreases n - i,
    {
        if crate::text::str_eq(fields[i].0.as_str(), key) {
            return Some(i);
        }
        i = i + 1;
    }
    None
}

impl JsonValue {
    /// The member bound to `key`, when this value is an object that has one.
    pub fn get<'a>(&'a self, key: &str) -> (r: Option<&'a JsonValue>)
        ensures
            match r {
                Some(v) => json_get(self@, key@) == Some(v@),
                None => json_get(self@, key@) is None,
            },
    {
        match self {
            JsonValue::Object(fields) => {
                let n = fields.len();
                let mut i: usize = 0;
                while i < n
                    invariant
                        n == fields@.len(),
                        0 <= i <= n,
                        forall|j: int| 0 <= j < i ==> fields@[j].0@ != key@,
                        self@ == json_view(JsonValue::Object(*fields)),
                    decreases n - i,
                {
                    if crate::text::str_eq(fields[i].0.as_str(), key) {
                        proof {
                            let fs = self@->Object_0;
                            assert(fs[i as int].0 == key@ && fs[i as int].1 == fields@[i as int].1@);
                            assert(forall|j: int| 0 <= j < i ==> fs[j].0 != key@);
                            lemma_obj_lookup_at(fs, key@, i as int);
                        }
                        return Some(&fields[i].1);
                    }
                    i = i + 1;
                }
                proof {
                    let fs = self@->Object_0;
                    assert(forall|j: int| 0 <= j < fs.len() ==> fs[j].0 != key@);
                    lemma_obj_lookup_absent(fs, key@);
                }
                None
            },
            _ => None,
        }
    }

    /// The string contents, when this value is a string.
    pub fn as_str<'a>(&'a self) -> (r: Option<&'a String>)
        ensures
            match r {
                Some(s) => self@ == JsonView::Str(s@),
                None => !(self@ is Str),
            },
    {
        match self {
            JsonValue::Str(s) => Some(s),
            _ => None,
        }
    }

    /// The elements, when this value is an array.
    pub fn as_array<'a>(&'a self) -> (r: Option<&'a Vec<JsonValue>>)
        ensures
            match r {
                Some(items) => self@ is Array && self@->Array_0.len() == items@.len() && forall|
                    i: int,
                |
                    0 <= i < items@.len() ==> self@->Array_0[i] == items@[i]@,
                None => !(self@ is Array),
            },
    {
        match self {
            JsonValue::Array(items) => Some(items),
            _ => None,
        }
    }

    /// The integer value, when this value is an integer.
    pub fn as_i64(&self) -> (r: Option<i64>)
        ensures
            match r {
                Some(n) => self@ == JsonView::Int(n as int),
                None => !(self@ is Int),
            },
    {
        match self {
            JsonValue::Int(n) => Some(*n),
            _ => None,
        }
    }

    /// Whether this value is JSON `null`.
    pub fn is_null(&self) -> (r: bool)
        ensures
            r == (self@ is Null),
    {
        matches!(self, JsonValue::Null)
    }

    /// A deep copy with the same mathematical value.
    pub fn dup(&self) -> (r: JsonValue)
        ensures
            r@ == self@,
        decreases self,
    {
        match self {
            JsonValue::Null => JsonValue::Null,
            JsonValue::Bool(b) => JsonValue::Bool(*b),
            JsonValue::Int(n) => JsonValue::Int(*n),
            JsonValue::NumberLit(s) => JsonValue::NumberLit(s.clone()),
            JsonValue::Str(s) => JsonValue::Str(s.clone()),
            JsonValue::Array(items) => {
                let n = items.len();
                let mut out: Vec<JsonValue> = Vec::new();
                let mut i: usize = 0;
                while i < n
                    invariant
                        *self == JsonValue::Array(*items),
                        n == items@.len(),
                        0 <= i <= n,
                        out@.len() == i,
                        forall|j: int| 0 <= j < i ==> out@[j]@ == items@[j]@,
                    decreases n - i,
                {
                    proof {
                        assert(decreases_to!(*self => self->Array_0));
                        assert(decreases_to!(*items => items@));
                        assert(decreases_to!(items@ => items@[i as int]));
                    }
                    out.push(items[i].dup());
                    i = i + 1;
                }
                let r = JsonValue::Array(out);
                proof {
                    assert(r@->Array_0 =~= self@->Array_0);
                }
                r
            },
            JsonValue::Object(fields) => {
                let n = fields.len();
                let mut out: Vec<(String, JsonValue)> = Vec::new();
                let mut i: usize = 0;
                while i < n
                    invariant
                        *self == JsonValue::Object(*fields),
                        n == fields@.len(),
                        0 <= i <= n,
                        out@.len() == i,
                        forall|j: int|
                            0 <= j < i ==> out@[j].0@ == fields@[j].0@ && out@[j].1@
                                == fields@[j].1@,
                    decreases n - i,
                {
                    proof {
                        assert(decreases_to!(*self => self->Object_0));
                        assert(decreases_to!(*fields => fields@));
                        assert(decreases_to!(fields@ => fields@[i as int]));
                    }
                    let k = fields[i].0.clone();
                    let v = fields[i].1.dup();
                    out.push((k, v));
                    i = i + 1;
                }
                let r = JsonValue::Object(out);
                proof {
                    assert(r@->Object_0 =~= self@->Object_0);
                }
                r
            },
        }
    }

    /// Replace the first binding of `key`, or append one, when this value is
    /// an object; leave any other value unchanged.
    pub fn set_field(&mut self, key: &str, value: JsonValue)
        ensures
            final(self)@ == json_set(old(self)@, key@, value@),
    {
        let ghost pre = self@;
        match self {
            JsonValue::Object(fields) => {
                let ghost fs = pre->Object_0;
                let found = find_key(fields, key);
                match found {
                    Some(k) => {
                        fields[k] = (crate::text::str_of(key), value);
                        proof {
                            lemma_obj_set_at(fs, key@, value@, k as int);
                            assert(json_view(JsonValue::Object(*fields))->Object_0 =~= obj_set(
                                fs,
                                key@,
                                value@,
                            ));
                        }
                    },
                    None => {
                        fields.push((crate::text::str_of(key), value));
                        proof {
                            lemma_obj_set_absent(fs, key@, value@);
                            assert(json_view(JsonValue::Object(*fields))->Object_0 =~= obj_set(
                                fs,
                                key@,
                                value@,
                            ));
                        }
                    },
                }
            },
            _ => {},
        }
    }

    /// A string value with the given characters.
    pub fn of_str(s: &str) -> (r: JsonValue)
        ensures
            r@ == JsonView::Str(s@),
    {
        JsonValue::Str(crate::text::str_of(s))
    }
}

} // verus!
