//! The document model: a tree of null, booleans, numbers, strings, arrays and objects.
use vstd::prelude::*;
use vstd::string::*;
use crate::number::Number;

verus! {

broadcast use vstd::std_specs::vec::group_vec_axioms;

/// What a document node is, as a mathematical value.
pub enum Json {
    Null,
    Bool(bool),
    Number(Number),
    Str(Seq<char>),
    Array(Seq<Json>),
    /// The keys of an object's entries, and their values, in the order of the entries.
    Object(Seq<Seq<char>>, Seq<Json>),
}

/// A node of a document.
///
/// An object is a list of entries; looking a key up finds its first entry.
#[derive(Debug)]
pub enum Value {
    Null,
    Bool(bool),
    Number(Number),
    String(String),
    Array(Vec<Value>),
    Object(Vec<(String, Value)>),
}

impl View for Value {
    type V = Json;

    open spec fn view(&self) -> Json
        decreases self,
    {
        match self {
            Value::Null => Json::Null,
            Value::Bool(b) => Json::Bool(*b),
            Value::Number(n) => Json::Number(*n),
            Value::String(s) => Json::Str(s@),
            Value::Array(xs) => Json::Array(
                Seq::new(
                    xs@.len(),
                    |i: int|
                        if 0 <= i < xs@.len() {
                            xs@[i].view()
                        } else {
                            Json::Null
                        },
                ),
            ),
            Value::Object(es) => Json::Object(
                Seq::new(es@.len(), |i: int| es@[i].0@),
                Seq::new(
                    es@.len(),
                    |i: int|
                        if 0 <= i < es@.len() {
                            es@[i].1.view()
                        } else {
                            Json::Null
                        },
                ),
            ),
        }
    }
}

/// `i` is the first entry whose key is `key`.
pub open spec fn is_first_key(keys: Seq<Seq<char>>, key: Seq<char>, i: int) -> bool {
    &&& 0 <= i < keys.len()
    &&& keys[i] == key
    &&& forall|k: int| 0 <= k < i ==> keys[k] != key
}

/// The value under `key` in an object: that of its first entry with that key, or null when
/// there is none or the node is not an object.
pub open spec fn json_field(j: Json, key: Seq<char>) -> Json {
    match j {
        Json::Object(keys, vals) => if exists|i: int| is_first_key(keys, key, i) {
            vals[choose|i: int| is_first_key(keys, key, i)]
        } else {
            Json::Null
        },
        _ => Json::Null,
    }
}

/// The number of elements of an array or entries of an object, or the length in UTF-8 bytes
/// of a string; none for other nodes.
pub open spec fn json_size(j: Json) -> Option<nat> {
    match j {
        Json::Str(s) => Some(vstd::utf8::encode_utf8(s).len()),
        Json::Array(xs) => Some(xs.len()),
        Json::Object(keys, _) => Some(keys.len()),
        _ => None,
    }
}

pub proof fn lemma_array_view(v: Value)
    requires
        v is Array,
    ensures
        v@ is Array,
        v@->Array_0.len() == v->Array_0@.len(),
        forall|j: int|
            0 <= j < v->Array_0@.len() ==> #[trigger] v@->Array_0[j] == v->Array_0@[j]@,
{
    reveal_with_fuel(<Value as View>::view, 2);
}

pub proof fn lemma_object_view(v: Value)
    requires
        v is Object,
    ensures
        v@ is Object,
        v@->Object_0.len() == v->Object_0@.len(),
        v@->Object_1.len() == v->Object_0@.len(),
        forall|j: int|
            0 <= j < v->Object_0@.len() ==> #[trigger] v@->Object_0[j] == v->Object_0@[j].0@,
        forall|j: int|
            0 <= j < v->Object_0@.len() ==> #[trigger] v@->Object_1[j] == v->Object_0@[j].1@,
{
    reveal_with_fuel(<Value as View>::view, 2);
}

/// Whether two strings hold the same characters.
pub fn same_text(a: &str, b: &str) -> (r: bool)
    ensures
        r == (a@ == b@),
{
    let n = a.unicode_len();
    if n != b.unicode_len() {
        return false;
    }
    let mut i: usize = 0;
    while i < n
        invariant
            n == a@.len(),
            n == b@.len(),
            i <= n,
            forall|k: int| 0 <= k < i ==> a@[k] == b@[k],
        decreases n - i,
    {
        if a.get_char(i) != b.get_char(i) {
            return false;
        }
        i += 1;
    }
    assert(a@ =~= b@);
    true
}


impl PartialEq for Value {
    fn eq(&self, other: &Value) -> (r: bool) {
        self.equals(other)
    }
}

impl vstd::std_specs::cmp::PartialEqSpecImpl for Value {
    open spec fn obeys_eq_spec() -> bool {
        true
    }

    open spec fn eq_spec(&self, other: &Value) -> bool {
        self@ == other@
    }
}

impl Clone for Value {
    fn clone(&self) -> Self {
        self.duplicate()
    }
}

impl Value {
    pub fn is_null(&self) -> (r: bool)
        ensures
            r == (self@ is Null),
    {
        matches!(self, Value::Null)
    }

    /// A copy of the node, with the same view.
    pub fn duplicate(&self) -> (r: Value)
        ensures
            r@ == self@,
        decreases self,
    {
        match self {
            Value::Null => Value::Null,
            Value::Bool(b) => Value::Bool(*b),
            Value::Number(n) => Value::Number(*n),
            Value::String(s) => Value::String(s.clone()),
            Value::Array(xs) => {
                let mut out: Vec<Value> = Vec::new();
                let mut i: usize = 0;
                while i < xs.len()
                    invariant
                        i <= xs.len(),
                        *self == Value::Array(*xs),
                        out@.len() == i,
                        forall|j: int| 0 <= j < i ==> #[trigger] out@[j]@ == xs@[j]@,
                    decreases xs.len() - i,
                {
                    proof {
                        assert(decreases_to!(*self => (*self)->Array_0));
                    }
                    let c = xs[i].duplicate();
                    out.push(c);
                    i += 1;
                }
                let r = Value::Array(out);
                proof {
                    lemma_array_view(r);
                    lemma_array_view(*self);
                    assert(r@->Array_0 =~= self@->Array_0);
                }
                r
            },
            Value::Object(es) => {
                let mut out: Vec<(String, Value)> = Vec::new();
                let mut i: usize = 0;
                while i < es.len()
                    invariant
                        i <= es.len(),
                        *self == Value::Object(*es),
                        out@.len() == i,
                        forall|j: int| 0 <= j < i ==> #[trigger] out@[j].0@ == es@[j].0@,
                        forall|j: int| 0 <= j < i ==> #[trigger] out@[j].1@ == es@[j].1@,
                    decreases es.len() - i,
                {
                    proof {
                        assert(decreases_to!(*self => (*self)->Object_0));
                        assert(decreases_to!(es@[i as int] => es@[i as int].1));
                    }
                    let c = es[i].1.duplicate();
                    out.push((es[i].0.clone(), c));
                    i += 1;
                }
                let r = Value::Object(out);
                proof {
                    lemma_object_view(r);
                    lemma_object_view(*self);
                    assert(r@->Object_0 =~= self@->Object_0);
                    assert(r@->Object_1 =~= self@->Object_1);
                }
                r
            },
        }
    }

    /// Whether two nodes are alike: same kind, and equal contents, entry by entry.
    pub fn equals(&self, other: &Value) -> (r: bool)
        ensures
            r == (self@ == other@),
        decreases self,
    {
        match (self, other) {
            (Value::Null, Value::Null) => true,
            (Value::Bool(a), Value::Bool(b)) => *a == *b,
            (Value::Number(a), Value::Number(b)) => *a == *b,
            (Value::String(a), Value::String(b)) => same_text(a.as_str(), b.as_str()),
            (Value::Array(xs), Value::Array(ys)) => {
                proof {
                    lemma_array_view(*self);
                    lemma_array_view(*other);
                }
                if xs.len() != ys.len() {
                    return false;
                }
                let mut i: usize = 0;
                while i < xs.len()
                    invariant
                        i <= xs.len(),
                        xs.len() == ys.len(),
                        *self == Value::Array(*xs),
                        *other == Value::Array(*ys),
                        forall|j: int| 0 <= j < i ==> #[trigger] xs@[j]@ == ys@[j]@,
                    decreases xs.len() - i,
                {
                    proof {
                        assert(decreases_to!(*self => (*self)->Array_0));
                    }
                    if !xs[i].equals(&ys[i]) {
                        proof {
                            lemma_array_view(*self);
                            lemma_array_view(*other);
                        }
                        assert(self@->Array_0[i as int] != other@->Array_0[i as int]);
                        return false;
                    }
                    i += 1;
                }
                proof {
                    lemma_array_view(*self);
                    lemma_array_view(*other);
                }
                assert(self@->Array_0 =~= other@->Array_0);
                true
            },
            (Value::Object(xs), Value::Object(ys)) => {
                proof {
                    lemma_object_view(*self);
                    lemma_object_view(*other);
                }
                if xs.len() != ys.len() {
                    return false;
                }
                let mut i: usize = 0;
                while i < xs.len()
                    invariant
                        i <= xs.len(),
                        xs.len() == ys.len(),
                        *self == Value::Object(*xs),
                        *other == Value::Object(*ys),
                        forall|j: int| 0 <= j < i ==> #[trigger] xs@[j].0@ == ys@[j].0@,
                        forall|j: int| 0 <= j < i ==> #[trigger] xs@[j].1@ == ys@[j].1@,
                    decreases xs.len() - i,
                {
                    proof {
                        assert(decreases_to!(*self => (*self)->Object_0));
                        assert(decreases_to!(xs@[i as int] => xs@[i as int].1));
                    }
                    if !same_text(xs[i].0.as_str(), ys[i].0.as_str()) {
                        proof {
                            lemma_object_view(*self);
                            lemma_object_view(*other);
                        }
                        assert(self@->Object_0[i as int] != other@->Object_0[i as int]);
                        return false;
                    }
                    if !xs[i].1.equals(&ys[i].1) {
                        proof {
                            lemma_object_view(*self);
                            lemma_object_view(*other);
                        }
                        assert(self@->Object_1[i as int] != other@->Object_1[i as int]);
                        return false;
                    }
                    i += 1;
                }
                proof {
                    lemma_object_view(*self);
                    lemma_object_view(*other);
                }
                assert(self@->Object_0 =~= other@->Object_0);
                assert(self@->Object_1 =~= other@->Object_1);
                true
            },
            _ => false,
        }
    }

    /// The node under `key`, when this node is an object that has an entry with that key.
    pub fn get(&self, key: &str) -> (r: Option<&Value>)
        ensures
            match r {
                Some(v) => v@ == json_field(self@, key@),
                None => json_field(self@, key@) is Null,
            },
    {
        match self {
            Value::Object(es) => {
                proof {
                    lemma_object_view(*self);
                }
                let mut i: usize = 0;
                while i < es.len()
                    invariant
                        i <= es.len(),
                        *self == Value::Object(*es),
                        self@ is Object,
                        self@->Object_0.len() == es@.len(),
                        forall|j: int| 0 <= j < es@.len() ==> #[trigger] self@->Object_0[j] == es@[j].0@,
                        forall|j: int| 0 <= j < es@.len() ==> #[trigger] self@->Object_1[j] == es@[j].1@,
                        forall|k: int| 0 <= k < i ==> self@->Object_0[k] != key@,
                    decreases es.len() - i,
                {
                    if same_text(es[i].0.as_str(), key) {
                        assert(is_first_key(self@->Object_0, key@, i as int));
                        return Some(&es[i].1);
                    }
                    i += 1;
                }
                assert(!exists|k: int| is_first_key(self@->Object_0, key@, k));
                None
            },
            _ => None,
        }
    }

    /// The size that length rules measure: see `json_size`.
    pub fn size(&self) -> (r: Option<usize>)
        ensures
            match r {
                Some(n) => json_size(self@) == Some(n as nat),
                None => json_size(self@) is None,
            },
    {
        match self {
            Value::String(s) => {
                let n = s.as_str().as_bytes().len();
                assert(self@ == Json::Str(s@));
                Some(n)
            },
            Value::Array(xs) => {
                proof {
                    lemma_array_view(*self);
                }
                Some(xs.len())
            },
            Value::Object(es) => {
                proof {
                    lemma_object_view(*self);
                }
                Some(es.len())
            },
            _ => None,
        }
    }
}

} // verus!
