//! A JSON document model: the values that the build reads from and writes
//! to manifests and configuration files.

use vstd::prelude::*;

verus! {

/// A JSON value. Numbers keep their text; object fields keep their order.
#[derive(Debug)]
pub enum Json {
    Null,
    Bool(bool),
    Number(String),
    Str(String),
    Array(Vec<Json>),
    Object(Vec<(String, Json)>),
}

/// The plain content of a JSON value.
pub enum JsonV {
    Null,
    Bool(bool),
    Number(Seq<char>),
    Str(Seq<char>),
    Array(Seq<JsonV>),
    Object(Seq<(Seq<char>, JsonV)>),
}

/// The plain content of a JSON value.
pub open spec fn json_view(j: Json) -> JsonV
    decreases j,
{
    match j {
        Json::Null => JsonV::Null,
        Json::Bool(b) => JsonV::Bool(b),
        Json::Number(n) => JsonV::Number(n@),
        Json::Str(s) => JsonV::Str(s@),
        Json::Array(v) => JsonV::Array(items_view(v@)),
        Json::Object(f) => JsonV::Object(fields_view(f@)),
    }
}

/// The plain content of array items.
pub open spec fn items_view(s: Seq<Json>) -> Seq<JsonV>
    decreases s,
{
    if s.len() == 0 {
        seq![]
    } else {
        items_view(s.subrange(0, s.len() - 1)).push(json_view(s[s.len() - 1]))
    }
}

/// The plain content of object fields.
pub open spec fn fields_view(s: Seq<(String, Json)>) -> Seq<(Seq<char>, JsonV)>
    decreases s,
{
    if s.len() == 0 {
        seq![]
    } else {
        fields_view(s.subrange(0, s.len() - 1)).push((s[s.len() - 1].0@, json_view(s[s.len() - 1].1)))
    }
}

impl View for Json {
    type V = JsonV;

    open spec fn view(&self) -> JsonV {
        json_view(*self)
    }
}

/// Each item's view is the view of the item.
pub proof fn lemma_items_view(s: Seq<Json>)
    ensures
        items_view(s).len() == s.len(),
        forall|i: int| 0 <= i < s.len() ==> #[trigger] items_view(s)[i] == json_view(s[i]),
    decreases s.len(),
{
    if s.len() > 0 {
        lemma_items_view(s.subrange(0, s.len() - 1));
    }
}

/// Each field's view is the view of the field.
pub proof fn lemma_fields_view(s: Seq<(String, Json)>)
    ensures
        fields_view(s).len() == s.len(),
        forall|i: int| 0 <= i < s.len() ==> #[trigger] fields_view(s)[i] == (s[i].0@, json_view(s[i].1)),
    decreases s.len(),
{
    if s.len() > 0 {
        lemma_fields_view(s.subrange(0, s.len() - 1));
    }
}

/// Pushing an item pushes its view.
pub proof fn lemma_items_push(s: Seq<Json>, x: Json)
    ensures
        items_view(s.push(x)) == items_view(s).push(json_view(x)),
{
    assert(s.push(x).subrange(0, s.len() as int) =~= s);
}

/// Item views are determined elementwise.
pub proof fn lemma_items_ext(s: Seq<Json>, t: Seq<JsonV>)
    requires
        s.len() == t.len(),
        forall|i: int| 0 <= i < s.len() ==> json_view(#[trigger] s[i]) == t[i],
    ensures
        items_view(s) == t,
{
    lemma_items_view(s);
    assert(items_view(s) =~= t);
}

/// Field views are determined elementwise.
pub proof fn lemma_fields_ext(s: Seq<(String, Json)>, t: Seq<(Seq<char>, JsonV)>)
    requires
        s.len() == t.len(),
        forall|i: int| 0 <= i < s.len() ==> (#[trigger] s[i].0@, json_view(s[i].1)) == t[i],
    ensures
        fields_view(s) == t,
{
    lemma_fields_view(s);
    assert(fields_view(s) =~= t);
}

/// A copy of a JSON value.
#[verifier::loop_isolation(false)]
pub fn json_clone(j: &Json) -> (r: Json)
    ensures
        r@ == j@,
    decreases j,
{
    match j {
        Json::Null => Json::Null,
        Json::Bool(b) => Json::Bool(*b),
        Json::Number(n) => Json::Number(n.clone()),
        Json::Str(s) => Json::Str(s.clone()),
        Json::Array(v) => {
            let mut out: Vec<Json> = Vec::new();
            let mut i: usize = 0;
            while i < v.len()
                invariant
                    i <= v.len(),
                    out@.len() == i,
                    forall|k: int| 0 <= k < i ==> json_view(#[trigger] out@[k]) == json_view(v@[k]),
                decreases v.len() - i,
            {
                assert(decreases_to!(*j => *v));
                assert(decreases_to!(*v => v@));
                assert(decreases_to!(v@ => v@[i as int]));
                let c = json_clone(&v[i]);
                out.push(c);
                i = i + 1;
            }
            proof {
                lemma_items_view(v@);
                lemma_items_ext(out@, items_view(v@));
            }
            Json::Array(out)
        },
        Json::Object(f) => {
            let mut out: Vec<(String, Json)> = Vec::new();
            let mut i: usize = 0;
            while i < f.len()
                invariant
                    i <= f.len(),
                    out@.len() == i,
                    forall|k: int| 0 <= k < i ==> (#[trigger] out@[k].0@, json_view(out@[k].1)) == (f@[k].0@, json_view(f@[k].1)),
                decreases f.len() - i,
            {
                assert(decreases_to!(*j => *f));
                assert(decreases_to!(*f => f@));
                assert(decreases_to!(f@ => f@[i as int]));
                assert(decreases_to!(f@[i as int] => f@[i as int].1));
                let c = json_clone(&f[i].1);
                out.push((f[i].0.clone(), c));
                i = i + 1;
            }
            proof {
                lemma_fields_view(f@);
                lemma_fields_ext(out@, fields_view(f@));
            }
            Json::Object(out)
        },
    }
}

/// The position of the first field named `key`, or the number of fields.
pub open spec fn field_index(fields: Seq<(Seq<char>, JsonV)>, key: Seq<char>) -> int
    decreases fields.len(),
{
    if fields.len() == 0 {
        0
    } else if fields[0].0 == key {
        0
    } else {
        1 + field_index(fields.drop_first(), key)
    }
}

/// `Value::get(key)`: the first field named `key` of an object.
pub open spec fn get_field(j: JsonV, key: Seq<char>) -> Option<JsonV> {
    match j {
        JsonV::Object(fs) => {
            let i = field_index(fs, key);
            if i < fs.len() {
                Some(fs[i].1)
            } else {
                None
            }
        },
        _ => None,
    }
}

/// `value[key] = v` on an object or on null (which becomes an object): the
/// first field named `key` takes the value, or a field is appended.
pub open spec fn set_field(j: JsonV, key: Seq<char>, v: JsonV) -> JsonV {
    match j {
        JsonV::Object(fs) => {
            let i = field_index(fs, key);
            if i < fs.len() {
                JsonV::Object(fs.update(i, (key, v)))
            } else {
                JsonV::Object(fs.push((key, v)))
            }
        },
        _ => JsonV::Object(seq![(key, v)]),
    }
}

/// Whether a value can take a field: an object or null.
pub open spec fn can_take_fields(j: JsonV) -> bool {
    j is Object || j is Null
}

/// The first field named `key` comes first among equal names.
pub proof fn lemma_field_index(fields: Seq<(Seq<char>, JsonV)>, key: Seq<char>)
    ensures
        0 <= field_index(fields, key) <= fields.len(),
        forall|k: int| 0 <= k < field_index(fields, key) ==> #[trigger] fields[k].0 != key,
        field_index(fields, key) < fields.len() ==> fields[field_index(fields, key)].0 == key,
    decreases fields.len(),
{
    if fields.len() > 0 && fields[0].0 != key {
        lemma_field_index(fields.drop_first(), key);
        assert forall|k: int| 0 <= k < field_index(fields, key) implies #[trigger] fields[k].0 != key by {
            if k > 0 {
                assert(fields[k] == fields.drop_first()[k - 1]);
            }
        }
    }
}

/// A position before which no field is named `key`, and at which the field
/// is named `key` (or which is the end), is the first field named `key`.
pub proof fn lemma_field_index_unique(fields: Seq<(Seq<char>, JsonV)>, key: Seq<char>, i: int)
    requires
        0 <= i <= fields.len(),
        forall|k: int| 0 <= k < i ==> #[trigger] fields[k].0 != key,
        i < fields.len() ==> fields[i].0 == key,
    ensures
        field_index(fields, key) == i,
    decreases fields.len(),
{
    if fields.len() > 0 && fields[0].0 != key {
        assert forall|k: int| 0 <= k < i - 1 implies #[trigger] fields.drop_first()[k].0 != key by {
            assert(fields.drop_first()[k] == fields[k + 1]);
        }
        lemma_field_index_unique(fields.drop_first(), key, i - 1);
    }
}

fn find_field(f: &Vec<(String, Json)>, key: &str) -> (r: usize)
    ensures
        r == field_index(fields_view(f@), key@),
{
    proof {
        lemma_fields_view(f@);
    }
    let kc = crate::text::to_chars(key);
    let mut i: usize = 0;
    while i < f.len()
        invariant
            i <= f.len(),
            kc@ == key@,
            fields_view(f@).len() == f@.len(),
            forall|k: int| 0 <= k < f@.len() ==> #[trigger] fields_view(f@)[k] == (f@[k].0@, json_view(f@[k].1)),
            forall|k: int| 0 <= k < i ==> #[trigger] fields_view(f@)[k].0 != key@,
        decreases f.len() - i,
    {
        let name = crate::text::to_chars(f[i].0.as_str());
        if crate::paths::chars_eq(&name, &kc) {
            proof {
                lemma_field_index_unique(fields_view(f@), key@, i as int);
            }
            return i;
        }
        i = i + 1;
    }
    proof {
        lemma_field_index_unique(fields_view(f@), key@, i as int);
    }
    i
}

/// `Value::get(key)`.
pub fn json_get<'a>(j: &'a Json, key: &str) -> (r: Option<&'a Json>)
    ensures
        match r {
            Some(v) => get_field(j@, key@) == Some(v@),
            None => get_field(j@, key@).is_none(),
        },
{
    match j {
        Json::Object(f) => {
            let i = find_field(f, key);
            proof {
                lemma_fields_view(f@);
            }
            if i < f.len() {
                Some(&f[i].1)
            } else {
                None
            }
        },
        _ => None,
    }
}

/// `value[key] = v` on an object or null.
pub fn json_set(j: Json, key: &str, v: Json) -> (r: Json)
    requires
        can_take_fields(j@),
    ensures
        r@ == set_field(j@, key@, v@),
{
    match j {
        Json::Object(f) => {
            let i = find_field(&f, key);
            let mut f = f;
            let ghost old_f = f@;
            proof {
                lemma_fields_view(old_f);
            }
            if i < f.len() {
                let _ = f.remove(i);
                f.insert(i, (String::from_str(key), v));
                proof {
                    lemma_fields_ext(f@, fields_view(old_f).update(i as int, (key@, v@)));
                }
            } else {
                f.push((String::from_str(key), v));
                proof {
                    lemma_fields_ext(f@, fields_view(old_f).push((key@, v@)));
                }
            }
            Json::Object(f)
        },
        _ => {
            let mut f: Vec<(String, Json)> = Vec::new();
            f.push((String::from_str(key), v));
            proof {
                lemma_fields_ext(f@, seq![(key@, v@)]);
            }
            Json::Object(f)
        },
    }
}

} // verus!
