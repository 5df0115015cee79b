//! The protocol's JSON value model, held as a plain recursive datatype.
//!
//! Objects are kept as ordered key/value vectors. Key uniqueness is not a
//! structural invariant here; the schema layer decides what it needs.

use vstd::prelude::*;

verus! {

/// A JSON value as the protocol carries it. Numbers are integers: the
/// request shapes this server handles (schemas, argument maps, message
/// lists) use no fractional numbers.
#[derive(Debug, PartialEq, Eq)]
pub enum Json {
    Null,
    Bool(bool),
    Int(i64),
    Str(String),
    Arr(Vec<Json>),
    Obj(Vec<(String, Json)>),
}

/// The mathematical shape of a JSON value, used by every contract that
/// speaks about JSON.
#[verifier::ext_equal]
pub enum JsonV {
    Null,
    Bool(bool),
    Int(int),
    Str(Seq<char>),
    Arr(Seq<JsonV>),
    Obj(Seq<(Seq<char>, JsonV)>),
}

impl Json {
    pub open spec fn v(self) -> JsonV
        decreases self,
        via Self::v_decreases
    {
        match self {
            Json::Null => JsonV::Null,
            Json::Bool(b) => JsonV::Bool(b),
            Json::Int(n) => JsonV::Int(n as int),
            Json::Str(s) => JsonV::Str(s@),
            Json::Arr(items) => JsonV::Arr(
                Seq::new(
                    items@.len(),
                    |i: int|
                        if 0 <= i < items@.len() {
                            items@[i].v()
                        } else {
                            JsonV::Null
                        },
                ),
            ),
            Json::Obj(fields) => JsonV::Obj(
                Seq::new(
                    fields@.len(),
                    |i: int|
                        if 0 <= i < fields@.len() {
                            (fields@[i].0@, fields@[i].1.v())
                        } else {
                            (Seq::empty(), JsonV::Null)
                        },
                ),
            ),
        }
    }

    #[via_fn]
    proof fn v_decreases(self) {
        match self {
            Json::Arr(items) => {
                assert forall|i: int| 0 <= i < items@.len() implies (decreases_to!(
                    self => items@[i],
                )) by {
                    assert(decreases_to!(self => self->Arr_0));
                    assert(decreases_to!(self->Arr_0 => self->Arr_0@));
                }
            },
            Json::Obj(fields) => {
                assert forall|i: int| 0 <= i < fields@.len() implies (decreases_to!(
                    self => fields@[i].1,
                )) by {
                    assert(decreases_to!(self => self->Obj_0));
                    assert(decreases_to!(self->Obj_0 => self->Obj_0@));
                    assert(decreases_to!(fields@[i] => fields@[i].1));
                }
            },
            _ => {},
        }
    }
}

impl View for Json {
    type V = JsonV;

    open spec fn view(&self) -> JsonV {
        self.v()
    }
}

/// Deep copy of a JSON value.
#[verifier::loop_isolation(false)]
pub fn copy_json(j: &Json) -> (r: Json)
    ensures
        r@ == j@,
    decreases *j,
{
    match j {
        Json::Null => Json::Null,
        Json::Bool(b) => Json::Bool(*b),
        Json::Int(n) => Json::Int(*n),
        Json::Str(s) => Json::Str(s.clone()),
        Json::Arr(items) => {
            let mut out: Vec<Json> = Vec::new();
            let mut i: usize = 0;
            while i < items.len()
                invariant
                    i <= items@.len(),
                    out@.len() == i,
                    forall|k: int| 0 <= k < i ==> #[trigger] out@[k].v() == items@[k].v(),
                decreases items@.len() - i,
            {
                proof {
                    assert(decreases_to!(*j => j->Arr_0));
                    assert(decreases_to!(j->Arr_0 => j->Arr_0@));
                    assert(decreases_to!(items@ => items@[i as int]));
                }
                out.push(copy_json(&items[i]));
                i = i + 1;
            }
            let r = Json::Arr(out);
            proof {
                assert forall|k: int| 0 <= k < out@.len() implies r@->Arr_0[k] == j@->Arr_0[k] by {
                    assert(r@->Arr_0[k] == out@[k].v());
                    assert(j@->Arr_0[k] == items@[k].v());
                }
                assert(r@->Arr_0 =~= j@->Arr_0);
                assert(r@ == j@);
            }
            r
        },
        Json::Obj(fields) => {
            let mut out: Vec<(String, Json)> = Vec::new();
            let mut i: usize = 0;
            while i < fields.len()
                invariant
                    i <= fields@.len(),
                    out@.len() == i,
                    forall|k: int|
                        0 <= k < i ==> (#[trigger] out@[k]).0@ == fields@[k].0@ && out@[k].1.v()
                            == fields@[k].1.v(),
                decreases fields@.len() - i,
            {
                proof {
                    assert(decreases_to!(*j => j->Obj_0));
                    assert(decreases_to!(j->Obj_0 => j->Obj_0@));
                    assert(decreases_to!(fields@ => fields@[i as int]));
                }
                let (k, v) = &fields[i];
                out.push((k.clone(), copy_json(v)));
                i = i + 1;
            }
            let r = Json::Obj(out);
            proof {
                assert forall|k: int| 0 <= k < out@.len() implies r@->Obj_0[k] == j@->Obj_0[k] by {
                    assert(r@->Obj_0[k] == (out@[k].0@, out@[k].1.v()));
                    assert(j@->Obj_0[k] == (fields@[k].0@, fields@[k].1.v()));
                }
                assert(r@->Obj_0 =~= j@->Obj_0);
                assert(r@ == j@);
            }
            r
        },
    }
}

/// Whether a string equals a literal, settled at the view level.
pub fn text_eq(a: &String, b: &str) -> (r: bool)
    ensures
        r == (a@ == b@),
{
    let t = String::from_str(b);
    *a == t
}

/// The view of an object's field list.
pub open spec fn obj_fields_v(fields: Seq<(String, Json)>) -> Seq<(Seq<char>, JsonV)> {
    Seq::new(
        fields.len(),
        |i: int|
            if 0 <= i < fields.len() {
                (fields[i].0@, fields[i].1.v())
            } else {
                (Seq::empty(), JsonV::Null)
            },
    )
}

/// The view of an array's item list.
pub open spec fn arr_items_v(items: Seq<Json>) -> Seq<JsonV> {
    Seq::new(
        items.len(),
        |i: int|
            if 0 <= i < items.len() {
                items[i].v()
            } else {
                JsonV::Null
            },
    )
}

/// The value under `key` in an object's field list: the first occurrence
/// wins, as it does for the unique-key maps the wire format carries.
pub open spec fn obj_lookup_v(fields: Seq<(Seq<char>, JsonV)>, key: Seq<char>) -> Option<JsonV>
    decreases fields.len(),
{
    if fields.len() == 0 {
        None
    } else if fields[0].0 == key {
        Some(fields[0].1)
    } else {
        obj_lookup_v(fields.drop_first(), key)
    }
}

/// A lookup skips any prefix that does not carry the key.
pub proof fn lemma_obj_lookup_skip(fields: Seq<(Seq<char>, JsonV)>, key: Seq<char>, i: int)
    requires
        0 <= i <= fields.len(),
        forall|k: int| 0 <= k < i ==> (#[trigger] fields[k]).0 != key,
    ensures
        obj_lookup_v(fields, key) == obj_lookup_v(fields.skip(i), key),
    decreases i,
{
    if i > 0 {
        lemma_obj_lookup_skip(fields, key, i - 1);
        assert(fields.skip(i - 1)[0] == fields[i - 1]);
        assert(fields.skip(i - 1).drop_first() =~= fields.skip(i));
    } else {
        assert(fields.skip(0) =~= fields);
    }
}

/// Looks a key up in an object's field list.
#[verifier::loop_isolation(false)]
pub fn obj_get<'a>(fields: &'a Vec<(String, Json)>, key: &str) -> (r: Option<&'a Json>)
    ensures
        match r {
            Some(v) => obj_lookup_v(obj_fields_v(fields@), key@) == Some(v@),
            None => obj_lookup_v(obj_fields_v(fields@), key@) is None,
        },
{
    let ghost s = obj_fields_v(fields@);
    let mut i: usize = 0;
    while i < fields.len()
        invariant
            i <= fields@.len(),
            forall|k: int| 0 <= k < i ==> (#[trigger] s[k]).0 != key@,
        decreases fields@.len() - i,
    {
        if text_eq(&fields[i].0, key) {
            proof {
                lemma_obj_lookup_skip(s, key@, i as int);
                assert(s.skip(i as int)[0] == s[i as int]);
            }
            return Some(&fields[i].1);
        }
        i = i + 1;
    }
    proof {
        lemma_obj_lookup_skip(s, key@, s.len() as int);
        assert(s.skip(s.len() as int) =~= Seq::<(Seq<char>, JsonV)>::empty());
    }
    None
}

} // verus!
