//! The marshalling boundary between the protocol's JSON value model and
//! the host interpreter's native value model. Host values reach this
//! module as plain data the embedding reads out of the interpreter while
//! it holds the host lock; the conversions themselves are pure.
//!
//! A host symbol encodes as its name; a hash key must be a string or a
//! symbol, anything else fails marshalling. Decoding is total and yields
//! string-keyed hashes, so a round trip is exact precisely on the
//! JSON-representable host values.

use vstd::prelude::*;

use crate::error::McpError;
use crate::json::{Json, JsonV};

verus! {

/// A host-native value, as the embedding hands it over: nil, booleans,
/// integers, strings, symbols, arrays, and hashes with arbitrary keys.
#[derive(Debug, PartialEq, Eq)]
pub enum HostValue {
    Nil,
    Bool(bool),
    Int(i64),
    Str(String),
    Sym(String),
    Arr(Vec<HostValue>),
    Hash(Vec<(HostValue, HostValue)>),
}

/// The mathematical shape of a host value.
#[verifier::ext_equal]
pub enum HostValueV {
    Nil,
    Bool(bool),
    Int(int),
    Str(Seq<char>),
    Sym(Seq<char>),
    Arr(Seq<HostValueV>),
    Hash(Seq<(HostValueV, HostValueV)>),
}

impl HostValue {
    pub open spec fn v(self) -> HostValueV
        decreases self,
        via Self::v_decreases
    {
        match self {
            HostValue::Nil => HostValueV::Nil,
            HostValue::Bool(b) => HostValueV::Bool(b),
            HostValue::Int(n) => HostValueV::Int(n as int),
            HostValue::Str(s) => HostValueV::Str(s@),
            HostValue::Sym(s) => HostValueV::Sym(s@),
            HostValue::Arr(items) => HostValueV::Arr(
                Seq::new(
                    items@.len(),
                    |i: int|
                        if 0 <= i < items@.len() {
                            items@[i].v()
                        } else {
                            HostValueV::Nil
                        },
                ),
            ),
            HostValue::Hash(entries) => HostValueV::Hash(
                Seq::new(
                    entries@.len(),
                    |i: int|
                        if 0 <= i < entries@.len() {
                            (entries@[i].0.v(), entries@[i].1.v())
                        } else {
                            (HostValueV::Nil, HostValueV::Nil)
                        },
                ),
            ),
        }
    }

    #[via_fn]
    proof fn v_decreases(self) {
        match self {
            HostValue::Arr(items) => {
                assert forall|i: int| 0 <= i < items@.len() implies (decreases_to!(
                    self => items@[i],
                )) by {
                    assert(decreases_to!(self => self->Arr_0));
                    assert(decreases_to!(self->Arr_0 => self->Arr_0@));
                }
            },
            HostValue::Hash(entries) => {
                assert forall|i: int| 0 <= i < entries@.len() implies (decreases_to!(
                    self => entries@[i].0,
                ) && decreases_to!(self => entries@[i].1)) by {
                    assert(decreases_to!(self => self->Hash_0));
                    assert(decreases_to!(self->Hash_0 => self->Hash_0@));
                    assert(decreases_to!(entries@[i] => entries@[i].0));
                    assert(decreases_to!(entries@[i] => entries@[i].1));
                }
            },
            _ => {},
        }
    }
}

impl View for HostValue {
    type V = HostValueV;

    open spec fn view(&self) -> HostValueV {
        self.v()
    }
}

/// The view of a host array's item list.
pub open spec fn hv_items_v(items: Seq<HostValue>) -> Seq<HostValueV> {
    Seq::new(
        items.len(),
        |i: int|
            if 0 <= i < items.len() {
                items[i].v()
            } else {
                HostValueV::Nil
            },
    )
}

/// The view of a host hash's entry list.
pub open spec fn hv_entries_v(entries: Seq<(HostValue, HostValue)>) -> Seq<
    (HostValueV, HostValueV),
> {
    Seq::new(
        entries.len(),
        |i: int|
            if 0 <= i < entries.len() {
                (entries[i].0.v(), entries[i].1.v())
            } else {
                (HostValueV::Nil, HostValueV::Nil)
            },
    )
}

/// What encoding a host value as JSON yields, or the message of the
/// marshalling error.
pub open spec fn h2j(v: HostValueV) -> Result<JsonV, Seq<char>>
    decreases v,
    via h2j_decreases
{
    match v {
        HostValueV::Nil => Result::Ok(JsonV::Null),
        HostValueV::Bool(b) => Result::Ok(JsonV::Bool(b)),
        HostValueV::Int(n) => Result::Ok(JsonV::Int(n)),
        HostValueV::Str(s) => Result::Ok(JsonV::Str(s)),
        HostValueV::Sym(s) => Result::Ok(JsonV::Str(s)),
        HostValueV::Arr(items) => match h2j_items(items) {
            Result::Ok(js) => Result::Ok(JsonV::Arr(js)),
            Result::Err(e) => Result::Err(e),
        },
        HostValueV::Hash(entries) => match h2j_entries(entries) {
            Result::Ok(fs) => Result::Ok(JsonV::Obj(fs)),
            Result::Err(e) => Result::Err(e),
        },
    }
}

#[via_fn]
proof fn h2j_decreases(v: HostValueV) {
}

/// Encodes each item of a host array, stopping at the first failure.
pub open spec fn h2j_items(items: Seq<HostValueV>) -> Result<Seq<JsonV>, Seq<char>>
    decreases items,
    via h2j_items_decreases
{
    if items.len() == 0 {
        Result::Ok(Seq::empty())
    } else {
        match h2j(items[0]) {
            Result::Err(e) => Result::Err(e),
            Result::Ok(j) => match h2j_items(items.drop_first()) {
                Result::Err(e) => Result::Err(e),
                Result::Ok(rest) => Result::Ok(seq![j] + rest),
            },
        }
    }
}

#[via_fn]
proof fn h2j_items_decreases(items: Seq<HostValueV>) {
    if items.len() > 0 {
        assert(items.drop_first() =~= items.subrange(1, items.len() as int));
        assert(decreases_to!(items => items.subrange(1, items.len() as int)));
    }
}

/// Encodes each entry of a host hash: the key must be a string or a
/// symbol, the value must itself encode.
pub open spec fn h2j_entries(entries: Seq<(HostValueV, HostValueV)>) -> Result<
    Seq<(Seq<char>, JsonV)>,
    Seq<char>,
>
    decreases entries,
    via h2j_entries_decreases
{
    if entries.len() == 0 {
        Result::Ok(Seq::empty())
    } else {
        match key_text(entries[0].0) {
            Option::None => Result::Err("non-string key in hash"@),
            Option::Some(k) => match h2j(entries[0].1) {
                Result::Err(e) => Result::Err(e),
                Result::Ok(j) => match h2j_entries(entries.drop_first()) {
                    Result::Err(e) => Result::Err(e),
                    Result::Ok(rest) => Result::Ok(seq![(k, j)] + rest),
                },
            },
        }
    }
}

#[via_fn]
proof fn h2j_entries_decreases(entries: Seq<(HostValueV, HostValueV)>) {
    if entries.len() > 0 {
        assert(decreases_to!(entries => entries[0].1));
        assert(entries.drop_first() =~= entries.subrange(1, entries.len() as int));
        assert(decreases_to!(entries => entries.subrange(1, entries.len() as int)));
    }
}

/// The text a host hash key encodes to: a string's content or a symbol's
/// name; other keys do not encode.
pub open spec fn key_text(k: HostValueV) -> Option<Seq<char>> {
    match k {
        HostValueV::Str(s) => Option::Some(s),
        HostValueV::Sym(s) => Option::Some(s),
        _ => Option::None,
    }
}

/// What decoding a JSON value as a host value yields; decoding is total
/// and produces string-keyed hashes.
pub open spec fn j2h(v: JsonV) -> HostValueV
    decreases v,
    via j2h_decreases
{
    match v {
        JsonV::Null => HostValueV::Nil,
        JsonV::Bool(b) => HostValueV::Bool(b),
        JsonV::Int(n) => HostValueV::Int(n),
        JsonV::Str(s) => HostValueV::Str(s),
        JsonV::Arr(items) => HostValueV::Arr(
            Seq::new(
                items.len(),
                |i: int|
                    if 0 <= i < items.len() {
                        j2h(items[i])
                    } else {
                        HostValueV::Nil
                    },
            ),
        ),
        JsonV::Obj(fields) => HostValueV::Hash(
            Seq::new(
                fields.len(),
                |i: int|
                    if 0 <= i < fields.len() {
                        (HostValueV::Str(fields[i].0), j2h(fields[i].1))
                    } else {
                        (HostValueV::Nil, HostValueV::Nil)
                    },
            ),
        ),
    }
}

#[via_fn]
proof fn j2h_decreases(v: JsonV) {
    match v {
        JsonV::Arr(items) => {
            assert forall|i: int| 0 <= i < items.len() implies (decreases_to!(
                v => items[i],
            )) by {
                assert(decreases_to!(v => v->Arr_0));
            }
        },
        JsonV::Obj(fields) => {
            assert forall|i: int| 0 <= i < fields.len() implies (decreases_to!(
                v => fields[i].1,
            )) by {
                assert(decreases_to!(v => v->Obj_0));
                assert(decreases_to!(fields[i] => fields[i].1));
            }
        },
        _ => {},
    }
}

/// The valid prefix of an item list factors out of the encoding.
proof fn lemma_h2j_items_prefix(items: Seq<HostValueV>, i: int)
    requires
        0 <= i <= items.len(),
        forall|k: int| 0 <= k < i ==> h2j(#[trigger] items[k]) is Ok,
    ensures
        h2j_items(items) == match h2j_items(items.skip(i)) {
            Result::Err(e) => Result::<Seq<JsonV>, Seq<char>>::Err(e),
            Result::Ok(rest) => Result::Ok(
                Seq::new(i as nat, |k: int| h2j(items[k])->Ok_0) + rest,
            ),
        },
    decreases i,
{
    if i == 0 {
        assert(items.skip(0) =~= items);
        match h2j_items(items) {
            Result::Err(e) => {},
            Result::Ok(rest) => {
                assert(Seq::new(0, |k: int| h2j(items[k])->Ok_0) + rest =~= rest);
            },
        }
    } else {
        lemma_h2j_items_prefix(items, i - 1);
        let s1 = items.skip(i - 1);
        assert(s1[0] == items[i - 1]);
        assert(s1.drop_first() =~= items.skip(i));
        let p_prev = Seq::new((i - 1) as nat, |k: int| h2j(items[k])->Ok_0);
        let p_now = Seq::new(i as nat, |k: int| h2j(items[k])->Ok_0);
        match h2j_items(items.skip(i)) {
            Result::Err(e) => {},
            Result::Ok(rest) => {
                assert(p_prev + (seq![h2j(items[i - 1])->Ok_0] + rest) =~= p_now + rest);
            },
        }
    }
}

/// The valid prefix of an entry list factors out of the encoding.
proof fn lemma_h2j_entries_prefix(entries: Seq<(HostValueV, HostValueV)>, i: int)
    requires
        0 <= i <= entries.len(),
        forall|k: int|
            0 <= k < i ==> key_text((#[trigger] entries[k]).0) is Some && h2j(entries[k].1) is Ok,
    ensures
        h2j_entries(entries) == match h2j_entries(entries.skip(i)) {
            Result::Err(e) => Result::<Seq<(Seq<char>, JsonV)>, Seq<char>>::Err(e),
            Result::Ok(rest) => Result::Ok(
                Seq::new(
                    i as nat,
                    |k: int| (key_text(entries[k].0)->0, h2j(entries[k].1)->Ok_0),
                ) + rest,
            ),
        },
    decreases i,
{
    if i == 0 {
        assert(entries.skip(0) =~= entries);
        match h2j_entries(entries) {
            Result::Err(e) => {},
            Result::Ok(rest) => {
                assert(Seq::new(
                    0,
                    |k: int| (key_text(entries[k].0)->0, h2j(entries[k].1)->Ok_0),
                ) + rest =~= rest);
            },
        }
    } else {
        lemma_h2j_entries_prefix(entries, i - 1);
        let s1 = entries.skip(i - 1);
        assert(s1[0] == entries[i - 1]);
        assert(s1.drop_first() =~= entries.skip(i));
        let p_prev = Seq::new(
            (i - 1) as nat,
            |k: int| (key_text(entries[k].0)->0, h2j(entries[k].1)->Ok_0),
        );
        let p_now = Seq::new(
            i as nat,
            |k: int| (key_text(entries[k].0)->0, h2j(entries[k].1)->Ok_0),
        );
        match h2j_entries(entries.skip(i)) {
            Result::Err(e) => {},
            Result::Ok(rest) => {
                assert(p_prev + (seq![
                    (key_text(entries[i - 1].0)->0, h2j(entries[i - 1].1)->Ok_0),
                ] + rest) =~= p_now + rest);
            },
        }
    }
}

/// Encodes a host value as JSON. Must only be handed values the embedding
/// read under the host lock; the conversion itself is pure. Fails with a
/// marshalling error on a hash key that is neither a string nor a symbol.
#[verifier::loop_isolation(false)]
pub fn host_value_to_json(h: &HostValue) -> (r: Result<Json, McpError>)
    ensures
        match r {
            Result::Ok(j) => h2j(h@) is Ok && j@ == h2j(h@)->Ok_0,
            Result::Err(e) => h2j(h@) is Err && e is Marshal && e->Marshal_0@ == h2j(h@)->Err_0,
        },
    decreases *h,
{
    match h {
        HostValue::Nil => Ok(Json::Null),
        HostValue::Bool(b) => Ok(Json::Bool(*b)),
        HostValue::Int(n) => Ok(Json::Int(*n)),
        HostValue::Str(s) => Ok(Json::Str(s.clone())),
        HostValue::Sym(s) => Ok(Json::Str(s.clone())),
        HostValue::Arr(items) => {
            let ghost t = hv_items_v(items@);
            proof {
                assert(h@->Arr_0 =~= t);
            }
            let mut out: Vec<Json> = Vec::new();
            let mut i: usize = 0;
            while i < items.len()
                invariant
                    i <= items@.len(),
                    out@.len() == i,
                    forall|k: int| 0 <= k < i ==> h2j(#[trigger] t[k]) is Ok,
                    forall|k: int| 0 <= k < i ==> #[trigger] out@[k].v() == h2j(t[k])->Ok_0,
                decreases items@.len() - i,
            {
                proof {
                    assert(decreases_to!(*h => h->Arr_0));
                    assert(decreases_to!(h->Arr_0 => h->Arr_0@));
                    assert(decreases_to!(items@ => items@[i as int]));
                }
                match host_value_to_json(&items[i]) {
                    Ok(j) => {
                        out.push(j);
                    },
                    Err(e) => {
                        proof {
                            lemma_h2j_items_prefix(t, i as int);
                            assert(t.skip(i as int)[0] == t[i as int]);
                        }
                        return Err(e);
                    },
                }
                i = i + 1;
            }
            let r = Json::Arr(out);
            proof {
                lemma_h2j_items_prefix(t, t.len() as int);
                assert(t.skip(t.len() as int) =~= Seq::<HostValueV>::empty());
                let enc = Seq::new(t.len(), |k: int| h2j(t[k])->Ok_0);
                assert(enc + Seq::<JsonV>::empty() =~= enc);
                assert forall|k: int| 0 <= k < t.len() implies r@->Arr_0[k] == enc[k] by {
                    assert(r@->Arr_0[k] == out@[k].v());
                }
                assert(r@->Arr_0 =~= enc);
            }
            Ok(r)
        },
        HostValue::Hash(entries) => {
            let ghost t = hv_entries_v(entries@);
            proof {
                assert(h@->Hash_0 =~= t);
            }
            let mut out: Vec<(String, Json)> = Vec::new();
            let mut i: usize = 0;
            while i < entries.len()
                invariant
                    i <= entries@.len(),
                    out@.len() == i,
                    forall|k: int|
                        0 <= k < i ==> key_text((#[trigger] t[k]).0) is Some && h2j(t[k].1) is Ok,
                    forall|k: int|
                        0 <= k < i ==> (#[trigger] out@[k]).0@ == key_text(t[k].0)->0
                            && out@[k].1.v() == h2j(t[k].1)->Ok_0,
                decreases entries@.len() - i,
            {
                let key = match &entries[i].0 {
                    HostValue::Str(s) => s.clone(),
                    HostValue::Sym(s) => s.clone(),
                    _ => {
                        proof {
                            lemma_h2j_entries_prefix(t, i as int);
                            assert(t.skip(i as int)[0] == t[i as int]);
                        }
                        return Err(McpError::Marshal(String::from_str("non-string key in hash")));
                    },
                };
                proof {
                    assert(decreases_to!(*h => h->Hash_0));
                    assert(decreases_to!(h->Hash_0 => h->Hash_0@));
                    assert(decreases_to!(entries@ => entries@[i as int]));
                    assert(decreases_to!(entries@[i as int] => entries@[i as int].1));
                }
                match host_value_to_json(&entries[i].1) {
                    Ok(j) => {
                        out.push((key, j));
                    },
                    Err(e) => {
                        proof {
                            lemma_h2j_entries_prefix(t, i as int);
                            assert(t.skip(i as int)[0] == t[i as int]);
                        }
                        return Err(e);
                    },
                }
                i = i + 1;
            }
            let r = Json::Obj(out);
            proof {
                lemma_h2j_entries_prefix(t, t.len() as int);
                assert(t.skip(t.len() as int) =~= Seq::<(HostValueV, HostValueV)>::empty());
                let enc = Seq::new(t.len(), |k: int| (key_text(t[k].0)->0, h2j(t[k].1)->Ok_0));
                assert(enc + Seq::<(Seq<char>, JsonV)>::empty() =~= enc);
                assert forall|k: int| 0 <= k < t.len() implies r@->Obj_0[k] == enc[k] by {
                    assert(r@->Obj_0[k] == (out@[k].0@, out@[k].1.v()));
                }
                assert(r@->Obj_0 =~= enc);
            }
            Ok(r)
        },
    }
}

/// Decodes a JSON value as a host value; total, and every hash it builds
/// is string-keyed.
#[verifier::loop_isolation(false)]
pub fn json_to_host_value(j: &Json) -> (r: HostValue)
    ensures
        r@ == j2h(j@),
    decreases *j,
{
    match j {
        Json::Null => HostValue::Nil,
        Json::Bool(b) => HostValue::Bool(*b),
        Json::Int(n) => HostValue::Int(*n),
        Json::Str(s) => HostValue::Str(s.clone()),
        Json::Arr(items) => {
            let mut out: Vec<HostValue> = Vec::new();
            let mut i: usize = 0;
            while i < items.len()
                invariant
                    i <= items@.len(),
                    out@.len() == i,
                    forall|k: int| 0 <= k < i ==> #[trigger] out@[k].v() == j2h(items@[k].v()),
                decreases items@.len() - i,
            {
                proof {
                    assert(decreases_to!(*j => j->Arr_0));
                    assert(decreases_to!(j->Arr_0 => j->Arr_0@));
                    assert(decreases_to!(items@ => items@[i as int]));
                }
                out.push(json_to_host_value(&items[i]));
                i = i + 1;
            }
            let r = HostValue::Arr(out);
            proof {
                assert forall|k: int| 0 <= k < out@.len() implies r@->Arr_0[k] == j2h(j@)->Arr_0[k]
                    by {
                    assert(r@->Arr_0[k] == out@[k].v());
                    assert(j@->Arr_0[k] == items@[k].v());
                }
                assert(r@->Arr_0 =~= j2h(j@)->Arr_0);
                assert(r@ == j2h(j@));
            }
            r
        },
        Json::Obj(fields) => {
            let mut out: Vec<(HostValue, HostValue)> = Vec::new();
            let mut i: usize = 0;
            while i < fields.len()
                invariant
                    i <= fields@.len(),
                    out@.len() == i,
                    forall|k: int|
                        0 <= k < i ==> (#[trigger] out@[k]).0.v() == HostValueV::Str(
                            fields@[k].0@,
                        ) && out@[k].1.v() == j2h(fields@[k].1.v()),
                decreases fields@.len() - i,
            {
                proof {
                    assert(decreases_to!(*j => j->Obj_0));
                    assert(decreases_to!(j->Obj_0 => j->Obj_0@));
                    assert(decreases_to!(fields@ => fields@[i as int]));
                }
                let (k, v) = &fields[i];
                out.push((HostValue::Str(k.clone()), json_to_host_value(v)));
                i = i + 1;
            }
            let r = HostValue::Hash(out);
            proof {
                assert forall|k: int| 0 <= k < out@.len() implies r@->Hash_0[k] == j2h(
                    j@,
                )->Hash_0[k] by {
                    assert(r@->Hash_0[k] == (out@[k].0.v(), out@[k].1.v()));
                    assert(j@->Obj_0[k] == (fields@[k].0@, fields@[k].1.v()));
                }
                assert(r@->Hash_0 =~= j2h(j@)->Hash_0);
                assert(r@ == j2h(j@));
            }
            r
        },
    }
}

/// Whether a host value is JSON-representable: no symbols anywhere, and
/// every hash key is a string.
pub open spec fn json_representable(v: HostValueV) -> bool
    decreases v,
    via json_representable_decreases
{
    match v {
        HostValueV::Nil => true,
        HostValueV::Bool(_) => true,
        HostValueV::Int(_) => true,
        HostValueV::Str(_) => true,
        HostValueV::Sym(_) => false,
        HostValueV::Arr(items) => rep_items(items),
        HostValueV::Hash(entries) => rep_entries(entries),
    }
}

#[via_fn]
proof fn json_representable_decreases(v: HostValueV) {
}

/// Whether each item of an array is JSON-representable.
pub open spec fn rep_items(items: Seq<HostValueV>) -> bool
    decreases items,
    via rep_items_decreases
{
    if items.len() == 0 {
        true
    } else {
        json_representable(items[0]) && rep_items(items.drop_first())
    }
}

#[via_fn]
proof fn rep_items_decreases(items: Seq<HostValueV>) {
    if items.len() > 0 {
        assert(items.drop_first() =~= items.subrange(1, items.len() as int));
        assert(decreases_to!(items => items.subrange(1, items.len() as int)));
    }
}

/// Whether each entry of a hash has a string key and a representable value.
pub open spec fn rep_entries(entries: Seq<(HostValueV, HostValueV)>) -> bool
    decreases entries,
    via rep_entries_decreases
{
    if entries.len() == 0 {
        true
    } else {
        entries[0].0 is Str && json_representable(entries[0].1) && rep_entries(
            entries.drop_first(),
        )
    }
}

#[via_fn]
proof fn rep_entries_decreases(entries: Seq<(HostValueV, HostValueV)>) {
    if entries.len() > 0 {
        assert(decreases_to!(entries => entries[0].1));
        assert(entries.drop_first() =~= entries.subrange(1, entries.len() as int));
        assert(decreases_to!(entries => entries.subrange(1, entries.len() as int)));
    }
}

/// Encoding a list whose items each encode to known values yields those
/// values.
proof fn lemma_h2j_items_elementwise(hs: Seq<HostValueV>, js: Seq<JsonV>)
    requires
        hs.len() == js.len(),
        forall|i: int| 0 <= i < hs.len() ==> h2j(#[trigger] hs[i]) == Result::<
            JsonV,
            Seq<char>,
        >::Ok(js[i]),
    ensures
        h2j_items(hs) == Result::<Seq<JsonV>, Seq<char>>::Ok(js),
    decreases hs.len(),
{
    if hs.len() == 0 {
        assert(js =~= Seq::<JsonV>::empty());
    } else {
        assert forall|i: int| 0 <= i < hs.drop_first().len() implies h2j(
            #[trigger] hs.drop_first()[i],
        ) == Result::<JsonV, Seq<char>>::Ok(js.drop_first()[i]) by {
            assert(hs.drop_first()[i] == hs[i + 1]);
            assert(js.drop_first()[i] == js[i + 1]);
        }
        lemma_h2j_items_elementwise(hs.drop_first(), js.drop_first());
        assert(seq![js[0]] + js.drop_first() =~= js);
    }
}

/// Encoding an entry list whose keys are strings and whose values each
/// encode to known values yields those fields.
proof fn lemma_h2j_entries_elementwise(es: Seq<(HostValueV, HostValueV)>, fs: Seq<(Seq<char>, JsonV)>)
    requires
        es.len() == fs.len(),
        forall|i: int|
            0 <= i < es.len() ==> (#[trigger] es[i]).0 == HostValueV::Str(fs[i].0) && h2j(es[i].1)
                == Result::<JsonV, Seq<char>>::Ok(fs[i].1),
    ensures
        h2j_entries(es) == Result::<Seq<(Seq<char>, JsonV)>, Seq<char>>::Ok(fs),
    decreases es.len(),
{
    if es.len() == 0 {
        assert(fs =~= Seq::<(Seq<char>, JsonV)>::empty());
    } else {
        assert forall|i: int| 0 <= i < es.drop_first().len() implies (#[trigger] es.drop_first()[
            i
        ]).0 == HostValueV::Str(fs.drop_first()[i].0) && h2j(es.drop_first()[i].1) == Result::<
            JsonV,
            Seq<char>,
        >::Ok(fs.drop_first()[i].1) by {
            assert(es.drop_first()[i] == es[i + 1]);
            assert(fs.drop_first()[i] == fs[i + 1]);
        }
        lemma_h2j_entries_elementwise(es.drop_first(), fs.drop_first());
        assert(key_text(es[0].0) == Option::Some(fs[0].0));
        assert(seq![fs[0]] + fs.drop_first() =~= fs);
    }
}

/// Marshalling round trip, decode first: decoding any JSON value as a
/// host value and encoding it again gives the value back exactly.
pub proof fn lemma_decode_round_trip(v: JsonV)
    ensures
        h2j(j2h(v)) == Result::<JsonV, Seq<char>>::Ok(v),
    decreases v,
{
    match v {
        JsonV::Arr(items) => {
            let hs = j2h(v)->Arr_0;
            assert forall|i: int| 0 <= i < hs.len() implies h2j(#[trigger] hs[i]) == Result::<
                JsonV,
                Seq<char>,
            >::Ok(items[i]) by {
                assert(decreases_to!(v => v->Arr_0));
                assert(hs[i] == j2h(items[i]));
                lemma_decode_round_trip(items[i]);
            }
            lemma_h2j_items_elementwise(hs, items);
        },
        JsonV::Obj(fields) => {
            let es = j2h(v)->Hash_0;
            assert forall|i: int| 0 <= i < es.len() implies (#[trigger] es[i]).0
                == HostValueV::Str(fields[i].0) && h2j(es[i].1) == Result::<JsonV, Seq<char>>::Ok(
                fields[i].1,
            ) by {
                assert(decreases_to!(v => v->Obj_0));
                assert(decreases_to!(fields[i] => fields[i].1));
                assert(es[i] == (HostValueV::Str(fields[i].0), j2h(fields[i].1)));
                lemma_decode_round_trip(fields[i].1);
            }
            lemma_h2j_entries_elementwise(es, fields);
        },
        _ => {},
    }
}

/// Marshalling round trip: encoding a JSON-representable host value
/// succeeds, and decoding the encoding gives the value back exactly.
pub proof fn lemma_marshal_round_trip(v: HostValueV)
    requires
        json_representable(v),
    ensures
        h2j(v) is Ok,
        j2h(h2j(v)->Ok_0) == v,
    decreases v,
{
    match v {
        HostValueV::Arr(items) => {
            lemma_items_round_trip(items);
            let js = h2j_items(items)->Ok_0;
            assert(j2h(JsonV::Arr(js))->Arr_0 =~= items);
            assert(j2h(h2j(v)->Ok_0) == v);
        },
        HostValueV::Hash(entries) => {
            lemma_entries_round_trip(entries);
            let fs = h2j_entries(entries)->Ok_0;
            assert(j2h(JsonV::Obj(fs))->Hash_0 =~= entries);
            assert(j2h(h2j(v)->Ok_0) == v);
        },
        _ => {},
    }
}

/// Round trip of an array's items: encoding succeeds and decoding each
/// encoded item gives the original item back, position by position.
proof fn lemma_items_round_trip(items: Seq<HostValueV>)
    requires
        rep_items(items),
    ensures
        h2j_items(items) is Ok,
        h2j_items(items)->Ok_0.len() == items.len(),
        forall|i: int|
            0 <= i < items.len() ==> j2h(#[trigger] h2j_items(items)->Ok_0[i]) == items[i],
    decreases items,
{
    if items.len() > 0 {
        assert(decreases_to!(items => items[0]));
        lemma_marshal_round_trip(items[0]);
        assert(items.drop_first() =~= items.subrange(1, items.len() as int));
        assert(decreases_to!(items => items.subrange(1, items.len() as int)));
        lemma_items_round_trip(items.drop_first());
        assert forall|i: int| 0 <= i < items.len() implies j2h(
            #[trigger] h2j_items(items)->Ok_0[i],
        ) == items[i] by {
            if i > 0 {
                assert(h2j_items(items)->Ok_0[i] == h2j_items(items.drop_first())->Ok_0[i - 1]);
                assert(items.drop_first()[i - 1] == items[i]);
            }
        }
    }
}

/// Round trip of a hash's entries.
proof fn lemma_entries_round_trip(entries: Seq<(HostValueV, HostValueV)>)
    requires
        rep_entries(entries),
    ensures
        h2j_entries(entries) is Ok,
        h2j_entries(entries)->Ok_0.len() == entries.len(),
        forall|i: int|
            0 <= i < entries.len() ==> (HostValueV::Str((#[trigger] h2j_entries(entries)->Ok_0[
                i
            ]).0), j2h(h2j_entries(entries)->Ok_0[i].1)) == entries[i],
    decreases entries,
{
    if entries.len() > 0 {
        assert(decreases_to!(entries => entries[0].1));
        lemma_marshal_round_trip(entries[0].1);
        assert(entries.drop_first() =~= entries.subrange(1, entries.len() as int));
        assert(decreases_to!(entries => entries.subrange(1, entries.len() as int)));
        lemma_entries_round_trip(entries.drop_first());
        assert forall|i: int| 0 <= i < entries.len() implies (
        HostValueV::Str((#[trigger] h2j_entries(entries)->Ok_0[i]).0),
        j2h(h2j_entries(entries)->Ok_0[i].1),
        ) == entries[i] by {
            if i > 0 {
                assert(h2j_entries(entries)->Ok_0[i] == h2j_entries(entries.drop_first())->Ok_0[i
                    - 1]);
                assert(entries.drop_first()[i - 1] == entries[i]);
            }
        }
    }
}

} // verus!
