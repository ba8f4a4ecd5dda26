//! The JSON-like document tree that schemas, raw inputs and resolution
//! results are made of, together with its mathematical model.

use vstd::prelude::*;

verus! {

broadcast use vstd::std_specs::vec::group_vec_axioms, vstd::seq::group_seq_axioms;

/// A JSON-like value owned by this library.
///
/// Numbers are carried as their literal text: the resolution engine never
/// does arithmetic on them, it only moves them around and compares them.
#[derive(Debug, PartialEq, Eq)]
pub enum JsonValue {
    Null,
    Bool(bool),
    Num(String),
    Str(String),
    Arr(Vec<JsonValue>),
    Obj(Vec<(String, JsonValue)>),
}

/// Mathematical model of a `JsonValue`: strings become `Seq<char>`,
/// vectors become `Seq`. Object entries keep their order.
pub enum SpecJson {
    Null,
    Bool(bool),
    Num(Seq<char>),
    Str(Seq<char>),
    Arr(Seq<SpecJson>),
    Obj(Seq<(Seq<char>, SpecJson)>),
}

pub open spec fn view_json(v: JsonValue) -> SpecJson
    decreases v,
{
    match v {
        JsonValue::Null => SpecJson::Null,
        JsonValue::Bool(b) => SpecJson::Bool(b),
        JsonValue::Num(s) => SpecJson::Num(s@),
        JsonValue::Str(s) => SpecJson::Str(s@),
        JsonValue::Arr(a) => SpecJson::Arr(view_json_seq(a@)),
        JsonValue::Obj(o) => SpecJson::Obj(view_json_entries(o@)),
    }
}

pub open spec fn view_json_seq(s: Seq<JsonValue>) -> Seq<SpecJson>
    decreases s,
{
    if s.len() == 0 {
        Seq::empty()
    } else {
        view_json_seq(s.drop_last()).push(view_json(s.last()))
    }
}

pub open spec fn view_json_entries(s: Seq<(String, JsonValue)>) -> Seq<(Seq<char>, SpecJson)>
    decreases s,
{
    if s.len() == 0 {
        Seq::empty()
    } else {
        view_json_entries(s.drop_last()).push((s.last().0@, view_json(s.last().1)))
    }
}

impl View for JsonValue {
    type V = SpecJson;

    open spec fn view(&self) -> SpecJson {
        view_json(*self)
    }
}

/// `view_json_seq` is the pointwise view of its argument.
pub proof fn lemma_view_json_seq(s: Seq<JsonValue>)
    ensures
        view_json_seq(s).len() == s.len(),
        forall|i: int| 0 <= i < s.len() ==> view_json_seq(s)[i] == view_json(s[i]),
    decreases s.len(),
{
    if s.len() > 0 {
        lemma_view_json_seq(s.drop_last());
    }
}

/// `view_json_entries` is the pointwise view of its argument.
pub proof fn lemma_view_json_entries(s: Seq<(String, JsonValue)>)
    ensures
        view_json_entries(s).len() == s.len(),
        forall|i: int| 0 <= i < s.len()
            ==> view_json_entries(s)[i] == (s[i].0@, view_json(s[i].1)),
    decreases s.len(),
{
    if s.len() > 0 {
        lemma_view_json_entries(s.drop_last());
    }
}

pub proof fn lemma_view_json_seq_push(s: Seq<JsonValue>, e: JsonValue)
    ensures
        view_json_seq(s.push(e)) == view_json_seq(s).push(view_json(e)),
{
    assert(s.push(e).drop_last() =~= s);
    assert(s.push(e).last() == e);
}

pub proof fn lemma_view_json_seq_update(s: Seq<JsonValue>, j: int, e: JsonValue)
    requires
        0 <= j < s.len(),
    ensures
        view_json_seq(s.update(j, e)) == view_json_seq(s).update(j, view_json(e)),
{
    lemma_view_json_seq(s);
    lemma_view_json_seq(s.update(j, e));
    assert(view_json_seq(s.update(j, e)) =~= view_json_seq(s).update(j, view_json(e)));
}

pub proof fn lemma_view_json_entries_push(s: Seq<(String, JsonValue)>, e: (String, JsonValue))
    ensures
        view_json_entries(s.push(e)) == view_json_entries(s).push((e.0@, view_json(e.1))),
{
    assert(s.push(e).drop_last() =~= s);
    assert(s.push(e).last() == e);
}

pub proof fn lemma_view_json_entries_update(s: Seq<(String, JsonValue)>, j: int, e: (String, JsonValue))
    requires
        0 <= j < s.len(),
    ensures
        view_json_entries(s.update(j, e)) == view_json_entries(s).update(j, (e.0@, view_json(e.1))),
{
    lemma_view_json_entries(s);
    lemma_view_json_entries(s.update(j, e));
    assert(view_json_entries(s.update(j, e)) =~= view_json_entries(s).update(j, (e.0@, view_json(e.1))));
}

/// Index of the first entry with key `k`, or -1 if no entry has it.
pub open spec fn obj_key_idx(o: Seq<(Seq<char>, SpecJson)>, k: Seq<char>) -> int
    decreases o.len(),
{
    if o.len() == 0 {
        -1
    } else if o[0].0 == k {
        0
    } else {
        let r = obj_key_idx(o.drop_first(), k);
        if r == -1 {
            -1
        } else {
            r + 1
        }
    }
}

pub open spec fn obj_has_key(o: Seq<(Seq<char>, SpecJson)>, k: Seq<char>) -> bool {
    exists|i: int| 0 <= i < o.len() && o[i].0 == k
}

/// `obj_key_idx` finds the first entry whose key is `k`, if any.
pub proof fn lemma_obj_key_idx(o: Seq<(Seq<char>, SpecJson)>, k: Seq<char>)
    ensures
        obj_has_key(o, k) <==> 0 <= obj_key_idx(o, k) < o.len(),
        !obj_has_key(o, k) ==> obj_key_idx(o, k) == -1,
        obj_has_key(o, k) ==> o[obj_key_idx(o, k)].0 == k,
        forall|j: int| 0 <= j < obj_key_idx(o, k) ==> o[j].0 != k,
    decreases o.len(),
{
    if o.len() > 0 && o[0].0 != k {
        let d = o.drop_first();
        lemma_obj_key_idx(d, k);
        if obj_has_key(o, k) {
            let i = choose|i: int| 0 <= i < o.len() && o[i].0 == k;
            assert(d[i - 1] == o[i]);
            assert(obj_has_key(d, k));
        }
        if obj_has_key(d, k) {
            let i = choose|i: int| 0 <= i < d.len() && d[i].0 == k;
            assert(o[i + 1].0 == k);
            assert(obj_has_key(o, k));
        }
        let r = obj_key_idx(d, k);
        if r != -1 {
            assert(o[r + 1] == d[r]);
            assert forall|j: int| 0 <= j < r + 1 implies o[j].0 != k by {
                if j > 0 {
                    assert(d[j - 1] == o[j]);
                }
            }
        }
    }
}

/// Replace the first entry with key `k` by `(k, v)`, or append `(k, v)`
/// if no entry has that key.
pub open spec fn obj_put(
    o: Seq<(Seq<char>, SpecJson)>,
    k: Seq<char>,
    v: SpecJson,
) -> Seq<(Seq<char>, SpecJson)> {
    let i = obj_key_idx(o, k);
    if i == -1 {
        o.push((k, v))
    } else {
        o.update(i, (k, v))
    }
}

/// Value at key `k` of a document, when the document is an object
/// holding that key.
pub open spec fn doc_get(d: SpecJson, k: Seq<char>) -> Option<SpecJson> {
    match d {
        SpecJson::Obj(o) => {
            let i = obj_key_idx(o, k);
            if i == -1 {
                None
            } else {
                Some(o[i].1)
            }
        },
        _ => None,
    }
}

/// Position of the first entry with key `key` among `entries`, reported
/// against the model of the entry list.
pub fn obj_find(entries: &Vec<(String, JsonValue)>, key: &String) -> (r: Option<usize>)
    ensures
        match r {
            Some(j) => obj_key_idx(view_json_entries(entries@), key@) == j as int
                && j < entries@.len(),
            None => obj_key_idx(view_json_entries(entries@), key@) == -1,
        },
{
    proof {
        lemma_view_json_entries(entries@);
        lemma_obj_key_idx(view_json_entries(entries@), key@);
    }
    let ghost o = view_json_entries(entries@);
    let mut i: usize = 0;
    while i < entries.len()
        invariant
            i <= entries@.len(),
            o == view_json_entries(entries@),
            o.len() == entries@.len(),
            forall|l: int| 0 <= l < entries@.len() ==> o[l] == (entries@[l].0@, view_json(entries@[l].1)),
            forall|l: int| 0 <= l < i ==> o[l].0 != key@,
            obj_has_key(o, key@) <==> 0 <= obj_key_idx(o, key@) < o.len(),
            !obj_has_key(o, key@) ==> obj_key_idx(o, key@) == -1,
            obj_has_key(o, key@) ==> o[obj_key_idx(o, key@)].0 == key@,
            forall|j: int| 0 <= j < obj_key_idx(o, key@) ==> o[j].0 != key@,
        decreases entries@.len() - i,
    {
        let ke = &entries[i].0;
        if ke.eq(key) {
            assert(o[i as int].0 == key@);
            assert(obj_has_key(o, key@));
            assert(obj_key_idx(o, key@) == i as int) by {
                let x = obj_key_idx(o, key@);
                assert(o[x].0 == key@);
                assert(o[i as int].0 == key@);
            }
            return Some(i);
        }
        i = i + 1;
    }
    assert(!obj_has_key(o, key@));
    None
}

/// Look a key up in a document; `None` unless the document is an object
/// with that key, as `serde_json::Value::get` behaves.
pub fn json_obj_get<'a>(doc: &'a JsonValue, key: &String) -> (r: Option<&'a JsonValue>)
    ensures
        match r {
            Some(v) => doc_get(doc@, key@) == Some(v@),
            None => doc_get(doc@, key@) is None,
        },
{
    match doc {
        JsonValue::Obj(entries) => {
            match obj_find(entries, key) {
                Some(j) => {
                    proof {
                        lemma_view_json_entries(entries@);
                    }
                    Some(&entries[j].1)
                },
                None => None,
            }
        },
        _ => None,
    }
}

impl Clone for JsonValue {
    /// A clone has the same model as the original.
    #[verifier::loop_isolation(false)]
    fn clone(&self) -> (r: Self)
        ensures
            r@ == self@,
        decreases *self,
    {
        match self {
            JsonValue::Null => JsonValue::Null,
            JsonValue::Bool(b) => JsonValue::Bool(*b),
            JsonValue::Num(s) => JsonValue::Num(s.clone()),
            JsonValue::Str(s) => JsonValue::Str(s.clone()),
            JsonValue::Arr(a) => {
                proof {
                    lemma_view_json_seq(a@);
                }
                let mut out: Vec<JsonValue> = Vec::new();
                let mut i: usize = 0;
                while i < a.len()
                    invariant
                        i <= a@.len(),
                        out@.len() == i,
                        forall|l: int| 0 <= l < a@.len()
                            ==> view_json_seq(a@)[l] == view_json(a@[l]),
                        view_json_seq(a@).len() == a@.len(),
                        forall|l: int| 0 <= l < i ==> view_json(out@[l]) == view_json(a@[l]),
                    decreases a@.len() - i,
                {
                    proof {
                        assert(decreases_to!(*a => a@));
                        assert(decreases_to!(a@ => a@[i as int]));
                    }
                    out.push(a[i].clone());
                    i = i + 1;
                }
                proof {
                    lemma_view_json_seq(out@);
                    assert(view_json_seq(out@) =~= view_json_seq(a@));
                }
                JsonValue::Arr(out)
            },
            JsonValue::Obj(o) => {
                proof {
                    lemma_view_json_entries(o@);
                }
                let mut out: Vec<(String, JsonValue)> = Vec::new();
                let mut i: usize = 0;
                while i < o.len()
                    invariant
                        i <= o@.len(),
                        out@.len() == i,
                        forall|l: int| 0 <= l < o@.len()
                            ==> view_json_entries(o@)[l] == (o@[l].0@, view_json(o@[l].1)),
                        view_json_entries(o@).len() == o@.len(),
                        forall|l: int| 0 <= l < i
                            ==> out@[l].0@ == o@[l].0@ && view_json(out@[l].1) == view_json(o@[l].1),
                    decreases o@.len() - i,
                {
                    proof {
                        assert(decreases_to!(*o => o@));
                        assert(decreases_to!(o@ => o@[i as int]));
                        assert(decreases_to!(o@[i as int] => o@[i as int].1));
                    }
                    let entry = &o[i];
                    out.push((entry.0.clone(), entry.1.clone()));
                    i = i + 1;
                }
                proof {
                    lemma_view_json_entries(out@);
                    assert(view_json_entries(out@) =~= view_json_entries(o@));
                }
                JsonValue::Obj(out)
            },
        }
    }
}

/// Structural equality of two documents: same shape, same texts, with
/// object keys in the same order.
#[verifier::loop_isolation(false)]
pub fn json_eq(a: &JsonValue, b: &JsonValue) -> (r: bool)
    ensures
        r <==> a@ == b@,
    decreases *a,
{
    match (a, b) {
        (JsonValue::Null, JsonValue::Null) => true,
        (JsonValue::Bool(x), JsonValue::Bool(y)) => *x == *y,
        (JsonValue::Num(x), JsonValue::Num(y)) => x.eq(y),
        (JsonValue::Str(x), JsonValue::Str(y)) => x.eq(y),
        (JsonValue::Arr(x), JsonValue::Arr(y)) => {
            proof {
                lemma_view_json_seq(x@);
                lemma_view_json_seq(y@);
            }
            if x.len() != y.len() {
                assert(view_json_seq(x@).len() != view_json_seq(y@).len());
                return false;
            }
            let mut i: usize = 0;
            while i < x.len()
                invariant
                    i <= x@.len(),
                    x@.len() == y@.len(),
                    view_json_seq(x@).len() == x@.len(),
                    view_json_seq(y@).len() == y@.len(),
                    forall|l: int| 0 <= l < x@.len() ==> view_json_seq(x@)[l] == view_json(x@[l]),
                    forall|l: int| 0 <= l < y@.len() ==> view_json_seq(y@)[l] == view_json(y@[l]),
                    forall|l: int| 0 <= l < i ==> view_json(x@[l]) == view_json(y@[l]),
                decreases x@.len() - i,
            {
                proof {
                    assert(decreases_to!(*x => x@));
                    assert(decreases_to!(x@ => x@[i as int]));
                }
                if !json_eq(&x[i], &y[i]) {
                    assert(view_json_seq(x@)[i as int] != view_json_seq(y@)[i as int]);
                    return false;
                }
                i = i + 1;
            }
            assert(view_json_seq(x@) =~= view_json_seq(y@));
            true
        },
        (JsonValue::Obj(x), JsonValue::Obj(y)) => {
            proof {
                lemma_view_json_entries(x@);
                lemma_view_json_entries(y@);
            }
            if x.len() != y.len() {
                assert(view_json_entries(x@).len() != view_json_entries(y@).len());
                return false;
            }
            let mut i: usize = 0;
            while i < x.len()
                invariant
                    i <= x@.len(),
                    x@.len() == y@.len(),
                    view_json_entries(x@).len() == x@.len(),
                    view_json_entries(y@).len() == y@.len(),
                    forall|l: int| 0 <= l < x@.len()
                        ==> view_json_entries(x@)[l] == (x@[l].0@, view_json(x@[l].1)),
                    forall|l: int| 0 <= l < y@.len()
                        ==> view_json_entries(y@)[l] == (y@[l].0@, view_json(y@[l].1)),
                    forall|l: int| 0 <= l < i ==> view_json_entries(x@)[l] == view_json_entries(y@)[l],
                decreases x@.len() - i,
            {
                if !x[i].0.eq(&y[i].0) {
                    assert(view_json_entries(x@)[i as int].0 != view_json_entries(y@)[i as int].0);
                    return false;
                }
                proof {
                    assert(decreases_to!(*x => x@));
                    assert(decreases_to!(x@ => x@[i as int]));
                    assert(decreases_to!(x@[i as int] => x@[i as int].1));
                }
                if !json_eq(&x[i].1, &y[i].1) {
                    assert(view_json_entries(x@)[i as int].1 != view_json_entries(y@)[i as int].1);
                    return false;
                }
                assert(view_json_entries(x@)[i as int] == view_json_entries(y@)[i as int]);
                i = i + 1;
            }
            assert(view_json_entries(x@) =~= view_json_entries(y@));
            true
        },
        _ => {
            false
        },
    }
}

} // verus!
