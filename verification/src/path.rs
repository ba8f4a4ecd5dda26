//! The path-addressing algorithm that writes resolved values into the
//! growing result document.
//!
//! A path is a sequence of segment strings. A segment wrapped in square
//! brackets is an array directive: `[N]` targets the zero-based slot `N`,
//! `[+]` appends a slot, `[=]` targets the last slot (creating one when
//! the array is empty). Any other segment is an object key.

use vstd::prelude::*;

use crate::json::JsonValue;
use crate::json::SpecJson;
use crate::json::obj_has_key;
use crate::json::obj_key_idx;
use crate::json::obj_put;
use crate::json::view_json_entries;
use crate::json::view_json_seq;
use crate::json::lemma_view_json_entries;
use crate::json::lemma_view_json_entries_push;
use crate::json::lemma_view_json_entries_update;
use crate::json::lemma_view_json_seq;
use crate::json::lemma_view_json_seq_push;
use crate::json::lemma_view_json_seq_update;
use crate::json::lemma_obj_key_idx;
use crate::json::obj_find;

verus! {

broadcast use vstd::std_specs::vec::group_vec_axioms, vstd::seq::group_seq_axioms;

/// Arrays never grow past this many slots; a directive that would need a
/// larger array is silently dropped, bounding what a bad schema can force.
pub const MAX_ARRAY_SIZE: usize = 1024;

/// What a segment means when an array is being addressed.
pub enum SpecSeg {
    /// `[N]`: the zero-based slot `N`, with the full parsed number.
    Index(nat),
    /// `[+]`: append one slot.
    Append,
    /// `[=]`: the last slot.
    Last,
    /// Not a well-formed array directive.
    Other,
}

/// A segment wrapped in square brackets, whatever is between them.
pub open spec fn is_bracketed(s: Seq<char>) -> bool {
    s.len() >= 2 && s[0] == '[' && s[s.len() - 1] == ']'
}

pub open spec fn is_digit(c: char) -> bool {
    48 <= c as u32 <= 57
}

pub open spec fn digit_val(c: char) -> nat {
    (c as u32 - 48) as nat
}

pub open spec fn is_digits(s: Seq<char>) -> bool {
    s.len() > 0 && forall|i: int| 0 <= i < s.len() ==> is_digit(s[i])
}

/// The number written by a digit string, most significant digit first.
pub open spec fn digits_val(s: Seq<char>) -> nat
    decreases s.len(),
{
    if s.len() == 0 {
        0
    } else {
        digits_val(s.drop_last()) * 10 + digit_val(s.last())
    }
}

/// The digit part of an index directive: numbers may carry one leading
/// `+`, as `usize::from_str` accepts.
pub open spec fn seg_num_part(s: Seq<char>) -> Seq<char> {
    if s.len() > 0 && s[0] == '+' {
        s.drop_first()
    } else {
        s
    }
}

/// How the array-writing step reads one segment.
pub open spec fn classify_seg(s: Seq<char>) -> SpecSeg {
    if !is_bracketed(s) {
        SpecSeg::Other
    } else {
        let inner = s.subrange(1, s.len() - 1);
        if is_digits(seg_num_part(inner)) {
            SpecSeg::Index(digits_val(seg_num_part(inner)))
        } else if inner == seq!['+'] {
            SpecSeg::Append
        } else if inner == seq!['='] {
            SpecSeg::Last
        } else {
            SpecSeg::Other
        }
    }
}

/// Whether a segment string is bracket-wrapped; brackets decide between
/// creating an array or an object for a missing child.
pub fn seg_is_bracketed(s: &String) -> (r: bool)
    ensures
        r == is_bracketed(s@),
{
    let st = s.as_str();
    let n = st.unicode_len();
    if n < 2 {
        false
    } else {
        st.get_char(0) == '[' && st.get_char(n - 1) == ']'
    }
}

/// The executable reading of one segment. An `[N]` whose number is
/// `MAX_ARRAY_SIZE` or more is reported as `MAX_ARRAY_SIZE`: every such
/// index is dropped alike, so the exact number is not needed.
pub enum PathSeg {
    Index(usize),
    Append,
    Last,
    Other,
}

pub open spec fn seg_matches(r: PathSeg, s: SpecSeg) -> bool {
    match s {
        SpecSeg::Index(n) => r == (PathSeg::Index(
            if n >= MAX_ARRAY_SIZE as nat {
                MAX_ARRAY_SIZE
            } else {
                n as usize
            },
        )),
        SpecSeg::Append => r == PathSeg::Append,
        SpecSeg::Last => r == PathSeg::Last,
        SpecSeg::Other => r == PathSeg::Other,
    }
}

pub fn classify_seg_exec(s: &String) -> (r: PathSeg)
    ensures
        seg_matches(r, classify_seg(s@)),
{
    let st = s.as_str();
    let n = st.unicode_len();
    if n < 2 || st.get_char(0) != '[' || st.get_char(n - 1) != ']' {
        assert(!is_bracketed(s@));
        return PathSeg::Other;
    }
    assert(is_bracketed(s@));
    let ghost inner = s@.subrange(1, s@.len() - 1);
    // The digit part begins after a possible leading '+'.
    let start: usize = if st.get_char(1) == '+' {
        2
    } else {
        1
    };
    proof {
        assert(seg_num_part(inner) =~= s@.subrange(start as int, s@.len() - 1));
    }
    let ghost digits = s@.subrange(start as int, s@.len() - 1);
    if start < n - 1 {
        let mut i: usize = start;
        let mut acc: usize = 0;
        let mut ok: bool = true;
        while i < n - 1 && ok
            invariant
                start <= i <= n - 1,
                n == s@.len(),
                1 <= start <= 2,
                start < n,
                digits == s@.subrange(start as int, n - 1),
                ok ==> forall|l: int| start <= l < i ==> is_digit(s@[l]),
                !ok ==> !is_digits(digits),
                ok ==> acc == clamp_idx(digits_val(s@.subrange(start as int, i as int))),
            decreases n - i,
        {
            let c = st.get_char(i);
            let cu = c as u32;
            if 48 <= cu && cu <= 57 {
                let d = (cu - 48) as usize;
                let t = acc * 10 + d;
                let newacc = if t >= MAX_ARRAY_SIZE {
                    MAX_ARRAY_SIZE
                } else {
                    t
                };
                proof {
                    let p = s@.subrange(start as int, i as int);
                    let q = s@.subrange(start as int, (i + 1) as int);
                    assert(q.drop_last() =~= p);
                    assert(q.last() == s@[i as int]);
                    assert(digits_val(q) == digits_val(p) * 10 + digit_val(s@[i as int]));
                    lemma_clamp_step(digits_val(p), digit_val(s@[i as int]), acc as nat, d as nat);
                    assert(newacc == clamp_idx(digits_val(q)));
                }
                acc = newacc;
            } else {
                proof {
                    assert(digits[i - start] == s@[i as int]);
                    assert(!is_digit(digits[i - start]));
                }
                ok = false;
            }
            i = i + 1;
        }
        if ok {
            proof {
                assert(s@.subrange(start as int, i as int) =~= digits);
                assert forall|l: int| 0 <= l < digits.len() implies is_digit(digits[l]) by {
                    assert(digits[l] == s@[l + start]);
                }
                assert(is_digits(digits));
                assert(classify_seg(s@) == SpecSeg::Index(digits_val(digits)));
            }
            return PathSeg::Index(acc);
        }
        // Not a number; a multi-character remainder is no directive either.
        proof {
            assert(digits.len() >= 1);
            if start == 2 {
                assert(inner[0] == '+');
                assert(inner != seq!['+']) by {
                    assert(inner.len() >= 2);
                }
                assert(inner != seq!['=']) by {
                    assert(inner[0] == '+');
                }
            } else {
                assert(inner == digits);
                if inner == seq!['+'] {
                    assert(s@[1] == '+');
                    assert(false);
                }
                if inner == seq!['='] {
                    assert(!is_digit('='));
                    assert(!is_digits(inner));
                }
            }
        }
        if start == 1 && n == 3 && st.get_char(1) == '=' {
            proof {
                assert(inner =~= seq!['=']);
            }
            return PathSeg::Last;
        }
        proof {
            if start == 1 {
                if inner == seq!['='] {
                    assert(inner.len() == 1 && inner[0] == '=');
                    assert(s@[1] == '=');
                    assert(false);
                }
            }
            assert(classify_seg(s@) == SpecSeg::Other);
        }
        return PathSeg::Other;
    }
    // Empty digit part: "[]", "[+]" or "[=]"-like shapes.
    proof {
        assert(digits.len() == 0);
        assert(!is_digits(digits));
    }
    if start == 2 {
        proof {
            assert(inner.len() == 1 && inner[0] == '+');
            assert(inner =~= seq!['+']);
        }
        return PathSeg::Append;
    }
    proof {
        assert(inner.len() == 0);
        assert(inner != seq!['+'] && inner != seq!['=']);
        assert(classify_seg(s@) == SpecSeg::Other);
    }
    PathSeg::Other
}

/// An index capped at `MAX_ARRAY_SIZE`; every capped value is dropped
/// alike by the array-writing step.
pub open spec fn clamp_idx(n: nat) -> nat {
    if n >= MAX_ARRAY_SIZE as nat {
        MAX_ARRAY_SIZE as nat
    } else {
        n
    }
}

/// `a` grown with empty (`null`) slots until it has at least `n`.
pub open spec fn pad_to(a: Seq<SpecJson>, n: nat) -> Seq<SpecJson> {
    if a.len() >= n {
        a
    } else {
        a + Seq::new((n - a.len()) as nat, |i: int| SpecJson::Null)
    }
}

/// One output rule's write into an object: `path[0]` names the child,
/// the rest of the path addresses within it. An empty path writes nothing.
pub open spec fn spec_insert_map(
    m: Seq<(Seq<char>, SpecJson)>,
    path: Seq<Seq<char>>,
    value: SpecJson,
) -> Seq<(Seq<char>, SpecJson)>
    decreases path.len(), 0int,
{
    if path.len() == 0 {
        m
    } else {
        let part = path[0];
        let rest = path.skip(1);
        if rest.len() == 0 {
            obj_put(m, part, value)
        } else {
            let j = obj_key_idx(m, part);
            if j != -1 {
                match m[j].1 {
                    SpecJson::Arr(a) => m.update(j, (part, SpecJson::Arr(spec_insert_vec(a, rest, value)))),
                    SpecJson::Obj(o) => m.update(j, (part, SpecJson::Obj(spec_insert_map(o, rest, value)))),
                    _ => m,
                }
            } else {
                if is_bracketed(rest[0]) {
                    m.push((part, SpecJson::Arr(spec_insert_vec(Seq::empty(), rest, value))))
                } else {
                    m.push((part, SpecJson::Obj(spec_insert_map(Seq::empty(), rest, value))))
                }
            }
        }
    }
}

/// One output rule's write into an array: `path[0]` must be an array
/// directive, which picks (and may create) the target slot; anything
/// else leaves the array unchanged.
pub open spec fn spec_insert_vec(
    a: Seq<SpecJson>,
    path: Seq<Seq<char>>,
    value: SpecJson,
) -> Seq<SpecJson>
    decreases path.len(), 1int,
{
    if path.len() == 0 {
        a
    } else {
        let rest = path.skip(1);
        match classify_seg(path[0]) {
            SpecSeg::Index(n) => {
                if n >= MAX_ARRAY_SIZE as nat {
                    a
                } else {
                    spec_insert_at(pad_to(a, n + 1), n as int, rest, value)
                }
            },
            SpecSeg::Append => {
                if a.len() >= MAX_ARRAY_SIZE as nat {
                    a
                } else {
                    spec_insert_at(a.push(SpecJson::Null), a.len() as int, rest, value)
                }
            },
            SpecSeg::Last => {
                let a2 = if a.len() == 0 {
                    a.push(SpecJson::Null)
                } else {
                    a
                };
                spec_insert_at(a2, a2.len() - 1, rest, value)
            },
            SpecSeg::Other => a,
        }
    }
}

/// The write into slot `idx` of an array whose slot was just addressed:
/// a terminal path overwrites the slot; otherwise the write descends,
/// turning an empty slot into the container the next segment asks for.
pub open spec fn spec_insert_at(
    a: Seq<SpecJson>,
    idx: int,
    rest: Seq<Seq<char>>,
    value: SpecJson,
) -> Seq<SpecJson>
    decreases rest.len(), 2int,
{
    if rest.len() == 0 {
        a.update(idx, value)
    } else {
        match a[idx] {
            SpecJson::Obj(o) => a.update(idx, SpecJson::Obj(spec_insert_map(o, rest, value))),
            SpecJson::Arr(inner) => a.update(idx, SpecJson::Arr(spec_insert_vec(inner, rest, value))),
            SpecJson::Null => {
                if is_bracketed(rest[0]) {
                    a.update(idx, SpecJson::Arr(spec_insert_vec(Seq::empty(), rest, value)))
                } else {
                    a.update(idx, SpecJson::Obj(spec_insert_map(Seq::empty(), rest, value)))
                }
            },
            _ => a,
        }
    }
}

fn insert_map_rec(m: Vec<(String, JsonValue)>, path: &Vec<String>, i: usize, value: JsonValue) -> (r: Vec<(String, JsonValue)>)
    requires
        i < path@.len(),
    ensures
        view_json_entries(r@) == spec_insert_map(
            view_json_entries(m@),
            path.deep_view().skip(i as int),
            value@,
        ),
    decreases path@.len() - i, 0int,
{
    let ghost pv = path.deep_view().skip(i as int);
    let ghost m0 = view_json_entries(m@);
    proof {
        lemma_view_json_entries(m@);
        assert(pv[0] == path@[i as int]@);
        lemma_obj_key_idx(m0, path@[i as int]@);
    }
    let ghost rest = pv.skip(1);
    proof {
        assert(rest =~= path.deep_view().skip((i + 1) as int));
    }
    let mut m = m;
    let plen = path.len();
    let part: &String = &path[i];
    if i + 1 == plen {
        // Terminal segment: assign at this key.
        match obj_find(&m, part) {
            Some(j) => {
                let ghost oldm = m@;
                let e0 = m.remove(j);
                m.insert(j, (e0.0, value));
                proof {
                    assert(m@ =~= oldm.update(j as int, (oldm[j as int].0, value)));
                    lemma_view_json_entries_update(oldm, j as int, (oldm[j as int].0, value));
                    assert(m0[j as int].0 == pv[0]);
                    assert(view_json_entries(m@) =~= obj_put(m0, pv[0], value@));
                }
            },
            None => {
                let ghost oldm = m@;
                m.push((part.clone(), value));
                proof {
                    lemma_view_json_entries_push(oldm, (*part, value));
                    assert(view_json_entries(m@) =~= obj_put(m0, pv[0], value@));
                }
            },
        }
        return m;
    }
    match obj_find(&m, part) {
        Some(j) => {
            let ghost oldm = m@;
            let e0 = m.remove(j);
            match e0.1 {
                JsonValue::Arr(inner) => {
                    let ghost iv = view_json_seq(inner@);
                    let new_inner = insert_vec_rec(inner, path, i + 1, value);
                    m.insert(j, (e0.0, JsonValue::Arr(new_inner)));
                    proof {
                        assert(m@ =~= oldm.update(
                            j as int,
                            (oldm[j as int].0, JsonValue::Arr(new_inner)),
                        ));
                        lemma_view_json_entries_update(
                            oldm,
                            j as int,
                            (oldm[j as int].0, JsonValue::Arr(new_inner)),
                        );
                        assert(m0[j as int].1 == SpecJson::Arr(iv));
                        assert(view_json_entries(m@) =~= m0.update(
                            j as int,
                            (pv[0], SpecJson::Arr(spec_insert_vec(iv, rest, value@))),
                        ));
                    }
                },
                JsonValue::Obj(o) => {
                    let ghost ov = view_json_entries(o@);
                    let new_o = insert_map_rec(o, path, i + 1, value);
                    m.insert(j, (e0.0, JsonValue::Obj(new_o)));
                    proof {
                        assert(m@ =~= oldm.update(
                            j as int,
                            (oldm[j as int].0, JsonValue::Obj(new_o)),
                        ));
                        lemma_view_json_entries_update(
                            oldm,
                            j as int,
                            (oldm[j as int].0, JsonValue::Obj(new_o)),
                        );
                        assert(m0[j as int].1 == SpecJson::Obj(ov));
                        assert(view_json_entries(m@) =~= m0.update(
                            j as int,
                            (pv[0], SpecJson::Obj(spec_insert_map(ov, rest, value@))),
                        ));
                    }
                },
                other => {
                    // An inert child: the write is silently ignored.
                    m.insert(j, (e0.0, other));
                    proof {
                        assert(m@ =~= oldm);
                    }
                },
            }
        },
        None => {
            let ghost oldm = m@;
            if seg_is_bracketed(&path[i + 1]) {
                let new_inner = insert_vec_rec(Vec::new(), path, i + 1, value);
                m.push((part.clone(), JsonValue::Arr(new_inner)));
                proof {
                    lemma_view_json_entries_push(oldm, (*part, JsonValue::Arr(new_inner)));
                    assert(is_bracketed(rest[0]));
                    assert(view_json_seq(Seq::<JsonValue>::empty()) =~= Seq::<SpecJson>::empty());
                    assert(view_json_entries(m@) =~= m0.push(
                        (pv[0], SpecJson::Arr(spec_insert_vec(Seq::empty(), rest, value@))),
                    ));
                }
            } else {
                let new_o = insert_map_rec(Vec::new(), path, i + 1, value);
                m.push((part.clone(), JsonValue::Obj(new_o)));
                proof {
                    lemma_view_json_entries_push(oldm, (*part, JsonValue::Obj(new_o)));
                    assert(!is_bracketed(rest[0]));
                    assert(view_json_entries(Seq::<(String, JsonValue)>::empty())
                        =~= Seq::<(Seq<char>, SpecJson)>::empty());
                    assert(view_json_entries(m@) =~= m0.push(
                        (pv[0], SpecJson::Obj(spec_insert_map(Seq::empty(), rest, value@))),
                    ));
                }
            }
        },
    }
    m
}

fn insert_vec_rec(a: Vec<JsonValue>, path: &Vec<String>, i: usize, value: JsonValue) -> (r: Vec<JsonValue>)
    requires
        i < path@.len(),
    ensures
        view_json_seq(r@) == spec_insert_vec(
            view_json_seq(a@),
            path.deep_view().skip(i as int),
            value@,
        ),
    decreases path@.len() - i, 1int,
{
    let ghost pv = path.deep_view().skip(i as int);
    let ghost a0 = view_json_seq(a@);
    proof {
        lemma_view_json_seq(a@);
        assert(pv[0] == path@[i as int]@);
        assert(pv.skip(1) =~= path.deep_view().skip((i + 1) as int));
    }
    let ghost rest = pv.skip(1);
    let plen = path.len();
    let mut a = a;
    let seg = classify_seg_exec(&path[i]);
    let idx: usize;
    match seg {
        PathSeg::Other => {
            return a;
        },
        PathSeg::Index(n) => {
            if n >= MAX_ARRAY_SIZE {
                return a;
            }
            let ghost oldlen = a@.len();
            while a.len() < n + 1
                invariant
                    oldlen <= a@.len() <= n + 1 || (a@.len() == oldlen && a@.len() >= n + 1),
                    view_json_seq(a@).len() == a@.len(),
                    forall|l: int| 0 <= l < oldlen ==> view_json_seq(a@)[l] == a0[l],
                    forall|l: int| oldlen <= l < a@.len() ==> view_json_seq(a@)[l] == SpecJson::Null,
                decreases n + 1 - a@.len(),
            {
                proof {
                    lemma_view_json_seq_push(a@, JsonValue::Null);
                }
                a.push(JsonValue::Null);
            }
            proof {
                assert(view_json_seq(a@) =~= pad_to(a0, (n + 1) as nat));
            }
            idx = n;
        },
        PathSeg::Append => {
            if a.len() >= MAX_ARRAY_SIZE {
                return a;
            }
            proof {
                lemma_view_json_seq_push(a@, JsonValue::Null);
            }
            a.push(JsonValue::Null);
            idx = a.len() - 1;
        },
        PathSeg::Last => {
            if a.len() == 0 {
                proof {
                    lemma_view_json_seq_push(a@, JsonValue::Null);
                }
                a.push(JsonValue::Null);
            }
            idx = a.len() - 1;
        },
    }
    insert_at_rec(a, idx, path, i + 1, value)
}

fn insert_at_rec(a: Vec<JsonValue>, idx: usize, path: &Vec<String>, i: usize, value: JsonValue) -> (r: Vec<JsonValue>)
    requires
        idx < a@.len(),
        i <= path@.len(),
    ensures
        view_json_seq(r@) == spec_insert_at(
            view_json_seq(a@),
            idx as int,
            path.deep_view().skip(i as int),
            value@,
        ),
    decreases path@.len() - i, 2int,
{
    let ghost rest = path.deep_view().skip(i as int);
    let ghost a0 = view_json_seq(a@);
    let plen = path.len();
    proof {
        lemma_view_json_seq(a@);
        if i < path@.len() {
            assert(rest[0] == path@[i as int]@);
            assert(rest.skip(1) =~= path.deep_view().skip((i + 1) as int));
        }
    }
    let mut a = a;
    if i == plen {
        let ghost olda = a@;
        let removed = a.remove(idx);
        a.insert(idx, value);
        proof {
            assert(a@ =~= olda.update(idx as int, value));
            lemma_view_json_seq_update(olda, idx as int, value);
        }
        return a;
    }
    let ghost olda = a@;
    let cell = a.remove(idx);
    match cell {
        JsonValue::Obj(o) => {
            let ghost ov = view_json_entries(o@);
            let new_o = insert_map_rec(o, path, i, value);
            a.insert(idx, JsonValue::Obj(new_o));
            proof {
                assert(a@ =~= olda.update(idx as int, JsonValue::Obj(new_o)));
                lemma_view_json_seq_update(olda, idx as int, JsonValue::Obj(new_o));
                assert(a0[idx as int] == SpecJson::Obj(ov));
                assert(view_json_seq(a@) =~= a0.update(
                    idx as int,
                    SpecJson::Obj(spec_insert_map(ov, rest, value@)),
                ));
            }
        },
        JsonValue::Arr(inner) => {
            let ghost iv = view_json_seq(inner@);
            let new_inner = insert_vec_rec(inner, path, i, value);
            a.insert(idx, JsonValue::Arr(new_inner));
            proof {
                assert(a@ =~= olda.update(idx as int, JsonValue::Arr(new_inner)));
                lemma_view_json_seq_update(olda, idx as int, JsonValue::Arr(new_inner));
                assert(a0[idx as int] == SpecJson::Arr(iv));
                assert(view_json_seq(a@) =~= a0.update(
                    idx as int,
                    SpecJson::Arr(spec_insert_vec(iv, rest, value@)),
                ));
            }
        },
        JsonValue::Null => {
            // An empty slot becomes whichever container the next segment
            // asks for.
            if seg_is_bracketed(&path[i]) {
                let new_inner = insert_vec_rec(Vec::new(), path, i, value);
                a.insert(idx, JsonValue::Arr(new_inner));
                proof {
                    assert(a@ =~= olda.update(idx as int, JsonValue::Arr(new_inner)));
                    lemma_view_json_seq_update(olda, idx as int, JsonValue::Arr(new_inner));
                    assert(a0[idx as int] == SpecJson::Null);
                    assert(view_json_seq(Seq::<JsonValue>::empty()) =~= Seq::<SpecJson>::empty());
                    assert(view_json_seq(a@) =~= a0.update(
                        idx as int,
                        SpecJson::Arr(spec_insert_vec(Seq::empty(), rest, value@)),
                    ));
                }
            } else {
                let new_o = insert_map_rec(Vec::new(), path, i, value);
                a.insert(idx, JsonValue::Obj(new_o));
                proof {
                    assert(a@ =~= olda.update(idx as int, JsonValue::Obj(new_o)));
                    lemma_view_json_seq_update(olda, idx as int, JsonValue::Obj(new_o));
                    assert(a0[idx as int] == SpecJson::Null);
                    assert(view_json_entries(Seq::<(String, JsonValue)>::empty())
                        =~= Seq::<(Seq<char>, SpecJson)>::empty());
                    assert(view_json_seq(a@) =~= a0.update(
                        idx as int,
                        SpecJson::Obj(spec_insert_map(Seq::empty(), rest, value@)),
                    ));
                }
            }
        },
        other => {
            a.insert(idx, other);
            proof {
                assert(a@ =~= olda);
            }
        },
    }
    a
}

/// Merge `value` into the result document at `path`, with full
/// array-directive support; the heart of the path writer.
pub fn insert_into_map_ex(map: &mut Vec<(String, JsonValue)>, path: &Vec<String>, value: JsonValue)
    ensures
        view_json_entries(final(map)@) == spec_insert_map(
            view_json_entries(old(map)@),
            path.deep_view(),
            value@,
        ),
{
    if path.len() == 0 {
        return;
    }
    let mut tmp: Vec<(String, JsonValue)> = Vec::new();
    core::mem::swap(map, &mut tmp);
    let r = insert_map_rec(tmp, path, 0, value);
    *map = r;
    proof {
        assert(path.deep_view().skip(0) =~= path.deep_view());
    }
}

/// The plain insertion: every segment is an object key, intermediate
/// objects are created as needed. No array directives.
pub open spec fn spec_plain_insert(
    m: Seq<(Seq<char>, SpecJson)>,
    path: Seq<Seq<char>>,
    value: SpecJson,
) -> Seq<(Seq<char>, SpecJson)>
    decreases path.len(),
{
    if path.len() == 0 {
        m
    } else if path.len() == 1 {
        obj_put(m, path[0], value)
    } else {
        let j = obj_key_idx(m, path[0]);
        if j == -1 {
            m.push((path[0], SpecJson::Obj(spec_plain_insert(Seq::empty(), path.skip(1), value))))
        } else {
            match m[j].1 {
                SpecJson::Obj(o) => m.update(
                    j,
                    (path[0], SpecJson::Obj(spec_plain_insert(o, path.skip(1), value))),
                ),
                _ => m,
            }
        }
    }
}

/// The plain insertion descends only through objects: a non-terminal
/// segment whose child exists and is not an object is out of its domain.
pub open spec fn plain_insert_ok(m: Seq<(Seq<char>, SpecJson)>, path: Seq<Seq<char>>) -> bool
    decreases path.len(),
{
    path.len() <= 1 || {
        let j = obj_key_idx(m, path[0]);
        if j == -1 {
            plain_insert_ok(Seq::empty(), path.skip(1))
        } else {
            match m[j].1 {
                SpecJson::Obj(o) => plain_insert_ok(o, path.skip(1)),
                _ => false,
            }
        }
    }
}

fn plain_insert_rec(m: Vec<(String, JsonValue)>, path: &Vec<String>, i: usize, value: JsonValue) -> (r: Vec<(String, JsonValue)>)
    requires
        i < path@.len(),
        plain_insert_ok(view_json_entries(m@), path.deep_view().skip(i as int)),
    ensures
        view_json_entries(r@) == spec_plain_insert(
            view_json_entries(m@),
            path.deep_view().skip(i as int),
            value@,
        ),
    decreases path@.len() - i,
{
    let ghost pv = path.deep_view().skip(i as int);
    let ghost m0 = view_json_entries(m@);
    proof {
        lemma_view_json_entries(m@);
        assert(pv[0] == path@[i as int]@);
        lemma_obj_key_idx(m0, path@[i as int]@);
        assert(pv.skip(1) =~= path.deep_view().skip((i + 1) as int));
    }
    let mut m = m;
    let plen = path.len();
    let part: &String = &path[i];
    if i + 1 == plen {
        match obj_find(&m, part) {
            Some(j) => {
                let ghost oldm = m@;
                let e0 = m.remove(j);
                m.insert(j, (e0.0, value));
                proof {
                    assert(m@ =~= oldm.update(j as int, (oldm[j as int].0, value)));
                    lemma_view_json_entries_update(oldm, j as int, (oldm[j as int].0, value));
                    assert(m0[j as int].0 == pv[0]);
                    assert(view_json_entries(m@) =~= obj_put(m0, pv[0], value@));
                }
            },
            None => {
                let ghost oldm = m@;
                m.push((part.clone(), value));
                proof {
                    lemma_view_json_entries_push(oldm, (*part, value));
                    assert(view_json_entries(m@) =~= obj_put(m0, pv[0], value@));
                }
            },
        }
        return m;
    }
    match obj_find(&m, part) {
        Some(j) => {
            let ghost oldm = m@;
            let e0 = m.remove(j);
            match e0.1 {
                JsonValue::Obj(o) => {
                    let ghost ov = view_json_entries(o@);
                    let new_o = plain_insert_rec(o, path, i + 1, value);
                    m.insert(j, (e0.0, JsonValue::Obj(new_o)));
                    proof {
                        assert(m@ =~= oldm.update(
                            j as int,
                            (oldm[j as int].0, JsonValue::Obj(new_o)),
                        ));
                        lemma_view_json_entries_update(
                            oldm,
                            j as int,
                            (oldm[j as int].0, JsonValue::Obj(new_o)),
                        );
                        assert(m0[j as int].1 == SpecJson::Obj(ov));
                        assert(view_json_entries(m@) =~= m0.update(
                            j as int,
                            (pv[0], SpecJson::Obj(spec_plain_insert(ov, pv.skip(1), value@))),
                        ));
                    }
                },
                _ => {
                    // Out of the stated domain.
                    proof {
                        assert(false);
                    }
                    m.insert(j, (e0.0, e0.1));
                },
            }
        },
        None => {
            let ghost oldm = m@;
            let new_o = plain_insert_rec(Vec::new(), path, i + 1, value);
            m.push((part.clone(), JsonValue::Obj(new_o)));
            proof {
                lemma_view_json_entries_push(oldm, (*part, JsonValue::Obj(new_o)));
                assert(view_json_entries(Seq::<(String, JsonValue)>::empty())
                    =~= Seq::<(Seq<char>, SpecJson)>::empty());
                assert(view_json_entries(m@) =~= m0.push(
                    (pv[0], SpecJson::Obj(spec_plain_insert(Seq::empty(), pv.skip(1), value@))),
                ));
            }
        },
    }
    m
}

/// Merge `value` into the document at `path`, creating intermediate
/// objects; every segment is taken as an object key.
pub fn insert_into_map(map: &mut Vec<(String, JsonValue)>, path: &Vec<String>, value: JsonValue)
    requires
        plain_insert_ok(view_json_entries(old(map)@), path.deep_view()),
    ensures
        view_json_entries(final(map)@) == spec_plain_insert(
            view_json_entries(old(map)@),
            path.deep_view(),
            value@,
        ),
{
    if path.len() == 0 {
        return;
    }
    let mut tmp: Vec<(String, JsonValue)> = Vec::new();
    core::mem::swap(map, &mut tmp);
    proof {
        assert(path.deep_view().skip(0) =~= path.deep_view());
    }
    let r = plain_insert_rec(tmp, path, 0, value);
    *map = r;
}

/// The result of writing each of `values` in turn at the same `path`,
/// in declaration order.
pub open spec fn spec_insert_all(
    m: Seq<(Seq<char>, SpecJson)>,
    path: Seq<Seq<char>>,
    values: Seq<SpecJson>,
) -> Seq<(Seq<char>, SpecJson)>
    decreases values.len(),
{
    if values.len() == 0 {
        m
    } else {
        spec_insert_all(spec_insert_map(m, path, values[0]), path, values.drop_first())
    }
}

/// Two entry lists with the same keys in the same places agree on where
/// any key first occurs.
pub proof fn lemma_obj_key_idx_same_keys(
    m1: Seq<(Seq<char>, SpecJson)>,
    m2: Seq<(Seq<char>, SpecJson)>,
    k: Seq<char>,
)
    requires
        m1.len() == m2.len(),
        forall|l: int| 0 <= l < m1.len() ==> m1[l].0 == m2[l].0,
    ensures
        obj_key_idx(m1, k) == obj_key_idx(m2, k),
{
    lemma_obj_key_idx(m1, k);
    lemma_obj_key_idx(m2, k);
    if obj_has_key(m1, k) {
        let i = choose|i: int| 0 <= i < m1.len() && m1[i].0 == k;
        assert(m2[i].0 == k);
        assert(obj_has_key(m2, k));
        let j1 = obj_key_idx(m1, k);
        let j2 = obj_key_idx(m2, k);
        assert(m2[j1].0 == k);
        assert(m1[j2].0 == k);
    } else {
        if obj_has_key(m2, k) {
            let i = choose|i: int| 0 <= i < m2.len() && m2[i].0 == k;
            assert(m1[i].0 == k);
        }
    }
}

/// An index directive at or past the array cap drops the write: when the
/// addressed child already exists as an array, the document is unchanged.
pub proof fn lemma_index_cap_noop(
    m: Seq<(Seq<char>, SpecJson)>,
    path: Seq<Seq<char>>,
    k: Seq<char>,
    a: Seq<SpecJson>,
    n: nat,
    value: SpecJson,
)
    requires
        path.len() >= 2,
        path[0] == k,
        classify_seg(path[1]) == SpecSeg::Index(n),
        n >= MAX_ARRAY_SIZE as nat,
        obj_has_key(m, k),
        m[obj_key_idx(m, k)] == (k, SpecJson::Arr(a)),
    ensures
        spec_insert_map(m, path, value) == m,
{
    lemma_obj_key_idx(m, k);
    let j = obj_key_idx(m, k);
    let rest = path.skip(1);
    assert(rest[0] == path[1]);
    assert(spec_insert_vec(a, rest, value) == a);
    assert(spec_insert_map(m, path, value) =~= m.update(j, (k, SpecJson::Arr(a))));
    assert(m.update(j, (k, SpecJson::Arr(a))) =~= m);
}

/// A terminal `[+]` appends the value to an array below the cap.
pub proof fn lemma_append_directive(a: Seq<SpecJson>, path: Seq<Seq<char>>, value: SpecJson)
    requires
        path.len() == 1,
        classify_seg(path[0]) == SpecSeg::Append,
        a.len() < MAX_ARRAY_SIZE as nat,
    ensures
        spec_insert_vec(a, path, value) == a.push(value),
{
    let rest = path.skip(1);
    assert(rest.len() == 0);
    assert(spec_insert_vec(a, path, value) =~= a.push(SpecJson::Null).update(a.len() as int, value));
    assert(a.push(SpecJson::Null).update(a.len() as int, value) =~= a.push(value));
}

/// A terminal `[=]` overwrites the last slot; on an empty array it
/// creates exactly one slot and writes there.
pub proof fn lemma_last_directive(a: Seq<SpecJson>, path: Seq<Seq<char>>, value: SpecJson)
    requires
        path.len() == 1,
        classify_seg(path[0]) == SpecSeg::Last,
    ensures
        a.len() == 0 ==> spec_insert_vec(a, path, value) == seq![value],
        a.len() > 0 ==> spec_insert_vec(a, path, value) == a.update(a.len() - 1, value),
{
    let rest = path.skip(1);
    assert(rest.len() == 0);
    if a.len() == 0 {
        assert(spec_insert_vec(a, path, value) =~= a.push(SpecJson::Null).update(0, value));
        assert(a.push(SpecJson::Null).update(0, value) =~= seq![value]);
    }
}

/// `[=]` targets exactly the slot that the `[+]` before it appended.
pub proof fn lemma_last_follows_append(
    a: Seq<SpecJson>,
    app: Seq<Seq<char>>,
    last: Seq<Seq<char>>,
    v1: SpecJson,
    v2: SpecJson,
)
    requires
        app.len() == 1,
        last.len() == 1,
        classify_seg(app[0]) == SpecSeg::Append,
        classify_seg(last[0]) == SpecSeg::Last,
        a.len() < MAX_ARRAY_SIZE as nat,
    ensures
        spec_insert_vec(spec_insert_vec(a, app, v1), last, v2) == a.push(v2),
{
    lemma_append_directive(a, app, v1);
    lemma_last_directive(a.push(v1), last, v2);
    assert(a.push(v1).update(a.len() as int, v2) =~= a.push(v2));
}

/// Writing one value at `[key, "[+]"]` when `key` holds an array below
/// the cap appends the value to that array, in place.
pub proof fn lemma_append_grows(
    m: Seq<(Seq<char>, SpecJson)>,
    path: Seq<Seq<char>>,
    k: Seq<char>,
    a: Seq<SpecJson>,
    value: SpecJson,
)
    requires
        path.len() == 2,
        path[0] == k,
        classify_seg(path[1]) == SpecSeg::Append,
        obj_has_key(m, k),
        m[obj_key_idx(m, k)] == (k, SpecJson::Arr(a)),
        a.len() < MAX_ARRAY_SIZE as nat,
    ensures
        spec_insert_map(m, path, value) == m.update(
            obj_key_idx(m, k),
            (k, SpecJson::Arr(a.push(value))),
        ),
{
    lemma_obj_key_idx(m, k);
    let rest = path.skip(1);
    assert(rest[0] == path[1]);
    assert(rest =~= seq![path[1]]);
    lemma_append_directive(a, rest, value);
}

/// Writing one value at `[key, "[+]"]` when `key` is absent creates a
/// one-element array under `key`.
pub proof fn lemma_append_first(
    m: Seq<(Seq<char>, SpecJson)>,
    path: Seq<Seq<char>>,
    k: Seq<char>,
    value: SpecJson,
)
    requires
        path.len() == 2,
        path[0] == k,
        classify_seg(path[1]) == SpecSeg::Append,
        !obj_has_key(m, k),
    ensures
        spec_insert_map(m, path, value) == m.push((k, SpecJson::Arr(seq![value]))),
{
    lemma_obj_key_idx(m, k);
    let rest = path.skip(1);
    assert(rest[0] == path[1]);
    assert(rest =~= seq![path[1]]);
    assert(is_bracketed(path[1]));
    lemma_append_directive(Seq::empty(), rest, value);
    assert(Seq::<SpecJson>::empty().push(value) =~= seq![value]);
}

proof fn lemma_append_n_existing(
    m: Seq<(Seq<char>, SpecJson)>,
    path: Seq<Seq<char>>,
    k: Seq<char>,
    a: Seq<SpecJson>,
    values: Seq<SpecJson>,
)
    requires
        path.len() == 2,
        path[0] == k,
        classify_seg(path[1]) == SpecSeg::Append,
        obj_has_key(m, k),
        m[obj_key_idx(m, k)] == (k, SpecJson::Arr(a)),
        a.len() + values.len() <= MAX_ARRAY_SIZE as nat,
    ensures
        spec_insert_all(m, path, values) == m.update(
            obj_key_idx(m, k),
            (k, SpecJson::Arr(a + values)),
        ),
    decreases values.len(),
{
    lemma_obj_key_idx(m, k);
    let j = obj_key_idx(m, k);
    if values.len() == 0 {
        assert(a + values =~= a);
        assert(m.update(j, (k, SpecJson::Arr(a))) =~= m);
    } else {
        lemma_append_grows(m, path, k, a, values[0]);
        let m1 = m.update(j, (k, SpecJson::Arr(a.push(values[0]))));
        lemma_obj_key_idx_same_keys(m1, m, k);
        assert(obj_has_key(m1, k)) by {
            assert(m1[j].0 == k);
        }
        lemma_append_n_existing(m1, path, k, a.push(values[0]), values.drop_first());
        assert(a.push(values[0]) + values.drop_first() =~= a + values);
        assert(m1.update(j, (k, SpecJson::Arr(a + values)))
            =~= m.update(j, (k, SpecJson::Arr(a + values))));
    }
}

/// Appending with `[+]` once per value, starting with no child at `key`,
/// yields exactly the array of those values, in declaration order.
pub proof fn lemma_append_n(
    m: Seq<(Seq<char>, SpecJson)>,
    path: Seq<Seq<char>>,
    k: Seq<char>,
    values: Seq<SpecJson>,
)
    requires
        path.len() == 2,
        path[0] == k,
        classify_seg(path[1]) == SpecSeg::Append,
        !obj_has_key(m, k),
        1 <= values.len() <= MAX_ARRAY_SIZE as nat,
    ensures
        spec_insert_all(m, path, values) == m.push((k, SpecJson::Arr(values))),
{
    lemma_append_first(m, path, k, values[0]);
    let m1 = m.push((k, SpecJson::Arr(seq![values[0]])));
    lemma_obj_key_idx(m1, k);
    assert(obj_has_key(m1, k)) by {
        assert(m1[m.len() as int].0 == k);
    }
    let j = obj_key_idx(m1, k);
    assert(j == m.len()) by {
        if j < m.len() {
            assert(m[j] == m1[j]);
            assert(obj_has_key(m, k));
        }
    }
    lemma_append_n_existing(m1, path, k, seq![values[0]], values.drop_first());
    assert(seq![values[0]] + values.drop_first() =~= values);
    assert(m1.update(m.len() as int, (k, SpecJson::Arr(values)))
        =~= m.push((k, SpecJson::Arr(values))));
}

proof fn lemma_clamp_step(v: nat, d: nat, acc: nat, dd: nat)
    requires
        acc == clamp_idx(v),
        dd == d,
        d < 10,
    ensures
        clamp_idx(v * 10 + d) == if acc * 10 + dd >= MAX_ARRAY_SIZE as nat {
            MAX_ARRAY_SIZE as nat
        } else {
            acc * 10 + dd
        },
{
    if v >= MAX_ARRAY_SIZE as nat {
        assert(v * 10 + d >= MAX_ARRAY_SIZE as nat) by (nonlinear_arith)
            requires
                v >= MAX_ARRAY_SIZE as nat,
        ;
        assert(acc * 10 + dd >= MAX_ARRAY_SIZE as nat);
    }
}

} // verus!
