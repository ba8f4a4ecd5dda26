//! Compact JSON text for a document: the canonical rendering used when a
//! resolved secret value is not a plain string, and when a document is
//! handed to the boolean-expression evaluator.

use vstd::prelude::*;

use crate::json::JsonValue;
use crate::json::SpecJson;
use crate::json::view_json;
use crate::json::view_json_entries;
use crate::json::view_json_seq;
use crate::json::lemma_view_json_entries;
use crate::json::lemma_view_json_seq;

verus! {

broadcast use vstd::std_specs::vec::group_vec_axioms, vstd::seq::group_seq_axioms;

pub open spec fn hex_digit_char(n: nat) -> char {
    if n == 0 {
        '0'
    } else if n == 1 {
        '1'
    } else if n == 2 {
        '2'
    } else if n == 3 {
        '3'
    } else if n == 4 {
        '4'
    } else if n == 5 {
        '5'
    } else if n == 6 {
        '6'
    } else if n == 7 {
        '7'
    } else if n == 8 {
        '8'
    } else if n == 9 {
        '9'
    } else if n == 10 {
        'a'
    } else if n == 11 {
        'b'
    } else if n == 12 {
        'c'
    } else if n == 13 {
        'd'
    } else if n == 14 {
        'e'
    } else {
        'f'
    }
}

/// How one character appears inside a JSON string literal: quotes and
/// backslashes carry a backslash, control characters become `\u00XX`.
pub open spec fn escape_one(c: char) -> Seq<char> {
    if c == '"' {
        seq!['\\', '"']
    } else if c == '\\' {
        seq!['\\', '\\']
    } else if (c as u32) < 32 {
        seq!['\\', 'u', '0', '0', hex_digit_char((c as u32 / 16) as nat), hex_digit_char(
            (c as u32 % 16) as nat,
        )]
    } else {
        seq![c]
    }
}

pub open spec fn escape_str(s: Seq<char>) -> Seq<char>
    decreases s.len(),
{
    if s.len() == 0 {
        Seq::empty()
    } else {
        escape_str(s.drop_last()) + escape_one(s.last())
    }
}

/// The compact JSON text of a document. Numbers render as the literal
/// text they carry; object keys keep their stored order.
pub open spec fn json_text(v: SpecJson) -> Seq<char>
    decreases v, 0int,
{
    match v {
        SpecJson::Null => "null"@,
        SpecJson::Bool(b) => {
            if b {
                "true"@
            } else {
                "false"@
            }
        },
        SpecJson::Num(s) => s,
        SpecJson::Str(s) => seq!['"'] + escape_str(s) + seq!['"'],
        SpecJson::Arr(a) => seq!['['] + json_text_items(a) + seq![']'],
        SpecJson::Obj(o) => seq!['{'] + json_text_fields(o) + seq!['}'],
    }
}

pub open spec fn json_text_items(a: Seq<SpecJson>) -> Seq<char>
    decreases a, 1int,
{
    if a.len() == 0 {
        Seq::empty()
    } else if a.len() == 1 {
        json_text(a[0])
    } else {
        json_text_items(a.drop_last()) + seq![','] + json_text(a.last())
    }
}

pub open spec fn json_text_field(e: (Seq<char>, SpecJson)) -> Seq<char>
    decreases e, 3int,
{
    seq!['"'] + escape_str(e.0) + seq!['"'] + seq![':'] + json_text(e.1)
}

pub open spec fn json_text_fields(o: Seq<(Seq<char>, SpecJson)>) -> Seq<char>
    decreases o, 2int,
{
    if o.len() == 0 {
        Seq::empty()
    } else if o.len() == 1 {
        json_text_field(o[0])
    } else {
        json_text_fields(o.drop_last()) + seq![','] + json_text_field(o.last())
    }
}

/// Relies on `String::push`: appends exactly one character.
#[verifier::external_body]
fn push_char(s: &mut String, c: char)
    ensures
        final(s)@ == old(s)@.push(c),
{
    s.push(c);
}

fn hex_char_exec(n: u32) -> (c: char)
    requires
        n < 16,
    ensures
        c == hex_digit_char(n as nat),
{
    if n == 0 {
        '0'
    } else if n == 1 {
        '1'
    } else if n == 2 {
        '2'
    } else if n == 3 {
        '3'
    } else if n == 4 {
        '4'
    } else if n == 5 {
        '5'
    } else if n == 6 {
        '6'
    } else if n == 7 {
        '7'
    } else if n == 8 {
        '8'
    } else if n == 9 {
        '9'
    } else if n == 10 {
        'a'
    } else if n == 11 {
        'b'
    } else if n == 12 {
        'c'
    } else if n == 13 {
        'd'
    } else if n == 14 {
        'e'
    } else {
        'f'
    }
}

proof fn lemma_escape_take(s: Seq<char>, i: int)
    requires
        0 <= i < s.len(),
    ensures
        escape_str(s.take(i + 1)) == escape_str(s.take(i)) + escape_one(s[i]),
{
    assert(s.take(i + 1).drop_last() =~= s.take(i));
    assert(s.take(i + 1).last() == s[i]);
}

fn append_escaped(out: String, s: &str) -> (r: String)
    ensures
        r@ == out@ + escape_str(s@),
{
    let mut out = out;
    let ghost base = out@;
    let n = s.unicode_len();
    let mut i: usize = 0;
    while i < n
        invariant
            i <= n,
            n == s@.len(),
            out@ == base + escape_str(s@.take(i as int)),
        decreases n - i,
    {
        let c = s.get_char(i);
        proof {
            lemma_escape_take(s@, i as int);
        }
        let cu = c as u32;
        if c == '"' {
            push_char(&mut out, '\\');
            push_char(&mut out, '"');
        } else if c == '\\' {
            push_char(&mut out, '\\');
            push_char(&mut out, '\\');
        } else if cu < 32 {
            push_char(&mut out, '\\');
            push_char(&mut out, 'u');
            push_char(&mut out, '0');
            push_char(&mut out, '0');
            push_char(&mut out, hex_char_exec(cu / 16));
            push_char(&mut out, hex_char_exec(cu % 16));
        } else {
            push_char(&mut out, c);
        }
        proof {
            assert(out@ =~= base + escape_str(s@.take((i + 1) as int)));
        }
        i = i + 1;
    }
    proof {
        assert(s@.take(n as int) =~= s@);
    }
    out
}

proof fn lemma_items_take(a: Seq<SpecJson>, i: int)
    requires
        0 <= i < a.len(),
    ensures
        json_text_items(a.take(i + 1)) == if i == 0 {
            json_text(a[0])
        } else {
            json_text_items(a.take(i)) + seq![','] + json_text(a[i])
        },
{
    assert(a.take(i + 1).drop_last() =~= a.take(i));
    assert(a.take(i + 1).last() == a[i]);
    if i == 0 {
        assert(a.take(1).len() == 1);
        assert(a.take(1)[0] == a[0]);
    }
}

proof fn lemma_fields_take(o: Seq<(Seq<char>, SpecJson)>, i: int)
    requires
        0 <= i < o.len(),
    ensures
        json_text_fields(o.take(i + 1)) == if i == 0 {
            json_text_field(o[0])
        } else {
            json_text_fields(o.take(i)) + seq![','] + json_text_field(o[i])
        },
{
    assert(o.take(i + 1).drop_last() =~= o.take(i));
    assert(o.take(i + 1).last() == o[i]);
    if i == 0 {
        assert(o.take(1).len() == 1);
        assert(o.take(1)[0] == o[0]);
    }
}

fn append_json(out: String, v: &JsonValue) -> (r: String)
    ensures
        r@ == out@ + json_text(v@),
    decreases *v,
{
    let mut out = out;
    match v {
        JsonValue::Null => {
            out.append("null");
            out
        },
        JsonValue::Bool(b) => {
            if *b {
                out.append("true");
            } else {
                out.append("false");
            }
            out
        },
        JsonValue::Num(s) => {
            out.append(s.as_str());
            out
        },
        JsonValue::Str(s) => {
            let ghost base = out@;
            push_char(&mut out, '"');
            out = append_escaped(out, s.as_str());
            push_char(&mut out, '"');
            proof {
                assert(out@ =~= base + json_text(v@));
            }
            out
        },
        JsonValue::Arr(a) => {
            let ghost base = out@;
            let ghost av = view_json_seq(a@);
            proof {
                lemma_view_json_seq(a@);
            }
            push_char(&mut out, '[');
            let mut i: usize = 0;
            while i < a.len()
                invariant
                    i <= a@.len(),
                    av.len() == a@.len(),
                    forall|l: int| 0 <= l < a@.len() ==> av[l] == view_json(a@[l]),
                    out@ == base + seq!['['] + json_text_items(av.take(i as int)),
                decreases a@.len() - i,
            {
                if i > 0 {
                    push_char(&mut out, ',');
                }
                proof {
                    assert(decreases_to!(*a => a@));
                    assert(decreases_to!(a@ => a@[i as int]));
                    lemma_items_take(av, i as int);
                }
                out = append_json(out, &a[i]);
                proof {
                    assert(out@ =~= base + seq!['['] + json_text_items(av.take((i + 1) as int)));
                }
                i = i + 1;
            }
            push_char(&mut out, ']');
            proof {
                assert(av.take(av.len() as int) =~= av);
                assert(out@ =~= base + json_text(v@));
            }
            out
        },
        JsonValue::Obj(o) => {
            let ghost base = out@;
            let ghost ov = view_json_entries(o@);
            proof {
                lemma_view_json_entries(o@);
            }
            push_char(&mut out, '{');
            let mut i: usize = 0;
            while i < o.len()
                invariant
                    i <= o@.len(),
                    ov.len() == o@.len(),
                    forall|l: int| 0 <= l < o@.len() ==> ov[l] == (o@[l].0@, view_json(o@[l].1)),
                    out@ == base + seq!['{'] + json_text_fields(ov.take(i as int)),
                decreases o@.len() - i,
            {
                if i > 0 {
                    push_char(&mut out, ',');
                }
                proof {
                    lemma_fields_take(ov, i as int);
                }
                push_char(&mut out, '"');
                out = append_escaped(out, o[i].0.as_str());
                push_char(&mut out, '"');
                push_char(&mut out, ':');
                proof {
                    assert(decreases_to!(*o => o@));
                    assert(decreases_to!(o@ => o@[i as int]));
                    assert(decreases_to!(o@[i as int] => o@[i as int].1));
                }
                out = append_json(out, &o[i].1);
                proof {
                    assert(out@ =~= base + seq!['{'] + json_text_fields(ov.take((i + 1) as int)));
                }
                i = i + 1;
            }
            push_char(&mut out, '}');
            proof {
                assert(ov.take(ov.len() as int) =~= ov);
                assert(out@ =~= base + json_text(v@));
            }
            out
        },
    }
}

/// The compact JSON text of a document.
pub fn to_json_text(v: &JsonValue) -> (r: String)
    ensures
        r@ == json_text(v@),
{
    let out = String::new();
    let r = append_json(out, v);
    proof {
        assert(Seq::<char>::empty() + json_text(v@) =~= json_text(v@));
    }
    r
}

} // verus!
