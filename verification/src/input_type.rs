//! An input field's type and its wire form: a flat triple
//! `{type, itemType, collection}` that folds the array flag and the
//! scalar discriminant together. Decoding matches discriminants without
//! regard to ASCII case; encoding pins one canonical casing.

use vstd::prelude::*;

use crate::json::JsonValue;
use crate::json::SpecJson;
use crate::json::view_json;

verus! {

/// The scalar type of an input field. A collection select carries the
/// opaque descriptor of the collection it draws from.
#[derive(Clone, Debug)]
pub enum UiSchemaInputSingleType {
    Text,
    Number,
    CollectionSelect { collection: JsonValue },
    RadioSelect,
    DaysAndHour,
    Checkbox,
}

/// An input field's type: a scalar discriminant and an array flag.
#[derive(Clone, Debug)]
pub struct UiSchemaInputType {
    pub single_type: UiSchemaInputSingleType,
    pub is_array: bool,
}

/// The wire form: `kind` carries the discriminant, or `"array"`
/// with the discriminant moved to `item_type`; `collection` is present
/// only for collection selects.
#[derive(Clone, Debug)]
pub struct SerializedUiSchemaInputType {
    pub kind: String,
    pub item_type: Option<String>,
    pub collection: Option<JsonValue>,
}

/// Ghost model of a scalar type.
pub enum SpecSingleType {
    Text,
    Number,
    CollectionSelect(SpecJson),
    RadioSelect,
    DaysAndHour,
    Checkbox,
}

/// Ghost model of an input type.
pub struct SpecInputType {
    pub single_type: SpecSingleType,
    pub is_array: bool,
}

/// Ghost model of the wire form.
pub struct SpecSerializedType {
    pub kind: Seq<char>,
    pub item_type: Option<Seq<char>>,
    pub collection: Option<SpecJson>,
}

pub open spec fn view_single_type(t: UiSchemaInputSingleType) -> SpecSingleType {
    match t {
        UiSchemaInputSingleType::Text => SpecSingleType::Text,
        UiSchemaInputSingleType::Number => SpecSingleType::Number,
        UiSchemaInputSingleType::CollectionSelect { collection } => SpecSingleType::CollectionSelect(
            view_json(collection),
        ),
        UiSchemaInputSingleType::RadioSelect => SpecSingleType::RadioSelect,
        UiSchemaInputSingleType::DaysAndHour => SpecSingleType::DaysAndHour,
        UiSchemaInputSingleType::Checkbox => SpecSingleType::Checkbox,
    }
}

impl View for UiSchemaInputType {
    type V = SpecInputType;

    open spec fn view(&self) -> SpecInputType {
        SpecInputType { single_type: view_single_type(self.single_type), is_array: self.is_array }
    }
}

pub open spec fn view_opt_string(s: Option<String>) -> Option<Seq<char>> {
    match s {
        Some(x) => Some(x@),
        None => None,
    }
}

pub open spec fn view_opt_json(v: Option<JsonValue>) -> Option<SpecJson> {
    match v {
        Some(x) => Some(view_json(x)),
        None => None,
    }
}

impl View for SerializedUiSchemaInputType {
    type V = SpecSerializedType;

    open spec fn view(&self) -> SpecSerializedType {
        SpecSerializedType {
            kind: self.kind@,
            item_type: view_opt_string(self.item_type),
            collection: view_opt_json(self.collection),
        }
    }
}

/// An ASCII letter folded to lower case, as a code point.
pub open spec fn lower_code(c: char) -> u32 {
    if 65 <= c as u32 <= 90 {
        (c as u32 + 32) as u32
    } else {
        c as u32
    }
}

/// Equality without regard to ASCII case.
pub open spec fn ci_eq(a: Seq<char>, b: Seq<char>) -> bool {
    a.len() == b.len() && forall|i: int| 0 <= i < a.len() ==> lower_code(a[i]) == lower_code(b[i])
}

/// The canonical tag of each scalar discriminant on the wire.
pub open spec fn disc_tag(t: SpecSingleType) -> Seq<char> {
    match t {
        SpecSingleType::Text => "text"@,
        SpecSingleType::Number => "number"@,
        SpecSingleType::CollectionSelect(_) => "CollectionSelect"@,
        SpecSingleType::RadioSelect => "RadioSelect"@,
        SpecSingleType::DaysAndHour => "DaysAndHour"@,
        SpecSingleType::Checkbox => "Checkbox"@,
    }
}

/// Encoding an input type into its wire triple.
pub open spec fn spec_encode_input_type(t: SpecInputType) -> SpecSerializedType {
    let tag = disc_tag(t.single_type);
    let coll = match t.single_type {
        SpecSingleType::CollectionSelect(c) => Some(c),
        _ => None,
    };
    if t.is_array {
        SpecSerializedType { kind: "array"@, item_type: Some(tag), collection: coll }
    } else {
        SpecSerializedType { kind: tag, item_type: None, collection: coll }
    }
}

/// Reading a discriminant string, without regard to ASCII case; the
/// collection descriptor is taken from the triple when the discriminant
/// asks for one.
pub open spec fn spec_decode_disc(disc: Seq<char>, coll: Option<SpecJson>) -> Option<
    SpecSingleType,
> {
    if ci_eq(disc, "text"@) {
        Some(SpecSingleType::Text)
    } else if ci_eq(disc, "number"@) {
        Some(SpecSingleType::Number)
    } else if ci_eq(disc, "CollectionSelect"@) {
        match coll {
            Some(c) => Some(SpecSingleType::CollectionSelect(c)),
            None => None,
        }
    } else if ci_eq(disc, "RadioSelect"@) {
        Some(SpecSingleType::RadioSelect)
    } else if ci_eq(disc, "DaysAndHour"@) {
        Some(SpecSingleType::DaysAndHour)
    } else if ci_eq(disc, "Checkbox"@) {
        Some(SpecSingleType::Checkbox)
    } else {
        None
    }
}

/// Decoding a wire triple: `kind` equal to `"array"` (exactly)
/// makes an array type whose discriminant is `item_type`; otherwise
/// `kind` is the discriminant itself.
pub open spec fn spec_decode_input_type(s: SpecSerializedType) -> Option<SpecInputType> {
    let is_array = s.kind == "array"@;
    let disc = if is_array {
        s.item_type
    } else {
        Some(s.kind)
    };
    match disc {
        None => None,
        Some(d) => match spec_decode_disc(d, s.collection) {
            None => None,
            Some(single) => Some(SpecInputType { single_type: single, is_array }),
        },
    }
}

/// Exact comparison of two strings, character by character.
pub fn str_eq_exact(a: &str, b: &str) -> (r: bool)
    ensures
        r == (a@ == b@),
{
    let na = a.unicode_len();
    let nb = b.unicode_len();
    if na != nb {
        return false;
    }
    let mut i: usize = 0;
    while i < na
        invariant
            i <= na,
            na == a@.len(),
            na == b@.len(),
            forall|l: int| 0 <= l < i ==> a@[l] == b@[l],
        decreases na - i,
    {
        if a.get_char(i) != b.get_char(i) {
            return false;
        }
        i = i + 1;
    }
    proof {
        assert(a@ =~= b@);
    }
    true
}

/// Case-insensitive ASCII comparison of two strings.
fn eq_ignore_case(a: &str, b: &str) -> (r: bool)
    ensures
        r == ci_eq(a@, b@),
{
    let na = a.unicode_len();
    let nb = b.unicode_len();
    if na != nb {
        return false;
    }
    let mut i: usize = 0;
    while i < na
        invariant
            i <= na,
            na == a@.len(),
            na == b@.len(),
            forall|l: int| 0 <= l < i ==> lower_code(a@[l]) == lower_code(b@[l]),
        decreases na - i,
    {
        let ca = a.get_char(i) as u32;
        let cb = b.get_char(i) as u32;
        let la = if 65 <= ca && ca <= 90 {
            ca + 32
        } else {
            ca
        };
        let lb = if 65 <= cb && cb <= 90 {
            cb + 32
        } else {
            cb
        };
        if la != lb {
            assert(lower_code(a@[i as int]) != lower_code(b@[i as int]));
            return false;
        }
        i = i + 1;
    }
    true
}

impl UiSchemaInputType {
    /// Decode the wire triple; `None` when the discriminant is unknown,
    /// an array type names no item type, or a collection select carries
    /// no descriptor.
    pub fn from_serialized(s: SerializedUiSchemaInputType) -> (r: Option<UiSchemaInputType>)
        ensures
            match r {
                Some(t) => spec_decode_input_type(s@) == Some(t@),
                None => spec_decode_input_type(s@) is None,
            },
    {
        let is_array = str_eq_exact(s.kind.as_str(), "array");
        let disc: String = if is_array {
            match s.item_type {
                Some(d) => d,
                None => {
                    return None;
                },
            }
        } else {
            s.kind
        };
        let ds = disc.as_str();
        let single: UiSchemaInputSingleType = if eq_ignore_case(ds, "text") {
            UiSchemaInputSingleType::Text
        } else if eq_ignore_case(ds, "number") {
            UiSchemaInputSingleType::Number
        } else if eq_ignore_case(ds, "CollectionSelect") {
            match s.collection {
                Some(c) => UiSchemaInputSingleType::CollectionSelect { collection: c },
                None => {
                    return None;
                },
            }
        } else if eq_ignore_case(ds, "RadioSelect") {
            UiSchemaInputSingleType::RadioSelect
        } else if eq_ignore_case(ds, "DaysAndHour") {
            UiSchemaInputSingleType::DaysAndHour
        } else if eq_ignore_case(ds, "Checkbox") {
            UiSchemaInputSingleType::Checkbox
        } else {
            return None;
        };
        Some(UiSchemaInputType { single_type: single, is_array })
    }

    /// Encode into the wire triple, in the canonical casing.
    pub fn to_serialized(self) -> (r: SerializedUiSchemaInputType)
        ensures
            r@ == spec_encode_input_type(self@),
    {
        let (tag, collection): (&str, Option<JsonValue>) = match self.single_type {
            UiSchemaInputSingleType::Text => ("text", None),
            UiSchemaInputSingleType::Number => ("number", None),
            UiSchemaInputSingleType::CollectionSelect { collection } => (
                "CollectionSelect",
                Some(collection),
            ),
            UiSchemaInputSingleType::RadioSelect => ("RadioSelect", None),
            UiSchemaInputSingleType::DaysAndHour => ("DaysAndHour", None),
            UiSchemaInputSingleType::Checkbox => ("Checkbox", None),
        };
        if self.is_array {
            SerializedUiSchemaInputType {
                kind: String::from_str("array"),
                item_type: Some(String::from_str(tag)),
                collection,
            }
        } else {
            SerializedUiSchemaInputType {
                kind: String::from_str(tag),
                item_type: None,
                collection,
            }
        }
    }
}

/// A string is case-insensitively equal to itself.
proof fn lemma_ci_eq_refl(a: Seq<char>)
    ensures
        ci_eq(a, a),
{
}

/// Round trip: encoding an input type and decoding the triple gives back
/// the same scalar discriminant and the same array flag.
pub proof fn lemma_input_type_round_trip(t: SpecInputType)
    ensures
        spec_decode_input_type(spec_encode_input_type(t)) == Some(t),
{
    reveal_strlit("array");
    reveal_strlit("text");
    reveal_strlit("number");
    reveal_strlit("CollectionSelect");
    reveal_strlit("RadioSelect");
    reveal_strlit("DaysAndHour");
    reveal_strlit("Checkbox");
    let s = spec_encode_input_type(t);
    let tag = disc_tag(t.single_type);
    assert(!ci_eq("array"@, "text"@));
    assert(!ci_eq("array"@, "number"@));
    assert(!ci_eq("array"@, "CollectionSelect"@));
    assert(!ci_eq("array"@, "RadioSelect"@)) by {
        assert(lower_code("array"@[0]) != lower_code("RadioSelect"@[0]));
    }
    assert(!ci_eq("array"@, "DaysAndHour"@)) by {
        assert(lower_code("array"@[0]) != lower_code("DaysAndHour"@[0]));
    }
    assert(!ci_eq("array"@, "Checkbox"@));
    if t.is_array {
        assert(s.kind == "array"@);
    } else {
        match t.single_type {
            SpecSingleType::Text => {
                assert(tag != "array"@) by {
                    assert(tag.len() != "array"@.len());
                }
            },
            SpecSingleType::Number => {
                assert(tag != "array"@) by {
                    assert(tag.len() != "array"@.len());
                }
            },
            SpecSingleType::CollectionSelect(_) => {
                assert(tag != "array"@) by {
                    assert(tag.len() != "array"@.len());
                }
            },
            SpecSingleType::RadioSelect => {
                assert(tag != "array"@) by {
                    assert(tag[0] != "array"@[0]);
                }
            },
            SpecSingleType::DaysAndHour => {
                assert(tag != "array"@) by {
                    assert(tag[0] != "array"@[0]);
                }
            },
            SpecSingleType::Checkbox => {
                assert(tag != "array"@) by {
                    assert(tag.len() != "array"@.len());
                }
            },
        }
    }
    lemma_ci_eq_refl(tag);
    match t.single_type {
        SpecSingleType::Text => {
        },
        SpecSingleType::Number => {
            assert(!ci_eq(tag, "text"@));
        },
        SpecSingleType::CollectionSelect(_) => {
            assert(!ci_eq(tag, "text"@));
            assert(!ci_eq(tag, "number"@));
        },
        SpecSingleType::RadioSelect => {
            assert(!ci_eq(tag, "text"@));
            assert(!ci_eq(tag, "number"@));
            assert(!ci_eq(tag, "CollectionSelect"@));
        },
        SpecSingleType::DaysAndHour => {
            assert(!ci_eq(tag, "text"@));
            assert(!ci_eq(tag, "number"@));
            assert(!ci_eq(tag, "CollectionSelect"@));
            assert(!ci_eq(tag, "RadioSelect"@)) by {
                assert(lower_code(tag[0]) != lower_code("RadioSelect"@[0]));
            }
        },
        SpecSingleType::Checkbox => {
            assert(!ci_eq(tag, "text"@));
            assert(!ci_eq(tag, "number"@));
            assert(!ci_eq(tag, "CollectionSelect"@));
            assert(!ci_eq(tag, "RadioSelect"@));
            assert(!ci_eq(tag, "DaysAndHour"@));
        },
    }
}

} // verus!
