//! The UI schema facade: the versioned schema envelope, its declared
//! inputs and output rules, and the two entry points that resolve a raw
//! input document into a result document and into named secret bundles.

use vstd::prelude::*;

use crate::collection::UiSchemaCollections;
use crate::error::UiSchemaInputError;
use crate::input::InputOutcome;
use crate::input::UiSchemaInput;
use crate::input::find_input_idx;
use crate::input::input_outcome;
use crate::input_type::UiSchemaInputSingleType;
use crate::json::JsonValue;
use crate::json::SpecJson;
use crate::json::json_eq;
use crate::json::json_obj_get;
use crate::json::obj_has_key;
use crate::json::view_json;
use crate::json::view_json_entries;
use crate::path::insert_into_map_ex;
use crate::path::spec_insert_map;
use crate::render::json_text;
use crate::render::to_json_text;
use crate::resolve::UiSchemaInputRef;
use crate::resolve::is_string_array;
use crate::resolve::ref_id;
use crate::resolve::resolved_input_visible;
use crate::versions::ChartExtKindValuesUi;
use crate::versions::ChartExtVersionV1Beta1;

verus! {

broadcast use vstd::std_specs::vec::group_vec_axioms, vstd::seq::group_seq_axioms;

/// One output rule: where the resolved value lands, and what it is
/// resolved from.
#[derive(Clone, Debug)]
pub struct UiSchemaOutputValue {
    pub path: Vec<String>,
    pub value: UiSchemaInputRef,
}

/// The declared secret bundles: bundle name to attribute name to
/// reference, in declaration order.
#[derive(Clone, Debug)]
pub struct UiSchemaOutputSecrets(pub Vec<(String, Vec<(String, UiSchemaInputRef)>)>);

/// The declared outputs of one schema.
#[derive(Clone, Debug)]
pub struct UiSchemaOutputs {
    pub values: Vec<UiSchemaOutputValue>,
    pub secrets: UiSchemaOutputSecrets,
}

/// The bare schema form: inputs and outputs.
#[derive(Clone, Debug)]
pub struct UiSchemaV0 {
    pub inputs: Vec<UiSchemaInput>,
    pub outputs: UiSchemaOutputs,
}

/// The enveloped schema form, carrying version and kind markers.
#[derive(Clone, Debug)]
pub struct UiSchemaV1Beta1 {
    pub api_version: ChartExtVersionV1Beta1,
    pub kind: ChartExtKindValuesUi,
    pub inner: UiSchemaV0,
}

/// A UI schema in any of its versioned forms.
#[derive(Clone, Debug)]
pub enum UiSchema {
    V1Beta1(UiSchemaV1Beta1),
    V0(UiSchemaV0),
}

/// One resolved secret bundle: its name and its rendered attributes, in
/// declaration order of the attributes that resolved.
#[derive(Clone, Debug)]
pub struct RenderedSecret {
    pub name: String,
    pub attrs: Vec<(String, String)>,
}

/// What a resolved value contributes to a secret attribute: a plain
/// string passes through, anything else renders as compact JSON text.
pub open spec fn secret_text(v: SpecJson) -> Seq<char> {
    match v {
        SpecJson::Str(s) => s,
        _ => json_text(v),
    }
}

/// What must hold of a reference that resolved to the value `v`.
pub open spec fn contrib_some_ok(
    si: Seq<UiSchemaInput>,
    raw: SpecJson,
    refr: UiSchemaInputRef,
    v: SpecJson,
) -> bool {
    &&& resolved_input_visible(si, raw, ref_id(refr))
    &&& (refr matches UiSchemaInputRef::FieldValue(fv) ==> input_outcome(
        si[find_input_idx(si, fv.input@)],
        raw,
    ) == InputOutcome::Val(v))
    &&& (refr matches UiSchemaInputRef::FieldProperty(fp) ==> prop_contrib(
        si[find_input_idx(si, fp.input@)],
        raw,
        v,
    ))
}

/// What must hold of a property reference's resolved value: the input is
/// a collection select whose submitted value was fetched; an array input
/// held an array of entity ids and resolved to an array of the same
/// length, a scalar input held a string id.
pub open spec fn prop_contrib(s: UiSchemaInput, raw: SpecJson, v: SpecJson) -> bool {
    &&& s.input_type.single_type is CollectionSelect
    &&& (input_outcome(s, raw) matches InputOutcome::Val(w) && (if s.input_type.is_array {
        is_string_array(w) && v is Arr && v->Arr_0.len() == w->Arr_0.len()
    } else {
        w is Str
    }))
}

/// What must hold of a reference that was skipped: its input is
/// declared, and either the fetch step skipped it, or (for a property
/// reference) the external resolver itself signalled the skip.
pub open spec fn contrib_none_ok(
    si: Seq<UiSchemaInput>,
    raw: SpecJson,
    refr: UiSchemaInputRef,
) -> bool {
    let j = find_input_idx(si, ref_id(refr));
    &&& j != -1
    &&& (refr is FieldValue ==> input_outcome(si[j], raw) is Skip)
    &&& (refr is FieldProperty ==> (input_outcome(si[j], raw) is Skip || input_outcome(si[j], raw)
        is Val))
}

/// What must hold of one rule's contribution to the result document.
pub open spec fn rule_contrib_ok(
    si: Seq<UiSchemaInput>,
    raw: SpecJson,
    refr: UiSchemaInputRef,
    c: Option<SpecJson>,
) -> bool {
    match c {
        Some(v) => contrib_some_ok(si, raw, refr, v),
        None => contrib_none_ok(si, raw, refr),
    }
}

/// A contribution applied to the result document: a skipped rule writes
/// nothing.
pub open spec fn apply_contrib(
    m: Seq<(Seq<char>, SpecJson)>,
    path: Seq<Seq<char>>,
    c: Option<SpecJson>,
) -> Seq<(Seq<char>, SpecJson)> {
    match c {
        Some(v) => spec_insert_map(m, path, v),
        None => m,
    }
}

/// The result document built by applying each rule's contribution in
/// declaration order.
pub open spec fn spec_insert_rules(
    m: Seq<(Seq<char>, SpecJson)>,
    rules: Seq<UiSchemaOutputValue>,
    trace: Seq<Option<SpecJson>>,
) -> Seq<(Seq<char>, SpecJson)>
    decreases rules.len(),
{
    if rules.len() == 0 || trace.len() == 0 {
        m
    } else {
        spec_insert_rules(
            apply_contrib(m, rules[0].path.deep_view(), trace[0]),
            rules.drop_first(),
            trace.drop_first(),
        )
    }
}

proof fn lemma_insert_rules_snoc(
    m: Seq<(Seq<char>, SpecJson)>,
    rules: Seq<UiSchemaOutputValue>,
    trace: Seq<Option<SpecJson>>,
    rule: UiSchemaOutputValue,
    c: Option<SpecJson>,
)
    requires
        rules.len() == trace.len(),
    ensures
        spec_insert_rules(m, rules.push(rule), trace.push(c)) == apply_contrib(
            spec_insert_rules(m, rules, trace),
            rule.path.deep_view(),
            c,
        ),
    decreases rules.len(),
{
    if rules.len() == 0 {
        let pr = rules.push(rule);
        let pt = trace.push(c);
        assert(pr[0] == rule);
        assert(pt[0] == c);
        assert(pr.drop_first().len() == 0);
        assert(spec_insert_rules(
            apply_contrib(m, pr[0].path.deep_view(), pt[0]),
            pr.drop_first(),
            pt.drop_first(),
        ) == apply_contrib(m, rule.path.deep_view(), c));
    } else {
        assert(rules.push(rule)[0] == rules[0]);
        assert(trace.push(c)[0] == trace[0]);
        assert(rules.push(rule).drop_first() =~= rules.drop_first().push(rule));
        assert(trace.push(c).drop_first() =~= trace.drop_first().push(c));
        lemma_insert_rules_snoc(
            apply_contrib(m, rules[0].path.deep_view(), trace[0]),
            rules.drop_first(),
            trace.drop_first(),
            rule,
            c,
        );
    }
}

/// A trace of per-rule contributions consistent with the declared
/// inputs and the raw input document.
pub open spec fn values_trace_ok(
    si: Seq<UiSchemaInput>,
    raw: SpecJson,
    rules: Seq<UiSchemaOutputValue>,
    trace: Seq<Option<SpecJson>>,
) -> bool {
    &&& trace.len() == rules.len()
    &&& (forall|i: int| 0 <= i < rules.len() ==> rule_contrib_ok(si, raw, rules[i].value, trace[i]))
}

/// A rule whose resolution cannot fail: a value reference to a declared
/// input that is not a required-and-missing one.
pub open spec fn rule_live(si: Seq<UiSchemaInput>, raw: SpecJson, refr: UiSchemaInputRef) -> bool {
    &&& refr is FieldValue
    &&& find_input_idx(si, ref_id(refr)) != -1
    &&& !(input_outcome(si[find_input_idx(si, ref_id(refr))], raw) is Missing)
}

/// Every rule resolves without error: success is then owed.
pub open spec fn all_values_live(
    si: Seq<UiSchemaInput>,
    raw: SpecJson,
    rules: Seq<UiSchemaOutputValue>,
) -> bool {
    forall|i: int| 0 <= i < rules.len() ==> rule_live(si, raw, rules[i].value)
}

impl UiSchemaOutputValue {
    /// Resolve this rule and merge the value into the result document;
    /// a skip signal leaves the document as it was.
    pub fn resolve_into<C: UiSchemaCollections>(
        &self,
        env_id: &uuid::Uuid,
        input_schema: &Vec<UiSchemaInput>,
        inputs: &JsonValue,
        outputs: &mut Vec<(String, JsonValue)>,
    ) -> (r: Result<(), UiSchemaInputError<C::Error>>)
        ensures
            match r {
                Ok(_) => exists|c: Option<SpecJson>|
                    rule_contrib_ok(input_schema@, inputs@, self.value, c)
                        && view_json_entries(final(outputs)@) == apply_contrib(
                        view_json_entries(old(outputs)@),
                        self.path.deep_view(),
                        c,
                    ),
                Err(e) => {
                    &&& final(outputs)@ == old(outputs)@
                    &&& !(e is OptionalInputMissing)
                    &&& !rule_live(input_schema@, inputs@, self.value)
                },
            },
    {
        match self.value.resolve::<C>(env_id, input_schema, inputs) {
            Ok(value) => {
                let ghost vv = view_json(value);
                insert_into_map_ex(outputs, &self.path, value);
                proof {
                    let c = Some(vv);
                    assert(rule_contrib_ok(input_schema@, inputs@, self.value, c));
                }
                Ok(())
            },
            Err(e) => {
                if e.is_optional_input_missing() {
                    proof {
                        let c = None::<SpecJson>;
                        assert(rule_contrib_ok(input_schema@, inputs@, self.value, c));
                    }
                    Ok(())
                } else {
                    proof {
                        if self.value is FieldValue {
                            assert(!rule_live(input_schema@, inputs@, self.value));
                        }
                    }
                    Err(e)
                }
            },
        }
    }
}

impl UiSchema {
    /// The declared inputs, whichever versioned form carries them.
    pub open spec fn spec_inputs(self) -> Vec<UiSchemaInput> {
        match self {
            UiSchema::V1Beta1(v1) => v1.inner.inputs,
            UiSchema::V0(v0) => v0.inputs,
        }
    }

    /// The declared outputs, whichever versioned form carries them.
    pub open spec fn spec_outputs(self) -> UiSchemaOutputs {
        match self {
            UiSchema::V1Beta1(v1) => v1.inner.outputs,
            UiSchema::V0(v0) => v0.outputs,
        }
    }

    pub fn get_inputs(&self) -> (r: &Vec<UiSchemaInput>)
        ensures
            *r == self.spec_inputs(),
    {
        match self {
            UiSchema::V1Beta1(v1) => &v1.inner.inputs,
            UiSchema::V0(v0) => &v0.inputs,
        }
    }

    pub fn get_outputs(&self) -> (r: &UiSchemaOutputs)
        ensures
            *r == self.spec_outputs(),
    {
        match self {
            UiSchema::V1Beta1(v1) => &v1.inner.outputs,
            UiSchema::V0(v0) => &v0.outputs,
        }
    }

    /// Resolve every output rule in declaration order into a fresh
    /// result document. A rule whose input is hidden or optional-absent
    /// writes nothing; any hard error aborts the whole call, and no
    /// partial document is returned. When every rule is a value
    /// reference to a declared, non-missing input, success is owed.
    pub fn get_values<C: UiSchemaCollections>(
        &self,
        env_id: &uuid::Uuid,
        inputs: &JsonValue,
    ) -> (r: Result<Vec<(String, JsonValue)>, UiSchemaInputError<C::Error>>)
        ensures
            match r {
                Ok(doc) => exists|trace: Seq<Option<SpecJson>>|
                    values_trace_ok(
                        self.spec_inputs()@,
                        inputs@,
                        self.spec_outputs().values@,
                        trace,
                    ) && view_json_entries(doc@) == spec_insert_rules(
                        Seq::empty(),
                        self.spec_outputs().values@,
                        trace,
                    ),
                Err(e) => {
                    &&& !(e is OptionalInputMissing)
                    &&& !all_values_live(self.spec_inputs()@, inputs@, self.spec_outputs().values@)
                },
            },
    {
        let schema_inputs = self.get_inputs();
        let outputs = self.get_outputs();
        let ghost rules = outputs.values@;
        let mut values: Vec<(String, JsonValue)> = Vec::new();
        let ghost mut trace: Seq<Option<SpecJson>> = Seq::empty();
        proof {
            assert(values@ =~= Seq::<(String, JsonValue)>::empty());
            assert(view_json_entries(values@) =~= Seq::<(Seq<char>, SpecJson)>::empty());
            assert(rules.take(0) =~= Seq::<UiSchemaOutputValue>::empty());
        }
        let n = outputs.values.len();
        let mut i: usize = 0;
        while i < n
            invariant
                i <= n,
                n == rules.len(),
                rules == outputs.values@,
                *outputs == self.spec_outputs(),
                *schema_inputs == self.spec_inputs(),
                trace.len() == i,
                forall|l: int| 0 <= l < i ==> rule_contrib_ok(
                    self.spec_inputs()@,
                    inputs@,
                    rules[l].value,
                    trace[l],
                ),
                view_json_entries(values@) == spec_insert_rules(
                    Seq::empty(),
                    rules.take(i as int),
                    trace,
                ),
            decreases n - i,
        {
            let rule = &outputs.values[i];
            let ghost old_trace = trace;
            let ghost old_view = view_json_entries(values@);
            match rule.resolve_into::<C>(env_id, schema_inputs, inputs, &mut values) {
                Ok(_) => {
                    proof {
                        let c = choose|c: Option<SpecJson>|
                            rule_contrib_ok(self.spec_inputs()@, inputs@, rule.value, c)
                                && view_json_entries(values@) == apply_contrib(
                                old_view,
                                rule.path.deep_view(),
                                c,
                            );
                        trace = trace.push(c);
                        lemma_insert_rules_snoc(
                            Seq::empty(),
                            rules.take(i as int),
                            old_trace,
                            rules[i as int],
                            c,
                        );
                        assert(rules.take(i as int).push(rules[i as int]) =~= rules.take(
                            (i + 1) as int,
                        ));
                    }
                },
                Err(e) => {
                    proof {
                        assert(!rule_live(self.spec_inputs()@, inputs@, rules[i as int].value));
                    }
                    return Err(e);
                },
            }
            i = i + 1;
        }
        proof {
            assert(rules.take(n as int) =~= rules);
        }
        Ok(values)
    }
}

/// What must hold of one secret attribute's contribution: a rendered
/// text of a resolved value, or a skip.
pub open spec fn attr_contrib_ok(
    si: Seq<UiSchemaInput>,
    raw: SpecJson,
    refr: UiSchemaInputRef,
    c: Option<Seq<char>>,
) -> bool {
    match c {
        Some(t) => exists|v: SpecJson| contrib_some_ok(si, raw, refr, v) && t == secret_text(v),
        None => contrib_none_ok(si, raw, refr),
    }
}

/// The rendered attribute pairs of one bundle: the attributes that
/// resolved, in declaration order, each with its text.
pub open spec fn collect_some(
    attrs: Seq<(String, UiSchemaInputRef)>,
    tr: Seq<Option<Seq<char>>>,
) -> Seq<(Seq<char>, Seq<char>)>
    decreases attrs.len(),
{
    if attrs.len() == 0 || tr.len() == 0 {
        Seq::empty()
    } else {
        collect_some(attrs.drop_last(), tr.drop_last()) + match tr.last() {
            Some(t) => seq![(attrs.last().0@, t)],
            None => Seq::<(Seq<char>, Seq<char>)>::empty(),
        }
    }
}

/// A per-attribute trace consistent with the declared inputs and the
/// raw input document.
pub open spec fn attrs_trace_ok(
    si: Seq<UiSchemaInput>,
    raw: SpecJson,
    attrs: Seq<(String, UiSchemaInputRef)>,
    tr: Seq<Option<Seq<char>>>,
) -> bool {
    &&& tr.len() == attrs.len()
    &&& (forall|a: int| 0 <= a < attrs.len() ==> attr_contrib_ok(si, raw, attrs[a].1, tr[a]))
}

/// The mathematical content of a rendered secret list.
pub open spec fn view_rendered_secrets(list: Seq<RenderedSecret>) -> Seq<
    (Seq<char>, Seq<(Seq<char>, Seq<char>)>),
> {
    Seq::new(list.len(), |b: int| (list[b].name@, list[b].attrs.deep_view()))
}

/// The rendered bundles: each declared bundle contributes its resolved
/// attributes, and a bundle left with none is omitted entirely.
pub open spec fn render_bundles(
    bundles: Seq<(String, Vec<(String, UiSchemaInputRef)>)>,
    texts: Seq<Seq<Option<Seq<char>>>>,
) -> Seq<(Seq<char>, Seq<(Seq<char>, Seq<char>)>)>
    decreases bundles.len(),
{
    if bundles.len() == 0 || texts.len() == 0 {
        Seq::empty()
    } else {
        render_bundles(bundles.drop_last(), texts.drop_last()) + {
            let at = collect_some(bundles.last().1@, texts.last());
            if at.len() > 0 {
                seq![(bundles.last().0@, at)]
            } else {
                Seq::<(Seq<char>, Seq<(Seq<char>, Seq<char>)>)>::empty()
            }
        }
    }
}

/// Per-bundle traces consistent with the declared inputs and the raw
/// input document.
pub open spec fn secrets_trace_ok(
    si: Seq<UiSchemaInput>,
    raw: SpecJson,
    bundles: Seq<(String, Vec<(String, UiSchemaInputRef)>)>,
    texts: Seq<Seq<Option<Seq<char>>>>,
) -> bool {
    &&& texts.len() == bundles.len()
    &&& (forall|b: int| 0 <= b < bundles.len() ==> attrs_trace_ok(si, raw, bundles[b].1@, texts[b]))
}

/// Every secret attribute resolves without error.
pub open spec fn all_secrets_live(
    si: Seq<UiSchemaInput>,
    raw: SpecJson,
    bundles: Seq<(String, Vec<(String, UiSchemaInputRef)>)>,
) -> bool {
    forall|b: int, a: int|
        0 <= b < bundles.len() && 0 <= a < bundles[b].1@.len() ==> rule_live(
            si,
            raw,
            bundles[b].1@[a].1,
        )
}

/// Resolve one bundle's attributes in declaration order; a skipped
/// attribute is omitted, a hard error aborts.
fn render_secret_attrs<C: UiSchemaCollections>(
    env_id: &uuid::Uuid,
    input_schema: &Vec<UiSchemaInput>,
    inputs: &JsonValue,
    attrs_schema: &Vec<(String, UiSchemaInputRef)>,
) -> (r: Result<Vec<(String, String)>, UiSchemaInputError<C::Error>>)
    ensures
        match r {
            Ok(attrs) => exists|tr: Seq<Option<Seq<char>>>|
                attrs_trace_ok(input_schema@, inputs@, attrs_schema@, tr) && attrs.deep_view()
                    == collect_some(attrs_schema@, tr),
            Err(e) => {
                &&& !(e is OptionalInputMissing)
                &&& !(forall|a: int|
                    0 <= a < attrs_schema@.len() ==> rule_live(
                        input_schema@,
                        inputs@,
                        attrs_schema@[a].1,
                    ))
            },
        },
{
    let ghost aschema = attrs_schema@;
    let mut attrs: Vec<(String, String)> = Vec::new();
    let ghost mut tr: Seq<Option<Seq<char>>> = Seq::empty();
    proof {
        assert(attrs.deep_view() =~= collect_some(aschema.take(0), tr));
    }
    let n = attrs_schema.len();
    let mut i: usize = 0;
    while i < n
        invariant
            i <= n,
            n == aschema.len(),
            aschema == attrs_schema@,
            tr.len() == i,
            forall|a: int| 0 <= a < i ==> attr_contrib_ok(input_schema@, inputs@, aschema[a].1, tr[a]),
            attrs.deep_view() == collect_some(aschema.take(i as int), tr),
        decreases n - i,
    {
        let entry = &attrs_schema[i];
        let ghost old_tr = tr;
        let ghost old_attrs = attrs.deep_view();
        match entry.1.resolve::<C>(env_id, input_schema, inputs) {
            Ok(value) => {
                let ghost vv = view_json(value);
                let text: String = match &value {
                    JsonValue::Str(s) => s.clone(),
                    _ => to_json_text(&value),
                };
                proof {
                    assert(text@ == secret_text(vv));
                }
                attrs.push((entry.0.clone(), text));
                proof {
                    tr = tr.push(Some(secret_text(vv)));
                    assert(attrs.deep_view() =~= old_attrs.push(
                        (aschema[i as int].0@, secret_text(vv)),
                    ));
                    let taken = aschema.take((i + 1) as int);
                    assert(taken.drop_last() =~= aschema.take(i as int));
                    assert(taken.last() == aschema[i as int]);
                    assert(tr.drop_last() =~= old_tr);
                    assert(tr.last() == Some(secret_text(vv)));
                    assert(collect_some(taken, tr) == collect_some(aschema.take(i as int), old_tr)
                        + seq![(aschema[i as int].0@, secret_text(vv))]);
                    assert(attrs.deep_view() =~= collect_some(aschema.take((i + 1) as int), tr));
                }
            },
            Err(e) => {
                if e.is_optional_input_missing() {
                    proof {
                        tr = tr.push(None);
                        assert(contrib_none_ok(input_schema@, inputs@, aschema[i as int].1));
                        let taken = aschema.take((i + 1) as int);
                        assert(taken.drop_last() =~= aschema.take(i as int));
                        assert(taken.last() == aschema[i as int]);
                        assert(tr.drop_last() =~= old_tr);
                        assert(tr.last() == None::<Seq<char>>);
                        assert(collect_some(taken, tr) == collect_some(
                            aschema.take(i as int),
                            old_tr,
                        ));
                        assert(attrs.deep_view() =~= collect_some(aschema.take((i + 1) as int), tr));
                    }
                } else {
                    proof {
                        assert(!rule_live(input_schema@, inputs@, aschema[i as int].1));
                    }
                    return Err(e);
                }
            },
        }
        i = i + 1;
    }
    proof {
        assert(aschema.take(n as int) =~= aschema);
    }
    Ok(attrs)
}

impl UiSchema {
    /// Resolve every declared secret bundle in declaration order: a
    /// skipped attribute is omitted, a bundle left without attributes is
    /// omitted entirely, and any hard error aborts the whole call.
    /// Resolved values render as text: strings pass through, anything
    /// else as compact JSON.
    pub fn get_secrets<C: UiSchemaCollections>(
        &self,
        env_id: &uuid::Uuid,
        inputs: &JsonValue,
    ) -> (r: Result<Vec<RenderedSecret>, UiSchemaInputError<C::Error>>)
        ensures
            match r {
                Ok(list) => exists|texts: Seq<Seq<Option<Seq<char>>>>|
                    secrets_trace_ok(
                        self.spec_inputs()@,
                        inputs@,
                        self.spec_outputs().secrets.0@,
                        texts,
                    ) && view_rendered_secrets(list@) == render_bundles(
                        self.spec_outputs().secrets.0@,
                        texts,
                    ),
                Err(e) => {
                    &&& !(e is OptionalInputMissing)
                    &&& !all_secrets_live(
                        self.spec_inputs()@,
                        inputs@,
                        self.spec_outputs().secrets.0@,
                    )
                },
            },
    {
        let schema_inputs = self.get_inputs();
        let outputs = self.get_outputs();
        let ghost bundles = outputs.secrets.0@;
        let mut result: Vec<RenderedSecret> = Vec::new();
        let ghost mut texts: Seq<Seq<Option<Seq<char>>>> = Seq::empty();
        proof {
            assert(view_rendered_secrets(result@) =~= render_bundles(bundles.take(0), texts));
        }
        let n = outputs.secrets.0.len();
        let mut b: usize = 0;
        while b < n
            invariant
                b <= n,
                n == bundles.len(),
                bundles == outputs.secrets.0@,
                *outputs == self.spec_outputs(),
                *schema_inputs == self.spec_inputs(),
                texts.len() == b,
                forall|l: int| 0 <= l < b ==> attrs_trace_ok(
                    self.spec_inputs()@,
                    inputs@,
                    bundles[l].1@,
                    texts[l],
                ),
                view_rendered_secrets(result@) == render_bundles(bundles.take(b as int), texts),
            decreases n - b,
        {
            let bundle = &outputs.secrets.0[b];
            let ghost old_view = view_rendered_secrets(result@);
            let ghost old_texts = texts;
            match render_secret_attrs::<C>(env_id, schema_inputs, inputs, &bundle.1) {
                Ok(attrs) => {
                    proof {
                        let tr = choose|tr: Seq<Option<Seq<char>>>|
                            attrs_trace_ok(self.spec_inputs()@, inputs@, bundle.1@, tr)
                                && attrs.deep_view() == collect_some(bundle.1@, tr);
                        texts = texts.push(tr);
                        let taken = bundles.take((b + 1) as int);
                        assert(taken.drop_last() =~= bundles.take(b as int));
                        assert(taken.last() == bundles[b as int]);
                        assert(texts.drop_last() =~= old_texts);
                        assert(texts.last() == tr);
                        assert(render_bundles(taken, texts) == render_bundles(
                            bundles.take(b as int),
                            old_texts,
                        ) + {
                            let at = collect_some(bundles[b as int].1@, tr);
                            if at.len() > 0 {
                                seq![(bundles[b as int].0@, at)]
                            } else {
                                Seq::<(Seq<char>, Seq<(Seq<char>, Seq<char>)>)>::empty()
                            }
                        });
                    }
                    if !attrs.is_empty() {
                        result.push(RenderedSecret { name: bundle.0.clone(), attrs });
                        proof {
                            assert(view_rendered_secrets(result@) =~= old_view.push(
                                (
                                    bundles[b as int].0@,
                                    collect_some(bundles[b as int].1@, texts.last()),
                                ),
                            ));
                            assert(view_rendered_secrets(result@) =~= render_bundles(
                                bundles.take((b + 1) as int),
                                texts,
                            ));
                        }
                    } else {
                        proof {
                            assert(collect_some(bundles[b as int].1@, texts.last()).len() == 0);
                            assert(view_rendered_secrets(result@) =~= render_bundles(
                                bundles.take((b + 1) as int),
                                texts,
                            ));
                        }
                    }
                },
                Err(e) => {
                    proof {
                        assert(!all_secrets_live(
                            self.spec_inputs()@,
                            inputs@,
                            bundles,
                        )) by {
                            let a = choose|a: int|
                                !(0 <= a < bundles[b as int].1@.len() ==> rule_live(
                                    self.spec_inputs()@,
                                    inputs@,
                                    bundles[b as int].1@[a].1,
                                ));
                            assert(!rule_live(self.spec_inputs()@, inputs@, bundles[b as int].1@[a].1));
                        }
                    }
                    return Err(e);
                },
            }
            b = b + 1;
        }
        proof {
            assert(bundles.take(n as int) =~= bundles);
        }
        Ok(result)
    }

    /// Whether any collection-select input drawing on the collection
    /// written as `descriptor` has `id` as its submitted value.
    pub fn is_collection_in_inputs(
        &self,
        inputs: &JsonValue,
        descriptor: &JsonValue,
        id: &String,
    ) -> (r: bool)
        ensures
            r == exists|i: int|
                0 <= i < self.spec_inputs()@.len() && input_selects(
                    self.spec_inputs()@[i],
                    inputs@,
                    descriptor@,
                    id@,
                ),
    {
        let schema_inputs = self.get_inputs();
        let n = schema_inputs.len();
        let mut i: usize = 0;
        while i < n
            invariant
                i <= n,
                n == self.spec_inputs()@.len(),
                *schema_inputs == self.spec_inputs(),
                forall|l: int| 0 <= l < i ==> !input_selects(
                    self.spec_inputs()@[l],
                    inputs@,
                    descriptor@,
                    id@,
                ),
            decreases n - i,
        {
            let input = &schema_inputs[i];
            match &input.input_type.single_type {
                UiSchemaInputSingleType::CollectionSelect { collection } => {
                    if json_eq(collection, descriptor) {
                        match json_obj_get(inputs, &input.id) {
                            Some(v) => {
                                match v {
                                    JsonValue::Str(s) => {
                                        if s.eq(id) {
                                            assert(input_selects(
                                                self.spec_inputs()@[i as int],
                                                inputs@,
                                                descriptor@,
                                                id@,
                                            ));
                                            return true;
                                        }
                                    },
                                    _ => {
                                    },
                                }
                            },
                            None => {
                            },
                        }
                    }
                },
                _ => {
                },
            }
            i = i + 1;
        }
        false
    }
}

/// A collection-select input over the collection written as `descriptor`
/// whose submitted value is the string `id`.
pub open spec fn input_selects(
    input: UiSchemaInput,
    raw: SpecJson,
    descriptor: SpecJson,
    id: Seq<char>,
) -> bool {
    &&& (input.input_type.single_type matches UiSchemaInputSingleType::CollectionSelect {
        collection,
    } && view_json(collection) == descriptor)
    &&& crate::json::doc_get(raw, input.id@) == Some(SpecJson::Str(id))
}

/// An input may contribute a value only while its guard is satisfied:
/// a rule whose input is hidden (or undeclared) writes nothing, so a
/// top-level key addressed only by such rules stays out of the result
/// document that `get_values` returns.
pub open spec fn rule_hidden(si: Seq<UiSchemaInput>, raw: SpecJson, refr: UiSchemaInputRef) -> bool {
    let j = find_input_idx(si, ref_id(refr));
    j == -1 || !crate::input::guard_sat(si[j].guard, raw)
}

proof fn lemma_no_key_forall(m: Seq<(Seq<char>, SpecJson)>, k: Seq<char>)
    requires
        !obj_has_key(m, k),
    ensures
        forall|i: int| 0 <= i < m.len() ==> m[i].0 != k,
{
    assert forall|i: int| 0 <= i < m.len() implies m[i].0 != k by {
        if m[i].0 == k {
            assert(obj_has_key(m, k));
        }
    }
}

/// An insertion at a path whose head is not `k` cannot give the
/// document a key `k`.
proof fn lemma_insert_map_key_absent(
    m: Seq<(Seq<char>, SpecJson)>,
    path: Seq<Seq<char>>,
    v: SpecJson,
    k: Seq<char>,
)
    requires
        !obj_has_key(m, k),
        path.len() == 0 || path[0] != k,
    ensures
        !obj_has_key(spec_insert_map(m, path, v), k),
{
    if path.len() == 0 {
        return;
    }
    let part = path[0];
    crate::json::lemma_obj_key_idx(m, part);
    lemma_no_key_forall(m, k);
    let r = spec_insert_map(m, path, v);
    assert forall|i: int| 0 <= i < r.len() implies r[i].0 != k by {
        if i < m.len() {
            assert(m[i].0 != k);
        }
    }
    if obj_has_key(r, k) {
        let i = choose|i: int| 0 <= i < r.len() && r[i].0 == k;
        assert(false);
    }
}

/// Rules whose inputs are hidden leave a top-level key untouched: if
/// every rule whose path begins with `k` is hidden, the document built
/// from a consistent trace has no key `k`.
pub proof fn lemma_hidden_rules_leave_key_out(
    si: Seq<UiSchemaInput>,
    raw: SpecJson,
    rules: Seq<UiSchemaOutputValue>,
    trace: Seq<Option<SpecJson>>,
    m: Seq<(Seq<char>, SpecJson)>,
    k: Seq<char>,
)
    requires
        values_trace_ok(si, raw, rules, trace),
        !obj_has_key(m, k),
        forall|i: int|
            0 <= i < rules.len() && rules[i].path@.len() > 0 && rules[i].path.deep_view()[0] == k
                ==> rule_hidden(si, raw, rules[i].value),
    ensures
        !obj_has_key(spec_insert_rules(m, rules, trace), k),
    decreases rules.len(),
{
    if rules.len() == 0 {
        return;
    }
    let c = trace[0];
    let m1 = apply_contrib(m, rules[0].path.deep_view(), c);
    assert(!obj_has_key(m1, k)) by {
        match c {
            Some(v) => {
                if rules[0].path@.len() > 0 && rules[0].path.deep_view()[0] == k {
                    assert(rule_hidden(si, raw, rules[0].value));
                    assert(contrib_some_ok(si, raw, rules[0].value, v));
                    assert(resolved_input_visible(si, raw, ref_id(rules[0].value)));
                    assert(false);
                } else {
                    lemma_insert_map_key_absent(m, rules[0].path.deep_view(), v, k);
                }
            },
            None => {
            },
        }
    }
    assert forall|i: int|
        0 <= i < rules.drop_first().len() && rules.drop_first()[i].path@.len() > 0
            && rules.drop_first()[i].path.deep_view()[0] == k implies rule_hidden(
        si,
        raw,
        rules.drop_first()[i].value,
    ) by {
        assert(rules.drop_first()[i] == rules[i + 1]);
    }
    assert forall|i: int| 0 <= i < rules.drop_first().len() implies rule_contrib_ok(
        si,
        raw,
        rules.drop_first()[i].value,
        trace.drop_first()[i],
    ) by {
        assert(rules.drop_first()[i] == rules[i + 1]);
        assert(trace.drop_first()[i] == trace[i + 1]);
    }
    lemma_hidden_rules_leave_key_out(si, raw, rules.drop_first(), trace.drop_first(), m1, k);
}

} // verus!
