//! Resolution of abbreviated product references in a building-energy-model
//! document: the input is validated against a JSON Schema, every
//! `product_reference` string is collected and looked up in a product
//! catalog, and each qualifying heat-pump subtree is rewritten with the
//! full parameter block the downstream calculation expects. Control flow
//! is strictly linear: parse, validate, extract, resolve, transform,
//! serialize; any failure aborts before output is produced.
use vstd::prelude::*;

pub mod codec;
pub mod errors;
pub mod extract;
pub mod json;
pub mod patterns;
pub mod products;
pub mod render;
pub mod transform;

verus! {

use crate::codec::{json_parse_of, parse_json, schema_allows, violations_of, SchemaValidator};
use crate::errors::ResolvePcdbProductsError;
use crate::extract::{
    all_strings, entry_match, extract_product_references, first_bad, lemma_refs_entries_split,
    product_reference_key, refs_of, refs_of_entries, refs_strs, str_views,
};
use crate::json::{key_idx, lemma_key_idx, obj_has_key, JVal};
use crate::products::{
    cat_key_idx, find_products_for_references, first_unresolved, Catalog, Product,
};
use crate::render::{render, render_document};
use crate::transform::{
    device_ref, hsw_children_ok, hsw_key, device_entry_ok, qualifies, rp_keys, rp_wf,
    spec_transform, spec_transform_child, spec_transform_device, spec_transform_hsw,
    spec_transform_ok, transform_heat_pumps,
};

proof fn lemma_entries_contain_child(es: Seq<(Seq<char>, JVal)>, i: int, x: JVal)
    requires
        0 <= i < es.len(),
        refs_of(es[i].1).contains(x),
    ensures
        refs_of_entries(es).contains(x),
{
    lemma_refs_entries_split(es, i);
    assert(es.skip(i)[0] == es[i]);
    assert(es.skip(i).drop_first() =~= es.skip(i + 1));
    assert(refs_of_entries(es.skip(i)) == entry_match(es[i]) + refs_of(es[i].1) + refs_of_entries(
        es.skip(i + 1),
    ));
    let k = choose|k: int| 0 <= k < refs_of(es[i].1).len() && refs_of(es[i].1)[k] == x;
    let ml = entry_match(es[i]).len() as int;
    assert((entry_match(es[i]) + refs_of(es[i].1) + refs_of_entries(es.skip(i + 1)))[ml + k]
        == x);
    let off = refs_of_entries(es.take(i)).len() as int;
    assert(refs_of_entries(es)[off + ml + k] == x);
    assert(refs_of_entries(es).contains(x));
}

proof fn lemma_entries_contain_own(es: Seq<(Seq<char>, JVal)>, i: int)
    requires
        0 <= i < es.len(),
        es[i].0 == product_reference_key(),
    ensures
        refs_of_entries(es).contains(es[i].1),
{
    lemma_refs_entries_split(es, i);
    assert(es.skip(i)[0] == es[i]);
    assert(es.skip(i).drop_first() =~= es.skip(i + 1));
    assert(refs_of_entries(es.skip(i)) == entry_match(es[i]) + refs_of(es[i].1) + refs_of_entries(
        es.skip(i + 1),
    ));
    assert(entry_match(es[i]) == seq![es[i].1]);
    assert((entry_match(es[i]) + refs_of(es[i].1) + refs_of_entries(es.skip(i + 1)))[0]
        == es[i].1);
    let off = refs_of_entries(es.take(i)).len() as int;
    assert(refs_of_entries(es)[off] == es[i].1);
    assert(refs_of_entries(es).contains(es[i].1));
}

proof fn lemma_device_ref_collected(dev: Seq<(Seq<char>, JVal)>)
    requires
        obj_has_key(dev, product_reference_key()),
    ensures
        refs_of_entries(dev).contains(device_ref(dev)),
{
    lemma_key_idx(dev, product_reference_key());
    lemma_entries_contain_own(dev, key_idx(dev, product_reference_key()));
}

/// The extractor covers the transform: every qualifying device's reference
/// is among the extracted references, so a document whose extracted
/// references are all strings, all covered by resolution, transforms
/// without a failure.
pub proof fn lemma_qualifying_refs_extracted(dv: JVal, keys: Seq<Seq<char>>)
    requires
        all_strings(refs_of(dv)),
        keys == refs_strs(refs_of(dv)),
    ensures
        spec_transform_ok(dv, keys),
{
    match dv {
        JVal::Obj(es) => {
            assert forall|i: int|
                0 <= i < es.len() && (#[trigger] es[i]).0 == hsw_key() implies hsw_children_ok(
                es[i].1,
                keys,
            ) by {
                match es[i].1 {
                    JVal::Obj(cs) => {
                        assert forall|l: int| 0 <= l < cs.len() implies device_entry_ok(
                            (#[trigger] cs[l]).1,
                            keys,
                        ) by {
                            match cs[l].1 {
                                JVal::Obj(dev) => {
                                    if qualifies(dev) {
                                        lemma_device_ref_collected(dev);
                                        lemma_entries_contain_child(cs, l, device_ref(dev));
                                        lemma_entries_contain_child(es, i, device_ref(dev));
                                        let m = choose|m: int|
                                            0 <= m < refs_of(dv).len() && refs_of(dv)[m]
                                                == device_ref(dev);
                                        assert(refs_of(dv)[m] is Str);
                                        assert(keys[m] == device_ref(dev)->Str_0);
                                        assert(keys.contains(device_ref(dev)->Str_0));
                                    }
                                },
                                _ => {},
                            }
                        }
                    },
                    _ => {},
                }
            }
        },
        _ => {},
    }
}

/// A document whose heat-source container is absent, or present but not
/// an object, is transformed to itself: resolution is a no-op on it.
pub proof fn lemma_no_container_identity(dv: JVal, c: Seq<(Seq<char>, Product)>)
    requires
        dv matches JVal::Obj(es) ==> forall|i: int|
            0 <= i < es.len() && (#[trigger] es[i]).0 == hsw_key() ==> !(es[i].1 is Obj),
    ensures
        spec_transform(dv, c) == dv,
        render(spec_transform(dv, c)) == render(dv),
{
    match dv {
        JVal::Obj(es) => {
            assert(spec_transform(dv, c)->Obj_0 =~= es);
            assert(spec_transform(dv, c) == dv);
        },
        _ => {},
    }
}

/// No direct child of the heat-source container qualifies: the document is
/// already in resolved form.
pub open spec fn no_qualifying_devices(v: JVal) -> bool {
    match v {
        JVal::Obj(es) => forall|i: int|
            0 <= i < es.len() && (#[trigger] es[i]).0 == hsw_key() ==> hsw_no_qualifying(es[i].1),
        _ => true,
    }
}

pub open spec fn hsw_no_qualifying(h: JVal) -> bool {
    match h {
        JVal::Obj(cs) => forall|i: int|
            0 <= i < cs.len() ==> ((#[trigger] cs[i]).1 matches JVal::Obj(dev) ==> !qualifies(
                dev,
            )),
        _ => true,
    }
}

/// Re-running the transformation on a document already in resolved form is
/// a no-op: with no qualifying device, the document maps to itself.
pub proof fn lemma_transform_idempotent_on_resolved(dv: JVal, c: Seq<(Seq<char>, Product)>)
    requires
        no_qualifying_devices(dv),
    ensures
        spec_transform(dv, c) == dv,
        render(spec_transform(dv, c)) == render(dv),
{
    match dv {
        JVal::Obj(es) => {
            assert forall|i: int| 0 <= i < es.len() implies spec_transform(dv, c)->Obj_0[i]
                == es[i] by {
                if es[i].0 == hsw_key() {
                    match es[i].1 {
                        JVal::Obj(cs) => {
                            assert forall|l: int| 0 <= l < cs.len() implies spec_transform_hsw(
                                es[i].1,
                                c,
                            )->Obj_0[l] == cs[l] by {
                                assert(spec_transform_child(cs[l].1, c) == cs[l].1);
                            }
                            assert(spec_transform_hsw(es[i].1, c)->Obj_0 =~= cs);
                            assert(spec_transform_hsw(es[i].1, c) == es[i].1);
                        },
                        _ => {},
                    }
                }
            }
            assert(spec_transform(dv, c)->Obj_0 =~= es);
            assert(spec_transform(dv, c) == dv);
        },
        _ => {},
    }
}

/// After one transformation no qualifying device remains — every rewritten
/// device has lost its reference field — so the output is already in
/// resolved form and a second transformation is the identity.
pub proof fn lemma_transform_output_is_resolved(
    dv: JVal,
    keys: Seq<Seq<char>>,
    c: Seq<(Seq<char>, Product)>,
)
    requires
        spec_transform_ok(dv, keys),
        forall|j: int| 0 <= j < keys.len() ==> cat_key_idx(c, #[trigger] keys[j]) >= 0,
    ensures
        no_qualifying_devices(spec_transform(dv, c)),
        spec_transform(spec_transform(dv, c), c) == spec_transform(dv, c),
{
    let out = spec_transform(dv, c);
    match dv {
        JVal::Obj(es) => {
            let oes = out->Obj_0;
            assert forall|i: int|
                0 <= i < oes.len() && (#[trigger] oes[i]).0 == hsw_key() implies hsw_no_qualifying(
                oes[i].1,
            ) by {
                if es[i].0 == hsw_key() {
                    assert(oes[i] == (es[i].0, spec_transform_hsw(es[i].1, c)));
                    match es[i].1 {
                        JVal::Obj(cs) => {
                            let oh = spec_transform_hsw(es[i].1, c);
                            assert forall|l: int| 0 <= l < oh->Obj_0.len() implies ((
                            #[trigger] oh->Obj_0[l]).1 matches JVal::Obj(d2) ==> !qualifies(
                                d2,
                            )) by {
                                assert(oh->Obj_0[l] == (cs[l].0, spec_transform_child(cs[l].1, c)));
                                match cs[l].1 {
                                    JVal::Obj(dev) => {
                                        if qualifies(dev) {
                                            assert(hsw_children_ok(es[i].1, keys));
                                            assert(device_entry_ok(cs[l].1, keys));
                                            let kk = device_ref(dev)->Str_0;
                                            let j = choose|j: int|
                                                0 <= j < keys.len() && keys[j] == kk;
                                            assert(cat_key_idx(c, keys[j]) >= 0);
                                            let p = c[cat_key_idx(c, kk)].1;
                                            crate::transform::lemma_transformed_device(dev, p);
                                            assert(!obj_has_key(
                                                spec_transform_device(dev, p),
                                                product_reference_key(),
                                            ));
                                            assert(!qualifies(spec_transform_device(dev, p)));
                                        }
                                    },
                                    _ => {},
                                }
                            }
                        },
                        _ => {},
                    }
                } else {
                    assert(oes[i] == es[i]);
                }
            }
            lemma_transform_idempotent_on_resolved(out, c);
        },
        _ => {
            lemma_transform_idempotent_on_resolved(out, c);
        },
    }
}

/// Parse one document from JSON text into the document model.
pub fn parse_document(input: &str) -> (r: Result<crate::json::JsonNode, ResolvePcdbProductsError>)
    ensures
        match r {
            Ok(n) => {
                &&& json_parse_of(input@) is Some
                &&& n.jv() == json_parse_of(input@)->Some_0
                &&& crate::codec::wf_jval(n.jv())
            },
            Err(e) => e == ResolvePcdbProductsError::InvalidJson && json_parse_of(input@) is None,
        },
{
    match parse_json(input) {
        Ok(n) => Ok(n),
        Err(_) => Err(ResolvePcdbProductsError::InvalidJson),
    }
}

/// Resolve one document: parse it, validate it against the injected input
/// schema, collect every product reference, resolve them against the
/// catalog, rewrite each qualifying device, and serialize the result.
/// No partial output: any failure returns the error and nothing else.
pub fn resolve_products(input: &str, catalog: &Catalog, validator: &SchemaValidator) -> (r: Result<
    String,
    ResolvePcdbProductsError,
>)
    ensures
        match r {
            Ok(out) => {
                &&& json_parse_of(input@) is Some
                &&& schema_allows(validator.schema(), json_parse_of(input@)->Some_0)
                &&& all_strings(refs_of(json_parse_of(input@)->Some_0))
                &&& first_unresolved(
                    catalog@,
                    refs_strs(refs_of(json_parse_of(input@)->Some_0)),
                ) == -1
                &&& out@ == render(spec_transform(json_parse_of(input@)->Some_0, catalog@))
            },
            Err(e) => match e {
                ResolvePcdbProductsError::InvalidJson => json_parse_of(input@) is None,
                ResolvePcdbProductsError::InvalidRequest(ve) => {
                    &&& json_parse_of(input@) is Some
                    &&& !schema_allows(validator.schema(), json_parse_of(input@)->Some_0)
                    &&& violations_of(
                        validator.schema(),
                        json_parse_of(input@)->Some_0,
                    ).len() > 0
                    &&& ve == violations_of(validator.schema(), json_parse_of(input@)->Some_0)[0]
                },
                ResolvePcdbProductsError::InvalidProductCategoryReference(bad) => {
                    &&& json_parse_of(input@) is Some
                    &&& schema_allows(validator.schema(), json_parse_of(input@)->Some_0)
                    &&& !all_strings(refs_of(json_parse_of(input@)->Some_0))
                    &&& bad.jv() == refs_of(json_parse_of(input@)->Some_0)[first_bad(
                        refs_of(json_parse_of(input@)->Some_0),
                    )]
                },
                ResolvePcdbProductsError::UnknownProductReference(k) => {
                    &&& json_parse_of(input@) is Some
                    &&& schema_allows(validator.schema(), json_parse_of(input@)->Some_0)
                    &&& all_strings(refs_of(json_parse_of(input@)->Some_0))
                    &&& first_unresolved(
                        catalog@,
                        refs_strs(refs_of(json_parse_of(input@)->Some_0)),
                    ) >= 0
                    &&& k@ == refs_strs(refs_of(json_parse_of(input@)->Some_0))[first_unresolved(
                        catalog@,
                        refs_strs(refs_of(json_parse_of(input@)->Some_0)),
                    )]
                },
                _ => false,
            },
        },
{
    let doc = match parse_json(input) {
        Ok(d) => d,
        Err(_) => {
            return Err(ResolvePcdbProductsError::InvalidJson);
        },
    };
    let mut violations = validator.violations(&doc);
    if violations.len() > 0 {
        // the full set is available for diagnostics; the pipeline aborts
        // on the first failure
        let first = violations.remove(0);
        return Err(ResolvePcdbProductsError::InvalidRequest(first));
    }
    let references = match extract_product_references(&doc) {
        Ok(refs) => refs,
        Err(e) => {
            return Err(e);
        },
    };
    let products = match find_products_for_references(catalog, &references) {
        Ok(p) => p,
        Err(e) => {
            proof {
                assert(str_views(references@) == refs_strs(refs_of(doc.jv())));
                crate::products::lemma_first_unresolved(catalog@, str_views(references@));
                let fu = first_unresolved(catalog@, str_views(references@));
                assert(str_views(references@)[fu] == references@[fu]@);
            }
            return Err(e);
        },
    };
    proof {
        assert forall|j: int| 0 <= j < products@.len() implies {
            &&& cat_key_idx(catalog@, (#[trigger] products@[j]).0@) == products@[j].1
            &&& products@[j].1 < catalog@.len()
            &&& catalog@[products@[j].1 as int].0 == products@[j].0@
        } by {
            assert(products@[j].0@ == references@[j]@);
        }
        assert(rp_wf(products@, catalog@));
        assert forall|j: int| 0 <= j < rp_keys(products@).len() implies #[trigger] rp_keys(
            products@,
        )[j] == refs_strs(refs_of(doc.jv()))[j] by {
            assert(rp_keys(products@)[j] == products@[j].0@);
            assert(str_views(references@)[j] == references@[j]@);
        }
        assert(rp_keys(products@) =~= refs_strs(refs_of(doc.jv())));
        lemma_qualifying_refs_extracted(doc.jv(), rp_keys(products@));
    }
    let transformed = match transform_heat_pumps(&doc, &products, catalog) {
        Ok(t) => t,
        Err(e) => {
            proof {
                assert(false);
            }
            return Err(e);
        },
    };
    let out = render_document(&transformed);
    Ok(out)
}

} // verus!
