//! The transform engine: locate the heat-source container, find each
//! qualifying heat-pump device, and rewrite it with the resolved product's
//! normalized parameter block.
use vstd::prelude::*;
use crate::errors::ResolvePcdbProductsError;
use crate::extract::product_reference_key;
use crate::json::{
    clone_entries, clone_node, group_jv_lemmas, jv_entries, jv_list, obj_get, obj_has_key,
    obj_remove, obj_set, obj_val, spec_obj_remove, spec_obj_set, JVal, JsonNode,
};
use crate::products::{cat_key_idx, Catalog, HeatPumpTestDatum, Product, Technology};
use crate::patterns::{int_lit, int_to_literal};

verus! {

broadcast use vstd::seq::axiom_seq_index_decreases, vstd::seq::axiom_seq_subrange_decreases, vstd::std_specs::vec::axiom_vec_index_decreases, vstd::std_specs::vec::axiom_vec_decreases_to_view;

/// The fixed top-level key under which qualifying devices live.
pub open spec fn hsw_key() -> Seq<char> {
    "HeatSourceWet"@
}

pub open spec fn type_key() -> Seq<char> {
    "type"@
}

pub open spec fn heat_pump_tag() -> Seq<char> {
    "HeatPump"@
}

/// A direct child of the container qualifies for transformation iff it has
/// a `type` field whose string value is exactly `HeatPump` and it has a
/// `product_reference` field.
pub open spec fn qualifies(dev: Seq<(Seq<char>, JVal)>) -> bool {
    &&& obj_has_key(dev, type_key())
    &&& obj_val(dev, type_key()) == JVal::Str(heat_pump_tag())
    &&& obj_has_key(dev, product_reference_key())
}

/// The reference value of a qualifying device.
pub open spec fn device_ref(dev: Seq<(Seq<char>, JVal)>) -> JVal {
    obj_val(dev, product_reference_key())
}

/// The keys that resolution produced.
pub open spec fn rp_keys(rp: Seq<(String, usize)>) -> Seq<Seq<char>> {
    Seq::new(rp.len(), |j: int| rp[j].0@)
}

/// The resolved map is consistent with the catalog: every entry names the
/// catalog position of its reference.
pub open spec fn rp_wf(rp: Seq<(String, usize)>, c: Seq<(Seq<char>, Product)>) -> bool {
    forall|j: int|
        0 <= j < rp.len() ==> {
            &&& cat_key_idx(c, (#[trigger] rp[j]).0@) == rp[j].1
            &&& rp[j].1 < c.len()
            &&& c[rp[j].1 as int].0 == rp[j].0@
        }
}

/// Every qualifying device holds a string reference that resolution covered.
pub open spec fn spec_transform_ok(v: JVal, keys: Seq<Seq<char>>) -> bool {
    match v {
        JVal::Obj(entries) => forall|i: int|
            0 <= i < entries.len() && (#[trigger] entries[i]).0 == hsw_key()
                ==> hsw_children_ok(entries[i].1, keys),
        _ => true,
    }
}

pub open spec fn hsw_children_ok(h: JVal, keys: Seq<Seq<char>>) -> bool {
    match h {
        JVal::Obj(cs) => forall|i: int|
            0 <= i < cs.len() ==> device_entry_ok((#[trigger] cs[i]).1, keys),
        _ => true,
    }
}

pub open spec fn device_entry_ok(c: JVal, keys: Seq<Seq<char>>) -> bool {
    match c {
        JVal::Obj(dev) => qualifies(dev) ==> {
            &&& device_ref(dev) is Str
            &&& keys.contains(device_ref(dev)->Str_0)
        },
        _ => true,
    }
}

/// The offending reference value of one container child, if any: the
/// reference of a qualifying device that is not a string, or that
/// resolution does not cover.
pub open spec fn offense_of(c: JVal, keys: Seq<Seq<char>>) -> Option<JVal> {
    match c {
        JVal::Obj(dev) => {
            if qualifies(dev) && !(device_ref(dev) is Str && keys.contains(
                device_ref(dev)->Str_0,
            )) {
                Some(device_ref(dev))
            } else {
                None
            }
        },
        _ => None,
    }
}

/// The first offending reference among the container's children, in order.
pub open spec fn first_offense_children(cs: Seq<(Seq<char>, JVal)>, keys: Seq<Seq<char>>) -> Option<
    JVal,
>
    decreases cs.len(),
{
    if cs.len() == 0 {
        None
    } else if offense_of(cs[0].1, keys) is Some {
        offense_of(cs[0].1, keys)
    } else {
        first_offense_children(cs.drop_first(), keys)
    }
}

pub open spec fn first_offense_hsw(h: JVal, keys: Seq<Seq<char>>) -> Option<JVal> {
    match h {
        JVal::Obj(cs) => first_offense_children(cs, keys),
        _ => None,
    }
}

/// The first offending reference in the whole document: the first
/// container entry, in order, whose children hold one.
pub open spec fn first_offense(v: JVal, keys: Seq<Seq<char>>) -> Option<JVal> {
    match v {
        JVal::Obj(es) => first_offense_entries(es, keys),
        _ => None,
    }
}

pub open spec fn first_offense_entries(es: Seq<(Seq<char>, JVal)>, keys: Seq<Seq<char>>) -> Option<
    JVal,
>
    decreases es.len(),
{
    if es.len() == 0 {
        None
    } else if es[0].0 == hsw_key() && first_offense_hsw(es[0].1, keys) is Some {
        first_offense_hsw(es[0].1, keys)
    } else {
        first_offense_entries(es.drop_first(), keys)
    }
}

/// How a device failure reports an offending reference value: the unknown
/// key when the value is a string, else the offending value itself.
pub open spec fn error_reports(e: ResolvePcdbProductsError, rv: JVal) -> bool {
    if rv is Str {
        e matches ResolvePcdbProductsError::UnknownProductReference(k) && k@ == rv->Str_0
    } else {
        e matches ResolvePcdbProductsError::InvalidProductCategoryReference(bad) && bad.jv() == rv
    }
}

/// A child is in order exactly when it holds no offense.
pub proof fn lemma_device_ok_no_offense(c: JVal, keys: Seq<Seq<char>>)
    ensures
        device_entry_ok(c, keys) <==> offense_of(c, keys) is None,
{
}

pub proof fn lemma_children_ok_no_offense(cs: Seq<(Seq<char>, JVal)>, keys: Seq<Seq<char>>)
    ensures
        (forall|i: int| 0 <= i < cs.len() ==> device_entry_ok((#[trigger] cs[i]).1, keys))
            <==> first_offense_children(cs, keys) is None,
    decreases cs.len(),
{
    if cs.len() > 0 {
        lemma_children_ok_no_offense(cs.drop_first(), keys);
        assert(forall|j: int| 1 <= j < cs.len() ==> #[trigger] cs[j] == cs.drop_first()[j - 1]);
        lemma_device_ok_no_offense(cs[0].1, keys);
    }
}

/// An offense at `l`, with the children before it in order, pins the
/// container's first offense.
pub proof fn lemma_first_offense_children_at(
    cs: Seq<(Seq<char>, JVal)>,
    keys: Seq<Seq<char>>,
    l: int,
)
    requires
        0 <= l < cs.len(),
        offense_of(cs[l].1, keys) is Some,
        forall|j: int| 0 <= j < l ==> device_entry_ok((#[trigger] cs[j]).1, keys),
    ensures
        first_offense_children(cs, keys) == offense_of(cs[l].1, keys),
    decreases cs.len(),
{
    if l > 0 {
        assert(forall|j: int| 1 <= j < cs.len() ==> #[trigger] cs[j] == cs.drop_first()[j - 1]);
        lemma_device_ok_no_offense(cs[0].1, keys);
        lemma_first_offense_children_at(cs.drop_first(), keys, l - 1);
    }
}

/// An offending container entry at `i`, with every earlier container in
/// order, pins the document's first offense.
pub proof fn lemma_first_offense_entries_at(
    es: Seq<(Seq<char>, JVal)>,
    keys: Seq<Seq<char>>,
    i: int,
)
    requires
        0 <= i < es.len(),
        es[i].0 == hsw_key(),
        first_offense_hsw(es[i].1, keys) is Some,
        forall|j: int|
            0 <= j < i && (#[trigger] es[j]).0 == hsw_key() ==> hsw_children_ok(es[j].1, keys),
    ensures
        first_offense_entries(es, keys) == first_offense_hsw(es[i].1, keys),
    decreases es.len(),
{
    if i > 0 {
        assert(forall|j: int| 1 <= j < es.len() ==> #[trigger] es[j] == es.drop_first()[j - 1]);
        if es[0].0 == hsw_key() {
            match es[0].1 {
                JVal::Obj(cs) => {
                    lemma_children_ok_no_offense(cs, keys);
                },
                _ => {},
            }
        }
        lemma_first_offense_entries_at(es.drop_first(), keys, i - 1);
    }
}

/// One measurement as it appears in the output, with the renamed fields.
pub open spec fn spec_datum_obj(d: HeatPumpTestDatum) -> JVal {
    JVal::Obj(
        seq![
            ("capacity"@, JVal::Num(d.capacity@)),
            ("cop"@, JVal::Num(d.coefficient_of_performance@)),
            ("degradation_coeff"@, JVal::Num(d.degradation_coefficient@)),
            ("design_flow_temp"@, JVal::Num(int_lit(d.design_flow_temperature as int))),
            ("temp_outlet"@, JVal::Num(d.temperature_outlet@)),
            ("temp_source"@, JVal::Num(d.temperature_source@)),
            ("temp_test"@, JVal::Num(int_lit(d.temperature_test as int))),
            ("test_letter"@, JVal::Str(d.test_letter.spec_str())),
        ],
    )
}

/// The output test data: every measurement in order, except those with
/// test letter `E`, which the downstream engine does not accept.
pub open spec fn spec_test_data_out(s: Seq<HeatPumpTestDatum>) -> Seq<JVal>
    decreases s.len(),
{
    if s.len() == 0 {
        Seq::empty()
    } else if s[0].test_letter is E {
        spec_test_data_out(s.drop_first())
    } else {
        seq![spec_datum_obj(s[0])] + spec_test_data_out(s.drop_first())
    }
}

pub proof fn lemma_test_data_snoc(s: Seq<HeatPumpTestDatum>, x: HeatPumpTestDatum)
    ensures
        spec_test_data_out(s.push(x)) == if x.test_letter is E {
            spec_test_data_out(s)
        } else {
            spec_test_data_out(s) + seq![spec_datum_obj(x)]
        },
    decreases s.len(),
{
    if s.len() == 0 {
        assert(s.push(x).drop_first() =~= s);
        assert(s.push(x)[0] == x);
        assert(spec_test_data_out(s) =~= Seq::<JVal>::empty());
        if !(x.test_letter is E) {
            assert(spec_test_data_out(s.push(x)) =~= spec_test_data_out(s) + seq![
                spec_datum_obj(x),
            ]);
        }
    } else {
        assert(s.push(x).drop_first() =~= s.drop_first().push(x));
        lemma_test_data_snoc(s.drop_first(), x);
        assert(s.push(x)[0] == s[0]);
        if !(x.test_letter is E) {
            if !(s[0].test_letter is E) {
                assert(spec_test_data_out(s.push(x)) =~= spec_test_data_out(s) + seq![
                    spec_datum_obj(x),
                ]);
            }
        }
    }
}

/// Every entry of the output test data is a measurement of the input whose
/// test letter is not `E`.
pub proof fn lemma_test_data_no_e(s: Seq<HeatPumpTestDatum>)
    ensures
        forall|i: int|
            0 <= i < spec_test_data_out(s).len() ==> exists|j: int|
                0 <= j < s.len() && !(s[j].test_letter is E) && #[trigger] spec_test_data_out(
                    s,
                )[i] == spec_datum_obj(s[j]),
    decreases s.len(),
{
    if s.len() > 0 {
        lemma_test_data_no_e(s.drop_first());
        assert forall|i: int| 0 <= i < spec_test_data_out(s).len() implies exists|j: int|
            0 <= j < s.len() && !(s[j].test_letter is E) && #[trigger] spec_test_data_out(s)[i]
                == spec_datum_obj(s[j]) by {
            let rest = spec_test_data_out(s.drop_first());
            if s[0].test_letter is E {
                let j0 = choose|j: int|
                    0 <= j < s.drop_first().len() && !(s.drop_first()[j].test_letter is E)
                        && rest[i] == spec_datum_obj(s.drop_first()[j]);
                assert(s.drop_first()[j0] == s[j0 + 1]);
                assert(spec_test_data_out(s)[i] == spec_datum_obj(s[j0 + 1]));
            } else {
                if i == 0 {
                    assert(spec_test_data_out(s)[0] == spec_datum_obj(s[0]));
                } else {
                    let j0 = choose|j: int|
                        0 <= j < s.drop_first().len() && !(s.drop_first()[j].test_letter is E)
                            && rest[i - 1] == spec_datum_obj(s.drop_first()[j]);
                    assert(s.drop_first()[j0] == s[j0 + 1]);
                    assert(spec_test_data_out(s)[i] == rest[i - 1]);
                }
            }
        }
    }
}

/// The rewritten parameter block of one device, produced from a resolved
/// air-source heat pump: the exact field mapping of the output schema,
/// applied in order, with the reference field removed at the end.
pub open spec fn spec_transform_device(dev: Seq<(Seq<char>, JVal)>, p: Product) -> Seq<
    (Seq<char>, JVal),
> {
    match p.technology {
        Technology::AirSourceHeatPump {
            source_type,
            sink_type,
            backup_control_type,
            modulating_control,
            minimum_modulation_rate_35,
            minimum_modulation_rate_55,
            time_constant_on_off_operation,
            temp_return_feed_max,
            temp_lower_operating_limit,
            min_temp_diff_flow_return_for_hp_to_operate,
            variable_temp_control,
            power_heating_circ_pump,
            power_heating_warm_air_fan,
            power_source_circ_pump,
            power_standby,
            power_crankcase_heater,
            power_off,
            power_maximum_backup,
            test_data,
            ..
        } => {
            let s1 = spec_obj_set(
                dev,
                "backup_ctrl_type"@,
                JVal::Str(backup_control_type.spec_str()),
            );
            let s2 = spec_obj_set(
                s1,
                "min_temp_diff_flow_return_for_hp_to_operate"@,
                JVal::Num(int_lit(min_temp_diff_flow_return_for_hp_to_operate as int)),
            );
            let s3 = if modulating_control {
                let t = spec_obj_set(
                    s2,
                    "min_modulation_rate_35"@,
                    JVal::Num(minimum_modulation_rate_35@),
                );
                spec_obj_set(t, "min_modulation_rate_55"@, JVal::Num(minimum_modulation_rate_55@))
            } else {
                s2
            };
            let s4 = spec_obj_set(s3, "modulating_control"@, JVal::Bool(modulating_control));
            let s5 = spec_obj_set(s4, "power_crankcase_heater"@, JVal::Num(power_crankcase_heater@));
            let s6 = spec_obj_set(s5, "power_heating_circ_pump"@, JVal::Num(power_heating_circ_pump@));
            let s7 = spec_obj_set(
                s6,
                "power_heating_warm_air_fan"@,
                JVal::Num(power_heating_warm_air_fan@),
            );
            let s8 = spec_obj_set(s7, "power_max_backup"@, JVal::Num(power_maximum_backup@));
            let s9 = spec_obj_set(s8, "power_off"@, JVal::Num(power_off@));
            let s10 = spec_obj_set(s9, "power_source_circ_pump"@, JVal::Num(power_source_circ_pump@));
            let s11 = spec_obj_set(s10, "power_standby"@, JVal::Num(power_standby@));
            let s12 = spec_obj_set(s11, "sink_type"@, JVal::Str(sink_type.spec_str()));
            let s13 = spec_obj_set(s12, "source_type"@, JVal::Str(source_type.spec_str()));
            let s14 = spec_obj_set(
                s13,
                "temp_lower_operating_limit"@,
                JVal::Num(temp_lower_operating_limit@),
            );
            let s15 = spec_obj_set(s14, "temp_return_feed_max"@, JVal::Num(temp_return_feed_max@));
            let s16 = spec_obj_set(
                s15,
                "test_data_EN14825"@,
                JVal::Arr(spec_test_data_out(test_data@)),
            );
            let s17 = spec_obj_set(
                s16,
                "time_constant_onoff_operation"@,
                JVal::Num(int_lit(time_constant_on_off_operation as int)),
            );
            let s18 = spec_obj_set(s17, "time_delay_backup"@, JVal::Num("2"@));
            let s19 = spec_obj_set(
                s18,
                "var_flow_temp_ctrl_during_test"@,
                JVal::Bool(variable_temp_control),
            );
            spec_obj_remove(s19, product_reference_key())
        },
    }
}

/// The whole transformed document: the value under the fixed top-level key
/// is rewritten, everything else is untouched; a document that is not an
/// object, or has no such key, is returned as it is.
pub open spec fn spec_transform(v: JVal, c: Seq<(Seq<char>, Product)>) -> JVal {
    match v {
        JVal::Obj(entries) => JVal::Obj(
            Seq::new(
                entries.len(),
                |i: int|
                    if entries[i].0 == hsw_key() {
                        (entries[i].0, spec_transform_hsw(entries[i].1, c))
                    } else {
                        entries[i]
                    },
            ),
        ),
        _ => v,
    }
}

pub open spec fn spec_transform_hsw(h: JVal, c: Seq<(Seq<char>, Product)>) -> JVal {
    match h {
        JVal::Obj(cs) => JVal::Obj(
            Seq::new(cs.len(), |i: int| (cs[i].0, spec_transform_child(cs[i].1, c))),
        ),
        _ => h,
    }
}

pub open spec fn spec_transform_child(v: JVal, c: Seq<(Seq<char>, Product)>) -> JVal {
    match v {
        JVal::Obj(dev) => {
            if qualifies(dev) && device_ref(dev) is Str && cat_key_idx(
                c,
                device_ref(dev)->Str_0,
            ) >= 0 {
                JVal::Obj(spec_transform_device(dev, c[cat_key_idx(c, device_ref(dev)->Str_0)].1))
            } else {
                v
            }
        },
        _ => v,
    }
}

/// Build one output measurement.
fn datum_node(d: &HeatPumpTestDatum) -> (r: JsonNode)
    ensures
        r.jv() == spec_datum_obj(*d),
{
    broadcast use group_jv_lemmas;

    let mut v: Vec<(String, JsonNode)> = Vec::new();
    v.push(("capacity".to_owned(), JsonNode::Num(d.capacity.to_literal())));
    v.push(("cop".to_owned(), JsonNode::Num(d.coefficient_of_performance.to_literal())));
    v.push(("degradation_coeff".to_owned(), JsonNode::Num(d.degradation_coefficient.to_literal())));
    v.push(
        (
            "design_flow_temp".to_owned(),
            JsonNode::Num(int_to_literal(d.design_flow_temperature as i64)),
        ),
    );
    v.push(("temp_outlet".to_owned(), JsonNode::Num(d.temperature_outlet.to_literal())));
    v.push(("temp_source".to_owned(), JsonNode::Num(d.temperature_source.to_literal())));
    v.push(("temp_test".to_owned(), JsonNode::Num(int_to_literal(d.temperature_test as i64))));
    v.push(("test_letter".to_owned(), JsonNode::Str(d.test_letter.as_str().to_owned())));
    proof {
        assert forall|j: int| 0 <= j < v@.len() implies #[trigger] jv_entries(v@)[j]
            == spec_datum_obj(*d)->Obj_0[j] by {
            crate::json::lemma_jv_entries_index(v@, j);
        }
        crate::json::lemma_jv_entries_len(v@);
        assert(jv_entries(v@) =~= spec_datum_obj(*d)->Obj_0);
    }
    JsonNode::Obj(v)
}

/// Build the output test data array, dropping the `E` measurements.
#[verifier::loop_isolation(false)]
fn build_test_data(test_data: &Vec<HeatPumpTestDatum>) -> (r: JsonNode)
    ensures
        r.jv() == JVal::Arr(spec_test_data_out(test_data@)),
{
    broadcast use group_jv_lemmas;

    let n = test_data.len();
    let mut out: Vec<JsonNode> = Vec::new();
    let mut i: usize = 0;
    proof {
        assert(test_data@.take(0) =~= Seq::<HeatPumpTestDatum>::empty());
    }
    while i < n
        invariant
            0 <= i <= n,
            jv_list(out@) == spec_test_data_out(test_data@.take(i as int)),
        decreases n - i,
    {
        let ghost pre = out@;
        proof {
            assert(test_data@.take(i as int + 1) =~= test_data@.take(i as int).push(
                test_data@[i as int],
            ));
            lemma_test_data_snoc(test_data@.take(i as int), test_data@[i as int]);
        }
        if !test_data[i].test_letter.is_e() {
            let node = datum_node(&test_data[i]);
            out.push(node);
            proof {
                assert forall|j: int| 0 <= j < out@.len() implies #[trigger] jv_list(out@)[j] == (
                jv_list(pre) + seq![spec_datum_obj(test_data@[i as int])])[j] by {
                    crate::json::lemma_jv_list_index(out@, j);
                    if j < pre.len() {
                        crate::json::lemma_jv_list_index(pre, j);
                    }
                }
                crate::json::lemma_jv_list_len(out@);
                crate::json::lemma_jv_list_len(pre);
                assert(jv_list(out@) =~= jv_list(pre) + seq![
                    spec_datum_obj(test_data@[i as int]),
                ]);
            }
        }
        i = i + 1;
    }
    proof {
        assert(test_data@.take(n as int) =~= test_data@);
    }
    JsonNode::Arr(out)
}

/// Rewrite one qualifying device's entries from the resolved product:
/// the per-field mapping of the output schema. A technology variant other
/// than an air-source heat pump would be reported as a category mismatch
/// here; the catalog models exactly one variant today, so the match is
/// exhaustive without one.
#[verifier::rlimit(100)]
pub fn transform_heat_pump(device: Vec<(String, JsonNode)>, product: &Product) -> (r: Vec<
    (String, JsonNode),
>)
    ensures
        jv_entries(r@) == spec_transform_device(jv_entries(device@), *product),
{
    let ghost dev0 = jv_entries(device@);
    let mut out = device;
    match &product.technology {
        Technology::AirSourceHeatPump {
            source_type,
            sink_type,
            backup_control_type,
            modulating_control,
            minimum_modulation_rate_35,
            minimum_modulation_rate_55,
            time_constant_on_off_operation,
            temp_return_feed_max,
            temp_lower_operating_limit,
            min_temp_diff_flow_return_for_hp_to_operate,
            variable_temp_control,
            power_heating_circ_pump,
            power_heating_warm_air_fan,
            power_source_circ_pump,
            power_standby,
            power_crankcase_heater,
            power_off,
            power_maximum_backup,
            test_data,
            ..
        } => {
            obj_set(
                &mut out,
                "backup_ctrl_type".to_owned(),
                JsonNode::Str(backup_control_type.as_str().to_owned()),
            );
            obj_set(
                &mut out,
                "min_temp_diff_flow_return_for_hp_to_operate".to_owned(),
                JsonNode::Num(int_to_literal(*min_temp_diff_flow_return_for_hp_to_operate as i64)),
            );
            if *modulating_control {
                obj_set(
                    &mut out,
                    "min_modulation_rate_35".to_owned(),
                    JsonNode::Num(minimum_modulation_rate_35.to_literal()),
                );
                obj_set(
                    &mut out,
                    "min_modulation_rate_55".to_owned(),
                    JsonNode::Num(minimum_modulation_rate_55.to_literal()),
                );
            }
            obj_set(&mut out, "modulating_control".to_owned(), JsonNode::Bool(*modulating_control));
            obj_set(
                &mut out,
                "power_crankcase_heater".to_owned(),
                JsonNode::Num(power_crankcase_heater.to_literal()),
            );
            obj_set(
                &mut out,
                "power_heating_circ_pump".to_owned(),
                JsonNode::Num(power_heating_circ_pump.to_literal()),
            );
            obj_set(
                &mut out,
                "power_heating_warm_air_fan".to_owned(),
                JsonNode::Num(power_heating_warm_air_fan.to_literal()),
            );
            obj_set(
                &mut out,
                "power_max_backup".to_owned(),
                JsonNode::Num(power_maximum_backup.to_literal()),
            );
            obj_set(&mut out, "power_off".to_owned(), JsonNode::Num(power_off.to_literal()));
            obj_set(
                &mut out,
                "power_source_circ_pump".to_owned(),
                JsonNode::Num(power_source_circ_pump.to_literal()),
            );
            obj_set(&mut out, "power_standby".to_owned(), JsonNode::Num(power_standby.to_literal()));
            obj_set(&mut out, "sink_type".to_owned(), JsonNode::Str(sink_type.as_str().to_owned()));
            obj_set(
                &mut out,
                "source_type".to_owned(),
                JsonNode::Str(source_type.as_str().to_owned()),
            );
            obj_set(
                &mut out,
                "temp_lower_operating_limit".to_owned(),
                JsonNode::Num(temp_lower_operating_limit.to_literal()),
            );
            obj_set(
                &mut out,
                "temp_return_feed_max".to_owned(),
                JsonNode::Num(temp_return_feed_max.to_literal()),
            );
            let td = build_test_data(test_data);
            obj_set(&mut out, "test_data_EN14825".to_owned(), td);
            obj_set(
                &mut out,
                "time_constant_onoff_operation".to_owned(),
                JsonNode::Num(int_to_literal(*time_constant_on_off_operation as i64)),
            );
            obj_set(&mut out, "time_delay_backup".to_owned(), JsonNode::Num("2".to_owned()));
            obj_set(
                &mut out,
                "var_flow_temp_ctrl_during_test".to_owned(),
                JsonNode::Bool(*variable_temp_control),
            );
            let prk: String = "product_reference".to_owned();
            let cleaned = obj_remove(out, &prk);
            cleaned
        },
    }
}

/// Find a reference among the resolved products; the position returned is
/// the catalog position recorded for it.
#[verifier::loop_isolation(false)]
fn rp_find(products: &Vec<(String, usize)>, key: &String) -> (r: Option<usize>)
    ensures
        match r {
            Some(idx) => exists|j: int|
                0 <= j < products@.len() && (#[trigger] products@[j]).0@ == key@
                    && products@[j].1 == idx,
            None => !rp_keys(products@).contains(key@),
        },
{
    let n = products.len();
    let mut i: usize = 0;
    while i < n
        invariant
            0 <= i <= n,
            forall|j: int| 0 <= j < i ==> (#[trigger] products@[j]).0@ != key@,
        decreases n - i,
    {
        if products[i].0 == *key {
            return Some(products[i].1);
        }
        i = i + 1;
    }
    proof {
        assert forall|j: int| 0 <= j < rp_keys(products@).len() implies #[trigger] rp_keys(
            products@,
        )[j] != key@ by {
            assert(rp_keys(products@)[j] == products@[j].0@);
        }
    }
    None
}

/// Transform one direct child of the heat-source container: a child object
/// with a `type` of `HeatPump` and a `product_reference` field is rewritten
/// from its resolved product; anything else is left untouched.
#[verifier::loop_isolation(false)]
fn transform_child(c: &JsonNode, products: &Vec<(String, usize)>, catalog: &Catalog) -> (r: Result<
    JsonNode,
    ResolvePcdbProductsError,
>)
    requires
        rp_wf(products@, catalog@),
    ensures
        match r {
            Ok(out) => {
                &&& device_entry_ok(c.jv(), rp_keys(products@))
                &&& out.jv() == spec_transform_child(c.jv(), catalog@)
            },
            Err(e) => {
                &&& !device_entry_ok(c.jv(), rp_keys(products@))
                &&& offense_of(c.jv(), rp_keys(products@)) is Some
                &&& error_reports(e, offense_of(c.jv(), rp_keys(products@))->Some_0)
            },
        },
{
    match c {
        JsonNode::Obj(dev) => {
            let ghost devv = jv_entries(dev@);
            let tkey: String = "type".to_owned();
            let hp_tag: String = "HeatPump".to_owned();
            let prk: String = "product_reference".to_owned();
            let type_ok: bool = match obj_get(dev, &tkey) {
                Some(tn) => match tn {
                    JsonNode::Str(tv) => *tv == hp_tag,
                    _ => false,
                },
                None => false,
            };
            proof {
                assert(type_ok == (obj_has_key(devv, type_key()) && obj_val(devv, type_key())
                    == JVal::Str(heat_pump_tag())));
            }
            if !type_ok {
                let out = clone_node(c);
                proof {
                    assert(!qualifies(devv));
                    assert(spec_transform_child(c.jv(), catalog@) == c.jv());
                }
                return Ok(out);
            }
            match obj_get(dev, &prk) {
                None => {
                    let out = clone_node(c);
                    proof {
                        assert(!qualifies(devv));
                        assert(spec_transform_child(c.jv(), catalog@) == c.jv());
                    }
                    Ok(out)
                },
                Some(rn) => {
                    proof {
                        assert(qualifies(devv));
                        assert(rn.jv() == device_ref(devv));
                    }
                    match rn {
                        JsonNode::Str(rs) => {
                            match rp_find(products, rs) {
                                Some(idx) => {
                                    proof {
                                        let j = choose|j: int|
                                            0 <= j < products@.len() && products@[j].0@ == rs@
                                                && products@[j].1 == idx;
                                        assert(cat_key_idx(catalog@, rs@) == idx);
                                        assert(rp_keys(products@)[j] == rs@);
                                        assert(rp_keys(products@).contains(rs@));
                                    }
                                    let product = catalog.product_at(idx);
                                    let devc = clone_entries(dev);
                                    let newdev = transform_heat_pump(devc, product);
                                    proof {
                                        assert(spec_transform_child(c.jv(), catalog@)
                                            == JVal::Obj(
                                            spec_transform_device(
                                                devv,
                                                catalog@[cat_key_idx(catalog@, rs@)].1,
                                            ),
                                        ));
                                    }
                                    Ok(JsonNode::Obj(newdev))
                                },
                                None => {
                                    proof {
                                        assert(offense_of(c.jv(), rp_keys(products@)) == Some(
                                            device_ref(devv),
                                        ));
                                    }
                                    Err(
                                        ResolvePcdbProductsError::UnknownProductReference(
                                            rs.clone(),
                                        ),
                                    )
                                },
                            }
                        },
                        other => {
                            let bad = clone_node(other);
                            proof {
                                assert(offense_of(c.jv(), rp_keys(products@)) == Some(
                                    device_ref(devv),
                                ));
                            }
                            Err(ResolvePcdbProductsError::InvalidProductCategoryReference(bad))
                        },
                    }
                },
            }
        },
        _ => {
            let out = clone_node(c);
            Ok(out)
        },
    }
}

/// Transform the heat-source container: each direct child in turn.
#[verifier::loop_isolation(false)]
fn transform_hsw(h: &JsonNode, products: &Vec<(String, usize)>, catalog: &Catalog) -> (r: Result<
    JsonNode,
    ResolvePcdbProductsError,
>)
    requires
        rp_wf(products@, catalog@),
    ensures
        match r {
            Ok(out) => {
                &&& hsw_children_ok(h.jv(), rp_keys(products@))
                &&& out.jv() == spec_transform_hsw(h.jv(), catalog@)
            },
            Err(e) => {
                &&& !hsw_children_ok(h.jv(), rp_keys(products@))
                &&& first_offense_hsw(h.jv(), rp_keys(products@)) is Some
                &&& error_reports(e, first_offense_hsw(h.jv(), rp_keys(products@))->Some_0)
            },
        },
{
    broadcast use group_jv_lemmas;

    match h {
        JsonNode::Obj(children) => {
            let ghost cs = jv_entries(children@);
            let n = children.len();
            let mut out: Vec<(String, JsonNode)> = Vec::new();
            let mut i: usize = 0;
            while i < n
                invariant
                    0 <= i <= n,
                    out@.len() == i,
                    forall|j: int| 0 <= j < i ==> device_entry_ok((#[trigger] cs[j]).1, rp_keys(products@)),
                    forall|j: int|
                        0 <= j < i ==> (#[trigger] out@[j]).0@ == cs[j].0 && out@[j].1.jv()
                            == spec_transform_child(cs[j].1, catalog@),
                decreases n - i,
            {
                proof {
                    crate::json::lemma_jv_entries_index(children@, i as int);
                }
                match transform_child(&children[i].1, products, catalog) {
                    Ok(t) => {
                        let k = children[i].0.clone();
                        out.push((k, t));
                    },
                    Err(e) => {
                        proof {
                            assert(!device_entry_ok(cs[i as int].1, rp_keys(products@)));
                            lemma_first_offense_children_at(cs, rp_keys(products@), i as int);
                        }
                        return Err(e);
                    },
                }
                i = i + 1;
            }
            proof {
                assert forall|j: int| 0 <= j < out@.len() implies #[trigger] jv_entries(out@)[j]
                    == (cs[j].0, spec_transform_child(cs[j].1, catalog@)) by {
                    crate::json::lemma_jv_entries_index(out@, j);
                }
                assert(jv_entries(out@) =~= spec_transform_hsw(h.jv(), catalog@)->Obj_0);
            }
            Ok(JsonNode::Obj(out))
        },
        _ => {
            let out = clone_node(h);
            Ok(out)
        },
    }
}

/// Transform a whole document: locate the container object at the fixed
/// top-level key; a document without it, or where it is not an object,
/// is returned unchanged. All qualifying devices must carry a string
/// reference covered by `products`, or the transformation fails without
/// producing output. No input produces a category-mismatch failure: the
/// catalog's only technology variant is the accepted one.
#[verifier::loop_isolation(false)]
pub fn transform_heat_pumps(doc: &JsonNode, products: &Vec<(String, usize)>, catalog: &Catalog) -> (r:
    Result<JsonNode, ResolvePcdbProductsError>)
    requires
        rp_wf(products@, catalog@),
    ensures
        match r {
            Ok(out) => {
                &&& spec_transform_ok(doc.jv(), rp_keys(products@))
                &&& out.jv() == spec_transform(doc.jv(), catalog@)
            },
            Err(e) => {
                &&& !spec_transform_ok(doc.jv(), rp_keys(products@))
                &&& first_offense(doc.jv(), rp_keys(products@)) is Some
                &&& error_reports(e, first_offense(doc.jv(), rp_keys(products@))->Some_0)
                &&& !(e is ProductCategoryMismatches)
            },
        },
{
    broadcast use group_jv_lemmas;

    match doc {
        JsonNode::Obj(entries) => {
            let ghost es = jv_entries(entries@);
            let hkey: String = "HeatSourceWet".to_owned();
            let n = entries.len();
            let mut out: Vec<(String, JsonNode)> = Vec::new();
            let mut i: usize = 0;
            while i < n
                invariant
                    0 <= i <= n,
                    out@.len() == i,
                    forall|j: int|
                        0 <= j < i && (#[trigger] es[j]).0 == hsw_key() ==> hsw_children_ok(
                            es[j].1,
                            rp_keys(products@),
                        ),
                    forall|j: int|
                        0 <= j < i ==> #[trigger] jv_entries(out@)[j] == (if es[j].0 == hsw_key() {
                            (es[j].0, spec_transform_hsw(es[j].1, catalog@))
                        } else {
                            es[j]
                        }),
                decreases n - i,
            {
                proof {
                    crate::json::lemma_jv_entries_index(entries@, i as int);
                }
                let ghost outpre = out@;
                if entries[i].0 == hkey {
                    match transform_hsw(&entries[i].1, products, catalog) {
                        Ok(t) => {
                            let k = entries[i].0.clone();
                            out.push((k, t));
                        },
                        Err(e) => {
                            proof {
                                lemma_first_offense_entries_at(es, rp_keys(products@), i as int);
                            }
                            return Err(e);
                        },
                    }
                } else {
                    let k = entries[i].0.clone();
                    let v = clone_node(&entries[i].1);
                    out.push((k, v));
                }
                proof {
                    assert forall|j: int| 0 <= j < out@.len() implies #[trigger] jv_entries(
                        out@,
                    )[j] == (if es[j].0 == hsw_key() {
                        (es[j].0, spec_transform_hsw(es[j].1, catalog@))
                    } else {
                        es[j]
                    }) by {
                        crate::json::lemma_jv_entries_index(out@, j);
                        if j < outpre.len() {
                            crate::json::lemma_jv_entries_index(outpre, j);
                            assert(out@[j] == outpre[j]);
                        }
                    }
                }
                i = i + 1;
            }
            proof {
                assert forall|j: int| 0 <= j < out@.len() implies #[trigger] jv_entries(out@)[j]
                    == spec_transform(doc.jv(), catalog@)->Obj_0[j] by {
                    crate::json::lemma_jv_entries_index(out@, j);
                }
                assert(jv_entries(out@) =~= spec_transform(doc.jv(), catalog@)->Obj_0);
            }
            Ok(JsonNode::Obj(out))
        },
        _ => {
            let out = clone_node(doc);
            Ok(out)
        },
    }
}

/// A measurement object that does not carry test letter `E`.
pub open spec fn no_e_datum(v: JVal) -> bool {
    v matches JVal::Obj(d) ==> !(obj_has_key(d, "test_letter"@) && obj_val(d, "test_letter"@)
        == JVal::Str("E"@))
}

/// In a transformed device the reference field is gone, the output test
/// data is present, and it holds no measurement with test letter `E`.
#[verifier::rlimit(100)]
pub proof fn lemma_transformed_device(dev: Seq<(Seq<char>, JVal)>, p: Product)
    ensures
        !obj_has_key(spec_transform_device(dev, p), product_reference_key()),
        obj_has_key(spec_transform_device(dev, p), "test_data_EN14825"@),
        obj_val(spec_transform_device(dev, p), "test_data_EN14825"@) matches JVal::Arr(items)
            && forall|i: int| 0 <= i < items.len() ==> no_e_datum(#[trigger] items[i]),
{
    reveal_strlit("test_data_EN14825");
    reveal_strlit("time_constant_onoff_operation");
    reveal_strlit("time_delay_backup");
    reveal_strlit("var_flow_temp_ctrl_during_test");
    reveal_strlit("product_reference");
    reveal_strlit("test_letter");
    reveal_strlit("capacity");
    reveal_strlit("cop");
    reveal_strlit("degradation_coeff");
    reveal_strlit("design_flow_temp");
    reveal_strlit("temp_outlet");
    reveal_strlit("temp_source");
    reveal_strlit("temp_test");
    reveal_strlit("A");
    reveal_strlit("B");
    reveal_strlit("C");
    reveal_strlit("D");
    reveal_strlit("E");
    reveal_strlit("F");
    match p.technology {
        Technology::AirSourceHeatPump {
            source_type,
            sink_type,
            backup_control_type,
            modulating_control,
            minimum_modulation_rate_35,
            minimum_modulation_rate_55,
            time_constant_on_off_operation,
            temp_return_feed_max,
            temp_lower_operating_limit,
            min_temp_diff_flow_return_for_hp_to_operate,
            variable_temp_control,
            power_heating_circ_pump,
            power_heating_warm_air_fan,
            power_source_circ_pump,
            power_standby,
            power_crankcase_heater,
            power_off,
            power_maximum_backup,
            test_data,
            ..
        } => {
            let s1 = spec_obj_set(
                dev,
                "backup_ctrl_type"@,
                JVal::Str(backup_control_type.spec_str()),
            );
            let s2 = spec_obj_set(
                s1,
                "min_temp_diff_flow_return_for_hp_to_operate"@,
                JVal::Num(int_lit(min_temp_diff_flow_return_for_hp_to_operate as int)),
            );
            let s3 = if modulating_control {
                let t = spec_obj_set(
                    s2,
                    "min_modulation_rate_35"@,
                    JVal::Num(minimum_modulation_rate_35@),
                );
                spec_obj_set(t, "min_modulation_rate_55"@, JVal::Num(minimum_modulation_rate_55@))
            } else {
                s2
            };
            let s4 = spec_obj_set(s3, "modulating_control"@, JVal::Bool(modulating_control));
            let s5 = spec_obj_set(s4, "power_crankcase_heater"@, JVal::Num(power_crankcase_heater@));
            let s6 = spec_obj_set(s5, "power_heating_circ_pump"@, JVal::Num(power_heating_circ_pump@));
            let s7 = spec_obj_set(
                s6,
                "power_heating_warm_air_fan"@,
                JVal::Num(power_heating_warm_air_fan@),
            );
            let s8 = spec_obj_set(s7, "power_max_backup"@, JVal::Num(power_maximum_backup@));
            let s9 = spec_obj_set(s8, "power_off"@, JVal::Num(power_off@));
            let s10 = spec_obj_set(s9, "power_source_circ_pump"@, JVal::Num(power_source_circ_pump@));
            let s11 = spec_obj_set(s10, "power_standby"@, JVal::Num(power_standby@));
            let s12 = spec_obj_set(s11, "sink_type"@, JVal::Str(sink_type.spec_str()));
            let s13 = spec_obj_set(s12, "source_type"@, JVal::Str(source_type.spec_str()));
            let s14 = spec_obj_set(
                s13,
                "temp_lower_operating_limit"@,
                JVal::Num(temp_lower_operating_limit@),
            );
            let s15 = spec_obj_set(s14, "temp_return_feed_max"@, JVal::Num(temp_return_feed_max@));
            let td = JVal::Arr(spec_test_data_out(test_data@));
            let s16 = spec_obj_set(s15, "test_data_EN14825"@, td);
            let s17 = spec_obj_set(
                s16,
                "time_constant_onoff_operation"@,
                JVal::Num(int_lit(time_constant_on_off_operation as int)),
            );
            let s18 = spec_obj_set(s17, "time_delay_backup"@, JVal::Num("2"@));
            let s19 = spec_obj_set(
                s18,
                "var_flow_temp_ctrl_during_test"@,
                JVal::Bool(variable_temp_control),
            );
            let fin = spec_obj_remove(s19, product_reference_key());
            assert(spec_transform_device(dev, p) == fin);
            assert("test_data_EN14825"@.len() == 17);
            assert("time_constant_onoff_operation"@.len() == 29);
            assert("var_flow_temp_ctrl_during_test"@.len() == 30);
            assert("test_data_EN14825"@[1] != "time_delay_backup"@[1]);
            assert("test_data_EN14825"@[0] != "product_reference"@[0]);
            crate::json::lemma_obj_remove_removes(s19, product_reference_key());
            crate::json::lemma_obj_set_hits(s15, "test_data_EN14825"@, td);
            crate::json::lemma_obj_set_frame(
                s16,
                "time_constant_onoff_operation"@,
                JVal::Num(int_lit(time_constant_on_off_operation as int)),
                "test_data_EN14825"@,
            );
            crate::json::lemma_obj_set_frame(
                s17,
                "time_delay_backup"@,
                JVal::Num("2"@),
                "test_data_EN14825"@,
            );
            crate::json::lemma_obj_set_frame(
                s18,
                "var_flow_temp_ctrl_during_test"@,
                JVal::Bool(variable_temp_control),
                "test_data_EN14825"@,
            );
            crate::json::lemma_obj_remove_frame(
                s19,
                product_reference_key(),
                "test_data_EN14825"@,
            );
            assert(obj_val(fin, "test_data_EN14825"@) == td);
            lemma_test_data_no_e(test_data@);
            let items = spec_test_data_out(test_data@);
            assert forall|i: int| 0 <= i < items.len() implies no_e_datum(#[trigger] items[i]) by {
                let j = choose|j: int|
                    0 <= j < test_data@.len() && !(test_data@[j].test_letter is E) && items[i]
                        == spec_datum_obj(test_data@[j]);
                let d = test_data@[j];
                let de = spec_datum_obj(d)->Obj_0;
                assert(de[7].0 == "test_letter"@);
                assert forall|l: int| 0 <= l < 7 implies de[l].0 != "test_letter"@ by {
                    assert(de[0].0 == "capacity"@);
                    assert(de[1].0 == "cop"@);
                    assert(de[2].0 == "degradation_coeff"@);
                    assert(de[3].0 == "design_flow_temp"@);
                    assert(de[4].0 == "temp_outlet"@);
                    assert(de[5].0 == "temp_source"@);
                    assert(de[6].0 == "temp_test"@);
                    assert("capacity"@.len() == 8);
                    assert("cop"@.len() == 3);
                    assert("degradation_coeff"@.len() == 17);
                    assert("design_flow_temp"@.len() == 16);
                    assert("temp_test"@.len() == 9);
                    assert("test_letter"@.len() == 11);
                    assert("temp_outlet"@[2] != "test_letter"@[2]);
                    assert("temp_source"@[2] != "test_letter"@[2]);
                }
                crate::json::lemma_key_idx_first(de, "test_letter"@, 7);
                assert(obj_val(de, "test_letter"@) == JVal::Str(d.test_letter.spec_str()));
                assert("A"@[0] != "E"@[0]);
                assert("B"@[0] != "E"@[0]);
                assert("C"@[0] != "E"@[0]);
                assert("D"@[0] != "E"@[0]);
                assert("F"@[0] != "E"@[0]);
                assert(d.test_letter.spec_str() != "E"@);
            }
        },
    }
}

/// Where the rewritten device stands in the whole transformed document:
/// at its own place, as the transform of its entries under its resolved
/// product. Together with the device facts above, a qualifying device in
/// the output has no reference field and no `E` measurement.
pub proof fn lemma_transform_locates_device(
    dv: JVal,
    c: Seq<(Seq<char>, Product)>,
    i: int,
    l: int,
)
    requires
        dv matches JVal::Obj(es) && 0 <= i < es.len() && es[i].0 == hsw_key(),
        dv->Obj_0[i].1 matches JVal::Obj(cs) && 0 <= l < cs.len(),
        dv->Obj_0[i].1->Obj_0[l].1 matches JVal::Obj(dev) && qualifies(dev),
        device_ref(dv->Obj_0[i].1->Obj_0[l].1->Obj_0) is Str,
        cat_key_idx(c, device_ref(dv->Obj_0[i].1->Obj_0[l].1->Obj_0)->Str_0) >= 0,
    ensures
        spec_transform(dv, c) is Obj,
        spec_transform(dv, c)->Obj_0.len() == dv->Obj_0.len(),
        spec_transform(dv, c)->Obj_0[i].0 == hsw_key(),
        spec_transform(dv, c)->Obj_0[i].1 is Obj,
        spec_transform(dv, c)->Obj_0[i].1->Obj_0.len() == dv->Obj_0[i].1->Obj_0.len(),
        spec_transform(dv, c)->Obj_0[i].1->Obj_0[l].0 == dv->Obj_0[i].1->Obj_0[l].0,
        spec_transform(dv, c)->Obj_0[i].1->Obj_0[l].1 == JVal::Obj(
            spec_transform_device(
                dv->Obj_0[i].1->Obj_0[l].1->Obj_0,
                c[cat_key_idx(c, device_ref(dv->Obj_0[i].1->Obj_0[l].1->Obj_0)->Str_0)].1,
            ),
        ),
{
    let es = dv->Obj_0;
    let cs = es[i].1->Obj_0;
    assert(spec_transform(dv, c)->Obj_0[i] == (es[i].0, spec_transform_hsw(es[i].1, c)));
    assert(spec_transform_hsw(es[i].1, c)->Obj_0[l] == (
        cs[l].0,
        spec_transform_child(cs[l].1, c),
    ));
}

} // verus!
