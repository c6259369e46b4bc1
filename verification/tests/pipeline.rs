//! End-to-end tests of the resolution pipeline, with a small demonstration
//! catalog and an input schema built in test code.
use resolve_products::codec::SchemaValidator;
use resolve_products::errors::{JsonValidationErrorKind, ResolvePcdbProductsError};
use resolve_products::extract::extract_product_references;
use resolve_products::json::JsonNode;
use resolve_products::products::{
    find_product_by_reference, find_products_for_references, Catalog, CatalogError, Decimal,
    HeatPumpBackupControlType, HeatPumpSinkType, HeatPumpSourceType, HeatPumpTestDatum,
    HeatPumpTestLetter, Manufacturer, Product, Technology, YearOfManufacture,
};
use resolve_products::render::render_document;
use resolve_products::{parse_document, resolve_products};

fn dec(s: &str) -> Decimal {
    Decimal::new(s.to_string()).unwrap()
}

fn manufacturer() -> Manufacturer {
    Manufacturer {
        id: "123".to_string(),
        manufacturer_reference_number: "456".to_string(),
        current_name: "Example Heat Industries".to_string(),
        secondary_addressable: None,
        primary_addressable: None,
        street_name: "1 Plant Way".to_string(),
        locality_name: None,
        town_name: "Milltown".to_string(),
        administrative_area_name: None,
        postcode: "MT1 2AB".to_string(),
        country: Some("UK".to_string()),
        phone_number: "0123456789".to_string(),
        url: "https://manufacturer.example".to_string(),
        updated: "2023-11-15 10:30:00".to_string(),
    }
}

fn datum(letter: HeatPumpTestLetter, flow: i32, capacity: &str) -> HeatPumpTestDatum {
    HeatPumpTestDatum {
        design_flow_temperature: flow,
        test_letter: letter,
        temperature_test: 7,
        temperature_source: dec("7.0"),
        temperature_outlet: dec("35.0"),
        capacity: dec(capacity),
        coefficient_of_performance: dec("4.1"),
        degradation_coefficient: dec("0.9"),
    }
}

fn heat_pump_product(id: u32, model: &str, capacity: &str) -> Product {
    Product {
        id,
        manufacturer: manufacturer(),
        original_manufacturer_name: None,
        brand_name: "ExampleBrand".to_string(),
        model_name: model.to_string(),
        model_qualifier: "Mk1".to_string(),
        first_year_of_manufacture: 2020,
        final_year_of_manufacture: Some(YearOfManufacture::Current),
        technology: Technology::AirSourceHeatPump {
            energy_supply: "mains elec".to_string(),
            source_type: HeatPumpSourceType::OutsideAir,
            sink_type: HeatPumpSinkType::Water,
            backup_control_type: HeatPumpBackupControlType::TopUp,
            modulating_control: true,
            standard_rating_capacity_20c: dec(capacity),
            standard_rating_capacity_35c: dec(capacity),
            standard_rating_capacity_55c: dec(capacity),
            minimum_modulation_rate_35: dec("0.35"),
            minimum_modulation_rate_55: dec("0.4"),
            time_constant_on_off_operation: 140,
            temp_return_feed_max: dec("70.0"),
            temp_lower_operating_limit: dec("-5.0"),
            min_temp_diff_flow_return_for_hp_to_operate: 0,
            variable_temp_control: true,
            power_heating_circ_pump: dec("0.015"),
            power_heating_warm_air_fan: dec("0"),
            power_source_circ_pump: dec("0.01"),
            power_standby: dec("0.015"),
            power_crankcase_heater: dec("0.01"),
            power_off: dec("0.015"),
            power_maximum_backup: dec("3.0"),
            test_data: vec![
                datum(HeatPumpTestLetter::A, 35, capacity),
                datum(HeatPumpTestLetter::E, 35, capacity),
                datum(HeatPumpTestLetter::F, 55, capacity),
            ],
        },
    }
}

fn catalog() -> Catalog {
    let mut c = Catalog::new();
    c.add("HEATPUMP-SMALL".to_string(), heat_pump_product(1, "Small Heat Pump", "5.0"))
        .unwrap();
    c.add("HEATPUMP-MEDIUM".to_string(), heat_pump_product(2, "Medium Heat Pump", "8.4"))
        .unwrap();
    c.add("HEATPUMP-LARGE".to_string(), heat_pump_product(3, "Large Heat Pump", "12.0"))
        .unwrap();
    c
}

const INPUT_SCHEMA: &str = r#"{
    "type": "object",
    "additionalProperties": false,
    "properties": {
        "HeatSourceWet": {},
        "Zone": {},
        "note": {}
    }
}"#;

fn validator() -> SchemaValidator {
    let schema = parse_document(INPUT_SCHEMA).unwrap();
    SchemaValidator::new(&schema).ok().unwrap()
}

const HEAT_PUMP_DOC: &str = r#"{
    "HeatSourceWet": {
        "hp 1": {
            "type": "HeatPump",
            "product_reference": "HEATPUMP-MEDIUM",
            "EnergySupply": "mains elec"
        }
    },
    "Zone": 1
}"#;

fn resolve_ok(input: &str) -> String {
    resolve_products(input, &catalog(), &validator()).unwrap()
}

fn out_value(input: &str) -> serde_json::Value {
    serde_json::from_str(&resolve_ok(input)).unwrap()
}

#[test]
fn test_failing_input_fails_schema_check() {
    let result = resolve_products(r#"{"foo": "bar"}"#, &catalog(), &validator());
    assert!(matches!(result, Err(ResolvePcdbProductsError::InvalidRequest(_))));
}

#[test]
fn test_extract_product_references_from_document() {
    let doc = parse_document(HEAT_PUMP_DOC).unwrap();
    let refs = extract_product_references(&doc).unwrap();
    assert_eq!(refs, vec!["HEATPUMP-MEDIUM".to_string()]);
}

#[test]
fn test_resolve_products_produces_passing_output() {
    let out = out_value(HEAT_PUMP_DOC);
    let target_schema: serde_json::Value = serde_json::from_str(
        r#"{
        "type": "object",
        "properties": {
            "HeatSourceWet": {
                "type": "object",
                "additionalProperties": {
                    "type": "object",
                    "required": [
                        "type", "source_type", "sink_type", "backup_ctrl_type",
                        "modulating_control", "power_off", "power_standby",
                        "power_crankcase_heater", "test_data_EN14825",
                        "time_delay_backup"
                    ],
                    "not": {"required": ["product_reference"]},
                    "properties": {
                        "test_data_EN14825": {
                            "type": "array",
                            "items": {
                                "type": "object",
                                "properties": {
                                    "test_letter": {"enum": ["A", "B", "C", "D", "F"]}
                                }
                            }
                        }
                    }
                }
            }
        }
    }"#,
    )
    .unwrap();
    assert!(jsonschema::is_valid(&target_schema, &out));
}

#[test]
fn test_resolved_device_fields() {
    let out = out_value(HEAT_PUMP_DOC);
    let hp = &out["HeatSourceWet"]["hp 1"];
    assert!(hp.get("product_reference").is_none());
    assert_eq!(hp["source_type"], serde_json::Value::String("OutsideAir".to_string()));
    assert_eq!(hp["sink_type"], serde_json::Value::String("Water".to_string()));
    assert_eq!(hp["backup_ctrl_type"], serde_json::Value::String("TopUp".to_string()));
    assert_eq!(hp["modulating_control"], serde_json::Value::Bool(true));
    assert_eq!(hp["var_flow_temp_ctrl_during_test"], serde_json::Value::Bool(true));
    assert_eq!(hp["power_off"].as_f64(), Some(0.015));
    assert_eq!(hp["power_standby"].as_f64(), Some(0.015));
    assert_eq!(hp["power_max_backup"].as_f64(), Some(3.0));
    assert_eq!(hp["min_modulation_rate_35"].as_f64(), Some(0.35));
    assert_eq!(hp["min_modulation_rate_55"].as_f64(), Some(0.4));
    assert_eq!(hp["time_constant_onoff_operation"].as_i64(), Some(140));
    assert_eq!(hp["time_delay_backup"].as_i64(), Some(2));
    assert_eq!(hp["min_temp_diff_flow_return_for_hp_to_operate"].as_i64(), Some(0));
    assert_eq!(hp["temp_lower_operating_limit"].as_f64(), Some(-5.0));
    // the untouched input field is still there
    assert_eq!(hp["EnergySupply"], serde_json::Value::String("mains elec".to_string()));
}

#[test]
fn test_resolved_test_data_drops_letter_e() {
    let out = out_value(HEAT_PUMP_DOC);
    let td = out["HeatSourceWet"]["hp 1"]["test_data_EN14825"].as_array().unwrap();
    assert_eq!(td.len(), 2);
    for entry in td {
        assert_ne!(entry["test_letter"], serde_json::Value::String("E".to_string()));
        assert_eq!(entry["cop"].as_f64(), Some(4.1));
        assert_eq!(entry["degradation_coeff"].as_f64(), Some(0.9));
        assert!(entry.get("coefficient_of_performance").is_none());
    }
    assert_eq!(td[0]["test_letter"], serde_json::Value::String("A".to_string()));
    assert_eq!(td[0]["design_flow_temp"].as_i64(), Some(35));
    assert_eq!(td[1]["test_letter"], serde_json::Value::String("F".to_string()));
}

#[test]
fn test_document_without_heat_source_wet_is_unchanged() {
    let out = resolve_ok(r#"{"Zone": 1, "note": "no heating"}"#);
    assert_eq!(out, r#"{"Zone":1,"note":"no heating"}"#);
}

#[test]
fn test_heat_source_wet_not_an_object_is_unchanged() {
    let out = resolve_ok(r#"{"HeatSourceWet": "none"}"#);
    assert_eq!(out, r#"{"HeatSourceWet":"none"}"#);
}

#[test]
fn test_unknown_reference_fails_with_that_key() {
    let doc = r#"{"HeatSourceWet": {"hp": {"type": "HeatPump", "product_reference": "HEATPUMP-UNKNOWN"}}}"#;
    let result = resolve_products(doc, &catalog(), &validator());
    match result {
        Err(ResolvePcdbProductsError::UnknownProductReference(k)) => {
            assert_eq!(k, "HEATPUMP-UNKNOWN");
        },
        _ => panic!("expected an unknown-reference failure"),
    }
}

#[test]
fn test_non_string_reference_is_a_data_error() {
    let doc = r#"{"HeatSourceWet": {"hp": {"type": "HeatPump", "product_reference": 42}}}"#;
    let result = resolve_products(doc, &catalog(), &validator());
    match result {
        Err(ResolvePcdbProductsError::InvalidProductCategoryReference(v)) => {
            assert!(matches!(v, JsonNode::Num(n) if n == "42"));
        },
        _ => panic!("expected an invalid-reference failure"),
    }
}

#[test]
fn test_unparseable_input_is_invalid_json() {
    let result = resolve_products("not json at all", &catalog(), &validator());
    assert!(matches!(result, Err(ResolvePcdbProductsError::InvalidJson)));
}

#[test]
fn test_resolution_is_idempotent_on_resolved_documents() {
    // a document with no qualifying device resolves to itself, byte for byte
    let once = resolve_ok(r#"{"Zone": 1, "note": "done"}"#);
    let twice = resolve_ok(&once);
    assert_eq!(once, twice);
    // and a fully resolved heat-pump document is a fixed point from the
    // first re-run on
    let resolved = resolve_ok(HEAT_PUMP_DOC);
    let again = resolve_ok(&resolved);
    let third = resolve_ok(&again);
    assert_eq!(again, third);
    let v1: serde_json::Value = serde_json::from_str(&resolved).unwrap();
    let v2: serde_json::Value = serde_json::from_str(&again).unwrap();
    assert_eq!(v1, v2);
}

#[test]
fn test_serialization_matches_reference_form() {
    // rendering agrees with serde_json's own compact form
    for text in [
        r#"{"Zone": 1, "note": "line\nbreak \"quoted\" \u0001 end", "ratio": 0.5}"#,
        r#"[1, 2.5, -3, 1e30, true, null, "\\"]"#,
        r#"{"nested": {"a": [{}, []], "b": ""}}"#,
    ] {
        let doc = parse_document(text).unwrap();
        let mine = render_document(&doc);
        let value: serde_json::Value = serde_json::from_str(text).unwrap();
        assert_eq!(mine, serde_json::to_string(&value).unwrap());
    }
}

#[test]
fn test_extraction_sees_references_at_any_depth() {
    let doc = parse_document(
        r#"{"a": [{"product_reference": "X1"}, {"deep": {"product_reference": "X2"}}],
            "product_reference": "X3"}"#,
    )
    .unwrap();
    let refs = extract_product_references(&doc).unwrap();
    assert_eq!(refs, vec!["X1".to_string(), "X2".to_string(), "X3".to_string()]);
}

#[test]
fn test_can_read_fake_file() {
    assert_eq!(catalog().len(), 3);
}

#[test]
fn test_find_product_by_reference() {
    let c = catalog();
    let found = find_product_by_reference(&c, &"HEATPUMP-SMALL".to_string());
    assert_eq!(found.unwrap().model_name, "Small Heat Pump");
    assert!(find_product_by_reference(&c, &"HEATPUMP-UNKNOWN".to_string()).is_none());
}

#[test]
fn test_find_products_for_references_keeps_order_and_fails_fast() {
    let c = catalog();
    let refs = vec!["HEATPUMP-LARGE".to_string(), "HEATPUMP-SMALL".to_string()];
    let resolved = find_products_for_references(&c, &refs).unwrap();
    assert_eq!(resolved.len(), 2);
    assert_eq!(resolved[0].0, "HEATPUMP-LARGE");
    assert_eq!(resolved[0].1, 2);
    assert_eq!(resolved[1].0, "HEATPUMP-SMALL");
    assert_eq!(resolved[1].1, 0);
    let bad = vec!["HEATPUMP-SMALL".to_string(), "NOPE-1".to_string(), "NOPE-2".to_string()];
    match find_products_for_references(&c, &bad) {
        Err(ResolvePcdbProductsError::UnknownProductReference(k)) => assert_eq!(k, "NOPE-1"),
        _ => panic!("expected the first missing key"),
    }
}

#[test]
fn test_decimal_literal_shapes() {
    assert!(Decimal::new("4.5".to_string()).is_some());
    assert!(Decimal::new("-0.25".to_string()).is_some());
    assert!(Decimal::new("0".to_string()).is_some());
    assert!(Decimal::new("140".to_string()).is_some());
    assert!(Decimal::new("04.5".to_string()).is_none());
    assert!(Decimal::new("4.".to_string()).is_none());
    assert!(Decimal::new(".5".to_string()).is_none());
    assert!(Decimal::new("".to_string()).is_none());
    assert!(Decimal::new("-".to_string()).is_none());
    assert!(Decimal::new("1e5".to_string()).is_none());
}

#[test]
fn test_year_of_manufacture() {
    assert!(YearOfManufacture::Current.is_current());
    assert!(!YearOfManufacture::Year(2021).is_current());
    assert_eq!(YearOfManufacture::Current.as_year(), None);
    assert_eq!(YearOfManufacture::Year(2021).as_year(), Some(2021));
}

#[test]
fn test_validation_reports_every_failure() {
    let schema = parse_document(
        r#"{"type": "object", "properties": {"Zone": {"type": "integer"}, "note": {"type": "string"}}}"#,
    )
    .unwrap();
    let v = SchemaValidator::new(&schema).ok().unwrap();
    let bad = parse_document(r#"{"Zone": "x", "note": 5}"#).unwrap();
    let errs = v.violations(&bad);
    assert_eq!(errs.len(), 2);
    assert_eq!(errs[0].instance_path, "/Zone");
    assert_eq!(errs[1].instance_path, "/note");
    for e in &errs {
        assert!(matches!(e.kind, JsonValidationErrorKind::TypeMismatch { .. }));
    }
    let good = parse_document(r#"{"Zone": 3, "note": "ok"}"#).unwrap();
    assert_eq!(v.violations(&good).len(), 0);
}

#[test]
fn test_schema_violation_error_carries_the_failure() {
    let result = resolve_products(r#"{"foo": "bar"}"#, &catalog(), &validator());
    match result {
        Err(ResolvePcdbProductsError::InvalidRequest(e)) => {
            assert!(!e.schema_path.is_empty());
            assert!(matches!(
                e.kind,
                JsonValidationErrorKind::FalseSchema
                    | JsonValidationErrorKind::AdditionalProperties { .. }
            ));
        },
        _ => panic!("expected a schema-violation failure"),
    }
}

#[test]
fn test_remote_schema_references_are_refused() {
    let schema = parse_document(r#"{"$ref": "https://schemas.example/none.json"}"#).unwrap();
    assert!(SchemaValidator::new(&schema).is_err());
}

#[test]
fn test_catalog_rejects_duplicates_and_bad_manufacturers() {
    let mut c = Catalog::new();
    assert!(c.add("HP-1".to_string(), heat_pump_product(1, "One", "5.0")).is_ok());
    assert!(matches!(
        c.add("HP-1".to_string(), heat_pump_product(2, "Two", "6.0")),
        Err(CatalogError::DuplicateProductReference)
    ));
    let mut bad_id = heat_pump_product(3, "Three", "7.0");
    bad_id.manufacturer.id = "12a".to_string();
    assert!(matches!(
        c.add("HP-3".to_string(), bad_id),
        Err(CatalogError::InvalidManufacturerData)
    ));
    let mut bad_updated = heat_pump_product(4, "Four", "8.0");
    bad_updated.manufacturer.updated = "2023-13-15 10:30:00".to_string();
    assert!(matches!(
        c.add("HP-4".to_string(), bad_updated),
        Err(CatalogError::InvalidManufacturerData)
    ));
    // the timestamp pattern also admits a comma in the month class
    let mut comma_month = heat_pump_product(5, "Five", "9.0");
    comma_month.manufacturer.updated = "noted 2023-1,-15 10:30:00".to_string();
    assert!(c.add("HP-5".to_string(), comma_month).is_ok());
}
