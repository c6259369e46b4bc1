//! The product catalog: catalog entries, the single modeled technology
//! variant, manufacturer data with its fixed-pattern validation, and the
//! resolver that bridges extracted references to catalog entries.
use vstd::prelude::*;
use crate::errors::ResolvePcdbProductsError;
use crate::extract::str_views;
use crate::patterns::{
    all_digits, check_all_digits, check_contains_datetime, check_dec_lit, contains_datetime,
    is_dec_lit,
};

verus! {

/// An exact decimal value, held as its literal text (for example `-3.25`):
/// the pipeline never computes with catalog values, it copies them into the
/// output document, so the literal form preserves the exact value.
pub struct Decimal {
    lit: String,
}

impl View for Decimal {
    type V = Seq<char>;

    closed spec fn view(&self) -> Seq<char> {
        self.lit@
    }
}

impl Decimal {
    /// Every decimal carries a well-formed literal.
    #[verifier::type_invariant]
    pub closed spec fn wf(self) -> bool {
        is_dec_lit(self.lit@)
    }

    /// Accept `lit` as a decimal value if it has the literal shape.
    pub fn new(lit: String) -> (r: Option<Decimal>)
        ensures
            match r {
                Some(d) => is_dec_lit(lit@) && d@ == lit@,
                None => !is_dec_lit(lit@),
            },
    {
        if check_dec_lit(lit.as_str()) {
            Some(Decimal { lit })
        } else {
            None
        }
    }

    /// The literal text of this value.
    pub fn to_literal(&self) -> (r: String)
        ensures
            r@ == self@,
            is_dec_lit(r@),
    {
        proof {
            use_type_invariant(self);
        }
        self.lit.clone()
    }
}

/// Where a heat pump draws its heat from.
#[derive(Clone, Copy)]
pub enum HeatPumpSourceType {
    Ground,
    OutsideAir,
    ExhaustAirMEV,
    ExhaustAirMVHR,
    ExhaustAirMixed,
    WaterGround,
    WaterSurface,
    HeatNetwork,
}

impl HeatPumpSourceType {
    pub open spec fn spec_str(&self) -> Seq<char> {
        match self {
            HeatPumpSourceType::Ground => "Ground"@,
            HeatPumpSourceType::OutsideAir => "OutsideAir"@,
            HeatPumpSourceType::ExhaustAirMEV => "ExhaustAirMEV"@,
            HeatPumpSourceType::ExhaustAirMVHR => "ExhaustAirMVHR"@,
            HeatPumpSourceType::ExhaustAirMixed => "ExhaustAirMixed"@,
            HeatPumpSourceType::WaterGround => "WaterGround"@,
            HeatPumpSourceType::WaterSurface => "WaterSurface"@,
            HeatPumpSourceType::HeatNetwork => "HeatNetwork"@,
        }
    }

    /// The name of the variant, as it is serialized.
    pub fn as_str(&self) -> (r: &'static str)
        ensures
            r@ == self.spec_str(),
    {
        match self {
            HeatPumpSourceType::Ground => "Ground",
            HeatPumpSourceType::OutsideAir => "OutsideAir",
            HeatPumpSourceType::ExhaustAirMEV => "ExhaustAirMEV",
            HeatPumpSourceType::ExhaustAirMVHR => "ExhaustAirMVHR",
            HeatPumpSourceType::ExhaustAirMixed => "ExhaustAirMixed",
            HeatPumpSourceType::WaterGround => "WaterGround",
            HeatPumpSourceType::WaterSurface => "WaterSurface",
            HeatPumpSourceType::HeatNetwork => "HeatNetwork",
        }
    }
}

/// Where a heat pump delivers its heat.
#[derive(Clone, Copy)]
pub enum HeatPumpSinkType {
    Water,
    Air,
}

impl HeatPumpSinkType {
    pub open spec fn spec_str(&self) -> Seq<char> {
        match self {
            HeatPumpSinkType::Water => "Water"@,
            HeatPumpSinkType::Air => "Air"@,
        }
    }

    pub fn as_str(&self) -> (r: &'static str)
        ensures
            r@ == self.spec_str(),
    {
        match self {
            HeatPumpSinkType::Water => "Water",
            HeatPumpSinkType::Air => "Air",
        }
    }
}

/// The control regime of a heat pump's backup heater. The variant without
/// backup serializes as `None`, as the catalog data writes it.
#[derive(Clone, Copy)]
pub enum HeatPumpBackupControlType {
    NoBackup,
    TopUp,
    Substitute,
}

impl HeatPumpBackupControlType {
    pub open spec fn spec_str(&self) -> Seq<char> {
        match self {
            HeatPumpBackupControlType::NoBackup => "None"@,
            HeatPumpBackupControlType::TopUp => "TopUp"@,
            HeatPumpBackupControlType::Substitute => "Substitute"@,
        }
    }

    pub fn as_str(&self) -> (r: &'static str)
        ensures
            r@ == self.spec_str(),
    {
        match self {
            HeatPumpBackupControlType::NoBackup => "None",
            HeatPumpBackupControlType::TopUp => "TopUp",
            HeatPumpBackupControlType::Substitute => "Substitute",
        }
    }
}

/// The standardized test condition letter of one measurement.
#[derive(Clone, Copy)]
pub enum HeatPumpTestLetter {
    A,
    B,
    C,
    D,
    E,
    F,
}

impl HeatPumpTestLetter {
    pub open spec fn spec_str(&self) -> Seq<char> {
        match self {
            HeatPumpTestLetter::A => "A"@,
            HeatPumpTestLetter::B => "B"@,
            HeatPumpTestLetter::C => "C"@,
            HeatPumpTestLetter::D => "D"@,
            HeatPumpTestLetter::E => "E"@,
            HeatPumpTestLetter::F => "F"@,
        }
    }

    pub fn as_str(&self) -> (r: &'static str)
        ensures
            r@ == self.spec_str(),
    {
        match self {
            HeatPumpTestLetter::A => "A",
            HeatPumpTestLetter::B => "B",
            HeatPumpTestLetter::C => "C",
            HeatPumpTestLetter::D => "D",
            HeatPumpTestLetter::E => "E",
            HeatPumpTestLetter::F => "F",
        }
    }

    /// Whether this is the letter `E`, the condition the downstream engine
    /// does not accept.
    pub fn is_e(&self) -> (b: bool)
        ensures
            b == (self is E),
    {
        matches!(self, HeatPumpTestLetter::E)
    }
}

/// One manufacturer test-rig measurement.
pub struct HeatPumpTestDatum {
    pub design_flow_temperature: i32,
    pub test_letter: HeatPumpTestLetter,
    pub temperature_test: i32,
    pub temperature_source: Decimal,
    pub temperature_outlet: Decimal,
    pub capacity: Decimal,
    pub coefficient_of_performance: Decimal,
    pub degradation_coefficient: Decimal,
}

/// The equipment category of a product, a closed sum keyed on the catalog's
/// discriminator. Exactly one variant is modeled today; any other
/// discriminator fails catalog construction.
pub enum Technology {
    AirSourceHeatPump {
        energy_supply: String,
        source_type: HeatPumpSourceType,
        sink_type: HeatPumpSinkType,
        backup_control_type: HeatPumpBackupControlType,
        modulating_control: bool,
        standard_rating_capacity_20c: Decimal,
        standard_rating_capacity_35c: Decimal,
        standard_rating_capacity_55c: Decimal,
        minimum_modulation_rate_35: Decimal,
        minimum_modulation_rate_55: Decimal,
        time_constant_on_off_operation: i32,
        temp_return_feed_max: Decimal,
        temp_lower_operating_limit: Decimal,
        min_temp_diff_flow_return_for_hp_to_operate: i32,
        variable_temp_control: bool,
        power_heating_circ_pump: Decimal,
        power_heating_warm_air_fan: Decimal,
        power_source_circ_pump: Decimal,
        power_standby: Decimal,
        power_crankcase_heater: Decimal,
        power_off: Decimal,
        power_maximum_backup: Decimal,
        test_data: Vec<HeatPumpTestDatum>,
    },
}

/// A final year of manufacture: either a concrete year or the sentinel
/// meaning the product is still made.
pub enum YearOfManufacture {
    Current,
    Year(u16),
}

impl YearOfManufacture {
    /// Whether the product is still in manufacture.
    pub fn is_current(&self) -> (b: bool)
        ensures
            b == (self is Current),
    {
        matches!(self, YearOfManufacture::Current)
    }

    /// The concrete year, if there is one.
    pub fn as_year(&self) -> (r: Option<u16>)
        ensures
            match r {
                Some(y) => self matches YearOfManufacture::Year(x) && x == y,
                None => self is Current,
            },
    {
        match self {
            YearOfManufacture::Year(year) => Some(*year),
            YearOfManufacture::Current => None,
        }
    }
}

/// A manufacturer record, as the catalog carries it.
pub struct Manufacturer {
    pub id: String,
    pub manufacturer_reference_number: String,
    pub current_name: String,
    pub secondary_addressable: Option<String>,
    pub primary_addressable: Option<String>,
    pub street_name: String,
    pub locality_name: Option<String>,
    pub town_name: String,
    pub administrative_area_name: Option<String>,
    pub postcode: String,
    pub country: Option<String>,
    pub phone_number: String,
    pub url: String,
    pub updated: String,
}

/// The fixed-pattern validation of a manufacturer record: numeric
/// identifiers and a timestamp in the update field. The classes are the
/// ASCII ones (see the patterns module).
pub open spec fn manufacturer_valid(m: Manufacturer) -> bool {
    &&& all_digits(m.id@)
    &&& all_digits(m.manufacturer_reference_number@)
    &&& contains_datetime(m.updated@)
}

/// Check a manufacturer record against the fixed patterns.
pub fn check_manufacturer(m: &Manufacturer) -> (b: bool)
    ensures
        b == manufacturer_valid(*m),
{
    check_all_digits(m.id.as_str()) && check_all_digits(m.manufacturer_reference_number.as_str())
        && check_contains_datetime(m.updated.as_str())
}

/// One catalog entry: identifiers, the manufacturer record, the years of
/// manufacture, and the technology parameters.
pub struct Product {
    pub id: u32,
    pub manufacturer: Manufacturer,
    pub original_manufacturer_name: Option<String>,
    pub brand_name: String,
    pub model_name: String,
    pub model_qualifier: String,
    pub first_year_of_manufacture: u16,
    pub final_year_of_manufacture: Option<YearOfManufacture>,
    pub technology: Technology,
}

/// A failure while building the catalog. The catalog is fixed data, so such
/// a failure indicates a corrupt data source, not a caller error; the host
/// is expected to abort on it.
#[derive(Debug)]
pub enum CatalogError {
    InvalidManufacturerData,
    DuplicateProductReference,
}

/// The read-only table of known products, keyed by reference string,
/// preserving insertion order for deterministic iteration. Keys are unique
/// and every entry's manufacturer record passes the fixed patterns.
pub struct Catalog {
    entries: Vec<(String, Product)>,
}

impl View for Catalog {
    type V = Seq<(Seq<char>, Product)>;

    closed spec fn view(&self) -> Seq<(Seq<char>, Product)> {
        Seq::new(self.entries@.len(), |i: int| (self.entries@[i].0@, self.entries@[i].1))
    }
}

/// Index of the first catalog entry with key `k`, or `-1`.
pub open spec fn cat_key_idx(s: Seq<(Seq<char>, Product)>, k: Seq<char>) -> int
    decreases s.len(),
{
    if s.len() == 0 {
        -1
    } else if s[0].0 == k {
        0
    } else if cat_key_idx(s.drop_first(), k) < 0 {
        -1
    } else {
        cat_key_idx(s.drop_first(), k) + 1
    }
}

/// The catalog entry under key `k`, if any.
pub open spec fn spec_cat_lookup(s: Seq<(Seq<char>, Product)>, k: Seq<char>) -> Option<Product> {
    if cat_key_idx(s, k) >= 0 {
        Some(s[cat_key_idx(s, k)].1)
    } else {
        None
    }
}

pub proof fn lemma_cat_key_idx(s: Seq<(Seq<char>, Product)>, k: Seq<char>)
    ensures
        cat_key_idx(s, k) >= 0 ==> {
            &&& cat_key_idx(s, k) < s.len()
            &&& s[cat_key_idx(s, k)].0 == k
            &&& forall|j: int| 0 <= j < cat_key_idx(s, k) ==> s[j].0 != k
        },
        cat_key_idx(s, k) < 0 ==> forall|j: int| 0 <= j < s.len() ==> s[j].0 != k,
    decreases s.len(),
{
    if s.len() > 0 && s[0].0 != k {
        lemma_cat_key_idx(s.drop_first(), k);
        assert(forall|j: int| 1 <= j < s.len() ==> #[trigger] s[j] == s.drop_first()[j - 1]);
    }
}

pub proof fn lemma_cat_key_idx_first(s: Seq<(Seq<char>, Product)>, k: Seq<char>, i: int)
    requires
        0 <= i < s.len(),
        s[i].0 == k,
        forall|j: int| 0 <= j < i ==> s[j].0 != k,
    ensures
        cat_key_idx(s, k) == i,
    decreases s.len(),
{
    if i > 0 {
        assert(forall|j: int| 1 <= j < s.len() ==> #[trigger] s[j] == s.drop_first()[j - 1]);
        lemma_cat_key_idx_first(s.drop_first(), k, i - 1);
    }
}

impl Catalog {
    /// An empty catalog.
    pub fn new() -> (c: Catalog)
        ensures
            c@ == Seq::<(Seq<char>, Product)>::empty(),
    {
        let c = Catalog { entries: Vec::new() };
        proof {
            assert(c@ =~= Seq::<(Seq<char>, Product)>::empty());
        }
        c
    }

    /// Append one entry. The manufacturer record must pass the fixed
    /// patterns and the key must be fresh; otherwise the catalog is left
    /// unchanged and the defect is reported.
    #[verifier::loop_isolation(false)]
    pub fn add(&mut self, reference: String, product: Product) -> (r: Result<(), CatalogError>)
        ensures
            r is Ok <==> manufacturer_valid(product.manufacturer) && cat_key_idx(
                old(self)@,
                reference@,
            ) < 0,
            r is Ok ==> final(self)@ == old(self)@.push((reference@, product)),
            r is Err ==> final(self)@ == old(self)@,
            r == Result::<(), CatalogError>::Err(CatalogError::InvalidManufacturerData)
                <==> !manufacturer_valid(product.manufacturer),
            r == Result::<(), CatalogError>::Err(CatalogError::DuplicateProductReference)
                <==> manufacturer_valid(product.manufacturer) && cat_key_idx(
                old(self)@,
                reference@,
            ) >= 0,
    {
        if !check_manufacturer(&product.manufacturer) {
            return Err(CatalogError::InvalidManufacturerData);
        }
        let n = self.entries.len();
        let mut i: usize = 0;
        while i < n
            invariant
                0 <= i <= n,
                n == self.entries.len(),
                self@ == old(self)@,
                forall|j: int| 0 <= j < i ==> (#[trigger] self@[j]).0 != reference@,
            decreases n - i,
        {
            proof {
                assert(self@[i as int] == (self.entries@[i as int].0@, self.entries@[i as int].1));
            }
            if self.entries[i].0 == reference {
                proof {
                    lemma_cat_key_idx_first(self@, reference@, i as int);
                }
                return Err(CatalogError::DuplicateProductReference);
            }
            i = i + 1;
        }
        proof {
            lemma_cat_key_idx(self@, reference@);
        }
        let ghost prev = self@;
        let ghost gr = reference@;
        let ghost gp = product;
        self.entries.push((reference, product));
        proof {
            assert(self@ =~= prev.push((gr, gp)));
        }
        Ok(())
    }

    /// How many products the catalog holds.
    pub fn len(&self) -> (n: usize)
        ensures
            n == self@.len(),
    {
        self.entries.len()
    }

    /// The product at a position, by reference.
    pub fn product_at(&self, i: usize) -> (p: &Product)
        requires
            i < self@.len(),
        ensures
            *p == self@[i as int].1,
    {
        &self.entries[i].1
    }
}

/// Look one reference up in the catalog.
pub fn find_product_by_reference<'a>(catalog: &'a Catalog, reference: &String) -> (r: Option<
    &'a Product,
>)
    ensures
        match r {
            Some(p) => spec_cat_lookup(catalog@, reference@) == Some(*p),
            None => spec_cat_lookup(catalog@, reference@) is None,
        },
{
    let n = catalog.entries.len();
    let mut i: usize = 0;
    while i < n
        invariant
            0 <= i <= n,
            n == catalog@.len(),
            forall|j: int| 0 <= j < i ==> (#[trigger] catalog@[j]).0 != reference@,
        decreases n - i,
    {
        proof {
            assert(catalog@[i as int] == (
                catalog.entries@[i as int].0@,
                catalog.entries@[i as int].1,
            ));
        }
        if catalog.entries[i].0 == *reference {
            proof {
                lemma_cat_key_idx_first(catalog@, reference@, i as int);
            }
            return Some(&catalog.entries[i].1);
        }
        i = i + 1;
    }
    proof {
        lemma_cat_key_idx(catalog@, reference@);
    }
    None
}

/// Index of the first reference in `rs` that the catalog cannot explain,
/// or `-1` when every reference resolves.
pub open spec fn first_unresolved(c: Seq<(Seq<char>, Product)>, rs: Seq<Seq<char>>) -> int
    decreases rs.len(),
{
    if rs.len() == 0 {
        -1
    } else if cat_key_idx(c, rs[0]) < 0 {
        0
    } else if first_unresolved(c, rs.drop_first()) < 0 {
        -1
    } else {
        first_unresolved(c, rs.drop_first()) + 1
    }
}

pub proof fn lemma_first_unresolved(c: Seq<(Seq<char>, Product)>, rs: Seq<Seq<char>>)
    ensures
        first_unresolved(c, rs) >= 0 ==> {
            &&& first_unresolved(c, rs) < rs.len()
            &&& cat_key_idx(c, rs[first_unresolved(c, rs)]) < 0
            &&& forall|j: int|
                0 <= j < first_unresolved(c, rs) ==> cat_key_idx(c, #[trigger] rs[j]) >= 0
        },
        first_unresolved(c, rs) < 0 ==> forall|j: int|
            0 <= j < rs.len() ==> cat_key_idx(c, #[trigger] rs[j]) >= 0,
    decreases rs.len(),
{
    if rs.len() > 0 && cat_key_idx(c, rs[0]) >= 0 {
        lemma_first_unresolved(c, rs.drop_first());
        assert(forall|j: int| 1 <= j < rs.len() ==> #[trigger] rs[j] == rs.drop_first()[j - 1]);
    }
}

pub proof fn lemma_first_unresolved_at(c: Seq<(Seq<char>, Product)>, rs: Seq<Seq<char>>, i: int)
    requires
        0 <= i < rs.len(),
        cat_key_idx(c, rs[i]) < 0,
        forall|j: int| 0 <= j < i ==> cat_key_idx(c, #[trigger] rs[j]) >= 0,
    ensures
        first_unresolved(c, rs) == i,
    decreases rs.len(),
{
    if i > 0 {
        assert(forall|j: int| 1 <= j < rs.len() ==> #[trigger] rs[j] == rs.drop_first()[j - 1]);
        lemma_first_unresolved_at(c, rs.drop_first(), i - 1);
    }
}

/// Bridge the extracted references to catalog entries: one pair of
/// reference and catalog position per reference, in input order. The first
/// reference without a catalog entry fails the whole resolution, carrying
/// that exact key.
pub fn find_products_for_references(catalog: &Catalog, product_references: &Vec<String>) -> (r:
    Result<Vec<(String, usize)>, ResolvePcdbProductsError>)
    ensures
        match r {
            Ok(rp) => {
                &&& first_unresolved(catalog@, str_views(product_references@)) == -1
                &&& rp@.len() == product_references@.len()
                &&& forall|j: int|
                    0 <= j < rp@.len() ==> (#[trigger] rp@[j]).0@ == product_references@[j]@
                &&& forall|j: int|
                    0 <= j < rp@.len() ==> (#[trigger] rp@[j]).1 == cat_key_idx(
                        catalog@,
                        product_references@[j]@,
                    ) && rp@[j].1 < catalog@.len() && catalog@[rp@[j].1 as int].0
                        == product_references@[j]@
            },
            Err(e) => {
                &&& first_unresolved(catalog@, str_views(product_references@)) >= 0
                &&& e matches ResolvePcdbProductsError::UnknownProductReference(k) && k@
                    == product_references@[first_unresolved(
                    catalog@,
                    str_views(product_references@),
                )]@
            },
        },
{
    let ghost rs = str_views(product_references@);
    let n = product_references.len();
    let mut out: Vec<(String, usize)> = Vec::new();
    let mut i: usize = 0;
    while i < n
        invariant
            0 <= i <= n,
            n == product_references@.len(),
            rs == str_views(product_references@),
            out@.len() == i,
            forall|j: int|
                0 <= j < i ==> (#[trigger] out@[j]).0@ == product_references@[j]@,
            forall|j: int|
                0 <= j < i ==> (#[trigger] out@[j]).1 == cat_key_idx(
                    catalog@,
                    product_references@[j]@,
                ) && out@[j].1 < catalog@.len() && catalog@[out@[j].1 as int].0
                    == product_references@[j]@,
            forall|j: int| 0 <= j < i ==> cat_key_idx(catalog@, #[trigger] rs[j]) >= 0,
        decreases n - i,
    {
        let reference = &product_references[i];
        match find_index_by_reference(catalog, reference) {
            Some(idx) => {
                out.push((reference.clone(), idx));
            },
            None => {
                proof {
                    assert(rs[i as int] == product_references@[i as int]@);
                    lemma_first_unresolved_at(catalog@, rs, i as int);
                }
                return Err(
                    ResolvePcdbProductsError::UnknownProductReference(reference.clone()),
                );
            },
        }
        i = i + 1;
    }
    proof {
        lemma_first_unresolved(catalog@, rs);
        if first_unresolved(catalog@, rs) >= 0 {
            assert(cat_key_idx(catalog@, rs[first_unresolved(catalog@, rs)]) >= 0);
        }
    }
    Ok(out)
}

/// Look one reference up in the catalog, returning its position.
fn find_index_by_reference(catalog: &Catalog, reference: &String) -> (r: Option<usize>)
    ensures
        match r {
            Some(idx) => {
                &&& idx == cat_key_idx(catalog@, reference@)
                &&& idx < catalog@.len()
                &&& catalog@[idx as int].0 == reference@
            },
            None => cat_key_idx(catalog@, reference@) < 0,
        },
{
    let n = catalog.entries.len();
    let mut i: usize = 0;
    while i < n
        invariant
            0 <= i <= n,
            n == catalog@.len(),
            forall|j: int| 0 <= j < i ==> (#[trigger] catalog@[j]).0 != reference@,
        decreases n - i,
    {
        proof {
            assert(catalog@[i as int] == (
                catalog.entries@[i as int].0@,
                catalog.entries@[i as int].1,
            ));
        }
        if catalog.entries[i].0 == *reference {
            proof {
                lemma_cat_key_idx_first(catalog@, reference@, i as int);
            }
            return Some(i);
        }
        i = i + 1;
    }
    proof {
        lemma_cat_key_idx(catalog@, reference@);
    }
    None
}

} // verus!
