//! The reference extractor: a recursive descent over the whole document
//! that collects, in document order, the value of every `product_reference`
//! field at any depth, visiting arrays and nested objects uniformly.
use vstd::prelude::*;
use crate::errors::ResolvePcdbProductsError;
use crate::json::{clone_node, group_jv_lemmas, jv_entries, jv_list, JVal, JsonNode};

verus! {

broadcast use vstd::seq::axiom_seq_index_decreases, vstd::seq::axiom_seq_subrange_decreases, vstd::std_specs::vec::axiom_vec_index_decreases, vstd::std_specs::vec::axiom_vec_decreases_to_view;

/// The field name whose values are collected.
pub open spec fn product_reference_key() -> Seq<char> {
    "product_reference"@
}

/// Every value of a `product_reference` field in `v`, in document order:
/// within an object, an entry's own match comes before the matches inside
/// its value, and entries are visited in order.
pub open spec fn refs_of(v: JVal) -> Seq<JVal>
    decreases v,
{
    match v {
        JVal::Arr(items) => refs_of_list(items),
        JVal::Obj(entries) => refs_of_entries(entries),
        _ => Seq::empty(),
    }
}

pub open spec fn refs_of_list(s: Seq<JVal>) -> Seq<JVal>
    decreases s,
{
    if s.len() == 0 {
        Seq::empty()
    } else {
        refs_of(s[0]) + refs_of_list(s.drop_first())
    }
}

pub open spec fn refs_of_entries(s: Seq<(Seq<char>, JVal)>) -> Seq<JVal>
    decreases s,
{
    if s.len() == 0 {
        Seq::empty()
    } else {
        entry_match(s[0]) + refs_of(s[0].1) + refs_of_entries(s.drop_first())
    }
}

/// The contribution of one object entry's own key.
pub open spec fn entry_match(e: (Seq<char>, JVal)) -> Seq<JVal> {
    if e.0 == product_reference_key() {
        seq![e.1]
    } else {
        Seq::empty()
    }
}

/// Whether every collected reference is a string.
pub open spec fn all_strings(s: Seq<JVal>) -> bool {
    forall|i: int| 0 <= i < s.len() ==> s[i] is Str
}

/// The character sequences of a vector of strings.
pub open spec fn str_views(s: Seq<String>) -> Seq<Seq<char>> {
    Seq::new(s.len(), |i: int| s[i]@)
}

/// The character sequences carried by a sequence of string values.
pub open spec fn refs_strs(s: Seq<JVal>) -> Seq<Seq<char>> {
    Seq::new(s.len(), |i: int| s[i]->Str_0)
}

pub broadcast proof fn lemma_refs_strs_concat(a: Seq<JVal>, b: Seq<JVal>)
    ensures
        #[trigger] refs_strs(a + b) == refs_strs(a) + refs_strs(b),
{
    assert(refs_strs(a + b) =~= refs_strs(a) + refs_strs(b));
}

/// Index of the first non-string element, or `-1` if there is none.
pub open spec fn first_bad(s: Seq<JVal>) -> int
    decreases s.len(),
{
    if s.len() == 0 {
        -1
    } else if !(s[0] is Str) {
        0
    } else if first_bad(s.drop_first()) < 0 {
        -1
    } else {
        first_bad(s.drop_first()) + 1
    }
}

pub proof fn lemma_first_bad(s: Seq<JVal>)
    ensures
        first_bad(s) >= 0 ==> {
            &&& first_bad(s) < s.len()
            &&& !(s[first_bad(s)] is Str)
            &&& forall|j: int| 0 <= j < first_bad(s) ==> s[j] is Str
        },
        first_bad(s) < 0 ==> all_strings(s),
    decreases s.len(),
{
    if s.len() > 0 && s[0] is Str {
        lemma_first_bad(s.drop_first());
        assert(forall|j: int| 1 <= j < s.len() ==> #[trigger] s[j] == s.drop_first()[j - 1]);
    }
}

pub proof fn lemma_first_bad_at(s: Seq<JVal>, i: int)
    requires
        0 <= i < s.len(),
        !(s[i] is Str),
        forall|j: int| 0 <= j < i ==> s[j] is Str,
    ensures
        first_bad(s) == i,
    decreases s.len(),
{
    if i > 0 {
        assert(forall|j: int| 1 <= j < s.len() ==> #[trigger] s[j] == s.drop_first()[j - 1]);
        lemma_first_bad_at(s.drop_first(), i - 1);
    }
}

pub proof fn lemma_refs_list_split(s: Seq<JVal>, i: int)
    requires
        0 <= i <= s.len(),
    ensures
        refs_of_list(s) == refs_of_list(s.take(i)) + refs_of_list(s.skip(i)),
    decreases i,
{
    if i == 0 {
        assert(s.take(0) =~= Seq::<JVal>::empty());
        assert(s.skip(0) =~= s);
        assert(refs_of_list(s) =~= refs_of_list(s.take(0)) + refs_of_list(s.skip(0)));
    } else {
        lemma_refs_list_split(s.drop_first(), i - 1);
        assert(s.take(i).drop_first() =~= s.drop_first().take(i - 1));
        assert(s.drop_first().skip(i - 1) =~= s.skip(i));
        assert(s.take(i)[0] == s[0]);
        assert(s.take(i).len() == i);
        assert(refs_of_list(s.take(i)) == refs_of(s[0]) + refs_of_list(s.drop_first().take(i - 1)));
        assert(refs_of_list(s) =~= refs_of_list(s.take(i)) + refs_of_list(s.skip(i)));
    }
}

pub proof fn lemma_refs_list_snoc(s: Seq<JVal>, x: JVal)
    ensures
        refs_of_list(s.push(x)) == refs_of_list(s) + refs_of(x),
    decreases s.len(),
{
    if s.len() == 0 {
        assert(s.push(x).drop_first() =~= s);
        assert(s.push(x)[0] == x);
        assert(refs_of_list(s.push(x)) == refs_of(x) + refs_of_list(s));
        assert(refs_of_list(s) =~= Seq::<JVal>::empty());
        assert(refs_of_list(s.push(x)) =~= refs_of_list(s) + refs_of(x));
    } else {
        assert(s.push(x).drop_first() =~= s.drop_first().push(x));
        lemma_refs_list_snoc(s.drop_first(), x);
        assert(s.push(x)[0] == s[0]);
        assert(refs_of_list(s.push(x)) == refs_of(s[0]) + (refs_of_list(s.drop_first()) + refs_of(
            x,
        )));
        assert(refs_of_list(s) == refs_of(s[0]) + refs_of_list(s.drop_first()));
        assert(refs_of_list(s.push(x)) =~= refs_of_list(s) + refs_of(x));
    }
}

pub proof fn lemma_refs_entries_split(s: Seq<(Seq<char>, JVal)>, i: int)
    requires
        0 <= i <= s.len(),
    ensures
        refs_of_entries(s) == refs_of_entries(s.take(i)) + refs_of_entries(s.skip(i)),
    decreases i,
{
    if i == 0 {
        assert(s.take(0) =~= Seq::<(Seq<char>, JVal)>::empty());
        assert(s.skip(0) =~= s);
        assert(refs_of_entries(s) =~= refs_of_entries(s.take(0)) + refs_of_entries(s.skip(0)));
    } else {
        lemma_refs_entries_split(s.drop_first(), i - 1);
        assert(s.take(i).drop_first() =~= s.drop_first().take(i - 1));
        assert(s.drop_first().skip(i - 1) =~= s.skip(i));
        assert(s.take(i)[0] == s[0]);
        assert(s.take(i).len() == i);
        assert(refs_of_entries(s.take(i)) == entry_match(s[0]) + refs_of(s[0].1)
            + refs_of_entries(s.drop_first().take(i - 1)));
        assert(refs_of_entries(s) =~= refs_of_entries(s.take(i)) + refs_of_entries(s.skip(i)));
    }
}

pub proof fn lemma_refs_entries_snoc(s: Seq<(Seq<char>, JVal)>, x: (Seq<char>, JVal))
    ensures
        refs_of_entries(s.push(x)) == refs_of_entries(s) + entry_match(x) + refs_of(x.1),
    decreases s.len(),
{
    if s.len() == 0 {
        assert(s.push(x).drop_first() =~= s);
        assert(s.push(x)[0] == x);
        assert(refs_of_entries(s.push(x)) == entry_match(x) + refs_of(x.1) + refs_of_entries(s));
        assert(refs_of_entries(s) =~= Seq::<JVal>::empty());
        assert(refs_of_entries(s.push(x)) =~= refs_of_entries(s) + entry_match(x) + refs_of(x.1));
    } else {
        assert(s.push(x).drop_first() =~= s.drop_first().push(x));
        lemma_refs_entries_snoc(s.drop_first(), x);
        assert(s.push(x)[0] == s[0]);
        assert(refs_of_entries(s.push(x)) == entry_match(s[0]) + refs_of(s[0].1) + (
        refs_of_entries(s.drop_first()) + entry_match(x) + refs_of(x.1)));
        assert(refs_of_entries(s) == entry_match(s[0]) + refs_of(s[0].1) + refs_of_entries(
            s.drop_first(),
        ));
        assert(refs_of_entries(s.push(x)) =~= refs_of_entries(s) + entry_match(x) + refs_of(x.1));
    }
}

/// Collect the references under `n` into `out`. On the first reference
/// value that is not a string, stop with that value.
#[verifier::loop_isolation(false)]
fn extract_into(n: &JsonNode, out: &mut Vec<String>) -> (r: Result<(), ResolvePcdbProductsError>)
    ensures
        match r {
            Ok(_) => {
                &&& all_strings(refs_of(n.jv()))
                &&& str_views(final(out)@) == str_views(old(out)@) + refs_strs(refs_of(n.jv()))
            },
            Err(e) => {
                &&& !all_strings(refs_of(n.jv()))
                &&& e matches ResolvePcdbProductsError::InvalidProductCategoryReference(bad)
                    && bad.jv() == refs_of(n.jv())[first_bad(refs_of(n.jv()))]
            },
        },
    decreases n,
{
    broadcast use group_jv_lemmas;

    match n {
        JsonNode::Arr(items) => {
            let ghost jvl = jv_list(items@);
            let ghost whole = refs_of_list(jvl);
            let ghost base = out@;
            let m = items.len();
            let mut i: usize = 0;
            proof {
                assert(jvl.take(0) =~= Seq::<JVal>::empty());
            }
            while i < m
                invariant
                    0 <= i <= m,
                    all_strings(refs_of_list(jvl.take(i as int))),
                    str_views(out@) == str_views(base) + refs_strs(
                        refs_of_list(jvl.take(i as int)),
                    ),
                decreases m - i,
            {
                let ghost pre = out@;
                let ghost prefix = refs_of_list(jvl.take(i as int));
                let ghost child = jvl[i as int];
                proof {
                    crate::json::lemma_jv_list_index(items@, i as int);
                }
                let res = extract_into(&items[i], out);
                proof {
                    lemma_refs_list_split(jvl, i as int);
                    assert(jvl.skip(i as int)[0] == child);
                    assert(jvl.skip(i as int).drop_first() =~= jvl.skip(i as int + 1));
                    assert(refs_of_list(jvl.skip(i as int)) == refs_of(child) + refs_of_list(
                        jvl.skip(i as int + 1),
                    ));
                }
                match res {
                    Ok(_) => {
                        proof {
                            assert(jvl.take(i as int + 1) =~= jvl.take(i as int).push(child));
                            lemma_refs_list_snoc(jvl.take(i as int), child);
                            assert(refs_of_list(jvl.take(i as int + 1)) =~= prefix + refs_of(
                                child,
                            ));
                            lemma_refs_strs_concat(prefix, refs_of(child));
                            assert(str_views(out@) =~= str_views(base) + refs_strs(
                                refs_of_list(jvl.take(i as int + 1)),
                            ));
                            assert forall|j: int|
                                0 <= j < refs_of_list(jvl.take(i as int + 1)).len() implies (
                            #[trigger] refs_of_list(jvl.take(i as int + 1))[j]) is Str by {
                                if j < prefix.len() {
                                    assert(refs_of_list(jvl.take(i as int + 1))[j] == prefix[j]);
                                } else {
                                    assert(refs_of_list(jvl.take(i as int + 1))[j] == refs_of(
                                        child,
                                    )[j - prefix.len()]);
                                }
                            }
                        }
                    },
                    Err(e) => {
                        proof {
                            let crefs = refs_of(child);
                            lemma_first_bad(crefs);
                            let k = first_bad(crefs);
                            assert(whole =~= prefix + (crefs + refs_of_list(
                                jvl.skip(i as int + 1),
                            )));
                            assert(whole[prefix.len() + k] == crefs[k]);
                            assert forall|j: int| 0 <= j < prefix.len() + k implies whole[j]
                                is Str by {
                                if j >= prefix.len() {
                                    assert(whole[j] == crefs[j - prefix.len()]);
                                }
                            }
                            lemma_first_bad_at(whole, prefix.len() + k);
                        }
                        return Err(e);
                    },
                }
                i = i + 1;
            }
            proof {
                assert(jvl.take(m as int) =~= jvl);
            }
            Ok(())
        },
        JsonNode::Obj(entries) => {
            let ghost jve = jv_entries(entries@);
            let ghost whole = refs_of_entries(jve);
            let ghost base = out@;
            let prk: String = "product_reference".to_owned();
            let m = entries.len();
            let mut i: usize = 0;
            proof {
                assert(jve.take(0) =~= Seq::<(Seq<char>, JVal)>::empty());
            }
            while i < m
                invariant
                    0 <= i <= m,
                    prk@ == product_reference_key(),
                    all_strings(refs_of_entries(jve.take(i as int))),
                    str_views(out@) == str_views(base) + refs_strs(
                        refs_of_entries(jve.take(i as int)),
                    ),
                decreases m - i,
            {
                let ghost pre = out@;
                let ghost prefix = refs_of_entries(jve.take(i as int));
                let ghost ent = jve[i as int];
                proof {
                    crate::json::lemma_jv_entries_index(entries@, i as int);
                    lemma_refs_entries_split(jve, i as int);
                    assert(jve.skip(i as int)[0] == ent);
                    assert(jve.skip(i as int).drop_first() =~= jve.skip(i as int + 1));
                    assert(refs_of_entries(jve.skip(i as int)) == entry_match(ent) + refs_of(ent.1)
                        + refs_of_entries(jve.skip(i as int + 1)));
                    assert(whole =~= prefix + (entry_match(ent) + refs_of(ent.1)
                        + refs_of_entries(jve.skip(i as int + 1))));
                }
                if entries[i].0 == prk {
                    proof {
                        assert(entry_match(ent) =~= seq![ent.1]);
                    }
                    match &entries[i].1 {
                        JsonNode::Str(sv) => {
                            out.push(sv.clone());
                            proof {
                                assert(ent.1 == JVal::Str(sv@));
                                assert(refs_strs(entry_match(ent)) =~= seq![sv@]);
                                assert(str_views(out@) =~= str_views(pre) + refs_strs(
                                    entry_match(ent),
                                ));
                            }
                        },
                        other => {
                            let bad = clone_node(other);
                            proof {
                                assert(whole[prefix.len() as int] == ent.1);
                                assert forall|j: int| 0 <= j < prefix.len() implies whole[j]
                                    is Str by {}
                                lemma_first_bad_at(whole, prefix.len() as int);
                            }
                            return Err(
                                ResolvePcdbProductsError::InvalidProductCategoryReference(bad),
                            );
                        },
                    }
                } else {
                    proof {
                        assert(entry_match(ent) =~= Seq::<JVal>::empty());
                        assert(refs_strs(entry_match(ent)) =~= Seq::<Seq<char>>::empty());
                        assert(str_views(out@) =~= str_views(pre) + refs_strs(entry_match(ent)));
                    }
                }
                let ghost mid = out@;
                let res = extract_into(&entries[i].1, out);
                match res {
                    Ok(_) => {
                        proof {
                            assert(jve.take(i as int + 1) =~= jve.take(i as int).push(ent));
                            lemma_refs_entries_snoc(jve.take(i as int), ent);
                            let chunk = entry_match(ent) + refs_of(ent.1);
                            assert(refs_of_entries(jve.take(i as int + 1)) =~= prefix + chunk);
                            lemma_refs_strs_concat(prefix, chunk);
                            lemma_refs_strs_concat(entry_match(ent), refs_of(ent.1));
                            assert(str_views(out@) =~= str_views(base) + refs_strs(
                                refs_of_entries(jve.take(i as int + 1)),
                            ));
                            assert forall|j: int|
                                0 <= j < refs_of_entries(jve.take(i as int + 1)).len() implies (
                            #[trigger] refs_of_entries(jve.take(i as int + 1))[j]) is Str by {
                                if j < prefix.len() {
                                    assert(refs_of_entries(jve.take(i as int + 1))[j]
                                        == prefix[j]);
                                } else if j < prefix.len() + entry_match(ent).len() {
                                    assert(refs_of_entries(jve.take(i as int + 1))[j] == ent.1);
                                } else {
                                    assert(refs_of_entries(jve.take(i as int + 1))[j] == refs_of(
                                        ent.1,
                                    )[j - prefix.len() - entry_match(ent).len()]);
                                }
                            }
                        }
                    },
                    Err(e) => {
                        proof {
                            let crefs = refs_of(ent.1);
                            lemma_first_bad(crefs);
                            let k = first_bad(crefs);
                            let off = prefix.len() + entry_match(ent).len();
                            assert(whole[off + k] == crefs[k]);
                            assert forall|j: int| 0 <= j < off + k implies whole[j] is Str by {
                                if j >= off {
                                    assert(whole[j] == crefs[j - off]);
                                } else if j >= prefix.len() {
                                    assert(whole[j] == ent.1);
                                }
                            }
                            lemma_first_bad_at(whole, off + k);
                        }
                        return Err(e);
                    },
                }
                i = i + 1;
            }
            proof {
                assert(jve.take(m as int) =~= jve);
            }
            Ok(())
        },
        _ => Ok(()),
    }
}

/// Find every value of the `product_reference` field anywhere in `json`,
/// in document order. A non-string match is reported as a data error
/// carrying the offending value; duplicates are kept.
pub fn extract_product_references(json: &JsonNode) -> (r: Result<
    Vec<String>,
    ResolvePcdbProductsError,
>)
    ensures
        match r {
            Ok(refs) => {
                &&& all_strings(refs_of(json.jv()))
                &&& str_views(refs@) == refs_strs(refs_of(json.jv()))
            },
            Err(e) => {
                &&& !all_strings(refs_of(json.jv()))
                &&& e matches ResolvePcdbProductsError::InvalidProductCategoryReference(bad)
                    && bad.jv() == refs_of(json.jv())[first_bad(refs_of(json.jv()))]
            },
        },
{
    let mut out: Vec<String> = Vec::new();
    let ghost base = out@;
    match extract_into(json, &mut out) {
        Ok(_) => {
            proof {
                assert(str_views(base) =~= Seq::<Seq<char>>::empty());
                assert(str_views(out@) =~= refs_strs(refs_of(json.jv())));
            }
            Ok(out)
        },
        Err(e) => Err(e),
    }
}

} // verus!
