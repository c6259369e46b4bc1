//! The document model: an owned JSON tree, with a ghost mirror for contracts.
//!
//! Executable code works on `JsonNode`; every contract speaks of the ghost
//! value `JVal` obtained through `JsonNode::jv`, so that two trees built
//! independently compare equal whenever their text content is equal.
//! A number is carried as its literal text, exactly as it stood in the
//! source document or in the catalog: the pipeline never computes with
//! numbers, it only moves them, so the literal is the exact value.
use vstd::prelude::*;

verus! {

use vstd::pervasive::VecAdditionalExecFns;

broadcast use vstd::seq::axiom_seq_index_decreases, vstd::seq::axiom_seq_subrange_decreases, vstd::std_specs::vec::axiom_vec_index_decreases, vstd::std_specs::vec::axiom_vec_decreases_to_view;

/// An owned JSON value.
#[derive(Debug)]
pub enum JsonNode {
    Null,
    Bool(bool),
    /// A JSON number, held as its literal text (for example `-12.5`).
    Num(String),
    Str(String),
    Arr(Vec<JsonNode>),
    Obj(Vec<(String, JsonNode)>),
}

/// The ghost counterpart of `JsonNode`: strings become `Seq<char>`,
/// vectors become `Seq`, so equality is equality of content.
#[verifier::ext_equal]
pub enum JVal {
    Null,
    Bool(bool),
    Num(Seq<char>),
    Str(Seq<char>),
    Arr(Seq<JVal>),
    Obj(Seq<(Seq<char>, JVal)>),
}

impl JsonNode {
    /// The ghost value of this tree.
    pub open spec fn jv(&self) -> JVal
        decreases self,
    {
        match self {
            JsonNode::Null => JVal::Null,
            JsonNode::Bool(b) => JVal::Bool(*b),
            JsonNode::Num(s) => JVal::Num(s@),
            JsonNode::Str(s) => JVal::Str(s@),
            JsonNode::Arr(items) => JVal::Arr(jv_list(items@)),
            JsonNode::Obj(entries) => JVal::Obj(jv_entries(entries@)),
        }
    }
}

/// The ghost values of a sequence of trees.
pub open spec fn jv_list(s: Seq<JsonNode>) -> Seq<JVal>
    decreases s,
{
    if s.len() == 0 {
        Seq::empty()
    } else {
        seq![s[0].jv()] + jv_list(s.drop_first())
    }
}

/// The ghost values of an object's entry list.
pub open spec fn jv_entries(s: Seq<(String, JsonNode)>) -> Seq<(Seq<char>, JVal)>
    decreases s,
{
    if s.len() == 0 {
        Seq::empty()
    } else {
        seq![(s[0].0@, s[0].1.jv())] + jv_entries(s.drop_first())
    }
}

pub broadcast proof fn lemma_jv_list_len(s: Seq<JsonNode>)
    ensures
        (#[trigger] jv_list(s)).len() == s.len(),
    decreases s,
{
    if s.len() > 0 {
        lemma_jv_list_len(s.drop_first());
    }
}

pub broadcast proof fn lemma_jv_list_index(s: Seq<JsonNode>, i: int)
    requires
        0 <= i < s.len(),
    ensures
        jv_list(s).len() == s.len(),
        #[trigger] jv_list(s)[i] == s[i].jv(),
    decreases s,
{
    lemma_jv_list_len(s);
    if i > 0 {
        lemma_jv_list_index(s.drop_first(), i - 1);
    }
}

pub broadcast proof fn lemma_jv_entries_len(s: Seq<(String, JsonNode)>)
    ensures
        (#[trigger] jv_entries(s)).len() == s.len(),
    decreases s,
{
    if s.len() > 0 {
        lemma_jv_entries_len(s.drop_first());
    }
}

pub broadcast proof fn lemma_jv_entries_index(s: Seq<(String, JsonNode)>, i: int)
    requires
        0 <= i < s.len(),
    ensures
        jv_entries(s).len() == s.len(),
        #[trigger] jv_entries(s)[i] == (s[i].0@, s[i].1.jv()),
    decreases s,
{
    lemma_jv_entries_len(s);
    if i > 0 {
        lemma_jv_entries_index(s.drop_first(), i - 1);
    }
}

/// The lemmas above, bundled for `broadcast use` at call sites.
pub broadcast group group_jv_lemmas {
    lemma_jv_list_len,
    lemma_jv_list_index,
    lemma_jv_entries_len,
    lemma_jv_entries_index,
}

/// Index of the first entry of `s` whose key is `k`, or `-1` if there is none.
pub open spec fn key_idx(s: Seq<(Seq<char>, JVal)>, k: Seq<char>) -> int
    decreases s.len(),
{
    if s.len() == 0 {
        -1
    } else if s[0].0 == k {
        0
    } else if key_idx(s.drop_first(), k) < 0 {
        -1
    } else {
        key_idx(s.drop_first(), k) + 1
    }
}

pub open spec fn obj_has_key(s: Seq<(Seq<char>, JVal)>, k: Seq<char>) -> bool {
    key_idx(s, k) >= 0
}

/// The value under the first entry with key `k` (meaningful when the key is there).
pub open spec fn obj_val(s: Seq<(Seq<char>, JVal)>, k: Seq<char>) -> JVal {
    s[key_idx(s, k)].1
}

/// `key_idx` finds the first entry with key `k`, and only reports `-1`
/// when no entry has that key.
pub proof fn lemma_key_idx(s: Seq<(Seq<char>, JVal)>, k: Seq<char>)
    ensures
        key_idx(s, k) >= 0 ==> {
            &&& key_idx(s, k) < s.len()
            &&& s[key_idx(s, k)].0 == k
            &&& forall|j: int| 0 <= j < key_idx(s, k) ==> s[j].0 != k
        },
        key_idx(s, k) < 0 ==> forall|j: int| 0 <= j < s.len() ==> s[j].0 != k,
    decreases s.len(),
{
    if s.len() > 0 && s[0].0 != k {
        lemma_key_idx(s.drop_first(), k);
        assert(forall|j: int| 1 <= j < s.len() ==> #[trigger] s[j] == s.drop_first()[j - 1]);
    }
}

/// The converse: an entry with key `k` at `i`, with no earlier one, pins `key_idx`.
pub proof fn lemma_key_idx_first(s: Seq<(Seq<char>, JVal)>, k: Seq<char>, i: int)
    requires
        0 <= i < s.len(),
        s[i].0 == k,
        forall|j: int| 0 <= j < i ==> s[j].0 != k,
    ensures
        key_idx(s, k) == i,
    decreases s.len(),
{
    if i > 0 {
        assert(forall|j: int| 1 <= j < s.len() ==> #[trigger] s[j] == s.drop_first()[j - 1]);
        lemma_key_idx_first(s.drop_first(), k, i - 1);
    }
}

/// Replace the value under `k`, keeping the entry's place, or append
/// a new entry at the end when the key is absent.
pub open spec fn spec_obj_set(s: Seq<(Seq<char>, JVal)>, k: Seq<char>, v: JVal) -> Seq<
    (Seq<char>, JVal),
> {
    if obj_has_key(s, k) {
        s.update(key_idx(s, k), (k, v))
    } else {
        s.push((k, v))
    }
}

/// Drop every entry whose key is `k`.
pub open spec fn spec_obj_remove(s: Seq<(Seq<char>, JVal)>, k: Seq<char>) -> Seq<
    (Seq<char>, JVal),
>
    decreases s.len(),
{
    if s.len() == 0 {
        Seq::empty()
    } else if s[0].0 == k {
        spec_obj_remove(s.drop_first(), k)
    } else {
        seq![s[0]] + spec_obj_remove(s.drop_first(), k)
    }
}

pub proof fn lemma_obj_remove_snoc(s: Seq<(Seq<char>, JVal)>, k: Seq<char>, x: (Seq<char>, JVal))
    ensures
        spec_obj_remove(s.push(x), k) == if x.0 == k {
            spec_obj_remove(s, k)
        } else {
            spec_obj_remove(s, k) + seq![x]
        },
    decreases s.len(),
{
    if s.len() == 0 {
        assert(s.push(x).drop_first() =~= s);
        assert(s.push(x)[0] == x);
        if x.0 == k {
        } else {
            assert(spec_obj_remove(s, k) =~= Seq::<(Seq<char>, JVal)>::empty());
            assert(spec_obj_remove(s.push(x), k) =~= spec_obj_remove(s, k) + seq![x]);
        }
    } else {
        assert(s.push(x).drop_first() =~= s.drop_first().push(x));
        lemma_obj_remove_snoc(s.drop_first(), k, x);
        assert(s.push(x)[0] == s[0]);
        if x.0 == k {
            assert(spec_obj_remove(s.push(x), k) =~= spec_obj_remove(s, k));
        } else {
            assert(spec_obj_remove(s.push(x), k) =~= spec_obj_remove(s, k) + seq![x]);
        }
    }
}

/// Removal drops exactly the entries under `k`: no key `k` remains.
pub proof fn lemma_obj_remove_removes(s: Seq<(Seq<char>, JVal)>, k: Seq<char>)
    ensures
        forall|j: int|
            0 <= j < spec_obj_remove(s, k).len() ==> (#[trigger] spec_obj_remove(s, k)[j]).0 != k,
        !obj_has_key(spec_obj_remove(s, k), k),
    decreases s.len(),
{
    if s.len() > 0 {
        lemma_obj_remove_removes(s.drop_first(), k);
        if s[0].0 != k {
            assert(forall|j: int|
                1 <= j < spec_obj_remove(s, k).len() ==> #[trigger] spec_obj_remove(s, k)[j]
                    == spec_obj_remove(s.drop_first(), k)[j - 1]);
        }
    }
    lemma_key_idx(spec_obj_remove(s, k), k);
}

/// Removal of one key leaves every other key's first value in place.
pub proof fn lemma_obj_remove_frame(s: Seq<(Seq<char>, JVal)>, k: Seq<char>, k2: Seq<char>)
    requires
        k2 != k,
    ensures
        obj_has_key(spec_obj_remove(s, k), k2) == obj_has_key(s, k2),
        obj_has_key(s, k2) ==> obj_val(spec_obj_remove(s, k), k2) == obj_val(s, k2),
    decreases s.len(),
{
    let r = spec_obj_remove(s, k);
    if s.len() == 0 {
    } else if s[0].0 == k {
        lemma_obj_remove_frame(s.drop_first(), k, k2);
        assert(forall|j: int| 1 <= j < s.len() ==> #[trigger] s[j] == s.drop_first()[j - 1]);
        lemma_key_idx(s.drop_first(), k2);
        lemma_key_idx(s, k2);
        if obj_has_key(s.drop_first(), k2) {
            lemma_key_idx_first(s, k2, key_idx(s.drop_first(), k2) + 1);
        }
    } else {
        lemma_obj_remove_frame(s.drop_first(), k, k2);
        assert(forall|j: int| 1 <= j < s.len() ==> #[trigger] s[j] == s.drop_first()[j - 1]);
        assert(forall|j: int|
            1 <= j < r.len() ==> #[trigger] r[j] == spec_obj_remove(s.drop_first(), k)[j - 1]);
        assert(r[0] == s[0]);
        if s[0].0 == k2 {
            assert(key_idx(s, k2) == 0);
            assert(key_idx(r, k2) == 0);
        } else {
            lemma_key_idx(s.drop_first(), k2);
            lemma_key_idx(s, k2);
            lemma_key_idx(spec_obj_remove(s.drop_first(), k), k2);
            lemma_key_idx(r, k2);
            if obj_has_key(s.drop_first(), k2) {
                lemma_key_idx_first(s, k2, key_idx(s.drop_first(), k2) + 1);
                lemma_key_idx_first(r, k2, key_idx(spec_obj_remove(s.drop_first(), k), k2) + 1);
            }
        }
    }
}

/// Setting `k` leaves every other key's presence and first value alone.
pub proof fn lemma_obj_set_frame(s: Seq<(Seq<char>, JVal)>, k: Seq<char>, v: JVal, k2: Seq<char>)
    requires
        k2 != k,
    ensures
        obj_has_key(spec_obj_set(s, k, v), k2) == obj_has_key(s, k2),
        obj_has_key(s, k2) ==> obj_val(spec_obj_set(s, k, v), k2) == obj_val(s, k2),
{
    let s2 = spec_obj_set(s, k, v);
    lemma_key_idx(s, k);
    lemma_key_idx(s, k2);
    assert forall|j: int| 0 <= j < s.len() implies (#[trigger] s2[j]).0 == s[j].0 && (s[j].0 != k
        ==> s2[j] == s[j]) by {}
    if obj_has_key(s, k2) {
        lemma_key_idx_first(s2, k2, key_idx(s, k2));
    } else {
        lemma_key_idx(s2, k2);
        if key_idx(s2, k2) >= 0 {
            assert(s2[key_idx(s2, k2)].0 == k2);
        }
    }
}

/// Setting `k` makes `k` present with exactly that value.
pub proof fn lemma_obj_set_hits(s: Seq<(Seq<char>, JVal)>, k: Seq<char>, v: JVal)
    ensures
        obj_has_key(spec_obj_set(s, k, v), k),
        obj_val(spec_obj_set(s, k, v), k) == v,
{
    let s2 = spec_obj_set(s, k, v);
    lemma_key_idx(s, k);
    if obj_has_key(s, k) {
        lemma_key_idx_first(s2, k, key_idx(s, k));
    } else {
        lemma_key_idx_first(s2, k, s.len() as int);
    }
}

/// Look a key up in an object's entry list.
pub fn obj_get<'a>(entries: &'a Vec<(String, JsonNode)>, key: &String) -> (r: Option<
    &'a JsonNode,
>)
    ensures
        match r {
            Some(v) => {
                &&& obj_has_key(jv_entries(entries@), key@)
                &&& v.jv() == obj_val(jv_entries(entries@), key@)
            },
            None => !obj_has_key(jv_entries(entries@), key@),
        },
{
    broadcast use group_jv_lemmas;

    let ghost s = jv_entries(entries@);
    let n = entries.len();
    for i in 0..n
        invariant
            n == entries.len(),
            s == jv_entries(entries@),
            forall|j: int| 0 <= j < i ==> s[j].0 != key@,
    {
        proof {
            lemma_jv_entries_index(entries@, i as int);
        }
        if entries[i].0 == *key {
            proof {
                lemma_key_idx_first(s, key@, i as int);
            }
            return Some(&entries[i].1);
        }
    }
    proof {
        lemma_key_idx(s, key@);
    }
    None
}

/// Replace the value under `key`, or append the entry when the key is absent,
/// as `serde_json`'s object insertion does.
pub fn obj_set(entries: &mut Vec<(String, JsonNode)>, key: String, value: JsonNode)
    ensures
        jv_entries(final(entries)@) == spec_obj_set(jv_entries(old(entries)@), key@, value.jv()),
{
    broadcast use group_jv_lemmas;

    let ghost s = jv_entries(old(entries)@);
    let ghost gk = key@;
    let ghost gv = value.jv();
    let n = entries.len();
    let mut i: usize = 0;
    while i < n
        invariant
            0 <= i <= n,
            n == entries.len(),
            entries@ == old(entries)@,
            s == jv_entries(entries@),
            gk == key@,
            gv == value.jv(),
            forall|j: int| 0 <= j < i ==> s[j].0 != gk,
        decreases n - i,
    {
        proof {
            lemma_jv_entries_index(entries@, i as int);
        }
        if entries[i].0 == key {
            proof {
                lemma_key_idx_first(s, gk, i as int);
            }
            entries.set(i, (key, value));
            proof {
                lemma_jv_entries_len(entries@);
                lemma_jv_entries_len(old(entries)@);
                assert forall|j: int| 0 <= j < entries@.len() implies #[trigger] jv_entries(
                    entries@,
                )[j] == s.update(i as int, (gk, gv))[j] by {
                    lemma_jv_entries_index(entries@, j);
                    lemma_jv_entries_index(old(entries)@, j);
                    if j != i {
                        assert(entries@[j] == old(entries)@[j]);
                    } else {
                        assert(entries@[j] == (key, value));
                    }
                }
                assert(jv_entries(entries@) =~= s.update(i as int, (gk, gv)));
            }
            return ;
        }
        i = i + 1;
    }
    proof {
        lemma_key_idx(s, gk);
    }
    entries.push((key, value));
    proof {
        lemma_jv_entries_len(entries@);
        lemma_jv_entries_len(old(entries)@);
        assert forall|j: int| 0 <= j < entries@.len() implies #[trigger] jv_entries(entries@)[j]
            == s.push((gk, gv))[j] by {
            lemma_jv_entries_index(entries@, j);
            if j < old(entries)@.len() {
                lemma_jv_entries_index(old(entries)@, j);
                assert(entries@[j] == old(entries)@[j]);
            } else {
                assert(entries@[j] == (key, value));
            }
        }
        assert(jv_entries(entries@) =~= s.push((gk, gv)));
    }
}

/// Drop every entry whose key is `key`.
#[verifier::loop_isolation(false)]
pub fn obj_remove(entries: Vec<(String, JsonNode)>, key: &String) -> (r: Vec<(String, JsonNode)>)
    ensures
        jv_entries(r@) == spec_obj_remove(jv_entries(entries@), key@),
{
    broadcast use group_jv_lemmas;

    let ghost s = jv_entries(entries@);
    let n = entries.len();
    let mut out: Vec<(String, JsonNode)> = Vec::new();
    let mut i: usize = 0;
    proof {
        assert(s.take(0) =~= Seq::<(Seq<char>, JVal)>::empty());
    }
    while i < n
        invariant
            0 <= i <= n,
            jv_entries(out@) == spec_obj_remove(s.take(i as int), key@),
        decreases n - i,
    {
        proof {
            lemma_jv_entries_index(entries@, i as int);
            assert(s.take(i as int + 1) =~= s.take(i as int).push(s[i as int]));
            lemma_obj_remove_snoc(s.take(i as int), key@, s[i as int]);
        }
        let ghost outpre = out@;
        let ghost prev = jv_entries(out@);
        if !(entries[i].0 == *key) {
            let pair_key = entries[i].0.clone();
            let pair_val = clone_node(&entries[i].1);
            out.push((pair_key, pair_val));
            proof {
                lemma_jv_entries_len(out@);
                lemma_jv_entries_len(outpre);
                assert forall|j: int| 0 <= j < out@.len() implies #[trigger] jv_entries(out@)[j]
                    == prev.push(s[i as int])[j] by {
                    lemma_jv_entries_index(out@, j);
                    if j < outpre.len() {
                        lemma_jv_entries_index(outpre, j);
                        assert(out@[j] == outpre[j]);
                    }
                }
                assert(jv_entries(out@) =~= prev.push(s[i as int]));
                assert(prev.push(s[i as int]) =~= prev + seq![s[i as int]]);
            }
        }
        i = i + 1;
    }
    proof {
        assert(s.take(n as int) =~= s);
    }
    out
}

/// A deep copy whose ghost value is that of the original.
#[verifier::loop_isolation(false)]
pub fn clone_node(n: &JsonNode) -> (r: JsonNode)
    ensures
        r.jv() == n.jv(),
    decreases n,
{
    broadcast use group_jv_lemmas;

    match n {
        JsonNode::Null => JsonNode::Null,
        JsonNode::Bool(b) => JsonNode::Bool(*b),
        JsonNode::Num(s) => JsonNode::Num(s.clone()),
        JsonNode::Str(s) => JsonNode::Str(s.clone()),
        JsonNode::Arr(items) => {
            let m = items.len();
            let mut out: Vec<JsonNode> = Vec::new();
            let mut i: usize = 0;
            while i < m
                invariant
                    0 <= i <= m,
                    m == items.len(),
                    out@.len() == i,
                    forall|j: int| 0 <= j < i ==> #[trigger] out@[j].jv() == items@[j].jv(),
                decreases m - i,
            {
                out.push(clone_node(&items[i]));
                i = i + 1;
            }
            proof {
                assert forall|j: int| 0 <= j < out@.len() implies #[trigger] jv_list(out@)[j]
                    == jv_list(items@)[j] by {
                    lemma_jv_list_index(out@, j);
                    lemma_jv_list_index(items@, j);
                }
                assert(jv_list(out@) =~= jv_list(items@));
            }
            JsonNode::Arr(out)
        },
        JsonNode::Obj(entries) => JsonNode::Obj(clone_entries(entries)),
    }
}

/// A deep copy of an object's entry list.
#[verifier::loop_isolation(false)]
pub fn clone_entries(entries: &Vec<(String, JsonNode)>) -> (r: Vec<(String, JsonNode)>)
    ensures
        jv_entries(r@) == jv_entries(entries@),
    decreases entries,
{
    broadcast use group_jv_lemmas;

    let m = entries.len();
    let mut out: Vec<(String, JsonNode)> = Vec::new();
    let mut i: usize = 0;
    while i < m
        invariant
            0 <= i <= m,
            m == entries.len(),
            out@.len() == i,
            forall|j: int| 0 <= j < i ==> (#[trigger] out@[j]).0@ == entries@[j].0@
                && out@[j].1.jv() == entries@[j].1.jv(),
        decreases m - i,
    {
        let k = entries[i].0.clone();
        let v = clone_node(&entries[i].1);
        out.push((k, v));
        i = i + 1;
    }
    proof {
        assert forall|j: int| 0 <= j < out@.len() implies #[trigger] jv_entries(out@)[j]
            == jv_entries(entries@)[j] by {
            lemma_jv_entries_index(out@, j);
            lemma_jv_entries_index(entries@, j);
        }
        assert(jv_entries(out@) =~= jv_entries(entries@));
    }
    out
}

} // verus!
