//! Laws of the representation, stated and proved once for all inputs.

use vstd::prelude::*;

use crate::strcmp::seq_char_lt;
use crate::terms::DictionaryModel;
use crate::terms::Term;
use crate::terms::Value;
use crate::terms::ValueModel;
use crate::terms::dict_model_insert;
use crate::terms::dict_model_lookup;
use crate::terms::dict_sorted;

verus! {

/// Embedding round-trips: a term wrapping `v` — whatever id was allocated
/// for it — unwraps to `v` itself, so its content is exactly the content
/// of the directly embedded value.
pub proof fn lemma_term_roundtrip(t: Term, v: Value)
    requires
        t.value == v,
    ensures
        t.model() == v.model(),
{
}

/// Structural equality ignores ids: terms whose values have the same
/// content are equal as terms, no matter how their ids or provenance
/// differ.
pub proof fn lemma_equality_ignores_id(t1: Term, t2: Term)
    requires
        t1.value.model() == t2.value.model(),
    ensures
        t1.model() == t2.model(),
{
}

/// Insertion then lookup: after binding `key` to `v`, `key` maps to `v`
/// and every other key maps to whatever it mapped to before.
pub proof fn lemma_dict_insert_lookup(
    m: DictionaryModel,
    key: Seq<char>,
    v: ValueModel,
    other: Seq<char>,
)
    requires
        dict_sorted(m),
    ensures
        dict_model_lookup(dict_model_insert(m, key, v), key) == Option::Some(v),
        other != key ==> dict_model_lookup(dict_model_insert(m, key, v), other)
            == dict_model_lookup(m, other),
    decreases m.len(),
{
    let r = dict_model_insert(m, key, v);
    if m.len() == 0 {
        assert(r =~= seq![(key, v)]);
        assert(r.drop_first() =~= Seq::<(Seq<char>, ValueModel)>::empty());
        assert(dict_model_lookup(r, key) == Option::Some(v));
        if other != key {
            assert(dict_model_lookup(r, other) == dict_model_lookup(r.drop_first(), other));
            assert(dict_model_lookup(r, other) == dict_model_lookup(m, other));
        }
    } else if seq_char_lt(key, m[0].0) {
        assert(r =~= seq![(key, v)] + m);
        assert(r[0] == (key, v));
        assert(r.drop_first() =~= m);
        if other != key {
            assert(dict_model_lookup(r, other) == dict_model_lookup(m, other));
        }
    } else if key == m[0].0 {
        assert(r =~= seq![(key, v)] + m.drop_first());
        assert(r[0] == (key, v));
        assert(r.drop_first() =~= m.drop_first());
    } else {
        let m1 = m.drop_first();
        assert(forall|a: int| 0 <= a < m1.len() ==> m1[a] == m[a + 1]);
        assert forall|a: int, b: int| 0 <= a < b < m1.len() implies seq_char_lt(
            m1[a].0,
            m1[b].0,
        ) by {
            assert(m1[a] == m[a + 1]);
            assert(m1[b] == m[b + 1]);
        }
        lemma_dict_insert_lookup(m1, key, v, other);
        assert(r =~= seq![m[0]] + dict_model_insert(m1, key, v));
        assert(r[0] == m[0]);
        assert(r.drop_first() =~= dict_model_insert(m1, key, v));
    }
}

/// A key strictly below every key of a dictionary model is not bound.
proof fn lemma_lookup_below_all(m: DictionaryModel, k: Seq<char>)
    requires
        forall|j: int| 0 <= j < m.len() ==> seq_char_lt(k, #[trigger] m[j].0),
    ensures
        dict_model_lookup(m, k) is None,
    decreases m.len(),
{
    if m.len() > 0 {
        if k == m[0].0 {
            crate::strcmp::lemma_seq_char_lt_asymmetric(k, m[0].0);
        }
        assert(k != m[0].0);
        let m1 = m.drop_first();
        assert(forall|a: int| 0 <= a < m1.len() ==> m1[a] == m[a + 1]);
        assert forall|j: int| 0 <= j < m1.len() implies seq_char_lt(k, #[trigger] m1[j].0) by {
            assert(m1[j] == m[j + 1]);
        }
        lemma_lookup_below_all(m1, k);
    }
}

/// The canonical order makes the representation canonical: two
/// well-formed dictionaries that bind every key alike are one and the
/// same model, whatever order their bindings were made in.
pub proof fn lemma_dict_canonical(m1: DictionaryModel, m2: DictionaryModel)
    requires
        dict_sorted(m1),
        dict_sorted(m2),
        forall|k: Seq<char>|
            #[trigger] dict_model_lookup(m1, k) == dict_model_lookup(m2, k),
    ensures
        m1 == m2,
    decreases m1.len() + m2.len(),
{
    if m1.len() == 0 && m2.len() == 0 {
        assert(m1 =~= m2);
    } else if m1.len() == 0 {
        assert(dict_model_lookup(m2, m2[0].0) == Option::Some(m2[0].1));
        assert(dict_model_lookup(m1, m2[0].0) is None);
    } else if m2.len() == 0 {
        assert(dict_model_lookup(m1, m1[0].0) == Option::Some(m1[0].1));
        assert(dict_model_lookup(m2, m1[0].0) is None);
    } else {
        let h1 = m1[0].0;
        let h2 = m2[0].0;
        if seq_char_lt(h1, h2) {
            assert forall|j: int| 0 <= j < m2.len() implies seq_char_lt(h1, #[trigger] m2[j].0) by {
                if j > 0 {
                    crate::strcmp::lemma_seq_char_lt_transitive(h1, h2, m2[j].0);
                }
            }
            lemma_lookup_below_all(m2, h1);
            assert(dict_model_lookup(m1, h1) == Option::Some(m1[0].1));
        } else if seq_char_lt(h2, h1) {
            assert forall|j: int| 0 <= j < m1.len() implies seq_char_lt(h2, #[trigger] m1[j].0) by {
                if j > 0 {
                    crate::strcmp::lemma_seq_char_lt_transitive(h2, h1, m1[j].0);
                }
            }
            lemma_lookup_below_all(m1, h2);
            assert(dict_model_lookup(m2, h2) == Option::Some(m2[0].1));
        } else {
            crate::strcmp::lemma_seq_char_lt_total(h1, h2);
            assert(h1 == h2);
            assert(dict_model_lookup(m1, h1) == Option::Some(m1[0].1));
            assert(dict_model_lookup(m2, h2) == Option::Some(m2[0].1));
            assert(m1[0].1 == m2[0].1);
            let t1 = m1.drop_first();
            let t2 = m2.drop_first();
            assert(forall|a: int| 0 <= a < t1.len() ==> t1[a] == m1[a + 1]);
            assert(forall|a: int| 0 <= a < t2.len() ==> t2[a] == m2[a + 1]);
            assert forall|a: int, b: int| 0 <= a < b < t1.len() implies seq_char_lt(
                t1[a].0,
                t1[b].0,
            ) by {
                assert(t1[a] == m1[a + 1] && t1[b] == m1[b + 1]);
            }
            assert forall|a: int, b: int| 0 <= a < b < t2.len() implies seq_char_lt(
                t2[a].0,
                t2[b].0,
            ) by {
                assert(t2[a] == m2[a + 1] && t2[b] == m2[b + 1]);
            }
            assert forall|k: Seq<char>|
                #[trigger] dict_model_lookup(t1, k) == dict_model_lookup(t2, k) by {
                if k == h1 {
                    assert forall|j: int| 0 <= j < t1.len() implies seq_char_lt(
                        k,
                        #[trigger] t1[j].0,
                    ) by {
                        assert(t1[j] == m1[j + 1]);
                    }
                    assert forall|j: int| 0 <= j < t2.len() implies seq_char_lt(
                        k,
                        #[trigger] t2[j].0,
                    ) by {
                        assert(t2[j] == m2[j + 1]);
                    }
                    lemma_lookup_below_all(t1, k);
                    lemma_lookup_below_all(t2, k);
                } else {
                    assert(dict_model_lookup(m1, k) == dict_model_lookup(t1, k));
                    assert(dict_model_lookup(m2, k) == dict_model_lookup(t2, k));
                    assert(dict_model_lookup(m1, k) == dict_model_lookup(m2, k));
                }
            }
            lemma_dict_canonical(t1, t2);
            assert(m1 =~= m2) by {
                assert(forall|i: int| 1 <= i < m1.len() ==> m1[i] == t1[i - 1] && m2[i] == t2[i - 1]);
            }
        }
    }
}

} // verus!
