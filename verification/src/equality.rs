//! Structural equality on terms.
//!
//! Two terms are equal exactly when their values are: ids and source
//! metadata are identity, not content, and never influence the outcome.
//! Each comparison is proved to decide equality of the mathematical models,
//! which erase ids by construction.

use vstd::prelude::*;

use crate::strcmp::str_eq;
use crate::terms::Call;
use crate::terms::Dictionary;
use crate::terms::InstanceLiteral;
use crate::terms::Numeric;
use crate::terms::Operation;
use crate::terms::Pattern;
use crate::terms::Symbol;
use crate::terms::Term;
use crate::terms::TermList;
use crate::terms::Value;
use crate::terms::lemma_pairs_model;
use crate::terms::lemma_terms_model;
use crate::terms::pairs_model;
use crate::terms::terms_model;

verus! {

impl Symbol {
    /// Whether two symbols bear the same name.
    pub fn equals(&self, other: &Symbol) -> (r: bool)
        ensures
            r == (self.model() == other.model()),
    {
        str_eq(self.0.as_str(), other.0.as_str())
    }
}

impl Numeric {
    /// Whether two numeric literals are equal as stored: integers by
    /// value, floating-point literals by bit pattern.
    pub fn equals(&self, other: &Numeric) -> (r: bool)
        ensures
            r == (self.model() == other.model()),
    {
        match (self, other) {
            (Numeric::Integer(a), Numeric::Integer(b)) => *a == *b,
            (Numeric::Float(a), Numeric::Float(b)) => *a == *b,
            _ => false,
        }
    }
}

/// Whether two term sequences have equal models, element by element.
pub fn term_list_equals(a: &TermList, b: &TermList) -> (r: bool)
    ensures
        r == (terms_model(a@) == terms_model(b@)),
    decreases a,
{
    proof {
        lemma_terms_model(a@);
        lemma_terms_model(b@);
    }
    if a.len() != b.len() {
        return false;
    }
    let n: usize = a.len();
    let mut i: usize = 0;
    while i < n
        invariant
            a@.len() == b@.len(),
            n == a@.len(),
            i <= n,
            forall|k: int| 0 <= k < i ==> #[trigger] a@[k].model() == b@[k].model(),
        decreases n - i,
    {
        let eq: bool = a[i].equals(&b[i]);
        if !eq {
            proof {
                lemma_terms_model(a@);
                lemma_terms_model(b@);
                assert(terms_model(a@)[i as int] != terms_model(b@)[i as int]);
            }
            return false;
        }
        i = i + 1;
    }
    proof {
        lemma_terms_model(a@);
        lemma_terms_model(b@);
        assert(terms_model(a@) =~= terms_model(b@));
    }
    true
}

/// Whether two key/value pair sequences have equal models, pairwise.
pub fn pair_list_equals(a: &Vec<(Symbol, Term)>, b: &Vec<(Symbol, Term)>) -> (r: bool)
    ensures
        r == (pairs_model(a@) == pairs_model(b@)),
    decreases a,
{
    proof {
        lemma_pairs_model(a@);
        lemma_pairs_model(b@);
    }
    if a.len() != b.len() {
        return false;
    }
    let n: usize = a.len();
    let mut i: usize = 0;
    while i < n
        invariant
            a@.len() == b@.len(),
            n == a@.len(),
            i <= n,
            forall|k: int| 0 <= k < i ==> #[trigger] a@[k].0.model() == b@[k].0.model(),
            forall|k: int| 0 <= k < i ==> #[trigger] a@[k].1.model() == b@[k].1.model(),
        decreases n - i,
    {
        let keys_eq: bool = a[i].0.equals(&b[i].0);
        if !keys_eq {
            proof {
                lemma_pairs_model(a@);
                lemma_pairs_model(b@);
                assert(pairs_model(a@)[i as int] != pairs_model(b@)[i as int]);
            }
            return false;
        }
        let vals_eq: bool = a[i].1.equals(&b[i].1);
        if !vals_eq {
            proof {
                lemma_pairs_model(a@);
                lemma_pairs_model(b@);
                assert(pairs_model(a@)[i as int] != pairs_model(b@)[i as int]);
            }
            return false;
        }
        i = i + 1;
    }
    proof {
        lemma_pairs_model(a@);
        lemma_pairs_model(b@);
        assert(pairs_model(a@) =~= pairs_model(b@));
    }
    true
}

impl Dictionary {
    /// Whether two dictionaries hold equal bindings in the same order.
    pub fn equals(&self, other: &Dictionary) -> (r: bool)
        ensures
            r == (self.model() == other.model()),
        decreases self,
    {
        pair_list_equals(&self.fields, &other.fields)
    }
}

impl Call {
    /// Whether two calls agree on name, positional arguments, and keyword
    /// dictionary; an absent keyword dictionary differs from any present
    /// one, even an empty one.
    pub fn equals(&self, other: &Call) -> (r: bool)
        ensures
            r == (self.model() == other.model()),
        decreases self,
    {
        let names_eq: bool = self.name.equals(&other.name);
        if !names_eq {
            return false;
        }
        let args_eq: bool = term_list_equals(&self.args, &other.args);
        if !args_eq {
            return false;
        }
        match (&self.kwargs, &other.kwargs) {
            (Option::Some(d1), Option::Some(d2)) => d1.equals(d2),
            (Option::None, Option::None) => true,
            _ => false,
        }
    }
}

impl Operation {
    /// Whether two operations bear the same operator and equal arguments.
    pub fn equals(&self, other: &Operation) -> (r: bool)
        ensures
            r == (self.model() == other.model()),
        decreases self,
    {
        if self.operator != other.operator {
            return false;
        }
        term_list_equals(&self.args, &other.args)
    }
}

impl InstanceLiteral {
    /// Whether two instance literals bear the same tag and equal fields.
    pub fn equals(&self, other: &InstanceLiteral) -> (r: bool)
        ensures
            r == (self.model() == other.model()),
        decreases self,
    {
        let tags_eq: bool = self.tag.equals(&other.tag);
        if !tags_eq {
            return false;
        }
        self.fields.equals(&other.fields)
    }
}

impl Pattern {
    /// Whether two patterns are structurally equal.
    pub fn equals(&self, other: &Pattern) -> (r: bool)
        ensures
            r == (self.model() == other.model()),
        decreases self,
    {
        match (self, other) {
            (Pattern::Dictionary(d1), Pattern::Dictionary(d2)) => d1.equals(d2),
            (Pattern::Instance(l1), Pattern::Instance(l2)) => l1.equals(l2),
            _ => false,
        }
    }
}

impl Value {
    /// Whether two values are structurally equal.  Terms nested anywhere
    /// inside are compared by value alone, ignoring their ids.
    pub fn equals(&self, other: &Value) -> (r: bool)
        ensures
            r == (self.model() == other.model()),
        decreases self,
    {
        match (self, other) {
            (Value::Number(a), Value::Number(b)) => a.equals(b),
            (Value::String(a), Value::String(b)) => str_eq(a.as_str(), b.as_str()),
            (Value::Boolean(a), Value::Boolean(b)) => *a == *b,
            (Value::List(a), Value::List(b)) => term_list_equals(a, b),
            (Value::Dictionary(a), Value::Dictionary(b)) => a.equals(b),
            (Value::Variable(a), Value::Variable(b)) => a.equals(b),
            (Value::Call(a), Value::Call(b)) => a.equals(b),
            (Value::Pattern(a), Value::Pattern(b)) => a.equals(b),
            (Value::Expression(a), Value::Expression(b)) => a.equals(b),
            _ => false,
        }
    }
}

impl Term {
    /// Whether two terms are structurally equal: their values decide, and
    /// their ids and source metadata are ignored.
    pub fn equals(&self, other: &Term) -> (r: bool)
        ensures
            r == (self.model() == other.model()),
        decreases self,
    {
        self.value.equals(&other.value)
    }
}

impl PartialEq for Symbol {
    /// Symbols are equal when their names are.
    fn eq(&self, other: &Symbol) -> (r: bool) {
        self.equals(other)
    }
}

impl vstd::std_specs::cmp::PartialEqSpecImpl for Symbol {
    open spec fn obeys_eq_spec() -> bool {
        true
    }

    open spec fn eq_spec(&self, other: &Symbol) -> bool {
        self.model() == other.model()
    }
}

impl PartialEq for Value {
    /// Values are equal when they are structurally equal: nested terms
    /// are compared by value alone, ignoring their ids.
    fn eq(&self, other: &Value) -> (r: bool) {
        self.equals(other)
    }
}

impl vstd::std_specs::cmp::PartialEqSpecImpl for Value {
    open spec fn obeys_eq_spec() -> bool {
        true
    }

    open spec fn eq_spec(&self, other: &Value) -> bool {
        self.model() == other.model()
    }
}

impl PartialEq for Term {
    /// Terms are equal exactly when their values are: the id and source
    /// metadata carry identity, never content.
    fn eq(&self, other: &Term) -> (r: bool) {
        self.equals(other)
    }
}

impl vstd::std_specs::cmp::PartialEqSpecImpl for Term {
    open spec fn obeys_eq_spec() -> bool {
        true
    }

    open spec fn eq_spec(&self, other: &Term) -> bool {
        self.model() == other.model()
    }
}

} // verus!
