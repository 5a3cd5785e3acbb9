//! Rules and their parameters.
//!
//! A rule binds a name to an ordered parameter list and a conjunctive
//! body.  Parameters come from a flat sequence of declared entries — bare
//! literals or name-with-specializer pairs — and a dictionary used as a
//! specializer is always promoted to a dictionary pattern: it means a
//! structural match, never literal equality.
//!
//! The natural tail-first assembly yields the parameter list in reverse of
//! declaration order; that is a documented post-condition of
//! [`assemble_params_rev`], and [`assemble_params`] applies the one
//! corrective reversal before a list is attached to a rule.

use vstd::prelude::*;

use crate::ids::IdCounter;
use crate::terms::Operation;
use crate::terms::OperationModel;
use crate::terms::Operator;
use crate::terms::Pattern;
use crate::terms::PatternModel;
use crate::terms::SourceInfo;
use crate::terms::Symbol;
use crate::terms::Term;
use crate::terms::TermList;
use crate::terms::Value;
use crate::terms::ValueModel;
use crate::terms::terms_model;

verus! {

/// A rule parameter: the binding term, plus an optional specializer
/// constraining which argument values match.
#[derive(Debug)]
pub struct Parameter {
    pub parameter: Term,
    pub specializer: Option<Term>,
}

/// The model of a parameter.
pub struct ParameterModel {
    pub parameter: ValueModel,
    pub specializer: Option<ValueModel>,
}

/// A named, parameterized rule with a conjunctive body.  `required`
/// distinguishes a rule-type declaration — "a rule of this shape must
/// exist" — from a concrete rule.
#[derive(Debug)]
pub struct Rule {
    pub name: Symbol,
    pub params: Vec<Parameter>,
    pub body: Term,
    pub source_info: SourceInfo,
    pub required: bool,
}

/// The model of a rule.
pub struct RuleModel {
    pub name: Seq<char>,
    pub params: Seq<ParameterModel>,
    pub body: ValueModel,
    pub required: bool,
}

/// One declared parameter entry: a bare literal, or a name with a
/// specializer.  A bare symbol names the bound variable; the protocol does
/// not reject other bare literals — whether they mean anything is the
/// call site's responsibility.
#[derive(Debug)]
pub enum ParamEntry {
    Bare(Value),
    Specialized(Symbol, Term),
}

/// A dictionary specializer value is promoted to a dictionary pattern;
/// every other specializer value stands as it is.
pub open spec fn promote_specializer(m: ValueModel) -> ValueModel {
    match m {
        ValueModel::Dictionary(d) => ValueModel::Pattern(PatternModel::Dictionary(d)),
        _ => m,
    }
}

impl ParamEntry {
    /// The parameter a declared entry denotes.
    pub open spec fn model(self) -> ParameterModel {
        match self {
            ParamEntry::Bare(v) => ParameterModel {
                parameter: v.model(),
                specializer: Option::None,
            },
            ParamEntry::Specialized(name, specializer) => ParameterModel {
                parameter: ValueModel::Variable(name.model()),
                specializer: Option::Some(promote_specializer(specializer.model())),
            },
        }
    }
}

impl Parameter {
    /// The model of a parameter.
    pub open spec fn model(self) -> ParameterModel {
        ParameterModel {
            parameter: self.parameter.model(),
            specializer: match self.specializer {
                Option::Some(t) => Option::Some(t.model()),
                Option::None => Option::None,
            },
        }
    }

    /// A parameter from a bare value, with no specializer.  A symbol value
    /// names the bound variable; any other literal is embedded as given.
    pub fn bare(value: Value, counter: &mut IdCounter) -> (p: Parameter)
        requires
            old(counter).next_id() < u64::MAX,
        ensures
            p.parameter.value == value,
            p.specializer is None,
            p.model() == (ParameterModel { parameter: value.model(), specializer: Option::None }),
            final(counter).next_id() == old(counter).next_id() + 1,
    {
        Parameter { parameter: Term::new(value, counter), specializer: Option::None }
    }

    /// A parameter binding `name`, specialized on `specializer`.  When the
    /// specializer's value is a dictionary it is promoted to a dictionary
    /// pattern before storage; the binding term keeps the specializer's
    /// provenance.
    pub fn with_specializer(name: Symbol, specializer: Term, counter: &mut IdCounter) -> (p:
        Parameter)
        requires
            old(counter).next_id() + 2 <= u64::MAX,
        ensures
            p.parameter.value == Value::Variable(name),
            p.parameter.source_info == specializer.source_info,
            match p.specializer {
                Option::Some(t) => t.value == (match specializer.value {
                    Value::Dictionary(d) => Value::Pattern(Pattern::Dictionary(d)),
                    v => v,
                }),
                Option::None => false,
            },
            p.model() == (ParameterModel {
                parameter: ValueModel::Variable(name.model()),
                specializer: Option::Some(promote_specializer(specializer.model())),
            }),
            final(counter).next_id() == old(counter).next_id() + 2,
    {
        let Term { id: _, source_info, value } = specializer;
        let promoted: Value = match value {
            Value::Dictionary(d) => Value::Pattern(Pattern::Dictionary(d)),
            v => v,
        };
        let specializer_term = Term { id: counter.fresh_id(), source_info, value: promoted };
        let parameter = Term { id: counter.fresh_id(), source_info, value: Value::Variable(name) };
        Parameter { parameter, specializer: Option::Some(specializer_term) }
    }
}

/// The models of a parameter sequence, in order.
pub open spec fn params_model(ps: Seq<Parameter>) -> Seq<ParameterModel>
    decreases ps,
{
    if ps.len() == 0 {
        Seq::empty()
    } else {
        seq![ps[0].model()] + params_model(ps.drop_first())
    }
}

/// The models of a parameter sequence, pointwise.
pub proof fn lemma_params_model(ps: Seq<Parameter>)
    ensures
        params_model(ps).len() == ps.len(),
        forall|i: int| 0 <= i < ps.len() ==> params_model(ps)[i] == ps[i].model(),
    decreases ps.len(),
{
    if ps.len() > 0 {
        lemma_params_model(ps.drop_first());
        assert forall|i: int| 0 <= i < ps.len() implies params_model(ps)[i] == ps[i].model() by {
            if i >= 1 {
                assert(ps.drop_first()[i - 1] == ps[i]);
                assert(params_model(ps)[i] == params_model(ps.drop_first())[i - 1]);
            }
        }
    }
}

/// Tail-first assembly of declared entries.  The list comes out in
/// **reverse** of declaration order — a documented, load-bearing
/// post-condition: reverse it once before attaching it to a rule, as
/// [`assemble_params`] does.
pub fn assemble_params_rev(entries: Vec<ParamEntry>, counter: &mut IdCounter) -> (ps: Vec<
    Parameter,
>)
    requires
        old(counter).next_id() + 2 * entries@.len() <= u64::MAX,
    ensures
        ps@.len() == entries@.len(),
        forall|i: int|
            0 <= i < ps@.len() ==> #[trigger] ps@[i].model() == entries@[entries@.len() - 1
                - i].model(),
        old(counter).next_id() <= final(counter).next_id(),
        final(counter).next_id() <= old(counter).next_id() + 2 * entries@.len(),
{
    let ghost all = entries@;
    let mut ps: Vec<Parameter> = Vec::new();
    let mut rest = entries;
    while rest.len() > 0
        invariant
            rest@ =~= all.take(rest@.len() as int),
            ps@.len() + rest@.len() == all.len(),
            forall|i: int|
                0 <= i < ps@.len() ==> #[trigger] ps@[i].model() == all[all.len() - 1 - i].model(),
            old(counter).next_id() <= counter.next_id(),
            counter.next_id() <= old(counter).next_id() + 2 * ps@.len(),
            old(counter).next_id() + 2 * all.len() <= u64::MAX,
        decreases rest@.len(),
    {
        let ghost k = rest@.len() as int - 1;
        let entry = rest.pop().unwrap();
        assert(entry == all[k]);
        let p = match entry {
            ParamEntry::Bare(value) => Parameter::bare(value, counter),
            ParamEntry::Specialized(name, specializer) => Parameter::with_specializer(
                name,
                specializer,
                counter,
            ),
        };
        ps.push(p);
        assert(rest@ =~= all.take(rest@.len() as int));
    }
    ps
}

/// Assembly in declaration order: the tail-first pass of
/// [`assemble_params_rev`] followed by the one corrective reversal, so
/// entry `i` becomes parameter `i`.
pub fn assemble_params(entries: Vec<ParamEntry>, counter: &mut IdCounter) -> (ps: Vec<Parameter>)
    requires
        old(counter).next_id() + 2 * entries@.len() <= u64::MAX,
    ensures
        ps@.len() == entries@.len(),
        forall|i: int| 0 <= i < ps@.len() ==> #[trigger] ps@[i].model() == entries@[i].model(),
        old(counter).next_id() <= final(counter).next_id(),
        final(counter).next_id() <= old(counter).next_id() + 2 * entries@.len(),
{
    let ghost n = entries@.len() as int;
    let ghost entry_models = Seq::new(entries@.len(), |i: int| entries@[i].model());
    let mut reversed = assemble_params_rev(entries, counter);
    let mut ps: Vec<Parameter> = Vec::new();
    while reversed.len() > 0
        invariant
            reversed@.len() + ps@.len() == n,
            forall|i: int|
                0 <= i < reversed@.len() ==> #[trigger] reversed@[i].model() == entry_models[n - 1
                    - i],
            forall|i: int| 0 <= i < ps@.len() ==> #[trigger] ps@[i].model() == entry_models[i],
        decreases reversed@.len(),
    {
        let ghost k = reversed@.len() as int - 1;
        let ghost before = reversed@;
        let p = reversed.pop().unwrap();
        assert(p == before[k]);
        ps.push(p);
    }
    ps
}

impl Rule {
    /// The model of a rule.
    pub open spec fn model(self) -> RuleModel {
        RuleModel {
            name: self.name.model(),
            params: params_model(self.params@),
            body: self.body.model(),
            required: self.required,
        }
    }

    /// A concrete rule: parameters assembled from `entries` in declaration
    /// order, body the conjunction of `body_terms` — empty meaning
    /// vacuously true — and `required` unset.
    pub fn new(name: Symbol, entries: Vec<ParamEntry>, body_terms: TermList, counter: &mut
        IdCounter) -> (r: Rule)
        requires
            old(counter).next_id() + 2 * entries@.len() + 1 <= u64::MAX,
        ensures
            r.name == name,
            r.required == false,
            r.source_info == SourceInfo::Test,
            r.params@.len() == entries@.len(),
            forall|i: int|
                0 <= i < r.params@.len() ==> #[trigger] r.params@[i].model()
                    == entries@[i].model(),
            r.body.value == Value::Expression(Operation { operator: Operator::And, args: body_terms }),
            r.model().body == ValueModel::Expression(
                OperationModel { operator: Operator::And, args: terms_model(body_terms@) },
            ),
    {
        let params = assemble_params(entries, counter);
        let body = Term::new(
            Value::Expression(Operation { operator: Operator::And, args: body_terms }),
            counter,
        );
        Rule { name, params, body, source_info: SourceInfo::Test, required: false }
    }

    /// A rule-type declaration: the parameter signature of `entries`, a
    /// vacuously true body, and an explicit `required` flag asserting that
    /// a rule of this name and shape must exist.
    pub fn rule_type(name: Symbol, entries: Vec<ParamEntry>, required: bool, counter: &mut
        IdCounter) -> (r: Rule)
        requires
            old(counter).next_id() + 2 * entries@.len() + 1 <= u64::MAX,
        ensures
            r.name == name,
            r.required == required,
            r.source_info == SourceInfo::Test,
            r.params@.len() == entries@.len(),
            forall|i: int|
                0 <= i < r.params@.len() ==> #[trigger] r.params@[i].model()
                    == entries@[i].model(),
            r.model().body == ValueModel::Expression(
                OperationModel { operator: Operator::And, args: Seq::empty() },
            ),
            match r.body.value {
                Value::Expression(op) => op.operator == Operator::And && op.args@.len() == 0,
                _ => false,
            },
    {
        let params = assemble_params(entries, counter);
        let body_terms: TermList = Vec::new();
        proof {
            crate::terms::lemma_terms_model(body_terms@);
            assert(terms_model(body_terms@) =~= Seq::<ValueModel>::empty());
        }
        let body = Term::new(
            Value::Expression(Operation { operator: Operator::And, args: body_terms }),
            counter,
        );
        Rule { name, params, body, source_info: SourceInfo::Test, required }
    }
}

} // verus!
