//! The term representation: a tagged value union, identified term nodes,
//! patterns, operations, calls, and dictionaries.
//!
//! Every type has a mathematical model over `Seq` and `int`.  The model of a
//! [`Term`] is the model of its [`Value`] alone: term ids and source
//! metadata are identity, not content, so structural equality — which the
//! models define — ignores them.

use vstd::prelude::*;

use crate::ids::IdCounter;
use crate::strcmp::seq_char_lt;

verus! {

/// An identifier: the name of a variable, rule, call, or dictionary field.
/// Symbols are compared by their name alone.
#[derive(Clone, Debug)]
pub struct Symbol(pub String);

/// A numeric literal: an integer, or a binary floating-point number carried
/// as its bit pattern.  Numbers are compared exactly as stored, so two
/// floating-point literals are equal precisely when their bits are.
#[derive(Clone, Debug)]
pub enum Numeric {
    Integer(i64),
    /// The IEEE 754 binary64 bit pattern of the literal.
    Float(u64),
}

/// The provenance of a term.  This layer builds fixture trees directly, so
/// the only provenance it produces is `Test`; a surface parser producing
/// the same trees would record positions of its own.
#[derive(Clone, Copy, Debug, PartialEq, Eq, Structural)]
pub enum SourceInfo {
    Test,
}

/// The symbolic tag of an [`Operation`].
#[derive(Clone, Copy, Debug, PartialEq, Eq, Structural)]
pub enum Operator {
    Debug,
    Print,
    Cut,
    In,
    Isa,
    New,
    Dot,
    Not,
    Mul,
    Div,
    Mod,
    Rem,
    Add,
    Sub,
    Eq,
    Geq,
    Leq,
    Neq,
    Gt,
    Lt,
    Unify,
    Or,
    And,
    ForAll,
    Assign,
}

/// The contents of a term: exactly one tag of the union is active.
#[derive(Debug)]
pub enum Value {
    Number(Numeric),
    String(String),
    Boolean(bool),
    List(TermList),
    Dictionary(Dictionary),
    Variable(Symbol),
    Call(Call),
    Pattern(Pattern),
    Expression(Operation),
}

/// An ordered sequence of terms.
pub type TermList = Vec<Term>;

/// A value together with its identity: a process-unique id allocated at
/// construction and never mutated, and the provenance of the node.
#[derive(Debug)]
pub struct Term {
    pub id: u64,
    pub source_info: SourceInfo,
    pub value: Value,
}

/// A structural pattern used for dispatch: either a dictionary of field
/// constraints or an instance pattern naming a class tag.
#[derive(Debug)]
pub enum Pattern {
    Dictionary(Dictionary),
    Instance(InstanceLiteral),
}

/// An n-ary logical or relational node: an operator applied to an ordered
/// argument list.  Arity is not constrained here; a zero-argument `And` is
/// the vacuously true conjunction.
#[derive(Debug)]
pub struct Operation {
    pub operator: Operator,
    pub args: TermList,
}

/// A named invocation: positional arguments plus an optional keyword
/// dictionary.  Absent kwargs is distinct from an explicitly empty one.
#[derive(Debug)]
pub struct Call {
    pub name: Symbol,
    pub args: TermList,
    pub kwargs: Option<Dictionary>,
}

/// A mapping from symbols to terms with unique keys held in canonical
/// order: strictly increasing under [`seq_char_lt`].  The ordering is an
/// invariant, [`Dictionary::wf`], established by the constructors and
/// preserved by insertion.
#[derive(Debug)]
pub struct Dictionary {
    pub fields: Vec<(Symbol, Term)>,
}

/// A static description of a host object: a class tag plus a dictionary of
/// fields.
#[derive(Debug)]
pub struct InstanceLiteral {
    pub tag: Symbol,
    pub fields: Dictionary,
}

/// A runtime handle to a host object, known by its instance id; the
/// descriptive fields are optional and unset when constructed from a bare
/// id.
#[derive(Debug)]
pub struct ExternalInstance {
    pub instance_id: u64,
    pub constructor: Option<Term>,
    pub repr: Option<String>,
    pub class_repr: Option<String>,
    pub class_id: Option<u64>,
}

/// The model of a numeric literal.
pub enum NumericModel {
    Integer(int),
    Float(u64),
}

/// The model of a value: the same union shape over mathematical types,
/// with every nested term replaced by the model of its value — ids and
/// source metadata do not appear.
pub enum ValueModel {
    Number(NumericModel),
    String(Seq<char>),
    Boolean(bool),
    List(Seq<ValueModel>),
    Dictionary(DictionaryModel),
    Variable(Seq<char>),
    Call(CallModel),
    Pattern(PatternModel),
    Expression(OperationModel),
}

/// The model of a dictionary: its key/value pairs in stored order.
pub type DictionaryModel = Seq<(Seq<char>, ValueModel)>;

/// The model of a call.
pub struct CallModel {
    pub name: Seq<char>,
    pub args: Seq<ValueModel>,
    pub kwargs: Option<DictionaryModel>,
}

/// The model of an operation.
pub struct OperationModel {
    pub operator: Operator,
    pub args: Seq<ValueModel>,
}

/// The model of a pattern.
pub enum PatternModel {
    Dictionary(DictionaryModel),
    Instance(InstanceLiteralModel),
}

/// The model of an instance literal.
pub struct InstanceLiteralModel {
    pub tag: Seq<char>,
    pub fields: DictionaryModel,
}

impl Symbol {
    /// The name of the symbol, as a character sequence.
    pub open spec fn model(self) -> Seq<char> {
        self.0@
    }

    /// A symbol with the given name.
    pub fn new(name: String) -> (s: Symbol)
        ensures
            s.model() == name@,
    {
        Symbol(name)
    }
}

impl Numeric {
    /// The model of a numeric literal.
    pub open spec fn model(self) -> NumericModel {
        match self {
            Numeric::Integer(i) => NumericModel::Integer(i as int),
            Numeric::Float(bits) => NumericModel::Float(bits),
        }
    }
}

/// The models of the terms of `ts`, in order.
pub open spec fn terms_model(ts: Seq<Term>) -> Seq<ValueModel>
    decreases ts,
{
    if ts.len() == 0 {
        Seq::empty()
    } else {
        seq![ts[0].model()] + terms_model(ts.drop_first())
    }
}

/// The models of the key/value pairs of `ps`, in order.
pub open spec fn pairs_model(ps: Seq<(Symbol, Term)>) -> DictionaryModel
    decreases ps,
{
    if ps.len() == 0 {
        Seq::empty()
    } else {
        seq![(ps[0].0.model(), ps[0].1.model())] + pairs_model(ps.drop_first())
    }
}

/// The models of the values of `vs`, in order.
pub open spec fn values_model(vs: Seq<Value>) -> Seq<ValueModel>
    decreases vs,
{
    if vs.len() == 0 {
        Seq::empty()
    } else {
        seq![vs[0].model()] + values_model(vs.drop_first())
    }
}

/// The models of a value sequence, pointwise.
pub proof fn lemma_values_model(vs: Seq<Value>)
    ensures
        values_model(vs).len() == vs.len(),
        forall|i: int| 0 <= i < vs.len() ==> values_model(vs)[i] == vs[i].model(),
    decreases vs.len(),
{
    if vs.len() > 0 {
        lemma_values_model(vs.drop_first());
        assert forall|i: int| 0 <= i < vs.len() implies values_model(vs)[i] == vs[i].model() by {
            if i >= 1 {
                assert(vs.drop_first()[i - 1] == vs[i]);
                assert(values_model(vs)[i] == values_model(vs.drop_first())[i - 1]);
            }
        }
    }
}

impl Value {
    /// The model of a value.
    pub open spec fn model(self) -> ValueModel
        decreases self,
    {
        match self {
            Value::Number(n) => ValueModel::Number(n.model()),
            Value::String(s) => ValueModel::String(s@),
            Value::Boolean(b) => ValueModel::Boolean(b),
            Value::List(ts) => ValueModel::List(terms_model(ts@)),
            Value::Dictionary(d) => ValueModel::Dictionary(d.model()),
            Value::Variable(s) => ValueModel::Variable(s.model()),
            Value::Call(c) => ValueModel::Call(c.model()),
            Value::Pattern(p) => ValueModel::Pattern(p.model()),
            Value::Expression(op) => ValueModel::Expression(op.model()),
        }
    }
}

impl Term {
    /// The model of a term is the model of its value: the id and source
    /// metadata are not content.
    pub open spec fn model(self) -> ValueModel
        decreases self,
    {
        self.value.model()
    }
}

impl Dictionary {
    /// The model of a dictionary.
    pub open spec fn model(self) -> DictionaryModel
        decreases self,
    {
        pairs_model(self.fields@)
    }
}

impl Call {
    /// The model of a call.
    pub open spec fn model(self) -> CallModel
        decreases self,
    {
        CallModel {
            name: self.name.model(),
            args: terms_model(self.args@),
            kwargs: match self.kwargs {
                Option::Some(d) => Option::Some(d.model()),
                Option::None => Option::None,
            },
        }
    }
}

impl Operation {
    /// The model of an operation.
    pub open spec fn model(self) -> OperationModel
        decreases self,
    {
        OperationModel { operator: self.operator, args: terms_model(self.args@) }
    }
}

impl Pattern {
    /// The model of a pattern.
    pub open spec fn model(self) -> PatternModel
        decreases self,
    {
        match self {
            Pattern::Dictionary(d) => PatternModel::Dictionary(d.model()),
            Pattern::Instance(lit) => PatternModel::Instance(lit.model()),
        }
    }
}

impl InstanceLiteral {
    /// The model of an instance literal.
    pub open spec fn model(self) -> InstanceLiteralModel
        decreases self,
    {
        InstanceLiteralModel { tag: self.tag.model(), fields: self.fields.model() }
    }
}

/// The models of a term sequence, pointwise: `terms_model` keeps length and
/// maps each position to the model of the term there.
pub proof fn lemma_terms_model(ts: Seq<Term>)
    ensures
        terms_model(ts).len() == ts.len(),
        forall|i: int| 0 <= i < ts.len() ==> terms_model(ts)[i] == ts[i].model(),
    decreases ts.len(),
{
    if ts.len() > 0 {
        lemma_terms_model(ts.drop_first());
        assert forall|i: int| 0 <= i < ts.len() implies terms_model(ts)[i] == ts[i].model() by {
            if i >= 1 {
                assert(ts.drop_first()[i - 1] == ts[i]);
                assert(terms_model(ts)[i] == terms_model(ts.drop_first())[i - 1]);
            }
        }
    }
}

/// The models of a pair sequence, pointwise.
pub proof fn lemma_pairs_model(ps: Seq<(Symbol, Term)>)
    ensures
        pairs_model(ps).len() == ps.len(),
        forall|i: int|
            0 <= i < ps.len() ==> pairs_model(ps)[i] == (ps[i].0.model(), ps[i].1.model()),
    decreases ps.len(),
{
    if ps.len() > 0 {
        lemma_pairs_model(ps.drop_first());
        assert forall|i: int|
            0 <= i < ps.len() implies pairs_model(ps)[i] == (ps[i].0.model(), ps[i].1.model()) by {
            if i >= 1 {
                assert(ps.drop_first()[i - 1] == ps[i]);
                assert(pairs_model(ps)[i] == pairs_model(ps.drop_first())[i - 1]);
            }
        }
    }
}

impl Term {
    /// A fresh term holding `value`, with a newly allocated id and test
    /// provenance.  Unwrapping the term yields exactly the embedded value.
    pub fn new(value: Value, counter: &mut IdCounter) -> (t: Term)
        requires
            old(counter).next_id() < u64::MAX,
        ensures
            t.value == value,
            t.model() == value.model(),
            t.source_info == SourceInfo::Test,
            t.id == old(counter).next_id(),
            final(counter).next_id() == old(counter).next_id() + 1,
    {
        Term { id: counter.fresh_id(), source_info: SourceInfo::Test, value }
    }

    /// The value this term wraps.
    pub fn value(&self) -> (v: &Value)
        ensures
            v == &self.value,
    {
        &self.value
    }

    /// A new term with the same provenance as `self` but a different value
    /// and a freshly allocated id.
    pub fn clone_with_value(&self, value: Value, counter: &mut IdCounter) -> (t: Term)
        requires
            old(counter).next_id() < u64::MAX,
        ensures
            t.value == value,
            t.model() == value.model(),
            t.source_info == self.source_info,
            t.id == old(counter).next_id(),
            final(counter).next_id() == old(counter).next_id() + 1,
    {
        Term { id: counter.fresh_id(), source_info: self.source_info, value }
    }
}

impl Operation {
    /// The operation `operator(args...)`; no arity rule is enforced here.
    pub fn new(operator: Operator, args: TermList) -> (op: Operation)
        ensures
            op.operator == operator,
            op.args == args,
            op.model() == (OperationModel { operator, args: terms_model(args@) }),
    {
        Operation { operator, args }
    }
}

impl Call {
    /// A call with positional arguments and no keyword dictionary.
    pub fn new(name: Symbol, args: TermList) -> (c: Call)
        ensures
            c.name == name,
            c.args == args,
            c.kwargs is None,
            c.model() == (CallModel {
                name: name.model(),
                args: terms_model(args@),
                kwargs: Option::None,
            }),
    {
        Call { name, args, kwargs: Option::None }
    }

    /// A call with positional arguments and an explicit keyword dictionary;
    /// an empty dictionary here is distinct from no dictionary at all.
    pub fn with_kwargs(name: Symbol, args: TermList, kwargs: Dictionary) -> (c: Call)
        ensures
            c.name == name,
            c.args == args,
            c.kwargs == Option::Some(kwargs),
            c.model() == (CallModel {
                name: name.model(),
                args: terms_model(args@),
                kwargs: Option::Some(kwargs.model()),
            }),
    {
        Call { name, args, kwargs: Option::Some(kwargs) }
    }
}

impl InstanceLiteral {
    /// An instance pattern with the given class tag and no field
    /// constraints.
    pub fn new(tag: Symbol) -> (lit: InstanceLiteral)
        ensures
            lit.tag == tag,
            lit.model() == (InstanceLiteralModel { tag: tag.model(), fields: Seq::empty() }),
    {
        InstanceLiteral { tag, fields: Dictionary::new() }
    }

    /// An instance pattern with the given class tag and field constraints.
    pub fn with_fields(tag: Symbol, fields: Dictionary) -> (lit: InstanceLiteral)
        ensures
            lit.tag == tag,
            lit.fields == fields,
            lit.model() == (InstanceLiteralModel { tag: tag.model(), fields: fields.model() }),
    {
        InstanceLiteral { tag, fields }
    }
}

/// Keys strictly increase along the pair sequence: the canonical order.
pub open spec fn dict_sorted(m: DictionaryModel) -> bool {
    forall|i: int, j: int| 0 <= i < j < m.len() ==> seq_char_lt(m[i].0, m[j].0)
}

/// Sorted insertion of a binding into a dictionary model: the pair lands at
/// the canonically ordered position for its key, replacing the old binding
/// when the key is already present.
pub open spec fn dict_model_insert(m: DictionaryModel, key: Seq<char>, v: ValueModel) -> DictionaryModel
    decreases m.len(),
{
    if m.len() == 0 {
        seq![(key, v)]
    } else if seq_char_lt(key, m[0].0) {
        seq![(key, v)] + m
    } else if key == m[0].0 {
        seq![(key, v)] + m.drop_first()
    } else {
        seq![m[0]] + dict_model_insert(m.drop_first(), key, v)
    }
}

/// The binding a dictionary model holds for `key`, if any.
pub open spec fn dict_model_lookup(m: DictionaryModel, key: Seq<char>) -> Option<ValueModel>
    decreases m.len(),
{
    if m.len() == 0 {
        Option::None
    } else if m[0].0 == key {
        Option::Some(m[0].1)
    } else {
        dict_model_lookup(m.drop_first(), key)
    }
}

/// Sorted insertion, located: when the first `i` keys of a sorted model
/// come before `key` and the key at position `i` (if any) does not,
/// [`dict_model_insert`] either replaces the pair at `i` (key already
/// bound) or places the new pair there.
pub proof fn lemma_dict_model_insert_at(m: DictionaryModel, key: Seq<char>, v: ValueModel, i: int)
    requires
        dict_sorted(m),
        0 <= i <= m.len(),
        forall|j: int| 0 <= j < i ==> seq_char_lt(#[trigger] m[j].0, key),
        i < m.len() ==> !seq_char_lt(m[i].0, key),
    ensures
        i < m.len() && m[i].0 == key ==> dict_model_insert(m, key, v) == m.update(i, (key, v)),
        !(i < m.len() && m[i].0 == key) ==> dict_model_insert(m, key, v) == m.insert(i, (key, v)),
    decreases i,
{
    if i == 0 {
        if m.len() == 0 {
            assert(dict_model_insert(m, key, v) =~= m.insert(0, (key, v)));
        } else if m[0].0 == key {
            if seq_char_lt(key, m[0].0) {
                crate::strcmp::lemma_seq_char_lt_asymmetric(key, m[0].0);
            }
            assert(dict_model_insert(m, key, v) =~= m.update(0, (key, v)));
        } else {
            crate::strcmp::lemma_seq_char_lt_total(key, m[0].0);
            assert(seq_char_lt(key, m[0].0));
            assert(dict_model_insert(m, key, v) =~= m.insert(0, (key, v)));
        }
    } else {
        assert(seq_char_lt(m[0].0, key));
        if seq_char_lt(key, m[0].0) {
            crate::strcmp::lemma_seq_char_lt_asymmetric(m[0].0, key);
        }
        assert(key != m[0].0);
        let m1 = m.drop_first();
        assert(forall|a: int| 0 <= a < m1.len() ==> m1[a] == m[a + 1]);
        assert forall|a: int, b: int| 0 <= a < b < m1.len() implies seq_char_lt(
            m1[a].0,
            m1[b].0,
        ) by {
            assert(m1[a] == m[a + 1]);
            assert(m1[b] == m[b + 1]);
        }
        assert forall|j: int| 0 <= j < i - 1 implies seq_char_lt(#[trigger] m1[j].0, key) by {
            assert(m1[j] == m[j + 1]);
        }
        lemma_dict_model_insert_at(m1, key, v, i - 1);
        assert(dict_model_insert(m, key, v) == seq![m[0]] + dict_model_insert(m1, key, v));
        if i < m.len() && m[i].0 == key {
            assert(m1[i - 1] == m[i]);
            assert(dict_model_insert(m1, key, v) == m1.update(i - 1, (key, v)));
            assert(seq![m[0]] + m1.update(i - 1, (key, v)) =~= m.update(i, (key, v)));
        } else {
            if i - 1 < m1.len() {
                assert(m1[i - 1] == m[i]);
            }
            assert(dict_model_insert(m1, key, v) == m1.insert(i - 1, (key, v)));
            assert(seq![m[0]] + m1.insert(i - 1, (key, v)) =~= m.insert(i, (key, v)));
        }
    }
}

/// Lookup skips over entries whose keys differ from the one sought.
pub proof fn lemma_dict_model_lookup_skip(m: DictionaryModel, key: Seq<char>, i: int)
    requires
        0 <= i <= m.len(),
        forall|j: int| 0 <= j < i ==> #[trigger] m[j].0 != key,
    ensures
        dict_model_lookup(m, key) == dict_model_lookup(m.skip(i), key),
    decreases i,
{
    if i == 0 {
        assert(m.skip(0) =~= m);
    } else {
        assert(m[0].0 != key);
        let m1 = m.drop_first();
        assert(forall|a: int| 0 <= a < m1.len() ==> m1[a] == m[a + 1]);
        assert forall|j: int| 0 <= j < i - 1 implies #[trigger] m1[j].0 != key by {
            assert(m1[j] == m[j + 1]);
        }
        lemma_dict_model_lookup_skip(m1, key, i - 1);
        assert(m1.skip(i - 1) =~= m.skip(i));
    }
}

impl Dictionary {
    /// The invariant: keys are strictly increasing in canonical order, so
    /// they are unique and the stored order is a function of the mapping.
    pub open spec fn wf(self) -> bool {
        dict_sorted(self.model())
    }

    /// The empty dictionary.
    pub fn new() -> (d: Dictionary)
        ensures
            d.model() == Seq::<(Seq<char>, ValueModel)>::empty(),
            d.wf(),
    {
        Dictionary { fields: Vec::new() }
    }

    /// The number of bindings.
    pub fn len(&self) -> (n: usize)
        ensures
            n == self.fields@.len(),
            n == self.model().len(),
    {
        proof {
            lemma_pairs_model(self.fields@);
        }
        self.fields.len()
    }

    /// Bind `key` to `value`, keeping the canonical order: the pair is
    /// placed at its ordered position, replacing any previous binding of
    /// the same key.
    pub fn insert(&mut self, key: Symbol, value: Term)
        requires
            old(self).wf(),
        ensures
            final(self).wf(),
            final(self).model() == dict_model_insert(
                old(self).model(),
                key.model(),
                value.model(),
            ),
    {
        proof {
            lemma_pairs_model(self.fields@);
        }
        let ghost m = self.model();
        let len: usize = self.fields.len();
        let mut i: usize = 0;
        loop
            invariant
                self.fields@ == old(self).fields@,
                m == pairs_model(self.fields@),
                dict_sorted(m),
                m.len() == self.fields@.len(),
                forall|j: int|
                    0 <= j < m.len() ==> #[trigger] m[j] == (
                        self.fields@[j].0.model(),
                        self.fields@[j].1.model(),
                    ),
                len == self.fields@.len(),
                i <= len,
                forall|j: int| 0 <= j < i ==> seq_char_lt(#[trigger] m[j].0, key.model()),
            ensures
                self.fields@ == old(self).fields@,
                i <= len,
                forall|j: int| 0 <= j < i ==> seq_char_lt(#[trigger] m[j].0, key.model()),
                i < len ==> !seq_char_lt(m[i as int].0, key.model()),
            decreases len - i,
        {
            if i >= len {
                break ;
            }
            let cur_lt: bool = crate::strcmp::str_lt(self.fields[i].0.0.as_str(), key.0.as_str());
            if !cur_lt {
                break ;
            }
            i = i + 1;
        }
        let ghost km = key.model();
        let ghost vm = value.model();
        proof {
            lemma_dict_model_insert_at(m, km, vm, i as int);
        }
        let replace: bool = if i < len {
            self.fields[i].0.0 == key.0
        } else {
            false
        };
        if replace {
            self.fields.remove(i);
            self.fields.insert(i, (key, value));
            proof {
                assert(self.fields@ =~= old(self).fields@.update(i as int, self.fields@[i as int]));
                lemma_pairs_model(self.fields@);
                assert(self.model() =~= m.update(i as int, (km, vm)));
                assert forall|a: int, b: int|
                    0 <= a < b < self.model().len() implies seq_char_lt(
                    self.model()[a].0,
                    self.model()[b].0,
                ) by {
                    assert(m[i as int].0 == km);
                }
            }
        } else {
            self.fields.insert(i, (key, value));
            proof {
                lemma_pairs_model(self.fields@);
                assert(self.model() =~= m.insert(i as int, (km, vm)));
                if i < len {
                    crate::strcmp::lemma_seq_char_lt_total(km, m[i as int].0);
                    assert(seq_char_lt(km, m[i as int].0));
                }
                assert forall|a: int, b: int|
                    0 <= a < b < self.model().len() implies seq_char_lt(
                    self.model()[a].0,
                    self.model()[b].0,
                ) by {
                    let s = self.model();
                    if b < i {
                        assert(s[a] == m[a] && s[b] == m[b]);
                    } else if a < i && b == i {
                        assert(s[a] == m[a]);
                    } else if a < i && b > i {
                        assert(s[a] == m[a] && s[b] == m[b - 1]);
                    } else if a == i && b > i {
                        assert(s[b] == m[b - 1]);
                        if i < b - 1 {
                            crate::strcmp::lemma_seq_char_lt_transitive(
                                km,
                                m[i as int].0,
                                m[b - 1].0,
                            );
                        }
                    } else {
                        assert(s[a] == m[a - 1] && s[b] == m[b - 1]);
                    }
                }
            }
        }
    }

    /// The term bound to `name`, if any.
    pub fn get(&self, name: &str) -> (r: Option<&Term>)
        ensures
            match r {
                Option::Some(t) => dict_model_lookup(self.model(), name@) == Option::Some(
                    t.model(),
                ),
                Option::None => dict_model_lookup(self.model(), name@) is None,
            },
    {
        proof {
            lemma_pairs_model(self.fields@);
        }
        let ghost m = self.model();
        let len: usize = self.fields.len();
        let mut i: usize = 0;
        loop
            invariant
                m == self.model(),
                m.len() == self.fields@.len(),
                forall|j: int|
                    0 <= j < m.len() ==> #[trigger] m[j] == (
                        self.fields@[j].0.model(),
                        self.fields@[j].1.model(),
                    ),
                len == self.fields@.len(),
                i <= len,
                forall|j: int| 0 <= j < i ==> #[trigger] m[j].0 != name@,
            decreases len - i,
        {
            if i >= len {
                proof {
                    lemma_dict_model_lookup_skip(m, name@, i as int);
                    assert(m.skip(i as int).len() == 0);
                }
                return Option::None;
            }
            let found: bool = crate::strcmp::str_eq(self.fields[i].0.0.as_str(), name);
            if found {
                proof {
                    lemma_dict_model_lookup_skip(m, name@, i as int);
                    assert(m.skip(i as int)[0] == m[i as int]);
                }
                return Option::Some(&self.fields[i].1);
            }
            i = i + 1;
        }
    }
}

} // verus!
