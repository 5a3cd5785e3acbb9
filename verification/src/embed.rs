//! The embedding protocol: type-directed coercion of host literals and
//! sub-terms into the canonical representation.
//!
//! The protocol is a closed set of (source, target) conversions.  Pure
//! conversions are `From` impls on [`TestHelper`], resolved by the target
//! type the call site requests; a raw mapping is never guessed at — the
//! requested target decides whether it is a dictionary value, a dictionary
//! pattern, or a plain dictionary.  Conversions that mint a term id take
//! the id counter explicitly.  An unlisted pair simply does not compile:
//! there is no runtime fallback.

use vstd::prelude::*;

use crate::ids::IdCounter;
use crate::terms::Call;
use crate::terms::Dictionary;
use crate::terms::ExternalInstance;
use crate::terms::InstanceLiteral;
use crate::terms::Numeric;
use crate::terms::Operation;
use crate::terms::Pattern;
use crate::terms::Symbol;
use crate::terms::Term;
use crate::terms::TermList;
use crate::terms::Value;
use crate::terms::ValueModel;

verus! {

/// Wrapper that steers overload resolution for the embedding protocol: a
/// request for `TestHelper<Target>` picks the conversion from the source's
/// type, so one call shape covers the whole closed conversion set.
pub struct TestHelper<T>(pub T);

impl<T> From<T> for TestHelper<T> {
    /// Anything embeds into itself.
    fn from(other: T) -> Self {
        TestHelper(other)
    }
}

impl<T> vstd::std_specs::convert::FromSpecImpl<T> for TestHelper<T> {
    open spec fn obeys_from_spec() -> bool {
        true
    }

    open spec fn from_spec(other: T) -> Self {
        TestHelper(other)
    }
}

impl From<String> for TestHelper<Symbol> {
    /// A name embeds into a symbol.
    fn from(other: String) -> Self {
        TestHelper(Symbol(other))
    }
}

impl vstd::std_specs::convert::FromSpecImpl<String> for TestHelper<Symbol> {
    open spec fn obeys_from_spec() -> bool {
        true
    }

    open spec fn from_spec(other: String) -> Self {
        TestHelper(Symbol(other))
    }
}

impl From<i64> for TestHelper<Value> {
    /// An integer literal embeds as a number value.
    fn from(other: i64) -> Self {
        TestHelper(Value::Number(Numeric::Integer(other)))
    }
}

impl vstd::std_specs::convert::FromSpecImpl<i64> for TestHelper<Value> {
    open spec fn obeys_from_spec() -> bool {
        true
    }

    open spec fn from_spec(other: i64) -> Self {
        TestHelper(Value::Number(Numeric::Integer(other)))
    }
}

impl From<String> for TestHelper<Value> {
    /// A string literal embeds as a string value.
    fn from(other: String) -> Self {
        TestHelper(Value::String(other))
    }
}

impl vstd::std_specs::convert::FromSpecImpl<String> for TestHelper<Value> {
    open spec fn obeys_from_spec() -> bool {
        true
    }

    open spec fn from_spec(other: String) -> Self {
        TestHelper(Value::String(other))
    }
}

impl From<bool> for TestHelper<Value> {
    /// A boolean literal embeds as a boolean value.
    fn from(other: bool) -> Self {
        TestHelper(Value::Boolean(other))
    }
}

impl vstd::std_specs::convert::FromSpecImpl<bool> for TestHelper<Value> {
    open spec fn obeys_from_spec() -> bool {
        true
    }

    open spec fn from_spec(other: bool) -> Self {
        TestHelper(Value::Boolean(other))
    }
}

impl From<Symbol> for TestHelper<Value> {
    /// A symbol embeds as a variable value.
    fn from(other: Symbol) -> Self {
        TestHelper(Value::Variable(other))
    }
}

impl vstd::std_specs::convert::FromSpecImpl<Symbol> for TestHelper<Value> {
    open spec fn obeys_from_spec() -> bool {
        true
    }

    open spec fn from_spec(other: Symbol) -> Self {
        TestHelper(Value::Variable(other))
    }
}

impl From<TermList> for TestHelper<Value> {
    /// A term sequence embeds as a list value.
    fn from(other: TermList) -> Self {
        TestHelper(Value::List(other))
    }
}

impl vstd::std_specs::convert::FromSpecImpl<TermList> for TestHelper<Value> {
    open spec fn obeys_from_spec() -> bool {
        true
    }

    open spec fn from_spec(other: TermList) -> Self {
        TestHelper(Value::List(other))
    }
}

impl From<Dictionary> for TestHelper<Value> {
    /// A dictionary embeds as a dictionary value — a literal mapping, not
    /// a pattern; request `TestHelper<Pattern>` for the structural match.
    fn from(other: Dictionary) -> Self {
        TestHelper(Value::Dictionary(other))
    }
}

impl vstd::std_specs::convert::FromSpecImpl<Dictionary> for TestHelper<Value> {
    open spec fn obeys_from_spec() -> bool {
        true
    }

    open spec fn from_spec(other: Dictionary) -> Self {
        TestHelper(Value::Dictionary(other))
    }
}

impl From<Call> for TestHelper<Value> {
    /// A call embeds as a call value.
    fn from(other: Call) -> Self {
        TestHelper(Value::Call(other))
    }
}

impl vstd::std_specs::convert::FromSpecImpl<Call> for TestHelper<Value> {
    open spec fn obeys_from_spec() -> bool {
        true
    }

    open spec fn from_spec(other: Call) -> Self {
        TestHelper(Value::Call(other))
    }
}

impl From<Operation> for TestHelper<Value> {
    /// An operation embeds as an expression value.
    fn from(other: Operation) -> Self {
        TestHelper(Value::Expression(other))
    }
}

impl vstd::std_specs::convert::FromSpecImpl<Operation> for TestHelper<Value> {
    open spec fn obeys_from_spec() -> bool {
        true
    }

    open spec fn from_spec(other: Operation) -> Self {
        TestHelper(Value::Expression(other))
    }
}

impl From<Pattern> for TestHelper<Value> {
    /// A pattern embeds as a pattern value.
    fn from(other: Pattern) -> Self {
        TestHelper(Value::Pattern(other))
    }
}

impl vstd::std_specs::convert::FromSpecImpl<Pattern> for TestHelper<Value> {
    open spec fn obeys_from_spec() -> bool {
        true
    }

    open spec fn from_spec(other: Pattern) -> Self {
        TestHelper(Value::Pattern(other))
    }
}

impl From<InstanceLiteral> for TestHelper<Value> {
    /// An instance literal embeds as an instance pattern value.
    fn from(other: InstanceLiteral) -> Self {
        TestHelper(Value::Pattern(Pattern::Instance(other)))
    }
}

impl vstd::std_specs::convert::FromSpecImpl<InstanceLiteral> for TestHelper<Value> {
    open spec fn obeys_from_spec() -> bool {
        true
    }

    open spec fn from_spec(other: InstanceLiteral) -> Self {
        TestHelper(Value::Pattern(Pattern::Instance(other)))
    }
}

impl From<Dictionary> for TestHelper<Pattern> {
    /// A dictionary embeds as a dictionary pattern: a structural match on
    /// its fields.
    fn from(other: Dictionary) -> Self {
        TestHelper(Pattern::Dictionary(other))
    }
}

impl vstd::std_specs::convert::FromSpecImpl<Dictionary> for TestHelper<Pattern> {
    open spec fn obeys_from_spec() -> bool {
        true
    }

    open spec fn from_spec(other: Dictionary) -> Self {
        TestHelper(Pattern::Dictionary(other))
    }
}

impl From<InstanceLiteral> for TestHelper<Pattern> {
    /// An instance literal embeds as an instance pattern.
    fn from(other: InstanceLiteral) -> Self {
        TestHelper(Pattern::Instance(other))
    }
}

impl vstd::std_specs::convert::FromSpecImpl<InstanceLiteral> for TestHelper<Pattern> {
    open spec fn obeys_from_spec() -> bool {
        true
    }

    open spec fn from_spec(other: InstanceLiteral) -> Self {
        TestHelper(Pattern::Instance(other))
    }
}

impl From<u64> for ExternalInstance {
    /// A bare instance id yields a handle with every descriptive field
    /// unset.
    fn from(instance_id: u64) -> Self {
        ExternalInstance {
            instance_id,
            constructor: Option::None,
            repr: Option::None,
            class_repr: Option::None,
            class_id: Option::None,
        }
    }
}

impl vstd::std_specs::convert::FromSpecImpl<u64> for ExternalInstance {
    open spec fn obeys_from_spec() -> bool {
        true
    }

    open spec fn from_spec(instance_id: u64) -> Self {
        ExternalInstance {
            instance_id,
            constructor: Option::None,
            repr: Option::None,
            class_repr: Option::None,
            class_id: Option::None,
        }
    }
}

impl Value {
    /// Embed a floating-point literal, given as its IEEE 754 binary64 bit
    /// pattern, as a number value.
    pub fn from_float_bits(bits: u64) -> (v: Value)
        ensures
            v == Value::Number(Numeric::Float(bits)),
    {
        Value::Number(Numeric::Float(bits))
    }
}

/// Embed a pattern into a term: the two-hop composition through a pattern
/// value, without the caller spelling the intermediate step out.
pub fn term_from_pattern(pattern: Pattern, counter: &mut IdCounter) -> (t: Term)
    requires
        old(counter).next_id() < u64::MAX,
    ensures
        t.value == Value::Pattern(pattern),
        t.model() == ValueModel::Pattern(pattern.model()),
        final(counter).next_id() == old(counter).next_id() + 1,
{
    Term::new(Value::Pattern(pattern), counter)
}

/// Embed a sequence of values into a list value: each element becomes a
/// fresh term, in order, before the list is wrapped.
pub fn list_of_values(values: Vec<Value>, counter: &mut IdCounter) -> (v: Value)
    requires
        old(counter).next_id() + values@.len() <= u64::MAX,
    ensures
        v.model() == ValueModel::List(crate::terms::values_model(values@)),
        final(counter).next_id() == old(counter).next_id() + values@.len(),
{
    let ghost all = values@;
    let mut terms: TermList = Vec::new();
    let mut rest = values;
    let n: usize = rest.len();
    let mut i: usize = 0;
    while i < n
        invariant
            n == all.len(),
            i <= n,
            rest@ =~= all.skip(i as int),
            terms@.len() == i,
            forall|k: int| 0 <= k < i ==> #[trigger] terms@[k].model() == all[k].model(),
            counter.next_id() == old(counter).next_id() + i,
            old(counter).next_id() + all.len() <= u64::MAX,
        decreases n - i,
    {
        let value = rest.remove(0);
        assert(value == all[i as int]);
        let t = Term::new(value, counter);
        terms.push(t);
        i = i + 1;
        assert(rest@ =~= all.skip(i as int));
    }
    proof {
        crate::terms::lemma_terms_model(terms@);
        crate::terms::lemma_values_model(all);
        assert(crate::terms::terms_model(terms@) =~= crate::terms::values_model(all));
    }
    Value::List(terms)
}

} // verus!
