//! Rules: the constraints that the solver applies to a context.

use vstd::prelude::*;
use crate::context::{Context, ContextModel};
use crate::errors::Error;
use crate::expressions::{
    coerce, coerced, exp_get, exp_set, int_fact, integer, integer_of, Exp, ExpModel, Wrapped,
    WrappedModel,
};
use crate::facts::{
    meet_dim, meet_int, meet_shape, meet_type, meet_value, shape_of_extents, IntFact,
};
use crate::expressions::{exp_paths, Expression};
use crate::path::{read_as, Path};

verus! {

/// The mathematical values of a list of expressions.
pub open spec fn exps_model(items: Seq<Exp>) -> Seq<ExpModel> {
    items.map_values(|e: Exp| e@)
}

/// The mathematical values of a list of facts.
pub open spec fn wrapped_models(values: Seq<Wrapped>) -> Seq<WrappedModel> {
    values.map_values(|w: Wrapped| w@)
}

/// Whether a fact is fully known.
pub open spec fn is_ground(w: WrappedModel) -> bool {
    match w {
        WrappedModel::Int(f) => f is Only,
        WrappedModel::Dim(f) => f is Only,
        WrappedModel::Type(f) => f is Only,
        WrappedModel::Shape(s) => exists|extents: Seq<usize>| s == shape_of_extents(extents),
        WrappedModel::Value(v) => v is Only,
    }
}

/// The unification of two facts, as a fact of the kind of the first. An
/// integer fact and a dimension fact unify where they hold the same number.
pub open spec fn meet_wrapped(a: WrappedModel, b: WrappedModel) -> Result<WrappedModel, Error> {
    match coerce(b, a) {
        Err(e) => Err(e),
        Ok(other) => match (a, other) {
            (WrappedModel::Int(x), WrappedModel::Int(y)) => match meet_int(x, y) {
                Some(f) => Ok(WrappedModel::Int(f)),
                None => Err(Error::Incompatibility),
            },
            (WrappedModel::Dim(x), WrappedModel::Dim(y)) => match meet_dim(x, y) {
                Some(f) => Ok(WrappedModel::Dim(f)),
                None => Err(Error::Incompatibility),
            },
            (WrappedModel::Type(x), WrappedModel::Type(y)) => match meet_type(x, y) {
                Some(f) => Ok(WrappedModel::Type(f)),
                None => Err(Error::Incompatibility),
            },
            (WrappedModel::Shape(x), WrappedModel::Shape(y)) => match meet_shape(x, y) {
                Some(f) => Ok(WrappedModel::Shape(f)),
                None => Err(Error::Incompatibility),
            },
            (WrappedModel::Value(x), WrappedModel::Value(y)) => match meet_value(x, y) {
                Some(f) => Ok(WrappedModel::Value(f)),
                None => Err(Error::Incompatibility),
            },
            _ => Err(Error::WrongKind),
        },
    }
}

/// What the expressions of a list read, or the error of the first that reads nothing.
pub open spec fn read_all(items: Seq<ExpModel>, context: ContextModel) -> Result<
    Seq<WrappedModel>,
    Error,
>
    decreases items.len(),
{
    if items.len() == 0 {
        Ok(Seq::empty())
    } else {
        match read_all(items.drop_last(), context) {
            Err(e) => Err(e),
            Ok(head) => match exp_get(items.last(), context) {
                Err(e) => Err(e),
                Ok(w) => Ok(head.push(w)),
            },
        }
    }
}

/// The unification of the facts of a list, from the first to the last.
pub open spec fn meet_all(values: Seq<WrappedModel>) -> Result<WrappedModel, Error>
    decreases values.len(),
{
    if values.len() <= 1 {
        Ok(values[0])
    } else {
        match meet_all(values.drop_last()) {
            Err(e) => Err(e),
            Ok(head) => meet_wrapped(head, values.last()),
        }
    }
}

/// The context after `unified` was written to each expression of a list, in
/// their order, each time as a fact of the kind that the expression read.
pub open spec fn write_all(
    items: Seq<ExpModel>,
    values: Seq<WrappedModel>,
    unified: WrappedModel,
    context: ContextModel,
) -> Result<ContextModel, Error>
    decreases items.len(),
{
    if items.len() == 0 {
        Ok(context)
    } else {
        match write_all(items.drop_last(), values.drop_last(), unified, context) {
            Err(e) => Err(e),
            Ok(before) => match coerce(unified, values.last()) {
                Err(e) => Err(e),
                Ok(v) => exp_set(items.last(), before, v),
            },
        }
    }
}

/// Whether a fact of a list is fully known.
pub open spec fn any_ground(values: Seq<WrappedModel>) -> bool {
    exists|i: int| 0 <= i < values.len() && is_ground(#[trigger] values[i])
}

/// What the rule that the expressions of a list are equal does to a context:
/// nothing while none of them reads a fully known fact; otherwise it unifies
/// what they read and writes the result to each of them. The flag says
/// whether it wrote.
pub open spec fn apply_equals(items: Seq<ExpModel>, context: ContextModel) -> Result<
    (ContextModel, bool),
    Error,
> {
    match read_all(items, context) {
        Err(e) => Err(e),
        Ok(values) => if !any_ground(values) {
            Ok((context, false))
        } else {
            match meet_all(values) {
                Err(e) => Err(e),
                Ok(unified) => match write_all(items, values, unified, context) {
                    Err(e) => Err(e),
                    Ok(after) => Ok((after, true)),
                },
            }
        },
    }
}

/// Whether a fact is fully known.
pub fn ground(w: &Wrapped) -> (r: bool)
    ensures
        r == is_ground(w@),
{
    match w {
        Wrapped::Int(f) => f.concretize().is_some(),
        Wrapped::Dim(f) => f.concretize().is_some(),
        Wrapped::Type(f) => f.concretize().is_some(),
        Wrapped::Shape(f) => f.concretize().is_some(),
        Wrapped::Value(f) => f.concretize().is_some(),
    }
}

/// The unification of two facts: see `meet_wrapped`.
pub fn meet(a: &Wrapped, b: &Wrapped) -> (r: Result<Wrapped, Error>)
    ensures
        read_as(r, meet_wrapped(a@, b@)),
{
    let other = coerced(b.duplicate(), a)?;
    match (a, &other) {
        (Wrapped::Int(x), Wrapped::Int(y)) => Ok(Wrapped::Int(x.unify(y)?)),
        (Wrapped::Dim(x), Wrapped::Dim(y)) => Ok(Wrapped::Dim(x.unify(y)?)),
        (Wrapped::Type(x), Wrapped::Type(y)) => Ok(Wrapped::Type(x.unify(y)?)),
        (Wrapped::Shape(x), Wrapped::Shape(y)) => Ok(Wrapped::Shape(x.unify(y)?)),
        (Wrapped::Value(x), Wrapped::Value(y)) => Ok(Wrapped::Value(x.unify(y)?)),
        _ => Err(Error::WrongKind),
    }
}

/// What the expressions of a list read.
pub fn read_items(items: &Vec<Exp>, context: &Context) -> (r: Result<Vec<Wrapped>, Error>)
    ensures
        match r {
            Ok(values) => read_all(exps_model(items@), context@) == Ok::<_, Error>(
                wrapped_models(values@),
            ),
            Err(e) => read_all(exps_model(items@), context@) == Err::<Seq<WrappedModel>, _>(e),
        },
{
    let ghost models = exps_model(items@);
    let mut values: Vec<Wrapped> = Vec::new();
    let mut i: usize = 0;
    assert(models.take(0) =~= Seq::<ExpModel>::empty());
    assert(wrapped_models(values@) =~= Seq::<WrappedModel>::empty());
    while i < items.len()
        invariant
            0 <= i <= items@.len(),
            models == exps_model(items@),
            read_all(models.take(i as int), context@) == Ok::<_, Error>(wrapped_models(values@)),
        decreases items@.len() - i,
    {
        proof {
            assert(models.take(i + 1).drop_last() =~= models.take(i as int));
            assert(models.take(i + 1).last() == items@[i as int]@);
        }
        match items[i].read(context) {
            Ok(w) => {
                let ghost before = values@;
                values.push(w);
                assert(wrapped_models(values@) =~= wrapped_models(before).push(w@));
            },
            Err(e) => {
                proof {
                    lemma_read_fails(models, context@, i + 1);
                }
                return Err(e);
            },
        }
        i += 1;
    }
    assert(models.take(items@.len() as int) =~= models);
    Ok(values)
}

/// Where a prefix of a list of expressions fails to read, the whole list
/// fails with the same error.
pub proof fn lemma_read_fails(items: Seq<ExpModel>, context: ContextModel, i: int)
    requires
        0 <= i <= items.len(),
        read_all(items.take(i), context) is Err,
    ensures
        read_all(items, context) == read_all(items.take(i), context),
    decreases items.len(),
{
    if i == items.len() {
        assert(items.take(i) =~= items);
    } else {
        assert(items.drop_last().take(i) =~= items.take(i));
        lemma_read_fails(items.drop_last(), context, i);
    }
}

/// What the expressions of a list read holds as many facts as the list holds expressions.
pub proof fn lemma_read_len(items: Seq<ExpModel>, context: ContextModel)
    requires
        read_all(items, context) is Ok,
    ensures
        read_all(items, context).unwrap().len() == items.len(),
    decreases items.len(),
{
    if items.len() > 0 {
        lemma_read_len(items.drop_last(), context);
    }
}

/// Where a prefix of the writes of a rule fails, all of them fail with the same error.
pub proof fn lemma_write_fails(
    items: Seq<ExpModel>,
    values: Seq<WrappedModel>,
    unified: WrappedModel,
    context: ContextModel,
    i: int,
)
    requires
        items.len() == values.len(),
        0 <= i <= items.len(),
        write_all(items.take(i), values.take(i), unified, context) is Err,
    ensures
        write_all(items, values, unified, context) == write_all(
            items.take(i),
            values.take(i),
            unified,
            context,
        ),
    decreases items.len(),
{
    if i == items.len() {
        assert(items.take(i) =~= items);
        assert(values.take(i) =~= values);
    } else {
        assert(items.drop_last().take(i) =~= items.take(i));
        assert(values.drop_last().take(i) =~= values.take(i));
        lemma_write_fails(items.drop_last(), values.drop_last(), unified, context, i);
    }
}

/// Where a prefix of a list of facts does not unify, the whole list fails
/// with the same error.
pub proof fn lemma_meet_fails(values: Seq<WrappedModel>, i: int)
    requires
        1 <= i <= values.len(),
        meet_all(values.take(i)) is Err,
    ensures
        meet_all(values) == meet_all(values.take(i)),
    decreases values.len(),
{
    if i == values.len() {
        assert(values.take(i) =~= values);
    } else {
        assert(values.drop_last().take(i) =~= values.take(i));
        lemma_meet_fails(values.drop_last(), i);
    }
}

/// The rule that the expressions of a list are equal.
#[derive(Debug)]
pub struct EqualsRule {
    pub items: Vec<Exp>,
}

impl EqualsRule {
    /// The rule that `items` are equal.
    pub fn new(items: Vec<Exp>) -> (r: EqualsRule)
        ensures
            r.items == items,
    {
        EqualsRule { items }
    }

    /// Applies the rule: see `apply_equals`. The result says whether it wrote.
    pub fn apply(&self, context: &mut Context) -> (r: Result<bool, Error>)
        ensures
            match r {
                Ok(wrote) => apply_equals(exps_model(self.items@), old(context)@) == Ok::<
                    _,
                    Error,
                >((final(context)@, wrote)),
                Err(e) => apply_equals(exps_model(self.items@), old(context)@) == Err::<
                    (ContextModel, bool),
                    _,
                >(e),
            },
    {
        let ghost items = exps_model(self.items@);
        let ghost start = context@;
        let values = read_items(&self.items, context)?;
        let ghost facts = wrapped_models(values@);
        proof {
            lemma_read_len(items, start);
        }
        let n = values.len();
        let mut found = false;
        let mut i: usize = 0;
        while i < n
            invariant
                0 <= i <= n,
                n == values@.len(),
                facts == wrapped_models(values@),
                found == any_ground(facts.take(i as int)),
            decreases n - i,
        {
            let g = ground(&values[i]);
            proof {
                let longer = facts.take(i + 1);
                if found {
                    let j = choose|j: int|
                        0 <= j < i && is_ground(#[trigger] facts.take(i as int)[j]);
                    assert(is_ground(longer[j]));
                } else if g {
                    assert(is_ground(longer[i as int]));
                } else {
                    if any_ground(longer) {
                        let j = choose|j: int| 0 <= j < i + 1 && is_ground(#[trigger] longer[j]);
                        if j < i {
                            assert(is_ground(facts.take(i as int)[j]));
                        }
                    }
                }
            }
            found = found || g;
            i += 1;
        }
        assert(facts.take(n as int) =~= facts);
        if !found {
            return Ok(false);
        }
        let mut unified = values[0].duplicate();
        let mut i: usize = 1;
        assert(facts.take(1).len() == 1);
        while i < n
            invariant
                1 <= i <= n,
                n == values@.len(),
                facts == wrapped_models(values@),
                items == exps_model(self.items@),
                start == old(context)@,
                read_all(items, start) == Ok::<_, Error>(facts),
                any_ground(facts),
                meet_all(facts.take(i as int)) == Ok::<_, Error>(unified@),
            decreases n - i,
        {
            proof {
                assert(facts.take(i + 1).drop_last() =~= facts.take(i as int));
                assert(facts.take(i + 1).last() == values@[i as int]@);
            }
            match meet(&unified, &values[i]) {
                Ok(w) => {
                    unified = w;
                },
                Err(e) => {
                    proof {
                        lemma_meet_fails(facts, i + 1);
                    }
                    return Err(e);
                },
            }
            i += 1;
        }
        assert(facts.take(n as int) =~= facts);
        let mut i: usize = 0;
        assert(items.take(0) =~= Seq::<ExpModel>::empty());
        while i < n
            invariant
                0 <= i <= n,
                n == values@.len(),
                n == self.items@.len(),
                items == exps_model(self.items@),
                facts == wrapped_models(values@),
                start == old(context)@,
                read_all(items, start) == Ok::<_, Error>(facts),
                any_ground(facts),
                meet_all(facts) == Ok::<_, Error>(unified@),
                write_all(items.take(i as int), facts.take(i as int), unified@, start) == Ok::<
                    _,
                    Error,
                >(context@),
            decreases n - i,
        {
            proof {
                assert(items.take(i + 1).drop_last() =~= items.take(i as int));
                assert(facts.take(i + 1).drop_last() =~= facts.take(i as int));
                assert(items.take(i + 1).last() == self.items@[i as int]@);
                assert(facts.take(i + 1).last() == values@[i as int]@);
            }
            let step = match coerced(unified.duplicate(), &values[i]) {
                Ok(v) => self.items[i].write(context, v),
                Err(e) => Err(e),
            };
            match step {
                Ok(()) => {},
                Err(e) => {
                    proof {
                        lemma_write_fails(items, facts, unified@, start, i + 1);
                    }
                    return Err(e);
                },
            }
            i += 1;
        }
        assert(items.take(n as int) =~= items);
        Ok(true)
    }
}

/// The integers that the facts of a list hold, or the error of the first
/// that is no integer fact and no dimension fact.
pub open spec fn integers_of(values: Seq<WrappedModel>) -> Result<Seq<Option<int>>, Error>
    decreases values.len(),
{
    if values.len() == 0 {
        Ok(Seq::empty())
    } else {
        match integers_of(values.drop_last()) {
            Err(e) => Err(e),
            Ok(head) => match integer_of(values.last()) {
                Err(e) => Err(e),
                Ok(v) => Ok(head.push(v)),
            },
        }
    }
}

/// How many integers of a list are unknown.
pub open spec fn unknowns(ints: Seq<Option<int>>) -> nat
    decreases ints.len(),
{
    if ints.len() == 0 {
        0
    } else {
        unknowns(ints.drop_last()) + if ints.last() is None {
            1nat
        } else {
            0nat
        }
    }
}

/// The sum of the integers of a list that are known.
pub open spec fn known_sum(ints: Seq<Option<int>>) -> int
    decreases ints.len(),
{
    if ints.len() == 0 {
        0
    } else {
        known_sum(ints.drop_last()) + match ints.last() {
            Some(v) => v,
            None => 0,
        }
    }
}

/// The position of the first unknown integer of a list that holds one.
pub open spec fn first_unknown(ints: Seq<Option<int>>) -> int
    decreases ints.len(),
{
    if ints.len() == 0 {
        0
    } else if unknowns(ints.drop_last()) > 0 {
        first_unknown(ints.drop_last())
    } else {
        ints.len() - 1
    }
}

/// What the rule that the expressions of a list sum to zero does to a
/// context. Where every summand is known, it checks the sum
/// (`Incompatibility`). Where one summand is unknown, it writes to that one
/// what makes the sum zero. Otherwise it does nothing. The flag says whether
/// it wrote.
pub open spec fn apply_equals_zero(items: Seq<ExpModel>, context: ContextModel) -> Result<
    (ContextModel, bool),
    Error,
> {
    match read_all(items, context) {
        Err(e) => Err(e),
        Ok(values) => match integers_of(values) {
            Err(e) => Err(e),
            Ok(ints) => if unknowns(ints) == 0 {
                if known_sum(ints) == 0 {
                    Ok((context, false))
                } else {
                    Err(Error::Incompatibility)
                }
            } else if unknowns(ints) == 1 {
                let at = first_unknown(ints);
                match int_fact(-known_sum(ints)) {
                    Err(e) => Err(e),
                    Ok(v) => match coerce(v, values[at]) {
                        Err(e) => Err(e),
                        Ok(w) => match exp_set(items[at], context, w) {
                            Err(e) => Err(e),
                            Ok(after) => Ok((after, true)),
                        },
                    },
                }
            } else {
                Ok((context, false))
            },
        },
    }
}

/// Where a prefix of a list of facts holds a fact that is no integer, the
/// whole list fails with the same error.
pub proof fn lemma_integers_fail(values: Seq<WrappedModel>, i: int)
    requires
        0 <= i <= values.len(),
        integers_of(values.take(i)) is Err,
    ensures
        integers_of(values) == integers_of(values.take(i)),
    decreases values.len(),
{
    if i == values.len() {
        assert(values.take(i) =~= values);
    } else {
        assert(values.drop_last().take(i) =~= values.take(i));
        lemma_integers_fail(values.drop_last(), i);
    }
}

/// The rule that the expressions of a list sum to zero.
#[derive(Debug)]
pub struct EqualsZeroRule {
    pub items: Vec<Exp>,
}

impl EqualsZeroRule {
    /// The rule that `items` sum to zero.
    pub fn new(items: Vec<Exp>) -> (r: EqualsZeroRule)
        ensures
            r.items == items,
    {
        EqualsZeroRule { items }
    }

    /// Applies the rule: see `apply_equals_zero`. The result says whether it wrote.
    pub fn apply(&self, context: &mut Context) -> (r: Result<bool, Error>)
        ensures
            match r {
                Ok(wrote) => apply_equals_zero(exps_model(self.items@), old(context)@) == Ok::<
                    _,
                    Error,
                >((final(context)@, wrote)),
                Err(e) => apply_equals_zero(exps_model(self.items@), old(context)@) == Err::<
                    (ContextModel, bool),
                    _,
                >(e),
            },
    {
        let ghost items = exps_model(self.items@);
        let ghost start = context@;
        let values = read_items(&self.items, context)?;
        let ghost facts = wrapped_models(values@);
        proof {
            lemma_read_len(items, start);
        }
        let n = values.len();
        let mut sum: i128 = 0;
        let mut missing: usize = 0;
        let mut at: usize = 0;
        let mut i: usize = 0;
        let ghost mut ints: Seq<Option<int>> = Seq::empty();
        assert(facts.take(0) =~= Seq::<WrappedModel>::empty());
        while i < n
            invariant
                0 <= i <= n,
                n == values@.len(),
                facts == wrapped_models(values@),
                items == exps_model(self.items@),
                start == old(context)@,
                context@ == start,
                read_all(items, start) == Ok::<_, Error>(facts),
                integers_of(facts.take(i as int)) == Ok::<_, Error>(ints),
                ints.len() == i,
                missing == unknowns(ints),
                missing <= i,
                sum == known_sum(ints),
                -(i * 0x8000_0000_0000_0000) <= sum <= i * 0x8000_0000_0000_0000,
                missing > 0 ==> at == first_unknown(ints),
                missing > 0 ==> at < i,
            decreases n - i,
        {
            proof {
                assert(facts.take(i + 1).drop_last() =~= facts.take(i as int));
                assert(facts.take(i + 1).last() == values@[i as int]@);
            }
            match integer(&values[i]) {
                Err(e) => {
                    proof {
                        lemma_integers_fail(facts, i + 1);
                    }
                    return Err(e);
                },
                Ok(None) => {
                    if missing == 0 {
                        at = i;
                    }
                    missing += 1;
                    proof {
                        let longer = ints.push(None);
                        assert(longer.drop_last() =~= ints);
                        ints = longer;
                    }
                },
                Ok(Some(v)) => {
                    sum = sum + v as i128;
                    proof {
                        let longer = ints.push(Some(v as int));
                        assert(longer.drop_last() =~= ints);
                        ints = longer;
                    }
                },
            }
            i += 1;
        }
        assert(facts.take(n as int) =~= facts);
        if missing == 0 {
            if sum == 0 {
                Ok(false)
            } else {
                Err(Error::Incompatibility)
            }
        } else if missing == 1 {
            let wanted = -sum;
            if wanted < i64::MIN as i128 || wanted > i64::MAX as i128 {
                return Err(Error::Overflow);
            }
            let value = Wrapped::Int(IntFact::Only(wanted as i64));
            let w = coerced(value, &values[at])?;
            self.items[at].write(context, w)?;
            Ok(true)
        } else {
            Ok(false)
        }
    }
}

/// The mathematical value of a rule.
pub enum RuleModel<P> {
    /// The expressions are equal.
    Equals(Seq<ExpModel>),
    /// The expressions sum to zero.
    EqualsZero(Seq<ExpModel>),
    /// Once the expression is fully known, the producer gives more rules.
    Given(ExpModel, P),
}

/// The rule that gives more rules once an expression is fully known.
#[derive(Debug)]
pub struct GivenRule<P> {
    pub item: Exp,
    pub closure: P,
}

/// A rule of any of the three forms.
#[derive(Debug)]
pub enum Rule<P> {
    Equals(EqualsRule),
    EqualsZero(EqualsZeroRule),
    Given(GivenRule<P>),
}

/// The mathematical value of a rule.
pub open spec fn rule_model<P>(rule: Rule<P>) -> RuleModel<P> {
    match rule {
        Rule::Equals(r) => RuleModel::Equals(exps_model(r.items@)),
        Rule::EqualsZero(r) => RuleModel::EqualsZero(exps_model(r.items@)),
        Rule::Given(r) => RuleModel::Given(r.item@, r.closure),
    }
}

/// The mathematical values of a list of rules.
pub open spec fn rules_model<P>(rules: Seq<Rule<P>>) -> Seq<RuleModel<P>> {
    rules.map_values(|r: Rule<P>| rule_model(r))
}

/// What gives the rules of a `given` rule, from the value that its expression took.
pub trait Producer: Sized {
    /// The rules for a value. A producer that does not say which rules it
    /// gives still gives the same rules for the same value.
    open spec fn produced(&self, value: WrappedModel) -> Seq<RuleModel<Self>> {
        arbitrary()
    }

    /// Gives the rules for a value.
    fn produce(&self, value: &Wrapped) -> (rules: Vec<Rule<Self>>)
        ensures
            rules_model(rules@) == self.produced(value@),
    ;
}

/// The producer of a solver that holds no `given` rule: it gives no rules.
#[derive(Debug, Clone, Copy, PartialEq, Eq, Structural)]
pub struct NoRules;

impl Producer for NoRules {
    open spec fn produced(&self, value: WrappedModel) -> Seq<RuleModel<NoRules>> {
        Seq::empty()
    }

    fn produce(&self, value: &Wrapped) -> (rules: Vec<Rule<NoRules>>) {
        let rules: Vec<Rule<NoRules>> = Vec::new();
        assert(rules_model(rules@) =~= Seq::<RuleModel<NoRules>>::empty());
        rules
    }
}

/// What the application of a rule gives: the context after it, whether the
/// rule was used, and the rules that it added.
pub struct Applied<P> {
    pub context: ContextModel,
    pub used: bool,
    pub added: Seq<RuleModel<P>>,
}

/// What a rule does to a context. A `given` rule is used once its
/// expression reads a fully known fact; it leaves the context as it is and
/// adds the rules that its producer gives for that fact.
#[verifier::opaque]
pub open spec fn apply_rule<P: Producer>(rule: RuleModel<P>, context: ContextModel) -> Result<
    Applied<P>,
    Error,
> {
    match rule {
        RuleModel::Equals(items) => match apply_equals(items, context) {
            Err(e) => Err(e),
            Ok((after, used)) => Ok(Applied { context: after, used, added: Seq::empty() }),
        },
        RuleModel::EqualsZero(items) => match apply_equals_zero(items, context) {
            Err(e) => Err(e),
            Ok((after, used)) => Ok(Applied { context: after, used, added: Seq::empty() }),
        },
        RuleModel::Given(item, producer) => match exp_get(item, context) {
            Err(e) => Err(e),
            Ok(value) => if is_ground(value) {
                Ok(Applied { context, used: true, added: producer.produced(value) })
            } else {
                Ok(Applied { context, used: false, added: Seq::empty() })
            },
        },
    }
}

/// The paths that the expressions of a list read, one list after the other.
pub open spec fn all_paths(items: Seq<ExpModel>) -> Seq<Seq<isize>>
    decreases items.len(),
{
    if items.len() == 0 {
        Seq::empty()
    } else {
        all_paths(items.drop_last()) + exp_paths(items.last())
    }
}

/// The paths that a rule depends on.
pub open spec fn rule_paths<P>(rule: RuleModel<P>) -> Seq<Seq<isize>> {
    match rule {
        RuleModel::Equals(items) => all_paths(items),
        RuleModel::EqualsZero(items) => all_paths(items),
        RuleModel::Given(item, _) => exp_paths(item),
    }
}

/// The paths that the expressions of a list read.
fn paths_of(items: &Vec<Exp>) -> (r: Vec<&Path>)
    ensures
        r@.map_values(|p: &Path| p@) == all_paths(exps_model(items@)),
{
    let ghost models = exps_model(items@);
    let mut out: Vec<&Path> = Vec::new();
    let mut i: usize = 0;
    assert(models.take(0) =~= Seq::<ExpModel>::empty());
    assert(out@.map_values(|p: &Path| p@) =~= Seq::<Seq<isize>>::empty());
    while i < items.len()
        invariant
            0 <= i <= items@.len(),
            models == exps_model(items@),
            out@.map_values(|p: &Path| p@) == all_paths(models.take(i as int)),
        decreases items@.len() - i,
    {
        proof {
            assert(models.take(i + 1).drop_last() =~= models.take(i as int));
            assert(models.take(i + 1).last() == items@[i as int]@);
        }
        let mut more = items[i].paths();
        let ghost before = out@;
        let ghost added = more@;
        out.append(&mut more);
        assert(out@.map_values(|p: &Path| p@) =~= before.map_values(|p: &Path| p@)
            + added.map_values(|p: &Path| p@));
        i += 1;
    }
    assert(models.take(items@.len() as int) =~= models);
    out
}

impl<P: Producer> GivenRule<P> {
    /// The rule that `closure` gives more rules once `item` is fully known.
    pub fn new(item: Exp, closure: P) -> (r: GivenRule<P>)
        ensures
            r.item == item,
            r.closure == closure,
    {
        GivenRule { item, closure }
    }
}

impl<P: Producer> Rule<P> {
    /// Applies the rule to a context: see `apply_rule`. The result says
    /// whether the rule was used, and holds the rules that it added.
    pub fn apply(&self, context: &mut Context) -> (r: Result<(bool, Vec<Rule<P>>), Error>)
        ensures
            match r {
                Ok((used, added)) => apply_rule(rule_model(*self), old(context)@) == Ok::<
                    _,
                    Error,
                >(Applied { context: final(context)@, used, added: rules_model(added@) }),
                Err(e) => apply_rule(rule_model(*self), old(context)@) == Err::<Applied<P>, _>(e),
            },
    {
        reveal(apply_rule);
        match self {
            Rule::Equals(rule) => {
                let used = rule.apply(context)?;
                let added: Vec<Rule<P>> = Vec::new();
                assert(rules_model(added@) =~= Seq::<RuleModel<P>>::empty());
                Ok((used, added))
            },
            Rule::EqualsZero(rule) => {
                let used = rule.apply(context)?;
                let added: Vec<Rule<P>> = Vec::new();
                assert(rules_model(added@) =~= Seq::<RuleModel<P>>::empty());
                Ok((used, added))
            },
            Rule::Given(rule) => {
                let value = rule.item.read(context)?;
                if ground(&value) {
                    Ok((true, rule.closure.produce(&value)))
                } else {
                    let added: Vec<Rule<P>> = Vec::new();
                    assert(rules_model(added@) =~= Seq::<RuleModel<P>>::empty());
                    Ok((false, added))
                }
            },
        }
    }

    /// The paths that the rule depends on.
    pub fn get_paths(&self) -> (r: Vec<&Path>)
        ensures
            r@.map_values(|p: &Path| p@) == rule_paths(rule_model(*self)),
    {
        match self {
            Rule::Equals(rule) => paths_of(&rule.items),
            Rule::EqualsZero(rule) => paths_of(&rule.items),
            Rule::Given(rule) => rule.item.paths(),
        }
    }
}

} // verus!
