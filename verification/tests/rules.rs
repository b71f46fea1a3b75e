use tfdeploy::arith::exact_div;
use tfdeploy::context::Context;
use tfdeploy::expressions::{
    coerced, integer, scaled, unscaled, ConstantExpression, Exp, Expression, IntoExpression,
    Output, ProductExpression, VariableExpression, Wrapped,
};
use tfdeploy::facts::{DimFact, IntFact, ShapeFact, TensorFact, TypeFact, ValueFact};
use tfdeploy::path::Path;
use tfdeploy::proxies::{ComparableProxy, TensorsProxy};
use tfdeploy::rules::{ground, meet, EqualsRule, EqualsZeroRule, GivenRule, NoRules, Rule};
use tfdeploy::solver::Solver;
use tfdeploy::tensor::DataType;
use tfdeploy::Error;

fn variable(path: &[isize]) -> Exp {
    Exp::Variable(VariableExpression(Path::from(path.to_vec())))
}

fn number(k: i64) -> Exp {
    Exp::Constant(ConstantExpression(Wrapped::Int(IntFact::Only(k))))
}

fn times(k: i64, e: Exp) -> Exp {
    Exp::Product(k, Box::new(e))
}

fn shaped(shape: ShapeFact) -> TensorFact {
    TensorFact {
        datatype: TypeFact::Any,
        shape,
        value: ValueFact::Any,
    }
}

#[test]
fn exact_division() {
    assert_eq!(exact_div(12, 4), Ok(3));
    assert_eq!(exact_div(-12, 4), Ok(-3));
    assert_eq!(exact_div(12, -4), Ok(-3));
    assert_eq!(exact_div(0, 5), Ok(0));
    assert_eq!(exact_div(7, 2), Err(Error::NotDivisible));
    assert_eq!(exact_div(-7, 2), Err(Error::NotDivisible));
    assert_eq!(exact_div(i64::MIN, -1), Err(Error::Overflow));
    assert_eq!(exact_div(i64::MIN, 1), Ok(i64::MIN));
    assert_eq!(exact_div(i64::MIN, i64::MIN), Ok(1));
    assert_eq!(exact_div(i64::MAX, i64::MIN), Err(Error::NotDivisible));
}

#[test]
fn facts_are_wrapped_by_their_kind() {
    assert_eq!(IntFact::Only(3).wrap(), Wrapped::Int(IntFact::Only(3)));
    assert_eq!(DimFact::from_wrapped(Wrapped::Dim(DimFact::Any)), Ok(DimFact::Any));
    assert_eq!(
        TypeFact::from_wrapped(Wrapped::Int(IntFact::Any)),
        Err(Error::WrongKind)
    );
    assert_eq!(
        ShapeFact::from_wrapped(ShapeFact::from(&[1]).wrap()),
        Ok(ShapeFact::from(&[1]))
    );
    assert_eq!(
        ValueFact::from_wrapped(Wrapped::Type(TypeFact::Any)),
        Err(Error::WrongKind)
    );
    assert_eq!(
        Output::into_wrapped(TypeFact::Only(DataType::I8)),
        Wrapped::Type(TypeFact::Only(DataType::I8))
    );
}

#[test]
fn integers_move_between_kinds() {
    assert_eq!(integer(&Wrapped::Int(IntFact::Only(-3))), Ok(Some(-3)));
    assert_eq!(integer(&Wrapped::Dim(DimFact::Only(3))), Ok(Some(3)));
    assert_eq!(integer(&Wrapped::Dim(DimFact::Any)), Ok(None));
    assert_eq!(integer(&Wrapped::Type(TypeFact::Any)), Err(Error::WrongKind));
    assert_eq!(
        integer(&Wrapped::Dim(DimFact::Only(usize::MAX))),
        Err(Error::Overflow)
    );
    let dim = Wrapped::Dim(DimFact::Any);
    let int = Wrapped::Int(IntFact::Any);
    assert_eq!(
        coerced(Wrapped::Int(IntFact::Only(4)), &dim),
        Ok(Wrapped::Dim(DimFact::Only(4)))
    );
    assert_eq!(
        coerced(Wrapped::Int(IntFact::Only(-4)), &dim),
        Err(Error::Incompatibility)
    );
    assert_eq!(
        coerced(Wrapped::Dim(DimFact::Only(4)), &int),
        Ok(Wrapped::Int(IntFact::Only(4)))
    );
    assert_eq!(coerced(Wrapped::Dim(DimFact::Any), &int), Ok(Wrapped::Int(IntFact::Any)));
    assert_eq!(
        coerced(Wrapped::Type(TypeFact::Any), &int),
        Err(Error::WrongKind)
    );
    assert_eq!(scaled(3, &Wrapped::Int(IntFact::Only(-4))), Ok(Wrapped::Int(IntFact::Only(-12))));
    assert_eq!(scaled(3, &Wrapped::Dim(DimFact::Any)), Ok(Wrapped::Int(IntFact::Any)));
    assert_eq!(
        scaled(2, &Wrapped::Int(IntFact::Only(i64::MAX))),
        Err(Error::Overflow)
    );
    assert_eq!(
        unscaled(3, &Wrapped::Int(IntFact::Only(12))),
        Ok(Some(Wrapped::Int(IntFact::Only(4))))
    );
    assert_eq!(unscaled(3, &Wrapped::Int(IntFact::Only(13))), Err(Error::NotDivisible));
    assert_eq!(unscaled(0, &Wrapped::Int(IntFact::Only(0))), Ok(None));
    assert_eq!(unscaled(0, &Wrapped::Int(IntFact::Only(1))), Err(Error::Incompatibility));
    assert_eq!(unscaled(5, &Wrapped::Int(IntFact::Any)), Ok(None));
    assert_eq!(
        unscaled(-1, &Wrapped::Int(IntFact::Only(i64::MIN))),
        Err(Error::Overflow)
    );
}

#[test]
fn expressions_read_and_write() {
    let mut c = Context::new(vec![shaped(ShapeFact::open(vec![DimFact::Only(6)]))], vec![]);
    let constant = ConstantExpression(Wrapped::Int(IntFact::Only(2)));
    assert_eq!(constant.get(&c), Ok(Wrapped::Int(IntFact::Only(2))));
    assert_eq!(constant.set(&mut c, Wrapped::Int(IntFact::Only(2))), Ok(()));
    assert_eq!(
        constant.set(&mut c, Wrapped::Int(IntFact::Only(3))),
        Err(Error::Incompatibility)
    );
    assert!(constant.get_paths().is_empty());

    let dim = VariableExpression(Path::from(vec![0, 0, 2, 0]));
    assert_eq!(dim.get(&c), Ok(Wrapped::Dim(DimFact::Only(6))));
    assert_eq!(dim.get_paths(), vec![&Path::from(vec![0, 0, 2, 0])]);

    let product = ProductExpression(3, VariableExpression(Path::from(vec![0, 0, 2, 1])));
    assert_eq!(product.get(&c), Ok(Wrapped::Int(IntFact::Any)));
    assert_eq!(
        product.set(&mut c, Wrapped::Int(IntFact::Only(10))),
        Err(Error::NotDivisible)
    );
    assert_eq!(product.set(&mut c, Wrapped::Int(IntFact::Only(12))), Ok(()));
    assert_eq!(
        c.inputs[0].shape,
        ShapeFact::open(vec![DimFact::Only(6), DimFact::Only(4)])
    );
    assert_eq!(product.get(&c), Ok(Wrapped::Int(IntFact::Only(12))));
    assert_eq!(product.get_paths().len(), 1);

    let zero = times(0, variable(&[0, 0, 2, 0]));
    assert_eq!(zero.read(&c), Ok(Wrapped::Int(IntFact::Only(0))));
    assert_eq!(zero.write(&mut c, Wrapped::Int(IntFact::Only(0))), Ok(()));
    assert_eq!(
        zero.write(&mut c, Wrapped::Int(IntFact::Only(5))),
        Err(Error::Incompatibility)
    );
    let nested = times(2, times(-3, variable(&[0, 0, 2, 0])));
    assert_eq!(nested.read(&c), Ok(Wrapped::Int(IntFact::Only(-36))));
    assert_eq!(nested.paths().len(), 1);
    let boxed = (2isize, 5isize).into_expr().boxed();
    assert_eq!(boxed.read(&c), Ok(Wrapped::Int(IntFact::Only(10))));
    let typed = DataType::U8.into_expr();
    assert_eq!(typed.get(&c), Ok(Wrapped::Type(TypeFact::Only(DataType::U8))));
}

#[test]
fn ground_facts_and_their_unification() {
    assert!(ground(&Wrapped::Int(IntFact::Only(1))));
    assert!(!ground(&Wrapped::Int(IntFact::Any)));
    assert!(ground(&Wrapped::Shape(ShapeFact::from(&[1, 2]))));
    assert!(!ground(&Wrapped::Shape(ShapeFact::open(vec![DimFact::Only(1)]))));
    assert!(!ground(&Wrapped::Shape(ShapeFact::closed(vec![DimFact::Any]))));
    assert_eq!(
        meet(&Wrapped::Int(IntFact::Only(3)), &Wrapped::Dim(DimFact::Any)),
        Ok(Wrapped::Int(IntFact::Only(3)))
    );
    assert_eq!(
        meet(&Wrapped::Int(IntFact::Only(3)), &Wrapped::Dim(DimFact::Only(4))),
        Err(Error::Incompatibility)
    );
    assert_eq!(
        meet(&Wrapped::Int(IntFact::Only(3)), &Wrapped::Type(TypeFact::Any)),
        Err(Error::WrongKind)
    );
}

#[test]
fn equals_writes_the_known_value_everywhere() {
    let mut c = Context::new(
        vec![shaped(ShapeFact::open(vec![DimFact::Only(6)])), TensorFact::new()],
        vec![TensorFact::new()],
    );
    let rule = EqualsRule::new(vec![
        variable(&[0, 0, 2, 0]),
        variable(&[0, 1, 2, 0]),
        variable(&[1, 0, 1]),
    ]);
    assert_eq!(rule.apply(&mut c), Ok(true));
    assert_eq!(c.inputs[1].shape, ShapeFact::open(vec![DimFact::Only(6)]));
    assert_eq!(c.outputs[0].shape, ShapeFact::unknown_dims(6, false));
    let idle = EqualsRule::new(vec![variable(&[0, 0, 0]), variable(&[1, 0, 0])]);
    let before = (c.inputs.clone(), c.outputs.clone());
    assert_eq!(idle.apply(&mut c), Ok(false));
    assert_eq!((c.inputs.clone(), c.outputs.clone()), before);
    let clash = EqualsRule::new(vec![variable(&[0, 0, 2, 0]), number(5)]);
    assert_eq!(clash.apply(&mut c), Err(Error::Incompatibility));
    let kinds = EqualsRule::new(vec![
        variable(&[0, 0, 2, 0]),
        Exp::Constant(ConstantExpression(Wrapped::Type(TypeFact::Any))),
    ]);
    assert_eq!(kinds.apply(&mut c), Err(Error::WrongKind));
}

#[test]
fn equals_zero_solves_for_the_one_unknown() {
    let mut c = Context::new(
        vec![shaped(ShapeFact::open(vec![DimFact::Only(6), DimFact::Only(2)]))],
        vec![TensorFact::new()],
    );
    let rule = EqualsZeroRule::new(vec![
        times(-2, variable(&[1, 0, 2, 0])),
        times(1, variable(&[0, 0, 2, 0])),
        times(3, variable(&[0, 0, 2, 1])),
    ]);
    assert_eq!(rule.apply(&mut c), Ok(true));
    assert_eq!(c.outputs[0].shape, ShapeFact::open(vec![DimFact::Only(6)]));
    assert_eq!(rule.apply(&mut c), Ok(false));
    let two_unknown = EqualsZeroRule::new(vec![
        variable(&[1, 0, 2, 1]),
        variable(&[1, 0, 2, 2]),
        number(3),
    ]);
    assert_eq!(two_unknown.apply(&mut c), Ok(false));
    let wrong = EqualsZeroRule::new(vec![variable(&[0, 0, 2, 0]), number(-5)]);
    assert_eq!(wrong.apply(&mut c), Err(Error::Incompatibility));
    let odd = EqualsZeroRule::new(vec![times(4, variable(&[1, 0, 2, 1])), number(6)]);
    assert_eq!(odd.apply(&mut c), Err(Error::NotDivisible));
    let negative = EqualsZeroRule::new(vec![variable(&[1, 0, 2, 1]), number(6)]);
    assert_eq!(negative.apply(&mut c), Err(Error::Incompatibility));
    let typed = EqualsZeroRule::new(vec![variable(&[1, 0, 0]), number(6)]);
    assert_eq!(typed.apply(&mut c), Err(Error::WrongKind));
}

#[test]
fn given_waits_for_a_known_value() {
    let mut c = Context::new(vec![TensorFact::new()], vec![]);
    let rule: Rule<NoRules> = Rule::Given(GivenRule::new(variable(&[0, 0, 1]), NoRules));
    let (used, added) = rule.apply(&mut c).unwrap();
    assert!(!used);
    assert!(added.is_empty());
    c.inputs[0].shape = ShapeFact::from(&[1, 2]);
    let (used, added) = rule.apply(&mut c).unwrap();
    assert!(used);
    assert!(added.is_empty());
    assert_eq!(rule.get_paths(), vec![&Path::from(vec![0, 0, 1])]);
}

#[test]
fn solver_only_refines() {
    let inputs = TensorsProxy::new(vec![0]);
    let outputs = TensorsProxy::new(vec![1]);
    let mut solver = Solver::<NoRules>::new();
    solver.equals(&inputs.at(0).shape, &outputs.at(0).shape);
    solver.equals(&inputs.at(0).datatype, DataType::I8);
    solver.equals_zero(vec![
        times(1, variable(&[1, 0, 1])),
        number(-2),
    ]);
    let given = (
        vec![shaped(ShapeFact::open(vec![DimFact::Only(3)]))],
        vec![shaped(ShapeFact::open(vec![DimFact::Only(3), DimFact::Only(4)]))],
    );
    let (ins, outs) = solver.infer((given.0.clone(), given.1.clone())).unwrap();
    assert_eq!(ins.len(), 1);
    assert_eq!(outs.len(), 1);
    assert_eq!(ins[0].unify(&given.0[0]), Ok(ins[0].clone()));
    assert_eq!(outs[0].unify(&given.1[0]), Ok(outs[0].clone()));
    assert_eq!(outs[0].shape, ShapeFact::from(&[3, 4]));
    assert_eq!(ins[0].shape, ShapeFact::from(&[3, 4]));
    assert_eq!(ins[0].datatype, TypeFact::Only(DataType::I8));
    assert_eq!(inputs.at(0).rank.get_path(), &Path::from(vec![0, 0, 1]));
    assert_eq!(inputs.len.get_path(), &Path::from(vec![0, -1]));
    assert_eq!(
        outputs.at(2).value.at(1).at(0).get_path(),
        &Path::from(vec![1, 2, 3, 1, 0])
    );
}

#[test]
fn equals_waits_for_a_fully_known_fact() {
    let inputs = TensorsProxy::new(vec![0]);
    let outputs = TensorsProxy::new(vec![1]);
    let mut solver = Solver::<NoRules>::new();
    solver.equals(&inputs.at(0).shape, &outputs.at(0).shape);
    let given = (
        vec![shaped(ShapeFact::open(vec![DimFact::Only(3)]))],
        vec![shaped(ShapeFact::closed(vec![DimFact::Any, DimFact::Only(4)]))],
    );
    let (ins, outs) = solver.infer((given.0.clone(), given.1.clone())).unwrap();
    assert_eq!(ins, given.0);
    assert_eq!(outs, given.1);
}

#[test]
fn solver_hands_its_rules_over() {
    let mut solver = Solver::<NoRules>::new();
    solver.equals(1isize, 1isize);
    solver.given(3isize, NoRules);
    solver.equals_all(vec![number(1), number(1), number(1)]);
    let rules = solver.take_rules();
    assert_eq!(rules.len(), 3);
    assert!(matches!(rules[1], Rule::Given(_)));
}
