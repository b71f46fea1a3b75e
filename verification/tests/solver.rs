use tfdeploy::facts::{DimFact, ShapeFact, TensorFact, TypeFact};
use tfdeploy::proxies::TensorsProxy;
use tfdeploy::rules::NoRules;
use tfdeploy::solver::Solver;
use tfdeploy::tensor::DataType;
use tfdeploy::Error;

fn bootstrap() -> (Solver<NoRules>, TensorsProxy, TensorsProxy) {
    (Solver::new(), TensorsProxy::new(vec![0]), TensorsProxy::new(vec![1]))
}

fn with_shape(shape: ShapeFact) -> TensorFact {
    TensorFact { shape, ..TensorFact::new() }
}

#[test]
#[should_panic]
fn solver_wrong_size_1() {
    let (mut solver, inputs, _) = bootstrap();
    solver.equals(&inputs.len, 2);
    solver.infer((vec![], vec![])).unwrap();
}

#[test]
#[should_panic]
fn solver_wrong_size_2() {
    let (mut solver, inputs, _) = bootstrap();
    solver.equals(&inputs.at(0).rank, 2);
    solver.infer((vec![], vec![])).unwrap();
}

#[test]
fn solver_exact_size() {
    let (mut solver, inputs, _) = bootstrap();
    solver.equals(&inputs.len, 1);

    let facts = solver.infer((vec![TensorFact::new()], vec![])).unwrap();
    assert_eq!(facts, (vec![TensorFact::new()], vec![]));
}

#[test]
fn solver_dynamic_size() {
    let (mut solver, inputs, _) = bootstrap();
    solver.equals(&inputs.at(1).datatype, DataType::I32);

    let facts = solver.infer((vec![TensorFact::new(), TensorFact::new()], vec![])).unwrap();
    let expected = (
        vec![
            TensorFact::new(),
            TensorFact { datatype: TypeFact::Only(DataType::I32), ..TensorFact::new() },
        ],
        vec![],
    );

    assert_eq!(facts, expected);
}

#[test]
fn solver_exact_rank() {
    let (mut solver, inputs, _) = bootstrap();
    solver.equals(&inputs.at(0).rank, 2);

    let facts = solver.infer((vec![TensorFact::new()], vec![])).unwrap();
    let expected = (
        vec![with_shape(ShapeFact::closed(vec![DimFact::Any, DimFact::Any]))],
        vec![],
    );

    assert_eq!(facts, expected);
}

#[test]
fn solver_dynamic_rank() {
    let (mut solver, inputs, _) = bootstrap();
    solver.equals(&inputs.at(0).shape.dim(1), 0);

    let facts = solver.infer((vec![TensorFact::new()], vec![])).unwrap();
    let expected = (
        vec![with_shape(ShapeFact::open(vec![DimFact::Any, DimFact::Only(0)]))],
        vec![],
    );

    assert_eq!(facts, expected);
}

#[test]
fn solver_ranks() {
    let (mut solver, inputs, _) = bootstrap();
    let input = inputs.at(0);
    solver.equals(&input.rank, 3);
    solver.equals(&input.shape.dim(0), &input.shape.dim(1));
    solver.equals(&input.shape.dim(1), &input.shape.dim(2));
    solver.equals(&input.shape.dim(1), 3);

    let facts = solver.infer((vec![TensorFact::new()], vec![])).unwrap();
    let expected = (
        vec![with_shape(ShapeFact::closed(vec![
            DimFact::Only(3),
            DimFact::Only(3),
            DimFact::Only(3),
        ]))],
        vec![],
    );

    assert_eq!(facts, expected);
}

#[test]
#[should_panic]
fn solver_wrong_constant() {
    let (mut solver, _, _) = bootstrap();
    solver.equals(1, 2);
    solver.infer((vec![], vec![])).unwrap();
}

#[test]
fn solver_right_constant() {
    let (mut solver, _, _) = bootstrap();
    solver.equals(2, 2);
    solver.infer((vec![], vec![])).unwrap();
}

#[test]
fn solver_backward_1() {
    let (mut solver, inputs, outputs) = bootstrap();
    solver.equals(&inputs.at(0).shape.dim(1), &outputs.at(0).shape.dim(1));

    let facts = solver.infer((vec![TensorFact::new()], vec![TensorFact::new()])).unwrap();
    let expected = (vec![TensorFact::new()], vec![TensorFact::new()]);

    assert_eq!(facts, expected);
}

#[test]
fn solver_backward_2() {
    let (mut solver, inputs, outputs) = bootstrap();
    solver.equals(&inputs.at(0).shape.dim(1), &outputs.at(0).shape.dim(1));

    let output = with_shape(ShapeFact::closed(vec![DimFact::Any, DimFact::Only(2), DimFact::Any]));
    let facts = solver.infer((vec![TensorFact::new()], vec![output.clone()])).unwrap();
    let expected = (
        vec![with_shape(ShapeFact::open(vec![DimFact::Any, DimFact::Only(2)]))],
        vec![output.clone()],
    );

    assert_eq!(facts, expected);
}

#[test]
fn solver_reports_incompatibility() {
    let (mut solver, _, _) = bootstrap();
    solver.equals(1, 2);
    assert_eq!(solver.infer((vec![], vec![])), Err(Error::Incompatibility));
}
